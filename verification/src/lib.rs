//! Safe writing of disk images to removable storage devices.
//!
//! The crate covers the decision logic of an image writer: enumerating
//! candidate target devices from block-device metadata, a staged double
//! confirmation before any destructive action, parsing the progress stream
//! of a block-copy subprocess, planning the write itself, and comparing
//! content digests after the write. All input/output — reading the metadata
//! tree, prompting, spawning subprocesses — is left to the binary around
//! the library, which feeds plain values in and carries actions out.

pub mod catalog;
pub mod errors;
pub mod mounts;
pub mod orchestrate;
pub mod progress;
pub mod safety;
pub mod text;
pub mod verification;
