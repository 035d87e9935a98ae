//! The error taxonomy of a write/verify operation.

use vstd::prelude::*;

verus! {

/// Everything that can stop an operation, from validation to verification.
#[derive(Clone, Debug, PartialEq, Eq)]
pub enum BurnError {
    /// The catalog found no candidate device: recoverable, never fatal.
    NoDevicesFound,
    /// The image is larger than the target device: refused before any
    /// destructive action.
    SizeMismatch { image_size: u64, device_size: u64 },
    /// A confirmation step was declined: the same outcome as a no-op.
    UserCancelled,
    /// A required tool could not be spawned; carries the tool's name.
    SubprocessLaunchFailure { tool: String },
    /// The copy or read subprocess exited unsuccessfully; carries its
    /// exit code.
    SubprocessExitFailure { code: i32 },
    /// The source and device digests differ: the write completed but the
    /// copy may be incomplete or the device unreliable.
    VerifyMismatch { expected: String, actual: String },
}

impl BurnError {
    /// Errors that end the operation with a failure exit status. A size
    /// mismatch, a declined confirmation or an empty catalog are handled
    /// where they are detected and leave the process's exit status clean.
    pub open spec fn fatal_spec(&self) -> bool {
        match self {
            BurnError::NoDevicesFound => false,
            BurnError::SizeMismatch { .. } => false,
            BurnError::UserCancelled => false,
            BurnError::SubprocessLaunchFailure { .. } => true,
            BurnError::SubprocessExitFailure { .. } => true,
            BurnError::VerifyMismatch { .. } => true,
        }
    }

    pub fn fatal(&self) -> (r: bool)
        ensures
            r == self.fatal_spec(),
    {
        match self {
            BurnError::NoDevicesFound => false,
            BurnError::SizeMismatch { .. } => false,
            BurnError::UserCancelled => false,
            BurnError::SubprocessLaunchFailure { .. } => true,
            BurnError::SubprocessExitFailure { .. } => true,
            BurnError::VerifyMismatch { .. } => true,
        }
    }

    /// A remediation hint for subprocess failures: what a user should
    /// check before retrying. Empty for every other error.
    pub fn remediation(&self) -> (r: &'static str)
        ensures
            self is SubprocessExitFailure ==> r@ =~= (
            "run as root; check that the device is still connected")@,
            self is SubprocessLaunchFailure ==> r@ =~= (
            "install the missing tool and make sure it is on PATH")@,
            !(self is SubprocessExitFailure) && !(self is SubprocessLaunchFailure) ==> r@ =~= (
            "")@,
    {
        match self {
            BurnError::SubprocessExitFailure { .. } => {
                "run as root; check that the device is still connected"
            },
            BurnError::SubprocessLaunchFailure { .. } => {
                "install the missing tool and make sure it is on PATH"
            },
            _ => "",
        }
    }
}

} // verus!
