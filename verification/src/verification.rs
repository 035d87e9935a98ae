//! The verification engine's decisions: how much of the device to read
//! back, and whether the two content digests agree.
//!
//! The digests themselves are computed by an external digest tool run by
//! the caller; this module fixes the byte range to read, extracts each
//! digest token from the tool's raw output, and compares the tokens as
//! case-sensitive strings.

use vstd::prelude::*;
use vstd::string::*;

use crate::errors::BurnError;
use crate::text::first_token;
use crate::text::token_span;

verus! {

/// Number of 512-byte sectors needed to cover `len` bytes, rounding up.
///
/// A read of this many sectors from the target device covers exactly the
/// byte range that an image of length `len` occupies: verification reads
/// back only the first `len` bytes' worth of sectors, never the whole
/// device.
pub fn sectors_for_image(len: u64) -> (sectors: u64)
    ensures
        sectors == len / 512 + if len % 512 == 0 {
            0int
        } else {
            1int
        },
        sectors * 512 >= len,
        len > 0 ==> (sectors - 1) * 512 < len,
{
    let sectors = len / 512 + if len % 512 == 0 {
        0
    } else {
        1
    };
    sectors
}

/// The digest token in a digest tool's output: the tool prints the digest
/// first, followed by the file name (or a dash for piped input), so the
/// token is the output's first whitespace-delimited field.
pub fn extract_digest(output: &str) -> (r: String)
    ensures
        r@ == first_token(output@),
{
    let (start, end) = token_span(output);
    let tok = output.substring_char(start, end);
    tok.to_owned()
}

/// The two digest outputs agree: both carry a digest token and the tokens
/// are equal, character for character.
pub open spec fn digests_match(image_output: Seq<char>, device_output: Seq<char>) -> bool {
    first_token(image_output) == first_token(device_output) && first_token(image_output).len() > 0
}

/// Decide verification from the raw output of the digest tool run over
/// the source image and over the device's read-back byte range. Equal
/// digests mean the device holds an exact copy; unequal digests are a
/// mismatch, reported with both digests and distinct from a write
/// failure. Output without any digest token never passes.
pub fn verify_outcome(image_output: &str, device_output: &str) -> (r: Result<(), BurnError>)
    ensures
        r is Ok <==> digests_match(image_output@, device_output@),
        r matches Err(e) ==> e matches BurnError::VerifyMismatch { expected, actual }
            && expected@ == first_token(image_output@) && actual@ == first_token(device_output@),
{
    let expected = extract_digest(image_output);
    let actual = extract_digest(device_output);
    let same = crate::text::str_equal(expected.as_str(), actual.as_str());
    if same && expected.as_str().unicode_len() > 0 {
        Ok(())
    } else {
        Err(BurnError::VerifyMismatch { expected, actual })
    }
}

} // verus!
