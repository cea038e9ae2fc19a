//! Identifier and timestamp generation, and the two content-hashing
//! primitives the dedup signature is built from. Everything here wraps an
//! outside crate or a std function that the verifier has no specification
//! for; each wrapper's contract states only what that code's source shows.

use vstd::prelude::*;

verus! {

/// What `str::to_lowercase` returns for a given character sequence. The
/// full Unicode lowercase mapping is not written out here; the name only
/// fixes that the result depends on the input characters alone.
pub uninterp spec fn lower_of(s: Seq<char>) -> Seq<char>;

/// What the MD5 digest of a character sequence prints as in lowercase
/// hexadecimal. The algorithm itself is not written out here; the name
/// only fixes that the result depends on the input characters alone.
pub uninterp spec fn md5_hex_of(s: Seq<char>) -> Seq<char>;

/// Generate a fresh identifier (used for execution and investigation ids).
///
/// Relies on `uuid::Uuid::new_v4` and its `Display` impl: a version-4 UUID
/// formats as 36 characters (32 hexadecimal digits and 4 hyphens). Nothing
/// else is assumed: the identifier is random.
#[verifier::external_body]
pub fn gen_id() -> (r: String)
    ensures
        r@.len() == 36,
{
    uuid::Uuid::new_v4().to_string()
}

/// Generate the current timestamp in ISO 8601 UTC format with microsecond
/// precision.
///
/// Relies on `chrono::Utc::now` and `format`: the pattern used here prints
/// a four-digit year, so the result is always 27 characters. Nothing else
/// is assumed: the timestamp depends on the clock.
#[verifier::external_body]
pub fn gen_datetimenow() -> (r: String)
    ensures
        r@.len() == 27,
{
    chrono::Utc::now().format("%Y-%m-%dT%H:%M:%S%.6fZ").to_string()
}

/// Relies on `str::to_lowercase`: the result is a function of the input
/// characters alone, and an empty input gives an empty result.
#[verifier::external_body]
pub(crate) fn lowercase(s: &str) -> (r: String)
    ensures
        r@ == lower_of(s@),
        s@.len() == 0 ==> r@.len() == 0,
{
    s.to_lowercase()
}

/// Relies on `md5::compute` and the `LowerHex` impl of `md5::Digest`: the
/// digest is 16 bytes and each byte prints as two lowercase hexadecimal
/// digits, so the result is a function of the input alone and is 32
/// characters long.
#[verifier::external_body]
pub(crate) fn md5_hex(s: &str) -> (r: String)
    ensures
        r@ == md5_hex_of(s@),
        r@.len() == 32,
{
    format!("{:x}", md5::compute(s))
}

} // verus!
