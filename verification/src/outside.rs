//! The two outside calls the core makes: decoding a base64 payload and
//! drawing a fresh artifact token.  Each stands behind a single trusted
//! wrapper; everything around them is verified.

use vstd::prelude::*;
use base64::Engine as _;

verus! {

/// The bytes that standard base64 decoding yields for the given input
/// characters, or nothing when the input is not valid base64.
pub uninterp spec fn base64_decoded(s: Seq<char>) -> Option<Seq<u8>>;

/// The rendering of the decode failure for the given (invalid) input.
pub uninterp spec fn base64_decode_err(s: Seq<char>) -> Seq<char>;

/// Relies on `base64::engine::general_purpose::STANDARD.decode` (RFC 4648
/// standard alphabet with `=` padding): whether decoding succeeds, the bytes
/// it yields, and the rendering of its failure are functions of the input
/// characters alone.
#[verifier::external_body]
pub(crate) fn base64_decode(s: &str) -> (r: Result<Vec<u8>, String>)
    ensures
        match r {
            Ok(v) => base64_decoded(s@) == Some(v@),
            Err(t) => base64_decoded(s@) is None && t@ == base64_decode_err(s@),
        },
{
    match base64::engine::general_purpose::STANDARD.decode(s) {
        Ok(v) => Ok(v),
        Err(e) => Err(e.to_string()),
    }
}

/// Relies on `uuid::Uuid::new_v4` and its hyphenated `Display` form: a
/// fresh random 128-bit token rendered as 36 characters.  Nothing is
/// promised about which token comes back.
#[verifier::external_body]
pub(crate) fn fresh_token() -> (r: String)
    ensures
        r@.len() == 36,
{
    uuid::Uuid::new_v4().to_string()
}

} // verus!
