//! Target-format resolution: case-insensitive, alias-aware normalization of
//! a requested format string to a canonical tag.

use vstd::prelude::*;
use vstd::string::StrSliceExecFns;
use vstd::string::StringExecFns;
use crate::types::ConversionError;

verus! {

/// A canonical target format tag.
#[derive(Debug, Clone, Copy, PartialEq, Eq, Structural)]
pub enum Format {
    Pdf,
    Jpeg,
    Png,
    Docx,
}

/// ASCII upper-casing of a single character; anything outside `a..z` is
/// left unchanged.
pub open spec fn upper_char(c: char) -> char {
    if 'a' <= c && c <= 'z' {
        ((c as u8) - 32) as char
    } else {
        c
    }
}

/// Character-wise ASCII upper-casing of a string.
pub open spec fn upper_seq(s: Seq<char>) -> Seq<char> {
    s.map_values(|c: char| upper_char(c))
}

/// Resolution of a requested format string: a case-insensitive match against
/// the canonical set, with `JPG` accepted as an alias of `JPEG`.  Any other
/// string resolves to nothing.
pub open spec fn spec_resolve(s: Seq<char>) -> Option<Format> {
    if s.len() == 3 && upper_char(s[0]) == 'P' && upper_char(s[1]) == 'D' && upper_char(s[2])
        == 'F' {
        Some(Format::Pdf)
    } else if s.len() == 4 && upper_char(s[0]) == 'J' && upper_char(s[1]) == 'P' && upper_char(
        s[2],
    ) == 'E' && upper_char(s[3]) == 'G' {
        Some(Format::Jpeg)
    } else if s.len() == 3 && upper_char(s[0]) == 'J' && upper_char(s[1]) == 'P' && upper_char(
        s[2],
    ) == 'G' {
        Some(Format::Jpeg)
    } else if s.len() == 3 && upper_char(s[0]) == 'P' && upper_char(s[1]) == 'N' && upper_char(
        s[2],
    ) == 'G' {
        Some(Format::Png)
    } else if s.len() == 4 && upper_char(s[0]) == 'D' && upper_char(s[1]) == 'O' && upper_char(
        s[2],
    ) == 'C' && upper_char(s[3]) == 'X' {
        Some(Format::Docx)
    } else {
        None
    }
}

/// The lowercase canonical file extension of a format.
pub open spec fn spec_extension(f: Format) -> Seq<char> {
    match f {
        Format::Pdf => "pdf"@,
        Format::Jpeg => "jpeg"@,
        Format::Png => "png"@,
        Format::Docx => "docx"@,
    }
}

impl Format {
    /// The lowercase canonical file extension.
    pub fn extension(&self) -> (r: String)
        ensures
            r@ == spec_extension(*self),
    {
        match self {
            Format::Pdf => String::from_str("pdf"),
            Format::Jpeg => String::from_str("jpeg"),
            Format::Png => String::from_str("png"),
            Format::Docx => String::from_str("docx"),
        }
    }
}

/// ASCII upper-casing of a single character.
fn upper_char_exec(c: char) -> (r: char)
    ensures
        r == upper_char(c),
{
    if 'a' <= c && c <= 'z' {
        ((c as u8) - 32) as char
    } else {
        c
    }
}

/// Resolves a requested target-format string to its canonical tag, or fails
/// with an `UNSUPPORTED_FORMAT` error whose message carries the original,
/// non-normalized string.
pub fn resolve_format(target_format: &str) -> (r: Result<Format, ConversionError>)
    ensures
        match spec_resolve(target_format@) {
            Some(f) => r == Ok::<Format, ConversionError>(f),
            None => match r {
                Ok(_) => false,
                Err(e) => e.code@ == "UNSUPPORTED_FORMAT"@ && e.message@ == "Unsupported format: "@
                    + target_format@,
            },
        },
{
    let n = target_format.unicode_len();
    if n == 3 || n == 4 {
        let c0 = upper_char_exec(target_format.get_char(0));
        let c1 = upper_char_exec(target_format.get_char(1));
        let c2 = upper_char_exec(target_format.get_char(2));
        if n == 3 {
            if c0 == 'P' && c1 == 'D' && c2 == 'F' {
                return Ok(Format::Pdf);
            }
            if c0 == 'J' && c1 == 'P' && c2 == 'G' {
                return Ok(Format::Jpeg);
            }
            if c0 == 'P' && c1 == 'N' && c2 == 'G' {
                return Ok(Format::Png);
            }
        } else {
            let c3 = upper_char_exec(target_format.get_char(3));
            if c0 == 'J' && c1 == 'P' && c2 == 'E' && c3 == 'G' {
                return Ok(Format::Jpeg);
            }
            if c0 == 'D' && c1 == 'O' && c2 == 'C' && c3 == 'X' {
                return Ok(Format::Docx);
            }
        }
    }
    let mut message = String::from_str("Unsupported format: ");
    message.append(target_format);
    Err(ConversionError::new(String::from_str("UNSUPPORTED_FORMAT"), message))
}

/// Law: format resolution is case-insensitive.  Upper-casing a requested
/// string never changes what it resolves to, so any two strings that agree
/// up to ASCII case resolve alike.
pub proof fn lemma_resolve_case_insensitive(s: Seq<char>)
    ensures
        spec_resolve(upper_seq(s)) == spec_resolve(s),
{
    assert forall|i: int| 0 <= i < s.len() implies upper_char(upper_seq(s)[i]) == upper_char(
        s[i],
    ) by {
        assert(upper_seq(s)[i] == upper_char(s[i]));
    }
}

} // verus!
