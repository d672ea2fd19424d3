//! Decimal rendering of sizes for error messages, and the size-limit
//! failure message itself.

use vstd::prelude::*;
use vstd::string::StringExecFns;
use crate::types::ConversionError;

verus! {

/// The decimal digit character for a value below ten.
pub open spec fn digit_char(d: nat) -> char {
    if d == 0 {
        '0'
    } else if d == 1 {
        '1'
    } else if d == 2 {
        '2'
    } else if d == 3 {
        '3'
    } else if d == 4 {
        '4'
    } else if d == 5 {
        '5'
    } else if d == 6 {
        '6'
    } else if d == 7 {
        '7'
    } else if d == 8 {
        '8'
    } else {
        '9'
    }
}

/// The decimal rendering of a number, without leading zeros (`0` for zero).
pub open spec fn spec_digits(n: nat) -> Seq<char>
    decreases n,
{
    if n < 10 {
        seq![digit_char(n)]
    } else {
        spec_digits(n / 10) + seq![digit_char(n % 10)]
    }
}

/// The message of a size-limit failure, naming the actual and the allowed
/// byte counts.
pub open spec fn spec_size_error_message(actual: nat, max_size: u64) -> Seq<char> {
    "Converted file size ("@ + spec_digits(actual) + " bytes) exceeds maximum allowed size ("@
        + spec_digits(max_size as nat) + " bytes)"@
}

/// The one-character string for a decimal digit.
fn digit_str(d: u64) -> (r: String)
    requires
        d < 10,
    ensures
        r@ == seq![digit_char(d as nat)],
{
    proof {
        reveal_strlit("0");
        reveal_strlit("1");
        reveal_strlit("2");
        reveal_strlit("3");
        reveal_strlit("4");
        reveal_strlit("5");
        reveal_strlit("6");
        reveal_strlit("7");
        reveal_strlit("8");
        reveal_strlit("9");
    }
    if d == 0 {
        String::from_str("0")
    } else if d == 1 {
        String::from_str("1")
    } else if d == 2 {
        String::from_str("2")
    } else if d == 3 {
        String::from_str("3")
    } else if d == 4 {
        String::from_str("4")
    } else if d == 5 {
        String::from_str("5")
    } else if d == 6 {
        String::from_str("6")
    } else if d == 7 {
        String::from_str("7")
    } else if d == 8 {
        String::from_str("8")
    } else {
        String::from_str("9")
    }
}

/// Renders a number in decimal.
pub fn u64_to_string(n: u64) -> (r: String)
    ensures
        r@ == spec_digits(n as nat),
    decreases n,
{
    if n < 10 {
        digit_str(n)
    } else {
        let mut s = u64_to_string(n / 10);
        let d = digit_str(n % 10);
        s.append(d.as_str());
        s
    }
}

/// Builds the size-limit failure, naming both byte counts.
pub fn size_error(actual: u64, max_size: u64) -> (r: ConversionError)
    ensures
        r.code@ == "SIZE_LIMIT_EXCEEDED"@,
        r.message@ == spec_size_error_message(actual as nat, max_size),
{
    let mut m = String::from_str("Converted file size (");
    let actual_digits = u64_to_string(actual);
    m.append(actual_digits.as_str());
    m.append(" bytes) exceeds maximum allowed size (");
    let max_digits = u64_to_string(max_size);
    m.append(max_digits.as_str());
    m.append(" bytes)");
    ConversionError::new(String::from_str("SIZE_LIMIT_EXCEEDED"), m)
}

} // verus!
