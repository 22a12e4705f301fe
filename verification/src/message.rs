//! The text by which a rejected input is reported to the caller.

use vstd::prelude::*;
use vstd::string::StringExecFns;
use crate::validate::{Fault, MonitorSide, UrlRule, ValidationError};

verus! {

/// The decimal digit of a number below ten.
pub open spec fn digit_char(d: nat) -> char {
    if d == 0 {
        '0'
    } else if d == 1 {
        '1'
    } else if d == 2 {
        '2'
    } else if d == 3 {
        '3'
    } else if d == 4 {
        '4'
    } else if d == 5 {
        '5'
    } else if d == 6 {
        '6'
    } else if d == 7 {
        '7'
    } else if d == 8 {
        '8'
    } else {
        '9'
    }
}

/// `n` written in decimal, without leading zeros.
pub open spec fn decimal(n: nat) -> Seq<char>
    decreases n,
{
    if n < 10 {
        seq![digit_char(n)]
    } else {
        decimal(n / 10).push(digit_char(n % 10))
    }
}

/// The names of `sides`, separated by a comma and a space.
pub open spec fn joined_names(sides: Seq<MonitorSide>) -> Seq<char>
    decreases sides.len(),
{
    if sides.len() == 0 {
        Seq::<char>::empty()
    } else if sides.len() == 1 {
        sides[0].name()
    } else {
        joined_names(sides.drop_last()) + ", "@ + sides.last().name()
    }
}

impl Fault {
    /// The sentence that reports the fault.
    pub open spec fn message(self) -> Seq<char> {
        match self {
            Fault::InvalidEnum { value, allowed } => "Invalid monitor_side '"@ + value
                + "'. Must be one of: "@ + joined_names(allowed),
            Fault::InvalidUrl { rule: UrlRule::Scheme } =>
                "backend_url must start with http:// or https://"@,
            Fault::InvalidUrl { rule: UrlRule::Charset } =>
                "backend_url contains invalid characters"@,
            Fault::InvalidUrl { rule: UrlRule::Length } =>
                "backend_url is too long (max 100 characters)"@,
            Fault::PayloadTooLarge { len, max } => "Frame data exceeds maximum size of "@
                + decimal(max) + " characters"@,
            Fault::InvalidCharset =>
                "Frame data must contain only hexadecimal characters (0-9, a-f)"@,
        }
    }
}

/// The decimal digit of a number below ten.
fn digit_char_of(d: usize) -> (c: char)
    requires
        d < 10,
    ensures
        c == digit_char(d as nat),
{
    match d {
        0 => '0',
        1 => '1',
        2 => '2',
        3 => '3',
        4 => '4',
        5 => '5',
        6 => '6',
        7 => '7',
        8 => '8',
        _ => '9',
    }
}

/// Appends `n`, written in decimal, to `out`.
pub fn push_decimal(out: &mut String, n: usize)
    ensures
        final(out)@ == old(out)@ + decimal(n as nat),
    decreases n,
{
    if n >= 10 {
        push_decimal(out, n / 10);
    }
    out.push(digit_char_of(n % 10));
}

/// Appends the names of `sides`, separated by a comma and a space, to `out`.
pub fn push_joined_names(out: &mut String, sides: &[MonitorSide])
    ensures
        final(out)@ == old(out)@ + joined_names(sides@),
{
    let mut i: usize = 0;
    while i < sides.len()
        invariant
            i <= sides.len(),
            out@ == old(out)@ + joined_names(sides@.subrange(0, i as int)),
        decreases sides.len() - i,
    {
        proof {
            let next = sides@.subrange(0, i + 1);
            assert(next.drop_last() == sides@.subrange(0, i as int));
            assert(next.last() == sides@[i as int]);
            if i == 0 {
                assert(next[0] == sides@[0]);
            }
        }
        if i > 0 {
            out.append(", ");
        }
        out.append(sides[i].as_str());
        i += 1;
    }
    assert(sides@.subrange(0, sides.len() as int) == sides@);
}

impl ValidationError {
    /// The sentence that reports the error to the caller.
    pub fn message(&self) -> (text: String)
        ensures
            text@ == self@.message(),
    {
        match self {
            ValidationError::InvalidEnum { value, allowed } => {
                let mut text = String::from_str("Invalid monitor_side '");
                text.append(value.as_str());
                text.append("'. Must be one of: ");
                push_joined_names(&mut text, allowed.as_slice());
                text
            },
            ValidationError::InvalidUrl { rule } => match rule {
                UrlRule::Scheme => String::from_str(
                    "backend_url must start with http:// or https://",
                ),
                UrlRule::Charset => String::from_str("backend_url contains invalid characters"),
                UrlRule::Length => String::from_str(
                    "backend_url is too long (max 100 characters)",
                ),
            },
            ValidationError::PayloadTooLarge { len, max } => {
                let mut text = String::from_str("Frame data exceeds maximum size of ");
                push_decimal(&mut text, *max);
                text.append(" characters");
                text
            },
            ValidationError::InvalidCharset => String::from_str(
                "Frame data must contain only hexadecimal characters (0-9, a-f)",
            ),
        }
    }
}

} // verus!
