//! Validation of untrusted input: monitor sides, backend URLs and frame
//! payloads.
//!
//! Every validator is a pure function. Its contract names, for each input,
//! the one outcome it has: acceptance, or the fault that rejects the input.

use vstd::prelude::*;
use crate::text::{chars_of, has_char, occurs_at, occurs_here, same_text};

verus! {

/// The longest backend URL that is accepted, in characters.
pub const MAX_URL_LEN: usize = 100;

/// The face of the computer to which the monitor is attached.
#[derive(Clone, Copy, Debug, PartialEq, Eq, Structural)]
pub enum MonitorSide {
    Top,
    Bottom,
    Left,
    Right,
    Front,
    Back,
}

/// The rule that a rejected backend URL breaks.
#[derive(Clone, Copy, Debug, PartialEq, Eq, Structural)]
pub enum UrlRule {
    /// The URL starts with neither `http://` nor `https://`.
    Scheme,
    /// The URL holds a double quote, a line feed or a carriage return.
    Charset,
    /// The URL is longer than [`MAX_URL_LEN`] characters.
    Length,
}

/// Why an input was rejected.
#[derive(Debug, PartialEq, Eq)]
pub enum ValidationError {
    /// The value names no monitor side; `allowed` lists those that exist.
    InvalidEnum { value: String, allowed: Vec<MonitorSide> },
    /// The backend URL breaks `rule`.
    InvalidUrl { rule: UrlRule },
    /// The frame payload has `len` characters, more than the `max` allowed.
    PayloadTooLarge { len: usize, max: usize },
    /// The frame payload holds a character that is no hexadecimal digit.
    InvalidCharset,
}

/// The mathematical model of a [`ValidationError`]: the same variants, over
/// sequences and natural numbers.
pub enum Fault {
    /// `value` names no monitor side; `allowed` lists those that exist.
    InvalidEnum { value: Seq<char>, allowed: Seq<MonitorSide> },
    /// The backend URL breaks `rule`.
    InvalidUrl { rule: UrlRule },
    /// The frame payload has `len` characters, more than the `max` allowed.
    PayloadTooLarge { len: nat, max: nat },
    /// The frame payload holds a character that is no hexadecimal digit.
    InvalidCharset,
}

impl View for ValidationError {
    type V = Fault;

    open spec fn view(&self) -> Fault {
        match self {
            ValidationError::InvalidEnum { value, allowed } => Fault::InvalidEnum {
                value: value@,
                allowed: allowed@,
            },
            ValidationError::InvalidUrl { rule } => Fault::InvalidUrl { rule: *rule },
            ValidationError::PayloadTooLarge { len, max } => Fault::PayloadTooLarge {
                len: *len as nat,
                max: *max as nat,
            },
            ValidationError::InvalidCharset => Fault::InvalidCharset,
        }
    }
}

/// The fault that a validation result reports, if any.
pub open spec fn fault_of(r: Result<(), ValidationError>) -> Option<Fault> {
    match r {
        Ok(_) => None,
        Err(e) => Some(e@),
    }
}

impl MonitorSide {
    /// The literal by which the side is written.
    pub open spec fn name(self) -> Seq<char> {
        match self {
            MonitorSide::Top => "top"@,
            MonitorSide::Bottom => "bottom"@,
            MonitorSide::Left => "left"@,
            MonitorSide::Right => "right"@,
            MonitorSide::Front => "front"@,
            MonitorSide::Back => "back"@,
        }
    }

    /// Every side, in the order in which error messages list them.
    pub open spec fn all() -> Seq<MonitorSide> {
        seq![
            MonitorSide::Top,
            MonitorSide::Bottom,
            MonitorSide::Left,
            MonitorSide::Right,
            MonitorSide::Front,
            MonitorSide::Back,
        ]
    }

    /// The side that `s` names, if it names one.
    pub open spec fn named(s: Seq<char>) -> Option<MonitorSide> {
        if s == MonitorSide::Top.name() {
            Some(MonitorSide::Top)
        } else if s == MonitorSide::Bottom.name() {
            Some(MonitorSide::Bottom)
        } else if s == MonitorSide::Left.name() {
            Some(MonitorSide::Left)
        } else if s == MonitorSide::Right.name() {
            Some(MonitorSide::Right)
        } else if s == MonitorSide::Front.name() {
            Some(MonitorSide::Front)
        } else if s == MonitorSide::Back.name() {
            Some(MonitorSide::Back)
        } else {
            None
        }
    }

    /// The literal by which the side is written.
    pub fn as_str(self) -> (r: &'static str)
        ensures
            r@ == self.name(),
    {
        match self {
            MonitorSide::Top => "top",
            MonitorSide::Bottom => "bottom",
            MonitorSide::Left => "left",
            MonitorSide::Right => "right",
            MonitorSide::Front => "front",
            MonitorSide::Back => "back",
        }
    }

    /// Every side, in the order in which error messages list them.
    pub fn allowed() -> (v: Vec<MonitorSide>)
        ensures
            v@ == MonitorSide::all(),
    {
        let mut v: Vec<MonitorSide> = Vec::new();
        v.push(MonitorSide::Top);
        v.push(MonitorSide::Bottom);
        v.push(MonitorSide::Left);
        v.push(MonitorSide::Right);
        v.push(MonitorSide::Front);
        v.push(MonitorSide::Back);
        assert(v@ =~= MonitorSide::all());
        v
    }

    /// Reads a side from its literal; any other text names no side.
    pub fn parse(s: &str) -> (r: Option<MonitorSide>)
        ensures
            r == MonitorSide::named(s@),
    {
        let text = chars_of(s);
        let sides = MonitorSide::allowed();
        let mut i: usize = 0;
        while i < sides.len()
            invariant
                i <= sides.len(),
                sides@ == MonitorSide::all(),
                text@ == s@,
                forall|k: int| 0 <= k < i ==> s@ != (#[trigger] sides@[k]).name(),
            decreases sides.len() - i,
        {
            let side = sides[i];
            let literal = chars_of(side.as_str());
            if same_text(text.as_slice(), literal.as_slice()) {
                return Some(side);
            }
            i += 1;
        }
        assert(s@ != sides@[0].name());
        assert(s@ != sides@[1].name());
        assert(s@ != sides@[2].name());
        assert(s@ != sides@[3].name());
        assert(s@ != sides@[4].name());
        assert(s@ != sides@[5].name());
        None
    }
}

/// Text that names a side is that side's literal.
pub proof fn lemma_name_of_named(s: Seq<char>)
    requires
        MonitorSide::named(s) is Some,
    ensures
        MonitorSide::named(s).unwrap().name() == s,
{
}

/// The sides all have different literals, so a literal reads back as its
/// side.
pub proof fn law_side_literal_reads_back(side: MonitorSide)
    ensures
        MonitorSide::named(side.name()) == Some(side),
{
    reveal_strlit("top");
    reveal_strlit("bottom");
    reveal_strlit("left");
    reveal_strlit("right");
    reveal_strlit("front");
    reveal_strlit("back");
    assert("top"@.len() == 3);
    assert("bottom"@.len() == 6);
    assert("left"@.len() == 4);
    assert("right"@.len() == 5);
    assert("front"@.len() == 5);
    assert("back"@.len() == 4);
    assert("left"@[0] == 'l' && "back"@[0] == 'b');
    assert("right"@[0] == 'r' && "front"@[0] == 'f');
}

/// The fault in a monitor side, if it has one: `side` names no side.
pub open spec fn side_fault(side: Seq<char>) -> Option<Fault> {
    if MonitorSide::named(side) is Some {
        None
    } else {
        Some(Fault::InvalidEnum { value: side, allowed: MonitorSide::all() })
    }
}

/// Accepts `side` exactly if it is one of the six literals `top`, `bottom`,
/// `left`, `right`, `front` and `back`.
pub fn validate_monitor_side(side: &str) -> (r: Result<(), ValidationError>)
    ensures
        fault_of(r) == side_fault(side@),
{
    match MonitorSide::parse(side) {
        Some(_) => Ok(()),
        None => Err(
            ValidationError::InvalidEnum {
                value: side.to_owned(),
                allowed: MonitorSide::allowed(),
            },
        ),
    }
}

/// `c` could end a double-quoted string literal or start a new line.
pub open spec fn is_unsafe_char(c: char) -> bool {
    c == '"' || c == '\n' || c == '\r'
}

/// `url` starts with `http://` or `https://`.
pub open spec fn has_scheme(url: Seq<char>) -> bool {
    occurs_at(url, "http://"@, 0) || occurs_at(url, "https://"@, 0)
}

/// `url` holds a character that is unsafe inside a string literal.
pub open spec fn has_unsafe_char(url: Seq<char>) -> bool {
    exists|i: int| 0 <= i < url.len() && is_unsafe_char(#[trigger] url[i])
}

/// The fault in a backend URL, if it has one. The rules are tried in the
/// order scheme, characters, length, and the first one broken is reported.
pub open spec fn url_fault(url: Seq<char>) -> Option<Fault> {
    if !has_scheme(url) {
        Some(Fault::InvalidUrl { rule: UrlRule::Scheme })
    } else if has_unsafe_char(url) {
        Some(Fault::InvalidUrl { rule: UrlRule::Charset })
    } else if url.len() > MAX_URL_LEN {
        Some(Fault::InvalidUrl { rule: UrlRule::Length })
    } else {
        None
    }
}

/// Accepts `url` exactly if it starts with `http://` or `https://`, holds no
/// double quote, line feed or carriage return, and has at most
/// [`MAX_URL_LEN`] characters.
pub fn validate_backend_url(url: &str) -> (r: Result<(), ValidationError>)
    ensures
        fault_of(r) == url_fault(url@),
{
    let text = chars_of(url);
    let http = chars_of("http://");
    let https = chars_of("https://");
    if !occurs_here(text.as_slice(), http.as_slice(), 0) && !occurs_here(
        text.as_slice(),
        https.as_slice(),
        0,
    ) {
        return Err(ValidationError::InvalidUrl { rule: UrlRule::Scheme });
    }
    if has_char(text.as_slice(), '"') || has_char(text.as_slice(), '\n') || has_char(
        text.as_slice(),
        '\r',
    ) {
        return Err(ValidationError::InvalidUrl { rule: UrlRule::Charset });
    }
    if text.len() > MAX_URL_LEN {
        return Err(ValidationError::InvalidUrl { rule: UrlRule::Length });
    }
    Ok(())
}

/// Whether `c` is an ASCII hexadecimal digit, of either case.
pub open spec fn is_hex_digit(c: char) -> bool {
    ('0' <= c && c <= '9') || ('a' <= c && c <= 'f') || ('A' <= c && c <= 'F')
}

/// Every character of `s` is a hexadecimal digit.
pub open spec fn all_hex(s: Seq<char>) -> bool {
    forall|i: int| 0 <= i < s.len() ==> is_hex_digit(#[trigger] s[i])
}

/// `s` is a frame that a store with the limit `max` may hold.
pub open spec fn valid_frame(s: Seq<char>, max: nat) -> bool {
    s.len() <= max && all_hex(s)
}

/// The fault in a frame payload, if it has one. The size is tried first.
pub open spec fn payload_fault(payload: Seq<char>, max: nat) -> Option<Fault> {
    if payload.len() > max {
        Some(Fault::PayloadTooLarge { len: payload.len(), max })
    } else if !all_hex(payload) {
        Some(Fault::InvalidCharset)
    } else {
        None
    }
}

/// Decides whether `c` is an ASCII hexadecimal digit, of either case.
pub fn hex_digit(c: char) -> (r: bool)
    ensures
        r == is_hex_digit(c),
{
    ('0' <= c && c <= '9') || ('a' <= c && c <= 'f') || ('A' <= c && c <= 'F')
}

/// Accepts `payload` exactly if it has at most `max_len` characters and each
/// of them is a hexadecimal digit. A payload that is too long is reported as
/// such whatever its characters are.
pub fn validate_frame_payload(payload: &str, max_len: usize) -> (r: Result<(), ValidationError>)
    ensures
        fault_of(r) == payload_fault(payload@, max_len as nat),
{
    let len = payload.unicode_len();
    if len > max_len {
        return Err(ValidationError::PayloadTooLarge { len, max: max_len });
    }
    let chars = payload.chars();
    proof {
        vstd::string::axiom_spec_iter(payload);
    }
    for c in it: chars
        invariant
            it.seq() == payload@,
            payload@.len() <= max_len,
            forall|k: int| 0 <= k < it.index() ==> is_hex_digit(#[trigger] payload@[k]),
    {
        if !hex_digit(c) {
            assert(!is_hex_digit(payload@[it.index()]));
            return Err(ValidationError::InvalidCharset);
        }
    }
    Ok(())
}

} // verus!
