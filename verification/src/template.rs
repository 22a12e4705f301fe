//! The client templater: fills the two placeholders of a client script
//! template with a monitor side and a backend URL.

use vstd::prelude::*;
use vstd::string::StringExecFns;
use crate::text::{
    chars_of, find, leftmost, lemma_leftmost_occurs, lemma_occurs_within,
    lemma_splice_holds_replacement, lemma_splice_keeps_before, lemma_splice_moves_behind, occurs,
    occurs_at, splice, spliced, string_of,
};
use crate::validate::{
    has_unsafe_char, is_unsafe_char, side_fault, url_fault, validate_backend_url, Fault,
    MonitorSide, ValidationError,
};

verus! {

/// What a client script is rendered from: the URL that the script will poll
/// and the side on which its monitor sits.
#[derive(Debug, PartialEq, Eq)]
pub struct ClientConfig {
    pub backend_url: String,
    pub monitor_side: MonitorSide,
}

/// The ways in which a template can be unfit for rendering.
#[derive(Clone, Copy, Debug, PartialEq, Eq, Structural)]
pub enum TemplateFault {
    /// The template holds no placeholder for the monitor side.
    MissingSidePlaceholder,
    /// The template holds no placeholder for the backend URL.
    MissingEndpointPlaceholder,
    /// A placeholder is left in the script after each was filled once.
    UnexpandedPlaceholder,
}

/// The line of a template that stands for the monitor side.
pub const SIDE_PLACEHOLDER: &'static str =
    "local monitor = peripheral.wrap(\"\") -- This value is set before the download";

/// The line of a template that stands for the backend URL.
pub const ENDPOINT_PLACEHOLDER: &'static str =
    "local frame_endpoint = \"\" -- This value is set before the download";

/// What stands before the side's literal in the line that names the side.
pub const SIDE_LINE_OPEN: &'static str = "local monitor = peripheral.wrap(\"";

/// What stands behind the side's literal in the line that names the side.
pub const SIDE_LINE_CLOSE: &'static str = "\")";

/// What stands before the URL in the line that names the endpoint.
pub const ENDPOINT_LINE_OPEN: &'static str = "local frame_endpoint = \"";

/// What stands behind the URL in the line that names the endpoint.
pub const ENDPOINT_LINE_CLOSE: &'static str = "\"";

/// The side placeholder, as text.
pub open spec fn side_placeholder() -> Seq<char> {
    SIDE_PLACEHOLDER@
}

/// The endpoint placeholder, as text.
pub open spec fn endpoint_placeholder() -> Seq<char> {
    ENDPOINT_PLACEHOLDER@
}

/// What a character becomes inside a double-quoted string literal: a double
/// quote gets a backslash before it, every other character stays.
pub open spec fn escaped_char(c: char) -> Seq<char> {
    if c == '"' {
        seq!['\\', '"']
    } else {
        seq![c]
    }
}

/// `s` with a backslash before each double quote.
pub open spec fn escaped(s: Seq<char>) -> Seq<char>
    decreases s.len(),
{
    if s.len() == 0 {
        Seq::<char>::empty()
    } else {
        escaped(s.drop_last()) + escaped_char(s.last())
    }
}

/// The line that replaces the side placeholder.
pub open spec fn side_line(side: MonitorSide) -> Seq<char> {
    SIDE_LINE_OPEN@ + side.name() + SIDE_LINE_CLOSE@
}

/// The line that replaces the endpoint placeholder.
pub open spec fn endpoint_line(url: Seq<char>) -> Seq<char> {
    ENDPOINT_LINE_OPEN@ + escaped(url) + ENDPOINT_LINE_CLOSE@
}

/// The script that a template renders to. The leftmost side placeholder is
/// replaced by the side line; in the result, the leftmost endpoint
/// placeholder is replaced by the endpoint line. A template that lacks a
/// placeholder, or that leaves one behind, renders to a fault.
pub open spec fn rendered(template: Seq<char>, side: MonitorSide, url: Seq<char>) -> Result<
    Seq<char>,
    TemplateFault,
> {
    match leftmost(template, side_placeholder()) {
        None => Err(TemplateFault::MissingSidePlaceholder),
        Some(i) => {
            let sided = splice(template, i, side_placeholder().len() as int, side_line(side));
            match leftmost(sided, endpoint_placeholder()) {
                None => Err(TemplateFault::MissingEndpointPlaceholder),
                Some(j) => {
                    let script = splice(
                        sided,
                        j,
                        endpoint_placeholder().len() as int,
                        endpoint_line(url),
                    );
                    if occurs(script, side_placeholder()) || occurs(
                        script,
                        endpoint_placeholder(),
                    ) {
                        Err(TemplateFault::UnexpandedPlaceholder)
                    } else {
                        Ok(script)
                    }
                },
            }
        },
    }
}

/// The outcome of a rendering, over the model of its script.
pub open spec fn script_of(r: Result<String, TemplateFault>) -> Result<Seq<char>, TemplateFault> {
    match r {
        Ok(script) => Ok(script@),
        Err(fault) => Err(fault),
    }
}

impl ClientConfig {
    /// The configuration passes validation: its URL has no fault.
    pub open spec fn is_safe(&self) -> bool {
        url_fault(self.backend_url@) is None
    }

    /// Validates both values and keeps them. The side is tried first.
    pub fn new(backend_url: &str, monitor_side: &str) -> (r: Result<ClientConfig, ValidationError>)
        ensures
            match r {
                Ok(config) => {
                    &&& config_fault(backend_url@, monitor_side@) is None
                    &&& MonitorSide::named(monitor_side@) == Some(config.monitor_side)
                    &&& config.backend_url@ == backend_url@
                    &&& config.is_safe()
                },
                Err(e) => config_fault(backend_url@, monitor_side@) == Some(e@),
            },
    {
        let side = match MonitorSide::parse(monitor_side) {
            Some(side) => side,
            None => {
                return Err(
                    ValidationError::InvalidEnum {
                        value: monitor_side.to_owned(),
                        allowed: MonitorSide::allowed(),
                    },
                );
            },
        };
        match validate_backend_url(backend_url) {
            Ok(()) => Ok(ClientConfig { backend_url: backend_url.to_owned(), monitor_side: side }),
            Err(e) => Err(e),
        }
    }
}

/// The fault in a pair of client values, if it has one: that of the side,
/// else that of the URL.
pub open spec fn config_fault(backend_url: Seq<char>, monitor_side: Seq<char>) -> Option<Fault> {
    if side_fault(monitor_side) is Some {
        side_fault(monitor_side)
    } else {
        url_fault(backend_url)
    }
}

/// `s` with a backslash before each double quote.
pub fn escape_quotes(s: &[char]) -> (r: Vec<char>)
    ensures
        r@ == escaped(s@),
{
    let mut out: Vec<char> = Vec::new();
    let mut i: usize = 0;
    while i < s.len()
        invariant
            i <= s.len(),
            out@ == escaped(s@.subrange(0, i as int)),
        decreases s.len() - i,
    {
        let c = s[i];
        proof {
            let next = s@.subrange(0, i + 1);
            assert(next.drop_last() == s@.subrange(0, i as int));
            assert(next.last() == c);
        }
        if c == '"' {
            out.push('\\');
        }
        out.push(c);
        i += 1;
    }
    assert(s@.subrange(0, s.len() as int) == s@);
    out
}

/// The line that replaces the side placeholder.
fn side_line_of(side: MonitorSide) -> (line: Vec<char>)
    ensures
        line@ == side_line(side),
{
    let mut line = String::from_str(SIDE_LINE_OPEN);
    line.append(side.as_str());
    line.append(SIDE_LINE_CLOSE);
    chars_of(line.as_str())
}

/// The line that replaces the endpoint placeholder.
fn endpoint_line_of(url: &str) -> (line: Vec<char>)
    ensures
        line@ == endpoint_line(url@),
{
    let text = chars_of(url);
    let mut line = chars_of(ENDPOINT_LINE_OPEN);
    let mut inner = escape_quotes(text.as_slice());
    let mut close = chars_of(ENDPOINT_LINE_CLOSE);
    line.append(&mut inner);
    line.append(&mut close);
    line
}

/// Renders a client script from `template_source`: fills the side
/// placeholder with the side of `config`, and the endpoint placeholder with
/// its URL, escaped. Fails where the template lacks a placeholder, or where
/// the script would still hold one.
pub fn render(template_source: &str, config: &ClientConfig) -> (r: Result<String, TemplateFault>)
    ensures
        script_of(r) == rendered(template_source@, config.monitor_side, config.backend_url@),
{
    let template = chars_of(template_source);
    let side_mark = chars_of(SIDE_PLACEHOLDER);
    let endpoint_mark = chars_of(ENDPOINT_PLACEHOLDER);
    let i = match find(template.as_slice(), side_mark.as_slice()) {
        Some(i) => i,
        None => {
            return Err(TemplateFault::MissingSidePlaceholder);
        },
    };
    let side_text = side_line_of(config.monitor_side);
    let sided = spliced(template.as_slice(), i, side_mark.len(), side_text.as_slice());
    let j = match find(sided.as_slice(), endpoint_mark.as_slice()) {
        Some(j) => j,
        None => {
            return Err(TemplateFault::MissingEndpointPlaceholder);
        },
    };
    let endpoint_text = endpoint_line_of(config.backend_url.as_str());
    let script = spliced(sided.as_slice(), j, endpoint_mark.len(), endpoint_text.as_slice());
    if find(script.as_slice(), side_mark.as_slice()).is_some() || find(
        script.as_slice(),
        endpoint_mark.as_slice(),
    ).is_some() {
        return Err(TemplateFault::UnexpandedPlaceholder);
    }
    Ok(string_of(script.as_slice()))
}

/// Text without a double quote is its own escaped form.
pub proof fn law_escape_keeps_text_without_quotes(s: Seq<char>)
    requires
        !s.contains('"'),
    ensures
        escaped(s) == s,
    decreases s.len(),
{
    if s.len() > 0 {
        let front = s.drop_last();
        assert forall|k: int| 0 <= k < front.len() implies front[k] != '"' by {
            assert(front[k] == s[k]);
            assert(s.contains(s[k]));
        }
        assert(!front.contains('"'));
        law_escape_keeps_text_without_quotes(front);
        assert(s.contains(s.last()));
        assert(escaped_char(s.last()) == seq![s.last()]);
        assert(front + seq![s.last()] == s);
    } else {
        assert(escaped(s) == s);
    }
}

/// In escaped text every double quote stands right behind a backslash, so
/// none of them ends the string literal that the text is put in.
pub proof fn law_escaped_quotes_follow_backslash(s: Seq<char>, k: int)
    requires
        0 <= k < escaped(s).len(),
        escaped(s)[k] == '"',
    ensures
        k > 0,
        escaped(s)[k - 1] == '\\',
    decreases s.len(),
{
    if s.len() > 0 {
        let front = escaped(s.drop_last());
        let tail = escaped_char(s.last());
        assert(escaped(s) == front + tail);
        if k < front.len() {
            assert(escaped(s)[k] == front[k]);
            law_escaped_quotes_follow_backslash(s.drop_last(), k);
            assert(escaped(s)[k - 1] == front[k - 1]);
        } else {
            assert(escaped(s)[k] == tail[k - front.len()]);
            if s.last() == '"' {
                assert(tail[0] == '\\' && tail[1] == '"');
                assert(k == front.len() + 1);
                assert(escaped(s)[k - 1] == tail[0]);
            } else {
                assert(tail[0] == s.last());
            }
        }
    }
}

/// A URL that passed validation is written into the script as it is, between
/// the two double quotes of its line: the line holds no other double quote
/// and no line break, so nothing of the URL can end the string literal early
/// or begin a statement of its own.
pub proof fn law_valid_url_stays_inside_its_literal(url: Seq<char>, k: int)
    requires
        url_fault(url) is None,
        0 <= k < endpoint_line(url).len(),
    ensures
        endpoint_line(url) == ENDPOINT_LINE_OPEN@ + url + ENDPOINT_LINE_CLOSE@,
        endpoint_line(url).len() == url.len() + 25,
        endpoint_line(url)[k] == '"' <==> (k == 23 || k == url.len() + 24),
        endpoint_line(url)[k] != '\n',
        endpoint_line(url)[k] != '\r',
{
    reveal_strlit("local frame_endpoint = \"");
    reveal_strlit("\"");
    let open = ENDPOINT_LINE_OPEN@;
    let close = ENDPOINT_LINE_CLOSE@;
    assert forall|i: int| 0 <= i < url.len() implies !is_unsafe_char(#[trigger] url[i]) by {
        if is_unsafe_char(url[i]) {
            assert(has_unsafe_char(url));
        }
    }
    assert(!url.contains('"')) by {
        if url.contains('"') {
            let i = choose|i: int| 0 <= i < url.len() && url[i] == '"';
            assert(is_unsafe_char(url[i]));
        }
    }
    law_escape_keeps_text_without_quotes(url);
    let line = endpoint_line(url);
    assert(line == open + url + close);
    assert(open.len() == 24);
    assert(close.len() == 1);
    if k < 24 {
        assert(line[k] == open[k]);
    } else if k < 24 + url.len() {
        assert(line[k] == url[k - 24]);
        assert(!is_unsafe_char(url[k - 24]));
    } else {
        assert(line[k] == close[0]);
    }
}

/// Where text holds a side line and an endpoint placeholder, the two do not
/// overlap: filling the placeholder leaves the side line whole.
proof fn lemma_endpoint_mark_misses_side_line(text: Seq<char>, side: MonitorSide, i: int, j: int)
    requires
        occurs_at(text, side_line(side), i),
        occurs_at(text, endpoint_placeholder(), j),
    ensures
        j + endpoint_placeholder().len() <= i || i + side_line(side).len() <= j,
{
    reveal_strlit("local monitor = peripheral.wrap(\"");
    reveal_strlit("\")");
    reveal_strlit("local frame_endpoint = \"\" -- This value is set before the download");
    reveal_strlit("top");
    reveal_strlit("bottom");
    reveal_strlit("left");
    reveal_strlit("right");
    reveal_strlit("front");
    reveal_strlit("back");
    let line = side_line(side);
    let mark = endpoint_placeholder();
    let open = SIDE_LINE_OPEN@;
    let name = side.name();
    let close = SIDE_LINE_CLOSE@;
    assert(line == open + name + close);
    assert(open.len() == 33);
    assert(mark.len() == 66);
    assert forall|t: int| 0 <= t < line.len() implies text[i + t] == #[trigger] line[t] by {
        assert(text.subrange(i, i + line.len())[t] == text[i + t]);
    }
    assert forall|t: int| 0 <= t < mark.len() implies text[j + t] == #[trigger] mark[t] by {
        assert(text.subrange(j, j + mark.len())[t] == text[j + t]);
    }
    assert forall|t: int| 0 <= t < 33 implies #[trigger] line[t] == open[t] by {}
    assert forall|t: int| 33 <= t < 33 + name.len() implies #[trigger] line[t] == name[t - 33] by {}
    assert forall|t: int| 33 + name.len() <= t < line.len() implies #[trigger] line[t] == close[t
        - 33 - name.len()] by {}
    if i <= j < i + line.len() {
        let d = j - i;
        assert(line[d] == mark[0]);
        if d + 1 < line.len() {
            assert(line[d + 1] == mark[1]);
        }
        if d + 6 < line.len() {
            assert(line[d + 6] == mark[6]);
        }
        assert(false);
    } else if j < i < j + mark.len() {
        let e = i - j;
        assert(mark[e] == line[0]);
        if e + 1 < mark.len() {
            assert(mark[e + 1] == line[1]);
        }
        if e + 2 < mark.len() {
            assert(mark[e + 2] == line[2]);
        }
        assert(false);
    }
}

/// A script that was rendered is filled: it holds the side line with the
/// side's literal, and the endpoint line with the escaped URL, and neither
/// placeholder.
pub proof fn law_rendered_script_is_filled(template: Seq<char>, side: MonitorSide, url: Seq<char>)
    requires
        rendered(template, side, url) is Ok,
    ensures
        ({
            let script = rendered(template, side, url)->Ok_0;
            &&& occurs(script, side_line(side))
            &&& occurs(script, side.name())
            &&& occurs(script, endpoint_line(url))
            &&& occurs(script, escaped(url))
            &&& !occurs(script, side_placeholder())
            &&& !occurs(script, endpoint_placeholder())
        }),
{
    let side_mark = side_placeholder();
    let endpoint_mark = endpoint_placeholder();
    let side_text = side_line(side);
    let endpoint_text = endpoint_line(url);
    lemma_leftmost_occurs(template, side_mark);
    let i = leftmost(template, side_mark).unwrap();
    let sided = splice(template, i, side_mark.len() as int, side_text);
    lemma_splice_holds_replacement(template, i, side_mark.len() as int, side_text);
    lemma_leftmost_occurs(sided, endpoint_mark);
    let j = leftmost(sided, endpoint_mark).unwrap();
    let script = splice(sided, j, endpoint_mark.len() as int, endpoint_text);
    assert(script == rendered(template, side, url)->Ok_0);
    lemma_splice_holds_replacement(sided, j, endpoint_mark.len() as int, endpoint_text);
    lemma_endpoint_mark_misses_side_line(sided, side, i, j);
    let at = if i + side_text.len() <= j {
        i
    } else {
        i - endpoint_mark.len() + endpoint_text.len()
    };
    if i + side_text.len() <= j {
        lemma_splice_keeps_before(sided, j, endpoint_mark.len() as int, endpoint_text, side_text, i);
    } else {
        lemma_splice_moves_behind(sided, j, endpoint_mark.len() as int, endpoint_text, side_text, i);
    }
    assert(occurs_at(script, side_text, at));
    let open = SIDE_LINE_OPEN@;
    assert(side_text.subrange(open.len() as int, (open.len() + side.name().len()) as int) =~= side.name());
    lemma_occurs_within(script, side_text, side.name(), at, open.len() as int);
    let lead = ENDPOINT_LINE_OPEN@;
    assert(endpoint_text.subrange(lead.len() as int, (lead.len() + escaped(url).len()) as int) =~= escaped(
        url,
    ));
    lemma_occurs_within(script, endpoint_text, escaped(url), j, lead.len() as int);
}

} // verus!
