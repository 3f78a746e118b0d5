//! Regular expressions: what a pattern's named group captures in a text.
use regex::{Captures, Error, Regex};
use vstd::prelude::*;
use vstd::utf8::*;

verus! {

/// A compiled regular expression.
#[verifier::external_type_specification]
#[verifier::external_body]
pub struct ExRegex(Regex);

/// The groups that took part in one match.
#[verifier::external_type_specification]
#[verifier::external_body]
pub struct ExCaptures<'h>(Captures<'h>);

/// Why a pattern does not compile.
#[verifier::external_type_specification]
#[verifier::external_body]
pub struct ExError(Error);

/// What `Regex::new` returns for a pattern.
pub uninterp spec fn compiled(pattern: Seq<char>) -> Result<Regex, Error>;

/// What `Regex::as_str` returns: the pattern that the regular expression was made of.
pub uninterp spec fn source(regex: Regex) -> Seq<char>;

/// What the error displays.
pub uninterp spec fn error_text(error: Error) -> Seq<char>;

/// The named groups that captures hold: of each, the byte at which its match starts
/// and the matched text.
pub uninterp spec fn groups(captures: Captures) -> Map<Seq<char>, (nat, Seq<char>)>;

/// The named groups of what `Regex::captures` returns for a text.
pub uninterp spec fn first_match(regex: Regex, text: Seq<char>) -> Option<
    Map<Seq<char>, (nat, Seq<char>)>,
>;

/// Whether a text stands in another one at a byte offset. Neither its start nor its end
/// is within a character.
pub open spec fn stands_at(text: Seq<char>, start: nat, part: Seq<char>) -> bool {
    let end = start + encode_utf8(part).len();
    &&& end <= encode_utf8(text).len()
    &&& is_char_boundary(encode_utf8(text), start as int)
    &&& is_char_boundary(encode_utf8(text), end as int)
    &&& encode_utf8(part) == encode_utf8(text).subrange(start as int, end as int)
}

/// `Regex::new`: the pattern compiled, or why it does not compile. It depends on the
/// pattern alone and goes by the name `compiled`; what was compiled keeps the pattern
/// as its source.
#[verifier::external_body]
pub(crate) fn compile(pattern: &str) -> (r: Result<Regex, Error>)
    ensures
        r == compiled(pattern@),
        r matches Ok(regex) ==> source(regex) == pattern@,
{
    Regex::new(pattern)
}

/// `Regex::as_str`, which goes by the name `source`.
#[verifier::external_body]
pub(crate) fn pattern_of(regex: &Regex) -> (r: &str)
    ensures
        r@ == source(*regex),
{
    regex.as_str()
}

/// What the error displays. It depends on the error alone, and goes by the name
/// `error_text`.
#[verifier::external_body]
pub(crate) fn describe(error: &Error) -> (r: String)
    ensures
        r@ == error_text(*error),
{
    error.to_string()
}

/// `Regex::captures`: the groups of the first match in a text, where there is one. It
/// depends on the regular expression and the text alone, and goes by the name
/// `first_match`. Each group that took part in the match stands in the text where the
/// captures say.
#[verifier::external_body]
pub(crate) fn captures<'h>(regex: &Regex, text: &'h str) -> (r: Option<Captures<'h>>)
    ensures
        r is None ==> first_match(*regex, text@) is None,
        r matches Some(c) ==> first_match(*regex, text@) == Some(groups(c)),
        r matches Some(c) ==> forall|g: Seq<char>| #[trigger]
            groups(c).contains_key(g) ==> stands_at(text@, groups(c)[g].0, groups(c)[g].1),
{
    regex.captures(text)
}

/// `Captures::name`: the match of a group, with what `Match::start` and `Match::as_str`
/// say of it, or nothing where there is no such group or it took no part in the match.
#[verifier::external_body]
pub(crate) fn group(captures: &Captures, name: &str) -> (r: Option<Group>)
    ensures
        r is Some <==> groups(*captures).contains_key(name@),
        r matches Some(g) ==> groups(*captures)[name@] == (g.start as nat, g.text@),
{
    captures.name(name).map(|m| Group { start: m.start(), text: m.as_str().to_string() })
}

/// The match of one group of a pattern.
#[derive(Debug)]
pub struct Group {
    /// The byte offset at which the match starts.
    pub start: usize,
    /// The matched text.
    pub text: String,
}

/// What a pattern's named group captures in a text.
#[derive(Debug)]
pub enum Capture {
    /// The pattern does not match.
    NoMatch,
    /// The pattern matches, but there is no such group or it took no part.
    NoGroup,
    /// The pattern matches, and the group with it.
    Group(Group),
}

/// A capture as a mathematical value: of the group, where its match starts and what
/// it matched.
pub enum CaptureView {
    NoMatch,
    NoGroup,
    Group(nat, Seq<char>),
}

impl View for Capture {
    type V = CaptureView;

    open spec fn view(&self) -> CaptureView {
        match self {
            Capture::NoMatch => CaptureView::NoMatch,
            Capture::NoGroup => CaptureView::NoGroup,
            Capture::Group(g) => CaptureView::Group(g.start as nat, g.text@),
        }
    }
}

impl CaptureView {
    /// Whether the group stands in the text where the capture says.
    pub open spec fn stands_in(self, text: Seq<char>) -> bool {
        self matches CaptureView::Group(start, part) ==> stands_at(text, start, part)
    }

    /// Whether the text can be cut where the capture says that the group starts.
    pub open spec fn cuts(self, text: Seq<char>) -> bool {
        self matches CaptureView::Group(start, _) ==> is_char_boundary(
            encode_utf8(text),
            start as int,
        )
    }
}

/// What a group captures, given the first match.
pub open spec fn group_capture(
    found: Option<Map<Seq<char>, (nat, Seq<char>)>>,
    group: Seq<char>,
) -> CaptureView {
    match found {
        None => CaptureView::NoMatch,
        Some(groups) => if groups.contains_key(group) {
            CaptureView::Group(groups[group].0, groups[group].1)
        } else {
            CaptureView::NoGroup
        },
    }
}

/// What a regular expression's named group captures in a text.
pub(crate) fn capture(regex: &Regex, text: &str, name: &str) -> (r: Capture)
    ensures
        r@ == group_capture(first_match(*regex, text@), name@),
        r@.stands_in(text@),
{
    match captures(regex, text) {
        None => Capture::NoMatch,
        Some(found) => match group(&found, name) {
            None => Capture::NoGroup,
            Some(g) => Capture::Group(g),
        },
    }
}

} // verus!
