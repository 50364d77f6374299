//! Compiled patterns and their application to the lines of a text.
//!
//! Matching is the work of the `regex` crate. The library holds a compiled
//! pattern together with its text, and speaks of what the engine answers
//! through three uninterpreted functions of the pattern's text and the line.
//! A pattern is applied to one line at a time, never to a text as a whole.

use regex::Regex;
use vstd::prelude::*;

use crate::text::views;

verus! {

/// `regex::Regex`, a compiled pattern. The verifier sees nothing inside it.
#[verifier::external_type_specification]
#[verifier::external_body]
pub struct ExRegex(regex::Regex);

/// `regex::Error`, the reason why a pattern did not compile. The verifier sees
/// nothing inside it.
#[verifier::external_type_specification]
#[verifier::external_body]
pub struct ExRegexError(regex::Error);

/// Whether `regex::Regex::new` accepts `pattern`.
pub uninterp spec fn pattern_compiles(pattern: Seq<char>) -> bool;

/// Whether the regex compiled from `pattern` finds a match anywhere in
/// `line`: the answer of `regex::Regex::is_match`.
pub uninterp spec fn pattern_matches(pattern: Seq<char>, line: Seq<char>) -> bool;

/// What the first group of the regex compiled from `pattern` holds in the
/// leftmost match in `line`: the answer of `regex::Regex::captures`, reduced
/// to its group 1. `None` where the pattern has no first group, or where that
/// group took no part in the match. It has a meaning only for a line that the
/// pattern matches.
pub uninterp spec fn pattern_group(pattern: Seq<char>, line: Seq<char>) -> Option<Seq<char>>;

/// A compiled pattern. Its view is the text it was compiled from.
///
/// The fields are private and the only way to a value is [`Matcher::compile`],
/// so the engine of a matcher is always the one compiled from its text.
#[derive(Debug)]
pub struct Matcher {
    pattern: String,
    engine: Regex,
}

impl View for Matcher {
    type V = Seq<char>;

    closed spec fn view(&self) -> Seq<char> {
        self.pattern@
    }
}

/// The view of what a search for a first group returned.
pub open spec fn group_view(found: Option<Option<String>>) -> Option<Option<Seq<char>>> {
    match found {
        None => None,
        Some(None) => Some(None),
        Some(Some(text)) => Some(Some(text@)),
    }
}

/// Whether `pattern` matches at least one of `lines`.
pub open spec fn some_line_matches(pattern: Seq<char>, lines: Seq<Seq<char>>) -> bool {
    exists|i: int| 0 <= i < lines.len() && pattern_matches(pattern, #[trigger] lines[i])
}

/// What the first group of `pattern` holds in the first of `lines` that the
/// pattern matches, or `None` if it matches none of them.
pub open spec fn first_capture(pattern: Seq<char>, lines: Seq<Seq<char>>) -> Option<
    Option<Seq<char>>,
>
    decreases lines.len(),
{
    if lines.len() == 0 {
        None
    } else if pattern_matches(pattern, lines.first()) {
        Some(pattern_group(pattern, lines.first()))
    } else {
        first_capture(pattern, lines.drop_first())
    }
}

/// Calls `regex::Regex::new`. The contract claims that whether the call
/// succeeds depends on the pattern's text alone, and that a matcher that
/// comes back was compiled from exactly that text.
#[verifier::external_body]
fn regex_new(pattern: &str) -> (r: Result<Matcher, regex::Error>)
    ensures
        r is Ok <==> pattern_compiles(pattern@),
        r matches Ok(m) ==> m@ == pattern@,
{
    match Regex::new(pattern) {
        Ok(engine) => Ok(Matcher { pattern: pattern.to_string(), engine }),
        Err(error) => Err(error),
    }
}

/// Calls `regex::Regex::is_match`. The contract claims that the answer
/// depends on the text the regex was compiled from and on the line alone.
#[verifier::external_body]
fn regex_is_match(matcher: &Matcher, line: &str) -> (b: bool)
    ensures
        b == pattern_matches(matcher@, line@),
{
    matcher.engine.is_match(line)
}

/// Calls `regex::Regex::captures` and copies the text of the first group out
/// of what it returns. The contract claims that the answer depends on the
/// text the regex was compiled from and on the line alone, and that there are
/// captures exactly where `regex::Regex::is_match` finds a match: both
/// search for a match anywhere in the line.
#[verifier::external_body]
fn regex_captures(matcher: &Matcher, line: &str) -> (r: Option<Option<String>>)
    ensures
        group_view(r) == if pattern_matches(matcher@, line@) {
            Some(pattern_group(matcher@, line@))
        } else {
            None
        },
{
    match matcher.engine.captures(line) {
        None => None,
        Some(groups) => match groups.get(1) {
            None => Some(None),
            Some(group) => Some(Some(group.as_str().to_string())),
        },
    }
}

impl Matcher {
    /// Compiles `pattern`, or returns `None` where the engine refuses it.
    pub fn compile(pattern: &str) -> (r: Option<Matcher>)
        ensures
            r is Some <==> pattern_compiles(pattern@),
            r matches Some(m) ==> m@ == pattern@,
    {
        match regex_new(pattern) {
            Ok(matcher) => Some(matcher),
            Err(_) => None,
        }
    }

    /// The text this matcher was compiled from.
    pub fn pattern(&self) -> (r: &str)
        ensures
            r@ == self@,
    {
        self.pattern.as_str()
    }
}

/// Whether `matcher` matches at least one of `lines`. Each line is tested on
/// its own: no match spans two lines.
pub fn any_line_matches(matcher: &Matcher, lines: &Vec<&str>) -> (b: bool)
    ensures
        b == some_line_matches(matcher@, views(lines@)),
{
    let mut i: usize = 0;
    while i < lines.len()
        invariant
            i <= lines.len(),
            forall|j: int| 0 <= j < i ==> !pattern_matches(matcher@, #[trigger] views(lines@)[j]),
        decreases lines.len() - i,
    {
        if regex_is_match(matcher, lines[i]) {
            assert(pattern_matches(matcher@, views(lines@)[i as int]));
            return true;
        }
        i += 1;
    }
    false
}

/// Searches `lines` in order for the first one that `matcher` matches, and
/// returns what its first group holds there.
pub fn find_captures_in_lines(matcher: &Matcher, lines: &Vec<&str>) -> (r: Option<Option<String>>)
    ensures
        group_view(r) == first_capture(matcher@, views(lines@)),
{
    let mut i: usize = 0;
    assert(views(lines@).skip(0) =~= views(lines@));
    while i < lines.len()
        invariant
            i <= lines.len(),
            first_capture(matcher@, views(lines@)) == first_capture(
                matcher@,
                views(lines@).skip(i as int),
            ),
        decreases lines.len() - i,
    {
        let found = regex_captures(matcher, lines[i]);
        assert(views(lines@).skip(i as int).drop_first() =~= views(lines@).skip(i + 1));
        if found.is_some() {
            return found;
        }
        i += 1;
    }
    None
}

/// There is no first capture exactly when the pattern matches none of the
/// lines.
pub proof fn lemma_first_capture_none(pattern: Seq<char>, lines: Seq<Seq<char>>)
    ensures
        first_capture(pattern, lines) is None <==> !some_line_matches(pattern, lines),
    decreases lines.len(),
{
    if lines.len() > 0 {
        let rest = lines.drop_first();
        lemma_first_capture_none(pattern, rest);
        if pattern_matches(pattern, lines.first()) {
            assert(pattern_matches(pattern, lines[0]));
        } else if some_line_matches(pattern, rest) {
            let i = choose|i: int| 0 <= i < rest.len() && pattern_matches(pattern, #[trigger] rest[i]);
            assert(lines[i + 1] == rest[i]);
        } else if some_line_matches(pattern, lines) {
            let i = choose|i: int|
                0 <= i < lines.len() && pattern_matches(pattern, #[trigger] lines[i]);
            assert(rest[i - 1] == lines[i]);
        }
    }
}

/// The earliest line that the pattern matches decides the first capture:
/// later lines have no say.
pub proof fn lemma_first_capture_at(pattern: Seq<char>, lines: Seq<Seq<char>>, i: int)
    requires
        0 <= i < lines.len(),
        pattern_matches(pattern, lines[i]),
        forall|j: int| 0 <= j < i ==> !pattern_matches(pattern, #[trigger] lines[j]),
    ensures
        first_capture(pattern, lines) == Some(pattern_group(pattern, lines[i])),
    decreases i,
{
    if i > 0 {
        let rest = lines.drop_first();
        assert(!pattern_matches(pattern, lines[0]));
        assert forall|j: int| 0 <= j < i - 1 implies !pattern_matches(
            pattern,
            #[trigger] rest[j],
        ) by {
            assert(rest[j] == lines[j + 1]);
        }
        lemma_first_capture_at(pattern, rest, i - 1);
    }
}

} // verus!
