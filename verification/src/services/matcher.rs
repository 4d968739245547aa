//! Regular expressions, as far as the parser needs them: the capture groups
//! that a pattern finds in each line of a text.

use vstd::prelude::*;
use crate::cues::{range_is_one_line, Range};
use crate::services::vtt_parser::ParseError;
use crate::text::seqs::{contains_text, lacks, lemma_part_lacks};

verus! {

/// A range line: two timestamps `HH:MM:SS.mmm` with an arrow between them,
/// at the beginning of a line, with any whitespace round the arrow and
/// anything behind the second timestamp. Each timestamp is a capture group.
/// The pattern is read by the `regex` crate, to which `\d` is any decimal
/// digit and `\s` any whitespace of Unicode.
pub const RANGE_LINE: &'static str =
    r"^(\d{2}:\d{2}:\d{2}\.\d{3})\s*-->\s*(\d{2}:\d{2}:\d{2}\.\d{3})";

/// The error with which the `regex` crate refuses a pattern.
#[verifier::external_type_specification]
#[verifier::external_body]
pub struct ExRegexError(regex::Error);

/// Whether `regex::Regex::new` compiles `pattern`.
pub uninterp spec fn regex_accepts(pattern: Seq<char>) -> bool;

/// What `regex::Regex::captures` reports when the compiled `pattern`
/// searches `haystack`: nothing where there is no match, else the text of
/// each capture group of the leftmost match, the whole match first, with
/// nothing for a group that took no part in it.
pub uninterp spec fn regex_captures(pattern: Seq<char>, haystack: Seq<char>) -> Option<
    Seq<Option<Seq<char>>>,
>;

/// Every capture group that took part in a match is a piece of `haystack`.
pub open spec fn groups_lie_in(
    groups: Option<Seq<Option<Seq<char>>>>,
    haystack: Seq<char>,
) -> bool {
    groups matches Some(found) ==> forall|j: int|
        0 <= j < found.len() && (#[trigger] found[j]) is Some ==> contains_text(
            haystack,
            found[j].unwrap(),
        )
}

/// Compiles `pattern` with `regex::Regex::new` and searches each haystack
/// with `regex::Regex::captures`.
///
/// Believed, not proved: the call fails exactly on the patterns that the
/// crate refuses, and otherwise hands back, haystack by haystack and in
/// their order, the text of the capture groups that `captures` found, each
/// of which `Match::as_str` cuts out of the haystack.
#[verifier::external_body]
pub(crate) fn captures_in_each(pattern: &str, haystacks: &Vec<String>) -> (r: Result<
    Vec<Option<Vec<Option<String>>>>,
    regex::Error,
>)
    ensures
        r is Ok <==> regex_accepts(pattern@),
        r matches Ok(found) ==> found.deep_view() == haystacks.deep_view().map_values(
            |h: Seq<char>| regex_captures(pattern@, h),
        ),
        r matches Ok(found) ==> forall|i: int|
            0 <= i < found.deep_view().len() ==> groups_lie_in(
                #[trigger] found.deep_view()[i],
                haystacks.deep_view()[i],
            ),
{
    let re = regex::Regex::new(pattern)?;
    Ok(
        haystacks.iter().map(
            |h|
                re.captures(h).map(
                    |c| c.iter().map(|m| m.map(|m| m.as_str().to_string())).collect(),
                ),
        ).collect(),
    )
}

/// The two timestamps among capture groups: the first and the second group
/// behind the whole match, where both took part in it.
pub open spec fn range_in(groups: Option<Seq<Option<Seq<char>>>>) -> Range {
    match groups {
        Some(g) => if g.len() > 2 && g[1] is Some && g[2] is Some {
            Some((g[1].unwrap(), g[2].unwrap()))
        } else {
            None
        },
        None => None,
    }
}

/// The two timestamps that `pattern` finds in `line`.
pub open spec fn range_with(pattern: Seq<char>, line: Seq<char>) -> Range {
    range_in(regex_captures(pattern, line))
}

/// Beside each line, what `pattern` finds in it.
pub open spec fn ranges_with(pattern: Seq<char>, lines: Seq<Seq<char>>) -> Seq<Range> {
    lines.map_values(|line: Seq<char>| range_with(pattern, line))
}

/// The two timestamps of `line` where it is a range line.
pub open spec fn range_of(line: Seq<char>) -> Range {
    range_with(RANGE_LINE@, line)
}

/// Beside each line, its two timestamps where it is a range line.
pub open spec fn ranges_of(lines: Seq<Seq<char>>) -> Seq<Range> {
    ranges_with(RANGE_LINE@, lines)
}

/// The two timestamps of a range are pieces of `line`.
pub open spec fn range_lies_in(range: Range, line: Seq<char>) -> bool {
    range matches Some(span) ==> contains_text(line, span.0) && contains_text(line, span.1)
}

/// Timestamps that are pieces of a line without line break hold none.
pub proof fn lemma_range_of_one_line(range: Range, line: Seq<char>)
    requires
        range_lies_in(range, line),
        lacks(line, '\n'),
    ensures
        range_is_one_line(range),
{
    match range {
        Some(span) => {
            lemma_part_lacks(line, span.0, '\n');
            lemma_part_lacks(line, span.1, '\n');
        },
        None => {},
    }
}

/// Picks the two timestamps out of the capture groups of one line.
pub fn range_from_groups(groups: &Option<Vec<Option<String>>>) -> (r: Option<(String, String)>)
    ensures
        r.deep_view() == range_in(groups.deep_view()),
{
    match groups {
        Some(g) => {
            if g.len() > 2 {
                match (&g[1], &g[2]) {
                    (Some(start), Some(end)) => Some((start.clone(), end.clone())),
                    _ => None,
                }
            } else {
                None
            }
        },
        None => None,
    }
}

/// Searches each of `lines` with `pattern` and keeps, beside each line, the
/// first two capture groups of what was found: nothing where the line has no
/// match, or where one of the two groups took no part in it. What is kept
/// are pieces of the line.
///
/// Fails exactly where the pattern is refused, whatever the lines are.
pub fn find_ranges_with(pattern: &str, lines: &Vec<String>) -> (r: Result<
    Vec<Option<(String, String)>>,
    ParseError,
>)
    ensures
        match r {
            Ok(ranges) => {
                &&& regex_accepts(pattern@)
                &&& ranges.deep_view() == ranges_with(pattern@, lines.deep_view())
                &&& forall|i: int|
                    0 <= i < ranges.deep_view().len() ==> range_lies_in(
                        #[trigger] ranges.deep_view()[i],
                        lines.deep_view()[i],
                    )
            },
            Err(error) => !regex_accepts(pattern@) && error == ParseError::PatternRejected,
        },
{
    let found = match captures_in_each(pattern, lines) {
        Ok(found) => found,
        Err(_) => {
            return Err(ParseError::PatternRejected);
        },
    };
    let mut ranges: Vec<Option<(String, String)>> = Vec::new();
    let mut i: usize = 0;
    assert(found.deep_view().len() == lines.deep_view().len());
    while i < found.len()
        invariant
            i <= found@.len() == lines@.len(),
            found.deep_view() == lines.deep_view().map_values(
                |h: Seq<char>| regex_captures(pattern@, h),
            ),
            ranges@.len() == i,
            forall|i: int|
                0 <= i < found.deep_view().len() ==> groups_lie_in(
                    #[trigger] found.deep_view()[i],
                    lines.deep_view()[i],
                ),
            forall|k: int|
                0 <= k < i ==> (#[trigger] ranges@[k]).deep_view() == range_with(
                    pattern@,
                    lines.deep_view()[k],
                ),
            forall|k: int|
                0 <= k < i ==> range_lies_in(
                    (#[trigger] ranges@[k]).deep_view(),
                    lines.deep_view()[k],
                ),
        decreases found@.len() - i,
    {
        let ghost groups = found.deep_view()[i as int];
        assert(groups == found@[i as int].deep_view());
        assert(groups_lie_in(groups, lines.deep_view()[i as int]));
        let range = range_from_groups(&found[i]);
        assert(range_lies_in(range.deep_view(), lines.deep_view()[i as int])) by {
            match groups {
                Some(g) => {
                    if g.len() > 2 && g[1] is Some && g[2] is Some {
                        assert(contains_text(lines.deep_view()[i as int], g[1].unwrap()));
                        assert(contains_text(lines.deep_view()[i as int], g[2].unwrap()));
                    }
                },
                None => {},
            }
        }
        ranges.push(range);
        i += 1;
    }
    assert(ranges.deep_view() =~= ranges_with(pattern@, lines.deep_view()));
    Ok(ranges)
}

/// Looks for a range line in each of `lines`: beside each line its two
/// timestamps, or nothing where it is no range line.
///
/// Fails exactly where the pattern of range lines is refused, whatever the
/// lines are.
pub fn find_ranges(lines: &Vec<String>) -> (r: Result<Vec<Option<(String, String)>>, ParseError>)
    ensures
        match r {
            Ok(ranges) => {
                &&& regex_accepts(RANGE_LINE@)
                &&& ranges.deep_view() == ranges_of(lines.deep_view())
                &&& forall|i: int|
                    0 <= i < ranges.deep_view().len() ==> range_lies_in(
                        #[trigger] ranges.deep_view()[i],
                        lines.deep_view()[i],
                    )
            },
            Err(error) => !regex_accepts(RANGE_LINE@) && error == ParseError::PatternRejected,
        },
{
    find_ranges_with(RANGE_LINE, lines)
}

} // verus!
