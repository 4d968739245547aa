//! Searching, splitting, joining and trimming sequences of characters.

use vstd::prelude::*;
use crate::text::chars::is_whitespace;

verus! {

/// `c` does not occur in `s`.
pub open spec fn lacks(s: Seq<char>, c: char) -> bool {
    forall|i: int| 0 <= i < s.len() ==> s[i] != c
}

/// Where `c` first occurs in `s`; the length of `s` where it does not occur.
pub open spec fn first_index(s: Seq<char>, c: char) -> int
    decreases s.len(),
{
    if s.len() == 0 || s[0] == c {
        0
    } else {
        1 + first_index(s.drop_first(), c)
    }
}

/// What stands in `s` before the first `c`; all of `s` where there is none.
pub open spec fn before_first(s: Seq<char>, c: char) -> Seq<char> {
    s.take(first_index(s, c))
}

/// The pieces of `s` between the occurrences of `sep`: one more piece than
/// there are separators, any of them possibly empty.
pub open spec fn split(s: Seq<char>, sep: char) -> Seq<Seq<char>>
    decreases s.len(),
{
    let i = first_index(s, sep);
    if 0 <= i < s.len() {
        seq![s.take(i)] + split(s.skip(i + 1), sep)
    } else {
        seq![s]
    }
}

/// The pieces written one after another with `sep` between neighbours.
pub open spec fn join(parts: Seq<Seq<char>>, sep: Seq<char>) -> Seq<char>
    decreases parts.len(),
{
    if parts.len() == 0 {
        Seq::empty()
    } else if parts.len() == 1 {
        parts[0]
    } else {
        join(parts.drop_last(), sep) + sep + parts.last()
    }
}

/// `needle` stands in `s` at position `i`.
pub open spec fn occurs_at(s: Seq<char>, needle: Seq<char>, i: int) -> bool {
    0 <= i && i + needle.len() <= s.len() && s.subrange(i, i + needle.len()) == needle
}

/// `needle` stands somewhere in `s`.
pub open spec fn contains_text(s: Seq<char>, needle: Seq<char>) -> bool {
    exists|i: int| occurs_at(s, needle, i)
}

/// How many whitespace characters `s` begins with.
pub open spec fn leading_whitespace(s: Seq<char>) -> int
    decreases s.len(),
{
    if s.len() > 0 && is_whitespace(s[0]) {
        1 + leading_whitespace(s.drop_first())
    } else {
        0
    }
}

/// How many whitespace characters `s` ends with.
pub open spec fn trailing_whitespace(s: Seq<char>) -> int
    decreases s.len(),
{
    if s.len() > 0 && is_whitespace(s.last()) {
        1 + trailing_whitespace(s.drop_last())
    } else {
        0
    }
}

/// `s` without the whitespace at its beginning.
pub open spec fn trim_start(s: Seq<char>) -> Seq<char> {
    s.skip(leading_whitespace(s))
}

/// `s` without the whitespace at its end.
pub open spec fn trim_end(s: Seq<char>) -> Seq<char> {
    s.take(s.len() - trailing_whitespace(s))
}

/// `s` without the whitespace at its two ends.
pub open spec fn trim(s: Seq<char>) -> Seq<char> {
    trim_end(trim_start(s))
}

/// `first_index` is within `s`, stands on a `c` unless it is the length, and
/// no `c` stands before it.
pub proof fn lemma_first_index(s: Seq<char>, c: char)
    ensures
        0 <= first_index(s, c) <= s.len(),
        first_index(s, c) < s.len() ==> s[first_index(s, c)] == c,
        forall|j: int| 0 <= j < first_index(s, c) ==> s[j] != c,
    decreases s.len(),
{
    if s.len() == 0 || s[0] == c {
    } else {
        let rest = s.drop_first();
        lemma_first_index(rest, c);
        assert forall|j: int| 0 <= j < first_index(s, c) implies s[j] != c by {
            if j > 0 {
                assert(s[j] == rest[j - 1]);
            }
        }
    }
}

/// The one position with a `c` on it (or the end) and none before it is
/// `first_index`.
pub proof fn lemma_first_index_unique(s: Seq<char>, c: char, k: int)
    requires
        0 <= k <= s.len(),
        k < s.len() ==> s[k] == c,
        forall|j: int| 0 <= j < k ==> s[j] != c,
    ensures
        first_index(s, c) == k,
{
    lemma_first_index(s, c);
}

/// Where `c` does not occur, `first_index` is the length.
pub proof fn lemma_first_index_lacking(s: Seq<char>, c: char)
    requires
        lacks(s, c),
    ensures
        first_index(s, c) == s.len(),
        before_first(s, c) == s,
{
    lemma_first_index_unique(s, c, s.len() as int);
    assert(s.take(s.len() as int) == s);
}

/// What stands before the first `c` holds no `c`.
pub proof fn lemma_before_first_lacks(s: Seq<char>, c: char)
    ensures
        lacks(before_first(s, c), c),
        before_first(before_first(s, c), c) == before_first(s, c),
{
    lemma_first_index(s, c);
    lemma_first_index_lacking(before_first(s, c), c);
}

/// Behind a front that holds no `c`, the first `c` is the first `c` of what
/// follows.
pub proof fn lemma_first_index_behind(front: Seq<char>, rest: Seq<char>, c: char)
    requires
        lacks(front, c),
    ensures
        first_index(front + rest, c) == front.len() + first_index(rest, c),
        before_first(front + rest, c) == front + before_first(rest, c),
{
    lemma_first_index(rest, c);
    let k = first_index(rest, c);
    lemma_first_index_unique(front + rest, c, front.len() + k);
    assert((front + rest).take(front.len() + k) == front + rest.take(k));
}

/// A sequence without separator is its own single piece.
pub proof fn lemma_split_single(s: Seq<char>, sep: char)
    requires
        lacks(s, sep),
    ensures
        split(s, sep) == seq![s],
{
    lemma_first_index_lacking(s, sep);
}

/// A first piece without separator, a separator and a rest split into that
/// piece and the pieces of the rest.
pub proof fn lemma_split_first(head: Seq<char>, sep: char, rest: Seq<char>)
    requires
        lacks(head, sep),
    ensures
        split(head + seq![sep] + rest, sep) == seq![head] + split(rest, sep),
{
    let s = head + seq![sep] + rest;
    lemma_first_index_unique(s, sep, head.len() as int);
    assert(s.take(head.len() as int) == head);
    assert(s.skip(head.len() as int + 1) == rest);
}

/// No piece holds the separator, and there is at least one piece.
pub proof fn lemma_split_pieces(s: Seq<char>, sep: char)
    ensures
        split(s, sep).len() >= 1,
        forall|i: int| 0 <= i < split(s, sep).len() ==> lacks(#[trigger] split(s, sep)[i], sep),
    decreases s.len(),
{
    lemma_first_index(s, sep);
    let k = first_index(s, sep);
    if k < s.len() {
        lemma_split_pieces(s.skip(k + 1), sep);
        let rest = split(s.skip(k + 1), sep);
        assert forall|i: int| 0 <= i < split(s, sep).len() implies lacks(
            #[trigger] split(s, sep)[i],
            sep,
        ) by {
            if i > 0 {
                assert(split(s, sep)[i] == rest[i - 1]);
            }
        }
    }
}

/// Joining the pieces with the separator gives the sequence back.
pub proof fn lemma_join_split(s: Seq<char>, sep: char)
    ensures
        join(split(s, sep), seq![sep]) == s,
    decreases s.len(),
{
    lemma_first_index(s, sep);
    let k = first_index(s, sep);
    if k < s.len() {
        let tail = s.skip(k + 1);
        lemma_join_split(tail, sep);
        lemma_split_pieces(tail, sep);
        lemma_join_first(s.take(k), split(tail, sep), seq![sep]);
        assert(s.take(k) + seq![sep] + tail == s);
    }
}

/// Joining a first piece before others puts it, and a separator, in front.
pub proof fn lemma_join_first(head: Seq<char>, rest: Seq<Seq<char>>, sep: Seq<char>)
    requires
        rest.len() >= 1,
    ensures
        join(seq![head] + rest, sep) == head + sep + join(rest, sep),
    decreases rest.len(),
{
    let all = seq![head] + rest;
    assert(all.last() == rest.last());
    if rest.len() == 1 {
        assert(all.drop_last() == seq![head]);
        assert(join(seq![head], sep) == head);
        assert(join(rest, sep) == rest.last());
    } else {
        assert(all.drop_last() == seq![head] + rest.drop_last());
        lemma_join_first(head, rest.drop_last(), sep);
        assert(head + sep + join(rest.drop_last(), sep) + sep + rest.last() == head + sep + (join(
            rest.drop_last(),
            sep,
        ) + sep + rest.last()));
    }
}

/// A last piece without separator, behind a separator, is the last piece.
pub proof fn lemma_split_last(front: Seq<char>, sep: char, last: Seq<char>)
    requires
        lacks(last, sep),
    ensures
        split(front + seq![sep] + last, sep) == split(front, sep).push(last),
    decreases front.len(),
{
    let whole = front + seq![sep] + last;
    lemma_first_index(front, sep);
    let k = first_index(front, sep);
    if k == front.len() {
        lemma_split_first(front, sep, last);
        lemma_split_single(last, sep);
        assert(seq![front] + seq![last] == seq![front].push(last));
    } else {
        let head = front.take(k);
        let tail = front.skip(k + 1);
        assert(whole == head + seq![sep] + (tail + seq![sep] + last));
        lemma_split_first(head, sep, tail + seq![sep] + last);
        lemma_split_last(tail, sep, last);
        assert(seq![head] + split(tail, sep).push(last) == (seq![head] + split(tail, sep)).push(
            last,
        ));
    }
}

/// Pieces without separator, joined with it and split again, are the
/// pieces.
pub proof fn lemma_split_join(parts: Seq<Seq<char>>, sep: char)
    requires
        parts.len() >= 1,
        forall|i: int| 0 <= i < parts.len() ==> lacks(#[trigger] parts[i], sep),
    ensures
        split(join(parts, seq![sep]), sep) == parts,
    decreases parts.len(),
{
    if parts.len() == 1 {
        lemma_split_single(parts[0], sep);
        assert(seq![parts[0]] == parts);
    } else {
        let front = parts.drop_last();
        assert forall|i: int| 0 <= i < front.len() implies lacks(#[trigger] front[i], sep) by {
            assert(front[i] == parts[i]);
        }
        lemma_split_join(front, sep);
        lemma_split_last(join(front, seq![sep]), sep, parts.last());
        assert(front.push(parts.last()) == parts);
    }
}

/// What stands in a sequence without `c` holds no `c` either.
pub proof fn lemma_part_lacks(s: Seq<char>, part: Seq<char>, c: char)
    requires
        contains_text(s, part),
        lacks(s, c),
    ensures
        lacks(part, c),
{
    let at = choose|i: int| occurs_at(s, part, i);
    assert forall|j: int| 0 <= j < part.len() implies part[j] != c by {
        assert(part[j] == s.subrange(at, at + part.len())[j]);
    }
}

/// Pieces without `c`, joined with a separator without `c`, hold no `c`.
pub proof fn lemma_join_lacks(parts: Seq<Seq<char>>, sep: Seq<char>, c: char)
    requires
        lacks(sep, c),
        forall|i: int| 0 <= i < parts.len() ==> lacks(#[trigger] parts[i], c),
    ensures
        lacks(join(parts, sep), c),
    decreases parts.len(),
{
    if parts.len() > 1 {
        let front = parts.drop_last();
        assert forall|i: int| 0 <= i < front.len() implies lacks(#[trigger] front[i], c) by {
            assert(front[i] == parts[i]);
        }
        lemma_join_lacks(front, sep, c);
        assert(lacks(parts.last(), c));
    } else if parts.len() == 1 {
        assert(lacks(parts[0], c));
    }
}

/// What is trimmed is a piece of the sequence, with whitespace alone before
/// and behind it, and neither begins nor ends with whitespace.
pub proof fn lemma_trim(s: Seq<char>)
    ensures
        0 <= leading_whitespace(s) <= leading_whitespace(s) + trim(s).len() <= s.len(),
        trim(s) == s.subrange(leading_whitespace(s), leading_whitespace(s) + trim(s).len()),
        forall|j: int| 0 <= j < leading_whitespace(s) ==> is_whitespace(s[j]),
        forall|j: int|
            leading_whitespace(s) + trim(s).len() <= j < s.len() ==> is_whitespace(s[j]),
        trim(s).len() > 0 ==> !is_whitespace(trim(s)[0]) && !is_whitespace(trim(s).last()),
{
    let rest = trim_start(s);
    lemma_leading_whitespace(s);
    lemma_trailing_whitespace(rest);
    let end = leading_whitespace(s) + trim(s).len();
    assert forall|j: int| end <= j < s.len() implies is_whitespace(s[j]) by {
        assert(s[j] == rest[j - leading_whitespace(s)]);
    }
}

/// Trimming brings no character in.
pub proof fn lemma_trim_lacks(s: Seq<char>, c: char)
    requires
        lacks(s, c),
    ensures
        lacks(trim(s), c),
{
    lemma_leading_whitespace(s);
    lemma_trailing_whitespace(trim_start(s));
}

/// `leading_whitespace` counts whitespace only, and stops at the first
/// character that is none.
pub proof fn lemma_leading_whitespace(s: Seq<char>)
    ensures
        0 <= leading_whitespace(s) <= s.len(),
        forall|j: int| 0 <= j < leading_whitespace(s) ==> is_whitespace(s[j]),
        leading_whitespace(s) < s.len() ==> !is_whitespace(s[leading_whitespace(s)]),
    decreases s.len(),
{
    if s.len() > 0 && is_whitespace(s[0]) {
        let rest = s.drop_first();
        lemma_leading_whitespace(rest);
        assert forall|j: int| 0 <= j < leading_whitespace(s) implies is_whitespace(s[j]) by {
            if j > 0 {
                assert(s[j] == rest[j - 1]);
            }
        }
    }
}

/// `trailing_whitespace` counts whitespace only, and stops at the last
/// character that is none.
pub proof fn lemma_trailing_whitespace(s: Seq<char>)
    ensures
        0 <= trailing_whitespace(s) <= s.len(),
        forall|j: int| s.len() - trailing_whitespace(s) <= j < s.len() ==> is_whitespace(s[j]),
        trailing_whitespace(s) < s.len() ==> !is_whitespace(
            s[s.len() - trailing_whitespace(s) - 1],
        ),
    decreases s.len(),
{
    if s.len() > 0 && is_whitespace(s.last()) {
        let rest = s.drop_last();
        lemma_trailing_whitespace(rest);
        assert forall|j: int|
            s.len() - trailing_whitespace(s) <= j < s.len() implies is_whitespace(s[j]) by {
            if j < s.len() - 1 {
                assert(s[j] == rest[j]);
            }
        }
    }
}

} // verus!
