//! Moving between strings and their characters, and the searches that the
//! parsers run over a line.

use vstd::prelude::*;
use crate::text::chars::{char_is_whitespace, is_whitespace};
use crate::text::seqs::{
    contains_text, first_index, leading_whitespace, lemma_first_index_unique,
    lemma_leading_whitespace, lemma_trailing_whitespace, occurs_at, split, trailing_whitespace,
    trim, trim_end, trim_start,
};

verus! {

/// `String::push` of the standard library: the string grows by the one
/// character at its end.
pub assume_specification[ String::push ](s: &mut String, c: char)
    ensures
        final(s)@ == old(s)@.push(c),
;

/// The characters of `s`, in order.
pub fn chars_of(s: &str) -> (v: Vec<char>)
    ensures
        v@ == s@,
{
    let mut v: Vec<char> = Vec::new();
    for c in it: s.chars()
        invariant
            it.seq() == s@,
            v@ == it.seq().take(it.index() as int),
    {
        v.push(c);
    }
    v
}

/// The string made of `chars[from..to]`.
pub fn string_of(chars: &[char], from: usize, to: usize) -> (s: String)
    requires
        from <= to <= chars@.len(),
    ensures
        s@ == chars@.subrange(from as int, to as int),
{
    let mut s = String::new();
    let mut i: usize = from;
    while i < to
        invariant
            from <= i <= to <= chars@.len(),
            s@ == chars@.subrange(from as int, i as int),
        decreases to - i,
    {
        s.push(chars[i]);
        i += 1;
    }
    s
}

/// Appends the characters of `piece` to `out`.
pub fn push_str(out: &mut Vec<char>, piece: &str)
    ensures
        final(out)@ == old(out)@ + piece@,
{
    let ghost before = out@;
    for c in it: piece.chars()
        invariant
            it.seq() == piece@,
            out@ == before + it.seq().take(it.index() as int),
    {
        out.push(c);
    }
}

/// The first position of `chars[from..to]` that holds `c`, or `to`.
pub fn find_char(chars: &[char], from: usize, to: usize, c: char) -> (k: usize)
    requires
        from <= to <= chars@.len(),
    ensures
        from <= k <= to,
        k == from + first_index(chars@.subrange(from as int, to as int), c),
{
    let mut k: usize = from;
    while k < to && chars[k] != c
        invariant
            from <= k <= to <= chars@.len(),
            forall|j: int| from <= j < k ==> chars@[j] != c,
        decreases to - k,
    {
        k += 1;
    }
    proof {
        lemma_first_index_unique(chars@.subrange(from as int, to as int), c, k - from);
    }
    k
}

/// The pieces of `chars` that the pairs of `bounds` mark out.
pub open spec fn slices(chars: Seq<char>, bounds: Seq<(usize, usize)>) -> Seq<Seq<char>> {
    Seq::new(bounds.len(), |i: int| chars.subrange(bounds[i].0 as int, bounds[i].1 as int))
}

/// Where the pieces of `chars` between the occurrences of `sep` begin and end.
pub fn split_bounds(chars: &[char], sep: char) -> (r: Vec<(usize, usize)>)
    ensures
        slices(chars@, r@) == split(chars@, sep),
        forall|i: int| 0 <= i < r@.len() ==> (#[trigger] r@[i]).0 <= r@[i].1 <= chars@.len(),
{
    let mut r: Vec<(usize, usize)> = Vec::new();
    let mut start: usize = 0;
    let mut k: usize = find_char(chars, 0, chars.len(), sep);
    assert(chars@.skip(0) == chars@);
    assert(chars@.subrange(0, chars@.len() as int) == chars@);
    while k < chars.len()
        invariant
            start <= k <= chars@.len(),
            k == start + first_index(chars@.skip(start as int), sep),
            split(chars@, sep) == slices(chars@, r@) + split(chars@.skip(start as int), sep),
            forall|i: int| 0 <= i < r@.len() ==> (#[trigger] r@[i]).0 <= r@[i].1 <= chars@.len(),
        decreases chars@.len() - start,
    {
        let ghost rest = chars@.skip(start as int);
        let ghost done = slices(chars@, r@);
        r.push((start, k));
        proof {
            assert(rest.take(k - start) == chars@.subrange(start as int, k as int));
            assert(rest.skip(k - start + 1) == chars@.skip(k + 1));
            assert(slices(chars@, r@) == done + seq![rest.take(k - start)]);
        }
        start = k + 1;
        k = find_char(chars, start, chars.len(), sep);
        assert(chars@.skip(start as int) == chars@.subrange(start as int, chars@.len() as int));
    }
    let ghost done = slices(chars@, r@);
    r.push((start, k));
    proof {
        assert(chars@.skip(start as int) == chars@.subrange(start as int, k as int));
        assert(slices(chars@, r@) == done + seq![chars@.skip(start as int)]);
    }
    r
}

/// The bounds of `chars[from..to]` without the whitespace at its two ends.
pub fn trim_bounds(chars: &[char], from: usize, to: usize) -> (r: (usize, usize))
    requires
        from <= to <= chars@.len(),
    ensures
        from <= r.0 <= r.1 <= to,
        chars@.subrange(r.0 as int, r.1 as int) == trim(chars@.subrange(from as int, to as int)),
{
    let ghost piece = chars@.subrange(from as int, to as int);
    let mut a: usize = from;
    while a < to && char_is_whitespace(chars[a])
        invariant
            from <= a <= to <= chars@.len(),
            forall|j: int| from <= j < a ==> is_whitespace(chars@[j]),
        decreases to - a,
    {
        a += 1;
    }
    let mut b: usize = to;
    while a < b && char_is_whitespace(chars[b - 1])
        invariant
            from <= a <= b <= to <= chars@.len(),
            forall|j: int| b <= j < to ==> is_whitespace(chars@[j]),
        decreases b - a,
    {
        b -= 1;
    }
    proof {
        lemma_leading_whitespace(piece);
        let lead = leading_whitespace(piece);
        assert(lead == a - from) by {
            if lead < a - from {
                assert(is_whitespace(chars@[from + lead]));
            } else if lead > a - from {
                assert(is_whitespace(piece[a - from]));
            }
        }
        let rest = trim_start(piece);
        assert(rest == chars@.subrange(a as int, to as int));
        lemma_trailing_whitespace(rest);
        let trail = trailing_whitespace(rest);
        assert(trail == to - b) by {
            if trail < to - b {
                assert(is_whitespace(chars@[to - trail - 1]));
            } else if trail > to - b {
                assert(is_whitespace(rest[b - 1 - a]));
            }
        }
        assert(trim_end(rest) == chars@.subrange(a as int, b as int));
    }
    (a, b)
}

/// The string with the characters of `chars`.
pub fn string_from(chars: &Vec<char>) -> (s: String)
    ensures
        s@ == chars@,
{
    assert(chars@.subrange(0, chars@.len() as int) == chars@);
    string_of(chars.as_slice(), 0, chars.len())
}

/// `needle` stands in `chars` at position `at`.
pub fn matches_at(chars: &[char], needle: &[char], at: usize) -> (r: bool)
    requires
        at + needle@.len() <= chars@.len(),
    ensures
        r == occurs_at(chars@, needle@, at as int),
{
    let mut k: usize = 0;
    while k < needle.len()
        invariant
            k <= needle@.len(),
            at + needle@.len() <= chars@.len() == chars.len(),
            forall|j: int| 0 <= j < k ==> chars@[at + j] == needle@[j],
        decreases needle@.len() - k,
    {
        if chars[at + k] != needle[k] {
            assert(chars@.subrange(at as int, at + needle@.len())[k as int] != needle@[k as int]);
            return false;
        }
        k += 1;
    }
    assert(chars@.subrange(at as int, at + needle@.len()) =~= needle@);
    true
}

/// The two texts are the same.
pub fn same_text(a: &str, b: &str) -> (r: bool)
    ensures
        r == (a@ == b@),
{
    let left = chars_of(a);
    let right = chars_of(b);
    if left.len() != right.len() {
        return false;
    }
    assert(left@.subrange(0, 0 + right@.len() as int) == left@);
    matches_at(left.as_slice(), right.as_slice(), 0)
}

/// `needle` stands somewhere in `text`.
pub fn text_contains(text: &str, needle: &str) -> (r: bool)
    ensures
        r == contains_text(text@, needle@),
{
    let chars = chars_of(text);
    let wanted = chars_of(needle);
    if wanted.len() > chars.len() {
        return false;
    }
    let last: usize = chars.len() - wanted.len();
    let mut i: usize = 0;
    loop
        invariant
            i <= last,
            last == chars@.len() - wanted@.len(),
            chars@ == text@,
            wanted@ == needle@,
            forall|j: int| 0 <= j < i ==> !occurs_at(chars@, wanted@, j),
        decreases last - i,
    {
        if matches_at(chars.as_slice(), wanted.as_slice(), i) {
            return true;
        }
        if i == last {
            return false;
        }
        i += 1;
    }
}

} // verus!
