//! What a timestamp means: its whole seconds, its form without a fraction,
//! and the timestamp of a number of seconds.

use vstd::prelude::*;
use crate::text::chars::{digit_value, is_digit};
use crate::text::numbers::{
    all_digits, lemma_decimal_round_trip, lemma_decimal_value_of_two, lemma_parsed_holds_digits,
    lemma_two_digits_round_trip, parse_u32, two_digits, unsigned_digits,
};
use crate::text::seqs::{
    before_first, join, lacks, lemma_before_first_lacks, lemma_first_index,
    lemma_first_index_behind, lemma_first_index_lacking, lemma_first_index_unique,
    lemma_join_split, lemma_split_first, lemma_split_pieces, lemma_split_single, split,
};

verus! {

/// The whole seconds of `hours:minutes:seconds`, where a fraction may follow
/// the seconds behind a dot and is left out, not rounded.
///
/// There is a value exactly where `t` has three parts between colons, each
/// part (the third up to its first dot) writes a `u32`, and the total fits
/// a `u32` too.
pub open spec fn seconds_of(t: Seq<char>) -> Option<u32> {
    let parts = split(t, ':');
    if parts.len() != 3 {
        None
    } else {
        match (
            parse_u32(parts[0]),
            parse_u32(parts[1]),
            parse_u32(before_first(parts[2], '.')),
        ) {
            (Some(h), Some(m), Some(s)) => if h * 3600 + m * 60 + s <= u32::MAX {
                Some((h * 3600 + m * 60 + s) as u32)
            } else {
                None
            },
            _ => None,
        }
    }
}

/// `t` cut off at its first dot: a timestamp without its fraction.
pub open spec fn truncated(t: Seq<char>) -> Seq<char> {
    before_first(t, '.')
}

/// `total` seconds as `HH:MM:SS`, each field with two digits at least.
pub open spec fn timestamp_of(total: nat) -> Seq<char> {
    two_digits(total / 3600) + seq![':'] + two_digits(total / 60 % 60) + seq![':'] + two_digits(
        total % 60,
    )
}

/// `t` is `HH:MM:SS` with two digits in each field, and minutes and seconds
/// below sixty.
pub open spec fn is_canonical(t: Seq<char>) -> bool {
    &&& t.len() == 8
    &&& is_digit(t[0]) && is_digit(t[1])
    &&& t[2] == ':'
    &&& is_digit(t[3]) && is_digit(t[4])
    &&& t[5] == ':'
    &&& is_digit(t[6]) && is_digit(t[7])
    &&& digit_value(t[3]) < 6
    &&& digit_value(t[6]) < 6
}

/// Truncating twice is truncating once, and what was truncated has no dot
/// left.
pub proof fn lemma_truncated_idempotent(t: Seq<char>)
    ensures
        lacks(truncated(t), '.'),
        truncated(truncated(t)) == truncated(t),
{
    lemma_before_first_lacks(t, '.');
}

/// A timestamp without a fraction is its own truncation.
pub proof fn lemma_truncated_whole_seconds(t: Seq<char>)
    requires
        lacks(t, '.'),
    ensures
        truncated(t) == t,
{
    lemma_first_index_lacking(t, '.');
}

/// A timestamp that can be read is its three fields with colons between.
proof fn lemma_three_fields(t: Seq<char>)
    requires
        split(t, ':').len() == 3,
    ensures
        t == split(t, ':')[0] + seq![':'] + split(t, ':')[1] + seq![':'] + split(t, ':')[2],
{
    let parts = split(t, ':');
    lemma_join_split(t, ':');
    let front = parts.drop_last();
    assert(front.drop_last() == seq![parts[0]]);
    assert(join(front.drop_last(), seq![':']) == parts[0]);
    assert(join(front, seq![':']) == parts[0] + seq![':'] + parts[1]);
}

/// Truncation keeps the whole seconds: a timestamp that can be read reads
/// the same without its fraction.
pub proof fn lemma_truncated_keeps_seconds(t: Seq<char>)
    requires
        seconds_of(t) is Some,
    ensures
        seconds_of(truncated(t)) == seconds_of(t),
{
    let parts = split(t, ':');
    let hh = parts[0];
    let mm = parts[1];
    let rest = parts[2];
    let colon = seq![':'];
    let whole = before_first(rest, '.');
    lemma_three_fields(t);
    lemma_split_pieces(t, ':');
    lemma_parsed_holds_digits(hh, '.');
    lemma_parsed_holds_digits(mm, '.');
    let front = hh + colon + mm + colon;
    assert(lacks(front, '.'));
    assert(t == front + rest);
    lemma_first_index_behind(front, rest, '.');
    let cut = truncated(t);
    assert(cut == hh + colon + (mm + colon + whole));
    lemma_first_index(rest, '.');
    assert(lacks(whole, ':')) by {
        assert forall|i: int| 0 <= i < whole.len() implies whole[i] != ':' by {
            assert(whole[i] == rest[i]);
        }
    }
    lemma_split_first(hh, ':', mm + colon + whole);
    lemma_split_first(mm, ':', whole);
    lemma_split_single(whole, ':');
    assert(split(cut, ':') == seq![hh, mm, whole]);
    lemma_before_first_lacks(rest, '.');
}

/// A field of two digits writes a number below a hundred, which `two_digits`
/// writes as the same field; it holds neither colon nor dot.
proof fn lemma_two_digit_field(f: Seq<char>)
    requires
        f.len() == 2,
        is_digit(f[0]),
        is_digit(f[1]),
    ensures
        parse_u32(f) == Some((digit_value(f[0]) * 10 + digit_value(f[1])) as u32),
        two_digits(digit_value(f[0]) * 10 + digit_value(f[1])) == f,
        lacks(f, ':'),
        lacks(f, '.'),
{
    assert(f == seq![f[0], f[1]]);
    lemma_decimal_value_of_two(f[0], f[1]);
    lemma_two_digits_round_trip(f[0], f[1]);
    assert(unsigned_digits(f) == f);
    assert(all_digits(f));
}

/// The three fields of a canonical timestamp.
proof fn lemma_canonical_fields(t: Seq<char>)
    requires
        is_canonical(t),
    ensures
        split(t, ':') == seq![t.subrange(0, 2), t.subrange(3, 5), t.subrange(6, 8)],
{
    let after_hours = t.skip(3);
    let after_minutes = after_hours.skip(3);
    lemma_first_index_unique(t, ':', 2);
    lemma_first_index_unique(after_hours, ':', 2);
    assert(lacks(after_minutes, ':'));
    lemma_split_single(after_minutes, ':');
    assert(split(after_hours, ':') == seq![after_hours.take(2)] + split(after_minutes, ':'));
    assert(split(t, ':') == seq![t.take(2)] + split(after_hours, ':'));
    assert(t.take(2) == t.subrange(0, 2));
    assert(after_hours.take(2) == t.subrange(3, 5));
    assert(after_minutes == t.subrange(6, 8));
}

/// The seconds of a timestamp whose three fields are known.
proof fn lemma_seconds_of_fields(
    t: Seq<char>,
    hh: Seq<char>,
    mm: Seq<char>,
    ss: Seq<char>,
    h: u32,
    m: u32,
    s: u32,
)
    requires
        split(t, ':') == seq![hh, mm, ss],
        parse_u32(hh) == Some(h),
        parse_u32(mm) == Some(m),
        parse_u32(ss) == Some(s),
        lacks(ss, '.'),
        h * 3600 + m * 60 + s <= u32::MAX,
    ensures
        seconds_of(t) == Some((h * 3600 + m * 60 + s) as u32),
{
    lemma_first_index_lacking(ss, '.');
    let parts = split(t, ':');
    assert(parts.len() == 3);
    assert(parts[0] == hh && parts[1] == mm && parts[2] == ss);
}

/// The timestamp of a number of seconds given as hours, minutes and seconds.
proof fn lemma_timestamp_of_fields(h: nat, m: nat, s: nat)
    requires
        m < 60,
        s < 60,
    ensures
        timestamp_of(h * 3600 + m * 60 + s) == two_digits(h) + seq![':'] + two_digits(m) + seq![
            ':',
        ] + two_digits(s),
{
    let total = h * 3600 + m * 60 + s;
    assert(total / 3600 == h && total / 60 % 60 == m && total % 60 == s);
}

/// Reading a canonical timestamp and writing its seconds gives it back.
pub proof fn lemma_canonical_round_trip(t: Seq<char>)
    requires
        is_canonical(t),
    ensures
        seconds_of(t) is Some,
        timestamp_of(seconds_of(t).unwrap() as nat) == t,
{
    let hh = t.subrange(0, 2);
    let mm = t.subrange(3, 5);
    let ss = t.subrange(6, 8);
    let h = digit_value(t[0]) * 10 + digit_value(t[1]);
    let m = digit_value(t[3]) * 10 + digit_value(t[4]);
    let sec = digit_value(t[6]) * 10 + digit_value(t[7]);
    lemma_canonical_fields(t);
    lemma_two_digit_field(hh);
    lemma_two_digit_field(mm);
    lemma_two_digit_field(ss);
    lemma_seconds_of_fields(t, hh, mm, ss, h as u32, m as u32, sec as u32);
    lemma_timestamp_of_fields(h, m, sec);
    assert(hh + seq![':'] + mm + seq![':'] + ss == t);
}

/// What `two_digits` writes is read back as the same number, and holds
/// neither colon nor dot.
proof fn lemma_parse_two_digits_of(n: u32)
    ensures
        parse_u32(two_digits(n as nat)) == Some(n),
        lacks(two_digits(n as nat), ':'),
        lacks(two_digits(n as nat), '.'),
{
    let s = two_digits(n as nat);
    if n < 10 {
        lemma_decimal_value_of_two('0', s[1]);
        assert(unsigned_digits(s) == s);
        assert(all_digits(s));
    } else {
        lemma_decimal_round_trip(n as nat);
        assert(unsigned_digits(s) == s);
    }
    assert forall|i: int| 0 <= i < s.len() implies s[i] != ':' && s[i] != '.' by {
        assert(is_digit(s[i]));
    }
}

/// Writing a number of seconds and reading the timestamp gives it back.
pub proof fn lemma_seconds_round_trip(total: u32)
    ensures
        seconds_of(timestamp_of(total as nat)) == Some(total),
{
    let h = (total / 3600) as u32;
    let m = (total / 60 % 60) as u32;
    let sec = (total % 60) as u32;
    let hh = two_digits(h as nat);
    let mm = two_digits(m as nat);
    let ss = two_digits(sec as nat);
    let colon = seq![':'];
    lemma_parse_two_digits_of(h);
    lemma_parse_two_digits_of(m);
    lemma_parse_two_digits_of(sec);
    let t = timestamp_of(total as nat);
    assert(t == hh + colon + (mm + colon + ss));
    lemma_split_first(hh, ':', mm + colon + ss);
    lemma_split_first(mm, ':', ss);
    lemma_split_single(ss, ':');
    assert(split(t, ':') == seq![hh, mm, ss]);
    assert(h * 3600 + m * 60 + sec == total);
    lemma_seconds_of_fields(t, hh, mm, ss, h, m, sec);
}

} // verus!
