//! How the lines of a transcript make up its cues.
//!
//! The lines are taken trimmed. Beside each line stands what a range line
//! `start --> end` holds where the line is one, and nothing where it is not.

use vstd::prelude::*;
use crate::models::VttCueView;
use crate::text::numbers::parse_u32;
use crate::text::seqs::{
    join, lacks, lemma_join_lacks, lemma_split_pieces, lemma_trim_lacks, split, trim,
};

verus! {

/// The two timestamps of a range line.
pub type Range = Option<(Seq<char>, Seq<char>)>;

/// The first characters of a transcript.
pub open spec fn signature() -> Seq<char> {
    seq!['W', 'E', 'B', 'V', 'T', 'T']
}

/// The text begins with the signature of the format.
pub open spec fn has_signature(content: Seq<char>) -> bool {
    signature().is_prefix_of(content)
}

/// The lines of a text, each without the whitespace at its two ends.
pub open spec fn lines_of(content: Seq<char>) -> Seq<Seq<char>> {
    split(content, '\n').map_values(|line: Seq<char>| trim(line))
}

/// A line that is a number: the index that may stand above a cue.
pub open spec fn is_index(line: Seq<char>) -> bool {
    parse_u32(line) is Some
}

/// Line `i` opens a cue: it is a range line, and neither blank nor an index.
pub open spec fn opens_cue(lines: Seq<Seq<char>>, ranges: Seq<Range>, i: int) -> bool {
    lines[i].len() > 0 && !is_index(lines[i]) && ranges[i] is Some
}

/// Line `i` is no text of the cue above it: it is blank, or a range line.
pub open spec fn closes_text(lines: Seq<Seq<char>>, ranges: Seq<Range>, i: int) -> bool {
    lines[i].len() == 0 || ranges[i] is Some
}

/// The first line at or after `from` that closes the text of a cue; the
/// number of lines where none does.
pub open spec fn text_end(lines: Seq<Seq<char>>, ranges: Seq<Range>, from: int) -> int
    decreases lines.len() - from,
{
    if from >= lines.len() || closes_text(lines, ranges, from) {
        from
    } else {
        text_end(lines, ranges, from + 1)
    }
}

/// The cue that line `i` opens: the two timestamps of the line, and as text
/// the lines below it up to the first that closes the text, with one space
/// between them.
pub open spec fn cue_at(lines: Seq<Seq<char>>, ranges: Seq<Range>, i: int) -> VttCueView {
    VttCueView {
        start_timestamp: ranges[i].unwrap().0,
        end_timestamp: ranges[i].unwrap().1,
        text: join(lines.subrange(i + 1, text_end(lines, ranges, i + 1)), seq![' ']),
    }
}

/// The cues that the lines from `from` on open, in the order of the lines.
pub open spec fn cues_from(lines: Seq<Seq<char>>, ranges: Seq<Range>, from: int) -> Seq<
    VttCueView,
>
    decreases lines.len() - from,
{
    if from >= lines.len() {
        Seq::empty()
    } else if opens_cue(lines, ranges, from) {
        seq![cue_at(lines, ranges, from)] + cues_from(lines, ranges, from + 1)
    } else {
        cues_from(lines, ranges, from + 1)
    }
}

/// The cues of a transcript: one for each line that opens one, in the order
/// of the lines.
pub open spec fn cues_of(lines: Seq<Seq<char>>, ranges: Seq<Range>) -> Seq<VttCueView> {
    cues_from(lines, ranges, 0)
}

/// The cue holds no line break, neither in its timestamps nor in its text.
pub open spec fn is_one_line(cue: VttCueView) -> bool {
    &&& lacks(cue.start_timestamp, '\n')
    &&& lacks(cue.end_timestamp, '\n')
    &&& lacks(cue.text, '\n')
}

/// The timestamps of a range hold no line break.
pub open spec fn range_is_one_line(range: Range) -> bool {
    range matches Some(span) ==> lacks(span.0, '\n') && lacks(span.1, '\n')
}

/// The lines of a text hold no line break.
pub proof fn lemma_lines_hold_no_break(content: Seq<char>)
    ensures
        forall|i: int|
            0 <= i < lines_of(content).len() ==> lacks(#[trigger] lines_of(content)[i], '\n'),
{
    lemma_split_pieces(content, '\n');
    assert forall|i: int| 0 <= i < lines_of(content).len() implies lacks(
        #[trigger] lines_of(content)[i],
        '\n',
    ) by {
        lemma_trim_lacks(split(content, '\n')[i], '\n');
    }
}

/// Where neither the lines nor the ranges hold a line break, no cue does.
pub proof fn lemma_cues_are_one_line(lines: Seq<Seq<char>>, ranges: Seq<Range>, from: int)
    requires
        0 <= from,
        lines.len() == ranges.len(),
        forall|i: int| 0 <= i < lines.len() ==> lacks(#[trigger] lines[i], '\n'),
        forall|i: int| 0 <= i < ranges.len() ==> range_is_one_line(#[trigger] ranges[i]),
    ensures
        forall|k: int|
            0 <= k < cues_from(lines, ranges, from).len() ==> is_one_line(
                #[trigger] cues_from(lines, ranges, from)[k],
            ),
    decreases lines.len() - from,
{
    if from < lines.len() {
        lemma_cues_are_one_line(lines, ranges, from + 1);
        let below = cues_from(lines, ranges, from + 1);
        if opens_cue(lines, ranges, from) {
            let cue = cue_at(lines, ranges, from);
            assert(is_one_line(cue)) by {
                lemma_text_end_in_bounds(lines, ranges, from + 1);
                let text = lines.subrange(from + 1, text_end(lines, ranges, from + 1));
                assert forall|i: int| 0 <= i < text.len() implies lacks(
                    #[trigger] text[i],
                    '\n',
                ) by {
                    assert(text[i] == lines[from + 1 + i]);
                }
                lemma_join_lacks(text, seq![' '], '\n');
                assert(range_is_one_line(ranges[from]));
            }
            assert forall|k: int| 0 <= k < cues_from(lines, ranges, from).len() implies is_one_line(
                #[trigger] cues_from(lines, ranges, from)[k],
            ) by {
                if k > 0 {
                    assert(cues_from(lines, ranges, from)[k] == below[k - 1]);
                }
            }
        }
    }
}

/// The text of a cue ends among the lines, not before it begins.
pub proof fn lemma_text_end_in_bounds(lines: Seq<Seq<char>>, ranges: Seq<Range>, from: int)
    requires
        0 <= from <= lines.len(),
    ensures
        from <= text_end(lines, ranges, from) <= lines.len(),
    decreases lines.len() - from,
{
    if from < lines.len() && !closes_text(lines, ranges, from) {
        lemma_text_end_in_bounds(lines, ranges, from + 1);
    }
}

/// Where no line of `from..to` closes the text and line `to` does (or the
/// lines end there), the text that begins at `from` ends at `to`.
pub proof fn lemma_text_end(lines: Seq<Seq<char>>, ranges: Seq<Range>, from: int, to: int)
    requires
        0 <= from <= to <= lines.len(),
        forall|k: int| from <= k < to ==> !closes_text(lines, ranges, k),
        to < lines.len() ==> closes_text(lines, ranges, to),
    ensures
        text_end(lines, ranges, from) == to,
    decreases to - from,
{
    if from < to {
        assert(!closes_text(lines, ranges, from));
        lemma_text_end(lines, ranges, from + 1, to);
    }
}

/// Lines that are the text of a cue open no cue.
pub proof fn lemma_text_opens_no_cue(
    lines: Seq<Seq<char>>,
    ranges: Seq<Range>,
    from: int,
    to: int,
)
    requires
        0 <= from <= to <= lines.len(),
        forall|k: int| from <= k < to ==> !closes_text(lines, ranges, k),
    ensures
        cues_from(lines, ranges, from) == cues_from(lines, ranges, to),
    decreases to - from,
{
    if from < to {
        assert(!closes_text(lines, ranges, from));
        lemma_text_opens_no_cue(lines, ranges, from + 1, to);
    }
}

/// The lines from `from` on that open a cue, in their order.
pub open spec fn openings_from(lines: Seq<Seq<char>>, ranges: Seq<Range>, from: int) -> Seq<int>
    decreases lines.len() - from,
{
    if from >= lines.len() {
        Seq::empty()
    } else if opens_cue(lines, ranges, from) {
        seq![from] + openings_from(lines, ranges, from + 1)
    } else {
        openings_from(lines, ranges, from + 1)
    }
}

/// The cues stand in the order of the lines that open them: there is one cue
/// for each such line and none besides, cue `k` is the cue of the `k`-th
/// such line, and a later cue comes from a later line.
pub proof fn lemma_cues_keep_source_order(lines: Seq<Seq<char>>, ranges: Seq<Range>, from: int)
    requires
        0 <= from,
    ensures
        cues_from(lines, ranges, from).len() == openings_from(lines, ranges, from).len(),
        forall|k: int|
            0 <= k < openings_from(lines, ranges, from).len() ==> {
                let line = #[trigger] openings_from(lines, ranges, from)[k];
                &&& from <= line < lines.len()
                &&& opens_cue(lines, ranges, line)
                &&& cues_from(lines, ranges, from)[k] == cue_at(lines, ranges, line)
            },
        forall|j: int, k: int|
            0 <= j < k < openings_from(lines, ranges, from).len() ==> openings_from(
                lines,
                ranges,
                from,
            )[j] < openings_from(lines, ranges, from)[k],
        forall|i: int|
            from <= i < lines.len() && opens_cue(lines, ranges, i) ==> openings_from(
                lines,
                ranges,
                from,
            ).contains(i),
    decreases lines.len() - from,
{
    let here = openings_from(lines, ranges, from);
    if from < lines.len() {
        lemma_cues_keep_source_order(lines, ranges, from + 1);
        let below = openings_from(lines, ranges, from + 1);
        let cues_below = cues_from(lines, ranges, from + 1);
        if opens_cue(lines, ranges, from) {
            assert forall|k: int| 0 <= k < here.len() implies {
                let line = #[trigger] here[k];
                &&& from <= line < lines.len()
                &&& opens_cue(lines, ranges, line)
                &&& cues_from(lines, ranges, from)[k] == cue_at(lines, ranges, line)
            } by {
                if k > 0 {
                    assert(here[k] == below[k - 1]);
                    assert(cues_from(lines, ranges, from)[k] == cues_below[k - 1]);
                }
            }
            assert forall|j: int, k: int| 0 <= j < k < here.len() implies here[j] < here[k] by {
                assert(here[k] == below[k - 1]);
                if j > 0 {
                    assert(here[j] == below[j - 1]);
                }
            }
            assert forall|i: int|
                from <= i < lines.len() && opens_cue(lines, ranges, i) implies here.contains(
                i,
            ) by {
                if i == from {
                    assert(here[0] == i);
                } else {
                    let k = choose|k: int| 0 <= k < below.len() && below[k] == i;
                    assert(here[k + 1] == i);
                }
            }
        }
    }
}

} // verus!
