//! Cues written out as text: one line for each cue, or one block for each.

use vstd::prelude::*;
use crate::cues::is_one_line;
use crate::models::VttCueView;
use crate::text::numbers::decimal;
use crate::text::seqs::{join, lacks, lemma_split_join, split};

verus! {

/// One cue on one line: `[start] text`.
pub open spec fn transcript_line(cue: VttCueView) -> Seq<char> {
    seq!['['] + cue.start_timestamp + seq![']', ' '] + cue.text
}

/// The flat transcript: the line of each cue, in the order of the cues, with
/// a line break between neighbours.
pub open spec fn transcript_of(cues: Seq<VttCueView>) -> Seq<char> {
    join(cues.map_values(|cue: VttCueView| transcript_line(cue)), seq!['\n'])
}

/// One cue as a block of three lines: its number, its range line, its text.
pub open spec fn block(number: nat, cue: VttCueView) -> Seq<char> {
    decimal(number) + seq!['\n'] + cue.start_timestamp + seq![' ', '-', '-', '>', ' ']
        + cue.end_timestamp + seq!['\n'] + cue.text
}

/// The structured transcript: the block of each cue, numbered from one in
/// the order of the cues, with an empty line between neighbours.
pub open spec fn blocks_of(cues: Seq<VttCueView>) -> Seq<char> {
    join(cues.map(|i: int, cue: VttCueView| block((i + 1) as nat, cue)), seq!['\n', '\n'])
}

/// The lines of the flat transcript are the lines of the cues, one for each
/// cue and in the order of the cues, as long as no cue holds a line break.
/// The cues that the parser reads hold none.
pub proof fn lemma_transcript_keeps_order(cues: Seq<VttCueView>)
    requires
        cues.len() > 0,
        forall|k: int| 0 <= k < cues.len() ==> is_one_line(#[trigger] cues[k]),
    ensures
        split(transcript_of(cues), '\n').len() == cues.len(),
        forall|k: int|
            0 <= k < cues.len() ==> #[trigger] split(transcript_of(cues), '\n')[k]
                == transcript_line(cues[k]),
{
    let lines = cues.map_values(|cue: VttCueView| transcript_line(cue));
    assert forall|k: int| 0 <= k < lines.len() implies lacks(#[trigger] lines[k], '\n') by {
        assert(lines[k] == transcript_line(cues[k]));
        assert(is_one_line(cues[k]));
    }
    lemma_split_join(lines, '\n');
}

} // verus!
