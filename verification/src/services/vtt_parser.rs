//! The cue parser and the timestamp arithmetic that it shares with the
//! reconciler.

use vstd::prelude::*;
use vstd::string::StringExecFns;
use crate::cues::{
    closes_text, cue_at, cues_from, cues_of, has_signature, is_one_line,
    lemma_cues_are_one_line, lemma_lines_hold_no_break, lemma_text_end,
    lemma_text_opens_no_cue, lines_of, opens_cue, range_is_one_line, signature, text_end,
};
use crate::models::{VttCue, VttCueView};
use crate::nearest::{distance, is_nearest, lemma_nearest, nearest};
use crate::services::matcher::{
    find_ranges, lemma_range_of_one_line, ranges_of, regex_accepts, RANGE_LINE,
};
use crate::text::numbers::{push_decimal, push_two_digits, read_u32};
use crate::text::seqs::{join, lacks, split, trim};
use crate::text::strings::{
    chars_of, find_char, push_str, slices, split_bounds, string_from, string_of, trim_bounds,
};
use crate::timestamp::{
    lemma_truncated_idempotent, lemma_truncated_whole_seconds, seconds_of, timestamp_of, truncated,
};
use crate::transcript::{block, blocks_of, transcript_line, transcript_of};

verus! {

/// Why a text is no transcript.
#[derive(Debug, Clone, Copy, PartialEq, Eq)]
pub enum ParseError {
    /// The text does not begin with the signature of the format.
    InvalidFormat,
    /// The pattern of range lines was refused, so no line could be read.
    PatternRejected,
}

impl ParseError {
    /// The error in words.
    pub fn message(&self) -> (r: String)
        ensures
            r@ == match self {
                ParseError::InvalidFormat => "Invalid VTT file: missing WEBVTT header"@,
                ParseError::PatternRejected => "Invalid VTT pattern: range lines cannot be read"@,
            },
    {
        match self {
            ParseError::InvalidFormat => "Invalid VTT file: missing WEBVTT header".to_owned(),
            ParseError::PatternRejected => {
                "Invalid VTT pattern: range lines cannot be read".to_owned()
            },
        }
    }
}

/// The functions that read a transcript and its timestamps.
pub struct VttParser;

impl VttParser {
    /// Reads the cues of a transcript.
    ///
    /// The text must begin with `WEBVTT`. Each line is trimmed; a range line
    /// `start --> end` that is neither blank nor a number opens a cue, whose
    /// text is made of the lines below it, up to the first blank line or
    /// range line, with one space between them. Every other line is passed
    /// over. The cues come in the order of their range lines.
    ///
    /// A text without the signature is the one thing that is refused for
    /// what it holds: no line that follows the signature makes the parse
    /// fail. Range lines are recognised by the pattern `RANGE_LINE`; should
    /// the pattern itself be refused, no text can be read.
    ///
    /// No cue holds a line break, so each cue stays one line of the flat
    /// transcript.
    pub fn parse(content: &str) -> (r: Result<Vec<VttCue>, ParseError>)
        ensures
            match r {
                Ok(cues) => {
                    &&& has_signature(content@)
                    &&& regex_accepts(RANGE_LINE@)
                    &&& cues.deep_view() == cues_of(
                        lines_of(content@),
                        ranges_of(lines_of(content@)),
                    )
                    &&& forall|k: int|
                        0 <= k < cues.deep_view().len() ==> is_one_line(
                            #[trigger] cues.deep_view()[k],
                        )
                },
                Err(ParseError::InvalidFormat) => !has_signature(content@),
                Err(ParseError::PatternRejected) => {
                    has_signature(content@) && !regex_accepts(RANGE_LINE@)
                },
            },
    {
        let chars = chars_of(content);
        if !Self::begins_with_signature(chars.as_slice()) {
            return Err(ParseError::InvalidFormat);
        }
        let lines = Self::trimmed_lines(chars.as_slice());
        match find_ranges(&lines) {
            Ok(ranges) => {
                assert(ranges.deep_view().len() == lines.deep_view().len());
                proof {
                    let all_lines = lines.deep_view();
                    let all_ranges = ranges.deep_view();
                    lemma_lines_hold_no_break(content@);
                    assert forall|i: int| 0 <= i < all_ranges.len() implies range_is_one_line(
                        #[trigger] all_ranges[i],
                    ) by {
                        lemma_range_of_one_line(all_ranges[i], all_lines[i]);
                    }
                    lemma_cues_are_one_line(all_lines, all_ranges, 0);
                }
                Ok(Self::assemble_cues(&lines, &ranges))
            },
            Err(error) => Err(error),
        }
    }

    /// The cues that trimmed `lines` make up, where `ranges` holds beside
    /// each line the two timestamps of a range line, or nothing: a cue for
    /// each line that opens one, in the order of the lines.
    pub fn assemble_cues(lines: &Vec<String>, ranges: &Vec<Option<(String, String)>>) -> (cues:
        Vec<VttCue>)
        requires
            lines@.len() == ranges@.len(),
        ensures
            cues.deep_view() == cues_of(lines.deep_view(), ranges.deep_view()),
    {
        let ghost all_lines = lines.deep_view();
        let ghost all_ranges = ranges.deep_view();
        let mut cues: Vec<VttCue> = Vec::new();
        let mut i: usize = 0;
        assert(cues.deep_view() =~= Seq::<VttCueView>::empty());
        while i < lines.len()
            invariant
                i <= lines@.len() == ranges@.len(),
                all_lines == lines.deep_view(),
                all_ranges == ranges.deep_view(),
                cues_of(all_lines, all_ranges) == cues.deep_view() + cues_from(
                    all_lines,
                    all_ranges,
                    i as int,
                ),
            decreases lines@.len() - i,
        {
            match Self::opening_at(lines, ranges, i) {
                Some((start, end)) => {
                    let (text, next) = Self::text_below(lines, ranges, i + 1);
                    let ghost before = cues.deep_view();
                    let cue = VttCue { start_timestamp: start, end_timestamp: end, text };
                    assert(cue@ == cue_at(all_lines, all_ranges, i as int));
                    cues.push(cue);
                    proof {
                        lemma_text_opens_no_cue(all_lines, all_ranges, i + 1, next as int);
                        assert(cues.deep_view() =~= before.push(cue@));
                    }
                    i = next;
                },
                None => {
                    i += 1;
                },
            }
        }
        cues
    }

    /// The timestamps of line `i` where it opens a cue.
    fn opening_at(lines: &Vec<String>, ranges: &Vec<Option<(String, String)>>, i: usize) -> (r:
        Option<(String, String)>)
        requires
            i < lines@.len() == ranges@.len(),
        ensures
            r.deep_view() == if opens_cue(lines.deep_view(), ranges.deep_view(), i as int) {
                ranges.deep_view()[i as int]
            } else {
                None
            },
    {
        let line = lines[i].as_str();
        if line.is_empty() {
            return None;
        }
        let chars = chars_of(line);
        assert(chars@.subrange(0, chars@.len() as int) == chars@);
        if read_u32(chars.as_slice(), 0, chars.len()).is_some() {
            return None;
        }
        match &ranges[i] {
            Some((start, end)) => Some((start.clone(), end.clone())),
            None => None,
        }
    }

    /// Line `i` closes the text of a cue.
    fn line_closes_text(
        lines: &Vec<String>,
        ranges: &Vec<Option<(String, String)>>,
        i: usize,
    ) -> (r: bool)
        requires
            i < lines@.len() == ranges@.len(),
        ensures
            r == closes_text(lines.deep_view(), ranges.deep_view(), i as int),
    {
        lines[i].as_str().is_empty() || ranges[i].is_some()
    }

    /// The text that begins at line `from`, and the line at which it ends.
    fn text_below(lines: &Vec<String>, ranges: &Vec<Option<(String, String)>>, from: usize) -> (r:
        (String, usize))
        requires
            from <= lines@.len() == ranges@.len(),
        ensures
            from <= r.1 <= lines@.len(),
            r.1 == text_end(lines.deep_view(), ranges.deep_view(), from as int),
            r.0@ == join(lines.deep_view().subrange(from as int, r.1 as int), seq![' ']),
            forall|k: int|
                from <= k < r.1 ==> !closes_text(lines.deep_view(), ranges.deep_view(), k),
    {
        let ghost all_lines = lines.deep_view();
        let ghost all_ranges = ranges.deep_view();
        let mut text = String::new();
        let mut j: usize = from;
        assert(all_lines.subrange(from as int, from as int) =~= Seq::<Seq<char>>::empty());
        while j < lines.len() && !Self::line_closes_text(lines, ranges, j)
            invariant
                from <= j <= lines@.len() == ranges@.len(),
                all_lines == lines.deep_view(),
                all_ranges == ranges.deep_view(),
                text@ == join(all_lines.subrange(from as int, j as int), seq![' ']),
                forall|k: int| from <= k < j ==> !closes_text(all_lines, all_ranges, k),
            decreases lines@.len() - j,
        {
            if j > from {
                text.push(' ');
            }
            text.append(lines[j].as_str());
            proof {
                let read = all_lines.subrange(from as int, j + 1);
                assert(read.drop_last() == all_lines.subrange(from as int, j as int));
                assert(read.last() == lines@[j as int]@);
                assert(text@ == join(read, seq![' ']));
            }
            j += 1;
        }
        proof {
            lemma_text_end(all_lines, all_ranges, from as int, j as int);
        }
        (text, j)
    }

    /// The text begins with `WEBVTT`.
    fn begins_with_signature(chars: &[char]) -> (r: bool)
        ensures
            r == has_signature(chars@),
    {
        let r = chars.len() >= 6 && chars[0] == 'W' && chars[1] == 'E' && chars[2] == 'B'
            && chars[3] == 'V' && chars[4] == 'T' && chars[5] == 'T';
        proof {
            if r {
                assert(chars@.subrange(0, 6) =~= signature());
            } else if chars@.len() >= 6 {
                assert(chars@.subrange(0, 6) != signature()) by {
                    if chars@.subrange(0, 6) == signature() {
                        assert(forall|k: int|
                            0 <= k < 6 ==> chars@[k] == chars@.subrange(0, 6)[k]);
                    }
                }
            }
        }
        r
    }

    /// The lines of a text, each trimmed.
    fn trimmed_lines(chars: &[char]) -> (lines: Vec<String>)
        ensures
            lines.deep_view() == lines_of(chars@),
    {
        let bounds = split_bounds(chars, '\n');
        let ghost pieces = split(chars@, '\n');
        let mut lines: Vec<String> = Vec::new();
        let mut i: usize = 0;
        while i < bounds.len()
            invariant
                i <= bounds@.len(),
                pieces == split(chars@, '\n'),
                slices(chars@, bounds@) == pieces,
                forall|k: int|
                    0 <= k < bounds@.len() ==> (#[trigger] bounds@[k]).0 <= bounds@[k].1
                        <= chars@.len(),
                lines@.len() == i,
                forall|k: int| 0 <= k < i ==> (#[trigger] lines@[k])@ == trim(pieces[k]),
            decreases bounds@.len() - i,
        {
            let (from, to) = bounds[i];
            assert(pieces[i as int] == chars@.subrange(from as int, to as int));
            let (a, b) = trim_bounds(chars, from, to);
            lines.push(string_of(chars, a, b));
            i += 1;
        }
        assert(lines.deep_view() =~= lines_of(chars@));
        lines
    }

    /// A timestamp without its fraction: `HH:MM:SS.mmm` becomes `HH:MM:SS`.
    /// The text is cut at the first dot; nothing is rounded.
    ///
    /// A timestamp that has no fraction comes back as it is.
    pub fn vtt_to_ffmpeg_timestamp(vtt_time: &str) -> (r: String)
        ensures
            r@ == truncated(vtt_time@),
            lacks(vtt_time@, '.') ==> r@ == vtt_time@,
            lacks(r@, '.'),
    {
        proof {
            lemma_truncated_idempotent(vtt_time@);
            if lacks(vtt_time@, '.') {
                lemma_truncated_whole_seconds(vtt_time@);
            }
        }
        let chars = chars_of(vtt_time);
        let dot = find_char(chars.as_slice(), 0, chars.len(), '.');
        assert(chars@.subrange(0, chars@.len() as int) == chars@);
        string_of(chars.as_slice(), 0, dot)
    }

    /// The whole seconds of `HH:MM:SS[.mmm]`, or `None` where the text is no
    /// such timestamp.
    pub fn timestamp_to_seconds(timestamp: &str) -> (r: Option<u32>)
        ensures
            r == seconds_of(timestamp@),
    {
        let chars = chars_of(timestamp);
        let parts = split_bounds(chars.as_slice(), ':');
        if parts.len() != 3 {
            return None;
        }
        let ghost pieces = slices(chars@, parts@);
        let (h_from, h_to) = parts[0];
        let (m_from, m_to) = parts[1];
        let (s_from, s_to) = parts[2];
        assert(pieces[0] == chars@.subrange(h_from as int, h_to as int));
        assert(pieces[1] == chars@.subrange(m_from as int, m_to as int));
        assert(pieces[2] == chars@.subrange(s_from as int, s_to as int));
        let dot = find_char(chars.as_slice(), s_from, s_to, '.');
        assert(chars@.subrange(s_from as int, dot as int) == pieces[2].take(dot - s_from));
        let hours = read_u32(chars.as_slice(), h_from, h_to);
        let minutes = read_u32(chars.as_slice(), m_from, m_to);
        let seconds = read_u32(chars.as_slice(), s_from, dot);
        match (hours, minutes, seconds) {
            (Some(h), Some(m), Some(s)) => {
                let total: u64 = h as u64 * 3600 + m as u64 * 60 + s as u64;
                if total <= u32::MAX as u64 {
                    Some(total as u32)
                } else {
                    None
                }
            },
            _ => None,
        }
    }

    /// The cue that starts nearest to `target_time`, counted in whole
    /// seconds; of several at the same distance, the first. A cue whose start
    /// cannot be read counts as starting at zero.
    ///
    /// There is none where `target_time` is no timestamp, or where there are
    /// no cues.
    pub fn find_closest_cue<'a>(cues: &'a [VttCue], target_time: &str) -> (r: Option<&'a VttCue>)
        ensures
            match seconds_of(target_time@) {
                Some(target) if cues@.len() > 0 => {
                    &&& r == Some(&cues@[nearest(cues.deep_view(), target as int)])
                    &&& is_nearest(
                        cues.deep_view(),
                        target as int,
                        nearest(cues.deep_view(), target as int),
                    )
                },
                _ => r is None,
            },
    {
        let target = match Self::timestamp_to_seconds(target_time) {
            Some(t) => t,
            None => {
                return None;
            },
        };
        if cues.len() == 0 {
            return None;
        }
        let ghost views = cues.deep_view();
        let mut best: usize = 0;
        let mut best_distance: u32 = Self::seconds_apart(&cues[0], target);
        let mut i: usize = 1;
        assert(views.take(1)[0] == views[0]);
        while i < cues.len()
            invariant
                1 <= i <= cues@.len(),
                views == cues.deep_view(),
                best == nearest(views.take(i as int), target as int),
                best < i,
                best_distance == distance(views[best as int], target as int),
            decreases cues@.len() - i,
        {
            let d = Self::seconds_apart(&cues[i], target);
            proof {
                let seen = views.take(i + 1);
                assert(seen.drop_last() == views.take(i as int));
                assert(seen.last() == views[i as int]);
                assert(seen[best as int] == views[best as int]);
            }
            if d < best_distance {
                best = i;
                best_distance = d;
            }
            i += 1;
        }
        proof {
            assert(views.take(cues@.len() as int) == views);
            lemma_nearest(views, target as int);
        }
        Some(&cues[best])
    }

    /// How many seconds lie between the start of `cue` and `target`.
    fn seconds_apart(cue: &VttCue, target: u32) -> (d: u32)
        ensures
            d == distance(cue@, target as int),
    {
        let start = match Self::timestamp_to_seconds(cue.start_timestamp.as_str()) {
            Some(s) => s,
            None => 0,
        };
        if start >= target {
            start - target
        } else {
            target - start
        }
    }

    /// The cues as plain text: a line `[start] text` for each cue, in the
    /// order of the cues.
    pub fn get_full_transcript(cues: &[VttCue]) -> (r: String)
        ensures
            r@ == transcript_of(cues.deep_view()),
    {
        let ghost views = cues.deep_view();
        let ghost lines = views.map_values(|cue: VttCueView| transcript_line(cue));
        let mut out: Vec<char> = Vec::new();
        let mut i: usize = 0;
        assert(lines.take(0) =~= Seq::<Seq<char>>::empty());
        while i < cues.len()
            invariant
                i <= cues@.len(),
                views == cues.deep_view(),
                lines == views.map_values(|cue: VttCueView| transcript_line(cue)),
                out@ == join(lines.take(i as int), seq!['\n']),
            decreases cues@.len() - i,
        {
            if i > 0 {
                out.push('\n');
            }
            let ghost start = out@;
            out.push('[');
            push_str(&mut out, cues[i].start_timestamp.as_str());
            out.push(']');
            out.push(' ');
            push_str(&mut out, cues[i].text.as_str());
            proof {
                let read = lines.take(i + 1);
                assert(read.drop_last() == lines.take(i as int));
                assert(read.last() == transcript_line(views[i as int]));
                assert(out@ == start + transcript_line(views[i as int]));
                assert(out@ == join(read, seq!['\n']));
            }
            i += 1;
        }
        assert(lines.take(cues@.len() as int) == lines);
        string_from(&out)
    }

    /// The cues as structured text: for each cue a block of its number, its
    /// range line and its text, in the order of the cues, with an empty line
    /// between blocks.
    pub fn get_formatted_vtt(cues: &[VttCue]) -> (r: String)
        ensures
            r@ == blocks_of(cues.deep_view()),
    {
        let ghost views = cues.deep_view();
        let ghost blocks = views.map(|k: int, cue: VttCueView| block((k + 1) as nat, cue));
        let mut out: Vec<char> = Vec::new();
        let mut i: usize = 0;
        assert(blocks.take(0) =~= Seq::<Seq<char>>::empty());
        while i < cues.len()
            invariant
                i <= cues@.len(),
                views == cues.deep_view(),
                blocks == views.map(|k: int, cue: VttCueView| block((k + 1) as nat, cue)),
                out@ == join(blocks.take(i as int), seq!['\n', '\n']),
            decreases cues@.len() - i,
        {
            if i > 0 {
                out.push('\n');
                out.push('\n');
            }
            let ghost start = out@;
            push_decimal(&mut out, i as u64 + 1);
            out.push('\n');
            push_str(&mut out, cues[i].start_timestamp.as_str());
            push_str(&mut out, " --> ");
            push_str(&mut out, cues[i].end_timestamp.as_str());
            out.push('\n');
            push_str(&mut out, cues[i].text.as_str());
            proof {
                reveal_strlit(" --> ");
                assert(" --> "@ =~= seq![' ', '-', '-', '>', ' ']);
                let read = blocks.take(i + 1);
                assert(read.drop_last() == blocks.take(i as int));
                assert(read.last() == block((i + 1) as nat, views[i as int]));
                assert(out@ == start + block((i + 1) as nat, views[i as int]));
                assert(out@ == join(read, seq!['\n', '\n']));
            }
            i += 1;
        }
        assert(blocks.take(cues@.len() as int) == blocks);
        string_from(&out)
    }

    /// `total` seconds as `HH:MM:SS`.
    pub fn seconds_to_timestamp(total: u32) -> (r: String)
        ensures
            r@ == timestamp_of(total as nat),
    {
        let mut out: Vec<char> = Vec::new();
        push_two_digits(&mut out, (total / 3600) as u64);
        out.push(':');
        push_two_digits(&mut out, (total / 60 % 60) as u64);
        out.push(':');
        push_two_digits(&mut out, (total % 60) as u64);
        string_from(&out)
    }
}

} // verus!
