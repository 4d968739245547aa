//! What becomes of a proposed clip when it is held against the cues.

use vstd::prelude::*;
use crate::models::{ClipSuggestionView, ValidatedClipView, VttCueView};
use crate::nearest::nearest;
use crate::text::chars::{is_reserved, is_whitespace};
use crate::text::seqs::{leading_whitespace, lemma_trim, trim};
use crate::timestamp::{lemma_truncated_keeps_seconds, seconds_of, truncated};

verus! {

/// A start and an end, both in whole seconds.
pub type Span = (Seq<char>, Seq<char>);

/// A title made fit for a file name: each reserved character gives way to an
/// underscore, and the whitespace at the two ends is dropped.
pub open spec fn sanitized(title: Seq<char>) -> Seq<char> {
    trim(
        title.map_values(
            |c: char|
                if is_reserved(c) {
                    '_'
                } else {
                    c
                },
        ),
    )
}

/// The cue boundaries that a proposal is moved to. The start is the
/// truncated start of the cue that starts nearest to the proposed start. The
/// end is the truncated end of the cue that starts nearest to the proposed
/// end: cues are looked up by their start for both boundaries.
///
/// There are none where a proposed time is no timestamp, or without cues.
pub open spec fn snapped(clip: ClipSuggestionView, cues: Seq<VttCueView>) -> Option<Span> {
    match (seconds_of(clip.start_time), seconds_of(clip.end_time)) {
        (Some(start), Some(end)) => if cues.len() > 0 {
            Some(
                (
                    truncated(cues[nearest(cues, start as int)].start_timestamp),
                    truncated(cues[nearest(cues, end as int)].end_timestamp),
                ),
            )
        } else {
            None
        },
        _ => None,
    }
}

/// Both times can be read, and the end lies after the start.
pub open spec fn has_duration(span: Span) -> bool {
    match (seconds_of(span.0), seconds_of(span.1)) {
        (Some(start), Some(end)) => end > start,
        _ => false,
    }
}

/// The span of the clip that a proposal becomes, or nothing where the
/// proposal is dropped: the cue boundaries it is moved to, where they leave
/// it a duration.
pub open spec fn reconciled(clip: ClipSuggestionView, cues: Seq<VttCueView>) -> Option<Span> {
    match snapped(clip, cues) {
        Some(span) => if has_duration(span) {
            Some(span)
        } else {
            None
        },
        None => None,
    }
}

/// The clip made of a proposal, the span it was moved to and an identifier.
pub open spec fn clip_of(clip: ClipSuggestionView, span: Span, id: Seq<char>) -> ValidatedClipView {
    ValidatedClipView {
        id,
        title: clip.title,
        start_time: span.0,
        end_time: span.1,
        sanitized_filename: sanitized(clip.title),
        is_selected: true,
    }
}

/// The proposals that are not dropped, in their order.
pub open spec fn accepted(suggestions: Seq<ClipSuggestionView>, cues: Seq<VttCueView>) -> Seq<
    ClipSuggestionView,
> {
    suggestions.filter(|clip: ClipSuggestionView| reconciled(clip, cues) is Some)
}

impl ValidatedClipView {
    /// The clip ends after it starts, by at least a second.
    pub open spec fn has_duration(self) -> bool {
        has_duration((self.start_time, self.end_time))
    }
}

/// A sanitized title holds no reserved character, is no longer than the
/// title, and neither begins nor ends with whitespace.
pub proof fn lemma_sanitized_is_safe(title: Seq<char>)
    ensures
        forall|i: int| 0 <= i < sanitized(title).len() ==> !is_reserved(sanitized(title)[i]),
        sanitized(title).len() <= title.len(),
        sanitized(title).len() > 0 ==> !is_whitespace(sanitized(title)[0]) && !is_whitespace(
            sanitized(title).last(),
        ),
{
    let replaced = title.map_values(
        |c: char|
            if is_reserved(c) {
                '_'
            } else {
                c
            },
    );
    lemma_trim(replaced);
    assert forall|i: int| 0 <= i < sanitized(title).len() implies !is_reserved(
        sanitized(title)[i],
    ) by {
        assert(sanitized(title)[i] == replaced[leading_whitespace(replaced) + i]);
    }
}

/// Whatever is proposed and whatever the cues are, a clip that is not
/// dropped ends after it starts.
pub proof fn lemma_reconciled_has_duration(clip: ClipSuggestionView, cues: Seq<VttCueView>)
    ensures
        reconciled(clip, cues) matches Some(span) ==> {
            &&& seconds_of(span.0) is Some
            &&& seconds_of(span.1) is Some
            &&& seconds_of(span.1).unwrap() > seconds_of(span.0).unwrap()
        },
        forall|id: Seq<char>|
            reconciled(clip, cues) is Some ==> (#[trigger] clip_of(
                clip,
                reconciled(clip, cues).unwrap(),
                id,
            )).has_duration(),
{
}

/// Where the cue that gives the start and the cue that gives the end can
/// both be read, the clip has a duration exactly where that end lies, in
/// whole seconds, after that start.
pub proof fn lemma_duration_by_cue_seconds(first: VttCueView, last: VttCueView)
    requires
        seconds_of(first.start_timestamp) is Some,
        seconds_of(last.end_timestamp) is Some,
    ensures
        has_duration((truncated(first.start_timestamp), truncated(last.end_timestamp))) == (
        seconds_of(last.end_timestamp).unwrap() > seconds_of(first.start_timestamp).unwrap()),
{
    lemma_truncated_keeps_seconds(first.start_timestamp);
    lemma_truncated_keeps_seconds(last.end_timestamp);
}

/// Without cues every proposal is dropped.
pub proof fn lemma_no_cues_no_clip(clip: ClipSuggestionView)
    ensures
        reconciled(clip, Seq::empty()) is None,
{
}

/// A proposal whose two times are the same is moved to the two ends of one
/// cue, so it is dropped exactly where that cue does not end, in whole
/// seconds, after it starts.
pub proof fn lemma_same_times_one_cue(clip: ClipSuggestionView, cues: Seq<VttCueView>)
    requires
        clip.start_time == clip.end_time,
        seconds_of(clip.start_time) is Some,
        cues.len() > 0,
    ensures
        ({
            let cue = cues[nearest(cues, seconds_of(clip.start_time).unwrap() as int)];
            let span = (truncated(cue.start_timestamp), truncated(cue.end_timestamp));
            reconciled(clip, cues) == if has_duration(span) {
                Some(span)
            } else {
                None
            }
        }),
{
}

} // verus!
