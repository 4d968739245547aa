//! From the clips that a model proposes to the clips that can be cut.

use vstd::prelude::*;
use crate::models::{ClipSuggestion, ClipSuggestionView, ValidatedClip, VttCue};
use crate::reconcile::{
    accepted, clip_of, lemma_sanitized_is_safe, reconciled, sanitized, snapped,
};
use crate::services::VttParser;
use crate::text::chars::{char_is_reserved, is_reserved};
use crate::text::strings::{chars_of, string_of, trim_bounds};

verus! {

/// A new version 4 identifier of the `uuid` crate in its hyphenated text
/// form, from `Uuid::new_v4` and `to_string`.
///
/// Believed, not proved: the text has 36 characters. Which identifier comes
/// is up to the random source of the operating system; the call does not
/// return where that source gives no bytes.
#[verifier::external_body]
fn fresh_id() -> (id: String)
    ensures
        id@.len() == 36,
{
    uuid::Uuid::new_v4().to_string()
}

/// A title made fit for a file name: each of `/ \ : * ? " < > |` gives way
/// to an underscore, then the whitespace at the two ends is dropped. What
/// comes back holds none of these characters. It may be empty.
pub fn sanitize_filename(title: &str) -> (r: String)
    ensures
        r@ == sanitized(title@),
        forall|i: int| 0 <= i < r@.len() ==> !is_reserved(r@[i]),
{
    proof {
        lemma_sanitized_is_safe(title@);
    }
    let chars = chars_of(title);
    let mut safe: Vec<char> = Vec::new();
    let mut i: usize = 0;
    while i < chars.len()
        invariant
            i <= chars@.len(),
            safe@.len() == i,
            forall|k: int|
                0 <= k < i ==> safe@[k] == if is_reserved(chars@[k]) {
                    '_'
                } else {
                    chars@[k]
                },
        decreases chars@.len() - i,
    {
        let c = chars[i];
        safe.push(
            if char_is_reserved(c) {
                '_'
            } else {
                c
            },
        );
        i += 1;
    }
    assert(safe@ =~= title@.map_values(
        |c: char|
            if is_reserved(c) {
                '_'
            } else {
                c
            },
    ));
    assert(safe@.subrange(0, safe@.len() as int) == safe@);
    let (a, b) = trim_bounds(safe.as_slice(), 0, safe.len());
    string_of(safe.as_slice(), a, b)
}

/// The span of the clip that a proposal becomes, or `None` where it is
/// dropped.
///
/// The start is the truncated start of the cue nearest to the proposed start,
/// the end the truncated end of the cue nearest to the proposed end, each cue
/// found by its start. The proposal is dropped where a proposed time cannot
/// be read, where there are no cues, and where the end so found does not lie
/// after the start.
pub fn reconcile(clip: &ClipSuggestion, cues: &[VttCue]) -> (r: Option<(String, String)>)
    ensures
        r.deep_view() == reconciled(clip@, cues.deep_view()),
{
    let start_cue = match VttParser::find_closest_cue(cues, clip.start_time.as_str()) {
        Some(cue) => cue,
        None => {
            return None;
        },
    };
    let end_cue = match VttParser::find_closest_cue(cues, clip.end_time.as_str()) {
        Some(cue) => cue,
        None => {
            return None;
        },
    };
    let start_time = VttParser::vtt_to_ffmpeg_timestamp(start_cue.start_timestamp.as_str());
    let end_time = VttParser::vtt_to_ffmpeg_timestamp(end_cue.end_timestamp.as_str());
    assert(snapped(clip@, cues.deep_view()) == Some((start_time@, end_time@)));
    let end = VttParser::timestamp_to_seconds(end_time.as_str());
    let start = VttParser::timestamp_to_seconds(start_time.as_str());
    match (start, end) {
        (Some(s), Some(e)) => {
            if e <= s {
                None
            } else {
                Some((start_time, end_time))
            }
        },
        _ => None,
    }
}

/// Holds a proposal against the cues: the clip that can be cut, with a new
/// identifier and selected, or `None` where the proposal is dropped.
pub fn validate_and_map_clip(clip: ClipSuggestion, vtt_cues: &[VttCue]) -> (r: Option<
    ValidatedClip,
>)
    ensures
        match reconciled(clip@, vtt_cues.deep_view()) {
            Some(span) => {
                &&& r is Some
                &&& r.unwrap()@ == clip_of(clip@, span, r.unwrap().id@)
                &&& r.unwrap()@.has_duration()
            },
            None => r is None,
        },
{
    match reconcile(&clip, vtt_cues) {
        Some((start_time, end_time)) => {
            let sanitized_filename = sanitize_filename(clip.title.as_str());
            Some(
                ValidatedClip {
                    id: fresh_id(),
                    title: clip.title,
                    start_time,
                    end_time,
                    sanitized_filename,
                    is_selected: true,
                },
            )
        },
        None => None,
    }
}

/// Holds each proposal against the cues and keeps, in their order, the clips
/// of those that are not dropped. A proposal that is dropped takes no other
/// with it.
pub fn validate_clips(suggestions: &[ClipSuggestion], vtt_cues: &[VttCue]) -> (clips: Vec<
    ValidatedClip,
>)
    ensures
        clips@.len() == accepted(suggestions.deep_view(), vtt_cues.deep_view()).len(),
        forall|k: int|
            0 <= k < clips@.len() ==> {
                let from = accepted(suggestions.deep_view(), vtt_cues.deep_view())[k];
                &&& reconciled(from, vtt_cues.deep_view()) is Some
                &&& (#[trigger] clips@[k])@ == clip_of(
                    from,
                    reconciled(from, vtt_cues.deep_view()).unwrap(),
                    clips@[k].id@,
                )
                &&& clips@[k]@.has_duration()
            },
{
    let ghost all = suggestions.deep_view();
    let ghost cues = vtt_cues.deep_view();
    let ghost kept = |clip: ClipSuggestionView| reconciled(clip, cues) is Some;
    let mut clips: Vec<ValidatedClip> = Vec::new();
    let mut i: usize = 0;
    assert(all.take(0) =~= Seq::<ClipSuggestionView>::empty());
    assert(all.take(0).filter(kept) =~= Seq::<ClipSuggestionView>::empty()) by {
        reveal(Seq::filter);
    }
    while i < suggestions.len()
        invariant
            i <= suggestions@.len(),
            all == suggestions.deep_view(),
            cues == vtt_cues.deep_view(),
            kept == |clip: ClipSuggestionView| reconciled(clip, cues) is Some,
            clips@.len() == all.take(i as int).filter(kept).len(),
            forall|k: int|
                0 <= k < clips@.len() ==> {
                    let from = all.take(i as int).filter(kept)[k];
                    &&& reconciled(from, cues) is Some
                    &&& (#[trigger] clips@[k])@ == clip_of(
                        from,
                        reconciled(from, cues).unwrap(),
                        clips@[k].id@,
                    )
                    &&& clips@[k]@.has_duration()
                },
        decreases suggestions@.len() - i,
    {
        let suggestion = &suggestions[i];
        let clip = ClipSuggestion {
            title: suggestion.title.clone(),
            start_time: suggestion.start_time.clone(),
            end_time: suggestion.end_time.clone(),
        };
        assert(clip@ == all[i as int]);
        proof {
            assert(all.take(i + 1) == all.take(i as int).push(all[i as int]));
            all.take(i as int).lemma_filter_push(all[i as int], kept);
        }
        match validate_and_map_clip(clip, vtt_cues) {
            Some(valid) => {
                clips.push(valid);
            },
            None => {},
        }
        i += 1;
    }
    assert(all.take(suggestions@.len() as int) == all);
    clips
}

} // verus!
