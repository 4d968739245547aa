//! Which clips are cut.

use vstd::prelude::*;
use crate::models::{ValidatedClip, ValidatedClipView};

verus! {

/// Why nothing is cut.
#[derive(Debug, Clone, Copy, PartialEq, Eq)]
pub enum ProcessError {
    /// No clip is selected.
    NoClipsSelected,
}

impl ProcessError {
    /// The error in words.
    pub fn message(&self) -> (r: String)
        ensures
            r@ == "No clips selected"@,
    {
        "No clips selected".to_owned()
    }
}

/// The clips that are selected, in their order.
pub open spec fn selected(clips: Seq<ValidatedClipView>) -> Seq<ValidatedClipView> {
    clips.filter(|clip: ValidatedClipView| clip.is_selected)
}

/// The clips to cut: those that are selected, in their order and unchanged.
/// It is an error where none is selected.
pub fn select_clips(clips: &[ValidatedClip]) -> (r: Result<Vec<ValidatedClip>, ProcessError>)
    ensures
        match r {
            Ok(chosen) => chosen.deep_view() == selected(clips.deep_view()) && chosen@.len() > 0,
            Err(ProcessError::NoClipsSelected) => selected(clips.deep_view()).len() == 0,
        },
{
    let ghost all = clips.deep_view();
    let ghost wanted = |clip: ValidatedClipView| clip.is_selected;
    let mut chosen: Vec<ValidatedClip> = Vec::new();
    let mut i: usize = 0;
    assert(all.take(0) =~= Seq::<ValidatedClipView>::empty());
    assert(all.take(0).filter(wanted) =~= Seq::<ValidatedClipView>::empty()) by {
        reveal(Seq::filter);
    }
    assert(chosen.deep_view() =~= Seq::<ValidatedClipView>::empty());
    while i < clips.len()
        invariant
            i <= clips@.len(),
            all == clips.deep_view(),
            wanted == |clip: ValidatedClipView| clip.is_selected,
            chosen.deep_view() == all.take(i as int).filter(wanted),
        decreases clips@.len() - i,
    {
        let clip = &clips[i];
        proof {
            assert(all.take(i + 1) == all.take(i as int).push(all[i as int]));
            all.take(i as int).lemma_filter_push(all[i as int], wanted);
        }
        if clip.is_selected {
            let ghost before = chosen.deep_view();
            let copy = ValidatedClip {
                id: clip.id.clone(),
                title: clip.title.clone(),
                start_time: clip.start_time.clone(),
                end_time: clip.end_time.clone(),
                sanitized_filename: clip.sanitized_filename.clone(),
                is_selected: true,
            };
            assert(copy@ == all[i as int]);
            chosen.push(copy);
            assert(chosen.deep_view() =~= before.push(all[i as int]));
        }
        i += 1;
    }
    assert(all.take(clips@.len() as int) == all);
    if chosen.len() == 0 {
        Err(ProcessError::NoClipsSelected)
    } else {
        Ok(chosen)
    }
}

} // verus!
