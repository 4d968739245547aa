//! One caption entry of a transcript.

use vstd::prelude::*;

verus! {

/// A caption entry: when it starts, when it ends, and what is said.
///
/// The timestamps are kept as the transcript wrote them (`HH:MM:SS.mmm`).
/// Nothing asks that the end lies after the start: a transcript may be
/// malformed, and the reconciler checks what it hands on.
#[derive(Debug, Clone, PartialEq, Eq)]
pub struct VttCue {
    pub start_timestamp: String,
    pub end_timestamp: String,
    pub text: String,
}

/// A cue as three sequences of characters.
pub struct VttCueView {
    pub start_timestamp: Seq<char>,
    pub end_timestamp: Seq<char>,
    pub text: Seq<char>,
}

impl View for VttCue {
    type V = VttCueView;

    open spec fn view(&self) -> VttCueView {
        VttCueView {
            start_timestamp: self.start_timestamp@,
            end_timestamp: self.end_timestamp@,
            text: self.text@,
        }
    }
}

impl DeepView for VttCue {
    type V = VttCueView;

    open spec fn deep_view(&self) -> VttCueView {
        self@
    }
}

} // verus!
