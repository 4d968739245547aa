//! Clips: as a model proposes them, as the reconciler passes them, and what
//! the encoder reports of them.

use vstd::prelude::*;

verus! {

/// A clip as proposed from outside: a title and two approximate times
/// (`HH:MM:SS`). Nothing about it is trusted.
#[derive(Debug, Clone, PartialEq, Eq)]
pub struct ClipSuggestion {
    pub title: String,
    pub start_time: String,
    pub end_time: String,
}

/// A proposal as three sequences of characters.
pub struct ClipSuggestionView {
    pub title: Seq<char>,
    pub start_time: Seq<char>,
    pub end_time: Seq<char>,
}

impl View for ClipSuggestion {
    type V = ClipSuggestionView;

    open spec fn view(&self) -> ClipSuggestionView {
        ClipSuggestionView {
            title: self.title@,
            start_time: self.start_time@,
            end_time: self.end_time@,
        }
    }
}

impl DeepView for ClipSuggestion {
    type V = ClipSuggestionView;

    open spec fn deep_view(&self) -> ClipSuggestionView {
        self@
    }
}

/// A clip that the encoder can cut: both times are cue boundaries in whole
/// seconds (`HH:MM:SS`), and `sanitized_filename` can name a file.
#[derive(Debug, Clone, PartialEq, Eq)]
pub struct ValidatedClip {
    pub id: String,
    pub title: String,
    pub start_time: String,
    pub end_time: String,
    pub sanitized_filename: String,
    pub is_selected: bool,
}

/// A clip with its texts as sequences of characters.
pub struct ValidatedClipView {
    pub id: Seq<char>,
    pub title: Seq<char>,
    pub start_time: Seq<char>,
    pub end_time: Seq<char>,
    pub sanitized_filename: Seq<char>,
    pub is_selected: bool,
}

impl View for ValidatedClip {
    type V = ValidatedClipView;

    open spec fn view(&self) -> ValidatedClipView {
        ValidatedClipView {
            id: self.id@,
            title: self.title@,
            start_time: self.start_time@,
            end_time: self.end_time@,
            sanitized_filename: self.sanitized_filename@,
            is_selected: self.is_selected,
        }
    }
}

impl DeepView for ValidatedClip {
    type V = ValidatedClipView;

    open spec fn deep_view(&self) -> ValidatedClipView {
        self@
    }
}

/// Where the encoder wrote its files, and how many.
#[derive(Debug, Clone, PartialEq, Eq)]
pub struct ProcessingResult {
    pub output_directory: String,
    pub clip_count: usize,
}

/// A result with its directory as a sequence of characters.
pub struct ProcessingResultView {
    pub output_directory: Seq<char>,
    pub clip_count: nat,
}

impl View for ProcessingResult {
    type V = ProcessingResultView;

    open spec fn view(&self) -> ProcessingResultView {
        ProcessingResultView {
            output_directory: self.output_directory@,
            clip_count: self.clip_count as nat,
        }
    }
}

/// How far the encoder has come: `current` clips out of `total`.
#[derive(Debug, Clone, Copy, PartialEq, Eq)]
pub struct ClipProgress {
    pub current: usize,
    pub total: usize,
}

} // verus!
