//! The values that pass between the parser, the reconciler and their callers.

pub mod clip;
pub mod vtt;

pub use clip::{
    ClipProgress, ClipSuggestion, ClipSuggestionView, ProcessingResult, ProcessingResultView,
    ValidatedClip, ValidatedClipView,
};
pub use vtt::{VttCue, VttCueView};
