//! What is asked of the language model, and what is read out of its answer.
//!
//! The request itself is made by the caller: it sends the text that
//! `build_input` gives and hands back what came.

use vstd::prelude::*;
use crate::text::seqs::contains_text;
use crate::text::strings::{push_str, same_text, string_from, text_contains};

verus! {

/// What stands before the instructions of the user.
pub const DIRECTIVE_HEAD: &'static str =
    "PRIMARY DIRECTIVE - FOLLOW THESE USER INSTRUCTIONS EXACTLY:\n\"";

/// What stands behind the instructions of the user, up to the task.
pub const DIRECTIVE_TAIL: &'static str =
    "\"\n\nIf the user's instructions conflict with any guidance below, ALWAYS prioritize the user's instructions above all else.\n\n---\n\nTASK: Analyze this VTT video transcript and identify clips to extract.\n\n";

/// The task where the user gave no instructions.
pub const DEFAULT_TASK: &'static str =
    "TASK: Analyze this VTT video transcript and identify the most EXCITING and INTERESTING moments.\n\nFocus on:\n- Surprising or unexpected reveals\n- High-energy or dramatic moments\n- Key insights or breakthroughs\n- Emotional peaks or compelling storytelling\n- Funny or memorable exchanges\n- Major decisions or announcements\n\n";

/// The form that the answer must have, up to the transcript.
pub const OUTPUT_RULES: &'static str =
    "Output ONLY a valid JSON array. Each object must have:\n- \"title\": Brief, descriptive title (max 50 characters)\n- \"start_time\": Start timestamp in format HH:MM:SS (matching VTT timestamps)\n- \"end_time\": End timestamp in format HH:MM:SS (matching VTT timestamps)\n\nRULES:\n1. Use EXACT timestamps from the VTT (format: HH:MM:SS.mmm --> HH:MM:SS.mmm)\n2. Each clip should be 10-120 seconds long\n3. Return 3-8 clips maximum\n4. Ensure end_time is after start_time\n5. DO NOT include any text outside the JSON array\n\nVTT TRANSCRIPT:\n";

/// What stands behind the transcript.
pub const CLOSING: &'static str =
    "\n\nOutput only the JSON array, nothing else.";

/// The kind of an output that carries the answer.
pub const MESSAGE: &'static str = "message";

/// The kind of a content item that carries text.
pub const OUTPUT_TEXT: &'static str = "output_text";

/// How an answer spells the beginning of an error that it reports.
pub const ERROR_SPACED: &'static str = "\"error\": {";

/// The same without the space.
pub const ERROR_TIGHT: &'static str = "\"error\":{";

/// One item of what an output holds.
#[derive(Debug, Clone, PartialEq, Eq)]
pub struct ContentItem {
    pub content_type: String,
    pub text: String,
}

/// An item as two sequences of characters.
pub struct ContentItemView {
    pub content_type: Seq<char>,
    pub text: Seq<char>,
}

impl DeepView for ContentItem {
    type V = ContentItemView;

    open spec fn deep_view(&self) -> ContentItemView {
        ContentItemView { content_type: self.content_type@, text: self.text@ }
    }
}

/// One output of an answer.
#[derive(Debug, Clone, PartialEq, Eq)]
pub struct ResponseOutput {
    pub output_type: String,
    pub content: Vec<ContentItem>,
}

/// An output with its kind and its items as sequences.
pub struct ResponseOutputView {
    pub output_type: Seq<char>,
    pub content: Seq<ContentItemView>,
}

impl DeepView for ResponseOutput {
    type V = ResponseOutputView;

    open spec fn deep_view(&self) -> ResponseOutputView {
        ResponseOutputView {
            output_type: self.output_type@,
            content: self.content.deep_view(),
        }
    }
}

/// The text that is sent: the task, the form of the answer, the transcript
/// and the closing words, with the instructions of the user in front where
/// there are any.
pub open spec fn input_of(transcript: Seq<char>, context: Option<Seq<char>>) -> Seq<char> {
    match context {
        Some(instructions) => DIRECTIVE_HEAD@ + instructions + DIRECTIVE_TAIL@ + OUTPUT_RULES@
            + transcript + CLOSING@,
        None => DEFAULT_TASK@ + OUTPUT_RULES@ + transcript + CLOSING@,
    }
}

/// The answer reports an error.
pub open spec fn reports_error(response: Seq<char>) -> bool {
    contains_text(response, ERROR_SPACED@) || contains_text(response, ERROR_TIGHT@)
}

/// The first output from `from` on that is a message; the number of outputs
/// where there is none.
pub open spec fn first_message(outputs: Seq<ResponseOutputView>, from: int) -> int
    decreases outputs.len() - from,
{
    if from >= outputs.len() || outputs[from].output_type == MESSAGE@ {
        from
    } else {
        first_message(outputs, from + 1)
    }
}

/// The first item from `from` on that carries text; the number of items
/// where there is none.
pub open spec fn first_text(items: Seq<ContentItemView>, from: int) -> int
    decreases items.len() - from,
{
    if from >= items.len() || items[from].content_type == OUTPUT_TEXT@ {
        from
    } else {
        first_text(items, from + 1)
    }
}

/// The text of the answer: that of the first text item of the first
/// message. A first message without text item leaves the answer without
/// text, whatever follows it.
pub open spec fn answer_of(outputs: Seq<ResponseOutputView>) -> Option<Seq<char>> {
    let message = first_message(outputs, 0);
    if 0 <= message < outputs.len() {
        let items = outputs[message].content;
        let item = first_text(items, 0);
        if 0 <= item < items.len() {
            Some(items[item].text)
        } else {
            None
        }
    } else {
        None
    }
}

/// The functions around the request to the language model.
pub struct OpenAIService;

impl OpenAIService {
    /// The text to send for a transcript, with the instructions of the user
    /// where there are any.
    pub fn build_input(vtt_transcript: &str, user_context: Option<&str>) -> (r: String)
        ensures
            r@ == input_of(
                vtt_transcript@,
                match user_context {
                    Some(instructions) => Some(instructions@),
                    None => None,
                },
            ),
    {
        let mut out: Vec<char> = Vec::new();
        match user_context {
            Some(instructions) => {
                push_str(&mut out, DIRECTIVE_HEAD);
                push_str(&mut out, instructions);
                push_str(&mut out, DIRECTIVE_TAIL);
            },
            None => {
                push_str(&mut out, DEFAULT_TASK);
            },
        }
        push_str(&mut out, OUTPUT_RULES);
        push_str(&mut out, vtt_transcript);
        push_str(&mut out, CLOSING);
        string_from(&out)
    }

    /// Whether the answer reports an error.
    pub fn is_error_response(response_text: &str) -> (r: bool)
        ensures
            r == reports_error(response_text@),
    {
        text_contains(response_text, ERROR_SPACED) || text_contains(response_text, ERROR_TIGHT)
    }

    /// The text of the answer among its outputs, or `None` where it has
    /// none.
    pub fn output_text<'a>(outputs: &'a [ResponseOutput]) -> (r: Option<&'a String>)
        ensures
            match r {
                Some(text) => answer_of(outputs.deep_view()) == Some(text@),
                None => answer_of(outputs.deep_view()) is None,
            },
    {
        let ghost all = outputs.deep_view();
        let mut m: usize = 0;
        while m < outputs.len() && !same_text(outputs[m].output_type.as_str(), MESSAGE)
            invariant
                m <= outputs@.len(),
                all == outputs.deep_view(),
                first_message(all, 0) == first_message(all, m as int),
            decreases outputs@.len() - m,
        {
            m += 1;
        }
        if m == outputs.len() {
            return None;
        }
        let items = &outputs[m].content;
        let ghost views = items.deep_view();
        assert(all[m as int].content == views);
        let mut c: usize = 0;
        while c < items.len() && !same_text(items[c].content_type.as_str(), OUTPUT_TEXT)
            invariant
                c <= items@.len(),
                views == items.deep_view(),
                first_text(views, 0) == first_text(views, c as int),
            decreases items@.len() - c,
        {
            c += 1;
        }
        if c == items.len() {
            return None;
        }
        Some(&items[c].text)
    }
}

} // verus!
