//! What a running encoder reports, and what follows from each report.
//!
//! The caller starts the encoder and hands over its reports one by one; the
//! functions here say after each whether to go on listening.

use vstd::prelude::*;
use crate::text::numbers::{push_signed_decimal, signed_decimal};
use crate::text::strings::{push_str, string_from};

verus! {

/// One report of a running encoder.
#[derive(Debug, Clone, PartialEq, Eq)]
pub enum EncoderEvent {
    /// A line on its standard output.
    Stdout(String),
    /// A line on its standard error.
    Stderr(String),
    /// The process could not be talked to.
    Error(String),
    /// The process has ended, with its exit code where it has one.
    Terminated(Option<i32>),
    /// Anything else.
    Other,
}

/// A report with its texts as sequences of characters.
pub enum EncoderEventView {
    Stdout(Seq<char>),
    Stderr(Seq<char>),
    Error(Seq<char>),
    Terminated(Option<i32>),
    Other,
}

impl View for EncoderEvent {
    type V = EncoderEventView;

    open spec fn view(&self) -> EncoderEventView {
        match self {
            EncoderEvent::Stdout(line) => EncoderEventView::Stdout(line@),
            EncoderEvent::Stderr(line) => EncoderEventView::Stderr(line@),
            EncoderEvent::Error(error) => EncoderEventView::Error(error@),
            EncoderEvent::Terminated(code) => EncoderEventView::Terminated(*code),
            EncoderEvent::Other => EncoderEventView::Other,
        }
    }
}

/// What to do after a report.
#[derive(Debug, Clone, PartialEq, Eq)]
pub enum EncoderStep {
    /// Go on listening.
    Continue,
    /// The encoder has ended well.
    Done,
    /// The encoder has failed; the text says how.
    Failed(String),
}

/// A step with its message as a sequence of characters.
pub enum EncoderStepView {
    Continue,
    Done,
    Failed(Seq<char>),
}

impl View for EncoderStep {
    type V = EncoderStepView;

    open spec fn view(&self) -> EncoderStepView {
        match self {
            EncoderStep::Continue => EncoderStepView::Continue,
            EncoderStep::Done => EncoderStepView::Done,
            EncoderStep::Failed(message) => EncoderStepView::Failed(message@),
        }
    }
}

/// An exit code as a message shows it: `Some(1)`, `Some(-9)`, `None`.
pub open spec fn shown_code(code: Option<i32>) -> Seq<char> {
    match code {
        Some(n) => seq!['S', 'o', 'm', 'e', '('] + signed_decimal(n as int) + seq![')'],
        None => seq!['N', 'o', 'n', 'e'],
    }
}

/// What follows from `event`.
///
/// Output is listened past. An error of the process fails with
/// `error_head` and the error. The end of the process is the end of the
/// work where the exit code is zero, and fails with `exit_head`, the code
/// and `exit_tail` where it is anything else, or missing.
pub open spec fn step_after(
    event: EncoderEventView,
    error_head: Seq<char>,
    exit_head: Seq<char>,
    exit_tail: Seq<char>,
) -> EncoderStepView {
    match event {
        EncoderEventView::Error(error) => EncoderStepView::Failed(error_head + error),
        EncoderEventView::Terminated(code) => if code == Some(0i32) {
            EncoderStepView::Done
        } else {
            EncoderStepView::Failed(exit_head + shown_code(code) + exit_tail)
        },
        _ => EncoderStepView::Continue,
    }
}

/// Decides what follows from `event`, with the words of the caller.
pub fn next_step(event: &EncoderEvent, error_head: &str, exit_head: &str, exit_tail: &str) -> (r:
    EncoderStep)
    ensures
        r@ == step_after(event@, error_head@, exit_head@, exit_tail@),
{
    match event {
        EncoderEvent::Error(error) => {
            let mut out: Vec<char> = Vec::new();
            push_str(&mut out, error_head);
            push_str(&mut out, error.as_str());
            EncoderStep::Failed(string_from(&out))
        },
        EncoderEvent::Terminated(code) => {
            let mut out: Vec<char> = Vec::new();
            push_str(&mut out, exit_head);
            match code {
                Some(n) => {
                    if *n == 0 {
                        return EncoderStep::Done;
                    }
                    let ghost head = out@;
                    out.push('S');
                    out.push('o');
                    out.push('m');
                    out.push('e');
                    out.push('(');
                    push_signed_decimal(&mut out, *n);
                    out.push(')');
                    assert(out@ == head + shown_code(*code));
                },
                None => {
                    let ghost head = out@;
                    out.push('N');
                    out.push('o');
                    out.push('n');
                    out.push('e');
                    assert(out@ == head + shown_code(*code));
                },
            }
            push_str(&mut out, exit_tail);
            EncoderStep::Failed(string_from(&out))
        },
        _ => EncoderStep::Continue,
    }
}

} // verus!
