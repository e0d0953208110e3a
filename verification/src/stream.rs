//! The rules for a streamed chat reply: what each line the server sends, the
//! end of the stream, a read failure or a cancellation by the user leads to.

use vstd::prelude::*;

use crate::text::combine;

verus! {

/// One line of a streamed reply, once decoded: the text of the message it
/// carries, whether it is the last one, and the statistics the server adds
/// to the last one (token counts and the generation time in nanoseconds).
pub struct ChatChunk {
    pub content: Option<String>,
    pub done: Option<bool>,
    pub prompt_eval_count: Option<usize>,
    pub eval_count: Option<usize>,
    pub eval_duration: Option<u64>,
}

/// What happened while the reply was being read.
pub enum StreamInput {
    /// The user asked to stop.
    Cancelled,
    /// The server closed the stream.
    EndOfStream,
    /// Reading failed, with the description of the failure.
    ReadFailed(String),
    /// A line arrived; `None` when it could not be decoded.
    Line(Option<ChatChunk>),
}

/// How long the generation took.
#[derive(Clone, Copy, Debug, PartialEq, Eq, Structural)]
pub enum Timing {
    /// Not known.
    Unknown,
    /// As reported by the server, in nanoseconds.
    Reported(u64),
    /// Not reported: the client measures the time since the request was sent.
    MeasuredByClient,
}

/// What to do after an input.
pub enum StreamAction {
    /// Nothing to report; read the next line.
    Continue,
    /// Report a piece of the reply; read the next line.
    Chunk(String),
    /// Report a last piece of the reply, then report the end of the
    /// generation with its statistics.
    LastChunk {
        text: String,
        prompt_tokens: Option<usize>,
        completion_tokens: Option<usize>,
        timing: Timing,
    },
    /// Report the end of the generation, without statistics.
    Finish,
    /// Stop reading, unload the model and report the end of the generation,
    /// without statistics.
    CancelAndFinish,
    /// Report a failure with the given text.
    Fail(String),
}

/// What an action is, as values.
pub enum ActionView {
    Continue,
    Chunk(Seq<char>),
    LastChunk {
        text: Seq<char>,
        prompt_tokens: Option<usize>,
        completion_tokens: Option<usize>,
        timing: Timing,
    },
    Finish,
    CancelAndFinish,
    Fail(Seq<char>),
}

impl View for StreamAction {
    type V = ActionView;

    open spec fn view(&self) -> ActionView {
        match self {
            StreamAction::Continue => ActionView::Continue,
            StreamAction::Chunk(t) => ActionView::Chunk(t@),
            StreamAction::LastChunk { text, prompt_tokens, completion_tokens, timing } =>
                ActionView::LastChunk {
                text: text@,
                prompt_tokens: *prompt_tokens,
                completion_tokens: *completion_tokens,
                timing: *timing,
            },
            StreamAction::Finish => ActionView::Finish,
            StreamAction::CancelAndFinish => ActionView::CancelAndFinish,
            StreamAction::Fail(t) => ActionView::Fail(t@),
        }
    }
}

/// The text a decoded line contributes to the reply.
pub open spec fn chunk_text(c: ChatChunk) -> Seq<char> {
    match c.content {
        Some(t) => t@,
        None => Seq::empty(),
    }
}

/// The action for an input.
pub open spec fn stream_action(input: StreamInput) -> ActionView {
    match input {
        StreamInput::Cancelled => ActionView::CancelAndFinish,
        StreamInput::EndOfStream => ActionView::Finish,
        StreamInput::ReadFailed(reason) => ActionView::Fail("Read error: "@ + reason@),
        StreamInput::Line(None) => ActionView::Continue,
        StreamInput::Line(Some(c)) => if c.done == Some(true) {
            ActionView::LastChunk {
                text: chunk_text(c),
                prompt_tokens: c.prompt_eval_count,
                completion_tokens: c.eval_count,
                timing: match c.eval_duration {
                    Some(ns) => Timing::Reported(ns),
                    None => Timing::MeasuredByClient,
                },
            }
        } else {
            ActionView::Chunk(chunk_text(c))
        },
    }
}

/// Decides what to do after an input of the stream.
pub fn on_stream_input(input: StreamInput) -> (r: StreamAction)
    ensures
        r@ == stream_action(input),
{
    match input {
        StreamInput::Cancelled => StreamAction::CancelAndFinish,
        StreamInput::EndOfStream => StreamAction::Finish,
        StreamInput::ReadFailed(reason) => StreamAction::Fail(combine("Read error: ", reason.as_str())),
        StreamInput::Line(None) => StreamAction::Continue,
        StreamInput::Line(Some(c)) => {
            let ghost cv = c;
            let text = match c.content {
                Some(t) => t,
                None => String::new(),
            };
            let done = match c.done {
                Some(d) => d,
                None => false,
            };
            if done {
                let timing = match c.eval_duration {
                    Some(ns) => Timing::Reported(ns),
                    None => Timing::MeasuredByClient,
                };
                StreamAction::LastChunk {
                    text,
                    prompt_tokens: c.prompt_eval_count,
                    completion_tokens: c.eval_count,
                    timing,
                }
            } else {
                StreamAction::Chunk(text)
            }
        },
    }
}

} // verus!
