//! What the conversation view shows: which reply is the last one, when a
//! reply is shown as plain text, when its statistics are shown, and the
//! texts of the counters.

use vstd::prelude::*;

use crate::chat::Message;
use crate::text::{decimal, decimal_string};

verus! {

/// Whether the message at `idx` of a conversation of `count` messages is
/// its last message and a reply of the model (the one that can be asked for
/// again).
pub fn is_last_reply(is_user: bool, idx: usize, count: usize) -> (r: bool)
    ensures
        r == (!is_user && idx + 1 == count),
{
    !is_user && count > 0 && idx == count - 1
}

/// Whether a tab offers to be closed: only while another tab remains.
pub fn can_close(tab_count: usize) -> (r: bool)
    ensures
        r == (tab_count > 1),
{
    tab_count > 1
}

/// Whether a reply is shown as plain text rather than rendered as Markdown:
/// while it is being streamed, so that streaming stays fast.
pub fn renders_plain(is_generating: bool, is_last_reply: bool) -> (r: bool)
    ensures
        r == (is_generating && is_last_reply),
{
    is_generating && is_last_reply
}

/// Whether the statistics line of a reply is shown: when the number of
/// generated tokens and the generation time are known.
pub fn shows_reply_stats(m: &Message) -> (r: bool)
    ensures
        r == (m.completion_tokens is Some && m.eval_duration_secs_bits is Some),
{
    m.completion_tokens.is_some() && m.eval_duration_secs_bits.is_some()
}

/// The breakdown of the token counts after the statistics of a reply: empty
/// when the prompt count is not known.
pub open spec fn breakdown_text(prompt_tokens: Option<usize>, completion_tokens: usize) -> Seq<char> {
    match prompt_tokens {
        Some(p) => " (Prompt: "@ + decimal(p as nat) + " | Response: "@ + decimal(
            completion_tokens as nat,
        ) + ")"@,
        None => Seq::empty(),
    }
}

/// The breakdown of the token counts of a reply.
pub fn prompt_breakdown(prompt_tokens: Option<usize>, completion_tokens: usize) -> (r: String)
    ensures
        r@ == breakdown_text(prompt_tokens, completion_tokens),
{
    match prompt_tokens {
        Some(p) => {
            let mut s = String::from_str(" (Prompt: ");
            let a = decimal_string(p);
            s.append(a.as_str());
            s.append(" | Response: ");
            let b = decimal_string(completion_tokens);
            s.append(b.as_str());
            s.append(")");
            s
        },
        None => String::new(),
    }
}

/// The label that counts the models in memory.
pub fn active_models_label(count: usize) -> (r: String)
    ensures
        r@ == decimal(count as nat) + " Active"@,
{
    let mut s = decimal_string(count);
    s.append(" Active");
    s
}

/// The decimal text of a counter.
pub fn counter_text(n: usize) -> (r: String)
    ensures
        r@ == decimal(n as nat),
{
    decimal_string(n)
}

/// The number of tokens of the session, prompts and replies together.
pub fn total_tokens(prompt_tokens: usize, completion_tokens: usize) -> (r: usize)
    requires
        prompt_tokens + completion_tokens <= usize::MAX,
    ensures
        r == prompt_tokens + completion_tokens,
{
    prompt_tokens + completion_tokens
}

} // verus!
