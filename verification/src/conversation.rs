//! Operations on the list of messages of one conversation.

use vstd::prelude::*;

use crate::chat::{
    assistant_role, messages_view, pending_reply, plain_message, user_role, Message, MessageView,
};

verus! {

/// Whether the conversation ends with a reply of the model.
pub open spec fn ends_with_reply(ms: Seq<MessageView>) -> bool {
    ms.len() > 0 && ms.last().role == assistant_role()
}

/// `ms` with `chunk` added to the end of its last message, if that message
/// is a reply of the model; `ms` unchanged otherwise.
pub open spec fn with_chunk(ms: Seq<MessageView>, chunk: Seq<char>) -> Seq<MessageView> {
    if ends_with_reply(ms) {
        ms.update(ms.len() - 1, MessageView { content: ms.last().content + chunk, ..ms.last() })
    } else {
        ms
    }
}

/// `ms` with the statistics of a finished generation recorded on its last
/// message, if that message is a reply of the model.
pub open spec fn with_reply_stats(
    ms: Seq<MessageView>,
    prompt_tokens: Option<usize>,
    completion_tokens: Option<usize>,
    eval_duration_secs_bits: Option<u64>,
) -> Seq<MessageView> {
    if ends_with_reply(ms) {
        ms.update(
            ms.len() - 1,
            MessageView { prompt_tokens, completion_tokens, eval_duration_secs_bits, ..ms.last() },
        )
    } else {
        ms
    }
}

/// `ms` with the content of its last message replaced by `text`, if that
/// message is a reply of the model.
pub open spec fn with_reply_text(ms: Seq<MessageView>, text: Seq<char>) -> Seq<MessageView> {
    if ends_with_reply(ms) {
        ms.update(ms.len() - 1, MessageView { content: text, ..ms.last() })
    } else {
        ms
    }
}

/// The messages that are sent to the model: all of them but a trailing
/// empty reply, which is the one that waits for the answer.
pub open spec fn request_history(ms: Seq<MessageView>) -> Seq<MessageView> {
    if ms.len() > 0 && ms.last().role == assistant_role() && ms.last().content.len() == 0 {
        ms.drop_last()
    } else {
        ms
    }
}

/// The conversation after the user message at `idx` was edited to `text`:
/// what came after it is dropped and a new reply is awaited.
pub open spec fn edited(ms: Seq<MessageView>, idx: int, text: Seq<char>) -> Seq<MessageView> {
    ms.take(idx).push(MessageView { content: text, ..ms[idx] }).push(pending_reply())
}

/// The conversation after the reply at `idx` was asked for again: the
/// messages from `idx` on are replaced by a new awaited reply, if `idx` is
/// in the conversation.
pub open spec fn regenerated(ms: Seq<MessageView>, idx: int) -> Seq<MessageView> {
    if 0 <= idx < ms.len() {
        ms.take(idx).push(pending_reply())
    } else {
        ms
    }
}

/// The conversation after the user sent `text`.
pub open spec fn with_exchange(ms: Seq<MessageView>, text: Seq<char>) -> Seq<MessageView> {
    ms.push(plain_message(user_role(), text)).push(pending_reply())
}

/// The last `max` messages of `ms` (all of them if there are fewer).
pub open spec fn most_recent(ms: Seq<MessageView>, max: nat) -> Seq<MessageView> {
    if ms.len() > max {
        ms.skip(ms.len() - max)
    } else {
        ms
    }
}

proof fn lemma_view_update(v: Seq<Message>, i: int, m: Message)
    requires
        0 <= i < v.len(),
    ensures
        messages_view(v.update(i, m)) == messages_view(v).update(i, m@),
{
    assert(messages_view(v.update(i, m)) =~= messages_view(v).update(i, m@));
}

/// Adds a streamed piece of text to the reply that is being written.
pub fn append_chunk(msgs: &mut Vec<Message>, chunk: &str)
    ensures
        messages_view(final(msgs)@) == with_chunk(messages_view(old(msgs)@), chunk@),
{
    let n = msgs.len();
    if n > 0 && msgs[n - 1].is_assistant() {
        let mut last = msgs[n - 1].clone();
        last.content.append(chunk);
        proof {
            lemma_view_update(msgs@, n - 1, last);
        }
        msgs.set(n - 1, last);
        assert(messages_view(msgs@) =~= with_chunk(messages_view(old(msgs)@), chunk@));
    }
}

/// Records the statistics of a finished generation on the reply.
pub fn record_reply_stats(
    msgs: &mut Vec<Message>,
    prompt_tokens: Option<usize>,
    completion_tokens: Option<usize>,
    eval_duration_secs_bits: Option<u64>,
)
    ensures
        messages_view(final(msgs)@) == with_reply_stats(
            messages_view(old(msgs)@),
            prompt_tokens,
            completion_tokens,
            eval_duration_secs_bits,
        ),
{
    let n = msgs.len();
    if n > 0 && msgs[n - 1].is_assistant() {
        let mut last = msgs[n - 1].clone();
        last.prompt_tokens = prompt_tokens;
        last.completion_tokens = completion_tokens;
        last.eval_duration_secs_bits = eval_duration_secs_bits;
        proof {
            lemma_view_update(msgs@, n - 1, last);
        }
        msgs.set(n - 1, last);
        assert(messages_view(msgs@) =~= with_reply_stats(
            messages_view(old(msgs)@),
            prompt_tokens,
            completion_tokens,
            eval_duration_secs_bits,
        ));
    }
}

/// Replaces the text of the reply by `text`.
pub fn replace_reply_text(msgs: &mut Vec<Message>, text: String)
    ensures
        messages_view(final(msgs)@) == with_reply_text(messages_view(old(msgs)@), text@),
{
    let n = msgs.len();
    if n > 0 && msgs[n - 1].is_assistant() {
        let mut last = msgs[n - 1].clone();
        let ghost t = text@;
        last.content = text;
        proof {
            lemma_view_update(msgs@, n - 1, last);
        }
        msgs.set(n - 1, last);
        assert(messages_view(msgs@) =~= with_reply_text(messages_view(old(msgs)@), t));
    }
}

/// The messages to send to the model for the conversation `msgs`.
pub fn history_for_request(msgs: &Vec<Message>) -> (r: Vec<Message>)
    ensures
        messages_view(r@) == request_history(messages_view(msgs@)),
{
    let mut history = msgs.clone();
    assert(history@ =~= msgs@);
    let n = history.len();
    if n > 0 && history[n - 1].is_assistant() && history[n - 1].content.as_str().unicode_len()
        == 0 {
        history.pop();
        assert(messages_view(history@) =~= messages_view(msgs@).drop_last());
    }
    history
}

/// Replaces the user message at `idx` by `text`, drops what followed it and
/// appends a reply to be awaited.
pub fn edit_and_resend(msgs: &mut Vec<Message>, idx: usize, text: String)
    requires
        idx < old(msgs).len(),
    ensures
        messages_view(final(msgs)@) == edited(messages_view(old(msgs)@), idx as int, text@),
{
    let ghost t = text@;
    let mut m = msgs[idx].clone();
    m.content = text;
    msgs.truncate(idx);
    msgs.push(m);
    msgs.push(Message::pending());
    proof {
        assert(messages_view(msgs@) =~= edited(messages_view(old(msgs)@), idx as int, t));
    }
}

/// Drops the messages from `idx` on and appends a reply to be awaited, if
/// `idx` is in the conversation.
pub fn regenerate_from(msgs: &mut Vec<Message>, idx: usize)
    ensures
        messages_view(final(msgs)@) == regenerated(messages_view(old(msgs)@), idx as int),
{
    if idx < msgs.len() {
        msgs.truncate(idx);
        msgs.push(Message::pending());
        assert(messages_view(msgs@) =~= regenerated(messages_view(old(msgs)@), idx as int));
    }
}

/// Appends a message of the user and the reply that will answer it.
pub fn add_exchange(msgs: &mut Vec<Message>, text: String)
    ensures
        messages_view(final(msgs)@) == with_exchange(messages_view(old(msgs)@), text@),
{
    let ghost t = text@;
    msgs.push(Message::user(text));
    msgs.push(Message::pending());
    assert(messages_view(msgs@) =~= with_exchange(messages_view(old(msgs)@), t));
}

/// Keeps only the last `max` messages.
pub fn keep_most_recent(msgs: &mut Vec<Message>, max: usize)
    ensures
        messages_view(final(msgs)@) == most_recent(messages_view(old(msgs)@), max as nat),
{
    let n = msgs.len();
    if n > max {
        let remove = n - max;
        let mut kept: Vec<Message> = Vec::new();
        let mut i = remove;
        while i < n
            invariant
                remove <= i <= n,
                n == msgs@.len(),
                n == old(msgs)@.len(),
                msgs@ == old(msgs)@,
                kept@ =~= msgs@.subrange(remove as int, i as int),
            decreases n - i,
        {
            kept.push(msgs[i].clone());
            i = i + 1;
        }
        *msgs = kept;
        assert(messages_view(msgs@) =~= most_recent(messages_view(old(msgs)@), max as nat));
    }
}

/// The pieces of `chunks` written one after the other.
pub open spec fn joined(chunks: Seq<Seq<char>>) -> Seq<char>
    decreases chunks.len(),
{
    if chunks.len() == 0 {
        Seq::empty()
    } else {
        joined(chunks.drop_last()) + chunks.last()
    }
}

/// `ms` after the streamed pieces `chunks` arrived, in order.
pub open spec fn with_chunks(ms: Seq<MessageView>, chunks: Seq<Seq<char>>) -> Seq<MessageView>
    decreases chunks.len(),
{
    if chunks.len() == 0 {
        ms
    } else {
        with_chunk(with_chunks(ms, chunks.drop_last()), chunks.last())
    }
}

/// A streamed reply is the concatenation of its pieces: once the pieces
/// have arrived, the reply that was being written holds what it held before
/// followed by every piece, in the order of arrival, and nothing else in
/// the conversation has changed.
pub proof fn law_reply_is_concatenation(ms: Seq<MessageView>, chunks: Seq<Seq<char>>)
    requires
        ends_with_reply(ms),
    ensures
        with_chunks(ms, chunks) == ms.update(
            ms.len() - 1,
            MessageView { content: ms.last().content + joined(chunks), ..ms.last() },
        ),
    decreases chunks.len(),
{
    if chunks.len() == 0 {
        assert(ms.last().content + joined(chunks) =~= ms.last().content);
        assert(ms.update(
            ms.len() - 1,
            MessageView { content: ms.last().content + joined(chunks), ..ms.last() },
        ) =~= ms);
    } else {
        law_reply_is_concatenation(ms, chunks.drop_last());
        let prev = with_chunks(ms, chunks.drop_last());
        assert(ends_with_reply(prev));
        assert(prev.last().content + chunks.last() =~= ms.last().content + joined(chunks));
        assert(with_chunks(ms, chunks) =~= ms.update(
            ms.len() - 1,
            MessageView { content: ms.last().content + joined(chunks), ..ms.last() },
        ));
    }
}

/// What is sent after the user sent `text` is the conversation before it
/// followed by that message: the awaited reply is not sent.
pub proof fn law_request_after_exchange(ms: Seq<MessageView>, text: Seq<char>)
    ensures
        request_history(with_exchange(ms, text)) == ms.push(plain_message(user_role(), text)),
{
    assert(request_history(with_exchange(ms, text)) =~= ms.push(plain_message(user_role(), text)));
}

/// What is sent after an edit is the conversation up to the edited message,
/// that message holding the new text.
pub proof fn law_request_after_edit(ms: Seq<MessageView>, idx: int, text: Seq<char>)
    requires
        0 <= idx < ms.len(),
    ensures
        request_history(edited(ms, idx, text)) == ms.take(idx).push(
            MessageView { content: text, ..ms[idx] },
        ),
{
    assert(request_history(edited(ms, idx, text)) =~= ms.take(idx).push(
        MessageView { content: text, ..ms[idx] },
    ));
}

/// What is sent after a reply is asked for again is the conversation before
/// that reply.
pub proof fn law_request_after_regenerate(ms: Seq<MessageView>, idx: int)
    requires
        0 <= idx < ms.len(),
    ensures
        request_history(regenerated(ms, idx)) == ms.take(idx),
{
    assert(request_history(regenerated(ms, idx)) =~= ms.take(idx));
}

} // verus!
