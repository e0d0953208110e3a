//! What each generation is asked with, when a running one is stopped first,
//! what a new chat starts from, when a stream ends, and where an attached
//! image goes.

use vstd::prelude::*;

use crate::chat::{assistant_role, plain_message, system_role, user_role, MessageView, TabView};
use crate::conversation::{ends_with_reply, most_recent};
use crate::classic::{
    classic_cleared, classic_created, classic_edit_saved, classic_sent, classic_request_messages, classic_stream_action,
    new_session_notice, ClassicActionView,
};
use crate::models::small_model;
use crate::request::{
    as_sent, base64_standard, last_user_index, MAX_HISTORY_MESSAGES, lemma_last_user_index, request_messages, with_file_prefix,
    AttachmentView, ChatMessageView,
};
use crate::session::{
    active_index, after_event, cleared, created, failure_prefix, edit_saved, regenerate_asked, sent, stopped_if_generating,
    switched, EffectView, EventView, SessionView,
};
use crate::settings::{DEFAULT_TEMPERATURE_BITS, DEFAULT_TOP_P_BITS};
use crate::stream::{stream_action, ActionView, ChatChunk, StreamInput};
use crate::tabs::{index_of_id, lemma_index_of_id_bounds};
use crate::text::{decimal, is_blank_text, trimmed};

verus! {

/// Whether `e` starts a generation for the tab at position `i` of `v` with
/// that tab's own model, instructions and sampling parameters, sent to the
/// configured server.
pub open spec fn asks_with_tab_settings(v: SessionView, i: int, e: EffectView) -> bool {
    e matches EffectView::Generate(g) && {
        &&& g.tab_id == v.tabs[i].id
        &&& g.model == v.tabs[i].selected_model
        &&& g.system_prompt == v.tabs[i].system_prompt
        &&& g.temperature_bits == v.tabs[i].temperature_bits
        &&& g.top_p_bits == v.tabs[i].top_p_bits
        &&& g.base_url == v.settings.ollama_url
    }
}

/// Sending, saving an edit and asking again each start one generation, with
/// the active tab's own model, instructions and sampling parameters (not
/// the defaults of the settings), sent to the configured server.
pub proof fn law_generation_uses_tab_settings(v: SessionView, idx: int, text: Seq<char>)
    requires
        active_index(v) is Some,
    ensures
        ({
            let i = active_index(v)->0;
            &&& (!v.is_generating && !is_blank_text(v.input_text)) ==> {
                &&& sent(v).1.len() == 1
                &&& asks_with_tab_settings(v, i, sent(v).1[0])
            }
            &&& asks_with_tab_settings(v, i, edit_saved(v, idx, text).1.last())
            &&& asks_with_tab_settings(v, i, regenerate_asked(v, idx).1.last())
        }),
{
    lemma_index_of_id_bounds(v.tabs, v.active_tab_id);
}

/// Saving an edit and asking again stop a running generation first: the
/// running one is told to stop and the active tab's model is unloaded
/// before the new generation starts.  When nothing runs, the new generation
/// is the only effect.
pub proof fn law_asking_again_stops_first(v: SessionView, idx: int, text: Seq<char>)
    requires
        active_index(v) is Some,
    ensures
        ({
            let i = active_index(v)->0;
            let r = regenerate_asked(v, idx);
            let e = edit_saved(v, idx, text);
            &&& v.is_generating ==> {
                &&& r.1.len() == 3
                &&& r.1[0] == EffectView::CancelGeneration
                &&& r.1[1] == EffectView::UnloadModel(v.tabs[i].selected_model)
                &&& r.1[2] is Generate
                &&& e.1.len() == 3
                &&& e.1[0] == EffectView::CancelGeneration
                &&& e.1[1] == EffectView::UnloadModel(v.tabs[i].selected_model)
                &&& e.1[2] is Generate
            }
            &&& !v.is_generating ==> r.1.len() == 1 && r.1[0] is Generate && e.1.len() == 1
                && e.1[0] is Generate
            &&& r.0.is_generating
            &&& e.0.is_generating
            &&& e.0.editing_msg is None
        }),
{
    lemma_index_of_id_bounds(v.tabs, v.active_tab_id);
}

/// In the first design, saving an edit stops a running generation first
/// too: the stop and the unload come before the save and the new
/// generation.
pub proof fn law_classic_edit_stops_first(v: SessionView, idx: int, text: Seq<char>)
    requires
        active_index(v) is Some,
    ensures
        ({
            let i = active_index(v)->0;
            let e = classic_edit_saved(v, idx, text);
            &&& v.is_generating ==> {
                &&& e.1.len() == 4
                &&& e.1[0] == EffectView::CancelGeneration
                &&& e.1[1] == EffectView::UnloadModel(v.tabs[i].selected_model)
                &&& e.1[2] == EffectView::SaveChats
                &&& e.1[3] matches EffectView::GenerateClassic(g) && g.model == v.tabs[i].selected_model
                    && g.tab_id == v.tabs[i].id && g.base_url == v.settings.ollama_url
            }
            &&& !v.is_generating ==> e.1.len() == 2 && e.1[0] == EffectView::SaveChats
                && e.1[1] is GenerateClassic
            &&& e.0.is_generating
        }),
{
    lemma_index_of_id_bounds(v.tabs, v.active_tab_id);
}

/// A new chat is added after the other tabs, which stay as they were; it
/// has the next id, is titled after it, holds no message, uses the first
/// offered model (or the small model when none is offered), and takes the
/// default instructions and sampling parameters of the settings.
pub proof fn law_new_chat_takes_settings_defaults(v: SessionView)
    ensures
        ({
            let w = created(v).0;
            let t = w.tabs.last();
            &&& w.tabs.len() == v.tabs.len() + 1
            &&& w.tabs.drop_last() == v.tabs
            &&& t.id == v.next_tab_id
            &&& t.title == "Chat "@ + decimal((v.next_tab_id + 1) as nat)
            &&& t.messages.len() == 0
            &&& t.selected_model == (if v.available_models.len() > 0 {
                v.available_models[0]
            } else {
                small_model()
            })
            &&& t.system_prompt == v.settings.default_system_prompt
            &&& t.temperature_bits == v.settings.default_temperature_bits
            &&& t.top_p_bits == v.settings.default_top_p_bits
            &&& w.active_tab_id == v.next_tab_id
        }),
{
    assert(created(v).0.tabs.drop_last() =~= v.tabs);
}

/// A new chat of the first design opens with the new-session notice from
/// the assistant, has the next id, is titled after it, uses the first
/// offered model (or the small model), and carries no instructions and the
/// built-in sampling parameters (the first design has no settings for
/// them).
pub proof fn law_classic_new_chat(v: SessionView)
    ensures
        ({
            let w = classic_created(v).0;
            let t = w.tabs.last();
            &&& w.tabs.len() == v.tabs.len() + 1
            &&& w.tabs.drop_last() == v.tabs
            &&& t.id == v.next_tab_id
            &&& t.title == "Chat "@ + decimal((v.next_tab_id + 1) as nat)
            &&& t.messages == seq![plain_message(assistant_role(), new_session_notice())]
            &&& t.selected_model == (if v.available_models.len() > 0 {
                v.available_models[0]
            } else {
                small_model()
            })
            &&& t.system_prompt.len() == 0
            &&& t.temperature_bits == DEFAULT_TEMPERATURE_BITS
            &&& t.top_p_bits == DEFAULT_TOP_P_BITS
            &&& w.active_tab_id == v.next_tab_id
        }),
{
    assert(classic_created(v).0.tabs.drop_last() =~= v.tabs);
}

/// Whether position `k` of `ms` holds the last message of the user.
pub open spec fn is_last_user_at(ms: Seq<ChatMessageView>, k: int) -> bool {
    &&& 0 <= k < ms.len()
    &&& ms[k].role == user_role()
    &&& forall|j: int| k < j < ms.len() ==> #[trigger] ms[j].role != user_role()
}

proof fn lemma_last_user_is_last(ms: Seq<ChatMessageView>, k: int)
    ensures
        (last_user_index(ms) == Some(k)) == is_last_user_at(ms, k),
    decreases ms.len(),
{
    lemma_last_user_index(ms);
    if ms.len() > 0 {
        let n = ms.len() - 1;
        if ms.last().role == user_role() {
            if is_last_user_at(ms, k) && k != n {
                assert(ms[n].role != user_role());
            }
        } else {
            let rest = ms.drop_last();
            lemma_last_user_is_last(rest, k);
            if is_last_user_at(ms, k) {
                assert(k != n);
                assert forall|j: int| k < j < rest.len() implies #[trigger] rest[j].role != user_role() by {
                    assert(rest[j] == ms[j]);
                }
                assert(rest[k] == ms[k]);
            }
            if is_last_user_at(rest, k) {
                assert forall|j: int| k < j < ms.len() implies #[trigger] ms[j].role != user_role() by {
                    if j < n {
                        assert(rest[j] == ms[j]);
                    }
                }
                assert(rest[k] == ms[k]);
            }
        }
    }
}

proof fn lemma_same_roles_same_last(a: Seq<ChatMessageView>, b: Seq<ChatMessageView>, k: int)
    requires
        a.len() == b.len(),
        forall|j: int| 0 <= j < a.len() ==> #[trigger] a[j].role == b[j].role,
    ensures
        is_last_user_at(a, k) == is_last_user_at(b, k),
{
    if is_last_user_at(a, k) {
        assert forall|j: int| k < j < b.len() implies #[trigger] b[j].role != user_role() by {
            assert(a[j].role == b[j].role);
        }
    }
    if is_last_user_at(b, k) {
        assert forall|j: int| k < j < a.len() implies #[trigger] a[j].role != user_role() by {
            assert(a[j].role == b[j].role);
        }
    }
}

/// In the first design, the request holds the conversation message for
/// message, and the images go on the last message of the user and on no
/// other message.
pub proof fn law_classic_images_on_last_user(
    history: Seq<MessageView>,
    images: Option<Seq<Seq<char>>>,
)
    ensures
        ({
            let r = classic_request_messages(history, images);
            &&& r.len() == history.len()
            &&& forall|k: int|
                0 <= k < history.len() ==> {
                    &&& #[trigger] r[k].role == history[k].role
                    &&& r[k].content == history[k].content
                    &&& r[k].images == if is_last_user_at(r, k) {
                        images
                    } else {
                        None
                    }
                }
            &&& forall|k: int| 0 <= k < history.len() ==> (is_last_user_at(r, k) <==> {
                &&& #[trigger] history[k].role == user_role()
                &&& forall|j: int| k < j < history.len() ==> #[trigger] history[j].role != user_role()
            })
        }),
{
    let base = history.map_values(|m: MessageView| as_sent(m));
    let r = classic_request_messages(history, images);
    lemma_last_user_index(base);
    assert(base.len() == history.len());
    assert forall|j: int| 0 <= j < base.len() implies #[trigger] base[j] == as_sent(history[j]) by {}
    assert(r.len() == base.len());
    assert forall|j: int| 0 <= j < base.len() implies {
        &&& #[trigger] r[j].role == base[j].role
        &&& r[j].content == base[j].content
        &&& r[j].images == if last_user_index(base) == Some(j) {
            images
        } else {
            None
        }
    } by {
        assert(base[j] == as_sent(history[j]));
    }
    assert forall|k: int| 0 <= k < history.len() implies {
        &&& #[trigger] r[k].role == history[k].role
        &&& r[k].content == history[k].content
        &&& r[k].images == if is_last_user_at(r, k) {
            images
        } else {
            None
        }
    } by {
        assert(r[k].role == base[k].role);
        assert(base[k] == as_sent(history[k]));
        lemma_last_user_is_last(base, k);
        lemma_same_roles_same_last(r, base, k);
    }
    assert forall|k: int| 0 <= k < history.len() implies (is_last_user_at(r, k) <==> {
        &&& #[trigger] history[k].role == user_role()
        &&& forall|j: int| k < j < history.len() ==> #[trigger] history[j].role != user_role()
    }) by {
        if is_last_user_at(r, k) {
            assert forall|j: int| k < j < history.len() implies #[trigger] history[j].role != user_role() by {
                assert(r[j].role == history[j].role);
            }
            assert(r[k].role == history[k].role);
        }
        if history[k].role == user_role() && forall|j: int| k < j < history.len() ==> #[trigger] history[j].role != user_role() {
            assert forall|j: int| k < j < r.len() implies #[trigger] r[j].role != user_role() by {
                assert(r[j].role == history[j].role);
            }
            assert(r[k].role == history[k].role);
        }
    }
}

/// A decoded line of the stream is reported with its text and counts, and
/// it ends the generation exactly when it is marked done: in the first
/// design it is a piece whose last flag is that mark; in the studio design
/// it is the last piece, with its statistics, when marked done, and a plain
/// piece otherwise.  A line that cannot be decoded is skipped.
pub proof fn law_stream_ends_only_at_done(c: ChatChunk)
    ensures
        ({
            let text = match c.content {
                Some(t) => t@,
                None => Seq::empty(),
            };
            &&& classic_stream_action(StreamInput::Line(Some(c))) matches ClassicActionView::Chunk {
                text: t,
                prompt_tokens,
                completion_tokens,
                last,
            } && t == text && prompt_tokens == c.prompt_eval_count && completion_tokens
                == c.eval_count && last == (c.done == Some(true))
            &&& (stream_action(StreamInput::Line(Some(c))) is LastChunk) == (c.done == Some(true))
            &&& c.done == Some(true) ==> (stream_action(StreamInput::Line(Some(c))) matches ActionView::LastChunk {
                text: t,
                prompt_tokens,
                completion_tokens,
                ..
            } && t == text && prompt_tokens == c.prompt_eval_count && completion_tokens
                == c.eval_count)
            &&& c.done != Some(true) ==> stream_action(StreamInput::Line(Some(c))) == ActionView::Chunk(text)
            &&& classic_stream_action(StreamInput::Line(None)) == ClassicActionView::Continue
            &&& stream_action(StreamInput::Line(None)) == ActionView::Continue
        }),
{
}

/// The messages of a request without attachment: the instructions first,
/// as a system message, when they are not blank, then the most recent
/// messages of the conversation (at most `MAX_HISTORY_MESSAGES`), in order,
/// each with its role and text and no image.
pub proof fn law_request_opens_with_instructions_and_recent_history(
    system_prompt: Seq<char>,
    history: Seq<MessageView>,
)
    ensures
        ({
            let r = request_messages(system_prompt, history, None);
            let n = if history.len() > MAX_HISTORY_MESSAGES {
                MAX_HISTORY_MESSAGES as int
            } else {
                history.len() as int
            };
            let off: int = if is_blank_text(system_prompt) {
                0
            } else {
                1
            };
            &&& r.len() == off + n
            &&& !is_blank_text(system_prompt) ==> r[0] == ChatMessageView {
                role: system_role(),
                content: system_prompt,
                images: None,
            }
            &&& forall|k: int|
                0 <= k < n ==> #[trigger] r[off + k] == ChatMessageView {
                    role: history[history.len() - n + k].role,
                    content: history[history.len() - n + k].content,
                    images: None,
                }
        }),
{
    let r = request_messages(system_prompt, history, None);
    let n = if history.len() > MAX_HISTORY_MESSAGES {
        MAX_HISTORY_MESSAGES as int
    } else {
        history.len() as int
    };
    let off: int = if is_blank_text(system_prompt) {
        0
    } else {
        1
    };
    let recent = most_recent(history, MAX_HISTORY_MESSAGES as nat);
    assert(recent.len() == n);
    assert forall|k: int| 0 <= k < n implies #[trigger] r[off + k] == ChatMessageView {
        role: history[history.len() - n + k].role,
        content: history[history.len() - n + k].content,
        images: None,
    } by {
        assert(recent[k] == history[history.len() - n + k]);
    }
}

/// An attached file changes only the last message of the user: an image
/// goes on it (Base64-encoded) and on no other message; the text of another
/// file is put before its text.  Every other message, and every role, stays
/// as without the attachment.
pub proof fn law_attachment_goes_on_last_user(
    system_prompt: Seq<char>,
    history: Seq<MessageView>,
    att: AttachmentView,
)
    ensures
        ({
            let base = request_messages(system_prompt, history, None);
            let r = request_messages(system_prompt, history, Some(att));
            &&& r.len() == base.len()
            &&& forall|k: int| 0 <= k < r.len() ==> #[trigger] r[k].role == base[k].role
            &&& match att {
                AttachmentView::Image(b) => forall|k: int|
                    0 <= k < r.len() ==> #[trigger] r[k].content == base[k].content && r[k].images
                        == if is_last_user_at(base, k) {
                        Some(seq![base64_standard(b)])
                    } else {
                        None
                    },
                AttachmentView::Text { path, content } => forall|k: int|
                    0 <= k < r.len() ==> (#[trigger] r[k]).images is None && r[k].content
                        == if is_last_user_at(base, k) {
                        with_file_prefix(path, content, base[k].content)
                    } else {
                        base[k].content
                    },
            }
        }),
{
    let base = request_messages(system_prompt, history, None);
    law_request_opens_with_instructions_and_recent_history(system_prompt, history);
    let off: int = if is_blank_text(system_prompt) {
        0
    } else {
        1
    };
    assert forall|k: int| 0 <= k < base.len() implies #[trigger] base[k].images is None by {
        if k >= off {
            assert(base[off + (k - off)].images is None);
        }
    }
    lemma_last_user_index(base);
    assert forall|k: int| 0 <= k < base.len() implies (last_user_index(base) == Some(k)) == is_last_user_at(
        base,
        k,
    ) by {
        lemma_last_user_is_last(base, k);
    }
}

/// Switching to another tab stops a running generation first (the running
/// one is told to stop and the model of the tab left is unloaded), then
/// unloads the model of the tab left; the target becomes active and the tabs
/// stay as they were.  Switching to the active tab does nothing.
pub proof fn law_switch_stops_and_unloads(v: SessionView, target: usize)
    requires
        active_index(v) is Some,
    ensures
        ({
            let i = active_index(v)->0;
            let m = v.tabs[i].selected_model;
            let s = switched(v, target);
            &&& target == v.active_tab_id ==> s == (v, Seq::<EffectView>::empty())
            &&& target != v.active_tab_id ==> {
                &&& s.0.active_tab_id == target
                &&& s.0.tabs == v.tabs
                &&& !s.0.is_generating
                &&& v.is_generating ==> s.1 == seq![
                    EffectView::CancelGeneration,
                    EffectView::UnloadModel(m),
                    EffectView::UnloadModel(m),
                ]
                &&& !v.is_generating ==> s.1 == seq![EffectView::UnloadModel(m)]
            }
        }),
{
    lemma_index_of_id_bounds(v.tabs, v.active_tab_id);
}

/// Clearing empties the active conversation only, after stopping a running
/// generation; the tab keeps its title, model, instructions and parameters,
/// and every other tab stays as it was.  In the first design the
/// conversations are then saved.
pub proof fn law_clear_empties_active_only(v: SessionView)
    requires
        active_index(v) is Some,
    ensures
        ({
            let i = active_index(v)->0;
            let m = v.tabs[i].selected_model;
            let stop: Seq<EffectView> = if v.is_generating {
                seq![EffectView::CancelGeneration, EffectView::UnloadModel(m)]
            } else {
                Seq::empty()
            };
            let c = cleared(v);
            let d = classic_cleared(v);
            &&& c.0.tabs == v.tabs.update(i, TabView { messages: Seq::empty(), ..v.tabs[i] })
            &&& d.0.tabs == v.tabs.update(i, TabView { messages: Seq::empty(), ..v.tabs[i] })
            &&& !c.0.is_generating && !d.0.is_generating
            &&& c.1 == stop
            &&& d.1 == stop.push(EffectView::SaveChats)
        }),
{
    lemma_index_of_id_bounds(v.tabs, v.active_tab_id);
    let i = active_index(v)->0;
    let s = stopped_if_generating(v).0;
    assert(s.tabs == v.tabs);
    assert(active_index(s) == active_index(v));
    let m = v.tabs[i].selected_model;
    if v.is_generating {
        assert(seq![EffectView::CancelGeneration] + seq![EffectView::UnloadModel(m)] =~= seq![
            EffectView::CancelGeneration,
            EffectView::UnloadModel(m),
        ]);
    }
}

/// Sending in the first design adds the typed text, trimmed, as a user
/// message (after the content of an attached text file, quoted), and an
/// awaited reply; the conversations are saved and a generation starts with
/// the active tab's model, the conversation up to the new message, and the
/// attached image, Base64-encoded, if any.
pub proof fn law_classic_send(v: SessionView, att: Option<AttachmentView>)
    requires
        active_index(v) is Some,
        !v.is_generating,
        !is_blank_text(v.input_text),
    ensures
        ({
            let i = active_index(v)->0;
            let ms = v.tabs[i].messages;
            let typed = trimmed(v.input_text);
            let prompt = match att {
                Some(AttachmentView::Text { path, content }) => with_file_prefix(path, content, typed),
                _ => typed,
            };
            let r = classic_sent(v, att);
            &&& r.0.tabs[i].messages == ms.push(plain_message(user_role(), prompt)).push(
                plain_message(assistant_role(), Seq::empty()),
            )
            &&& r.0.input_text.len() == 0
            &&& r.0.selected_file is None
            &&& r.0.is_generating
            &&& r.1.len() == 2
            &&& r.1[0] == EffectView::SaveChats
            &&& r.1[1] matches EffectView::GenerateClassic(g) && {
                &&& g.tab_id == v.tabs[i].id
                &&& g.model == v.tabs[i].selected_model
                &&& g.base_url == v.settings.ollama_url
                &&& g.history == ms.push(plain_message(user_role(), prompt))
                &&& g.images == match att {
                    Some(AttachmentView::Image(b)) => Some(seq![base64_standard(b)]),
                    _ => None,
                }
            }
        }),
{
    lemma_index_of_id_bounds(v.tabs, v.active_tab_id);
    let i = active_index(v)->0;
    let typed = trimmed(v.input_text);
    let prompt = match att {
        Some(AttachmentView::Text { path, content }) => with_file_prefix(path, content, typed),
        _ => typed,
    };
    let ms = v.tabs[i].messages;
    let full = ms.push(plain_message(user_role(), prompt)).push(
        plain_message(assistant_role(), Seq::empty()),
    );
    assert(full.drop_last() =~= ms.push(plain_message(user_role(), prompt)));
}

/// When a generation finishes, its statistics are recorded on the reply of
/// the tab it was for (if that tab still ends with a reply), the counters
/// grow by the reported counts, and no generation runs any more; when it
/// fails, that reply is replaced by the warning sign and the error, and the
/// error is shown.  Other tabs and messages stay as they were.
pub proof fn law_generation_end_updates_reply(
    v: SessionView,
    id: usize,
    p: Option<usize>,
    c: Option<usize>,
    secs: Option<u64>,
    error: Seq<char>,
)
    requires
        index_of_id(v.tabs, id) is Some,
        ends_with_reply(v.tabs[index_of_id(v.tabs, id)->0].messages),
    ensures
        ({
            let i = index_of_id(v.tabs, id)->0;
            let ms = v.tabs[i].messages;
            let n = ms.len() - 1;
            let f = after_event(
                v,
                EventView::StreamFinished {
                    tab_id: id,
                    prompt_tokens: p,
                    completion_tokens: c,
                    eval_duration_secs_bits: secs,
                },
            );
            let e = after_event(v, EventView::StreamError { tab_id: id, error });
            &&& f.0.tabs == v.tabs.update(
                i,
                TabView {
                    messages: ms.update(
                        n,
                        MessageView {
                            prompt_tokens: p,
                            completion_tokens: c,
                            eval_duration_secs_bits: secs,
                            ..ms[n]
                        },
                    ),
                    ..v.tabs[i]
                },
            )
            &&& f.0.total_prompt_tokens == (v.total_prompt_tokens + match p {
                Some(x) => x,
                None => 0,
            }) as usize
            &&& f.0.total_completion_tokens == (v.total_completion_tokens + match c {
                Some(x) => x,
                None => 0,
            }) as usize
            &&& !f.0.is_generating
            &&& f.1.len() == 0
            &&& e.0.tabs == v.tabs.update(
                i,
                TabView {
                    messages: ms.update(n, MessageView { content: failure_prefix() + error, ..ms[n] }),
                    ..v.tabs[i]
                },
            )
            &&& !e.0.is_generating
            &&& e.1 == seq![EffectView::Toast { text: "Error: "@ + error, secs: 5 }]
        }),
{
    lemma_index_of_id_bounds(v.tabs, id);
}

} // verus!
