//! Properties of the session that span its operations.

use vstd::prelude::*;

use crate::chat::{plain_message, user_role, MessageView, TabView};
use crate::conversation::{
    ends_with_reply, joined, law_reply_is_concatenation, law_request_after_edit,
    law_request_after_exchange, with_chunks,
};
use crate::session::{
    active_index, after_event, after_events, closed, events_fit, created, edit_saved, event_fits, fresh_session, sent,
    stopped, switched, well_formed, with_tab_messages, EffectView, EventView, SessionView,
};
use crate::settings::SettingsView;
use crate::tabs::{
    index_of_id, is_first_with_id, lemma_index_of_id_bounds, lemma_max_id_bounds,
    lemma_without_id_subset, max_id, restored_tabs, without_id,
};
use crate::text::{is_blank_text, trimmed};

verus! {

/// A new chat gets an id that no other tab has, becomes the active tab, and
/// the session stays well formed.
pub proof fn law_new_chat_is_fresh_and_active(v: SessionView)
    requires
        well_formed(v),
        v.next_tab_id < usize::MAX,
    ensures
        ({
            let w = created(v).0;
            &&& w.tabs.len() == v.tabs.len() + 1
            &&& w.tabs.last().id == v.next_tab_id
            &&& forall|i: int| 0 <= i < v.tabs.len() ==> #[trigger] w.tabs[i].id != v.next_tab_id
            &&& w.active_tab_id == v.next_tab_id
            &&& well_formed(w)
        }),
{
    let w = created(v).0;
    assert forall|i: int| 0 <= i < v.tabs.len() implies #[trigger] w.tabs[i].id != v.next_tab_id by {
        assert(w.tabs[i] == v.tabs[i]);
    }
    assert forall|i: int| 0 <= i < w.tabs.len() implies #[trigger] w.tabs[i].id < w.next_tab_id by {
        if i < v.tabs.len() {
            assert(w.tabs[i] == v.tabs[i]);
        }
    }
}

/// After a switch, the target is the active tab.
pub proof fn law_switch_activates_target(v: SessionView, target: usize)
    ensures
        switched(v, target).0.active_tab_id == target,
        switched(v, target).0.tabs == v.tabs,
{
}

/// Closing leaves every other tab, in order, and none with the closed id;
/// when the active tab is closed and others remain, the first of them
/// becomes active.
pub proof fn law_close_keeps_others(v: SessionView, id: usize)
    ensures
        ({
            let w = closed(v, id).0;
            &&& w.tabs == without_id(v.tabs, id)
            &&& forall|k: int| 0 <= k < w.tabs.len() ==> #[trigger] w.tabs[k].id != id
            &&& (v.active_tab_id == id && w.tabs.len() > 0) ==> w.active_tab_id == w.tabs[0].id
            &&& v.active_tab_id != id ==> w.active_tab_id == v.active_tab_id
        }),
{
    lemma_without_id_subset(v.tabs, id);
}

/// The token counters never go down.
pub proof fn law_token_counts_grow(v: SessionView, e: EventView)
    requires
        event_fits(v, e),
    ensures
        after_event(v, e).0.total_prompt_tokens >= v.total_prompt_tokens,
        after_event(v, e).0.total_completion_tokens >= v.total_completion_tokens,
{
}

/// A generation that finishes or fails is no longer running, and so is one
/// that is stopped.
pub proof fn law_generation_ends(v: SessionView, e: EventView)
    requires
        e is StreamFinished || e is StreamError,
    ensures
        !after_event(v, e).0.is_generating,
        !stopped(v).0.is_generating,
{
}

/// After the server listed at least one model, the active tab uses one of
/// the listed models.
pub proof fn law_fetched_models_cover_active_tab(v: SessionView, models: Seq<Seq<char>>)
    requires
        models.len() > 0,
        active_index(v) is Some,
    ensures
        ({
            let w = after_event(v, EventView::ModelsFetched(models)).0;
            &&& w.available_models == models
            &&& active_index(w) is Some
            &&& models.contains(w.tabs[active_index(w)->0].selected_model)
        }),
{
    let i = active_index(v)->0;
    lemma_index_of_id_bounds(v.tabs, v.active_tab_id);
    let w = after_event(v, EventView::ModelsFetched(models)).0;
    assert(is_first_with_id(w.tabs, w.active_tab_id, i)) by {
        assert forall|j: int| 0 <= j < i implies w.tabs[j].id != w.active_tab_id by {
            assert(w.tabs[j] == v.tabs[j]);
        }
    }
    crate::tabs::lemma_first_with_id_unique(w.tabs, w.active_tab_id, i);
    if !models.contains(v.tabs[i].selected_model) {
        assert(models[0] == w.tabs[i].selected_model);
        assert(models.contains(w.tabs[i].selected_model));
    }
}

/// The session after the pieces `chunks` of a streamed reply for the tab
/// with id `id` arrived, in order.
pub open spec fn after_chunks(v: SessionView, id: usize, chunks: Seq<Seq<char>>) -> SessionView
    decreases chunks.len(),
{
    if chunks.len() == 0 {
        v
    } else {
        after_event(
            after_chunks(v, id, chunks.drop_last()),
            EventView::StreamChunk { tab_id: id, chunk: chunks.last() },
        ).0
    }
}

/// A streamed reply is what the server sent: once its pieces arrived, the
/// reply that the tab awaited holds what it held before followed by every
/// piece in order, and nothing else in the session changed.
pub proof fn law_streamed_reply_is_concatenation(v: SessionView, id: usize, chunks: Seq<Seq<char>>)
    requires
        index_of_id(v.tabs, id) is Some,
        ends_with_reply(v.tabs[index_of_id(v.tabs, id)->0].messages),
    ensures
        ({
            let i = index_of_id(v.tabs, id)->0;
            let ms = v.tabs[i].messages;
            &&& after_chunks(v, id, chunks) == with_tab_messages(v, i, with_chunks(ms, chunks))
            &&& with_chunks(ms, chunks) == ms.update(
                ms.len() - 1,
                MessageView { content: ms.last().content + joined(chunks), ..ms.last() },
            )
        }),
    decreases chunks.len(),
{
    law_reply_is_concatenation(v.tabs[index_of_id(v.tabs, id)->0].messages, chunks);
    let i = index_of_id(v.tabs, id)->0;
    lemma_index_of_id_bounds(v.tabs, id);
    if chunks.len() == 0 {
        assert(v.tabs.update(i, TabView { messages: v.tabs[i].messages, ..v.tabs[i] }) =~= v.tabs);
    } else {
        law_streamed_reply_is_concatenation(v, id, chunks.drop_last());
        let prev = after_chunks(v, id, chunks.drop_last());
        let ms = with_chunks(v.tabs[i].messages, chunks.drop_last());
        assert(prev == with_tab_messages(v, i, ms));
        assert(is_first_with_id(prev.tabs, id, i)) by {
            assert forall|j: int| 0 <= j < i implies prev.tabs[j].id != id by {
                assert(prev.tabs[j] == v.tabs[j]);
            }
        }
        crate::tabs::lemma_first_with_id_unique(prev.tabs, id, i);
        assert(prev.tabs[i].messages == ms);
        assert(after_chunks(v, id, chunks).tabs =~= with_tab_messages(
            v,
            i,
            with_chunks(v.tabs[i].messages, chunks),
        ).tabs);
    }
}

/// Sending asks the model with the conversation as it was, followed by the
/// trimmed text, with the picked file attached, to the active tab's model.
pub proof fn law_send_requests_trimmed_text(v: SessionView)
    requires
        active_index(v) is Some,
        !v.is_generating,
        !is_blank_text(v.input_text),
    ensures
        ({
            let i = active_index(v)->0;
            let e = sent(v).1;
            &&& e.len() == 1
            &&& e[0] matches EffectView::Generate(g) && {
                &&& g.history == v.tabs[i].messages.push(
                    plain_message(user_role(), trimmed(v.input_text)),
                )
                &&& g.attached_file == v.selected_file
                &&& g.model == v.tabs[i].selected_model
                &&& g.tab_id == v.active_tab_id
            }
            &&& sent(v).0.is_generating
            &&& sent(v).0.input_text.len() == 0
            &&& sent(v).0.selected_file is None
        }),
{
    let i = active_index(v)->0;
    lemma_index_of_id_bounds(v.tabs, v.active_tab_id);
    law_request_after_exchange(v.tabs[i].messages, trimmed(v.input_text));
}

/// Saving an edit asks the model with the conversation up to the edited
/// message, which holds the new text.
pub proof fn law_edit_requests_prefix(v: SessionView, idx: int, text: Seq<char>)
    requires
        active_index(v) is Some,
        0 <= idx < v.tabs[active_index(v)->0].messages.len(),
    ensures
        ({
            let i = active_index(v)->0;
            let e = edit_saved(v, idx, text).1;
            &&& e.last() matches EffectView::Generate(g) && g.history == v.tabs[i].messages.take(
                idx,
            ).push(MessageView { content: text, ..v.tabs[i].messages[idx] })
            &&& edit_saved(v, idx, text).0.editing_msg is None
        }),
{
    let i = active_index(v)->0;
    lemma_index_of_id_bounds(v.tabs, v.active_tab_id);
    law_request_after_edit(v.tabs[i].messages, idx, text);
}

/// Conversations survive a restart: a session started from the saved tabs
/// holds exactly those tabs, in order, with the first one active and
/// selectable, is well formed, and hands out ids that no saved tab has.
pub proof fn law_restart_restores_saved_tabs(settings: SettingsView, saved: Seq<TabView>)
    requires
        saved.len() > 0,
        max_id(saved) < usize::MAX,
    ensures
        ({
            let v = fresh_session(settings, restored_tabs(Some(saved)));
            &&& v.tabs == saved
            &&& v.active_tab_id == saved[0].id
            &&& active_index(v) is Some
            &&& well_formed(v)
            &&& forall|k: int| 0 <= k < saved.len() ==> #[trigger] saved[k].id != v.next_tab_id
        }),
{
    lemma_max_id_bounds(saved);
    assert(is_first_with_id(saved, saved[0].id, 0));
    crate::tabs::lemma_first_with_id_unique(saved, saved[0].id, 0);
}

/// Events are taken in the order they came: the events of `a` followed by
/// those of `b` lead where `b` leads from the state `a` left, and their
/// effects are those of `a` followed by those of `b`.
pub proof fn law_events_apply_in_order(v: SessionView, a: Seq<EventView>, b: Seq<EventView>)
    ensures
        ({
            let p = after_events(v, a);
            let q = after_events(p.0, b);
            after_events(v, a + b) == (q.0, p.1 + q.1)
        }),
    decreases b.len(),
{
    let p = after_events(v, a);
    if b.len() == 0 {
        assert(a + b =~= a);
        assert(p.1 + Seq::<EffectView>::empty() =~= p.1);
    } else {
        law_events_apply_in_order(v, a, b.drop_last());
        assert((a + b).drop_last() =~= a + b.drop_last());
        assert((a + b).last() == b.last());
        let q1 = after_events(p.0, b.drop_last());
        let e = after_event(q1.0, b.last());
        assert(p.1 + q1.1 + e.1 =~= p.1 + (q1.1 + e.1));
    }
}

/// The events that bring the pieces `chunks` of a reply for the tab with id
/// `id`.
pub open spec fn chunk_events(id: usize, chunks: Seq<Seq<char>>) -> Seq<EventView> {
    chunks.map_values(|c: Seq<char>| EventView::StreamChunk { tab_id: id, chunk: c })
}

proof fn lemma_chunk_events_fold(v: SessionView, id: usize, chunks: Seq<Seq<char>>)
    ensures
        after_events(v, chunk_events(id, chunks)) == (after_chunks(v, id, chunks), Seq::<EffectView>::empty()),
    decreases chunks.len(),
{
    if chunks.len() > 0 {
        lemma_chunk_events_fold(v, id, chunks.drop_last());
        assert(chunk_events(id, chunks).drop_last() =~= chunk_events(id, chunks.drop_last()));
        assert(Seq::<EffectView>::empty() + Seq::<EffectView>::empty() =~= Seq::<EffectView>::empty());
    }
}

/// Queued pieces of a reply are appended in the order they came: once the
/// events that bring them are taken, the reply the tab awaited holds what it
/// held before followed by every piece in order, and nothing is asked for.
pub proof fn law_queued_chunks_append_in_order(v: SessionView, id: usize, chunks: Seq<Seq<char>>)
    requires
        index_of_id(v.tabs, id) is Some,
        ends_with_reply(v.tabs[index_of_id(v.tabs, id)->0].messages),
    ensures
        ({
            let i = index_of_id(v.tabs, id)->0;
            let ms = v.tabs[i].messages;
            let r = after_events(v, chunk_events(id, chunks));
            &&& r.1.len() == 0
            &&& r.0 == with_tab_messages(
                v,
                i,
                ms.update(ms.len() - 1, MessageView { content: ms.last().content + joined(chunks), ..ms.last() }),
            )
        }),
{
    lemma_chunk_events_fold(v, id, chunks);
    law_streamed_reply_is_concatenation(v, id, chunks);
}

/// The token counters never go down over a queue of events whose counts fit
/// them.
pub proof fn law_token_counts_grow_over_events(v: SessionView, es: Seq<EventView>)
    requires
        events_fit(v, es),
    ensures
        after_events(v, es).0.total_prompt_tokens >= v.total_prompt_tokens,
        after_events(v, es).0.total_completion_tokens >= v.total_completion_tokens,
    decreases es.len(),
{
    if es.len() > 0 {
        law_token_counts_grow_over_events(v, es.drop_last());
        law_token_counts_grow(after_events(v, es.drop_last()).0, es.last());
    }
}

} // verus!
