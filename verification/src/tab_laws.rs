//! The tab list stays sound: there is always a tab, no two tabs share an
//! id, every id is below the next one handed out, and the active id names a
//! tab.

use vstd::prelude::*;

use crate::chat::TabView;
use crate::classic::{
    classic_after_event, classic_cleared, classic_closed, classic_created, classic_edit_saved,
    classic_new_tab,
    classic_renamed, classic_sent, ClassicEventView,
};
use crate::request::{with_file_prefix, AttachmentView};
use crate::session::{
    active_index, after_event, cleared, failure_prefix, closed, created, edit_saved, fresh_session,
    model_selected, new_tab, regenerate_asked, rename_started, renamed, sent, stopped,
    stopped_if_generating, switched, well_formed, with_messages_of, with_tab_messages, EventView, SessionView,
};
use crate::conversation::{
    edited, regenerated, with_chunk, with_exchange, with_reply_stats, with_reply_text,
};
use crate::chat::MessageView;
use crate::settings::SettingsView;
use crate::text::{is_blank_text, trimmed};
use crate::tabs::{
    index_of_id, is_first_with_id, lemma_first_with_id_unique, lemma_index_of_id_bounds,
    lemma_max_id_bounds, lemma_without_id_subset, max_id, without_id,
};

verus! {

/// No two tabs share an id.
pub open spec fn distinct_ids(tabs: Seq<TabView>) -> bool {
    forall|i: int, j: int|
        0 <= i < tabs.len() && 0 <= j < tabs.len() && i != j ==> #[trigger] tabs[i].id
            != #[trigger] tabs[j].id
}

/// The tab list of the session is sound: at least one tab, distinct ids,
/// each below the next id, and an active id that names a tab.
pub open spec fn tabs_sound(v: SessionView) -> bool {
    &&& v.tabs.len() > 0
    &&& distinct_ids(v.tabs)
    &&& well_formed(v)
    &&& active_index(v) is Some
}

/// `w` holds tabs with the ids of `v`, in the same places, the same active
/// id and the same next id.
pub open spec fn same_tab_ids(v: SessionView, w: SessionView) -> bool {
    &&& w.tabs.len() == v.tabs.len()
    &&& forall|k: int| 0 <= k < v.tabs.len() ==> #[trigger] w.tabs[k].id == v.tabs[k].id
    &&& w.active_tab_id == v.active_tab_id
    &&& w.next_tab_id == v.next_tab_id
}

/// With distinct ids, a tab that holds an id is the first with it.
proof fn lemma_distinct_first(tabs: Seq<TabView>, k: int)
    requires
        distinct_ids(tabs),
        0 <= k < tabs.len(),
    ensures
        index_of_id(tabs, tabs[k].id) == Some(k),
{
    assert forall|j: int| 0 <= j < k implies tabs[j].id != tabs[k].id by {
        assert(tabs[j].id != tabs[k].id);
    }
    assert(is_first_with_id(tabs, tabs[k].id, k));
    lemma_first_with_id_unique(tabs, tabs[k].id, k);
}

proof fn lemma_same_ids_keep_sound(v: SessionView, w: SessionView)
    requires
        tabs_sound(v),
        same_tab_ids(v, w),
    ensures
        tabs_sound(w),
{
    assert forall|i: int, j: int|
        0 <= i < w.tabs.len() && 0 <= j < w.tabs.len() && i != j implies #[trigger] w.tabs[i].id
        != #[trigger] w.tabs[j].id by {
        assert(w.tabs[i].id == v.tabs[i].id);
        assert(w.tabs[j].id == v.tabs[j].id);
        assert(v.tabs[i].id != v.tabs[j].id);
    }
    assert forall|k: int| 0 <= k < w.tabs.len() implies #[trigger] w.tabs[k].id < w.next_tab_id by {
        assert(w.tabs[k].id == v.tabs[k].id);
        assert(v.tabs[k].id < v.next_tab_id);
    }
    lemma_index_of_id_bounds(v.tabs, v.active_tab_id);
    let i = active_index(v)->0;
    assert(w.tabs[i].id == v.tabs[i].id);
    lemma_distinct_first(w.tabs, i);
}

proof fn lemma_with_tab_messages_same(v: SessionView, i: int, ms: Seq<MessageView>)
    requires
        0 <= i < v.tabs.len(),
    ensures
        same_tab_ids(v, with_tab_messages(v, i, ms)),
{
    let w = with_tab_messages(v, i, ms);
    assert forall|k: int| 0 <= k < v.tabs.len() implies #[trigger] w.tabs[k].id == v.tabs[k].id by {
        if k == i {
        } else {
            assert(w.tabs[k] == v.tabs[k]);
        }
    }
}

proof fn lemma_with_messages_of_same(
    v: SessionView,
    id: usize,
    f: spec_fn(Seq<MessageView>) -> Seq<MessageView>,
)
    ensures
        same_tab_ids(v, with_messages_of(v, id, f)),
{
    lemma_index_of_id_bounds(v.tabs, id);
    match index_of_id(v.tabs, id) {
        Some(i) => lemma_with_tab_messages_same(v, i, f(v.tabs[i].messages)),
        None => {},
    }
}

/// Replacing the tab at position `i` with one of the same id keeps the ids.
proof fn lemma_update_same(v: SessionView, w: SessionView, i: int, t: TabView)
    requires
        0 <= i < v.tabs.len(),
        t.id == v.tabs[i].id,
        w.tabs == v.tabs.update(i, t),
        w.active_tab_id == v.active_tab_id,
        w.next_tab_id == v.next_tab_id,
    ensures
        same_tab_ids(v, w),
{
    assert forall|k: int| 0 <= k < v.tabs.len() implies #[trigger] w.tabs[k].id == v.tabs[k].id by {
        if k != i {
            assert(w.tabs[k] == v.tabs[k]);
        }
    }
}

proof fn lemma_renamed_same(v: SessionView, id: usize, title: Seq<char>, blank: bool, w: SessionView)
    requires
        w.tabs == match index_of_id(v.tabs, id) {
            Some(i) => if blank {
                v.tabs
            } else {
                v.tabs.update(i, TabView { title, ..v.tabs[i] })
            },
            None => v.tabs,
        },
        w.active_tab_id == v.active_tab_id,
        w.next_tab_id == v.next_tab_id,
    ensures
        same_tab_ids(v, w),
{
    lemma_index_of_id_bounds(v.tabs, id);
    match index_of_id(v.tabs, id) {
        Some(i) => if !blank {
            lemma_update_same(v, w, i, TabView { title, ..v.tabs[i] });
        },
        None => {},
    }
}

proof fn lemma_after_event_same(v: SessionView, e: EventView)
    ensures
        same_tab_ids(v, after_event(v, e).0),
{
    match e {
        EventView::ModelsFetched(models) => {
            lemma_index_of_id_bounds(v.tabs, v.active_tab_id);
            if models.len() > 0 {
                match active_index(v) {
                    Some(i) => if !models.contains(v.tabs[i].selected_model) {
                        lemma_update_same(
                            v,
                            after_event(v, e).0,
                            i,
                            TabView { selected_model: models[0], ..v.tabs[i] },
                        );
                    },
                    None => {},
                }
            }
        },
        EventView::StreamChunk { tab_id, chunk } => {
            lemma_with_messages_of_same(v, tab_id, |ms: Seq<MessageView>| with_chunk(ms, chunk));
        },
        EventView::StreamFinished {
            tab_id,
            prompt_tokens,
            completion_tokens,
            eval_duration_secs_bits,
        } => {
            lemma_with_messages_of_same(
                v,
                tab_id,
                |ms: Seq<MessageView>|
                    with_reply_stats(ms, prompt_tokens, completion_tokens, eval_duration_secs_bits),
            );
        },
        EventView::StreamError { tab_id, error } => {
            lemma_with_messages_of_same(
                v,
                tab_id,
                |ms: Seq<MessageView>| with_reply_text(ms, failure_prefix() + error),
            );
        },
        _ => {},
    }
}

proof fn lemma_classic_after_event_same(v: SessionView, e: ClassicEventView)
    ensures
        same_tab_ids(v, classic_after_event(v, e).0),
{
    match e {
        ClassicEventView::ModelsFetched(models) => {
            lemma_after_event_same(v, EventView::ModelsFetched(models));
        },
        ClassicEventView::RunningModelsFetched(ms) => {},
        ClassicEventView::StreamChunk { tab_id, chunk, .. } => {
            lemma_with_messages_of_same(v, tab_id, |ms: Seq<MessageView>| with_chunk(ms, chunk));
        },
        ClassicEventView::StreamFinished { .. } => {},
        ClassicEventView::StreamError { tab_id, error } => {
            lemma_with_messages_of_same(
                v,
                tab_id,
                |ms: Seq<MessageView>| with_reply_text(ms, "Error: "@ + error),
            );
        },
    }
}

/// Every step that adds or removes no tab and moves the active tab nowhere
/// keeps the tab list sound: stopping, renaming, choosing a model, clearing,
/// saving an edit, asking again, sending, and every event, in both designs.
pub proof fn law_steps_keep_tab_list_sound(
    v: SessionView,
    id: usize,
    title: Seq<char>,
    model: Seq<char>,
    idx: int,
    text: Seq<char>,
    e: EventView,
    ce: ClassicEventView,
    att: Option<AttachmentView>,
)
    requires
        tabs_sound(v),
    ensures
        tabs_sound(stopped(v).0),
        tabs_sound(rename_started(v, id, title)),
        tabs_sound(renamed(v, id)),
        tabs_sound(model_selected(v, model).0),
        tabs_sound(cleared(v).0),
        tabs_sound(edit_saved(v, idx, text).0),
        tabs_sound(regenerate_asked(v, idx).0),
        tabs_sound(sent(v).0),
        tabs_sound(classic_renamed(v, id).0),
        tabs_sound(classic_cleared(v).0),
        tabs_sound(classic_edit_saved(v, idx, text).0),
        tabs_sound(after_event(v, e).0),
        tabs_sound(classic_sent(v, att).0),
        tabs_sound(classic_after_event(v, ce).0),
{
    lemma_index_of_id_bounds(v.tabs, v.active_tab_id);
    let a = active_index(v)->0;
    lemma_same_ids_keep_sound(v, stopped(v).0);
    lemma_same_ids_keep_sound(v, rename_started(v, id, title));
    lemma_renamed_same(v, id, v.rename_input, is_blank_text(v.rename_input), renamed(v, id));
    lemma_same_ids_keep_sound(v, renamed(v, id));
    lemma_renamed_same(v, id, v.rename_input, is_blank_text(v.rename_input), classic_renamed(v, id).0);
    lemma_same_ids_keep_sound(v, classic_renamed(v, id).0);
    if v.tabs[a].selected_model != model {
        lemma_update_same(v, model_selected(v, model).0, a, TabView { selected_model: model, ..v.tabs[a] });
    }
    lemma_same_ids_keep_sound(v, model_selected(v, model).0);
    let s = stopped_if_generating(v).0;
    lemma_with_tab_messages_same(s, a, Seq::empty());
    lemma_same_ids_keep_sound(v, cleared(v).0);
    lemma_same_ids_keep_sound(v, classic_cleared(v).0);
    let s1 = SessionView { editing_msg: None, ..s };
    lemma_with_tab_messages_same(s1, a, edited(s1.tabs[a].messages, idx, text));
    lemma_same_ids_keep_sound(v, edit_saved(v, idx, text).0);
    lemma_same_ids_keep_sound(v, classic_edit_saved(v, idx, text).0);
    lemma_with_tab_messages_same(s, a, regenerated(s.tabs[a].messages, idx));
    lemma_same_ids_keep_sound(v, regenerate_asked(v, idx).0);
    if !(v.is_generating || is_blank_text(v.input_text)) {
        lemma_with_tab_messages_same(v, a, with_exchange(v.tabs[a].messages, trimmed(v.input_text)));
    }
    lemma_same_ids_keep_sound(v, sent(v).0);
    if !(v.is_generating || is_blank_text(v.input_text)) {
        let typed = trimmed(v.input_text);
        let prompt = match att {
            Some(AttachmentView::Text { path, content }) => with_file_prefix(path, content, typed),
            _ => typed,
        };
        lemma_with_tab_messages_same(v, a, with_exchange(v.tabs[a].messages, prompt));
    }
    lemma_same_ids_keep_sound(v, classic_sent(v, att).0);
    lemma_after_event_same(v, e);
    lemma_same_ids_keep_sound(v, after_event(v, e).0);
    lemma_classic_after_event_same(v, ce);
    lemma_same_ids_keep_sound(v, classic_after_event(v, ce).0);
}

/// Switching to a tab that exists keeps the tab list sound, in both designs.
pub proof fn law_switch_keeps_tab_list_sound(v: SessionView, target: usize)
    requires
        tabs_sound(v),
        index_of_id(v.tabs, target) is Some,
    ensures
        tabs_sound(switched(v, target).0),
        tabs_sound(SessionView { active_tab_id: target, ..v }),
{
    lemma_index_of_id_bounds(v.tabs, target);
    let w = SessionView { active_tab_id: target, ..v };
    assert(active_index(w) == index_of_id(v.tabs, target));
    assert(switched(v, target).0.tabs == v.tabs);
    assert(active_index(switched(v, target).0) == index_of_id(v.tabs, target));
}

/// A new chat makes the tab list sound, in both designs, as long as the ids
/// were distinct and below the next id: the new tab, with the next id, is
/// active.
pub proof fn law_new_chat_keeps_tab_list_sound(v: SessionView)
    requires
        distinct_ids(v.tabs),
        well_formed(v),
        v.next_tab_id < usize::MAX,
    ensures
        tabs_sound(created(v).0),
        tabs_sound(classic_created(v).0),
{
    let n = v.tabs.len();
    let t = new_tab(v);
    let tabs = v.tabs.push(t);
    assert(distinct_ids(tabs)) by {
        assert forall|i: int, j: int|
            0 <= i < tabs.len() && 0 <= j < tabs.len() && i != j implies #[trigger] tabs[i].id
            != #[trigger] tabs[j].id by {
            if i < n && j < n {
                assert(tabs[i] == v.tabs[i] && tabs[j] == v.tabs[j]);
            } else if i < n {
                assert(tabs[i] == v.tabs[i] && v.tabs[i].id < v.next_tab_id);
            } else {
                assert(tabs[j] == v.tabs[j] && v.tabs[j].id < v.next_tab_id);
            }
        }
    }
    lemma_distinct_first(tabs, n as int);
    let w = created(v).0;
    assert(w.tabs == tabs);
    assert forall|k: int| 0 <= k < w.tabs.len() implies #[trigger] w.tabs[k].id < w.next_tab_id by {
        if k < n {
            assert(w.tabs[k] == v.tabs[k]);
        }
    }
    let c = classic_created(v).0;
    let ct = classic_new_tab(v);
    let ctabs = v.tabs.push(ct);
    assert(c.tabs == ctabs);
    assert(distinct_ids(ctabs)) by {
        assert forall|i: int, j: int|
            0 <= i < ctabs.len() && 0 <= j < ctabs.len() && i != j implies #[trigger] ctabs[i].id
            != #[trigger] ctabs[j].id by {
            if i < n && j < n {
                assert(ctabs[i] == v.tabs[i] && ctabs[j] == v.tabs[j]);
            } else if i < n {
                assert(ctabs[i] == v.tabs[i] && v.tabs[i].id < v.next_tab_id);
            } else {
                assert(ctabs[j] == v.tabs[j] && v.tabs[j].id < v.next_tab_id);
            }
        }
    }
    lemma_distinct_first(ctabs, n as int);
    assert forall|k: int| 0 <= k < c.tabs.len() implies #[trigger] c.tabs[k].id < c.next_tab_id by {
        if k < n {
            assert(c.tabs[k] == v.tabs[k]);
        }
    }
}

/// Removing the tabs with an id no tab holds removes nothing.
proof fn lemma_without_absent(tabs: Seq<TabView>, id: usize)
    requires
        forall|k: int| 0 <= k < tabs.len() ==> #[trigger] tabs[k].id != id,
    ensures
        without_id(tabs, id) == tabs,
    decreases tabs.len(),
{
    if tabs.len() > 0 {
        let rest = tabs.drop_last();
        assert forall|k: int| 0 <= k < rest.len() implies #[trigger] rest[k].id != id by {
            assert(rest[k] == tabs[k]);
        }
        lemma_without_absent(rest, id);
        assert(tabs.last().id != id);
        assert(rest.push(tabs.last()) =~= tabs);
    }
}

proof fn lemma_distinct_rest(tabs: Seq<TabView>)
    requires
        distinct_ids(tabs),
        tabs.len() > 0,
    ensures
        distinct_ids(tabs.drop_last()),
        forall|k: int| 0 <= k < tabs.len() - 1 ==> #[trigger] tabs[k].id != tabs.last().id,
{
    let rest = tabs.drop_last();
    assert forall|i: int, j: int|
        0 <= i < rest.len() && 0 <= j < rest.len() && i != j implies #[trigger] rest[i].id
        != #[trigger] rest[j].id by {
        assert(rest[i] == tabs[i] && rest[j] == tabs[j]);
    }
    assert forall|k: int| 0 <= k < tabs.len() - 1 implies #[trigger] tabs[k].id != tabs.last().id by {
        assert(tabs[k].id != tabs[tabs.len() - 1].id);
    }
}

/// Removing the tabs with one id from distinct tabs removes at most one.
proof fn lemma_without_len(tabs: Seq<TabView>, id: usize)
    requires
        distinct_ids(tabs),
    ensures
        without_id(tabs, id).len() + 1 >= tabs.len(),
    decreases tabs.len(),
{
    if tabs.len() > 0 {
        let rest = tabs.drop_last();
        lemma_distinct_rest(tabs);
        lemma_without_len(rest, id);
        if tabs.last().id == id {
            assert forall|k: int| 0 <= k < rest.len() implies #[trigger] rest[k].id != id by {
                assert(rest[k] == tabs[k]);
            }
            lemma_without_absent(rest, id);
        }
    }
}

/// A tab with another id stays after the removal.
proof fn lemma_without_keeps(tabs: Seq<TabView>, id: usize, j: int)
    requires
        0 <= j < tabs.len(),
        tabs[j].id != id,
    ensures
        exists|k: int| 0 <= k < without_id(tabs, id).len() && without_id(tabs, id)[k] == tabs[j],
    decreases tabs.len(),
{
    let rest = tabs.drop_last();
    let wr = without_id(rest, id);
    if j < rest.len() {
        assert(rest[j] == tabs[j]);
        lemma_without_keeps(rest, id, j);
        let k = choose|k: int| 0 <= k < wr.len() && wr[k] == rest[j];
        if tabs.last().id == id {
            assert(without_id(tabs, id) == wr);
        } else {
            assert(without_id(tabs, id)[k] == wr[k]);
        }
    } else {
        assert(without_id(tabs, id) == wr.push(tabs.last()));
        assert(without_id(tabs, id)[wr.len() as int] == tabs[j]);
    }
}

/// Removing the tabs with one id from distinct tabs keeps them distinct.
#[verifier::spinoff_prover]
proof fn lemma_without_distinct(tabs: Seq<TabView>, id: usize)
    requires
        distinct_ids(tabs),
    ensures
        distinct_ids(without_id(tabs, id)),
    decreases tabs.len(),
{
    if tabs.len() > 0 {
        let rest = tabs.drop_last();
        let last = tabs.last();
        lemma_distinct_rest(tabs);
        lemma_without_distinct(rest, id);
        let wr = without_id(rest, id);
        if last.id != id {
            let w = without_id(tabs, id);
            assert(w == wr.push(last));
            assert forall|i: int| 0 <= i < wr.len() implies #[trigger] wr[i].id != last.id by {
                lemma_without_id_subset(rest, id);
                let m = choose|m: int| 0 <= m < rest.len() && rest[m] == wr[i];
                assert(rest[m] == tabs[m]);
            }
            assert forall|i: int, j: int|
                0 <= i < w.len() && 0 <= j < w.len() && i != j implies #[trigger] w[i].id
                != #[trigger] w[j].id by {
                if i < wr.len() {
                    assert(w[i] == wr[i]);
                }
                if j < wr.len() {
                    assert(w[j] == wr[j]);
                }
            }
        }
    }
}

/// Closing a tab while another remains keeps the tab list sound, in both
/// designs.
pub proof fn law_close_keeps_tab_list_sound(v: SessionView, id: usize)
    requires
        tabs_sound(v),
        v.tabs.len() > 1,
    ensures
        tabs_sound(closed(v, id).0),
        tabs_sound(classic_closed(v, id).0),
{
    let w = without_id(v.tabs, id);
    lemma_without_distinct(v.tabs, id);
    lemma_without_len(v.tabs, id);
    lemma_without_id_subset(v.tabs, id);
    assert forall|k: int| 0 <= k < w.len() implies #[trigger] w[k].id < v.next_tab_id by {
        let j = choose|j: int| 0 <= j < v.tabs.len() && v.tabs[j] == w[k];
        assert(v.tabs[j].id < v.next_tab_id);
    }
    lemma_index_of_id_bounds(v.tabs, v.active_tab_id);
    let a = active_index(v)->0;
    let target = if v.active_tab_id == id { w[0].id } else { v.active_tab_id };
    if v.active_tab_id == id {
        lemma_distinct_first(w, 0);
    } else {
        lemma_without_keeps(v.tabs, id, a);
        let k = choose|k: int| 0 <= k < w.len() && w[k] == v.tabs[a];
        lemma_distinct_first(w, k);
    }
    assert(closed(v, id).0.tabs == w);
    assert(closed(v, id).0.active_tab_id == target);
    assert(closed(v, id).0.next_tab_id == v.next_tab_id);
    assert(classic_closed(v, id).0.tabs == w);
    assert(classic_closed(v, id).0.active_tab_id == target);
}

/// A session started over distinct tabs has a sound tab list.
pub proof fn law_fresh_session_is_sound(settings: SettingsView, tabs: Seq<TabView>)
    requires
        tabs.len() > 0,
        distinct_ids(tabs),
        max_id(tabs) < usize::MAX,
    ensures
        tabs_sound(fresh_session(settings, tabs)),
{
    lemma_max_id_bounds(tabs);
    lemma_distinct_first(tabs, 0);
}

/// The session after `k` new chats, one after another.
pub open spec fn after_new_chats(v: SessionView, k: nat) -> SessionView
    decreases k,
{
    if k == 0 {
        v
    } else {
        created(after_new_chats(v, (k - 1) as nat)).0
    }
}

/// New chats opened one after another take consecutive ids from the next
/// id: the `k` added tabs have ids `n`, `n + 1`, ..., `n + k - 1`, the old
/// tabs stay as they were and in order, the ids stay distinct and below the
/// next id, which is `n + k`, and after at least one new chat the last one
/// is active and the tab list is sound.
pub proof fn law_new_chats_take_consecutive_ids(v: SessionView, k: nat)
    requires
        distinct_ids(v.tabs),
        well_formed(v),
        v.next_tab_id + k <= usize::MAX,
    ensures
        ({
            let w = after_new_chats(v, k);
            &&& w.tabs.len() == v.tabs.len() + k
            &&& w.tabs.take(v.tabs.len() as int) == v.tabs
            &&& forall|j: int| 0 <= j < k ==> #[trigger] w.tabs[v.tabs.len() + j].id == v.next_tab_id + j
            &&& w.next_tab_id == v.next_tab_id + k
            &&& k > 0 ==> w.active_tab_id == v.next_tab_id + k - 1
            &&& distinct_ids(w.tabs)
            &&& well_formed(w)
            &&& k > 0 ==> tabs_sound(w)
        }),
    decreases k,
{
    if k > 0 {
        let k1 = (k - 1) as nat;
        law_new_chats_take_consecutive_ids(v, k1);
        let p = after_new_chats(v, k1);
        law_new_chat_keeps_tab_list_sound(p);
        let w = after_new_chats(v, k);
        assert(w == created(p).0);
        assert(w.tabs == p.tabs.push(new_tab(p)));
        assert(w.tabs.take(v.tabs.len() as int) =~= p.tabs.take(v.tabs.len() as int));
        assert forall|j: int| 0 <= j < k implies #[trigger] w.tabs[v.tabs.len() + j].id == v.next_tab_id + j by {
            if j < k1 {
                assert(w.tabs[v.tabs.len() + j] == p.tabs[v.tabs.len() + j]);
            }
        }
    }
}

} // verus!
