//! A frame of the window is a sequence of session steps: what the user did
//! and what the server and the workers reported, in either design.  Over any
//! such sequence the tab list stays sound, the next id never goes down, and
//! neither do the token counters.

use vstd::prelude::*;

use crate::classic::{
    classic_after_event, classic_cleared, classic_closed, classic_created, classic_edit_saved,
    classic_event_fits, classic_renamed, classic_sent, ClassicEventView,
};
use crate::request::AttachmentView;
use crate::session::{
    after_event, autosave_due, cleared, closed, created, edit_saved, event_fits, model_selected,
    regenerate_asked, rename_started, renamed, sent, stopped, switched, EventView, SessionView,
};
use crate::session_laws::law_token_counts_grow;
use crate::tab_laws::{
    law_close_keeps_tab_list_sound, law_new_chat_keeps_tab_list_sound,
    law_steps_keep_tab_list_sound, law_switch_keeps_tab_list_sound, tabs_sound,
};
use crate::tabs::index_of_id;

verus! {

/// One step of the session, in either design.
pub enum SessionStep {
    Stop,
    BeginRename { id: usize, title: Seq<char> },
    SaveRename { id: usize },
    SelectModel { model: Seq<char> },
    Clear,
    BeginEdit { position: usize, text: Seq<char> },
    CancelEdit,
    SaveEdit { idx: int, text: Seq<char> },
    Regenerate { idx: int },
    Send,
    Event(EventView),
    Switch { target: usize },
    NewChat,
    Close { id: usize },
    Autosave { elapsed_millis: u64 },
    ClassicSelect { id: usize },
    ClassicNewChat,
    ClassicClose { id: usize },
    ClassicSaveRename { id: usize },
    ClassicClear,
    ClassicSaveEdit { idx: int, text: Seq<char> },
    ClassicSend { attachment: Option<AttachmentView> },
    ClassicEvent(ClassicEventView),
}

/// The session after one step.
pub open spec fn after_step(v: SessionView, s: SessionStep) -> SessionView {
    match s {
        SessionStep::Stop => stopped(v).0,
        SessionStep::BeginRename { id, title } => rename_started(v, id, title),
        SessionStep::SaveRename { id } => renamed(v, id),
        SessionStep::SelectModel { model } => model_selected(v, model).0,
        SessionStep::Clear => cleared(v).0,
        SessionStep::BeginEdit { position, text } => SessionView {
            editing_msg: Some((v.active_tab_id, position, text)),
            ..v
        },
        SessionStep::CancelEdit => SessionView { editing_msg: None, ..v },
        SessionStep::SaveEdit { idx, text } => edit_saved(v, idx, text).0,
        SessionStep::Regenerate { idx } => regenerate_asked(v, idx).0,
        SessionStep::Send => sent(v).0,
        SessionStep::Event(e) => after_event(v, e).0,
        SessionStep::Switch { target } => switched(v, target).0,
        SessionStep::NewChat => created(v).0,
        SessionStep::Close { id } => closed(v, id).0,
        SessionStep::Autosave { elapsed_millis } => if autosave_due(v, elapsed_millis) {
            SessionView { is_dirty: false, ..v }
        } else {
            v
        },
        SessionStep::ClassicSelect { id } => SessionView { active_tab_id: id, ..v },
        SessionStep::ClassicNewChat => classic_created(v).0,
        SessionStep::ClassicClose { id } => classic_closed(v, id).0,
        SessionStep::ClassicSaveRename { id } => classic_renamed(v, id).0,
        SessionStep::ClassicClear => classic_cleared(v).0,
        SessionStep::ClassicSaveEdit { idx, text } => classic_edit_saved(v, idx, text).0,
        SessionStep::ClassicSend { attachment } => classic_sent(v, attachment).0,
        SessionStep::ClassicEvent(e) => classic_after_event(v, e).0,
    }
}

/// Whether the window can take a step: a tab is switched to only if it
/// exists, a new chat is opened only while ids remain, a tab is closed only
/// while another remains (the window offers no close button otherwise), and
/// an event's counts fit the counters.
pub open spec fn step_allowed(v: SessionView, s: SessionStep) -> bool {
    match s {
        SessionStep::Switch { target } => index_of_id(v.tabs, target) is Some,
        SessionStep::ClassicSelect { id } => index_of_id(v.tabs, id) is Some,
        SessionStep::NewChat => v.next_tab_id < usize::MAX,
        SessionStep::ClassicNewChat => v.next_tab_id < usize::MAX,
        SessionStep::Close { .. } => v.tabs.len() > 1,
        SessionStep::ClassicClose { .. } => v.tabs.len() > 1,
        SessionStep::Event(e) => event_fits(v, e),
        SessionStep::ClassicEvent(e) => classic_event_fits(v, e),
        _ => true,
    }
}

/// The session after the steps `ss`, in order.
pub open spec fn after_steps(v: SessionView, ss: Seq<SessionStep>) -> SessionView
    decreases ss.len(),
{
    if ss.len() == 0 {
        v
    } else {
        after_step(after_steps(v, ss.drop_last()), ss.last())
    }
}

/// Whether every step of `ss` is allowed in the state it meets.
pub open spec fn steps_allowed(v: SessionView, ss: Seq<SessionStep>) -> bool
    decreases ss.len(),
{
    if ss.len() == 0 {
        true
    } else {
        steps_allowed(v, ss.drop_last()) && step_allowed(after_steps(v, ss.drop_last()), ss.last())
    }
}

/// `w` keeps what `v` promised: a sound tab list, and neither the next id
/// nor the token counters lower.
pub open spec fn keeps_soundness(v: SessionView, w: SessionView) -> bool {
    &&& tabs_sound(w)
    &&& w.next_tab_id >= v.next_tab_id
    &&& w.total_prompt_tokens >= v.total_prompt_tokens
    &&& w.total_completion_tokens >= v.total_completion_tokens
}

proof fn lemma_stop_keeps(v: SessionView)
    requires
        tabs_sound(v),
    ensures
        keeps_soundness(v, stopped(v).0),
{
    law_steps_keep_tab_list_sound(v, 0, Seq::empty(), Seq::empty(), 0, Seq::empty(), EventView::FilePicked(None), ClassicEventView::StreamFinished { tab_id: 0 }, None);
}

proof fn lemma_rename_started_keeps(v: SessionView, id: usize, title: Seq<char>)
    requires
        tabs_sound(v),
    ensures
        keeps_soundness(v, rename_started(v, id, title)),
{
    law_steps_keep_tab_list_sound(v, id, title, Seq::empty(), 0, Seq::empty(), EventView::FilePicked(None), ClassicEventView::StreamFinished { tab_id: 0 }, None);
}

proof fn lemma_renamed_keeps(v: SessionView, id: usize)
    requires
        tabs_sound(v),
    ensures
        keeps_soundness(v, renamed(v, id)),
{
    law_steps_keep_tab_list_sound(v, id, Seq::empty(), Seq::empty(), 0, Seq::empty(), EventView::FilePicked(None), ClassicEventView::StreamFinished { tab_id: 0 }, None);
}

proof fn lemma_classic_renamed_keeps(v: SessionView, id: usize)
    requires
        tabs_sound(v),
    ensures
        keeps_soundness(v, classic_renamed(v, id).0),
{
    law_steps_keep_tab_list_sound(v, id, Seq::empty(), Seq::empty(), 0, Seq::empty(), EventView::FilePicked(None), ClassicEventView::StreamFinished { tab_id: 0 }, None);
}

proof fn lemma_model_selected_keeps(v: SessionView, model: Seq<char>)
    requires
        tabs_sound(v),
    ensures
        keeps_soundness(v, model_selected(v, model).0),
{
    law_steps_keep_tab_list_sound(v, 0, Seq::empty(), model, 0, Seq::empty(), EventView::FilePicked(None), ClassicEventView::StreamFinished { tab_id: 0 }, None);
}

proof fn lemma_cleared_keeps(v: SessionView)
    requires
        tabs_sound(v),
    ensures
        keeps_soundness(v, cleared(v).0),
{
    law_steps_keep_tab_list_sound(v, 0, Seq::empty(), Seq::empty(), 0, Seq::empty(), EventView::FilePicked(None), ClassicEventView::StreamFinished { tab_id: 0 }, None);
}

proof fn lemma_classic_cleared_keeps(v: SessionView)
    requires
        tabs_sound(v),
    ensures
        keeps_soundness(v, classic_cleared(v).0),
{
    law_steps_keep_tab_list_sound(v, 0, Seq::empty(), Seq::empty(), 0, Seq::empty(), EventView::FilePicked(None), ClassicEventView::StreamFinished { tab_id: 0 }, None);
}

proof fn lemma_edit_saved_keeps(v: SessionView, idx: int, text: Seq<char>)
    requires
        tabs_sound(v),
    ensures
        keeps_soundness(v, edit_saved(v, idx, text).0),
{
    law_steps_keep_tab_list_sound(v, 0, Seq::empty(), Seq::empty(), idx, text, EventView::FilePicked(None), ClassicEventView::StreamFinished { tab_id: 0 }, None);
}

proof fn lemma_classic_edit_saved_keeps(v: SessionView, idx: int, text: Seq<char>)
    requires
        tabs_sound(v),
    ensures
        keeps_soundness(v, classic_edit_saved(v, idx, text).0),
{
    law_steps_keep_tab_list_sound(v, 0, Seq::empty(), Seq::empty(), idx, text, EventView::FilePicked(None), ClassicEventView::StreamFinished { tab_id: 0 }, None);
}

proof fn lemma_regenerate_keeps(v: SessionView, idx: int)
    requires
        tabs_sound(v),
    ensures
        keeps_soundness(v, regenerate_asked(v, idx).0),
{
    law_steps_keep_tab_list_sound(v, 0, Seq::empty(), Seq::empty(), idx, Seq::empty(), EventView::FilePicked(None), ClassicEventView::StreamFinished { tab_id: 0 }, None);
}

proof fn lemma_sent_keeps(v: SessionView)
    requires
        tabs_sound(v),
    ensures
        keeps_soundness(v, sent(v).0),
{
    law_steps_keep_tab_list_sound(v, 0, Seq::empty(), Seq::empty(), 0, Seq::empty(), EventView::FilePicked(None), ClassicEventView::StreamFinished { tab_id: 0 }, None);
}

proof fn lemma_classic_sent_keeps(v: SessionView, attachment: Option<AttachmentView>)
    requires
        tabs_sound(v),
    ensures
        keeps_soundness(v, classic_sent(v, attachment).0),
{
    law_steps_keep_tab_list_sound(v, 0, Seq::empty(), Seq::empty(), 0, Seq::empty(), EventView::FilePicked(None), ClassicEventView::StreamFinished { tab_id: 0 }, attachment);
}

proof fn lemma_event_keeps(v: SessionView, e: EventView)
    requires
        tabs_sound(v),
        event_fits(v, e),
    ensures
        keeps_soundness(v, after_event(v, e).0),
{
    law_steps_keep_tab_list_sound(v, 0, Seq::empty(), Seq::empty(), 0, Seq::empty(), e, ClassicEventView::StreamFinished { tab_id: 0 }, None);
    law_token_counts_grow(v, e);
}

proof fn lemma_classic_event_keeps(v: SessionView, e: ClassicEventView)
    requires
        tabs_sound(v),
        classic_event_fits(v, e),
    ensures
        keeps_soundness(v, classic_after_event(v, e).0),
{
    law_steps_keep_tab_list_sound(v, 0, Seq::empty(), Seq::empty(), 0, Seq::empty(), EventView::FilePicked(None), e, None);
}

proof fn lemma_switch_keeps(v: SessionView, target: usize)
    requires
        tabs_sound(v),
        index_of_id(v.tabs, target) is Some,
    ensures
        keeps_soundness(v, switched(v, target).0),
{
    law_switch_keeps_tab_list_sound(v, target);
}

proof fn lemma_select_keeps(v: SessionView, target: usize)
    requires
        tabs_sound(v),
        index_of_id(v.tabs, target) is Some,
    ensures
        keeps_soundness(v, SessionView { active_tab_id: target, ..v }),
{
    law_switch_keeps_tab_list_sound(v, target);
}

proof fn lemma_created_keeps(v: SessionView)
    requires
        tabs_sound(v),
        v.next_tab_id < usize::MAX,
    ensures
        keeps_soundness(v, created(v).0),
{
    law_new_chat_keeps_tab_list_sound(v);
}

proof fn lemma_classic_created_keeps(v: SessionView)
    requires
        tabs_sound(v),
        v.next_tab_id < usize::MAX,
    ensures
        keeps_soundness(v, classic_created(v).0),
{
    law_new_chat_keeps_tab_list_sound(v);
}

proof fn lemma_closed_keeps(v: SessionView, id: usize)
    requires
        tabs_sound(v),
        v.tabs.len() > 1,
    ensures
        keeps_soundness(v, closed(v, id).0),
{
    law_close_keeps_tab_list_sound(v, id);
}

proof fn lemma_classic_closed_keeps(v: SessionView, id: usize)
    requires
        tabs_sound(v),
        v.tabs.len() > 1,
    ensures
        keeps_soundness(v, classic_closed(v, id).0),
{
    law_close_keeps_tab_list_sound(v, id);
}

/// One allowed step keeps the tab list sound and lowers neither the next id
/// nor the token counters.
proof fn lemma_step_keeps(v: SessionView, s: SessionStep)
    requires
        tabs_sound(v),
        step_allowed(v, s),
    ensures
        keeps_soundness(v, after_step(v, s)),
{
    match s {
        SessionStep::Stop => lemma_stop_keeps(v),
        SessionStep::BeginRename { id, title } => lemma_rename_started_keeps(v, id, title),
        SessionStep::SaveRename { id } => lemma_renamed_keeps(v, id),
        SessionStep::SelectModel { model } => lemma_model_selected_keeps(v, model),
        SessionStep::Clear => lemma_cleared_keeps(v),
        SessionStep::BeginEdit { .. } => {},
        SessionStep::CancelEdit => {},
        SessionStep::SaveEdit { idx, text } => lemma_edit_saved_keeps(v, idx, text),
        SessionStep::Regenerate { idx } => lemma_regenerate_keeps(v, idx),
        SessionStep::Send => lemma_sent_keeps(v),
        SessionStep::Event(e) => lemma_event_keeps(v, e),
        SessionStep::Switch { target } => lemma_switch_keeps(v, target),
        SessionStep::NewChat => lemma_created_keeps(v),
        SessionStep::Close { id } => lemma_closed_keeps(v, id),
        SessionStep::Autosave { .. } => {},
        SessionStep::ClassicSelect { id } => lemma_select_keeps(v, id),
        SessionStep::ClassicNewChat => lemma_classic_created_keeps(v),
        SessionStep::ClassicClose { id } => lemma_classic_closed_keeps(v, id),
        SessionStep::ClassicSaveRename { id } => lemma_classic_renamed_keeps(v, id),
        SessionStep::ClassicClear => lemma_classic_cleared_keeps(v),
        SessionStep::ClassicSaveEdit { idx, text } => lemma_classic_edit_saved_keeps(v, idx, text),
        SessionStep::ClassicSend { attachment } => lemma_classic_sent_keeps(v, attachment),
        SessionStep::ClassicEvent(e) => lemma_classic_event_keeps(v, e),
    }
}

/// Over any sequence of allowed steps, from a sound tab list, the tab list
/// stays sound (never empty, distinct ids below the next id, an active id
/// that names a tab), and neither the next id nor the token counters go
/// down.
pub proof fn law_steps_keep_session_sound(v: SessionView, ss: Seq<SessionStep>)
    requires
        tabs_sound(v),
        steps_allowed(v, ss),
    ensures
        keeps_soundness(v, after_steps(v, ss)),
    decreases ss.len(),
{
    if ss.len() > 0 {
        law_steps_keep_session_sound(v, ss.drop_last());
        lemma_step_keeps(after_steps(v, ss.drop_last()), ss.last());
    }
}

} // verus!
