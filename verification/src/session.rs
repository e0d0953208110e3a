//! The state of the application and the rules that change it.  Each
//! operation returns the effects the application performs afterwards
//! (stopping a generation, unloading a model, showing a notice, starting a
//! generation), in order.

use vstd::prelude::*;

use crate::classic::{ClassicGeneration, ClassicGenerationView};
use crate::chat::{messages_view, tabs_view, ChatTab, Message, MessageView, TabView};
use crate::conversation::{
    add_exchange, append_chunk, edit_and_resend, edited, history_for_request, record_reply_stats,
    regenerate_from, regenerated, replace_reply_text, request_history, with_chunk, with_exchange,
    with_reply_stats, with_reply_text,
};
use crate::models::{
    contains_name, default_model_names, fallback_model, fallback_models, model_for_new_chat,
    names_view, running_view, RunningModel, RunningModelView,
};
use crate::request::{GenerationRequest, GenerationView};
use crate::settings::{AppSettings, SettingsView};
use crate::tabs::{
    find_tab, index_of_id, lemma_tabs_view_push, lemma_without_id_subset, max_id, max_tab_id,
    remove_tab, without_id,
};
use crate::text::{combine, decimal, decimal_string, is_blank, is_blank_text, trim, trimmed};

verus! {

/// Something that happened outside the session: a reply from the server,
/// a piece of a streamed generation, or the file the user picked.
pub enum AppEvent {
    ModelsFetched(Vec<String>),
    RunningModelsFetched(Vec<RunningModel>),
    FilePicked(Option<String>),
    StreamChunk { tab_id: usize, chunk: String },
    StreamFinished {
        tab_id: usize,
        prompt_tokens: Option<usize>,
        completion_tokens: Option<usize>,
        eval_duration_secs_bits: Option<u64>,
    },
    StreamError { tab_id: usize, error: String },
}

/// What an event holds, as values.
pub enum EventView {
    ModelsFetched(Seq<Seq<char>>),
    RunningModelsFetched(Seq<RunningModelView>),
    FilePicked(Option<Seq<char>>),
    StreamChunk { tab_id: usize, chunk: Seq<char> },
    StreamFinished {
        tab_id: usize,
        prompt_tokens: Option<usize>,
        completion_tokens: Option<usize>,
        eval_duration_secs_bits: Option<u64>,
    },
    StreamError { tab_id: usize, error: Seq<char> },
}

impl View for AppEvent {
    type V = EventView;

    open spec fn view(&self) -> EventView {
        match self {
            AppEvent::ModelsFetched(v) => EventView::ModelsFetched(names_view(v@)),
            AppEvent::RunningModelsFetched(v) => EventView::RunningModelsFetched(running_view(v@)),
            AppEvent::FilePicked(f) => EventView::FilePicked(
                match f {
                    Some(s) => Some(s@),
                    None => None,
                },
            ),
            AppEvent::StreamChunk { tab_id, chunk } => EventView::StreamChunk {
                tab_id: *tab_id,
                chunk: chunk@,
            },
            AppEvent::StreamFinished {
                tab_id,
                prompt_tokens,
                completion_tokens,
                eval_duration_secs_bits,
            } => EventView::StreamFinished {
                tab_id: *tab_id,
                prompt_tokens: *prompt_tokens,
                completion_tokens: *completion_tokens,
                eval_duration_secs_bits: *eval_duration_secs_bits,
            },
            AppEvent::StreamError { tab_id, error } => EventView::StreamError {
                tab_id: *tab_id,
                error: error@,
            },
        }
    }
}

/// Something the application does after an operation of the session.
pub enum Effect {
    /// Tell the running generation, if any, to stop.
    CancelGeneration,
    /// Ask the server to drop the model from memory, in the background.
    UnloadModel(String),
    /// Show a notice for the given number of seconds.
    Toast { text: String, secs: u64 },
    /// Start a streamed generation.
    Generate(GenerationRequest),
    /// Ask the server again which models it holds in memory.
    FetchRunningModels,
    /// Save the conversations now.
    SaveChats,
    /// Start a streamed generation of the first design.
    GenerateClassic(ClassicGeneration),
}

/// What an effect is, as values.
pub enum EffectView {
    CancelGeneration,
    UnloadModel(Seq<char>),
    Toast { text: Seq<char>, secs: u64 },
    Generate(GenerationView),
    FetchRunningModels,
    SaveChats,
    GenerateClassic(ClassicGenerationView),
}

impl View for Effect {
    type V = EffectView;

    open spec fn view(&self) -> EffectView {
        match self {
            Effect::CancelGeneration => EffectView::CancelGeneration,
            Effect::UnloadModel(m) => EffectView::UnloadModel(m@),
            Effect::Toast { text, secs } => EffectView::Toast { text: text@, secs: *secs },
            Effect::Generate(g) => EffectView::Generate(g@),
            Effect::FetchRunningModels => EffectView::FetchRunningModels,
            Effect::SaveChats => EffectView::SaveChats,
            Effect::GenerateClassic(g) => EffectView::GenerateClassic(g@),
        }
    }
}

/// The views of a list of effects.
pub open spec fn effects_view(v: Seq<Effect>) -> Seq<EffectView> {
    v.map_values(|e: Effect| e@)
}

/// Token counts of the session and the models the server holds in memory.
pub struct SessionStats {
    pub total_prompt_tokens: usize,
    pub total_completion_tokens: usize,
    pub running_models: Vec<RunningModel>,
}

/// The state of the application.
pub struct Session {
    pub settings: AppSettings,
    pub stats: SessionStats,
    pub tabs: Vec<ChatTab>,
    pub active_tab_id: usize,
    pub next_tab_id: usize,
    pub available_models: Vec<String>,
    pub input_text: String,
    pub selected_file: Option<String>,
    pub scroll_to_bottom: bool,
    pub editing_tab_id: Option<usize>,
    pub rename_input: String,
    /// The message being edited: the tab id, the position of the message and
    /// the text being written.
    pub editing_msg: Option<(usize, usize, String)>,
    pub is_generating: bool,
    pub is_dirty: bool,
}

/// What the state holds, as values.
pub struct SessionView {
    pub settings: SettingsView,
    pub total_prompt_tokens: usize,
    pub total_completion_tokens: usize,
    pub running_models: Seq<RunningModelView>,
    pub tabs: Seq<TabView>,
    pub active_tab_id: usize,
    pub next_tab_id: usize,
    pub available_models: Seq<Seq<char>>,
    pub input_text: Seq<char>,
    pub selected_file: Option<Seq<char>>,
    pub scroll_to_bottom: bool,
    pub editing_tab_id: Option<usize>,
    pub rename_input: Seq<char>,
    pub editing_msg: Option<(usize, usize, Seq<char>)>,
    pub is_generating: bool,
    pub is_dirty: bool,
}

/// The view of an optional string.
pub open spec fn opt_view(s: Option<String>) -> Option<Seq<char>> {
    match s {
        Some(x) => Some(x@),
        None => None,
    }
}

impl View for Session {
    type V = SessionView;

    open spec fn view(&self) -> SessionView {
        SessionView {
            settings: self.settings@,
            total_prompt_tokens: self.stats.total_prompt_tokens,
            total_completion_tokens: self.stats.total_completion_tokens,
            running_models: running_view(self.stats.running_models@),
            tabs: tabs_view(self.tabs@),
            active_tab_id: self.active_tab_id,
            next_tab_id: self.next_tab_id,
            available_models: names_view(self.available_models@),
            input_text: self.input_text@,
            selected_file: opt_view(self.selected_file),
            scroll_to_bottom: self.scroll_to_bottom,
            editing_tab_id: self.editing_tab_id,
            rename_input: self.rename_input@,
            editing_msg: match self.editing_msg {
                Some((t, i, s)) => Some((t, i, s@)),
                None => None,
            },
            is_generating: self.is_generating,
            is_dirty: self.is_dirty,
        }
    }
}

// ---------------------------------------------------------------------------
// Specification of the operations
// ---------------------------------------------------------------------------

/// The session that starts over `tabs`: the first tab is active, new tabs
/// get ids above every id in `tabs`, nothing was counted or loaded yet, and
/// the fallback models are offered until the server answers.
pub open spec fn fresh_session(settings: SettingsView, tabs: Seq<TabView>) -> SessionView {
    SessionView {
        settings,
        total_prompt_tokens: 0,
        total_completion_tokens: 0,
        running_models: Seq::empty(),
        tabs,
        active_tab_id: if tabs.len() > 0 {
            tabs[0].id
        } else {
            0
        },
        next_tab_id: (max_id(tabs) + 1) as usize,
        available_models: fallback_models(),
        input_text: Seq::empty(),
        selected_file: None,
        scroll_to_bottom: false,
        editing_tab_id: None,
        rename_input: Seq::empty(),
        editing_msg: None,
        is_generating: false,
        is_dirty: false,
    }
}

/// Every tab id is below the id the next tab gets: a new tab never takes the
/// id of an existing one.
pub open spec fn well_formed(v: SessionView) -> bool {
    forall|i: int| 0 <= i < v.tabs.len() ==> #[trigger] v.tabs[i].id < v.next_tab_id
}

/// The position of the active tab.
pub open spec fn active_index(v: SessionView) -> Option<int> {
    index_of_id(v.tabs, v.active_tab_id)
}

/// Unloading the model of the active tab, if there is one.
pub open spec fn unload_active(v: SessionView) -> Seq<EffectView> {
    match active_index(v) {
        Some(i) => seq![EffectView::UnloadModel(v.tabs[i].selected_model)],
        None => Seq::empty(),
    }
}

/// Stopping the generation: the running one is told to stop, the model of
/// the active tab is unloaded, and no generation is running any more.
pub open spec fn stopped(v: SessionView) -> (SessionView, Seq<EffectView>) {
    (SessionView { is_generating: false, ..v }, seq![EffectView::CancelGeneration] + unload_active(v))
}

/// Stopping the generation if one is running.
pub open spec fn stopped_if_generating(v: SessionView) -> (SessionView, Seq<EffectView>) {
    if v.is_generating {
        stopped(v)
    } else {
        (v, Seq::empty())
    }
}

/// Switching to the tab with id `target`: nothing happens if it is already
/// active; otherwise a running generation is stopped, the model of the tab
/// left is unloaded, and the conversation is scrolled to its end.
pub open spec fn switched(v: SessionView, target: usize) -> (SessionView, Seq<EffectView>) {
    if v.active_tab_id == target {
        (v, Seq::empty())
    } else {
        let s = stopped_if_generating(v);
        (
            SessionView { active_tab_id: target, scroll_to_bottom: true, ..s.0 },
            s.1 + unload_active(s.0),
        )
    }
}

/// `v` with the messages of the tab at position `i` replaced by `ms`.
pub open spec fn with_tab_messages(v: SessionView, i: int, ms: Seq<MessageView>) -> SessionView {
    SessionView { tabs: v.tabs.update(i, TabView { messages: ms, ..v.tabs[i] }), ..v }
}

/// The generation for the tab at position `i`, with `file` attached.
pub open spec fn generation_for(v: SessionView, i: int, file: Option<Seq<char>>) -> GenerationView {
    GenerationView {
        tab_id: v.tabs[i].id,
        base_url: v.settings.ollama_url,
        model: v.tabs[i].selected_model,
        system_prompt: v.tabs[i].system_prompt,
        temperature_bits: v.tabs[i].temperature_bits,
        top_p_bits: v.tabs[i].top_p_bits,
        history: request_history(v.tabs[i].messages),
        attached_file: file,
    }
}

/// Starting a generation for the tab at position `i`.
pub open spec fn started(v: SessionView, i: int, file: Option<Seq<char>>) -> (SessionView, EffectView) {
    (
        SessionView { is_generating: true, scroll_to_bottom: true, is_dirty: true, ..v },
        EffectView::Generate(generation_for(v, i, file)),
    )
}

/// The tab a new chat starts with.
pub open spec fn new_tab(v: SessionView) -> TabView {
    TabView {
        id: v.next_tab_id,
        title: "Chat "@ + decimal((v.next_tab_id + 1) as nat),
        messages: Seq::empty(),
        selected_model: model_for_new_chat(v.available_models),
        system_prompt: v.settings.default_system_prompt,
        temperature_bits: v.settings.default_temperature_bits,
        top_p_bits: v.settings.default_top_p_bits,
    }
}

/// Opening a new chat: a tab with the next id, titled after it, on the first
/// offered model and with the default instructions and parameters, is added
/// and made active, and a notice is shown.
pub open spec fn created(v: SessionView) -> (SessionView, Seq<EffectView>) {
    let v1 = SessionView {
        tabs: v.tabs.push(new_tab(v)),
        next_tab_id: (v.next_tab_id + 1) as usize,
        ..v
    };
    let s = switched(v1, v.next_tab_id);
    (
        SessionView { is_dirty: true, ..s.0 },
        s.1.push(EffectView::Toast { text: "Created new chat"@, secs: 2 }),
    )
}

/// Closing the tabs with id `id`: if the active tab is closed, the first
/// remaining tab becomes active.
pub open spec fn closed(v: SessionView, id: usize) -> (SessionView, Seq<EffectView>) {
    let v1 = SessionView { tabs: without_id(v.tabs, id), ..v };
    let s = if v.active_tab_id == id && v1.tabs.len() > 0 {
        switched(v1, v1.tabs[0].id)
    } else {
        (v1, Seq::empty())
    };
    (SessionView { is_dirty: true, ..s.0 }, s.1)
}

/// Starting to rename the tab with id `id`, from `title`.
pub open spec fn rename_started(v: SessionView, id: usize, title: Seq<char>) -> SessionView {
    SessionView { editing_tab_id: Some(id), rename_input: title, ..v }
}

/// Saving the rename of the tab with id `id`: the first such tab takes the
/// typed title unless it is blank, and renaming ends.
pub open spec fn renamed(v: SessionView, id: usize) -> SessionView {
    let tabs = match index_of_id(v.tabs, id) {
        Some(i) => if is_blank_text(v.rename_input) {
            v.tabs
        } else {
            v.tabs.update(i, TabView { title: v.rename_input, ..v.tabs[i] })
        },
        None => v.tabs,
    };
    SessionView { tabs, editing_tab_id: None, rename_input: Seq::empty(), is_dirty: true, ..v }
}

/// Choosing `model` for the active tab: if it differs from the current one,
/// it is taken and the model left is unloaded.
pub open spec fn model_selected(v: SessionView, model: Seq<char>) -> (SessionView, Seq<EffectView>) {
    match active_index(v) {
        Some(i) => if v.tabs[i].selected_model == model {
            (v, Seq::empty())
        } else {
            (
                SessionView {
                    tabs: v.tabs.update(i, TabView { selected_model: model, ..v.tabs[i] }),
                    is_dirty: true,
                    ..v
                },
                seq![EffectView::UnloadModel(v.tabs[i].selected_model)],
            )
        },
        None => (v, Seq::empty()),
    }
}

/// Clearing the active conversation, after stopping a running generation.
pub open spec fn cleared(v: SessionView) -> (SessionView, Seq<EffectView>) {
    let s = stopped_if_generating(v);
    match active_index(s.0) {
        Some(i) => (SessionView { is_dirty: true, ..with_tab_messages(s.0, i, Seq::empty()) }, s.1),
        None => s,
    }
}

/// Saving the edit of the user message at `idx` of the active tab and asking
/// again: a running generation is stopped, editing ends, the conversation is
/// cut after the edited message and a new generation starts.
pub open spec fn edit_saved(v: SessionView, idx: int, text: Seq<char>) -> (SessionView, Seq<EffectView>) {
    let s = stopped_if_generating(v);
    let v1 = SessionView { editing_msg: None, ..s.0 };
    let i = active_index(v)->0;
    let v2 = with_tab_messages(v1, i, edited(v1.tabs[i].messages, idx, text));
    let g = started(v2, i, None);
    (g.0, s.1.push(g.1))
}

/// Asking again for the reply at `idx` of the active tab.
pub open spec fn regenerate_asked(v: SessionView, idx: int) -> (SessionView, Seq<EffectView>) {
    let s = stopped_if_generating(v);
    let i = active_index(v)->0;
    let v2 = with_tab_messages(s.0, i, regenerated(s.0.tabs[i].messages, idx));
    let g = started(v2, i, None);
    (g.0, s.1.push(g.1))
}

/// Sending the typed text: unless a generation runs or the text is blank,
/// the trimmed text and an awaited reply are added to the active
/// conversation, the input and the picked file are cleared, and a
/// generation starts with that file attached.
pub open spec fn sent(v: SessionView) -> (SessionView, Seq<EffectView>) {
    if v.is_generating || is_blank_text(v.input_text) {
        (v, Seq::empty())
    } else {
        let i = active_index(v)->0;
        let v1 = SessionView {
            input_text: Seq::empty(),
            selected_file: None,
            ..with_tab_messages(v, i, with_exchange(v.tabs[i].messages, trimmed(v.input_text)))
        };
        let g = started(v1, i, v.selected_file);
        (g.0, seq![g.1])
    }
}

/// `v` with the messages of the first tab with id `id`, if any, changed to
/// `ms`.
pub open spec fn with_messages_of(v: SessionView, id: usize, ms: spec_fn(Seq<MessageView>) -> Seq<MessageView>) -> SessionView {
    match index_of_id(v.tabs, id) {
        Some(i) => with_tab_messages(v, i, ms(v.tabs[i].messages)),
        None => v,
    }
}

/// The prefix of the text that replaces a reply whose generation failed.
pub open spec fn failure_prefix() -> Seq<char> {
    seq!['\u{26a0}', '\u{fe0f}', ' ', 'E', 'r', 'r', 'o', 'r', ':', ' ']
}

/// The text that starts a reply whose generation failed.
fn failure_prefix_string() -> (r: String)
    ensures
        r@ == failure_prefix(),
{
    proof {
        reveal_strlit("\u{26a0}\u{fe0f} Error: ");
    }
    let r = String::from_str("\u{26a0}\u{fe0f} Error: ");
    assert(r@ =~= failure_prefix());
    r
}

/// The state after an event.
pub open spec fn after_event(v: SessionView, e: EventView) -> (SessionView, Seq<EffectView>) {
    match e {
        EventView::ModelsFetched(models) => if models.len() == 0 {
            (v, Seq::empty())
        } else {
            let tabs = match active_index(v) {
                Some(i) => if models.contains(v.tabs[i].selected_model) {
                    v.tabs
                } else {
                    v.tabs.update(i, TabView { selected_model: models[0], ..v.tabs[i] })
                },
                None => v.tabs,
            };
            (SessionView { tabs, available_models: models, ..v }, Seq::empty())
        },
        EventView::RunningModelsFetched(ms) => (SessionView { running_models: ms, ..v }, Seq::empty()),
        EventView::FilePicked(f) => (SessionView { selected_file: f, ..v }, Seq::empty()),
        EventView::StreamChunk { tab_id, chunk } => (
            with_messages_of(v, tab_id, |ms: Seq<MessageView>| with_chunk(ms, chunk)),
            Seq::empty(),
        ),
        EventView::StreamFinished {
            tab_id,
            prompt_tokens,
            completion_tokens,
            eval_duration_secs_bits,
        } => {
            let v1 = with_messages_of(
                v,
                tab_id,
                |ms: Seq<MessageView>|
                    with_reply_stats(ms, prompt_tokens, completion_tokens, eval_duration_secs_bits),
            );
            (
                SessionView {
                    total_prompt_tokens: (v.total_prompt_tokens + match prompt_tokens {
                        Some(p) => p,
                        None => 0,
                    }) as usize,
                    total_completion_tokens: (v.total_completion_tokens + match completion_tokens {
                        Some(c) => c,
                        None => 0,
                    }) as usize,
                    is_generating: false,
                    is_dirty: true,
                    ..v1
                },
                Seq::empty(),
            )
        },
        EventView::StreamError { tab_id, error } => {
            let v1 = with_messages_of(
                v,
                tab_id,
                |ms: Seq<MessageView>| with_reply_text(ms, failure_prefix() + error),
            );
            (
                SessionView { is_generating: false, is_dirty: true, ..v1 },
                seq![EffectView::Toast { text: "Error: "@ + error, secs: 5 }],
            )
        },
    }
}

/// The token counters can take the counts an event carries.
pub open spec fn event_fits(v: SessionView, e: EventView) -> bool {
    match e {
        EventView::StreamFinished { prompt_tokens, completion_tokens, .. } => {
            &&& prompt_tokens matches Some(p) ==> v.total_prompt_tokens + p <= usize::MAX
            &&& completion_tokens matches Some(c) ==> v.total_completion_tokens + c <= usize::MAX
        },
        _ => true,
    }
}

/// The session after the events `es`, taken in order, with the effects of
/// each in turn.
pub open spec fn after_events(v: SessionView, es: Seq<EventView>) -> (SessionView, Seq<EffectView>)
    decreases es.len(),
{
    if es.len() == 0 {
        (v, Seq::empty())
    } else {
        let p = after_events(v, es.drop_last());
        let q = after_event(p.0, es.last());
        (q.0, p.1 + q.1)
    }
}

/// Every event of `es` fits the counters of the state it meets.
pub open spec fn events_fit(v: SessionView, es: Seq<EventView>) -> bool
    decreases es.len(),
{
    if es.len() == 0 {
        true
    } else {
        events_fit(v, es.drop_last()) && event_fits(after_events(v, es.drop_last()).0, es.last())
    }
}

/// The views of a queue of events.
pub open spec fn events_view(es: Seq<AppEvent>) -> Seq<EventView> {
    es.map_values(|e: AppEvent| e@)
}

/// Unloading every model the server holds in memory, then asking again
/// which ones it holds, and showing a notice.
pub open spec fn unload_all(v: SessionView) -> Seq<EffectView> {
    v.running_models.map_values(|m: RunningModelView| EffectView::UnloadModel(m.name)).push(
        EffectView::FetchRunningModels,
    ).push(EffectView::Toast { text: "Unloaded all models from RAM/VRAM"@, secs: 3 })
}

/// Whether the conversations are saved now, after `elapsed_millis`
/// milliseconds since they were last saved: when something changed and two
/// seconds have passed.
pub open spec fn autosave_due(v: SessionView, elapsed_millis: u64) -> bool {
    v.is_dirty && elapsed_millis >= 2000
}

// ---------------------------------------------------------------------------
// Operations
// ---------------------------------------------------------------------------

/// A step that keeps the number of tabs, their ids and the next id keeps
/// the session well formed.
pub(crate) proof fn lemma_ids_kept(v: SessionView, w: SessionView)
    requires
        w.tabs.len() == v.tabs.len(),
        w.next_tab_id == v.next_tab_id,
        forall|k: int| 0 <= k < v.tabs.len() ==> #[trigger] w.tabs[k].id == v.tabs[k].id,
    ensures
        well_formed(v) ==> well_formed(w),
{
    if well_formed(v) {
        assert forall|k: int| 0 <= k < w.tabs.len() implies #[trigger] w.tabs[k].id < w.next_tab_id by {
            assert(w.tabs[k].id == v.tabs[k].id);
        }
    }
}

pub(crate) proof fn lemma_effects_push(v: Seq<Effect>, e: Effect)
    ensures
        effects_view(v.push(e)) == effects_view(v).push(e@),
{
    assert(effects_view(v.push(e)) =~= effects_view(v).push(e@));
}

proof fn lemma_effects_append(a: Seq<Effect>, b: Seq<Effect>)
    ensures
        effects_view(a + b) == effects_view(a) + effects_view(b),
{
    assert(effects_view(a + b) =~= effects_view(a) + effects_view(b));
}

/// Appends `b` to `a`.
pub(crate) fn append_effects(a: &mut Vec<Effect>, b: Vec<Effect>)
    ensures
        effects_view(final(a)@) == effects_view(old(a)@) + effects_view(b@),
{
    let mut b = b;
    let ghost a0 = a@;
    let ghost b0 = b@;
    a.append(&mut b);
    proof {
        lemma_effects_append(a0, b0);
    }
}

impl Session {
    /// A session over the restored tabs: the first tab is active, new tabs
    /// get ids above every restored id, and the fallback models are offered
    /// until the server answers.
    pub fn new(settings: AppSettings, tabs: Vec<ChatTab>) -> (r: Session)
        requires
            max_id(tabs_view(tabs@)) < usize::MAX,
        ensures
            r@ == fresh_session(settings@, tabs_view(tabs@)),
            well_formed(r@),
    {
        proof {
            crate::tabs::lemma_max_id_bounds(tabs_view(tabs@));
        }
        let active = if tabs.len() > 0 {
            tabs[0].id
        } else {
            0
        };
        let next = max_tab_id(&tabs) + 1;
        let running: Vec<RunningModel> = Vec::new();
        assert(running_view(running@) =~= Seq::empty());
        proof {
            if tabs@.len() > 0 {
                assert(tabs_view(tabs@)[0].id == tabs@[0].id);
            }
        }
        Session {
            settings,
            stats: SessionStats { total_prompt_tokens: 0, total_completion_tokens: 0, running_models: running },
            tabs,
            active_tab_id: active,
            next_tab_id: next,
            available_models: default_model_names(),
            input_text: String::new(),
            selected_file: None,
            scroll_to_bottom: false,
            editing_tab_id: None,
            rename_input: String::new(),
            editing_msg: None,
            is_generating: false,
            is_dirty: false,
        }
    }

    /// The position of the active tab.
    pub fn active_tab_index(&self) -> (r: Option<usize>)
        ensures
            match r {
                Some(i) => active_index(self@) == Some(i as int),
                None => active_index(self@) is None,
            },
    {
        find_tab(&self.tabs, self.active_tab_id)
    }

    /// Unloading the model of the active tab, if there is one.
    fn unload_active_effects(&self) -> (r: Vec<Effect>)
        ensures
            effects_view(r@) == unload_active(self@),
    {
        let mut r: Vec<Effect> = Vec::new();
        match self.active_tab_index() {
            Some(i) => {
                proof {
                    crate::tabs::lemma_index_of_id_bounds(self@.tabs, self.active_tab_id);
                }
                let e = Effect::UnloadModel(self.tabs[i].selected_model.clone());
                proof {
                    lemma_effects_push(r@, e);
                }
                r.push(e);
            },
            None => {},
        }
        assert(effects_view(r@) =~= unload_active(self@));
        r
    }

    /// Stops the running generation: it is told to stop and the model of
    /// the active tab is unloaded.
    pub fn stop_generation(&mut self) -> (r: Vec<Effect>)
        ensures
            (final(self)@, effects_view(r@)) == stopped(old(self)@),
    {
        let mut r: Vec<Effect> = Vec::new();
        let e = Effect::CancelGeneration;
        proof {
            lemma_effects_push(r@, e);
        }
        r.push(e);
        let u = self.unload_active_effects();
        append_effects(&mut r, u);
        self.is_generating = false;
        assert(effects_view(r@) =~= stopped(old(self)@).1);
        r
    }

    pub(crate) fn stop_if_generating(&mut self) -> (r: Vec<Effect>)
        ensures
            (final(self)@, effects_view(r@)) == stopped_if_generating(old(self)@),
    {
        if self.is_generating {
            self.stop_generation()
        } else {
            let r: Vec<Effect> = Vec::new();
            assert(effects_view(r@) =~= Seq::empty());
            r
        }
    }

    /// Makes the tab with id `target` the active one.
    pub fn switch_active_tab(&mut self, target: usize) -> (r: Vec<Effect>)
        ensures
            (final(self)@, effects_view(r@)) == switched(old(self)@, target),
    {
        if self.active_tab_id == target {
            let r: Vec<Effect> = Vec::new();
            assert(effects_view(r@) =~= Seq::empty());
            return r;
        }
        let mut r = self.stop_if_generating();
        let u = self.unload_active_effects();
        append_effects(&mut r, u);
        self.active_tab_id = target;
        self.scroll_to_bottom = true;
        r
    }

    /// Replaces the messages of the tab at position `i`.
    pub(crate) fn set_tab_messages(&mut self, i: usize, msgs: Vec<Message>)
        requires
            i < old(self).tabs@.len(),
        ensures
            final(self)@ == with_tab_messages(old(self)@, i as int, messages_view(msgs@)),
            final(self).tabs@.len() == old(self).tabs@.len(),
    {
        let mut t = self.tabs[i].clone();
        t.messages = msgs;
        let ghost tv = t@;
        self.tabs.set(i, t);
        assert(tabs_view(self.tabs@) =~= tabs_view(old(self).tabs@).update(i as int, tv));
        assert(self@ == with_tab_messages(old(self)@, i as int, messages_view(msgs@)));
    }

    /// Starts a generation for the tab at position `i`, with `file`
    /// attached.
    pub fn start_generation(&mut self, i: usize, file: Option<String>) -> (r: Effect)
        requires
            i < old(self).tabs@.len(),
        ensures
            (final(self)@, r@) == started(old(self)@, i as int, opt_view(file)),
    {
        let tab = &self.tabs[i];
        let req = GenerationRequest {
            tab_id: tab.id,
            base_url: self.settings.ollama_url.clone(),
            model: tab.selected_model.clone(),
            system_prompt: tab.system_prompt.clone(),
            temperature_bits: tab.temperature_bits,
            top_p_bits: tab.top_p_bits,
            history: history_for_request(&tab.messages),
            attached_file: file,
        };
        self.is_generating = true;
        self.scroll_to_bottom = true;
        self.is_dirty = true;
        Effect::Generate(req)
    }

    /// Opens a new chat and makes it active.
    pub fn create_new_chat(&mut self) -> (r: Vec<Effect>)
        requires
            old(self).next_tab_id < usize::MAX,
        ensures
            (final(self)@, effects_view(r@)) == created(old(self)@),
            well_formed(old(self)@) ==> well_formed(final(self)@),
    {
        let new_id = self.next_tab_id;
        self.next_tab_id = self.next_tab_id + 1;
        let model = fallback_model(&self.available_models);
        let number = decimal_string(new_id + 1);
        let title = combine("Chat ", number.as_str());
        let messages: Vec<Message> = Vec::new();
        let tab = ChatTab {
            id: new_id,
            title,
            messages,
            selected_model: model,
            system_prompt: self.settings.default_system_prompt.clone(),
            temperature_bits: self.settings.default_temperature_bits,
            top_p_bits: self.settings.default_top_p_bits,
        };
        proof {
            assert(messages_view(tab.messages@) =~= Seq::<MessageView>::empty());
            assert(tab@ == new_tab(old(self)@));
            lemma_tabs_view_push(self.tabs@, tab);
        }
        self.tabs.push(tab);
        let mut r = self.switch_active_tab(new_id);
        self.is_dirty = true;
        let e = Effect::Toast { text: String::from_str("Created new chat"), secs: 2 };
        proof {
            lemma_effects_push(r@, e);
        }
        r.push(e);
        r
    }

    /// Closes the tabs with id `id`.
    pub fn close_tab(&mut self, id: usize) -> (r: Vec<Effect>)
        ensures
            (final(self)@, effects_view(r@)) == closed(old(self)@, id),
            well_formed(old(self)@) ==> well_formed(final(self)@),
    {
        let tabs = self.tabs.clone();
        assert(tabs_view(tabs@) =~= tabs_view(self.tabs@));
        self.tabs = remove_tab(tabs, id);
        proof {
            lemma_without_id_subset(old(self)@.tabs, id);
        }
        let ghost v1 = self@;
        assert(v1 == SessionView { tabs: without_id(old(self)@.tabs, id), ..old(self)@ });
        let mut r: Vec<Effect> = Vec::new();
        assert(effects_view(r@) =~= Seq::empty());
        if self.active_tab_id == id && self.tabs.len() > 0 {
            let first = self.tabs[0].id;
            r = self.switch_active_tab(first);
        }
        self.is_dirty = true;
        proof {
            if well_formed(old(self)@) {
                assert forall|k: int| 0 <= k < self@.tabs.len() implies #[trigger] self@.tabs[k].id
                    < self@.next_tab_id by {
                    let j = choose|j: int|
                        0 <= j < old(self)@.tabs.len() && old(self)@.tabs[j] == without_id(
                            old(self)@.tabs,
                            id,
                        )[k];
                    assert(old(self)@.tabs[j].id < old(self)@.next_tab_id);
                }
            }
        }
        r
    }

    /// Starts renaming the tab with id `id`, from `title`.
    pub fn begin_rename(&mut self, id: usize, title: String)
        ensures
            final(self)@ == rename_started(old(self)@, id, title@),
    {
        self.editing_tab_id = Some(id);
        self.rename_input = title;
    }

    /// Saves the rename of the tab with id `id`.
    pub fn save_rename(&mut self, id: usize)
        ensures
            final(self)@ == renamed(old(self)@, id),
            well_formed(old(self)@) ==> well_formed(final(self)@),
    {
        match find_tab(&self.tabs, id) {
            Some(i) => {
                proof {
                    crate::tabs::lemma_index_of_id_bounds(self@.tabs, id);
                }
                if !is_blank(self.rename_input.as_str()) {
                    let mut t = self.tabs[i].clone();
                    t.title = self.rename_input.clone();
                    let ghost tv = t@;
                    self.tabs.set(i, t);
                    assert(tabs_view(self.tabs@) =~= tabs_view(old(self).tabs@).update(i as int, tv));
                }
            },
            None => {},
        }
        self.editing_tab_id = None;
        self.rename_input = String::new();
        self.is_dirty = true;
        proof {
            lemma_ids_kept(old(self)@, self@);
        }
    }

    /// Chooses `model` for the active tab.
    pub fn select_model(&mut self, model: String) -> (r: Vec<Effect>)
        ensures
            (final(self)@, effects_view(r@)) == model_selected(old(self)@, model@),
            well_formed(old(self)@) ==> well_formed(final(self)@),
    {
        let mut r: Vec<Effect> = Vec::new();
        assert(effects_view(r@) =~= Seq::empty());
        match self.active_tab_index() {
            Some(i) => {
                proof {
                    crate::tabs::lemma_index_of_id_bounds(self@.tabs, self.active_tab_id);
                }
                if self.tabs[i].selected_model != model {
                    let left = self.tabs[i].selected_model.clone();
                    let mut t = self.tabs[i].clone();
                    let ghost m = model@;
                    t.selected_model = model;
                    let ghost tv = t@;
                    self.tabs.set(i, t);
                    assert(tabs_view(self.tabs@) =~= tabs_view(old(self).tabs@).update(i as int, tv));
                    self.is_dirty = true;
                    let e = Effect::UnloadModel(left);
                    proof {
                        lemma_effects_push(r@, e);
                    }
                    r.push(e);
                    assert(effects_view(r@) =~= seq![EffectView::UnloadModel(old(self)@.tabs[i as int].selected_model)]);
                    proof {
                        lemma_ids_kept(old(self)@, self@);
                    }
                }
            },
            None => {},
        }
        r
    }

    /// Clears the active conversation.
    pub fn clear_conversation(&mut self) -> (r: Vec<Effect>)
        ensures
            (final(self)@, effects_view(r@)) == cleared(old(self)@),
            well_formed(old(self)@) ==> well_formed(final(self)@),
    {
        let r = self.stop_if_generating();
        match self.active_tab_index() {
            Some(i) => {
                proof {
                    crate::tabs::lemma_index_of_id_bounds(self@.tabs, self.active_tab_id);
                }
                let empty: Vec<Message> = Vec::new();
                assert(messages_view(empty@) =~= Seq::empty());
                self.set_tab_messages(i, empty);
                self.is_dirty = true;
            },
            None => {},
        }
        proof {
            lemma_ids_kept(old(self)@, self@);
        }
        r
    }

    /// Starts editing the message at `idx` of the active tab, from `text`.
    pub fn begin_edit(&mut self, idx: usize, text: String)
        ensures
            final(self)@ == (SessionView {
                editing_msg: Some((old(self)@.active_tab_id, idx, text@)),
                ..old(self)@
            }),
    {
        self.editing_msg = Some((self.active_tab_id, idx, text));
    }

    /// Stops editing a message.
    pub fn cancel_edit(&mut self)
        ensures
            final(self)@ == (SessionView { editing_msg: None, ..old(self)@ }),
    {
        self.editing_msg = None;
    }

    /// Saves the edit of the user message at `idx` of the active tab and
    /// asks the model again.
    pub fn save_edit(&mut self, idx: usize, text: String) -> (r: Vec<Effect>)
        requires
            active_index(old(self)@) is Some,
            idx < old(self)@.tabs[active_index(old(self)@)->0].messages.len(),
        ensures
            (final(self)@, effects_view(r@)) == edit_saved(old(self)@, idx as int, text@),
            well_formed(old(self)@) ==> well_formed(final(self)@),
    {
        proof {
            crate::tabs::lemma_index_of_id_bounds(self@.tabs, self.active_tab_id);
        }
        let mut r = self.stop_if_generating();
        self.editing_msg = None;
        let ghost t = text@;
        match self.active_tab_index() {
            Some(i) => {
                proof {
                    crate::tabs::lemma_index_of_id_bounds(self@.tabs, self.active_tab_id);
                }
                let mut msgs = self.tabs[i].messages.clone();
                assert(msgs@ =~= self.tabs[i as int].messages@);
                edit_and_resend(&mut msgs, idx, text);
                self.set_tab_messages(i, msgs);
                let g = self.start_generation(i, None);
                proof {
                    lemma_effects_push(r@, g);
                }
                r.push(g);
            },
            None => {},
        }
        proof {
            lemma_ids_kept(old(self)@, self@);
        }
        r
    }

    /// Asks the model again for the reply at `idx` of the active tab.
    pub fn regenerate(&mut self, idx: usize) -> (r: Vec<Effect>)
        requires
            active_index(old(self)@) is Some,
        ensures
            (final(self)@, effects_view(r@)) == regenerate_asked(old(self)@, idx as int),
            well_formed(old(self)@) ==> well_formed(final(self)@),
    {
        proof {
            crate::tabs::lemma_index_of_id_bounds(self@.tabs, self.active_tab_id);
        }
        let mut r = self.stop_if_generating();
        match self.active_tab_index() {
            Some(i) => {
                proof {
                    crate::tabs::lemma_index_of_id_bounds(self@.tabs, self.active_tab_id);
                }
                let mut msgs = self.tabs[i].messages.clone();
                assert(msgs@ =~= self.tabs[i as int].messages@);
                regenerate_from(&mut msgs, idx);
                self.set_tab_messages(i, msgs);
                let g = self.start_generation(i, None);
                proof {
                    lemma_effects_push(r@, g);
                }
                r.push(g);
            },
            None => {},
        }
        proof {
            lemma_ids_kept(old(self)@, self@);
        }
        r
    }

    /// Sends the typed text to the model of the active tab.
    pub fn send_input(&mut self) -> (r: Vec<Effect>)
        requires
            active_index(old(self)@) is Some,
        ensures
            (final(self)@, effects_view(r@)) == sent(old(self)@),
            well_formed(old(self)@) ==> well_formed(final(self)@),
    {
        proof {
            crate::tabs::lemma_index_of_id_bounds(self@.tabs, self.active_tab_id);
        }
        let mut r: Vec<Effect> = Vec::new();
        assert(effects_view(r@) =~= Seq::empty());
        if self.is_generating || is_blank(self.input_text.as_str()) {
            return r;
        }
        match self.active_tab_index() {
            Some(i) => {
                proof {
                    crate::tabs::lemma_index_of_id_bounds(self@.tabs, self.active_tab_id);
                }
                let text = trim(self.input_text.as_str());
                let file = self.selected_file.take();
                let mut msgs = self.tabs[i].messages.clone();
                assert(msgs@ =~= self.tabs[i as int].messages@);
                add_exchange(&mut msgs, text);
                self.set_tab_messages(i, msgs);
                self.input_text = String::new();
                let g = self.start_generation(i, file);
                proof {
                    lemma_effects_push(r@, g);
                }
                r.push(g);
                assert(effects_view(r@) =~= sent(old(self)@).1);
            },
            None => {},
        }
        proof {
            lemma_ids_kept(old(self)@, self@);
        }
        r
    }


    /// Records an event.
    pub fn apply_event(&mut self, event: AppEvent) -> (r: Vec<Effect>)
        requires
            event_fits(old(self)@, event@),
        ensures
            (final(self)@, effects_view(r@)) == after_event(old(self)@, event@),
            well_formed(old(self)@) ==> well_formed(final(self)@),
    {
        let ghost ev = event@;
        let mut r: Vec<Effect> = Vec::new();
        assert(effects_view(r@) =~= Seq::empty());
        match event {
            AppEvent::ModelsFetched(models) => {
                if models.len() > 0 {
                    match self.active_tab_index() {
                        Some(i) => {
                            proof {
                                crate::tabs::lemma_index_of_id_bounds(self@.tabs, self.active_tab_id);
                            }
                            if !contains_name(&models, &self.tabs[i].selected_model) {
                                let mut t = self.tabs[i].clone();
                                t.selected_model = models[0].clone();
                                let ghost tv = t@;
                                self.tabs.set(i, t);
                                assert(tabs_view(self.tabs@) =~= tabs_view(old(self).tabs@).update(
                                    i as int,
                                    tv,
                                ));
                            }
                        },
                        None => {},
                    }
                    self.available_models = models;
                }
            },
            AppEvent::RunningModelsFetched(models) => {
                self.stats.running_models = models;
            },
            AppEvent::FilePicked(file) => {
                self.selected_file = file;
            },
            AppEvent::StreamChunk { tab_id, chunk } => {
                match find_tab(&self.tabs, tab_id) {
                    Some(i) => {
                        proof {
                            crate::tabs::lemma_index_of_id_bounds(self@.tabs, tab_id);
                        }
                        let mut msgs = self.tabs[i].messages.clone();
                        assert(msgs@ =~= self.tabs[i as int].messages@);
                        append_chunk(&mut msgs, chunk.as_str());
                        self.set_tab_messages(i, msgs);
                    },
                    None => {},
                }
            },
            AppEvent::StreamFinished {
                tab_id,
                prompt_tokens,
                completion_tokens,
                eval_duration_secs_bits,
            } => {
                match find_tab(&self.tabs, tab_id) {
                    Some(i) => {
                        proof {
                            crate::tabs::lemma_index_of_id_bounds(self@.tabs, tab_id);
                        }
                        let mut msgs = self.tabs[i].messages.clone();
                        assert(msgs@ =~= self.tabs[i as int].messages@);
                        record_reply_stats(
                            &mut msgs,
                            prompt_tokens,
                            completion_tokens,
                            eval_duration_secs_bits,
                        );
                        self.set_tab_messages(i, msgs);
                    },
                    None => {},
                }
                match prompt_tokens {
                    Some(p) => {
                        self.stats.total_prompt_tokens = self.stats.total_prompt_tokens + p;
                    },
                    None => {},
                }
                match completion_tokens {
                    Some(c) => {
                        self.stats.total_completion_tokens = self.stats.total_completion_tokens + c;
                    },
                    None => {},
                }
                self.is_generating = false;
                self.is_dirty = true;
            },
            AppEvent::StreamError { tab_id, error } => {
                match find_tab(&self.tabs, tab_id) {
                    Some(i) => {
                        proof {
                            crate::tabs::lemma_index_of_id_bounds(self@.tabs, tab_id);
                        }
                        let mut msgs = self.tabs[i].messages.clone();
                        assert(msgs@ =~= self.tabs[i as int].messages@);
                        let prefix = failure_prefix_string();
                        let text = combine(prefix.as_str(), error.as_str());
                        replace_reply_text(&mut msgs, text);
                        self.set_tab_messages(i, msgs);
                    },
                    None => {},
                }
                self.is_generating = false;
                self.is_dirty = true;
                let e = Effect::Toast { text: combine("Error: ", error.as_str()), secs: 5 };
                proof {
                    lemma_effects_push(r@, e);
                }
                r.push(e);
            },
        }
        proof {
            lemma_ids_kept(old(self)@, self@);
        }
        r
    }

    /// Whether the counters can take the counts that `event` carries.
    pub fn event_fits_now(&self, event: &AppEvent) -> (r: bool)
        ensures
            r == event_fits(self@, event@),
    {
        match event {
            AppEvent::StreamFinished { prompt_tokens, completion_tokens, .. } => {
                let p_ok = match prompt_tokens {
                    Some(p) => *p <= usize::MAX - self.stats.total_prompt_tokens,
                    None => true,
                };
                let c_ok = match completion_tokens {
                    Some(c) => *c <= usize::MAX - self.stats.total_completion_tokens,
                    None => true,
                };
                p_ok && c_ok
            },
            _ => true,
        }
    }

    /// Records the queued events in the order they came.  It stops before
    /// the first event whose counts the counters cannot take and returns how
    /// many events it recorded, with the effects of those events in turn.
    pub fn apply_events(&mut self, queued: Vec<AppEvent>) -> (r: (Vec<Effect>, usize))
        ensures
            r.1 <= queued@.len(),
            (final(self)@, effects_view(r.0@)) == after_events(
                old(self)@,
                events_view(queued@).take(r.1 as int),
            ),
            events_fit(old(self)@, events_view(queued@).take(r.1 as int)),
            r.1 < queued@.len() ==> !event_fits(final(self)@, queued@[r.1 as int]@),
            well_formed(old(self)@) ==> well_formed(final(self)@),
    {
        let ghost es = events_view(queued@);
        let ghost v0 = self@;
        let total: usize = queued.len();
        let mut events = queued;
        let mut effects: Vec<Effect> = Vec::new();
        let mut n: usize = 0;
        assert(es.take(0) =~= Seq::<EventView>::empty());
        assert(effects_view(effects@) =~= Seq::empty());
        while events.len() > 0
            invariant
                n + events@.len() == es.len(),
                es.len() == total,
                es == events_view(queued@),
                v0 == old(self)@,
                events_view(events@) =~= es.skip(n as int),
                (self@, effects_view(effects@)) == after_events(v0, es.take(n as int)),
                events_fit(v0, es.take(n as int)),
                well_formed(v0) ==> well_formed(self@),
            decreases events@.len(),
        {
            let ghost rest = events@;
            let e = events.remove(0);
            assert(e@ == es[n as int]) by {
                assert(events_view(rest)[0] == rest[0]@);
            }
            assert(events_view(events@) =~= es.skip(n + 1)) by {
                assert forall|i: int| 0 <= i < events@.len() implies events_view(events@)[i] == es.skip(
                    n + 1,
                )[i] by {
                    assert(events@[i] == rest[i + 1]);
                    assert(events_view(rest)[i + 1] == rest[i + 1]@);
                    assert(es.skip(n as int)[i + 1] == es[n + 1 + i]);
                }
            }
            if !self.event_fits_now(&e) {
                assert(queued@[n as int]@ == es[n as int]);
                return (effects, n);
            }
            let r = self.apply_event(e);
            assert(es.take(n + 1).drop_last() =~= es.take(n as int));
            append_effects(&mut effects, r);
            n = n + 1;
        }
        assert(es.take(n as int) =~= es);
        (effects, n)
    }

    /// Unloads every model the server holds in memory.
    pub fn unload_all_models(&self) -> (r: Vec<Effect>)
        ensures
            effects_view(r@) == unload_all(self@),
    {
        let mut r: Vec<Effect> = Vec::new();
        let mut i: usize = 0;
        let ghost names = self@.running_models.map_values(
            |m: RunningModelView| EffectView::UnloadModel(m.name),
        );
        while i < self.stats.running_models.len()
            invariant
                i <= self.stats.running_models@.len(),
                names == self@.running_models.map_values(
                    |m: RunningModelView| EffectView::UnloadModel(m.name),
                ),
                effects_view(r@) =~= names.take(i as int),
            decreases self.stats.running_models@.len() - i,
        {
            let e = Effect::UnloadModel(self.stats.running_models[i].name.clone());
            proof {
                lemma_effects_push(r@, e);
                assert(names.take(i + 1) =~= names.take(i as int).push(names[i as int]));
            }
            r.push(e);
            i = i + 1;
        }
        assert(names.take(self.stats.running_models@.len() as int) =~= names);
        let e1 = Effect::FetchRunningModels;
        proof {
            lemma_effects_push(r@, e1);
        }
        r.push(e1);
        let e2 = Effect::Toast { text: String::from_str("Unloaded all models from RAM/VRAM"), secs: 3 };
        proof {
            lemma_effects_push(r@, e2);
        }
        r.push(e2);
        r
    }

    /// Whether to save the conversations now, `elapsed_millis` milliseconds
    /// after they were last saved; when they are saved, nothing is left to
    /// save.
    pub fn take_autosave(&mut self, elapsed_millis: u64) -> (r: bool)
        ensures
            r == autosave_due(old(self)@, elapsed_millis),
            final(self)@ == (if r {
                SessionView { is_dirty: false, ..old(self)@ }
            } else {
                old(self)@
            }),
    {
        if self.is_dirty && elapsed_millis >= 2000 {
            self.is_dirty = false;
            true
        } else {
            false
        }
    }

    /// What happens when the application closes: the model of the active
    /// tab is unloaded.
    pub fn exit_effects(&self) -> (r: Vec<Effect>)
        ensures
            effects_view(r@) == unload_active(self@),
    {
        self.unload_active_effects()
    }

}

} // verus!
