//! The rules of the first design of the client: conversations are saved at
//! once after each change, a new chat opens with a greeting, an attached
//! file is read when the message is sent, the token counters follow every
//! streamed piece, and requests carry neither instructions nor sampling
//! parameters.

use vstd::prelude::*;

use crate::chat::{
    assistant_role, messages_view, plain_message, tabs_view, ChatTab, Message, MessageView,
    TabView,
};
use crate::conversation::{
    add_exchange, append_chunk, edit_and_resend, edited, history_for_request, replace_reply_text,
    request_history, with_chunk, with_exchange, with_reply_text,
};
use crate::models::{fallback_model, model_for_new_chat, names_view, vision_model, vision_model_string, RunningModel, RunningModelView, running_view};
use crate::request::{
    as_sent, base64_standard, chat_messages_view, encode_image, find_last_user,
    lemma_chat_view_push, on_last_user,
    with_file_prefix, AttachmentData, AttachmentView, ChatMessage, ChatMessageView,
};
use crate::session::{
    active_index, after_event, append_effects, effects_view, lemma_effects_push, lemma_ids_kept,
    stopped_if_generating, well_formed, with_messages_of, with_tab_messages, Effect,
    EffectView, EventView, Session, SessionView,
};
use crate::settings::{default_temp, default_top_p, DEFAULT_TEMPERATURE_BITS, DEFAULT_TOP_P_BITS};
use crate::stream::{chunk_text, StreamInput};
use crate::tabs::{find_tab, index_of_id, lemma_tabs_view_push, lemma_without_id_subset, remove_tab, without_id};
use crate::text::{combine, decimal, decimal_string, is_blank, is_blank_text, trim, trimmed};

verus! {

// ---------------------------------------------------------------------------
// Generation and request
// ---------------------------------------------------------------------------

/// A generation of the first design: where to send it, which model answers,
/// the conversation so far and the images for the last user message.
pub struct ClassicGeneration {
    pub tab_id: usize,
    pub base_url: String,
    pub model: String,
    pub history: Vec<Message>,
    pub images: Option<Vec<String>>,
}

/// What such a generation holds, as values.
pub struct ClassicGenerationView {
    pub tab_id: usize,
    pub base_url: Seq<char>,
    pub model: Seq<char>,
    pub history: Seq<MessageView>,
    pub images: Option<Seq<Seq<char>>>,
}

impl View for ClassicGeneration {
    type V = ClassicGenerationView;

    open spec fn view(&self) -> ClassicGenerationView {
        ClassicGenerationView {
            tab_id: self.tab_id,
            base_url: self.base_url@,
            model: self.model@,
            history: messages_view(self.history@),
            images: match self.images {
                Some(v) => Some(names_view(v@)),
                None => None,
            },
        }
    }
}

/// A streamed chat request of the first design.
pub struct ClassicChatRequest {
    pub model: String,
    pub messages: Vec<ChatMessage>,
    pub stream: bool,
}

/// The messages of the request: the conversation, the images attached to the
/// last user message.
pub open spec fn classic_request_messages(
    history: Seq<MessageView>,
    images: Option<Seq<Seq<char>>>,
) -> Seq<ChatMessageView> {
    on_last_user(
        history.map_values(|m: MessageView| as_sent(m)),
        |m: ChatMessageView| ChatMessageView { images: images, ..m },
    )
}

/// The chat request of a generation of the first design.
pub fn classic_chat_request(g: &ClassicGeneration) -> (r: ClassicChatRequest)
    ensures
        r.model@ == g.model@,
        r.stream,
        chat_messages_view(r.messages@) == classic_request_messages(
            messages_view(g.history@),
            g@.images,
        ),
{
    let ghost sent = messages_view(g.history@).map_values(|m: MessageView| as_sent(m));
    let mut msgs: Vec<ChatMessage> = Vec::new();
    let mut i: usize = 0;
    while i < g.history.len()
        invariant
            i <= g.history@.len(),
            sent == messages_view(g.history@).map_values(|m: MessageView| as_sent(m)),
            chat_messages_view(msgs@) =~= sent.take(i as int),
        decreases g.history@.len() - i,
    {
        let m = ChatMessage {
            role: g.history[i].role.clone(),
            content: g.history[i].content.clone(),
            images: None,
        };
        proof {
            lemma_chat_view_push(msgs@, m);
            assert(sent.take(i + 1) =~= sent.take(i as int).push(sent[i as int]));
        }
        msgs.push(m);
        i = i + 1;
    }
    assert(sent.take(g.history@.len() as int) =~= sent);
    let ghost base = chat_messages_view(msgs@);
    match find_last_user(&msgs) {
        Some(k) => {
            let images = match &g.images {
                Some(v) => {
                    let c = v.clone();
                    assert(c@ =~= v@);
                    Some(c)
                },
                None => None,
            };
            let m = ChatMessage {
                role: msgs[k].role.clone(),
                content: msgs[k].content.clone(),
                images,
            };
            let ghost mv = m@;
            msgs.set(k, m);
            assert(chat_messages_view(msgs@) =~= base.update(k as int, mv));
        },
        None => {},
    }
    assert(chat_messages_view(msgs@) =~= classic_request_messages(
        messages_view(g.history@),
        g@.images,
    ));
    ClassicChatRequest { model: g.model.clone(), messages: msgs, stream: true }
}

/// The text shown when the chat endpoint cannot be reached.
pub fn classic_connection_failed_message(base_url: &str) -> (r: String)
    ensures
        r@ == "Connection failed. Ensure Ollama is running at "@ + base_url@,
{
    combine("Connection failed. Ensure Ollama is running at ", base_url)
}

// ---------------------------------------------------------------------------
// Stream
// ---------------------------------------------------------------------------

/// What to do after an input of the stream, in the first design, where the
/// token counts travel with every piece.
pub enum ClassicAction {
    /// Nothing to report; read the next line.
    Continue,
    /// Report a piece with its counts; read the next line, or, when `last`,
    /// report the end of the generation.
    Chunk {
        text: String,
        prompt_tokens: Option<usize>,
        completion_tokens: Option<usize>,
        last: bool,
    },
    /// Report the end of the generation.
    Finish,
    /// Stop reading, unload the model and report the end of the generation.
    CancelAndFinish,
    /// Report a failure with the given text.
    Fail(String),
}

/// What an action is, as values.
pub enum ClassicActionView {
    Continue,
    Chunk {
        text: Seq<char>,
        prompt_tokens: Option<usize>,
        completion_tokens: Option<usize>,
        last: bool,
    },
    Finish,
    CancelAndFinish,
    Fail(Seq<char>),
}

impl View for ClassicAction {
    type V = ClassicActionView;

    open spec fn view(&self) -> ClassicActionView {
        match self {
            ClassicAction::Continue => ClassicActionView::Continue,
            ClassicAction::Chunk { text, prompt_tokens, completion_tokens, last } =>
                ClassicActionView::Chunk {
                text: text@,
                prompt_tokens: *prompt_tokens,
                completion_tokens: *completion_tokens,
                last: *last,
            },
            ClassicAction::Finish => ClassicActionView::Finish,
            ClassicAction::CancelAndFinish => ClassicActionView::CancelAndFinish,
            ClassicAction::Fail(t) => ClassicActionView::Fail(t@),
        }
    }
}

/// The action for an input.
pub open spec fn classic_stream_action(input: StreamInput) -> ClassicActionView {
    match input {
        StreamInput::Cancelled => ClassicActionView::CancelAndFinish,
        StreamInput::EndOfStream => ClassicActionView::Finish,
        StreamInput::ReadFailed(reason) => ClassicActionView::Fail("Read error: "@ + reason@),
        StreamInput::Line(None) => ClassicActionView::Continue,
        StreamInput::Line(Some(c)) => ClassicActionView::Chunk {
            text: chunk_text(c),
            prompt_tokens: c.prompt_eval_count,
            completion_tokens: c.eval_count,
            last: c.done == Some(true),
        },
    }
}

/// Decides what to do after an input of the stream.
pub fn classic_on_stream_input(input: StreamInput) -> (r: ClassicAction)
    ensures
        r@ == classic_stream_action(input),
{
    match input {
        StreamInput::Cancelled => ClassicAction::CancelAndFinish,
        StreamInput::EndOfStream => ClassicAction::Finish,
        StreamInput::ReadFailed(reason) => ClassicAction::Fail(combine("Read error: ", reason.as_str())),
        StreamInput::Line(None) => ClassicAction::Continue,
        StreamInput::Line(Some(c)) => {
            let text = match c.content {
                Some(t) => t,
                None => String::new(),
            };
            let last = match c.done {
                Some(d) => d,
                None => false,
            };
            ClassicAction::Chunk {
                text,
                prompt_tokens: c.prompt_eval_count,
                completion_tokens: c.eval_count,
                last,
            }
        },
    }
}

// ---------------------------------------------------------------------------
// Starting tabs
// ---------------------------------------------------------------------------

/// The greeting of the tab a first start opens with.
pub open spec fn greeting() -> Seq<char> {
    "Hello! How can I assist you today?"@
}

/// The message a new chat opens with.
pub open spec fn new_session_notice() -> Seq<char> {
    "Started a new session."@
}

/// The tab a first start opens with.
pub open spec fn classic_starter_tab() -> TabView {
    TabView {
        id: 0,
        title: "New Chat"@,
        messages: seq![plain_message(assistant_role(), greeting())],
        selected_model: vision_model(),
        system_prompt: Seq::empty(),
        temperature_bits: DEFAULT_TEMPERATURE_BITS,
        top_p_bits: DEFAULT_TOP_P_BITS,
    }
}

/// The tabs a first start opens with.
pub fn classic_default_tabs() -> (r: Vec<ChatTab>)
    ensures
        tabs_view(r@) == seq![classic_starter_tab()],
{
    let mut messages: Vec<Message> = Vec::new();
    messages.push(Message::assistant(String::from_str("Hello! How can I assist you today?")));
    let t = ChatTab {
        id: 0,
        title: String::from_str("New Chat"),
        messages,
        selected_model: vision_model_string(),
        system_prompt: String::new(),
        temperature_bits: default_temp(),
        top_p_bits: default_top_p(),
    };
    assert(messages_view(t.messages@) =~= seq![plain_message(assistant_role(), greeting())]);
    let mut v: Vec<ChatTab> = Vec::new();
    v.push(t);
    assert(tabs_view(v@) =~= seq![classic_starter_tab()]);
    v
}

/// The tabs to start with, given the saved ones.
pub fn classic_tabs_or_default(saved: Option<Vec<ChatTab>>) -> (r: Vec<ChatTab>)
    ensures
        tabs_view(r@) == match saved {
            Some(v) => if v@.len() > 0 {
                tabs_view(v@)
            } else {
                seq![classic_starter_tab()]
            },
            None => seq![classic_starter_tab()],
        },
{
    match saved {
        Some(tabs) => {
            if tabs.len() > 0 {
                tabs
            } else {
                classic_default_tabs()
            }
        },
        None => classic_default_tabs(),
    }
}

// ---------------------------------------------------------------------------
// Events
// ---------------------------------------------------------------------------

/// An event of the first design.
pub enum ClassicEvent {
    ModelsFetched(Vec<String>),
    RunningModelsFetched(Vec<RunningModel>),
    StreamChunk {
        tab_id: usize,
        chunk: String,
        prompt_tokens: Option<usize>,
        completion_tokens: Option<usize>,
    },
    StreamFinished { tab_id: usize },
    StreamError { tab_id: usize, error: String },
}

/// What such an event holds, as values.
pub enum ClassicEventView {
    ModelsFetched(Seq<Seq<char>>),
    RunningModelsFetched(Seq<RunningModelView>),
    StreamChunk {
        tab_id: usize,
        chunk: Seq<char>,
        prompt_tokens: Option<usize>,
        completion_tokens: Option<usize>,
    },
    StreamFinished { tab_id: usize },
    StreamError { tab_id: usize, error: Seq<char> },
}

impl View for ClassicEvent {
    type V = ClassicEventView;

    open spec fn view(&self) -> ClassicEventView {
        match self {
            ClassicEvent::ModelsFetched(v) => ClassicEventView::ModelsFetched(names_view(v@)),
            ClassicEvent::RunningModelsFetched(v) => ClassicEventView::RunningModelsFetched(
                running_view(v@),
            ),
            ClassicEvent::StreamChunk { tab_id, chunk, prompt_tokens, completion_tokens } =>
                ClassicEventView::StreamChunk {
                tab_id: *tab_id,
                chunk: chunk@,
                prompt_tokens: *prompt_tokens,
                completion_tokens: *completion_tokens,
            },
            ClassicEvent::StreamFinished { tab_id } => ClassicEventView::StreamFinished {
                tab_id: *tab_id,
            },
            ClassicEvent::StreamError { tab_id, error } => ClassicEventView::StreamError {
                tab_id: *tab_id,
                error: error@,
            },
        }
    }
}

/// The counters can take the counts an event carries.
pub open spec fn classic_event_fits(v: SessionView, e: ClassicEventView) -> bool {
    match e {
        ClassicEventView::StreamChunk { prompt_tokens, completion_tokens, .. } => {
            &&& prompt_tokens matches Some(p) ==> v.total_prompt_tokens + p <= usize::MAX
            &&& completion_tokens matches Some(c) ==> v.total_completion_tokens + c <= usize::MAX
        },
        _ => true,
    }
}

/// The state after an event of the first design.
pub open spec fn classic_after_event(v: SessionView, e: ClassicEventView) -> (SessionView, Seq<EffectView>) {
    match e {
        ClassicEventView::ModelsFetched(models) => after_event(v, EventView::ModelsFetched(models)),
        ClassicEventView::RunningModelsFetched(ms) => after_event(v, EventView::RunningModelsFetched(ms)),
        ClassicEventView::StreamChunk { tab_id, chunk, prompt_tokens, completion_tokens } => {
            let v1 = with_messages_of(v, tab_id, |ms: Seq<MessageView>| with_chunk(ms, chunk));
            (
                SessionView {
                    total_prompt_tokens: (v.total_prompt_tokens + match prompt_tokens {
                        Some(p) => p,
                        None => 0,
                    }) as usize,
                    total_completion_tokens: (v.total_completion_tokens + match completion_tokens {
                        Some(c) => c,
                        None => 0,
                    }) as usize,
                    scroll_to_bottom: true,
                    ..v1
                },
                Seq::empty(),
            )
        },
        ClassicEventView::StreamFinished { .. } => (
            SessionView { is_generating: false, scroll_to_bottom: true, ..v },
            seq![EffectView::SaveChats],
        ),
        ClassicEventView::StreamError { tab_id, error } => {
            let v1 = with_messages_of(
                v,
                tab_id,
                |ms: Seq<MessageView>| with_reply_text(ms, "Error: "@ + error),
            );
            (
                SessionView { is_generating: false, scroll_to_bottom: true, ..v1 },
                seq![EffectView::SaveChats],
            )
        },
    }
}

/// The session after the events `es` of the first design, taken in order,
/// with the effects of each in turn.
pub open spec fn classic_after_events(v: SessionView, es: Seq<ClassicEventView>) -> (
    SessionView,
    Seq<EffectView>,
)
    decreases es.len(),
{
    if es.len() == 0 {
        (v, Seq::empty())
    } else {
        let p = classic_after_events(v, es.drop_last());
        let q = classic_after_event(p.0, es.last());
        (q.0, p.1 + q.1)
    }
}

/// Every event of `es` fits the counters of the state it meets.
pub open spec fn classic_events_fit(v: SessionView, es: Seq<ClassicEventView>) -> bool
    decreases es.len(),
{
    if es.len() == 0 {
        true
    } else {
        classic_events_fit(v, es.drop_last()) && classic_event_fits(
            classic_after_events(v, es.drop_last()).0,
            es.last(),
        )
    }
}

/// The counters never go down over a queue of events of the first design
/// whose counts fit them.
pub proof fn law_classic_token_counts_grow_over_events(v: SessionView, es: Seq<ClassicEventView>)
    requires
        classic_events_fit(v, es),
    ensures
        classic_after_events(v, es).0.total_prompt_tokens >= v.total_prompt_tokens,
        classic_after_events(v, es).0.total_completion_tokens >= v.total_completion_tokens,
    decreases es.len(),
{
    if es.len() > 0 {
        law_classic_token_counts_grow_over_events(v, es.drop_last());
    }
}

/// The views of a queue of events of the first design.
pub open spec fn classic_events_view(es: Seq<ClassicEvent>) -> Seq<ClassicEventView> {
    es.map_values(|e: ClassicEvent| e@)
}

/// Events of the first design are taken in the order they came: the events
/// of `a` followed by those of `b` lead where `b` leads from the state `a`
/// left, with the effects of `a` followed by those of `b`.
pub proof fn law_classic_events_apply_in_order(
    v: SessionView,
    a: Seq<ClassicEventView>,
    b: Seq<ClassicEventView>,
)
    ensures
        ({
            let p = classic_after_events(v, a);
            let q = classic_after_events(p.0, b);
            classic_after_events(v, a + b) == (q.0, p.1 + q.1)
        }),
    decreases b.len(),
{
    let p = classic_after_events(v, a);
    if b.len() == 0 {
        assert(a + b =~= a);
        assert(p.1 + Seq::<EffectView>::empty() =~= p.1);
    } else {
        law_classic_events_apply_in_order(v, a, b.drop_last());
        assert((a + b).drop_last() =~= a + b.drop_last());
        assert((a + b).last() == b.last());
        let q1 = classic_after_events(p.0, b.drop_last());
        let e = classic_after_event(q1.0, b.last());
        assert(p.1 + q1.1 + e.1 =~= p.1 + (q1.1 + e.1));
    }
}

// ---------------------------------------------------------------------------
// Operations
// ---------------------------------------------------------------------------

/// Starting a generation of the first design for the tab at position `i`:
/// the conversations are saved, then the generation starts.
pub open spec fn classic_started(v: SessionView, i: int, images: Option<Seq<Seq<char>>>) -> (
    SessionView,
    Seq<EffectView>,
) {
    (
        SessionView { is_generating: true, scroll_to_bottom: true, ..v },
        seq![
            EffectView::SaveChats,
            EffectView::GenerateClassic(
                ClassicGenerationView {
                    tab_id: v.tabs[i].id,
                    base_url: v.settings.ollama_url,
                    model: v.tabs[i].selected_model,
                    history: request_history(v.tabs[i].messages),
                    images,
                },
            ),
        ],
    )
}

/// The tab a new chat of the first design opens with.
pub open spec fn classic_new_tab(v: SessionView) -> TabView {
    TabView {
        id: v.next_tab_id,
        title: "Chat "@ + decimal((v.next_tab_id + 1) as nat),
        messages: seq![plain_message(assistant_role(), new_session_notice())],
        selected_model: model_for_new_chat(v.available_models),
        system_prompt: Seq::empty(),
        temperature_bits: DEFAULT_TEMPERATURE_BITS,
        top_p_bits: DEFAULT_TOP_P_BITS,
    }
}

/// Opening a new chat in the first design: a running generation is stopped,
/// the new tab is added and made active, and the conversations are saved.
pub open spec fn classic_created(v: SessionView) -> (SessionView, Seq<EffectView>) {
    let s = stopped_if_generating(v);
    (
        SessionView {
            tabs: s.0.tabs.push(classic_new_tab(v)),
            next_tab_id: (v.next_tab_id + 1) as usize,
            active_tab_id: v.next_tab_id,
            ..s.0
        },
        s.1.push(EffectView::SaveChats),
    )
}

/// Closing the tabs with id `id` in the first design: if the active tab is
/// closed, the first remaining tab becomes active; the conversations are
/// saved.
pub open spec fn classic_closed(v: SessionView, id: usize) -> (SessionView, Seq<EffectView>) {
    let tabs = without_id(v.tabs, id);
    (
        SessionView {
            tabs,
            active_tab_id: if v.active_tab_id == id && tabs.len() > 0 {
                tabs[0].id
            } else {
                v.active_tab_id
            },
            ..v
        },
        seq![EffectView::SaveChats],
    )
}

/// Saving a rename in the first design.
pub open spec fn classic_renamed(v: SessionView, id: usize) -> (SessionView, Seq<EffectView>) {
    let tabs = match index_of_id(v.tabs, id) {
        Some(i) => if is_blank_text(v.rename_input) {
            v.tabs
        } else {
            v.tabs.update(i, TabView { title: v.rename_input, ..v.tabs[i] })
        },
        None => v.tabs,
    };
    (
        SessionView { tabs, editing_tab_id: None, rename_input: Seq::empty(), ..v },
        seq![EffectView::SaveChats],
    )
}

/// Clearing the active conversation in the first design.
pub open spec fn classic_cleared(v: SessionView) -> (SessionView, Seq<EffectView>) {
    let s = stopped_if_generating(v);
    match active_index(s.0) {
        Some(i) => (with_tab_messages(s.0, i, Seq::empty()), s.1.push(EffectView::SaveChats)),
        None => s,
    }
}

/// Saving an edit in the first design.
pub open spec fn classic_edit_saved(v: SessionView, idx: int, text: Seq<char>) -> (SessionView, Seq<EffectView>) {
    let s = stopped_if_generating(v);
    let v1 = SessionView { editing_msg: None, ..s.0 };
    let i = active_index(v)->0;
    let v2 = with_tab_messages(v1, i, edited(v1.tabs[i].messages, idx, text));
    let g = classic_started(v2, i, None);
    (g.0, s.1 + g.1)
}

/// Sending the typed text in the first design, with the content of the
/// picked file as it was read (`None` when no file is picked or it could not
/// be read): an image travels with the request, the text of another file is
/// put before the typed text in the conversation itself.
pub open spec fn classic_sent(v: SessionView, attachment: Option<AttachmentView>) -> (SessionView, Seq<EffectView>) {
    if v.is_generating || is_blank_text(v.input_text) {
        (v, Seq::empty())
    } else {
        let i = active_index(v)->0;
        let typed = trimmed(v.input_text);
        let prompt = match attachment {
            Some(AttachmentView::Text { path, content }) => with_file_prefix(path, content, typed),
            _ => typed,
        };
        let images: Option<Seq<Seq<char>>> = match attachment {
            Some(AttachmentView::Image(bytes)) => Some(seq![base64_standard(bytes)]),
            _ => None,
        };
        let v1 = SessionView {
            input_text: Seq::empty(),
            selected_file: None,
            ..with_tab_messages(v, i, with_exchange(v.tabs[i].messages, prompt))
        };
        classic_started(v1, i, images)
    }
}

/// Unloading every model in memory, then asking again which ones are held.
pub open spec fn classic_unload_all(v: SessionView) -> Seq<EffectView> {
    v.running_models.map_values(|m: RunningModelView| EffectView::UnloadModel(m.name)).push(
        EffectView::FetchRunningModels,
    )
}

fn one_effect(e: Effect) -> (r: Vec<Effect>)
    ensures
        effects_view(r@) == seq![e@],
{
    let mut r: Vec<Effect> = Vec::new();
    proof {
        lemma_effects_push(r@, e);
    }
    r.push(e);
    assert(effects_view(r@) =~= seq![e@]);
    r
}

impl Session {
    /// Starts a generation of the first design for the tab at position `i`.
    pub fn classic_start_generation(&mut self, i: usize, images: Option<Vec<String>>) -> (r: Vec<
        Effect,
    >)
        requires
            i < old(self).tabs@.len(),
        ensures
            (final(self)@, effects_view(r@)) == classic_started(
                old(self)@,
                i as int,
                match images {
                    Some(v) => Some(names_view(v@)),
                    None => None,
                },
            ),
    {
        let tab = &self.tabs[i];
        let g = ClassicGeneration {
            tab_id: tab.id,
            base_url: self.settings.ollama_url.clone(),
            model: tab.selected_model.clone(),
            history: history_for_request(&tab.messages),
            images,
        };
        self.is_generating = true;
        self.scroll_to_bottom = true;
        let mut r = one_effect(Effect::SaveChats);
        let e = Effect::GenerateClassic(g);
        proof {
            lemma_effects_push(r@, e);
        }
        r.push(e);
        assert(effects_view(r@) =~= classic_started(
            old(self)@,
            i as int,
            match images {
                Some(v) => Some(names_view(v@)),
                None => None,
            },
        ).1);
        r
    }

    /// Opens a new chat in the first design.
    pub fn classic_create_new_chat(&mut self) -> (r: Vec<Effect>)
        requires
            old(self).next_tab_id < usize::MAX,
        ensures
            (final(self)@, effects_view(r@)) == classic_created(old(self)@),
            well_formed(old(self)@) ==> well_formed(final(self)@),
    {
        let ghost v = self@;
        let mut r = self.stop_if_generating();
        let new_id = self.next_tab_id;
        self.next_tab_id = self.next_tab_id + 1;
        let model = fallback_model(&self.available_models);
        let number = decimal_string(new_id + 1);
        let title = combine("Chat ", number.as_str());
        let mut messages: Vec<Message> = Vec::new();
        messages.push(Message::assistant(String::from_str("Started a new session.")));
        let tab = ChatTab {
            id: new_id,
            title,
            messages,
            selected_model: model,
            system_prompt: String::new(),
            temperature_bits: default_temp(),
            top_p_bits: default_top_p(),
        };
        proof {
            assert(messages_view(tab.messages@) =~= seq![
                plain_message(assistant_role(), new_session_notice()),
            ]);
            assert(tab@ == classic_new_tab(v));
            lemma_tabs_view_push(self.tabs@, tab);
        }
        self.tabs.push(tab);
        self.active_tab_id = new_id;
        let e = Effect::SaveChats;
        proof {
            lemma_effects_push(r@, e);
        }
        r.push(e);
        proof {
            if well_formed(v) {
                assert forall|k: int| 0 <= k < self@.tabs.len() implies #[trigger] self@.tabs[k].id
                    < self@.next_tab_id by {
                    if k < v.tabs.len() {
                        assert(self@.tabs[k] == v.tabs[k]);
                    }
                }
            }
        }
        r
    }

    /// Makes the tab with id `id` active, in the first design.
    pub fn classic_select_tab(&mut self, id: usize)
        ensures
            final(self)@ == (SessionView { active_tab_id: id, ..old(self)@ }),
    {
        self.active_tab_id = id;
    }

    /// Closes the tabs with id `id`, in the first design.
    pub fn classic_close_tab(&mut self, id: usize) -> (r: Vec<Effect>)
        ensures
            (final(self)@, effects_view(r@)) == classic_closed(old(self)@, id),
            well_formed(old(self)@) ==> well_formed(final(self)@),
    {
        let tabs = self.tabs.clone();
        assert(tabs_view(tabs@) =~= tabs_view(self.tabs@));
        self.tabs = remove_tab(tabs, id);
        proof {
            lemma_without_id_subset(old(self)@.tabs, id);
        }
        if self.active_tab_id == id && self.tabs.len() > 0 {
            self.active_tab_id = self.tabs[0].id;
        }
        proof {
            if well_formed(old(self)@) {
                assert forall|k: int| 0 <= k < self@.tabs.len() implies #[trigger] self@.tabs[k].id
                    < self@.next_tab_id by {
                    let j = choose|j: int|
                        0 <= j < old(self)@.tabs.len() && old(self)@.tabs[j] == without_id(
                            old(self)@.tabs,
                            id,
                        )[k];
                    assert(old(self)@.tabs[j].id < old(self)@.next_tab_id);
                }
            }
        }
        one_effect(Effect::SaveChats)
    }

    /// Saves the rename of the tab with id `id`, in the first design.
    pub fn classic_save_rename(&mut self, id: usize) -> (r: Vec<Effect>)
        ensures
            (final(self)@, effects_view(r@)) == classic_renamed(old(self)@, id),
            well_formed(old(self)@) ==> well_formed(final(self)@),
    {
        let dirty = self.is_dirty;
        self.save_rename(id);
        self.is_dirty = dirty;
        one_effect(Effect::SaveChats)
    }

    /// Clears the active conversation, in the first design.
    pub fn classic_clear_conversation(&mut self) -> (r: Vec<Effect>)
        ensures
            (final(self)@, effects_view(r@)) == classic_cleared(old(self)@),
            well_formed(old(self)@) ==> well_formed(final(self)@),
    {
        let mut r = self.stop_if_generating();
        match self.active_tab_index() {
            Some(i) => {
                proof {
                    crate::tabs::lemma_index_of_id_bounds(self@.tabs, self.active_tab_id);
                }
                let empty: Vec<Message> = Vec::new();
                assert(messages_view(empty@) =~= Seq::empty());
                self.set_tab_messages(i, empty);
                let e = Effect::SaveChats;
                proof {
                    lemma_effects_push(r@, e);
                }
                r.push(e);
            },
            None => {},
        }
        proof {
            lemma_ids_kept(old(self)@, self@);
        }
        r
    }

    /// Saves the edit of the user message at `idx` of the active tab and
    /// asks the model again, in the first design.
    pub fn classic_save_edit(&mut self, idx: usize, text: String) -> (r: Vec<Effect>)
        requires
            active_index(old(self)@) is Some,
            idx < old(self)@.tabs[active_index(old(self)@)->0].messages.len(),
        ensures
            (final(self)@, effects_view(r@)) == classic_edit_saved(old(self)@, idx as int, text@),
            well_formed(old(self)@) ==> well_formed(final(self)@),
    {
        proof {
            crate::tabs::lemma_index_of_id_bounds(self@.tabs, self.active_tab_id);
        }
        let mut r = self.stop_if_generating();
        self.editing_msg = None;
        match self.active_tab_index() {
            Some(i) => {
                proof {
                    crate::tabs::lemma_index_of_id_bounds(self@.tabs, self.active_tab_id);
                }
                let mut msgs = self.tabs[i].messages.clone();
                assert(msgs@ =~= self.tabs[i as int].messages@);
                edit_and_resend(&mut msgs, idx, text);
                self.set_tab_messages(i, msgs);
                let g = self.classic_start_generation(i, None);
                append_effects(&mut r, g);
            },
            None => {},
        }
        proof {
            lemma_ids_kept(old(self)@, self@);
        }
        r
    }

    /// Sends the typed text to the model of the active tab, in the first
    /// design, with the content of the picked file as it was read.
    pub fn classic_send_input(&mut self, attachment: Option<AttachmentData>) -> (r: Vec<Effect>)
        requires
            active_index(old(self)@) is Some,
            attachment matches Some(AttachmentData::Image(b)) ==> 4 * ((b@.len() + 2) / 3)
                <= usize::MAX,
        ensures
            (final(self)@, effects_view(r@)) == classic_sent(
                old(self)@,
                crate::request::attachment_view(attachment),
            ),
            well_formed(old(self)@) ==> well_formed(final(self)@),
    {
        proof {
            crate::tabs::lemma_index_of_id_bounds(self@.tabs, self.active_tab_id);
        }
        let ghost att = crate::request::attachment_view(attachment);
        if self.is_generating || is_blank(self.input_text.as_str()) {
            let r: Vec<Effect> = Vec::new();
            assert(effects_view(r@) =~= Seq::empty());
            return r;
        }
        let typed = trim(self.input_text.as_str());
        let mut images: Option<Vec<String>> = None;
        let prompt = match attachment {
            Some(AttachmentData::Image(bytes)) => {
                let encoded = encode_image(bytes.as_slice());
                let mut v: Vec<String> = Vec::new();
                v.push(encoded);
                assert(names_view(v@) =~= seq![base64_standard(bytes@)]);
                images = Some(v);
                typed
            },
            Some(AttachmentData::Text { path, content }) => {
                let mut text = String::from_str("Contents of ");
                text.append(path.as_str());
                text.append(":\n");
                text.append(content.as_str());
                text.append("\n\nUser Prompt: ");
                text.append(typed.as_str());
                text
            },
            None => typed,
        };
        match self.active_tab_index() {
            Some(i) => {
                proof {
                    crate::tabs::lemma_index_of_id_bounds(self@.tabs, self.active_tab_id);
                }
                let mut msgs = self.tabs[i].messages.clone();
                assert(msgs@ =~= self.tabs[i as int].messages@);
                add_exchange(&mut msgs, prompt);
                self.set_tab_messages(i, msgs);
                self.input_text = String::new();
                self.selected_file = None;
                let r = self.classic_start_generation(i, images);
                proof {
                    lemma_ids_kept(old(self)@, self@);
                }
                r
            },
            None => {
                let r: Vec<Effect> = Vec::new();
                r
            },
        }
    }

    /// Records an event of the first design.
    pub fn classic_apply_event(&mut self, event: ClassicEvent) -> (r: Vec<Effect>)
        requires
            classic_event_fits(old(self)@, event@),
        ensures
            (final(self)@, effects_view(r@)) == classic_after_event(old(self)@, event@),
            well_formed(old(self)@) ==> well_formed(final(self)@),
    {
        let ghost ev = event@;
        let r: Vec<Effect> = match event {
            ClassicEvent::ModelsFetched(models) => self.apply_event(
                crate::session::AppEvent::ModelsFetched(models),
            ),
            ClassicEvent::RunningModelsFetched(models) => self.apply_event(
                crate::session::AppEvent::RunningModelsFetched(models),
            ),
            ClassicEvent::StreamChunk { tab_id, chunk, prompt_tokens, completion_tokens } => {
                match find_tab(&self.tabs, tab_id) {
                    Some(i) => {
                        proof {
                            crate::tabs::lemma_index_of_id_bounds(self@.tabs, tab_id);
                        }
                        let mut msgs = self.tabs[i].messages.clone();
                        assert(msgs@ =~= self.tabs[i as int].messages@);
                        append_chunk(&mut msgs, chunk.as_str());
                        self.set_tab_messages(i, msgs);
                    },
                    None => {},
                }
                match prompt_tokens {
                    Some(p) => {
                        self.stats.total_prompt_tokens = self.stats.total_prompt_tokens + p;
                    },
                    None => {},
                }
                match completion_tokens {
                    Some(c) => {
                        self.stats.total_completion_tokens = self.stats.total_completion_tokens + c;
                    },
                    None => {},
                }
                self.scroll_to_bottom = true;
                let r: Vec<Effect> = Vec::new();
                assert(effects_view(r@) =~= Seq::empty());
                r
            },
            ClassicEvent::StreamFinished { tab_id } => {
                self.is_generating = false;
                self.scroll_to_bottom = true;
                one_effect(Effect::SaveChats)
            },
            ClassicEvent::StreamError { tab_id, error } => {
                match find_tab(&self.tabs, tab_id) {
                    Some(i) => {
                        proof {
                            crate::tabs::lemma_index_of_id_bounds(self@.tabs, tab_id);
                        }
                        let mut msgs = self.tabs[i].messages.clone();
                        assert(msgs@ =~= self.tabs[i as int].messages@);
                        replace_reply_text(&mut msgs, combine("Error: ", error.as_str()));
                        self.set_tab_messages(i, msgs);
                    },
                    None => {},
                }
                self.is_generating = false;
                self.scroll_to_bottom = true;
                one_effect(Effect::SaveChats)
            },
        };
        proof {
            lemma_ids_kept(old(self)@, self@);
        }
        r
    }

    /// Whether the counters can take the counts that `event` carries.
    pub fn classic_event_fits_now(&self, event: &ClassicEvent) -> (r: bool)
        ensures
            r == classic_event_fits(self@, event@),
    {
        match event {
            ClassicEvent::StreamChunk { prompt_tokens, completion_tokens, .. } => {
                let p_ok = match prompt_tokens {
                    Some(p) => *p <= usize::MAX - self.stats.total_prompt_tokens,
                    None => true,
                };
                let c_ok = match completion_tokens {
                    Some(c) => *c <= usize::MAX - self.stats.total_completion_tokens,
                    None => true,
                };
                p_ok && c_ok
            },
            _ => true,
        }
    }

    /// Records the queued events of the first design in the order they
    /// came.  It stops before the first event whose counts the counters
    /// cannot take and returns how many events it recorded, with the effects
    /// of those events in turn.
    pub fn classic_apply_events(&mut self, queued: Vec<ClassicEvent>) -> (r: (Vec<Effect>, usize))
        ensures
            r.1 <= queued@.len(),
            (final(self)@, effects_view(r.0@)) == classic_after_events(
                old(self)@,
                classic_events_view(queued@).take(r.1 as int),
            ),
            classic_events_fit(old(self)@, classic_events_view(queued@).take(r.1 as int)),
            r.1 < queued@.len() ==> !classic_event_fits(final(self)@, queued@[r.1 as int]@),
            well_formed(old(self)@) ==> well_formed(final(self)@),
    {
        let ghost es = classic_events_view(queued@);
        let ghost v0 = self@;
        let total: usize = queued.len();
        let mut events = queued;
        let mut effects: Vec<Effect> = Vec::new();
        let mut n: usize = 0;
        assert(es.take(0) =~= Seq::<ClassicEventView>::empty());
        assert(effects_view(effects@) =~= Seq::empty());
        while events.len() > 0
            invariant
                n + events@.len() == es.len(),
                es.len() == total,
                es == classic_events_view(queued@),
                v0 == old(self)@,
                classic_events_view(events@) =~= es.skip(n as int),
                (self@, effects_view(effects@)) == classic_after_events(v0, es.take(n as int)),
                classic_events_fit(v0, es.take(n as int)),
                well_formed(v0) ==> well_formed(self@),
            decreases events@.len(),
        {
            let ghost rest = events@;
            let e = events.remove(0);
            assert(e@ == es[n as int]) by {
                assert(classic_events_view(rest)[0] == rest[0]@);
            }
            assert(classic_events_view(events@) =~= es.skip(n + 1)) by {
                assert forall|i: int| 0 <= i < events@.len() implies classic_events_view(events@)[i]
                    == es.skip(n + 1)[i] by {
                    assert(events@[i] == rest[i + 1]);
                    assert(classic_events_view(rest)[i + 1] == rest[i + 1]@);
                    assert(es.skip(n as int)[i + 1] == es[n + 1 + i]);
                }
            }
            if !self.classic_event_fits_now(&e) {
                assert(queued@[n as int]@ == es[n as int]);
                return (effects, n);
            }
            let r = self.classic_apply_event(e);
            assert(es.take(n + 1).drop_last() =~= es.take(n as int));
            append_effects(&mut effects, r);
            n = n + 1;
        }
        assert(es.take(n as int) =~= es);
        (effects, n)
    }

    /// Unloads every model in memory, then asks again which ones are held,
    /// in the first design.
    pub fn classic_unload_all_models(&self) -> (r: Vec<Effect>)
        ensures
            effects_view(r@) == classic_unload_all(self@),
    {
        let mut r = self.unload_all_models();
        let ghost full = effects_view(r@);
        r.pop();
        assert(effects_view(r@) =~= full.drop_last());
        assert(effects_view(r@) =~= classic_unload_all(self@));
        r
    }
}

} // verus!
