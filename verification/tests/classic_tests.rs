use ollama_studio::chat::Message;
use ollama_studio::classic::{
    classic_chat_request, classic_connection_failed_message, classic_default_tabs,
    classic_on_stream_input, classic_tabs_or_default, ClassicAction, ClassicEvent,
    ClassicGeneration,
};
use ollama_studio::request::AttachmentData;
use ollama_studio::session::{Effect, Session};
use ollama_studio::settings::AppSettings;
use ollama_studio::stream::{ChatChunk, StreamInput};

fn session() -> Session {
    Session::new(AppSettings::default(), classic_default_tabs())
}

#[test]
fn first_start_greets() {
    let tabs = classic_default_tabs();
    assert_eq!(tabs.len(), 1);
    assert_eq!(tabs[0].title, "New Chat");
    assert_eq!(tabs[0].messages[0].role, "assistant");
    assert_eq!(tabs[0].messages[0].content, "Hello! How can I assist you today?");
    assert_eq!(tabs[0].selected_model, "llama3.2-vision:latest");
    assert_eq!(classic_tabs_or_default(Some(vec![])).len(), 1);
    assert_eq!(classic_tabs_or_default(None)[0].title, "New Chat");
}

#[test]
fn new_chat_opens_with_notice_and_saves() {
    let mut s = session();
    let effects = s.classic_create_new_chat();
    assert_eq!(s.tabs.len(), 2);
    assert_eq!(s.tabs[1].title, "Chat 2");
    assert_eq!(s.tabs[1].messages[0].content, "Started a new session.");
    assert_eq!(s.active_tab_id, 1);
    assert!(matches!(effects.last(), Some(Effect::SaveChats)));
    assert_eq!(effects.len(), 1);
}

#[test]
fn close_and_select() {
    let mut s = session();
    s.classic_create_new_chat();
    s.classic_select_tab(0);
    assert_eq!(s.active_tab_id, 0);
    let effects = s.classic_close_tab(0);
    assert_eq!(s.active_tab_id, 1);
    assert_eq!(s.tabs.len(), 1);
    assert!(matches!(effects[0], Effect::SaveChats));
}

#[test]
fn send_with_text_file_puts_content_in_conversation() {
    let mut s = session();
    s.input_text = " explain ".to_string();
    s.selected_file = Some("/tmp/n.txt".to_string());
    let effects = s.classic_send_input(Some(AttachmentData::Text {
        path: "/tmp/n.txt".to_string(),
        content: "data".to_string(),
    }));
    let msgs = &s.tabs[0].messages;
    assert_eq!(msgs[1].content, "Contents of /tmp/n.txt:\ndata\n\nUser Prompt: explain");
    assert!(msgs[2].content.is_empty());
    assert!(s.selected_file.is_none());
    assert!(matches!(effects[0], Effect::SaveChats));
    match &effects[1] {
        Effect::GenerateClassic(g) => {
            assert_eq!(g.history.len(), 2);
            assert!(g.images.is_none());
        }
        _ => panic!("expected a generation"),
    }
}

#[test]
fn send_with_image_attaches_it() {
    let mut s = session();
    s.input_text = "what is this".to_string();
    let effects = s.classic_send_input(Some(AttachmentData::Image(b"hello".to_vec())));
    match &effects[1] {
        Effect::GenerateClassic(g) => {
            assert_eq!(g.images, Some(vec!["aGVsbG8=".to_string()]));
            let r = classic_chat_request(g);
            assert!(r.stream);
            assert_eq!(r.messages.len(), 2);
            assert_eq!(r.messages[1].images, Some(vec!["aGVsbG8=".to_string()]));
            assert!(r.messages[0].images.is_none());
        }
        _ => panic!("expected a generation"),
    }
}

#[test]
fn chunks_count_tokens_as_they_come() {
    let mut s = session();
    s.input_text = "hi".to_string();
    s.classic_send_input(None);
    s.classic_apply_event(ClassicEvent::StreamChunk {
        tab_id: 0,
        chunk: "Hi".to_string(),
        prompt_tokens: None,
        completion_tokens: Some(1),
    });
    s.classic_apply_event(ClassicEvent::StreamChunk {
        tab_id: 0,
        chunk: " there".to_string(),
        prompt_tokens: Some(7),
        completion_tokens: Some(2),
    });
    assert_eq!(s.tabs[0].messages[2].content, "Hi there");
    assert_eq!(s.stats.total_prompt_tokens, 7);
    assert_eq!(s.stats.total_completion_tokens, 3);
    let effects = s.classic_apply_event(ClassicEvent::StreamFinished { tab_id: 0 });
    assert!(!s.is_generating);
    assert!(matches!(effects[0], Effect::SaveChats));
}

#[test]
fn classic_error_text() {
    let mut s = session();
    s.input_text = "hi".to_string();
    s.classic_send_input(None);
    s.classic_apply_event(ClassicEvent::StreamError { tab_id: 0, error: "x".to_string() });
    assert_eq!(s.tabs[0].messages[2].content, "Error: x");
    assert_eq!(
        classic_connection_failed_message("http://h"),
        "Connection failed. Ensure Ollama is running at http://h"
    );
}

#[test]
fn classic_stream_actions() {
    let c = ChatChunk {
        content: Some("a".to_string()),
        done: Some(true),
        prompt_eval_count: Some(1),
        eval_count: Some(2),
        eval_duration: None,
    };
    match classic_on_stream_input(StreamInput::Line(Some(c))) {
        ClassicAction::Chunk { text, prompt_tokens, completion_tokens, last } => {
            assert_eq!(text, "a");
            assert_eq!(prompt_tokens, Some(1));
            assert_eq!(completion_tokens, Some(2));
            assert!(last);
        }
        _ => panic!("expected a chunk"),
    }
    assert!(matches!(classic_on_stream_input(StreamInput::EndOfStream), ClassicAction::Finish));
}

#[test]
fn classic_request_sets_images_on_last_user() {
    let g = ClassicGeneration {
        tab_id: 0,
        base_url: "http://h".to_string(),
        model: "m".to_string(),
        history: vec![Message::user("a".to_string()), Message::assistant("b".to_string())],
        images: None,
    };
    let r = classic_chat_request(&g);
    assert_eq!(r.model, "m");
    assert_eq!(r.messages.len(), 2);
    assert!(r.messages[0].images.is_none());
}

#[test]
fn classic_edit_and_unload_all() {
    let mut s = session();
    s.input_text = "q".to_string();
    s.classic_send_input(None);
    let effects = s.classic_save_edit(1, "q2".to_string());
    assert!(matches!(effects[0], Effect::CancelGeneration));
    assert_eq!(s.tabs[0].messages[1].content, "q2");
    assert_eq!(s.tabs[0].messages.len(), 3);
    let all = s.classic_unload_all_models();
    assert_eq!(all.len(), 1);
    assert!(matches!(all[0], Effect::FetchRunningModels));
    let cleared = s.classic_clear_conversation();
    assert!(s.tabs[0].messages.is_empty());
    assert!(matches!(cleared.last(), Some(Effect::SaveChats)));
}

#[test]
fn classic_rename_saves_and_ignores_blank_titles() {
    let mut s = session();
    s.begin_rename(0, "Notes".to_string());
    let effects = s.classic_save_rename(0);
    assert_eq!(s.tabs[0].title, "Notes");
    assert_eq!(s.editing_tab_id, None);
    assert!(s.rename_input.is_empty());
    assert_eq!(effects.len(), 1);
    assert!(matches!(effects[0], Effect::SaveChats));
    s.begin_rename(0, " \t ".to_string());
    s.classic_save_rename(0);
    assert_eq!(s.tabs[0].title, "Notes");
}

#[test]
fn classic_queued_events_are_taken_in_order() {
    let mut s = session();
    s.input_text = "hi".to_string();
    s.classic_send_input(None);
    let chunk = |c: &str, p: Option<usize>| ClassicEvent::StreamChunk {
        tab_id: 0,
        chunk: c.to_string(),
        prompt_tokens: p,
        completion_tokens: Some(1),
    };
    let (effects, applied) = s.classic_apply_events(vec![
        chunk("a", None),
        chunk("b", Some(4)),
        ClassicEvent::StreamFinished { tab_id: 0 },
    ]);
    assert_eq!(applied, 3);
    assert_eq!(s.tabs[0].messages[2].content, "ab");
    assert_eq!(s.stats.total_prompt_tokens, 4);
    assert_eq!(s.stats.total_completion_tokens, 2);
    assert_eq!(effects.len(), 1);
    assert!(matches!(effects[0], Effect::SaveChats));

    s.stats.total_completion_tokens = usize::MAX;
    assert!(!s.classic_event_fits_now(&chunk("c", None)));
    let (_, applied) = s.classic_apply_events(vec![chunk("c", None)]);
    assert_eq!(applied, 0);
    assert_eq!(s.tabs[0].messages[2].content, "ab");
}
