use ollama_studio::chat::{ChatTab, Message};
use ollama_studio::models::RunningModel;
use ollama_studio::session::{AppEvent, Effect, Session};
use ollama_studio::settings::AppSettings;
use ollama_studio::tabs::default_tabs;

fn tab(id: usize, title: &str, model: &str, messages: Vec<Message>) -> ChatTab {
    ChatTab {
        id,
        title: title.to_string(),
        messages,
        selected_model: model.to_string(),
        system_prompt: String::new(),
        temperature_bits: 0.7f32.to_bits(),
        top_p_bits: 0.9f32.to_bits(),
    }
}

fn two_tab_session() -> Session {
    Session::new(
        AppSettings::default(),
        vec![
            tab(4, "Four", "m-a", vec![Message::user("q".to_string()), Message::assistant("a".to_string())]),
            tab(9, "Nine", "m-b", vec![]),
        ],
    )
}

fn unloads(effects: &[Effect]) -> Vec<String> {
    effects
        .iter()
        .filter_map(|e| match e {
            Effect::UnloadModel(m) => Some(m.clone()),
            _ => None,
        })
        .collect()
}

#[test]
fn new_session_starts_on_first_tab() {
    let s = two_tab_session();
    assert_eq!(s.active_tab_id, 4);
    assert_eq!(s.next_tab_id, 10);
    assert_eq!(s.available_models, vec!["llama3.2-vision:latest".to_string(), "llama3.2:1b".to_string()]);
    assert!(!s.is_generating);
    assert!(!s.is_dirty);
    assert_eq!(s.active_tab_index(), Some(0));
}

#[test]
fn new_session_from_default_tabs() {
    let s = Session::new(AppSettings::default(), default_tabs());
    assert_eq!(s.tabs.len(), 1);
    assert_eq!(s.tabs[0].title, "New Chat");
    assert_eq!(s.active_tab_id, 0);
    assert_eq!(s.next_tab_id, 1);
}

#[test]
fn new_chat_gets_fresh_id_and_becomes_active() {
    let mut s = two_tab_session();
    let effects = s.create_new_chat();
    assert_eq!(s.tabs.len(), 3);
    let t = &s.tabs[2];
    assert_eq!(t.id, 10);
    assert_eq!(t.title, "Chat 11");
    assert_eq!(t.selected_model, "llama3.2-vision:latest");
    assert!(t.messages.is_empty());
    assert_eq!(f32::from_bits(t.temperature_bits), 0.7);
    assert_eq!(s.active_tab_id, 10);
    assert_eq!(s.next_tab_id, 11);
    assert!(s.is_dirty);
    assert!(s.scroll_to_bottom);
    assert_eq!(unloads(&effects), vec!["m-a".to_string()]);
    match effects.last() {
        Some(Effect::Toast { text, secs }) => {
            assert_eq!(text, "Created new chat");
            assert_eq!(*secs, 2);
        }
        _ => panic!("expected a notice"),
    }
}

#[test]
fn new_chat_while_generating_stops_first() {
    let mut s = two_tab_session();
    s.is_generating = true;
    let effects = s.create_new_chat();
    assert!(matches!(effects[0], Effect::CancelGeneration));
    assert_eq!(unloads(&effects), vec!["m-a".to_string(), "m-a".to_string()]);
    assert!(!s.is_generating);
}

#[test]
fn switching_to_the_active_tab_does_nothing() {
    let mut s = two_tab_session();
    let effects = s.switch_active_tab(4);
    assert!(effects.is_empty());
    assert!(!s.scroll_to_bottom);
}

#[test]
fn switching_unloads_the_model_left() {
    let mut s = two_tab_session();
    let effects = s.switch_active_tab(9);
    assert_eq!(unloads(&effects), vec!["m-a".to_string()]);
    assert_eq!(s.active_tab_id, 9);
    assert!(s.scroll_to_bottom);
}

#[test]
fn closing_the_active_tab_activates_the_first() {
    let mut s = two_tab_session();
    let effects = s.close_tab(4);
    assert_eq!(s.tabs.len(), 1);
    assert_eq!(s.tabs[0].id, 9);
    assert_eq!(s.active_tab_id, 9);
    assert!(s.is_dirty);
    // The closed tab is gone, so no model is unloaded on the switch.
    assert!(unloads(&effects).is_empty());
}

#[test]
fn closing_another_tab_keeps_the_active_one() {
    let mut s = two_tab_session();
    let effects = s.close_tab(9);
    assert!(effects.is_empty());
    assert_eq!(s.active_tab_id, 4);
    assert_eq!(s.tabs.len(), 1);
}

#[test]
fn rename_takes_non_blank_titles() {
    let mut s = two_tab_session();
    s.begin_rename(9, "Nine".to_string());
    assert_eq!(s.editing_tab_id, Some(9));
    s.rename_input = "Recipes".to_string();
    s.save_rename(9);
    assert_eq!(s.tabs[1].title, "Recipes");
    assert_eq!(s.editing_tab_id, None);
    assert!(s.rename_input.is_empty());
    s.begin_rename(9, "   ".to_string());
    s.save_rename(9);
    assert_eq!(s.tabs[1].title, "Recipes");
}

#[test]
fn selecting_another_model_unloads_the_old_one() {
    let mut s = two_tab_session();
    let effects = s.select_model("m-a".to_string());
    assert!(effects.is_empty());
    assert!(!s.is_dirty);
    let effects = s.select_model("m-c".to_string());
    assert_eq!(unloads(&effects), vec!["m-a".to_string()]);
    assert_eq!(s.tabs[0].selected_model, "m-c");
    assert!(s.is_dirty);
}

#[test]
fn send_adds_exchange_and_starts_generation() {
    let mut s = two_tab_session();
    s.input_text = "  tell me more \n".to_string();
    s.selected_file = Some("/tmp/a.png".to_string());
    let effects = s.send_input();
    assert_eq!(effects.len(), 1);
    let msgs = &s.tabs[0].messages;
    assert_eq!(msgs.len(), 4);
    assert_eq!(msgs[2].content, "tell me more");
    assert_eq!(msgs[2].role, "user");
    assert_eq!(msgs[3].role, "assistant");
    assert!(msgs[3].content.is_empty());
    assert!(s.input_text.is_empty());
    assert!(s.selected_file.is_none());
    assert!(s.is_generating);
    match &effects[0] {
        Effect::Generate(g) => {
            assert_eq!(g.tab_id, 4);
            assert_eq!(g.model, "m-a");
            assert_eq!(g.base_url, "http://127.0.0.1:11434");
            assert_eq!(g.history.len(), 3);
            assert_eq!(g.history[2].content, "tell me more");
            assert_eq!(g.attached_file.as_deref(), Some("/tmp/a.png"));
        }
        _ => panic!("expected a generation"),
    }
}

#[test]
fn blank_input_or_running_generation_sends_nothing() {
    let mut s = two_tab_session();
    s.input_text = " \t ".to_string();
    assert!(s.send_input().is_empty());
    assert_eq!(s.tabs[0].messages.len(), 2);
    s.input_text = "hi".to_string();
    s.is_generating = true;
    assert!(s.send_input().is_empty());
    assert_eq!(s.input_text, "hi");
}

#[test]
fn streamed_reply_is_the_concatenation() {
    let mut s = two_tab_session();
    s.input_text = "hi".to_string();
    s.send_input();
    for piece in ["Hel", "lo", "!"] {
        s.apply_event(AppEvent::StreamChunk { tab_id: 4, chunk: piece.to_string() });
    }
    assert_eq!(s.tabs[0].messages[3].content, "Hello!");
    s.apply_event(AppEvent::StreamFinished {
        tab_id: 4,
        prompt_tokens: Some(10),
        completion_tokens: Some(3),
        eval_duration_secs_bits: Some(0.5f64.to_bits()),
    });
    assert!(!s.is_generating);
    assert_eq!(s.stats.total_prompt_tokens, 10);
    assert_eq!(s.stats.total_completion_tokens, 3);
    assert_eq!(s.tabs[0].messages[3].completion_tokens, Some(3));
    assert!(s.is_dirty);
}

#[test]
fn stream_error_replaces_the_reply_and_notifies() {
    let mut s = two_tab_session();
    s.input_text = "hi".to_string();
    s.send_input();
    let effects = s.apply_event(AppEvent::StreamError { tab_id: 4, error: "boom".to_string() });
    assert_eq!(s.tabs[0].messages[3].content, "\u{26a0}\u{fe0f} Error: boom");
    assert!(!s.is_generating);
    match &effects[0] {
        Effect::Toast { text, secs } => {
            assert_eq!(text, "Error: boom");
            assert_eq!(*secs, 5);
        }
        _ => panic!("expected a notice"),
    }
}

#[test]
fn fetched_models_replace_unknown_selection() {
    let mut s = two_tab_session();
    s.apply_event(AppEvent::ModelsFetched(vec!["x".to_string(), "y".to_string()]));
    assert_eq!(s.tabs[0].selected_model, "x");
    assert_eq!(s.tabs[1].selected_model, "m-b");
    assert_eq!(s.available_models, vec!["x".to_string(), "y".to_string()]);
    s.apply_event(AppEvent::ModelsFetched(vec!["z".to_string(), "x".to_string()]));
    assert_eq!(s.tabs[0].selected_model, "x");
    s.apply_event(AppEvent::ModelsFetched(vec![]));
    assert_eq!(s.available_models, vec!["z".to_string(), "x".to_string()]);
}

#[test]
fn running_models_and_picked_file() {
    let mut s = two_tab_session();
    s.apply_event(AppEvent::RunningModelsFetched(vec![RunningModel { name: "m-a".to_string(), size: 10, size_vram: 5 }]));
    assert_eq!(s.stats.running_models.len(), 1);
    s.apply_event(AppEvent::FilePicked(Some("/x".to_string())));
    assert_eq!(s.selected_file.as_deref(), Some("/x"));
    let effects = s.unload_all_models();
    assert_eq!(unloads(&effects), vec!["m-a".to_string()]);
    assert!(matches!(effects[1], Effect::FetchRunningModels));
    match &effects[2] {
        Effect::Toast { text, secs } => {
            assert_eq!(text, "Unloaded all models from RAM/VRAM");
            assert_eq!(*secs, 3);
        }
        _ => panic!("expected a notice"),
    }
}

#[test]
fn edit_resends_from_the_edited_message() {
    let mut s = two_tab_session();
    s.begin_edit(0, "q".to_string());
    assert_eq!(s.editing_msg, Some((s.active_tab_id, 0, "q".to_string())));
    s.cancel_edit();
    assert!(s.editing_msg.is_none());
    s.begin_edit(0, "q".to_string());
    let effects = s.save_edit(0, "new question".to_string());
    assert!(s.editing_msg.is_none());
    let msgs = &s.tabs[0].messages;
    assert_eq!(msgs.len(), 2);
    assert_eq!(msgs[0].content, "new question");
    assert!(msgs[1].content.is_empty());
    match effects.last() {
        Some(Effect::Generate(g)) => {
            assert_eq!(g.history.len(), 1);
            assert_eq!(g.history[0].content, "new question");
        }
        _ => panic!("expected a generation"),
    }
}

#[test]
fn regenerate_asks_again() {
    let mut s = two_tab_session();
    let effects = s.regenerate(1);
    assert_eq!(s.tabs[0].messages.len(), 2);
    assert!(s.tabs[0].messages[1].content.is_empty());
    match effects.last() {
        Some(Effect::Generate(g)) => assert_eq!(g.history.len(), 1),
        _ => panic!("expected a generation"),
    }
}

#[test]
fn clear_empties_the_active_conversation() {
    let mut s = two_tab_session();
    s.is_generating = true;
    let effects = s.clear_conversation();
    assert!(matches!(effects[0], Effect::CancelGeneration));
    assert!(s.tabs[0].messages.is_empty());
    assert!(s.is_dirty);
    assert!(!s.is_generating);
}

#[test]
fn autosave_waits_two_seconds() {
    let mut s = two_tab_session();
    assert!(!s.take_autosave(5000));
    s.create_new_chat();
    assert!(!s.take_autosave(1999));
    assert!(s.take_autosave(2000));
    assert!(!s.is_dirty);
    assert!(!s.take_autosave(9000));
}

#[test]
fn stop_and_exit_unload_the_active_model() {
    let mut s = two_tab_session();
    s.is_generating = true;
    let effects = s.stop_generation();
    assert!(matches!(effects[0], Effect::CancelGeneration));
    assert_eq!(unloads(&effects), vec!["m-a".to_string()]);
    assert!(!s.is_generating);
    assert_eq!(unloads(&s.exit_effects()), vec!["m-a".to_string()]);
}

#[test]
fn queued_events_are_taken_in_order() {
    let mut s = two_tab_session();
    s.input_text = "hi".to_string();
    s.send_input();
    let queued = vec![
        AppEvent::StreamChunk { tab_id: 4, chunk: "Hel".to_string() },
        AppEvent::StreamChunk { tab_id: 4, chunk: "lo".to_string() },
        AppEvent::StreamError { tab_id: 9, error: "x".to_string() },
        AppEvent::StreamChunk { tab_id: 4, chunk: "!".to_string() },
        AppEvent::StreamFinished {
            tab_id: 4,
            prompt_tokens: Some(2),
            completion_tokens: Some(3),
            eval_duration_secs_bits: None,
        },
    ];
    let (effects, applied) = s.apply_events(queued);
    assert_eq!(applied, 5);
    assert_eq!(s.tabs[0].messages[3].content, "Hello!");
    assert_eq!(s.stats.total_completion_tokens, 3);
    assert!(!s.is_generating);
    assert_eq!(effects.len(), 1);
    assert!(matches!(&effects[0], Effect::Toast { text, secs: 5 } if text == "Error: x"));
}

#[test]
fn queued_events_stop_before_an_overflowing_count() {
    let mut s = two_tab_session();
    s.stats.total_prompt_tokens = usize::MAX - 1;
    let finished = |p: usize| AppEvent::StreamFinished {
        tab_id: 4,
        prompt_tokens: Some(p),
        completion_tokens: None,
        eval_duration_secs_bits: None,
    };
    assert!(s.event_fits_now(&finished(1)));
    assert!(!s.event_fits_now(&finished(2)));
    let (_, applied) = s.apply_events(vec![finished(1), finished(1), finished(0)]);
    assert_eq!(applied, 1);
    assert_eq!(s.stats.total_prompt_tokens, usize::MAX);
}

#[test]
fn new_chats_take_consecutive_ids() {
    let mut s = two_tab_session();
    for _ in 0..3 {
        s.create_new_chat();
    }
    let ids: Vec<usize> = s.tabs.iter().map(|t| t.id).collect();
    assert_eq!(ids, vec![4, 9, 10, 11, 12]);
    assert_eq!(s.active_tab_id, 12);
    assert_eq!(s.next_tab_id, 13);
}

#[test]
fn closing_keeps_a_sound_tab_list() {
    let mut s = two_tab_session();
    s.close_tab(4);
    assert_eq!(s.tabs.len(), 1);
    assert_eq!(s.active_tab_id, 9);
    assert!(s.active_tab_index().is_some());
}
