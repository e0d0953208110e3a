use ollama_studio::chat::Message;
use ollama_studio::conversation::{
    add_exchange, append_chunk, edit_and_resend, history_for_request, keep_most_recent,
    record_reply_stats, regenerate_from, replace_reply_text,
};

fn texts(msgs: &[Message]) -> Vec<(String, String)> {
    msgs.iter().map(|m| (m.role.clone(), m.content.clone())).collect()
}

fn pair(role: &str, content: &str) -> (String, String) {
    (role.to_string(), content.to_string())
}

#[test]
fn chunks_build_the_reply_in_order() {
    let mut msgs = vec![Message::user("hi".to_string()), Message::pending()];
    for piece in ["Hel", "lo", ", ", "world"] {
        append_chunk(&mut msgs, piece);
    }
    assert_eq!(texts(&msgs), vec![pair("user", "hi"), pair("assistant", "Hello, world")]);
}

#[test]
fn chunk_is_dropped_when_no_reply_is_awaited() {
    let mut msgs = vec![Message::user("hi".to_string())];
    append_chunk(&mut msgs, "lost");
    assert_eq!(texts(&msgs), vec![pair("user", "hi")]);
    let mut empty: Vec<Message> = Vec::new();
    append_chunk(&mut empty, "lost");
    assert!(empty.is_empty());
}

#[test]
fn statistics_go_on_the_reply() {
    let mut msgs = vec![Message::user("hi".to_string()), Message::assistant("yo".to_string())];
    record_reply_stats(&mut msgs, Some(3), Some(4), Some(1.5f64.to_bits()));
    assert_eq!(msgs[1].prompt_tokens, Some(3));
    assert_eq!(msgs[1].completion_tokens, Some(4));
    assert_eq!(msgs[1].eval_duration_secs_bits.map(f64::from_bits), Some(1.5));
    assert_eq!(msgs[0].prompt_tokens, None);
}

#[test]
fn failure_text_replaces_the_reply() {
    let mut msgs = vec![Message::user("hi".to_string()), Message::assistant("partial".to_string())];
    replace_reply_text(&mut msgs, "Error: down".to_string());
    assert_eq!(msgs[1].content, "Error: down");
}

#[test]
fn awaited_reply_is_not_sent() {
    let msgs = vec![Message::user("hi".to_string()), Message::pending()];
    assert_eq!(texts(&history_for_request(&msgs)), vec![pair("user", "hi")]);
    let answered = vec![Message::user("hi".to_string()), Message::assistant("yo".to_string())];
    assert_eq!(texts(&history_for_request(&answered)).len(), 2);
    let empty: Vec<Message> = Vec::new();
    assert!(history_for_request(&empty).is_empty());
}

#[test]
fn edit_cuts_the_conversation() {
    let mut msgs = vec![
        Message::user("a".to_string()),
        Message::assistant("b".to_string()),
        Message::user("c".to_string()),
        Message::assistant("d".to_string()),
    ];
    edit_and_resend(&mut msgs, 0, "A".to_string());
    assert_eq!(texts(&msgs), vec![pair("user", "A"), pair("assistant", "")]);
    assert_eq!(texts(&history_for_request(&msgs)), vec![pair("user", "A")]);
}

#[test]
fn regenerate_replaces_the_reply() {
    let mut msgs = vec![Message::user("a".to_string()), Message::assistant("b".to_string())];
    regenerate_from(&mut msgs, 1);
    assert_eq!(texts(&msgs), vec![pair("user", "a"), pair("assistant", "")]);
    regenerate_from(&mut msgs, 5);
    assert_eq!(texts(&msgs), vec![pair("user", "a"), pair("assistant", "")]);
}

#[test]
fn exchange_appends_question_and_awaited_reply() {
    let mut msgs: Vec<Message> = Vec::new();
    add_exchange(&mut msgs, "why?".to_string());
    assert_eq!(texts(&msgs), vec![pair("user", "why?"), pair("assistant", "")]);
}

#[test]
fn most_recent_messages_are_kept() {
    let mut msgs: Vec<Message> = (0..25).map(|i| Message::user(i.to_string())).collect();
    keep_most_recent(&mut msgs, 20);
    assert_eq!(msgs.len(), 20);
    assert_eq!(msgs[0].content, "5");
    assert_eq!(msgs[19].content, "24");
    let mut few: Vec<Message> = (0..3).map(|i| Message::user(i.to_string())).collect();
    keep_most_recent(&mut few, 20);
    assert_eq!(few.len(), 3);
}
