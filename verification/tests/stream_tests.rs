use ollama_studio::stream::{on_stream_input, ChatChunk, StreamAction, StreamInput, Timing};

fn chunk(content: Option<&str>, done: Option<bool>) -> ChatChunk {
    ChatChunk {
        content: content.map(|s| s.to_string()),
        done,
        prompt_eval_count: Some(12),
        eval_count: Some(34),
        eval_duration: Some(5_000_000),
    }
}

#[test]
fn piece_of_reply_is_reported() {
    match on_stream_input(StreamInput::Line(Some(chunk(Some("Hel"), Some(false))))) {
        StreamAction::Chunk(t) => assert_eq!(t, "Hel"),
        _ => panic!("expected a chunk"),
    }
    match on_stream_input(StreamInput::Line(Some(chunk(Some("lo"), None)))) {
        StreamAction::Chunk(t) => assert_eq!(t, "lo"),
        _ => panic!("expected a chunk"),
    }
}

#[test]
fn missing_message_counts_as_empty_text() {
    match on_stream_input(StreamInput::Line(Some(chunk(None, None)))) {
        StreamAction::Chunk(t) => assert_eq!(t, ""),
        _ => panic!("expected a chunk"),
    }
}

#[test]
fn last_line_carries_statistics() {
    match on_stream_input(StreamInput::Line(Some(chunk(Some("!"), Some(true))))) {
        StreamAction::LastChunk { text, prompt_tokens, completion_tokens, timing } => {
            assert_eq!(text, "!");
            assert_eq!(prompt_tokens, Some(12));
            assert_eq!(completion_tokens, Some(34));
            assert_eq!(timing, Timing::Reported(5_000_000));
        }
        _ => panic!("expected the last chunk"),
    }
}

#[test]
fn last_line_without_duration_is_timed_by_client() {
    let mut c = chunk(None, Some(true));
    c.eval_duration = None;
    match on_stream_input(StreamInput::Line(Some(c))) {
        StreamAction::LastChunk { timing, text, .. } => {
            assert_eq!(timing, Timing::MeasuredByClient);
            assert_eq!(text, "");
        }
        _ => panic!("expected the last chunk"),
    }
}

#[test]
fn undecodable_line_is_skipped() {
    assert!(matches!(on_stream_input(StreamInput::Line(None)), StreamAction::Continue));
}

#[test]
fn end_cancel_and_failure() {
    assert!(matches!(on_stream_input(StreamInput::EndOfStream), StreamAction::Finish));
    assert!(matches!(on_stream_input(StreamInput::Cancelled), StreamAction::CancelAndFinish));
    match on_stream_input(StreamInput::ReadFailed("connection reset".to_string())) {
        StreamAction::Fail(t) => assert_eq!(t, "Read error: connection reset"),
        _ => panic!("expected a failure"),
    }
}
