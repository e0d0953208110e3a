use ollama_studio::chat::Message;
use ollama_studio::request::{
    attachment_read_error, build_chat_request, chat_url, connection_failed_message, encode_image,
    generate_url, is_image_extension, is_image_kind, is_image_lowercase, is_image_path, ps_url,
    tags_url,
    unload_request, AttachmentData, GenerationRequest, MAX_HISTORY_MESSAGES,
};

const BASE: &str = "http://127.0.0.1:11434";

fn request(system_prompt: &str, history: Vec<Message>) -> GenerationRequest {
    GenerationRequest {
        tab_id: 3,
        base_url: BASE.to_string(),
        model: "llama3.2:1b".to_string(),
        system_prompt: system_prompt.to_string(),
        temperature_bits: 0.7f32.to_bits(),
        top_p_bits: 0.9f32.to_bits(),
        history,
        attached_file: None,
    }
}

#[test]
fn endpoints() {
    assert_eq!(chat_url(BASE), "http://127.0.0.1:11434/api/chat");
    assert_eq!(tags_url(BASE), "http://127.0.0.1:11434/api/tags");
    assert_eq!(ps_url(BASE), "http://127.0.0.1:11434/api/ps");
    assert_eq!(generate_url(BASE), "http://127.0.0.1:11434/api/generate");
    assert_eq!(
        connection_failed_message(BASE),
        "Connection failed. Ensure Ollama is active at http://127.0.0.1:11434"
    );
}

#[test]
fn unload_keeps_nothing_alive() {
    let r = unload_request("llama3.2:1b");
    assert_eq!(r.model, "llama3.2:1b");
    assert_eq!(r.keep_alive, 0);
}

#[test]
fn image_extensions_ignore_case() {
    assert!(is_image_extension("png"));
    assert!(is_image_extension("PNG"));
    assert!(is_image_extension("JpEg"));
    assert!(is_image_extension("svg"));
    assert!(!is_image_extension("txt"));
    assert!(!is_image_extension(""));
    assert!(!is_image_kind(None));
    assert!(is_image_kind(Some("Gif")));
}

#[test]
fn image_paths() {
    assert!(is_image_path("/home/me/photo.JPG"));
    assert!(is_image_path("shot.webp"));
    assert!(!is_image_path("/home/me/notes.txt"));
    assert!(!is_image_path("/home/me/README"));
    assert!(!is_image_path(".png"));
    assert!(is_image_path("..png"));
    assert!(!is_image_path("a."));
    assert!(!is_image_path("photo.png.txt"));
    assert!(is_image_path("notes.txt.Gif"));
}

#[test]
fn base64_encoding() {
    assert_eq!(encode_image(b"hello"), "aGVsbG8=");
    assert_eq!(encode_image(b""), "");
    assert_eq!(encode_image(&[0xff, 0xfe, 0xfd]), "//79");
}

#[test]
fn read_errors() {
    assert_eq!(attachment_read_error("a.png", true, "denied"), "Failed to read image file 'a.png': denied");
    assert_eq!(attachment_read_error("a.txt", false, "gone"), "Failed to read attachment 'a.txt': gone");
}

fn roles_and_texts(r: &ollama_studio::request::ChatRequest) -> Vec<(String, String)> {
    r.messages.iter().map(|m| (m.role.clone(), m.content.clone())).collect()
}

#[test]
fn request_without_instructions_or_file() {
    let req = request("  ", vec![Message::user("hi".to_string())]);
    let r = build_chat_request(&req, None);
    assert_eq!(r.model, "llama3.2:1b");
    assert!(r.stream);
    assert_eq!(f32::from_bits(r.temperature_bits), 0.7);
    assert_eq!(f32::from_bits(r.top_p_bits), 0.9);
    assert_eq!(roles_and_texts(&r), vec![("user".to_string(), "hi".to_string())]);
    assert!(r.messages[0].images.is_none());
}

#[test]
fn instructions_open_the_request() {
    let req = request("Be brief.", vec![Message::user("hi".to_string())]);
    let r = build_chat_request(&req, None);
    assert_eq!(
        roles_and_texts(&r),
        vec![("system".to_string(), "Be brief.".to_string()), ("user".to_string(), "hi".to_string())]
    );
}

#[test]
fn long_conversations_are_cut_to_the_most_recent() {
    let history: Vec<Message> = (0..30).map(|i| Message::user(format!("m{}", i))).collect();
    let r = build_chat_request(&request("", history), None);
    assert_eq!(r.messages.len(), MAX_HISTORY_MESSAGES);
    assert_eq!(r.messages[0].content, "m10");
    assert_eq!(r.messages[19].content, "m29");
}

#[test]
fn image_goes_on_the_last_user_message() {
    let history = vec![
        Message::user("first".to_string()),
        Message::assistant("ok".to_string()),
        Message::user("look".to_string()),
    ];
    let r = build_chat_request(&request("", history), Some(AttachmentData::Image(b"hello".to_vec())));
    assert!(r.messages[0].images.is_none());
    assert!(r.messages[1].images.is_none());
    assert_eq!(r.messages[2].images, Some(vec!["aGVsbG8=".to_string()]));
    assert_eq!(r.messages[2].content, "look");
}

#[test]
fn text_file_goes_before_the_last_user_message() {
    let history = vec![Message::user("summarize".to_string())];
    let r = build_chat_request(
        &request("", history),
        Some(AttachmentData::Text { path: "/tmp/a.txt".to_string(), content: "body".to_string() }),
    );
    assert_eq!(r.messages[0].content, "Contents of /tmp/a.txt:\nbody\n\nUser Prompt: summarize");
    assert!(r.messages[0].images.is_none());
}

#[test]
fn attachment_without_user_message_is_ignored() {
    let history = vec![Message::assistant("hello".to_string())];
    let r = build_chat_request(&request("", history), Some(AttachmentData::Image(vec![1, 2, 3])));
    assert!(r.messages[0].images.is_none());
}

#[test]
fn windows_style_paths() {
    assert!(is_image_path("C:\\Users\\u\\a.PNG"));
    assert!(!is_image_path("C:\\Users\\u\\notes.txt"));
    assert!(!is_image_path("C:\\Users\\u\\README"));
    assert!(is_image_path("/home/u/pictures.d/cat.jpeg"));
}

#[test]
fn lower_case_image_extensions() {
    assert!(is_image_lowercase("png"));
    assert!(is_image_lowercase("tiff"));
    assert!(!is_image_lowercase("PNG"));
    assert!(!is_image_lowercase("txt"));
}
