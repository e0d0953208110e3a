//! What is sent to the Ollama server: the addresses of its endpoints, the
//! request that unloads a model, and the chat request built from a
//! conversation, its instructions and an attached file.

use vstd::prelude::*;

use base64::Engine;

use crate::chat::{
    messages_view, system_role, system_role_string, user_role, Message, MessageView,
};
use crate::conversation::{keep_most_recent, most_recent};
use crate::models::names_view;
use crate::text::{combine, is_blank, is_blank_text};

verus! {

/// At most this many messages of a conversation are sent with a request.
pub const MAX_HISTORY_MESSAGES: usize = 20;

// ---------------------------------------------------------------------------
// Endpoints
// ---------------------------------------------------------------------------

/// The endpoint that streams a chat reply.
pub fn chat_url(base_url: &str) -> (r: String)
    ensures
        r@ == base_url@ + "/api/chat"@,
{
    combine(base_url, "/api/chat")
}

/// The endpoint that lists the installed models.
pub fn tags_url(base_url: &str) -> (r: String)
    ensures
        r@ == base_url@ + "/api/tags"@,
{
    combine(base_url, "/api/tags")
}

/// The endpoint that lists the models held in memory.
pub fn ps_url(base_url: &str) -> (r: String)
    ensures
        r@ == base_url@ + "/api/ps"@,
{
    combine(base_url, "/api/ps")
}

/// The endpoint that loads and unloads models.
pub fn generate_url(base_url: &str) -> (r: String)
    ensures
        r@ == base_url@ + "/api/generate"@,
{
    combine(base_url, "/api/generate")
}

/// The text shown when the chat endpoint cannot be reached.
pub fn connection_failed_message(base_url: &str) -> (r: String)
    ensures
        r@ == "Connection failed. Ensure Ollama is active at "@ + base_url@,
{
    combine("Connection failed. Ensure Ollama is active at ", base_url)
}

/// The request that asks the server to drop `model` from memory at once:
/// a generation request with no prompt and no time to keep the model.
pub struct UnloadRequest {
    pub model: String,
    pub keep_alive: i32,
}

/// The request that unloads `model`.
pub fn unload_request(model: &str) -> (r: UnloadRequest)
    ensures
        r.model@ == model@,
        r.keep_alive == 0,
{
    UnloadRequest { model: String::from_str(model), keep_alive: 0 }
}

// ---------------------------------------------------------------------------
// Attached files
// ---------------------------------------------------------------------------

/// The file extensions that are sent to the model as images.
pub open spec fn image_extensions() -> Seq<Seq<char>> {
    seq!["png"@, "jpg"@, "jpeg"@, "webp"@, "bmp"@, "tiff"@, "gif"@, "svg"@]
}

/// The lower-case form of a text, as `str::to_lowercase` gives it.
pub uninterp spec fn unicode_lowercase(s: Seq<char>) -> Seq<char>;

/// Calls `str::to_lowercase`, whose result depends on its argument alone
/// (the Unicode case mapping compiled into the standard library); the
/// contract names that result and says nothing more of it.
#[verifier::external_body]
fn to_lowercase(s: &str) -> (r: String)
    ensures
        r@ == unicode_lowercase(s@),
{
    s.to_lowercase()
}

/// Whether `path` is a bare file name on every platform: not empty, not `.`
/// or `..`, and free of the characters that separate or prefix path
/// components (slash, backslash and colon).  Such a path is its own file
/// name.
pub open spec fn is_bare_file_name(path: Seq<char>) -> bool {
    &&& path.len() > 0
    &&& !path.contains('/')
    &&& !path.contains('\\')
    &&& !path.contains(':')
    &&& path != "."@
    &&& path != ".."@
}

/// The extension of a file name: none when the name holds no `.`, or when
/// its only `.` is its first character; otherwise the part after its last
/// `.`.
pub open spec fn name_extension(name: Seq<char>) -> Option<Seq<char>> {
    if exists|k: int| 0 < k < name.len() && name[k] == '.' {
        let k = choose|k: int|
            0 < k < name.len() && name[k] == '.' && forall|j: int| k < j < name.len() ==> name[j]
                != '.';
        Some(name.subrange(k + 1, name.len() as int))
    } else {
        None
    }
}

/// The text after the last `/` of a path, or the whole path when it holds
/// none.
pub open spec fn last_segment(path: Seq<char>) -> Seq<char>
    decreases path.len(),
{
    if path.len() == 0 {
        path
    } else if path.last() == '/' {
        Seq::empty()
    } else {
        last_segment(path.drop_last()).push(path.last())
    }
}

/// The text after the last `.` of a path, or the whole path when it holds
/// none.
pub open spec fn after_last_dot(path: Seq<char>) -> Seq<char>
    decreases path.len(),
{
    if path.len() == 0 {
        path
    } else if path.last() == '.' {
        Seq::empty()
    } else {
        after_last_dot(path.drop_last()).push(path.last())
    }
}

/// A character that separates path components on some platform.
pub open spec fn is_separator(c: char) -> bool {
    c == '/' || c == '\\'
}

/// Whether a path starts with two separators; on some platforms such a path
/// names a network share or a device, whose name is no file name.
pub open spec fn starts_with_two_separators(path: Seq<char>) -> bool {
    path.len() >= 2 && is_separator(path[0]) && is_separator(path[1])
}

/// Whether a path is split the same way on every platform: only `/`
/// separates its components (it holds no backslash and no colon, and does
/// not start with two slashes), and its last component is a file name.
pub open spec fn is_slash_path(path: Seq<char>) -> bool {
    &&& !path.contains('\\')
    &&& !path.contains(':')
    &&& !starts_with_two_separators(path)
    &&& is_bare_file_name(last_segment(path))
}

/// Whether a path ends in an extension on every platform: the text after
/// its last `.` is not empty and holds no separator and no colon, the
/// character before that `.` is no separator and no colon, and the path does
/// not start with two separators.  Whichever characters separate components,
/// the `.` then lies inside the last component and is not its first
/// character.
pub open spec fn has_plain_extension(path: Seq<char>) -> bool {
    let s = after_last_dot(path);
    let k = path.len() - s.len() - 1;
    &&& path.contains('.')
    &&& 0 < k
    &&& !is_separator(path[k - 1])
    &&& path[k - 1] != ':'
    &&& s.len() > 0
    &&& !s.contains('/')
    &&& !s.contains('\\')
    &&& !s.contains(':')
    &&& !starts_with_two_separators(path)
}

/// Whether a path ends in a stretch without `.` on every platform: the text
/// after its last `/` is not empty, holds no `.` and does not end with a
/// backslash, and the path does not start with two separators (in a
/// verbatim path `/` separates nothing).  Whatever the last component is,
/// it then holds no `.`.
pub open spec fn has_dotless_tail(path: Seq<char>) -> bool {
    let t = last_segment(path);
    &&& t.len() > 0
    &&& !t.contains('.')
    &&& t.last() != '\\'
    &&& !starts_with_two_separators(path)
}

/// The extension of a path where every platform agrees on it (`Some`, with
/// `None` inside for a path without extension), and `None` where the
/// platforms may differ.
pub open spec fn documented_extension(path: Seq<char>) -> Option<Option<Seq<char>>> {
    if is_slash_path(path) {
        Some(name_extension(last_segment(path)))
    } else if has_plain_extension(path) {
        Some(Some(after_last_dot(path)))
    } else if has_dotless_tail(path) {
        Some(None)
    } else {
        None
    }
}

/// Calls `Path::extension` on `path` and converts the result back to a
/// string (a path made from a `&str` is valid UTF-8, and so is the part of
/// it after a `.`).  The standard library documents the extension as the
/// part of the file name (the last component) after its final `.`, with
/// none when the name holds no `.` or only a leading one.  So it holds no
/// `.`, and wherever every platform splits the path alike
/// (`documented_extension`), it is the one stated there.  Which characters
/// split other paths depends on the platform; their extension is left
/// unsaid.
#[verifier::external_body]
fn path_extension(path: &str) -> (r: Option<String>)
    ensures
        r matches Some(e) ==> !e@.contains('.'),
        documented_extension(path@) matches Some(x) ==> x == match r {
            Some(e) => Some(e@),
            None => None,
        },
{
    std::path::Path::new(path).extension().and_then(|e| e.to_str()).map(|e| e.to_string())
}

/// The extensions, as strings.
fn image_extension_strings() -> (r: Vec<String>)
    ensures
        names_view(r@) == image_extensions(),
{
    let mut v: Vec<String> = Vec::new();
    v.push(String::from_str("png"));
    v.push(String::from_str("jpg"));
    v.push(String::from_str("jpeg"));
    v.push(String::from_str("webp"));
    v.push(String::from_str("bmp"));
    v.push(String::from_str("tiff"));
    v.push(String::from_str("gif"));
    v.push(String::from_str("svg"));
    assert(names_view(v@) =~= image_extensions());
    v
}

/// Whether a lower-case extension is one of the image extensions.
pub fn is_image_lowercase(lower: &str) -> (r: bool)
    ensures
        r == image_extensions().contains(lower@),
{
    let exts = image_extension_strings();
    let wanted = String::from_str(lower);
    let mut i: usize = 0;
    while i < exts.len()
        invariant
            i <= exts@.len(),
            names_view(exts@) == image_extensions(),
            wanted@ == lower@,
            forall|j: int| 0 <= j < i ==> exts@[j]@ != lower@,
        decreases exts@.len() - i,
    {
        if exts[i] == wanted {
            assert(names_view(exts@)[i as int] == lower@);
            assert(image_extensions()[i as int] == lower@);
            return true;
        }
        i = i + 1;
    }
    proof {
        if image_extensions().contains(lower@) {
            let k = choose|k: int| 0 <= k < image_extensions().len() && image_extensions()[k] == lower@;
            assert(names_view(exts@)[k] == exts@[k]@);
        }
    }
    false
}

/// Whether a file with extension `ext` is sent as an image: its lower-case
/// form is one of the image extensions.
pub fn is_image_extension(ext: &str) -> (r: bool)
    ensures
        r == image_extensions().contains(unicode_lowercase(ext@)),
{
    let lower = to_lowercase(ext);
    is_image_lowercase(lower.as_str())
}

/// Whether a file with the extension `ext` (`None` when the path has none)
/// is sent as an image.
pub fn is_image_kind(ext: Option<&str>) -> (r: bool)
    ensures
        r == match ext {
            Some(e) => image_extensions().contains(unicode_lowercase(e@)),
            None => false,
        },
{
    match ext {
        Some(e) => is_image_extension(e),
        None => false,
    }
}

/// Whether the file at `path` is sent as an image, judged by its extension:
/// it has one whose lower-case form is an image extension.  Wherever every
/// platform agrees on the extension (full paths with slash or backslash
/// separators that end in a file name with or without extension, and bare
/// file names), the answer is fixed by it; elsewhere it comes from the
/// platform's path syntax, and a file is then sent as an image only if it
/// has some extension, free of `.`, whose lower-case form is an image
/// extension.
pub fn is_image_path(path: &str) -> (r: bool)
    ensures
        r ==> exists|e: Seq<char>|
            !e.contains('.') && image_extensions().contains(#[trigger] unicode_lowercase(e)),
        documented_extension(path@) matches Some(x) ==> r == match x {
            Some(e) => image_extensions().contains(unicode_lowercase(e)),
            None => false,
        },
{
    let ext = path_extension(path);
    match ext {
        Some(e) => {
            let r = is_image_extension(e.as_str());
            if r {
                assert(!e@.contains('.') && image_extensions().contains(unicode_lowercase(e@)));
            }
            r
        },
        None => false,
    }
}

/// The text reported when an attached file cannot be read, given the
/// description of the failure.
pub fn attachment_read_error(path: &str, is_image: bool, reason: &str) -> (r: String)
    ensures
        r@ == (if is_image {
            "Failed to read image file '"@
        } else {
            "Failed to read attachment '"@
        }) + path@ + "': "@ + reason@,
{
    let mut s = if is_image {
        String::from_str("Failed to read image file '")
    } else {
        String::from_str("Failed to read attachment '")
    };
    s.append(path);
    s.append("': ");
    s.append(reason);
    s
}

/// The character of the standard Base64 alphabet (RFC 4648) for a six-bit
/// value: `A`-`Z`, `a`-`z`, `0`-`9`, then `+` and `/`.
pub open spec fn base64_digit(v: int) -> char {
    if v < 26 {
        (65 + v) as char
    } else if v < 52 {
        (97 + (v - 26)) as char
    } else if v < 62 {
        (48 + (v - 52)) as char
    } else if v == 62 {
        '+'
    } else {
        '/'
    }
}

/// The standard Base64 encoding (RFC 4648, with `=` padding) of a sequence
/// of bytes: every group of three bytes becomes four digits of six bits
/// each, high bits first; a last group of one or two bytes is filled with
/// zero bits and the missing digits are written as `=`.
pub open spec fn base64_standard(bytes: Seq<u8>) -> Seq<char>
    decreases bytes.len(),
{
    if bytes.len() == 0 {
        Seq::empty()
    } else {
        let b0 = bytes[0] as int;
        let b1 = if bytes.len() > 1 { bytes[1] as int } else { 0 };
        let b2 = if bytes.len() > 2 { bytes[2] as int } else { 0 };
        let group = seq![
            base64_digit(b0 / 4),
            base64_digit((b0 % 4) * 16 + b1 / 16),
            if bytes.len() > 1 { base64_digit((b1 % 16) * 4 + b2 / 64) } else { '=' },
            if bytes.len() > 2 { base64_digit(b2 % 64) } else { '=' },
        ];
        if bytes.len() <= 3 {
            group
        } else {
            group + base64_standard(bytes.subrange(3, bytes.len() as int))
        }
    }
}

/// The encoding has four characters for every started group of three
/// bytes.
pub proof fn lemma_base64_length(bytes: Seq<u8>)
    ensures
        base64_standard(bytes).len() == 4 * ((bytes.len() + 2) / 3),
    decreases bytes.len(),
{
    if bytes.len() > 3 {
        lemma_base64_length(bytes.subrange(3, bytes.len() as int));
    }
}

/// Calls `base64::engine::general_purpose::STANDARD.encode`, which writes
/// the standard Base64 encoding with padding.  It panics when the length of
/// the encoding does not fit in `usize`, which the `requires` rules out.
#[verifier::external_body]
fn base64_encode(bytes: &[u8]) -> (r: String)
    requires
        4 * ((bytes@.len() + 2) / 3) <= usize::MAX,
    ensures
        r@ == base64_standard(bytes@),
{
    base64::engine::general_purpose::STANDARD.encode(bytes)
}

/// The Base64 text in which an image is sent.
pub fn encode_image(bytes: &[u8]) -> (r: String)
    requires
        4 * ((bytes@.len() + 2) / 3) <= usize::MAX,
    ensures
        r@ == base64_standard(bytes@),
        r@.len() == 4 * ((bytes@.len() + 2) / 3),
{
    proof {
        lemma_base64_length(bytes@);
    }
    base64_encode(bytes)
}

// ---------------------------------------------------------------------------
// Chat request
// ---------------------------------------------------------------------------

/// One message of a chat request, with the images attached to it.
pub struct ChatMessage {
    pub role: String,
    pub content: String,
    pub images: Option<Vec<String>>,
}

/// What a chat request message holds, as values.
pub struct ChatMessageView {
    pub role: Seq<char>,
    pub content: Seq<char>,
    pub images: Option<Seq<Seq<char>>>,
}

impl View for ChatMessage {
    type V = ChatMessageView;

    open spec fn view(&self) -> ChatMessageView {
        ChatMessageView {
            role: self.role@,
            content: self.content@,
            images: match self.images {
                Some(v) => Some(names_view(v@)),
                None => None,
            },
        }
    }
}

/// The views of the messages of a request.
pub open spec fn chat_messages_view(v: Seq<ChatMessage>) -> Seq<ChatMessageView> {
    v.map_values(|m: ChatMessage| m@)
}

/// A streamed chat request.  The sampling parameters are the bit patterns of
/// IEEE-754 singles.
pub struct ChatRequest {
    pub model: String,
    pub messages: Vec<ChatMessage>,
    pub stream: bool,
    pub temperature_bits: u32,
    pub top_p_bits: u32,
}

/// Everything a generation needs: where to send it, which model answers,
/// with which instructions and parameters, the conversation so far, and the
/// file the user attached, if any.
pub struct GenerationRequest {
    pub tab_id: usize,
    pub base_url: String,
    pub model: String,
    pub system_prompt: String,
    pub temperature_bits: u32,
    pub top_p_bits: u32,
    pub history: Vec<Message>,
    pub attached_file: Option<String>,
}

/// What a generation request holds, as values.
pub struct GenerationView {
    pub tab_id: usize,
    pub base_url: Seq<char>,
    pub model: Seq<char>,
    pub system_prompt: Seq<char>,
    pub temperature_bits: u32,
    pub top_p_bits: u32,
    pub history: Seq<MessageView>,
    pub attached_file: Option<Seq<char>>,
}

impl View for GenerationRequest {
    type V = GenerationView;

    open spec fn view(&self) -> GenerationView {
        GenerationView {
            tab_id: self.tab_id,
            base_url: self.base_url@,
            model: self.model@,
            system_prompt: self.system_prompt@,
            temperature_bits: self.temperature_bits,
            top_p_bits: self.top_p_bits,
            history: messages_view(self.history@),
            attached_file: match self.attached_file {
                Some(f) => Some(f@),
                None => None,
            },
        }
    }
}

/// The content of an attached file, once read.
pub enum AttachmentData {
    /// The bytes of an image.
    Image(Vec<u8>),
    /// The text of another file, with its path.
    Text { path: String, content: String },
}

/// What an attached file holds, as values.
pub enum AttachmentView {
    Image(Seq<u8>),
    Text { path: Seq<char>, content: Seq<char> },
}

/// The view of an optional attachment.
pub open spec fn attachment_view(a: Option<AttachmentData>) -> Option<AttachmentView> {
    match a {
        Some(AttachmentData::Image(b)) => Some(AttachmentView::Image(b@)),
        Some(AttachmentData::Text { path, content }) => Some(
            AttachmentView::Text { path: path@, content: content@ },
        ),
        None => None,
    }
}

/// A conversation message as it is sent, without images.
pub open spec fn as_sent(m: MessageView) -> ChatMessageView {
    ChatMessageView { role: m.role, content: m.content, images: None }
}

/// The messages that open a request: the instructions, when they are not
/// blank, then the most recent messages of the conversation.
pub open spec fn opening_messages(system_prompt: Seq<char>, history: Seq<MessageView>) -> Seq<
    ChatMessageView,
> {
    let sys: Seq<ChatMessageView> = if is_blank_text(system_prompt) {
        Seq::empty()
    } else {
        seq![ChatMessageView { role: system_role(), content: system_prompt, images: None }]
    };
    sys + most_recent(history, MAX_HISTORY_MESSAGES as nat).map_values(|m: MessageView| as_sent(m))
}

/// The position of the last message of the user, if there is one.
pub open spec fn last_user_index(ms: Seq<ChatMessageView>) -> Option<int>
    decreases ms.len(),
{
    if ms.len() == 0 {
        None
    } else if ms.last().role == user_role() {
        Some(ms.len() - 1)
    } else {
        last_user_index(ms.drop_last())
    }
}

/// The last user message is a message of the user in `ms`.
pub proof fn lemma_last_user_index(ms: Seq<ChatMessageView>)
    ensures
        last_user_index(ms) matches Some(i) ==> 0 <= i < ms.len() && ms[i].role == user_role(),
        last_user_index(ms) is None ==> forall|j: int| 0 <= j < ms.len() ==> ms[j].role != user_role(),
    decreases ms.len(),
{
    if ms.len() > 0 && ms.last().role != user_role() {
        lemma_last_user_index(ms.drop_last());
        assert forall|j: int| 0 <= j < ms.len() - 1 implies ms[j] == #[trigger] ms.drop_last()[j] by {}
        if last_user_index(ms) is None {
            assert forall|j: int| 0 <= j < ms.len() implies ms[j].role != user_role() by {
                if j < ms.len() - 1 {
                    assert(ms[j] == ms.drop_last()[j]);
                }
            }
        }
    }
}

/// The text of a user message that carries the content of the file at
/// `path`.
pub open spec fn with_file_prefix(path: Seq<char>, content: Seq<char>, prompt: Seq<char>) -> Seq<
    char,
> {
    "Contents of "@ + path + ":\n"@ + content + "\n\nUser Prompt: "@ + prompt
}

/// `ms` with its last user message changed by `f`, if it has one.
pub open spec fn on_last_user(ms: Seq<ChatMessageView>, f: spec_fn(ChatMessageView) -> ChatMessageView) -> Seq<ChatMessageView> {
    match last_user_index(ms) {
        Some(i) => ms.update(i, f(ms[i])),
        None => ms,
    }
}

/// The messages of the chat request for a conversation, its instructions
/// and an attached file: an image is attached to the last user message, the
/// text of another file is put before that message's text.
pub open spec fn request_messages(
    system_prompt: Seq<char>,
    history: Seq<MessageView>,
    attachment: Option<AttachmentView>,
) -> Seq<ChatMessageView> {
    let base = opening_messages(system_prompt, history);
    match attachment {
        Some(AttachmentView::Image(bytes)) => on_last_user(
            base,
            |m: ChatMessageView| ChatMessageView { images: Some(seq![base64_standard(bytes)]), ..m },
        ),
        Some(AttachmentView::Text { path, content }) => on_last_user(
            base,
            |m: ChatMessageView| ChatMessageView { content: with_file_prefix(path, content, m.content), ..m },
        ),
        None => base,
    }
}

pub(crate) proof fn lemma_chat_view_push(v: Seq<ChatMessage>, m: ChatMessage)
    ensures
        chat_messages_view(v.push(m)) == chat_messages_view(v).push(m@),
{
    assert(chat_messages_view(v.push(m)) =~= chat_messages_view(v).push(m@));
}

proof fn lemma_chat_view_update(v: Seq<ChatMessage>, i: int, m: ChatMessage)
    requires
        0 <= i < v.len(),
    ensures
        chat_messages_view(v.update(i, m)) == chat_messages_view(v).update(i, m@),
{
    assert(chat_messages_view(v.update(i, m)) =~= chat_messages_view(v).update(i, m@));
}

/// The position of the last message of the user.
pub(crate) fn find_last_user(msgs: &Vec<ChatMessage>) -> (r: Option<usize>)
    ensures
        r matches Some(i) ==> i < msgs@.len(),
        match r {
            Some(i) => last_user_index(chat_messages_view(msgs@)) == Some(i as int),
            None => last_user_index(chat_messages_view(msgs@)) is None,
        },
{
    let user = crate::chat::user_role_string();
    let mut i = msgs.len();
    assert(msgs@.take(i as int) =~= msgs@);
    while i > 0
        invariant
            i <= msgs@.len(),
            user@ == user_role(),
            last_user_index(chat_messages_view(msgs@)) == last_user_index(
                chat_messages_view(msgs@.take(i as int)),
            ),
        decreases i,
    {
        let ghost pre = chat_messages_view(msgs@.take(i as int));
        assert(pre.drop_last() =~= chat_messages_view(msgs@.take(i - 1)));
        if msgs[i - 1].role == user {
            assert(pre.last() == msgs@[i - 1]@);
            return Some(i - 1);
        }
        i = i - 1;
    }
    None
}

/// The message with which the instructions are sent.
fn system_message(system_prompt: &String) -> (r: ChatMessage)
    ensures
        r@ == (ChatMessageView { role: system_role(), content: system_prompt@, images: None }),
{
    ChatMessage { role: system_role_string(), content: system_prompt.clone(), images: None }
}

/// The messages of the request before any attached file is considered.
fn opening(system_prompt: &String, history: &Vec<Message>) -> (r: Vec<ChatMessage>)
    ensures
        chat_messages_view(r@) == opening_messages(system_prompt@, messages_view(history@)),
{
    let mut recent = history.clone();
    assert(recent@ =~= history@);
    keep_most_recent(&mut recent, MAX_HISTORY_MESSAGES);
    let ghost tail = messages_view(recent@).map_values(|m: MessageView| as_sent(m));
    let mut out: Vec<ChatMessage> = Vec::new();
    let ghost sys: Seq<ChatMessageView> = if is_blank_text(system_prompt@) {
        Seq::empty()
    } else {
        seq![ChatMessageView { role: system_role(), content: system_prompt@, images: None }]
    };
    if !is_blank(system_prompt.as_str()) {
        let m = system_message(system_prompt);
        proof {
            lemma_chat_view_push(out@, m);
        }
        out.push(m);
    }
    assert(chat_messages_view(out@) =~= sys);
    let mut i: usize = 0;
    while i < recent.len()
        invariant
            i <= recent@.len(),
            tail == messages_view(recent@).map_values(|m: MessageView| as_sent(m)),
            chat_messages_view(out@) =~= sys + tail.take(i as int),
        decreases recent@.len() - i,
    {
        let m = ChatMessage {
            role: recent[i].role.clone(),
            content: recent[i].content.clone(),
            images: None,
        };
        proof {
            lemma_chat_view_push(out@, m);
            assert(tail.take(i + 1) =~= tail.take(i as int).push(tail[i as int]));
        }
        out.push(m);
        i = i + 1;
    }
    assert(tail.take(recent@.len() as int) =~= tail);
    out
}

/// The chat request for a generation, given the content of the attached
/// file once it was read (`None` when no file is attached).
pub fn build_chat_request(req: &GenerationRequest, attachment: Option<AttachmentData>) -> (r:
    ChatRequest)
    requires
        attachment matches Some(AttachmentData::Image(b)) ==> 4 * ((b@.len() + 2) / 3) <= usize::MAX,
    ensures
        r.model@ == req.model@,
        r.stream,
        r.temperature_bits == req.temperature_bits,
        r.top_p_bits == req.top_p_bits,
        chat_messages_view(r.messages@) == request_messages(
            req.system_prompt@,
            messages_view(req.history@),
            attachment_view(attachment),
        ),
{
    let ghost att = attachment_view(attachment);
    let mut msgs = opening(&req.system_prompt, &req.history);
    let ghost base = chat_messages_view(msgs@);
    match attachment {
        Some(AttachmentData::Image(bytes)) => {
            let encoded = encode_image(bytes.as_slice());
            if let Some(i) = find_last_user(&msgs) {
                let mut images: Vec<String> = Vec::new();
                images.push(encoded);
                let mut m = ChatMessage {
                    role: msgs[i].role.clone(),
                    content: msgs[i].content.clone(),
                    images: Some(images),
                };
                proof {
                    assert(names_view(images@) =~= seq![base64_standard(bytes@)]);
                    lemma_chat_view_update(msgs@, i as int, m);
                }
                msgs.set(i, m);
            }
        },
        Some(AttachmentData::Text { path, content }) => {
            if let Some(i) = find_last_user(&msgs) {
                let mut text = String::from_str("Contents of ");
                text.append(path.as_str());
                text.append(":\n");
                text.append(content.as_str());
                text.append("\n\nUser Prompt: ");
                text.append(msgs[i].content.as_str());
                let m = ChatMessage {
                    role: msgs[i].role.clone(),
                    content: text,
                    images: match &msgs[i].images {
                        Some(v) => Some(v.clone()),
                        None => None,
                    },
                };
                proof {
                    assert(m@ == ChatMessageView {
                        content: with_file_prefix(path@, content@, base[i as int].content),
                        ..base[i as int]
                    });
                    lemma_chat_view_update(msgs@, i as int, m);
                }
                msgs.set(i, m);
            }
        },
        None => {},
    }
    proof {
        assert(chat_messages_view(msgs@) =~= request_messages(
            req.system_prompt@,
            messages_view(req.history@),
            att,
        ));
    }
    ChatRequest {
        model: req.model.clone(),
        messages: msgs,
        stream: true,
        temperature_bits: req.temperature_bits,
        top_p_bits: req.top_p_bits,
    }
}

} // verus!
