//! Messages and chat tabs, with their mathematical views.

use vstd::prelude::*;

verus! {

/// The role of a message written by the user.
pub open spec fn user_role() -> Seq<char> {
    seq!['u', 's', 'e', 'r']
}

/// The role of a message written by the model.
pub open spec fn assistant_role() -> Seq<char> {
    seq!['a', 's', 's', 'i', 's', 't', 'a', 'n', 't']
}

/// The role of the instructions that open a conversation.
pub open spec fn system_role() -> Seq<char> {
    seq!['s', 'y', 's', 't', 'e', 'm']
}

/// The role `"user"`.
pub fn user_role_string() -> (r: String)
    ensures
        r@ == user_role(),
{
    proof {
        reveal_strlit("user");
    }
    let r = String::from_str("user");
    assert(r@ =~= user_role());
    r
}

/// The role `"assistant"`.
pub fn assistant_role_string() -> (r: String)
    ensures
        r@ == assistant_role(),
{
    proof {
        reveal_strlit("assistant");
    }
    let r = String::from_str("assistant");
    assert(r@ =~= assistant_role());
    r
}

/// The role `"system"`.
pub fn system_role_string() -> (r: String)
    ensures
        r@ == system_role(),
{
    proof {
        reveal_strlit("system");
    }
    let r = String::from_str("system");
    assert(r@ =~= system_role());
    r
}

/// One message of a conversation.  The duration of the generation that
/// produced a reply, in seconds, is kept as the bit pattern of an IEEE-754
/// double (`f64::to_bits`), so that it is carried unchanged.
pub struct Message {
    pub role: String,
    pub content: String,
    pub prompt_tokens: Option<usize>,
    pub completion_tokens: Option<usize>,
    pub eval_duration_secs_bits: Option<u64>,
}

/// What a message holds, as values.
pub struct MessageView {
    pub role: Seq<char>,
    pub content: Seq<char>,
    pub prompt_tokens: Option<usize>,
    pub completion_tokens: Option<usize>,
    pub eval_duration_secs_bits: Option<u64>,
}

impl View for Message {
    type V = MessageView;

    open spec fn view(&self) -> MessageView {
        MessageView {
            role: self.role@,
            content: self.content@,
            prompt_tokens: self.prompt_tokens,
            completion_tokens: self.completion_tokens,
            eval_duration_secs_bits: self.eval_duration_secs_bits,
        }
    }
}

impl Clone for Message {
    fn clone(&self) -> (r: Self)
        ensures
            r == *self,
    {
        Message {
            role: self.role.clone(),
            content: self.content.clone(),
            prompt_tokens: self.prompt_tokens,
            completion_tokens: self.completion_tokens,
            eval_duration_secs_bits: self.eval_duration_secs_bits,
        }
    }
}

/// A message with the given role and content and no generation statistics.
pub open spec fn plain_message(role: Seq<char>, content: Seq<char>) -> MessageView {
    MessageView {
        role,
        content,
        prompt_tokens: None,
        completion_tokens: None,
        eval_duration_secs_bits: None,
    }
}

/// The empty reply that stands at the end of a conversation while the model
/// is asked for its answer.
pub open spec fn pending_reply() -> MessageView {
    plain_message(assistant_role(), Seq::empty())
}

impl Message {
    /// A message written by the user.
    pub fn user(content: String) -> (r: Message)
        ensures
            r@ == plain_message(user_role(), content@),
    {
        Message {
            role: user_role_string(),
            content,
            prompt_tokens: None,
            completion_tokens: None,
            eval_duration_secs_bits: None,
        }
    }

    /// A reply of the model with the given content.
    pub fn assistant(content: String) -> (r: Message)
        ensures
            r@ == plain_message(assistant_role(), content@),
    {
        Message {
            role: assistant_role_string(),
            content,
            prompt_tokens: None,
            completion_tokens: None,
            eval_duration_secs_bits: None,
        }
    }

    /// The empty reply that waits for the model's answer.
    pub fn pending() -> (r: Message)
        ensures
            r@ == pending_reply(),
    {
        Message::assistant(String::new())
    }

    /// Whether the message was written by the model.
    pub fn is_assistant(&self) -> (r: bool)
        ensures
            r == (self.role@ == assistant_role()),
    {
        self.role == assistant_role_string()
    }

    /// Whether the message was written by the user.
    pub fn is_user(&self) -> (r: bool)
        ensures
            r == (self.role@ == user_role()),
    {
        self.role == user_role_string()
    }
}

/// The views of a sequence of messages.
pub open spec fn messages_view(msgs: Seq<Message>) -> Seq<MessageView> {
    msgs.map_values(|m: Message| m@)
}

/// One conversation.  Its sampling parameters are kept as the bit patterns of
/// IEEE-754 singles (`f32::to_bits`).
pub struct ChatTab {
    pub id: usize,
    pub title: String,
    pub messages: Vec<Message>,
    pub selected_model: String,
    pub system_prompt: String,
    pub temperature_bits: u32,
    pub top_p_bits: u32,
}

/// What a chat tab holds, as values.
pub struct TabView {
    pub id: usize,
    pub title: Seq<char>,
    pub messages: Seq<MessageView>,
    pub selected_model: Seq<char>,
    pub system_prompt: Seq<char>,
    pub temperature_bits: u32,
    pub top_p_bits: u32,
}

impl View for ChatTab {
    type V = TabView;

    open spec fn view(&self) -> TabView {
        TabView {
            id: self.id,
            title: self.title@,
            messages: messages_view(self.messages@),
            selected_model: self.selected_model@,
            system_prompt: self.system_prompt@,
            temperature_bits: self.temperature_bits,
            top_p_bits: self.top_p_bits,
        }
    }
}

impl Clone for ChatTab {
    fn clone(&self) -> (r: Self)
        ensures
            r@ == self@,
    {
        let messages = self.messages.clone();
        assert(messages@ =~= self.messages@);
        assert(messages_view(messages@) == messages_view(self.messages@));
        ChatTab {
            id: self.id,
            title: self.title.clone(),
            messages,
            selected_model: self.selected_model.clone(),
            system_prompt: self.system_prompt.clone(),
            temperature_bits: self.temperature_bits,
            top_p_bits: self.top_p_bits,
        }
    }
}

/// The views of a sequence of tabs.
pub open spec fn tabs_view(tabs: Seq<ChatTab>) -> Seq<TabView> {
    tabs.map_values(|t: ChatTab| t@)
}

} // verus!
