//! Chat messages and the development echo provider's identity.

use vstd::prelude::*;
use crate::chars::{chars_of, push_str_chars, string_of};

verus! {

/// The errors of the AI subsystem.
#[derive(Debug, Clone, PartialEq, Eq)]
pub enum AiError {
    ProviderNotConfigured,
    RequestFailed(String),
    InvalidResponse(String),
    RateLimited,
    TokenLimitExceeded { limit: usize, requested: usize },
}

/// The role of a participant in a chat.
#[derive(Debug, Clone, Copy, PartialEq, Eq, Structural)]
pub enum ChatRole {
    System,
    User,
    Assistant,
}

impl ChatRole {
    /// The role's name in lower case.
    pub fn name(&self) -> (r: &'static str)
        ensures
            *self == ChatRole::System ==> r@ == "system"@,
            *self == ChatRole::User ==> r@ == "user"@,
            *self == ChatRole::Assistant ==> r@ == "assistant"@,
    {
        match self {
            ChatRole::System => "system",
            ChatRole::User => "user",
            ChatRole::Assistant => "assistant",
        }
    }
}

/// One message of a chat.
#[derive(Debug, Clone)]
pub struct ChatMessage {
    pub role: ChatRole,
    pub content: String,
}

impl ChatMessage {
    /// A system message.
    pub fn system(content: &str) -> (r: Self)
        ensures
            r.role == ChatRole::System,
            r.content@ == content@,
    {
        ChatMessage { role: ChatRole::System, content: content.to_owned() }
    }

    /// A user message.
    pub fn user(content: &str) -> (r: Self)
        ensures
            r.role == ChatRole::User,
            r.content@ == content@,
    {
        ChatMessage { role: ChatRole::User, content: content.to_owned() }
    }

    /// An assistant message.
    pub fn assistant(content: &str) -> (r: Self)
        ensures
            r.role == ChatRole::Assistant,
            r.content@ == content@,
    {
        ChatMessage { role: ChatRole::Assistant, content: content.to_owned() }
    }
}

/// A provider's answer.
#[derive(Debug, Clone)]
pub struct CompletionResponse {
    /// The generated text.
    pub content: String,
    /// Approximate tokens used.
    pub tokens_used: u32,
    /// The model that answered.
    pub model: String,
}

/// The development provider, which echoes the last user message.
#[derive(Debug, Clone, Copy)]
pub struct EchoProvider;

impl EchoProvider {
    /// The model name of the echo provider.
    pub fn model_name(&self) -> (r: &'static str)
        ensures
            r@ == "echo-v1"@,
    {
        "echo-v1"
    }
}

/// The content of the last user message, if there is one.
pub open spec fn last_user_content(ms: Seq<ChatMessage>) -> Option<Seq<char>>
    decreases ms.len(),
{
    if ms.len() == 0 {
        None
    } else if ms.last().role == ChatRole::User {
        Some(ms.last().content@)
    } else {
        last_user_content(ms.drop_last())
    }
}

/// The last user message of a conversation, which the echo provider answers.
pub fn last_user_message(messages: &Vec<ChatMessage>) -> (r: Option<String>)
    ensures
        match last_user_content(messages@) {
            Some(c) => r.is_some() && r.unwrap()@ == c,
            None => r.is_none(),
        },
{
    let mut i: usize = messages.len();
    assert(messages@.take(i as int) =~= messages@);
    while i > 0
        invariant
            i <= messages.len(),
            last_user_content(messages@) == last_user_content(messages@.take(i as int)),
        decreases i,
    {
        assert(messages@.take(i as int).drop_last() =~= messages@.take(i - 1));
        if messages[i - 1].role == ChatRole::User {
            return Some(messages[i - 1].content.clone());
        }
        i = i - 1;
    }
    None
}

/// The echo provider's answer when there is no user message.
pub const EMPTY_REPLY: &'static str = "I didn't receive a message. How can I help you?";
/// What the echo provider puts before the echoed message.
pub const REPLY_HEAD: &'static str = "I received your message: \"";
/// What the echo provider puts after the echoed message.
pub const REPLY_TAIL: &'static str = "\"\n\nThis is the Fracta AI echo provider (development mode). Connect a real provider (OpenAI, Anthropic, or local model) in Settings to get actual AI responses.";

/// The echo provider's answer to the last user message `u` (empty when there is none).
pub open spec fn echo_content(u: Seq<char>) -> Seq<char> {
    if u.len() == 0 {
        EMPTY_REPLY@
    } else {
        REPLY_HEAD@ + u + REPLY_TAIL@
    }
}

/// The UTF-8 byte count of `s`, as `str::len` reports it.
pub open spec fn byte_len(s: Seq<char>) -> int {
    (vstd::utf8::encode_utf8(s).len() as usize) as int
}

/// The rough token count of an exchange: a quarter of its UTF-8 bytes,
/// the byte count taken modulo 2^32.
pub open spec fn token_estimate(u: Seq<char>, content: Seq<char>) -> u32 {
    (((byte_len(u) + byte_len(content)) % 4294967296) / 4) as u32
}

impl EchoProvider {
    /// The echo provider's completion of a conversation: it echoes the last
    /// user message, or says it received none.
    pub fn reply(&self, messages: &Vec<ChatMessage>) -> (r: CompletionResponse)
        ensures
            ({
                let u = match last_user_content(messages@) {
                    Some(c) => c,
                    None => Seq::<char>::empty(),
                };
                &&& r.content@ == echo_content(u)
                &&& r.tokens_used == token_estimate(u, r.content@)
                &&& r.model@ == "echo-v1"@
            }),
    {
        let last = match last_user_message(messages) {
            Some(m) => m,
            None => String::new(),
        };
        let u = chars_of(last.as_str());
        let content = if u.len() == 0 {
            EMPTY_REPLY.to_owned()
        } else {
            let mut cs: Vec<char> = Vec::new();
            push_str_chars(&mut cs, REPLY_HEAD);
            push_str_chars(&mut cs, last.as_str());
            push_str_chars(&mut cs, REPLY_TAIL);
            string_of(&cs)
        };
        let a = last.as_str().len();
        let b = content.as_str().len();
        let sum: u128 = a as u128 + b as u128;
        let wrapped: u32 = (sum % 4294967296u128) as u32;
        let tokens_used: u32 = wrapped / 4;
        CompletionResponse { content, tokens_used, model: self.model_name().to_owned() }
    }
}

} // verus!
