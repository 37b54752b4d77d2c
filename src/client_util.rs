//! The message list that a chat request carries.

use crate::history_file::{role_name, Message};
use crate::text::{lower_of, lowercase, same_text};
use vstd::prelude::*;

verus! {

/// One message of a chat request, with its role spelt out.
#[derive(Debug)]
pub struct ChatMessage {
    pub role: String,
    pub content: String,
}

impl View for ChatMessage {
    type V = (Seq<char>, Seq<char>);

    open spec fn view(&self) -> (Seq<char>, Seq<char>) {
        (self.role@, self.content@)
    }
}

pub open spec fn chat_view(v: Seq<ChatMessage>) -> Seq<(Seq<char>, Seq<char>)> {
    v.map_values(|m: ChatMessage| m@)
}

/// The user's message: the prompt, followed by the context when there is one.
pub open spec fn user_message(user_prompt: Seq<char>, context: Seq<char>) -> Seq<char> {
    if context.len() == 0 {
        user_prompt
    } else {
        user_prompt + "\n\nAdditional context: "@ + context
    }
}

/// The messages of a request: the system prompt under `system_prompt_role`,
/// then the history in order, then the user's message.
pub open spec fn request_messages(
    system_prompt: Seq<char>,
    context: Seq<char>,
    user_prompt: Seq<char>,
    history: Seq<Message>,
    system_prompt_role: Seq<char>,
) -> Seq<(Seq<char>, Seq<char>)> {
    seq![(system_prompt_role, system_prompt)] + history.map_values(
        |m: Message| (role_name(m.role), m.content@),
    ) + seq![("user"@, user_message(user_prompt, context))]
}

pub fn create_messages(
    system_prompt: &str,
    context_content: &str,
    user_prompt: &str,
    history: &Vec<Message>,
    system_prompt_role: &str,
) -> (r: Vec<ChatMessage>)
    ensures
        chat_view(r@) == request_messages(
            system_prompt@,
            context_content@,
            user_prompt@,
            history@,
            system_prompt_role@,
        ),
{
    let mut messages: Vec<ChatMessage> = Vec::new();
    messages.push(
        ChatMessage {
            role: String::from_str(system_prompt_role),
            content: String::from_str(system_prompt),
        },
    );
    let ghost head = seq![(system_prompt_role@, system_prompt@)];
    assert(chat_view(messages@) =~= head);
    let mut k: usize = 0;
    while k < history.len()
        invariant
            k <= history@.len(),
            chat_view(messages@) == head + history@.subrange(0, k as int).map_values(
                |m: Message| (role_name(m.role), m.content@),
            ),
        decreases history.len() - k,
    {
        let m = &history[k];
        let ghost before = chat_view(messages@);
        messages.push(
            ChatMessage { role: String::from_str(m.role.as_str()), content: m.content.clone() },
        );
        assert(chat_view(messages@) =~= before.push((role_name(m.role), m.content@)));
        assert(history@.subrange(0, k + 1).map_values(
            |m: Message| (role_name(m.role), m.content@),
        ) =~= history@.subrange(0, k as int).map_values(
            |m: Message| (role_name(m.role), m.content@),
        ).push((role_name(m.role), m.content@)));
        k = k + 1;
    }
    assert(history@.subrange(0, history@.len() as int) =~= history@);
    let content = if context_content.unicode_len() == 0 {
        String::from_str(user_prompt)
    } else {
        String::from_str(user_prompt).concat("\n\nAdditional context: ").concat(context_content)
    };
    let ghost before = chat_view(messages@);
    messages.push(ChatMessage { role: String::from_str("user"), content });
    assert(chat_view(messages@) =~= before.push(("user"@, user_message(user_prompt@, context_content@))));
    messages
}

/// A rough token count of `prompt`: a token for every four characters, and
/// one more, so that short text never counts as nothing.
pub fn estimate_token_count(prompt: &str) -> (r: usize)
    ensures
        r == prompt@.len() / 4 + 1,
{
    let n = prompt.unicode_len();
    n / 4 + 1
}

/// The model providers that the session can talk to.
#[derive(Clone, Copy, Debug, PartialEq, Eq, Structural)]
pub enum Provider {
    Anthropic,
    Ollama,
}

/// The provider that a lower-case name denotes, if any.
pub open spec fn provider_named(name: Seq<char>) -> Option<Provider> {
    if name == "anthropic"@ {
        Some(Provider::Anthropic)
    } else if name == "ollama"@ {
        Some(Provider::Ollama)
    } else {
        None
    }
}

/// The provider that `provider` names, in any letter case.
pub fn provider_of(provider: &str) -> (r: Option<Provider>)
    ensures
        r == provider_named(lower_of(provider@)),
{
    let lower = lowercase(provider);
    if same_text(lower.as_str(), "anthropic") {
        Some(Provider::Anthropic)
    } else if same_text(lower.as_str(), "ollama") {
        Some(Provider::Ollama)
    } else {
        None
    }
}

} // verus!
