//! The Anthropic messages API.

use vstd::prelude::*;
use vstd::string::*;
use crate::text::same_text;
use super::chat::{BodyView, ChatRequest, Header, RequestBody, RequestView};
use super::{api_error_for, api_error_text, messages_view, LLMError, LLMProvider, Message, MessageView};

verus! {

broadcast use vstd::string::group_string_axioms;

/// A client of the Anthropic API.
#[derive(Debug)]
pub struct AnthropicProvider {
    api_key: String,
    model: String,
}

/// The mathematical value of an `AnthropicProvider`.
pub struct AnthropicView {
    pub api_key: Seq<char>,
    pub model: Seq<char>,
}

impl View for AnthropicProvider {
    type V = AnthropicView;

    closed spec fn view(&self) -> AnthropicView {
        AnthropicView { api_key: self.api_key@, model: self.model@ }
    }
}

/// The system prompt of a chat: the contents of its `system` messages, in
/// order and joined, or none when it has none.
pub open spec fn system_text(messages: Seq<MessageView>) -> Option<Seq<char>>
    decreases messages.len(),
{
    if messages.len() == 0 {
        None
    } else {
        let earlier = system_text(messages.drop_last());
        let m = messages.last();
        if m.role == "system"@ {
            match earlier {
                Some(t) => Some(t + m.content),
                None => Some(m.content),
            }
        } else {
            earlier
        }
    }
}

/// The role a non-system message takes in the conversation: `user` stays
/// `user`, every other role becomes `assistant`.
pub open spec fn conversation_role(role: Seq<char>) -> Seq<char> {
    if role == "user"@ {
        "user"@
    } else {
        "assistant"@
    }
}

/// The conversation of a chat: its non-system messages, in order, with
/// their roles mapped by `conversation_role`.
pub open spec fn conversation(messages: Seq<MessageView>) -> Seq<MessageView>
    decreases messages.len(),
{
    if messages.len() == 0 {
        seq![]
    } else {
        let earlier = conversation(messages.drop_last());
        let m = messages.last();
        if m.role == "system"@ {
            earlier
        } else {
            earlier.push(MessageView { role: conversation_role(m.role), content: m.content })
        }
    }
}

/// Whether a message is part of the system prompt.
pub open spec fn is_system(m: MessageView) -> bool {
    m.role == "system"@
}

/// Law: the conversation sent to Anthropic is the chat's non-system
/// messages, in their order, each with its content and its role mapped to
/// `user` or `assistant`.
pub proof fn lemma_conversation_keeps_the_dialogue(messages: Seq<MessageView>)
    ensures
        conversation(messages) == messages.filter_map(
            |m: MessageView|
                if is_system(m) {
                    None
                } else {
                    Some(MessageView { role: conversation_role(m.role), content: m.content })
                },
        ),
        forall|i: int|
            0 <= i < conversation(messages).len() ==> (#[trigger] conversation(messages)[i]).role
                == "user"@ || conversation(messages)[i].role == "assistant"@,
    decreases messages.len(),
{
    if messages.len() > 0 {
        lemma_conversation_keeps_the_dialogue(messages.drop_last());
    }
}

/// Law: a chat has a system prompt exactly when it has a system message.
pub proof fn lemma_system_prompt_present(messages: Seq<MessageView>)
    ensures
        system_text(messages) is Some <==> exists|i: int|
            0 <= i < messages.len() && is_system(#[trigger] messages[i]),
    decreases messages.len(),
{
    if messages.len() > 0 {
        let earlier = messages.drop_last();
        lemma_system_prompt_present(earlier);
        if system_text(earlier) is Some {
            let i = choose|i: int| 0 <= i < earlier.len() && is_system(#[trigger] earlier[i]);
            assert(messages[i] == earlier[i]);
        }
        if exists|i: int| 0 <= i < messages.len() && is_system(#[trigger] messages[i]) {
            let i = choose|i: int| 0 <= i < messages.len() && is_system(#[trigger] messages[i]);
            if i < messages.len() - 1 {
                assert(earlier[i] == messages[i]);
            }
        }
    }
}

impl AnthropicProvider {
    /// A client for the Anthropic API.
    pub fn new(api_key: &str, model: &str) -> (r: Result<Self, LLMError>)
        ensures
            r matches Ok(p) && p@ == (AnthropicView { api_key: api_key@, model: model@ }),
    {
        Ok(AnthropicProvider { api_key: api_key.to_string(), model: model.to_string() })
    }
}

/// Splits a chat into its system prompt and its conversation.
pub fn split_system(messages: &Vec<Message>) -> (r: (Option<String>, Vec<Message>))
    ensures
        super::chat::text_option(r.0) == system_text(messages_view(messages@)),
        messages_view(r.1@) == conversation(messages_view(messages@)),
{
    let ghost all = messages_view(messages@);
    let mut system: Option<String> = None;
    let mut rest: Vec<Message> = Vec::new();
    let mut i: usize = 0;
    while i < messages.len()
        invariant
            all == messages_view(messages@),
            i <= messages@.len(),
            super::chat::text_option(system) == system_text(all.take(i as int)),
            messages_view(rest@) == conversation(all.take(i as int)),
        decreases messages@.len() - i,
    {
        assert(all.take(i + 1).drop_last() =~= all.take(i as int));
        assert(all.take(i + 1).last() == messages@[i as int]@);
        let m = &messages[i];
        if same_text(m.role.as_str(), "system") {
            system = match system {
                Some(t) => Some(t.concat(m.content.as_str())),
                None => Some(m.content.clone()),
            };
        } else {
            let role = if same_text(m.role.as_str(), "user") {
                "user"
            } else {
                "assistant"
            };
            let ghost before = rest@;
            rest.push(Message::new(role, m.content.as_str()));
            assert(messages_view(rest@) =~= messages_view(before).push(rest@.last()@));
        }
        i = i + 1;
    }
    assert(all.take(messages@.len() as int) =~= all);
    (system, rest)
}

/// The request that carries `messages` to the provider `p`.
pub open spec fn anthropic_request(p: AnthropicView, messages: Seq<MessageView>) -> RequestView {
    RequestView {
        url: "https://api.anthropic.com/v1/messages"@,
        headers: seq![
            ("x-api-key"@, p.api_key),
            ("anthropic-version"@, "2023-06-01"@),
            ("Content-Type"@, "application/json"@),
        ],
        body: BodyView::Anthropic {
            model: p.model,
            messages: conversation(messages),
            max_tokens: 4096,
            system: system_text(messages),
        },
    }
}

impl LLMProvider for AnthropicProvider {
    open spec fn name_spec(&self) -> Seq<char> {
        "anthropic"@
    }

    open spec fn model_spec(&self) -> Seq<char> {
        self@.model
    }

    open spec fn label_spec(&self) -> Seq<char> {
        "Anthropic"@
    }

    open spec fn request_spec(&self, messages: Seq<MessageView>) -> RequestView {
        anthropic_request(self@, messages)
    }

    fn provider_name(&self) -> (r: &str) {
        "anthropic"
    }

    fn model(&self) -> (r: &str) {
        self.model.as_str()
    }

    fn chat_request(&self, messages: Vec<Message>) -> (r: ChatRequest) {
        let (system, rest) = split_system(&messages);
        let mut headers: Vec<Header> = Vec::new();
        headers.push(Header::new("x-api-key", self.api_key.clone()));
        headers.push(Header::new("anthropic-version", String::from_str("2023-06-01")));
        headers.push(Header::new("Content-Type", String::from_str("application/json")));
        let r = ChatRequest {
            url: String::from_str("https://api.anthropic.com/v1/messages"),
            headers,
            body: RequestBody::Anthropic {
                model: self.model.clone(),
                messages: rest,
                max_tokens: 4096,
                system,
            },
        };
        assert(r@.headers =~= self.request_spec(messages_view(messages@)).headers);
        r
    }

    fn api_error(&self, status: u16, error_text: &str) -> (e: LLMError) {
        api_error_for("Anthropic", status, error_text)
    }
}

} // verus!
