//! The HTTP exchange of a chat: the request a provider sends, and the parts
//! of its reply that carry the answer.

use vstd::prelude::*;
use vstd::string::*;
use super::{Message, MessageView, LLMError};
use super::status::{is_success_code, is_success_status};

verus! {

broadcast use vstd::string::group_string_axioms;

/// One HTTP header.
#[derive(Debug)]
pub struct Header {
    pub name: String,
    pub value: String,
}

impl Header {
    /// A header with the given name and value.
    pub fn new(name: &str, value: String) -> (h: Header)
        ensures
            h.name@ == name@,
            h.value@ == value@,
    {
        Header { name: name.to_string(), value }
    }
}

/// The JSON body of a chat request, one form per provider API.
#[derive(Debug)]
pub enum RequestBody {
    /// The OpenAI chat-completions API (sent with a temperature of 0.7).
    Chat { model: String, messages: Vec<Message> },
    /// The Anthropic messages API.
    Anthropic { model: String, messages: Vec<Message>, max_tokens: u32, system: Option<String> },
    /// The Ollama chat API.
    Ollama { model: String, messages: Vec<Message>, stream: bool },
}

/// A chat request to send: the endpoint, the headers in order, and the body.
#[derive(Debug)]
pub struct ChatRequest {
    pub url: String,
    pub headers: Vec<Header>,
    pub body: RequestBody,
}

/// The mathematical value of a `RequestBody`.
pub enum BodyView {
    Chat { model: Seq<char>, messages: Seq<MessageView> },
    Anthropic {
        model: Seq<char>,
        messages: Seq<MessageView>,
        max_tokens: u32,
        system: Option<Seq<char>>,
    },
    Ollama { model: Seq<char>, messages: Seq<MessageView>, stream: bool },
}

/// The mathematical value of a `ChatRequest`.
pub struct RequestView {
    pub url: Seq<char>,
    pub headers: Seq<(Seq<char>, Seq<char>)>,
    pub body: BodyView,
}

/// The value of an optional text.
pub open spec fn text_option(t: Option<String>) -> Option<Seq<char>> {
    match t {
        Some(s) => Some(s@),
        None => None,
    }
}

impl View for RequestBody {
    type V = BodyView;

    open spec fn view(&self) -> BodyView {
        match self {
            RequestBody::Chat { model, messages } => BodyView::Chat {
                model: model@,
                messages: super::messages_view(messages@),
            },
            RequestBody::Anthropic { model, messages, max_tokens, system } => BodyView::Anthropic {
                model: model@,
                messages: super::messages_view(messages@),
                max_tokens: *max_tokens,
                system: text_option(*system),
            },
            RequestBody::Ollama { model, messages, stream } => BodyView::Ollama {
                model: model@,
                messages: super::messages_view(messages@),
                stream: *stream,
            },
        }
    }
}

impl View for ChatRequest {
    type V = RequestView;

    open spec fn view(&self) -> RequestView {
        RequestView {
            url: self.url@,
            headers: self.headers@.map_values(|h: Header| (h.name@, h.value@)),
            body: self.body@,
        }
    }
}

/// The JSON shape of a provider's successful reply.
#[derive(Clone, Copy, Debug)]
pub enum ReplyShape {
    /// An OpenAI-style reply with a list of choices.
    Choices,
    /// An Anthropic reply with a list of content blocks.
    Content,
    /// An Ollama reply with one message.
    Message,
}

/// The reply shape that answers a request body.
pub open spec fn shape_of(body: BodyView) -> ReplyShape {
    match body {
        BodyView::Chat { .. } => ReplyShape::Choices,
        BodyView::Anthropic { .. } => ReplyShape::Content,
        BodyView::Ollama { .. } => ReplyShape::Message,
    }
}

/// What to read of a reply once its status is known.
#[derive(Clone, Copy, Debug)]
pub enum ReplyStep {
    /// The status reports a failure: read the body as the error's text.
    ReadErrorText,
    /// The status reports success: read the body in this shape.
    ReadReply(ReplyShape),
}

/// What to read of the reply to `request` that came back with `status`: the
/// error text on a status outside 2xx, else the reply in the shape that the
/// request's API answers with.
pub fn after_status(request: &ChatRequest, status: u16) -> (s: ReplyStep)
    ensures
        if is_success_code(status) {
            s == ReplyStep::ReadReply(shape_of(request.body@))
        } else {
            s == ReplyStep::ReadErrorText
        },
{
    if !is_success_status(status) {
        return ReplyStep::ReadErrorText;
    }
    let shape = match &request.body {
        RequestBody::Chat { .. } => ReplyShape::Choices,
        RequestBody::Anthropic { .. } => ReplyShape::Content,
        RequestBody::Ollama { .. } => ReplyShape::Message,
    };
    ReplyStep::ReadReply(shape)
}

/// The parts of a provider's successful reply that carry the answer.
#[derive(Debug)]
pub enum ReplyBody {
    /// The contents of the choices of an OpenAI-style reply, in order.
    Choices(Vec<String>),
    /// The texts of the content blocks of an Anthropic reply, in order.
    Content(Vec<String>),
    /// The content of an Ollama reply's message.
    Message(String),
}

/// The answer that a reply carries: the first choice or content block, or
/// the message; a reply without choices or content blocks is a parse error.
pub open spec fn reply_outcome(reply: ReplyBody, r: Result<String, LLMError>) -> bool {
    match reply {
        ReplyBody::Choices(texts) => if texts@.len() > 0 {
            r matches Ok(s) && s@ == texts@[0]@
        } else {
            r matches Err(LLMError::ParseError(m)) && m@ == "No choices in response"@
        },
        ReplyBody::Content(texts) => if texts@.len() > 0 {
            r matches Ok(s) && s@ == texts@[0]@
        } else {
            r matches Err(LLMError::ParseError(m)) && m@ == "No content in response"@
        },
        ReplyBody::Message(s) => r matches Ok(t) && t@ == s@,
    }
}

/// The answer carried by a provider's successful reply.
pub fn reply_text(reply: ReplyBody) -> (r: Result<String, LLMError>)
    ensures
        reply_outcome(reply, r),
{
    match reply {
        ReplyBody::Choices(texts) => if texts.len() > 0 {
            Ok(texts[0].clone())
        } else {
            Err(LLMError::ParseError(String::from_str("No choices in response")))
        },
        ReplyBody::Content(texts) => if texts.len() > 0 {
            Ok(texts[0].clone())
        } else {
            Err(LLMError::ParseError(String::from_str("No content in response")))
        },
        ReplyBody::Message(s) => Ok(s),
    }
}

} // verus!
