//! The OpenAI chat-completions API, also spoken by Groq, MiniMax and custom
//! endpoints.

use vstd::prelude::*;
use vstd::string::*;
use crate::text::{strip_suffixes, trim_end_matches};
use super::chat::{BodyView, ChatRequest, Header, RequestBody, RequestView};
use super::{api_error_for, api_error_text, LLMError, LLMProvider, Message, MessageView};

verus! {

broadcast use vstd::string::group_string_axioms;

/// A client of an OpenAI-compatible API.
#[derive(Debug)]
pub struct OpenAIProvider {
    api_key: String,
    model: String,
    base_url: String,
}

/// The mathematical value of an `OpenAIProvider`.
pub struct OpenAIView {
    pub api_key: Seq<char>,
    pub model: Seq<char>,
    pub base_url: Seq<char>,
}

impl View for OpenAIProvider {
    type V = OpenAIView;

    closed spec fn view(&self) -> OpenAIView {
        OpenAIView { api_key: self.api_key@, model: self.model@, base_url: self.base_url@ }
    }
}

/// The endpoint used when none is given.
pub open spec fn openai_default_base() -> Seq<char> {
    "https://api.openai.com/v1"@
}

/// The provider made from an API key, a model and an optional base URL:
/// the base URL defaults to the OpenAI endpoint and loses its trailing
/// slashes.
pub open spec fn openai_view(api_key: Seq<char>, model: Seq<char>, base_url: Option<Seq<char>>) -> OpenAIView {
    OpenAIView {
        api_key,
        model,
        base_url: strip_suffixes(
            match base_url {
                Some(u) => u,
                None => openai_default_base(),
            },
            "/"@,
        ),
    }
}

/// Law: the base URL of a provider never ends with a slash, and a trailing
/// slash on the URL given makes no difference.
pub proof fn lemma_base_url_without_trailing_slash(api_key: Seq<char>, model: Seq<char>, base_url: Seq<char>)
    ensures
        openai_view(api_key, model, Some(base_url)).base_url.len() > 0 ==> openai_view(
            api_key,
            model,
            Some(base_url),
        ).base_url.last() != '/',
        openai_view(api_key, model, Some(base_url.push('/'))) == openai_view(
            api_key,
            model,
            Some(base_url),
        ),
{
    crate::text::lemma_strip_slashes(base_url);
}


impl OpenAIProvider {
    /// A client for the API at `base_url` (the OpenAI endpoint when none is
    /// given), without trailing slashes.
    pub fn new(api_key: &str, model: &str, base_url: Option<&str>) -> (r: Result<Self, LLMError>)
        ensures
            r matches Ok(p) && p@ == openai_view(
                api_key@,
                model@,
                match base_url {
                    Some(u) => Some(u@),
                    None => None,
                },
            ),
    {
        let base = match base_url {
            Some(u) => u,
            None => "https://api.openai.com/v1",
        };
        let base = trim_end_matches(base, "/");
        Ok(OpenAIProvider {
            api_key: api_key.to_string(),
            model: model.to_string(),
            base_url: base.to_string(),
        })
    }
}

/// The request that carries `messages` to the provider `p`.
pub open spec fn openai_request(p: OpenAIView, messages: Seq<MessageView>) -> RequestView {
    RequestView {
        url: p.base_url + "/chat/completions"@,
        headers: seq![
            ("Authorization"@, "Bearer "@ + p.api_key),
            ("Content-Type"@, "application/json"@),
        ],
        body: BodyView::Chat { model: p.model, messages },
    }
}

impl LLMProvider for OpenAIProvider {
    open spec fn name_spec(&self) -> Seq<char> {
        "openai"@
    }

    open spec fn model_spec(&self) -> Seq<char> {
        self@.model
    }

    open spec fn label_spec(&self) -> Seq<char> {
        "OpenAI"@
    }

    open spec fn request_spec(&self, messages: Seq<MessageView>) -> RequestView {
        openai_request(self@, messages)
    }

    fn provider_name(&self) -> (r: &str) {
        "openai"
    }

    fn model(&self) -> (r: &str) {
        self.model.as_str()
    }

    fn chat_request(&self, messages: Vec<Message>) -> (r: ChatRequest) {
        let url = self.base_url.clone().concat("/chat/completions");
        let mut headers: Vec<Header> = Vec::new();
        headers.push(
            Header::new("Authorization", String::from_str("Bearer ").concat(self.api_key.as_str())),
        );
        headers.push(Header::new("Content-Type", String::from_str("application/json")));
        let r = ChatRequest {
            url,
            headers,
            body: RequestBody::Chat { model: self.model.clone(), messages },
        };
        assert(r@.headers =~= self.request_spec(super::messages_view(messages@)).headers);
        r
    }

    fn api_error(&self, status: u16, error_text: &str) -> (e: LLMError) {
        api_error_for("OpenAI", status, error_text)
    }
}

} // verus!
