//! The Ollama chat API.

use vstd::prelude::*;
use vstd::string::*;
use crate::text::{same_text, strip_suffixes, trim_end_matches};
use super::chat::{BodyView, ChatRequest, Header, RequestBody, RequestView};
use super::{api_error_for, api_error_text, messages_view, LLMError, LLMProvider, Message, MessageView};

verus! {

broadcast use vstd::string::group_string_axioms;

/// A client of an Ollama server.
#[derive(Debug)]
pub struct OllamaProvider {
    api_key: String,
    model: String,
    base_url: String,
}

/// The mathematical value of an `OllamaProvider`.
pub struct OllamaView {
    pub api_key: Seq<char>,
    pub model: Seq<char>,
    pub base_url: Seq<char>,
}

impl View for OllamaProvider {
    type V = OllamaView;

    closed spec fn view(&self) -> OllamaView {
        OllamaView { api_key: self.api_key@, model: self.model@, base_url: self.base_url@ }
    }
}

/// The provider made from an API key, a model and an optional base URL:
/// the base URL defaults to the local server and loses its trailing slashes.
pub open spec fn ollama_view(api_key: Seq<char>, model: Seq<char>, base_url: Option<Seq<char>>) -> OllamaView {
    OllamaView {
        api_key,
        model,
        base_url: strip_suffixes(
            match base_url {
                Some(u) => u,
                None => "http://localhost:11434"@,
            },
            "/"@,
        ),
    }
}

/// Whether the API key is sent: a key that is empty or the placeholder
/// `ollama` is not.
pub open spec fn sends_key(api_key: Seq<char>) -> bool {
    api_key.len() > 0 && api_key != "ollama"@
}

/// Law: the base URL of an Ollama provider never ends with a slash, and a
/// trailing slash on the URL given makes no difference.
pub proof fn lemma_ollama_base_url_without_trailing_slash(
    api_key: Seq<char>,
    model: Seq<char>,
    base_url: Seq<char>,
)
    ensures
        ollama_view(api_key, model, Some(base_url)).base_url.len() > 0 ==> ollama_view(
            api_key,
            model,
            Some(base_url),
        ).base_url.last() != '/',
        ollama_view(api_key, model, Some(base_url.push('/'))) == ollama_view(
            api_key,
            model,
            Some(base_url),
        ),
{
    crate::text::lemma_strip_slashes(base_url);
}

impl OllamaProvider {
    /// A client for the Ollama server at `base_url` (the local server when
    /// none is given), without trailing slashes.
    pub fn new(api_key: &str, model: &str, base_url: Option<&str>) -> (r: Result<Self, LLMError>)
        ensures
            r matches Ok(p) && p@ == ollama_view(
                api_key@,
                model@,
                match base_url {
                    Some(u) => Some(u@),
                    None => None,
                },
            ),
    {
        let base = match base_url {
            Some(u) => u,
            None => "http://localhost:11434",
        };
        let base = trim_end_matches(base, "/");
        Ok(OllamaProvider {
            api_key: api_key.to_string(),
            model: model.to_string(),
            base_url: base.to_string(),
        })
    }
}

/// The request that carries `messages` to the provider `p`.
pub open spec fn ollama_request(p: OllamaView, messages: Seq<MessageView>) -> RequestView {
    RequestView {
        url: p.base_url + "/api/chat"@,
        headers: if sends_key(p.api_key) {
            seq![
                ("Content-Type"@, "application/json"@),
                ("Authorization"@, "Bearer "@ + p.api_key),
            ]
        } else {
            seq![("Content-Type"@, "application/json"@)]
        },
        body: BodyView::Ollama { model: p.model, messages, stream: false },
    }
}

impl LLMProvider for OllamaProvider {
    open spec fn name_spec(&self) -> Seq<char> {
        "ollama"@
    }

    open spec fn model_spec(&self) -> Seq<char> {
        self@.model
    }

    open spec fn label_spec(&self) -> Seq<char> {
        "Ollama"@
    }

    open spec fn request_spec(&self, messages: Seq<MessageView>) -> RequestView {
        ollama_request(self@, messages)
    }

    fn provider_name(&self) -> (r: &str) {
        "ollama"
    }

    fn model(&self) -> (r: &str) {
        self.model.as_str()
    }

    fn chat_request(&self, messages: Vec<Message>) -> (r: ChatRequest) {
        let url = self.base_url.clone().concat("/api/chat");
        let mut headers: Vec<Header> = Vec::new();
        headers.push(Header::new("Content-Type", String::from_str("application/json")));
        if !self.api_key.as_str().is_empty() && !same_text(self.api_key.as_str(), "ollama") {
            headers.push(
                Header::new("Authorization", String::from_str("Bearer ").concat(self.api_key.as_str())),
            );
        }
        let r = ChatRequest {
            url,
            headers,
            body: RequestBody::Ollama { model: self.model.clone(), messages, stream: false },
        };
        assert(r@.headers =~= self.request_spec(messages_view(messages@)).headers);
        r
    }

    fn api_error(&self, status: u16, error_text: &str) -> (e: LLMError) {
        api_error_for("Ollama", status, error_text)
    }
}

} // verus!
