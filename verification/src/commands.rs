//! What the application's commands decide: the client and the chat that a
//! diagram request asks for, and the answer made from the chat's reply.

use vstd::prelude::*;
use vstd::string::*;
use crate::llm::{
    bare_reply, clean_drawio_xml, cleaned_reply, drawio_chat, drawio_messages,
    lemma_bare_reply_is_clean, messages_view, provider_for, str_option, LLMClient, LLMError,
    Message, ProviderView,
};
use crate::llm::chat::text_option;
use crate::llm::errors::error_message;
use crate::text::{contains_spec, lowercase, lowercase_known};

verus! {

broadcast use vstd::string::group_string_axioms;

/// A request to draw a diagram: the document, the requirement, and the
/// provider settings to use.
#[derive(Debug)]
pub struct GenerateRequest {
    pub context: String,
    pub prompt: String,
    pub provider: String,
    pub api_key: String,
    pub model: String,
    pub base_url: Option<String>,
}

/// The optional base URL of a request, borrowed.
fn base_url_of(request: &GenerateRequest) -> (r: Option<&str>)
    ensures
        str_option(r) == text_option(request.base_url),
{
    match &request.base_url {
        Some(u) => Some(u.as_str()),
        None => None,
    }
}

/// The client that a diagram request asks for, or the message of the error
/// that refuses it.
pub fn request_client(request: &GenerateRequest) -> (r: Result<LLMClient, String>)
    ensures
        match provider_for(
            lowercase(request.provider@),
            request.api_key@,
            request.model@,
            text_option(request.base_url),
        ) {
            Some(v) => r matches Ok(c) && c@ == v,
            None => r matches Err(m) && m@ == "Unsupported provider: "@ + request.provider@,
        },
        lowercase_known(request.provider@),
{
    let base_url = base_url_of(request);
    match LLMClient::new(
        request.provider.as_str(),
        request.api_key.as_str(),
        request.model.as_str(),
        base_url,
    ) {
        Ok(client) => Ok(client),
        Err(e) => Err(e.message()),
    }
}

/// The provider settings that a request selects, if its provider is known.
pub open spec fn requested_provider(request: &GenerateRequest) -> Option<ProviderView> {
    provider_for(
        lowercase(request.provider@),
        request.api_key@,
        request.model@,
        text_option(request.base_url),
    )
}

/// The next step of the diagram command: chat with a client, or answer at
/// once.
pub enum DrawioStep {
    /// Send these messages through this client and finish with the reply.
    Chat(LLMClient, Vec<Message>),
    /// The command's answer.
    Done(Result<String, String>),
}

/// Starts the diagram command: the client that the request asks for and the
/// chat that asks it for a diagram of the document meeting the requirement;
/// or, for an unknown provider, the answer that refuses the request.
pub fn start_drawio_command(request: &GenerateRequest) -> (s: DrawioStep)
    ensures
        match requested_provider(request) {
            Some(v) => s matches DrawioStep::Chat(c, m) && c@ == v && messages_view(m@)
                == drawio_chat(request.context@, request.prompt@),
            None => s matches DrawioStep::Done(Err(m)) && m@ == "Unsupported provider: "@
                + request.provider@,
        },
        lowercase_known(request.provider@),
{
    match request_client(request) {
        Ok(client) => DrawioStep::Chat(
            client,
            drawio_messages(request.context.as_str(), request.prompt.as_str()),
        ),
        Err(m) => DrawioStep::Done(Err(m)),
    }
}

/// The answer that the diagram command gives for a chat's reply: the
/// diagram, when the cleaned reply holds one, else the message of the error.
pub open spec fn drawio_answer(reply: Result<String, LLMError>, r: Result<String, String>) -> bool {
    match reply {
        Ok(text) => if contains_spec(cleaned_reply(text@), "<mxfile"@) {
            r matches Ok(xml) && xml@ == cleaned_reply(text@)
        } else {
            r matches Err(m) && m@ == "Parse error: "@
                + "Response does not contain valid draw.io XML"@
        },
        Err(e) => r matches Err(m) && error_message(e, m@),
    }
}

/// Finishes the diagram command with the chat's reply: the draw.io XML
/// cleaned from the answer, or the message of whatever went wrong.
pub fn finish_drawio_command(reply: Result<String, LLMError>) -> (r: Result<String, String>)
    ensures
        drawio_answer(reply, r),
{
    match reply {
        Ok(text) => match clean_drawio_xml(text.as_str()) {
            Ok(xml) => Ok(xml),
            Err(e) => Err(e.message()),
        },
        Err(e) => Err(e.message()),
    }
}

/// Law: the diagram command answers a bare reply that holds `<mxfile` with
/// that reply, whole and unchanged, whatever its length.
pub proof fn lemma_bare_reply_answered_whole(text: String, r: Result<String, String>)
    requires
        bare_reply(text@),
        contains_spec(text@, "<mxfile"@),
        drawio_answer(Ok::<String, LLMError>(text), r),
    ensures
        r matches Ok(xml) && xml@ == text@ && xml@.len() == text@.len(),
{
    lemma_bare_reply_is_clean(text@);
}

} // verus!
