//! Talking to the LLM providers: the messages of a chat, the HTTP request
//! that carries them, and reading the provider's reply.

pub mod anthropic;
pub mod chat;
pub mod errors;
pub mod ollama;
pub mod openai;
pub mod status;

pub use errors::LLMError;

use vstd::prelude::*;
use vstd::string::*;
use chat::{ChatRequest, RequestView};
use anthropic::{anthropic_request, AnthropicProvider, AnthropicView};
use ollama::{ollama_request, ollama_view, OllamaProvider, OllamaView};
use openai::{openai_request, openai_view, OpenAIProvider, OpenAIView};
use crate::text::{
    contains, contains_spec, is_part_of, is_white_space, lemma_part_of_part,
    lemma_strip_prefixes_part_of, lemma_strip_suffixes_part_of, lemma_trim_has_no_outer_white_space,
    lemma_trim_part_of, lowercase, lowercase_known, same_text, strip_prefixes, strip_suffixes, to_lowercase, trim,
    trim_end_matches, trim_end_spec, trim_spec, trim_start_matches, trim_start_spec,
};

verus! {

broadcast use vstd::string::group_string_axioms;

/// One message of a chat: who speaks (`system`, `user` or `assistant`) and
/// what is said.
#[derive(Clone, Debug)]
pub struct Message {
    pub role: String,
    pub content: String,
}

/// The mathematical value of a `Message`.
pub struct MessageView {
    pub role: Seq<char>,
    pub content: Seq<char>,
}

impl View for Message {
    type V = MessageView;

    open spec fn view(&self) -> MessageView {
        MessageView { role: self.role@, content: self.content@ }
    }
}

/// The values of a sequence of messages.
pub open spec fn messages_view(messages: Seq<Message>) -> Seq<MessageView> {
    messages.map_values(|m: Message| m@)
}

impl Message {
    /// A message with the given role and content.
    pub fn new(role: &str, content: &str) -> (m: Message)
        ensures
            m.role@ == role@,
            m.content@ == content@,
    {
        Message { role: role.to_string(), content: content.to_string() }
    }
}

/// The text of an error reply: "<label> API error (<status>): <reply text>".
pub open spec fn api_error_text(label: Seq<char>, status: u16, error_text: Seq<char>) -> Seq<char> {
    label + " API error ("@ + status::status_text(status) + "): "@ + error_text
}

/// The error for a reply with a failure status, labelled with the API.
pub fn api_error_for(label: &str, status: u16, error_text: &str) -> (e: LLMError)
    requires
        100 <= status <= 999,
    ensures
        e matches LLMError::ApiError(m) && m@ == api_error_text(label@, status, error_text@),
{
    let m = label.to_string().concat(" API error (").concat(status::status_display(status).as_str()).concat(
        "): ",
    ).concat(error_text);
    LLMError::ApiError(m)
}

/// An LLM provider's API: its name, the model it asks for, the request that
/// carries a chat, and the error that a failed reply gives.
pub trait LLMProvider: Send + Sync {
    /// The provider's name.
    spec fn name_spec(&self) -> Seq<char>;

    /// The model the provider asks for.
    spec fn model_spec(&self) -> Seq<char>;

    /// The label of the provider's API in error messages.
    spec fn label_spec(&self) -> Seq<char>;

    /// The request that carries `messages`.
    spec fn request_spec(&self, messages: Seq<MessageView>) -> RequestView;

    fn provider_name(&self) -> (r: &str)
        ensures
            r@ == self.name_spec(),
    ;

    fn model(&self) -> (r: &str)
        ensures
            r@ == self.model_spec(),
    ;

    /// The request that sends `messages` to the provider.
    fn chat_request(&self, messages: Vec<Message>) -> (r: ChatRequest)
        ensures
            r@ == self.request_spec(messages_view(messages@)),
    ;

    /// The error for a reply with the failure status `status` and the text
    /// `error_text`.
    fn api_error(&self, status: u16, error_text: &str) -> (e: LLMError)
        requires
            100 <= status <= 999,
        ensures
            e matches LLMError::ApiError(m) && m@ == api_error_text(
                self.label_spec(),
                status,
                error_text@,
            ),
    ;
}

/// The provider behind a client.
#[derive(Debug)]
pub enum Provider {
    OpenAI(OpenAIProvider),
    Anthropic(AnthropicProvider),
    Ollama(OllamaProvider),
}

/// The mathematical value of a `Provider`.
pub enum ProviderView {
    OpenAI(OpenAIView),
    Anthropic(AnthropicView),
    Ollama(OllamaView),
}

/// A chat client bound to one provider.
#[derive(Debug)]
pub struct LLMClient {
    provider: Provider,
}

impl View for LLMClient {
    type V = ProviderView;

    closed spec fn view(&self) -> ProviderView {
        match self.provider {
            Provider::OpenAI(p) => ProviderView::OpenAI(p@),
            Provider::Anthropic(p) => ProviderView::Anthropic(p@),
            Provider::Ollama(p) => ProviderView::Ollama(p@),
        }
    }
}

/// The value of an optional text.
pub open spec fn str_option(t: Option<&str>) -> Option<Seq<char>> {
    match t {
        Some(s) => Some(s@),
        None => None,
    }
}

/// The endpoint of Groq's OpenAI-compatible API.
pub open spec fn groq_base() -> Seq<char> {
    "https://api.groq.com/openai/v1"@
}

/// The endpoint of MiniMax's OpenAI-compatible API.
pub open spec fn minimax_base() -> Seq<char> {
    "https://api.minimax.chat/v1"@
}

/// The provider that a (lowercase) provider key selects: `openai`,
/// `anthropic` and `ollama` their own APIs; `groq` and `minimax` the OpenAI
/// API at their endpoints; `custom` the OpenAI API at the given base URL;
/// any other key none.
pub open spec fn provider_for(
    key: Seq<char>,
    api_key: Seq<char>,
    model: Seq<char>,
    base_url: Option<Seq<char>>,
) -> Option<ProviderView> {
    if key == "openai"@ {
        Some(ProviderView::OpenAI(openai_view(api_key, model, base_url)))
    } else if key == "anthropic"@ {
        Some(ProviderView::Anthropic(AnthropicView { api_key, model }))
    } else if key == "ollama"@ {
        Some(ProviderView::Ollama(ollama_view(api_key, model, base_url)))
    } else if key == "groq"@ {
        Some(ProviderView::OpenAI(openai_view(api_key, model, Some(groq_base()))))
    } else if key == "minimax"@ {
        Some(ProviderView::OpenAI(openai_view(api_key, model, Some(minimax_base()))))
    } else if key == "custom"@ {
        Some(ProviderView::OpenAI(openai_view(api_key, model, base_url)))
    } else {
        None
    }
}

/// A client is made exactly when the key selects a provider; otherwise the
/// provider name given is reported as unsupported.
pub open spec fn client_outcome(
    r: Result<LLMClient, LLMError>,
    key: Seq<char>,
    provider_name: Seq<char>,
    api_key: Seq<char>,
    model: Seq<char>,
    base_url: Option<Seq<char>>,
) -> bool {
    match provider_for(key, api_key, model, base_url) {
        Some(v) => r matches Ok(c) && c@ == v,
        None => r matches Err(LLMError::UnsupportedProvider(n)) && n@ == provider_name,
    }
}

/// The name of a provider.
pub open spec fn name_of(v: ProviderView) -> Seq<char> {
    match v {
        ProviderView::OpenAI(_) => "openai"@,
        ProviderView::Anthropic(_) => "anthropic"@,
        ProviderView::Ollama(_) => "ollama"@,
    }
}

/// The model a provider asks for.
pub open spec fn model_of(v: ProviderView) -> Seq<char> {
    match v {
        ProviderView::OpenAI(p) => p.model,
        ProviderView::Anthropic(p) => p.model,
        ProviderView::Ollama(p) => p.model,
    }
}

/// The label of a provider's API in error messages.
pub open spec fn label_of(v: ProviderView) -> Seq<char> {
    match v {
        ProviderView::OpenAI(_) => "OpenAI"@,
        ProviderView::Anthropic(_) => "Anthropic"@,
        ProviderView::Ollama(_) => "Ollama"@,
    }
}

/// The request that carries `messages` to a provider.
pub open spec fn request_of(v: ProviderView, messages: Seq<MessageView>) -> RequestView {
    match v {
        ProviderView::OpenAI(p) => openai_request(p, messages),
        ProviderView::Anthropic(p) => anthropic_request(p, messages),
        ProviderView::Ollama(p) => ollama_request(p, messages),
    }
}

impl LLMClient {
    /// A client for the provider that `key` (a lowercase provider name)
    /// selects; `provider_name` is the name reported when none is selected.
    pub fn for_provider_key(
        key: &str,
        provider_name: &str,
        api_key: &str,
        model: &str,
        base_url: Option<&str>,
    ) -> (r: Result<LLMClient, LLMError>)
        ensures
            client_outcome(r, key@, provider_name@, api_key@, model@, str_option(base_url)),
    {
        let provider = if same_text(key, "openai") {
            Provider::OpenAI(OpenAIProvider::new(api_key, model, base_url)?)
        } else if same_text(key, "anthropic") {
            Provider::Anthropic(AnthropicProvider::new(api_key, model)?)
        } else if same_text(key, "ollama") {
            Provider::Ollama(OllamaProvider::new(api_key, model, base_url)?)
        } else if same_text(key, "groq") {
            Provider::OpenAI(
                OpenAIProvider::new(api_key, model, Some("https://api.groq.com/openai/v1"))?,
            )
        } else if same_text(key, "minimax") {
            Provider::OpenAI(OpenAIProvider::new(api_key, model, Some("https://api.minimax.chat/v1"))?)
        } else if same_text(key, "custom") {
            Provider::OpenAI(OpenAIProvider::new(api_key, model, base_url)?)
        } else {
            return Err(LLMError::UnsupportedProvider(provider_name.to_string()));
        };
        Ok(LLMClient { provider })
    }

    /// A client for the named provider; the name is matched case-insensitively
    /// (through its lowercase form).
    pub fn new(provider_name: &str, api_key: &str, model: &str, base_url: Option<&str>) -> (r:
        Result<LLMClient, LLMError>)
        ensures
            client_outcome(
                r,
                lowercase(provider_name@),
                provider_name@,
                api_key@,
                model@,
                str_option(base_url),
            ),
            lowercase_known(provider_name@),
    {
        let key = to_lowercase(provider_name);
        Self::for_provider_key(key.as_str(), provider_name, api_key, model, base_url)
    }
}

impl LLMProvider for LLMClient {
    open spec fn name_spec(&self) -> Seq<char> {
        name_of(self@)
    }

    open spec fn model_spec(&self) -> Seq<char> {
        model_of(self@)
    }

    open spec fn label_spec(&self) -> Seq<char> {
        label_of(self@)
    }

    open spec fn request_spec(&self, messages: Seq<MessageView>) -> RequestView {
        request_of(self@, messages)
    }

    fn provider_name(&self) -> (r: &str) {
        match &self.provider {
            Provider::OpenAI(p) => p.provider_name(),
            Provider::Anthropic(p) => p.provider_name(),
            Provider::Ollama(p) => p.provider_name(),
        }
    }

    fn model(&self) -> (r: &str) {
        match &self.provider {
            Provider::OpenAI(p) => p.model(),
            Provider::Anthropic(p) => p.model(),
            Provider::Ollama(p) => p.model(),
        }
    }

    fn chat_request(&self, messages: Vec<Message>) -> (r: ChatRequest) {
        match &self.provider {
            Provider::OpenAI(p) => p.chat_request(messages),
            Provider::Anthropic(p) => p.chat_request(messages),
            Provider::Ollama(p) => p.chat_request(messages),
        }
    }

    fn api_error(&self, status: u16, error_text: &str) -> (e: LLMError) {
        match &self.provider {
            Provider::OpenAI(p) => p.api_error(status, error_text),
            Provider::Anthropic(p) => p.api_error(status, error_text),
            Provider::Ollama(p) => p.api_error(status, error_text),
        }
    }
}

/// The system prompt that asks for a draw.io diagram.
pub const DRAWIO_SYSTEM_PROMPT: &'static str = "You are a draw.io diagram generation expert. The user will provide content (context) and a requirement. Please generate draw.io XML format diagram code.

Requirements:
1. Output ONLY the XML code, no explanations or markdown code blocks
2. The XML must be valid draw.io format with proper <mxfile> root element
3. Create visually appealing and well-organized diagrams
4. Use appropriate shapes, colors, and layouts

Example format:
<mxfile>
  <diagram name=\"Page-1\">
    <mxGraphModel dx=\"900\" dy=\"600\">
      <root>
        <mxCell id=\"0\" />
        <mxCell id=\"1\" parent=\"0\" />
        <mxCell id=\"2\" value=\"Hello\" style=\"rounded=1;whiteSpace=wrap;html=1;fillColor=#dae8fc;strokeColor=#6c8ebf;\" vertex=\"1\" parent=\"1\">
          <mxGeometry x=\"200\" y=\"200\" width=\"100\" height=\"40\" as=\"geometry\" />
        </mxCell>
      </root>
    </mxGraphModel>
  </diagram>
</mxfile>";

/// The user prompt that gives the document and the requirement.
pub open spec fn drawio_user_prompt(context: Seq<char>, prompt: Seq<char>) -> Seq<char> {
    "## Context:\n"@ + context + "\n\n## Requirement:\n"@ + prompt
        + "\n\nGenerate the draw.io XML diagram:"@
}

/// The chat that asks for a diagram: the system prompt, then the user
/// prompt built from the document and the requirement.
pub open spec fn drawio_chat(context: Seq<char>, prompt: Seq<char>) -> Seq<MessageView> {
    seq![
        MessageView { role: "system"@, content: DRAWIO_SYSTEM_PROMPT@ },
        MessageView { role: "user"@, content: drawio_user_prompt(context, prompt) },
    ]
}

/// The messages that ask for a diagram of `context` meeting `prompt`.
pub fn drawio_messages(context: &str, prompt: &str) -> (messages: Vec<Message>)
    ensures
        messages_view(messages@) == drawio_chat(context@, prompt@),
{
    let user_prompt = String::from_str("## Context:\n").concat(context).concat(
        "\n\n## Requirement:\n",
    ).concat(prompt).concat("\n\nGenerate the draw.io XML diagram:");
    let mut messages: Vec<Message> = Vec::new();
    messages.push(Message::new("system", DRAWIO_SYSTEM_PROMPT));
    messages.push(Message { role: String::from_str("user"), content: user_prompt });
    assert(messages_view(messages@) =~= drawio_chat(context@, prompt@));
    messages
}

/// A reply with its surroundings removed: white space, then leading
/// "```xml" and "```" fences, then trailing "```" fences, then white space.
pub open spec fn cleaned_reply(reply: Seq<char>) -> Seq<char> {
    trim_spec(
        strip_suffixes(
            strip_prefixes(strip_prefixes(trim_spec(reply), "```xml"@), "```"@),
            "```"@,
        ),
    )
}

/// The diagram in a reply: the cleaned reply when it holds `<mxfile`, else
/// a parse error.
pub open spec fn drawio_outcome(reply: Seq<char>, r: Result<String, LLMError>) -> bool {
    if contains_spec(cleaned_reply(reply), "<mxfile"@) {
        r matches Ok(xml) && xml@ == cleaned_reply(reply)
    } else {
        r matches Err(LLMError::ParseError(m)) && m@
            == "Response does not contain valid draw.io XML"@
    }
}

/// Extracts the draw.io XML from a model's reply, dropping surrounding white
/// space and Markdown code fences; refuses a reply without `<mxfile`.
pub fn clean_drawio_xml(reply: &str) -> (r: Result<String, LLMError>)
    ensures
        drawio_outcome(reply@, r),
{
    let cleaned = trim(
        trim_end_matches(trim_start_matches(trim_start_matches(trim(reply), "```xml"), "```"), "```"),
    );
    if !contains(cleaned, "<mxfile") {
        return Err(
            LLMError::ParseError(String::from_str("Response does not contain valid draw.io XML")),
        );
    }
    Ok(cleaned.to_string())
}

/// Law: a base URL that is given is the endpoint a chat goes to for the
/// keys `openai`, `custom` and `ollama`: the request's URL is the given URL
/// without its trailing slashes, followed by the API's path. For
/// `anthropic`, `groq` and `minimax` a given base URL changes nothing.
pub proof fn lemma_given_base_url_is_used(
    key: Seq<char>,
    api_key: Seq<char>,
    model: Seq<char>,
    base_url: Seq<char>,
    messages: Seq<MessageView>,
)
    ensures
        key == "openai"@ || key == "custom"@ ==> provider_for(key, api_key, model, Some(base_url))
            is Some && request_of(
            provider_for(key, api_key, model, Some(base_url))->0,
            messages,
        ).url == strip_suffixes(base_url, "/"@) + "/chat/completions"@,
        key == "ollama"@ ==> provider_for(key, api_key, model, Some(base_url)) is Some
            && request_of(provider_for(key, api_key, model, Some(base_url))->0, messages).url
            == strip_suffixes(base_url, "/"@) + "/api/chat"@,
        key == "anthropic"@ || key == "groq"@ || key == "minimax"@ ==> provider_for(
            key,
            api_key,
            model,
            Some(base_url),
        ) == provider_for(key, api_key, model, None),
{
    reveal_strlit("openai");
    reveal_strlit("anthropic");
    reveal_strlit("ollama");
    reveal_strlit("groq");
    reveal_strlit("minimax");
    reveal_strlit("custom");
    assert("custom"@[0] != "openai"@[0] && "custom"@.len() != "anthropic"@.len()
        && "custom"@[0] != "ollama"@[0] && "custom"@.len() != "groq"@.len()
        && "custom"@.len() != "minimax"@.len());
    assert("ollama"@[1] != "openai"@[1] && "ollama"@.len() != "anthropic"@.len());
    if key == "openai"@ || key == "custom"@ {
        let v = provider_for(key, api_key, model, Some(base_url))->0;
        assert(v == ProviderView::OpenAI(openai_view(api_key, model, Some(base_url))));
    }
    if key == "ollama"@ {
        let v = provider_for(key, api_key, model, Some(base_url))->0;
        assert(v == ProviderView::Ollama(ollama_view(api_key, model, Some(base_url))));
    }
}

/// Law: the chat that asks for a diagram is the system prompt, then a user
/// message that holds the whole document and the whole requirement, in that
/// order, between fixed headings, whatever their lengths.
pub proof fn lemma_drawio_chat_holds_the_document(context: Seq<char>, prompt: Seq<char>)
    ensures
        drawio_chat(context, prompt).len() == 2,
        drawio_chat(context, prompt)[0].role == "system"@,
        drawio_chat(context, prompt)[0].content == DRAWIO_SYSTEM_PROMPT@,
        drawio_chat(context, prompt)[1].role == "user"@,
        drawio_chat(context, prompt)[1].content == "## Context:\n"@ + context
            + "\n\n## Requirement:\n"@ + prompt + "\n\nGenerate the draw.io XML diagram:"@,
        drawio_chat(context, prompt)[1].content.len() == context.len() + prompt.len() + 65,
        drawio_chat(context, prompt)[1].content.subrange(12, 12 + context.len() as int) == context,
        is_part_of(context, drawio_chat(context, prompt)[1].content),
        is_part_of(prompt, drawio_chat(context, prompt)[1].content),
{
    reveal_strlit("## Context:\n");
    reveal_strlit("\n\n## Requirement:\n");
    reveal_strlit("\n\nGenerate the draw.io XML diagram:");
    let c = drawio_chat(context, prompt)[1].content;
    let a = "## Context:\n"@ + context;
    let b = a + "\n\n## Requirement:\n"@;
    let d = b + prompt;
    assert(c.subrange(12, 12 + context.len() as int) =~= context);
    assert(c.subrange(b.len() as int, b.len() + prompt.len() as int) =~= prompt);
}

/// A reply with nothing around its text: no white space at either end, and
/// no "```" fence opening or closing it.
pub open spec fn bare_reply(reply: Seq<char>) -> bool {
    &&& (reply.len() > 0 ==> !is_white_space(reply[0]) && !is_white_space(reply.last()))
    &&& !(reply.len() >= 3 && reply.take(3) == "```"@)
    &&& !(reply.len() >= 3 && reply.skip(reply.len() - 3) == "```"@)
}

/// Law: cleaning leaves a bare reply as it is.
pub proof fn lemma_bare_reply_is_clean(reply: Seq<char>)
    requires
        bare_reply(reply),
    ensures
        cleaned_reply(reply) == reply,
{
    reveal_strlit("```xml");
    reveal_strlit("```");
    assert(trim_start_spec(reply) == reply);
    assert(trim_end_spec(reply) == reply);
    if reply.len() >= 6 && reply.take(6) == "```xml"@ {
        assert(reply.take(3) =~= reply.take(6).take(3));
        assert("```xml"@.take(3) =~= "```"@);
    }
    assert(strip_prefixes(reply, "```xml"@) == reply);
    assert(strip_prefixes(reply, "```"@) == reply);
    assert(strip_suffixes(reply, "```"@) == reply);
}

/// Law: a bare reply that holds `<mxfile` is returned whole, unchanged,
/// whatever its length.
pub proof fn lemma_bare_diagram_returned_whole(reply: Seq<char>, r: Result<String, LLMError>)
    requires
        bare_reply(reply),
        contains_spec(reply, "<mxfile"@),
        drawio_outcome(reply, r),
    ensures
        r matches Ok(xml) && xml@ == reply && xml@.len() == reply.len(),
{
    lemma_bare_reply_is_clean(reply);
}

/// Law: a client reports the model it was made with, and its provider's
/// name: the key's own name for `openai`, `anthropic` and `ollama`, and
/// `openai` for the OpenAI-compatible `groq`, `minimax` and `custom`.
pub proof fn lemma_client_reports_its_settings(
    key: Seq<char>,
    api_key: Seq<char>,
    model: Seq<char>,
    base_url: Option<Seq<char>>,
)
    requires
        provider_for(key, api_key, model, base_url) is Some,
    ensures
        model_of(provider_for(key, api_key, model, base_url)->0) == model,
        name_of(provider_for(key, api_key, model, base_url)->0) == (if key == "anthropic"@
            || key == "ollama"@ {
            key
        } else {
            "openai"@
        }),
{
}

/// Law: provider names are matched without regard to case: two names with
/// the same lowercase form give the same outcome, up to the name reported
/// when the provider is unsupported.
pub proof fn lemma_provider_name_case_insensitive(
    name_a: Seq<char>,
    name_b: Seq<char>,
    api_key: Seq<char>,
    model: Seq<char>,
    base_url: Option<Seq<char>>,
)
    requires
        lowercase(name_a) == lowercase(name_b),
    ensures
        provider_for(lowercase(name_a), api_key, model, base_url) == provider_for(
            lowercase(name_b),
            api_key,
            model,
            base_url,
        ),
{
}

/// Law: the diagram taken from a reply is a contiguous part of the reply,
/// neither begins nor ends with white space, and a reply yields a diagram
/// exactly when that part holds `<mxfile`.
pub proof fn lemma_drawio_xml_comes_from_reply(reply: Seq<char>)
    ensures
        is_part_of(cleaned_reply(reply), reply),
        cleaned_reply(reply).len() > 0 ==> !is_white_space(cleaned_reply(reply)[0])
            && !is_white_space(cleaned_reply(reply).last()),
{
    let a = trim_spec(reply);
    let b = strip_prefixes(a, "```xml"@);
    let c = strip_prefixes(b, "```"@);
    let d = strip_suffixes(c, "```"@);
    lemma_trim_part_of(reply);
    lemma_strip_prefixes_part_of(a, "```xml"@);
    lemma_strip_prefixes_part_of(b, "```"@);
    lemma_strip_suffixes_part_of(c, "```"@);
    lemma_trim_part_of(d);
    lemma_part_of_part(cleaned_reply(reply), d, c);
    lemma_part_of_part(cleaned_reply(reply), c, b);
    lemma_part_of_part(cleaned_reply(reply), b, a);
    lemma_part_of_part(cleaned_reply(reply), a, reply);
    lemma_trim_has_no_outer_white_space(d);
}

} // verus!
