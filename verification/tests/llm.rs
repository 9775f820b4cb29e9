use ezgraph::llm::anthropic::{split_system, AnthropicProvider};
use ezgraph::llm::chat::{
    after_status, reply_text, ChatRequest, ReplyBody, ReplyShape, ReplyStep, RequestBody,
};
use ezgraph::llm::ollama::OllamaProvider;
use ezgraph::llm::openai::OpenAIProvider;
use ezgraph::llm::status::{is_success_status, status_display};
use ezgraph::llm::{
    api_error_for, clean_drawio_xml, drawio_messages, LLMClient, LLMError, LLMProvider, Message,
    DRAWIO_SYSTEM_PROMPT,
};

fn headers(r: &ChatRequest) -> Vec<(String, String)> {
    r.headers.iter().map(|h| (h.name.clone(), h.value.clone())).collect()
}

fn pair(a: &str, b: &str) -> (String, String) {
    (a.to_string(), b.to_string())
}

fn chat() -> Vec<Message> {
    vec![Message::new("system", "S"), Message::new("user", "U")]
}

#[test]
fn openai_client_defaults_to_openai_endpoint() {
    let client = LLMClient::new("openai", "sk", "gpt-4o", None).unwrap();
    assert_eq!(client.provider_name(), "openai");
    assert_eq!(client.model(), "gpt-4o");
    let r = client.chat_request(chat());
    assert_eq!(r.url, "https://api.openai.com/v1/chat/completions");
    assert_eq!(
        headers(&r),
        vec![pair("Authorization", "Bearer sk"), pair("Content-Type", "application/json")]
    );
    match r.body {
        RequestBody::Chat { model, messages } => {
            assert_eq!(model, "gpt-4o");
            assert_eq!(messages.len(), 2);
            assert_eq!(messages[0].role, "system");
            assert_eq!(messages[1].content, "U");
        }
        other => panic!("unexpected {:?}", other),
    }
}

#[test]
fn provider_names_are_case_insensitive() {
    let client = LLMClient::new("OpenAI", "k", "m", None).unwrap();
    assert_eq!(client.provider_name(), "openai");
    let client = LLMClient::new("ANTHROPIC", "k", "haiku-model", None).unwrap();
    assert_eq!(client.provider_name(), "anthropic");
    assert_eq!(client.model(), "haiku-model");
}

#[test]
fn groq_and_minimax_use_their_endpoints() {
    let groq = LLMClient::new("groq", "k", "llama", Some("http://ignored")).unwrap();
    assert_eq!(groq.provider_name(), "openai");
    assert_eq!(groq.chat_request(vec![]).url, "https://api.groq.com/openai/v1/chat/completions");
    let minimax = LLMClient::new("minimax", "k", "abab", None).unwrap();
    assert_eq!(minimax.chat_request(vec![]).url, "https://api.minimax.chat/v1/chat/completions");
}

#[test]
fn custom_endpoint_loses_trailing_slashes() {
    let custom = LLMClient::new("custom", "k", "m", Some("http://host:8000/v1///")).unwrap();
    assert_eq!(custom.chat_request(vec![]).url, "http://host:8000/v1/chat/completions");
    let p = OpenAIProvider::new("k", "m", Some("http://h/")).unwrap();
    assert_eq!(p.chat_request(vec![]).url, "http://h/chat/completions");
}

#[test]
fn unknown_provider_is_unsupported() {
    match LLMClient::new("Gemini", "k", "m", None) {
        Err(LLMError::UnsupportedProvider(name)) => assert_eq!(name, "Gemini"),
        other => panic!("unexpected {:?}", other),
    }
    assert!(LLMClient::for_provider_key("Openai", "Openai", "k", "m", None).is_err());
    assert!(LLMClient::for_provider_key("openai", "Openai", "k", "m", None).is_ok());
}

#[test]
fn anthropic_request_separates_the_system_prompt() {
    let client = LLMClient::new("anthropic", "key", "opus-model", Some("http://ignored")).unwrap();
    let messages = vec![
        Message::new("system", "Be brief."),
        Message::new("user", "Hi"),
        Message::new("assistant", "Hello"),
        Message::new("tool", "42"),
        Message::new("system", " Really."),
    ];
    let r = client.chat_request(messages);
    assert_eq!(r.url, "https://api.anthropic.com/v1/messages");
    assert_eq!(
        headers(&r),
        vec![
            pair("x-api-key", "key"),
            pair("anthropic-version", "2023-06-01"),
            pair("Content-Type", "application/json"),
        ]
    );
    match r.body {
        RequestBody::Anthropic { model, messages, max_tokens, system } => {
            assert_eq!(model, "opus-model");
            assert_eq!(max_tokens, 4096);
            assert_eq!(system.as_deref(), Some("Be brief. Really."));
            let roles: Vec<&str> = messages.iter().map(|m| m.role.as_str()).collect();
            assert_eq!(roles, vec!["user", "assistant", "assistant"]);
            let contents: Vec<&str> = messages.iter().map(|m| m.content.as_str()).collect();
            assert_eq!(contents, vec!["Hi", "Hello", "42"]);
        }
        other => panic!("unexpected {:?}", other),
    }
}

#[test]
fn chat_without_system_message_has_no_system_prompt() {
    let (system, rest) = split_system(&vec![Message::new("user", "Q")]);
    assert!(system.is_none());
    assert_eq!(rest.len(), 1);
    let p = AnthropicProvider::new("k", "m").unwrap();
    assert_eq!(p.provider_name(), "anthropic");
}

#[test]
fn ollama_sends_a_real_key_only() {
    let local = LLMClient::new("ollama", "ollama", "llama3", None).unwrap();
    let r = local.chat_request(chat());
    assert_eq!(r.url, "http://localhost:11434/api/chat");
    assert_eq!(headers(&r), vec![pair("Content-Type", "application/json")]);
    match r.body {
        RequestBody::Ollama { model, messages, stream } => {
            assert_eq!(model, "llama3");
            assert_eq!(messages.len(), 2);
            assert!(!stream);
        }
        other => panic!("unexpected {:?}", other),
    }
    let empty = OllamaProvider::new("", "m", Some("http://box:1/")).unwrap();
    let r = empty.chat_request(vec![]);
    assert_eq!(r.url, "http://box:1/api/chat");
    assert_eq!(r.headers.len(), 1);
    let keyed = OllamaProvider::new("secret", "m", None).unwrap();
    assert_eq!(
        headers(&keyed.chat_request(vec![])),
        vec![pair("Content-Type", "application/json"), pair("Authorization", "Bearer secret")]
    );
}

#[test]
fn replies_give_their_first_answer() {
    assert_eq!(reply_text(ReplyBody::Choices(vec!["a".into(), "b".into()])).unwrap(), "a");
    assert_eq!(reply_text(ReplyBody::Content(vec!["c".into()])).unwrap(), "c");
    assert_eq!(reply_text(ReplyBody::Message("m".into())).unwrap(), "m");
    match reply_text(ReplyBody::Choices(vec![])) {
        Err(LLMError::ParseError(m)) => assert_eq!(m, "No choices in response"),
        other => panic!("unexpected {:?}", other),
    }
    match reply_text(ReplyBody::Content(vec![])) {
        Err(LLMError::ParseError(m)) => assert_eq!(m, "No content in response"),
        other => panic!("unexpected {:?}", other),
    }
}

#[test]
fn status_codes() {
    assert!(is_success_status(200));
    assert!(is_success_status(299));
    assert!(!is_success_status(199));
    assert!(!is_success_status(300));
    assert!(!is_success_status(404));
    assert_eq!(status_display(404), "404 Not Found");
    assert_eq!(status_display(200), "200 OK");
    assert_eq!(status_display(599), "599 <unknown status code>");
}

#[test]
fn api_errors_name_the_provider_and_status() {
    let client = LLMClient::new("custom", "k", "m", Some("http://x")).unwrap();
    match client.api_error(401, "bad key") {
        LLMError::ApiError(m) => assert_eq!(m, "OpenAI API error (401 Unauthorized): bad key"),
        other => panic!("unexpected {:?}", other),
    }
    let client = LLMClient::new("anthropic", "k", "m", None).unwrap();
    match client.api_error(529, "") {
        LLMError::ApiError(m) => assert_eq!(m, "Anthropic API error (529 <unknown status code>): "),
        other => panic!("unexpected {:?}", other),
    }
    match api_error_for("Ollama", 500, "down") {
        LLMError::ApiError(m) => assert_eq!(m, "Ollama API error (500 Internal Server Error): down"),
        other => panic!("unexpected {:?}", other),
    }
}

#[test]
fn drawio_chat_is_system_then_user() {
    let messages = drawio_messages("my doc", "a flowchart");
    assert_eq!(messages.len(), 2);
    assert_eq!(messages[0].role, "system");
    assert_eq!(messages[0].content, DRAWIO_SYSTEM_PROMPT);
    assert!(DRAWIO_SYSTEM_PROMPT.starts_with("You are a draw.io diagram generation expert."));
    assert!(DRAWIO_SYSTEM_PROMPT.contains("<mxGraphModel dx=\"900\" dy=\"600\">"));
    assert_eq!(messages[1].role, "user");
    assert_eq!(
        messages[1].content,
        "## Context:\nmy doc\n\n## Requirement:\na flowchart\n\nGenerate the draw.io XML diagram:"
    );
}

#[test]
fn drawio_replies_are_cleaned() {
    assert_eq!(
        clean_drawio_xml("  ```xml\n<mxfile><diagram/></mxfile>\n```  ").unwrap(),
        "<mxfile><diagram/></mxfile>"
    );
    assert_eq!(clean_drawio_xml("```<mxfile/>```").unwrap(), "<mxfile/>");
    assert_eq!(clean_drawio_xml("<mxfile/>").unwrap(), "<mxfile/>");
    assert_eq!(clean_drawio_xml("``` ```xml<mxfile/>").unwrap(), "```xml<mxfile/>");
}

#[test]
fn replies_without_a_diagram_are_refused() {
    match clean_drawio_xml("Sorry, I cannot help.") {
        Err(LLMError::ParseError(m)) => assert_eq!(m, "Response does not contain valid draw.io XML"),
        other => panic!("unexpected {:?}", other),
    }
}

#[test]
fn llm_error_messages() {
    assert_eq!(LLMError::ParseError("x".into()).message(), "Parse error: x");
    assert_eq!(LLMError::ApiError("y".into()).message(), "API error: y");
    assert_eq!(LLMError::UnsupportedProvider("z".into()).message(), "Unsupported provider: z");
    assert_eq!(LLMError::ConfigError("w".into()).message(), "Configuration error: w");
}

#[test]
fn reply_is_read_by_its_status_and_api() {
    let openai = LLMClient::new("openai", "sk", "m", None).unwrap().chat_request(chat());
    let anthropic = LLMClient::new("anthropic", "sk", "m", None).unwrap().chat_request(chat());
    let ollama = LLMClient::new("ollama", "", "m", None).unwrap().chat_request(chat());
    assert!(matches!(after_status(&openai, 200), ReplyStep::ReadReply(ReplyShape::Choices)));
    assert!(matches!(after_status(&anthropic, 201), ReplyStep::ReadReply(ReplyShape::Content)));
    assert!(matches!(after_status(&ollama, 299), ReplyStep::ReadReply(ReplyShape::Message)));
    assert!(matches!(after_status(&openai, 199), ReplyStep::ReadErrorText));
    assert!(matches!(after_status(&anthropic, 300), ReplyStep::ReadErrorText));
    assert!(matches!(after_status(&ollama, 500), ReplyStep::ReadErrorText));
}

#[test]
fn messages_can_be_cloned() {
    let m = Message::new("user", "hello");
    let c = m.clone();
    assert_eq!(c.role, "user");
    assert_eq!(c.content, "hello");
}
