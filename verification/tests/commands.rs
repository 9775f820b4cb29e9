use ezgraph::commands::{
    finish_drawio_command, request_client, start_drawio_command, DrawioStep, GenerateRequest,
};
use ezgraph::llm::{LLMError, LLMProvider, DRAWIO_SYSTEM_PROMPT};

fn request(provider: &str, base_url: Option<&str>) -> GenerateRequest {
    GenerateRequest {
        context: "doc".to_string(),
        prompt: "draw".to_string(),
        provider: provider.to_string(),
        api_key: "key".to_string(),
        model: "model-x".to_string(),
        base_url: base_url.map(|s| s.to_string()),
    }
}

#[test]
fn request_selects_its_client() {
    let client = request_client(&request("Ollama", Some("http://gpu:11434/"))).unwrap();
    assert_eq!(client.provider_name(), "ollama");
    assert_eq!(client.model(), "model-x");
    assert_eq!(client.chat_request(vec![]).url, "http://gpu:11434/api/chat");
}

#[test]
fn request_for_unknown_provider_gives_the_message() {
    match request_client(&request("bard", None)) {
        Err(m) => assert_eq!(m, "Unsupported provider: bard"),
        Ok(_) => panic!("client made for an unknown provider"),
    }
}

#[test]
fn diagram_command_starts_with_the_client_and_the_chat() {
    match start_drawio_command(&request("Anthropic", None)) {
        DrawioStep::Chat(client, messages) => {
            assert_eq!(client.provider_name(), "anthropic");
            assert_eq!(client.model(), "model-x");
            assert_eq!(messages.len(), 2);
            assert_eq!(messages[0].role, "system");
            assert_eq!(messages[0].content, DRAWIO_SYSTEM_PROMPT);
            assert_eq!(messages[1].role, "user");
            assert_eq!(
                messages[1].content,
                "## Context:\ndoc\n\n## Requirement:\ndraw\n\nGenerate the draw.io XML diagram:"
            );
        }
        DrawioStep::Done(_) => panic!("a known provider was refused"),
    }
}

#[test]
fn diagram_command_refuses_an_unknown_provider_at_once() {
    match start_drawio_command(&request("Bard", None)) {
        DrawioStep::Done(Err(m)) => assert_eq!(m, "Unsupported provider: Bard"),
        _ => panic!("an unknown provider was accepted"),
    }
}

#[test]
fn diagram_command_finishes_with_the_cleaned_diagram() {
    let reply = Ok("```xml\n<mxfile><diagram/></mxfile>\n```".to_string());
    assert_eq!(finish_drawio_command(reply), Ok("<mxfile><diagram/></mxfile>".to_string()));
}

#[test]
fn diagram_command_reports_errors_by_their_message() {
    assert_eq!(
        finish_drawio_command(Ok("no diagram here".to_string())),
        Err("Parse error: Response does not contain valid draw.io XML".to_string())
    );
    assert_eq!(
        finish_drawio_command(Err(LLMError::ApiError("OpenAI 401 Unauthorized: bad key".to_string()))),
        Err("API error: OpenAI 401 Unauthorized: bad key".to_string())
    );
    assert_eq!(
        finish_drawio_command(Err(LLMError::ConfigError("no key".to_string()))),
        Err("Configuration error: no key".to_string())
    );
}
