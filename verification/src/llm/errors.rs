//! The errors of a chat exchange with an LLM provider.

use vstd::prelude::*;
use vstd::string::*;

verus! {

broadcast use vstd::string::group_string_axioms;

#[verifier::external_type_specification]
#[verifier::external_body]
pub struct ExReqwestError(reqwest::Error);

/// Why a chat exchange or a client's creation failed.
#[derive(Debug)]
pub enum LLMError {
    RequestError(reqwest::Error),
    ParseError(String),
    ApiError(String),
    UnsupportedProvider(String),
    ConfigError(String),
}

/// `m` is the message that describes `e` to the user: a prefix naming the
/// kind of error, then its text (for a failed request, the text that the
/// request error displays).
pub open spec fn error_message(e: LLMError, m: Seq<char>) -> bool {
    match e {
        LLMError::RequestError(r) => exists|d: String|
            #[trigger] to_string_from_display_ensures::<reqwest::Error>(&r, d) && m
                == "Request failed: "@ + d@,
        LLMError::ParseError(t) => m == "Parse error: "@ + t@,
        LLMError::ApiError(t) => m == "API error: "@ + t@,
        LLMError::UnsupportedProvider(t) => m == "Unsupported provider: "@ + t@,
        LLMError::ConfigError(t) => m == "Configuration error: "@ + t@,
    }
}

impl LLMError {
    /// The message that describes the error to the user.
    pub fn message(&self) -> (m: String)
        ensures
            error_message(*self, m@),
    {
        match self {
            LLMError::RequestError(e) => {
                let d = e.to_string();
                String::from_str("Request failed: ").concat(d.as_str())
            },
            LLMError::ParseError(t) => String::from_str("Parse error: ").concat(t.as_str()),
            LLMError::ApiError(t) => String::from_str("API error: ").concat(t.as_str()),
            LLMError::UnsupportedProvider(t) => String::from_str("Unsupported provider: ").concat(
                t.as_str(),
            ),
            LLMError::ConfigError(t) => String::from_str("Configuration error: ").concat(t.as_str()),
        }
    }
}

impl From<reqwest::Error> for LLMError {
    fn from(e: reqwest::Error) -> (r: LLMError) {
        LLMError::RequestError(e)
    }
}

impl vstd::std_specs::convert::FromSpecImpl<reqwest::Error> for LLMError {
    open spec fn obeys_from_spec() -> bool {
        true
    }

    open spec fn from_spec(e: reqwest::Error) -> LLMError {
        LLMError::RequestError(e)
    }
}

} // verus!
