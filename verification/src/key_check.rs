//! Checking an API key: what the provider's reply to a trial request
//! says about the key.
//!
//! Sending the trial request is the caller's part.

use vstd::prelude::*;
use vstd::string::StringExecFns;
use crate::error::RecallError;
use crate::json::{json_member, json_member_of, json_string};
use crate::llm::{
    api_error_text, extract_error_message, is_success, reported_message, shown_body,
    DEFAULT_RETRY_AFTER_SECS, ERROR_BODY_LEN,
};
use crate::text::{chars_of, contains_chars, has_substring, trim, trimmed};

verus! {

/// What a reply of the provider holds, once it is read as a reply to a
/// request for content.
#[derive(Debug, Clone)]
pub struct ContentReply {
    /// The number of candidates.
    pub candidates: usize,
    /// Why the provider refused the prompt, if it did.
    pub block_reason: Option<String>,
    /// The text of the first part of the first candidate, if that is
    /// text.
    pub first_text: Option<String>,
}

/// The ways in which a check of the key ends.
#[derive(Debug, Clone, Copy, PartialEq, Eq, Structural)]
pub enum KeyVerdict {
    Valid,
    InvalidKey,
    QuotaExceeded,
    RateLimited,
    ApiError,
    BillingNotEnabled,
    ModelNotAvailable,
    ReportedError,
    UnreadableReply,
    Blocked,
    NoCandidates,
    EmptyReply,
}

/// Whether a text speaks of a quota that is used up.
pub open spec fn speaks_of_quota(text: Seq<char>) -> bool {
    has_substring(text, "RESOURCE_EXHAUSTED"@) || has_substring(text, "quota"@)
}

/// Whether a text speaks of billing or of a quota.
pub open spec fn speaks_of_billing(text: Seq<char>) -> bool {
    has_substring(text, "billing"@) || has_substring(text, "quota"@) || has_substring(
        text,
        "RESOURCE_EXHAUSTED"@,
    )
}

/// Whether a text speaks of something that is missing.
pub open spec fn speaks_of_missing(text: Seq<char>) -> bool {
    has_substring(text, "not found"@) || has_substring(text, "does not exist"@)
}

/// The message of the failure that a successful reply reports all the
/// same, if it reports one: the string at `error.message`, or a fixed
/// text where `error` holds no such string.
pub open spec fn error_in_body(body: Seq<char>) -> Option<Seq<char>> {
    match json_member_of(body, "error"@) {
        Some(_) => match reported_message(body) {
            Some(m) => Some(m),
            None => Some("Unknown API error"@),
        },
        None => None,
    }
}

/// How the check of a key ends, given the status of the reply, its body,
/// and what the body holds if it can be read as a reply.
pub open spec fn verdict_of(status: u16, body: Seq<char>, reply: Option<ContentReply>) -> KeyVerdict {
    if !is_success(status) {
        if status == 401 || status == 403 {
            KeyVerdict::InvalidKey
        } else if status == 429 {
            if speaks_of_quota(body) {
                KeyVerdict::QuotaExceeded
            } else {
                KeyVerdict::RateLimited
            }
        } else {
            KeyVerdict::ApiError
        }
    } else {
        match error_in_body(body) {
            Some(m) => if speaks_of_billing(m) {
                KeyVerdict::BillingNotEnabled
            } else if speaks_of_missing(m) {
                KeyVerdict::ModelNotAvailable
            } else {
                KeyVerdict::ReportedError
            },
            None => match reply {
                None => KeyVerdict::UnreadableReply,
                Some(r) => if r.candidates == 0 {
                    if r.block_reason is Some {
                        KeyVerdict::Blocked
                    } else {
                        KeyVerdict::NoCandidates
                    }
                } else if r.first_text matches Some(t) && trimmed(t@).len() > 0 {
                    KeyVerdict::Valid
                } else {
                    KeyVerdict::EmptyReply
                },
            },
        }
    }
}

/// The text of the failure for each verdict but a valid key and an
/// invalid one.
pub open spec fn verdict_text(
    v: KeyVerdict,
    status_text: Seq<char>,
    body: Seq<char>,
    reply: Option<ContentReply>,
) -> Seq<char> {
    let shown = match reported_message(body) {
        Some(m) => m,
        None => shown_body(body, ERROR_BODY_LEN as int),
    };
    match v {
        KeyVerdict::QuotaExceeded => "API quota exceeded. Please enable billing in Google AI Studio or wait for quota reset."@,
        KeyVerdict::ApiError => api_error_text(status_text, shown),
        KeyVerdict::BillingNotEnabled => "Billing not enabled. Please set up billing in Google AI Studio to use the API."@,
        KeyVerdict::ModelNotAvailable => "Model not available. Please ensure gemini-2.0-flash is enabled for your API key."@,
        KeyVerdict::ReportedError => match error_in_body(body) {
            Some(m) => m,
            None => Seq::empty(),
        },
        KeyVerdict::UnreadableReply => "Invalid API response: "@ + shown,
        KeyVerdict::Blocked => "Request blocked: "@ + match reply {
            Some(r) => match r.block_reason {
                Some(b) => b@,
                None => Seq::empty(),
            },
            None => Seq::empty(),
        },
        KeyVerdict::NoCandidates => "API returned no response. This may indicate a billing or quota issue."@,
        KeyVerdict::EmptyReply => "API returned empty response. Please verify your API key has proper permissions."@,
        _ => Seq::empty(),
    }
}

fn mentions(text: &Vec<char>, word: &str) -> (r: bool)
    ensures
        r == has_substring(text@, word@),
{
    let w = chars_of(word);
    contains_chars(text, &w)
}

fn error_message_in_body(body: &str) -> (r: Option<String>)
    ensures
        match error_in_body(body@) {
            Some(m) => r matches Some(t) && t@ == m,
            None => r is None,
        },
{
    match json_member(body, "error") {
        Some(error) => {
            let message = match json_member(error.as_str(), "message") {
                Some(m) => json_string(m.as_str()),
                None => None,
            };
            match message {
                Some(m) => Some(m),
                None => Some("Unknown API error".to_owned()),
            }
        },
        None => None,
    }
}

/// Reads the reply to a trial request made with an API key.
///
/// The key is good only where the reply is a success, reports no
/// failure in its body, and holds a candidate with text. Every other
/// reply gives the failure that names what is wrong.
pub fn validate_api_key(status: u16, status_text: &str, body: &str, reply: &Option<ContentReply>) -> (r:
    std::result::Result<bool, RecallError>)
    ensures
        ({
            let v = verdict_of(status, body@, *reply);
            match v {
                KeyVerdict::Valid => r matches Ok(b) && b,
                KeyVerdict::InvalidKey => r matches Err(RecallError::InvalidApiKey),
                KeyVerdict::RateLimited => r matches Err(RecallError::RateLimit(w)) && w
                    == DEFAULT_RETRY_AFTER_SECS,
                _ => r matches Err(RecallError::LlmApi(m)) && m@ == verdict_text(
                    v,
                    status_text@,
                    body@,
                    *reply,
                ),
            }
        }),
{
    if !(200 <= status && status < 300) {
        if status == 401 || status == 403 {
            return Err(RecallError::InvalidApiKey);
        }
        if status == 429 {
            let text = chars_of(body);
            if mentions(&text, "RESOURCE_EXHAUSTED") || mentions(&text, "quota") {
                return Err(
                    RecallError::LlmApi(
                        "API quota exceeded. Please enable billing in Google AI Studio or wait for quota reset.".to_owned(),
                    ),
                );
            }
            return Err(RecallError::RateLimit(DEFAULT_RETRY_AFTER_SECS));
        }
        let mut m = String::new();
        m.append("API error ");
        m.append(status_text);
        m.append(": ");
        m.append(extract_error_message(body).as_str());
        proof {
            assert(m@ =~= verdict_text(KeyVerdict::ApiError, status_text@, body@, *reply));
        }
        return Err(RecallError::LlmApi(m));
    }
    match error_message_in_body(body) {
        Some(message) => {
            let text = chars_of(message.as_str());
            if mentions(&text, "billing") || mentions(&text, "quota") || mentions(
                &text,
                "RESOURCE_EXHAUSTED",
            ) {
                return Err(
                    RecallError::LlmApi(
                        "Billing not enabled. Please set up billing in Google AI Studio to use the API.".to_owned(),
                    ),
                );
            }
            if mentions(&text, "not found") || mentions(&text, "does not exist") {
                return Err(
                    RecallError::LlmApi(
                        "Model not available. Please ensure gemini-2.0-flash is enabled for your API key.".to_owned(),
                    ),
                );
            }
            return Err(RecallError::LlmApi(message));
        },
        None => {},
    }
    match reply {
        None => {
            let mut m = String::new();
            m.append("Invalid API response: ");
            m.append(extract_error_message(body).as_str());
            proof {
                assert(m@ =~= verdict_text(
                    KeyVerdict::UnreadableReply,
                    status_text@,
                    body@,
                    *reply,
                ));
            }
            Err(RecallError::LlmApi(m))
        },
        Some(content) => {
            if content.candidates == 0 {
                match &content.block_reason {
                    Some(reason) => {
                        let mut m = String::new();
                        m.append("Request blocked: ");
                        m.append(reason.as_str());
                        proof {
                            assert(m@ =~= verdict_text(
                                KeyVerdict::Blocked,
                                status_text@,
                                body@,
                                *reply,
                            ));
                        }
                        return Err(RecallError::LlmApi(m));
                    },
                    None => {
                        return Err(
                            RecallError::LlmApi(
                                "API returned no response. This may indicate a billing or quota issue.".to_owned(),
                            ),
                        );
                    },
                }
            }
            let has_content = match &content.first_text {
                Some(t) => !trim(t.as_str()).as_str().is_empty(),
                None => false,
            };
            if has_content {
                Ok(true)
            } else {
                Err(
                    RecallError::LlmApi(
                        "API returned empty response. Please verify your API key has proper permissions.".to_owned(),
                    ),
                )
            }
        },
    }
}

} // verus!
