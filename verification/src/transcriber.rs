//! Decision logic of the transcription stage. The network round trips live
//! outside this crate; the rules here say when a request may be made at all,
//! how a rejected request is classified, and how the optional refinement
//! pass combines with the raw transcription (its failure is never fatal).

use crate::text::{trim_text, trimmed};
use vstd::prelude::*;
use vstd::string::*;

verus! {

/// Everything that can go wrong while transcribing.
#[derive(Debug)]
pub enum TranscriptionError {
    RequestError(String),
    ApiError(String),
    ParseError(String),
}

impl TranscriptionError {
    /// The user-visible description of this error.
    pub open spec fn spec_message(self) -> Seq<char> {
        match self {
            TranscriptionError::RequestError(m) => "HTTP request failed: "@ + m@,
            TranscriptionError::ApiError(m) => "API error: "@ + m@,
            TranscriptionError::ParseError(m) => "Failed to parse response: "@ + m@,
        }
    }

    /// Renders the description.
    pub fn message(&self) -> (r: String)
        ensures
            r@ == self.spec_message(),
    {
        match self {
            TranscriptionError::RequestError(m) => String::from_str("HTTP request failed: ").concat(
                m.as_str(),
            ),
            TranscriptionError::ApiError(m) => String::from_str("API error: ").concat(m.as_str()),
            TranscriptionError::ParseError(m) => String::from_str(
                "Failed to parse response: ",
            ).concat(m.as_str()),
        }
    }
}

/// What the transcription service recognized: the text, and the language it
/// detected, when it names one.
pub struct TranscriptionResponse {
    pub text: String,
    pub language: Option<String>,
}

/// The guard before any network call: a blank credential never leaves the
/// process, it is rejected here.
pub fn check_api_key(api_key: &str) -> (r: Result<(), TranscriptionError>)
    ensures
        trimmed(api_key@).len() == 0 ==> (r matches Err(e) && e matches
            TranscriptionError::ApiError(m) && m@ == "API Key is missing. Please set it in Settings."@),
        trimmed(api_key@).len() > 0 ==> r is Ok,
{
    let t = trim_text(api_key);
    if t.as_str().is_empty() {
        Err(
            TranscriptionError::ApiError(
                String::from_str("API Key is missing. Please set it in Settings."),
            ),
        )
    } else {
        Ok(())
    }
}

/// Classifies a rejected request: the message the service's error body
/// carried when that body parsed, else the raw status line and body.
pub fn classify_api_failure(parsed_message: Option<String>, raw: String) -> (e: TranscriptionError)
    ensures
        parsed_message matches Some(m) ==> (e matches TranscriptionError::ApiError(t) && t == m),
        parsed_message is None ==> (e matches TranscriptionError::ApiError(t) && t == raw),
{
    match parsed_message {
        Some(m) => TranscriptionError::ApiError(m),
        None => TranscriptionError::ApiError(raw),
    }
}

/// Whether a raw transcription warrants the refinement pass: only non-blank
/// text is sent on; blank text is returned to the caller as it is.
pub fn should_refine(resp: &TranscriptionResponse) -> (b: bool)
    ensures
        b == (trimmed(resp.text@).len() > 0),
{
    let t = trim_text(resp.text.as_str());
    !t.as_str().is_empty()
}

/// Merges the refinement outcome into the raw transcription: success
/// replaces the text and keeps the detected language; failure keeps the raw
/// transcription untouched.
pub fn resolve_refinement(resp: TranscriptionResponse, refined: Result<
    String,
    TranscriptionError,
>) -> (r: TranscriptionResponse)
    ensures
        refined matches Ok(t) ==> r.text == t && r.language == resp.language,
        refined is Err ==> r == resp,
{
    match refined {
        Ok(t) => TranscriptionResponse { text: t, language: resp.language },
        Err(_) => resp,
    }
}

/// Draws the refined text out of a chat response: the first choice's
/// content, or the raw text where the service returned no choices, trimmed
/// either way.
pub fn choose_refined(content: Option<String>, raw: &str) -> (r: String)
    ensures
        content matches Some(c) ==> r@ == trimmed(c@),
        content is None ==> r@ == trimmed(raw@),
{
    match content {
        Some(c) => trim_text(c.as_str()),
        None => trim_text(raw),
    }
}

} // verus!
