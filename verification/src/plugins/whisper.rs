//! Speech to text through Whisper's OpenAI-compatible API: what is read of
//! its answer.
use vstd::prelude::*;

use crate::error::BotError;
use crate::json::{Json, JsonValue};
use crate::plugins::{http_failure, http_failure_text};

verus! {

/// The URL of the transcription endpoint under `base`.
pub fn transcriptions_url(base: &str) -> (url: String)
    ensures
        url@ == base@ + "/v1/audio/transcriptions"@,
{
    let mut url = String::from_str(base);
    url.append("/v1/audio/transcriptions");
    url
}

/// The transcription in Whisper's answer: its `text` where that is a string.
pub fn transcription_text(response: &Json) -> (r: Result<String, BotError>)
    ensures
        match response@.field("text"@).as_str() {
            Some(t) => r matches Ok(s) && s@ == t,
            None => r matches Err(e) && (e matches BotError::Whisper(m) && m@
                == "Missing 'text' field in response"@),
        },
{
    let text = match response.get("text") {
        Some(v) => v.as_str(),
        None => None,
    };
    match text {
        Some(t) => Ok(String::from_str(t)),
        None => Err(BotError::Whisper(String::from_str("Missing 'text' field in response"))),
    }
}

/// The error for a failed exchange with Whisper.
pub fn whisper_http_error(status: &str, body: &str) -> (e: BotError)
    ensures
        e matches BotError::Whisper(m) && m@ == http_failure(status@, body@),
{
    BotError::Whisper(http_failure_text(status, body))
}

} // verus!
