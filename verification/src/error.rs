//! The bot's error type.
use vstd::prelude::*;

use crate::json::serde_error_text;

verus! {

#[verifier::external_type_specification]
#[verifier::external_body]
pub struct ExSqlxError(sqlx::Error);

#[verifier::external_type_specification]
#[verifier::external_body]
pub struct ExReqwestError(reqwest::Error);

/// Everything that can go wrong while handling a message.
#[derive(Debug)]
pub enum BotError {
    Telegram(String),
    LMStudio(String),
    HomeAssistant(String),
    Whisper(String),
    Database(sqlx::Error),
    Http(reqwest::Error),
    Json(serde_json::Error),
    Config(String),
}

impl BotError {
    /// The words that open the error's text.
    pub open spec fn prefix(self) -> Seq<char> {
        match self {
            BotError::Telegram(_) => "Telegram error: "@,
            BotError::LMStudio(_) => "LM Studio error: "@,
            BotError::HomeAssistant(_) => "Home Assistant error: "@,
            BotError::Whisper(_) => "Whisper error: "@,
            BotError::Database(_) => "Database error: "@,
            BotError::Http(_) => "HTTP error: "@,
            BotError::Json(_) => "JSON error: "@,
            BotError::Config(_) => "Configuration error: "@,
        }
    }

    /// The detail of an error that carries its own words.
    pub open spec fn detail(self) -> Option<Seq<char>> {
        match self {
            BotError::Telegram(s) => Some(s@),
            BotError::LMStudio(s) => Some(s@),
            BotError::HomeAssistant(s) => Some(s@),
            BotError::Whisper(s) => Some(s@),
            BotError::Config(s) => Some(s@),
            _ => None,
        }
    }

    /// `text` is the error's text: its prefix and then its detail; for an
    /// error of a service library, its prefix and then that library's words.
    pub open spec fn is_text(self, text: Seq<char>) -> bool {
        match self.detail() {
            Some(d) => text == self.prefix() + d,
            None => self.prefix().is_prefix_of(text),
        }
    }

    /// The error's text, as the bot reports it.
    pub fn to_string(&self) -> (r: String)
        ensures
            self.is_text(r@),
    {
        let (prefix, detail) = match self {
            BotError::Telegram(s) => ("Telegram error: ", s.clone()),
            BotError::LMStudio(s) => ("LM Studio error: ", s.clone()),
            BotError::HomeAssistant(s) => ("Home Assistant error: ", s.clone()),
            BotError::Whisper(s) => ("Whisper error: ", s.clone()),
            BotError::Database(e) => ("Database error: ", sqlx_error_text(e)),
            BotError::Http(e) => ("HTTP error: ", reqwest_error_text(e)),
            BotError::Json(e) => ("JSON error: ", serde_error_text(e)),
            BotError::Config(s) => ("Configuration error: ", s.clone()),
        };
        let mut text = String::from_str(prefix);
        text.append(detail.as_str());
        proof {
            reveal_strlit("Telegram error: ");
            reveal_strlit("LM Studio error: ");
            reveal_strlit("Home Assistant error: ");
            reveal_strlit("Whisper error: ");
            reveal_strlit("Database error: ");
            reveal_strlit("HTTP error: ");
            reveal_strlit("JSON error: ");
            reveal_strlit("Configuration error: ");
            assert(self.prefix() =~= text@.take(self.prefix().len() as int));
        }
        text
    }
}

/// The text sqlx gives for one of its errors (its `Display`); nothing is
/// claimed of the text.
#[verifier::external_body]
fn sqlx_error_text(e: &sqlx::Error) -> String {
    e.to_string()
}

/// The text reqwest gives for one of its errors (its `Display`); nothing is
/// claimed of the text.
#[verifier::external_body]
fn reqwest_error_text(e: &reqwest::Error) -> String {
    e.to_string()
}

} // verus!
