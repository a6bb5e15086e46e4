//! A household assistant that answers family chat messages with a local LLM
//! and acts on Home Assistant through the tools the LLM asks for.
pub mod config;
pub mod error;
pub mod json;
pub mod orchestrator;
pub mod plugins;
pub mod state;
pub mod telegram;
pub mod text;
