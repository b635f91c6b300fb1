//! Verified core of the Mini AI 1C assistant: prompt assembly, provider
//! request policies, text and path handling, settings transfer and the
//! encryption of stored secrets.
use vstd::prelude::*;

pub mod agent;
pub mod bsl;
pub mod catalog;
pub mod chat;
pub mod client;
pub mod codex;
pub mod configurator;
pub mod crypto;
pub mod ext;
pub mod installer;
pub mod keyed;
pub mod legacy_prompts;
pub mod mcp;
pub mod models;
pub mod naparnik;
pub mod overlay;
pub mod profiles;
pub mod quick;
pub mod prompts;
pub mod request;
pub mod settings;
pub mod skills;
pub mod stream;
pub mod text;
pub mod zen;

verus! {

} // verus!
