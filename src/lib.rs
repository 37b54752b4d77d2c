//! A command-line chat session core: a delimiter-framed transcript that
//! replays as role-tagged messages, a catalog of model profiles, and the
//! command/turn state machine that switches between them.

pub mod text;
pub mod history_file;
pub mod profiles_config;
pub mod name_map;
pub mod user_config;
pub mod cache_config;
pub mod app_config;
pub mod commands;
pub mod processor;
pub mod user_input;
pub mod ollama_client;
pub mod anthropic_client;
pub mod client_util;
