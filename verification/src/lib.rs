//! A Telegram bridge for Codex: commands and updates from Telegram, the
//! Codex app-server protocol, the approval workflow and its stored states,
//! pairing, configuration, and the texts the bridge sends.
pub mod text;
pub mod cli;
pub mod telegram;
pub mod config;
pub mod store;
pub mod checks;
pub mod codex;
pub mod app_server;
pub mod engine;
pub mod version;
pub mod attachment_file;
pub mod pairing;
pub mod service;
pub mod poller_guard;
pub mod smoke;
pub mod ids;
pub mod config_workspace;
pub mod json;

pub mod toml_doc;
