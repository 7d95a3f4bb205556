pub mod auth;
pub mod bridge;
pub mod claude;
pub mod codex;
pub mod codex_request;
pub mod common;
pub mod compaction;
pub mod copilot;
pub mod copilot_request;
pub mod copilot_sdk;
pub mod copilot_turn;
pub mod http;
pub mod models;
pub mod sse;
