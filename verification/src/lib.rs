//! GlowBot's decision logic: configuration lookups and checks, command
//! parsing, permissions and replies, the model picker, approvals of proposed
//! changes, the background cycle's choices and prompts, message preparation
//! for storage, search and sending, and media and Codex helpers.

pub mod text;
pub mod strmap;
pub mod config;
pub mod commands;
pub mod media;
pub mod models;
pub mod codex;
pub mod messages;
pub mod order;
pub mod tools;
pub mod callbacks;
pub mod todos;
pub mod telegram;
pub mod codex_auth;
pub mod ids;
pub mod approvals;
pub mod bash;
pub mod session;
pub mod browse;
pub mod heartbeat;
pub mod config_proposal;
pub mod dispatch;
pub mod pipeline;
pub mod specifiers;
pub mod listings;
pub mod codex_reply;
pub mod overrides;
