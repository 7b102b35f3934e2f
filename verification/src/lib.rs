//! Verified core logic of CodexHub: the AI gateway's conversions between
//! the Responses and Chat Completions APIs (request messages, responses,
//! the streaming state machine, tool declarations and tool-name encoding),
//! routing health, account configuration, CLI parsing, log redaction and
//! rotation, daemon identity, and the IM bridge's decisions.
pub mod text;
pub mod assoc;
pub mod tool_names;
pub mod routing_state;
pub mod config;
pub mod responses_stream;
pub mod paths;
pub mod daemon_process;
pub mod codex_app_enhanced;
pub mod app_state;
pub mod json;
pub mod codex;
pub mod cli;
pub mod diagnostics_export;
pub mod chain_log;
pub mod electron_gui;
pub mod bridge;
pub mod feishu;
pub mod codex_app_server_proxy;
pub mod responses_to_chat;
pub mod responses_lite_tools;
pub mod request_log;
pub mod stream_events;
pub mod stream_model;
pub mod stream_state;
pub mod stream_laws;
pub mod chat_to_responses;
pub mod responses_compat;
pub mod chat_messages;
pub mod output_schema;
pub mod chat_tools;
pub mod event_router;
pub mod dashboard;
pub mod input_items;
pub mod chat_request;
pub mod bridge_plan;
