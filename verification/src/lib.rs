//! The decision logic of an OpenAI- and Anthropic-compatible gateway in front
//! of local model workers: request validation, admission, memory budgeting,
//! worker supervision, response assembly, tool rounds, authentication, rate
//! limits and administration, each with a machine-checked contract.

pub mod admin;
pub mod admin_models;
pub mod admin_register;
pub mod anthropic;
pub mod app;
pub mod auth;
pub mod chat;
pub mod chat_flow;
pub mod completions;
pub mod config;
pub mod config_write;
pub mod cors;
pub mod defaults;
pub mod digest;
pub mod error;
pub mod float;
pub mod json;
pub mod lifecycle;
pub mod mcp;
pub mod mcp_wire;
pub mod message_flow;
pub mod messages;
pub mod metric_store;
pub mod metrics;
pub mod openai;
pub mod paths;
pub mod prompt;
pub mod ratelimit;
pub mod registry;
pub mod scan;
pub mod status;
pub mod supervisor;
pub mod sysmem;
pub mod text;
pub mod timeout;
pub mod ui;
pub mod worker;
