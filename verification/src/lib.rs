//! A verified core for an MCP server that fronts the Lean 4 language server.

pub mod answer_laws;
pub mod call_laws;
pub mod client_laws;
pub mod client_manager;
pub mod client_model;
pub mod connection_laws;
pub mod document;
pub mod document_laws;
pub mod framing;
pub mod json;
pub mod jsonrpc;
pub mod lean_client;
pub mod lsp;
pub mod mcp_server;
pub mod message_laws;
pub mod messages;
pub mod names;
pub mod reader;
pub mod server_laws;
pub mod server_model;
pub mod steps;
pub mod table;
pub mod text;
pub mod text_laws;
pub mod tool_laws;
pub mod tools;
pub mod uri;
pub mod workspace_laws;
