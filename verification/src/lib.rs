//! Core logic of rmux: workspaces, notifications, the chat session with its
//! tools, and the text formats the terminal multiplexer reads and writes.

pub mod agent;
pub mod chat;
pub mod config;
pub mod exchange;
pub mod history;
pub mod layout;
pub mod mcp;
pub mod notification;
pub mod order;
pub mod terminal;
pub mod text;
pub mod tools;
pub mod workspace;
