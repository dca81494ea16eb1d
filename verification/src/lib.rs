//! Decision core of AskHuman, a desktop tool that lets AI agents put questions
//! to a human operator and wait for the reply.

pub mod app;
pub mod calls;
pub mod channel;
pub mod endpoint;
pub mod feed;
pub mod laws;
pub mod mcp_server;
pub mod screen;
pub mod slot;
pub mod text;
pub mod window_calls;
