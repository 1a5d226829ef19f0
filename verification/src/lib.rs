//! The verified decisions of a terminal coding agent: configuration, input
//! classification, conversation history, sessions, request retries, Bash
//! tool calls and the agent loop.
pub mod text;
pub mod config;
pub mod message;
pub mod repl;
pub mod session;
pub mod provider;
pub mod bash;
pub mod agent;
pub mod conversation;
