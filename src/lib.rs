//! Session engine of an interactive terminal client for a streaming completion
//! service: the composer editor, the session state machine, the message queue,
//! and the line-delimited JSON bridge to an interpreter process.
pub mod text;
pub mod message;
pub mod interp;
pub mod app;
pub mod session;
pub mod document;
pub mod config;
pub mod role;
pub mod cache;
pub mod client;
pub mod history;
