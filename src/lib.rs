//! An IMAP4rev1 client library: a streaming response parser, the command model,
//! and the connection engine that routes responses to the commands that asked for them,
//! with the session states around it; and the small data structures of the mail program
//! built on it (a bounded store, window pages, maildir paths, account settings).

pub mod app;
pub mod bytes;
pub mod client;
pub mod codec;
pub mod command;
pub mod config;
pub mod engine;
pub mod fetch;
pub mod framing;
pub mod keywords;
pub mod laws;
pub mod layout;
pub mod lexer;
pub mod maildir;
pub mod parser;
pub mod response;
pub mod strings;
pub mod types;
