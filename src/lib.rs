//! Drive a radare2 engine over a textual command/response channel.
//!
//! The library holds the protocol: how requests and responses are framed,
//! which channel a session uses, and the state of a session between
//! exchanges. Moving bytes through pipes and processes is left to the caller.
pub mod document;
pub mod error;
pub mod frame;
pub mod r2;
pub mod select;
pub mod session;
