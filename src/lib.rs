//! A logging pipeline core that collapses recent duplicate messages into
//! aggregated records before they reach a sink.

pub mod formatter;
pub mod laws;
pub mod loglevel;
pub mod message;
pub mod pipeline;
pub mod time;

pub use loglevel::LogLevel;
