//! The gateway: the frames this client sends, the session bookkeeping that
//! survives reconnects, the pacing of member requests and of sends, and
//! the decisions each frame and each ended connection lead to.
pub mod activity;
pub mod payloads;
pub mod redact;
pub mod session;
pub mod scheduler;
pub mod frame;
pub mod commands;
pub mod pacing;
pub mod zlib;
pub mod parser;
pub mod connection;
