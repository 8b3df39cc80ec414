//! Paste service core: visibility rules, content-type checks, the decisions
//! of the OpenPGP message engine, the key cache and the paste lifecycle.

pub mod bytes;
pub mod cli;
pub mod client;
pub mod content_type;
pub mod engine;
pub mod errors;
pub mod message;
pub mod paste;
pub mod resolver;
pub mod visibility;
