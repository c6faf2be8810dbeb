//! Routes identifiers to script-defined handlers and carries values between
//! the script world and the plugin-call world.

pub mod builtins;
pub mod cli;
pub mod conversion;
pub mod dispatch;
pub mod error;
pub mod handler;
pub mod plugin;
pub mod registry;
pub mod roundtrip;
pub mod sandbox;
mod script;
pub mod table;
mod text;
pub mod value;
