//! The rules behind the bot's commands.

pub mod backup;
pub mod online;
pub mod draw;
pub mod uuid;
