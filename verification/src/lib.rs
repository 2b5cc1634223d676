//! OxideVault library: the rules behind a Discord bot for Minecraft
//! servers, each with a contract that Verus checks.
//!
//! The core is a client for the Server List Ping protocol. `mc_server::protocol`
//! holds the wire codec: VarInts, length-prefixed strings and packet frames.
//! `mc_server` holds the status document, the packets of the status
//! exchange, and the exchange itself as a sequence of single steps, each
//! from a state and the outcome of the last action to the next state and
//! the next action. The library never touches a socket: whoever runs an
//! exchange performs the actions and hands back what came of them.
//!
//! Around the core stand the rules for the bot's settings (`config`), for
//! user input (`utils::validation`, `pl3xmap`), for looking up players
//! (`mojang`, `database`) and for the bot's commands (`commands`).

pub mod commands;
pub mod config;
pub mod database;
pub mod error;
pub mod mc_server;
pub mod mojang;
pub mod pl3xmap;
pub mod utils;

pub use config::Config;
pub use error::{OxideVaultError, Result};
