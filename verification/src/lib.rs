//! Verified core of the Dönermann Discord bot: the bot's data model, the
//! command handlers as functions from state and input to new state and
//! reply, and the text handling they rely on.

pub mod api;
pub mod commands;
pub mod config;
pub mod date;
pub mod db;
pub mod error;
pub mod handler;
pub mod ranking;
pub mod response;
pub mod sums;
pub mod table;
pub mod text;
pub mod util;
