//! Verified core of a Matrix bot that typesets LaTeX on request.
//!
//! The library holds the bot's decisions: how a chat message is read as a
//! command, which permission level a command needs, what each command answers,
//! the command registry, and the layout computed by the command framework's
//! attribute macros. Network, terminal and file work stays with the program
//! that drives the library.

pub mod permissions;
pub mod structures;
pub mod text;
pub mod messages;
pub mod latex;
pub mod commands;
pub mod values;
pub mod framework;
pub mod login;
