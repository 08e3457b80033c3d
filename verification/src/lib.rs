//! Moderation actions for a chat-platform administration tool.
//!
//! The crate holds the decisions of the moderation commands: who may be
//! punished by whom, which platform call a punishment turns into, how the
//! outcomes of a batch are sorted into punished and not punished users, and
//! what is written to the audit trail. It performs no I/O itself. Each command
//! is a small state machine that hands out a [`platform::Request`] and takes
//! the matching [`platform::Event`] back from whoever talks to the chat
//! platform and to the store.

pub mod dispatch;
pub mod ids;
pub mod infractions;
pub mod kick;
pub mod models;
pub mod platform;
pub mod privilege;
pub mod punish;
pub mod selection;
pub mod text;
pub mod timestamp;
