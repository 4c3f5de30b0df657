//! Authorization core and title index of a group-chat moderation helper.
//!
//! Members of a group chat may claim a display title, relinquish it, become
//! anonymous, or be stripped of their privileges by the chat owner. This
//! crate holds the verified core that decides, for each incoming command,
//! whether the acting principal may perform the requested change, and that
//! maintains a consistent bidirectional index between `(chat, user)` and
//! title, persisted in an embedded key-value store.
//!
//! Network transport, configuration bootstrapping and logging are left to
//! the surrounding (unverified) binary; this crate exposes plain-value
//! decision functions and store operations with full contracts.

pub mod codec;
pub mod command;
pub mod config;
pub mod ctx;
pub mod error;
pub mod keys;
pub mod role;
pub mod store;
