//! A chat-bot host built around a registry of guest modules.
//!
//! The host discovers guest modules, keeps them in an ordered registry,
//! routes incoming room messages to help, admin, or ordinary handlers,
//! and exposes a small set of capabilities to the guests: logging,
//! randomness, blocking HTTP, a namespaced key/value store, and room
//! alias resolution. Module artefacts are watched on disk and the
//! registry is rebuilt, debounced and swapped atomically, when they
//! change.

pub mod admin_table;
pub mod codec;
pub mod command;
pub mod config;
pub mod dispatch;
pub mod linkify;
pub mod logging;
pub mod mastodon;
pub mod messaging;
pub mod pun;
pub mod registry;
pub mod request;
pub mod store;
pub mod sys;
pub mod textutil;
pub mod uuid;
pub mod watcher;
