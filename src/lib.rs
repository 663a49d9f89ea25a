//! An in-memory cache that mirrors a remote service's object graph by
//! applying a stream of update events.
//!
//! Each cached category keeps its records in an entity store keyed by id,
//! and owned categories also keep a relationship index from owner id to the
//! ids it owns. Every mutating operation preserves the two cross-structure
//! invariants: an indexed id is stored under that owner, and a stored record
//! is indexed under its owner. Messages also keep a per-channel history,
//! bounded at insertion time by the configured size.

pub mod cache;
pub mod config;
pub mod event;
pub mod history;
pub mod lemmas;
pub mod model;
pub mod store;

pub use cache::InMemoryCache;
pub use config::{Config, ResourceSet, ResourceType};
pub use event::Event;
pub use history::BoundedStore;
pub use model::{CachedEmoji, CachedMessage, Emoji, GuildIntegration, Message, User};
pub use store::{OwnedItem, OwnedStore};
