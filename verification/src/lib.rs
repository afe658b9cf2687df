//! Verified core of a chat-platform bot.
//!
//! The library holds the parts of the bot that make decisions: resolving a
//! platform reaction to a stable emoji identity, the reaction-role registry
//! with its in-memory fast path, the interactive collector protocol that
//! drives paginated UIs, and the periodic sweep jobs' selection and
//! settlement rules. The platform gateway, the REST client and the database
//! are external collaborators: callers perform that I/O and hand the library
//! plain values.

pub mod access;
pub mod collector;
pub mod cruisine;
pub mod durations;
pub mod emoji_id;
pub mod emoji_tags;
pub mod events;
pub mod features;
pub mod pages;
pub mod picks;
pub mod registry;
pub mod sweep;
pub mod text;
