//! Voice-channel join notifications for a chat platform.
//!
//! The crate holds the decision core of a notification bot: a hierarchical
//! subscription store (guilds, admins, AFK-channel markers, notification
//! channels with subscriber lists), a classifier that decides whether a
//! voice-state transition counts as a join worth announcing, and the fan-out
//! rules that pick which subscribers are told about a join. All platform
//! traffic (gateway events, message delivery, persistence) lives outside;
//! callers hand the core plain snapshots and carry its answers back out.

pub mod classifier;
pub mod dispatch;
pub mod store;
