//! Command dispatch and interactive session runtime for a chat-platform bot:
//! an in-memory entity cache, per-bucket rate limiting, an authority gate,
//! command routing, and reaction-driven pagination sessions.

pub mod authority;
pub mod buckets;
pub mod cache;
pub mod commands;
pub mod config;
pub mod embeds;
pub mod error;
pub mod link;
pub mod matcher;
pub mod osu;
pub mod pagination;
pub mod roll;
pub mod session;
pub mod text;

pub use text::u64_to_string;
