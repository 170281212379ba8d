//! Verified core of a media-library newsletter and statistics bot.
//!
//! The library holds the logic of the bot: resolving library names to ids,
//! picking the recently added series and books out of a trailing time
//! window, laying out the newsletter artifact on disk, sanitising file
//! server requests, and planning the replacement of the statistics
//! channels on the chat platform.  The surrounding process (HTTP calls,
//! the scheduler, the file server) lives outside and hands this crate
//! plain values.

pub mod auth;
pub mod catalog;
pub mod dates;
pub mod newsletter;
pub mod server;
pub mod settings;
pub mod stats;
pub mod text;
