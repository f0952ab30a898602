//! The rules of a tool that copies a channel, with the comments under each of
//! its posts, into another channel.
//!
//! Everything here is a decision or a computation on plain values; talking to
//! the network, the database and the user is the caller's part.

pub mod chat;
pub mod comments;
pub mod config;
pub mod cursor;
pub mod discussion;
pub mod message;
pub mod outbox;
pub mod page;
pub mod peer;
pub mod posts;
pub mod retry;
pub mod sign_in;
pub mod text;
pub mod transfer;
