//! A verified synchronization core for a peer-to-peer feed reader.
//!
//! The crate tracks remote peers and their posts: peers are subscribed to and
//! unsubscribed from through a local protocol gateway, their post history is
//! fetched incrementally by sequence number, a raw message stream is filtered
//! down to root posts, and results are persisted in a key-value store together
//! with per-post read/unread state.
//!
//! The gateway itself is an external RPC service; the asynchronous plumbing
//! that talks to it lives outside this crate and drives the worker state
//! machine defined here.

pub mod codec;
pub mod db;
mod kv;
pub mod sbot;
pub mod task_loop;
pub mod utils;
