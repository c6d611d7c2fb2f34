//! Transport core for a local IPC channel to a presence host.
//!
//! The host exposes its endpoint under one of several sequentially numbered
//! pipe names; the transport probes them in order, binds to the first that
//! opens, and then offers whole-buffer writes, exact-length reads, and a
//! best-effort close handshake over the owned handle.

pub mod client;
pub mod errors;
pub mod pipe_path;

pub use client::DiscordIpcClient;
pub use errors::Error;
