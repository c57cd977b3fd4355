//! Core data plane of a real-time multi-user voice-chat server.
//!
//! Clients stream 16-bit PCM audio as fixed-layout datagrams; the library
//! frames and parses those datagrams, absorbs network jitter in bounded
//! per-participant buffers, routes packets across logical channels, mixes
//! concurrent voices with per-user controls and dynamics processing, and
//! schedules mix jobs in a bounded priority queue under a real-time deadline.
//! All socket I/O stays outside the library: callers hand in plain bytes,
//! identifiers and clock readings, and receive packets and byte buffers back.

pub mod api;
pub mod buffer;
pub mod channel;
pub mod config;
pub mod message;
pub mod metrics;
pub mod mixer;
pub mod packet;
pub mod pool;
pub mod router;
pub mod server;
pub mod services;
pub mod session;
pub mod state;
pub mod table;
pub mod user;
