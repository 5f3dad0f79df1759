//! A 9P2000.L file server protocol engine: the wire codec for every
//! 9P2000.L message, length-prefixed framing, the per-connection fid table
//! and the rules that turn a request and a backend's answer into a reply.
//!
//! - `fcall`: the messages and protocol constants;
//! - `serialize`: encoding and decoding of messages and frames;
//! - `srv`: the fid table, fid resolution and version negotiation;
//! - `utils`: server addresses `proto!host!port`;
//! - `walk`: the depth limit of walks.
pub mod fcall;
pub mod serialize;
pub mod srv;
pub mod utils;
pub mod walk;
