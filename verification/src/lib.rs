//! Stratum V2 to Stratum V1 mining-proxy core.
//!
//! The library holds the parts of the proxy that are pure logic: the V2 wire
//! primitives and message catalog, the length-delimited V2 framing codec, the
//! difficulty-to-target arithmetic, and the per-connection translation state
//! machine that maps V2 channel/job/share semantics onto V1
//! subscribe/authorize/notify/submit semantics.  Socket handling, the Noise
//! handshake crypto and the async plumbing live outside, around this crate.

pub mod codec;
pub mod messages;
pub mod proxy;
pub mod target;
pub mod translator;
pub mod types;
pub mod v1;
pub mod wire;
