//! Plain-value model of the Stratum V1 side.
//!
//! The V1 line framer and JSON-RPC parser are outside collaborators; the
//! translator works on the values they carry.  Requests flow upstream to the
//! pool, events flow downstream from it.

use vstd::prelude::*;

use crate::types::Uint256Bytes;

verus! {

/// A V1 request the translator sends upstream.
#[derive(Clone, Debug, PartialEq, Eq)]
pub enum V1Request {
    /// `mining.configure`, negotiating version rolling.
    Configure { id: u32 },
    /// `mining.subscribe(user_agent)`.
    Subscribe { id: u32, user_agent: Vec<u8> },
    /// `mining.authorize(user, "")`.
    Authorize { id: u32, user: Vec<u8> },
    /// `mining.submit`: one share for a V1 job.
    Submit {
        id: u32,
        user: Vec<u8>,
        job_id: Vec<u8>,
        extranonce2: Vec<u8>,
        ntime: u32,
        nonce: u32,
        version: u32,
    },
}

/// A V1 message or result arriving from upstream.
#[derive(Clone, Debug, PartialEq, Eq)]
pub enum V1Event {
    /// Result of `mining.subscribe`: the session extranonce.
    SubscribeResult { extranonce1: Vec<u8>, extranonce2_size: u8 },
    /// Result of `mining.configure`: whether the pool rolls versions.
    ConfigureResult { version_rolling: bool },
    /// Result of `mining.authorize`, matched by request id.
    AuthorizeResult { id: u32, ok: bool },
    /// Result of `mining.submit`, matched by request id.
    SubmitResult { id: u32, ok: bool },
    /// `mining.notify`: a new V1 job.
    Notify {
        job_id: Vec<u8>,
        prev_hash: Uint256Bytes,
        coinbase1: Vec<u8>,
        coinbase2: Vec<u8>,
        merkle_branches: Vec<Uint256Bytes>,
        version: u32,
        nbits: u32,
        ntime: u32,
        clean_jobs: bool,
    },
    /// `mining.set_difficulty`.
    SetDifficulty { difficulty: u64 },
    /// `client.reconnect`.
    Reconnect { host: Vec<u8>, port: u16 },
}

} // verus!
