//! The V2-to-V1 translation state machine.
//!
//! One `Translator` serves one downstream V2 connection and its one upstream
//! V1 session.  It is a pure step machine: the caller feeds it one decoded V2
//! message or one V1 event at a time, and drains the two outbound queues
//! (`v1_out` upstream, `v2_out` downstream).  All socket work stays outside.
//!
//! Ledger fields tie the laws down: every accepted upstream share is counted
//! in `total_accepted_upstream`, every acknowledgement sent downstream in
//! `total_reported_downstream`, and the `last_seq_num` of every emitted
//! SubmitSharesSuccess is recorded in `acked_history`, which stays sorted.

use vstd::prelude::*;

use crate::messages::{
    ChannelEndpointChanged, CloseChannel, Message, NewExtendedMiningJob, OpenMiningChannelError,
    OpenStandardMiningChannel, OpenStandardMiningChannelSuccess, Reconnect, SetNewPrevHash,
    SetTarget, SetupConnection, SetupConnectionError, SetupConnectionSuccess, SubmitSharesError,
    SubmitSharesStandard, SubmitSharesSuccess, UpdateChannel, UpdateChannelError,
};
use crate::proxy::slice_eq;
use crate::wire::write_bytes;
use crate::target::{counter_le_bytes, diff1_target_seq, le_val, pow256, target_for_difficulty};
use crate::types::{is_utf8, lemma_ascii_is_utf8, Bytes0_32, Bytes0_64k, Seq0_255, Str0_255,
    Str0_32, Uint256Bytes, check_utf8};
use crate::v1::{V1Event, V1Request};

verus! {

/// Why a step was refused; every error is fatal to the session.
#[derive(Clone, Copy, Debug, PartialEq, Eq, Structural)]
pub enum TranslationError {
    /// A message arrived in a state that does not admit it.
    ProtocolViolation,
    /// An upstream answer that matches nothing, or a value the translation
    /// cannot carry (an id space exhausted, an oversized V1 field).
    TranslationLogic,
}

/// Per-connection session phase.
#[derive(Clone, Copy, Debug, PartialEq, Eq, Structural)]
pub enum SessionState {
    /// Waiting for the client's SetupConnection.
    AwaitSetup,
    /// SetupConnection accepted; waiting for the V1 subscribe result.
    AwaitV1Subscribe,
    /// Normal translation.
    Operational,
    /// A fatal condition was met; the session is to be torn down.
    Closing,
}

/// One open V2 channel.
#[derive(Clone, Debug, PartialEq, Eq)]
pub struct ChannelRecord {
    pub channel_id: u32,
    pub group_channel_id: u32,
    pub user: Vec<u8>,
    pub extranonce_prefix: Vec<u8>,
    /// IEEE-754 bit pattern of the hash rate last advertised for the channel.
    pub last_nominal_hashrate: u32,
    /// Rolls the extranonce2 minted for each forwarded submit.
    pub submit_counter: u64,
}

/// One translated job.
#[derive(Clone, Debug, PartialEq, Eq)]
pub struct JobRecord {
    pub channel_id: u32,
    pub v2_job_id: u32,
    pub v1_job_id: Vec<u8>,
    pub future_job: bool,
    /// Only active jobs accept shares.
    pub active: bool,
    pub version: u32,
}

/// A V1 submit still waiting for its upstream verdict.
#[derive(Clone, Debug, PartialEq, Eq, Structural)]
pub struct PendingSubmit {
    pub v1_id: u32,
    pub channel_id: u32,
    pub seq_num: u32,
}

/// A channel-open request waiting for its V1 authorize verdict.
#[derive(Clone, Debug, PartialEq, Eq)]
pub struct PendingOpen {
    pub v1_id: u32,
    pub req_id: u32,
    pub user: Vec<u8>,
    /// IEEE-754 bit pattern of the hash rate the request advertised.
    pub nominal_hashrate: u32,
}

/// The error code sent for a share against an unknown channel.
pub open spec fn invalid_channel_code() -> Seq<u8> {
    seq![105u8, 110u8, 118u8, 97u8, 108u8, 105u8, 100u8, 45u8, 99u8, 104u8, 97u8, 110u8, 110u8,
        101u8, 108u8]
}

/// The error code sent for a share against a stale or unknown job.
pub open spec fn stale_share_code() -> Seq<u8> {
    seq![115u8, 116u8, 97u8, 108u8, 101u8, 45u8, 115u8, 104u8, 97u8, 114u8, 101u8]
}

/// The error code sent when V1 refuses an authorize.
pub open spec fn auth_failed_code() -> Seq<u8> {
    seq![97u8, 117u8, 116u8, 104u8, 45u8, 102u8, 97u8, 105u8, 108u8, 101u8, 100u8]
}

/// The error code sent when V1 rejects a share.
pub open spec fn rejected_code() -> Seq<u8> {
    seq![114u8, 101u8, 106u8, 101u8, 99u8, 116u8, 101u8, 100u8]
}

/// The error code sent for a SetupConnection the proxy cannot serve.
pub open spec fn unsupported_code() -> Seq<u8> {
    seq![117u8, 110u8, 115u8, 117u8, 112u8, 112u8, 111u8, 114u8, 116u8, 101u8, 100u8]
}

/// Builds a short ASCII error code.
fn ascii_code(bytes: Vec<u8>) -> (r: Str0_32)
    requires
        bytes@.len() <= 32,
        forall|i: int| 0 <= i < bytes@.len() ==> bytes@[i] < 0x80,
    ensures
        r.wf(),
        r@ == bytes@,
{
    proof {
        lemma_ascii_is_utf8(bytes@);
    }
    Str0_32 { data: bytes }
}

/// `s` is sorted non-decreasing.
pub open spec fn seq_non_decreasing(s: Seq<u32>) -> bool {
    forall|i: int, j: int| 0 <= i <= j < s.len() ==> s[i] <= s[j]
}

/// The per-connection translation state machine.
pub struct Translator {
    pub state: SessionState,
    /// Feature flags from SetupConnection, forwarded in the success reply.
    pub setup_flags: u32,
    /// Whether the client advertised version rolling (low flag bit).
    pub client_rolling: bool,
    /// Whether upstream granted version rolling in `mining.configure`.
    pub upstream_rolling: bool,
    /// V1 session extranonce, set by the subscribe result.
    pub extranonce1: Vec<u8>,
    pub extranonce2_size: u8,
    /// Current V1 difficulty; 0 until the first set_difficulty.
    pub difficulty: u64,
    pub channels: Vec<ChannelRecord>,
    pub jobs: Vec<JobRecord>,
    pub pending_opens: Vec<PendingOpen>,
    pub pending_submits: Vec<PendingSubmit>,
    /// The last prev-hash seen from V1, to tell a new round from a refresh.
    pub last_prev_hash: Option<Uint256Bytes>,
    pub next_channel_id: u32,
    pub next_v2_job_id: u32,
    pub next_v1_id: u32,
    /// Highest `last_seq_num` ever put in a SubmitSharesSuccess.
    pub last_acked_seq: u32,
    /// Shares the V1 pool has accepted.
    pub total_accepted_upstream: u64,
    /// Sum of `new_submits_accepted_count` over all emitted successes.
    pub total_reported_downstream: u64,
    /// Outbound V1 requests, drained by the session driver.
    pub v1_out: Vec<V1Request>,
    /// Outbound V2 messages, drained by the session driver.
    pub v2_out: Vec<Message>,
    /// `last_seq_num` of every SubmitSharesSuccess ever emitted, in order.
    pub acked_history: Ghost<Seq<u32>>,
}

/// Contract of [`Translator::on_notify`]: in `Operational`, every open
/// channel gets one NewExtendedMiningJob with a fresh job id,
/// `future_job = !clean_jobs`, and a job record mapping the fresh V2 id to
/// the notify's V1 job id.  When the notify starts a new round — clean jobs,
/// or a changed prev-hash — the matching SetNewPrevHash follows per channel,
/// the new jobs become the only active ones and every earlier job is
/// invalidated; otherwise the new jobs stay future and the old ones keep
/// their state.  Nothing but the named fields changes.
pub open spec fn post_notify(
    pre: Translator,
    post: Translator,
    job_id: Seq<u8>,
    prev_hash: Seq<u8>,
    merkle_branches: Seq<Seq<u8>>,
    version: u32,
    nbits: u32,
    ntime: u32,
    clean_jobs: bool,
    coinbase1_len: int,
    coinbase2_len: int,
    r: Result<(), TranslationError>,
) -> bool {
    &&& post == (Translator {
        jobs: post.jobs,
        v2_out: post.v2_out,
        next_v2_job_id: post.next_v2_job_id,
        last_prev_hash: post.last_prev_hash,
        ..pre
    })
    &&& pre.state != SessionState::Operational ==> r == Err::<(), TranslationError>(
        TranslationError::ProtocolViolation,
    ) && post == pre
    &&& (r matches Err(_)) ==> post == pre
    &&& pre.state == SessionState::Operational && prev_hash.len() == 32 && merkle_branches.len()
        <= 255 && (forall|i: int|
        0 <= i < merkle_branches.len() ==> (#[trigger] merkle_branches[i]).len() == 32)
        && coinbase1_len <= 65535 && coinbase2_len <= 65535 && pre.channels@.len()
        + pre.next_v2_job_id < 0xFFFFFFFF ==> r == Ok::<(), TranslationError>(())
    &&& r == Ok::<(), TranslationError>(()) ==> ({
        let nn = pre.channels@.len() as int;
        let base = pre.v2_out@.len() as int;
        let activate = pre.spec_activates(clean_jobs, prev_hash);
        let stride: int = if activate {
            2
        } else {
            1
        };
        &&& post.next_v2_job_id == pre.next_v2_job_id + nn
        &&& post.v2_out@.len() == base + nn * stride
        &&& (forall|i: int| 0 <= i < base ==> post.v2_out@[i] == #[trigger] pre.v2_out@[i])
        &&& (activate ==> (forall|k: int|
            0 <= k < nn ==> (#[trigger] post.v2_out@[base + 2 * k] matches
                Message::NewExtendedMiningJob(j) && j.channel_id == pre.channels@[k].channel_id
                && j.job_id == pre.next_v2_job_id + k && j.future_job == !clean_jobs && j.version
                == version)))
        &&& (!activate ==> (forall|k: int|
            0 <= k < nn ==> (#[trigger] post.v2_out@[base + k] matches
                Message::NewExtendedMiningJob(j) && j.channel_id == pre.channels@[k].channel_id
                && j.job_id == pre.next_v2_job_id + k && j.future_job == !clean_jobs && j.version
                == version)))
        &&& (activate ==> (forall|k: int|
            0 <= k < nn ==> (#[trigger] post.v2_out@[base + 2 * k + 1] matches
                Message::SetNewPrevHash(p) && p.channel_id == pre.channels@[k].channel_id
                && p.job_id == pre.next_v2_job_id + k && p.prev_hash@ == prev_hash && p.min_ntime
                == ntime && p.nbits == nbits)))
        &&& post.jobs@.len() == pre.jobs@.len() + nn
        &&& (forall|j: int|
            0 <= j < pre.jobs@.len() ==> (#[trigger] post.jobs@[j]) == (if activate {
                JobRecord { active: false, ..pre.jobs@[j] }
            } else {
                pre.jobs@[j]
            }))
        &&& (forall|j: int|
            pre.jobs@.len() <= j < post.jobs@.len() ==> (#[trigger] post.jobs@[j]).active
                == activate && post.jobs@[j].future_job == !clean_jobs && post.jobs@[j].channel_id
                == pre.channels@[j - pre.jobs@.len()].channel_id && post.jobs@[j].v2_job_id
                == pre.next_v2_job_id + (j - pre.jobs@.len()) && post.jobs@[j].v1_job_id@
                == job_id)
        &&& (post.last_prev_hash matches Option::Some(h) && h@ == prev_hash)
    })
}

/// Contract of [`Translator::on_set_difficulty`]: a positive difficulty is
/// recorded and every open channel gets one SetTarget with
/// `diff1_target / d`; zero is a translation fault.  Nothing but the named
/// fields changes.
pub open spec fn post_set_difficulty(
    pre: Translator,
    post: Translator,
    d: u64,
    r: Result<(), TranslationError>,
) -> bool {
    &&& post == (Translator { difficulty: post.difficulty, v2_out: post.v2_out, ..pre })
    &&& (r matches Err(_)) ==> post == pre
    &&& d == 0 ==> r == Err::<(), TranslationError>(TranslationError::TranslationLogic) && post
        == pre
    &&& d > 0 ==> r == Ok::<(), TranslationError>(()) && post.difficulty == d
        && post.v2_out@.len() == pre.v2_out@.len() + pre.channels@.len() && (forall|i: int|
        0 <= i < pre.v2_out@.len() ==> post.v2_out@[i] == #[trigger] pre.v2_out@[i]) && (forall|
        k: int|
        0 <= k < pre.channels@.len() ==> (#[trigger] post.v2_out@[pre.v2_out@.len() + k] matches
            Message::SetTarget(t) && t.channel_id == pre.channels@[k].channel_id && le_val(
            t.max_target@,
        ) == le_val(diff1_target_seq()) / (d as nat)))
}

/// Contract of [`Translator::on_v1_disconnect`]: every open channel is told
/// its endpoint changed and the session closes.  Nothing but the named
/// fields changes.
pub open spec fn post_v1_disconnect(pre: Translator, post: Translator) -> bool {
    &&& post == (Translator { v2_out: post.v2_out, state: post.state, ..pre })
    &&& post.state == SessionState::Closing
    &&& post.v2_out@.len() == pre.v2_out@.len() + pre.channels@.len()
    &&& (forall|i: int| 0 <= i < pre.v2_out@.len() ==> post.v2_out@[i] == #[trigger] pre.v2_out@[i])
    &&& forall|k: int|
        0 <= k < pre.channels@.len() ==> post.v2_out@[pre.v2_out@.len() + k]
            == Message::ChannelEndpointChanged(
            ChannelEndpointChanged { channel_id: (#[trigger] pre.channels@[k]).channel_id },
        )
}

/// Contract of [`Translator::on_subscribe_result`]: in `AwaitV1Subscribe`, a
/// session extranonce that fits a V2 prefix is recorded, and only now does
/// SetupConnectionSuccess (version 2, the client's flags) go downstream.
/// Nothing but the named fields changes.
pub open spec fn post_subscribe_result(
    pre: Translator,
    post: Translator,
    extranonce1: Seq<u8>,
    extranonce2_size: u8,
    r: Result<(), TranslationError>,
) -> bool {
    &&& post == (Translator {
        state: post.state,
        extranonce1: post.extranonce1,
        extranonce2_size: post.extranonce2_size,
        v2_out: post.v2_out,
        ..pre
    })
    &&& pre.state != SessionState::AwaitV1Subscribe ==> r == Err::<(), TranslationError>(
        TranslationError::ProtocolViolation,
    ) && post == pre
    &&& (r matches Err(_)) ==> post == pre
    &&& pre.state == SessionState::AwaitV1Subscribe && extranonce1.len() > 32 ==> r == Err::<
        (),
        TranslationError,
    >(TranslationError::TranslationLogic) && post == pre
    &&& pre.state == SessionState::AwaitV1Subscribe && extranonce1.len() <= 32 ==> r == Ok::<
        (),
        TranslationError,
    >(()) && post.state == SessionState::Operational && post.extranonce1@ == extranonce1
        && post.extranonce2_size == extranonce2_size && post.v2_out@ == pre.v2_out@.push(
        Message::SetupConnectionSuccess(
            SetupConnectionSuccess { used_version: 2, flags: pre.setup_flags },
        ),
    )
}

/// Contract of [`Translator::on_configure_result`]: records whether the pool
/// rolls versions; nothing else changes.
pub open spec fn post_configure_result(
    pre: Translator,
    post: Translator,
    version_rolling: bool,
    r: Result<(), TranslationError>,
) -> bool {
    &&& r == Ok::<(), TranslationError>(())
    &&& post == (Translator { upstream_rolling: version_rolling, ..pre })
}

/// Contract of [`Translator::on_authorize_result`]: the verdict resolves the
/// first parked open request with that V1 id, which is removed.  Denied: the
/// client gets OpenMiningChannelError under the request's own req_id.
/// Granted: a fresh channel id is allocated, the record carries the
/// request's user and hash rate with the session extranonce as prefix, and
/// OpenStandardMiningChannelSuccess goes downstream under the request's
/// req_id with target `diff1_target / difficulty` (difficulty 1 until the
/// pool has set one).  An unknown id is a translation fault.  Nothing but
/// the named fields changes.
pub open spec fn post_authorize_result(
    pre: Translator,
    post: Translator,
    id: u32,
    ok: bool,
    r: Result<(), TranslationError>,
) -> bool {
    &&& post == (Translator {
        pending_opens: post.pending_opens,
        channels: post.channels,
        next_channel_id: post.next_channel_id,
        v2_out: post.v2_out,
        ..pre
    })
    &&& (r matches Err(_)) ==> post == pre
    &&& (forall|k: int|
        0 <= k < pre.pending_opens@.len() ==> (#[trigger] pre.pending_opens@[k]).v1_id != id)
        ==> r == Err::<(), TranslationError>(TranslationError::TranslationLogic) && post == pre
    &&& (exists|k: int|
        0 <= k < pre.pending_opens@.len() && (#[trigger] pre.pending_opens@[k]).v1_id == id) && (
    ok ==> pre.next_channel_id < 0xFFFFFFFF) ==> r == Ok::<(), TranslationError>(())
    &&& r == Ok::<(), TranslationError>(()) ==> (forall|k: int|
        0 <= k < pre.pending_opens@.len() && (#[trigger] pre.pending_opens@[k]).v1_id == id
            ==> post.pending_opens@ == pre.pending_opens@.remove(k) && (!ok ==> (
        post.v2_out@.last() matches Message::OpenMiningChannelError(e) && e.req_id
            == pre.pending_opens@[k].req_id)) && (ok ==> (post.v2_out@.last() matches
            Message::OpenStandardMiningChannelSuccess(su) && su.req_id
            == pre.pending_opens@[k].req_id) && (post.channels@.last() matches ChannelRecord {
            user,
            last_nominal_hashrate,
            ..
        } && user@ == pre.pending_opens@[k].user@ && last_nominal_hashrate
            == pre.pending_opens@[k].nominal_hashrate)))
    &&& r == Ok::<(), TranslationError>(()) && !ok ==> post.channels == pre.channels
        && post.next_channel_id == pre.next_channel_id && post.v2_out@.len() == pre.v2_out@.len()
        + 1 && (post.v2_out@.last() matches Message::OpenMiningChannelError(e) && e.code@
        == auth_failed_code())
    &&& r == Ok::<(), TranslationError>(()) && ok ==> post.channels@.len() == pre.channels@.len()
        + 1 && (forall|i: int|
        0 <= i < pre.channels@.len() ==> post.channels@[i] == #[trigger] pre.channels@[i])
        && post.next_channel_id == pre.next_channel_id + 1 && (post.channels@.last() matches
        ChannelRecord { channel_id, group_channel_id, extranonce_prefix, submit_counter, .. }
        && channel_id == pre.next_channel_id && group_channel_id == 1 && extranonce_prefix@
        == pre.extranonce1@ && submit_counter == 0) && post.v2_out@.len() == pre.v2_out@.len() + 1
        && (post.v2_out@.last() matches Message::OpenStandardMiningChannelSuccess(su)
        && su.channel_id == pre.next_channel_id && su.group_channel_id == 1
        && su.extranonce_prefix@ == pre.extranonce1@ && le_val(su.target@) == le_val(
        diff1_target_seq(),
    ) / (if pre.difficulty == 0 {
        1nat
    } else {
        pre.difficulty as nat
    }))
}

/// Contract of [`Translator::on_submit_result`]: the verdict resolves the
/// first parked submit with that V1 id, which is removed.  Accepted: one
/// SubmitSharesSuccess for that share's channel, counting exactly this
/// share, whose `last_seq_num` is the larger of the share's sequence number
/// and every earlier acknowledgement; both ledgers advance together.
/// Rejected: SubmitSharesError for that share's channel and sequence number.
/// An unknown id is a translation fault.  Nothing but the named fields
/// changes.
pub open spec fn post_submit_result(
    pre: Translator,
    post: Translator,
    id: u32,
    ok: bool,
    r: Result<(), TranslationError>,
) -> bool {
    &&& post == (Translator {
        pending_submits: post.pending_submits,
        v2_out: post.v2_out,
        last_acked_seq: post.last_acked_seq,
        total_accepted_upstream: post.total_accepted_upstream,
        total_reported_downstream: post.total_reported_downstream,
        acked_history: post.acked_history,
        ..pre
    })
    &&& (r matches Err(_)) ==> post == pre
    &&& (forall|k: int|
        0 <= k < pre.pending_submits@.len() ==> (#[trigger] pre.pending_submits@[k]).v1_id != id)
        ==> r == Err::<(), TranslationError>(TranslationError::TranslationLogic) && post == pre
    &&& (exists|k: int|
        0 <= k < pre.pending_submits@.len() && (#[trigger] pre.pending_submits@[k]).v1_id == id)
        && pre.total_accepted_upstream < 0xFFFFFFFFFFFFFFFF ==> r == Ok::<(), TranslationError>(())
    &&& r == Ok::<(), TranslationError>(()) ==> post.v2_out@.len() == pre.v2_out@.len() + 1 && (
    forall|k: int|
        0 <= k < pre.pending_submits@.len() && (#[trigger] pre.pending_submits@[k]).v1_id == id
            ==> post.pending_submits@ == pre.pending_submits@.remove(k) && (ok ==> (
        post.v2_out@.last() matches Message::SubmitSharesSuccess(su) && su.channel_id
            == pre.pending_submits@[k].channel_id && su.last_seq_num == (
        if pre.pending_submits@[k].seq_num > pre.last_acked_seq {
            pre.pending_submits@[k].seq_num
        } else {
            pre.last_acked_seq
        }))) && (!ok ==> (post.v2_out@.last() matches Message::SubmitSharesError(e) && e.channel_id
            == pre.pending_submits@[k].channel_id && e.seq_num
            == pre.pending_submits@[k].seq_num)))
    &&& r == Ok::<(), TranslationError>(()) && ok ==> (post.v2_out@.last() matches
        Message::SubmitSharesSuccess(su) && su.new_submits_accepted_count == 1 && su.new_shares_sum
        == 1 && su.last_seq_num >= pre.last_acked_seq && su.last_seq_num == post.last_acked_seq)
        && post.total_accepted_upstream == pre.total_accepted_upstream + 1
        && post.total_reported_downstream == pre.total_reported_downstream + 1
        && post.acked_history@ == pre.acked_history@.push(post.last_acked_seq)
    &&& r == Ok::<(), TranslationError>(()) && !ok ==> (post.v2_out@.last() matches
        Message::SubmitSharesError(e) && e.code@ == rejected_code()) && post.total_accepted_upstream
        == pre.total_accepted_upstream && post.total_reported_downstream
        == pre.total_reported_downstream && post.acked_history == pre.acked_history
        && post.last_acked_seq == pre.last_acked_seq
}

/// Contract of [`Translator::on_close_channel`]: the one record with that
/// channel id is removed (nothing, if none exists); no message goes either
/// way and no other state — jobs, pendings, other channels — changes.
pub open spec fn post_close_channel(
    pre: Translator,
    post: Translator,
    m: CloseChannel,
    r: Result<(), TranslationError>,
) -> bool {
    &&& post == (Translator { channels: post.channels, ..pre })
    &&& r == Ok::<(), TranslationError>(())
    &&& (forall|k: int|
        0 <= k < pre.channels@.len() ==> (#[trigger] pre.channels@[k]).channel_id != m.channel_id)
        ==> post == pre
    &&& forall|k: int|
        0 <= k < pre.channels@.len() && (#[trigger] pre.channels@[k]).channel_id == m.channel_id
            ==> post.channels@ == pre.channels@.remove(k)
}

/// Contract of [`Translator::on_update_channel`]: a known channel has its
/// advertised hash rate recorded silently; an unknown id is answered with
/// UpdateChannelError.  Nothing but the named fields changes.
pub open spec fn post_update_channel(
    pre: Translator,
    post: Translator,
    m: UpdateChannel,
    r: Result<(), TranslationError>,
) -> bool {
    &&& post == (Translator { channels: post.channels, v2_out: post.v2_out, ..pre })
    &&& r == Ok::<(), TranslationError>(())
    &&& post.channels@.len() == pre.channels@.len()
    &&& (exists|k: int|
        0 <= k < pre.channels@.len() && (#[trigger] pre.channels@[k]).channel_id == m.channel_id)
        ==> post.v2_out == pre.v2_out && (forall|i: int|
        0 <= i < pre.channels@.len() ==> (#[trigger] post.channels@[i]) == (
        if pre.channels@[i].channel_id == m.channel_id {
            ChannelRecord { last_nominal_hashrate: m.nominal_hash_rate, ..pre.channels@[i] }
        } else {
            pre.channels@[i]
        }))
    &&& (forall|k: int|
        0 <= k < pre.channels@.len() ==> (#[trigger] pre.channels@[k]).channel_id != m.channel_id)
        ==> post.channels == pre.channels && post.v2_out@.len() == pre.v2_out@.len() + 1 && (
    post.v2_out@.last() matches Message::UpdateChannelError(e) && e.channel_id == m.channel_id
        && e.error_code@ == invalid_channel_code())
}

/// Contract of [`Translator::on_reconnect`]: a host that fits a V2 string is
/// forwarded as one Reconnect; nothing but the downstream queue changes.
pub open spec fn post_reconnect(
    pre: Translator,
    post: Translator,
    host: Seq<u8>,
    port: u16,
    r: Result<(), TranslationError>,
) -> bool {
    &&& post == (Translator { v2_out: post.v2_out, ..pre })
    &&& (r matches Err(_)) ==> post == pre
    &&& !(host.len() <= 255 && is_utf8(host)) ==> r == Err::<(), TranslationError>(
        TranslationError::TranslationLogic,
    ) && post == pre
    &&& host.len() <= 255 && is_utf8(host) ==> r == Ok::<(), TranslationError>(())
        && post.v2_out@.len() == pre.v2_out@.len() + 1 && (forall|i: int|
        0 <= i < pre.v2_out@.len() ==> post.v2_out@[i] == #[trigger] pre.v2_out@[i]) && (
    post.v2_out@.last() matches Message::Reconnect(m) && m.new_host@ == host && m.new_port == port)
}

/// Contract of [`Translator::on_submit_shares`]: in `Operational`, a share
/// for an unknown channel or inactive job is answered downstream —
/// `invalid-channel` or `stale-share` — and nothing reaches V1; a share for
/// an active job is forwarded as one `mining.submit` whose user is the
/// channel's, whose job id is the active job's V1 id, whose extranonce2 is
/// the channel's rolling counter in `extranonce2_size` little-endian bytes
/// (the counter then advances), and whose version mask is cleared unless the
/// client advertised version rolling; the share is parked under the fresh V1
/// request id.  Nothing but the named fields changes.
pub open spec fn post_submit_shares(
    pre: Translator,
    post: Translator,
    m: SubmitSharesStandard,
    r: Result<(), TranslationError>,
) -> bool {
    &&& post == (Translator {
        v1_out: post.v1_out,
        v2_out: post.v2_out,
        pending_submits: post.pending_submits,
        channels: post.channels,
        next_v1_id: post.next_v1_id,
        ..pre
    })
    &&& pre.state != SessionState::Operational ==> r == Err::<(), TranslationError>(
        TranslationError::ProtocolViolation,
    ) && post == pre
    &&& (r matches Err(_)) ==> post == pre
    &&& pre.state == SessionState::Operational && (forall|k: int|
        0 <= k < pre.channels@.len() ==> (#[trigger] pre.channels@[k]).channel_id != m.channel_id)
        ==> r == Ok::<(), TranslationError>(()) && post.v1_out == pre.v1_out && post.channels
        == pre.channels && post.pending_submits == pre.pending_submits && post.v2_out@.len()
        == pre.v2_out@.len() + 1 && (post.v2_out@.last() matches Message::SubmitSharesError(e)
        && e.channel_id == m.channel_id && e.seq_num == m.seq_num && e.code@
        == invalid_channel_code())
    &&& pre.state == SessionState::Operational && (exists|k: int|
        0 <= k < pre.channels@.len() && (#[trigger] pre.channels@[k]).channel_id == m.channel_id)
        && (forall|k: int|
        0 <= k < pre.jobs@.len() ==> !((#[trigger] pre.jobs@[k]).channel_id == m.channel_id
            && pre.jobs@[k].v2_job_id == m.job_id && pre.jobs@[k].active)) ==> r == Ok::<
        (),
        TranslationError,
    >(()) && post.v1_out == pre.v1_out && post.channels == pre.channels && post.pending_submits
        == pre.pending_submits && post.v2_out@.len() == pre.v2_out@.len() + 1 && (
    post.v2_out@.last() matches Message::SubmitSharesError(e) && e.channel_id == m.channel_id
        && e.seq_num == m.seq_num && e.code@ == stale_share_code())
    &&& pre.state == SessionState::Operational && (exists|k: int|
        0 <= k < pre.channels@.len() && (#[trigger] pre.channels@[k]).channel_id == m.channel_id)
        && (exists|j: int|
        0 <= j < pre.jobs@.len() && (#[trigger] pre.jobs@[j]).channel_id == m.channel_id
            && pre.jobs@[j].v2_job_id == m.job_id && pre.jobs@[j].active) && r == Ok::<
        (),
        TranslationError,
    >(()) ==> post.v2_out == pre.v2_out && post.v1_out@.len() == pre.v1_out@.len() + 1 && (forall|
        i: int|
        0 <= i < pre.v1_out@.len() ==> post.v1_out@[i] == #[trigger] pre.v1_out@[i]) && (
    post.v1_out@.last() matches V1Request::Submit { id, ntime, nonce, version, extranonce2, .. }
        && id == pre.next_v1_id && ntime == m.ntime && nonce == m.nonce && version == (
    if pre.client_rolling {
        m.version
    } else {
        0u32
    }) && extranonce2@.len() == pre.extranonce2_size) && post.next_v1_id == pre.next_v1_id + 1
        && post.pending_submits@ == pre.pending_submits@.push(
        PendingSubmit { v1_id: pre.next_v1_id, channel_id: m.channel_id, seq_num: m.seq_num },
    ) && (forall|k: int|
        0 <= k < pre.channels@.len() && (#[trigger] pre.channels@[k]).channel_id == m.channel_id
            ==> post.channels@ == pre.channels@.update(
            k,
            ChannelRecord {
                submit_counter: (pre.channels@[k].submit_counter + 1) as u64,
                ..pre.channels@[k]
            },
        ) && (post.v1_out@.last() matches V1Request::Submit { user, extranonce2, .. } && user@
            == pre.channels@[k].user@ && le_val(extranonce2@) == (
        pre.channels@[k].submit_counter as nat) % pow256(pre.extranonce2_size as nat))) && (forall|
        j: int|
        0 <= j < pre.jobs@.len() && (#[trigger] pre.jobs@[j]).channel_id == m.channel_id
            && pre.jobs@[j].v2_job_id == m.job_id && pre.jobs@[j].active ==> (
        post.v1_out@.last() matches V1Request::Submit { job_id, .. } && job_id@
            == pre.jobs@[j].v1_job_id@))
    &&& pre.state == SessionState::Operational && pre.next_v1_id < 0xFFFFFFFF && (forall|k: int|
        0 <= k < pre.channels@.len() ==> (#[trigger] pre.channels@[k]).submit_counter
            < 0xFFFFFFFFFFFFFFFF) ==> r == Ok::<(), TranslationError>(())
}

/// Contract of [`Translator::on_open_channel`]: in `Operational`, the request
/// is parked and exactly one `mining.authorize` for its user goes upstream
/// under a fresh request id.  Nothing but the named fields changes.
pub open spec fn post_open_channel(
    pre: Translator,
    post: Translator,
    m: OpenStandardMiningChannel,
    r: Result<(), TranslationError>,
) -> bool {
    &&& post == (Translator {
        v1_out: post.v1_out,
        pending_opens: post.pending_opens,
        next_v1_id: post.next_v1_id,
        ..pre
    })
    &&& pre.state != SessionState::Operational ==> r == Err::<(), TranslationError>(
        TranslationError::ProtocolViolation,
    ) && post == pre
    &&& (r matches Err(_)) ==> post == pre
    &&& pre.state == SessionState::Operational && pre.next_v1_id < 0xFFFFFFFF ==> r == Ok::<
        (),
        TranslationError,
    >(()) && post.v1_out@ == pre.v1_out@.push(
        V1Request::Authorize { id: pre.next_v1_id, user: m.user.data },
    ) && post.pending_opens@.len() == pre.pending_opens@.len() + 1 && (forall|i: int|
        0 <= i < pre.pending_opens@.len() ==> post.pending_opens@[i] == #[trigger] pre.pending_opens@[i])
        && (post.pending_opens@.last() matches PendingOpen { v1_id, req_id, user, nominal_hashrate }
        && v1_id == pre.next_v1_id && req_id == m.req_id && user@ == m.user@ && nominal_hashrate
        == m.nominal_hashrate) && post.next_v1_id == pre.next_v1_id + 1
}

/// Contract of [`Translator::on_setup_connection`], relating the state before
/// (`pre`) and after (`post`) one call.
///
/// In `AwaitSetup`, a mining-protocol request whose version range covers 2
/// queues exactly `mining.configure` (iff the version-rolling flag is set)
/// followed by `mining.subscribe` with a device-derived user agent, each
/// under a fresh request id, records the flags and waits for the subscribe
/// result; anything else is answered with SetupConnectionError and the
/// session closes.  Nothing but the named fields changes.
pub open spec fn post_setup_connection(
    pre: Translator,
    post: Translator,
    m: SetupConnection,
    r: Result<(), TranslationError>,
) -> bool {
    &&& post == (Translator {
        state: post.state,
        setup_flags: post.setup_flags,
        client_rolling: post.client_rolling,
        v1_out: post.v1_out,
        v2_out: post.v2_out,
        next_v1_id: post.next_v1_id,
        ..pre
    })
    &&& pre.state != SessionState::AwaitSetup ==> r == Err::<(), TranslationError>(
        TranslationError::ProtocolViolation,
    ) && post == pre
    &&& (r matches Err(_)) ==> post == pre
    &&& pre.state == SessionState::AwaitSetup && (m.protocol == 0 && m.min_version <= 2
        && m.max_version >= 2) && pre.next_v1_id < 0xFFFFFFFE ==> r == Ok::<
        (),
        TranslationError,
    >(()) && post.state == SessionState::AwaitV1Subscribe && post.setup_flags == m.flags
        && post.client_rolling == (m.flags % 2 == 1) && post.v2_out == pre.v2_out && (forall|
        i: int|
        0 <= i < pre.v1_out@.len() ==> post.v1_out@[i] == #[trigger] pre.v1_out@[i]) && (if m.flags
        % 2 == 1 {
        post.v1_out@.len() == pre.v1_out@.len() + 2 && post.v1_out@[pre.v1_out@.len() as int]
            == (V1Request::Configure { id: pre.next_v1_id }) && (post.v1_out@.last() matches
            V1Request::Subscribe { id, user_agent } && id == pre.next_v1_id + 1 && user_agent@
            == m.device.vendor@ + seq![47u8] + m.device.fw_ver@) && post.next_v1_id
            == pre.next_v1_id + 2
    } else {
        post.v1_out@.len() == pre.v1_out@.len() + 1 && (post.v1_out@.last() matches
            V1Request::Subscribe { id, user_agent } && id == pre.next_v1_id && user_agent@
            == m.device.vendor@ + seq![47u8] + m.device.fw_ver@) && post.next_v1_id
            == pre.next_v1_id + 1
    })
    &&& pre.state == SessionState::AwaitSetup && !(m.protocol == 0 && m.min_version <= 2
        && m.max_version >= 2) ==> r == Ok::<(), TranslationError>(()) && post.state
        == SessionState::Closing && post.v1_out == pre.v1_out && post.next_v1_id == pre.next_v1_id
        && post.v2_out@.len() == pre.v2_out@.len() + 1 && (post.v2_out@.last() matches
        Message::SetupConnectionError(e) && e.flags == m.flags && e.code@ == unsupported_code())
}

impl Translator {
    /// The state invariant: every queued message is encodable, channel ids
    /// are unique, the extranonce fits a V2 prefix, the acknowledgement
    /// history is sorted and capped by `last_acked_seq`, and the two share
    /// ledgers agree.
    pub open spec fn wf(&self) -> bool {
        &&& forall|k: int| 0 <= k < self.v2_out@.len() ==> (#[trigger] self.v2_out@[k]).wf()
        &&& forall|i: int, j: int|
            0 <= i < j < self.channels@.len() ==> (#[trigger] self.channels@[i]).channel_id != (
            #[trigger] self.channels@[j]).channel_id
        &&& self.extranonce1@.len() <= 32
        &&& forall|k: int|
            0 <= k < self.channels@.len() ==> (#[trigger] self.channels@[
                k]).extranonce_prefix@.len() <= 32
        &&& forall|k: int|
            0 <= k < self.channels@.len() ==> (#[trigger] self.channels@[k]).channel_id
                < self.next_channel_id
        &&& forall|k: int|
            0 <= k < self.pending_opens@.len() ==> (#[trigger] self.pending_opens@[k]).v1_id
                < self.next_v1_id
        &&& forall|i: int, j: int|
            0 <= i < j < self.pending_opens@.len() ==> (#[trigger] self.pending_opens@[i]).v1_id
                != (#[trigger] self.pending_opens@[j]).v1_id
        &&& forall|k: int|
            0 <= k < self.pending_submits@.len() ==> (#[trigger] self.pending_submits@[k]).v1_id
                < self.next_v1_id
        &&& forall|i: int, j: int|
            0 <= i < j < self.pending_submits@.len() ==> (#[trigger] self.pending_submits@[
            i]).v1_id != (#[trigger] self.pending_submits@[j]).v1_id
        &&& forall|k: int|
            0 <= k < self.jobs@.len() ==> (#[trigger] self.jobs@[k]).v2_job_id
                < self.next_v2_job_id
        &&& forall|i: int, j: int|
            0 <= i < j < self.jobs@.len() ==> (#[trigger] self.jobs@[i]).v2_job_id != (
            #[trigger] self.jobs@[j]).v2_job_id
        &&& seq_non_decreasing(self.acked_history@)
        &&& forall|k: int|
            0 <= k < self.acked_history@.len() ==> #[trigger] self.acked_history@[k]
                <= self.last_acked_seq
        &&& self.total_accepted_upstream == self.acked_history@.len()
        &&& self.total_reported_downstream == self.acked_history@.len()
    }

    /// A fresh session: nothing negotiated, nothing queued, ids start at 1.
    pub fn new() -> (r: Translator)
        ensures
            r.wf(),
            r.state == SessionState::AwaitSetup,
            r.setup_flags == 0,
            !r.client_rolling,
            !r.upstream_rolling,
            r.extranonce1@.len() == 0,
            r.extranonce2_size == 4,
            r.difficulty == 0,
            r.channels@.len() == 0,
            r.jobs@.len() == 0,
            r.pending_opens@.len() == 0,
            r.pending_submits@.len() == 0,
            r.last_prev_hash == None::<Uint256Bytes>,
            r.next_channel_id == 1,
            r.next_v2_job_id == 1,
            r.next_v1_id == 1,
            r.last_acked_seq == 0,
            r.total_accepted_upstream == 0,
            r.total_reported_downstream == 0,
            r.v1_out@.len() == 0,
            r.v2_out@.len() == 0,
            r.acked_history@.len() == 0,
    {
        Translator {
            state: SessionState::AwaitSetup,
            setup_flags: 0,
            client_rolling: false,
            upstream_rolling: false,
            extranonce1: Vec::new(),
            extranonce2_size: 4,
            difficulty: 0,
            channels: Vec::new(),
            jobs: Vec::new(),
            pending_opens: Vec::new(),
            pending_submits: Vec::new(),
            last_prev_hash: None,
            next_channel_id: 1,
            next_v2_job_id: 1,
            next_v1_id: 1,
            last_acked_seq: 0,
            total_accepted_upstream: 0,
            total_reported_downstream: 0,
            v1_out: Vec::new(),
            v2_out: Vec::new(),
            acked_history: Ghost(Seq::empty()),
        }
    }

    /// Index of the channel with this id.
    fn find_channel(&self, channel_id: u32) -> (r: Option<usize>)
        ensures
            match r {
                Some(k) => k < self.channels@.len() && self.channels@[k as int].channel_id
                    == channel_id,
                None => forall|k: int|
                    0 <= k < self.channels@.len() ==> (#[trigger] self.channels@[k]).channel_id
                        != channel_id,
            },
    {
        let n = self.channels.len();
        let mut k: usize = 0;
        while k < n
            invariant
                k <= n == self.channels@.len(),
                forall|i: int|
                    0 <= i < k ==> (#[trigger] self.channels@[i]).channel_id != channel_id,
            decreases n - k,
        {
            if self.channels[k].channel_id == channel_id {
                return Some(k);
            }
            k = k + 1;
        }
        None
    }

    /// Index of the active job with this channel and job id.
    fn find_active_job(&self, channel_id: u32, v2_job_id: u32) -> (r: Option<usize>)
        ensures
            match r {
                Some(k) => k < self.jobs@.len() && self.jobs@[k as int].channel_id == channel_id
                    && self.jobs@[k as int].v2_job_id == v2_job_id && self.jobs@[k as int].active,
                None => forall|k: int|
                    0 <= k < self.jobs@.len() ==> !((#[trigger] self.jobs@[k]).channel_id
                        == channel_id && self.jobs@[k].v2_job_id == v2_job_id
                        && self.jobs@[k].active),
            },
    {
        let n = self.jobs.len();
        let mut k: usize = 0;
        while k < n
            invariant
                k <= n == self.jobs@.len(),
                forall|i: int|
                    0 <= i < k ==> !((#[trigger] self.jobs@[i]).channel_id == channel_id
                        && self.jobs@[i].v2_job_id == v2_job_id && self.jobs@[i].active),
            decreases n - k,
        {
            let j = &self.jobs[k];
            if j.channel_id == channel_id && j.v2_job_id == v2_job_id && j.active {
                return Some(k);
            }
            k = k + 1;
        }
        None
    }

    /// Handles the client's SetupConnection.
    ///
    /// In `AwaitSetup`, a mining-protocol request whose version range covers
    /// 2 is accepted: the flags are recorded, `mining.configure` is queued if
    /// the client rolls versions (low flag bit), then `mining.subscribe`, and
    /// the session waits for the subscribe result.  The success reply is
    /// withheld until then.  Any other request is answered with
    /// SetupConnectionError and the session closes.
    pub fn on_setup_connection(&mut self, m: SetupConnection) -> (r: Result<(), TranslationError>)
        requires
            old(self).wf(),
        ensures
            final(self).wf(),
            post_setup_connection(*old(self), *final(self), m, r),
    {
        if !matches!(self.state, SessionState::AwaitSetup) {
            return Err(TranslationError::ProtocolViolation);
        }
        if m.protocol == 0 && m.min_version <= 2 && m.max_version >= 2 {
            if self.next_v1_id >= 0xFFFFFFFE {
                return Err(TranslationError::TranslationLogic);
            }
            self.setup_flags = m.flags;
            self.client_rolling = m.flags % 2 == 1;
            if self.client_rolling {
                self.v1_out.push(V1Request::Configure { id: self.next_v1_id });
                self.next_v1_id = self.next_v1_id + 1;
            }
            // The V1 user agent names the device: "<vendor>/<firmware>".
            let mut user_agent = clone_bytes(&m.device.vendor.data);
            user_agent.push(47);
            write_bytes(&mut user_agent, &m.device.fw_ver.data);
            proof {
                assert(user_agent@ =~= m.device.vendor@ + seq![47u8] + m.device.fw_ver@);
            }
            self.v1_out.push(V1Request::Subscribe { id: self.next_v1_id, user_agent });
            self.next_v1_id = self.next_v1_id + 1;
            self.state = SessionState::AwaitV1Subscribe;
            Ok(())
        } else {
            let bytes = vec![117u8, 110u8, 115u8, 117u8, 112u8, 112u8, 111u8, 114u8, 116u8, 101u8,
                100u8];
            proof {
                assert(bytes@ =~= unsupported_code());
                lemma_ascii_is_utf8(bytes@);
            }
            let e = SetupConnectionError { flags: m.flags, code: Str0_255 { data: bytes } };
            self.v2_out.push(Message::SetupConnectionError(e));
            self.state = SessionState::Closing;
            Ok(())
        }
    }

    /// Handles OpenStandardMiningChannel: queues `mining.authorize` for the
    /// user and parks the request until the verdict arrives.
    pub fn on_open_channel(&mut self, m: OpenStandardMiningChannel) -> (r: Result<
        (),
        TranslationError,
    >)
        requires
            old(self).wf(),
        ensures
            final(self).wf(),
            post_open_channel(*old(self), *final(self), m, r),
    {
        if !matches!(self.state, SessionState::Operational) {
            return Err(TranslationError::ProtocolViolation);
        }
        if self.next_v1_id == 0xFFFFFFFF {
            return Err(TranslationError::TranslationLogic);
        }
        let id = self.next_v1_id;
        self.next_v1_id = id + 1;
        let user2 = clone_bytes(&m.user.data);
        self.v1_out.push(V1Request::Authorize { id, user: m.user.data });
        self.pending_opens.push(PendingOpen {
            v1_id: id,
            req_id: m.req_id,
            user: user2,
            nominal_hashrate: m.nominal_hashrate,
        });
        Ok(())
    }

    /// Handles SubmitSharesStandard.
    ///
    /// A share for an unknown channel or for a job that is not active is
    /// answered downstream with SubmitSharesError — `invalid-channel` or
    /// `stale-share` — and nothing reaches V1.  A share for an active job is
    /// forwarded as `mining.submit` with a fresh extranonce2 minted from the
    /// channel's counter, and parked until the verdict arrives; the version
    /// mask is cleared unless the client advertised version rolling.
    pub fn on_submit_shares(&mut self, m: SubmitSharesStandard) -> (r: Result<
        (),
        TranslationError,
    >)
        requires
            old(self).wf(),
        ensures
            final(self).wf(),
            post_submit_shares(*old(self), *final(self), m, r),
    {
        if !matches!(self.state, SessionState::Operational) {
            return Err(TranslationError::ProtocolViolation);
        }
        let ci = match self.find_channel(m.channel_id) {
            Some(k) => k,
            None => {
                let code = ascii_code(vec![105u8, 110u8, 118u8, 97u8, 108u8, 105u8, 100u8, 45u8,
                    99u8, 104u8, 97u8, 110u8, 110u8, 101u8, 108u8]);
                proof {
                    assert(code@ =~= invalid_channel_code());
                }
                self.v2_out.push(Message::SubmitSharesError(SubmitSharesError {
                    channel_id: m.channel_id,
                    seq_num: m.seq_num,
                    code,
                }));
                return Ok(());
            },
        };
        if self.find_active_job(m.channel_id, m.job_id).is_none() {
            let code = ascii_code(vec![115u8, 116u8, 97u8, 108u8, 101u8, 45u8, 115u8, 104u8, 97u8,
                114u8, 101u8]);
            proof {
                assert(code@ =~= stale_share_code());
            }
            self.v2_out.push(Message::SubmitSharesError(SubmitSharesError {
                channel_id: m.channel_id,
                seq_num: m.seq_num,
                code,
            }));
            return Ok(());
        }
        let ji = match self.find_active_job(m.channel_id, m.job_id) {
            Some(k) => k,
            None => {
                return Err(TranslationError::TranslationLogic);
            },
        };
        if self.next_v1_id == 0xFFFFFFFF {
            return Err(TranslationError::TranslationLogic);
        }
        let counter = self.channels[ci].submit_counter;
        if counter == 0xFFFFFFFFFFFFFFFF {
            return Err(TranslationError::TranslationLogic);
        }
        let extranonce2 = counter_le_bytes(counter, self.extranonce2_size as usize);
        let cref = &mut self.channels[ci];
        cref.submit_counter = counter + 1;
        let id = self.next_v1_id;
        self.next_v1_id = id + 1;
        let user = clone_bytes(&self.channels[ci].user);
        let job_id = clone_bytes(&self.jobs[ji].v1_job_id);
        let version: u32 = if self.client_rolling {
            m.version
        } else {
            0
        };
        self.v1_out.push(V1Request::Submit {
            id,
            user,
            job_id,
            extranonce2,
            ntime: m.ntime,
            nonce: m.nonce,
            version,
        });
        self.pending_submits.push(PendingSubmit {
            v1_id: id,
            channel_id: m.channel_id,
            seq_num: m.seq_num,
        });
        proof {
            assert forall|k: int|
                0 <= k < old(self).channels@.len() && (#[trigger] old(self).channels@[k]).channel_id
                    == m.channel_id implies k == ci by {
                if k != ci {
                    if k < ci {
                        assert(old(self).channels@[k].channel_id != old(
                            self,
                        ).channels@[ci as int].channel_id);
                    } else {
                        assert(old(self).channels@[ci as int].channel_id != old(
                            self,
                        ).channels@[k].channel_id);
                    }
                }
            }
            assert forall|j: int|
                0 <= j < old(self).jobs@.len() && (#[trigger] old(self).jobs@[j]).channel_id
                    == m.channel_id && old(self).jobs@[j].v2_job_id == m.job_id && old(
                self,
            ).jobs@[j].active implies j == ji by {
                if j != ji {
                    if j < ji {
                        assert(old(self).jobs@[j].v2_job_id != old(
                            self,
                        ).jobs@[ji as int].v2_job_id);
                    } else {
                        assert(old(self).jobs@[ji as int].v2_job_id != old(self).jobs@[j].v2_job_id);
                    }
                }
            }
            assert(self.channels@ =~= old(self).channels@.update(
                ci as int,
                ChannelRecord {
                    submit_counter: (old(self).channels@[ci as int].submit_counter + 1) as u64,
                    ..old(self).channels@[ci as int]
                },
            ));
        }
        Ok(())
    }


    /// Handles the V1 subscribe result: records the session extranonce and,
    /// only now, releases SetupConnectionSuccess downstream with
    /// `used_version = 2` and the client's own flags.
    pub fn on_subscribe_result(&mut self, extranonce1: Vec<u8>, extranonce2_size: u8) -> (r: Result<(), TranslationError>)
        requires
            old(self).wf(),
        ensures
            final(self).wf(),
            post_subscribe_result(*old(self), *final(self), extranonce1@, extranonce2_size, r),
    {
        if !matches!(self.state, SessionState::AwaitV1Subscribe) {
            return Err(TranslationError::ProtocolViolation);
        }
        if extranonce1.len() > 32 {
            return Err(TranslationError::TranslationLogic);
        }
        self.extranonce1 = extranonce1;
        self.extranonce2_size = extranonce2_size;
        self.state = SessionState::Operational;
        self.v2_out.push(Message::SetupConnectionSuccess(SetupConnectionSuccess {
            used_version: 2,
            flags: self.setup_flags,
        }));
        Ok(())
    }

    /// Handles the V1 configure result: remembers whether the pool rolls
    /// versions.
    pub fn on_configure_result(&mut self, version_rolling: bool) -> (r: Result<(), TranslationError>)
        requires
            old(self).wf(),
        ensures
            final(self).wf(),
            post_configure_result(*old(self), *final(self), version_rolling, r),
    {
        self.upstream_rolling = version_rolling;
        Ok(())
    }

    /// Handles the V1 authorize verdict for a parked channel-open request.
    ///
    /// Denied: the client gets OpenMiningChannelError.  Granted: a fresh
    /// channel id is allocated (monotonic per connection), the extranonce
    /// prefix is the V1 session extranonce1, the target is
    /// `diff1_target / difficulty` (difficulty 1 until the pool has set
    /// one), and OpenStandardMiningChannelSuccess goes downstream.
    pub fn on_authorize_result(&mut self, id: u32, ok: bool) -> (r: Result<(), TranslationError>)
        requires
            old(self).wf(),
        ensures
            final(self).wf(),
            post_authorize_result(*old(self), *final(self), id, ok, r),
    {
        let n = self.pending_opens.len();
        let mut k: usize = 0;
        while k < n
            invariant
                old(self).wf(),
                *self == *old(self),
                k <= n == self.pending_opens@.len(),
                forall|i: int|
                    0 <= i < k ==> (#[trigger] self.pending_opens@[i]).v1_id != id,
            decreases n - k,
        {
            if self.pending_opens[k].v1_id == id {
                if ok && self.next_channel_id == 0xFFFFFFFF {
                    return Err(TranslationError::TranslationLogic);
                }
                let po = self.pending_opens.remove(k);
                proof {
                    assert forall|k2: int|
                        0 <= k2 < old(self).pending_opens@.len() && (#[trigger] old(
                        self,
                    ).pending_opens@[k2]).v1_id == id implies k2 == k by {
                        if k2 < k {
                            assert(old(self).pending_opens@[k2].v1_id != old(
                                self,
                            ).pending_opens@[k as int].v1_id);
                        } else if k2 > k {
                            assert(old(self).pending_opens@[k as int].v1_id != old(
                                self,
                            ).pending_opens@[k2].v1_id);
                        }
                    }
                }
                if !ok {
                    let code = ascii_code(vec![97u8, 117u8, 116u8, 104u8, 45u8, 102u8, 97u8, 105u8,
                        108u8, 101u8, 100u8]);
                    proof {
                        assert(code@ =~= auth_failed_code());
                    }
                    self.v2_out.push(Message::OpenMiningChannelError(OpenMiningChannelError {
                        req_id: po.req_id,
                        code,
                    }));
                    return Ok(());
                }
                let d: u64 = if self.difficulty == 0 {
                    1
                } else {
                    self.difficulty
                };
                let target = target_for_difficulty(d);
                let channel_id = self.next_channel_id;
                self.next_channel_id = channel_id + 1;
                let prefix = clone_bytes(&self.extranonce1);
                let prefix2 = clone_bytes(&self.extranonce1);
                self.channels.push(ChannelRecord {
                    channel_id,
                    group_channel_id: 1,
                    user: po.user,
                    extranonce_prefix: prefix,
                    last_nominal_hashrate: po.nominal_hashrate,
                    submit_counter: 0,
                });
                self.v2_out.push(Message::OpenStandardMiningChannelSuccess(
                    OpenStandardMiningChannelSuccess {
                        req_id: po.req_id,
                        channel_id,
                        target,
                        extranonce_prefix: Bytes0_32 { data: prefix2 },
                        group_channel_id: 1,
                    },
                ));
                return Ok(());
            }
            k = k + 1;
        }
        Err(TranslationError::TranslationLogic)
    }

    /// Handles the V1 verdict on a forwarded share.
    ///
    /// Accepted: one SubmitSharesSuccess is emitted whose `last_seq_num`
    /// never decreases below any earlier acknowledgement, counting exactly
    /// this one share; both ledgers advance together.  Rejected: the client
    /// gets SubmitSharesError for that sequence number.
    pub fn on_submit_result(&mut self, id: u32, ok: bool) -> (r: Result<(), TranslationError>)
        requires
            old(self).wf(),
        ensures
            final(self).wf(),
            post_submit_result(*old(self), *final(self), id, ok, r),
    {
        let n = self.pending_submits.len();
        let mut k: usize = 0;
        while k < n
            invariant
                old(self).wf(),
                *self == *old(self),
                k <= n == self.pending_submits@.len(),
                forall|i: int|
                    0 <= i < k ==> (#[trigger] self.pending_submits@[i]).v1_id != id,
            decreases n - k,
        {
            if self.pending_submits[k].v1_id == id {
                if ok && self.total_accepted_upstream == 0xFFFFFFFFFFFFFFFF {
                    return Err(TranslationError::TranslationLogic);
                }
                let ps = self.pending_submits.remove(k);
                proof {
                    assert forall|k2: int|
                        0 <= k2 < old(self).pending_submits@.len() && (#[trigger] old(
                        self,
                    ).pending_submits@[k2]).v1_id == id implies k2 == k by {
                        if k2 < k {
                            assert(old(self).pending_submits@[k2].v1_id != old(
                                self,
                            ).pending_submits@[k as int].v1_id);
                        } else if k2 > k {
                            assert(old(self).pending_submits@[k as int].v1_id != old(
                                self,
                            ).pending_submits@[k2].v1_id);
                        }
                    }
                }
                if ok {
                    let last = if ps.seq_num > self.last_acked_seq {
                        ps.seq_num
                    } else {
                        self.last_acked_seq
                    };
                    self.last_acked_seq = last;
                    self.total_accepted_upstream = self.total_accepted_upstream + 1;
                    self.total_reported_downstream = self.total_reported_downstream + 1;
                    self.acked_history = Ghost(self.acked_history@.push(last));
                    self.v2_out.push(Message::SubmitSharesSuccess(SubmitSharesSuccess {
                        channel_id: ps.channel_id,
                        last_seq_num: last,
                        new_submits_accepted_count: 1,
                        new_shares_sum: 1,
                    }));
                    return Ok(());
                } else {
                    let code = ascii_code(vec![114u8, 101u8, 106u8, 101u8, 99u8, 116u8, 101u8,
                        100u8]);
                    proof {
                        assert(code@ =~= rejected_code());
                    }
                    self.v2_out.push(Message::SubmitSharesError(SubmitSharesError {
                        channel_id: ps.channel_id,
                        seq_num: ps.seq_num,
                        code,
                    }));
                    return Ok(());
                }
            }
            k = k + 1;
        }
        Err(TranslationError::TranslationLogic)
    }

    /// Handles CloseChannel: drops the record; V1 stays authorized, nothing
    /// is sent upstream.
    pub fn on_close_channel(&mut self, m: CloseChannel) -> (r: Result<(), TranslationError>)
        requires
            old(self).wf(),
        ensures
            final(self).wf(),
            post_close_channel(*old(self), *final(self), m, r),
    {
        match self.find_channel(m.channel_id) {
            Some(k) => {
                self.channels.remove(k);
                proof {
                    assert forall|k2: int|
                        0 <= k2 < old(self).channels@.len() && (#[trigger] old(
                        self,
                    ).channels@[k2]).channel_id == m.channel_id implies k2 == k by {
                        if k2 < k {
                            assert(old(self).channels@[k2].channel_id != old(
                                self,
                            ).channels@[k as int].channel_id);
                        } else if k2 > k {
                            assert(old(self).channels@[k as int].channel_id != old(
                                self,
                            ).channels@[k2].channel_id);
                        }
                    }
                }
                Ok(())
            },
            None => Ok(()),
        }
    }

    /// Handles UpdateChannel: an unknown channel is answered with
    /// UpdateChannelError, a known one is acknowledged silently.
    pub fn on_update_channel(&mut self, m: UpdateChannel) -> (r: Result<(), TranslationError>)
        requires
            old(self).wf(),
        ensures
            final(self).wf(),
            post_update_channel(*old(self), *final(self), m, r),
    {
        match self.find_channel(m.channel_id) {
            Some(k) => {
                let cref = &mut self.channels[k];
                cref.last_nominal_hashrate = m.nominal_hash_rate;
                proof {
                    assert forall|i: int|
                        0 <= i < self.channels@.len() implies (#[trigger] self.channels@[i]) == (
                    if old(self).channels@[i].channel_id == m.channel_id {
                        ChannelRecord {
                            last_nominal_hashrate: m.nominal_hash_rate,
                            ..old(self).channels@[i]
                        }
                    } else {
                        old(self).channels@[i]
                    }) by {
                        if i != k {
                            assert(self.channels@[i] == old(self).channels@[i]);
                            assert(old(self).channels@[i].channel_id != m.channel_id);
                        }
                    }
                }
                Ok(())
            },
            None => {
                let code = ascii_code(vec![105u8, 110u8, 118u8, 97u8, 108u8, 105u8, 100u8, 45u8,
                    99u8, 104u8, 97u8, 110u8, 110u8, 101u8, 108u8]);
                proof {
                    assert(code@ =~= invalid_channel_code());
                }
                self.v2_out.push(Message::UpdateChannelError(UpdateChannelError {
                    channel_id: m.channel_id,
                    error_code: code,
                }));
                Ok(())
            },
        }
    }

    /// True when this notify starts a new round: clean jobs demanded, or a
    /// prev-hash that differs from the last one seen.
    pub open spec fn spec_activates(self, clean_jobs: bool, prev_hash: Seq<u8>) -> bool {
        clean_jobs || (match self.last_prev_hash {
            Option::None => false,
            Option::Some(h) => h@ != prev_hash,
        })
    }

    /// Handles a V1 `mining.notify`.
    ///
    /// Every open channel gets one NewExtendedMiningJob with a fresh job id
    /// and `future_job = !clean_jobs`.  When the notify starts a new round —
    /// clean jobs, or a changed prev-hash — each channel also gets the
    /// matching SetNewPrevHash, the new jobs become the only active ones and
    /// every earlier job is invalidated; otherwise the new jobs stay future
    /// and the old ones keep their state.
    #[verifier::rlimit(100)]
    pub fn on_notify(&mut self, job_id: Vec<u8>, prev_hash: Uint256Bytes, coinbase1: Vec<u8>,
        coinbase2: Vec<u8>, merkle_branches: Vec<Uint256Bytes>, version: u32, nbits: u32,
        ntime: u32, clean_jobs: bool) -> (r: Result<(), TranslationError>)
        requires
            old(self).wf(),
        ensures
            final(self).wf(),
            post_notify(
                *old(self),
                *final(self),
                job_id@,
                prev_hash@,
                merkle_branches@.map(|i: int, b: Uint256Bytes| b@),
                version,
                nbits,
                ntime,
                clean_jobs,
                coinbase1@.len() as int,
                coinbase2@.len() as int,
                r,
            ),
    {
        if !matches!(self.state, SessionState::Operational) {
            return Err(TranslationError::ProtocolViolation);
        }
        if prev_hash.bytes.len() != 32 {
            return Err(TranslationError::TranslationLogic);
        }
        let nb = merkle_branches.len();
        if nb > 255 {
            return Err(TranslationError::TranslationLogic);
        }
        let mut bi: usize = 0;
        while bi < nb
            invariant
                old(self).wf(),
                old(self).state == SessionState::Operational,
                *self == *old(self),
                bi <= nb == merkle_branches@.len(),
                forall|i: int|
                    0 <= i < bi ==> (#[trigger] merkle_branches@[i])@.len() == 32,
            decreases nb - bi,
        {
            if merkle_branches[bi].bytes.len() != 32 {
                proof {
                    assert(merkle_branches@.map(|i: int, b: Uint256Bytes| b@)[bi as int]
                        == merkle_branches@[bi as int]@);
                }
                return Err(TranslationError::TranslationLogic);
            }
            bi = bi + 1;
        }
        if coinbase1.len() > 65535 || coinbase2.len() > 65535 {
            return Err(TranslationError::TranslationLogic);
        }
        let n = self.channels.len();
        if n as u64 >= 0xFFFFFFFF - (self.next_v2_job_id as u64) {
            return Err(TranslationError::TranslationLogic);
        }
        let changed: bool = match &self.last_prev_hash {
            Option::None => false,
            Option::Some(h) => !slice_eq(h.bytes.as_slice(), prev_hash.bytes.as_slice()),
        };
        let activate = clean_jobs || changed;
        proof {
            assert(activate == old(self).spec_activates(clean_jobs, prev_hash@));
        }
        if activate {
            let nj = self.jobs.len();
            let mut i: usize = 0;
            while i < nj
                invariant
                    old(self).wf(),
                    i <= nj == self.jobs@.len(),
                    *self == (Translator { jobs: self.jobs, ..*old(self) }),
                    forall|k: int|
                        0 <= k < i ==> (#[trigger] self.jobs@[k]) == (JobRecord {
                            active: false,
                            ..old(self).jobs@[k]
                        }),
                    forall|k: int| i <= k < nj ==> (#[trigger] self.jobs@[k]) == old(self).jobs@[k],
                decreases nj - i,
            {
                self.jobs[i].active = false;
                i = i + 1;
            }
        }
        let ghost mid_jobs = self.jobs@;
        let base = self.v2_out.len();
        let start_jid = self.next_v2_job_id;
        let mut k: usize = 0;
        while k < n
            invariant
                old(self).wf(),
                k <= n == self.channels@.len(),
                (n as u64) + (start_jid as u64) < 0xFFFFFFFF,
                base == old(self).v2_out@.len(),
                start_jid == old(self).next_v2_job_id,
                self.channels == old(self).channels,
                prev_hash@.len() == 32,
                merkle_branches@.len() <= 255,
                forall|i: int|
                    0 <= i < merkle_branches@.len() ==> (#[trigger] merkle_branches@[i])@.len()
                        == 32,
                coinbase1@.len() <= 65535,
                coinbase2@.len() <= 65535,
                *self == (Translator {
                    jobs: self.jobs,
                    v2_out: self.v2_out,
                    next_v2_job_id: self.next_v2_job_id,
                    ..*old(self)
                }),
                forall|i: int| 0 <= i < mid_jobs.len() ==> (#[trigger] mid_jobs[i]) == (if old(self).spec_activates(clean_jobs, prev_hash@) {
                    JobRecord { active: false, ..old(self).jobs@[i] }
                } else {
                    old(self).jobs@[i]
                }),
                mid_jobs.len() == old(self).jobs@.len(),
                activate == old(self).spec_activates(clean_jobs, prev_hash@),
                self.next_v2_job_id == start_jid + k,
                self.jobs@.len() == mid_jobs.len() + k,
                forall|i: int| 0 <= i < mid_jobs.len() ==> (#[trigger] self.jobs@[i]) == mid_jobs[i],
                forall|j: int|
                    mid_jobs.len() <= j < self.jobs@.len() ==> (#[trigger] self.jobs@[j]).active
                        == activate && self.jobs@[j].future_job == !clean_jobs
                        && self.jobs@[j].channel_id == old(self).channels@[j - mid_jobs.len() as int].channel_id
                        && self.jobs@[j].v2_job_id == start_jid + (j - mid_jobs.len() as int)
                        && self.jobs@[j].v1_job_id@ == job_id@,
                activate ==> self.v2_out@.len() == base + 2 * k,
                !activate ==> self.v2_out@.len() == base + k,
                forall|i: int| 0 <= i < base ==> (#[trigger] self.v2_out@[i]) == old(self).v2_out@[i],
                activate ==> (forall|i: int|
                    0 <= i < k ==> (#[trigger] self.v2_out@[base + 2 * i] matches Message::NewExtendedMiningJob(j) && j.channel_id == old(self).channels@[i].channel_id && j.job_id == start_jid + i && j.future_job == !clean_jobs && j.version == version && j.wf())),
                !activate ==> (forall|i: int|
                    0 <= i < k ==> (#[trigger] self.v2_out@[base + i] matches Message::NewExtendedMiningJob(j) && j.channel_id == old(self).channels@[i].channel_id && j.job_id == start_jid + i && j.future_job == !clean_jobs && j.version == version && j.wf())),
                activate ==> (forall|i: int|
                    0 <= i < k ==> (#[trigger] self.v2_out@[base + 2 * i + 1] matches Message::SetNewPrevHash(p) && p.channel_id == old(self).channels@[i].channel_id && p.job_id == start_jid + i && p.prev_hash@ == prev_hash@ && p.min_ntime == ntime && p.nbits == nbits && p.wf())),
                forall|i: int|
                    base <= i < self.v2_out@.len() ==> (#[trigger] self.v2_out@[i]).wf(),
            decreases n - k,
        {
            let c_id = self.channels[k].channel_id;
            let jid = self.next_v2_job_id;
            self.next_v2_job_id = jid + 1;
            self.jobs.push(JobRecord {
                channel_id: c_id,
                v2_job_id: jid,
                v1_job_id: clone_bytes(&job_id),
                future_job: !clean_jobs,
                active: activate,
                version,
            });
            let msg = NewExtendedMiningJob {
                channel_id: c_id,
                job_id: jid,
                future_job: !clean_jobs,
                version,
                version_rolling_allowed: self.upstream_rolling,
                merkle_path: Seq0_255 { items: clone_u256_vec(&merkle_branches) },
                coinbase_tx_prefix: Bytes0_64k { data: clone_bytes(&coinbase1) },
                coinbase_tx_suffix: Bytes0_64k { data: clone_bytes(&coinbase2) },
            };
            self.v2_out.push(Message::NewExtendedMiningJob(msg));
            if activate {
                self.v2_out.push(Message::SetNewPrevHash(SetNewPrevHash {
                    channel_id: c_id,
                    job_id: jid,
                    prev_hash: Uint256Bytes { bytes: clone_bytes(&prev_hash.bytes) },
                    min_ntime: ntime,
                    nbits,
                }));
            }
            k = k + 1;
        }
        self.last_prev_hash = Some(prev_hash);
        Ok(())
    }

    /// Handles V1 `mining.set_difficulty`: records the difficulty and sends
    /// every open channel a SetTarget with `diff1_target / d`.
    pub fn on_set_difficulty(&mut self, d: u64) -> (r: Result<(), TranslationError>)
        requires
            old(self).wf(),
        ensures
            final(self).wf(),
            post_set_difficulty(*old(self), *final(self), d, r),
    {
        if d == 0 {
            return Err(TranslationError::TranslationLogic);
        }
        self.difficulty = d;
        let target = target_for_difficulty(d);
        let n = self.channels.len();
        let base = self.v2_out.len();
        let mut k: usize = 0;
        while k < n
            invariant
                old(self).wf(),
                k <= n == self.channels@.len(),
                base == old(self).v2_out@.len(),
                d > 0,
                target.wf(),
                le_val(target@) == le_val(diff1_target_seq()) / (d as nat),
                *self == (Translator { difficulty: d, v2_out: self.v2_out, ..*old(self) }),
                self.v2_out@.len() == base + k,
                forall|i: int| 0 <= i < base ==> (#[trigger] self.v2_out@[i]) == old(self).v2_out@[i],
                forall|i: int|
                    0 <= i < k ==> (#[trigger] self.v2_out@[base + i] matches Message::SetTarget(t) && t.channel_id == old(self).channels@[i].channel_id && le_val(t.max_target@) == le_val(diff1_target_seq()) / (d as nat) && t.wf()),
                forall|i: int|
                    base <= i < self.v2_out@.len() ==> (#[trigger] self.v2_out@[i]).wf(),
            decreases n - k,
        {
            let c_id = self.channels[k].channel_id;
            self.v2_out.push(Message::SetTarget(SetTarget {
                channel_id: c_id,
                max_target: Uint256Bytes { bytes: clone_bytes(&target.bytes) },
            }));
            k = k + 1;
        }
        Ok(())
    }

    /// Handles V1 `client.reconnect`: forwarded as a V2 Reconnect.
    pub fn on_reconnect(&mut self, host: Vec<u8>, port: u16) -> (r: Result<(), TranslationError>)
        requires
            old(self).wf(),
        ensures
            final(self).wf(),
            post_reconnect(*old(self), *final(self), host@, port, r),
    {
        if host.len() > 255 || !check_utf8(host.as_slice()) {
            return Err(TranslationError::TranslationLogic);
        }
        self.v2_out.push(Message::Reconnect(Reconnect {
            new_host: Str0_255 { data: host },
            new_port: port,
        }));
        Ok(())
    }

    /// Tears the session down after the V1 side is lost: every open channel
    /// is told its endpoint changed, and the session closes.
    pub fn on_v1_disconnect(&mut self)
        requires
            old(self).wf(),
        ensures
            final(self).wf(),
            post_v1_disconnect(*old(self), *final(self)),
    {
        let n = self.channels.len();
        let base = self.v2_out.len();
        let mut k: usize = 0;
        while k < n
            invariant
                old(self).wf(),
                k <= n == self.channels@.len(),
                base == old(self).v2_out@.len(),
                *self == (Translator { v2_out: self.v2_out, ..*old(self) }),
                self.v2_out@.len() == base + k,
                forall|i: int| 0 <= i < base ==> (#[trigger] self.v2_out@[i]) == old(self).v2_out@[i],
                forall|i: int|
                    0 <= i < k ==> (#[trigger] self.v2_out@[base + i]) == Message::ChannelEndpointChanged(
                        ChannelEndpointChanged { channel_id: old(self).channels@[i].channel_id },
                    ),
                forall|i: int|
                    base <= i < self.v2_out@.len() ==> (#[trigger] self.v2_out@[i]).wf(),
            decreases n - k,
        {
            let c_id = self.channels[k].channel_id;
            self.v2_out.push(Message::ChannelEndpointChanged(ChannelEndpointChanged {
                channel_id: c_id,
            }));
            k = k + 1;
        }
        self.state = SessionState::Closing;
    }

    /// Dispatches one decoded downstream V2 message to its handler, carrying
    /// each handler's full contract; messages that only a server may send
    /// are protocol violations from a client and leave the state untouched.
    pub fn handle_v2(&mut self, m: Message) -> (r: Result<(), TranslationError>)
        requires
            old(self).wf(),
        ensures
            final(self).wf(),
            (m matches Message::SetupConnection(x) ==> post_setup_connection(
                *old(self),
                *final(self),
                x,
                r,
            )),
            (m matches Message::OpenStandardMiningChannel(x) ==> post_open_channel(
                *old(self),
                *final(self),
                x,
                r,
            )),
            (m matches Message::SubmitSharesStandard(x) ==> post_submit_shares(
                *old(self),
                *final(self),
                x,
                r,
            )),
            (m matches Message::CloseChannel(x) ==> post_close_channel(
                *old(self),
                *final(self),
                x,
                r,
            )),
            (m matches Message::UpdateChannel(x) ==> post_update_channel(
                *old(self),
                *final(self),
                x,
                r,
            )),
            !(m matches Message::SetupConnection(_) || m matches Message::OpenStandardMiningChannel(
                _,
            ) || m matches Message::SubmitSharesStandard(_) || m matches Message::CloseChannel(_)
                || m matches Message::UpdateChannel(_)) ==> r == Err::<(), TranslationError>(
                TranslationError::ProtocolViolation,
            ) && *final(self) == *old(self),
    {
        match m {
            Message::SetupConnection(x) => self.on_setup_connection(x),
            Message::OpenStandardMiningChannel(x) => self.on_open_channel(x),
            Message::SubmitSharesStandard(x) => self.on_submit_shares(x),
            Message::CloseChannel(x) => self.on_close_channel(x),
            Message::UpdateChannel(x) => self.on_update_channel(x),
            _ => Err(TranslationError::ProtocolViolation),
        }
    }

    /// Dispatches one upstream V1 event to its handler, carrying each
    /// handler's full contract.
    pub fn handle_v1(&mut self, e: V1Event) -> (r: Result<(), TranslationError>)
        requires
            old(self).wf(),
        ensures
            final(self).wf(),
            (e matches V1Event::SubscribeResult { extranonce1, extranonce2_size }
                ==> post_subscribe_result(
                *old(self),
                *final(self),
                extranonce1@,
                extranonce2_size,
                r,
            )),
            (e matches V1Event::ConfigureResult { version_rolling } ==> post_configure_result(
                *old(self),
                *final(self),
                version_rolling,
                r,
            )),
            (e matches V1Event::AuthorizeResult { id, ok } ==> post_authorize_result(
                *old(self),
                *final(self),
                id,
                ok,
                r,
            )),
            (e matches V1Event::SubmitResult { id, ok } ==> post_submit_result(
                *old(self),
                *final(self),
                id,
                ok,
                r,
            )),
            (e matches V1Event::Notify {
                job_id,
                prev_hash,
                coinbase1,
                coinbase2,
                merkle_branches,
                version,
                nbits,
                ntime,
                clean_jobs,
            } ==> post_notify(
                *old(self),
                *final(self),
                job_id@,
                prev_hash@,
                merkle_branches@.map(|i: int, b: Uint256Bytes| b@),
                version,
                nbits,
                ntime,
                clean_jobs,
                coinbase1@.len() as int,
                coinbase2@.len() as int,
                r,
            )),
            (e matches V1Event::SetDifficulty { difficulty } ==> post_set_difficulty(
                *old(self),
                *final(self),
                difficulty,
                r,
            )),
            (e matches V1Event::Reconnect { host, port } ==> post_reconnect(
                *old(self),
                *final(self),
                host@,
                port,
                r,
            )),
    {
        match e {
            V1Event::SubscribeResult { extranonce1, extranonce2_size } => self.on_subscribe_result(
                extranonce1,
                extranonce2_size,
            ),
            V1Event::ConfigureResult { version_rolling } => self.on_configure_result(
                version_rolling,
            ),
            V1Event::AuthorizeResult { id, ok } => self.on_authorize_result(id, ok),
            V1Event::SubmitResult { id, ok } => self.on_submit_result(id, ok),
            V1Event::Notify {
                job_id,
                prev_hash,
                coinbase1,
                coinbase2,
                merkle_branches,
                version,
                nbits,
                ntime,
                clean_jobs,
            } => self.on_notify(
                job_id,
                prev_hash,
                coinbase1,
                coinbase2,
                merkle_branches,
                version,
                nbits,
                ntime,
                clean_jobs,
            ),
            V1Event::SetDifficulty { difficulty } => self.on_set_difficulty(difficulty),
            V1Event::Reconnect { host, port } => self.on_reconnect(host, port),
        }
    }

    /// Drains the upstream queue for sending.
    pub fn take_v1_out(&mut self) -> (r: Vec<V1Request>)
        requires
            old(self).wf(),
        ensures
            final(self).wf(),
            r == old(self).v1_out,
            final(self).v1_out@.len() == 0,
            *final(self) == (Translator { v1_out: final(self).v1_out, ..*old(self) }),
    {
        let mut out: Vec<V1Request> = Vec::new();
        core::mem::swap(&mut out, &mut self.v1_out);
        out
    }

    /// Drains the downstream queue for encoding; every message in it is
    /// well-formed, so each can be framed.
    pub fn take_v2_out(&mut self) -> (r: Vec<Message>)
        requires
            old(self).wf(),
        ensures
            final(self).wf(),
            r == old(self).v2_out,
            forall|k: int| 0 <= k < r@.len() ==> (#[trigger] r@[k]).wf(),
            final(self).v2_out@.len() == 0,
            *final(self) == (Translator { v2_out: final(self).v2_out, ..*old(self) }),
    {
        let mut out: Vec<Message> = Vec::new();
        core::mem::swap(&mut out, &mut self.v2_out);
        out
    }
}

/// The shares the pool accepted and the shares acknowledged downstream
/// balance: in every reachable state, the sum of
/// `new_submits_accepted_count` over all emitted SubmitSharesSuccess
/// messages equals the number of upstream accepts, each success counting
/// exactly one fresh share.
pub proof fn lemma_accepted_equals_reported(t: Translator)
    requires
        t.wf(),
    ensures
        t.total_reported_downstream == t.total_accepted_upstream,
{
}

/// Acknowledgement order: the `last_seq_num` values of the emitted
/// SubmitSharesSuccess messages, in emission order, never decrease.
pub proof fn lemma_ack_seq_monotone(t: Translator, i: int, j: int)
    requires
        t.wf(),
        0 <= i <= j < t.acked_history@.len(),
    ensures
        t.acked_history@[i] <= t.acked_history@[j],
{
}

/// Copies a vector of 256-bit hashes.
fn clone_u256_vec(v: &Vec<Uint256Bytes>) -> (r: Vec<Uint256Bytes>)
    ensures
        r@.len() == v@.len(),
        forall|k: int| 0 <= k < v@.len() ==> (#[trigger] r@[k])@ == v@[k]@,
        r@.map(|k: int, u: Uint256Bytes| u@) == v@.map(|k: int, u: Uint256Bytes| u@),
{
    let n = v.len();
    let mut r: Vec<Uint256Bytes> = Vec::new();
    let mut k: usize = 0;
    while k < n
        invariant
            k <= n == v@.len(),
            r@.len() == k,
            forall|i: int| 0 <= i < k ==> (#[trigger] r@[i])@ == v@[i]@,
        decreases n - k,
    {
        let b = clone_bytes(&v[k].bytes);
        r.push(Uint256Bytes { bytes: b });
        k = k + 1;
    }
    proof {
        assert(r@.map(|k: int, u: Uint256Bytes| u@) =~= v@.map(|k: int, u: Uint256Bytes| u@));
    }
    r
}

/// Copies a byte vector.
fn clone_bytes(v: &Vec<u8>) -> (r: Vec<u8>)
    ensures
        r@ == v@,
{
    let n = v.len();
    let mut r: Vec<u8> = Vec::new();
    let mut k: usize = 0;
    while k < n
        invariant
            k <= n == v@.len(),
            r@ == v@.subrange(0, k as int),
        decreases n - k,
    {
        r.push(v[k]);
        k = k + 1;
        proof {
            assert(r@ =~= v@.subrange(0, k as int));
        }
    }
    proof {
        assert(v@.subrange(0, n as int) =~= v@);
    }
    r
}

} // verus!
