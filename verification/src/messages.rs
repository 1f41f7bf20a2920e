//! The V2 message catalog for the base extension: one struct per message id,
//! a tagged union over them, and the per-id channel-scope flag.
//!
//! Hash rates travel on the wire as IEEE-754 single-precision values; the
//! library stores the 32-bit pattern itself (`u32`), which is byte-for-byte
//! what the wire carries, so no floating-point value ever enters the verified
//! code.

use vstd::prelude::*;

use crate::types::{
    Bytes0_32, Bytes0_64k, DeviceInfo, DeviceInfoV, Seq0_255, Str0_32, Str0_255, Uint256Bytes,
};

verus! {

/// The base extension id: all catalog messages live in extension 0.
pub const EXTENSION_BASE: u16 = 0x0000;

/// High bit of `extension_type`, set on channel-scoped frames.
pub const CHANNEL_MSG_BIT: u16 = 0x8000;

// ---------------------------------------------------------------------------
// Connection setup
// ---------------------------------------------------------------------------

/// Spec-level mirror of [`SetupConnection`].
pub ghost struct SetupConnectionV {
    pub protocol: u8,
    pub min_version: u16,
    pub max_version: u16,
    pub flags: u32,
    pub endpoint_host: Seq<u8>,
    pub endpoint_port: u16,
    pub device: DeviceInfoV,
}

/// First message of a V2 client: protocol choice, version range, feature
/// flags, the endpoint it believes it is talking to, and its device info.
#[derive(Clone, Debug, PartialEq, Eq)]
pub struct SetupConnection {
    pub protocol: u8,
    pub min_version: u16,
    pub max_version: u16,
    pub flags: u32,
    pub endpoint_host: Str0_255,
    pub endpoint_port: u16,
    pub device: DeviceInfo,
}

impl View for SetupConnection {
    type V = SetupConnectionV;

    open spec fn view(&self) -> SetupConnectionV {
        SetupConnectionV {
            protocol: self.protocol,
            min_version: self.min_version,
            max_version: self.max_version,
            flags: self.flags,
            endpoint_host: self.endpoint_host@,
            endpoint_port: self.endpoint_port,
            device: self.device@,
        }
    }
}

impl SetupConnection {
    pub open spec fn wf(&self) -> bool {
        self.endpoint_host.wf() && self.device.wf()
    }
}

/// Positive reply to [`SetupConnection`].
#[derive(Clone, Copy, Debug, PartialEq, Eq, Structural)]
pub struct SetupConnectionSuccess {
    pub used_version: u16,
    pub flags: u32,
}

/// Negative reply to [`SetupConnection`]; the connection closes after it.
#[derive(Clone, Debug, PartialEq, Eq)]
pub struct SetupConnectionError {
    pub flags: u32,
    pub code: Str0_255,
}

/// Spec-level mirror of [`SetupConnectionError`].
pub ghost struct SetupConnectionErrorV {
    pub flags: u32,
    pub code: Seq<u8>,
}

impl View for SetupConnectionError {
    type V = SetupConnectionErrorV;

    open spec fn view(&self) -> SetupConnectionErrorV {
        SetupConnectionErrorV { flags: self.flags, code: self.code@ }
    }
}

impl SetupConnectionError {
    pub open spec fn wf(&self) -> bool {
        self.code.wf()
    }
}

/// Tells a client that one of its channels now terminates elsewhere.
#[derive(Clone, Copy, Debug, PartialEq, Eq, Structural)]
pub struct ChannelEndpointChanged {
    pub channel_id: u32,
}

// ---------------------------------------------------------------------------
// Channel opening
// ---------------------------------------------------------------------------

/// Spec-level mirror of [`OpenStandardMiningChannel`].
pub ghost struct OpenStandardMiningChannelV {
    pub req_id: u32,
    pub user: Seq<u8>,
    pub nominal_hashrate: u32,
    pub max_target: Seq<u8>,
}

/// Client request for a standard mining channel.  `nominal_hashrate` is the
/// IEEE-754 bit pattern of the advertised hash rate.
#[derive(Clone, Debug, PartialEq, Eq)]
pub struct OpenStandardMiningChannel {
    pub req_id: u32,
    pub user: Str0_255,
    pub nominal_hashrate: u32,
    pub max_target: Uint256Bytes,
}

impl View for OpenStandardMiningChannel {
    type V = OpenStandardMiningChannelV;

    open spec fn view(&self) -> OpenStandardMiningChannelV {
        OpenStandardMiningChannelV {
            req_id: self.req_id,
            user: self.user@,
            nominal_hashrate: self.nominal_hashrate,
            max_target: self.max_target@,
        }
    }
}

impl OpenStandardMiningChannel {
    pub open spec fn wf(&self) -> bool {
        self.user.wf() && self.max_target.wf()
    }
}

/// Spec-level mirror of [`OpenStandardMiningChannelSuccess`].
pub ghost struct OpenStandardMiningChannelSuccessV {
    pub req_id: u32,
    pub channel_id: u32,
    pub target: Seq<u8>,
    pub extranonce_prefix: Seq<u8>,
    pub group_channel_id: u32,
}

/// Positive reply to [`OpenStandardMiningChannel`]: the fresh channel id, the
/// initial target and the server-assigned extranonce prefix.
#[derive(Clone, Debug, PartialEq, Eq)]
pub struct OpenStandardMiningChannelSuccess {
    pub req_id: u32,
    pub channel_id: u32,
    pub target: Uint256Bytes,
    pub extranonce_prefix: Bytes0_32,
    pub group_channel_id: u32,
}

impl View for OpenStandardMiningChannelSuccess {
    type V = OpenStandardMiningChannelSuccessV;

    open spec fn view(&self) -> OpenStandardMiningChannelSuccessV {
        OpenStandardMiningChannelSuccessV {
            req_id: self.req_id,
            channel_id: self.channel_id,
            target: self.target@,
            extranonce_prefix: self.extranonce_prefix@,
            group_channel_id: self.group_channel_id,
        }
    }
}

impl OpenStandardMiningChannelSuccess {
    pub open spec fn wf(&self) -> bool {
        self.target.wf() && self.extranonce_prefix.wf()
    }
}

/// Spec-level mirror of [`OpenMiningChannelError`].
pub ghost struct OpenMiningChannelErrorV {
    pub req_id: u32,
    pub code: Seq<u8>,
}

/// Negative reply to a channel-open request.
#[derive(Clone, Debug, PartialEq, Eq)]
pub struct OpenMiningChannelError {
    pub req_id: u32,
    pub code: Str0_32,
}

impl View for OpenMiningChannelError {
    type V = OpenMiningChannelErrorV;

    open spec fn view(&self) -> OpenMiningChannelErrorV {
        OpenMiningChannelErrorV { req_id: self.req_id, code: self.code@ }
    }
}

impl OpenMiningChannelError {
    pub open spec fn wf(&self) -> bool {
        self.code.wf()
    }
}

// ---------------------------------------------------------------------------
// Channel maintenance
// ---------------------------------------------------------------------------

/// Spec-level mirror of [`UpdateChannel`].
pub ghost struct UpdateChannelV {
    pub channel_id: u32,
    pub nominal_hash_rate: u32,
    pub maximum_target: Seq<u8>,
}

/// Client update of a channel's hash rate and target bound.
/// `nominal_hash_rate` is the IEEE-754 bit pattern of the rate.
#[derive(Clone, Debug, PartialEq, Eq)]
pub struct UpdateChannel {
    pub channel_id: u32,
    pub nominal_hash_rate: u32,
    pub maximum_target: Uint256Bytes,
}

impl View for UpdateChannel {
    type V = UpdateChannelV;

    open spec fn view(&self) -> UpdateChannelV {
        UpdateChannelV {
            channel_id: self.channel_id,
            nominal_hash_rate: self.nominal_hash_rate,
            maximum_target: self.maximum_target@,
        }
    }
}

impl UpdateChannel {
    pub open spec fn wf(&self) -> bool {
        self.maximum_target.wf()
    }
}

/// Spec-level mirror of [`UpdateChannelError`].
pub ghost struct UpdateChannelErrorV {
    pub channel_id: u32,
    pub error_code: Seq<u8>,
}

/// Negative reply to [`UpdateChannel`].
#[derive(Clone, Debug, PartialEq, Eq)]
pub struct UpdateChannelError {
    pub channel_id: u32,
    pub error_code: Str0_32,
}

impl View for UpdateChannelError {
    type V = UpdateChannelErrorV;

    open spec fn view(&self) -> UpdateChannelErrorV {
        UpdateChannelErrorV { channel_id: self.channel_id, error_code: self.error_code@ }
    }
}

impl UpdateChannelError {
    pub open spec fn wf(&self) -> bool {
        self.error_code.wf()
    }
}

/// Spec-level mirror of [`CloseChannel`].
pub ghost struct CloseChannelV {
    pub channel_id: u32,
    pub reason_code: Seq<u8>,
}

/// Closes one channel; the connection itself stays up.
#[derive(Clone, Debug, PartialEq, Eq)]
pub struct CloseChannel {
    pub channel_id: u32,
    pub reason_code: Str0_32,
}

impl View for CloseChannel {
    type V = CloseChannelV;

    open spec fn view(&self) -> CloseChannelV {
        CloseChannelV { channel_id: self.channel_id, reason_code: self.reason_code@ }
    }
}

impl CloseChannel {
    pub open spec fn wf(&self) -> bool {
        self.reason_code.wf()
    }
}

// ---------------------------------------------------------------------------
// Share submission
// ---------------------------------------------------------------------------

/// A standard share: solved nonce and timestamp for one job on one channel.
#[derive(Clone, Copy, Debug, PartialEq, Eq, Structural)]
pub struct SubmitSharesStandard {
    pub channel_id: u32,
    pub seq_num: u32,
    pub job_id: u32,
    pub nonce: u32,
    pub ntime: u32,
    pub version: u32,
}

/// Acknowledges a run of accepted shares up to `last_seq_num`.
#[derive(Clone, Copy, Debug, PartialEq, Eq, Structural)]
pub struct SubmitSharesSuccess {
    pub channel_id: u32,
    pub last_seq_num: u32,
    pub new_submits_accepted_count: u32,
    pub new_shares_sum: u32,
}

/// Spec-level mirror of [`SubmitSharesError`].
pub ghost struct SubmitSharesErrorV {
    pub channel_id: u32,
    pub seq_num: u32,
    pub code: Seq<u8>,
}

/// Rejects one submitted share.
#[derive(Clone, Debug, PartialEq, Eq)]
pub struct SubmitSharesError {
    pub channel_id: u32,
    pub seq_num: u32,
    pub code: Str0_32,
}

impl View for SubmitSharesError {
    type V = SubmitSharesErrorV;

    open spec fn view(&self) -> SubmitSharesErrorV {
        SubmitSharesErrorV {
            channel_id: self.channel_id,
            seq_num: self.seq_num,
            code: self.code@,
        }
    }
}

impl SubmitSharesError {
    pub open spec fn wf(&self) -> bool {
        self.code.wf()
    }
}

// ---------------------------------------------------------------------------
// Jobs
// ---------------------------------------------------------------------------

/// Spec-level mirror of [`NewMiningJob`].
pub ghost struct NewMiningJobV {
    pub channel_id: u32,
    pub job_id: u32,
    pub future_job: bool,
    pub version: u32,
    pub merkle_root: Seq<u8>,
}

/// A standard job: fully assembled merkle root.
#[derive(Clone, Debug, PartialEq, Eq)]
pub struct NewMiningJob {
    pub channel_id: u32,
    pub job_id: u32,
    pub future_job: bool,
    pub version: u32,
    pub merkle_root: Uint256Bytes,
}

impl View for NewMiningJob {
    type V = NewMiningJobV;

    open spec fn view(&self) -> NewMiningJobV {
        NewMiningJobV {
            channel_id: self.channel_id,
            job_id: self.job_id,
            future_job: self.future_job,
            version: self.version,
            merkle_root: self.merkle_root@,
        }
    }
}

impl NewMiningJob {
    pub open spec fn wf(&self) -> bool {
        self.merkle_root.wf()
    }
}

/// Spec-level mirror of [`NewExtendedMiningJob`].
pub ghost struct NewExtendedMiningJobV {
    pub channel_id: u32,
    pub job_id: u32,
    pub future_job: bool,
    pub version: u32,
    pub version_rolling_allowed: bool,
    pub merkle_path: Seq<Seq<u8>>,
    pub coinbase_tx_prefix: Seq<u8>,
    pub coinbase_tx_suffix: Seq<u8>,
}

/// An extended job: merkle path plus split coinbase, so the miner can roll
/// its extranonce.
#[derive(Clone, Debug, PartialEq, Eq)]
pub struct NewExtendedMiningJob {
    pub channel_id: u32,
    pub job_id: u32,
    pub future_job: bool,
    pub version: u32,
    pub version_rolling_allowed: bool,
    pub merkle_path: Seq0_255<Uint256Bytes>,
    pub coinbase_tx_prefix: Bytes0_64k,
    pub coinbase_tx_suffix: Bytes0_64k,
}

impl View for NewExtendedMiningJob {
    type V = NewExtendedMiningJobV;

    open spec fn view(&self) -> NewExtendedMiningJobV {
        NewExtendedMiningJobV {
            channel_id: self.channel_id,
            job_id: self.job_id,
            future_job: self.future_job,
            version: self.version,
            version_rolling_allowed: self.version_rolling_allowed,
            merkle_path: self.merkle_path@,
            coinbase_tx_prefix: self.coinbase_tx_prefix@,
            coinbase_tx_suffix: self.coinbase_tx_suffix@,
        }
    }
}

impl NewExtendedMiningJob {
    pub open spec fn wf(&self) -> bool {
        self.merkle_path.wf() && (forall|k: int|
            0 <= k < self.merkle_path@.len() ==> (#[trigger] self.merkle_path@[k]).len() == 32)
            && self.coinbase_tx_prefix.wf() && self.coinbase_tx_suffix.wf()
    }
}

/// Spec-level mirror of [`SetNewPrevHash`].
pub ghost struct SetNewPrevHashV {
    pub channel_id: u32,
    pub job_id: u32,
    pub prev_hash: Seq<u8>,
    pub min_ntime: u32,
    pub nbits: u32,
}

/// Activates `job_id` on the channel and invalidates every earlier job.
#[derive(Clone, Debug, PartialEq, Eq)]
pub struct SetNewPrevHash {
    pub channel_id: u32,
    pub job_id: u32,
    pub prev_hash: Uint256Bytes,
    pub min_ntime: u32,
    pub nbits: u32,
}

impl View for SetNewPrevHash {
    type V = SetNewPrevHashV;

    open spec fn view(&self) -> SetNewPrevHashV {
        SetNewPrevHashV {
            channel_id: self.channel_id,
            job_id: self.job_id,
            prev_hash: self.prev_hash@,
            min_ntime: self.min_ntime,
            nbits: self.nbits,
        }
    }
}

impl SetNewPrevHash {
    pub open spec fn wf(&self) -> bool {
        self.prev_hash.wf()
    }
}

/// Spec-level mirror of [`SetTarget`].
pub ghost struct SetTargetV {
    pub channel_id: u32,
    pub max_target: Seq<u8>,
}

/// Sets the channel's share target.
#[derive(Clone, Debug, PartialEq, Eq)]
pub struct SetTarget {
    pub channel_id: u32,
    pub max_target: Uint256Bytes,
}

impl View for SetTarget {
    type V = SetTargetV;

    open spec fn view(&self) -> SetTargetV {
        SetTargetV { channel_id: self.channel_id, max_target: self.max_target@ }
    }
}

impl SetTarget {
    pub open spec fn wf(&self) -> bool {
        self.max_target.wf()
    }
}

/// Spec-level mirror of [`Reconnect`].
pub ghost struct ReconnectV {
    pub new_host: Seq<u8>,
    pub new_port: u16,
}

/// Asks the client to reconnect elsewhere.
#[derive(Clone, Debug, PartialEq, Eq)]
pub struct Reconnect {
    pub new_host: Str0_255,
    pub new_port: u16,
}

impl View for Reconnect {
    type V = ReconnectV;

    open spec fn view(&self) -> ReconnectV {
        ReconnectV { new_host: self.new_host@, new_port: self.new_port }
    }
}

impl Reconnect {
    pub open spec fn wf(&self) -> bool {
        self.new_host.wf()
    }
}

// ---------------------------------------------------------------------------
// Placeholders without a defined field layout
// ---------------------------------------------------------------------------

/// Custom-job message; its field layout is not defined yet, so it has no
/// codec entry.
#[derive(Clone, Copy, Debug, PartialEq, Eq, Structural)]
pub struct SetCustomMiningJob;

/// Reply to [`SetCustomMiningJob`]; layout not defined yet.
#[derive(Clone, Copy, Debug, PartialEq, Eq, Structural)]
pub struct SetCustomMiningJobSuccess;

/// Group-channel assignment; layout not defined yet.
#[derive(Clone, Copy, Debug, PartialEq, Eq, Structural)]
pub struct SetGroupChannel;

// ---------------------------------------------------------------------------
// The tagged union
// ---------------------------------------------------------------------------

/// Spec-level mirror of [`Message`].
pub ghost enum MessageV {
    SetupConnection(SetupConnectionV),
    SetupConnectionSuccess(SetupConnectionSuccess),
    SetupConnectionError(SetupConnectionErrorV),
    ChannelEndpointChanged(ChannelEndpointChanged),
    OpenStandardMiningChannel(OpenStandardMiningChannelV),
    OpenStandardMiningChannelSuccess(OpenStandardMiningChannelSuccessV),
    OpenMiningChannelError(OpenMiningChannelErrorV),
    UpdateChannel(UpdateChannelV),
    UpdateChannelError(UpdateChannelErrorV),
    CloseChannel(CloseChannelV),
    SubmitSharesStandard(SubmitSharesStandard),
    SubmitSharesSuccess(SubmitSharesSuccess),
    SubmitSharesError(SubmitSharesErrorV),
    NewMiningJob(NewMiningJobV),
    NewExtendedMiningJob(NewExtendedMiningJobV),
    SetNewPrevHash(SetNewPrevHashV),
    SetTarget(SetTargetV),
    Reconnect(ReconnectV),
}

/// Every base-extension message with a defined layout.
#[derive(Clone, Debug, PartialEq, Eq)]
pub enum Message {
    SetupConnection(SetupConnection),
    SetupConnectionSuccess(SetupConnectionSuccess),
    SetupConnectionError(SetupConnectionError),
    ChannelEndpointChanged(ChannelEndpointChanged),
    OpenStandardMiningChannel(OpenStandardMiningChannel),
    OpenStandardMiningChannelSuccess(OpenStandardMiningChannelSuccess),
    OpenMiningChannelError(OpenMiningChannelError),
    UpdateChannel(UpdateChannel),
    UpdateChannelError(UpdateChannelError),
    CloseChannel(CloseChannel),
    SubmitSharesStandard(SubmitSharesStandard),
    SubmitSharesSuccess(SubmitSharesSuccess),
    SubmitSharesError(SubmitSharesError),
    NewMiningJob(NewMiningJob),
    NewExtendedMiningJob(NewExtendedMiningJob),
    SetNewPrevHash(SetNewPrevHash),
    SetTarget(SetTarget),
    Reconnect(Reconnect),
}

impl View for Message {
    type V = MessageV;

    open spec fn view(&self) -> MessageV {
        match self {
            Message::SetupConnection(m) => MessageV::SetupConnection(m@),
            Message::SetupConnectionSuccess(m) => MessageV::SetupConnectionSuccess(*m),
            Message::SetupConnectionError(m) => MessageV::SetupConnectionError(m@),
            Message::ChannelEndpointChanged(m) => MessageV::ChannelEndpointChanged(*m),
            Message::OpenStandardMiningChannel(m) => MessageV::OpenStandardMiningChannel(m@),
            Message::OpenStandardMiningChannelSuccess(m) => MessageV::OpenStandardMiningChannelSuccess(m@),
            Message::OpenMiningChannelError(m) => MessageV::OpenMiningChannelError(m@),
            Message::UpdateChannel(m) => MessageV::UpdateChannel(m@),
            Message::UpdateChannelError(m) => MessageV::UpdateChannelError(m@),
            Message::CloseChannel(m) => MessageV::CloseChannel(m@),
            Message::SubmitSharesStandard(m) => MessageV::SubmitSharesStandard(*m),
            Message::SubmitSharesSuccess(m) => MessageV::SubmitSharesSuccess(*m),
            Message::SubmitSharesError(m) => MessageV::SubmitSharesError(m@),
            Message::NewMiningJob(m) => MessageV::NewMiningJob(m@),
            Message::NewExtendedMiningJob(m) => MessageV::NewExtendedMiningJob(m@),
            Message::SetNewPrevHash(m) => MessageV::SetNewPrevHash(m@),
            Message::SetTarget(m) => MessageV::SetTarget(m@),
            Message::Reconnect(m) => MessageV::Reconnect(m@),
        }
    }
}

impl Message {
    /// Field bounds of every variant hold.
    pub open spec fn wf(&self) -> bool {
        match self {
            Message::SetupConnection(m) => m.wf(),
            Message::SetupConnectionSuccess(_) => true,
            Message::SetupConnectionError(m) => m.wf(),
            Message::ChannelEndpointChanged(_) => true,
            Message::OpenStandardMiningChannel(m) => m.wf(),
            Message::OpenStandardMiningChannelSuccess(m) => m.wf(),
            Message::OpenMiningChannelError(m) => m.wf(),
            Message::UpdateChannel(m) => m.wf(),
            Message::UpdateChannelError(m) => m.wf(),
            Message::CloseChannel(m) => m.wf(),
            Message::SubmitSharesStandard(_) => true,
            Message::SubmitSharesSuccess(_) => true,
            Message::SubmitSharesError(m) => m.wf(),
            Message::NewMiningJob(m) => m.wf(),
            Message::NewExtendedMiningJob(m) => m.wf(),
            Message::SetNewPrevHash(m) => m.wf(),
            Message::SetTarget(m) => m.wf(),
            Message::Reconnect(m) => m.wf(),
        }
    }

    /// Runtime test of `wf`, for callers outside the verified crate.
    pub fn check_wf(&self) -> (r: bool)
        ensures
            r == self.wf(),
    {
        match self {
            Message::SetupConnection(m) => m.endpoint_host.check_wf() && m.device.check_wf(),
            Message::SetupConnectionSuccess(_) => true,
            Message::SetupConnectionError(m) => m.code.check_wf(),
            Message::ChannelEndpointChanged(_) => true,
            Message::OpenStandardMiningChannel(m) => m.user.check_wf() && m.max_target.check_wf(),
            Message::OpenStandardMiningChannelSuccess(m) => m.target.check_wf()
                && m.extranonce_prefix.check_wf(),
            Message::OpenMiningChannelError(m) => m.code.check_wf(),
            Message::UpdateChannel(m) => m.maximum_target.check_wf(),
            Message::UpdateChannelError(m) => m.error_code.check_wf(),
            Message::CloseChannel(m) => m.reason_code.check_wf(),
            Message::SubmitSharesStandard(_) => true,
            Message::SubmitSharesSuccess(_) => true,
            Message::SubmitSharesError(m) => m.code.check_wf(),
            Message::NewMiningJob(m) => m.merkle_root.check_wf(),
            Message::NewExtendedMiningJob(m) => m.merkle_path.check_entries()
                && m.coinbase_tx_prefix.check_wf() && m.coinbase_tx_suffix.check_wf(),
            Message::SetNewPrevHash(m) => m.prev_hash.check_wf(),
            Message::SetTarget(m) => m.max_target.check_wf(),
            Message::Reconnect(m) => m.new_host.check_wf(),
        }
    }

    /// The message type id carried in byte 2 of the frame header.
    pub fn type_id(&self) -> (r: u8)
        ensures
            r == msg_type_id(self@),
    {
        match self {
            Message::SetupConnection(_) => 0x00,
            Message::SetupConnectionSuccess(_) => 0x01,
            Message::SetupConnectionError(_) => 0x02,
            Message::ChannelEndpointChanged(_) => 0x03,
            Message::OpenStandardMiningChannel(_) => 0x10,
            Message::OpenStandardMiningChannelSuccess(_) => 0x11,
            Message::OpenMiningChannelError(_) => 0x12,
            Message::UpdateChannel(_) => 0x16,
            Message::UpdateChannelError(_) => 0x17,
            Message::CloseChannel(_) => 0x18,
            Message::SubmitSharesStandard(_) => 0x1a,
            Message::SubmitSharesSuccess(_) => 0x1c,
            Message::SubmitSharesError(_) => 0x1d,
            Message::NewMiningJob(_) => 0x1e,
            Message::NewExtendedMiningJob(_) => 0x1f,
            Message::SetNewPrevHash(_) => 0x20,
            Message::SetTarget(_) => 0x21,
            Message::Reconnect(_) => 0x25,
        }
    }

    /// Whether this message is channel-scoped (sets the high bit of
    /// `extension_type` on the wire).
    pub fn channel_msg(&self) -> (r: bool)
        ensures
            r == is_channel_msg(self@),
    {
        match self {
            Message::UpdateChannel(_) => true,
            Message::UpdateChannelError(_) => true,
            Message::CloseChannel(_) => true,
            Message::SubmitSharesStandard(_) => true,
            Message::SubmitSharesSuccess(_) => true,
            Message::SubmitSharesError(_) => true,
            Message::NewMiningJob(_) => true,
            Message::NewExtendedMiningJob(_) => true,
            Message::SetNewPrevHash(_) => true,
            Message::SetTarget(_) => true,
            _ => false,
        }
    }
}

/// The wire type id of each catalog message.
pub open spec fn msg_type_id(m: MessageV) -> u8 {
    match m {
        MessageV::SetupConnection(_) => 0x00,
        MessageV::SetupConnectionSuccess(_) => 0x01,
        MessageV::SetupConnectionError(_) => 0x02,
        MessageV::ChannelEndpointChanged(_) => 0x03,
        MessageV::OpenStandardMiningChannel(_) => 0x10,
        MessageV::OpenStandardMiningChannelSuccess(_) => 0x11,
        MessageV::OpenMiningChannelError(_) => 0x12,
        MessageV::UpdateChannel(_) => 0x16,
        MessageV::UpdateChannelError(_) => 0x17,
        MessageV::CloseChannel(_) => 0x18,
        MessageV::SubmitSharesStandard(_) => 0x1a,
        MessageV::SubmitSharesSuccess(_) => 0x1c,
        MessageV::SubmitSharesError(_) => 0x1d,
        MessageV::NewMiningJob(_) => 0x1e,
        MessageV::NewExtendedMiningJob(_) => 0x1f,
        MessageV::SetNewPrevHash(_) => 0x20,
        MessageV::SetTarget(_) => 0x21,
        MessageV::Reconnect(_) => 0x25,
    }
}

/// The channel-scope column of the catalog: channel-scoped messages carry the
/// high bit of `extension_type` on the wire.
pub open spec fn is_channel_msg(m: MessageV) -> bool {
    match m {
        MessageV::UpdateChannel(_) => true,
        MessageV::UpdateChannelError(_) => true,
        MessageV::CloseChannel(_) => true,
        MessageV::SubmitSharesStandard(_) => true,
        MessageV::SubmitSharesSuccess(_) => true,
        MessageV::SubmitSharesError(_) => true,
        MessageV::NewMiningJob(_) => true,
        MessageV::NewExtendedMiningJob(_) => true,
        MessageV::SetNewPrevHash(_) => true,
        MessageV::SetTarget(_) => true,
        _ => false,
    }
}

} // verus!
