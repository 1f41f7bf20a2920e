//! The V2 framing codec: spec-level serializers and parsers for every payload
//! field kind and every catalog message, exec encode/decode proved exact
//! against them, and the round-trip laws.
//!
//! A frame is a 6-byte header — `extension_type` (u16, high bit = channel
//! flag), `msg_type` (u8), `msg_length` (u24) — followed by exactly
//! `msg_length` payload bytes, all little-endian.

use vstd::prelude::*;

use crate::messages::{
    ChannelEndpointChanged, CloseChannel, CloseChannelV, Message, MessageV, NewExtendedMiningJob,
    NewExtendedMiningJobV, NewMiningJob, NewMiningJobV, OpenMiningChannelError,
    OpenMiningChannelErrorV, OpenStandardMiningChannel, OpenStandardMiningChannelSuccess,
    OpenStandardMiningChannelSuccessV, OpenStandardMiningChannelV, Reconnect, ReconnectV,
    SetNewPrevHash, SetNewPrevHashV, SetTarget, SetTargetV, SetupConnection, SetupConnectionError,
    SetupConnectionErrorV, SetupConnectionSuccess, SetupConnectionV, SubmitSharesError,
    SubmitSharesErrorV, SubmitSharesStandard, SubmitSharesSuccess, UpdateChannel,
    UpdateChannelError, UpdateChannelErrorV, UpdateChannelV, is_channel_msg, msg_type_id,
    CHANNEL_MSG_BIT, EXTENSION_BASE,
};
use crate::types::{is_utf8, check_utf8, Bytes0_32, Bytes0_64k, DeviceInfo, DeviceInfoV, Seq0_255,
    Str0_32, Str0_255, Uint256Bytes};
use crate::wire::{le16_at, le24_at, le32_at, ser_bool, ser_u16, ser_u24, ser_u32, ser_u8,
    read_u16, read_u24, read_u32, read_bytes, write_u16, write_u24, write_u32, write_u8,
    write_bool, write_bytes};

verus! {

/// Largest accepted `msg_length`: a 16 MiB frame minus the 6-byte header.
pub const MAX_FRAME_SIZE: u32 = 0xFFFFFA;

// ---------------------------------------------------------------------------
// Spec serializers for variable-length fields
// ---------------------------------------------------------------------------

/// A 256-bit integer: its 32 bytes as they stand.
pub open spec fn ser_u256(s: Seq<u8>) -> Seq<u8> {
    s
}

/// A blob with a 1-byte length prefix (strings and short byte fields).
pub open spec fn ser_b1(s: Seq<u8>) -> Seq<u8> {
    seq![s.len() as u8] + s
}

/// A blob with a 2-byte little-endian length prefix.
pub open spec fn ser_b2(s: Seq<u8>) -> Seq<u8> {
    ser_u16(s.len() as u16) + s
}

/// Concatenation of 32-byte hashes.
pub open spec fn concat_u256(v: Seq<Seq<u8>>) -> Seq<u8>
    decreases v.len(),
{
    if v.len() == 0 {
        Seq::empty()
    } else {
        v.first() + concat_u256(v.drop_first())
    }
}

/// A hash list with a 1-byte count prefix.
pub open spec fn ser_seq_u256(v: Seq<Seq<u8>>) -> Seq<u8> {
    seq![v.len() as u8] + concat_u256(v)
}

// ---------------------------------------------------------------------------
// Spec parsers: each consumes a prefix and returns the rest
// ---------------------------------------------------------------------------

pub open spec fn p_u8(s: Seq<u8>) -> Option<(u8, Seq<u8>)> {
    if s.len() >= 1 {
        Some((s[0], s.skip(1)))
    } else {
        None
    }
}

/// Booleans are strict: only 0 and 1 decode.
pub open spec fn p_bool(s: Seq<u8>) -> Option<(bool, Seq<u8>)> {
    if s.len() >= 1 && (s[0] == 0 || s[0] == 1) {
        Some((s[0] == 1, s.skip(1)))
    } else {
        None
    }
}

pub open spec fn p_u16(s: Seq<u8>) -> Option<(u16, Seq<u8>)> {
    if s.len() >= 2 {
        Some((le16_at(s, 0) as u16, s.skip(2)))
    } else {
        None
    }
}

pub open spec fn p_u32(s: Seq<u8>) -> Option<(u32, Seq<u8>)> {
    if s.len() >= 4 {
        Some((le32_at(s, 0) as u32, s.skip(4)))
    } else {
        None
    }
}

pub open spec fn p_u256(s: Seq<u8>) -> Option<(Seq<u8>, Seq<u8>)> {
    if s.len() >= 32 {
        Some((s.take(32), s.skip(32)))
    } else {
        None
    }
}

/// 1-byte length prefix, length at most `max`.
pub open spec fn p_b1(s: Seq<u8>, max: int) -> Option<(Seq<u8>, Seq<u8>)> {
    if s.len() >= 1 && s[0] <= max && s.len() >= 1 + s[0] {
        Some((s.subrange(1, 1 + s[0]), s.skip(1 + s[0])))
    } else {
        None
    }
}

/// A string field: 1-byte length prefix, bound `max`, body valid UTF-8.
pub open spec fn p_str(s: Seq<u8>, max: int) -> Option<(Seq<u8>, Seq<u8>)> {
    match p_b1(s, max) {
        Some((body, rest)) => if is_utf8(body) {
            Some((body, rest))
        } else {
            None
        },
        None => None,
    }
}

/// 2-byte length prefix.
pub open spec fn p_b2(s: Seq<u8>) -> Option<(Seq<u8>, Seq<u8>)> {
    if s.len() >= 2 && s.len() >= 2 + le16_at(s, 0) {
        Some((s.subrange(2, 2 + le16_at(s, 0)), s.skip(2 + le16_at(s, 0))))
    } else {
        None
    }
}

/// A hash list: 1-byte count, then 32 bytes per entry.
pub open spec fn p_seq_u256(s: Seq<u8>) -> Option<(Seq<Seq<u8>>, Seq<u8>)> {
    if s.len() >= 1 && s.len() >= 1 + 32 * s[0] {
        Some((
            Seq::new(s[0] as nat, |k: int| s.subrange(1 + 32 * k, 1 + 32 * k + 32)),
            s.skip(1 + 32 * s[0]),
        ))
    } else {
        None
    }
}

// ---------------------------------------------------------------------------
// Primitive round-trip lemmas: parsing what was serialized gives the value
// ---------------------------------------------------------------------------

pub proof fn lemma_p_u8(v: u8, rest: Seq<u8>)
    ensures
        p_u8(ser_u8(v) + rest) == Some((v, rest)),
{
    assert((ser_u8(v) + rest).skip(1) =~= rest);
}

pub proof fn lemma_p_bool(b: bool, rest: Seq<u8>)
    ensures
        p_bool(ser_bool(b) + rest) == Some((b, rest)),
{
    assert((ser_bool(b) + rest).skip(1) =~= rest);
}

pub proof fn lemma_p_u16(v: u16, rest: Seq<u8>)
    ensures
        p_u16(ser_u16(v) + rest) == Some((v, rest)),
{
    let s = ser_u16(v) + rest;
    assert(le16_at(s, 0) == v);
    assert(s.skip(2) =~= rest);
}

pub proof fn lemma_p_u32(v: u32, rest: Seq<u8>)
    ensures
        p_u32(ser_u32(v) + rest) == Some((v, rest)),
{
    let s = ser_u32(v) + rest;
    assert(le32_at(s, 0) == v);
    assert(s.skip(4) =~= rest);
}

pub proof fn lemma_p_u256(v: Seq<u8>, rest: Seq<u8>)
    requires
        v.len() == 32,
    ensures
        p_u256(v + rest) == Some((v, rest)),
{
    assert((v + rest).take(32) =~= v);
    assert((v + rest).skip(32) =~= rest);
}

pub proof fn lemma_p_b1(v: Seq<u8>, rest: Seq<u8>, max: int)
    requires
        v.len() <= max,
        max <= 255,
    ensures
        p_b1(ser_b1(v) + rest, max) == Some((v, rest)),
{
    let s = ser_b1(v) + rest;
    assert(s[0] == v.len() as u8);
    assert(s.subrange(1, 1 + v.len() as int) =~= v);
    assert(s.skip(1 + v.len() as int) =~= rest);
}

pub proof fn lemma_p_str(v: Seq<u8>, rest: Seq<u8>, max: int)
    requires
        v.len() <= max,
        max <= 255,
        is_utf8(v),
    ensures
        p_str(ser_b1(v) + rest, max) == Some((v, rest)),
{
    lemma_p_b1(v, rest, max);
}

pub proof fn lemma_p_b2(v: Seq<u8>, rest: Seq<u8>)
    requires
        v.len() <= 65535,
    ensures
        p_b2(ser_b2(v) + rest) == Some((v, rest)),
{
    let s = ser_b2(v) + rest;
    assert(le16_at(s, 0) == v.len());
    assert(s.subrange(2, 2 + v.len() as int) =~= v);
    assert(s.skip(2 + v.len() as int) =~= rest);
}

/// Length and byte-level layout of a concatenation of 32-byte hashes.
pub proof fn lemma_concat_u256_index(v: Seq<Seq<u8>>)
    requires
        forall|k: int| 0 <= k < v.len() ==> (#[trigger] v[k]).len() == 32,
    ensures
        concat_u256(v).len() == 32 * v.len(),
        forall|k: int|
            0 <= k < v.len() ==> concat_u256(v).subrange(32 * k, 32 * k + 32) == #[trigger] v[k],
    decreases v.len(),
{
    if v.len() > 0 {
        lemma_concat_u256_index(v.drop_first());
        assert forall|k: int|
            0 <= k < v.len() implies concat_u256(v).subrange(32 * k, 32 * k + 32) == #[trigger] v[
        k] by {
            if k == 0 {
                assert(concat_u256(v).subrange(0, 32) =~= v.first());
            } else {
                assert(concat_u256(v).subrange(32 * k, 32 * k + 32) =~= concat_u256(
                    v.drop_first(),
                ).subrange(32 * (k - 1), 32 * (k - 1) + 32));
                assert(v.drop_first()[k - 1] == v[k]);
            }
        }
    }
}

pub proof fn lemma_p_seq_u256(v: Seq<Seq<u8>>, rest: Seq<u8>)
    requires
        v.len() <= 255,
        forall|k: int| 0 <= k < v.len() ==> (#[trigger] v[k]).len() == 32,
    ensures
        p_seq_u256(ser_seq_u256(v) + rest) == Some((v, rest)),
{
    lemma_concat_u256_index(v);
    let s = ser_seq_u256(v) + rest;
    assert(s[0] == v.len() as u8);
    assert(s.len() >= 1 + 32 * s[0]);
    let parsed = Seq::new(s[0] as nat, |k: int| s.subrange(1 + 32 * k, 1 + 32 * k + 32));
    assert forall|k: int| 0 <= k < v.len() implies parsed[k] == v[k] by {
        assert(s.subrange(1 + 32 * k, 1 + 32 * k + 32) =~= concat_u256(v).subrange(
            32 * k,
            32 * k + 32,
        ));
    }
    assert(parsed =~= v);
    assert(s.skip(1 + 32 * s[0]) =~= rest);
}

// ---------------------------------------------------------------------------
// Per-message well-formedness, serializers, parsers, round-trip lemmas
// ---------------------------------------------------------------------------

/// Field bounds of a spec-level `SetupConnection`.
pub open spec fn wf_setup_connection(m: SetupConnectionV) -> bool {
    m.endpoint_host.len() <= 255 && is_utf8(m.endpoint_host) && m.device.vendor.len() <= 255 && is_utf8(m.device.vendor) && m.device.hw_rev.len() <= 255 && is_utf8(m.device.hw_rev) && m.device.fw_ver.len() <= 255 && is_utf8(m.device.fw_ver) && m.device.dev_id.len() <= 255 && is_utf8(m.device.dev_id)
}

/// Payload bytes of `SetupConnection`, fields in declaration order.
pub open spec fn ser_setup_connection(m: SetupConnectionV) -> Seq<u8> {
    ser_u8(m.protocol) + ser_u16(m.min_version) + ser_u16(m.max_version) + ser_u32(m.flags) + ser_b1(m.endpoint_host) + ser_u16(m.endpoint_port) + ser_b1(m.device.vendor) + ser_b1(m.device.hw_rev) + ser_b1(m.device.fw_ver) + ser_b1(m.device.dev_id)
}

/// Parses a `SetupConnection` payload, returning the unconsumed rest.
pub open spec fn parse_setup_connection(s: Seq<u8>) -> Option<(SetupConnectionV, Seq<u8>)> {
    match p_u8(s) {
        None => None,
        Some((protocol, s1)) =>
        match p_u16(s1) {
            None => None,
            Some((min_version, s2)) =>
            match p_u16(s2) {
                None => None,
                Some((max_version, s3)) =>
                match p_u32(s3) {
                    None => None,
                    Some((flags, s4)) =>
                    match p_str(s4, 255) {
                        None => None,
                        Some((endpoint_host, s5)) =>
                        match p_u16(s5) {
                            None => None,
                            Some((endpoint_port, s6)) =>
                            match p_str(s6, 255) {
                                None => None,
                                Some((d_vendor, s7)) =>
                                match p_str(s7, 255) {
                                    None => None,
                                    Some((d_hw_rev, s8)) =>
                                    match p_str(s8, 255) {
                                        None => None,
                                        Some((d_fw_ver, s9)) =>
                                        match p_str(s9, 255) {
                                            None => None,
                                            Some((d_dev_id, s10)) => {
                                                Some((SetupConnectionV { protocol: protocol, min_version: min_version, max_version: max_version, flags: flags, endpoint_host: endpoint_host, endpoint_port: endpoint_port, device: DeviceInfoV { vendor: d_vendor, hw_rev: d_hw_rev, fw_ver: d_fw_ver, dev_id: d_dev_id } }, s10))
                                            },
                                        }
                                    }
                                }
                            }
                        }
                    }
                }
            }
        }
    }
}

/// Parsing a serialized `SetupConnection` yields it back and consumes exactly its bytes.
#[verifier::rlimit(100)]
pub proof fn lemma_rt_setup_connection(m: SetupConnectionV, rest: Seq<u8>)
    requires
        wf_setup_connection(m),
    ensures
        parse_setup_connection(ser_setup_connection(m) + rest) == Some((m, rest)),
{
    let t9 = ser_b1(m.device.dev_id) + rest;
    let t8 = ser_b1(m.device.fw_ver) + t9;
    let t7 = ser_b1(m.device.hw_rev) + t8;
    let t6 = ser_b1(m.device.vendor) + t7;
    let t5 = ser_u16(m.endpoint_port) + t6;
    let t4 = ser_b1(m.endpoint_host) + t5;
    let t3 = ser_u32(m.flags) + t4;
    let t2 = ser_u16(m.max_version) + t3;
    let t1 = ser_u16(m.min_version) + t2;
    assert(ser_setup_connection(m) + rest =~= ser_u8(m.protocol) + t1);
    lemma_p_u8(m.protocol, t1);
    lemma_p_u16(m.min_version, t2);
    lemma_p_u16(m.max_version, t3);
    lemma_p_u32(m.flags, t4);
    lemma_p_str(m.endpoint_host, t5, 255);
    lemma_p_u16(m.endpoint_port, t6);
    lemma_p_str(m.device.vendor, t7, 255);
    lemma_p_str(m.device.hw_rev, t8, 255);
    lemma_p_str(m.device.fw_ver, t9, 255);
    lemma_p_str(m.device.dev_id, rest, 255);
}

/// Field bounds of a spec-level `SetupConnectionSuccess`.
pub open spec fn wf_setup_connection_success(m: SetupConnectionSuccess) -> bool {
    true
}

/// Payload bytes of `SetupConnectionSuccess`, fields in declaration order.
pub open spec fn ser_setup_connection_success(m: SetupConnectionSuccess) -> Seq<u8> {
    ser_u16(m.used_version) + ser_u32(m.flags)
}

/// Parses a `SetupConnectionSuccess` payload, returning the unconsumed rest.
pub open spec fn parse_setup_connection_success(s: Seq<u8>) -> Option<(SetupConnectionSuccess, Seq<u8>)> {
    match p_u16(s) {
        None => None,
        Some((used_version, s1)) =>
        match p_u32(s1) {
            None => None,
            Some((flags, s2)) => {
                Some((SetupConnectionSuccess { used_version: used_version, flags: flags }, s2))
            },
        }
    }
}

/// Parsing a serialized `SetupConnectionSuccess` yields it back and consumes exactly its bytes.
pub proof fn lemma_rt_setup_connection_success(m: SetupConnectionSuccess, rest: Seq<u8>)
    requires
        wf_setup_connection_success(m),
    ensures
        parse_setup_connection_success(ser_setup_connection_success(m) + rest) == Some((m, rest)),
{
    let t1 = ser_u32(m.flags) + rest;
    assert(ser_setup_connection_success(m) + rest =~= ser_u16(m.used_version) + t1);
    lemma_p_u16(m.used_version, t1);
    lemma_p_u32(m.flags, rest);
}

/// Field bounds of a spec-level `SetupConnectionError`.
pub open spec fn wf_setup_connection_error(m: SetupConnectionErrorV) -> bool {
    m.code.len() <= 255 && is_utf8(m.code)
}

/// Payload bytes of `SetupConnectionError`, fields in declaration order.
pub open spec fn ser_setup_connection_error(m: SetupConnectionErrorV) -> Seq<u8> {
    ser_u32(m.flags) + ser_b1(m.code)
}

/// Parses a `SetupConnectionError` payload, returning the unconsumed rest.
pub open spec fn parse_setup_connection_error(s: Seq<u8>) -> Option<(SetupConnectionErrorV, Seq<u8>)> {
    match p_u32(s) {
        None => None,
        Some((flags, s1)) =>
        match p_str(s1, 255) {
            None => None,
            Some((code, s2)) => {
                Some((SetupConnectionErrorV { flags: flags, code: code }, s2))
            },
        }
    }
}

/// Parsing a serialized `SetupConnectionError` yields it back and consumes exactly its bytes.
pub proof fn lemma_rt_setup_connection_error(m: SetupConnectionErrorV, rest: Seq<u8>)
    requires
        wf_setup_connection_error(m),
    ensures
        parse_setup_connection_error(ser_setup_connection_error(m) + rest) == Some((m, rest)),
{
    let t1 = ser_b1(m.code) + rest;
    assert(ser_setup_connection_error(m) + rest =~= ser_u32(m.flags) + t1);
    lemma_p_u32(m.flags, t1);
    lemma_p_str(m.code, rest, 255);
}

/// Field bounds of a spec-level `ChannelEndpointChanged`.
pub open spec fn wf_channel_endpoint_changed(m: ChannelEndpointChanged) -> bool {
    true
}

/// Payload bytes of `ChannelEndpointChanged`, fields in declaration order.
pub open spec fn ser_channel_endpoint_changed(m: ChannelEndpointChanged) -> Seq<u8> {
    ser_u32(m.channel_id)
}

/// Parses a `ChannelEndpointChanged` payload, returning the unconsumed rest.
pub open spec fn parse_channel_endpoint_changed(s: Seq<u8>) -> Option<(ChannelEndpointChanged, Seq<u8>)> {
    match p_u32(s) {
        None => None,
        Some((channel_id, s1)) => {
            Some((ChannelEndpointChanged { channel_id: channel_id }, s1))
        },
    }
}

/// Parsing a serialized `ChannelEndpointChanged` yields it back and consumes exactly its bytes.
pub proof fn lemma_rt_channel_endpoint_changed(m: ChannelEndpointChanged, rest: Seq<u8>)
    requires
        wf_channel_endpoint_changed(m),
    ensures
        parse_channel_endpoint_changed(ser_channel_endpoint_changed(m) + rest) == Some((m, rest)),
{
    assert(ser_channel_endpoint_changed(m) + rest =~= ser_u32(m.channel_id) + rest);
    lemma_p_u32(m.channel_id, rest);
}

/// Field bounds of a spec-level `OpenStandardMiningChannel`.
pub open spec fn wf_open_standard_mining_channel(m: OpenStandardMiningChannelV) -> bool {
    m.user.len() <= 255 && is_utf8(m.user) && m.max_target.len() == 32
}

/// Payload bytes of `OpenStandardMiningChannel`, fields in declaration order.
pub open spec fn ser_open_standard_mining_channel(m: OpenStandardMiningChannelV) -> Seq<u8> {
    ser_u32(m.req_id) + ser_b1(m.user) + ser_u32(m.nominal_hashrate) + ser_u256(m.max_target)
}

/// Parses a `OpenStandardMiningChannel` payload, returning the unconsumed rest.
pub open spec fn parse_open_standard_mining_channel(s: Seq<u8>) -> Option<(OpenStandardMiningChannelV, Seq<u8>)> {
    match p_u32(s) {
        None => None,
        Some((req_id, s1)) =>
        match p_str(s1, 255) {
            None => None,
            Some((user, s2)) =>
            match p_u32(s2) {
                None => None,
                Some((nominal_hashrate, s3)) =>
                match p_u256(s3) {
                    None => None,
                    Some((max_target, s4)) => {
                        Some((OpenStandardMiningChannelV { req_id: req_id, user: user, nominal_hashrate: nominal_hashrate, max_target: max_target }, s4))
                    },
                }
            }
        }
    }
}

/// Parsing a serialized `OpenStandardMiningChannel` yields it back and consumes exactly its bytes.
pub proof fn lemma_rt_open_standard_mining_channel(m: OpenStandardMiningChannelV, rest: Seq<u8>)
    requires
        wf_open_standard_mining_channel(m),
    ensures
        parse_open_standard_mining_channel(ser_open_standard_mining_channel(m) + rest) == Some((m, rest)),
{
    let t3 = ser_u256(m.max_target) + rest;
    let t2 = ser_u32(m.nominal_hashrate) + t3;
    let t1 = ser_b1(m.user) + t2;
    assert(ser_open_standard_mining_channel(m) + rest =~= ser_u32(m.req_id) + t1);
    lemma_p_u32(m.req_id, t1);
    lemma_p_str(m.user, t2, 255);
    lemma_p_u32(m.nominal_hashrate, t3);
    lemma_p_u256(m.max_target, rest);
}

/// Field bounds of a spec-level `OpenStandardMiningChannelSuccess`.
pub open spec fn wf_open_standard_mining_channel_success(m: OpenStandardMiningChannelSuccessV) -> bool {
    m.target.len() == 32 && m.extranonce_prefix.len() <= 32
}

/// Payload bytes of `OpenStandardMiningChannelSuccess`, fields in declaration order.
pub open spec fn ser_open_standard_mining_channel_success(m: OpenStandardMiningChannelSuccessV) -> Seq<u8> {
    ser_u32(m.req_id) + ser_u32(m.channel_id) + ser_u256(m.target) + ser_b1(m.extranonce_prefix) + ser_u32(m.group_channel_id)
}

/// Parses a `OpenStandardMiningChannelSuccess` payload, returning the unconsumed rest.
pub open spec fn parse_open_standard_mining_channel_success(s: Seq<u8>) -> Option<(OpenStandardMiningChannelSuccessV, Seq<u8>)> {
    match p_u32(s) {
        None => None,
        Some((req_id, s1)) =>
        match p_u32(s1) {
            None => None,
            Some((channel_id, s2)) =>
            match p_u256(s2) {
                None => None,
                Some((target, s3)) =>
                match p_b1(s3, 32) {
                    None => None,
                    Some((extranonce_prefix, s4)) =>
                    match p_u32(s4) {
                        None => None,
                        Some((group_channel_id, s5)) => {
                            Some((OpenStandardMiningChannelSuccessV { req_id: req_id, channel_id: channel_id, target: target, extranonce_prefix: extranonce_prefix, group_channel_id: group_channel_id }, s5))
                        },
                    }
                }
            }
        }
    }
}

/// Parsing a serialized `OpenStandardMiningChannelSuccess` yields it back and consumes exactly its bytes.
pub proof fn lemma_rt_open_standard_mining_channel_success(m: OpenStandardMiningChannelSuccessV, rest: Seq<u8>)
    requires
        wf_open_standard_mining_channel_success(m),
    ensures
        parse_open_standard_mining_channel_success(ser_open_standard_mining_channel_success(m) + rest) == Some((m, rest)),
{
    let t4 = ser_u32(m.group_channel_id) + rest;
    let t3 = ser_b1(m.extranonce_prefix) + t4;
    let t2 = ser_u256(m.target) + t3;
    let t1 = ser_u32(m.channel_id) + t2;
    assert(ser_open_standard_mining_channel_success(m) + rest =~= ser_u32(m.req_id) + t1);
    lemma_p_u32(m.req_id, t1);
    lemma_p_u32(m.channel_id, t2);
    lemma_p_u256(m.target, t3);
    lemma_p_b1(m.extranonce_prefix, t4, 32);
    lemma_p_u32(m.group_channel_id, rest);
}

/// Field bounds of a spec-level `OpenMiningChannelError`.
pub open spec fn wf_open_mining_channel_error(m: OpenMiningChannelErrorV) -> bool {
    m.code.len() <= 32 && is_utf8(m.code)
}

/// Payload bytes of `OpenMiningChannelError`, fields in declaration order.
pub open spec fn ser_open_mining_channel_error(m: OpenMiningChannelErrorV) -> Seq<u8> {
    ser_u32(m.req_id) + ser_b1(m.code)
}

/// Parses a `OpenMiningChannelError` payload, returning the unconsumed rest.
pub open spec fn parse_open_mining_channel_error(s: Seq<u8>) -> Option<(OpenMiningChannelErrorV, Seq<u8>)> {
    match p_u32(s) {
        None => None,
        Some((req_id, s1)) =>
        match p_str(s1, 32) {
            None => None,
            Some((code, s2)) => {
                Some((OpenMiningChannelErrorV { req_id: req_id, code: code }, s2))
            },
        }
    }
}

/// Parsing a serialized `OpenMiningChannelError` yields it back and consumes exactly its bytes.
pub proof fn lemma_rt_open_mining_channel_error(m: OpenMiningChannelErrorV, rest: Seq<u8>)
    requires
        wf_open_mining_channel_error(m),
    ensures
        parse_open_mining_channel_error(ser_open_mining_channel_error(m) + rest) == Some((m, rest)),
{
    let t1 = ser_b1(m.code) + rest;
    assert(ser_open_mining_channel_error(m) + rest =~= ser_u32(m.req_id) + t1);
    lemma_p_u32(m.req_id, t1);
    lemma_p_str(m.code, rest, 32);
}

/// Field bounds of a spec-level `UpdateChannel`.
pub open spec fn wf_update_channel(m: UpdateChannelV) -> bool {
    m.maximum_target.len() == 32
}

/// Payload bytes of `UpdateChannel`, fields in declaration order.
pub open spec fn ser_update_channel(m: UpdateChannelV) -> Seq<u8> {
    ser_u32(m.channel_id) + ser_u32(m.nominal_hash_rate) + ser_u256(m.maximum_target)
}

/// Parses a `UpdateChannel` payload, returning the unconsumed rest.
pub open spec fn parse_update_channel(s: Seq<u8>) -> Option<(UpdateChannelV, Seq<u8>)> {
    match p_u32(s) {
        None => None,
        Some((channel_id, s1)) =>
        match p_u32(s1) {
            None => None,
            Some((nominal_hash_rate, s2)) =>
            match p_u256(s2) {
                None => None,
                Some((maximum_target, s3)) => {
                    Some((UpdateChannelV { channel_id: channel_id, nominal_hash_rate: nominal_hash_rate, maximum_target: maximum_target }, s3))
                },
            }
        }
    }
}

/// Parsing a serialized `UpdateChannel` yields it back and consumes exactly its bytes.
pub proof fn lemma_rt_update_channel(m: UpdateChannelV, rest: Seq<u8>)
    requires
        wf_update_channel(m),
    ensures
        parse_update_channel(ser_update_channel(m) + rest) == Some((m, rest)),
{
    let t2 = ser_u256(m.maximum_target) + rest;
    let t1 = ser_u32(m.nominal_hash_rate) + t2;
    assert(ser_update_channel(m) + rest =~= ser_u32(m.channel_id) + t1);
    lemma_p_u32(m.channel_id, t1);
    lemma_p_u32(m.nominal_hash_rate, t2);
    lemma_p_u256(m.maximum_target, rest);
}

/// Field bounds of a spec-level `UpdateChannelError`.
pub open spec fn wf_update_channel_error(m: UpdateChannelErrorV) -> bool {
    m.error_code.len() <= 32 && is_utf8(m.error_code)
}

/// Payload bytes of `UpdateChannelError`, fields in declaration order.
pub open spec fn ser_update_channel_error(m: UpdateChannelErrorV) -> Seq<u8> {
    ser_u32(m.channel_id) + ser_b1(m.error_code)
}

/// Parses a `UpdateChannelError` payload, returning the unconsumed rest.
pub open spec fn parse_update_channel_error(s: Seq<u8>) -> Option<(UpdateChannelErrorV, Seq<u8>)> {
    match p_u32(s) {
        None => None,
        Some((channel_id, s1)) =>
        match p_str(s1, 32) {
            None => None,
            Some((error_code, s2)) => {
                Some((UpdateChannelErrorV { channel_id: channel_id, error_code: error_code }, s2))
            },
        }
    }
}

/// Parsing a serialized `UpdateChannelError` yields it back and consumes exactly its bytes.
pub proof fn lemma_rt_update_channel_error(m: UpdateChannelErrorV, rest: Seq<u8>)
    requires
        wf_update_channel_error(m),
    ensures
        parse_update_channel_error(ser_update_channel_error(m) + rest) == Some((m, rest)),
{
    let t1 = ser_b1(m.error_code) + rest;
    assert(ser_update_channel_error(m) + rest =~= ser_u32(m.channel_id) + t1);
    lemma_p_u32(m.channel_id, t1);
    lemma_p_str(m.error_code, rest, 32);
}

/// Field bounds of a spec-level `CloseChannel`.
pub open spec fn wf_close_channel(m: CloseChannelV) -> bool {
    m.reason_code.len() <= 32 && is_utf8(m.reason_code)
}

/// Payload bytes of `CloseChannel`, fields in declaration order.
pub open spec fn ser_close_channel(m: CloseChannelV) -> Seq<u8> {
    ser_u32(m.channel_id) + ser_b1(m.reason_code)
}

/// Parses a `CloseChannel` payload, returning the unconsumed rest.
pub open spec fn parse_close_channel(s: Seq<u8>) -> Option<(CloseChannelV, Seq<u8>)> {
    match p_u32(s) {
        None => None,
        Some((channel_id, s1)) =>
        match p_str(s1, 32) {
            None => None,
            Some((reason_code, s2)) => {
                Some((CloseChannelV { channel_id: channel_id, reason_code: reason_code }, s2))
            },
        }
    }
}

/// Parsing a serialized `CloseChannel` yields it back and consumes exactly its bytes.
pub proof fn lemma_rt_close_channel(m: CloseChannelV, rest: Seq<u8>)
    requires
        wf_close_channel(m),
    ensures
        parse_close_channel(ser_close_channel(m) + rest) == Some((m, rest)),
{
    let t1 = ser_b1(m.reason_code) + rest;
    assert(ser_close_channel(m) + rest =~= ser_u32(m.channel_id) + t1);
    lemma_p_u32(m.channel_id, t1);
    lemma_p_str(m.reason_code, rest, 32);
}

/// Field bounds of a spec-level `SubmitSharesStandard`.
pub open spec fn wf_submit_shares_standard(m: SubmitSharesStandard) -> bool {
    true
}

/// Payload bytes of `SubmitSharesStandard`, fields in declaration order.
pub open spec fn ser_submit_shares_standard(m: SubmitSharesStandard) -> Seq<u8> {
    ser_u32(m.channel_id) + ser_u32(m.seq_num) + ser_u32(m.job_id) + ser_u32(m.nonce) + ser_u32(m.ntime) + ser_u32(m.version)
}

/// Parses a `SubmitSharesStandard` payload, returning the unconsumed rest.
pub open spec fn parse_submit_shares_standard(s: Seq<u8>) -> Option<(SubmitSharesStandard, Seq<u8>)> {
    match p_u32(s) {
        None => None,
        Some((channel_id, s1)) =>
        match p_u32(s1) {
            None => None,
            Some((seq_num, s2)) =>
            match p_u32(s2) {
                None => None,
                Some((job_id, s3)) =>
                match p_u32(s3) {
                    None => None,
                    Some((nonce, s4)) =>
                    match p_u32(s4) {
                        None => None,
                        Some((ntime, s5)) =>
                        match p_u32(s5) {
                            None => None,
                            Some((version, s6)) => {
                                Some((SubmitSharesStandard { channel_id: channel_id, seq_num: seq_num, job_id: job_id, nonce: nonce, ntime: ntime, version: version }, s6))
                            },
                        }
                    }
                }
            }
        }
    }
}

/// Parsing a serialized `SubmitSharesStandard` yields it back and consumes exactly its bytes.
#[verifier::rlimit(100)]
pub proof fn lemma_rt_submit_shares_standard(m: SubmitSharesStandard, rest: Seq<u8>)
    requires
        wf_submit_shares_standard(m),
    ensures
        parse_submit_shares_standard(ser_submit_shares_standard(m) + rest) == Some((m, rest)),
{
    let t5 = ser_u32(m.version) + rest;
    let t4 = ser_u32(m.ntime) + t5;
    let t3 = ser_u32(m.nonce) + t4;
    let t2 = ser_u32(m.job_id) + t3;
    let t1 = ser_u32(m.seq_num) + t2;
    assert(ser_submit_shares_standard(m) + rest =~= ser_u32(m.channel_id) + t1);
    lemma_p_u32(m.channel_id, t1);
    lemma_p_u32(m.seq_num, t2);
    lemma_p_u32(m.job_id, t3);
    lemma_p_u32(m.nonce, t4);
    lemma_p_u32(m.ntime, t5);
    lemma_p_u32(m.version, rest);
}

/// Field bounds of a spec-level `SubmitSharesSuccess`.
pub open spec fn wf_submit_shares_success(m: SubmitSharesSuccess) -> bool {
    true
}

/// Payload bytes of `SubmitSharesSuccess`, fields in declaration order.
pub open spec fn ser_submit_shares_success(m: SubmitSharesSuccess) -> Seq<u8> {
    ser_u32(m.channel_id) + ser_u32(m.last_seq_num) + ser_u32(m.new_submits_accepted_count) + ser_u32(m.new_shares_sum)
}

/// Parses a `SubmitSharesSuccess` payload, returning the unconsumed rest.
pub open spec fn parse_submit_shares_success(s: Seq<u8>) -> Option<(SubmitSharesSuccess, Seq<u8>)> {
    match p_u32(s) {
        None => None,
        Some((channel_id, s1)) =>
        match p_u32(s1) {
            None => None,
            Some((last_seq_num, s2)) =>
            match p_u32(s2) {
                None => None,
                Some((new_submits_accepted_count, s3)) =>
                match p_u32(s3) {
                    None => None,
                    Some((new_shares_sum, s4)) => {
                        Some((SubmitSharesSuccess { channel_id: channel_id, last_seq_num: last_seq_num, new_submits_accepted_count: new_submits_accepted_count, new_shares_sum: new_shares_sum }, s4))
                    },
                }
            }
        }
    }
}

/// Parsing a serialized `SubmitSharesSuccess` yields it back and consumes exactly its bytes.
pub proof fn lemma_rt_submit_shares_success(m: SubmitSharesSuccess, rest: Seq<u8>)
    requires
        wf_submit_shares_success(m),
    ensures
        parse_submit_shares_success(ser_submit_shares_success(m) + rest) == Some((m, rest)),
{
    let t3 = ser_u32(m.new_shares_sum) + rest;
    let t2 = ser_u32(m.new_submits_accepted_count) + t3;
    let t1 = ser_u32(m.last_seq_num) + t2;
    assert(ser_submit_shares_success(m) + rest =~= ser_u32(m.channel_id) + t1);
    lemma_p_u32(m.channel_id, t1);
    lemma_p_u32(m.last_seq_num, t2);
    lemma_p_u32(m.new_submits_accepted_count, t3);
    lemma_p_u32(m.new_shares_sum, rest);
}

/// Field bounds of a spec-level `SubmitSharesError`.
pub open spec fn wf_submit_shares_error(m: SubmitSharesErrorV) -> bool {
    m.code.len() <= 32 && is_utf8(m.code)
}

/// Payload bytes of `SubmitSharesError`, fields in declaration order.
pub open spec fn ser_submit_shares_error(m: SubmitSharesErrorV) -> Seq<u8> {
    ser_u32(m.channel_id) + ser_u32(m.seq_num) + ser_b1(m.code)
}

/// Parses a `SubmitSharesError` payload, returning the unconsumed rest.
pub open spec fn parse_submit_shares_error(s: Seq<u8>) -> Option<(SubmitSharesErrorV, Seq<u8>)> {
    match p_u32(s) {
        None => None,
        Some((channel_id, s1)) =>
        match p_u32(s1) {
            None => None,
            Some((seq_num, s2)) =>
            match p_str(s2, 32) {
                None => None,
                Some((code, s3)) => {
                    Some((SubmitSharesErrorV { channel_id: channel_id, seq_num: seq_num, code: code }, s3))
                },
            }
        }
    }
}

/// Parsing a serialized `SubmitSharesError` yields it back and consumes exactly its bytes.
pub proof fn lemma_rt_submit_shares_error(m: SubmitSharesErrorV, rest: Seq<u8>)
    requires
        wf_submit_shares_error(m),
    ensures
        parse_submit_shares_error(ser_submit_shares_error(m) + rest) == Some((m, rest)),
{
    let t2 = ser_b1(m.code) + rest;
    let t1 = ser_u32(m.seq_num) + t2;
    assert(ser_submit_shares_error(m) + rest =~= ser_u32(m.channel_id) + t1);
    lemma_p_u32(m.channel_id, t1);
    lemma_p_u32(m.seq_num, t2);
    lemma_p_str(m.code, rest, 32);
}

/// Field bounds of a spec-level `NewMiningJob`.
pub open spec fn wf_new_mining_job(m: NewMiningJobV) -> bool {
    m.merkle_root.len() == 32
}

/// Payload bytes of `NewMiningJob`, fields in declaration order.
pub open spec fn ser_new_mining_job(m: NewMiningJobV) -> Seq<u8> {
    ser_u32(m.channel_id) + ser_u32(m.job_id) + ser_bool(m.future_job) + ser_u32(m.version) + ser_u256(m.merkle_root)
}

/// Parses a `NewMiningJob` payload, returning the unconsumed rest.
pub open spec fn parse_new_mining_job(s: Seq<u8>) -> Option<(NewMiningJobV, Seq<u8>)> {
    match p_u32(s) {
        None => None,
        Some((channel_id, s1)) =>
        match p_u32(s1) {
            None => None,
            Some((job_id, s2)) =>
            match p_bool(s2) {
                None => None,
                Some((future_job, s3)) =>
                match p_u32(s3) {
                    None => None,
                    Some((version, s4)) =>
                    match p_u256(s4) {
                        None => None,
                        Some((merkle_root, s5)) => {
                            Some((NewMiningJobV { channel_id: channel_id, job_id: job_id, future_job: future_job, version: version, merkle_root: merkle_root }, s5))
                        },
                    }
                }
            }
        }
    }
}

/// Parsing a serialized `NewMiningJob` yields it back and consumes exactly its bytes.
pub proof fn lemma_rt_new_mining_job(m: NewMiningJobV, rest: Seq<u8>)
    requires
        wf_new_mining_job(m),
    ensures
        parse_new_mining_job(ser_new_mining_job(m) + rest) == Some((m, rest)),
{
    let t4 = ser_u256(m.merkle_root) + rest;
    let t3 = ser_u32(m.version) + t4;
    let t2 = ser_bool(m.future_job) + t3;
    let t1 = ser_u32(m.job_id) + t2;
    assert(ser_new_mining_job(m) + rest =~= ser_u32(m.channel_id) + t1);
    lemma_p_u32(m.channel_id, t1);
    lemma_p_u32(m.job_id, t2);
    lemma_p_bool(m.future_job, t3);
    lemma_p_u32(m.version, t4);
    lemma_p_u256(m.merkle_root, rest);
}

/// Field bounds of a spec-level `NewExtendedMiningJob`.
pub open spec fn wf_new_extended_mining_job(m: NewExtendedMiningJobV) -> bool {
    m.merkle_path.len() <= 255 && (forall|k: int|
        0 <= k < m.merkle_path.len() ==> (#[trigger] m.merkle_path[k]).len() == 32)
        && m.coinbase_tx_prefix.len() <= 65535 && m.coinbase_tx_suffix.len() <= 65535
}

/// Payload bytes of `NewExtendedMiningJob`, fields in declaration order.
pub open spec fn ser_new_extended_mining_job(m: NewExtendedMiningJobV) -> Seq<u8> {
    ser_u32(m.channel_id) + ser_u32(m.job_id) + ser_bool(m.future_job) + ser_u32(m.version) + ser_bool(m.version_rolling_allowed) + ser_seq_u256(m.merkle_path) + ser_b2(m.coinbase_tx_prefix) + ser_b2(m.coinbase_tx_suffix)
}

/// Parses a `NewExtendedMiningJob` payload, returning the unconsumed rest.
pub open spec fn parse_new_extended_mining_job(s: Seq<u8>) -> Option<(NewExtendedMiningJobV, Seq<u8>)> {
    match p_u32(s) {
        None => None,
        Some((channel_id, s1)) =>
        match p_u32(s1) {
            None => None,
            Some((job_id, s2)) =>
            match p_bool(s2) {
                None => None,
                Some((future_job, s3)) =>
                match p_u32(s3) {
                    None => None,
                    Some((version, s4)) =>
                    match p_bool(s4) {
                        None => None,
                        Some((version_rolling_allowed, s5)) =>
                        match p_seq_u256(s5) {
                            None => None,
                            Some((merkle_path, s6)) =>
                            match p_b2(s6) {
                                None => None,
                                Some((coinbase_tx_prefix, s7)) =>
                                match p_b2(s7) {
                                    None => None,
                                    Some((coinbase_tx_suffix, s8)) => {
                                        Some((NewExtendedMiningJobV { channel_id: channel_id, job_id: job_id, future_job: future_job, version: version, version_rolling_allowed: version_rolling_allowed, merkle_path: merkle_path, coinbase_tx_prefix: coinbase_tx_prefix, coinbase_tx_suffix: coinbase_tx_suffix }, s8))
                                    },
                                }
                            }
                        }
                    }
                }
            }
        }
    }
}

/// Parsing a serialized `NewExtendedMiningJob` yields it back and consumes exactly its bytes.
#[verifier::rlimit(100)]
pub proof fn lemma_rt_new_extended_mining_job(m: NewExtendedMiningJobV, rest: Seq<u8>)
    requires
        wf_new_extended_mining_job(m),
    ensures
        parse_new_extended_mining_job(ser_new_extended_mining_job(m) + rest) == Some((m, rest)),
{
    let t7 = ser_b2(m.coinbase_tx_suffix) + rest;
    let t6 = ser_b2(m.coinbase_tx_prefix) + t7;
    let t5 = ser_seq_u256(m.merkle_path) + t6;
    let t4 = ser_bool(m.version_rolling_allowed) + t5;
    let t3 = ser_u32(m.version) + t4;
    let t2 = ser_bool(m.future_job) + t3;
    let t1 = ser_u32(m.job_id) + t2;
    assert(ser_new_extended_mining_job(m) + rest =~= ser_u32(m.channel_id) + t1);
    lemma_p_u32(m.channel_id, t1);
    lemma_p_u32(m.job_id, t2);
    lemma_p_bool(m.future_job, t3);
    lemma_p_u32(m.version, t4);
    lemma_p_bool(m.version_rolling_allowed, t5);
    lemma_p_seq_u256(m.merkle_path, t6);
    lemma_p_b2(m.coinbase_tx_prefix, t7);
    lemma_p_b2(m.coinbase_tx_suffix, rest);
}

/// Field bounds of a spec-level `SetNewPrevHash`.
pub open spec fn wf_set_new_prev_hash(m: SetNewPrevHashV) -> bool {
    m.prev_hash.len() == 32
}

/// Payload bytes of `SetNewPrevHash`, fields in declaration order.
pub open spec fn ser_set_new_prev_hash(m: SetNewPrevHashV) -> Seq<u8> {
    ser_u32(m.channel_id) + ser_u32(m.job_id) + ser_u256(m.prev_hash) + ser_u32(m.min_ntime) + ser_u32(m.nbits)
}

/// Parses a `SetNewPrevHash` payload, returning the unconsumed rest.
pub open spec fn parse_set_new_prev_hash(s: Seq<u8>) -> Option<(SetNewPrevHashV, Seq<u8>)> {
    match p_u32(s) {
        None => None,
        Some((channel_id, s1)) =>
        match p_u32(s1) {
            None => None,
            Some((job_id, s2)) =>
            match p_u256(s2) {
                None => None,
                Some((prev_hash, s3)) =>
                match p_u32(s3) {
                    None => None,
                    Some((min_ntime, s4)) =>
                    match p_u32(s4) {
                        None => None,
                        Some((nbits, s5)) => {
                            Some((SetNewPrevHashV { channel_id: channel_id, job_id: job_id, prev_hash: prev_hash, min_ntime: min_ntime, nbits: nbits }, s5))
                        },
                    }
                }
            }
        }
    }
}

/// Parsing a serialized `SetNewPrevHash` yields it back and consumes exactly its bytes.
pub proof fn lemma_rt_set_new_prev_hash(m: SetNewPrevHashV, rest: Seq<u8>)
    requires
        wf_set_new_prev_hash(m),
    ensures
        parse_set_new_prev_hash(ser_set_new_prev_hash(m) + rest) == Some((m, rest)),
{
    let t4 = ser_u32(m.nbits) + rest;
    let t3 = ser_u32(m.min_ntime) + t4;
    let t2 = ser_u256(m.prev_hash) + t3;
    let t1 = ser_u32(m.job_id) + t2;
    assert(ser_set_new_prev_hash(m) + rest =~= ser_u32(m.channel_id) + t1);
    lemma_p_u32(m.channel_id, t1);
    lemma_p_u32(m.job_id, t2);
    lemma_p_u256(m.prev_hash, t3);
    lemma_p_u32(m.min_ntime, t4);
    lemma_p_u32(m.nbits, rest);
}

/// Field bounds of a spec-level `SetTarget`.
pub open spec fn wf_set_target(m: SetTargetV) -> bool {
    m.max_target.len() == 32
}

/// Payload bytes of `SetTarget`, fields in declaration order.
pub open spec fn ser_set_target(m: SetTargetV) -> Seq<u8> {
    ser_u32(m.channel_id) + ser_u256(m.max_target)
}

/// Parses a `SetTarget` payload, returning the unconsumed rest.
pub open spec fn parse_set_target(s: Seq<u8>) -> Option<(SetTargetV, Seq<u8>)> {
    match p_u32(s) {
        None => None,
        Some((channel_id, s1)) =>
        match p_u256(s1) {
            None => None,
            Some((max_target, s2)) => {
                Some((SetTargetV { channel_id: channel_id, max_target: max_target }, s2))
            },
        }
    }
}

/// Parsing a serialized `SetTarget` yields it back and consumes exactly its bytes.
pub proof fn lemma_rt_set_target(m: SetTargetV, rest: Seq<u8>)
    requires
        wf_set_target(m),
    ensures
        parse_set_target(ser_set_target(m) + rest) == Some((m, rest)),
{
    let t1 = ser_u256(m.max_target) + rest;
    assert(ser_set_target(m) + rest =~= ser_u32(m.channel_id) + t1);
    lemma_p_u32(m.channel_id, t1);
    lemma_p_u256(m.max_target, rest);
}

/// Field bounds of a spec-level `Reconnect`.
pub open spec fn wf_reconnect(m: ReconnectV) -> bool {
    m.new_host.len() <= 255 && is_utf8(m.new_host)
}

/// Payload bytes of `Reconnect`, fields in declaration order.
pub open spec fn ser_reconnect(m: ReconnectV) -> Seq<u8> {
    ser_b1(m.new_host) + ser_u16(m.new_port)
}

/// Parses a `Reconnect` payload, returning the unconsumed rest.
pub open spec fn parse_reconnect(s: Seq<u8>) -> Option<(ReconnectV, Seq<u8>)> {
    match p_str(s, 255) {
        None => None,
        Some((new_host, s1)) =>
        match p_u16(s1) {
            None => None,
            Some((new_port, s2)) => {
                Some((ReconnectV { new_host: new_host, new_port: new_port }, s2))
            },
        }
    }
}

/// Parsing a serialized `Reconnect` yields it back and consumes exactly its bytes.
pub proof fn lemma_rt_reconnect(m: ReconnectV, rest: Seq<u8>)
    requires
        wf_reconnect(m),
    ensures
        parse_reconnect(ser_reconnect(m) + rest) == Some((m, rest)),
{
    let t1 = ser_u16(m.new_port) + rest;
    assert(ser_reconnect(m) + rest =~= ser_b1(m.new_host) + t1);
    lemma_p_str(m.new_host, t1, 255);
    lemma_p_u16(m.new_port, rest);
}

// ---------------------------------------------------------------------------
// Catalog dispatch
// ---------------------------------------------------------------------------

/// Field bounds of every variant hold.
pub open spec fn wf_msg(m: MessageV) -> bool {
    match m {
        MessageV::SetupConnection(x) => wf_setup_connection(x),
        MessageV::SetupConnectionSuccess(x) => wf_setup_connection_success(x),
        MessageV::SetupConnectionError(x) => wf_setup_connection_error(x),
        MessageV::ChannelEndpointChanged(x) => wf_channel_endpoint_changed(x),
        MessageV::OpenStandardMiningChannel(x) => wf_open_standard_mining_channel(x),
        MessageV::OpenStandardMiningChannelSuccess(x) => wf_open_standard_mining_channel_success(x),
        MessageV::OpenMiningChannelError(x) => wf_open_mining_channel_error(x),
        MessageV::UpdateChannel(x) => wf_update_channel(x),
        MessageV::UpdateChannelError(x) => wf_update_channel_error(x),
        MessageV::CloseChannel(x) => wf_close_channel(x),
        MessageV::SubmitSharesStandard(x) => wf_submit_shares_standard(x),
        MessageV::SubmitSharesSuccess(x) => wf_submit_shares_success(x),
        MessageV::SubmitSharesError(x) => wf_submit_shares_error(x),
        MessageV::NewMiningJob(x) => wf_new_mining_job(x),
        MessageV::NewExtendedMiningJob(x) => wf_new_extended_mining_job(x),
        MessageV::SetNewPrevHash(x) => wf_set_new_prev_hash(x),
        MessageV::SetTarget(x) => wf_set_target(x),
        MessageV::Reconnect(x) => wf_reconnect(x),
    }
}

/// Payload bytes of any catalog message.
pub open spec fn ser_payload(m: MessageV) -> Seq<u8> {
    match m {
        MessageV::SetupConnection(x) => ser_setup_connection(x),
        MessageV::SetupConnectionSuccess(x) => ser_setup_connection_success(x),
        MessageV::SetupConnectionError(x) => ser_setup_connection_error(x),
        MessageV::ChannelEndpointChanged(x) => ser_channel_endpoint_changed(x),
        MessageV::OpenStandardMiningChannel(x) => ser_open_standard_mining_channel(x),
        MessageV::OpenStandardMiningChannelSuccess(x) => ser_open_standard_mining_channel_success(x),
        MessageV::OpenMiningChannelError(x) => ser_open_mining_channel_error(x),
        MessageV::UpdateChannel(x) => ser_update_channel(x),
        MessageV::UpdateChannelError(x) => ser_update_channel_error(x),
        MessageV::CloseChannel(x) => ser_close_channel(x),
        MessageV::SubmitSharesStandard(x) => ser_submit_shares_standard(x),
        MessageV::SubmitSharesSuccess(x) => ser_submit_shares_success(x),
        MessageV::SubmitSharesError(x) => ser_submit_shares_error(x),
        MessageV::NewMiningJob(x) => ser_new_mining_job(x),
        MessageV::NewExtendedMiningJob(x) => ser_new_extended_mining_job(x),
        MessageV::SetNewPrevHash(x) => ser_set_new_prev_hash(x),
        MessageV::SetTarget(x) => ser_set_target(x),
        MessageV::Reconnect(x) => ser_reconnect(x),
    }
}

/// The channel-scope column for each known message id; `None` for an id
/// outside the catalog.
pub open spec fn type_channel_flag(t: u8) -> Option<bool> {
    if t == 0x00 || t == 0x01 || t == 0x02 || t == 0x03 || t == 0x10 || t == 0x11 || t == 0x12
        || t == 0x25 {
        Some(false)
    } else if t == 0x16 || t == 0x17 || t == 0x18 || t == 0x1a || t == 0x1c || t == 0x1d
        || t == 0x1e || t == 0x1f || t == 0x20 || t == 0x21 {
        Some(true)
    } else {
        None
    }
}

/// Parses the payload of message id `t`, returning the unconsumed rest.
pub open spec fn parse_payload(t: u8, s: Seq<u8>) -> Option<(MessageV, Seq<u8>)> {
    if t == 0x00 {
        match parse_setup_connection(s) {
            Some((x, r)) => Some((MessageV::SetupConnection(x), r)),
            None => None,
        }
    } else if t == 0x01 {
        match parse_setup_connection_success(s) {
            Some((x, r)) => Some((MessageV::SetupConnectionSuccess(x), r)),
            None => None,
        }
    } else if t == 0x02 {
        match parse_setup_connection_error(s) {
            Some((x, r)) => Some((MessageV::SetupConnectionError(x), r)),
            None => None,
        }
    } else if t == 0x03 {
        match parse_channel_endpoint_changed(s) {
            Some((x, r)) => Some((MessageV::ChannelEndpointChanged(x), r)),
            None => None,
        }
    } else if t == 0x10 {
        match parse_open_standard_mining_channel(s) {
            Some((x, r)) => Some((MessageV::OpenStandardMiningChannel(x), r)),
            None => None,
        }
    } else if t == 0x11 {
        match parse_open_standard_mining_channel_success(s) {
            Some((x, r)) => Some((MessageV::OpenStandardMiningChannelSuccess(x), r)),
            None => None,
        }
    } else if t == 0x12 {
        match parse_open_mining_channel_error(s) {
            Some((x, r)) => Some((MessageV::OpenMiningChannelError(x), r)),
            None => None,
        }
    } else if t == 0x16 {
        match parse_update_channel(s) {
            Some((x, r)) => Some((MessageV::UpdateChannel(x), r)),
            None => None,
        }
    } else if t == 0x17 {
        match parse_update_channel_error(s) {
            Some((x, r)) => Some((MessageV::UpdateChannelError(x), r)),
            None => None,
        }
    } else if t == 0x18 {
        match parse_close_channel(s) {
            Some((x, r)) => Some((MessageV::CloseChannel(x), r)),
            None => None,
        }
    } else if t == 0x1a {
        match parse_submit_shares_standard(s) {
            Some((x, r)) => Some((MessageV::SubmitSharesStandard(x), r)),
            None => None,
        }
    } else if t == 0x1c {
        match parse_submit_shares_success(s) {
            Some((x, r)) => Some((MessageV::SubmitSharesSuccess(x), r)),
            None => None,
        }
    } else if t == 0x1d {
        match parse_submit_shares_error(s) {
            Some((x, r)) => Some((MessageV::SubmitSharesError(x), r)),
            None => None,
        }
    } else if t == 0x1e {
        match parse_new_mining_job(s) {
            Some((x, r)) => Some((MessageV::NewMiningJob(x), r)),
            None => None,
        }
    } else if t == 0x1f {
        match parse_new_extended_mining_job(s) {
            Some((x, r)) => Some((MessageV::NewExtendedMiningJob(x), r)),
            None => None,
        }
    } else if t == 0x20 {
        match parse_set_new_prev_hash(s) {
            Some((x, r)) => Some((MessageV::SetNewPrevHash(x), r)),
            None => None,
        }
    } else if t == 0x21 {
        match parse_set_target(s) {
            Some((x, r)) => Some((MessageV::SetTarget(x), r)),
            None => None,
        }
    } else if t == 0x25 {
        match parse_reconnect(s) {
            Some((x, r)) => Some((MessageV::Reconnect(x), r)),
            None => None,
        }
    } else {
        None
    }
}


// ---------------------------------------------------------------------------
// Frames
// ---------------------------------------------------------------------------

/// `extension_type` of a catalog message: base extension, with the high bit
/// set exactly on channel-scoped messages.
pub open spec fn ext_of(m: MessageV) -> u16 {
    if is_channel_msg(m) {
        CHANNEL_MSG_BIT
    } else {
        EXTENSION_BASE
    }
}

/// The full frame: 6-byte header, then the payload.
pub open spec fn ser_frame(m: MessageV) -> Seq<u8> {
    ser_u16(ext_of(m)) + ser_u8(msg_type_id(m)) + ser_u24(ser_payload(m).len() as u32)
        + ser_payload(m)
}

/// Spec-level decode outcome of a byte buffer.
pub ghost enum DecodeModel {
    /// A full catalog frame: the message and how many bytes it took.
    Msg { msg: MessageV, consumed: int },
    /// A full frame of an unknown extension, to be skipped whole.
    UnknownExtension { consumed: int },
    /// The buffer holds less than one full frame.
    NeedMore,
    /// `msg_length` exceeds the configured cap.
    FrameTooLarge,
    /// Unknown base message id, channel-flag mismatch, or a payload that does
    /// not parse.
    FrameMalformed,
    /// The payload parsed but left bytes inside the declared length.
    TrailingBytes,
}

/// What decoding `s` under payload cap `cap` must yield.
pub open spec fn decode_model(s: Seq<u8>, cap: int) -> DecodeModel {
    if s.len() < 6 {
        DecodeModel::NeedMore
    } else {
        let ext = le16_at(s, 0);
        let t = s[2];
        let l = le24_at(s, 3);
        if l > cap {
            DecodeModel::FrameTooLarge
        } else if s.len() < 6 + l {
            DecodeModel::NeedMore
        } else if ext % 0x8000 != 0 {
            DecodeModel::UnknownExtension { consumed: 6 + l }
        } else {
            let chan = ext >= 0x8000;
            match type_channel_flag(t) {
                None => DecodeModel::FrameMalformed,
                Some(flag) => if flag != chan {
                    DecodeModel::FrameMalformed
                } else {
                    match parse_payload(t, s.subrange(6, 6 + l)) {
                        None => DecodeModel::FrameMalformed,
                        Some((m, rest)) => if rest.len() > 0 {
                            DecodeModel::TrailingBytes
                        } else {
                            DecodeModel::Msg { msg: m, consumed: 6 + l }
                        },
                    }
                },
            }
        }
    }
}

/// No payload outgrows its length field: the largest catalog payload is a
/// maximal NewExtendedMiningJob, well under the 16 MiB frame cap.
#[verifier::rlimit(100)]
pub proof fn lemma_payload_len(m: MessageV)
    requires
        wf_msg(m),
    ensures
        ser_payload(m).len() <= 139249,
{
    match m {
        MessageV::NewExtendedMiningJob(x) => {
            lemma_concat_u256_index(x.merkle_path);
        },
        _ => {},
    }
}

/// Dispatch half of the round trip: a serialized payload parses back to its
/// message under its own type id, with nothing left over, and every catalog
/// id's channel column matches the message's.
#[verifier::rlimit(100)]
pub proof fn lemma_parse_ser_payload(m: MessageV)
    requires
        wf_msg(m),
    ensures
        parse_payload(msg_type_id(m), ser_payload(m)) == Some((m, Seq::<u8>::empty())),
        type_channel_flag(msg_type_id(m)) == Some(is_channel_msg(m)),
{
    let p = ser_payload(m);
    let e = Seq::<u8>::empty();
    match m {
        MessageV::SetupConnection(x) => {
            assert(ser_setup_connection(x) + e =~= p);
            lemma_rt_setup_connection(x, e);
        },
        MessageV::SetupConnectionSuccess(x) => {
            assert(ser_setup_connection_success(x) + e =~= p);
            lemma_rt_setup_connection_success(x, e);
        },
        MessageV::SetupConnectionError(x) => {
            assert(ser_setup_connection_error(x) + e =~= p);
            lemma_rt_setup_connection_error(x, e);
        },
        MessageV::ChannelEndpointChanged(x) => {
            assert(ser_channel_endpoint_changed(x) + e =~= p);
            lemma_rt_channel_endpoint_changed(x, e);
        },
        MessageV::OpenStandardMiningChannel(x) => {
            assert(ser_open_standard_mining_channel(x) + e =~= p);
            lemma_rt_open_standard_mining_channel(x, e);
        },
        MessageV::OpenStandardMiningChannelSuccess(x) => {
            assert(ser_open_standard_mining_channel_success(x) + e =~= p);
            lemma_rt_open_standard_mining_channel_success(x, e);
        },
        MessageV::OpenMiningChannelError(x) => {
            assert(ser_open_mining_channel_error(x) + e =~= p);
            lemma_rt_open_mining_channel_error(x, e);
        },
        MessageV::UpdateChannel(x) => {
            assert(ser_update_channel(x) + e =~= p);
            lemma_rt_update_channel(x, e);
        },
        MessageV::UpdateChannelError(x) => {
            assert(ser_update_channel_error(x) + e =~= p);
            lemma_rt_update_channel_error(x, e);
        },
        MessageV::CloseChannel(x) => {
            assert(ser_close_channel(x) + e =~= p);
            lemma_rt_close_channel(x, e);
        },
        MessageV::SubmitSharesStandard(x) => {
            assert(ser_submit_shares_standard(x) + e =~= p);
            lemma_rt_submit_shares_standard(x, e);
        },
        MessageV::SubmitSharesSuccess(x) => {
            assert(ser_submit_shares_success(x) + e =~= p);
            lemma_rt_submit_shares_success(x, e);
        },
        MessageV::SubmitSharesError(x) => {
            assert(ser_submit_shares_error(x) + e =~= p);
            lemma_rt_submit_shares_error(x, e);
        },
        MessageV::NewMiningJob(x) => {
            assert(ser_new_mining_job(x) + e =~= p);
            lemma_rt_new_mining_job(x, e);
        },
        MessageV::NewExtendedMiningJob(x) => {
            assert(ser_new_extended_mining_job(x) + e =~= p);
            lemma_rt_new_extended_mining_job(x, e);
        },
        MessageV::SetNewPrevHash(x) => {
            assert(ser_set_new_prev_hash(x) + e =~= p);
            lemma_rt_set_new_prev_hash(x, e);
        },
        MessageV::SetTarget(x) => {
            assert(ser_set_target(x) + e =~= p);
            lemma_rt_set_target(x, e);
        },
        MessageV::Reconnect(x) => {
            assert(ser_reconnect(x) + e =~= p);
            lemma_rt_reconnect(x, e);
        },
    }
}

/// A buffer shorter than one header, or shorter than the declared frame,
/// decodes to NeedMore and nothing else.
pub proof fn lemma_incomplete_frame_needs_more(s: Seq<u8>, cap: int)
    requires
        s.len() < 6 || (le24_at(s, 3) <= cap && s.len() < 6 + le24_at(s, 3)),
    ensures
        decode_model(s, cap) == DecodeModel::NeedMore,
{
}

/// A declared payload length over the cap is refused outright, whatever
/// follows the header.
pub proof fn lemma_oversized_frame_refused(s: Seq<u8>, cap: int)
    requires
        s.len() >= 6,
        le24_at(s, 3) > cap,
    ensures
        decode_model(s, cap) == DecodeModel::FrameTooLarge,
{
}

/// Header half of the round trip, over arbitrary payload bytes: the 6 header
/// bytes read back as what was written, and the payload sits right after.
proof fn lemma_frame_header_bytes(ext: u16, t: u8, p: Seq<u8>)
    requires
        p.len() < 0x1000000,
    ensures
        ({
            let s = ser_u16(ext) + ser_u8(t) + ser_u24(p.len() as u32) + p;
            s.len() == 6 + p.len() && le16_at(s, 0) == ext && s[2] == t && le24_at(s, 3)
                == p.len() && s.subrange(6, 6 + p.len() as int) == p
        }),
{
    let l = p.len() as u32;
    let s = ser_u16(ext) + ser_u8(t) + ser_u24(l) + p;
    assert(s[0] == (ext % 256) as u8);
    assert(s[1] == (ext / 256) as u8);
    assert(le16_at(s, 0) == ext);
    assert(s[2] == t);
    assert(s[3] == (l % 256) as u8);
    assert(s[4] == ((l / 256) % 256) as u8);
    assert(s[5] == ((l / 65536) % 256) as u8);
    assert(le24_at(s, 3) == p.len());
    assert(s.subrange(6, 6 + p.len() as int) =~= p);
}

/// Round trip: a well-formed message framed by `ser_frame` decodes back to
/// itself, consuming exactly the frame, under any cap that admits its
/// payload.  The frame is exactly 6 header bytes plus the payload.
#[verifier::rlimit(100)]
pub proof fn lemma_frame_round_trip(m: MessageV, cap: int)
    requires
        wf_msg(m),
        ser_payload(m).len() <= cap,
    ensures
        ser_frame(m).len() == 6 + ser_payload(m).len(),
        decode_model(ser_frame(m), cap) == (DecodeModel::Msg {
            msg: m,
            consumed: ser_frame(m).len() as int,
        }),
{
    lemma_payload_len(m);
    lemma_parse_ser_payload(m);
    lemma_frame_header_bytes(ext_of(m), msg_type_id(m), ser_payload(m));
    let s = ser_frame(m);
    assert(ext_of(m) % 0x8000 == 0);
    assert((ext_of(m) >= 0x8000) == is_channel_msg(m));
}

/// The channel-scope column shows on the wire: byte 1 of the frame (the high
/// byte of `extension_type`) has its top bit set exactly for channel-scoped
/// messages.
pub proof fn lemma_channel_flag_bit(m: MessageV)
    ensures
        ser_frame(m).len() >= 2,
        le16_at(ser_frame(m), 0) == ext_of(m),
        is_channel_msg(m) ==> ser_frame(m)[1] / 128 == 1,
        !is_channel_msg(m) ==> ser_frame(m)[1] / 128 == 0,
{
    let s = ser_frame(m);
    assert(s[1] == (ext_of(m) / 256) as u8);
}


// ---------------------------------------------------------------------------
// Exec encoding
// ---------------------------------------------------------------------------

/// Appending one hash keeps the concatenation layout.
proof fn lemma_concat_u256_push(w: Seq<Seq<u8>>, x: Seq<u8>)
    ensures
        concat_u256(w.push(x)) == concat_u256(w) + x,
    decreases w.len(),
{
    if w.len() == 0 {
        assert(w.push(x).drop_first() =~= Seq::<Seq<u8>>::empty());
        assert(concat_u256(w.push(x).drop_first()) =~= Seq::<u8>::empty());
        assert(concat_u256(w) =~= Seq::<u8>::empty());
        assert(concat_u256(w.push(x)) =~= concat_u256(w) + x);
    } else {
        assert(w.push(x).drop_first() =~= w.drop_first().push(x));
        lemma_concat_u256_push(w.drop_first(), x);
        assert(concat_u256(w.push(x)) =~= concat_u256(w) + x);
    }
}

/// Append a 1-byte length prefix and the bytes themselves.
fn write_b1(out: &mut Vec<u8>, data: &Vec<u8>)
    requires
        data@.len() <= 255,
    ensures
        final(out)@ == old(out)@ + ser_b1(data@),
{
    let n: u8 = data.len() as u8;
    out.push(n);
    write_bytes(out, data);
    proof {
        assert(out@ =~= old(out)@ + ser_b1(data@));
    }
}

/// Append a 2-byte little-endian length prefix and the bytes themselves.
fn write_b2(out: &mut Vec<u8>, data: &Vec<u8>)
    requires
        data@.len() <= 65535,
    ensures
        final(out)@ == old(out)@ + ser_b2(data@),
{
    write_u16(out, data.len() as u16);
    write_bytes(out, data);
    proof {
        assert(out@ =~= old(out)@ + ser_b2(data@));
    }
}

/// Append the 32 bytes of a 256-bit integer.
fn write_u256(out: &mut Vec<u8>, v: &Uint256Bytes)
    ensures
        final(out)@ == old(out)@ + v@,
{
    write_bytes(out, &v.bytes);
}

/// Append a count byte and each 32-byte hash in order.
fn write_seq_u256(out: &mut Vec<u8>, v: &Seq0_255<Uint256Bytes>)
    requires
        v@.len() <= 255,
    ensures
        final(out)@ == old(out)@ + ser_seq_u256(v@),
{
    let n = v.items.len();
    proof {
        assert(v@.len() == n);
    }
    out.push(n as u8);
    let mut k: usize = 0;
    proof {
        assert(v@.take(0) =~= Seq::<Seq<u8>>::empty());
        assert(out@ =~= old(out)@ + seq![n as u8] + concat_u256(v@.take(0)));
    }
    while k < n
        invariant
            k <= n == v.items@.len(),
            v@.len() == n,
            out@ == old(out)@ + seq![n as u8] + concat_u256(v@.take(k as int)),
        decreases n - k,
    {
        write_u256(out, &v.items[k]);
        proof {
            assert(v@[k as int] == v.items@[k as int]@);
            assert(v@.take(k as int).push(v@[k as int]) =~= v@.take(k as int + 1));
            lemma_concat_u256_push(v@.take(k as int), v@[k as int]);
            assert(out@ =~= old(out)@ + seq![n as u8] + concat_u256(v@.take(k as int + 1)));
        }
        k = k + 1;
    }
    proof {
        assert(v@.take(n as int) =~= v@);
        assert(out@ =~= old(out)@ + ser_seq_u256(v@));
    }
}

/// Serialize the payload of `m`, appending to `out`: fields in declaration
/// order, exactly the bytes of `ser_payload`.
#[verifier::rlimit(100)]
pub fn encode_payload(m: &Message, out: &mut Vec<u8>)
    requires
        m.wf(),
    ensures
        final(out)@ == old(out)@ + ser_payload(m@),
{
    match m {
        Message::SetupConnection(x) => {
            write_u8(out, x.protocol);
            write_u16(out, x.min_version);
            write_u16(out, x.max_version);
            write_u32(out, x.flags);
            write_b1(out, &x.endpoint_host.data);
            write_u16(out, x.endpoint_port);
            write_b1(out, &x.device.vendor.data);
            write_b1(out, &x.device.hw_rev.data);
            write_b1(out, &x.device.fw_ver.data);
            write_b1(out, &x.device.dev_id.data);
            proof {
                assert(out@ =~= old(out)@ + ser_payload(m@));
            }
        },
        Message::SetupConnectionSuccess(x) => {
            write_u16(out, x.used_version);
            write_u32(out, x.flags);
            proof {
                assert(out@ =~= old(out)@ + ser_payload(m@));
            }
        },
        Message::SetupConnectionError(x) => {
            write_u32(out, x.flags);
            write_b1(out, &x.code.data);
            proof {
                assert(out@ =~= old(out)@ + ser_payload(m@));
            }
        },
        Message::ChannelEndpointChanged(x) => {
            write_u32(out, x.channel_id);
            proof {
                assert(out@ =~= old(out)@ + ser_payload(m@));
            }
        },
        Message::OpenStandardMiningChannel(x) => {
            write_u32(out, x.req_id);
            write_b1(out, &x.user.data);
            write_u32(out, x.nominal_hashrate);
            write_u256(out, &x.max_target);
            proof {
                assert(out@ =~= old(out)@ + ser_payload(m@));
            }
        },
        Message::OpenStandardMiningChannelSuccess(x) => {
            write_u32(out, x.req_id);
            write_u32(out, x.channel_id);
            write_u256(out, &x.target);
            write_b1(out, &x.extranonce_prefix.data);
            write_u32(out, x.group_channel_id);
            proof {
                assert(out@ =~= old(out)@ + ser_payload(m@));
            }
        },
        Message::OpenMiningChannelError(x) => {
            write_u32(out, x.req_id);
            write_b1(out, &x.code.data);
            proof {
                assert(out@ =~= old(out)@ + ser_payload(m@));
            }
        },
        Message::UpdateChannel(x) => {
            write_u32(out, x.channel_id);
            write_u32(out, x.nominal_hash_rate);
            write_u256(out, &x.maximum_target);
            proof {
                assert(out@ =~= old(out)@ + ser_payload(m@));
            }
        },
        Message::UpdateChannelError(x) => {
            write_u32(out, x.channel_id);
            write_b1(out, &x.error_code.data);
            proof {
                assert(out@ =~= old(out)@ + ser_payload(m@));
            }
        },
        Message::CloseChannel(x) => {
            write_u32(out, x.channel_id);
            write_b1(out, &x.reason_code.data);
            proof {
                assert(out@ =~= old(out)@ + ser_payload(m@));
            }
        },
        Message::SubmitSharesStandard(x) => {
            write_u32(out, x.channel_id);
            write_u32(out, x.seq_num);
            write_u32(out, x.job_id);
            write_u32(out, x.nonce);
            write_u32(out, x.ntime);
            write_u32(out, x.version);
            proof {
                assert(out@ =~= old(out)@ + ser_payload(m@));
            }
        },
        Message::SubmitSharesSuccess(x) => {
            write_u32(out, x.channel_id);
            write_u32(out, x.last_seq_num);
            write_u32(out, x.new_submits_accepted_count);
            write_u32(out, x.new_shares_sum);
            proof {
                assert(out@ =~= old(out)@ + ser_payload(m@));
            }
        },
        Message::SubmitSharesError(x) => {
            write_u32(out, x.channel_id);
            write_u32(out, x.seq_num);
            write_b1(out, &x.code.data);
            proof {
                assert(out@ =~= old(out)@ + ser_payload(m@));
            }
        },
        Message::NewMiningJob(x) => {
            write_u32(out, x.channel_id);
            write_u32(out, x.job_id);
            write_bool(out, x.future_job);
            write_u32(out, x.version);
            write_u256(out, &x.merkle_root);
            proof {
                assert(out@ =~= old(out)@ + ser_payload(m@));
            }
        },
        Message::NewExtendedMiningJob(x) => {
            write_u32(out, x.channel_id);
            write_u32(out, x.job_id);
            write_bool(out, x.future_job);
            write_u32(out, x.version);
            write_bool(out, x.version_rolling_allowed);
            write_seq_u256(out, &x.merkle_path);
            write_b2(out, &x.coinbase_tx_prefix.data);
            write_b2(out, &x.coinbase_tx_suffix.data);
            proof {
                assert(out@ =~= old(out)@ + ser_payload(m@));
            }
        },
        Message::SetNewPrevHash(x) => {
            write_u32(out, x.channel_id);
            write_u32(out, x.job_id);
            write_u256(out, &x.prev_hash);
            write_u32(out, x.min_ntime);
            write_u32(out, x.nbits);
            proof {
                assert(out@ =~= old(out)@ + ser_payload(m@));
            }
        },
        Message::SetTarget(x) => {
            write_u32(out, x.channel_id);
            write_u256(out, &x.max_target);
            proof {
                assert(out@ =~= old(out)@ + ser_payload(m@));
            }
        },
        Message::Reconnect(x) => {
            write_b1(out, &x.new_host.data);
            write_u16(out, x.new_port);
            proof {
                assert(out@ =~= old(out)@ + ser_payload(m@));
            }
        },
    }
}

/// Exec well-formedness agrees with the spec-level predicate on the view.
pub proof fn lemma_wf_view(m: &Message)
    ensures
        m.wf() == wf_msg(m@),
{
}

/// Encode one frame: the 6-byte header with the exact payload length and the
/// channel bit from the catalog's channel-scope column, then the payload.
pub fn encode_frame(m: &Message) -> (r: Vec<u8>)
    requires
        m.wf(),
    ensures
        r@ == ser_frame(m@),
        r@.len() == 6 + ser_payload(m@).len(),
{
    let mut payload: Vec<u8> = Vec::new();
    encode_payload(m, &mut payload);
    proof {
        lemma_wf_view(m);
        lemma_payload_len(m@);
        assert(payload@ =~= ser_payload(m@));
    }
    let ext: u16 = if m.channel_msg() {
        CHANNEL_MSG_BIT
    } else {
        EXTENSION_BASE
    };
    let mut out: Vec<u8> = Vec::new();
    write_u16(&mut out, ext);
    write_u8(&mut out, m.type_id());
    write_u24(&mut out, payload.len() as u32);
    write_bytes(&mut out, &payload);
    proof {
        assert(out@ =~= ser_frame(m@));
    }
    out
}


// ---------------------------------------------------------------------------
// Exec decoding
// ---------------------------------------------------------------------------

/// The rest of the buffer from `pos`, one byte further.
proof fn lemma_skip_one(s: Seq<u8>, pos: int, k: int)
    requires
        0 <= pos,
        0 <= k,
        pos + k <= s.len(),
    ensures
        s.skip(pos).skip(k) == s.skip(pos + k),
{
    assert(s.skip(pos).skip(k) =~= s.skip(pos + k));
}

fn rd_u8(buf: &[u8], pos: usize) -> (r: Option<(u8, usize)>)
    requires
        pos <= buf@.len(),
    ensures
        match r {
            Some(t) => pos < t.1 <= buf@.len() && p_u8(buf@.skip(pos as int)) == Some((
                t.0,
                buf@.skip(t.1 as int),
            )),
            None => p_u8(buf@.skip(pos as int)) == None::<(u8, Seq<u8>)>,
        },
{
    let len = buf.len();
    if pos < len {
        let v = buf[pos];
        proof {
            assert(buf@.skip(pos as int)[0] == v);
            lemma_skip_one(buf@, pos as int, 1);
        }
        Some((v, pos + 1))
    } else {
        None
    }
}

fn rd_bool(buf: &[u8], pos: usize) -> (r: Option<(bool, usize)>)
    requires
        pos <= buf@.len(),
    ensures
        match r {
            Some(t) => pos < t.1 <= buf@.len() && p_bool(buf@.skip(pos as int)) == Some((
                t.0,
                buf@.skip(t.1 as int),
            )),
            None => p_bool(buf@.skip(pos as int)) == None::<(bool, Seq<u8>)>,
        },
{
    let len = buf.len();
    if pos < len && (buf[pos] == 0 || buf[pos] == 1) {
        let v = buf[pos] == 1;
        proof {
            assert(buf@.skip(pos as int)[0] == buf@[pos as int]);
            lemma_skip_one(buf@, pos as int, 1);
        }
        Some((v, pos + 1))
    } else {
        proof {
            if pos < len {
                assert(buf@.skip(pos as int)[0] == buf@[pos as int]);
            }
        }
        None
    }
}

fn rd_u16(buf: &[u8], pos: usize) -> (r: Option<(u16, usize)>)
    requires
        pos <= buf@.len(),
    ensures
        match r {
            Some(t) => pos < t.1 <= buf@.len() && p_u16(buf@.skip(pos as int)) == Some((
                t.0,
                buf@.skip(t.1 as int),
            )),
            None => p_u16(buf@.skip(pos as int)) == None::<(u16, Seq<u8>)>,
        },
{
    let len = buf.len();
    if len - pos >= 2 {
        let v = read_u16(buf, pos);
        proof {
            let s = buf@.skip(pos as int);
            assert(s[0] == buf@[pos as int]);
            assert(s[1] == buf@[pos as int + 1]);
            assert(le16_at(s, 0) == le16_at(buf@, pos as int));
            lemma_skip_one(buf@, pos as int, 2);
        }
        Some((v, pos + 2))
    } else {
        None
    }
}

fn rd_u32(buf: &[u8], pos: usize) -> (r: Option<(u32, usize)>)
    requires
        pos <= buf@.len(),
    ensures
        match r {
            Some(t) => pos < t.1 <= buf@.len() && p_u32(buf@.skip(pos as int)) == Some((
                t.0,
                buf@.skip(t.1 as int),
            )),
            None => p_u32(buf@.skip(pos as int)) == None::<(u32, Seq<u8>)>,
        },
{
    let len = buf.len();
    if len - pos >= 4 {
        let v = read_u32(buf, pos);
        proof {
            let s = buf@.skip(pos as int);
            assert(s[0] == buf@[pos as int]);
            assert(s[1] == buf@[pos as int + 1]);
            assert(s[2] == buf@[pos as int + 2]);
            assert(s[3] == buf@[pos as int + 3]);
            assert(le32_at(s, 0) == le32_at(buf@, pos as int));
            lemma_skip_one(buf@, pos as int, 4);
        }
        Some((v, pos + 4))
    } else {
        None
    }
}

fn rd_u256(buf: &[u8], pos: usize) -> (r: Option<(Uint256Bytes, usize)>)
    requires
        pos <= buf@.len(),
    ensures
        match r {
            Some(t) => pos < t.1 <= buf@.len() && t.0.wf() && p_u256(buf@.skip(pos as int))
                == Some((t.0@, buf@.skip(t.1 as int))),
            None => p_u256(buf@.skip(pos as int)) == None::<(Seq<u8>, Seq<u8>)>,
        },
{
    let len = buf.len();
    if len - pos >= 32 {
        let b = read_bytes(buf, pos, 32);
        proof {
            let s = buf@.skip(pos as int);
            assert(s.take(32) =~= buf@.subrange(pos as int, pos as int + 32));
            lemma_skip_one(buf@, pos as int, 32);
        }
        Some((Uint256Bytes { bytes: b }, pos + 32))
    } else {
        None
    }
}

fn rd_b1(buf: &[u8], pos: usize, max: u8) -> (r: Option<(Vec<u8>, usize)>)
    requires
        pos <= buf@.len(),
    ensures
        match r {
            Some(t) => pos < t.1 <= buf@.len() && t.0@.len() <= max && p_b1(
                buf@.skip(pos as int),
                max as int,
            ) == Some((t.0@, buf@.skip(t.1 as int))),
            None => p_b1(buf@.skip(pos as int), max as int) == None::<(Seq<u8>, Seq<u8>)>,
        },
{
    let len = buf.len();
    if pos >= len {
        return None;
    }
    let l = buf[pos];
    proof {
        assert(buf@.skip(pos as int)[0] == buf@[pos as int]);
    }
    if l > max || len - pos - 1 < l as usize {
        return None;
    }
    let body = read_bytes(buf, pos + 1, l as usize);
    proof {
        let s = buf@.skip(pos as int);
        assert(s.subrange(1, 1 + l as int) =~= buf@.subrange(
            pos as int + 1,
            pos as int + 1 + l as int,
        ));
        lemma_skip_one(buf@, pos as int, 1 + l as int);
    }
    Some((body, pos + 1 + l as usize))
}

fn rd_str(buf: &[u8], pos: usize, max: u8) -> (r: Option<(Vec<u8>, usize)>)
    requires
        pos <= buf@.len(),
    ensures
        match r {
            Some(t) => pos < t.1 <= buf@.len() && t.0@.len() <= max && is_utf8(t.0@) && p_str(
                buf@.skip(pos as int),
                max as int,
            ) == Some((t.0@, buf@.skip(t.1 as int))),
            None => p_str(buf@.skip(pos as int), max as int) == None::<(Seq<u8>, Seq<u8>)>,
        },
{
    match rd_b1(buf, pos, max) {
        None => None,
        Some((body, p2)) => {
            if check_utf8(body.as_slice()) {
                Some((body, p2))
            } else {
                None
            }
        },
    }
}

fn rd_b2(buf: &[u8], pos: usize) -> (r: Option<(Vec<u8>, usize)>)
    requires
        pos <= buf@.len(),
    ensures
        match r {
            Some(t) => pos < t.1 <= buf@.len() && t.0@.len() <= 65535 && p_b2(
                buf@.skip(pos as int),
            ) == Some((t.0@, buf@.skip(t.1 as int))),
            None => p_b2(buf@.skip(pos as int)) == None::<(Seq<u8>, Seq<u8>)>,
        },
{
    let len = buf.len();
    if len - pos < 2 {
        return None;
    }
    let l = read_u16(buf, pos) as usize;
    proof {
        let s = buf@.skip(pos as int);
        assert(s[0] == buf@[pos as int]);
        assert(s[1] == buf@[pos as int + 1]);
        assert(le16_at(s, 0) == le16_at(buf@, pos as int));
    }
    if len - pos - 2 < l {
        return None;
    }
    let body = read_bytes(buf, pos + 2, l);
    proof {
        let s = buf@.skip(pos as int);
        assert(s.subrange(2, 2 + l as int) =~= buf@.subrange(
            pos as int + 2,
            pos as int + 2 + l as int,
        ));
        lemma_skip_one(buf@, pos as int, 2 + l as int);
    }
    Some((body, pos + 2 + l))
}

fn rd_seq_u256(buf: &[u8], pos: usize) -> (r: Option<(Seq0_255<Uint256Bytes>, usize)>)
    requires
        pos <= buf@.len(),
    ensures
        match r {
            Some(t) => pos < t.1 <= buf@.len() && t.0.wf() && (forall|k: int|
                0 <= k < t.0@.len() ==> (#[trigger] t.0@[k]).len() == 32) && p_seq_u256(
                buf@.skip(pos as int),
            ) == Some((t.0@, buf@.skip(t.1 as int))),
            None => p_seq_u256(buf@.skip(pos as int)) == None::<(Seq<Seq<u8>>, Seq<u8>)>,
        },
{
    let len = buf.len();
    if pos >= len {
        return None;
    }
    let c = buf[pos] as usize;
    proof {
        assert(buf@.skip(pos as int)[0] == buf@[pos as int]);
    }
    let need: usize = 32 * c;
    if len - pos - 1 < need {
        return None;
    }
    let mut items: Vec<Uint256Bytes> = Vec::new();
    let mut k: usize = 0;
    while k < c
        invariant
            k <= c,
            c <= 255,
            pos + 1 + 32 * c <= len == buf@.len(),
            items@.len() == k,
            forall|i: int|
                0 <= i < k ==> (#[trigger] items@[i])@ == buf@.subrange(
                    pos + 1 + 32 * i,
                    pos + 1 + 32 * i + 32,
                ),
        decreases c - k,
    {
        let b = read_bytes(buf, pos + 1 + 32 * k, 32);
        items.push(Uint256Bytes { bytes: b });
        k = k + 1;
    }
    let out = Seq0_255 { items };
    proof {
        let s = buf@.skip(pos as int);
        let parsed = Seq::new(s[0] as nat, |i: int| s.subrange(1 + 32 * i, 1 + 32 * i + 32));
        assert forall|i: int| 0 <= i < c implies out@[i] == parsed[i] by {
            assert(out@[i] == items@[i]@);
            assert(s.subrange(1 + 32 * i, 1 + 32 * i + 32) =~= buf@.subrange(
                pos + 1 + 32 * i,
                pos + 1 + 32 * i + 32,
            ));
        }
        assert(out@ =~= parsed);
        lemma_skip_one(buf@, pos as int, 1 + 32 * c);
    }
    Some((out, pos + 1 + need))
}


/// How a payload slice relates to its message id's parser.
enum PayloadOutcome {
    Msg(Message),
    Malformed,
    Trailing,
}

#[verifier::rlimit(100)]
fn dp_setup_connection(buf: &[u8]) -> (r: PayloadOutcome)
    ensures
        match (r, parse_payload(0x00, buf@)) {
            (PayloadOutcome::Msg(m), Some((mv, rest))) => m@ == mv && rest.len() == 0 && m.wf(),
            (PayloadOutcome::Trailing, Some((mv, rest))) => rest.len() > 0,
            (PayloadOutcome::Malformed, None) => true,
            _ => false,
        },
{
    let len = buf.len();
    let pos: usize = 0;
    proof {
        assert(buf@.skip(0) =~= buf@);
    }
    let (protocol, pos) = match rd_u8(buf, pos) {
        Some(x) => x,
        None => {
            return PayloadOutcome::Malformed;
        },
    };
    let (min_version, pos) = match rd_u16(buf, pos) {
        Some(x) => x,
        None => {
            return PayloadOutcome::Malformed;
        },
    };
    let (max_version, pos) = match rd_u16(buf, pos) {
        Some(x) => x,
        None => {
            return PayloadOutcome::Malformed;
        },
    };
    let (flags, pos) = match rd_u32(buf, pos) {
        Some(x) => x,
        None => {
            return PayloadOutcome::Malformed;
        },
    };
    let (endpoint_host, pos) = match rd_str(buf, pos, 255) {
        Some(x) => x,
        None => {
            return PayloadOutcome::Malformed;
        },
    };
    let (endpoint_port, pos) = match rd_u16(buf, pos) {
        Some(x) => x,
        None => {
            return PayloadOutcome::Malformed;
        },
    };
    let (d_vendor, pos) = match rd_str(buf, pos, 255) {
        Some(x) => x,
        None => {
            return PayloadOutcome::Malformed;
        },
    };
    let (d_hw_rev, pos) = match rd_str(buf, pos, 255) {
        Some(x) => x,
        None => {
            return PayloadOutcome::Malformed;
        },
    };
    let (d_fw_ver, pos) = match rd_str(buf, pos, 255) {
        Some(x) => x,
        None => {
            return PayloadOutcome::Malformed;
        },
    };
    let (d_dev_id, pos) = match rd_str(buf, pos, 255) {
        Some(x) => x,
        None => {
            return PayloadOutcome::Malformed;
        },
    };
    if pos != len {
        proof {
            assert(buf@.skip(pos as int).len() > 0);
        }
        return PayloadOutcome::Trailing;
    }
    proof {
        assert(buf@.skip(pos as int) =~= Seq::<u8>::empty());
    }
    PayloadOutcome::Msg(Message::SetupConnection(SetupConnection { protocol: protocol, min_version: min_version, max_version: max_version, flags: flags, endpoint_host: Str0_255 { data: endpoint_host }, endpoint_port: endpoint_port, device: DeviceInfo { vendor: Str0_255 { data: d_vendor }, hw_rev: Str0_255 { data: d_hw_rev }, fw_ver: Str0_255 { data: d_fw_ver }, dev_id: Str0_255 { data: d_dev_id } } }))
}
fn dp_setup_connection_success(buf: &[u8]) -> (r: PayloadOutcome)
    ensures
        match (r, parse_payload(0x01, buf@)) {
            (PayloadOutcome::Msg(m), Some((mv, rest))) => m@ == mv && rest.len() == 0 && m.wf(),
            (PayloadOutcome::Trailing, Some((mv, rest))) => rest.len() > 0,
            (PayloadOutcome::Malformed, None) => true,
            _ => false,
        },
{
    let len = buf.len();
    let pos: usize = 0;
    proof {
        assert(buf@.skip(0) =~= buf@);
    }
    let (used_version, pos) = match rd_u16(buf, pos) {
        Some(x) => x,
        None => {
            return PayloadOutcome::Malformed;
        },
    };
    let (flags, pos) = match rd_u32(buf, pos) {
        Some(x) => x,
        None => {
            return PayloadOutcome::Malformed;
        },
    };
    if pos != len {
        proof {
            assert(buf@.skip(pos as int).len() > 0);
        }
        return PayloadOutcome::Trailing;
    }
    proof {
        assert(buf@.skip(pos as int) =~= Seq::<u8>::empty());
    }
    PayloadOutcome::Msg(Message::SetupConnectionSuccess(SetupConnectionSuccess { used_version: used_version, flags: flags }))
}
fn dp_setup_connection_error(buf: &[u8]) -> (r: PayloadOutcome)
    ensures
        match (r, parse_payload(0x02, buf@)) {
            (PayloadOutcome::Msg(m), Some((mv, rest))) => m@ == mv && rest.len() == 0 && m.wf(),
            (PayloadOutcome::Trailing, Some((mv, rest))) => rest.len() > 0,
            (PayloadOutcome::Malformed, None) => true,
            _ => false,
        },
{
    let len = buf.len();
    let pos: usize = 0;
    proof {
        assert(buf@.skip(0) =~= buf@);
    }
    let (flags, pos) = match rd_u32(buf, pos) {
        Some(x) => x,
        None => {
            return PayloadOutcome::Malformed;
        },
    };
    let (code, pos) = match rd_str(buf, pos, 255) {
        Some(x) => x,
        None => {
            return PayloadOutcome::Malformed;
        },
    };
    if pos != len {
        proof {
            assert(buf@.skip(pos as int).len() > 0);
        }
        return PayloadOutcome::Trailing;
    }
    proof {
        assert(buf@.skip(pos as int) =~= Seq::<u8>::empty());
    }
    PayloadOutcome::Msg(Message::SetupConnectionError(SetupConnectionError { flags: flags, code: Str0_255 { data: code } }))
}
fn dp_channel_endpoint_changed(buf: &[u8]) -> (r: PayloadOutcome)
    ensures
        match (r, parse_payload(0x03, buf@)) {
            (PayloadOutcome::Msg(m), Some((mv, rest))) => m@ == mv && rest.len() == 0 && m.wf(),
            (PayloadOutcome::Trailing, Some((mv, rest))) => rest.len() > 0,
            (PayloadOutcome::Malformed, None) => true,
            _ => false,
        },
{
    let len = buf.len();
    let pos: usize = 0;
    proof {
        assert(buf@.skip(0) =~= buf@);
    }
    let (channel_id, pos) = match rd_u32(buf, pos) {
        Some(x) => x,
        None => {
            return PayloadOutcome::Malformed;
        },
    };
    if pos != len {
        proof {
            assert(buf@.skip(pos as int).len() > 0);
        }
        return PayloadOutcome::Trailing;
    }
    proof {
        assert(buf@.skip(pos as int) =~= Seq::<u8>::empty());
    }
    PayloadOutcome::Msg(Message::ChannelEndpointChanged(ChannelEndpointChanged { channel_id: channel_id }))
}
fn dp_open_standard_mining_channel(buf: &[u8]) -> (r: PayloadOutcome)
    ensures
        match (r, parse_payload(0x10, buf@)) {
            (PayloadOutcome::Msg(m), Some((mv, rest))) => m@ == mv && rest.len() == 0 && m.wf(),
            (PayloadOutcome::Trailing, Some((mv, rest))) => rest.len() > 0,
            (PayloadOutcome::Malformed, None) => true,
            _ => false,
        },
{
    let len = buf.len();
    let pos: usize = 0;
    proof {
        assert(buf@.skip(0) =~= buf@);
    }
    let (req_id, pos) = match rd_u32(buf, pos) {
        Some(x) => x,
        None => {
            return PayloadOutcome::Malformed;
        },
    };
    let (user, pos) = match rd_str(buf, pos, 255) {
        Some(x) => x,
        None => {
            return PayloadOutcome::Malformed;
        },
    };
    let (nominal_hashrate, pos) = match rd_u32(buf, pos) {
        Some(x) => x,
        None => {
            return PayloadOutcome::Malformed;
        },
    };
    let (max_target, pos) = match rd_u256(buf, pos) {
        Some(x) => x,
        None => {
            return PayloadOutcome::Malformed;
        },
    };
    if pos != len {
        proof {
            assert(buf@.skip(pos as int).len() > 0);
        }
        return PayloadOutcome::Trailing;
    }
    proof {
        assert(buf@.skip(pos as int) =~= Seq::<u8>::empty());
    }
    PayloadOutcome::Msg(Message::OpenStandardMiningChannel(OpenStandardMiningChannel { req_id: req_id, user: Str0_255 { data: user }, nominal_hashrate: nominal_hashrate, max_target: max_target }))
}
fn dp_open_standard_mining_channel_success(buf: &[u8]) -> (r: PayloadOutcome)
    ensures
        match (r, parse_payload(0x11, buf@)) {
            (PayloadOutcome::Msg(m), Some((mv, rest))) => m@ == mv && rest.len() == 0 && m.wf(),
            (PayloadOutcome::Trailing, Some((mv, rest))) => rest.len() > 0,
            (PayloadOutcome::Malformed, None) => true,
            _ => false,
        },
{
    let len = buf.len();
    let pos: usize = 0;
    proof {
        assert(buf@.skip(0) =~= buf@);
    }
    let (req_id, pos) = match rd_u32(buf, pos) {
        Some(x) => x,
        None => {
            return PayloadOutcome::Malformed;
        },
    };
    let (channel_id, pos) = match rd_u32(buf, pos) {
        Some(x) => x,
        None => {
            return PayloadOutcome::Malformed;
        },
    };
    let (target, pos) = match rd_u256(buf, pos) {
        Some(x) => x,
        None => {
            return PayloadOutcome::Malformed;
        },
    };
    let (extranonce_prefix, pos) = match rd_b1(buf, pos, 32) {
        Some(x) => x,
        None => {
            return PayloadOutcome::Malformed;
        },
    };
    let (group_channel_id, pos) = match rd_u32(buf, pos) {
        Some(x) => x,
        None => {
            return PayloadOutcome::Malformed;
        },
    };
    if pos != len {
        proof {
            assert(buf@.skip(pos as int).len() > 0);
        }
        return PayloadOutcome::Trailing;
    }
    proof {
        assert(buf@.skip(pos as int) =~= Seq::<u8>::empty());
    }
    PayloadOutcome::Msg(Message::OpenStandardMiningChannelSuccess(OpenStandardMiningChannelSuccess { req_id: req_id, channel_id: channel_id, target: target, extranonce_prefix: Bytes0_32 { data: extranonce_prefix }, group_channel_id: group_channel_id }))
}
fn dp_open_mining_channel_error(buf: &[u8]) -> (r: PayloadOutcome)
    ensures
        match (r, parse_payload(0x12, buf@)) {
            (PayloadOutcome::Msg(m), Some((mv, rest))) => m@ == mv && rest.len() == 0 && m.wf(),
            (PayloadOutcome::Trailing, Some((mv, rest))) => rest.len() > 0,
            (PayloadOutcome::Malformed, None) => true,
            _ => false,
        },
{
    let len = buf.len();
    let pos: usize = 0;
    proof {
        assert(buf@.skip(0) =~= buf@);
    }
    let (req_id, pos) = match rd_u32(buf, pos) {
        Some(x) => x,
        None => {
            return PayloadOutcome::Malformed;
        },
    };
    let (code, pos) = match rd_str(buf, pos, 32) {
        Some(x) => x,
        None => {
            return PayloadOutcome::Malformed;
        },
    };
    if pos != len {
        proof {
            assert(buf@.skip(pos as int).len() > 0);
        }
        return PayloadOutcome::Trailing;
    }
    proof {
        assert(buf@.skip(pos as int) =~= Seq::<u8>::empty());
    }
    PayloadOutcome::Msg(Message::OpenMiningChannelError(OpenMiningChannelError { req_id: req_id, code: Str0_32 { data: code } }))
}
fn dp_update_channel(buf: &[u8]) -> (r: PayloadOutcome)
    ensures
        match (r, parse_payload(0x16, buf@)) {
            (PayloadOutcome::Msg(m), Some((mv, rest))) => m@ == mv && rest.len() == 0 && m.wf(),
            (PayloadOutcome::Trailing, Some((mv, rest))) => rest.len() > 0,
            (PayloadOutcome::Malformed, None) => true,
            _ => false,
        },
{
    let len = buf.len();
    let pos: usize = 0;
    proof {
        assert(buf@.skip(0) =~= buf@);
    }
    let (channel_id, pos) = match rd_u32(buf, pos) {
        Some(x) => x,
        None => {
            return PayloadOutcome::Malformed;
        },
    };
    let (nominal_hash_rate, pos) = match rd_u32(buf, pos) {
        Some(x) => x,
        None => {
            return PayloadOutcome::Malformed;
        },
    };
    let (maximum_target, pos) = match rd_u256(buf, pos) {
        Some(x) => x,
        None => {
            return PayloadOutcome::Malformed;
        },
    };
    if pos != len {
        proof {
            assert(buf@.skip(pos as int).len() > 0);
        }
        return PayloadOutcome::Trailing;
    }
    proof {
        assert(buf@.skip(pos as int) =~= Seq::<u8>::empty());
    }
    PayloadOutcome::Msg(Message::UpdateChannel(UpdateChannel { channel_id: channel_id, nominal_hash_rate: nominal_hash_rate, maximum_target: maximum_target }))
}
fn dp_update_channel_error(buf: &[u8]) -> (r: PayloadOutcome)
    ensures
        match (r, parse_payload(0x17, buf@)) {
            (PayloadOutcome::Msg(m), Some((mv, rest))) => m@ == mv && rest.len() == 0 && m.wf(),
            (PayloadOutcome::Trailing, Some((mv, rest))) => rest.len() > 0,
            (PayloadOutcome::Malformed, None) => true,
            _ => false,
        },
{
    let len = buf.len();
    let pos: usize = 0;
    proof {
        assert(buf@.skip(0) =~= buf@);
    }
    let (channel_id, pos) = match rd_u32(buf, pos) {
        Some(x) => x,
        None => {
            return PayloadOutcome::Malformed;
        },
    };
    let (error_code, pos) = match rd_str(buf, pos, 32) {
        Some(x) => x,
        None => {
            return PayloadOutcome::Malformed;
        },
    };
    if pos != len {
        proof {
            assert(buf@.skip(pos as int).len() > 0);
        }
        return PayloadOutcome::Trailing;
    }
    proof {
        assert(buf@.skip(pos as int) =~= Seq::<u8>::empty());
    }
    PayloadOutcome::Msg(Message::UpdateChannelError(UpdateChannelError { channel_id: channel_id, error_code: Str0_32 { data: error_code } }))
}
fn dp_close_channel(buf: &[u8]) -> (r: PayloadOutcome)
    ensures
        match (r, parse_payload(0x18, buf@)) {
            (PayloadOutcome::Msg(m), Some((mv, rest))) => m@ == mv && rest.len() == 0 && m.wf(),
            (PayloadOutcome::Trailing, Some((mv, rest))) => rest.len() > 0,
            (PayloadOutcome::Malformed, None) => true,
            _ => false,
        },
{
    let len = buf.len();
    let pos: usize = 0;
    proof {
        assert(buf@.skip(0) =~= buf@);
    }
    let (channel_id, pos) = match rd_u32(buf, pos) {
        Some(x) => x,
        None => {
            return PayloadOutcome::Malformed;
        },
    };
    let (reason_code, pos) = match rd_str(buf, pos, 32) {
        Some(x) => x,
        None => {
            return PayloadOutcome::Malformed;
        },
    };
    if pos != len {
        proof {
            assert(buf@.skip(pos as int).len() > 0);
        }
        return PayloadOutcome::Trailing;
    }
    proof {
        assert(buf@.skip(pos as int) =~= Seq::<u8>::empty());
    }
    PayloadOutcome::Msg(Message::CloseChannel(CloseChannel { channel_id: channel_id, reason_code: Str0_32 { data: reason_code } }))
}
fn dp_submit_shares_standard(buf: &[u8]) -> (r: PayloadOutcome)
    ensures
        match (r, parse_payload(0x1a, buf@)) {
            (PayloadOutcome::Msg(m), Some((mv, rest))) => m@ == mv && rest.len() == 0 && m.wf(),
            (PayloadOutcome::Trailing, Some((mv, rest))) => rest.len() > 0,
            (PayloadOutcome::Malformed, None) => true,
            _ => false,
        },
{
    let len = buf.len();
    let pos: usize = 0;
    proof {
        assert(buf@.skip(0) =~= buf@);
    }
    let (channel_id, pos) = match rd_u32(buf, pos) {
        Some(x) => x,
        None => {
            return PayloadOutcome::Malformed;
        },
    };
    let (seq_num, pos) = match rd_u32(buf, pos) {
        Some(x) => x,
        None => {
            return PayloadOutcome::Malformed;
        },
    };
    let (job_id, pos) = match rd_u32(buf, pos) {
        Some(x) => x,
        None => {
            return PayloadOutcome::Malformed;
        },
    };
    let (nonce, pos) = match rd_u32(buf, pos) {
        Some(x) => x,
        None => {
            return PayloadOutcome::Malformed;
        },
    };
    let (ntime, pos) = match rd_u32(buf, pos) {
        Some(x) => x,
        None => {
            return PayloadOutcome::Malformed;
        },
    };
    let (version, pos) = match rd_u32(buf, pos) {
        Some(x) => x,
        None => {
            return PayloadOutcome::Malformed;
        },
    };
    if pos != len {
        proof {
            assert(buf@.skip(pos as int).len() > 0);
        }
        return PayloadOutcome::Trailing;
    }
    proof {
        assert(buf@.skip(pos as int) =~= Seq::<u8>::empty());
    }
    PayloadOutcome::Msg(Message::SubmitSharesStandard(SubmitSharesStandard { channel_id: channel_id, seq_num: seq_num, job_id: job_id, nonce: nonce, ntime: ntime, version: version }))
}
fn dp_submit_shares_success(buf: &[u8]) -> (r: PayloadOutcome)
    ensures
        match (r, parse_payload(0x1c, buf@)) {
            (PayloadOutcome::Msg(m), Some((mv, rest))) => m@ == mv && rest.len() == 0 && m.wf(),
            (PayloadOutcome::Trailing, Some((mv, rest))) => rest.len() > 0,
            (PayloadOutcome::Malformed, None) => true,
            _ => false,
        },
{
    let len = buf.len();
    let pos: usize = 0;
    proof {
        assert(buf@.skip(0) =~= buf@);
    }
    let (channel_id, pos) = match rd_u32(buf, pos) {
        Some(x) => x,
        None => {
            return PayloadOutcome::Malformed;
        },
    };
    let (last_seq_num, pos) = match rd_u32(buf, pos) {
        Some(x) => x,
        None => {
            return PayloadOutcome::Malformed;
        },
    };
    let (new_submits_accepted_count, pos) = match rd_u32(buf, pos) {
        Some(x) => x,
        None => {
            return PayloadOutcome::Malformed;
        },
    };
    let (new_shares_sum, pos) = match rd_u32(buf, pos) {
        Some(x) => x,
        None => {
            return PayloadOutcome::Malformed;
        },
    };
    if pos != len {
        proof {
            assert(buf@.skip(pos as int).len() > 0);
        }
        return PayloadOutcome::Trailing;
    }
    proof {
        assert(buf@.skip(pos as int) =~= Seq::<u8>::empty());
    }
    PayloadOutcome::Msg(Message::SubmitSharesSuccess(SubmitSharesSuccess { channel_id: channel_id, last_seq_num: last_seq_num, new_submits_accepted_count: new_submits_accepted_count, new_shares_sum: new_shares_sum }))
}
fn dp_submit_shares_error(buf: &[u8]) -> (r: PayloadOutcome)
    ensures
        match (r, parse_payload(0x1d, buf@)) {
            (PayloadOutcome::Msg(m), Some((mv, rest))) => m@ == mv && rest.len() == 0 && m.wf(),
            (PayloadOutcome::Trailing, Some((mv, rest))) => rest.len() > 0,
            (PayloadOutcome::Malformed, None) => true,
            _ => false,
        },
{
    let len = buf.len();
    let pos: usize = 0;
    proof {
        assert(buf@.skip(0) =~= buf@);
    }
    let (channel_id, pos) = match rd_u32(buf, pos) {
        Some(x) => x,
        None => {
            return PayloadOutcome::Malformed;
        },
    };
    let (seq_num, pos) = match rd_u32(buf, pos) {
        Some(x) => x,
        None => {
            return PayloadOutcome::Malformed;
        },
    };
    let (code, pos) = match rd_str(buf, pos, 32) {
        Some(x) => x,
        None => {
            return PayloadOutcome::Malformed;
        },
    };
    if pos != len {
        proof {
            assert(buf@.skip(pos as int).len() > 0);
        }
        return PayloadOutcome::Trailing;
    }
    proof {
        assert(buf@.skip(pos as int) =~= Seq::<u8>::empty());
    }
    PayloadOutcome::Msg(Message::SubmitSharesError(SubmitSharesError { channel_id: channel_id, seq_num: seq_num, code: Str0_32 { data: code } }))
}
fn dp_new_mining_job(buf: &[u8]) -> (r: PayloadOutcome)
    ensures
        match (r, parse_payload(0x1e, buf@)) {
            (PayloadOutcome::Msg(m), Some((mv, rest))) => m@ == mv && rest.len() == 0 && m.wf(),
            (PayloadOutcome::Trailing, Some((mv, rest))) => rest.len() > 0,
            (PayloadOutcome::Malformed, None) => true,
            _ => false,
        },
{
    let len = buf.len();
    let pos: usize = 0;
    proof {
        assert(buf@.skip(0) =~= buf@);
    }
    let (channel_id, pos) = match rd_u32(buf, pos) {
        Some(x) => x,
        None => {
            return PayloadOutcome::Malformed;
        },
    };
    let (job_id, pos) = match rd_u32(buf, pos) {
        Some(x) => x,
        None => {
            return PayloadOutcome::Malformed;
        },
    };
    let (future_job, pos) = match rd_bool(buf, pos) {
        Some(x) => x,
        None => {
            return PayloadOutcome::Malformed;
        },
    };
    let (version, pos) = match rd_u32(buf, pos) {
        Some(x) => x,
        None => {
            return PayloadOutcome::Malformed;
        },
    };
    let (merkle_root, pos) = match rd_u256(buf, pos) {
        Some(x) => x,
        None => {
            return PayloadOutcome::Malformed;
        },
    };
    if pos != len {
        proof {
            assert(buf@.skip(pos as int).len() > 0);
        }
        return PayloadOutcome::Trailing;
    }
    proof {
        assert(buf@.skip(pos as int) =~= Seq::<u8>::empty());
    }
    PayloadOutcome::Msg(Message::NewMiningJob(NewMiningJob { channel_id: channel_id, job_id: job_id, future_job: future_job, version: version, merkle_root: merkle_root }))
}
fn dp_new_extended_mining_job(buf: &[u8]) -> (r: PayloadOutcome)
    ensures
        match (r, parse_payload(0x1f, buf@)) {
            (PayloadOutcome::Msg(m), Some((mv, rest))) => m@ == mv && rest.len() == 0 && m.wf(),
            (PayloadOutcome::Trailing, Some((mv, rest))) => rest.len() > 0,
            (PayloadOutcome::Malformed, None) => true,
            _ => false,
        },
{
    let len = buf.len();
    let pos: usize = 0;
    proof {
        assert(buf@.skip(0) =~= buf@);
    }
    let (channel_id, pos) = match rd_u32(buf, pos) {
        Some(x) => x,
        None => {
            return PayloadOutcome::Malformed;
        },
    };
    let (job_id, pos) = match rd_u32(buf, pos) {
        Some(x) => x,
        None => {
            return PayloadOutcome::Malformed;
        },
    };
    let (future_job, pos) = match rd_bool(buf, pos) {
        Some(x) => x,
        None => {
            return PayloadOutcome::Malformed;
        },
    };
    let (version, pos) = match rd_u32(buf, pos) {
        Some(x) => x,
        None => {
            return PayloadOutcome::Malformed;
        },
    };
    let (version_rolling_allowed, pos) = match rd_bool(buf, pos) {
        Some(x) => x,
        None => {
            return PayloadOutcome::Malformed;
        },
    };
    let (merkle_path, pos) = match rd_seq_u256(buf, pos) {
        Some(x) => x,
        None => {
            return PayloadOutcome::Malformed;
        },
    };
    let (coinbase_tx_prefix, pos) = match rd_b2(buf, pos) {
        Some(x) => x,
        None => {
            return PayloadOutcome::Malformed;
        },
    };
    let (coinbase_tx_suffix, pos) = match rd_b2(buf, pos) {
        Some(x) => x,
        None => {
            return PayloadOutcome::Malformed;
        },
    };
    if pos != len {
        proof {
            assert(buf@.skip(pos as int).len() > 0);
        }
        return PayloadOutcome::Trailing;
    }
    proof {
        assert(buf@.skip(pos as int) =~= Seq::<u8>::empty());
    }
    PayloadOutcome::Msg(Message::NewExtendedMiningJob(NewExtendedMiningJob { channel_id: channel_id, job_id: job_id, future_job: future_job, version: version, version_rolling_allowed: version_rolling_allowed, merkle_path: merkle_path, coinbase_tx_prefix: Bytes0_64k { data: coinbase_tx_prefix }, coinbase_tx_suffix: Bytes0_64k { data: coinbase_tx_suffix } }))
}
fn dp_set_new_prev_hash(buf: &[u8]) -> (r: PayloadOutcome)
    ensures
        match (r, parse_payload(0x20, buf@)) {
            (PayloadOutcome::Msg(m), Some((mv, rest))) => m@ == mv && rest.len() == 0 && m.wf(),
            (PayloadOutcome::Trailing, Some((mv, rest))) => rest.len() > 0,
            (PayloadOutcome::Malformed, None) => true,
            _ => false,
        },
{
    let len = buf.len();
    let pos: usize = 0;
    proof {
        assert(buf@.skip(0) =~= buf@);
    }
    let (channel_id, pos) = match rd_u32(buf, pos) {
        Some(x) => x,
        None => {
            return PayloadOutcome::Malformed;
        },
    };
    let (job_id, pos) = match rd_u32(buf, pos) {
        Some(x) => x,
        None => {
            return PayloadOutcome::Malformed;
        },
    };
    let (prev_hash, pos) = match rd_u256(buf, pos) {
        Some(x) => x,
        None => {
            return PayloadOutcome::Malformed;
        },
    };
    let (min_ntime, pos) = match rd_u32(buf, pos) {
        Some(x) => x,
        None => {
            return PayloadOutcome::Malformed;
        },
    };
    let (nbits, pos) = match rd_u32(buf, pos) {
        Some(x) => x,
        None => {
            return PayloadOutcome::Malformed;
        },
    };
    if pos != len {
        proof {
            assert(buf@.skip(pos as int).len() > 0);
        }
        return PayloadOutcome::Trailing;
    }
    proof {
        assert(buf@.skip(pos as int) =~= Seq::<u8>::empty());
    }
    PayloadOutcome::Msg(Message::SetNewPrevHash(SetNewPrevHash { channel_id: channel_id, job_id: job_id, prev_hash: prev_hash, min_ntime: min_ntime, nbits: nbits }))
}
fn dp_set_target(buf: &[u8]) -> (r: PayloadOutcome)
    ensures
        match (r, parse_payload(0x21, buf@)) {
            (PayloadOutcome::Msg(m), Some((mv, rest))) => m@ == mv && rest.len() == 0 && m.wf(),
            (PayloadOutcome::Trailing, Some((mv, rest))) => rest.len() > 0,
            (PayloadOutcome::Malformed, None) => true,
            _ => false,
        },
{
    let len = buf.len();
    let pos: usize = 0;
    proof {
        assert(buf@.skip(0) =~= buf@);
    }
    let (channel_id, pos) = match rd_u32(buf, pos) {
        Some(x) => x,
        None => {
            return PayloadOutcome::Malformed;
        },
    };
    let (max_target, pos) = match rd_u256(buf, pos) {
        Some(x) => x,
        None => {
            return PayloadOutcome::Malformed;
        },
    };
    if pos != len {
        proof {
            assert(buf@.skip(pos as int).len() > 0);
        }
        return PayloadOutcome::Trailing;
    }
    proof {
        assert(buf@.skip(pos as int) =~= Seq::<u8>::empty());
    }
    PayloadOutcome::Msg(Message::SetTarget(SetTarget { channel_id: channel_id, max_target: max_target }))
}
fn dp_reconnect(buf: &[u8]) -> (r: PayloadOutcome)
    ensures
        match (r, parse_payload(0x25, buf@)) {
            (PayloadOutcome::Msg(m), Some((mv, rest))) => m@ == mv && rest.len() == 0 && m.wf(),
            (PayloadOutcome::Trailing, Some((mv, rest))) => rest.len() > 0,
            (PayloadOutcome::Malformed, None) => true,
            _ => false,
        },
{
    let len = buf.len();
    let pos: usize = 0;
    proof {
        assert(buf@.skip(0) =~= buf@);
    }
    let (new_host, pos) = match rd_str(buf, pos, 255) {
        Some(x) => x,
        None => {
            return PayloadOutcome::Malformed;
        },
    };
    let (new_port, pos) = match rd_u16(buf, pos) {
        Some(x) => x,
        None => {
            return PayloadOutcome::Malformed;
        },
    };
    if pos != len {
        proof {
            assert(buf@.skip(pos as int).len() > 0);
        }
        return PayloadOutcome::Trailing;
    }
    proof {
        assert(buf@.skip(pos as int) =~= Seq::<u8>::empty());
    }
    PayloadOutcome::Msg(Message::Reconnect(Reconnect { new_host: Str0_255 { data: new_host }, new_port: new_port }))
}

/// Decode the payload of message id `t`; the slice must be exactly the
/// declared `msg_length` bytes.
fn decode_payload(t: u8, buf: &[u8]) -> (r: PayloadOutcome)
    ensures
        match (r, parse_payload(t, buf@)) {
            (PayloadOutcome::Msg(m), Some((mv, rest))) => m@ == mv && rest.len() == 0 && m.wf(),
            (PayloadOutcome::Trailing, Some((mv, rest))) => rest.len() > 0,
            (PayloadOutcome::Malformed, None) => true,
            _ => false,
        },
{
    if t == 0x00 {
        dp_setup_connection(buf)
    } else if t == 0x01 {
        dp_setup_connection_success(buf)
    } else if t == 0x02 {
        dp_setup_connection_error(buf)
    } else if t == 0x03 {
        dp_channel_endpoint_changed(buf)
    } else if t == 0x10 {
        dp_open_standard_mining_channel(buf)
    } else if t == 0x11 {
        dp_open_standard_mining_channel_success(buf)
    } else if t == 0x12 {
        dp_open_mining_channel_error(buf)
    } else if t == 0x16 {
        dp_update_channel(buf)
    } else if t == 0x17 {
        dp_update_channel_error(buf)
    } else if t == 0x18 {
        dp_close_channel(buf)
    } else if t == 0x1a {
        dp_submit_shares_standard(buf)
    } else if t == 0x1c {
        dp_submit_shares_success(buf)
    } else if t == 0x1d {
        dp_submit_shares_error(buf)
    } else if t == 0x1e {
        dp_new_mining_job(buf)
    } else if t == 0x1f {
        dp_new_extended_mining_job(buf)
    } else if t == 0x20 {
        dp_set_new_prev_hash(buf)
    } else if t == 0x21 {
        dp_set_target(buf)
    } else if t == 0x25 {
        dp_reconnect(buf)
    } else {
        PayloadOutcome::Malformed
    }
}

/// Exec mirror of the catalog's channel-scope column.
fn type_flag(t: u8) -> (r: Option<bool>)
    ensures
        r == type_channel_flag(t),
{
    if t == 0x00 || t == 0x01 || t == 0x02 || t == 0x03 || t == 0x10 || t == 0x11 || t == 0x12
        || t == 0x25 {
        Some(false)
    } else if t == 0x16 || t == 0x17 || t == 0x18 || t == 0x1a || t == 0x1c || t == 0x1d
        || t == 0x1e || t == 0x1f || t == 0x20 || t == 0x21 {
        Some(true)
    } else {
        None
    }
}

/// Exec decode outcome; mirrors [`DecodeModel`] value for value.
pub enum DecodeOutcome {
    /// A full catalog frame: the message and how many bytes it took.
    Msg { msg: Message, consumed: usize },
    /// A full frame of an unknown extension; skip `consumed` bytes and go on.
    UnknownExtension { consumed: usize },
    /// The buffer holds less than one full frame; read more bytes.
    NeedMore,
    /// `msg_length` exceeds the configured cap.
    FrameTooLarge,
    /// Unknown base message id, channel-flag mismatch, or a payload that does
    /// not parse.
    FrameMalformed,
    /// The payload parsed but left bytes inside the declared length.
    TrailingBytes,
}

/// The exec outcome carries the same verdict and values as the model.
pub open spec fn outcome_matches(r: DecodeOutcome, d: DecodeModel) -> bool {
    match (r, d) {
        (
            DecodeOutcome::Msg { msg, consumed },
            DecodeModel::Msg { msg: mv, consumed: c },
        ) => msg@ == mv && msg.wf() && consumed == c,
        (
            DecodeOutcome::UnknownExtension { consumed },
            DecodeModel::UnknownExtension { consumed: c },
        ) => consumed == c,
        (DecodeOutcome::NeedMore, DecodeModel::NeedMore) => true,
        (DecodeOutcome::FrameTooLarge, DecodeModel::FrameTooLarge) => true,
        (DecodeOutcome::FrameMalformed, DecodeModel::FrameMalformed) => true,
        (DecodeOutcome::TrailingBytes, DecodeModel::TrailingBytes) => true,
        _ => false,
    }
}

/// Decode one frame from the front of `buf` under payload cap `cap`.
///
/// Exactly [`decode_model`]: fewer than 6 bytes, or fewer than the declared
/// payload, is `NeedMore`; an oversized `msg_length` is `FrameTooLarge`
/// before any payload byte is touched; a non-base extension is skipped whole;
/// in the base extension the channel bit must match the id's channel-scope
/// column and the payload must parse to exactly the declared length.
pub fn decode_frame(buf: &[u8], cap: u32) -> (r: DecodeOutcome)
    ensures
        outcome_matches(r, decode_model(buf@, cap as int)),
{
    let len = buf.len();
    if len < 6 {
        return DecodeOutcome::NeedMore;
    }
    let ext = read_u16(buf, 0);
    let t = buf[2];
    let l = read_u24(buf, 3);
    if l > cap {
        return DecodeOutcome::FrameTooLarge;
    }
    let lz = l as usize;
    if len - 6 < lz {
        return DecodeOutcome::NeedMore;
    }
    let consumed = 6 + lz;
    if ext % 0x8000 != 0 {
        return DecodeOutcome::UnknownExtension { consumed };
    }
    let chan = ext >= 0x8000;
    let flag = match type_flag(t) {
        Some(f) => f,
        None => {
            return DecodeOutcome::FrameMalformed;
        },
    };
    if flag != chan {
        return DecodeOutcome::FrameMalformed;
    }
    let payload = read_bytes(buf, 6, lz);
    match decode_payload(t, payload.as_slice()) {
        PayloadOutcome::Msg(m) => DecodeOutcome::Msg { msg: m, consumed },
        PayloadOutcome::Malformed => DecodeOutcome::FrameMalformed,
        PayloadOutcome::Trailing => DecodeOutcome::TrailingBytes,
    }
}

} // verus!
