//! Frame codec behaviour on concrete wire bytes.

use stratum_proxy::codec::{decode_frame, encode_frame, DecodeOutcome, MAX_FRAME_SIZE};
use stratum_proxy::messages::{
    ChannelEndpointChanged, CloseChannel, Message, NewExtendedMiningJob, NewMiningJob,
    OpenMiningChannelError, OpenStandardMiningChannel, OpenStandardMiningChannelSuccess, Reconnect,
    SetNewPrevHash, SetTarget, SetupConnection, SetupConnectionError, SetupConnectionSuccess,
    SubmitSharesError, SubmitSharesStandard, SubmitSharesSuccess, UpdateChannel,
    UpdateChannelError,
};
use stratum_proxy::types::{
    Bytes0_32, Bytes0_64k, DeviceInfo, Seq0_255, Str0_255, Str0_32, Uint256Bytes,
};

fn s255(text: &str) -> Str0_255 {
    Str0_255::from_bytes(text.as_bytes().to_vec()).expect("string fits")
}

fn s32(text: &str) -> Str0_32 {
    Str0_32::from_bytes(text.as_bytes().to_vec()).expect("string fits")
}

fn u256(fill: u8) -> Uint256Bytes {
    Uint256Bytes::from_bytes(vec![fill; 32]).expect("32 bytes")
}

fn device() -> DeviceInfo {
    DeviceInfo { vendor: s255("v"), hw_rev: s255("h"), fw_ver: s255("f"), dev_id: s255("d") }
}

fn round_trip(m: Message) {
    let frame = encode_frame(&m);
    match decode_frame(frame.as_slice(), MAX_FRAME_SIZE) {
        DecodeOutcome::Msg { msg, consumed } => {
            assert_eq!(msg, m);
            assert_eq!(consumed, frame.len());
        }
        other => panic!("expected a decoded frame, got {:?}", message_kind(&other)),
    }
}

fn message_kind(o: &DecodeOutcome) -> &'static str {
    match o {
        DecodeOutcome::Msg { .. } => "Msg",
        DecodeOutcome::UnknownExtension { .. } => "UnknownExtension",
        DecodeOutcome::NeedMore => "NeedMore",
        DecodeOutcome::FrameTooLarge => "FrameTooLarge",
        DecodeOutcome::FrameMalformed => "FrameMalformed",
        DecodeOutcome::TrailingBytes => "TrailingBytes",
    }
}

#[test]
fn round_trip_every_catalog_message() {
    round_trip(Message::SetupConnection(SetupConnection {
        protocol: 0,
        min_version: 2,
        max_version: 2,
        flags: 5,
        endpoint_host: s255("pool.example"),
        endpoint_port: 3336,
        device: device(),
    }));
    round_trip(Message::SetupConnectionSuccess(SetupConnectionSuccess {
        used_version: 2,
        flags: 0,
    }));
    round_trip(Message::SetupConnectionError(SetupConnectionError {
        flags: 1,
        code: s255("unsupported"),
    }));
    round_trip(Message::ChannelEndpointChanged(ChannelEndpointChanged { channel_id: 9 }));
    round_trip(Message::OpenStandardMiningChannel(OpenStandardMiningChannel {
        req_id: 7,
        user: s255("x.w"),
        nominal_hashrate: (1.0e12f32).to_bits(),
        max_target: u256(0xff),
    }));
    round_trip(Message::OpenStandardMiningChannelSuccess(OpenStandardMiningChannelSuccess {
        req_id: 7,
        channel_id: 1,
        target: u256(0x11),
        extranonce_prefix: Bytes0_32 { data: vec![1, 2, 3, 4] },
        group_channel_id: 1,
    }));
    round_trip(Message::OpenMiningChannelError(OpenMiningChannelError {
        req_id: 7,
        code: s32("auth-failed"),
    }));
    round_trip(Message::UpdateChannel(UpdateChannel {
        channel_id: 1,
        nominal_hash_rate: (2.5f32).to_bits(),
        maximum_target: u256(0x22),
    }));
    round_trip(Message::UpdateChannelError(UpdateChannelError {
        channel_id: 1,
        error_code: s32("invalid-channel"),
    }));
    round_trip(Message::CloseChannel(CloseChannel {
        channel_id: 1,
        reason_code: s32("bye"),
    }));
    round_trip(Message::SubmitSharesStandard(SubmitSharesStandard {
        channel_id: 1,
        seq_num: 10,
        job_id: 3,
        nonce: 0xdeadbeef,
        ntime: 0x5f000000,
        version: 0x20000000,
    }));
    round_trip(Message::SubmitSharesSuccess(SubmitSharesSuccess {
        channel_id: 1,
        last_seq_num: 10,
        new_submits_accepted_count: 1,
        new_shares_sum: 1,
    }));
    round_trip(Message::SubmitSharesError(SubmitSharesError {
        channel_id: 1,
        seq_num: 10,
        code: s32("stale-share"),
    }));
    round_trip(Message::NewMiningJob(NewMiningJob {
        channel_id: 1,
        job_id: 4,
        future_job: true,
        version: 0x20000000,
        merkle_root: u256(0xab),
    }));
    round_trip(Message::NewExtendedMiningJob(NewExtendedMiningJob {
        channel_id: 1,
        job_id: 5,
        future_job: false,
        version: 0x20000000,
        version_rolling_allowed: true,
        merkle_path: Seq0_255 { items: vec![u256(0x01), u256(0x02)] },
        coinbase_tx_prefix: Bytes0_64k { data: vec![0xaa; 40] },
        coinbase_tx_suffix: Bytes0_64k { data: vec![0xbb; 12] },
    }));
    round_trip(Message::SetNewPrevHash(SetNewPrevHash {
        channel_id: 1,
        job_id: 5,
        prev_hash: u256(0xcd),
        min_ntime: 1234,
        nbits: 0x1d00ffff,
    }));
    round_trip(Message::SetTarget(SetTarget { channel_id: 1, max_target: u256(0x3f) }));
    round_trip(Message::Reconnect(Reconnect { new_host: s255("other.pool"), new_port: 4444 }));
}

#[test]
fn frame_length_is_header_plus_payload() {
    let m = Message::ChannelEndpointChanged(ChannelEndpointChanged { channel_id: 3 });
    let frame = encode_frame(&m);
    assert_eq!(frame.len(), 6 + 4);
    assert_eq!(&frame[..6], &[0x00, 0x00, 0x03, 0x04, 0x00, 0x00]);
    assert_eq!(&frame[6..], &[0x03, 0x00, 0x00, 0x00]);
}

#[test]
fn channel_bit_set_exactly_for_channel_messages() {
    let chan = encode_frame(&Message::SubmitSharesStandard(SubmitSharesStandard {
        channel_id: 1,
        seq_num: 1,
        job_id: 1,
        nonce: 0,
        ntime: 0,
        version: 0,
    }));
    assert_eq!(chan[1] & 0x80, 0x80);
    assert_eq!(chan[0], 0x00);
    let conn = encode_frame(&Message::SetupConnectionSuccess(SetupConnectionSuccess {
        used_version: 2,
        flags: 0,
    }));
    assert_eq!(conn[1] & 0x80, 0x00);
    let recon = encode_frame(&Message::Reconnect(Reconnect { new_host: s255(""), new_port: 0 }));
    assert_eq!(recon[1] & 0x80, 0x00);
}

#[test]
fn short_buffer_needs_more() {
    for n in 0..6 {
        let buf = vec![0u8; n];
        assert!(matches!(decode_frame(buf.as_slice(), MAX_FRAME_SIZE), DecodeOutcome::NeedMore));
    }
}

#[test]
fn partial_payload_needs_more() {
    // Header declares 4 payload bytes; only 3 follow.
    let buf = vec![0x00, 0x80, 0x03, 0x04, 0x00, 0x00, 0x01, 0x02, 0x03];
    assert!(matches!(decode_frame(buf.as_slice(), MAX_FRAME_SIZE), DecodeOutcome::NeedMore));
}

#[test]
fn oversized_length_is_frame_too_large() {
    // msg_length = 0xFFFFFB, one past the cap.
    let buf = vec![0x00, 0x00, 0x00, 0xfb, 0xff, 0xff];
    assert!(matches!(
        decode_frame(buf.as_slice(), MAX_FRAME_SIZE),
        DecodeOutcome::FrameTooLarge
    ));
    // A small cap rejects even modest frames.
    let small = encode_frame(&Message::ChannelEndpointChanged(ChannelEndpointChanged {
        channel_id: 1,
    }));
    assert!(matches!(decode_frame(small.as_slice(), 3), DecodeOutcome::FrameTooLarge));
}

#[test]
fn unknown_extension_is_skipped_whole() {
    // extension_type 0x0001, 2 payload bytes.
    let buf = vec![0x01, 0x00, 0x42, 0x02, 0x00, 0x00, 0xaa, 0xbb];
    match decode_frame(buf.as_slice(), MAX_FRAME_SIZE) {
        DecodeOutcome::UnknownExtension { consumed } => assert_eq!(consumed, 8),
        other => panic!("expected UnknownExtension, got {:?}", message_kind(&other)),
    }
}

#[test]
fn unknown_base_message_id_is_malformed() {
    let buf = vec![0x00, 0x00, 0x7e, 0x00, 0x00, 0x00];
    assert!(matches!(
        decode_frame(buf.as_slice(), MAX_FRAME_SIZE),
        DecodeOutcome::FrameMalformed
    ));
}

#[test]
fn channel_flag_mismatch_is_malformed() {
    // SetupConnectionSuccess (connection-level id 0x01) with channel bit set.
    let buf = vec![0x00, 0x80, 0x01, 0x06, 0x00, 0x00, 2, 0, 0, 0, 0, 0];
    assert!(matches!(
        decode_frame(buf.as_slice(), MAX_FRAME_SIZE),
        DecodeOutcome::FrameMalformed
    ));
}

#[test]
fn byte_inside_declared_length_is_trailing() {
    // A valid ChannelEndpointChanged payload is 4 bytes; declare 5 and pad
    // one byte inside the declared length.
    let buf = vec![0x00, 0x00, 0x03, 0x05, 0x00, 0x00, 0x09, 0x00, 0x00, 0x00, 0x77];
    assert!(matches!(
        decode_frame(buf.as_slice(), MAX_FRAME_SIZE),
        DecodeOutcome::TrailingBytes
    ));
}

#[test]
fn open_channel_frame_wire_shape() {
    // OpenStandardMiningChannel is id 0x10 in the base extension, without
    // the channel bit; its payload is req_id, user, hashrate, target.
    let m = Message::OpenStandardMiningChannel(OpenStandardMiningChannel {
        req_id: 7,
        user: s255("x.w"),
        nominal_hashrate: 0,
        max_target: u256(0),
    });
    let frame = encode_frame(&m);
    assert_eq!(frame[0], 0x00);
    assert_eq!(frame[1], 0x00);
    assert_eq!(frame[2], 0x10);
    let payload_len = 4 + 1 + 3 + 4 + 32;
    assert_eq!(frame[3] as usize, payload_len);
    assert_eq!(frame[4], 0);
    assert_eq!(frame[5], 0);
    assert_eq!(frame.len(), 6 + payload_len);
}

#[test]
fn invalid_utf8_string_is_malformed() {
    // SetupConnectionError: flags then a 1-byte-prefixed string 0xff (not UTF-8).
    let buf = vec![0x00, 0x00, 0x02, 0x06, 0x00, 0x00, 0, 0, 0, 0, 1, 0xff];
    assert!(matches!(
        decode_frame(buf.as_slice(), MAX_FRAME_SIZE),
        DecodeOutcome::FrameMalformed
    ));
}

#[test]
fn boolean_payload_bytes_are_strict() {
    // NewMiningJob with future_job byte 2: rejected.
    let mut buf = vec![0x00, 0x80, 0x1e, 45, 0x00, 0x00];
    buf.extend_from_slice(&[1, 0, 0, 0]);
    buf.extend_from_slice(&[4, 0, 0, 0]);
    buf.push(2);
    buf.extend_from_slice(&[0, 0, 0, 0x20]);
    buf.extend_from_slice(&[0xab; 32]);
    assert!(matches!(
        decode_frame(buf.as_slice(), MAX_FRAME_SIZE),
        DecodeOutcome::FrameMalformed
    ));
}

#[test]
fn string_constructors_enforce_bounds() {
    assert!(Str0_32::from_bytes(vec![b'a'; 33]).is_none());
    assert!(Str0_32::from_bytes(vec![0xff]).is_none());
    assert!(Str0_32::from_bytes(vec![b'a'; 32]).is_some());
    assert!(Str0_255::from_bytes(vec![b'a'; 256]).is_none());
    assert!(Str0_255::from_bytes("héllo".as_bytes().to_vec()).is_some());
    assert!(Bytes0_32 { data: vec![] }.data.is_empty());
    assert!(Uint256Bytes::from_bytes(vec![0; 31]).is_none());
}
