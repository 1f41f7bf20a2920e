//! Session scenarios through the translation state machine.

use stratum_proxy::messages::{
    CloseChannel, Message, OpenStandardMiningChannel, SetupConnection, SubmitSharesStandard,
    UpdateChannel,
};
use stratum_proxy::target::{counter_le_bytes, diff1_target, target_for_difficulty};
use stratum_proxy::translator::{SessionState, TranslationError, Translator};
use stratum_proxy::types::{DeviceInfo, Str0_255, Uint256Bytes};
use stratum_proxy::v1::{V1Event, V1Request};

fn s255(text: &str) -> Str0_255 {
    Str0_255::from_bytes(text.as_bytes().to_vec()).expect("string fits")
}

fn u256(fill: u8) -> Uint256Bytes {
    Uint256Bytes::from_bytes(vec![fill; 32]).expect("32 bytes")
}

fn device() -> DeviceInfo {
    DeviceInfo { vendor: s255("v"), hw_rev: s255("h"), fw_ver: s255("f"), dev_id: s255("d") }
}

fn setup(flags: u32) -> SetupConnection {
    SetupConnection {
        protocol: 0,
        min_version: 2,
        max_version: 2,
        flags,
        endpoint_host: s255(""),
        endpoint_port: 0,
        device: device(),
    }
}

/// Runs the handshake and opens one channel (id 1) with extranonce1 [1,2,3,4].
fn operational_session() -> Translator {
    let mut t = Translator::new();
    t.handle_v2(Message::SetupConnection(setup(0))).unwrap();
    t.handle_v1(V1Event::SubscribeResult { extranonce1: vec![1, 2, 3, 4], extranonce2_size: 4 })
        .unwrap();
    t.take_v2_out();
    t.take_v1_out();
    t.handle_v2(Message::OpenStandardMiningChannel(OpenStandardMiningChannel {
        req_id: 7,
        user: s255("x.w"),
        nominal_hashrate: (1.0e12f32).to_bits(),
        max_target: u256(0xff),
    }))
    .unwrap();
    let v1 = t.take_v1_out();
    let auth_id = match v1.last().expect("authorize request") {
        V1Request::Authorize { id, .. } => *id,
        other => panic!("expected authorize, got {:?}", other),
    };
    t.handle_v1(V1Event::AuthorizeResult { id: auth_id, ok: true }).unwrap();
    t.take_v2_out();
    t
}

fn notify(clean: bool, fill: u8, job: &str) -> V1Event {
    V1Event::Notify {
        job_id: job.as_bytes().to_vec(),
        prev_hash: u256(fill),
        coinbase1: vec![0xaa; 10],
        coinbase2: vec![0xbb; 10],
        merkle_branches: vec![u256(0x01)],
        version: 0x20000000,
        nbits: 0x1d00ffff,
        ntime: 1000,
        clean_jobs: clean,
    }
}

#[test]
fn handshake_cleartext_success_only_after_subscribe() {
    let mut t = Translator::new();
    t.handle_v2(Message::SetupConnection(setup(0))).unwrap();
    // No success yet, and no configure since the flags carry no version rolling.
    assert!(t.take_v2_out().is_empty());
    let v1 = t.take_v1_out();
    assert_eq!(v1.len(), 1);
    match &v1[0] {
        V1Request::Subscribe { user_agent, .. } => assert_eq!(user_agent, &b"v/f".to_vec()),
        other => panic!("expected subscribe, got {:?}", other),
    }
    assert_eq!(t.state, SessionState::AwaitV1Subscribe);
    t.handle_v1(V1Event::SubscribeResult { extranonce1: vec![9, 9], extranonce2_size: 4 })
        .unwrap();
    let out = t.take_v2_out();
    assert_eq!(out.len(), 1);
    match &out[0] {
        Message::SetupConnectionSuccess(s) => {
            assert_eq!(s.used_version, 2);
            assert_eq!(s.flags, 0);
        }
        other => panic!("expected SetupConnectionSuccess, got {:?}", other),
    }
    assert_eq!(t.state, SessionState::Operational);
}

#[test]
fn version_rolling_flag_queues_configure_first() {
    let mut t = Translator::new();
    t.handle_v2(Message::SetupConnection(setup(1))).unwrap();
    let v1 = t.take_v1_out();
    assert_eq!(v1.len(), 2);
    // Every V1 request gets a fresh id from the per-connection allocator.
    assert!(matches!(v1[0], V1Request::Configure { id: 1 }));
    assert!(matches!(v1[1], V1Request::Subscribe { id: 2, .. }));
    t.handle_v1(V1Event::SubscribeResult { extranonce1: vec![1], extranonce2_size: 4 }).unwrap();
    t.take_v2_out();
    t.handle_v2(Message::OpenStandardMiningChannel(OpenStandardMiningChannel {
        req_id: 1,
        user: s255("x.w"),
        nominal_hashrate: 0,
        max_target: u256(0xff),
    }))
    .unwrap();
    let v1b = t.take_v1_out();
    assert!(matches!(v1b[0], V1Request::Authorize { id: 3, .. }));
}

#[test]
fn rejected_setup_gets_error_and_closes() {
    let mut t = Translator::new();
    let mut m = setup(0);
    m.protocol = 1;
    t.handle_v2(Message::SetupConnection(m)).unwrap();
    let out = t.take_v2_out();
    assert_eq!(out.len(), 1);
    match &out[0] {
        Message::SetupConnectionError(e) => assert_eq!(e.code.data, b"unsupported".to_vec()),
        other => panic!("expected SetupConnectionError, got {:?}", other),
    }
    assert_eq!(t.state, SessionState::Closing);
    // A version range that misses 2 is also refused.
    let mut t2 = Translator::new();
    let mut m2 = setup(0);
    m2.min_version = 3;
    m2.max_version = 4;
    t2.handle_v2(Message::SetupConnection(m2)).unwrap();
    assert_eq!(t2.state, SessionState::Closing);
}

#[test]
fn open_channel_answers_after_authorize() {
    let mut t = Translator::new();
    t.handle_v2(Message::SetupConnection(setup(0))).unwrap();
    t.handle_v1(V1Event::SubscribeResult { extranonce1: vec![1, 2, 3, 4], extranonce2_size: 4 })
        .unwrap();
    t.take_v2_out();
    t.take_v1_out();
    t.handle_v2(Message::OpenStandardMiningChannel(OpenStandardMiningChannel {
        req_id: 7,
        user: s255("x.w"),
        nominal_hashrate: (1.0e12f32).to_bits(),
        max_target: u256(0xff),
    }))
    .unwrap();
    // Nothing downstream until the authorize verdict.
    assert!(t.take_v2_out().is_empty());
    let v1 = t.take_v1_out();
    let auth_id = match &v1[0] {
        V1Request::Authorize { id, user } => {
            assert_eq!(user, &b"x.w".to_vec());
            *id
        }
        other => panic!("expected authorize, got {:?}", other),
    };
    t.handle_v1(V1Event::AuthorizeResult { id: auth_id, ok: true }).unwrap();
    let out = t.take_v2_out();
    assert_eq!(out.len(), 1);
    match &out[0] {
        Message::OpenStandardMiningChannelSuccess(s) => {
            assert_eq!(s.req_id, 7);
            assert_eq!(s.channel_id, 1);
            assert_eq!(s.group_channel_id, 1);
            assert_eq!(s.extranonce_prefix.data, vec![1, 2, 3, 4]);
            // No difficulty yet: the initial target is the difficulty-1 target.
            assert_eq!(s.target, diff1_target());
        }
        other => panic!("expected channel success, got {:?}", other),
    }
}

#[test]
fn denied_authorize_gets_open_error() {
    let mut t = Translator::new();
    t.handle_v2(Message::SetupConnection(setup(0))).unwrap();
    t.handle_v1(V1Event::SubscribeResult { extranonce1: vec![1], extranonce2_size: 4 }).unwrap();
    t.take_v2_out();
    t.take_v1_out();
    t.handle_v2(Message::OpenStandardMiningChannel(OpenStandardMiningChannel {
        req_id: 9,
        user: s255("bad"),
        nominal_hashrate: 0,
        max_target: u256(0xff),
    }))
    .unwrap();
    let v1 = t.take_v1_out();
    let auth_id = match &v1[0] {
        V1Request::Authorize { id, .. } => *id,
        other => panic!("expected authorize, got {:?}", other),
    };
    t.handle_v1(V1Event::AuthorizeResult { id: auth_id, ok: false }).unwrap();
    let out = t.take_v2_out();
    match &out[0] {
        Message::OpenMiningChannelError(e) => {
            assert_eq!(e.req_id, 9);
            assert_eq!(e.code.data, b"auth-failed".to_vec());
        }
        other => panic!("expected OpenMiningChannelError, got {:?}", other),
    }
}

#[test]
fn job_flow_future_then_clean() {
    let mut t = operational_session();
    t.handle_v1(notify(false, 0x11, "j1")).unwrap();
    let out1 = t.take_v2_out();
    assert_eq!(out1.len(), 1);
    match &out1[0] {
        Message::NewExtendedMiningJob(j) => {
            assert!(j.future_job);
            assert_eq!(j.channel_id, 1);
        }
        other => panic!("expected NewExtendedMiningJob, got {:?}", other),
    }
    t.handle_v1(notify(true, 0x22, "j2")).unwrap();
    let out2 = t.take_v2_out();
    assert_eq!(out2.len(), 2);
    let j2 = match &out2[0] {
        Message::NewExtendedMiningJob(j) => {
            assert!(!j.future_job);
            j.job_id
        }
        other => panic!("expected NewExtendedMiningJob, got {:?}", other),
    };
    match &out2[1] {
        Message::SetNewPrevHash(p) => {
            assert_eq!(p.channel_id, 1);
            assert_eq!(p.job_id, j2);
            assert_eq!(p.prev_hash, u256(0x22));
        }
        other => panic!("expected SetNewPrevHash, got {:?}", other),
    }
}

#[test]
fn set_difficulty_sends_divided_target() {
    let mut t = operational_session();
    t.handle_v1(V1Event::SetDifficulty { difficulty: 1024 }).unwrap();
    let out = t.take_v2_out();
    assert_eq!(out.len(), 1);
    match &out[0] {
        Message::SetTarget(st) => {
            assert_eq!(st.channel_id, 1);
            // diff1_target / 1024 = 0xffff * 2^198: bytes 24..27 are c0 ff 3f.
            let mut expected = vec![0u8; 32];
            expected[24] = 0xc0;
            expected[25] = 0xff;
            expected[26] = 0x3f;
            assert_eq!(st.max_target.bytes, expected);
        }
        other => panic!("expected SetTarget, got {:?}", other),
    }
}

#[test]
fn stale_share_is_rejected_without_reaching_v1() {
    let mut t = operational_session();
    t.handle_v1(notify(false, 0x11, "j1")).unwrap();
    let out1 = t.take_v2_out();
    let j1 = match &out1[0] {
        Message::NewExtendedMiningJob(j) => j.job_id,
        other => panic!("expected job, got {:?}", other),
    };
    t.handle_v1(notify(true, 0x22, "j2")).unwrap();
    t.take_v2_out();
    t.handle_v2(Message::SubmitSharesStandard(SubmitSharesStandard {
        channel_id: 1,
        seq_num: 1,
        job_id: j1,
        nonce: 1,
        ntime: 1000,
        version: 0,
    }))
    .unwrap();
    assert!(t.take_v1_out().is_empty());
    let out = t.take_v2_out();
    assert_eq!(out.len(), 1);
    match &out[0] {
        Message::SubmitSharesError(e) => {
            assert_eq!(e.seq_num, 1);
            assert_eq!(e.code.data, b"stale-share".to_vec());
        }
        other => panic!("expected SubmitSharesError, got {:?}", other),
    }
}

#[test]
fn unknown_channel_share_is_rejected() {
    let mut t = operational_session();
    t.handle_v2(Message::SubmitSharesStandard(SubmitSharesStandard {
        channel_id: 77,
        seq_num: 5,
        job_id: 1,
        nonce: 0,
        ntime: 0,
        version: 0,
    }))
    .unwrap();
    let out = t.take_v2_out();
    match &out[0] {
        Message::SubmitSharesError(e) => {
            assert_eq!(e.channel_id, 77);
            assert_eq!(e.code.data, b"invalid-channel".to_vec());
        }
        other => panic!("expected SubmitSharesError, got {:?}", other),
    }
    assert!(t.take_v1_out().is_empty());
}

fn submit_on_active(t: &mut Translator, job: u32, seq: u32) -> u32 {
    t.handle_v2(Message::SubmitSharesStandard(SubmitSharesStandard {
        channel_id: 1,
        seq_num: seq,
        job_id: job,
        nonce: seq,
        ntime: 1000,
        version: 0,
    }))
    .unwrap();
    let v1 = t.take_v1_out();
    match v1.last().expect("submit forwarded") {
        V1Request::Submit { id, .. } => *id,
        other => panic!("expected submit, got {:?}", other),
    }
}

#[test]
fn accepted_shares_are_acknowledged_in_order() {
    let mut t = operational_session();
    t.handle_v1(notify(true, 0x22, "j2")).unwrap();
    let out = t.take_v2_out();
    let job = match &out[0] {
        Message::NewExtendedMiningJob(j) => j.job_id,
        other => panic!("expected job, got {:?}", other),
    };
    let id1 = submit_on_active(&mut t, job, 1);
    let id2 = submit_on_active(&mut t, job, 2);
    // Results arrive out of order: the acknowledged sequence never decreases.
    t.handle_v1(V1Event::SubmitResult { id: id2, ok: true }).unwrap();
    t.handle_v1(V1Event::SubmitResult { id: id1, ok: true }).unwrap();
    let acks = t.take_v2_out();
    assert_eq!(acks.len(), 2);
    let mut last: u32 = 0;
    let mut accepted: u32 = 0;
    for m in &acks {
        match m {
            Message::SubmitSharesSuccess(s) => {
                assert!(s.last_seq_num >= last);
                last = s.last_seq_num;
                accepted += s.new_submits_accepted_count;
            }
            other => panic!("expected SubmitSharesSuccess, got {:?}", other),
        }
    }
    assert_eq!(accepted, 2);
    assert_eq!(t.total_accepted_upstream, 2);
    assert_eq!(t.total_reported_downstream, 2);
}

#[test]
fn rejected_share_gets_error_code() {
    let mut t = operational_session();
    t.handle_v1(notify(true, 0x22, "j2")).unwrap();
    let out = t.take_v2_out();
    let job = match &out[0] {
        Message::NewExtendedMiningJob(j) => j.job_id,
        other => panic!("expected job, got {:?}", other),
    };
    let id = submit_on_active(&mut t, job, 3);
    t.handle_v1(V1Event::SubmitResult { id, ok: false }).unwrap();
    let acks = t.take_v2_out();
    match &acks[0] {
        Message::SubmitSharesError(e) => {
            assert_eq!(e.seq_num, 3);
            assert_eq!(e.code.data, b"rejected".to_vec());
        }
        other => panic!("expected SubmitSharesError, got {:?}", other),
    }
    assert_eq!(t.total_accepted_upstream, 0);
}

#[test]
fn extranonce2_rolls_from_the_channel_counter() {
    let mut t = operational_session();
    t.handle_v1(notify(true, 0x22, "j2")).unwrap();
    let out = t.take_v2_out();
    let job = match &out[0] {
        Message::NewExtendedMiningJob(j) => j.job_id,
        other => panic!("expected job, got {:?}", other),
    };
    t.handle_v2(Message::SubmitSharesStandard(SubmitSharesStandard {
        channel_id: 1,
        seq_num: 1,
        job_id: job,
        nonce: 0,
        ntime: 0,
        version: 0,
    }))
    .unwrap();
    t.handle_v2(Message::SubmitSharesStandard(SubmitSharesStandard {
        channel_id: 1,
        seq_num: 2,
        job_id: job,
        nonce: 0,
        ntime: 0,
        version: 0,
    }))
    .unwrap();
    let v1 = t.take_v1_out();
    let e2: Vec<Vec<u8>> = v1
        .iter()
        .filter_map(|m| match m {
            V1Request::Submit { extranonce2, job_id, .. } => {
                assert_eq!(job_id, &b"j2".to_vec());
                Some(extranonce2.clone())
            }
            _ => None,
        })
        .collect();
    assert_eq!(e2, vec![vec![0, 0, 0, 0], vec![1, 0, 0, 0]]);
}

#[test]
fn version_mask_cleared_without_client_rolling() {
    let mut t = operational_session();
    t.handle_v1(notify(true, 0x22, "j2")).unwrap();
    let out = t.take_v2_out();
    let job = match &out[0] {
        Message::NewExtendedMiningJob(j) => j.job_id,
        other => panic!("expected job, got {:?}", other),
    };
    t.handle_v2(Message::SubmitSharesStandard(SubmitSharesStandard {
        channel_id: 1,
        seq_num: 1,
        job_id: job,
        nonce: 0,
        ntime: 0,
        version: 0x1fffe000,
    }))
    .unwrap();
    let v1 = t.take_v1_out();
    match &v1[0] {
        V1Request::Submit { version, .. } => assert_eq!(*version, 0),
        other => panic!("expected submit, got {:?}", other),
    }
}

#[test]
fn close_channel_removes_record_silently() {
    let mut t = operational_session();
    t.handle_v2(Message::CloseChannel(CloseChannel {
        channel_id: 1,
        reason_code: stratum_proxy::types::Str0_32::from_bytes(b"bye".to_vec()).unwrap(),
    }))
    .unwrap();
    assert!(t.take_v1_out().is_empty());
    assert!(t.take_v2_out().is_empty());
    assert!(t.channels.is_empty());
}

#[test]
fn update_channel_records_the_new_rate() {
    let mut t = operational_session();
    let bits = (3.5e13f32).to_bits();
    t.handle_v2(Message::UpdateChannel(UpdateChannel {
        channel_id: 1,
        nominal_hash_rate: bits,
        maximum_target: u256(0xff),
    }))
    .unwrap();
    assert!(t.take_v2_out().is_empty());
    assert_eq!(t.channels[0].last_nominal_hashrate, bits);
}

#[test]
fn update_channel_unknown_id_errors() {
    let mut t = operational_session();
    t.handle_v2(Message::UpdateChannel(UpdateChannel {
        channel_id: 5,
        nominal_hash_rate: 0,
        maximum_target: u256(0xff),
    }))
    .unwrap();
    let out = t.take_v2_out();
    match &out[0] {
        Message::UpdateChannelError(e) => assert_eq!(e.channel_id, 5),
        other => panic!("expected UpdateChannelError, got {:?}", other),
    }
}

#[test]
fn v1_reconnect_is_forwarded() {
    let mut t = operational_session();
    t.handle_v1(V1Event::Reconnect { host: b"other.pool".to_vec(), port: 4444 }).unwrap();
    let out = t.take_v2_out();
    match &out[0] {
        Message::Reconnect(r) => {
            assert_eq!(r.new_host.data, b"other.pool".to_vec());
            assert_eq!(r.new_port, 4444);
        }
        other => panic!("expected Reconnect, got {:?}", other),
    }
}

#[test]
fn v1_loss_notifies_every_channel_and_closes() {
    let mut t = operational_session();
    t.on_v1_disconnect();
    let out = t.take_v2_out();
    assert_eq!(out.len(), 1);
    match &out[0] {
        Message::ChannelEndpointChanged(c) => assert_eq!(c.channel_id, 1),
        other => panic!("expected ChannelEndpointChanged, got {:?}", other),
    }
    assert_eq!(t.state, SessionState::Closing);
}

#[test]
fn out_of_state_messages_are_violations() {
    let mut t = Translator::new();
    let r = t.handle_v2(Message::SubmitSharesStandard(SubmitSharesStandard {
        channel_id: 1,
        seq_num: 1,
        job_id: 1,
        nonce: 0,
        ntime: 0,
        version: 0,
    }));
    assert_eq!(r, Err(TranslationError::ProtocolViolation));
    let r2 = t.handle_v1(V1Event::SubmitResult { id: 1, ok: true });
    assert_eq!(r2, Err(TranslationError::TranslationLogic));
}

#[test]
fn target_helpers_compute_exact_values() {
    let one = target_for_difficulty(1);
    assert_eq!(one, diff1_target());
    let halved = target_for_difficulty(2);
    // 0xffff * 2^208 / 2 = 0x7fff8 * 2^196: bytes 24..27 little-endian.
    let mut expected = vec![0u8; 32];
    expected[25] = 0x80;
    expected[26] = 0xff;
    expected[27] = 0x7f;
    assert_eq!(halved.bytes, expected);
    assert_eq!(counter_le_bytes(0x01020304, 4), vec![4, 3, 2, 1]);
    assert_eq!(counter_le_bytes(0x0102030405, 4), vec![5, 4, 3, 2]);
}

#[test]
fn parked_opens_resolve_by_request_id() {
    let mut t = operational_session();
    t.handle_v2(Message::OpenStandardMiningChannel(OpenStandardMiningChannel {
        req_id: 10,
        user: s255("a.w"),
        nominal_hashrate: 0,
        max_target: u256(0xff),
    }))
    .unwrap();
    t.handle_v2(Message::OpenStandardMiningChannel(OpenStandardMiningChannel {
        req_id: 11,
        user: s255("b.w"),
        nominal_hashrate: 0,
        max_target: u256(0xff),
    }))
    .unwrap();
    let v1 = t.take_v1_out();
    let ids: Vec<u32> = v1
        .iter()
        .map(|m| match m {
            V1Request::Authorize { id, .. } => *id,
            other => panic!("expected authorize, got {:?}", other),
        })
        .collect();
    assert_eq!(ids.len(), 2);
    // The later verdict arrives first: each reply carries its own req_id.
    t.handle_v1(V1Event::AuthorizeResult { id: ids[1], ok: true }).unwrap();
    t.handle_v1(V1Event::AuthorizeResult { id: ids[0], ok: false }).unwrap();
    let out = t.take_v2_out();
    assert_eq!(out.len(), 2);
    match &out[0] {
        Message::OpenStandardMiningChannelSuccess(su) => {
            assert_eq!(su.req_id, 11);
            assert_eq!(su.channel_id, 2);
        }
        other => panic!("expected channel success, got {:?}", other),
    }
    match &out[1] {
        Message::OpenMiningChannelError(e) => assert_eq!(e.req_id, 10),
        other => panic!("expected OpenMiningChannelError, got {:?}", other),
    }
}
