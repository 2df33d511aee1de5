use sdaa_ctrl::addr::{multicast_mac_from_socketaddr, SockAddr};
use sdaa_ctrl::ctrl_msg::{CtrlMsg, Health};
use sdaa_ctrl::engine::{
    Action, BcastSession, CmdReplySummary, Phase, SendSession, SessionError,
};
use sdaa_ctrl::retry::{
    found_devices, is_locked, next_round, outstanding_targets, Predicate, RetryDecision,
    RetryPolicy,
};

fn v4(a: u8, b: u8, c: u8, d: u8, port: u16) -> SockAddr {
    SockAddr::V4 { ip: [a, b, c, d], port }
}

fn targets(n: u8) -> Vec<Vec<SockAddr>> {
    (0..n).map(|i| vec![v4(10, 0, 0, 10 + i, 3000)]).collect()
}

/// Sends every request, answering none, and returns the tokens that went out.
fn send_all(s: &mut SendSession) -> Vec<u32> {
    let mut tokens = Vec::new();
    loop {
        match s.action() {
            Action::Send { target, bytes } => {
                assert_eq!(target, tokens.len());
                let m = CtrlMsg::decode(&bytes).unwrap();
                tokens.push(m.get_msg_id());
                s.on_sent();
            }
            Action::Poll => {
                s.on_nothing();
                if tokens.len() == 0 {
                    break;
                }
                if !matches!(s.action(), Action::Send { .. }) {
                    break;
                }
            }
            _ => break,
        }
    }
    tokens
}

fn status_reply(id: u32, locked: u32) -> Vec<u8> {
    CtrlMsg::QueryReply {
        msg_id: id,
        fm_ver: 1,
        tick_cnt1: 10,
        tick_cnt2: 10,
        trans_state: 0,
        locked,
        health: Health::TEHealth { nhealth: 1, payload: vec![0] },
    }
    .encode()
    .unwrap()
}

fn finish_by_timeout(mut s: SendSession) -> CmdReplySummary {
    loop {
        match s.action() {
            Action::Poll | Action::Wait => s.on_nothing(),
            Action::Finish => return s.finish(),
            Action::Send { .. } => s.on_sent(),
        }
    }
}

#[test]
fn all_targets_answer_once() {
    let mut s = SendSession::new(CtrlMsg::Sync { msg_id: 0 }, targets(4), 0xffff_fffe).unwrap();
    let tokens = send_all(&mut s);
    assert_eq!(tokens, vec![0xffff_fffe, 0xffff_ffff, 0, 1]);
    let mut distinct = tokens.clone();
    distinct.sort();
    distinct.dedup();
    assert_eq!(distinct.len(), 4);
    assert!(matches!(s.action(), Action::Wait));
    for &k in &[2usize, 0, 3, 1] {
        let reply = CtrlMsg::SyncReply { msg_id: tokens[k] }.encode().unwrap();
        s.on_datagram(v4(10, 0, 0, 10 + k as u8, 3000), &reply);
    }
    assert!(matches!(s.action(), Action::Finish));
    let summary = s.finish();
    assert_eq!(summary.normal_reply.len(), 4);
    assert!(summary.no_reply.is_empty());
    assert!(summary.invalid_reply.is_empty());
    assert!(summary.unmatched.is_empty());
}

#[test]
fn replies_during_drain_are_matched() {
    let mut s = SendSession::new(CtrlMsg::Query { msg_id: 0 }, targets(2), 100).unwrap();
    let first = match s.action() {
        Action::Send { bytes, .. } => CtrlMsg::decode(&bytes).unwrap().get_msg_id(),
        other => panic!("expected a send, got {:?}", other),
    };
    s.on_sent();
    assert!(matches!(s.action(), Action::Poll));
    s.on_datagram(v4(10, 0, 0, 10, 3000), &status_reply(first, 0x3f));
    assert!(matches!(s.action(), Action::Poll));
    s.on_nothing();
    assert!(matches!(s.action(), Action::Send { target: 1, .. }));
    s.on_sent();
    s.on_nothing();
    assert!(matches!(s.action(), Action::Wait));
    let summary = finish_by_timeout(s);
    assert_eq!(summary.normal_reply.len(), 1);
    assert_eq!(summary.no_reply, vec![(vec![v4(10, 0, 0, 11, 3000)], 101)]);
}

#[test]
fn silent_targets_are_all_reported() {
    let ts = vec![
        vec![v4(10, 0, 0, 1, 3000), v4(10, 0, 0, 2, 3000)],
        vec![v4(10, 0, 0, 3, 3000)],
        vec![],
    ];
    let s = SendSession::new(CtrlMsg::Query { msg_id: 0 }, ts.clone(), 40).unwrap();
    let summary = finish_by_timeout(s);
    assert_eq!(summary.no_reply, vec![(ts[0].clone(), 40), (ts[1].clone(), 41), (ts[2].clone(), 42)]);
    assert!(summary.normal_reply.is_empty());
}

#[test]
fn unreachable_peer_example() {
    let target = vec![vec![v4(10, 0, 0, 5, 3000)]];
    let s = SendSession::new(CtrlMsg::Query { msg_id: 7 }, target, 7).unwrap();
    let summary = finish_by_timeout(s);
    assert_eq!(summary.no_reply, vec![(vec![v4(10, 0, 0, 5, 3000)], 7)]);
    assert!(summary.normal_reply.is_empty());
    assert!(summary.invalid_reply.is_empty());
}

#[test]
fn rejection_goes_to_invalid_reply() {
    let mut s = SendSession::new(CtrlMsg::PwrCtrl { msg_id: 0, op_code: 1 }, targets(2), 500)
        .unwrap();
    let tokens = send_all(&mut s);
    let reject = CtrlMsg::InvalidMsg { msg_id: tokens[1], err_code: 3, len: 3, description: b"bad".to_vec() }
        .encode()
        .unwrap();
    s.on_datagram(v4(10, 0, 0, 11, 3000), &reject);
    s.on_datagram(v4(10, 0, 0, 10, 3000), &CtrlMsg::PwrCtrlReply { msg_id: tokens[0] }.encode().unwrap());
    let summary = s.finish();
    assert_eq!(summary.invalid_reply.len(), 1);
    assert!(summary.invalid_reply[0].1.is_invalid());
    assert_eq!(summary.normal_reply.len(), 1);
    assert!(summary.no_reply.is_empty());
}

#[test]
fn stray_and_duplicate_tokens_are_unmatched() {
    let mut s = SendSession::new(CtrlMsg::Sync { msg_id: 0 }, targets(1), 9).unwrap();
    let tokens = send_all(&mut s);
    let from = v4(10, 0, 0, 10, 3000);
    s.on_datagram(from, &CtrlMsg::SyncReply { msg_id: 12345 }.encode().unwrap());
    assert!(matches!(s.action(), Action::Wait));
    s.on_datagram(from, &CtrlMsg::SyncReply { msg_id: tokens[0] }.encode().unwrap());
    assert!(matches!(s.action(), Action::Finish));
    s.on_datagram(from, &CtrlMsg::SyncReply { msg_id: tokens[0] }.encode().unwrap());
    let summary = s.finish();
    assert_eq!(summary.unmatched, vec![(from, 12345), (from, tokens[0])]);
    assert_eq!(summary.normal_reply.len(), 3);
    assert!(summary.no_reply.is_empty());
}

#[test]
fn undecodable_datagram_is_recorded_and_exchange_goes_on() {
    let mut s = SendSession::new(CtrlMsg::Sync { msg_id: 0 }, targets(1), 1).unwrap();
    let tokens = send_all(&mut s);
    let from = v4(10, 0, 0, 10, 3000);
    s.on_datagram(from, &[1, 2, 3]);
    s.on_datagram(from, &[0x42, 0, 0, 0, 0, 0, 0, 0]);
    assert!(matches!(s.action(), Action::Wait));
    s.on_datagram(from, &CtrlMsg::SyncReply { msg_id: tokens[0] }.encode().unwrap());
    let summary = s.finish();
    assert_eq!(summary.undecodable.len(), 2);
    assert_eq!(summary.normal_reply.len(), 1);
    assert!(summary.no_reply.is_empty());
}

#[test]
fn no_targets_means_nothing_to_do() {
    let s = SendSession::new(CtrlMsg::Sync { msg_id: 0 }, vec![], 1).unwrap();
    assert!(matches!(s.action(), Action::Finish));
    let summary = s.finish();
    assert!(summary.no_reply.is_empty());
}

#[test]
fn malformed_command_is_refused() {
    let bad = CtrlMsg::I2CWrite { msg_id: 0, dev_addr: 1, len: 5, payload: vec![1] };
    assert_eq!(SendSession::new(bad.clone(), targets(1), 0).err(), Some(SessionError::MalformedCommand));
    assert_eq!(BcastSession::new(bad).err(), Some(SessionError::MalformedCommand));
}

#[test]
fn random_start_stamps_consecutive_tokens() {
    let mut s = SendSession::start(CtrlMsg::Query { msg_id: 0 }, targets(3)).unwrap();
    let tokens = send_all(&mut s);
    assert_eq!(tokens.len(), 3);
    assert_eq!(tokens[1], tokens[0].wrapping_add(1));
    assert_eq!(tokens[2], tokens[0].wrapping_add(2));
}

#[test]
fn broadcast_counts_every_responder() {
    let mut b = BcastSession::new(CtrlMsg::Query { msg_id: 99 }).unwrap();
    match b.action() {
        Action::Send { target, bytes } => {
            assert_eq!(target, 0);
            assert_eq!(bytes, vec![1, 0, 0, 0, 0, 0, 0, 0]);
        }
        other => panic!("expected a send, got {:?}", other),
    }
    b.on_sent();
    for k in 0..3u8 {
        b.on_datagram(v4(10, 0, 0, k, 3000), &status_reply(0, 0));
    }
    b.on_nothing();
    assert!(matches!(b.action(), Action::Wait));
    let reject = CtrlMsg::InvalidMsg { msg_id: 0, err_code: 1, len: 0, description: vec![] };
    b.on_datagram(v4(10, 0, 0, 9, 3000), &reject.encode().unwrap());
    b.on_datagram(v4(10, 0, 0, 8, 3000), &status_reply(0, 0));
    b.on_nothing();
    assert!(matches!(b.action(), Action::Finish));
    let summary = b.finish();
    assert_eq!(summary.normal_reply.len() + summary.invalid_reply.len(), 5);
    assert_eq!(summary.invalid_reply.len(), 1);
    assert!(summary.no_reply.is_empty());
}

#[test]
fn summary_starts_empty() {
    let s = CmdReplySummary::default();
    assert!(s.no_reply.is_empty() && s.normal_reply.is_empty() && s.invalid_reply.is_empty());
    assert_eq!(Phase::Done, Phase::Done);
}

#[test]
fn retry_converges_once_all_lock() {
    let policy = RetryPolicy { max_attempts: Some(10), interval_ms: 1000, backoff: 1, max_interval_ms: 1000 };
    let ts = targets(3);
    let mut round: u32 = 0;
    let mut current: Vec<Vec<SockAddr>> = ts.clone();
    loop {
        round += 1;
        let mut s = SendSession::new(CtrlMsg::Query { msg_id: 0 }, current.clone(), round * 100).unwrap();
        let tokens = send_all(&mut s);
        for (k, t) in current.iter().enumerate() {
            // Target 10.0.0.10 reports "still locking" in the first round.
            let locking = round == 1 && t[0] == v4(10, 0, 0, 10, 3000);
            s.on_datagram(t[0], &status_reply(tokens[k], if locking { 0x0f } else { 0x3f }));
        }
        let summary = s.finish();
        match next_round(&policy, round, &summary, Predicate::Locked) {
            RetryDecision::Done => break,
            RetryDecision::Retry { targets, delay_ms } => {
                assert_eq!(targets, vec![v4(10, 0, 0, 10, 3000)]);
                assert_eq!(delay_ms, 1000);
                current = targets.into_iter().map(|a| vec![a]).collect();
            }
            RetryDecision::GiveUp { .. } => panic!("gave up"),
        }
    }
    assert_eq!(round, 2);
}

#[test]
fn retry_gives_up_after_max_attempts() {
    let policy = RetryPolicy { max_attempts: Some(2), interval_ms: 10, backoff: 2, max_interval_ms: 1000 };
    let s = SendSession::new(CtrlMsg::PwrCtrl { msg_id: 0, op_code: 1 }, targets(2), 0).unwrap();
    let summary = finish_by_timeout(s);
    match next_round(&policy, 1, &summary, Predicate::AnyReply) {
        RetryDecision::Retry { targets, delay_ms } => {
            assert_eq!(targets, vec![v4(10, 0, 0, 10, 3000), v4(10, 0, 0, 11, 3000)]);
            assert_eq!(delay_ms, 10);
        }
        other => panic!("expected a retry, got {:?}", other),
    }
    assert!(matches!(next_round(&policy, 2, &summary, Predicate::AnyReply), RetryDecision::GiveUp { .. }));
}

#[test]
fn backoff_grows_and_is_capped() {
    let policy = RetryPolicy { max_attempts: None, interval_ms: 100, backoff: 3, max_interval_ms: 1000 };
    assert_eq!(policy.delay_ms(0), 100);
    assert_eq!(policy.delay_ms(1), 300);
    assert_eq!(policy.delay_ms(2), 900);
    assert_eq!(policy.delay_ms(3), 1000);
    let huge = RetryPolicy { max_attempts: None, interval_ms: u64::MAX, backoff: u64::MAX, max_interval_ms: u64::MAX };
    assert_eq!(huge.delay_ms(5), u64::MAX);
}

#[test]
fn lock_predicate() {
    let r = CtrlMsg::decode(&status_reply(1, 0x2f)).unwrap();
    assert!(is_locked(&r));
    let r = CtrlMsg::decode(&status_reply(1, 0x1f)).unwrap();
    assert!(!is_locked(&r));
    assert!(!is_locked(&CtrlMsg::Sync { msg_id: 1 }));
}

#[test]
fn outstanding_skips_targets_without_addresses() {
    let mut summary = CmdReplySummary::new();
    summary.no_reply.push((vec![], 1));
    summary.no_reply.push((vec![v4(1, 2, 3, 4, 5), v4(1, 2, 3, 5, 5)], 2));
    assert_eq!(outstanding_targets(&summary, Predicate::AnyReply), vec![v4(1, 2, 3, 4, 5)]);
}

#[test]
fn discovery_lists_ipv4_senders() {
    let mut summary = CmdReplySummary::new();
    summary.normal_reply.push((v4(192, 168, 1, 100, 3000), CtrlMsg::Sync { msg_id: 0 }));
    summary.normal_reply.push((
        SockAddr::V6 { ip: [0; 16], port: 3000, flowinfo: 0, scope_id: 0 },
        CtrlMsg::Sync { msg_id: 0 },
    ));
    summary.normal_reply.push((v4(10, 0, 0, 1, 3000), CtrlMsg::Sync { msg_id: 0 }));
    assert_eq!(found_devices(&summary, 8), vec![0xc0a8_0164, 0x0a00_0001]);
    assert_eq!(found_devices(&summary, 1), vec![0xc0a8_0164]);
    assert_eq!(found_devices(&summary, 0), Vec::<u32>::new());
}

#[test]
fn multicast_mac_mapping() {
    assert_eq!(multicast_mac_from_socketaddr(&v4(239, 255, 1, 2, 4000)), Some([0x01, 0x00, 0x5e, 0x7f, 1, 2]));
    assert_eq!(multicast_mac_from_socketaddr(&v4(224, 128, 0, 251, 1)), Some([0x01, 0x00, 0x5e, 0x00, 0, 251]));
    assert_eq!(multicast_mac_from_socketaddr(&v4(192, 168, 1, 1, 1)), None);
    assert_eq!(multicast_mac_from_socketaddr(&v4(240, 0, 0, 1, 1)), None);
    let v6 = SockAddr::V6 { ip: [0xff; 16], port: 1, flowinfo: 0, scope_id: 0 };
    assert_eq!(multicast_mac_from_socketaddr(&v6), None);
}
