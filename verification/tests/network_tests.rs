use pf_sandbox::network::{
    frame_message, message_kind, Incoming, InitConnection, InputConfirm, MessageKind, Netplay,
    NetplayState, Ping, StepAction, DROPPED_PING_NANOS, PING_COUNT,
};

fn init(random: u64, build: &str, hash: &str) -> InitConnection {
    InitConnection { build_version: build.to_string(), hash: hash.to_string(), random }
}

fn connected(local_random: u64, peer_random: u64) -> Netplay<u32> {
    let mut n: Netplay<u32> = Netplay::new();
    n.connect(local_random, "build".to_string(), "hash".to_string());
    n.receive(Incoming::InitConnection(init(peer_random, "build", "hash")));
    match n.step(0) {
        StepAction::SendInit(i) => assert_eq!(i.random, local_random),
        _ => panic!("expected the connection request to be sent"),
    }
    n
}

#[test]
fn message_kinds_and_framing() {
    assert_eq!(message_kind(0x01), Some(MessageKind::InitConnection));
    assert_eq!(message_kind(0x02), Some(MessageKind::PingRequest));
    assert_eq!(message_kind(0x03), Some(MessageKind::PingResponse));
    assert_eq!(message_kind(0x04), Some(MessageKind::ControllerInputs));
    assert_eq!(message_kind(0xAA), Some(MessageKind::Disconnect));
    assert_eq!(message_kind(0x05), None);
    assert_eq!(frame_message(MessageKind::PingRequest, &vec![7]), vec![2, 7]);
    assert_eq!(frame_message(MessageKind::Disconnect, &vec![]), vec![0xAA]);
    assert_eq!(frame_message(MessageKind::ControllerInputs, &vec![1, 2, 3]), vec![4, 1, 2, 3]);
}

#[test]
fn offline_session() {
    let mut n: Netplay<u32> = Netplay::new();
    assert!(matches!(n.state(), NetplayState::Offline));
    assert_eq!(n.local_index(), 0);
    assert_eq!(n.frames_to_step(), 1);
    assert!(!n.skip_frame());
    assert_eq!(n.get_seed(), None);
    assert!(matches!(n.step(5), StepAction::Nothing));
    assert!(!n.disconnect());
    assert!(n.send_controller_inputs(vec![1]).is_none());
}

#[test]
fn mismatched_packages_disconnect() {
    let mut n: Netplay<u32> = Netplay::new();
    n.connect(3, "build".to_string(), "hash".to_string());
    n.receive(Incoming::InitConnection(init(8, "build", "other")));
    n.step(0);
    match n.state() {
        NetplayState::Disconnected { reason } => assert_eq!(
            reason,
            "Package hashes did not match, ensure everyone is using the same package."
        ),
        _ => panic!("expected a disconnect"),
    }

    let mut n: Netplay<u32> = Netplay::new();
    n.connect(3, "build".to_string(), "hash".to_string());
    n.receive(Incoming::InitConnection(init(8, "other", "hash")));
    n.step(0);
    match n.state() {
        NetplayState::Disconnected { reason } => assert_eq!(
            reason,
            "Build versions did not match, ensure everyone is using the same PF Sandbox build."
        ),
        _ => panic!("expected a disconnect"),
    }
}

#[test]
fn no_reply_keeps_connecting() {
    let mut n: Netplay<u32> = Netplay::new();
    n.connect(3, "build".to_string(), "hash".to_string());
    assert!(matches!(n.step(0), StepAction::SendInit(_)));
    assert!(matches!(n.state(), NetplayState::InitConnection(_)));
}

#[test]
fn ping_test_then_running() {
    let mut n = connected(5, 9);
    match n.state() {
        NetplayState::PingTest { pings } => {
            assert_eq!(pings.len(), PING_COUNT);
            assert!(pings.iter().all(|p| p.time_sent.is_none() && p.time_received.is_none()));
        }
        _ => panic!("expected a ping test"),
    }
    assert!(matches!(n.step(100), StepAction::SendPingRequest(0)));
    assert_eq!(n.receive(Incoming::PingRequest(17)), Some(17));
    assert_eq!(n.receive(Incoming::PingResponse(0)), None);
    assert!(matches!(n.step(300), StepAction::SendPingRequest(1)));
    match n.state() {
        NetplayState::PingTest { pings } => {
            assert_eq!(pings[0], Ping { time_sent: Some(100), time_received: Some(300) });
            assert_eq!(pings[1], Ping { time_sent: Some(300), time_received: None });
        }
        _ => panic!("expected a ping test"),
    }
    let mut now = 300;
    for id in 2..PING_COUNT {
        now += 10;
        match n.step(now) {
            StepAction::SendPingRequest(sent) => assert_eq!(sent as usize, id),
            _ => panic!("expected a ping request"),
        }
    }
    match n.step(now + 1) {
        StepAction::PingTestDone { total_nanos } => {
            assert_eq!(total_nanos, 200 + 224 * DROPPED_PING_NANOS as u128)
        }
        _ => panic!("expected the ping test to end"),
    }
    n.ping_test_passed();
    assert!(matches!(n.state(), NetplayState::Running { frame: 0 }));
    assert_eq!(n.local_index(), 0);
    assert_eq!(n.number_of_peers(), 2);
    assert_eq!(n.get_seed(), Some(5));
}

#[test]
fn larger_random_number_is_player_two() {
    let mut n = connected(9, 5);
    n.ping_test_passed();
    assert_eq!(n.local_index(), 1);
    assert_eq!(n.get_seed(), Some(5));
}

#[test]
fn failed_ping_test_disconnects() {
    let mut n = connected(1, 2);
    n.ping_test_failed("too slow".to_string());
    match n.state() {
        NetplayState::Disconnected { reason } => assert_eq!(reason, "too slow"),
        _ => panic!("expected a disconnect"),
    }
}

#[test]
fn inputs_are_confirmed_in_frame_order() {
    let mut n = connected(1, 2);
    n.ping_test_passed();
    assert!(n.confirmed_of(0).is_empty());
    n.receive(Incoming::ControllerInputs(InputConfirm { inputs: vec![11], frame: 1 }));
    n.receive(Incoming::ControllerInputs(InputConfirm { inputs: vec![22], frame: 5 }));
    n.receive(Incoming::ControllerInputs(InputConfirm { inputs: vec![10], frame: 0 }));
    assert!(matches!(n.step(0), StepAction::Nothing));
    assert_eq!(n.frame(), 1);
    assert_eq!(*n.confirmed_of(0), vec![vec![10], vec![11]]);
    assert_eq!(n.frames_to_step(), 1);
    let sent = n.send_controller_inputs(vec![3, 4]).unwrap();
    assert_eq!(sent.frame, 1);
    assert_eq!(sent.inputs, vec![3, 4]);
}

#[test]
fn waits_for_a_lagging_peer() {
    let mut n = connected(1, 2);
    n.ping_test_passed();
    n.step(0);
    assert_eq!(n.frame(), 1);
    assert!(!n.skip_frame());
    n.step(0);
    assert_eq!(n.frame(), 2);
    assert!(n.skip_frame());
    assert_eq!(n.frames_to_step(), 2);
    n.step(0);
    assert_eq!(n.frame(), 2);
}

#[test]
fn disconnecting() {
    let mut n = connected(1, 2);
    assert!(n.disconnect());
    match n.state() {
        NetplayState::Disconnected { reason } => assert_eq!(reason, "Disconnect requested by self"),
        _ => panic!("expected a disconnect"),
    }
    assert!(!n.disconnect());
    assert!(!n.disconnect_offline());

    let mut n = connected(1, 2);
    assert!(n.disconnect_offline());
    assert!(matches!(n.state(), NetplayState::Offline));

    let mut n = connected(1, 2);
    n.receive(Incoming::Disconnect);
    match n.state() {
        NetplayState::Disconnected { reason } => assert_eq!(reason, "Peer disconnected"),
        _ => panic!("expected a disconnect"),
    }
    n.offline();
    assert!(matches!(n.state(), NetplayState::Offline));

    let mut n: Netplay<u32> = Netplay::new();
    n.connect_failed("no route".to_string());
    assert!(matches!(n.state(), NetplayState::Disconnected { .. }));
}

#[test]
fn ping_step_readiness() {
    let mut n = connected(1, 2);
    assert!(n.can_step());
    n.receive(Incoming::PingResponse(255));
    assert!(!n.can_step());
}

#[test]
fn connecting_with_a_random_number() {
    let mut n: Netplay<u32> = Netplay::new();
    n.connect_random("build".to_string(), "hash".to_string());
    match n.state() {
        NetplayState::InitConnection(i) => {
            assert_eq!(i.build_version, "build");
            assert_eq!(i.hash, "hash");
        }
        _ => panic!("expected to be connecting"),
    }
    assert!(matches!(n.step(0), StepAction::SendInit(_)));
}

#[test]
fn an_offline_session_ignores_a_disconnect() {
    let mut n: Netplay<u32> = Netplay::new();
    assert!(n.receive(Incoming::Disconnect).is_none());
    n.step(0);
    assert!(matches!(n.state(), NetplayState::Offline));
}
