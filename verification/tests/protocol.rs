use elfo::codec::{decode_message, encode_message, WireMessage};
use elfo::config::{decode_config, encode_config, ConfigValue};
use elfo::context::Context;
use elfo::demux::Demux;
use elfo::discovery::{
    control_maintenance_step, retry_delay, ConnectionRole, ControlAction, ControlPhase, Discovery,
    HandshakeError, INITIAL_WINDOW_SIZE,
};
use elfo::messages::GroupInfo;
use elfo::node_map::{infer_connections, NodeInfo};

fn group(no: u32, name: &str, interests: &[&str]) -> GroupInfo {
    GroupInfo {
        group_no: no,
        name: name.as_bytes().to_vec(),
        interests: interests.iter().map(|s| s.as_bytes().to_vec()).collect(),
    }
}

fn node(no: u16, launch_id: u64, groups: Vec<GroupInfo>) -> NodeInfo {
    NodeInfo { node_no: no, launch_id, groups }
}

#[test]
fn switch_to_control_round_trips() {
    let m = WireMessage::SwitchToControl {
        groups: vec![group(1, "a", &["b"]), group(7, "metrics", &["a", "b"])],
    };
    let bytes = encode_message(&m);
    assert_eq!(decode_message(&bytes), Some(m));
}

#[test]
fn switch_to_data_round_trips() {
    let m = WireMessage::SwitchToData {
        my_group_no: 3,
        your_group_no: 9,
        initial_window: INITIAL_WINDOW_SIZE,
    };
    let bytes = encode_message(&m);
    assert_eq!(decode_message(&bytes), Some(m));
    let negative = WireMessage::SwitchToData {
        my_group_no: 1,
        your_group_no: 2,
        initial_window: -17,
    };
    let bytes = encode_message(&negative);
    assert_eq!(decode_message(&bytes), Some(negative));
}

#[test]
fn ping_and_pong_round_trip() {
    let m = WireMessage::Ping { payload: u64::MAX };
    let bytes = encode_message(&m);
    assert_eq!(decode_message(&bytes), Some(m));
    let m = WireMessage::Pong { payload: 0 };
    let bytes = encode_message(&m);
    assert_eq!(decode_message(&bytes), Some(m));
}

#[test]
fn garbage_does_not_decode() {
    assert_eq!(decode_message(&vec![]), None);
    assert_eq!(decode_message(&vec![9, 1, 2, 3]), None);
    // A truncated Ping is rejected, and so is trailing junk.
    let m = WireMessage::Ping { payload: 5 };
    let mut bytes = encode_message(&m);
    bytes.pop();
    assert_eq!(decode_message(&bytes), None);
    let mut bytes = encode_message(&m);
    bytes.push(0);
    assert_eq!(decode_message(&bytes), None);
}

#[test]
fn config_blob_round_trips_and_rejects_garbage() {
    let c = ConfigValue {
        mailbox_capacity: 64,
        attempt_interval_ms: 2500,
        lz4: true,
        listen: vec![b"tcp://0.0.0.0:4242".to_vec()],
        predefined: vec![b"tcp://peer-1:4242".to_vec(), b"tcp://peer-2:4242".to_vec()],
    };
    let blob = encode_config(&c);
    let back = decode_config(&blob).expect("round trip");
    assert_eq!(back, c);
    assert_eq!(decode_config(&vec![1, 2, 3]), None);
}

#[test]
fn mutual_interest_yields_one_pair_per_direction() {
    let n1_groups = vec![group(1, "a", &["b"])];
    let n2_groups = vec![group(2, "b", &["a"])];
    assert_eq!(infer_connections(&n1_groups, &n2_groups), vec![(1, 2)]);
    assert_eq!(infer_connections(&n2_groups, &n1_groups), vec![(2, 1)]);
}

#[test]
fn control_handshake_opens_data_pairs_both_ways() {
    let ctx = Context::new(Demux::new());
    let mut d = Discovery::new(ctx, node(1, 100, vec![group(1, "a", &["b"])]));

    // The server side answers a control offer with our own groups.
    let received = WireMessage::SwitchToControl { groups: vec![group(2, "b", &["a"])] };
    let (reply, role) = d.accept_connection(received).unwrap();
    match reply {
        WireMessage::SwitchToControl { groups } => assert_eq!(groups, vec![group(1, "a", &["b"])]),
        other => panic!("expected a control reply, got {:?}", other),
    }
    let remote_groups = match role {
        ConnectionRole::Control(g) => g,
        other => panic!("expected a control role, got {:?}", other),
    };

    // As the initiator we open the interested pair from both inferences;
    // duplicate attempts are tolerated rather than deduplicated here.
    let pairs = d.on_control_accepted(2, 200, remote_groups, true);
    assert_eq!(pairs, vec![(1, 2), (1, 2)]);

    // The acceptor side knows no transport and opens nothing itself.
    let ctx = Context::new(Demux::new());
    let mut acceptor = Discovery::new(ctx, node(2, 200, vec![group(2, "b", &["a"])]));
    let pairs = acceptor.on_control_accepted(1, 100, vec![group(1, "a", &["b"])], false);
    assert_eq!(pairs, vec![]);
}

#[test]
fn data_handshake_echoes_swapped_group_numbers() {
    let ctx = Context::new(Demux::new());
    let d = Discovery::new(ctx, node(1, 100, vec![group(1, "a", &["b"])]));
    let received = WireMessage::SwitchToData {
        my_group_no: 2,
        your_group_no: 1,
        initial_window: 5,
    };
    let (reply, role) = d.accept_connection(received).unwrap();
    assert_eq!(
        reply,
        WireMessage::SwitchToData {
            my_group_no: 1,
            your_group_no: 2,
            initial_window: INITIAL_WINDOW_SIZE,
        }
    );
    assert_eq!(
        role,
        ConnectionRole::Data { my_group_no: 2, your_group_no: 1, initial_window: 5 }
    );
}

#[test]
fn unexpected_first_message_is_rejected() {
    let ctx = Context::new(Demux::new());
    let d = Discovery::new(ctx, node(1, 100, vec![]));
    let r = d.accept_connection(WireMessage::Ping { payload: 0 });
    assert_eq!(r.unwrap_err(), HandshakeError::UnexpectedMessage);
    let sent = ConnectionRole::Control(vec![]);
    let r = d.expect_reply(&sent, WireMessage::Pong { payload: 0 });
    assert_eq!(r.unwrap_err(), HandshakeError::UnexpectedMessage);
}

#[test]
fn self_connection_is_detected_by_node_number() {
    let ctx = Context::new(Demux::new());
    let d = Discovery::new(ctx, node(1, 100, vec![]));
    assert!(d.is_self_connection(1));
    assert!(!d.is_self_connection(2));
}

#[test]
fn retry_policy_staggers_by_launch_id() {
    assert_eq!(retry_delay(1000, 12_345), 1000 + 12_345 % 5000);
    assert_eq!(retry_delay(u64::MAX, 1), u64::MAX);
    let ctx = Context::new(Demux::new());
    let d = Discovery::new(ctx, node(1, 100, vec![group(3, "a", &["b"])]));
    let (delay, role) = d.on_data_connection_failed(3, 4);
    assert_eq!(delay, 1000);
    assert_eq!(
        role,
        ConnectionRole::Data {
            my_group_no: 3,
            your_group_no: 4,
            initial_window: INITIAL_WINDOW_SIZE,
        }
    );
    assert_eq!(d.on_control_connection_failed(true), Some(5000));
    assert_eq!(d.on_control_connection_failed(false), None);
}

#[test]
fn control_maintenance_cycles_ping_pong_sleep() {
    let (p, a) = control_maintenance_step(ControlPhase::SendPing, None);
    assert_eq!(p, ControlPhase::ExpectPing);
    assert_eq!(a, ControlAction::Send(WireMessage::Ping { payload: 0 }));
    let (p, a) = control_maintenance_step(p, Some(WireMessage::Ping { payload: 0 }));
    assert_eq!(p, ControlPhase::SendPong);
    assert_eq!(a, ControlAction::Receive);
    let (p, a) = control_maintenance_step(p, None);
    assert_eq!(p, ControlPhase::ExpectPong);
    assert_eq!(a, ControlAction::Send(WireMessage::Pong { payload: 0 }));
    let (p, a) = control_maintenance_step(p, Some(WireMessage::Pong { payload: 0 }));
    assert_eq!(p, ControlPhase::Sleep);
    assert_eq!(a, ControlAction::SleepMs(10000));
    let (p, _) = control_maintenance_step(p, None);
    assert_eq!(p, ControlPhase::SendPing);
    // An unexpected message fails the connection.
    let (_, a) = control_maintenance_step(
        ControlPhase::ExpectPing,
        Some(WireMessage::Pong { payload: 0 }),
    );
    assert_eq!(a, ControlAction::Fail);
}
