use shadow_broker::broker::Broker;
use shadow_broker::broker::Command;
use shadow_broker::broker::Outcome;
use shadow_broker::ident::Identity;
use shadow_broker::proto::Change;
use shadow_broker::proto::PublishRequest;
use shadow_broker::proto::SubscribeRequest;

fn ident(b: u8) -> Identity {
    Identity { bytes: vec![b; 32] }
}

fn shadow_addr(b: u8) -> Vec<u8> {
    vec![b; 32]
}

fn xaddr(b: u8) -> Vec<u8> {
    vec![b; 96]
}

fn sub_req(addr: u8) -> SubscribeRequest {
    SubscribeRequest { shadow: shadow_addr(addr), filter: Vec::new() }
}

fn pub_req(addr: u8, x: u8) -> PublishRequest {
    PublishRequest { shadow: shadow_addr(addr), xaddr: xaddr(x) }
}

fn events_for(evs: &[shadow_broker::proto::Emission], sink: u64) -> Vec<&Change> {
    evs.iter().filter(|e| e.sink == sink).map(|e| &e.change).collect()
}

#[test]
fn single_publish_then_subscribe() {
    let mut broker = Broker::new();
    let (_handles, evs) = broker
        .publish(ident(1), 11, pub_req(9, 7), 100, b"10.0.0.1:4433".to_vec())
        .unwrap();
    assert_eq!(evs.len(), 0);

    let (_hook, evs) = broker.subscribe(ident(2), sub_req(9), 200).unwrap();
    assert_eq!(evs.len(), 1);
    assert_eq!(evs[0].sink, 200);
    match &evs[0].change {
        Change::Publish { identity, xaddr: xa } => {
            assert_eq!(identity, &vec![1u8; 32]);
            assert_eq!(xa, &xaddr(7));
        },
        _ => panic!("expected exactly one publish event"),
    }
}

#[test]
fn subscribe_then_publish() {
    let mut broker = Broker::new();
    let (_hook, evs) = broker.subscribe(ident(2), sub_req(9), 200).unwrap();
    assert_eq!(evs.len(), 0);

    let (_handles, evs) = broker
        .publish(ident(1), 11, pub_req(9, 7), 100, b"10.0.0.1:4433".to_vec())
        .unwrap();
    assert_eq!(evs.len(), 1);
    assert_eq!(evs[0].sink, 200);
    assert!(matches!(&evs[0].change, Change::Publish { .. }));
}

#[test]
fn publisher_supersede() {
    let mut broker = Broker::new();
    let (_hook, _) = broker.subscribe(ident(2), sub_req(9), 300).unwrap();

    let mut seen: Vec<Change> = Vec::new();
    let mut conn_a: Vec<Change> = Vec::new();

    let (_handles_a, evs) = broker
        .publish(ident(1), 11, pub_req(9, 7), 100, b"10.0.0.1:4433".to_vec())
        .unwrap();
    for e in evs {
        if e.sink == 300 {
            seen.push(e.change);
        } else if e.sink == 100 {
            conn_a.push(e.change);
        }
    }

    let (_handles_b, evs) = broker
        .publish(ident(1), 12, pub_req(9, 8), 101, b"10.0.0.2:4433".to_vec())
        .unwrap();
    for e in evs {
        if e.sink == 300 {
            seen.push(e.change);
        } else if e.sink == 100 {
            conn_a.push(e.change);
        }
    }

    assert_eq!(seen.len(), 3);
    assert!(matches!(&seen[0], Change::Publish { .. }));
    assert!(matches!(&seen[1], Change::Unpublish { identity } if identity == &vec![1u8; 32]));
    assert!(matches!(&seen[2], Change::Publish { identity, .. } if identity == &vec![1u8; 32]));

    assert_eq!(conn_a.len(), 1);
    assert!(matches!(&conn_a[0], Change::Supersede));
}

#[test]
fn unpublish_notifies_subscribers() {
    let mut broker = Broker::new();
    let ((mark, hook), _) = broker
        .publish(ident(1), 11, pub_req(9, 7), 100, b"10.0.0.1:4433".to_vec())
        .unwrap();
    let (_shook, evs) = broker.subscribe(ident(2), sub_req(9), 200).unwrap();
    assert_eq!(evs.len(), 1);
    assert!(matches!(&evs[0].change, Change::Publish { .. }));

    let evs = broker.unpublish(hook);
    broker.release_peer(mark);
    let to_sub = events_for(&evs, 200);
    assert_eq!(to_sub.len(), 1);
    assert!(matches!(to_sub[0], Change::Unpublish { identity } if identity == &vec![1u8; 32]));
    assert!(broker.get_peer(&ident(1)).is_none());
}

#[test]
fn empty_shadow_is_removed_and_recreated_fresh() {
    let mut broker = Broker::new();
    let (hook, _) = broker.subscribe(ident(2), sub_req(9), 200).unwrap();
    assert_eq!(broker.shadows.len(), 1);

    broker.unsubscribe(hook);
    assert_eq!(broker.shadows.len(), 0);

    let (_hook, evs) = broker.subscribe(ident(2), sub_req(9), 201).unwrap();
    assert_eq!(broker.shadows.len(), 1);
    assert_eq!(evs.len(), 0);
}

#[test]
fn subscriber_supersede() {
    let mut broker = Broker::new();
    let (_h1, _) = broker.subscribe(ident(2), sub_req(9), 200).unwrap();
    let (_h2, evs) = broker.subscribe(ident(2), sub_req(9), 201).unwrap();
    let to_old = events_for(&evs, 200);
    assert_eq!(to_old.len(), 1);
    assert!(matches!(to_old[0], Change::Supersede));
}

#[test]
fn stale_peer_mark_leaves_newer_row() {
    let mut broker = Broker::new();
    let ((mark_a, _hook_a), _) = broker
        .publish(ident(1), 11, pub_req(9, 7), 100, b"10.0.0.1:4433".to_vec())
        .unwrap();
    let ((_mark_b, _hook_b), _) = broker
        .publish(ident(1), 12, pub_req(9, 8), 101, b"10.0.0.2:4433".to_vec())
        .unwrap();
    broker.release_peer(mark_a);
    let peer = broker.get_peer(&ident(1)).unwrap();
    assert_eq!(peer.0, 12);
    assert_eq!(peer.1, b"10.0.0.2:4433".to_vec());
}

#[test]
fn bad_shadow_address_is_refused() {
    let mut broker = Broker::new();
    let msg = SubscribeRequest { shadow: vec![9u8; 31], filter: Vec::new() };
    let err = broker.subscribe(ident(2), msg, 200).unwrap_err();
    assert_eq!(err, shadow_broker::BrokerError::BadAddress);
    assert_eq!(broker.shadows.len(), 0);
}

#[test]
fn bad_signed_address_is_refused() {
    let mut broker = Broker::new();
    let msg = PublishRequest { shadow: shadow_addr(9), xaddr: vec![7u8; 95] };
    let err = broker
        .publish(ident(1), 11, msg, 100, b"10.0.0.1:4433".to_vec())
        .unwrap_err();
    assert_eq!(err, shadow_broker::BrokerError::BadSignature);
    assert_eq!(broker.shadows.len(), 0);
    assert!(broker.get_peer(&ident(1)).is_none());
}

#[test]
fn get_peer_returns_latest_registration() {
    let mut broker = Broker::new();
    assert!(broker.get_peer(&ident(1)).is_none());
    broker
        .publish(ident(1), 11, pub_req(9, 7), 100, b"10.0.0.1:4433".to_vec())
        .unwrap();
    let peer = broker.get_peer(&ident(1)).unwrap();
    assert_eq!(peer.0, 11);
    assert_eq!(peer.1, b"10.0.0.1:4433".to_vec());
}

#[test]
fn broker_mailbox_commands_route() {
    let mut broker = Broker::new();
    let (outcome, evs) = broker.handle(Command::Publish {
        identity: ident(1),
        peer: 11,
        msg: pub_req(9, 7),
        sink: 100,
        ipaddr: b"10.0.0.1:4433".to_vec(),
    });
    assert!(matches!(outcome, Outcome::Published { .. }));
    assert_eq!(evs.len(), 0);

    let (outcome, evs) = broker.handle(Command::Subscribe {
        identity: ident(2),
        msg: sub_req(9),
        sink: 200,
    });
    match outcome {
        Outcome::Subscribed { hook } => assert_eq!(hook.shadow.bytes, vec![9u8; 32]),
        _ => panic!("expected a subscription"),
    }
    assert_eq!(evs.len(), 1);

    let (outcome, _) = broker.handle(Command::GetPeer { identity: ident(1) });
    assert!(matches!(outcome, Outcome::Peer { found: Some((11, _)) }));

    let (outcome, _) = broker.handle(Command::GetPeer { identity: ident(5) });
    assert!(matches!(outcome, Outcome::Peer { found: None }));

    let (outcome, _) = broker.handle(Command::Subscribe {
        identity: ident(2),
        msg: SubscribeRequest { shadow: vec![9; 3], filter: Vec::new() },
        sink: 201,
    });
    assert!(matches!(outcome, Outcome::Failed { err } if err == shadow_broker::BrokerError::BadAddress));
}
