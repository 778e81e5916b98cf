use shadow_broker::ident::Address;
use shadow_broker::ident::Identity;
use shadow_broker::ident::SignedAddress;
use shadow_broker::peer::Peer;
use shadow_broker::proto::Change;
use shadow_broker::proto::Path;
use shadow_broker::proto::PathCategory;
use shadow_broker::proto::PeerConnectResponse;
use shadow_broker::proto::PublishRequest;
use shadow_broker::proto::SubscribeRequest;
use shadow_broker::shadow::Command;
use shadow_broker::shadow::Outcome;
use shadow_broker::shadow::Shadow;

fn ident(b: u8) -> Identity {
    Identity { bytes: vec![b; 32] }
}

fn fresh_shadow() -> Shadow {
    Shadow::new(Address { bytes: vec![9; 32] })
}

fn sub_req() -> SubscribeRequest {
    SubscribeRequest { shadow: vec![9; 32], filter: Vec::new() }
}

fn pub_req(x: u8) -> PublishRequest {
    PublishRequest { shadow: vec![9; 32], xaddr: vec![x; 96] }
}

#[test]
fn join_receives_backlog_of_every_publisher() {
    let mut sh = fresh_shadow();
    sh.publish(ident(1), pub_req(7), 100, b"1.1.1.1:1".to_vec()).unwrap();
    sh.publish(ident(2), pub_req(8), 101, b"1.1.1.2:1".to_vec()).unwrap();

    let (_ptr, evs) = sh.subscribe(ident(3), sub_req(), 300);
    assert_eq!(evs.len(), 2);
    let mut seen: Vec<Vec<u8>> = Vec::new();
    for e in &evs {
        assert_eq!(e.sink, 300);
        match &e.change {
            Change::Publish { identity, .. } => seen.push(identity.clone()),
            _ => panic!("the backlog holds publish events only"),
        }
    }
    assert!(seen.contains(&vec![1u8; 32]));
    assert!(seen.contains(&vec![2u8; 32]));
}

#[test]
fn bad_signed_address_changes_nothing() {
    let mut sh = fresh_shadow();
    let msg = PublishRequest { shadow: vec![9; 32], xaddr: vec![7; 10] };
    let err = sh.publish(ident(1), msg, 100, b"1.1.1.1:1".to_vec()).unwrap_err();
    assert_eq!(err, shadow_broker::BrokerError::BadSignature);
    let (_ptr, evs) = sh.subscribe(ident(3), sub_req(), 300);
    assert_eq!(evs.len(), 0);
}

#[test]
fn unpublish_of_stale_token_is_silent() {
    let mut sh = fresh_shadow();
    let (ptr, _) = sh.publish(ident(1), pub_req(7), 100, b"1.1.1.1:1".to_vec()).unwrap();
    sh.subscribe(ident(3), sub_req(), 300);
    let (evs, stop) = sh.unpublish(ptr);
    assert_eq!(evs.len(), 1);
    assert!(!stop);
    let (evs, stop) = sh.unpublish(ptr);
    assert_eq!(evs.len(), 0);
    assert!(!stop);
}

#[test]
fn population_zero_stops_the_actor() {
    let mut sh = fresh_shadow();
    let (sptr, _) = sh.subscribe(ident(3), sub_req(), 300);
    let (pptr, _) = sh.publish(ident(1), pub_req(7), 100, b"1.1.1.1:1".to_vec()).unwrap();
    assert!(!sh.unsubscribe(sptr));
    let (_, stop) = sh.unpublish(pptr);
    assert!(stop);
}

#[test]
fn mailbox_commands_route_to_the_handlers() {
    let mut sh = fresh_shadow();
    let (outcome, stop, evs) = sh.handle(Command::Subscribe {
        identity: ident(3),
        msg: sub_req(),
        sink: 300,
    });
    assert!(matches!(outcome, Outcome::Subscribed { ptr: 0 }));
    assert!(!stop);
    assert_eq!(evs.len(), 0);

    let (outcome, stop, evs) = sh.handle(Command::Publish {
        identity: ident(1),
        msg: pub_req(7),
        sink: 100,
        ipaddr: b"1.1.1.1:1".to_vec(),
    });
    assert!(matches!(outcome, Outcome::Published { ptr: 0 }));
    assert!(!stop);
    assert_eq!(evs.len(), 1);

    let (outcome, stop, evs) = sh.handle(Command::Publish {
        identity: ident(1),
        msg: PublishRequest { shadow: vec![9; 32], xaddr: vec![1; 3] },
        sink: 101,
        ipaddr: b"1.1.1.1:2".to_vec(),
    });
    assert!(matches!(outcome, Outcome::Failed { err } if err == shadow_broker::BrokerError::BadSignature));
    assert!(!stop);
    assert_eq!(evs.len(), 0);

    let (outcome, stop, _) = sh.handle(Command::Unpublish { ptr: 0 });
    assert!(matches!(outcome, Outcome::Removed));
    assert!(!stop);

    let (outcome, stop, evs) = sh.handle(Command::Unsubscribe { ptr: 0 });
    assert!(matches!(outcome, Outcome::Removed));
    assert!(stop);
    assert_eq!(evs.len(), 0);
}

#[test]
fn parsers_enforce_the_wire_shapes() {
    assert!(Identity::from_bytes(&vec![1; 32]).is_ok());
    assert_eq!(
        Identity::from_bytes(&vec![1; 33]).unwrap_err(),
        shadow_broker::BrokerError::BadAddress
    );
    assert!(Address::from_bytes(&vec![1; 32]).is_ok());
    assert_eq!(
        Address::from_bytes(&Vec::new()).unwrap_err(),
        shadow_broker::BrokerError::BadAddress
    );
    let x = SignedAddress::from_bytes(&vec![5; 96]).unwrap();
    assert_eq!(x.to_vec(), vec![5u8; 96]);
    assert_eq!(
        SignedAddress::from_bytes(&vec![5; 64]).unwrap_err(),
        shadow_broker::BrokerError::BadSignature
    );
}

#[test]
fn peer_session_injects_the_observed_address() {
    let peer = Peer::new(b"6.6.6.6:600".to_vec());
    let resp = PeerConnectResponse {
        ok: true,
        handshake: vec![1, 2],
        paths: vec![Path { category: PathCategory::Local, ipaddr: b"10.0.0.1:1".to_vec() }],
    };
    let resp = peer.accept_connect_response(resp);
    assert!(resp.ok);
    assert_eq!(resp.handshake, vec![1, 2]);
    assert_eq!(resp.paths.len(), 2);
    assert_eq!(resp.paths[1].category, PathCategory::Internet);
    assert_eq!(resp.paths[1].ipaddr, b"6.6.6.6:600".to_vec());
}

#[test]
fn supersede_emits_unpublish_then_supersede_then_publish() {
    let mut sh = fresh_shadow();
    sh.subscribe(ident(3), sub_req(), 300);
    sh.publish(ident(1), pub_req(7), 100, b"1.1.1.1:1".to_vec()).unwrap();

    let (_ptr, evs) = sh.publish(ident(1), pub_req(8), 101, b"1.1.1.2:1".to_vec()).unwrap();
    assert_eq!(evs.len(), 3);
    assert_eq!(evs[0].sink, 300);
    assert!(matches!(&evs[0].change, Change::Unpublish { identity } if identity == &vec![1u8; 32]));
    assert_eq!(evs[1].sink, 100);
    assert!(matches!(&evs[1].change, Change::Supersede));
    assert_eq!(evs[2].sink, 300);
    assert!(matches!(&evs[2].change, Change::Publish { identity, xaddr } if identity == &vec![1u8; 32] && xaddr == &vec![8u8; 96]));
}

#[test]
fn publish_reaches_every_subscriber() {
    let mut sh = fresh_shadow();
    sh.subscribe(ident(3), sub_req(), 300);
    sh.subscribe(ident(4), sub_req(), 301);

    let (_ptr, evs) = sh.publish(ident(1), pub_req(7), 100, b"1.1.1.1:1".to_vec()).unwrap();
    assert_eq!(evs.len(), 2);
    let sinks: Vec<u64> = evs.iter().map(|e| e.sink).collect();
    assert!(sinks.contains(&300));
    assert!(sinks.contains(&301));
    for e in &evs {
        assert!(matches!(&e.change, Change::Publish { identity, .. } if identity == &vec![1u8; 32]));
    }
}
