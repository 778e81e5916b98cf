use shadow_broker::broker::Broker;
use shadow_broker::ident::Identity;
use shadow_broker::proto::ConnectRequest;
use shadow_broker::proto::Path;
use shadow_broker::proto::PathCategory;
use shadow_broker::proto::PeerConnectResponse;
use shadow_broker::proto::PublishRequest;
use shadow_broker::replay::ReplayGuard;
use shadow_broker::service::connect_resolve;
use shadow_broker::service::ConnectStep;
use shadow_broker::service::RoutePin;
use shadow_broker::service::Srv;

fn ident(b: u8) -> Identity {
    Identity { bytes: vec![b; 32] }
}

fn caller_srv() -> Srv {
    Srv::new(ident(2), 5, b"2.2.2.2:999".to_vec(), Vec::new())
}

fn connect_req(target: u8, timestamp: u64) -> ConnectRequest {
    ConnectRequest {
        identity: vec![target; 32],
        timestamp,
        handshake: vec![0xaa, 0xbb],
        paths: vec![Path { category: PathCategory::Local, ipaddr: b"192.168.1.4:2".to_vec() }],
    }
}

#[test]
fn connect_to_unknown_peer_is_denied() {
    let mut guard = ReplayGuard::new();
    let broker = Broker::new();
    let srv = caller_srv();
    let step = srv.connect(&mut guard, &broker, connect_req(3, 10)).unwrap();
    match step {
        ConnectStep::Deny { resp } => {
            assert!(!resp.ok);
            assert_eq!(resp.handshake.len(), 0);
            assert_eq!(resp.route, 0);
            assert_eq!(resp.paths.len(), 0);
        },
        _ => panic!("an unknown target must earn the deny response"),
    }
}

#[test]
fn replayed_timestamp_is_rejected() {
    let mut guard = ReplayGuard::new();
    let broker = Broker::new();
    let srv = caller_srv();
    let first = srv.connect(&mut guard, &broker, connect_req(3, 10)).unwrap();
    assert!(matches!(first, ConnectStep::Deny { .. }));

    let same = srv.connect(&mut guard, &broker, connect_req(3, 10)).unwrap();
    match same {
        ConnectStep::Reject { resp } => {
            assert!(!resp.ok);
            assert_eq!(resp.handshake.len(), 0);
            assert_eq!(resp.route, 0);
            assert_eq!(resp.paths.len(), 0);
        },
        _ => panic!("a reused timestamp must be rejected"),
    }

    let older = srv.connect(&mut guard, &broker, connect_req(3, 9)).unwrap();
    assert!(matches!(older, ConnectStep::Reject { .. }));

    let newer = srv.connect(&mut guard, &broker, connect_req(3, 11)).unwrap();
    assert!(matches!(newer, ConnectStep::Deny { .. }));
}

#[test]
fn connect_forwards_to_registered_peer() {
    let mut guard = ReplayGuard::new();
    let mut broker = Broker::new();
    broker
        .publish(
            ident(3),
            77,
            PublishRequest { shadow: vec![9; 32], xaddr: vec![7; 96] },
            100,
            b"3.3.3.3:443".to_vec(),
        )
        .unwrap();

    let srv = caller_srv();
    let step = srv.connect(&mut guard, &broker, connect_req(3, 10)).unwrap();
    match step {
        ConnectStep::Forward { peer, caller_addr, target_addr, target, timestamp, handshake, paths } => {
            assert_eq!(peer, 77);
            assert_eq!(caller_addr, b"2.2.2.2:999".to_vec());
            assert_eq!(target_addr, b"3.3.3.3:443".to_vec());
            assert_eq!(target.bytes, vec![3u8; 32]);
            assert_eq!(timestamp, 10);
            assert_eq!(handshake, vec![0xaa, 0xbb]);
            assert_eq!(paths.len(), 2);
            assert_eq!(paths[0].category, PathCategory::Local);
            assert_eq!(paths[1].category, PathCategory::Internet);
            assert_eq!(paths[1].ipaddr, b"2.2.2.2:999".to_vec());

            let req = srv.peer_connect_request(timestamp, handshake, 42, paths);
            assert_eq!(req.identity, vec![2u8; 32]);
            assert_eq!(req.timestamp, 10);
            assert_eq!(req.route, 42);
            assert_eq!(req.paths.len(), 2);
        },
        _ => panic!("a registered target must be forwarded to"),
    }
}

#[test]
fn malformed_target_identity_fails_the_rpc() {
    let mut guard = ReplayGuard::new();
    let broker = Broker::new();
    let srv = caller_srv();
    let msg = ConnectRequest {
        identity: vec![3; 31],
        timestamp: 10,
        handshake: Vec::new(),
        paths: Vec::new(),
    };
    let err = srv.connect(&mut guard, &broker, msg).unwrap_err();
    assert_eq!(err, shadow_broker::BrokerError::BadAddress);
}

#[test]
fn accepting_peer_pins_the_route() {
    let resp = PeerConnectResponse {
        ok: true,
        handshake: vec![1, 2, 3],
        paths: vec![Path { category: PathCategory::Local, ipaddr: b"10.1.1.1:4".to_vec() }],
    };
    let (answer, pin) = connect_resolve(resp, 42);
    assert!(answer.ok);
    assert_eq!(answer.handshake, vec![1, 2, 3]);
    assert_eq!(answer.route, 42);
    assert_eq!(answer.paths.len(), 1);
    assert_eq!(pin, RoutePin::Pin);
}

#[test]
fn refusing_peer_releases_the_route() {
    let resp = PeerConnectResponse { ok: false, handshake: vec![1], paths: Vec::new() };
    let (answer, pin) = connect_resolve(resp, 42);
    assert!(!answer.ok);
    assert_eq!(answer.handshake.len(), 0);
    assert_eq!(answer.route, 0);
    assert_eq!(answer.paths.len(), 0);
    assert_eq!(pin, RoutePin::Release);
}

#[test]
fn replay_guard_is_a_strict_monotone_clock() {
    let mut guard = ReplayGuard::new();
    let id = ident(4);
    assert!(guard.advance(&id, 5));
    assert!(!guard.advance(&id, 5));
    assert!(!guard.advance(&id, 4));
    assert!(guard.advance(&id, 6));

    let other = ident(5);
    assert!(guard.advance(&other, 1));
}
