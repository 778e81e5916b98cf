use shadow_broker::broker::Broker;
use shadow_broker::ident::Identity;
use shadow_broker::proto::EpochSyncRequest;
use shadow_broker::proto::PublishRequest;
use shadow_broker::proto::SubscribeRequest;
use shadow_broker::service::EpochAction;
use shadow_broker::service::Srv;

fn ident(b: u8) -> Identity {
    Identity { bytes: vec![b; 32] }
}

#[test]
fn epoch_advance_clears_once() {
    let coordinator = ident(1);
    let mut srv = Srv::new(ident(1), 5, b"1.1.1.1:1".to_vec(), vec![coordinator]);

    let first = srv.epochsync(EpochSyncRequest { epoch: 1 });
    assert_eq!(first, EpochAction::Dump { clear: true });
    assert_eq!(srv.epoch, 1);

    let second = srv.epochsync(EpochSyncRequest { epoch: 1 });
    assert_eq!(second, EpochAction::Dump { clear: false });
    assert_eq!(srv.epoch, 1);
}

#[test]
fn non_coordinator_epochsync_is_denied() {
    let coordinator = ident(1);
    let mut srv = Srv::new(ident(2), 5, b"1.1.1.1:1".to_vec(), vec![coordinator]);

    let r = srv.epochsync(EpochSyncRequest { epoch: 99 });
    assert_eq!(r, EpochAction::Denied);
    assert_eq!(srv.epoch, 0);
}

#[test]
fn empty_coordinator_set_denies_everyone() {
    let mut srv = Srv::new(ident(2), 5, b"1.1.1.1:1".to_vec(), Vec::new());
    assert_eq!(srv.epochsync(EpochSyncRequest { epoch: 3 }), EpochAction::Denied);
    assert_eq!(srv.epoch, 0);
}

#[test]
fn service_routes_subscribe_under_session_identity() {
    let mut broker = Broker::new();
    let srv = Srv::new(ident(2), 5, b"2.2.2.2:9".to_vec(), Vec::new());
    let msg = SubscribeRequest { shadow: vec![9; 32], filter: Vec::new() };
    let (hook, evs) = srv.subscribe(&mut broker, msg, 200).unwrap();
    assert_eq!(hook.shadow.bytes, vec![9u8; 32]);
    assert_eq!(evs.len(), 0);
    assert_eq!(broker.shadows.len(), 1);
}

#[test]
fn service_routes_publish_with_session_endpoint() {
    let mut broker = Broker::new();
    let srv = Srv::new(ident(1), 7, b"3.3.3.3:4".to_vec(), Vec::new());
    let msg = PublishRequest { shadow: vec![9; 32], xaddr: vec![7; 96] };
    let ((_mark, hook), evs) = srv.publish(&mut broker, msg, 100).unwrap();
    assert_eq!(hook.shadow.bytes, vec![9u8; 32]);
    assert_eq!(evs.len(), 0);

    let peer = broker.get_peer(&ident(1)).unwrap();
    assert_eq!(peer.0, 7);
    assert_eq!(peer.1, b"3.3.3.3:4".to_vec());
}
