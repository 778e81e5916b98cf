use shadow_broker::bytes_clone;
use shadow_broker::bytes_eq;
use shadow_broker::ident::Identity;
use shadow_broker::ptrmap::PtrMap;
use shadow_broker::shadow::Subscriber;

fn ident(b: u8) -> Identity {
    Identity { bytes: vec![b; 32] }
}

#[test]
fn insert_hands_out_monotone_tokens() {
    let mut m: PtrMap<Subscriber> = PtrMap::new();
    let (t1, old1) = m.insert(ident(1), Subscriber { sink: 100 });
    let (t2, old2) = m.insert(ident(2), Subscriber { sink: 200 });
    assert_eq!(t1, 0);
    assert_eq!(t2, 1);
    assert!(old1.is_none());
    assert!(old2.is_none());
    assert_eq!(m.len(), 2);
}

#[test]
fn insert_supersedes_and_returns_old_value() {
    let mut m: PtrMap<Subscriber> = PtrMap::new();
    let (t1, _) = m.insert(ident(1), Subscriber { sink: 100 });
    let (t2, old) = m.insert(ident(1), Subscriber { sink: 101 });
    assert_ne!(t1, t2);
    assert_eq!(old.unwrap().sink, 100);
    assert_eq!(m.len(), 1);
    assert!(m.remove_ptr(t1).is_none());
    let en = m.remove_ptr(t2).unwrap();
    assert_eq!(en.val.sink, 101);
    assert_eq!(m.len(), 0);
}

#[test]
fn tokens_are_never_reused() {
    let mut m: PtrMap<Subscriber> = PtrMap::new();
    let (t1, _) = m.insert(ident(1), Subscriber { sink: 100 });
    assert!(m.remove_ptr(t1).is_some());
    let (t2, _) = m.insert(ident(1), Subscriber { sink: 101 });
    assert_ne!(t1, t2);
    assert_eq!(m.num_slots(), 2);
}

#[test]
fn remove_by_key_finds_the_live_entry() {
    let mut m: PtrMap<Subscriber> = PtrMap::new();
    m.insert(ident(1), Subscriber { sink: 100 });
    m.insert(ident(2), Subscriber { sink: 200 });
    let got = m.remove_key(&ident(1)).unwrap();
    assert_eq!(got.sink, 100);
    assert!(m.remove_key(&ident(1)).is_none());
    assert_eq!(m.len(), 1);
}

#[test]
fn find_names_the_live_slot() {
    let mut m: PtrMap<Subscriber> = PtrMap::new();
    let (t1, _) = m.insert(ident(1), Subscriber { sink: 100 });
    assert_eq!(m.find(&ident(1)), Some(t1));
    assert_eq!(m.find(&ident(9)), None);
}

#[test]
fn byte_helpers_compare_and_copy() {
    let a = vec![1u8, 2, 3];
    let b = vec![1u8, 2, 3];
    let c = vec![1u8, 2, 4];
    let d = vec![1u8, 2];
    assert!(bytes_eq(&a, &b));
    assert!(!bytes_eq(&a, &c));
    assert!(!bytes_eq(&a, &d));
    assert_eq!(bytes_clone(&a), a);
}
