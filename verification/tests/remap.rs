use stratum_relay::remap::{IdRemapTable, PendingRequest, RequestKind};

fn ordinary(pool_id: i64, client_id: i64) -> PendingRequest {
    PendingRequest { pool_id, client_id, kind: RequestKind::Ordinary }
}

#[test]
fn new_refuses_unusable_settings() {
    assert!(IdRemapTable::new(1, 9001, 9999, 0).is_none());
    assert!(IdRemapTable::new(1, 9999, 9001, 8).is_none());
    assert!(IdRemapTable::new(1, 9001, i64::MAX, 8).is_none());
    assert!(IdRemapTable::new(1, 9001, 9001, 1).is_some());
    assert!(IdRemapTable::new(i64::MIN, i64::MIN, i64::MAX - 1, 1).is_some());
}

#[test]
fn new_table_is_empty() {
    let t = IdRemapTable::new(1007, 9001, 9999, 8).unwrap();
    assert_eq!(t.len(), 0);
    assert!(t.is_empty());
    assert_eq!(t.capacity(), 8);
    assert_eq!(t.lookup(1007), None);
}

#[test]
fn allocate_gives_increasing_ids() {
    let mut t = IdRemapTable::new(1007, 9001, 9999, 8).unwrap();
    assert_eq!(t.allocate(7), Some(1007));
    assert_eq!(t.allocate(8), Some(1008));
    assert_eq!(t.allocate(7), Some(1009));
    assert_eq!(t.len(), 3);
    assert_eq!(t.lookup(1007), Some(ordinary(1007, 7)));
    assert_eq!(t.lookup(1008), Some(ordinary(1008, 8)));
    assert_eq!(t.lookup(1009), Some(ordinary(1009, 7)));
    assert_eq!(t.lookup(7), None);
}

#[test]
fn resolve_returns_the_client_id_once() {
    let mut t = IdRemapTable::new(1007, 9001, 9999, 8).unwrap();
    let y = t.allocate(7).unwrap();
    let z = t.allocate(8).unwrap();
    assert_eq!(t.resolve(y), Some(ordinary(1007, 7)));
    assert_eq!(t.resolve(y), None);
    assert_eq!(t.lookup(z), Some(ordinary(1008, 8)));
    assert_eq!(t.len(), 1);
    assert_eq!(t.allocate(9), Some(1009));
}

#[test]
fn interleaved_requests_keep_their_ids() {
    let mut t = IdRemapTable::new(100, 9001, 9999, 16).unwrap();
    let a = t.allocate(1).unwrap();
    let b = t.allocate(2).unwrap();
    let f = t.allocate_fee().unwrap();
    let c = t.allocate(3).unwrap();
    assert_eq!(t.resolve(b).unwrap().client_id, 2);
    let d = t.allocate(2).unwrap();
    assert_eq!(t.resolve(f).unwrap().kind, RequestKind::Fee);
    assert_eq!(t.resolve(c).unwrap().client_id, 3);
    assert_eq!(t.resolve(a).unwrap().client_id, 1);
    assert_eq!(t.resolve(d).unwrap().client_id, 2);
    assert!(t.is_empty());
    let mut ids = vec![a, b, c, d, f];
    ids.sort();
    ids.dedup();
    assert_eq!(ids.len(), 5);
}

#[test]
fn ordinary_ids_skip_the_reserved_range() {
    let mut t = IdRemapTable::new(8999, 9001, 9003, 8).unwrap();
    assert_eq!(t.allocate(1), Some(8999));
    assert_eq!(t.allocate(2), Some(9000));
    assert_eq!(t.allocate(3), Some(9004));
    assert_eq!(t.allocate(4), Some(9005));
    let mut t = IdRemapTable::new(9002, 9001, 9003, 8).unwrap();
    assert_eq!(t.allocate(1), Some(9004));
}

#[test]
fn fee_ids_come_from_the_reserved_range() {
    let mut t = IdRemapTable::new(1, 9001, 9002, 8).unwrap();
    assert!(t.is_fee_id(9001));
    assert!(t.is_fee_id(9002));
    assert!(!t.is_fee_id(9000));
    assert!(!t.is_fee_id(9003));
    assert_eq!(t.allocate_fee(), Some(9001));
    assert_eq!(
        t.lookup(9001),
        Some(PendingRequest { pool_id: 9001, client_id: 9001, kind: RequestKind::Fee })
    );
    assert_eq!(t.allocate_fee(), Some(9002));
    assert_eq!(t.allocate_fee(), None);
    assert_eq!(t.len(), 2);
    t.resolve(9001);
    assert_eq!(t.allocate_fee(), None);
}

#[test]
fn ordinary_ids_run_out_before_the_largest() {
    let mut t = IdRemapTable::new(i64::MAX - 2, 0, 10, 8).unwrap();
    assert_eq!(t.allocate(1), Some(i64::MAX - 2));
    assert_eq!(t.allocate(2), Some(i64::MAX - 1));
    assert_eq!(t.allocate(3), None);
    assert_eq!(t.len(), 2);
    assert_eq!(t.allocate(3), None);
}

#[test]
fn full_table_pushes_out_the_oldest() {
    let mut t = IdRemapTable::new(1, 9001, 9999, 2).unwrap();
    assert_eq!(t.allocate(10), Some(1));
    assert_eq!(t.allocate(11), Some(2));
    assert_eq!(t.allocate(12), Some(3));
    assert_eq!(t.len(), 2);
    assert_eq!(t.lookup(1), None);
    assert_eq!(t.lookup(2), Some(ordinary(2, 11)));
    assert_eq!(t.lookup(3), Some(ordinary(3, 12)));
    assert_eq!(t.allocate_fee(), Some(9001));
    assert_eq!(t.lookup(2), None);
    assert_eq!(t.len(), 2);
}

#[test]
fn table_of_one() {
    let mut t = IdRemapTable::new(1, 9001, 9999, 1).unwrap();
    assert_eq!(t.allocate(10), Some(1));
    assert_eq!(t.allocate(11), Some(2));
    assert_eq!(t.len(), 1);
    assert_eq!(t.resolve(1), None);
    assert_eq!(t.resolve(2), Some(ordinary(2, 11)));
}

#[test]
fn discard_all_keeps_the_counters() {
    let mut t = IdRemapTable::new(1, 9001, 9999, 8).unwrap();
    t.allocate(10);
    t.allocate(11);
    t.allocate_fee();
    t.discard_all();
    assert!(t.is_empty());
    assert_eq!(t.lookup(1), None);
    assert_eq!(t.allocate(12), Some(3));
    assert_eq!(t.allocate_fee(), Some(9002));
}
