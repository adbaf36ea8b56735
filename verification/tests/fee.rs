use stratum_relay::fee::{FeeJobRecord, FeeJobs, FeeState};

fn record(pool_id: i64, submitted_at: u64) -> FeeJobRecord {
    FeeJobRecord { pool_id, submitted_at, wallet: "0xFEE".to_string() }
}

#[test]
fn fee_jobs_insert_and_remove() {
    let mut jobs = FeeJobs::new();
    assert_eq!(jobs.len(), 0);
    jobs.insert(record(9001, 10));
    jobs.insert(record(9002, 20));
    assert_eq!(jobs.len(), 2);
    assert!(jobs.contains(9001));
    assert!(jobs.contains(9002));
    assert!(!jobs.contains(9003));
    assert!(jobs.remove(9001));
    assert!(!jobs.remove(9001));
    assert!(!jobs.contains(9001));
    assert!(jobs.contains(9002));
    assert_eq!(jobs.len(), 1);
}

#[test]
fn fee_jobs_insert_replaces_same_id() {
    let mut jobs = FeeJobs::new();
    jobs.insert(record(9001, 10));
    jobs.insert(record(9001, 50));
    assert_eq!(jobs.len(), 1);
    jobs.expire(60, 20);
    assert_eq!(jobs.len(), 1);
    jobs.expire(70, 20);
    assert_eq!(jobs.len(), 0);
}

#[test]
fn fee_jobs_expire_after_bounded_wait() {
    let mut jobs = FeeJobs::new();
    jobs.insert(record(9001, 10));
    jobs.insert(record(9002, 20));
    jobs.insert(record(9003, 30));
    jobs.expire(39, 20);
    assert_eq!(jobs.len(), 2);
    assert!(!jobs.contains(9001));
    jobs.expire(40, 20);
    assert_eq!(jobs.len(), 1);
    assert!(jobs.contains(9003));
    jobs.expire(5, 20);
    assert_eq!(jobs.len(), 1);
    jobs.expire(30, 0);
    assert_eq!(jobs.len(), 0);
}

#[test]
fn fee_state_follows_the_cycle() {
    let s = FeeState::Idle;
    assert!(!s.is_suppressing());
    let s = s.arm(100);
    assert_eq!(s, FeeState::AwaitingWindow { since: 100 });
    assert!(!s.is_window_passed(159, 60));
    assert!(s.is_window_passed(160, 60));
    assert!(!s.is_window_passed(50, 60));
    let s = s.inject(9001);
    assert_eq!(s, FeeState::Injecting { pool_id: 9001 });
    assert!(s.is_suppressing());
    let s = s.mark_sent();
    assert_eq!(s, FeeState::AwaitingReply { pool_id: 9001 });
    assert!(s.is_suppressing());
    assert_eq!(s.settle(9002), s);
    assert_eq!(s.settle(9001), FeeState::Idle);
    assert_eq!(s.finish(9002, 300), s);
    assert_eq!(s.finish(9001, 300), FeeState::AwaitingWindow { since: 300 });
}

#[test]
fn fee_state_ignores_moves_out_of_turn() {
    assert_eq!(FeeState::Idle.inject(9001), FeeState::Idle);
    assert_eq!(FeeState::Idle.mark_sent(), FeeState::Idle);
    assert_eq!(FeeState::Idle.settle(9001), FeeState::Idle);
    assert_eq!(FeeState::Idle.finish(9001, 5), FeeState::Idle);
    let w = FeeState::AwaitingWindow { since: 1 };
    assert_eq!(w.arm(9), w);
    assert_eq!(w.mark_sent(), w);
    assert_eq!(w.settle(9001), w);
    let i = FeeState::Injecting { pool_id: 9001 };
    assert_eq!(i.arm(9), i);
    assert_eq!(i.inject(9002), i);
    assert_eq!(i.settle(9001), i);
    assert_eq!(i.finish(9001, 9), i);
    assert!(!i.is_window_passed(1000, 0));
    assert!(FeeState::AwaitingWindow { since: 7 }.is_window_passed(7, 0));
}
