use redlock::engine::{all_confirmed, Action, Event, LockStep, UnlockStep};
use redlock::quorum::{count_granted, quorum};
use redlock::redlock::{
    lock_instance, unlock_instance, Lock, Redlock, DEFAULT_CLOCK_DRIFT_PPM, DEFAULT_RETRY_COUNT,
    DEFAULT_RETRY_DELAY, KEY_LEN, UNLOCK_SCRIPT,
};
use redlock::sys::{now_ms, to_millis};
use redlock::types::{AcquireOutcome, Error, ReleaseOutcome, Reply};
use redlock::window::{drift, node_timeout, window};
use std::collections::HashSet;

fn pending(step: LockStep) -> redlock::engine::Attempt {
    match step {
        LockStep::Pending(attempt) => attempt,
        LockStep::Done(result) => panic!("the attempt is over: {:?}", result),
    }
}

fn done(step: LockStep) -> Result<Lock, Error> {
    match step {
        LockStep::Done(result) => result,
        LockStep::Pending(attempt) => panic!("the attempt goes on: {:?}", attempt),
    }
}

#[test]
fn quorum_is_the_majority() {
    assert_eq!(quorum(0), 1);
    assert_eq!(quorum(1), 1);
    assert_eq!(quorum(2), 2);
    assert_eq!(quorum(3), 2);
    assert_eq!(quorum(4), 3);
    assert_eq!(quorum(5), 3);
    assert_eq!(quorum(usize::MAX), usize::MAX / 2 + 1);
}

#[test]
fn count_granted_counts_the_set_flags() {
    assert_eq!(count_granted(&vec![]), 0);
    assert_eq!(count_granted(&vec![false, false]), 0);
    assert_eq!(count_granted(&vec![true]), 1);
    assert_eq!(count_granted(&vec![true, false, true, true, false]), 3);
}

#[test]
fn two_quorums_share_a_node() {
    let n = 5;
    for a in 0u32..(1 << n) {
        for b in 0u32..(1 << n) {
            let row_a: Vec<bool> = (0..n).map(|i| a & (1 << i) != 0).collect();
            let row_b: Vec<bool> = (0..n).map(|i| b & (1 << i) != 0).collect();
            if count_granted(&row_a) >= quorum(n) && count_granted(&row_b) >= quorum(n) {
                assert!(a & b != 0);
            }
        }
    }
}

#[test]
fn drift_is_the_floor_of_the_share_and_two_more() {
    assert_eq!(drift(5000, 10_000), 52);
    assert_eq!(drift(10_000, 10_000), 102);
    assert_eq!(drift(1, 10_000), 2);
    assert_eq!(drift(99, 10_000), 2);
    assert_eq!(drift(100, 10_000), 3);
    assert_eq!(drift(199, 10_000), 3);
    assert_eq!(drift(500, 0), 2);
    assert_eq!(drift(500, 1_000_000), 502);
    assert_eq!(drift(i32::MAX, u32::MAX), 9_223_372_030_412_324_867 / 1_000_000 + 2);
}

#[test]
fn window_is_what_is_left_of_the_time_to_live() {
    assert_eq!(window(5000, 10_000, 0, 0), Some(4948));
    assert_eq!(window(5000, 10_000, 700, 710), Some(4938));
    assert_eq!(window(10_000, 10_000, 5, 5), Some(9898));
    assert_eq!(window(5000, 10_000, 0, 4947), Some(1));
    assert_eq!(window(5000, 10_000, 0, 4948), None);
    assert_eq!(window(5000, 10_000, 0, 5000), None);
    assert_eq!(window(5000, 10_000, 0, u64::MAX), None);
    assert_eq!(window(2, 10_000, 0, 0), None);
    assert_eq!(window(3, 10_000, 0, 0), Some(1));
    assert_eq!(window(i32::MAX, 0, 0, 0), Some(i32::MAX - 2));
    assert_eq!(window(i32::MAX, u32::MAX, 0, 0), None);
    assert_eq!(window(0, 10_000, 0, 0), None);
    assert_eq!(window(-100, 2_000_000, 0, 0), None);
}

#[test]
fn window_of_a_clock_that_ran_backwards_is_none() {
    assert_eq!(window(5000, 10_000, 10, 9), None);
    assert_eq!(window(5000, 10_000, u64::MAX, 0), None);
}

#[test]
fn validity_is_positive_and_within_the_bound() {
    for ttl in [1, 2, 3, 50, 99, 100, 101, 5000, 12_345] {
        for ppm in [0u32, 1, 10_000, 500_000, 1_000_000, 2_000_000] {
            for elapsed in [0u64, 1, 2, 47, 4947, 4948, 100_000] {
                if let Some(validity) = window(ttl, ppm, 1000, 1000 + elapsed) {
                    let bound = ttl as i64 - (ttl as i64 * ppm as i64) / 1_000_000 - 2;
                    assert!(validity > 0);
                    assert!(validity as i64 <= bound);
                    assert_eq!(validity as i64, bound - elapsed as i64);
                }
            }
        }
    }
}

#[test]
fn dlm_takes_the_defaults() {
    let manager = Redlock::dlm(vec![true, true, true], None, None).unwrap();
    assert_eq!(manager.servers(), 3);
    assert_eq!(manager.quorum(), 2);
    assert_eq!(manager.retry_count(), 3);
    assert_eq!(manager.retry_delay(), 200);
    assert_eq!(manager.clock_drift_ppm(), 10_000);
    assert_eq!(DEFAULT_RETRY_COUNT, 3);
    assert_eq!(DEFAULT_RETRY_DELAY, 200);
    assert_eq!(DEFAULT_CLOCK_DRIFT_PPM, 10_000);
}

#[test]
fn dlm_takes_what_it_is_given() {
    let manager = Redlock::dlm(vec![true, false, true, true], Some(7), Some(1500)).unwrap();
    assert_eq!(manager.servers(), 4);
    assert_eq!(manager.quorum(), 3);
    assert_eq!(manager.retry_count(), 7);
    assert_eq!(manager.retry_delay(), 1500);
    let manager = manager.with_clock_drift_ppm(250_000);
    assert_eq!(manager.clock_drift_ppm(), 250_000);
    assert_eq!(manager.servers(), 4);
    assert_eq!(manager.quorum(), 3);
    assert_eq!(manager.retry_count(), 7);
    assert_eq!(manager.retry_delay(), 1500);
}

#[test]
fn dlm_needs_a_quorum_of_usable_nodes() {
    assert_eq!(Redlock::dlm(vec![], None, None), Err(Error::NotEnoughMasters));
    assert_eq!(Redlock::dlm(vec![false], None, None), Err(Error::NotEnoughMasters));
    assert_eq!(Redlock::dlm(vec![true, false], None, None), Err(Error::NotEnoughMasters));
    assert_eq!(Redlock::dlm(vec![true, false, false], None, None), Err(Error::NotEnoughMasters));
    assert_eq!(
        Redlock::dlm(vec![true, false, false, true], None, None),
        Err(Error::NotEnoughMasters)
    );
    assert!(Redlock::dlm(vec![true], None, None).is_ok());
    assert!(Redlock::dlm(vec![true, true], None, None).is_ok());
    assert!(Redlock::dlm(vec![false, true, true], None, None).is_ok());
    assert!(Redlock::dlm(vec![true, false, true, false, true], None, None).is_ok());
}

#[test]
fn unique_ids_are_keys() {
    let manager = Redlock::dlm(vec![true], None, None).unwrap();
    for _ in 0..100 {
        let id = manager.get_unique_id();
        assert_eq!(id.chars().count(), 22);
        assert_eq!(id.len(), KEY_LEN);
        assert!(id.chars().all(|c| c.is_ascii_alphanumeric()));
    }
}

#[test]
fn unique_ids_are_distinct() {
    let manager = Redlock::dlm(vec![true], None, None).unwrap();
    let mut seen = HashSet::new();
    for _ in 0..10_000 {
        assert!(seen.insert(manager.get_unique_id()));
    }
}

#[test]
fn lock_handle_keeps_what_it_is_given() {
    let lock = Lock::new(4948, "r".to_string(), "k".to_string(), 77);
    assert_eq!(lock.validity(), 4948);
    assert_eq!(lock.resource(), "r");
    assert_eq!(lock.key(), "k");
    assert_eq!(lock.start_time(), 77);
}

#[test]
fn still_valid_at_is_strict() {
    let lock = Lock::new(500, "r".to_string(), "k".to_string(), 1000);
    assert!(lock.still_valid_at(1000));
    assert!(lock.still_valid_at(1499));
    assert!(!lock.still_valid_at(1500));
    assert!(!lock.still_valid_at(2500));
    assert!(!lock.still_valid_at(u64::MAX));
    assert!(lock.still_valid_at(0));
}

#[test]
fn still_valid_at_without_validity() {
    let lock = Lock::new(0, "r".to_string(), "k".to_string(), 1000);
    assert!(!lock.still_valid_at(1000));
    assert!(lock.still_valid_at(999));
    let lock = Lock::new(-10, "r".to_string(), "k".to_string(), 1000);
    assert!(!lock.still_valid_at(990));
    assert!(lock.still_valid_at(989));
    let lock = Lock::new(i32::MIN, "r".to_string(), "k".to_string(), u64::MAX);
    assert!(!lock.still_valid_at(u64::MAX));
    assert!(lock.still_valid_at(0));
    let lock = Lock::new(i32::MAX, "r".to_string(), "k".to_string(), 0);
    assert!(!lock.still_valid_at(u64::MAX));
}

#[test]
fn still_valid_goes_by_the_clock() {
    let now = now_ms();
    let fresh = Lock::new(60_000, "r".to_string(), "k".to_string(), now);
    assert!(fresh.still_valid());
    let spent = Lock::new(1, "r".to_string(), "k".to_string(), 0);
    wait_until(1);
    assert!(!spent.still_valid());
    let short = Lock::new(15, "r".to_string(), "k".to_string(), now_ms());
    wait_until(short.start_time() + 15);
    assert!(!short.still_valid());
}

fn wait_until(reading: u64) {
    let began = std::time::Instant::now();
    while now_ms() < reading {
        assert!(began.elapsed().as_secs() < 10);
        std::hint::spin_loop();
    }
}

#[test]
fn the_clock_goes_with_the_time() {
    let began = std::time::Instant::now();
    let before = now_ms();
    wait_until(before + 20);
    let after = now_ms();
    let passed = began.elapsed().as_millis() as u64;
    assert!(passed >= 19);
    assert!(after - before <= passed + 1);
    assert!(after <= u64::MAX / 1_000_000);
}

#[test]
fn lock_instance_reads_the_reply() {
    assert_eq!(lock_instance(Reply::Okay), AcquireOutcome::Acquired);
    assert_eq!(lock_instance(Reply::Nil), AcquireOutcome::AlreadyHeld);
    assert_eq!(lock_instance(Reply::Int(1)), AcquireOutcome::TransportError);
    assert_eq!(lock_instance(Reply::Int(0)), AcquireOutcome::TransportError);
    assert_eq!(lock_instance(Reply::Other), AcquireOutcome::TransportError);
    assert_eq!(lock_instance(Reply::Failed), AcquireOutcome::TransportError);
}

#[test]
fn unlock_instance_reads_the_reply() {
    assert_eq!(unlock_instance(Reply::Int(1)), ReleaseOutcome::Released);
    assert_eq!(unlock_instance(Reply::Int(0)), ReleaseOutcome::NotOwned);
    assert_eq!(unlock_instance(Reply::Int(2)), ReleaseOutcome::TransportError);
    assert_eq!(unlock_instance(Reply::Int(-1)), ReleaseOutcome::TransportError);
    assert_eq!(unlock_instance(Reply::Okay), ReleaseOutcome::TransportError);
    assert_eq!(unlock_instance(Reply::Nil), ReleaseOutcome::TransportError);
    assert_eq!(unlock_instance(Reply::Other), ReleaseOutcome::TransportError);
    assert_eq!(unlock_instance(Reply::Failed), ReleaseOutcome::TransportError);
}

#[test]
fn unlock_script_compares_and_deletes() {
    assert_eq!(
        UNLOCK_SCRIPT,
        "if redis.call('get',KEYS[1]) == ARGV[1] then return redis.call('del',KEYS[1]) else return 0 end"
    );
}

#[test]
fn all_confirmed_unless_a_transport_error() {
    assert!(all_confirmed(&vec![]));
    assert!(all_confirmed(&vec![ReleaseOutcome::Released, ReleaseOutcome::NotOwned]));
    assert!(!all_confirmed(&vec![ReleaseOutcome::TransportError]));
    assert!(!all_confirmed(&vec![
        ReleaseOutcome::Released,
        ReleaseOutcome::TransportError,
        ReleaseOutcome::NotOwned
    ]));
}

#[test]
fn lock_rejects_a_time_to_live_that_is_not_positive() {
    let manager = Redlock::dlm(vec![true], None, None).unwrap();
    for ttl in [0, -1, i32::MIN] {
        let step = manager.lock_at("r".to_string(), ttl, "k".to_string(), 0);
        assert_eq!(done(step), Err(Error::InvalidArgument));
        assert_eq!(done(manager.lock("r".to_string(), ttl)), Err(Error::InvalidArgument));
    }
}

#[test]
fn lock_rejects_an_empty_resource_name() {
    let manager = Redlock::dlm(vec![true], None, None).unwrap();
    let step = manager.lock_at(String::new(), 5000, "k".to_string(), 0);
    assert_eq!(done(step), Err(Error::InvalidArgument));
    assert_eq!(done(manager.lock(String::new(), 5000)), Err(Error::InvalidArgument));
    let manager = Redlock::dlm(vec![true], Some(0), None).unwrap();
    let step = manager.lock_at(String::new(), 5000, "k".to_string(), 0);
    assert_eq!(done(step), Err(Error::InvalidArgument));
}

#[test]
fn lock_without_rounds_cannot_obtain() {
    for rounds in [0, -1, i32::MIN] {
        let manager = Redlock::dlm(vec![true], Some(rounds), None).unwrap();
        let step = manager.lock_at("r".to_string(), 5000, "k".to_string(), 0);
        assert_eq!(done(step), Err(Error::CannotObtain));
    }
}

#[test]
fn lock_begins_at_the_first_node() {
    let manager = Redlock::dlm(vec![true, true, true], None, None).unwrap();
    let attempt = pending(manager.lock_at("res".to_string(), 5000, "key".to_string(), 10));
    assert_eq!(attempt.action(), Action::TryAcquire { node: 0 });
    assert_eq!(attempt.resource(), "res");
    assert_eq!(attempt.key(), "key");
    assert_eq!(attempt.ttl(), 5000);
}

#[test]
fn lock_draws_a_fresh_key() {
    let manager = Redlock::dlm(vec![true], None, None).unwrap();
    let first = pending(manager.lock("res".to_string(), 5000));
    let second = pending(manager.lock("res".to_string(), 5000));
    assert_eq!(first.key().len(), 22);
    assert!(first.key().chars().all(|c| c.is_ascii_alphanumeric()));
    assert_ne!(first.key(), second.key());
    assert_eq!(first.resource(), "res");
    assert_eq!(first.ttl(), 5000);
    assert_eq!(first.action(), Action::TryAcquire { node: 0 });
}

#[test]
fn a_round_asks_the_nodes_in_their_order() {
    let manager = Redlock::dlm(vec![true, true, true], None, None).unwrap();
    let attempt = pending(manager.lock_at("res".to_string(), 5000, "key".to_string(), 10));
    let attempt = pending(attempt.step_at(Event::Acquire(AcquireOutcome::AlreadyHeld), 11));
    assert_eq!(attempt.action(), Action::TryAcquire { node: 1 });
    let attempt = pending(attempt.step_at(Event::Acquire(AcquireOutcome::Acquired), 12));
    assert_eq!(attempt.action(), Action::TryAcquire { node: 2 });
    let lock = done(attempt.step_at(Event::Acquire(AcquireOutcome::Acquired), 13)).unwrap();
    assert_eq!(lock.validity(), 5000 - 3 - 52);
    assert_eq!(lock.resource(), "res");
    assert_eq!(lock.key(), "key");
    assert_eq!(lock.start_time(), 13);
}

#[test]
fn a_round_without_quorum_is_cleaned_up_and_slept_on() {
    let manager = Redlock::dlm(vec![true, true, true], Some(2), Some(350)).unwrap();
    let attempt = pending(manager.lock_at("res".to_string(), 5000, "key".to_string(), 10));
    let attempt = pending(attempt.step_at(Event::Acquire(AcquireOutcome::Acquired), 10));
    let attempt = pending(attempt.step_at(Event::Acquire(AcquireOutcome::TransportError), 10));
    let attempt = pending(attempt.step_at(Event::Acquire(AcquireOutcome::AlreadyHeld), 10));
    assert_eq!(attempt.action(), Action::Release { node: 0 });
    let attempt = pending(attempt.step_at(Event::Release(ReleaseOutcome::Released), 10));
    assert_eq!(attempt.action(), Action::Release { node: 1 });
    let attempt = pending(attempt.step_at(Event::Release(ReleaseOutcome::TransportError), 10));
    assert_eq!(attempt.action(), Action::Release { node: 2 });
    let attempt = pending(attempt.step_at(Event::Release(ReleaseOutcome::NotOwned), 10));
    assert_eq!(attempt.action(), Action::Sleep { millis: 350 });
    let attempt = pending(attempt.step_at(Event::Slept, 360));
    assert_eq!(attempt.action(), Action::TryAcquire { node: 0 });
    let attempt = pending(attempt.step_at(Event::Acquire(AcquireOutcome::AlreadyHeld), 360));
    let attempt = pending(attempt.step_at(Event::Acquire(AcquireOutcome::AlreadyHeld), 360));
    let attempt = pending(attempt.step_at(Event::Acquire(AcquireOutcome::AlreadyHeld), 360));
    let attempt = pending(attempt.step_at(Event::Release(ReleaseOutcome::NotOwned), 360));
    let attempt = pending(attempt.step_at(Event::Release(ReleaseOutcome::NotOwned), 360));
    let attempt = pending(attempt.step_at(Event::Release(ReleaseOutcome::NotOwned), 360));
    assert_eq!(attempt.action(), Action::Sleep { millis: 350 });
    assert_eq!(done(attempt.step_at(Event::Slept, 710)), Err(Error::CannotObtain));
}

#[test]
fn a_round_that_took_too_long_fails_though_all_granted() {
    let manager = Redlock::dlm(vec![true, true], None, None).unwrap();
    let attempt = pending(manager.lock_at("res".to_string(), 5000, "key".to_string(), 100));
    let attempt = pending(attempt.step_at(Event::Acquire(AcquireOutcome::Acquired), 2000));
    let attempt = pending(attempt.step_at(Event::Acquire(AcquireOutcome::Acquired), 5048));
    assert_eq!(attempt.action(), Action::Release { node: 0 });
}

#[test]
fn a_round_measures_from_its_own_start() {
    let manager = Redlock::dlm(vec![true], Some(2), None).unwrap();
    let attempt = pending(manager.lock_at("res".to_string(), 1000, "key".to_string(), 0));
    let attempt = pending(attempt.step_at(Event::Acquire(AcquireOutcome::AlreadyHeld), 5));
    let attempt = pending(attempt.step_at(Event::Release(ReleaseOutcome::NotOwned), 6));
    let attempt = pending(attempt.step_at(Event::Slept, 206));
    let lock = done(attempt.step_at(Event::Acquire(AcquireOutcome::Acquired), 216)).unwrap();
    assert_eq!(lock.validity(), 1000 - 10 - 12);
    assert_eq!(lock.start_time(), 216);
}

#[test]
fn a_round_with_a_clock_that_ran_backwards_fails() {
    let manager = Redlock::dlm(vec![true], None, None).unwrap();
    let attempt = pending(manager.lock_at("res".to_string(), 5000, "key".to_string(), 100));
    let attempt = pending(attempt.step_at(Event::Acquire(AcquireOutcome::Acquired), 99));
    assert_eq!(attempt.action(), Action::Release { node: 0 });
}

#[test]
fn an_event_that_does_not_answer_changes_nothing() {
    let manager = Redlock::dlm(vec![true, true], None, None).unwrap();
    let attempt = pending(manager.lock_at("res".to_string(), 5000, "key".to_string(), 0));
    let attempt = pending(attempt.step_at(Event::Slept, 1));
    assert_eq!(attempt.action(), Action::TryAcquire { node: 0 });
    let attempt = pending(attempt.step_at(Event::Release(ReleaseOutcome::Released), 1));
    assert_eq!(attempt.action(), Action::TryAcquire { node: 0 });
    let attempt = pending(attempt.step_at(Event::Acquire(AcquireOutcome::AlreadyHeld), 1));
    let attempt = pending(attempt.step_at(Event::Acquire(AcquireOutcome::AlreadyHeld), 1));
    assert_eq!(attempt.action(), Action::Release { node: 0 });
    let attempt = pending(attempt.step_at(Event::Acquire(AcquireOutcome::Acquired), 1));
    assert_eq!(attempt.action(), Action::Release { node: 0 });
    let attempt = pending(attempt.step_at(Event::Slept, 1));
    assert_eq!(attempt.action(), Action::Release { node: 0 });
    let attempt = pending(attempt.step_at(Event::Release(ReleaseOutcome::Released), 1));
    let attempt = pending(attempt.step_at(Event::Release(ReleaseOutcome::Released), 1));
    assert_eq!(attempt.action(), Action::Sleep { millis: 200 });
    let attempt = pending(attempt.step_at(Event::Acquire(AcquireOutcome::Acquired), 1));
    assert_eq!(attempt.action(), Action::Sleep { millis: 200 });
    let attempt = pending(attempt.step_at(Event::Release(ReleaseOutcome::Released), 1));
    assert_eq!(attempt.action(), Action::Sleep { millis: 200 });

    let lock = Lock::new(10, "res".to_string(), "key".to_string(), 0);
    let unlocking = manager.unlock(lock);
    let unlocking = match unlocking.step(Event::Slept) {
        UnlockStep::Pending(unlocking) => unlocking,
        UnlockStep::Done(result) => panic!("the release is over: {:?}", result),
    };
    assert_eq!(unlocking.action(), Action::Release { node: 0 });
    let unlocking = match unlocking.step(Event::Acquire(AcquireOutcome::Acquired)) {
        UnlockStep::Pending(unlocking) => unlocking,
        UnlockStep::Done(result) => panic!("the release is over: {:?}", result),
    };
    assert_eq!(unlocking.action(), Action::Release { node: 0 });
}

#[test]
fn step_goes_by_the_clock() {
    let manager = Redlock::dlm(vec![true, true], None, None).unwrap();
    let before = now_ms();
    let attempt = pending(manager.lock("res".to_string(), 5000));
    let begun = now_ms();
    let attempt = pending(attempt.step(Event::Acquire(AcquireOutcome::Acquired)));
    wait_until(begun + 30);
    let lock = done(attempt.step(Event::Acquire(AcquireOutcome::Acquired))).unwrap();
    let after = now_ms();
    assert!(lock.validity() <= 5000 - 52 - 30);
    assert!(lock.validity() as u64 >= 5000 - 52 - (after - before));
    assert!(lock.start_time() >= begun + 30);
    assert!(lock.start_time() <= after);
    assert!(lock.still_valid());
}

#[test]
fn unlock_asks_every_node_and_reports_what_is_left() {
    let manager = Redlock::dlm(vec![true, true, true], None, None).unwrap();
    let answers = [
        (
            [ReleaseOutcome::Released, ReleaseOutcome::Released, ReleaseOutcome::Released],
            Ok(()),
        ),
        (
            [ReleaseOutcome::NotOwned, ReleaseOutcome::Released, ReleaseOutcome::NotOwned],
            Ok(()),
        ),
        (
            [ReleaseOutcome::NotOwned, ReleaseOutcome::NotOwned, ReleaseOutcome::NotOwned],
            Ok(()),
        ),
        (
            [ReleaseOutcome::TransportError, ReleaseOutcome::Released, ReleaseOutcome::Released],
            Err(Error::ReleaseIncomplete),
        ),
        (
            [ReleaseOutcome::Released, ReleaseOutcome::Released, ReleaseOutcome::TransportError],
            Err(Error::ReleaseIncomplete),
        ),
    ];
    for (outcomes, expected) in answers {
        let lock = Lock::new(100, "res".to_string(), "key".to_string(), 0);
        let mut step = UnlockStep::Pending(manager.unlock(lock));
        let mut asked = Vec::new();
        let result = loop {
            match step {
                UnlockStep::Done(result) => break result,
                UnlockStep::Pending(unlocking) => {
                    assert_eq!(unlocking.resource(), "res");
                    assert_eq!(unlocking.key(), "key");
                    let node = match unlocking.action() {
                        Action::Release { node } => node,
                        other => panic!("not a release: {:?}", other),
                    };
                    asked.push(node);
                    step = unlocking.step(Event::Release(outcomes[node]));
                }
            }
        };
        assert_eq!(asked, vec![0, 1, 2]);
        assert_eq!(result, expected);
    }
}

#[test]
fn node_timeout_is_a_hundredth_and_at_least_fifty() {
    assert_eq!(node_timeout(0), 50);
    assert_eq!(node_timeout(-30_000), 50);
    assert_eq!(node_timeout(1), 50);
    assert_eq!(node_timeout(5000), 50);
    assert_eq!(node_timeout(5099), 50);
    assert_eq!(node_timeout(5100), 51);
    assert_eq!(node_timeout(10_000), 100);
    assert_eq!(node_timeout(i32::MAX), 21_474_836);
}

#[test]
fn to_millis_drops_what_is_less_than_a_millisecond() {
    assert_eq!(to_millis(0), 0);
    assert_eq!(to_millis(999_999), 0);
    assert_eq!(to_millis(1_000_000), 1);
    assert_eq!(to_millis(1_999_999), 1);
    assert_eq!(to_millis(123_456_789_012), 123_456);
    assert_eq!(to_millis(u64::MAX), 18_446_744_073_709);
}
