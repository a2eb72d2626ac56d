use spinlock::Mutex;
use spinlock::protocol::Harness;
use spinlock::Observation;
use spinlock::SpinStep;
use spinlock::next_spin_step;

#[test]
fn test_mutex() {
    let mut m = Mutex::new(0u64);
    for _ in 0..100 {
        for _ in 0..10000 {
            m.with_lock(|l: &mut u64| *l += 1);
        }
    }
    assert_eq!(m.with_lock(|l: &mut u64| *l), 100 * 10000);
}

#[test]
fn new_starts_unlocked() {
    let m: Mutex<i32> = Mutex::new(7);
    assert!(!m.is_locked());
}

#[test]
fn with_lock_applies_closure_and_unlocks() {
    let mut m = Mutex::new(10u32);
    let doubled = m.with_lock(|v: &mut u32| {
        *v *= 2;
        *v
    });
    assert_eq!(doubled, 20);
    assert!(!m.is_locked());
    assert_eq!(m.with_lock(|v: &mut u32| *v), 20);
}

#[test]
fn visibility_across_critical_sections() {
    let mut m = Mutex::new(0u64);
    m.with_lock(|v: &mut u64| *v = 42);
    let seen = m.with_lock(|v: &mut u64| *v);
    assert_eq!(seen, 42);
}

#[test]
fn double_entry_refused() {
    let mut m = Mutex::new(());
    assert!(m.try_acquire());
    assert!(m.is_locked());
    assert!(!m.try_acquire());
    assert!(!m.try_acquire());
    m.release();
    assert!(!m.is_locked());
    assert!(m.try_acquire());
    m.release();
}

#[test]
fn cycle_restores_unlocked_flag() {
    let mut m = Mutex::new(5i64);
    for _ in 0..10 {
        assert!(m.try_acquire());
        m.release();
        assert!(!m.is_locked());
    }
    assert_eq!(m.with_lock(|v: &mut i64| *v), 5);
}

#[test]
fn uncontended_single_attempt() {
    assert_eq!(next_spin_step(Observation::Start), SpinStep::Exchange);
    assert_eq!(next_spin_step(Observation::ExchangeSucceeded), SpinStep::Enter);
    let mut m = Mutex::new(1u8);
    assert!(m.try_acquire());
    m.release();
}

#[test]
fn contended_policy_reads_only() {
    assert_eq!(next_spin_step(Observation::ExchangeFailed), SpinStep::Read);
    assert_eq!(next_spin_step(Observation::SawLocked), SpinStep::Read);
    assert_eq!(next_spin_step(Observation::SawUnlocked), SpinStep::Exchange);
}

#[test]
fn sequential_matches_direct_access() {
    let mut plain: u64 = 3;
    for i in 0..50u64 {
        plain += i;
    }

    let mut m = Mutex::new(3u64);
    for i in 0..50u64 {
        m.with_lock(|v: &mut u64| *v += i);
    }
    assert_eq!(m.with_lock(|v: &mut u64| *v), plain);
}

fn occupants(h: &spinlock::protocol::Harness) -> usize {
    let mut inside: usize = 0;
    for t in 0..h.thread_count() {
        if h.holds(t) {
            inside += 1;
        }
    }
    inside
}

#[test]
fn harness_interleaving_counts_every_update() {
    let mut h = Harness::begin(3, 0);
    assert_eq!(h.thread_count(), 3);
    assert_eq!(h.counter(), 0);
    assert!(occupants(&h) <= 1);

    assert!(h.try_enter(0));
    assert!(h.flag_locked());
    assert!(!h.try_enter(1));
    assert!(!h.try_enter(2));
    assert!(h.holds(0));
    assert!(occupants(&h) <= 1);
    h.bump(0);
    h.bump(0);
    h.leave(0);
    assert!(!h.flag_locked());
    assert!(occupants(&h) == 0);

    assert!(h.try_enter(2));
    assert!(!h.try_enter(0));
    h.bump(2);
    assert!(occupants(&h) <= 1);
    h.leave(2);

    assert!(h.try_enter(1));
    h.bump(1);
    h.bump(1);
    h.leave(1);
    assert!(h.try_enter(2));
    h.bump(2);
    h.leave(2);

    assert!(occupants(&h) == 0);
    assert_eq!(h.counter(), 6);
}

#[test]
fn harness_scenario_no_lost_updates() {
    let mut h = Harness::begin(100, 0);
    for _ in 0..10000 {
        for t in 0..100 {
            assert!(h.try_enter(t));
            h.bump(t);
            h.leave(t);
        }
    }
    assert_eq!(h.counter(), 1_000_000);
}

#[test]
fn harness_refuses_reentry_until_left() {
    let mut h = Harness::begin(2, 41);
    assert!(h.try_enter(1));
    assert!(!h.try_enter(1));
    h.bump(1);
    h.leave(1);
    assert!(h.try_enter(0));
    assert_eq!(h.counter(), 42);
}

#[test]
fn with_lock_returns_closure_result() {
    let mut m = Mutex::new(String::from("spin"));
    let len = m.with_lock(|s: &mut String| {
        s.push_str("lock");
        s.len()
    });
    assert_eq!(len, 8);
    assert_eq!(m.with_lock(|s: &mut String| s.clone()), "spinlock");
}
