use dz_publisher_runtime::clock::{reading, unix_reading, Clock, ManualClock, SystemClock};
use dz_publisher_runtime::duration::Duration;
use dz_publisher_runtime::guard::{ConsistencyGuard, Exit, ExitReason, IdleGuard, Inconsistency};

const SECOND: u64 = 1_000_000_000;

#[test]
fn the_idle_guard_fires_when_the_upstream_delivers_and_nothing_is_published() {
    let mut guard = IdleGuard::new(Duration::from_secs(60));
    guard.upstream(0);
    assert_eq!(guard.last_published_ns(), None);
    for second in 1..=61 {
        guard.upstream(second * SECOND);
    }
    assert_eq!(guard.check(61 * SECOND), Some(Exit::IdleGuard));
}

#[test]
fn a_quiet_venue_is_not_an_idle_publisher() {
    let mut guard = IdleGuard::new(Duration::from_secs(60));
    guard.upstream(0);
    guard.published(0);
    // Neither side has moved for an hour.
    assert_eq!(guard.check(3_600 * SECOND), None);
}

#[test]
fn a_publishing_publisher_is_not_idle() {
    let mut guard = IdleGuard::new(Duration::from_secs(60));
    for second in 0..200 {
        guard.upstream(second * SECOND);
        guard.published(second * SECOND);
        assert_eq!(guard.check(second * SECOND), None);
    }
    assert_eq!(guard.last_published_ns(), Some(199 * SECOND));
}

#[test]
fn nothing_received_yet_is_not_silence() {
    let guard = IdleGuard::new(Duration::from_secs(60));
    assert_eq!(guard.check(u64::MAX), None);
}

#[test]
fn the_first_inconsistency_found_is_the_one_reported() {
    let mut guard = ConsistencyGuard::new();
    assert_eq!(guard.check(), None);
    let first = Inconsistency::StateUnpersistable {
        detail: "disk full".to_owned(),
    };
    guard.found(first.clone());
    guard.found(Inconsistency::EgressDark {
        sink: "mktdata".to_owned(),
    });
    assert_eq!(guard.finding(), Some(&first));
    assert_eq!(guard.check(), Some(Exit::ConsistencyGuard(first)));
}

#[test]
fn each_exit_is_counted_under_its_own_reason_and_says_why() {
    let unusable = Exit::ConsistencyGuard(Inconsistency::UpstreamUnusable {
        detail: "`ws`: refused".to_owned(),
    });
    assert_eq!(Exit::Signal.reason(), ExitReason::Signal);
    assert_eq!(Exit::IdleGuard.reason(), ExitReason::IdleGuard);
    assert_eq!(unusable.reason(), ExitReason::ConsistencyGuard);
    assert_eq!(Exit::Signal.message(), "a signal");
    assert_eq!(
        unusable.message(),
        "the consistency guard: the upstream transport is not usable as configured: `ws`: refused"
    );
    assert_eq!(
        Inconsistency::StateUnpersistable {
            detail: "disk full".to_owned()
        }
        .message(),
        "the reference-data state directory is no longer writable: disk full"
    );
}

#[test]
fn a_manual_clock_moves_both_readings_and_steps_only_the_wall() {
    let mut clock = ManualClock::at_unix_ns(5);
    assert_eq!((clock.unix_ns(), clock.wall_ns()), (5, 5));
    let started = clock.monotonic_ns();
    clock.advance(Duration::from_secs(2));
    assert_eq!(clock.unix_ns(), 5 + 2 * SECOND);
    assert_eq!(clock.monotonic_ns() - started, 2 * SECOND);
    assert_eq!(clock.steady_ns(), clock.monotonic_ns());
    clock.step_unix_ns(1);
    assert_eq!(clock.unix_ns(), 1);
    assert_eq!(clock.monotonic_ns() - started, 2 * SECOND);
}

#[test]
fn a_system_clock_reads_the_hosts_own() {
    let clock = SystemClock::new();
    let first = clock.steady_ns();
    assert!(clock.monotonic_ns() >= first);
    // Later than the first of January 2020, and not a monotonic reading.
    assert!(clock.unix_ns() > 1_577_836_800 * SECOND);
    assert!(clock.wall_ns() > first);
}

#[test]
fn clones_of_a_system_clock_count_from_one_origin() {
    let clock = SystemClock::default();
    let before = clock.steady_ns();
    let copy = clock.clone();
    let there = copy.monotonic_ns();
    let after = clock.steady_ns();
    assert!(before <= there && there <= after);
}

#[test]
fn a_manual_clock_starts_at_zero() {
    let clock = ManualClock::default();
    assert_eq!((clock.monotonic_ns(), clock.unix_ns()), (0, 0));
}

#[test]
fn a_reading_that_does_not_fit_is_the_last_that_does() {
    assert_eq!(reading(7), 7);
    assert_eq!(reading(u128::MAX), u64::MAX);
    assert_eq!(unix_reading(None), 0);
    assert_eq!(unix_reading(Some(9)), 9);
}
