use dz_publisher_runtime::duration::Duration;
use dz_publisher_runtime::instrument::{InstrumentRef, InstrumentTable};
use dz_publisher_runtime::rotation::{
    schedule_share, tick, SnapshotRotation, MIN_TICK_NS, WHOLE_SNAPSHOT_CAPACITY,
};
use dz_publisher_runtime::run::tick_interval;

/// A table of `n` listed instruments.
fn table(n: usize) -> InstrumentTable {
    let mut table = InstrumentTable::new();
    for _ in 0..n {
        table.list();
    }
    table
}

/// One shard's rotation over a table that is all its own: the published count is
/// the table's and every slot is a member.
fn due(
    rotation: &mut SnapshotRotation,
    at_ns: u64,
    table: &InstrumentTable,
) -> Option<InstrumentRef> {
    rotation.due(at_ns, table, table.len(), |_| true)
}

#[test]
fn the_tick_is_the_cycle_divided_by_the_published_set() {
    assert_eq!(tick(Duration::from_secs(5), 5), Duration::from_secs(1));
    assert_eq!(tick(Duration::from_secs(5), 50), Duration::from_millis(100));
}

#[test]
fn a_shards_rotation_is_paced_by_its_own_published_count() {
    let table = table(5);
    let shard_a = |instrument: InstrumentRef| instrument.index() < 4;
    let shard_b = |instrument: InstrumentRef| instrument.index() >= 4;
    let mut a = SnapshotRotation::new(Duration::from_secs(4));
    let mut b = SnapshotRotation::new(Duration::from_secs(4));
    assert_eq!(a.due(0, &table, 4, shard_a), None);
    assert_eq!(b.due(0, &table, 1, shard_b), None);

    // Four seconds over four instruments is one a second.
    assert!(
        a.due(1_000_000_000, &table, 4, shard_a).is_some(),
        "the larger shard laps its four instruments in its own cycle"
    );
    // Four seconds over one instrument is one every four seconds.
    assert_eq!(
        b.due(1_000_000_000, &table, 1, shard_b),
        None,
        "the smaller shard is paced by the one instrument it publishes, not by the five the \
         process does"
    );
    assert!(b.due(4_000_000_000, &table, 1, shard_b).is_some());
}

#[test]
fn a_share_is_the_process_tick_over_the_shards_own_derived_tick() {
    // One snapshot every 50ms out of a process serving one every 10ms is a fifth
    // of the process.
    assert_eq!(
        schedule_share(tick_interval(), Duration::from_secs(5), 100),
        WHOLE_SNAPSHOT_CAPACITY / 5
    );
    // And one every 10ms is the whole of it.
    assert_eq!(
        schedule_share(tick_interval(), Duration::from_secs(1), 100),
        WHOLE_SNAPSHOT_CAPACITY
    );
}

#[test]
fn a_shard_with_nothing_published_asks_for_nothing() {
    assert_eq!(schedule_share(tick_interval(), Duration::from_secs(5), 0), 0);
}

#[test]
fn every_shards_derived_tick_can_be_comfortable_while_the_process_is_not() {
    let shards = 31;
    let per_shard = schedule_share(tick_interval(), Duration::from_secs(5), 100);
    assert!(
        tick(Duration::from_secs(5), 100) > tick_interval(),
        "the fixture must be one the per-shard reading calls comfortable"
    );
    let total = per_shard * shards;
    assert!(
        total > WHOLE_SNAPSHOT_CAPACITY,
        "31 shards each asking for a fifth of the process is not achievable: {total}"
    );
    // 6.2 processes' worth.
    assert_eq!(total, WHOLE_SNAPSHOT_CAPACITY * 62 / 10);
}

#[test]
fn one_shard_below_the_process_tick_is_still_caught() {
    assert!(tick(Duration::from_secs(5), 1_000) < tick_interval());
    assert!(schedule_share(tick_interval(), Duration::from_secs(5), 1_000) > WHOLE_SNAPSHOT_CAPACITY);
}

#[test]
fn a_rotation_takes_only_its_own_shards_instruments() {
    let table = table(4);
    let odd_slots = |instrument: InstrumentRef| instrument.index() % 2 == 1;
    let mut rotation = SnapshotRotation::new(Duration::from_secs(2));
    assert_eq!(rotation.due(0, &table, 2, odd_slots), None);

    let mut taken = Vec::new();
    for second in 1..=4u64 {
        taken.push(
            rotation
                .due(second * 1_000_000_000, &table, 2, odd_slots)
                .map(InstrumentRef::index),
        );
    }
    assert_eq!(
        taken,
        [Some(1), Some(3), Some(1), Some(3)],
        "the rotation walks past the other shard's slots and laps its own two"
    );
}

#[test]
fn an_empty_set_does_not_divide_by_zero() {
    assert_eq!(tick(Duration::from_secs(5), 0), Duration::from_secs(5));
}

#[test]
fn a_set_too_large_for_the_cycle_is_clamped_rather_than_collapsed() {
    assert_eq!(
        tick(Duration::from_secs(5), 10_000_000),
        Duration::from_nanos(MIN_TICK_NS)
    );
}

#[test]
fn the_first_call_schedules_rather_than_snapshots() {
    let mut rotation = SnapshotRotation::new(Duration::from_secs(1));
    assert_eq!(due(&mut rotation, 0, &table(1)), None);
}

#[test]
fn one_instrument_per_tick_and_the_pass_wraps() {
    let mut rotation = SnapshotRotation::new(Duration::from_secs(3));
    let table = table(3);
    assert_eq!(due(&mut rotation, 0, &table), None);
    let mut taken = Vec::new();
    for second in 1..=6u64 {
        let at = second * 1_000_000_000;
        taken.push(due(&mut rotation, at, &table).map(InstrumentRef::index));
    }
    assert_eq!(
        taken,
        [Some(0), Some(1), Some(2), Some(0), Some(1), Some(2)],
        "the rotation covers the set in order and laps"
    );
}

#[test]
fn nothing_is_due_before_the_tick_elapses() {
    let mut rotation = SnapshotRotation::new(Duration::from_secs(2));
    let table = table(2);
    assert_eq!(due(&mut rotation, 0, &table), None);
    // The tick is one second; half of one is not due.
    assert_eq!(due(&mut rotation, 500_000_000, &table), None);
    assert!(due(&mut rotation, 1_000_000_000, &table).is_some());
}

#[test]
fn a_withdrawn_instrument_is_skipped_and_its_handle_is_not_reused() {
    let mut table = table(3);
    table.withdraw(InstrumentRef::from_admission(1));
    let mut rotation = SnapshotRotation::new(Duration::from_secs(2));
    assert_eq!(due(&mut rotation, 0, &table), None);
    let first = due(&mut rotation, 1_000_000_000, &table).map(InstrumentRef::index);
    let second = due(&mut rotation, 2_000_000_000, &table).map(InstrumentRef::index);
    assert_eq!((first, second), (Some(0), Some(2)));
}

#[test]
fn a_table_of_nothing_but_holes_returns_and_does_not_spin() {
    let mut table = table(2);
    table.withdraw(InstrumentRef::from_admission(0));
    table.withdraw(InstrumentRef::from_admission(1));
    let mut rotation = SnapshotRotation::new(Duration::from_secs(1));
    assert_eq!(due(&mut rotation, 0, &table), None);
    assert_eq!(due(&mut rotation, 10_000_000_000, &table), None);
}

#[test]
fn an_empty_table_schedules_nothing_at_all() {
    let mut rotation = SnapshotRotation::new(Duration::from_secs(1));
    assert_eq!(due(&mut rotation, 0, &InstrumentTable::new()), None);
    assert_eq!(
        due(&mut rotation, 10_000_000_000, &InstrumentTable::new()),
        None
    );
}

#[test]
fn a_late_tick_is_due_immediately_rather_than_pushing_the_lap_out() {
    let mut rotation = SnapshotRotation::new(Duration::from_secs(2));
    let table = table(2);
    assert_eq!(due(&mut rotation, 0, &table), None);
    assert!(due(&mut rotation, 9_000_000_000, &table).is_some());
    assert!(
        due(&mut rotation, 10_000_000_000, &table).is_some(),
        "a second instrument is due one tick after the late one, not one tick after when it \
         should have been"
    );
}

#[test]
fn a_listed_instrument_is_held_until_it_is_withdrawn() {
    let mut table = InstrumentTable::new();
    assert!(table.is_empty());
    let one = table.list();
    let other = table.list();
    assert!(!one.same_instrument(&other));
    table.withdraw(one);
    assert!(!table.holds(one));
    assert!(table.holds(other));
    assert_eq!((table.slots(), table.len()), (2, 1));
    // A withdrawn slot is not handed out again.
    assert_eq!(table.list().index(), 2);
    // And a slot nobody listed is not held.
    assert!(!table.holds(InstrumentRef::from_admission(9)));
}

#[test]
fn every_listed_instrument_is_reached_within_one_pass() {
    let mut table = table(5);
    table.withdraw(InstrumentRef::from_admission(3));
    let mut rotation = SnapshotRotation::new(Duration::from_secs(4));
    assert_eq!(due(&mut rotation, 0, &table), None);
    let mut seen: Vec<u32> = (1..=4u64)
        .filter_map(|second| due(&mut rotation, second * 1_000_000_000, &table))
        .map(InstrumentRef::index)
        .collect();
    seen.sort_unstable();
    assert_eq!(seen, [0, 1, 2, 4]);
    assert_eq!(rotation.cycle(), Duration::from_secs(4));
}

#[test]
fn a_lap_returns_each_instrument_once_in_slot_order() {
    let mut table = table(7);
    table.withdraw(InstrumentRef::from_admission(4));
    // The odd slots are another shard's: this one serves 0, 2 and 6.
    let mine = |instrument: InstrumentRef| instrument.index() % 2 == 0;
    let mut rotation = SnapshotRotation::new(Duration::from_secs(3));
    let mut returned = Vec::new();
    for half_second in 0..24u64 {
        let at = half_second * 500_000_000;
        if let Some(instrument) = rotation.due(at, &table, 3, mine) {
            returned.push(instrument.index());
        }
    }
    assert_eq!(returned, [0, 2, 6, 0, 2, 6, 0, 2, 6, 0, 2]);
}

#[test]
fn a_cycle_too_long_to_hold_is_the_longest_that_is_held() {
    let longest = Duration::from_nanos(u64::MAX);
    assert_eq!(SnapshotRotation::new(longest).cycle(), longest);
    assert_eq!(
        SnapshotRotation::new(Duration::from_secs(u64::MAX)).cycle(),
        longest
    );
}
