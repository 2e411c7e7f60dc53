use dz_publisher_runtime::config::{FeedSpec, PortRole};
use dz_publisher_runtime::event::{AdapterError, SnapshotError, SnapshotRefusals};
use dz_publisher_runtime::pipeline::SinkRef;
use dz_publisher_runtime::report::{
    give_up_line, overrun_line, snapshot_refusal_line, unknown_shard_line, worth_a_line, SinkLog,
};

#[test]
fn a_repeated_refusal_is_printed_on_a_decade_schedule() {
    let printed: Vec<u64> = (0..=1_000).filter(|n| worth_a_line(*n)).collect();
    assert_eq!(printed, [1, 10, 100, 1_000]);
}

#[test]
fn nothing_is_printed_for_a_refusal_that_has_not_happened() {
    assert!(!worth_a_line(0));
}

#[test]
fn the_unknown_shard_line_names_the_offer_and_the_configured_shards() {
    let line = unknown_shard_line("pepr", &vec!["perp".to_owned(), "spot".to_owned()]);
    assert!(
        line.contains("`pepr`"),
        "the offered name is missing: {line}"
    );
    assert!(
        line.contains("`perp`") && line.contains("`spot`"),
        "the configured names are missing: {line}"
    );
    assert!(line.contains("declined"), "{line}");
}

#[test]
fn a_publisher_with_no_named_shard_still_names_what_it_has() {
    let line = unknown_shard_line("perp", &Vec::new());
    assert!(line.contains("none"), "{line}");
}

#[test]
fn the_unknown_shard_line_is_one_exact_line() {
    assert_eq!(
        unknown_shard_line("pepr", &vec!["perp".to_owned(), "spot".to_owned()]),
        "dz-publisher-runtime: the venue offered instruments on `pepr`, which is not a shard this \
         publisher is configured with. They are declined and reach no channel. Configured: \
         `perp`, `spot`. Said once for this name however many instruments were offered under it."
    );
}

#[test]
fn a_book_that_is_not_ready_is_worded_as_one() {
    let error = SnapshotError::Adapter {
        error: AdapterError::NotReady,
        said: "no book yet".to_owned(),
    };
    let counts = SnapshotRefusals {
        not_ready: 10,
        refused: 3,
    };
    assert_eq!(
        snapshot_refusal_line("a recovery", &error, counts).expect("ten is worth a line"),
        "dz-publisher-runtime: a recovery snapshot found a book that is not ready (10 so far): no \
         book yet"
    );
    // The other refusals are counted apart, and three of them are not news.
    assert_eq!(
        snapshot_refusal_line("a periodic", &SnapshotError::NoDepthFeed, counts),
        None
    );
    assert_eq!(
        snapshot_refusal_line(
            "a periodic",
            &SnapshotError::NoDepthFeed,
            SnapshotRefusals {
                not_ready: 0,
                refused: 1
            }
        )
        .expect("the first is"),
        "dz-publisher-runtime: a periodic snapshot was refused (1 so far): this publisher emits no \
         feed that carries a snapshot port role"
    );
}

#[test]
fn cycles_that_cannot_be_met_are_said_on_the_decade_schedule() {
    assert_eq!(overrun_line(0), None);
    assert_eq!(overrun_line(2), None);
    assert_eq!(
        overrun_line(100).expect("a hundred is worth a line"),
        "dz-publisher-runtime: the configured snapshot cycles want more snapshots than one process \
         can send (100 ticks so far), so every channel is lapping more slowly than its `[[feed]] \
         snapshot_cycle` states"
    );
}

#[test]
fn a_connection_that_is_carried_on_without_is_named() {
    let line = give_up_line("fix", "no credential");
    assert!(line.starts_with("`fix` gave up."), "{line}");
    assert!(line.ends_with("no credential"), "{line}");
}

fn sink(name: &str) -> SinkRef {
    SinkRef {
        spec: FeedSpec::TopOfBook,
        port_role: PortRole::Mktdata,
        name: name.to_owned(),
    }
}

#[test]
fn a_member_is_named_when_it_goes_and_when_it_comes_back_and_not_in_between() {
    let mut log = SinkLog::new();
    let label = sink("a").label();
    assert_eq!(
        log.log(&Vec::new(), &vec![sink("a")], "30s"),
        [format!(
            "dz-publisher-runtime: the route is down for {label}; holding its socket for up to 30s \
             for the route to return"
        )]
    );
    // Still down: nothing new.
    assert!(log.log(&Vec::new(), &vec![sink("a")], "30s").is_empty());
    assert_eq!(
        log.log(&Vec::new(), &Vec::new(), "30s"),
        [format!("dz-publisher-runtime: the route is back for {label}")]
    );
}

#[test]
fn a_member_that_was_given_up_on_is_dropped_and_not_back() {
    let mut log = SinkLog::new();
    let label = sink("a").label();
    log.log(&Vec::new(), &vec![sink("a")], "30s");
    assert_eq!(
        log.log(&vec![sink("a"), sink("a")], &Vec::new(), "30s"),
        [format!("dz-publisher-runtime: no longer sending to {label}")]
    );
    assert!(log.log(&vec![sink("a")], &Vec::new(), "30s").is_empty());
}
