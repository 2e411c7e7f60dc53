use dz_publisher_runtime::address::Ipv4Addr;
use dz_publisher_runtime::compose::{
    choose_reads, compose_feeds, compose_shard, connections, definition_schedule, failure_scope,
    identity, port_plan, register_venue_collectors, shard_configs, FailureScope,
    snapshot_notice, tee_plan, PortOpener, Reads, Stage, Startup,
};
use dz_publisher_runtime::config::{
    Feed, FeedSpec, Kind, PortRole, ReplayConfig, ShardName, Source, SourceId, SourceRole, TeeConfig,
};
use dz_publisher_runtime::duration::Duration;
use dz_publisher_runtime::error::StartupError;
use dz_publisher_runtime::event::{
    event_kind, timestamp_kind, AdapterError, Event, EventClass, EventKind, LoweringError,
    LoweringRefusalReason, ScaleError, SnapshotError, TimestampKind, VenueTimestampKind,
};
use dz_publisher_runtime::guard::{Exit, ExitReason, Inconsistency};
use dz_publisher_runtime::instrument::{InstrumentRef, InstrumentTable};
use dz_publisher_runtime::pipeline::{
    Action, Delivery, EgressMessageType, FeedPipeline, Port, Ports, Step,
};
use dz_publisher_runtime::publisher::{
    Counts, Publisher, ShardReference, TeardownAction, TeardownStep,
};
use dz_publisher_runtime::report::report;
use dz_publisher_runtime::shard::{Feeds, ShardFeeds};

const SECOND: u64 = 1_000_000_000;

fn feed(spec: FeedSpec, shard: Option<&str>, channel_id: u8) -> Feed {
    let depth = spec == FeedSpec::MarketByPrice;
    Feed {
        spec,
        shard: match shard {
            Some(name) => ShardName::new(name).expect("the name is safe"),
            None => ShardName::default_shard(),
        },
        channel_id,
        source_id: SourceId::new(41).expect("it is assigned"),
        group: Ipv4Addr::parse("233.252.0.4").expect("it is an address"),
        mktdata_port: 30_001,
        refdata_port: 30_002,
        snapshot_port: if depth { Some(30_003) } else { None },
        snapshot_cycle: if depth {
            Some(Duration::from_secs(4))
        } else {
            None
        },
        heartbeat_interval: Duration::from_secs(1),
        definition_cycle: Duration::from_secs(30),
        manifest_cadence: Duration::from_secs(10),
        idle_guard: Duration::from_secs(60),
    }
}

fn port(next_sequence: u64) -> Port {
    Port {
        live: 1,
        process_failure: None,
        dropped: Vec::new(),
        path_down: Vec::new(),
        next_sequence: Some(next_sequence),
    }
}

fn ports(spec: FeedSpec) -> Ports {
    Ports {
        mktdata: port(17),
        refdata: port(3),
        snapshot: if spec == FeedSpec::MarketByPrice {
            Some(port(5))
        } else {
            None
        },
    }
}

/// Opens every block but one, which it refuses.
struct Opener {
    refuses: Option<u8>,
}

impl PortOpener for Opener {
    fn open(&self, feed: &Feed) -> Result<Ports, StartupError> {
        if self.refuses == Some(feed.channel_id) {
            return Err(StartupError::Transmitter {
                source: "no route".to_owned(),
            });
        }
        Ok(ports(feed.spec))
    }
}

fn shards(names: &[&str]) -> Vec<ShardName> {
    names
        .iter()
        .map(|name| ShardName::new(name).expect("the name is safe"))
        .collect()
}

/// Two shards, each with both feeds, blocks interleaved.
fn two_shards() -> Vec<Feed> {
    vec![
        feed(FeedSpec::TopOfBook, Some("perp"), 1),
        feed(FeedSpec::MarketByPrice, Some("spot"), 4),
        feed(FeedSpec::TopOfBook, Some("spot"), 3),
        feed(FeedSpec::MarketByPrice, Some("perp"), 2),
    ]
}

fn publisher() -> Publisher {
    let feeds = compose_feeds(
        &shards(&["perp", "spot"]),
        &two_shards(),
        &Opener { refuses: None },
    )
    .expect("both shards compose");
    Publisher::new(feeds, Duration::from_secs(60))
}

fn event(class: EventClass) -> Event {
    Event {
        class,
        instrument: InstrumentRef::from_admission(0),
        source_ts_ns: 40,
    }
}

fn pushed(step: &Step) -> Option<(u8, PortRole, EgressMessageType)> {
    match step.action {
        Action::Push { message, .. } => Some((step.channel_id, step.port_role, message)),
        _ => None,
    }
}

fn messages(steps: &[Step]) -> Vec<(u8, PortRole, EgressMessageType)> {
    steps.iter().filter_map(pushed).collect()
}

#[test]
fn a_shard_with_neither_specification_is_not_a_shard() {
    assert!(ShardFeeds::new(None, None).is_none());
}

#[test]
fn shards_compose_in_the_order_they_are_named_in() {
    let names = shards(&["spot", "perp"]);
    let feeds = compose_feeds(&names, &two_shards(), &Opener { refuses: None }).expect("they do");
    assert_eq!(feeds.shard_count(), 2);
    assert_eq!(feeds.shard_name(0), Some("spot"));
    assert_eq!(feeds.channel_ids_on(0), [3, 4]);
    assert_eq!(feeds.shard_name(1), Some("perp"));
    assert_eq!(feeds.channel_ids_on(1), [1, 2]);
    assert_eq!(feeds.shard_name(2), None);
    assert_eq!(feeds.channel_ids(), [1, 2, 3, 4]);
    // The registry is told of them at the same places.
    let configs = shard_configs(&names, &two_shards());
    assert_eq!(
        configs
            .iter()
            .map(|config| (config.name.as_str(), config.channel_id))
            .collect::<Vec<_>>(),
        [("spot", 4), ("perp", 1)]
    );
}

#[test]
fn a_shard_no_block_carries_is_refused_rather_than_skipped() {
    match compose_feeds(
        &shards(&["perp", "nowhere", "spot"]),
        &two_shards(),
        &Opener { refuses: None },
    ) {
        Err(StartupError::ShardWithNoFeed { shard }) => assert_eq!(shard, "nowhere"),
        other => panic!("{other:?}"),
    }
    assert!(compose_shard(&ShardName::default_shard(), Vec::new()).is_err());
}

#[test]
fn a_port_that_cannot_be_opened_refuses_the_composition() {
    match compose_feeds(
        &shards(&["perp", "spot"]),
        &two_shards(),
        &Opener { refuses: Some(3) },
    ) {
        Err(StartupError::Transmitter { source }) => assert_eq!(source, "no route"),
        other => panic!("{other:?}"),
    }
}

#[test]
fn the_first_fault_there_is_refuses_the_composition() {
    // The second shard has no block, and a port of the first is refused: the
    // first shard is opened first.
    assert!(matches!(
        compose_feeds(
            &shards(&["spot", "option"]),
            &two_shards(),
            &Opener { refuses: Some(3) }
        ),
        Err(StartupError::Transmitter { .. })
    ));
    assert!(matches!(
        compose_feeds(
            &shards(&["option", "spot"]),
            &two_shards(),
            &Opener { refuses: Some(3) }
        ),
        Err(StartupError::ShardWithNoFeed { .. })
    ));
}

#[test]
fn the_last_block_of_a_specification_is_the_one_a_shard_sends_on() {
    let first = feed(FeedSpec::TopOfBook, None, 7);
    let last = feed(FeedSpec::TopOfBook, None, 8);
    let shard = compose_shard(
        &ShardName::default_shard(),
        vec![
            FeedPipeline::new(&first, ports(FeedSpec::TopOfBook)),
            FeedPipeline::new(&last, ports(FeedSpec::TopOfBook)),
        ],
    )
    .expect("there is one");
    assert_eq!(shard.channel_ids(), [8]);
}

#[test]
fn a_block_is_opened_as_the_port_roles_it_carries() {
    let plan = port_plan(&feed(FeedSpec::MarketByPrice, None, 1));
    assert_eq!(
        plan.iter()
            .map(|port| (port.port_role, port.port, port.scope))
            .collect::<Vec<_>>(),
        [
            (PortRole::Mktdata, 30_001, FailureScope::Process),
            (PortRole::Refdata, 30_002, FailureScope::Process),
            (PortRole::Snapshot, 30_003, FailureScope::Process)
        ]
    );
    assert_eq!(failure_scope(PortRole::Snapshot), FailureScope::Process);
    assert_eq!(port_plan(&feed(FeedSpec::TopOfBook, None, 1)).len(), 2);
}

#[test]
fn a_tee_is_planned_where_it_is_on() {
    let block = feed(FeedSpec::TopOfBook, Some("perp"), 1);
    let tee = |enabled: bool, path: Option<&str>| TeeConfig {
        enabled,
        path: path.map(str::to_owned),
    };
    assert_eq!(
        tee_plan(&tee(false, None), &block, PortRole::Mktdata).expect("it is off"),
        None
    );
    let plan = tee_plan(&tee(true, Some("/run/tee")), &block, PortRole::Mktdata)
        .expect("it has a path")
        .expect("it is on");
    assert_eq!(plan.socket, "/run/tee.top-of-book.perp.mktdata");
    assert_eq!(plan.scope, FailureScope::Channel);
    assert_eq!(
        plan.line,
        "fanning out top-of-book mktdata datagrams to /run/tee.top-of-book.perp.mktdata"
    );
    assert!(matches!(
        tee_plan(&tee(true, None), &block, PortRole::Mktdata),
        Err(StartupError::TeeWithoutPath)
    ));
}

#[test]
fn an_operator_is_told_of_the_snapshots() {
    let depth = vec![feed(FeedSpec::MarketByPrice, None, 1)];
    assert_eq!(
        snapshot_notice(Some(Duration::from_secs(5)), &depth).expect("there is a cycle"),
        "snapshot rotation: one pass over the published set every 5s"
    );
    let warning = snapshot_notice(None, &depth).expect("there is a port and no cycle");
    assert!(warning.contains("only recovery snapshots will be sent"), "{warning}");
    assert_eq!(
        snapshot_notice(None, &vec![feed(FeedSpec::TopOfBook, None, 1)]),
        None
    );
}

#[test]
fn one_recording_replaces_every_transport() {
    let sources = vec![Source {
        connection: "ws".to_owned(),
        kind: Kind {
            token: "uds".to_owned(),
        },
        role: SourceRole::Primary,
        upstream: toml::map::Map::new(),
        credentials: toml::map::Map::new(),
    }];
    let built = vec!["fix".to_owned(), "ws".to_owned()];
    let replay = |enabled: bool, path: Option<&str>| ReplayConfig {
        enabled,
        path: path.map(str::to_owned),
    };
    let live = choose_reads(&replay(false, None), &sources, &built).expect("it is off");
    assert_eq!(live, Reads::Live);
    assert_eq!(connections(&live, &built), ["fix", "ws"]);
    let recording =
        choose_reads(&replay(true, Some("fixtures")), &sources, &built).expect("it has a path");
    assert_eq!(
        recording,
        Reads::Recording {
            path: "fixtures".to_owned(),
            connection: "ws".to_owned()
        }
    );
    assert_eq!(connections(&recording, &built), ["ws"]);
    assert!(matches!(
        choose_reads(&replay(true, None), &sources, &built),
        Err(StartupError::ReplayWithoutPath)
    ));
}

#[test]
fn the_first_block_states_the_identity() {
    let feeds = two_shards();
    assert_eq!(identity(&feeds).expect("there is one").channel_id, 1);
    assert!(matches!(
        identity(&Vec::new()),
        Err(StartupError::NoEnabledFeed)
    ));
}

#[test]
fn definitions_are_never_a_burst() {
    let block = feed(FeedSpec::TopOfBook, None, 1);
    let schedule = definition_schedule(&block);
    assert_eq!(schedule.cycle, block.definition_cycle);
    assert_eq!(schedule.max_datagrams_per_tick, 1);
}

/// Register collectors with a registry that refuses the reserved prefix.
fn register(collectors: &[&str]) -> (Vec<String>, Result<(), StartupError>) {
    let mut registered: Vec<String> = Vec::new();
    let mut outcomes: Vec<Result<(), String>> = Vec::new();
    loop {
        match register_venue_collectors(collectors.len(), &outcomes) {
            Err(error) => return (registered, Err(error)),
            Ok(None) => return (registered, Ok(())),
            Ok(Some(next)) => {
                let name = collectors[next];
                if name.starts_with("dz_publisher_") {
                    outcomes.push(Err(format!("{name} is reserved")));
                } else {
                    registered.push(name.to_owned());
                    outcomes.push(Ok(()));
                }
            }
        }
    }
}

#[test]
fn a_refused_collector_stops_registration_without_rolling_it_back() {
    let (registered, outcome) = register(&[
        "venue_first_total",
        "dz_publisher_not_yours_total",
        "venue_third_total",
    ]);
    match outcome {
        Err(StartupError::VenueMetric { source }) => {
            assert_eq!(source, "dz_publisher_not_yours_total is reserved");
        }
        other => panic!("the second is reserved: {other:?}"),
    }
    assert_eq!(registered, ["venue_first_total"]);
}

#[test]
fn collectors_are_registered_in_order_and_none_is_no_failure() {
    let (registered, outcome) = register(&["venue_first_total", "venue_second_total"]);
    outcome.expect("neither is reserved");
    assert_eq!(registered, ["venue_first_total", "venue_second_total"]);
    let (registered, outcome) = register(&[]);
    outcome.expect("empty is the ordinary case");
    assert!(registered.is_empty());
}

#[test]
fn a_startup_goes_through_its_stages_in_order() {
    let stages = |serves: bool| {
        let mut startup = Startup::new(serves);
        let mut passed = Vec::new();
        while let Some(stage) = startup.stage() {
            passed.push(stage);
            startup.advance();
        }
        startup.advance();
        assert_eq!(startup.stage(), None);
        passed
    };
    let all = stages(true);
    assert_eq!(all.len(), 14);
    assert_eq!(all[0], Stage::OpenVenue);
    assert_eq!(all[13], Stage::Report);
    let place = |wanted: Stage| all.iter().position(|stage| *stage == wanted).expect("it is one");
    assert!(place(Stage::OpenRegistry) < place(Stage::OpenPorts));
    assert!(place(Stage::PollListings) < place(Stage::Run));
    assert!(!stages(false).contains(&Stage::ServeMetrics));
}

#[test]
fn a_trade_goes_to_both_feeds_of_its_shard_and_to_no_other() {
    let mut publisher = publisher();
    let trade = event(EventClass::Trade);
    assert!(publisher.route(&trade, Some(1)));
    let lowered = publisher.lowered(&trade, Some(1), Ok(()), 5, 50);
    assert_eq!(lowered.refused, None);
    assert_eq!(
        messages(&lowered.steps),
        [
            (3, PortRole::Mktdata, EgressMessageType::Trade),
            (4, PortRole::Mktdata, EgressMessageType::Trade)
        ]
    );
    // Each push is flushed behind, if it was taken.
    assert_eq!(lowered.steps.len(), 4);
    assert_eq!(lowered.steps[1].action, Action::Flush);
    assert!(!lowered.steps[1].runs(false));
    assert!(lowered.steps[1].runs(true));
    assert!(lowered.steps[2].runs(false));
}

#[test]
fn each_feed_carries_its_own_events() {
    let mut publisher = publisher();
    for (class, channel, message) in [
        (EventClass::Quote, 1, EgressMessageType::Quote),
        (EventClass::Level, 2, EgressMessageType::LevelUpdate),
        (EventClass::Clear, 2, EgressMessageType::BookClear),
    ] {
        let arrived = event(class);
        assert!(publisher.route(&arrived, Some(0)));
        let lowered = publisher.lowered(&arrived, Some(0), Ok(()), 5, 50);
        assert_eq!(
            messages(&lowered.steps),
            [(channel, PortRole::Mktdata, message)]
        );
    }
}

#[test]
fn an_event_no_feed_carries_is_counted_and_dropped() {
    let feeds = compose_feeds(
        &vec![ShardName::default_shard()],
        &vec![feed(FeedSpec::TopOfBook, None, 1)],
        &Opener { refuses: None },
    )
    .expect("it composes");
    let mut publisher = Publisher::new(feeds, Duration::from_secs(60));
    assert!(publisher.route(&event(EventClass::Quote), Some(0)));
    assert!(!publisher.route(&event(EventClass::Level), Some(0)));
    assert!(!publisher.route(&event(EventClass::Other), Some(0)));
    assert_eq!(publisher.unroutable(), 2);
    // A handle the published set does not hold is the lowering's to refuse.
    assert!(publisher.route(&event(EventClass::Quote), None));
    let lowered = publisher.lowered(
        &event(EventClass::Quote),
        None,
        Err(LoweringError::UnknownInstrument),
        5,
        50,
    );
    assert_eq!(
        lowered.refused,
        Some(LoweringRefusalReason::UnknownInstrument)
    );
    assert!(lowered.steps.is_empty());
}

#[test]
fn every_lowering_refusal_is_counted_under_its_own_reason() {
    let mut publisher = publisher();
    for error in [
        LoweringError::UnknownInstrument,
        LoweringError::InexactContract,
        LoweringError::Scale(ScaleError::TooPrecise),
        LoweringError::Scale(ScaleError::Malformed),
        LoweringError::Scale(ScaleError::Overflow),
        LoweringError::Scale(ScaleError::Overflow),
    ] {
        publisher.lowered(&event(EventClass::Trade), Some(0), Err(error), 5, 50);
    }
    assert_eq!(
        publisher.refusals().by_reason(),
        [
            ("unknown_instrument", 1),
            ("inexact_contract", 1),
            ("too_precise", 1),
            ("malformed", 1),
            ("overflow", 2)
        ]
    );
    assert_eq!(publisher.refusals().total(), 6);
}

#[test]
fn a_message_that_reached_the_wire_moves_the_idle_guard_and_is_timed() {
    let mut publisher = publisher();
    assert_eq!(
        publisher.declare_venue_timestamps(Some(VenueTimestampKind::MatchingEngine)),
        1
    );
    publisher.payload_scope(Some(45));
    let level = event(EventClass::Level);
    let lowered = publisher.lowered(&level, Some(0), Ok(()), 5, 50);
    let nothing = publisher.sent(&level, &lowered.steps, &vec![true, false], 5, 50);
    assert!(!nothing.published);
    assert_eq!(nothing.latency, None);
    let sent = publisher.sent(&level, &lowered.steps, &vec![true, true], 5, 50);
    assert!(sent.published);
    let latency = sent.latency.expect("it was measured inside a payload");
    assert_eq!(latency.kind, EventKind::BookUpdate);
    assert_eq!(latency.recv_to_send_ns, 5);
    assert_eq!(
        latency.venue_to_recv,
        Some((TimestampKind::MatchingEngine, 5))
    );
    assert_eq!(event_kind(EventClass::Trade), EventKind::Trade);
    assert_eq!(
        timestamp_kind(VenueTimestampKind::BlockTime),
        TimestampKind::BlockTime
    );
}

/// Which steps are taken, where `refused` says which of them a socket refuses.
fn deliver(steps: &[Step], refused: &[usize]) -> (Vec<usize>, Vec<bool>) {
    let mut delivery = Delivery::new(steps.to_vec());
    let mut carried_out = Vec::new();
    let mut at = 0;
    while let Some((step, runs)) = delivery.next() {
        assert_eq!(step, steps[at]);
        if runs {
            carried_out.push(at);
        }
        delivery.answered(!refused.contains(&at));
        at += 1;
    }
    let (gone_through, taken) = delivery.finish();
    assert_eq!(gone_through, steps);
    (carried_out, taken)
}

#[test]
fn a_channel_is_not_flushed_behind_a_message_it_refused() {
    let mut publisher = publisher();
    let trade = event(EventClass::Trade);
    let steps = publisher.lowered(&trade, Some(0), Ok(()), 5, 50).steps;
    for (refused, carried_out, taken, published) in [
        (vec![], vec![0, 1, 2, 3], [true, true, true, true], true),
        (vec![0], vec![0, 2, 3], [false, false, true, true], true),
        (vec![1], vec![0, 1, 2, 3], [true, false, true, true], true),
        (vec![0, 3], vec![0, 2, 3], [false, false, true, false], false),
        (vec![1, 2], vec![0, 1, 2], [true, false, false, false], false),
    ] {
        let (went, which) = deliver(&steps, &refused);
        assert_eq!(went, carried_out);
        assert_eq!(which, taken);
        assert_eq!(publisher.sent(&trade, &steps, &which, 5, 50).published, published);
    }
    // A flush that nothing was pushed ahead of publishes nothing.
    assert!(!publisher
        .sent(&trade, &steps, &vec![false, true, false, false], 5, 50)
        .published);
}

#[test]
fn a_trade_inside_a_payload_is_timed_under_its_own_label() {
    let mut publisher = publisher();
    publisher.declare_venue_timestamps(Some(VenueTimestampKind::MatchingEngine));
    publisher.payload_scope(Some(45));
    let trade = event(EventClass::Trade);
    let lowered = publisher.lowered(&trade, Some(0), Ok(()), 5, 50);
    // One feed took it, and it is measured once.
    let taken: Vec<bool> = (0..lowered.steps.len()).map(|step| step < 2).collect();
    let sent = publisher.sent(&trade, &lowered.steps, &taken, 5, 50);
    assert!(sent.published);
    let latency = sent.latency.expect("it was measured inside a payload");
    assert_eq!(latency.kind, EventKind::Trade);
    assert_eq!(latency.recv_to_send_ns, 5);
    assert_eq!(
        latency.venue_to_recv,
        Some((TimestampKind::MatchingEngine, 5))
    );
    let neither = vec![false; lowered.steps.len()];
    assert_eq!(
        publisher.sent(&trade, &lowered.steps, &neither, 5, 50).latency,
        None
    );
    publisher.payload_scope(None);
    let sent = publisher.sent(&trade, &lowered.steps, &taken, 5, 50);
    assert!(sent.published);
    assert_eq!(sent.latency, None);
}

#[test]
fn a_reset_owes_a_snapshot_at_its_anchor_once_it_reached_the_wire() {
    let mut publisher = publisher();
    let one = InstrumentRef::from_admission(9);
    let other = InstrumentRef::from_admission(2);
    let anchor = publisher.desynchronised(Some(0)).expect("there is a depth feed");
    assert_eq!(anchor, 17);
    let lowered = publisher.reset_lowered(Some(0), Ok(()), 5, 50);
    assert_eq!(
        messages(&lowered.steps),
        [(2, PortRole::Mktdata, EgressMessageType::InstrumentReset)]
    );
    assert!(!publisher.reset_sent(one, anchor, &lowered.steps, &vec![false, false], 5));
    assert!(publisher.owed_snapshots().is_empty());
    for (instrument, at) in [(one, 17), (other, 18), (one, 20), (one, 19)] {
        assert!(publisher.reset_sent(instrument, at, &lowered.steps, &vec![true, true], 5));
    }
    // Each once, in order, at the latest anchor; and drained.
    assert_eq!(publisher.owed_snapshots(), [(other, 18), (one, 20)]);
    assert!(publisher.owed_snapshots().is_empty());
}

#[test]
fn a_snapshot_goes_out_whole_on_the_depth_feeds_snapshot_port() {
    let mut publisher = publisher();
    assert_eq!(publisher.snapshot(Some(1)).expect("it has a depth feed"), 17);
    // The anchor its reset promised, and not where the channel has come to.
    assert_eq!(
        publisher
            .snapshot_anchored_at(Some(1), 9)
            .expect("it has a depth feed"),
        9
    );
    let steps = publisher.snapshot_framed(1, 2, 50);
    assert_eq!(
        messages(&steps),
        [
            (4, PortRole::Snapshot, EgressMessageType::SnapshotBegin),
            (4, PortRole::Snapshot, EgressMessageType::SnapshotLevel),
            (4, PortRole::Snapshot, EgressMessageType::SnapshotLevel),
            (4, PortRole::Snapshot, EgressMessageType::SnapshotEnd)
        ]
    );
    assert_eq!(steps[4].action, Action::Flush);
    // Each needs the one before it.
    assert!(steps[1..].iter().all(|step| step.if_taken));
}

#[test]
fn a_snapshot_that_is_refused_is_counted() {
    let feeds = compose_feeds(
        &vec![ShardName::default_shard()],
        &vec![feed(FeedSpec::TopOfBook, None, 1)],
        &Opener { refuses: None },
    )
    .expect("it composes");
    let mut publisher = Publisher::new(feeds, Duration::from_secs(60));
    assert!(matches!(
        publisher.snapshot(Some(0)),
        Err(SnapshotError::NoDepthFeed)
    ));
    assert!(publisher.desynchronised(Some(0)).is_none());
    publisher.snapshot_refused(&SnapshotError::Adapter {
        error: AdapterError::NotReady,
        said: "not yet".to_owned(),
    });
    let counts = publisher.snapshot_refusals();
    assert_eq!((counts.not_ready, counts.refused), (1, 1));
    assert_eq!(counts.total(), 2);
    assert_eq!(publisher.unroutable(), 1);
}

#[test]
fn shards_take_turns_at_the_periodic_snapshot() {
    let mut publisher = publisher();
    let mut table = InstrumentTable::new();
    for _ in 0..2 {
        table.list();
    }
    let published = vec![Some(1), Some(1)];
    let shard_of = vec![Some(0), Some(1)];
    assert_eq!(publisher.due_snapshot(0, &table, &published, &shard_of), None);
    // Both shards are due, and one is served per call.
    let at = 4 * SECOND;
    let first = publisher
        .due_snapshot(at, &table, &published, &shard_of)
        .expect("one is due");
    let second = publisher
        .due_snapshot(at, &table, &published, &shard_of)
        .expect("so is the other");
    assert_eq!((first.index(), second.index()), (0, 1));
    assert_eq!(publisher.due_snapshot(at, &table, &published, &shard_of), None);
    assert_eq!(publisher.snapshot_cycle(), Some(Duration::from_secs(4)));
    // A lap later the first of them is served at where its channel is.
    let (instrument, anchor) = publisher
        .periodic_snapshot(2 * at, &table, &published, &shard_of)
        .expect("one is due again");
    assert_eq!(instrument.index(), 0);
    assert_eq!(anchor.expect("its shard has a depth feed"), 17);
}

#[test]
fn a_definition_is_packed_and_not_flushed() {
    let block = feed(FeedSpec::TopOfBook, None, 6);
    let path = FeedPipeline::new(&block, ports(FeedSpec::TopOfBook));
    let step = path.pack_definition(3, 50);
    assert_eq!(
        step.action,
        Action::Push {
            message: EgressMessageType::InstrumentDefinition,
            index: 3
        }
    );
    assert_eq!((step.channel_id, step.port_role), (6, PortRole::Refdata));
    assert_eq!(path.pack_definitions(4, 50)[3], step);
}

#[test]
fn a_tick_sends_what_is_due_and_flushes() {
    let mut publisher = publisher();
    let steps = publisher.tick(&vec![Some(1), None], 0, 50);
    assert_eq!(
        messages(&steps),
        [
            (1, PortRole::Mktdata, EgressMessageType::Heartbeat),
            (1, PortRole::Refdata, EgressMessageType::InstrumentDefinition),
            (1, PortRole::Refdata, EgressMessageType::ManifestSummary),
            (2, PortRole::Mktdata, EgressMessageType::Heartbeat),
            (2, PortRole::Refdata, EgressMessageType::InstrumentDefinition),
            (2, PortRole::Refdata, EgressMessageType::ManifestSummary)
        ]
    );
    assert_eq!(
        steps.iter().filter(|step| step.action == Action::FlushAll).count(),
        5
    );
    // Nothing is due again at once, and the heartbeat is before the manifest.
    assert!(messages(&publisher.tick(&vec![Some(0), None], 0, 50)).is_empty());
    assert_eq!(
        messages(&publisher.tick(&vec![Some(0), None], SECOND, 50)),
        [
            (1, PortRole::Mktdata, EgressMessageType::Heartbeat),
            (2, PortRole::Mktdata, EgressMessageType::Heartbeat)
        ]
    );
}

#[test]
fn listings_are_drained_once_a_second() {
    let mut publisher = publisher();
    // The first drain is the one the published set is seeded by.
    assert_eq!(publisher.poll_listings(0), Some(true));
    assert_eq!(publisher.poll_listings(SECOND - 1), None);
    assert_eq!(publisher.poll_listings(SECOND), Some(false));
}

#[test]
fn counts_are_forwarded_as_what_they_grew_by() {
    let mut publisher = publisher();
    let references = vec![
        Some(ShardReference {
            manifest_seq: 9,
            valid: true,
            published: Some(5),
        }),
        None,
    ];
    let counts = |admitted: u64, delisted: u64| Counts {
        admitted,
        delisted,
        ..Counts::default()
    };
    let first = publisher.forward_counts(counts(5, 1), &references, 5);
    assert_eq!((first.new_listings, first.delistings), (5, 1));
    let second = publisher.forward_counts(counts(7, 1), &references, 6);
    assert_eq!((second.new_listings, second.delistings), (2, 0));
    assert_eq!(second.published, 6);
    assert_eq!(
        second
            .channels
            .iter()
            .map(|gauge| (gauge.channel_id, gauge.manifest_seq, gauge.valid, gauge.instruments))
            .collect::<Vec<_>>(),
        [(1, 9, true, 5), (2, 9, true, 5)]
    );
}

#[test]
fn the_guards_decide_the_exit_and_the_first_finding_stands() {
    let mut publisher = publisher();
    assert_eq!(publisher.exit(0), None);
    for second in 0..=61 {
        publisher.upstream_message(second * SECOND);
    }
    assert_eq!(publisher.exit(61 * SECOND), Some(Exit::IdleGuard));
    publisher.check_consistency(Some("disk full".to_owned()));
    let found = Exit::ConsistencyGuard(Inconsistency::StateUnpersistable {
        detail: "disk full".to_owned(),
    });
    assert_eq!(publisher.exit(61 * SECOND), Some(found.clone()));
    let mut failed = ports(FeedSpec::TopOfBook);
    failed.mktdata.process_failure = Some("mktdata".to_owned());
    publisher
        .shard_mut(0)
        .expect("there is one")
        .top_of_book_mut()
        .expect("it carries one")
        .observe(failed);
    publisher.check_consistency(None);
    assert_eq!(publisher.exit(61 * SECOND), Some(found));
}

#[test]
fn a_dark_transmitter_is_an_inconsistency() {
    let mut publisher = publisher();
    let mut failed = ports(FeedSpec::MarketByPrice);
    failed.refdata.process_failure = Some("refdata".to_owned());
    failed.mktdata.dropped = vec!["tee".to_owned()];
    failed.mktdata.path_down = vec!["mktdata".to_owned()];
    publisher
        .shard_mut(1)
        .expect("there is one")
        .market_by_price_mut()
        .expect("it carries one")
        .observe(failed);
    publisher.check_consistency(None);
    assert_eq!(
        publisher.exit(0),
        Some(Exit::ConsistencyGuard(Inconsistency::EgressDark {
            sink: "refdata".to_owned()
        }))
    );
    assert_eq!(
        publisher.dropped_sinks()[0].label(),
        "`tee` (market-by-price mktdata)"
    );
    assert_eq!(publisher.path_down_sinks()[0].name, "mktdata");
}

#[test]
fn cycles_that_ask_for_too_much_are_counted() {
    let mut publisher = publisher();
    let tick = Duration::from_millis(10);
    // Four seconds over four hundred is the whole process, twice.
    publisher.count_overrun(&vec![Some(400), Some(400)], tick);
    publisher.count_overrun(&vec![Some(200), Some(200)], tick);
    publisher.count_overrun(&vec![Some(400), None], tick);
    assert_eq!(publisher.snapshot_schedule_overruns(), 1);
}

#[test]
fn a_teardown_ends_every_session_and_nothing_follows() {
    let mut publisher = publisher();
    let down = publisher.shut_down(Exit::Signal, &vec![true, false], 5, 50);
    assert_eq!(
        *down.teardown.steps(),
        [
            TeardownStep::IngressStopped,
            TeardownStep::AdmissionsClosed,
            TeardownStep::FinalManifestSent,
            TeardownStep::EndOfSessionSent,
            TeardownStep::PortsFlushed,
            TeardownStep::ExitRecorded
        ]
    );
    assert_eq!(*down.teardown.exit(), Exit::Signal);
    assert_eq!(down.actions[0], TeardownAction::CloseAdmissions);
    assert_eq!(
        *down.actions.last().expect("there is one"),
        TeardownAction::RecordExit(ExitReason::Signal)
    );
    let sent: Vec<(u8, PortRole, EgressMessageType)> = down
        .actions
        .iter()
        .filter_map(|action| match action {
            TeardownAction::Run(step) => pushed(step),
            _ => None,
        })
        .collect();
    assert_eq!(
        sent,
        [
            (1, PortRole::Refdata, EgressMessageType::ManifestSummary),
            (2, PortRole::Refdata, EgressMessageType::ManifestSummary),
            (1, PortRole::Mktdata, EgressMessageType::EndOfSession),
            (2, PortRole::Mktdata, EgressMessageType::EndOfSession),
            (3, PortRole::Mktdata, EgressMessageType::EndOfSession),
            (4, PortRole::Mktdata, EgressMessageType::EndOfSession)
        ]
    );
}

#[test]
fn the_exit_report_names_everything_that_was_counted() {
    let mut publisher = publisher();
    assert!(report(&publisher, 0, &Counts::default()).is_empty());
    publisher.lowered(
        &event(EventClass::Trade),
        Some(0),
        Err(LoweringError::Scale(ScaleError::Malformed)),
        5,
        50,
    );
    publisher.lowered(
        &event(EventClass::Trade),
        None,
        Err(LoweringError::UnknownInstrument),
        5,
        50,
    );
    publisher.snapshot_refused(&SnapshotError::NoDepthFeed);
    publisher.route(&event(EventClass::Other), Some(0));
    publisher.count_overrun(&vec![Some(4_000), None], Duration::from_millis(10));
    let mut lost = ports(FeedSpec::TopOfBook);
    lost.mktdata.dropped = vec!["tee".to_owned()];
    publisher
        .shard_mut(0)
        .expect("there is one")
        .top_of_book_mut()
        .expect("it carries one")
        .observe(lost);
    let counts = Counts {
        declined_unknown_shard: 2,
        declined_shard_restated: 1,
        ..Counts::default()
    };
    assert_eq!(
        report(&publisher, 4, &counts),
        [
            "dz-publisher-runtime: 2 lowering refusals (unknown_instrument=1 malformed=1)",
            "dz-publisher-runtime: 1 snapshots were not sent (1 refused, 0 on a book that was not \
             ready)",
            "dz-publisher-runtime: was no longer sending to `tee` (top-of-book mktdata)",
            "dz-publisher-runtime: 1 events had no feed to carry them",
            "dz-publisher-runtime: 4 adapter failures",
            "dz-publisher-runtime: on 1 ticks the configured `[[feed]] snapshot_cycle` values \
             together asked for more snapshots than one process can send, so every channel lapped \
             more slowly than its own key states. One process serves one periodic snapshot per \
             10ms, and that budget is shared across every shard",
            "dz-publisher-runtime: 2 listings were declined naming a shard this publisher has no \
             channel for; the names are in the lines written when they were first offered",
            "dz-publisher-runtime: 1 re-offers named a different shard for an instrument already \
             published, which stayed on the shard it was admitted to"
        ]
    );
}

#[test]
fn feeds_are_read_by_shard_and_by_specification() {
    let mut feeds = Feeds::new();
    assert_eq!(feeds.shard_count(), 0);
    assert!(!feeds.carries_top_of_book());
    let block = feed(FeedSpec::TopOfBook, None, 6);
    let shard = ShardFeeds::new(
        Some(FeedPipeline::new(&block, ports(FeedSpec::TopOfBook))),
        None,
    )
    .expect("it carries one");
    assert_eq!(shard.name(), ShardName::default_shard().as_str());
    feeds.push(shard);
    assert!(feeds.carries_top_of_book());
    assert!(!feeds.carries_market_by_price());
    assert_eq!(feeds.top_of_book_on(0).map(FeedPipeline::channel_id), Some(6));
    assert!(feeds.market_by_price_on(0).is_none());
    assert!(feeds.shard(1).is_none());
    assert_eq!(feeds.dark_transmitter(), None);
}
