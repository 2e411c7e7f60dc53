use dz_publisher_runtime::address::Ipv4Addr;
use dz_publisher_runtime::config::document::{check_credentials, Answers, Config, Document};
use dz_publisher_runtime::config::feeds::{
    check_shards_carry_the_same_specifications, default_definition_cycle, default_heartbeat,
    default_idle_guard, default_manifest_cadence, default_true, one_stated,
};
use dz_publisher_runtime::config::{
    AdapterConfig, EgressSection, FeedSection, FeedSpec, Ipv4Prefix, Kind, MetricsSection, PortRole,
    RefdataSection, ReplayConfig, SelectionSection, ShardName, SourceRole, SourceSection, TeeConfig,
};
use dz_publisher_runtime::duration::Duration;
use dz_publisher_runtime::error::StartupError;

fn table(entries: &[(&str, &str)]) -> toml::map::Map<String, toml::Value> {
    let mut table = toml::map::Map::new();
    for (key, value) in entries {
        table.insert((*key).to_owned(), toml::Value::String((*value).to_owned()));
    }
    table
}

fn top_of_book(channel_id: u8) -> FeedSection {
    FeedSection {
        spec: "top-of-book".to_owned(),
        enabled: true,
        channel_id,
        shard: None,
        source_id: 41,
        multicast_group: "233.252.0.4".to_owned(),
        mktdata_port: 30_001,
        refdata_port: 30_002,
        snapshot_port: None,
        snapshot_cycle: None,
        heartbeat_interval: Duration::from_secs(1),
        definition_cycle: Some(Duration::from_secs(30)),
        manifest_cadence: Duration::from_secs(1),
        idle_guard: Some(Duration::from_secs(60)),
    }
}

fn market_by_price(channel_id: u8) -> FeedSection {
    FeedSection {
        spec: "market-by-price".to_owned(),
        snapshot_port: Some(30_003),
        snapshot_cycle: Some(Duration::from_secs(5)),
        ..top_of_book(channel_id)
    }
}

fn on(shard: &str, section: FeedSection) -> FeedSection {
    FeedSection {
        shard: Some(shard.to_owned()),
        ..section
    }
}

fn source(name: &str, role: Option<&str>) -> SourceSection {
    SourceSection {
        name: name.to_owned(),
        ingress: "uds".to_owned(),
        enabled: true,
        role: role.map(str::to_owned),
        upstream: toml::map::Map::new(),
        credentials: toml::map::Map::new(),
    }
}

fn adapter() -> AdapterConfig {
    AdapterConfig {
        kind: "uds".to_owned(),
        tee: TeeConfig {
            enabled: false,
            path: None,
        },
        upstream: toml::map::Map::new(),
        credentials: toml::map::Map::new(),
        replay: ReplayConfig {
            enabled: false,
            path: None,
        },
    }
}

fn document(feeds: Vec<FeedSection>) -> Document {
    Document {
        venue: "a-venue".to_owned(),
        egress: EgressSection::default(),
        feeds,
        refdata: RefdataSection {
            state_dir: "/var/lib/dz".to_owned(),
            selection: SelectionSection {
                bootstrap_top_n: 8,
                max_published: 16,
                warn_published_above: 8,
            },
        },
        metrics: MetricsSection::default(),
        ingress_kind: Some("uds".to_owned()),
        sources: Vec::new(),
        adapter: adapter(),
    }
}

fn kind() -> Kind {
    Kind {
        token: "uds".to_owned(),
    }
}

fn answers(document: &Document) -> Answers<u8> {
    Answers {
        expected_prefix: document.egress.expected_prefix.as_ref().map(|_| {
            Ok(Ipv4Prefix {
                network: Ipv4Addr::parse("10.0.0.0").expect("an address"),
                length: 8,
            })
        }),
        selection: Ok(()),
        ingress: Ok((kind(), 7)),
        policy: Ok(8),
        kinds: document.sources.iter().map(|_| Ok(kind())).collect(),
        unnamed_role: SourceRole::Primary,
    }
}

fn resolve(document: Document) -> Result<Config<u8>, StartupError> {
    let answers = answers(&document);
    document.resolve(answers)
}

fn refused(document: Document) -> StartupError {
    resolve(document).expect_err("this document cannot be run")
}

fn with_sources(sources: Vec<SourceSection>) -> Document {
    Document {
        ingress_kind: None,
        sources,
        ..document(vec![top_of_book(3)])
    }
}

#[test]
fn a_valid_document_resolves_to_what_it_says() {
    let config = resolve(document(vec![top_of_book(3), market_by_price(4)])).expect("it is valid");
    assert_eq!(config.venue, "a-venue");
    assert_eq!(config.egress.ttl, 1);
    assert_eq!(config.egress.pin, None);
    assert_eq!(config.ingress, 7);
    assert_eq!(config.ingress_kind, Some(kind()));
    assert!(config.sources.is_empty());
    assert_eq!(config.feeds.len(), 2);
    let depth = &config.feeds[1];
    assert_eq!(depth.spec, FeedSpec::MarketByPrice);
    assert!(depth.shard.is_default());
    assert_eq!(depth.channel_id, 4);
    assert_eq!(depth.source_id.get(), 41);
    assert_eq!(depth.group.to_text(), "233.252.0.4");
    assert_eq!(depth.mktdata_port, 30_001);
    assert_eq!(depth.refdata_port, 30_002);
    assert_eq!(depth.snapshot_port, Some(30_003));
    assert_eq!(depth.snapshot_cycle, Some(Duration::from_secs(5)));
    assert_eq!(depth.definition_cycle, Duration::from_secs(30));
    assert_eq!(depth.idle_guard, Duration::from_secs(60));
    assert_eq!(config.channel_ids(), [3, 4]);
    assert_eq!(
        config.feed_specs(),
        [FeedSpec::TopOfBook, FeedSpec::MarketByPrice]
    );
    assert_eq!(
        config.port_roles(),
        [PortRole::Mktdata, PortRole::Refdata, PortRole::Snapshot]
    );
    assert_eq!(config.shards().len(), 1);
}

#[test]
fn a_disabled_block_is_neither_checked_nor_emitted() {
    let broken = FeedSection {
        enabled: false,
        multicast_group: "not an address".to_owned(),
        ..top_of_book(3)
    };
    let config = resolve(document(vec![broken, top_of_book(5)])).expect("one block is enabled");
    assert_eq!(config.channel_ids(), [5]);
}

#[test]
fn a_document_that_emits_nothing_is_refused() {
    assert!(matches!(
        refused(document(Vec::new())),
        StartupError::NoEnabledFeed
    ));
    let off = FeedSection {
        enabled: false,
        ..top_of_book(3)
    };
    assert!(matches!(
        refused(document(vec![off])),
        StartupError::NoEnabledFeed
    ));
}

#[test]
fn a_specification_nobody_emits_is_refused_by_name() {
    let section = FeedSection {
        spec: "market-by-order".to_owned(),
        ..top_of_book(3)
    };
    match refused(document(vec![section])) {
        StartupError::UnsupportedFeedSpec { spec, .. } => assert_eq!(spec, "market-by-order"),
        other => panic!("{other:?}"),
    }
}

#[test]
fn a_shard_name_is_safe_and_is_not_the_default_ones() {
    assert!(ShardName::new("perp-1").is_some());
    assert!(ShardName::new("per/p").is_none());
    assert!(ShardName::new("").is_none());
    assert_eq!(ShardName::default_shard().era_shard(), None);
    assert_eq!(
        ShardName::new("perp").expect("it is safe").era_shard(),
        Some("perp")
    );
    assert!(matches!(
        refused(document(vec![on("../x", top_of_book(3))])),
        StartupError::UnsafeShardName { .. }
    ));
    assert!(matches!(
        refused(document(vec![on("default", top_of_book(3))])),
        StartupError::ReservedShardName { .. }
    ));
}

#[test]
fn a_snapshot_port_goes_with_the_specification_that_carries_one() {
    let without = FeedSection {
        snapshot_port: None,
        snapshot_cycle: None,
        ..market_by_price(3)
    };
    assert!(matches!(
        refused(document(vec![without])),
        StartupError::SnapshotPortRequired { .. }
    ));
    let with = FeedSection {
        snapshot_port: Some(9),
        ..top_of_book(3)
    };
    assert!(matches!(
        refused(document(vec![with])),
        StartupError::SnapshotPortNotCarried { port: 9, .. }
    ));
    let cycle = FeedSection {
        snapshot_cycle: Some(Duration::from_secs(5)),
        ..top_of_book(3)
    };
    assert!(matches!(
        refused(document(vec![cycle])),
        StartupError::SnapshotCycleWithoutPort { .. }
    ));
}

#[test]
fn ports_are_real_and_apart() {
    let zero = FeedSection {
        mktdata_port: 0,
        ..top_of_book(3)
    };
    assert!(matches!(
        refused(document(vec![zero])),
        StartupError::ZeroPort {
            key: "mktdata_port"
        }
    ));
    let collide = FeedSection {
        refdata_port: 30_001,
        ..top_of_book(3)
    };
    match refused(document(vec![collide])) {
        StartupError::PortsCollide { left, right, port } => {
            assert_eq!((left, right, port), ("mktdata_port", "refdata_port", 30_001));
        }
        other => panic!("{other:?}"),
    }
}

#[test]
fn a_group_is_a_multicast_address() {
    let text = FeedSection {
        multicast_group: "233.252.0".to_owned(),
        ..top_of_book(3)
    };
    assert!(matches!(
        refused(document(vec![text])),
        StartupError::NotAnAddress { .. }
    ));
    let unicast = FeedSection {
        multicast_group: "10.1.2.3".to_owned(),
        ..top_of_book(3)
    };
    assert!(matches!(
        refused(document(vec![unicast])),
        StartupError::NotMulticast { .. }
    ));
}

#[test]
fn a_source_id_is_one_the_registry_assigns() {
    for source_id in [0u16, 1_024, 32_767] {
        let section = FeedSection {
            source_id,
            ..top_of_book(3)
        };
        match refused(document(vec![section])) {
            StartupError::BadSourceId { source_id: named } => assert_eq!(named, source_id),
            other => panic!("{other:?}"),
        }
    }
    for source_id in [1u16, 1_023, 32_768, 65_535] {
        let section = FeedSection {
            source_id,
            ..top_of_book(3)
        };
        assert!(resolve(document(vec![section])).is_ok());
    }
}

#[test]
fn a_duration_of_nothing_is_refused() {
    let section = FeedSection {
        heartbeat_interval: Duration::from_nanos(0),
        ..top_of_book(3)
    };
    assert!(matches!(
        refused(document(vec![section])),
        StartupError::ZeroDuration { .. }
    ));
}

#[test]
fn blocks_of_one_publisher_agree() {
    let other_cycle = FeedSection {
        definition_cycle: Some(Duration::from_secs(31)),
        ..market_by_price(4)
    };
    match refused(document(vec![top_of_book(3), other_cycle])) {
        StartupError::FeedsDisagree { key, one, another } => {
            assert_eq!(key, "[[feed]] definition_cycle");
            assert_eq!(one, Duration::from_secs(30));
            assert_eq!(another, Duration::from_secs(31));
        }
        other => panic!("{other:?}"),
    }
    let other_id = FeedSection {
        source_id: 42,
        ..market_by_price(4)
    };
    assert!(matches!(
        refused(document(vec![top_of_book(3), other_id])),
        StartupError::SeveralSourceIds {
            one: 41,
            another: 42
        }
    ));
    assert!(matches!(
        refused(document(vec![top_of_book(3), market_by_price(3)])),
        StartupError::DuplicateChannelId { channel_id: 3, .. }
    ));
    assert!(matches!(
        refused(document(vec![top_of_book(3), top_of_book(4)])),
        StartupError::DuplicateFeedShard { .. }
    ));
}

#[test]
fn an_omission_is_not_a_disagreement() {
    let silent = FeedSection {
        definition_cycle: None,
        idle_guard: None,
        ..market_by_price(4)
    };
    let config = resolve(document(vec![top_of_book(3), silent])).expect("one states it");
    assert_eq!(config.feeds[1].definition_cycle, Duration::from_secs(30));
    let default = Duration::from_secs(9);
    assert_eq!(
        one_stated("key", &vec![None, None], default).expect("nothing is stated"),
        default
    );
}

#[test]
fn what_is_not_stated_has_a_default() {
    assert_eq!(default_heartbeat(), Duration::from_secs(1));
    assert_eq!(default_manifest_cadence(), Duration::from_secs(1));
    assert_eq!(default_definition_cycle(), Duration::from_secs(30));
    assert_eq!(default_idle_guard(), Duration::from_secs(60));
    assert!(default_true());
    let metrics = MetricsSection::default();
    assert!(metrics.enabled);
    assert_eq!(metrics.listen_addr, "127.0.0.1:9100");
}

#[test]
fn every_shard_carries_every_specification() {
    let lacking = vec![
        on("perp", top_of_book(1)),
        on("perp", market_by_price(2)),
        on("spot", top_of_book(3)),
    ];
    match refused(document(lacking)) {
        StartupError::ShardSpecsDisagree { shard, spec } => {
            assert_eq!(shard, "spot");
            assert_eq!(spec, "market-by-price");
        }
        other => panic!("{other:?}"),
    }
    let whole = resolve(document(vec![
        on("perp", top_of_book(1)),
        on("spot", top_of_book(3)),
        on("perp", market_by_price(2)),
        on("spot", market_by_price(4)),
    ]))
    .expect("both shards carry both");
    let shards: Vec<String> = whole
        .shards()
        .iter()
        .map(|shard| shard.as_str().to_owned())
        .collect();
    assert_eq!(shards, ["perp", "spot"]);
    assert!(check_shards_carry_the_same_specifications(&whole.feeds).is_ok());
}

#[test]
fn egress_is_checked_by_its_owner_and_its_pin_is_an_address() {
    let mut pinned = document(vec![top_of_book(3)]);
    pinned.egress.pin = Some("10.0.0.1".to_owned());
    pinned.egress.expected_prefix = Some("10.0.0.0/8".to_owned());
    let config = resolve(pinned).expect("both are well formed");
    assert_eq!(config.egress.pin, Ipv4Addr::parse("10.0.0.1"));
    assert_eq!(
        config.egress.expected_prefix.expect("it is stated").length,
        8
    );

    let mut bad_pin = document(vec![top_of_book(3)]);
    bad_pin.egress.pin = Some("eth0".to_owned());
    assert!(matches!(
        refused(bad_pin),
        StartupError::NotAnAddress { .. }
    ));

    let mut bad_prefix = document(vec![top_of_book(3)]);
    bad_prefix.egress.expected_prefix = Some("10/8".to_owned());
    let mut owners = answers(&bad_prefix);
    owners.expected_prefix = Some(Err("not a prefix".to_owned()));
    match bad_prefix.resolve(owners) {
        Err(StartupError::BadPrefix { source }) => assert_eq!(source, "not a prefix"),
        other => panic!("{other:?}"),
    }
}

#[test]
fn the_owners_of_the_other_sections_refuse_them() {
    let incoherent = document(vec![top_of_book(3)]);
    let mut owners = answers(&incoherent);
    owners.selection = Err("more than the maximum".to_owned());
    match incoherent.resolve(owners) {
        Err(StartupError::Selection { source }) => assert_eq!(source, "more than the maximum"),
        other => panic!("{other:?}"),
    }
    let unlinked = document(vec![top_of_book(3)]);
    let mut owners = answers(&unlinked);
    owners.ingress = Err("no such transport".to_owned());
    match unlinked.resolve(owners) {
        Err(StartupError::Ingress { source }) => assert_eq!(source, "no such transport"),
        other => panic!("{other:?}"),
    }
}

#[test]
fn the_transport_is_named_in_one_place() {
    let mut both = with_sources(vec![source("ws", Some("primary"))]);
    both.ingress_kind = Some("uds".to_owned());
    match refused(both) {
        StartupError::KindNamedTwice { document, sources } => {
            assert_eq!(document, "uds");
            assert_eq!(sources, 1);
        }
        other => panic!("{other:?}"),
    }
    let config = resolve(with_sources(vec![source("ws", Some("primary"))])).expect("one names it");
    assert_eq!(config.ingress_kind, None);
    assert_eq!(config.ingress, 8);
    assert_eq!(config.sources.len(), 1);
}

#[test]
fn exactly_one_source_is_published_from() {
    let two = with_sources(vec![
        source("ws", Some("primary")),
        source("fix", Some("primary")),
    ]);
    match refused(two) {
        StartupError::SourcePrimaries { primaries } => {
            assert!(primaries.contains("ws") && primaries.contains("fix"), "{primaries}");
        }
        other => panic!("{other:?}"),
    }
    let none = with_sources(vec![source("ws", Some("comparison"))]);
    assert!(matches!(
        refused(none),
        StartupError::SourcePrimaries { .. }
    ));
    let all = resolve(with_sources(vec![
        source("ws", Some("primary")),
        source("fix", Some("comparison")),
        source("ws-2", Some("upstream-partition")),
    ]))
    .expect("one is primary");
    assert_eq!(
        all.sources.iter().map(|found| found.role).collect::<Vec<_>>(),
        [
            SourceRole::Primary,
            SourceRole::Comparison,
            SourceRole::UpstreamPartition
        ]
    );
}

#[test]
fn a_source_has_a_name_a_dashboard_can_use() {
    assert!(matches!(
        refused(with_sources(vec![source("", Some("primary"))])),
        StartupError::UnnamedSource
    ));
    match refused(with_sources(vec![source(" ws", Some("primary"))])) {
        StartupError::SourceNameNotTrimmed { name, trimmed } => {
            assert_eq!((name.as_str(), trimmed.as_str()), (" ws", "ws"));
        }
        other => panic!("{other:?}"),
    }
    match refused(with_sources(vec![
        source("ws", Some("primary")),
        source("ws", Some("comparison")),
    ])) {
        StartupError::DuplicateSourceName { name } => assert_eq!(name, "ws"),
        other => panic!("{other:?}"),
    }
}

#[test]
fn a_role_nobody_plays_is_refused_by_name() {
    match refused(with_sources(vec![source("ws", Some("backup"))])) {
        StartupError::UnknownSourceRole { token, .. } => assert_eq!(token, "backup"),
        other => panic!("{other:?}"),
    }
}

#[test]
fn sources_that_are_all_off_are_refused() {
    let off = SourceSection {
        enabled: false,
        ..source("ws", Some("primary"))
    };
    assert!(matches!(
        refused(with_sources(vec![off])),
        StartupError::NoEnabledSource
    ));
}

#[test]
fn two_sources_do_not_share_a_credential() {
    let with = |name: &str, role: &str, path: &str| SourceSection {
        credentials: table(&[("key_path", path)]),
        ..source(name, Some(role))
    };
    match refused(with_sources(vec![
        with("ws", "primary", "/run/key"),
        with("fix", "comparison", "/run/key"),
    ])) {
        StartupError::SourceCredentialsShared { one, another } => {
            assert_eq!((one.as_str(), another.as_str()), ("ws", "fix"));
        }
        other => panic!("{other:?}"),
    }
    // Different ones, and none at all, are nobody's conflict.
    assert!(resolve(with_sources(vec![
        with("ws", "primary", "/run/key"),
        with("fix", "comparison", "/run/other"),
        source("poll", Some("comparison")),
        source("poll-2", Some("comparison")),
    ]))
    .is_ok());
}

#[test]
fn a_credential_is_a_path_and_never_a_secret_in_line() {
    assert!(check_credentials(&table(&[("key_path", "/run/key")])).is_ok());
    assert!(check_credentials(&toml::map::Map::new()).is_ok());
    assert!(matches!(
        check_credentials(&table(&[("key_path", "line\nline")])),
        Err(StartupError::NotACredentialPath { .. })
    ));
    let mut number = toml::map::Map::new();
    number.insert("key_path".to_owned(), toml::Value::Integer(3));
    match check_credentials(&number) {
        Err(StartupError::NotACredentialPath { key, .. }) => assert!(key.contains("key_path")),
        other => panic!("{other:?}"),
    }
}

#[test]
fn a_tee_that_is_on_has_a_path_and_a_socket_per_feed_shard_and_role() {
    let tee = TeeConfig {
        enabled: true,
        path: Some("/run/dz/tee".to_owned()),
    };
    let perp = ShardName::new("perp").expect("it is safe");
    assert_eq!(
        tee.destination(FeedSpec::TopOfBook, &perp, PortRole::Mktdata)
            .expect("it has a path"),
        "/run/dz/tee.top-of-book.perp.mktdata"
    );
    assert_eq!(
        tee.destination(
            FeedSpec::MarketByPrice,
            &ShardName::default_shard(),
            PortRole::Snapshot
        )
        .expect("it has a path"),
        "/run/dz/tee.market-by-price.snapshot"
    );
    let pathless = TeeConfig {
        enabled: true,
        path: None,
    };
    assert!(matches!(
        pathless.destination(FeedSpec::TopOfBook, &perp, PortRole::Mktdata),
        Err(StartupError::TeeWithoutPath)
    ));
}

#[test]
fn a_refusal_says_what_to_change() {
    let section = FeedSection {
        source_id: 0,
        ..top_of_book(3)
    };
    assert_eq!(
        refused(document(vec![section])).message(),
        "`[[feed]] source_id = 0` is not a Source ID the registry admits; assigned production ids \
         are 1-1023 and private or experimental ids are 32768-65535"
    );
}

#[test]
fn an_address_is_four_numbers_and_nothing_more() {
    let address = Ipv4Addr::parse("224.0.0.1").expect("it is one");
    assert!(address.is_multicast());
    assert_eq!(address.to_text(), "224.0.0.1");
    assert!(!Ipv4Addr::parse("240.0.0.1").expect("it is one").is_multicast());
    for text in ["", "1.2.3", "1.2.3.4.5", "256.0.0.1", "01.2.3.4", "1.2.3.4 ", "a.b.c.d"] {
        assert_eq!(Ipv4Addr::parse(text), None, "{text:?}");
    }
}
