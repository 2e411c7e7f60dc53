use dz_publisher_runtime::builtin::{
    open, AssetClass, MarketModel, PriceBound, SettleType, EMPTY_LISTINGS,
};
use dz_publisher_runtime::config::{Kind, Source, SourceRole};
use dz_publisher_runtime::error::StartupError;
use dz_publisher_runtime::event::AdapterError;
use dz_publisher_runtime::observer::{
    AdapterErrorReason, ConnectFailure, ConnectFailureReason, DisconnectReason, MetricsObserver,
    ParseError, ParseErrorReason, ReconnectReason,
};
use dz_publisher_runtime::registry::{AdapterRegistry, AdapterResolution};
use dz_publisher_runtime::BUILTIN_KINDS;

#[test]
fn a_kind_nobody_registered_is_refused_and_every_kind_is_named() {
    let registry = AdapterRegistry::new().with("a-venue").with("another");
    match registry.resolve("a-venu") {
        Err(error) => assert_eq!(
            error.message(),
            "`[adapter] kind = \"a-venu\"` names no adapter this binary registered; registered in \
             this binary: a-venue, another (built in: uds)"
        ),
        Ok(found) => panic!("a misspelling reached {found:?}"),
    }
    // Not the only one there is either.
    match AdapterRegistry::new().resolve("a-venue") {
        Err(StartupError::UnknownAdapterKind { token, registered }) => {
            assert_eq!(token, "a-venue");
            assert_eq!(registered, "none (built in: uds)");
        }
        other => panic!("nothing is registered: {other:?}"),
    }
}

#[test]
fn every_built_in_kind_is_answered_to() {
    assert_eq!(BUILTIN_KINDS, ["uds"]);
    for kind in BUILTIN_KINDS {
        assert_eq!(
            AdapterRegistry::new().resolve(kind).expect("it is built in"),
            AdapterResolution::Builtin
        );
    }
}

#[test]
fn the_venues_own_registration_wins_over_the_built_in() {
    let registry = AdapterRegistry::new().with("a-venue");
    assert_eq!(
        registry.resolve("a-venue").expect("it is registered"),
        AdapterResolution::Registered(0)
    );
    assert_eq!(
        registry.resolve("uds").expect("it is built in"),
        AdapterResolution::Builtin
    );
    let registry = registry.with("uds");
    assert_eq!(
        registry.resolve("uds").expect("it is registered"),
        AdapterResolution::Registered(1)
    );
}

#[test]
fn the_built_in_adapter_opens_one_connection_per_source() {
    assert_eq!(
        open(1, &Vec::new()).expect("there is one listing"),
        ["records"]
    );
    let sources = vec![Source {
        connection: "feed-a".to_owned(),
        kind: Kind {
            token: "uds".to_owned(),
        },
        role: SourceRole::Primary,
        upstream: toml::map::Map::new(),
        credentials: toml::map::Map::new(),
    }];
    assert_eq!(open(1, &sources).expect("there is one listing"), ["feed-a"]);
}

#[test]
fn the_built_in_adapter_is_refused_without_a_listing() {
    match open(0, &Vec::new()) {
        Err(StartupError::AdapterInit { kind, source }) => {
            assert_eq!(kind, "uds");
            assert_eq!(source, EMPTY_LISTINGS);
        }
        other => panic!("it would publish nothing: {other:?}"),
    }
}

#[test]
fn a_listing_is_spelled_in_the_specifications_own_tokens() {
    assert_eq!(
        AssetClass::resolve("crypto_spot"),
        Some(AssetClass::CryptoSpot)
    );
    assert_eq!(
        AssetClass::resolve("prediction_categorical"),
        Some(AssetClass::PredictionCategorical)
    );
    assert_eq!(AssetClass::resolve("CryptoSpot"), None);
    assert_eq!(MarketModel::resolve("clob"), Some(MarketModel::Clob));
    assert_eq!(MarketModel::resolve("1"), None);
    assert_eq!(SettleType::resolve("cash"), Some(SettleType::Cash));
    assert_eq!(SettleType::resolve(""), None);
    assert_eq!(
        PriceBound::resolve("non_negative"),
        Some(PriceBound::NonNegative)
    );
    assert_eq!(PriceBound::resolve("nonnegative"), None);
}

#[test]
fn every_failure_of_an_adapter_is_counted() {
    let mut observer = MetricsObserver::new();
    assert_eq!(observer.adapter_errors(), 0);
    assert_eq!(
        observer.adapter_error(&AdapterError::NotReady),
        AdapterErrorReason::NotReady
    );
    assert_eq!(
        observer.adapter_error(&AdapterError::UnknownInstrument),
        AdapterErrorReason::UnknownInstrument
    );
    assert_eq!(
        observer.adapter_error(&AdapterError::Internal),
        AdapterErrorReason::Internal
    );
    assert_eq!(observer.adapter_errors(), 3);
}

#[test]
fn every_reason_keeps_its_name() {
    let observer = MetricsObserver::new();
    assert_eq!(
        observer.parse_error(ParseError::UnknownField),
        ParseErrorReason::UnknownField
    );
    assert_eq!(
        observer.parse_error(ParseError::Truncated),
        ParseErrorReason::Truncated
    );
    assert_eq!(
        observer.reconnect(DisconnectReason::AuthExpired),
        ReconnectReason::AuthExpired
    );
    assert_eq!(
        observer.reconnect(DisconnectReason::RemoteClose),
        ReconnectReason::RemoteClose
    );
    assert_eq!(
        observer.connect_failure(ConnectFailure::Tls),
        ConnectFailureReason::Tls
    );
    assert_eq!(
        observer.connect_failure(ConnectFailure::Rejected),
        ConnectFailureReason::Rejected
    );
}
