//! `[[feed]]`: one block, and the blocks held against each other.

use vstd::prelude::*;
use vstd::string::*;

use crate::address;
use crate::address::Ipv4Addr;
use crate::config;
use crate::config::{Feed, FeedSection, FeedSpec, PortRole, ShardName, SourceId};
use crate::duration::Duration;
use crate::error::{Refusal, StartupError};
use crate::text;

verus! {

/// The heartbeat interval of a block that states none.
pub fn default_heartbeat() -> (interval: Duration)
    ensures
        interval@ == 1_000_000_000,
{
    Duration::from_secs(1)
}

/// The manifest cadence of a block that states none.
pub fn default_manifest_cadence() -> (cadence: Duration)
    ensures
        cadence@ == 1_000_000_000,
{
    Duration::from_secs(1)
}

/// The definition cycle of a document that states none.
pub fn default_definition_cycle() -> (cycle: Duration)
    ensures
        cycle@ == 30_000_000_000,
{
    Duration::from_secs(30)
}

/// The idle guard of a document that states none.
pub fn default_idle_guard() -> (window: Duration)
    ensures
        window@ == 60_000_000_000,
{
    Duration::from_secs(60)
}

/// Whether a block that does not say is switched on.
pub fn default_true() -> (on: bool)
    ensures
        on,
{
    true
}

/// The first thing wrong with a block, in the order an operator hears of them:
/// the specification, the shard (which decides where files are written), the
/// identity, the group, the ports, the durations.
pub open spec fn feed_refusal(section: FeedSection) -> Option<Refusal> {
    let spec = FeedSpec::named(section.spec@);
    let group = address::address_read(section.multicast_group@);
    if spec is None {
        Some(
            Refusal::UnsupportedFeedSpec { spec: section.spec@, supported: config::FEED_SPECS@ },
        )
    } else if shard_refusal(section) is Some {
        shard_refusal(section)
    } else if !SourceId::admits(section.source_id) {
        Some(Refusal::BadSourceId { source_id: section.source_id })
    } else if group is None {
        Some(
            Refusal::NotAnAddress {
                key: "[[feed]] multicast_group"@,
                value: section.multicast_group@,
            },
        )
    } else if !group->0.multicast() {
        Some(Refusal::NotMulticast { group: group->0 })
    } else {
        match port_refusal(section, spec->0) {
            Some(refusal) => Some(refusal),
            None => duration_refusal(section, spec->0),
        }
    }
}

/// What is wrong with the shard a block names: a name that cannot be a path
/// component, or the default spelled out.
pub open spec fn shard_refusal(section: FeedSection) -> Option<Refusal> {
    match section.shard {
        None => None,
        Some(stated) => if !config::is_shard_name(stated@) {
            Some(Refusal::UnsafeShardName { spec: section.spec@, shard: stated@ })
        } else if stated@ == config::DEFAULT_SHARD@ {
            Some(Refusal::ReservedShardName { spec: section.spec@, shard: stated@ })
        } else {
            None
        },
    }
}

/// The first thing wrong with a block's ports.
pub open spec fn port_refusal(section: FeedSection, spec: FeedSpec) -> Option<Refusal> {
    let carries = spec.roles().contains(PortRole::Snapshot);
    if section.mktdata_port == 0 {
        Some(Refusal::ZeroPort { key: "mktdata_port"@ })
    } else if section.refdata_port == 0 {
        Some(Refusal::ZeroPort { key: "refdata_port"@ })
    } else if section.snapshot_port == Some(0u16) {
        Some(Refusal::ZeroPort { key: "snapshot_port"@ })
    } else if carries && section.snapshot_port is None {
        Some(Refusal::SnapshotPortRequired { spec: spec.name() })
    } else if !carries && section.snapshot_port is Some {
        Some(
            Refusal::SnapshotPortNotCarried { spec: spec.name(), port: section.snapshot_port->0 },
        )
    } else if section.mktdata_port == section.refdata_port {
        Some(
            Refusal::PortsCollide {
                left: "mktdata_port"@,
                right: "refdata_port"@,
                port: section.mktdata_port,
            },
        )
    } else if section.snapshot_port == Some(section.mktdata_port) {
        Some(
            Refusal::PortsCollide {
                left: "mktdata_port"@,
                right: "snapshot_port"@,
                port: section.mktdata_port,
            },
        )
    } else if section.snapshot_port == Some(section.refdata_port) {
        Some(
            Refusal::PortsCollide {
                left: "refdata_port"@,
                right: "snapshot_port"@,
                port: section.refdata_port,
            },
        )
    } else {
        None
    }
}

/// The first thing wrong with a block's own durations.
pub open spec fn duration_refusal(section: FeedSection, spec: FeedSpec) -> Option<Refusal> {
    if section.snapshot_cycle is Some && section.snapshot_port is None {
        Some(Refusal::SnapshotCycleWithoutPort { spec: spec.name() })
    } else if section.heartbeat_interval@ == 0 {
        Some(Refusal::ZeroDuration { key: "[[feed]] heartbeat_interval"@ })
    } else if section.manifest_cadence@ == 0 {
        Some(Refusal::ZeroDuration { key: "[[feed]] manifest_cadence"@ })
    } else if section.snapshot_cycle is Some && section.snapshot_cycle->0@ == 0 {
        Some(Refusal::ZeroDuration { key: "[[feed]] snapshot_cycle"@ })
    } else {
        None
    }
}

/// The shard a block carries.
pub open spec fn shard_of(section: FeedSection) -> Seq<char> {
    match section.shard {
        None => config::DEFAULT_SHARD@,
        Some(stated) => stated@,
    }
}

/// Whether a feed is what a block says, with the two publisher-wide cadences.
pub open spec fn is_feed_of(
    feed: Feed,
    section: FeedSection,
    definition_cycle: Duration,
    idle_guard: Duration,
) -> bool {
    &&& FeedSpec::named(section.spec@) == Some(feed.spec)
    &&& feed.shard@ == shard_of(section)
    &&& feed.channel_id == section.channel_id
    &&& feed.source_id@ == section.source_id
    &&& address::address_read(section.multicast_group@) == Some(feed.group)
    &&& feed.mktdata_port == section.mktdata_port
    &&& feed.refdata_port == section.refdata_port
    &&& feed.snapshot_port == section.snapshot_port
    &&& feed.snapshot_cycle == section.snapshot_cycle
    &&& feed.heartbeat_interval == section.heartbeat_interval
    &&& feed.definition_cycle == definition_cycle
    &&& feed.manifest_cadence == section.manifest_cadence
    &&& feed.idle_guard == idle_guard
}

fn resolve_shard(section: &FeedSection) -> (shard: Result<ShardName, StartupError>)
    ensures
        match shard {
            Ok(named) => shard_refusal(*section) is None && named@ == shard_of(*section),
            Err(error) => shard_refusal(*section) == Some(error@),
        },
{
    match &section.shard {
        None => Ok(ShardName::default_shard()),
        Some(stated) => match ShardName::new(stated.as_str()) {
            None => Err(
                StartupError::UnsafeShardName { spec: section.spec.clone(), shard: stated.clone() },
            ),
            Some(named) => {
                if named.is_default() {
                    Err(
                        StartupError::ReservedShardName {
                            spec: section.spec.clone(),
                            shard: stated.clone(),
                        },
                    )
                } else {
                    Ok(named)
                }
            },
        },
    }
}

fn check_ports(section: &FeedSection, spec: FeedSpec) -> (checked: Result<(), StartupError>)
    ensures
        match checked {
            Ok(()) => port_refusal(*section, spec) is None,
            Err(error) => port_refusal(*section, spec) == Some(error@),
        },
{
    if section.mktdata_port == 0 {
        return Err(StartupError::ZeroPort { key: "mktdata_port" });
    }
    if section.refdata_port == 0 {
        return Err(StartupError::ZeroPort { key: "refdata_port" });
    }
    if section.snapshot_port == Some(0u16) {
        return Err(StartupError::ZeroPort { key: "snapshot_port" });
    }
    match (spec.has_snapshot_port(), section.snapshot_port) {
        (true, None) => {
            return Err(StartupError::SnapshotPortRequired { spec: spec.as_str() });
        },
        (false, Some(port)) => {
            return Err(StartupError::SnapshotPortNotCarried { spec: spec.as_str(), port });
        },
        _ => {},
    }
    if section.mktdata_port == section.refdata_port {
        return Err(
            StartupError::PortsCollide {
                left: "mktdata_port",
                right: "refdata_port",
                port: section.mktdata_port,
            },
        );
    }
    if let Some(snapshot) = section.snapshot_port {
        if snapshot == section.mktdata_port {
            return Err(
                StartupError::PortsCollide {
                    left: "mktdata_port",
                    right: "snapshot_port",
                    port: snapshot,
                },
            );
        }
        if snapshot == section.refdata_port {
            return Err(
                StartupError::PortsCollide {
                    left: "refdata_port",
                    right: "snapshot_port",
                    port: snapshot,
                },
            );
        }
    }
    Ok(())
}

fn check_durations(section: &FeedSection, spec: FeedSpec) -> (checked: Result<(), StartupError>)
    ensures
        match checked {
            Ok(()) => duration_refusal(*section, spec) is None,
            Err(error) => duration_refusal(*section, spec) == Some(error@),
        },
{
    if section.snapshot_cycle.is_some() && section.snapshot_port.is_none() {
        return Err(StartupError::SnapshotCycleWithoutPort { spec: spec.as_str() });
    }
    if section.heartbeat_interval.is_zero() {
        return Err(StartupError::ZeroDuration { key: "[[feed]] heartbeat_interval" });
    }
    if section.manifest_cadence.is_zero() {
        return Err(StartupError::ZeroDuration { key: "[[feed]] manifest_cadence" });
    }
    if let Some(cycle) = section.snapshot_cycle {
        if cycle.is_zero() {
            return Err(StartupError::ZeroDuration { key: "[[feed]] snapshot_cycle" });
        }
    }
    Ok(())
}

impl FeedSection {
    /// Check one block, with the two publisher-wide cadences already settled.
    ///
    /// # Errors
    ///
    /// The first thing wrong with it.
    pub fn resolve(&self, definition_cycle: Duration, idle_guard: Duration) -> (resolved: Result<
        Feed,
        StartupError,
    >)
        ensures
            match resolved {
                Ok(feed) => {
                    &&& feed_refusal(*self) is None
                    &&& is_feed_of(feed, *self, definition_cycle, idle_guard)
                },
                Err(error) => feed_refusal(*self) == Some(error@),
            },
    {
        let spec: FeedSpec = match FeedSpec::resolve(self.spec.as_str()) {
            None => {
                return Err(
                    StartupError::UnsupportedFeedSpec {
                        spec: self.spec.clone(),
                        supported: config::FEED_SPECS,
                    },
                );
            },
            Some(spec) => spec,
        };
        let shard: ShardName = match resolve_shard(self) {
            Err(error) => {
                return Err(error);
            },
            Ok(shard) => shard,
        };
        let source_id: SourceId = match SourceId::new(self.source_id) {
            None => {
                return Err(StartupError::BadSourceId { source_id: self.source_id });
            },
            Some(source_id) => source_id,
        };
        let group: Ipv4Addr = match Ipv4Addr::parse(self.multicast_group.as_str()) {
            None => {
                return Err(
                    StartupError::NotAnAddress {
                        key: "[[feed]] multicast_group",
                        value: self.multicast_group.clone(),
                    },
                );
            },
            Some(group) => group,
        };
        if !group.is_multicast() {
            return Err(StartupError::NotMulticast { group });
        }
        match check_ports(self, spec) {
            Err(error) => {
                return Err(error);
            },
            Ok(()) => {},
        }
        match check_durations(self, spec) {
            Err(error) => {
                return Err(error);
            },
            Ok(()) => {},
        }
        Ok(
            Feed {
                spec,
                shard,
                channel_id: self.channel_id,
                source_id,
                group,
                mktdata_port: self.mktdata_port,
                refdata_port: self.refdata_port,
                snapshot_port: self.snapshot_port,
                snapshot_cycle: self.snapshot_cycle,
                heartbeat_interval: self.heartbeat_interval,
                definition_cycle,
                manifest_cadence: self.manifest_cadence,
                idle_guard,
            },
        )
    }
}

/// What the enabled blocks state for a key the publisher holds once: nothing,
/// or one value, or the first that is zero or differs from the one before it.
pub open spec fn settled(key: Seq<char>, stated: Seq<Option<Duration>>) -> Result<
    Option<Duration>,
    Refusal,
>
    decreases stated.len(),
{
    if stated.len() == 0 {
        Ok(None)
    } else {
        match settled(key, stated.drop_last()) {
            Err(refusal) => Err(refusal),
            Ok(one) => match stated.last() {
                None => Ok(one),
                Some(value) => if value@ == 0 {
                    Err(Refusal::ZeroDuration { key })
                } else if one is Some && one->0 != value {
                    Err(Refusal::FeedsDisagree { key, one: one->0@, another: value@ })
                } else {
                    Ok(Some(value))
                },
            },
        }
    }
}

/// The one value an enabled block set states for a key the publisher holds
/// once, or the default if none of them states one.
///
/// # Errors
///
/// [`StartupError::ZeroDuration`] for a stated zero, and
/// [`StartupError::FeedsDisagree`] naming both values when two blocks state
/// different ones.
pub fn one_stated(
    key: &'static str,
    stated: &Vec<Option<Duration>>,
    default: Duration,
) -> (value: Result<Duration, StartupError>)
    ensures
        match settled(key@, stated@) {
            Ok(None) => value == Ok::<Duration, StartupError>(default),
            Ok(Some(one)) => value == Ok::<Duration, StartupError>(one),
            Err(refusal) => value matches Err(error) && error@ == refusal,
        },
{
    let mut one: Option<Duration> = None;
    let mut at: usize = 0;
    while at < stated.len()
        invariant
            at <= stated.len(),
            settled(key@, stated@.take(at as int)) == Ok::<Option<Duration>, Refusal>(one),
        decreases stated.len() - at,
    {
        proof {
            assert(stated@.take(at + 1).drop_last() =~= stated@.take(at as int));
            a_refused_start_is_refused(key@, stated@, at + 1);
        }
        if let Some(value) = stated[at] {
            if value.is_zero() {
                return Err(StartupError::ZeroDuration { key });
            }
            match one {
                None => {
                    one = Some(value);
                },
                Some(first) => {
                    if first != value {
                        return Err(
                            StartupError::FeedsDisagree { key, one: first, another: value },
                        );
                    }
                },
            }
        }
        at += 1;
    }
    proof {
        assert(stated@.take(stated@.len() as int) =~= stated@);
    }
    match one {
        None => Ok(default),
        Some(value) => Ok(value),
    }
}

/// What is refused by then stays refused, whatever follows.
proof fn a_refused_start_is_refused(key: Seq<char>, stated: Seq<Option<Duration>>, start: int)
    requires
        0 <= start <= stated.len(),
    ensures
        settled(key, stated.take(start)) is Err ==> settled(key, stated) == settled(
            key,
            stated.take(start),
        ),
    decreases stated.len(),
{
    if start == stated.len() {
        assert(stated.take(start) =~= stated);
    } else {
        assert(stated.drop_last().take(start) =~= stated.take(start));
        a_refused_start_is_refused(key, stated.drop_last(), start);
    }
}

/// Only two stated values are a disagreement: a block that omits the key changes
/// nothing, wherever it stands.
pub proof fn an_omission_is_not_a_disagreement(
    key: Seq<char>,
    stated: Seq<Option<Duration>>,
    at: int,
)
    requires
        0 <= at < stated.len(),
        stated[at] is None,
    ensures
        settled(key, stated.remove(at)) == settled(key, stated),
    decreases stated.len(),
{
    if at == stated.len() - 1 {
        assert(stated.remove(at) =~= stated.drop_last());
    } else {
        assert(stated.remove(at).drop_last() =~= stated.drop_last().remove(at));
        assert(stated.remove(at).last() == stated.last());
        an_omission_is_not_a_disagreement(key, stated.drop_last(), at);
    }
}

/// A document is not refused for a key exactly where every stated value is the
/// same and none of them is zero, and that value is then the one it settles on.
pub proof fn agreeing_values_settle(key: Seq<char>, stated: Seq<Option<Duration>>)
    ensures
        settled(key, stated) is Ok <==> {
            &&& forall|i: int|
                0 <= i < stated.len() && (#[trigger] stated[i]) is Some ==> stated[i]->0@ > 0
            &&& forall|i: int, j: int|
                0 <= i < stated.len() && 0 <= j < stated.len() && (#[trigger] stated[i]) is Some
                    && (#[trigger] stated[j]) is Some ==> stated[i] == stated[j]
        },
        settled(key, stated) matches Ok(one) ==> {
            &&& one is None <==> forall|i: int|
                0 <= i < stated.len() ==> (#[trigger] stated[i]) is None
            &&& forall|i: int|
                0 <= i < stated.len() && (#[trigger] stated[i]) is Some ==> stated[i] == one
        },
    decreases stated.len(),
{
    if stated.len() > 0 {
        let before = stated.drop_last();
        agreeing_values_settle(key, before);
        assert(forall|i: int| 0 <= i < before.len() ==> #[trigger] before[i] == stated[i]);
        assert(forall|i: int| 0 <= i < before.len() ==> #[trigger] stated[i] == before[i]);
        let last = stated.len() - 1;
        if settled(key, before) is Ok && settled(key, before)->Ok_0 is Some {
            assert(exists|i: int| 0 <= i < before.len() && (#[trigger] before[i]) is Some);
            let i = choose|i: int| 0 <= i < before.len() && (#[trigger] before[i]) is Some;
            assert(stated[i] == before[i]);
        }
        assert(stated[last] == stated.last());
        if settled(key, before) is Err {
            if exists|i: int|
                0 <= i < before.len() && (#[trigger] before[i]) is Some && before[i]->0@ == 0 {
                let i = choose|i: int|
                    0 <= i < before.len() && (#[trigger] before[i]) is Some && before[i]->0@ == 0;
                assert(stated[i] == before[i]);
            } else {
                let (i, j) = choose|i: int, j: int|
                    0 <= i < before.len() && 0 <= j < before.len() && (#[trigger] before[i]) is Some
                        && (#[trigger] before[j]) is Some && before[i] != before[j];
                assert(stated[i] == before[i]);
                assert(stated[j] == before[j]);
            }
        }
    }
}

/// A block's channel instance: the specification and the shard it carries.
pub open spec fn instance_of(section: FeedSection) -> (FeedSpec, Seq<char>) {
    (FeedSpec::named(section.spec@)->0, shard_of(section))
}

/// A feed's channel instance.
pub open spec fn feed_instance(feed: Feed) -> (FeedSpec, Seq<char>) {
    (feed.spec, feed.shard@)
}

/// The channel instances of a list of feeds.
pub open spec fn instances(feeds: Seq<Feed>) -> Seq<(FeedSpec, Seq<char>)> {
    Seq::new(feeds.len(), |i: int| feed_instance(feeds[i]))
}

/// Whether the block at `at` carries what an earlier one does.
pub open spec fn repeats_an_instance(enabled: Seq<FeedSection>, at: int) -> bool {
    exists|i: int| 0 <= i < at && instance_of(#[trigger] enabled[i]) == instance_of(enabled[at])
}

/// Whether the block at `first` is the first before `at` with the same channel.
pub open spec fn is_first_on_channel(enabled: Seq<FeedSection>, at: int, first: int) -> bool {
    &&& 0 <= first < at
    &&& enabled[first].channel_id == enabled[at].channel_id
    &&& forall|i: int|
        0 <= i < first ==> (#[trigger] enabled[i]).channel_id != enabled[at].channel_id
}

/// What is wrong with one enabled block, on its own and beside those before it.
pub open spec fn block_refusal(enabled: Seq<FeedSection>, at: int) -> Option<Refusal> {
    let section = enabled[at];
    if feed_refusal(section) is Some {
        feed_refusal(section)
    } else if repeats_an_instance(enabled, at) {
        Some(
            Refusal::DuplicateFeedShard {
                spec: instance_of(section).0.name(),
                shard: instance_of(section).1,
            },
        )
    } else if exists|first: int| is_first_on_channel(enabled, at, first) {
        let first = choose|first: int| is_first_on_channel(enabled, at, first);
        Some(
            Refusal::DuplicateChannelId {
                channel_id: section.channel_id,
                first_spec: instance_of(enabled[first]).0.name(),
                first_shard: instance_of(enabled[first]).1,
                second_spec: instance_of(section).0.name(),
                second_shard: instance_of(section).1,
            },
        )
    } else {
        None
    }
}

/// The first thing wrong with the first `count` enabled blocks.
pub open spec fn blocks_refusal(enabled: Seq<FeedSection>, count: nat) -> Option<Refusal>
    decreases count,
{
    if count == 0 {
        None
    } else {
        match blocks_refusal(enabled, (count - 1) as nat) {
            Some(refusal) => Some(refusal),
            None => block_refusal(enabled, count - 1),
        }
    }
}

/// Whether a shard that some block carries has no block for a specification
/// that some block has.
pub open spec fn lacks(
    carried: Seq<(FeedSpec, Seq<char>)>,
    shard: Seq<char>,
    spec: FeedSpec,
) -> bool {
    &&& exists|i: int| 0 <= i < carried.len() && (#[trigger] carried[i]).1 == shard
    &&& exists|i: int| 0 <= i < carried.len() && (#[trigger] carried[i]).0 == spec
    &&& forall|i: int| 0 <= i < carried.len() ==> #[trigger] carried[i] != (spec, shard)
}

/// Whether a shard that lacks a specification is the first to, by name.
pub open spec fn lacks_first(
    carried: Seq<(FeedSpec, Seq<char>)>,
    shard: Seq<char>,
    spec: FeedSpec,
) -> bool {
    &&& lacks(carried, shard, spec)
    &&& forall|other: Seq<char>, any: FeedSpec| #[trigger]
        lacks(carried, other, any) ==> !text::precedes(other, shard)
}

/// What is wrong with the shards held against each other: the first by name
/// that lacks a specification another has, and which.
pub open spec fn shards_refusal(carried: Seq<(FeedSpec, Seq<char>)>) -> Option<Refusal> {
    if exists|shard: Seq<char>, spec: FeedSpec| lacks_first(carried, shard, spec) {
        let (shard, spec) = choose|shard: Seq<char>, spec: FeedSpec|
            lacks_first(carried, shard, spec);
        Some(Refusal::ShardSpecsDisagree { shard, spec: spec.name() })
    } else {
        None
    }
}

/// Whether the block at `at` is the first whose identity is not the first
/// block's.
pub open spec fn is_first_other_identity(enabled: Seq<FeedSection>, at: int) -> bool {
    &&& 0 <= at < enabled.len()
    &&& enabled[at].source_id != enabled[0].source_id
    &&& forall|i: int|
        0 <= i < at ==> (#[trigger] enabled[i]).source_id == enabled[0].source_id
}

/// The first thing wrong with the enabled blocks: one of them, there being
/// none, a shard without a specification, a second identity.
pub open spec fn feeds_refusal(enabled: Seq<FeedSection>) -> Option<Refusal> {
    let carried = Seq::new(enabled.len(), |i: int| instance_of(enabled[i]));
    if blocks_refusal(enabled, enabled.len()) is Some {
        blocks_refusal(enabled, enabled.len())
    } else if enabled.len() == 0 {
        Some(Refusal::NoEnabledFeed)
    } else if shards_refusal(carried) is Some {
        shards_refusal(carried)
    } else if exists|at: int| is_first_other_identity(enabled, at) {
        let at = choose|at: int| is_first_other_identity(enabled, at);
        Some(
            Refusal::SeveralSourceIds {
                one: enabled[0].source_id,
                another: enabled[at].source_id,
            },
        )
    } else {
        None
    }
}

proof fn one_shard_lacks_first(
    carried: Seq<(FeedSpec, Seq<char>)>,
    shard: Seq<char>,
    spec: FeedSpec,
    other: Seq<char>,
    other_spec: FeedSpec,
)
    requires
        lacks_first(carried, shard, spec),
        lacks_first(carried, other, other_spec),
    ensures
        shard == other,
        spec == other_spec,
{
    if shard != other {
        text::one_of_two_precedes(shard, other);
    }
    let i = choose|i: int| 0 <= i < carried.len() && (#[trigger] carried[i]).1 == shard;
    assert(carried[i] == (carried[i].0, shard));
}

fn carries(feeds: &Vec<Feed>, spec: FeedSpec, shard: Option<&ShardName>) -> (found: bool)
    ensures
        found == exists|i: int|
            0 <= i < feeds@.len() && (#[trigger] instances(feeds@)[i]).0 == spec && (
            shard matches Some(named) ==> instances(feeds@)[i].1 == named@),
{
    let mut at: usize = 0;
    while at < feeds.len()
        invariant
            at <= feeds.len(),
            forall|i: int|
                0 <= i < at ==> !((#[trigger] instances(feeds@)[i]).0 == spec && (
                shard matches Some(named) ==> instances(feeds@)[i].1 == named@)),
        decreases feeds.len() - at,
    {
        let here: bool = match shard {
            None => true,
            Some(named) => feeds[at].shard.same_shard(named),
        };
        if here && feeds[at].spec == spec {
            proof {
                assert(instances(feeds@)[at as int].0 == spec);
            }
            return true;
        }
        at += 1;
    }
    false
}

fn shard_lacks(feeds: &Vec<Feed>, at: usize, spec: FeedSpec) -> (missing: bool)
    requires
        at < feeds@.len(),
    ensures
        missing == lacks(instances(feeds@), feeds@[at as int].shard@, spec),
{
    let shard: &ShardName = &feeds[at].shard;
    let anywhere: bool = carries(feeds, spec, None);
    let here: bool = carries(feeds, spec, Some(shard));
    proof {
        assert(instances(feeds@)[at as int].1 == shard@);
    }
    anywhere && !here
}

/// Every shard carries the same specifications, or the publisher refuses.
///
/// # Errors
///
/// [`StartupError::ShardSpecsDisagree`] naming the first shard by name that has
/// no block for a specification another shard has, and the specification.
pub fn check_shards_carry_the_same_specifications(feeds: &Vec<Feed>) -> (checked: Result<
    (),
    StartupError,
>)
    ensures
        match checked {
            Ok(()) => shards_refusal(instances(feeds@)) is None,
            Err(error) => shards_refusal(instances(feeds@)) == Some(error@),
        },
{
    let ghost carried = instances(feeds@);
    let mut first: Option<(usize, FeedSpec)> = None;
    let mut at: usize = 0;
    while at < feeds.len()
        invariant
            at <= feeds.len(),
            carried == instances(feeds@),
            match first {
                None => forall|i: int, any: FeedSpec|
                    0 <= i < at ==> !#[trigger] lacks(carried, feeds@[i].shard@, any),
                Some((index, spec)) => {
                    &&& index < at
                    &&& lacks(carried, feeds@[index as int].shard@, spec)
                    &&& forall|i: int, any: FeedSpec|
                        0 <= i < at && #[trigger] lacks(carried, feeds@[i].shard@, any)
                            ==> !text::precedes(feeds@[i].shard@, feeds@[index as int].shard@)
                },
            },
        decreases feeds.len() - at,
    {
        let tob: bool = shard_lacks(feeds, at, FeedSpec::TopOfBook);
        let mbp: bool = shard_lacks(feeds, at, FeedSpec::MarketByPrice);
        let shard: &ShardName = &feeds[at].shard;
        proof {
            text::nothing_precedes_itself(shard@);
            assert(forall|any: FeedSpec| #[trigger]
                lacks(carried, shard@, any) ==> (any == FeedSpec::TopOfBook && tob) || (any
                    == FeedSpec::MarketByPrice && mbp));
        }
        if tob || mbp {
            let spec: FeedSpec = if tob {
                FeedSpec::TopOfBook
            } else {
                FeedSpec::MarketByPrice
            };
            let sooner: bool = match first {
                None => true,
                Some((index, _)) => text::before(shard.as_str(), feeds[index].shard.as_str()),
            };
            if sooner {
                proof {
                    if let Some((index, _)) = first {
                        assert forall|i: int, any: FeedSpec|
                            0 <= i < at && #[trigger] lacks(carried, feeds@[i].shard@, any) implies
                            !text::precedes(feeds@[i].shard@, shard@) by {
                            if text::precedes(feeds@[i].shard@, shard@) {
                                text::precedes_is_transitive(
                                    feeds@[i].shard@,
                                    shard@,
                                    feeds@[index as int].shard@,
                                );
                            }
                        }
                    }
                }
                first = Some((at, spec));
            }
        }
        at += 1;
    }
    proof {
        assert forall|other: Seq<char>, any: FeedSpec| #[trigger]
            lacks(carried, other, any) implies exists|i: int|
            0 <= i < feeds@.len() && lacks(carried, #[trigger] feeds@[i].shard@, any)
                && feeds@[i].shard@ == other by {
            let i = choose|i: int| 0 <= i < carried.len() && (#[trigger] carried[i]).1 == other;
            assert(feeds@[i].shard@ == other);
        }
    }
    match first {
        None => Ok(()),
        Some((index, spec)) => {
            let shard: &ShardName = &feeds[index].shard;
            proof {
                assert(lacks_first(carried, shard@, spec));
                let (named, missing) = choose|shard: Seq<char>, spec: FeedSpec|
                    lacks_first(carried, shard, spec);
                one_shard_lacks_first(carried, shard@, spec, named, missing);
            }
            Err(
                StartupError::ShardSpecsDisagree {
                    shard: shard.as_str().to_owned(),
                    spec: spec.as_str(),
                },
            )
        },
    }
}

/// The least of the shards that lack a specification, of the first `count`
/// blocks.
proof fn least_lacking(carried: Seq<(FeedSpec, Seq<char>)>, count: nat) -> (least: Option<
    (int, FeedSpec),
>)
    requires
        count <= carried.len(),
    ensures
        match least {
            None => forall|i: int, any: FeedSpec|
                0 <= i < count ==> !#[trigger] lacks(carried, carried[i].1, any),
            Some((index, spec)) => {
                &&& 0 <= index < count
                &&& lacks(carried, carried[index].1, spec)
                &&& forall|i: int, any: FeedSpec|
                    0 <= i < count && #[trigger] lacks(carried, carried[i].1, any)
                        ==> !text::precedes(carried[i].1, carried[index].1)
            },
        },
    decreases count,
{
    if count == 0 {
        None
    } else {
        let before = least_lacking(carried, (count - 1) as nat);
        let shard = carried[count - 1].1;
        text::nothing_precedes_itself(shard);
        if exists|any: FeedSpec| lacks(carried, shard, any) {
            let spec = choose|any: FeedSpec| lacks(carried, shard, any);
            match before {
                None => Some((count - 1, spec)),
                Some((index, found)) => {
                    if text::precedes(shard, carried[index].1) {
                        assert forall|i: int, any: FeedSpec|
                            0 <= i < count && #[trigger] lacks(carried, carried[i].1, any) implies
                            !text::precedes(carried[i].1, shard) by {
                            if i < count - 1 && text::precedes(carried[i].1, shard) {
                                text::precedes_is_transitive(
                                    carried[i].1,
                                    shard,
                                    carried[index].1,
                                );
                            }
                        }
                        Some((count - 1, spec))
                    } else {
                        Some((index, found))
                    }
                },
            }
        } else {
            before
        }
    }
}

/// Shards that are not refused carry the same specifications.
pub proof fn shards_not_refused_carry_the_same(carried: Seq<(FeedSpec, Seq<char>)>)
    requires
        shards_refusal(carried) is None,
    ensures
        forall|i: int, j: int|
            0 <= i < carried.len() && 0 <= j < carried.len() ==> carried.contains(
                ((#[trigger] carried[i]).0, (#[trigger] carried[j]).1),
            ),
{
    let least = least_lacking(carried, carried.len());
    assert forall|shard: Seq<char>, spec: FeedSpec| !#[trigger] lacks(carried, shard, spec) by {
        if lacks(carried, shard, spec) {
            let i = choose|i: int| 0 <= i < carried.len() && (#[trigger] carried[i]).1 == shard;
            assert(lacks(carried, carried[i].1, spec));
            let (index, found) = least->0;
            assert forall|other: Seq<char>, any: FeedSpec| #[trigger]
                lacks(carried, other, any) implies !text::precedes(
                other,
                carried[index].1,
            ) by {
                let k = choose|k: int|
                    0 <= k < carried.len() && (#[trigger] carried[k]).1 == other;
                assert(lacks(carried, carried[k].1, any));
            }
            assert(lacks_first(carried, carried[index].1, found));
        }
    }
    assert forall|i: int, j: int|
        0 <= i < carried.len() && 0 <= j < carried.len() implies carried.contains(
        ((#[trigger] carried[i]).0, (#[trigger] carried[j]).1),
    ) by {
        assert(!lacks(carried, carried[j].1, carried[i].0));
    }
}

/// Resolve the enabled blocks and hold them against each other.
///
/// # Errors
///
/// The first thing wrong with them.
pub fn resolve_feeds(
    enabled: &Vec<FeedSection>,
    definition_cycle: Duration,
    idle_guard: Duration,
) -> (resolved: Result<Vec<Feed>, StartupError>)
    ensures
        match resolved {
            Ok(feeds) => {
                &&& feeds_refusal(enabled@) is None
                &&& feeds@.len() == enabled@.len()
                &&& forall|i: int|
                    0 <= i < enabled@.len() ==> is_feed_of(
                        #[trigger] feeds@[i],
                        enabled@[i],
                        definition_cycle,
                        idle_guard,
                    )
            },
            Err(error) => feeds_refusal(enabled@) == Some(error@),
        },
{
    let mut feeds: Vec<Feed> = Vec::new();
    let mut at: usize = 0;
    while at < enabled.len()
        invariant
            at <= enabled.len(),
            feeds@.len() == at,
            blocks_refusal(enabled@, at as nat) is None,
            forall|i: int|
                0 <= i < at ==> is_feed_of(
                    #[trigger] feeds@[i],
                    enabled@[i],
                    definition_cycle,
                    idle_guard,
                ),
        decreases enabled.len() - at,
    {
        proof {
            the_first_refusal_stands(enabled@, (at + 1) as nat, enabled@.len());
        }
        let feed: Feed = match enabled[at].resolve(definition_cycle, idle_guard) {
            Err(error) => {
                return Err(error);
            },
            Ok(feed) => feed,
        };
        if carries(&feeds, feed.spec, Some(&feed.shard)) {
            proof {
                let i = choose|i: int|
                    0 <= i < at && (#[trigger] instances(feeds@)[i]) == feed_instance(feed);
                assert(is_feed_of(feeds@[i], enabled@[i], definition_cycle, idle_guard));
                assert(instance_of(enabled@[i]) == instance_of(enabled@[at as int]));
            }
            return Err(
                StartupError::DuplicateFeedShard {
                    spec: feed.spec.as_str(),
                    shard: feed.shard.as_str().to_owned(),
                },
            );
        }
        proof {
            assert forall|i: int| 0 <= i < at implies instance_of(#[trigger] enabled@[i])
                != instance_of(enabled@[at as int]) by {
                assert(is_feed_of(feeds@[i], enabled@[i], definition_cycle, idle_guard));
                assert(instances(feeds@)[i] != feed_instance(feed));
            }
        }
        let mut earlier: usize = 0;
        while earlier < at
            invariant
                earlier <= at < enabled.len(),
                feeds@.len() == at,
                is_feed_of(feed, enabled@[at as int], definition_cycle, idle_guard),
                forall|i: int|
                    0 <= i < at ==> is_feed_of(
                        #[trigger] feeds@[i],
                        enabled@[i],
                        definition_cycle,
                        idle_guard,
                    ),
                blocks_refusal(enabled@, at as nat) is None,
                feed_refusal(enabled@[at as int]) is None,
                !repeats_an_instance(enabled@, at as int),
                blocks_refusal(enabled@, (at + 1) as nat) is Some ==> blocks_refusal(
                    enabled@,
                    enabled@.len(),
                ) == blocks_refusal(enabled@, (at + 1) as nat),
                forall|i: int|
                    0 <= i < earlier ==> (#[trigger] enabled@[i]).channel_id
                        != enabled@[at as int].channel_id,
            decreases at - earlier,
        {
            if feeds[earlier].channel_id == feed.channel_id {
                let first: &Feed = &feeds[earlier];
                proof {
                    assert(is_feed_of(*first, enabled@[earlier as int], definition_cycle, idle_guard));
                    assert(is_first_on_channel(enabled@, at as int, earlier as int));
                    let found = choose|first: int| is_first_on_channel(enabled@, at as int, first);
                    assert(found == earlier) by {
                        if found < earlier {
                            assert(enabled@[found].channel_id == enabled@[at as int].channel_id);
                        } else if found > earlier {
                            assert(enabled@[earlier as int].channel_id
                                == enabled@[at as int].channel_id);
                        }
                    }
                }
                return Err(
                    StartupError::DuplicateChannelId {
                        channel_id: feed.channel_id,
                        first_spec: first.spec.as_str(),
                        first_shard: first.shard.as_str().to_owned(),
                        second_spec: feed.spec.as_str(),
                        second_shard: feed.shard.as_str().to_owned(),
                    },
                );
            }
            proof {
                assert(is_feed_of(
                    feeds@[earlier as int],
                    enabled@[earlier as int],
                    definition_cycle,
                    idle_guard,
                ));
            }
            earlier += 1;
        }
        feeds.push(feed);
        at += 1;
    }
    if feeds.len() == 0 {
        return Err(StartupError::NoEnabledFeed);
    }
    proof {
        let carried = Seq::new(enabled@.len(), |i: int| instance_of(enabled@[i]));
        assert forall|i: int| 0 <= i < carried.len() implies #[trigger] carried[i] == instances(
            feeds@,
        )[i] by {
            assert(is_feed_of(feeds@[i], enabled@[i], definition_cycle, idle_guard));
        }
        assert(carried =~= instances(feeds@));
    }
    match check_shards_carry_the_same_specifications(&feeds) {
        Err(error) => {
            return Err(error);
        },
        Ok(()) => {},
    }
    let one: SourceId = feeds[0].source_id;
    proof {
        assert(is_feed_of(feeds@[0], enabled@[0], definition_cycle, idle_guard));
    }
    let mut other: usize = 0;
    while other < feeds.len()
        invariant
            other <= feeds.len(),
            feeds@.len() == enabled@.len(),
            enabled@.len() > 0,
            one@ == enabled@[0].source_id,
            blocks_refusal(enabled@, enabled@.len()) is None,
            shards_refusal(Seq::new(enabled@.len(), |i: int| instance_of(enabled@[i]))) is None,
            forall|i: int|
                0 <= i < enabled@.len() ==> is_feed_of(
                    #[trigger] feeds@[i],
                    enabled@[i],
                    definition_cycle,
                    idle_guard,
                ),
            forall|i: int|
                0 <= i < other ==> (#[trigger] enabled@[i]).source_id == enabled@[0].source_id,
        decreases feeds.len() - other,
    {
        proof {
            assert(is_feed_of(
                feeds@[other as int],
                enabled@[other as int],
                definition_cycle,
                idle_guard,
            ));
        }
        let another: SourceId = feeds[other].source_id;
        if another.get() != one.get() {
            proof {
                assert(is_first_other_identity(enabled@, other as int));
                let found = choose|at: int| is_first_other_identity(enabled@, at);
                assert(found == other) by {
                    if found < other {
                        assert(enabled@[found].source_id == enabled@[0].source_id);
                    } else if found > other {
                        assert(enabled@[other as int].source_id == enabled@[0].source_id);
                    }
                }
            }
            return Err(StartupError::SeveralSourceIds { one: one.get(), another: another.get() });
        }
        other += 1;
    }
    Ok(feeds)
}

/// A refusal of the first blocks is the refusal of all of them.
proof fn the_first_refusal_stands(enabled: Seq<FeedSection>, start: nat, count: nat)
    requires
        start <= count,
    ensures
        blocks_refusal(enabled, start) is Some ==> blocks_refusal(enabled, count)
            == blocks_refusal(enabled, start),
    decreases count,
{
    if start < count {
        the_first_refusal_stands(enabled, start, (count - 1) as nat);
    }
}

} // verus!
