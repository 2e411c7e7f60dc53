//! The decisions of a publisher's composition: what is opened, for whom, and in
//! which order.

use vstd::prelude::*;
use vstd::string::*;

use crate::address::Ipv4Addr;
use crate::config;
use crate::config::{Feed, FeedSpec, PortRole, ReplayConfig, ShardName, Source, TeeConfig};
use crate::duration;
use crate::duration::Duration;
use crate::error;
use crate::error::{Refusal, StartupError};
use crate::pipeline;
use crate::pipeline::{FeedPipeline, PipelineView, Ports};
use crate::registry;
use crate::run;
use crate::shard;
use crate::shard::{Feeds, ShardFeeds, ShardView};
use crate::text;

verus! {

/// The block every feed's identity is read from: the first. They all state the
/// same, which the document's own check holds.
///
/// # Errors
///
/// [`StartupError::NoEnabledFeed`] where there is none.
pub fn identity(feeds: &Vec<Feed>) -> (first: Result<&Feed, StartupError>)
    ensures
        match first {
            Ok(feed) => feeds.len() > 0 && *feed == feeds@[0],
            Err(error) => feeds.len() == 0 && error@ == Refusal::NoEnabledFeed,
        },
{
    if feeds.len() == 0 {
        Err(StartupError::NoEnabledFeed)
    } else {
        Ok(&feeds[0])
    }
}

/// One shard as the reference-data registry is told of it.
#[derive(Debug, PartialEq, Eq)]
pub struct ShardConfig {
    /// The channel of the first block that carries the shard.
    pub channel_id: u8,
    pub name: String,
}

/// A block is the first to carry a shard.
pub open spec fn carries_first(feeds: Seq<Feed>, shard: Seq<char>, at: int) -> bool {
    &&& 0 <= at < feeds.len()
    &&& feeds[at].shard@ == shard
    &&& forall|i: int| 0 <= i < at ==> (#[trigger] feeds[i]).shard@ != shard
}

/// The channel a shard's manifest states where nothing overwrites it: that of
/// the first block that carries the shard, and the first block's where none
/// does.
pub open spec fn is_channel_of(feeds: Seq<Feed>, shard: Seq<char>, channel_id: u8) -> bool {
    if exists|at: int| #[trigger] carries_first(feeds, shard, at) {
        exists|at: int| #[trigger]
            carries_first(feeds, shard, at) && channel_id == feeds[at].channel_id
    } else {
        channel_id == feeds[0].channel_id
    }
}

fn channel_of(feeds: &Vec<Feed>, shard: &ShardName) -> (channel_id: u8)
    requires
        feeds.len() > 0,
    ensures
        is_channel_of(feeds@, shard@, channel_id),
{
    let mut at: usize = 0;
    while at < feeds.len()
        invariant
            at <= feeds.len(),
            forall|i: int| 0 <= i < at ==> (#[trigger] feeds@[i]).shard@ != shard@,
        decreases feeds.len() - at,
    {
        if feeds[at].shard.same_shard(shard) {
            proof {
                assert(carries_first(feeds@, shard@, at as int));
            }
            return feeds[at].channel_id;
        }
        at += 1;
    }
    feeds[0].channel_id
}

/// The shards the registry is told of, one for each that the publisher carries
/// and in the same order: the index the registry addresses a published set by
/// is the index its send paths stand at.
pub fn shard_configs(shards: &Vec<ShardName>, feeds: &Vec<Feed>) -> (configs: Vec<ShardConfig>)
    requires
        feeds.len() > 0,
    ensures
        configs.len() == shards.len(),
        forall|i: int|
            0 <= i < shards.len() ==> (#[trigger] configs@[i]).name@ == shards@[i]@
                && is_channel_of(feeds@, shards@[i]@, configs@[i].channel_id),
{
    let mut configs: Vec<ShardConfig> = Vec::new();
    let mut at: usize = 0;
    while at < shards.len()
        invariant
            at <= shards.len(),
            feeds.len() > 0,
            configs.len() == at,
            forall|i: int|
                0 <= i < at ==> (#[trigger] configs@[i]).name@ == shards@[i]@ && is_channel_of(
                    feeds@,
                    shards@[i]@,
                    configs@[i].channel_id,
                ),
        decreases shards.len() - at,
    {
        configs.push(
            ShardConfig {
                channel_id: channel_of(feeds, &shards[at]),
                name: shards[at].as_str().to_owned(),
            },
        );
        at += 1;
    }
    configs
}

/// Where a feed's ports come from.
///
/// A trait because a composition is otherwise reachable only over a real
/// socket, and the order it composes shards in is nothing a subscriber can see
/// is wrong.
pub trait PortOpener {
    /// Open the ports one block names and begin the era its datagrams are sent
    /// in. The snapshot port is opened for the specification that carries one
    /// and for no other.
    fn open(&self, feed: &Feed) -> (opened: Result<Ports, StartupError>)
        ensures
            opened matches Ok(ports) ==> ports.snapshot is Some == (feed.spec
                == FeedSpec::MarketByPrice),
    ;
}

/// The last send path of one specification.
pub open spec fn last_of(paths: Seq<PipelineView>, spec: FeedSpec) -> Option<PipelineView>
    decreases paths.len(),
{
    if paths.len() == 0 {
        None
    } else if paths.last().spec == spec {
        Some(paths.last())
    } else {
        last_of(paths.drop_last(), spec)
    }
}

/// The views of a list of send paths.
pub open spec fn path_views(paths: Seq<FeedPipeline>) -> Seq<PipelineView> {
    Seq::new(paths.len(), |i: int| paths[i]@)
}

/// One shard's send paths, from those its blocks were opened as.
///
/// # Errors
///
/// [`StartupError::ShardWithNoFeed`] for none. Refused rather than skipped:
/// skipping would put every later shard one index off the registry's.
pub fn compose_shard(shard: &ShardName, paths: Vec<FeedPipeline>) -> (composed: Result<
    ShardFeeds,
    StartupError,
>)
    ensures
        match composed {
            Ok(feeds) => paths.len() > 0 && feeds@.top_of_book == last_of(
                path_views(paths@),
                FeedSpec::TopOfBook,
            ) && feeds@.market_by_price == last_of(path_views(paths@), FeedSpec::MarketByPrice)
                && shard::shard_named(feeds@.top_of_book, feeds@.market_by_price) == Some(
                feeds@.name,
            ),
            Err(error) => paths.len() == 0 && error@ == (Refusal::ShardWithNoFeed {
                shard: shard@,
            }),
        },
{
    let ghost all = path_views(paths@);
    let mut rest: Vec<FeedPipeline> = paths;
    let mut top_of_book: Option<FeedPipeline> = None;
    let mut market_by_price: Option<FeedPipeline> = None;
    let ghost count = rest@.len();
    while rest.len() > 0
        invariant
            rest@.len() <= count,
            count == all.len(),
            path_views(rest@) == all.take(rest@.len() as int),
            last_of(all, FeedSpec::TopOfBook) == (if top_of_book is Some {
                shard::pipeline_view(top_of_book)
            } else {
                last_of(path_views(rest@), FeedSpec::TopOfBook)
            }),
            last_of(all, FeedSpec::MarketByPrice) == (if market_by_price is Some {
                shard::pipeline_view(market_by_price)
            } else {
                last_of(path_views(rest@), FeedSpec::MarketByPrice)
            }),
            rest@.len() < count ==> top_of_book is Some || market_by_price is Some,
        decreases rest.len(),
    {
        let ghost before = rest@;
        let last: Option<FeedPipeline> = rest.pop();
        proof {
            assert(path_views(before).drop_last() =~= path_views(rest@));
            assert(path_views(before).last() == before.last()@);
        }
        if let Some(path) = last {
            match path.spec() {
                FeedSpec::TopOfBook => {
                    if top_of_book.is_none() {
                        top_of_book = Some(path);
                    }
                },
                FeedSpec::MarketByPrice => {
                    if market_by_price.is_none() {
                        market_by_price = Some(path);
                    }
                },
            }
        }
    }
    match ShardFeeds::new(top_of_book, market_by_price) {
        Some(feeds) => Ok(feeds),
        None => Err(StartupError::ShardWithNoFeed { shard: shard.as_str().to_owned() }),
    }
}

/// The blocks that carry a shard, in the document's order.
pub open spec fn carrying(feeds: Seq<Feed>, shard: Seq<char>) -> Seq<Feed>
    decreases feeds.len(),
{
    if feeds.len() == 0 {
        Seq::empty()
    } else {
        let before = carrying(feeds.drop_last(), shard);
        if feeds.last().shard@ == shard {
            before.push(feeds.last())
        } else {
            before
        }
    }
}

/// A send path is what a block composes to, over ports it was opened with.
pub open spec fn opened_so<O: PortOpener>(ports: &O, feed: Feed, path: PipelineView) -> bool {
    exists|opened: Ports|
        call_ensures(O::open, (ports, &feed), Ok(opened)) && path == #[trigger] pipeline::composed(
            feed,
            opened,
        )
}

/// Each send path is what a block composes to, block by block.
pub open spec fn opened_as<O: PortOpener>(
    ports: &O,
    feeds: Seq<Feed>,
    paths: Seq<PipelineView>,
) -> bool {
    &&& paths.len() == feeds.len()
    &&& forall|i: int|
        #![trigger paths[i]]
        #![trigger feeds[i]]
        0 <= i < feeds.len() ==> opened_so(ports, feeds[i], paths[i])
}

/// A shard stands for the send paths its blocks were opened as.
pub open spec fn is_composed<O: PortOpener>(
    ports: &O,
    feeds: Seq<Feed>,
    name: Seq<char>,
    shard: ShardView,
) -> bool {
    &&& carrying(feeds, name).len() > 0
    &&& shard.name == name
    &&& exists|paths: Seq<PipelineView>| #[trigger]
        opened_as(ports, carrying(feeds, name), paths) && shard.top_of_book == last_of(
            paths,
            FeedSpec::TopOfBook,
        ) && shard.market_by_price == last_of(paths, FeedSpec::MarketByPrice)
}

/// A block was opened.
pub open spec fn opens<O: PortOpener>(ports: &O, feed: Feed) -> bool {
    exists|path: PipelineView| #[trigger] opened_so(ports, feed, path)
}

/// A block was refused so, and every block ahead of it was opened.
pub open spec fn refused_block<O: PortOpener>(
    ports: &O,
    blocks: Seq<Feed>,
    at: int,
    error: StartupError,
) -> bool {
    &&& 0 <= at < blocks.len()
    &&& call_ensures(O::open, (ports, &blocks[at]), Err(error))
    &&& forall|i: int| 0 <= i < at ==> opens(ports, #[trigger] blocks[i])
}

/// A shard has blocks, and every one of them was opened.
pub open spec fn opens_shard<O: PortOpener>(
    ports: &O,
    feeds: Seq<Feed>,
    name: Seq<char>,
) -> bool {
    let blocks = carrying(feeds, name);
    &&& blocks.len() > 0
    &&& forall|i: int| 0 <= i < blocks.len() ==> opens(ports, #[trigger] blocks[i])
}

/// A composition was refused so at a shard: every shard ahead of it was opened
/// whole, and it has no block, or one of its blocks was refused and those ahead
/// of that one were opened.
pub open spec fn refused_shard<O: PortOpener>(
    ports: &O,
    feeds: Seq<Feed>,
    shards: Seq<ShardName>,
    at: int,
    error: StartupError,
) -> bool {
    &&& 0 <= at < shards.len()
    &&& forall|k: int| 0 <= k < at ==> opens_shard(ports, feeds, (#[trigger] shards[k])@)
    &&& if carrying(feeds, shards[at]@).len() == 0 {
        error@ == (Refusal::ShardWithNoFeed { shard: shards[at]@ })
    } else {
        exists|i: int| #[trigger]
            refused_block(ports, carrying(feeds, shards[at]@), i, error)
    }
}

/// The blocks of a shard among the first of a document are the first of its
/// blocks.
proof fn the_first_blocks_come_first(feeds: Seq<Feed>, shard: Seq<char>, count: int)
    requires
        0 <= count <= feeds.len(),
    ensures
        carrying(feeds.take(count), shard).len() <= carrying(feeds, shard).len(),
        forall|i: int|
            0 <= i < carrying(feeds.take(count), shard).len() ==> #[trigger] carrying(
                feeds,
                shard,
            )[i] == carrying(feeds.take(count), shard)[i],
    decreases feeds.len(),
{
    if count < feeds.len() {
        the_first_blocks_come_first(feeds.drop_last(), shard, count);
        assert(feeds.drop_last().take(count) =~= feeds.take(count));
    } else {
        assert(feeds.take(count) =~= feeds);
    }
}

/// Open the blocks of one shard, in the document's order.
fn open_shard<O: PortOpener>(shard: &ShardName, feeds: &Vec<Feed>, ports: &O) -> (paths: Result<
    Vec<FeedPipeline>,
    StartupError,
>)
    ensures
        match paths {
            Ok(opened) => opened_as(ports, carrying(feeds@, shard@), path_views(opened@))
                && forall|i: int|
                0 <= i < opened.len() ==> (#[trigger] opened@[i])@.shard == shard@,
            Err(error) => exists|i: int| #[trigger]
                refused_block(ports, carrying(feeds@, shard@), i, error),
        },
{
    let mut paths: Vec<FeedPipeline> = Vec::new();
    let mut at: usize = 0;
    proof {
        assert(feeds@.take(0) =~= Seq::<Feed>::empty());
    }
    while at < feeds.len()
        invariant
            at <= feeds.len(),
            opened_as(ports, carrying(feeds@.take(at as int), shard@), path_views(paths@)),
            forall|i: int| 0 <= i < paths.len() ==> (#[trigger] paths@[i])@.shard == shard@,
        decreases feeds.len() - at,
    {
        let feed: &Feed = &feeds[at];
        proof {
            assert(feeds@.take(at + 1).drop_last() =~= feeds@.take(at as int));
            assert(feeds@.take(at + 1).last() == *feed);
        }
        if feed.shard.same_shard(shard) {
            match ports.open(feed) {
                Err(error) => {
                    proof {
                        let ahead = carrying(feeds@.take(at as int), shard@);
                        let blocks = carrying(feeds@, shard@);
                        the_first_blocks_come_first(feeds@, shard@, at as int);
                        the_first_blocks_come_first(feeds@, shard@, at + 1);
                        assert(carrying(feeds@.take(at + 1), shard@) == ahead.push(*feed));
                        assert(blocks[ahead.len() as int] == *feed);
                        assert forall|i: int| 0 <= i < ahead.len() implies opens(
                            ports,
                            #[trigger] blocks[i],
                        ) by {
                            assert(opened_so(ports, ahead[i], path_views(paths@)[i]));
                        }
                        assert(refused_block(ports, blocks, ahead.len() as int, error));
                    }
                    return Err(error);
                },
                Ok(opened) => {
                    let ghost before = path_views(paths@);
                    let ghost blocks = carrying(feeds@.take(at as int), shard@);
                    let path: FeedPipeline = FeedPipeline::new(feed, opened);
                    let ghost added = path@;
                    paths.push(path);
                    proof {
                        assert(path_views(paths@) =~= before.push(added));
                        assert(added == pipeline::composed(*feed, opened));
                        assert(opened_so(ports, *feed, added));
                        assert(opened_as(ports, blocks.push(*feed), before.push(added)));
                    }
                },
            }
        }
        at += 1;
    }
    proof {
        assert(feeds@.take(at as int) =~= feeds@);
    }
    Ok(paths)
}

/// Compose every shard's send paths, in the order of `shards`.
///
/// # Errors
///
/// The first there is, shard by shard and in each of them block by block: what
/// refused the opening of a block, or [`StartupError::ShardWithNoFeed`] for a
/// shard that no block carries.
pub fn compose_feeds<O: PortOpener>(
    shards: &Vec<ShardName>,
    feeds: &Vec<Feed>,
    ports: &O,
) -> (composed: Result<Feeds, StartupError>)
    ensures
        match composed {
            Ok(all) => all@.len() == shards.len() && forall|s: int|
                0 <= s < shards.len() ==> is_composed(
                    ports,
                    feeds@,
                    shards@[s]@,
                    #[trigger] all@[s],
                ),
            Err(error) => exists|at: int| #[trigger]
                refused_shard(ports, feeds@, shards@, at, error),
        },
{
    let mut composed: Feeds = Feeds::new();
    let mut at: usize = 0;
    while at < shards.len()
        invariant
            at <= shards.len(),
            composed@.len() == at,
            forall|s: int|
                0 <= s < at ==> is_composed(ports, feeds@, shards@[s]@, #[trigger] composed@[s]),
        decreases shards.len() - at,
    {
        let paths: Vec<FeedPipeline> = match open_shard(&shards[at], feeds, ports) {
            Ok(paths) => paths,
            Err(error) => {
                proof {
                    composed_shards_were_opened(ports, feeds@, shards@, composed@);
                    assert(refused_shard(ports, feeds@, shards@, at as int, error));
                }
                return Err(error);
            },
        };
        let ghost views = path_views(paths@);
        let ghost name = shards@[at as int]@;
        match compose_shard(&shards[at], paths) {
            Ok(shard) => {
                proof {
                    a_last_one_is_one_of_them(views, FeedSpec::TopOfBook);
                    a_last_one_is_one_of_them(views, FeedSpec::MarketByPrice);
                    assert forall|i: int| 0 <= i < views.len() implies (
                    #[trigger] views[i]).shard == name by {
                        assert(views[i] == paths@[i]@);
                    }
                    assert(opened_as(ports, carrying(feeds@, name), views));
                    assert(shard@.name == name);
                    assert(is_composed(ports, feeds@, name, shard@));
                }
                composed.push(shard);
            },
            Err(error) => {
                proof {
                    assert(views.len() == 0);
                    composed_shards_were_opened(ports, feeds@, shards@, composed@);
                    assert(refused_shard(ports, feeds@, shards@, at as int, error));
                }
                return Err(error);
            },
        }
        at += 1;
    }
    Ok(composed)
}

proof fn composed_shards_were_opened<O: PortOpener>(
    ports: &O,
    feeds: Seq<Feed>,
    shards: Seq<ShardName>,
    composed: Seq<ShardView>,
)
    requires
        composed.len() <= shards.len(),
        forall|s: int|
            0 <= s < composed.len() ==> is_composed(ports, feeds, shards[s]@, #[trigger] composed[s]),
    ensures
        forall|s: int|
            0 <= s < composed.len() ==> opens_shard(ports, feeds, (#[trigger] shards[s])@),
{
    assert forall|s: int| 0 <= s < composed.len() implies opens_shard(
        ports,
        feeds,
        (#[trigger] shards[s])@,
    ) by {
        assert(is_composed(ports, feeds, shards[s]@, composed[s]));
        let blocks = carrying(feeds, shards[s]@);
        let paths = choose|paths: Seq<PipelineView>| #[trigger]
            opened_as(ports, blocks, paths) && composed[s].top_of_book == last_of(
                paths,
                FeedSpec::TopOfBook,
            ) && composed[s].market_by_price == last_of(paths, FeedSpec::MarketByPrice);
        assert forall|i: int| 0 <= i < blocks.len() implies opens(ports, #[trigger] blocks[i]) by {
            assert(opened_so(ports, blocks[i], paths[i]));
        }
    }
}

proof fn a_last_one_is_one_of_them(paths: Seq<PipelineView>, spec: FeedSpec)
    ensures
        match last_of(paths, spec) {
            Some(path) => exists|i: int| 0 <= i < paths.len() && path == #[trigger] paths[i],
            None => true,
        },
    decreases paths.len(),
{
    if paths.len() > 0 && paths.last().spec != spec {
        a_last_one_is_one_of_them(paths.drop_last(), spec);
        if let Some(path) = last_of(paths.drop_last(), spec) {
            let i = choose|i: int|
                0 <= i < paths.drop_last().len() && path == #[trigger] paths.drop_last()[i];
            assert(path == paths[i]);
        }
    } else if paths.len() > 0 {
        assert(paths.last() == paths[paths.len() - 1]);
    }
}

/// The index the registry addresses a published set by is the index of the same
/// shard's send paths.
pub proof fn the_registry_and_the_send_paths_agree<O: PortOpener>(
    ports: &O,
    feeds: Seq<Feed>,
    shards: Seq<ShardName>,
    configs: Seq<ShardConfig>,
    composed: Seq<ShardView>,
)
    requires
        configs.len() == shards.len(),
        composed.len() == shards.len(),
        forall|i: int| 0 <= i < shards.len() ==> (#[trigger] configs[i]).name@ == shards[i]@,
        forall|i: int|
            0 <= i < shards.len() ==> is_composed(ports, feeds, shards[i]@, #[trigger] composed[i]),
    ensures
        forall|i: int|
            0 <= i < shards.len() ==> (#[trigger] configs[i]).name@ == composed[i].name,
{
    assert forall|i: int| 0 <= i < shards.len() implies (#[trigger] configs[i]).name@
        == composed[i].name by {
        assert(is_composed(ports, feeds, shards[i]@, composed[i]));
    }
}

/// How a shard's definitions are paced.
#[derive(Debug, Clone, Copy)]
pub struct DefinitionSchedule {
    /// One full pass over the published set.
    pub cycle: Duration,
    /// The most datagrams one tick may emit.
    pub max_datagrams_per_tick: usize,
}

/// How the definitions are paced: the cycle of the block whose identity the
/// publisher has, and never a burst.
pub fn definition_schedule(identity: &Feed) -> (schedule: DefinitionSchedule)
    ensures
        schedule.cycle == identity.definition_cycle,
        schedule.max_datagrams_per_tick == 1,
{
    DefinitionSchedule {
        cycle: identity.definition_cycle,
        max_datagrams_per_tick: run::MAX_DEFINITION_DATAGRAMS_PER_TICK,
    }
}

/// Whether `at` is the first collector that was refused.
pub open spec fn first_refused(outcomes: Seq<Result<(), String>>, at: int) -> bool {
    &&& 0 <= at < outcomes.len()
    &&& outcomes[at] is Err
    &&& forall|i: int| 0 <= i < at ==> (#[trigger] outcomes[i]) is Ok
}

/// The next of a venue's own collectors to register, by how those before it
/// went; `None` where all of them are registered.
///
/// The first refusal stops the registration and is not rolled back: it refuses
/// the startup, so no process runs with the gap.
///
/// # Errors
///
/// [`StartupError::VenueMetric`] with the first refusal.
pub fn register_venue_collectors(collectors: usize, outcomes: &Vec<Result<(), String>>) -> (next:
    Result<Option<usize>, StartupError>)
    ensures
        match next {
            Ok(next) => {
                &&& forall|i: int| 0 <= i < outcomes@.len() ==> (#[trigger] outcomes@[i]) is Ok
                &&& next == if outcomes@.len() < collectors {
                    Some(outcomes@.len() as usize)
                } else {
                    None
                }
            },
            Err(error) => exists|at: int| #[trigger]
                first_refused(outcomes@, at) && error@ == (Refusal::VenueMetric {
                    source: outcomes@[at]->Err_0@,
                }),
        },
{
    let mut at: usize = 0;
    while at < outcomes.len()
        invariant
            at <= outcomes.len(),
            forall|i: int| 0 <= i < at ==> (#[trigger] outcomes@[i]) is Ok,
        decreases outcomes.len() - at,
    {
        if let Err(source) = &outcomes[at] {
            proof {
                assert(first_refused(outcomes@, at as int));
            }
            return Err(StartupError::VenueMetric { source: source.clone() });
        }
        at += 1;
    }
    if outcomes.len() < collectors {
        Ok(Some(outcomes.len()))
    } else {
        Ok(None)
    }
}

/// The refusal a registration stopped at is the one it is refused with, whatever
/// comes after it.
pub proof fn the_first_refused_collector_decides(
    outcomes: Seq<Result<(), String>>,
    more: Seq<Result<(), String>>,
    at: int,
    other: int,
)
    requires
        first_refused(outcomes, at),
    ensures
        first_refused(outcomes + more, at),
        first_refused(outcomes + more, other) ==> other == at,
{
    let all = outcomes + more;
    assert(forall|i: int| 0 <= i <= at ==> all[i] == outcomes[i]);
    if first_refused(all, other) && other != at {
        assert(all[at] is Err && all[other] is Err);
    }
}

/// What goes dark where a transmitter's socket dies.
#[derive(Debug, Clone, Copy, PartialEq, Eq, Structural)]
pub enum FailureScope {
    /// The process: it ends, to be started where the route works.
    Process,
    /// What the socket carried, and nothing else of the process.
    Channel,
}

/// What a port role's failure takes with it, which is the process for every one.
/// Without market data nothing is published; without reference data nobody new
/// can join the feed; and without snapshots a subscriber that lost a datagram
/// never recovers.
pub fn failure_scope(role: PortRole) -> (scope: FailureScope)
    ensures
        scope == FailureScope::Process,
{
    match role {
        PortRole::Mktdata => FailureScope::Process,
        PortRole::Refdata => FailureScope::Process,
        PortRole::Snapshot => FailureScope::Process,
    }
}

/// One fan-out to be opened: where its transmitter sends, and what its failure
/// darkens. Whatever is added to the fan-out beside it darkens nothing and
/// cannot end a send.
#[derive(Debug, Clone, Copy, PartialEq, Eq, Structural)]
pub struct PortPlan {
    pub port_role: PortRole,
    pub group: Ipv4Addr,
    pub port: u16,
    pub scope: FailureScope,
}

/// The fan-out of one port role.
pub open spec fn fan_out(port_role: PortRole, group: Ipv4Addr, port: u16) -> PortPlan {
    PortPlan { port_role, group, port, scope: FailureScope::Process }
}

/// The fan-outs one block is opened as.
pub open spec fn planned(feed: Feed) -> Seq<PortPlan> {
    let both = seq![
        fan_out(PortRole::Mktdata, feed.group, feed.mktdata_port),
        fan_out(PortRole::Refdata, feed.group, feed.refdata_port),
    ];
    match feed.snapshot_port {
        Some(port) => both.push(fan_out(PortRole::Snapshot, feed.group, port)),
        None => both,
    }
}

fn plan_one(port_role: PortRole, group: Ipv4Addr, port: u16) -> (plan: PortPlan)
    ensures
        plan == fan_out(port_role, group, port),
{
    PortPlan { port_role, group, port, scope: failure_scope(port_role) }
}

/// The fan-outs to open for one block, in order.
pub fn port_plan(feed: &Feed) -> (plan: Vec<PortPlan>)
    ensures
        plan@ == planned(*feed),
{
    let mut plan: Vec<PortPlan> = Vec::new();
    plan.push(plan_one(PortRole::Mktdata, feed.group, feed.mktdata_port));
    plan.push(plan_one(PortRole::Refdata, feed.group, feed.refdata_port));
    proof {
        assert(plan@ =~= planned(Feed { snapshot_port: None, ..*feed }));
    }
    if let Some(port) = feed.snapshot_port {
        plan.push(plan_one(PortRole::Snapshot, feed.group, port));
    }
    plan
}

/// A block's fan-outs operate exactly the port roles its specification carries,
/// where the block states a snapshot port as its specification asks.
pub proof fn the_plan_is_the_specifications_own(feed: Feed)
    requires
        feed.snapshot_port is Some <==> feed.spec == FeedSpec::MarketByPrice,
    ensures
        planned(feed).len() == feed.spec.roles().len(),
        forall|i: int|
            0 <= i < planned(feed).len() ==> (#[trigger] planned(feed)[i]).port_role
                == feed.spec.roles()[i],
{
}

/// A copy of one fan-out's datagrams.
#[derive(Debug, PartialEq, Eq)]
pub struct TeePlan {
    /// The socket the copy goes to.
    pub socket: String,
    /// What an operator is told of it.
    pub line: String,
    /// What its failure darkens: the copy, and no send.
    pub scope: FailureScope,
}

/// What an operator is told of a copy.
pub open spec fn tee_said(spec: FeedSpec, role: PortRole, socket: Seq<char>) -> Seq<char> {
    "fanning out "@ + spec.name() + " "@ + role.name() + " datagrams to "@ + socket
}

/// The copy of one fan-out's datagrams, where copies are kept.
///
/// # Errors
///
/// [`StartupError::TeeWithoutPath`] where they are kept and no path is named.
pub fn tee_plan(tee: &TeeConfig, feed: &Feed, port_role: PortRole) -> (plan: Result<
    Option<TeePlan>,
    StartupError,
>)
    ensures
        match plan {
            Ok(None) => !tee.enabled,
            Ok(Some(copy)) => tee.enabled && tee.path is Some && copy.socket@ == tee.path->0@
                + config::tee_suffix(feed.spec, feed.shard@, port_role) && copy.line@ == tee_said(
                feed.spec,
                port_role,
                copy.socket@,
            ) && copy.scope == FailureScope::Channel,
            Err(error) => tee.enabled && tee.path is None && error@ == Refusal::TeeWithoutPath,
        },
{
    if !tee.enabled {
        return Ok(None);
    }
    match tee.destination(feed.spec, &feed.shard, port_role) {
        Err(error) => Err(error),
        Ok(socket) => {
            let mut line: String = "fanning out ".to_owned();
            line.append(feed.spec.as_str());
            line.append(" ");
            line.append(port_role.as_str());
            line.append(" datagrams to ");
            line.append(socket.as_str());
            Ok(Some(TeePlan { socket, line, scope: FailureScope::Channel }))
        },
    }
}

/// What an operator is told of the snapshots at startup. A block that carries a
/// snapshot port and no pass over the published set is legitimate, and is not
/// what anybody should get by accident.
pub open spec fn snapshot_said(cycle: Option<Duration>, feeds: Seq<Feed>) -> Option<Seq<char>> {
    match cycle {
        Some(length) => Some(
            "snapshot rotation: one pass over the published set every "@ + duration::shown(
                length@,
            ),
        ),
        None => if exists|i: int|
            0 <= i < feeds.len() && (#[trigger] feeds[i]).snapshot_port is Some {
            Some(
                "dz-publisher-runtime: a feed carries a snapshot port and no `[[feed]] snapshot_cycle`: only recovery snapshots will be sent, so a subscriber that joins mid-session cannot bootstrap its book"@,
            )
        } else {
            None
        },
    }
}

/// What to tell an operator of the snapshots at startup.
pub fn snapshot_notice(cycle: Option<Duration>, feeds: &Vec<Feed>) -> (line: Option<String>)
    ensures
        match line {
            Some(said) => snapshot_said(cycle, feeds@) == Some(said@),
            None => snapshot_said(cycle, feeds@) is None,
        },
{
    if let Some(length) = cycle {
        let mut line: String =
            "snapshot rotation: one pass over the published set every ".to_owned();
        line.append(length.shown_text().as_str());
        return Some(line);
    }
    let mut at: usize = 0;
    while at < feeds.len()
        invariant
            at <= feeds.len(),
            cycle is None,
            forall|i: int| 0 <= i < at ==> (#[trigger] feeds@[i]).snapshot_port is None,
        decreases feeds.len() - at,
    {
        if feeds[at].snapshot_port.is_some() {
            return Some(
                "dz-publisher-runtime: a feed carries a snapshot port and no `[[feed]] snapshot_cycle`: only recovery snapshots will be sent, so a subscriber that joins mid-session cannot bootstrap its book".to_owned(),
            );
        }
        at += 1;
    }
    None
}

/// What a publisher reads.
#[derive(Debug, PartialEq, Eq)]
pub enum Reads {
    /// The transports the venue built.
    Live,
    /// One recording, in place of every transport: a recording replayed once
    /// for each would publish every payload as often.
    Recording { path: String, connection: String },
}

/// What a publisher reads, and as which connection.
///
/// A recording stands in for the transport and not for the adapter, under the
/// name of the connection that is published from.
///
/// # Errors
///
/// [`StartupError::ReplayWithoutPath`] where a replay is asked for and no path
/// is named.
pub fn choose_reads(replay: &ReplayConfig, sources: &Vec<Source>, built: &Vec<String>) -> (reads:
    Result<Reads, StartupError>)
    requires
        built.len() > 0,
    ensures
        match reads {
            Ok(Reads::Live) => !replay.enabled,
            Ok(Reads::Recording { path, connection }) => replay.enabled && replay.path is Some
                && path@ == replay.path->0@ && (forall|at: int| #[trigger]
                run::first_primary(sources@, at) ==> connection@ == sources@[at].connection@) && ((
            forall|at: int| !run::first_primary(sources@, at)) ==> connection@ == built@[0]@),
            Err(error) => replay.enabled && replay.path is None && error@
                == Refusal::ReplayWithoutPath,
        },
{
    if !replay.enabled {
        return Ok(Reads::Live);
    }
    match &replay.path {
        None => Err(StartupError::ReplayWithoutPath),
        Some(path) => {
            let connection: String = run::primary_connection(sources, built);
            proof {
                if forall|at: int| !run::first_primary(sources@, at) {
                    no_first_is_none(sources@, sources@.len() as int);
                }
            }
            Ok(Reads::Recording { path: path.clone(), connection })
        },
    }
}

proof fn no_first_is_none(sources: Seq<Source>, upto: int)
    requires
        0 <= upto <= sources.len(),
        forall|at: int| !run::first_primary(sources, at),
    ensures
        forall|i: int|
            0 <= i < upto ==> (#[trigger] sources[i]).role != config::SourceRole::Primary,
    decreases upto,
{
    if upto > 0 {
        no_first_is_none(sources, upto - 1);
        assert(!run::first_primary(sources, upto - 1));
    }
}

/// The connections a publisher reads: every series of theirs is there from the
/// start, so that one that never comes up is seen.
pub open spec fn read_connections(reads: Reads, built: Seq<Seq<char>>) -> Seq<Seq<char>> {
    match reads {
        Reads::Live => built,
        Reads::Recording { connection, .. } => seq![connection@],
    }
}

/// The connections a publisher reads.
pub fn connections(reads: &Reads, built: &Vec<String>) -> (names: Vec<String>)
    ensures
        text::views(names@) == read_connections(*reads, text::views(built@)),
{
    match reads {
        Reads::Live => {
            let names: Vec<String> = built.clone();
            proof {
                assert(text::views(names@) =~= text::views(built@));
            }
            names
        },
        Reads::Recording { connection, .. } => {
            let mut names: Vec<String> = Vec::new();
            text::push_text(&mut names, connection.clone());
            proof {
                assert(text::views(names@) =~= seq![connection@]);
            }
            names
        },
    }
}

/// What a startup does, from the document it has resolved to the exit it
/// reports.
#[derive(Debug, Clone, Copy, PartialEq, Eq, Structural)]
pub enum Stage {
    /// Build the venue's adapter and its transports.
    OpenVenue,
    /// Hold the transports to the document.
    CheckSources,
    /// Choose what is read.
    ChooseReads,
    /// Create every series, the venue's own with them.
    BuildMetrics,
    /// Open the store of eras.
    OpenEras,
    /// Open the reference data, whose directory takes one writer.
    OpenRegistry,
    /// Open the sockets.
    OpenPorts,
    /// Say what an operator should not have to infer from silence.
    Notices,
    /// Serve the metrics.
    ServeMetrics,
    /// Build what the loop runs on.
    BuildRuntime,
    /// Offer the venue's listings for the first time.
    PollListings,
    /// Read the connections and run the loop.
    Run,
    /// Tear down in order.
    ShutDown,
    /// Report what was counted.
    Report,
}

/// Every stage, in order. The metrics are served where the document asks.
pub open spec fn stages(serves_metrics: bool) -> Seq<Stage> {
    seq![
        Stage::OpenVenue,
        Stage::CheckSources,
        Stage::ChooseReads,
        Stage::BuildMetrics,
        Stage::OpenEras,
        Stage::OpenRegistry,
        Stage::OpenPorts,
        Stage::Notices,
    ] + (if serves_metrics {
        seq![Stage::ServeMetrics]
    } else {
        Seq::empty()
    }) + seq![
        Stage::BuildRuntime,
        Stage::PollListings,
        Stage::Run,
        Stage::ShutDown,
        Stage::Report,
    ]
}

/// How far a startup has come.
#[derive(Debug)]
pub struct Startup {
    serves_metrics: bool,
    stages: Vec<Stage>,
    done: usize,
}

/// A startup as values to reason about.
pub struct StartupView {
    pub serves_metrics: bool,
    /// How many stages are done.
    pub done: int,
}

impl View for Startup {
    type V = StartupView;

    closed spec fn view(&self) -> StartupView {
        StartupView { serves_metrics: self.serves_metrics, done: self.done as int }
    }
}

impl Startup {
    /// The stages are every stage there is, and no more of them are done.
    pub closed spec fn well_formed(&self) -> bool {
        &&& self.stages@ == stages(self.serves_metrics)
        &&& self.done <= self.stages@.len()
    }

    /// A startup that has done nothing.
    pub fn new(serves_metrics: bool) -> (startup: Self)
        ensures
            startup.well_formed(),
            startup@ == (StartupView { serves_metrics, done: 0 }),
    {
        let mut all: Vec<Stage> = Vec::new();
        all.push(Stage::OpenVenue);
        all.push(Stage::CheckSources);
        all.push(Stage::ChooseReads);
        all.push(Stage::BuildMetrics);
        all.push(Stage::OpenEras);
        all.push(Stage::OpenRegistry);
        all.push(Stage::OpenPorts);
        all.push(Stage::Notices);
        if serves_metrics {
            all.push(Stage::ServeMetrics);
        }
        all.push(Stage::BuildRuntime);
        all.push(Stage::PollListings);
        all.push(Stage::Run);
        all.push(Stage::ShutDown);
        all.push(Stage::Report);
        proof {
            assert(all@ =~= stages(serves_metrics));
        }
        Self { serves_metrics, stages: all, done: 0 }
    }

    /// What to do next; `None` where everything is done.
    pub fn stage(&self) -> (stage: Option<Stage>)
        requires
            self.well_formed(),
        ensures
            stage == if self@.done < stages(self@.serves_metrics).len() {
                Some(stages(self@.serves_metrics)[self@.done])
            } else {
                None
            },
    {
        if self.done < self.stages.len() {
            Some(self.stages[self.done])
        } else {
            None
        }
    }

    /// The stage went well: go on to the next. A stage that is refused is not
    /// gone on from, and from the last there is nowhere to go.
    pub fn advance(&mut self)
        requires
            old(self).well_formed(),
        ensures
            final(self).well_formed(),
            final(self)@ == (StartupView {
                done: if old(self)@.done < stages(old(self)@.serves_metrics).len() {
                    old(self)@.done + 1
                } else {
                    old(self)@.done
                },
                ..old(self)@
            }),
    {
        if self.done < self.stages.len() {
            self.done += 1;
        }
    }
}

/// One stage comes before another.
pub open spec fn comes_before(serves_metrics: bool, one: Stage, other: Stage) -> bool {
    exists|i: int, j: int|
        0 <= i < j < stages(serves_metrics).len() && #[trigger] stages(serves_metrics)[i] == one
            && #[trigger] stages(serves_metrics)[j] == other
}

/// A second publisher on one state directory is refused before it has bound
/// anything; the transports are checked before any of them is read; every
/// instrument there is has been offered before anything can arrive; and nothing
/// is reported before the teardown.
pub proof fn what_has_to_come_first_does(serves_metrics: bool)
    ensures
        comes_before(serves_metrics, Stage::OpenRegistry, Stage::OpenPorts),
        comes_before(serves_metrics, Stage::CheckSources, Stage::Run),
        comes_before(serves_metrics, Stage::OpenEras, Stage::OpenPorts),
        comes_before(serves_metrics, Stage::BuildMetrics, Stage::OpenPorts),
        comes_before(serves_metrics, Stage::PollListings, Stage::Run),
        comes_before(serves_metrics, Stage::Run, Stage::ShutDown),
        comes_before(serves_metrics, Stage::ShutDown, Stage::Report),
{
    let all = stages(serves_metrics);
    let late: int = if serves_metrics {
        9
    } else {
        8
    };
    assert(all[5] == Stage::OpenRegistry && all[6] == Stage::OpenPorts);
    assert(all[1] == Stage::CheckSources && all[4] == Stage::OpenEras && all[3]
        == Stage::BuildMetrics);
    assert(all[late + 1] == Stage::PollListings && all[late + 2] == Stage::Run);
    assert(all[late + 3] == Stage::ShutDown && all[late + 4] == Stage::Report);
}

/// A shard's channel is that of the first block that carries it, and of the first
/// block there is where none does.
pub proof fn a_shards_channel_is_its_first_blocks(
    feeds: Seq<Feed>,
    shard: Seq<char>,
    at: int,
    channel_id: u8,
)
    requires
        0 <= at < feeds.len(),
        forall|i: int| 0 <= i < at ==> (#[trigger] feeds[i]).shard@ != shard,
    ensures
        feeds[at].shard@ == shard ==> (is_channel_of(feeds, shard, channel_id) <==> channel_id
            == feeds[at].channel_id),
        at == feeds.len() - 1 && feeds[at].shard@ != shard ==> (is_channel_of(
            feeds,
            shard,
            channel_id,
        ) <==> channel_id == feeds[0].channel_id),
{
    if feeds[at].shard@ == shard {
        assert(carries_first(feeds, shard, at));
        assert forall|other: int| #[trigger] carries_first(feeds, shard, other) implies other
            == at by {
            assert(feeds[other].shard@ == shard);
        }
    } else if at == feeds.len() - 1 {
        assert forall|other: int| !#[trigger] carries_first(feeds, shard, other) by {
            if carries_first(feeds, shard, other) {
                assert(feeds[other].shard@ == shard);
            }
        }
    }
}

/// Of the send paths of one specification the last counts; where there is none,
/// none does.
pub proof fn the_last_of_a_specification_counts(
    paths: Seq<PipelineView>,
    spec: FeedSpec,
    at: int,
)
    requires
        -1 <= at < paths.len(),
        at >= 0 ==> paths[at].spec == spec,
        forall|i: int| at < i < paths.len() ==> (#[trigger] paths[i]).spec != spec,
    ensures
        at >= 0 ==> last_of(paths, spec) == Some(paths[at]),
        at < 0 ==> last_of(paths, spec) is None,
    decreases paths.len(),
{
    if paths.len() > 0 {
        assert(paths.last() == paths[paths.len() - 1]);
        if at < paths.len() - 1 {
            assert(paths[paths.len() - 1].spec != spec);
            assert forall|i: int| at < i < paths.drop_last().len() implies (
            #[trigger] paths.drop_last()[i]).spec != spec by {
                assert(paths.drop_last()[i] == paths[i]);
            }
            the_last_of_a_specification_counts(paths.drop_last(), spec, at);
        }
    }
}

/// A block carries a shard exactly where it names it, and behind those before it.
pub proof fn a_block_carries_the_shard_it_names(feeds: Seq<Feed>, next: Feed, shard: Seq<char>)
    ensures
        carrying(Seq::empty(), shard).len() == 0,
        next.shard@ == shard ==> carrying(feeds.push(next), shard) == carrying(feeds, shard).push(
            next,
        ),
        next.shard@ != shard ==> carrying(feeds.push(next), shard) == carrying(feeds, shard),
{
    assert(feeds.push(next).drop_last() =~= feeds);
}

/// Each part of a composed shard is what the last block of its specification was
/// opened as, and it is there exactly where one of the shard's blocks has that
/// specification; and every block of the shard was opened.
pub proof fn a_composed_shard_is_its_blocks<O: PortOpener>(
    ports: &O,
    feeds: Seq<Feed>,
    name: Seq<char>,
    shard: ShardView,
    at: int,
)
    requires
        is_composed(ports, feeds, name, shard),
        0 <= at < carrying(feeds, name).len(),
    ensures
        shard.name == name,
        ({
            let block = carrying(feeds, name)[at];
            let part = if block.spec == FeedSpec::TopOfBook {
                shard.top_of_book
            } else {
                shard.market_by_price
            };
            &&& part is Some
            &&& exists|opened: Ports| #[trigger]
                call_ensures(O::open, (ports, &block), Ok(opened))
            &&& (forall|i: int|
                at < i < carrying(feeds, name).len() ==> (#[trigger] carrying(feeds, name)[i]).spec
                    != block.spec) ==> exists|opened: Ports|
                call_ensures(O::open, (ports, &block), Ok(opened)) && part == Some(
                    #[trigger] pipeline::composed(block, opened),
                )
        }),
        (forall|i: int|
            0 <= i < carrying(feeds, name).len() ==> (#[trigger] carrying(feeds, name)[i]).spec
                != FeedSpec::TopOfBook) ==> shard.top_of_book is None,
        (forall|i: int|
            0 <= i < carrying(feeds, name).len() ==> (#[trigger] carrying(feeds, name)[i]).spec
                != FeedSpec::MarketByPrice) ==> shard.market_by_price is None,
{
    let blocks = carrying(feeds, name);
    let paths = choose|paths: Seq<PipelineView>| #[trigger]
        opened_as(ports, blocks, paths) && shard.top_of_book == last_of(paths, FeedSpec::TopOfBook)
            && shard.market_by_price == last_of(paths, FeedSpec::MarketByPrice);
    assert forall|i: int| 0 <= i < blocks.len() implies (#[trigger] paths[i]).spec
        == blocks[i].spec by {
        assert(opened_so(ports, blocks[i], paths[i]));
    }
    let block = blocks[at];
    assert(opened_so(ports, block, paths[at]));
    let last = last_index(paths, block.spec, paths.len() as int);
    the_last_of_a_specification_counts(paths, block.spec, last);
    if forall|i: int| at < i < blocks.len() ==> (#[trigger] blocks[i]).spec != block.spec {
        if last > at {
            assert(blocks[last].spec == block.spec);
        }
        assert(last == at);
    }
    if forall|i: int| 0 <= i < blocks.len() ==> (#[trigger] blocks[i]).spec != FeedSpec::TopOfBook {
        assert forall|i: int| -1 < i < paths.len() implies (#[trigger] paths[i]).spec
            != FeedSpec::TopOfBook by {
            assert(blocks[i].spec != FeedSpec::TopOfBook);
        }
        the_last_of_a_specification_counts(paths, FeedSpec::TopOfBook, -1);
    }
    if forall|i: int| 0 <= i < blocks.len() ==> (#[trigger] blocks[i]).spec
        != FeedSpec::MarketByPrice {
        assert forall|i: int| -1 < i < paths.len() implies (#[trigger] paths[i]).spec
            != FeedSpec::MarketByPrice by {
            assert(blocks[i].spec != FeedSpec::MarketByPrice);
        }
        the_last_of_a_specification_counts(paths, FeedSpec::MarketByPrice, -1);
    }
}

/// The last place a specification has among the first send paths.
proof fn last_index(paths: Seq<PipelineView>, spec: FeedSpec, count: int) -> (at: int)
    requires
        0 <= count <= paths.len(),
    ensures
        -1 <= at < count,
        at >= 0 ==> paths[at].spec == spec,
        forall|i: int| at < i < count ==> (#[trigger] paths[i]).spec != spec,
    decreases count,
{
    if count == 0 {
        -1
    } else if paths[count - 1].spec == spec {
        count - 1
    } else {
        last_index(paths, spec, count - 1)
    }
}

/// A composition that is refused went through the shards in order and through the
/// blocks of each in order: whatever stands ahead of what was refused was opened.
pub proof fn a_composition_is_refused_at_the_first_fault<O: PortOpener>(
    ports: &O,
    feeds: Seq<Feed>,
    shards: Seq<ShardName>,
    at: int,
    error: StartupError,
    ahead: int,
    block: int,
)
    requires
        refused_shard(ports, feeds, shards, at, error),
        0 <= ahead < at,
        0 <= block < carrying(feeds, shards[ahead]@).len(),
    ensures
        at < shards.len(),
        carrying(feeds, shards[ahead]@).len() > 0,
        exists|opened: Ports| #[trigger]
            call_ensures(O::open, (ports, &carrying(feeds, shards[ahead]@)[block]), Ok(opened)),
{
    assert(opens_shard(ports, feeds, shards[ahead]@));
    assert(opens(ports, carrying(feeds, shards[ahead]@)[block]));
}

/// A shard no block carries is refused by name, and otherwise what is refused is a
/// block of it, as its opening was, with those ahead of it opened.
pub proof fn a_composition_is_refused_as_its_block_was<O: PortOpener>(
    ports: &O,
    feeds: Seq<Feed>,
    shards: Seq<ShardName>,
    at: int,
    error: StartupError,
) -> (block: int)
    requires
        refused_shard(ports, feeds, shards, at, error),
    ensures
        0 <= at < shards.len(),
        carrying(feeds, shards[at]@).len() == 0 ==> error@ == (Refusal::ShardWithNoFeed {
            shard: shards[at]@,
        }),
        carrying(feeds, shards[at]@).len() > 0 ==> {
            let blocks = carrying(feeds, shards[at]@);
            &&& 0 <= block < blocks.len()
            &&& call_ensures(O::open, (ports, &blocks[block]), Err(error))
            &&& forall|i: int| 0 <= i < block ==> opens(ports, #[trigger] blocks[i])
        },
{
    if carrying(feeds, shards[at]@).len() > 0 {
        choose|i: int| #[trigger] refused_block(ports, carrying(feeds, shards[at]@), i, error)
    } else {
        0
    }
}

/// Every port a block names is opened for the role it is named for, in the block's
/// group, and takes the process with it; and nothing else is opened.
pub proof fn each_port_is_opened_for_its_role(feed: Feed)
    ensures
        planned(feed).len() == if feed.snapshot_port is Some {
            3int
        } else {
            2
        },
        forall|i: int|
            0 <= i < planned(feed).len() ==> (#[trigger] planned(feed)[i]).group == feed.group
                && planned(feed)[i].scope == FailureScope::Process,
        planned(feed)[0].port_role == PortRole::Mktdata,
        planned(feed)[0].port == feed.mktdata_port,
        planned(feed)[1].port_role == PortRole::Refdata,
        planned(feed)[1].port == feed.refdata_port,
        feed.snapshot_port matches Some(port) ==> planned(feed)[2].port_role == PortRole::Snapshot
            && planned(feed)[2].port == port,
{
}

/// An operator is told of a copy whose datagrams it holds, and where it goes.
pub proof fn an_operator_is_told_of_a_copy(spec: FeedSpec, role: PortRole, socket: Seq<char>)
    ensures
        error::stand_in_turn(spec.name(), role.name(), tee_said(spec, role, socket)),
        error::stand_in_turn(role.name(), socket, tee_said(spec, role, socket)),
{
    let said = tee_said(spec, role, socket);
    let none = Seq::<char>::empty();
    assert(said =~= "fanning out "@ + spec.name() + " "@ + role.name() + (" datagrams to "@
        + socket));
    assert(said =~= ("fanning out "@ + spec.name() + " "@) + role.name() + " datagrams to "@
        + socket + none);
}

/// An operator is told how long a pass is where there is one, and is told of
/// snapshots that nothing paces exactly where a feed could send them.
pub proof fn an_operator_is_told_of_the_snapshots(length: Duration, feeds: Seq<Feed>)
    ensures
        snapshot_said(Some(length), feeds) matches Some(said) && registry::stands_in(
            duration::shown(length@),
            said,
        ),
        snapshot_said(None, feeds) is Some <==> exists|i: int|
            0 <= i < feeds.len() && (#[trigger] feeds[i]).snapshot_port is Some,
{
    let said = snapshot_said(Some(length), feeds)->0;
    let none = Seq::<char>::empty();
    assert(said =~= "snapshot rotation: one pass over the published set every "@ + duration::shown(
        length@,
    ) + none);
}

/// A publisher reads every connection that was built, or a recording as one.
pub proof fn what_is_read_is_what_was_built(built: Seq<Seq<char>>, path: String, connection: String)
    ensures
        read_connections(Reads::Live, built) == built,
        read_connections(Reads::Recording { path, connection }, built).len() == 1,
        read_connections(Reads::Recording { path, connection }, built)[0] == connection@,
{
}

/// Every stage is gone through once and behind the one named before it here; the
/// metrics are served exactly where that is asked.
pub proof fn every_stage_has_its_place(serves_metrics: bool)
    ensures
        stages(serves_metrics).len() == if serves_metrics {
            14int
        } else {
            13
        },
        stages(serves_metrics).no_duplicates(),
        stages(serves_metrics).contains(Stage::ServeMetrics) <==> serves_metrics,
        comes_before(serves_metrics, Stage::OpenVenue, Stage::CheckSources),
        comes_before(serves_metrics, Stage::CheckSources, Stage::ChooseReads),
        comes_before(serves_metrics, Stage::ChooseReads, Stage::BuildMetrics),
        comes_before(serves_metrics, Stage::BuildMetrics, Stage::OpenEras),
        comes_before(serves_metrics, Stage::OpenEras, Stage::OpenRegistry),
        comes_before(serves_metrics, Stage::OpenRegistry, Stage::OpenPorts),
        comes_before(serves_metrics, Stage::OpenPorts, Stage::Notices),
        serves_metrics ==> comes_before(serves_metrics, Stage::Notices, Stage::ServeMetrics),
        serves_metrics ==> comes_before(serves_metrics, Stage::ServeMetrics, Stage::BuildRuntime),
        comes_before(serves_metrics, Stage::Notices, Stage::BuildRuntime),
        comes_before(serves_metrics, Stage::BuildRuntime, Stage::PollListings),
        comes_before(serves_metrics, Stage::PollListings, Stage::Run),
        comes_before(serves_metrics, Stage::Run, Stage::ShutDown),
        comes_before(serves_metrics, Stage::ShutDown, Stage::Report),
{
    let all = stages(serves_metrics);
    let late: int = if serves_metrics {
        9
    } else {
        8
    };
    assert(all[0] == Stage::OpenVenue && all[1] == Stage::CheckSources && all[2]
        == Stage::ChooseReads && all[3] == Stage::BuildMetrics);
    assert(all[4] == Stage::OpenEras && all[5] == Stage::OpenRegistry && all[6] == Stage::OpenPorts
        && all[7] == Stage::Notices);
    if serves_metrics {
        assert(all[8] == Stage::ServeMetrics);
    }
    assert(all[late] == Stage::BuildRuntime && all[late + 1] == Stage::PollListings && all[late + 2]
        == Stage::Run && all[late + 3] == Stage::ShutDown && all[late + 4] == Stage::Report);
}

} // verus!
