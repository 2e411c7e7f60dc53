//! The send paths, shard by shard.
//!
//! A shard is a partition of the instrument set and a channel instance is the
//! unit of sequencing, so a shard carrying both specifications is two channel
//! instances over one published set. An event resolves to a shard's position,
//! and the position is the one the document states its shards in.

use vstd::prelude::*;
use vstd::string::*;

use crate::config::ShardName;
use crate::pipeline::{EgressMessageType, FeedPipeline, PipelineView, SinkRef, Step};

verus! {

/// One shard's send paths: a channel instance per feed specification it
/// carries, and at least one.
#[derive(Debug)]
pub struct ShardFeeds {
    name: ShardName,
    top_of_book: Option<FeedPipeline>,
    market_by_price: Option<FeedPipeline>,
}

/// A shard's send paths as values to reason about.
pub struct ShardView {
    pub name: Seq<char>,
    pub top_of_book: Option<PipelineView>,
    pub market_by_price: Option<PipelineView>,
}

/// Steps of a send path there may be.
pub open spec fn steps_of(
    path: Option<PipelineView>,
    steps: spec_fn(PipelineView) -> Seq<Step>,
) -> Seq<Step> {
    match path {
        Some(found) => steps(found),
        None => Seq::empty(),
    }
}

/// A send path there may be, changed.
pub open spec fn changed(
    path: Option<PipelineView>,
    change: spec_fn(PipelineView) -> PipelineView,
) -> Option<PipelineView> {
    match path {
        Some(found) => Some(change(found)),
        None => None,
    }
}

impl ShardView {
    /// Whether there is a send path at all.
    pub open spec fn carries_a_feed(self) -> bool {
        self.top_of_book is Some || self.market_by_price is Some
    }

    /// The channels this shard publishes on: one per send path.
    pub open spec fn channel_ids(self) -> Seq<u8> {
        (match self.top_of_book {
            Some(path) => seq![path.channel_id],
            None => Seq::empty(),
        }) + (match self.market_by_price {
            Some(path) => seq![path.channel_id],
            None => Seq::empty(),
        })
    }

    /// A member whose failure darkens the publisher, on the first send path
    /// that has one.
    pub open spec fn dark(self) -> Option<String> {
        match self.top_of_book {
            Some(path) if path.dark() is Some => path.dark(),
            _ => match self.market_by_price {
                Some(path) => path.dark(),
                None => None,
            },
        }
    }

    /// Every member that is no longer sent to.
    pub open spec fn dropped(self) -> Seq<SinkRef> {
        (match self.top_of_book {
            Some(path) => path.dropped(),
            None => Seq::empty(),
        }) + (match self.market_by_price {
            Some(path) => path.dropped(),
            None => Seq::empty(),
        })
    }

    /// Every member whose route is down.
    pub open spec fn path_down(self) -> Seq<SinkRef> {
        (match self.top_of_book {
            Some(path) => path.path_down(),
            None => Seq::empty(),
        }) + (match self.market_by_price {
            Some(path) => path.path_down(),
            None => Seq::empty(),
        })
    }

    /// Steps of both send paths, top-of-book first.
    pub open spec fn both(self, steps: spec_fn(PipelineView) -> Seq<Step>) -> Seq<Step> {
        steps_of(self.top_of_book, steps) + steps_of(self.market_by_price, steps)
    }

    /// Both send paths changed.
    pub open spec fn both_changed(
        self,
        change: spec_fn(PipelineView) -> PipelineView,
    ) -> ShardView {
        ShardView {
            name: self.name,
            top_of_book: changed(self.top_of_book, change),
            market_by_price: changed(self.market_by_price, change),
        }
    }
}

/// A send path there may be, as values to reason about.
pub open spec fn pipeline_view(pipeline: Option<FeedPipeline>) -> Option<PipelineView> {
    match pipeline {
        Some(path) => Some(path@),
        None => None,
    }
}

impl View for ShardFeeds {
    type V = ShardView;

    closed spec fn view(&self) -> ShardView {
        ShardView {
            name: self.name@,
            top_of_book: pipeline_view(self.top_of_book),
            market_by_price: pipeline_view(self.market_by_price),
        }
    }
}

/// The name of a shard with these send paths: the first one's.
pub open spec fn shard_named(
    top_of_book: Option<PipelineView>,
    market_by_price: Option<PipelineView>,
) -> Option<Seq<char>> {
    match top_of_book {
        Some(path) => Some(path.shard),
        None => match market_by_price {
            Some(path) => Some(path.shard),
            None => None,
        },
    }
}

impl ShardFeeds {
    /// One shard's send paths, from the blocks that composed for it. `None`
    /// when neither specification composed.
    pub fn new(top_of_book: Option<FeedPipeline>, market_by_price: Option<FeedPipeline>) -> (shard:
        Option<Self>)
        ensures
            match shard {
                Some(feeds) => shard_named(
                    pipeline_view(top_of_book),
                    pipeline_view(market_by_price),
                ) == Some(feeds@.name) && feeds@.top_of_book == pipeline_view(top_of_book)
                    && feeds@.market_by_price == pipeline_view(market_by_price)
                    && feeds@.carries_a_feed(),
                None => top_of_book is None && market_by_price is None,
            },
    {
        let name: ShardName = match &top_of_book {
            Some(path) => path.shard().clone(),
            None => match &market_by_price {
                Some(path) => path.shard().clone(),
                None => {
                    return None;
                },
            },
        };
        Some(Self { name, top_of_book, market_by_price })
    }

    /// The shard these send paths carry.
    pub fn name(&self) -> (name: &str)
        ensures
            name@ == self@.name,
    {
        self.name.as_str()
    }

    /// This shard's top-of-book send path, if it carries one.
    pub fn top_of_book(&self) -> (path: Option<&FeedPipeline>)
        ensures
            match path {
                Some(found) => self@.top_of_book == Some(found@),
                None => self@.top_of_book is None,
            },
    {
        self.top_of_book.as_ref()
    }

    /// This shard's market-by-price send path, if it carries one.
    pub fn market_by_price(&self) -> (path: Option<&FeedPipeline>)
        ensures
            match path {
                Some(found) => self@.market_by_price == Some(found@),
                None => self@.market_by_price is None,
            },
    {
        self.market_by_price.as_ref()
    }

    /// This shard's top-of-book send path, to send on.
    pub fn top_of_book_mut(&mut self) -> (path: Option<&mut FeedPipeline>)
        ensures
            match path {
                Some(found) => {
                    &&& old(self)@.top_of_book == Some((*found)@)
                    &&& final(self)@ == (ShardView {
                        top_of_book: Some((*final(found))@),
                        ..old(self)@
                    })
                },
                None => old(self)@.top_of_book is None && *final(self) == *old(self),
            },
    {
        match &mut self.top_of_book {
            Some(found) => Some(found),
            None => None,
        }
    }

    /// This shard's market-by-price send path, to send on.
    pub fn market_by_price_mut(&mut self) -> (path: Option<&mut FeedPipeline>)
        ensures
            match path {
                Some(found) => {
                    &&& old(self)@.market_by_price == Some((*found)@)
                    &&& final(self)@ == (ShardView {
                        market_by_price: Some((*final(found))@),
                        ..old(self)@
                    })
                },
                None => old(self)@.market_by_price is None && *final(self) == *old(self),
            },
    {
        match &mut self.market_by_price {
            Some(found) => Some(found),
            None => None,
        }
    }

    /// The channels this shard publishes on: one per block it carries.
    pub fn channel_ids(&self) -> (ids: Vec<u8>)
        ensures
            ids@ == self@.channel_ids(),
    {
        let mut ids: Vec<u8> = Vec::new();
        if let Some(path) = &self.top_of_book {
            ids.push(path.channel_id());
        }
        if let Some(path) = &self.market_by_price {
            ids.push(path.channel_id());
        }
        proof {
            assert(ids@ =~= self@.channel_ids());
        }
        ids
    }

    /// A dropped fan-out member whose failure darkens this shard, on either
    /// feed and any port role.
    pub fn dark_transmitter(&self) -> (dark: Option<&String>)
        ensures
            match dark {
                Some(name) => self@.dark() == Some(*name),
                None => self@.dark() is None,
            },
    {
        if let Some(path) = &self.top_of_book {
            if let Some(name) = path.dark_transmitter() {
                return Some(name);
            }
        }
        match &self.market_by_price {
            Some(path) => path.dark_transmitter(),
            None => None,
        }
    }

    /// Every fan-out member of this shard that is no longer sent to.
    pub fn dropped_sinks(&self) -> (sinks: Vec<SinkRef>)
        ensures
            sinks@ == self@.dropped(),
    {
        let mut sinks: Vec<SinkRef> = Vec::new();
        if let Some(path) = &self.top_of_book {
            let mut more: Vec<SinkRef> = path.dropped_sinks();
            sinks.append(&mut more);
        }
        if let Some(path) = &self.market_by_price {
            let mut more: Vec<SinkRef> = path.dropped_sinks();
            sinks.append(&mut more);
        }
        proof {
            assert(sinks@ =~= self@.dropped());
        }
        sinks
    }

    /// Every fan-out member of this shard whose route is down.
    pub fn path_down_sinks(&self) -> (sinks: Vec<SinkRef>)
        ensures
            sinks@ == self@.path_down(),
    {
        let mut sinks: Vec<SinkRef> = Vec::new();
        if let Some(path) = &self.top_of_book {
            let mut more: Vec<SinkRef> = path.path_down_sinks();
            sinks.append(&mut more);
        }
        if let Some(path) = &self.market_by_price {
            let mut more: Vec<SinkRef> = path.path_down_sinks();
            sinks.append(&mut more);
        }
        proof {
            assert(sinks@ =~= self@.path_down());
        }
        sinks
    }

    /// Everything this shard's send paths owe a tick. The pacer is drained once
    /// for the shard, so both carry the same definitions.
    pub fn tick(&mut self, definitions: usize, now_mono_ns: u64, now_unix_ns: u64) -> (steps: Vec<
        Step,
    >)
        ensures
            steps@ == old(self)@.both(
                |path: PipelineView| path.tick_steps(definitions, now_mono_ns, now_unix_ns),
            ),
            final(self)@ == old(self)@.both_changed(
                |path: PipelineView| path.after_tick(now_mono_ns),
            ),
    {
        let mut steps: Vec<Step> = Vec::new();
        if let Some(path) = &mut self.top_of_book {
            steps = path.tick(definitions, now_mono_ns, now_unix_ns);
        }
        if let Some(path) = &mut self.market_by_price {
            let mut more: Vec<Step> = path.tick(definitions, now_mono_ns, now_unix_ns);
            steps.append(&mut more);
        }
        proof {
            assert(steps@ =~= old(self)@.both(
                |path: PipelineView| path.tick_steps(definitions, now_mono_ns, now_unix_ns),
            ));
        }
        steps
    }

    /// Send the last manifest on both send paths.
    pub fn send_manifests(&mut self, now_mono_ns: u64, now_unix_ns: u64) -> (steps: Vec<Step>)
        ensures
            steps@ == old(self)@.both(|path: PipelineView| path.manifest_steps(now_unix_ns)),
            final(self)@ == old(self)@.both_changed(
                |path: PipelineView| path.after_manifest(now_mono_ns),
            ),
    {
        let mut steps: Vec<Step> = Vec::new();
        if let Some(path) = &mut self.top_of_book {
            steps = path.send_manifest(now_mono_ns, now_unix_ns);
        }
        if let Some(path) = &mut self.market_by_price {
            let mut more: Vec<Step> = path.send_manifest(now_mono_ns, now_unix_ns);
            steps.append(&mut more);
        }
        proof {
            assert(steps@ =~= old(self)@.both(
                |path: PipelineView| path.manifest_steps(now_unix_ns),
            ));
        }
        steps
    }

    /// Send the end of the session on both send paths.
    pub fn send_ends_of_session(&mut self, now_mono_ns: u64, now_unix_ns: u64) -> (steps: Vec<Step>)
        ensures
            steps@ == old(self)@.both(
                |path: PipelineView|
                    path.mktdata_steps(EgressMessageType::EndOfSession, now_unix_ns),
            ),
            final(self)@ == old(self)@.both_changed(
                |path: PipelineView| path.after_mktdata(now_mono_ns),
            ),
    {
        let mut steps: Vec<Step> = Vec::new();
        if let Some(path) = &mut self.top_of_book {
            steps = path.send_end_of_session(now_mono_ns, now_unix_ns);
        }
        if let Some(path) = &mut self.market_by_price {
            let mut more: Vec<Step> = path.send_end_of_session(now_mono_ns, now_unix_ns);
            steps.append(&mut more);
        }
        proof {
            assert(steps@ =~= old(self)@.both(
                |path: PipelineView|
                    path.mktdata_steps(EgressMessageType::EndOfSession, now_unix_ns),
            ));
        }
        steps
    }

    /// Send whatever is still open on either send path.
    pub fn flush(&self, now_unix_ns: u64) -> (steps: Vec<Step>)
        ensures
            steps@ == self@.both(|path: PipelineView| path.flush_steps(now_unix_ns)),
    {
        let mut steps: Vec<Step> = Vec::new();
        if let Some(path) = &self.top_of_book {
            steps = path.flush(now_unix_ns);
        }
        if let Some(path) = &self.market_by_price {
            let mut more: Vec<Step> = path.flush(now_unix_ns);
            steps.append(&mut more);
        }
        proof {
            assert(steps@ =~= self@.both(|path: PipelineView| path.flush_steps(now_unix_ns)));
        }
        steps
    }
}

/// The send paths this publisher operates: one entry per shard, in the order
/// the document states them.
#[derive(Debug)]
pub struct Feeds {
    shards: Vec<ShardFeeds>,
}

impl View for Feeds {
    type V = Seq<ShardView>;

    closed spec fn view(&self) -> Seq<ShardView> {
        Seq::new(self.shards@.len(), |i: int| self.shards@[i]@)
    }
}

/// A shard's top-of-book send path, where there is such a shard.
pub open spec fn top_of_book_on(shards: Seq<ShardView>, shard: usize) -> Option<PipelineView> {
    if shard < shards.len() {
        shards[shard as int].top_of_book
    } else {
        None
    }
}

/// A shard's market-by-price send path, where there is such a shard.
pub open spec fn market_by_price_on(shards: Seq<ShardView>, shard: usize) -> Option<PipelineView> {
    if shard < shards.len() {
        shards[shard as int].market_by_price
    } else {
        None
    }
}

/// Whether any shard carries a top-of-book feed.
pub open spec fn any_top_of_book(shards: Seq<ShardView>) -> bool {
    exists|i: int| 0 <= i < shards.len() && (#[trigger] shards[i]).top_of_book is Some
}

/// Whether any shard carries a market-by-price feed.
pub open spec fn any_market_by_price(shards: Seq<ShardView>) -> bool {
    exists|i: int| 0 <= i < shards.len() && (#[trigger] shards[i]).market_by_price is Some
}

/// The first shard's darkened transmitter, of the first `count` shards.
pub open spec fn dark_among(shards: Seq<ShardView>, count: nat) -> Option<String>
    decreases count,
{
    if count == 0 {
        None
    } else {
        match dark_among(shards, (count - 1) as nat) {
            Some(name) => Some(name),
            None => shards[count - 1].dark(),
        }
    }
}

/// Every member that is no longer sent to, of the first `count` shards.
pub open spec fn dropped_among(shards: Seq<ShardView>, count: nat) -> Seq<SinkRef>
    decreases count,
{
    if count == 0 {
        Seq::empty()
    } else {
        dropped_among(shards, (count - 1) as nat) + shards[count - 1].dropped()
    }
}

/// Every member whose route is down, of the first `count` shards.
pub open spec fn path_down_among(shards: Seq<ShardView>, count: nat) -> Seq<SinkRef>
    decreases count,
{
    if count == 0 {
        Seq::empty()
    } else {
        path_down_among(shards, (count - 1) as nat) + shards[count - 1].path_down()
    }
}

/// Whether some shard publishes on a channel.
pub open spec fn publishes_on(shards: Seq<ShardView>, id: u8) -> bool {
    exists|i: int| 0 <= i < shards.len() && (#[trigger] shards[i]).channel_ids().contains(id)
}

impl Feeds {
    /// No shard.
    pub fn new() -> (feeds: Self)
        ensures
            feeds@ == Seq::<ShardView>::empty(),
    {
        let feeds: Self = Self { shards: Vec::new() };
        proof {
            assert(feeds@ =~= Seq::<ShardView>::empty());
        }
        feeds
    }

    /// Append one shard's send paths, at the next shard index.
    pub fn push(&mut self, shard: ShardFeeds)
        ensures
            final(self)@ == old(self)@.push(shard@),
    {
        self.shards.push(shard);
        proof {
            assert(self@ =~= old(self)@.push(shard@));
        }
    }

    /// How many shards this publisher carries.
    pub fn shard_count(&self) -> (count: usize)
        ensures
            count == self@.len(),
    {
        self.shards.len()
    }

    /// One shard's send paths. `None` past the last shard.
    pub fn shard(&self, shard: usize) -> (feeds: Option<&ShardFeeds>)
        ensures
            match feeds {
                Some(found) => shard < self@.len() && found@ == self@[shard as int],
                None => shard >= self@.len(),
            },
    {
        if shard < self.shards.len() {
            Some(&self.shards[shard])
        } else {
            None
        }
    }

    /// One shard's send paths, to send on.
    pub fn shard_mut(&mut self, shard: usize) -> (feeds: Option<&mut ShardFeeds>)
        ensures
            match feeds {
                Some(found) => {
                    &&& shard < old(self)@.len()
                    &&& (*found)@ == old(self)@[shard as int]
                    &&& final(self)@ == old(self)@.update(shard as int, (*final(found))@)
                },
                None => shard >= old(self)@.len() && *final(self) == *old(self),
            },
    {
        if shard < self.shards.len() {
            Some(&mut self.shards[shard])
        } else {
            None
        }
    }

    /// The name of the shard at an index. `None` past the last shard.
    pub fn shard_name(&self, shard: usize) -> (name: Option<&str>)
        ensures
            match name {
                Some(found) => shard < self@.len() && found@ == self@[shard as int].name,
                None => shard >= self@.len(),
            },
    {
        if shard < self.shards.len() {
            Some(self.shards[shard].name())
        } else {
            None
        }
    }

    /// One shard's top-of-book send path, if there is one.
    pub fn top_of_book_on(&self, shard: usize) -> (path: Option<&FeedPipeline>)
        ensures
            match path {
                Some(found) => top_of_book_on(self@, shard) == Some(found@),
                None => top_of_book_on(self@, shard) is None,
            },
    {
        match self.shard(shard) {
            Some(feeds) => feeds.top_of_book(),
            None => None,
        }
    }

    /// One shard's market-by-price send path, if there is one.
    pub fn market_by_price_on(&self, shard: usize) -> (path: Option<&FeedPipeline>)
        ensures
            match path {
                Some(found) => market_by_price_on(self@, shard) == Some(found@),
                None => market_by_price_on(self@, shard) is None,
            },
    {
        match self.shard(shard) {
            Some(feeds) => feeds.market_by_price(),
            None => None,
        }
    }

    /// One shard's top-of-book send path, to send on.
    pub fn top_of_book_on_mut(&mut self, shard: usize) -> (path: Option<&mut FeedPipeline>)
        ensures
            match path {
                Some(found) => {
                    &&& top_of_book_on(old(self)@, shard) == Some((*found)@)
                    &&& final(self)@ == old(self)@.update(
                        shard as int,
                        ShardView {
                            top_of_book: Some((*final(found))@),
                            ..old(self)@[shard as int]
                        },
                    )
                },
                None => top_of_book_on(old(self)@, shard) is None && final(self)@ == old(self)@,
            },
    {
        match self.shard_mut(shard) {
            Some(feeds) => feeds.top_of_book_mut(),
            None => None,
        }
    }

    /// One shard's market-by-price send path, to send on.
    pub fn market_by_price_on_mut(&mut self, shard: usize) -> (path: Option<&mut FeedPipeline>)
        ensures
            match path {
                Some(found) => {
                    &&& market_by_price_on(old(self)@, shard) == Some((*found)@)
                    &&& final(self)@ == old(self)@.update(
                        shard as int,
                        ShardView {
                            market_by_price: Some((*final(found))@),
                            ..old(self)@[shard as int]
                        },
                    )
                },
                None => market_by_price_on(old(self)@, shard) is None && final(self)@ == old(
                    self,
                )@,
            },
    {
        match self.shard_mut(shard) {
            Some(feeds) => feeds.market_by_price_mut(),
            None => None,
        }
    }

    /// Whether any shard carries a top-of-book feed.
    pub fn carries_top_of_book(&self) -> (carries: bool)
        ensures
            carries == any_top_of_book(self@),
    {
        let mut at: usize = 0;
        while at < self.shards.len()
            invariant
                at <= self.shards.len(),
                forall|i: int| 0 <= i < at ==> (#[trigger] self@[i]).top_of_book is None,
            decreases self.shards.len() - at,
        {
            if self.shards[at].top_of_book().is_some() {
                proof {
                    assert(self@[at as int].top_of_book is Some);
                }
                return true;
            }
            at += 1;
        }
        false
    }

    /// Whether any shard carries a market-by-price feed.
    pub fn carries_market_by_price(&self) -> (carries: bool)
        ensures
            carries == any_market_by_price(self@),
    {
        let mut at: usize = 0;
        while at < self.shards.len()
            invariant
                at <= self.shards.len(),
                forall|i: int| 0 <= i < at ==> (#[trigger] self@[i]).market_by_price is None,
            decreases self.shards.len() - at,
        {
            if self.shards[at].market_by_price().is_some() {
                proof {
                    assert(self@[at as int].market_by_price is Some);
                }
                return true;
            }
            at += 1;
        }
        false
    }

    /// Every enabled feed's channel, across every shard, in order and each
    /// once.
    pub fn channel_ids(&self) -> (ids: Vec<u8>)
        ensures
            forall|i: int, j: int| 0 <= i < j < ids@.len() ==> ids@[i] < ids@[j],
            forall|id: u8| #[trigger] ids@.contains(id) <==> publishes_on(self@, id),
    {
        let mut ids: Vec<u8> = Vec::new();
        let mut id: u8 = 0;
        loop
            invariant_except_break
                forall|i: int, j: int| 0 <= i < j < ids@.len() ==> ids@[i] < ids@[j],
                forall|i: int| 0 <= i < ids@.len() ==> ids@[i] < id,
                forall|any: u8|
                    any < id ==> (#[trigger] ids@.contains(any) <==> publishes_on(self@, any)),
            ensures
                forall|i: int, j: int| 0 <= i < j < ids@.len() ==> ids@[i] < ids@[j],
                forall|any: u8| #[trigger] ids@.contains(any) <==> publishes_on(self@, any),
            decreases 255 - id,
        {
            let ghost before = ids@;
            if self.publishes(id) {
                ids.push(id);
                proof {
                    assert(ids@[before.len() as int] == id);
                }
            }
            proof {
                assert forall|any: u8| any <= id implies (#[trigger] ids@.contains(any)
                    <==> publishes_on(self@, any)) by {
                    if any < id {
                        assert(before.contains(any) <==> publishes_on(self@, any));
                        if before.contains(any) {
                            let i = choose|i: int| 0 <= i < before.len() && before[i] == any;
                            assert(ids@[i] == any);
                        }
                        if ids@.contains(any) {
                            let i = choose|i: int| 0 <= i < ids@.len() && ids@[i] == any;
                            assert(before[i] == any);
                        }
                    } else if ids@.contains(any) {
                        let i = choose|i: int| 0 <= i < ids@.len() && ids@[i] == any;
                        if i < before.len() {
                            assert(before[i] < id);
                        }
                    }
                }
            }
            if id == 255 {
                break;
            }
            id += 1;
        }
        ids
    }

    fn publishes(&self, id: u8) -> (found: bool)
        ensures
            found == publishes_on(self@, id),
    {
        let mut at: usize = 0;
        while at < self.shards.len()
            invariant
                at <= self.shards.len(),
                forall|i: int|
                    0 <= i < at ==> !(#[trigger] self@[i]).channel_ids().contains(id),
            decreases self.shards.len() - at,
        {
            let own: Vec<u8> = self.shards[at].channel_ids();
            let mut i: usize = 0;
            while i < own.len()
                invariant
                    i <= own.len(),
                    at < self.shards.len(),
                    own@ == self@[at as int].channel_ids(),
                    forall|k: int| 0 <= k < i ==> own@[k] != id,
                decreases own.len() - i,
            {
                if own[i] == id {
                    proof {
                        assert(self@[at as int].channel_ids()[i as int] == id);
                    }
                    return true;
                }
                i += 1;
            }
            at += 1;
        }
        false
    }

    /// The channels one shard publishes on.
    pub fn channel_ids_on(&self, shard: usize) -> (ids: Vec<u8>)
        ensures
            ids@ == if shard < self@.len() {
                self@[shard as int].channel_ids()
            } else {
                Seq::empty()
            },
    {
        match self.shard(shard) {
            Some(feeds) => feeds.channel_ids(),
            None => Vec::new(),
        }
    }

    /// A dropped fan-out member whose failure darkens this publisher, on any
    /// shard, any feed and any port role.
    pub fn dark_transmitter(&self) -> (dark: Option<&String>)
        ensures
            match dark {
                Some(name) => dark_among(self@, self@.len()) == Some(*name),
                None => dark_among(self@, self@.len()) is None,
            },
    {
        let mut at: usize = 0;
        while at < self.shards.len()
            invariant
                at <= self.shards.len(),
                dark_among(self@, at as nat) is None,
            decreases self.shards.len() - at,
        {
            proof {
                the_first_dark_stands(self@, (at + 1) as nat, self@.len());
            }
            if let Some(name) = self.shards[at].dark_transmitter() {
                return Some(name);
            }
            at += 1;
        }
        None
    }

    /// Every fan-out member that is no longer sent to.
    pub fn dropped_sinks(&self) -> (sinks: Vec<SinkRef>)
        ensures
            sinks@ == dropped_among(self@, self@.len()),
    {
        let mut sinks: Vec<SinkRef> = Vec::new();
        let mut at: usize = 0;
        while at < self.shards.len()
            invariant
                at <= self.shards.len(),
                sinks@ == dropped_among(self@, at as nat),
            decreases self.shards.len() - at,
        {
            let mut more: Vec<SinkRef> = self.shards[at].dropped_sinks();
            sinks.append(&mut more);
            at += 1;
        }
        sinks
    }

    /// Every fan-out member whose route is down.
    pub fn path_down_sinks(&self) -> (sinks: Vec<SinkRef>)
        ensures
            sinks@ == path_down_among(self@, self@.len()),
    {
        let mut sinks: Vec<SinkRef> = Vec::new();
        let mut at: usize = 0;
        while at < self.shards.len()
            invariant
                at <= self.shards.len(),
                sinks@ == path_down_among(self@, at as nat),
            decreases self.shards.len() - at,
        {
            let mut more: Vec<SinkRef> = self.shards[at].path_down_sinks();
            sinks.append(&mut more);
            at += 1;
        }
        sinks
    }
}

proof fn the_first_dark_stands(shards: Seq<ShardView>, start: nat, count: nat)
    requires
        start <= count,
    ensures
        dark_among(shards, start) is Some ==> dark_among(shards, count) == dark_among(
            shards,
            start,
        ),
    decreases count,
{
    if start < count {
        the_first_dark_stands(shards, start, (count - 1) as nat);
    }
}

/// Steps that stand together in a longer list, from one place on.
pub open spec fn run_at(all: Seq<Step>, part: Seq<Step>, from: int) -> bool {
    &&& 0 <= from <= all.len() - part.len()
    &&& forall|i: int| 0 <= i < part.len() ==> all[from + i] == #[trigger] part[i]
}

/// Steps that stand together in a longer list, in their order.
pub open spec fn holds_run(all: Seq<Step>, part: Seq<Step>) -> bool {
    exists|from: int| #[trigger] run_at(all, part, from)
}

/// What stands together in a list stands together in a longer one.
pub proof fn a_run_stays(before: Seq<Step>, all: Seq<Step>, after: Seq<Step>, part: Seq<Step>)
    requires
        holds_run(all, part),
    ensures
        holds_run(before + all + after, part),
{
    let from = choose|from: int| #[trigger] run_at(all, part, from);
    let whole = before + all + after;
    assert forall|i: int| 0 <= i < part.len() implies whole[before.len() + from + i]
        == #[trigger] part[i] by {
        assert(all[from + i] == part[i]);
    }
    assert(run_at(whole, part, before.len() + from));
}

/// A list stands in itself.
pub proof fn a_list_is_a_run(all: Seq<Step>)
    ensures
        holds_run(all, all),
{
    assert(run_at(all, all, 0));
}

/// What both send paths of a shard do holds what each of them does, and nothing
/// more; a shard without one of them does only what the other does.
pub proof fn both_paths_have_their_part(
    shard: ShardView,
    steps: spec_fn(PipelineView) -> Seq<Step>,
)
    ensures
        shard.top_of_book matches Some(path) ==> holds_run(shard.both(steps), steps(path)),
        shard.market_by_price matches Some(path) ==> holds_run(shard.both(steps), steps(path)),
        shard.both(steps).len() == (match shard.top_of_book {
            Some(path) => steps(path).len(),
            None => 0,
        }) + (match shard.market_by_price {
            Some(path) => steps(path).len(),
            None => 0,
        }),
{
    let none = Seq::<Step>::empty();
    if let Some(path) = shard.top_of_book {
        let rest = steps_of(shard.market_by_price, steps);
        a_list_is_a_run(steps(path));
        a_run_stays(none, steps(path), rest, steps(path));
        assert(none + steps(path) + rest =~= shard.both(steps));
    }
    if let Some(path) = shard.market_by_price {
        let rest = steps_of(shard.top_of_book, steps);
        a_list_is_a_run(steps(path));
        a_run_stays(rest, steps(path), none, steps(path));
        assert(rest + steps(path) + none =~= shard.both(steps));
    }
}

/// A change to both send paths changes each that is there, and makes none.
pub proof fn both_paths_are_changed(
    shard: ShardView,
    change: spec_fn(PipelineView) -> PipelineView,
)
    ensures
        shard.both_changed(change).name == shard.name,
        shard.top_of_book matches Some(path) ==> shard.both_changed(change).top_of_book == Some(
            change(path),
        ),
        shard.market_by_price matches Some(path) ==> shard.both_changed(change).market_by_price
            == Some(change(path)),
        shard.top_of_book is None ==> shard.both_changed(change).top_of_book is None,
        shard.market_by_price is None ==> shard.both_changed(change).market_by_price is None,
{
}

/// A shard publishes on the channel of each of its send paths and on no other, and
/// takes its name from them.
pub proof fn a_shards_channels_are_its_paths(shard: ShardView, id: u8)
    ensures
        shard.channel_ids().contains(id) <==> (shard.top_of_book is Some
            && shard.top_of_book->0.channel_id == id) || (shard.market_by_price is Some
            && shard.market_by_price->0.channel_id == id),
        shard.channel_ids().len() == (if shard.top_of_book is Some {
            1int
        } else {
            0
        }) + (if shard.market_by_price is Some {
            1int
        } else {
            0
        }),
        shard.top_of_book matches Some(path) ==> shard_named(
            shard.top_of_book,
            shard.market_by_price,
        ) == Some(path.shard),
        shard.top_of_book is None ==> (shard.market_by_price matches Some(path) ==> shard_named(
            shard.top_of_book,
            shard.market_by_price,
        ) == Some(path.shard)),
{
    let ids = shard.channel_ids();
    if shard.top_of_book is Some {
        assert(ids[0] == shard.top_of_book->0.channel_id);
    }
    if shard.market_by_price is Some {
        assert(ids[ids.len() - 1] == shard.market_by_price->0.channel_id);
    }
}

/// A shard's position is the one its send paths are found at, and past the last
/// shard there are none.
pub proof fn a_shard_is_found_at_its_position(shards: Seq<ShardView>, index: usize)
    ensures
        index < shards.len() ==> top_of_book_on(shards, index) == shards[index as int].top_of_book,
        index < shards.len() ==> market_by_price_on(shards, index)
            == shards[index as int].market_by_price,
        index >= shards.len() ==> top_of_book_on(shards, index) is None && market_by_price_on(
            shards,
            index,
        ) is None,
        index < shards.len() && shards[index as int].top_of_book is Some ==> any_top_of_book(shards),
        index < shards.len() && shards[index as int].market_by_price is Some
            ==> any_market_by_price(shards),
{
}

/// A failure that darkens the publisher is seen on whichever send path of whichever
/// shard it is, and nothing is called dark where none is.
pub proof fn a_dark_shard_is_seen(shards: Seq<ShardView>, count: nat, at: int)
    requires
        count <= shards.len(),
    ensures
        0 <= at < count && shards[at].top_of_book is Some && shards[at].top_of_book->0.dark() is Some
            ==> dark_among(shards, count) is Some,
        0 <= at < count && shards[at].market_by_price is Some
            && shards[at].market_by_price->0.dark() is Some ==> dark_among(shards, count) is Some,
        dark_among(shards, count) is Some ==> exists|i: int|
            0 <= i < count && #[trigger] is_dark_with(shards[i], dark_among(shards, count)),
    decreases count,
{
    if count > 0 {
        a_dark_shard_is_seen(shards, (count - 1) as nat, at);
        if dark_among(shards, (count - 1) as nat) is Some {
            let i = choose|i: int|
                0 <= i < count - 1 && #[trigger] is_dark_with(
                    shards[i],
                    dark_among(shards, (count - 1) as nat),
                );
            assert(is_dark_with(shards[i], dark_among(shards, count)));
        } else if dark_among(shards, count) is Some {
            assert(is_dark_with(shards[count - 1], dark_among(shards, count)));
        }
    }
}

/// One of a shard's send paths is dark, and this is what darkens it.
pub open spec fn is_dark_with(shard: ShardView, dark: Option<String>) -> bool {
    ||| shard.top_of_book is Some && shard.top_of_book->0.dark() == dark
    ||| shard.market_by_price is Some && shard.market_by_price->0.dark() == dark
}

/// Every member that any send path of any shard no longer sends to is named, and
/// so is every one whose route is down.
pub proof fn no_shards_members_are_left_out(shards: Seq<ShardView>, count: nat, at: int, i: int)
    requires
        0 <= at < count <= shards.len(),
    ensures
        shards[at].top_of_book matches Some(path) ==> (0 <= i < path.dropped().len()
            ==> dropped_among(shards, count).contains(path.dropped()[i])) && (0 <= i
            < path.path_down().len() ==> path_down_among(shards, count).contains(
            path.path_down()[i],
        )),
        shards[at].market_by_price matches Some(path) ==> (0 <= i < path.dropped().len()
            ==> dropped_among(shards, count).contains(path.dropped()[i])) && (0 <= i
            < path.path_down().len() ==> path_down_among(shards, count).contains(
            path.path_down()[i],
        )),
    decreases count,
{
    let before = (count - 1) as nat;
    let last = shards[count - 1];
    let gone = dropped_among(shards, before);
    let down = path_down_among(shards, before);
    if at < count - 1 {
        no_shards_members_are_left_out(shards, before, at, i);
        assert forall|sink: SinkRef| gone.contains(sink) implies #[trigger] (gone
            + last.dropped()).contains(sink) by {
            let k = choose|k: int| 0 <= k < gone.len() && gone[k] == sink;
            assert((gone + last.dropped())[k] == sink);
        }
        assert forall|sink: SinkRef| down.contains(sink) implies #[trigger] (down
            + last.path_down()).contains(sink) by {
            let k = choose|k: int| 0 <= k < down.len() && down[k] == sink;
            assert((down + last.path_down())[k] == sink);
        }
    } else {
        let all = gone + last.dropped();
        let all_down = down + last.path_down();
        if let Some(path) = last.top_of_book {
            if 0 <= i < path.dropped().len() {
                assert(all[gone.len() + i] == path.dropped()[i]);
            }
            if 0 <= i < path.path_down().len() {
                assert(all_down[down.len() + i] == path.path_down()[i]);
            }
        }
        if let Some(path) = last.market_by_price {
            let ahead = match last.top_of_book {
                Some(top) => top.dropped().len(),
                None => 0,
            };
            let ahead_down = match last.top_of_book {
                Some(top) => top.path_down().len(),
                None => 0,
            };
            if 0 <= i < path.dropped().len() {
                assert(all[gone.len() + ahead + i] == path.dropped()[i]);
            }
            if 0 <= i < path.path_down().len() {
                assert(all_down[down.len() + ahead_down + i] == path.path_down()[i]);
            }
        }
    }
}

/// How many members are named: as many as the send paths have lost.
pub proof fn no_member_is_made_up(shards: Seq<ShardView>, count: nat)
    requires
        0 < count <= shards.len(),
    ensures
        dropped_among(shards, count).len() == dropped_among(shards, (count - 1) as nat).len()
            + (match shards[count - 1].top_of_book {
            Some(path) => path.dropped().len(),
            None => 0,
        }) + (match shards[count - 1].market_by_price {
            Some(path) => path.dropped().len(),
            None => 0,
        }),
        path_down_among(shards, count).len() == path_down_among(shards, (count - 1) as nat).len()
            + (match shards[count - 1].top_of_book {
            Some(path) => path.path_down().len(),
            None => 0,
        }) + (match shards[count - 1].market_by_price {
            Some(path) => path.path_down().len(),
            None => 0,
        }),
        dropped_among(shards, 0).len() == 0,
        path_down_among(shards, 0).len() == 0,
{
}

/// A shard is named as the send paths it was composed of, and there is none without
/// one.
pub proof fn a_shard_is_named_as_its_paths(one: PipelineView, other: PipelineView)
    ensures
        shard_named(None, None) is None,
        shard_named(Some(one), None) == Some(one.shard),
        shard_named(None, Some(one)) == Some(one.shard),
        one.shard == other.shard ==> shard_named(Some(one), Some(other)) == Some(one.shard),
{
}

/// A publisher carries a feed where one of its shards does, and publishes on the
/// channels of its shards.
pub proof fn what_any_shard_carries_is_carried(shards: Seq<ShardView>, at: int, id: u8)
    ensures
        0 <= at < shards.len() && shards[at].top_of_book is Some ==> any_top_of_book(shards),
        0 <= at < shards.len() && shards[at].market_by_price is Some ==> any_market_by_price(
            shards,
        ),
        0 <= at < shards.len() && shards[at].channel_ids().contains(id) ==> publishes_on(
            shards,
            id,
        ),
        !any_top_of_book(Seq::empty()),
        !any_market_by_price(Seq::empty()),
        !publishes_on(Seq::empty(), id),
        (forall|i: int| 0 <= i < shards.len() ==> (#[trigger] shards[i]).top_of_book is None)
            ==> !any_top_of_book(shards),
        (forall|i: int| 0 <= i < shards.len() ==> (#[trigger] shards[i]).market_by_price is None)
            ==> !any_market_by_price(shards),
{
}

} // verus!
