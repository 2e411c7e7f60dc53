//! The composed publisher: the routing, the ticks, the guards and the teardown.
//!
//! Everything here is synchronous and takes its time as an argument. What it
//! decides is which feed carries an event, what each send path owes a tick,
//! which guard ends the process, and the order of the teardown; lowering an
//! event, holding a socket and owning the reference data are others', and their
//! answers come in as arguments.
//!
//! | Event | Top-of-book feed | Market-by-price feed |
//! |---|---|---|
//! | quote | on mktdata | |
//! | trade | on mktdata | on mktdata |
//! | level | | on mktdata |
//! | clear | | on mktdata |
//! | a pulled snapshot | | on snapshot |
//!
//! An event no enabled feed carries is counted and dropped *before* it is
//! lowered: lowering a level spends a number of the instrument's sequence, and a
//! number spent on a message that never reached the wire is a gap every
//! subscriber reads as loss.

use vstd::prelude::*;
use vstd::string::*;

pub mod laws;

use crate::duration;
use crate::duration::Duration;
use crate::event;
use crate::event::{
    Event,
    EventClass,
    EventKind,
    LoweringError,
    LoweringRefusalReason,
    Refusals,
    SnapshotError,
    SnapshotRefusals,
    TimestampKind,
    VenueTimestampKind,
};
use crate::guard;
use crate::guard::{ConsistencyGuard, Exit, ExitReason, IdleGuard, IdleView, Inconsistency};
use crate::instrument::{InstrumentRef, InstrumentTable};
use crate::pipeline::{Action, EgressMessageType, PipelineView, SinkRef, Step};
use crate::rotation;
use crate::rotation::{RotationView, SnapshotRotation};
use crate::shard;
use crate::shard::{Feeds, ShardFeeds, ShardView};

verus! {

/// How often the adapter's listings are drained, in nanoseconds.
pub const LISTING_POLL_NS: u64 = 1_000_000_000;

/// The reference-data owner's counts.
#[derive(Debug, Clone, Copy, PartialEq, Eq, Structural)]
pub struct Counts {
    pub admitted: u64,
    pub delisted: u64,
    pub definitions_emitted: u64,
    pub declined_unrepresentable: u64,
    pub declined_unknown_shard: u64,
    pub declined_shard_restated: u64,
}

impl Counts {
    /// Nothing counted.
    pub open spec fn none() -> Counts {
        Counts {
            admitted: 0,
            delisted: 0,
            definitions_emitted: 0,
            declined_unrepresentable: 0,
            declined_unknown_shard: 0,
            declined_shard_restated: 0,
        }
    }
}

impl Default for Counts {
    fn default() -> (none: Self)
        ensures
            none == Counts::none(),
    {
        Self {
            admitted: 0,
            delisted: 0,
            definitions_emitted: 0,
            declined_unrepresentable: 0,
            declined_unknown_shard: 0,
            declined_shard_restated: 0,
        }
    }
}

/// The composed publisher.
#[derive(Debug)]
pub struct Publisher {
    feeds: Feeds,
    idle: IdleGuard,
    consistency: ConsistencyGuard,
    forwarded: Counts,
    refusals: Refusals,
    snapshot_refusals: SnapshotRefusals,
    unroutable: u64,
    owed: Vec<(InstrumentRef, u64)>,
    payload_recv_ts_ns: Option<u64>,
    venue_timestamp_kind: Option<TimestampKind>,
    last_poll_ns: Option<u64>,
    snapshots: Vec<Option<SnapshotRotation>>,
    snapshot_cursor: usize,
    seeded: bool,
    overruns: u64,
}

/// A publisher as values to reason about.
pub struct PublisherView {
    pub feeds: Seq<ShardView>,
    pub idle: IdleView,
    /// What the consistency guard found first.
    pub consistency: Option<Inconsistency>,
    /// The counts already forwarded to the metrics.
    pub forwarded: Counts,
    pub refusals: Refusals,
    pub snapshot_refusals: SnapshotRefusals,
    /// Events no enabled feed carried.
    pub unroutable: u64,
    /// Instruments announced as discarded, each with the anchor its reset
    /// promised, in the order they were.
    pub owed: Seq<(InstrumentRef, u64)>,
    /// The receive stamp of the payload being mapped.
    pub payload_recv_ts_ns: Option<u64>,
    pub venue_timestamp_kind: Option<TimestampKind>,
    /// When the adapter's listings were last drained.
    pub last_poll_ns: Option<u64>,
    /// One rotation per shard; `None` for a shard that configures no cycle.
    pub snapshots: Seq<Option<RotationView>>,
    /// The shard the search for a due snapshot starts at.
    pub snapshot_cursor: usize,
    /// Whether the first poll has returned.
    pub seeded: bool,
    /// Ticks on which the configured cycles asked for more snapshots than one
    /// process can send.
    pub overruns: u64,
}

/// A rotation there may be, as values to reason about.
pub open spec fn rotation_view(rotation: Option<SnapshotRotation>) -> Option<RotationView> {
    match rotation {
        Some(found) => Some(found@),
        None => None,
    }
}

impl View for Publisher {
    type V = PublisherView;

    closed spec fn view(&self) -> PublisherView {
        PublisherView {
            feeds: self.feeds@,
            idle: self.idle@,
            consistency: self.consistency@,
            forwarded: self.forwarded,
            refusals: self.refusals,
            snapshot_refusals: self.snapshot_refusals,
            unroutable: self.unroutable,
            owed: self.owed@,
            payload_recv_ts_ns: self.payload_recv_ts_ns,
            venue_timestamp_kind: self.venue_timestamp_kind,
            last_poll_ns: self.last_poll_ns,
            snapshots: Seq::new(
                self.snapshots@.len(),
                |i: int| rotation_view(self.snapshots@[i]),
            ),
            snapshot_cursor: self.snapshot_cursor,
            seeded: self.seeded,
            overruns: self.overruns,
        }
    }
}

/// The rotation a shard's depth block configures, before its first tick.
pub open spec fn configured_rotation(shard: ShardView) -> Option<RotationView> {
    match shard.market_by_price {
        Some(path) => match path.snapshot_cycle {
            Some(cycle) => Some(
                RotationView {
                    cycle_ns: duration::clamped(cycle@),
                    cursor: 0,
                    next_due_ns: None,
                },
            ),
            None => None,
        },
        None => None,
    }
}

/// A publisher over built send paths, before anything has happened.
pub open spec fn composed(feeds: Seq<ShardView>, idle_guard: nat) -> PublisherView {
    PublisherView {
        feeds,
        idle: IdleView {
            window: idle_guard,
            last_upstream_ns: None,
            last_published_ns: None,
            started_ns: None,
        },
        consistency: None,
        forwarded: Counts::none(),
        refusals: Refusals::none(),
        snapshot_refusals: SnapshotRefusals { not_ready: 0, refused: 0 },
        unroutable: 0,
        owed: Seq::empty(),
        payload_recv_ts_ns: None,
        venue_timestamp_kind: None,
        last_poll_ns: None,
        snapshots: Seq::new(feeds.len(), |i: int| configured_rotation(feeds[i])),
        snapshot_cursor: 0,
        seeded: false,
        overruns: 0,
    }
}

/// Whether an event of an instrument on this shard reaches a feed. A publisher
/// that emits no such feed at all carries it for no instrument; one that emits
/// some carries it where the instrument's own shard has a block. A handle the
/// published set does not hold is not refused here: the lowering refuses it as
/// an unknown instrument, which is the reason an operator can act on.
pub open spec fn carries(feeds: Seq<ShardView>, class: EventClass, on: Option<usize>) -> bool {
    match class {
        EventClass::Quote => carries_quotes(feeds, on),
        EventClass::Trade => true,
        EventClass::Level => carries_depth(feeds, on),
        EventClass::Clear => carries_depth(feeds, on),
        EventClass::Other => false,
    }
}

/// See [`carries`].
pub open spec fn carries_quotes(feeds: Seq<ShardView>, on: Option<usize>) -> bool {
    &&& shard::any_top_of_book(feeds)
    &&& on matches Some(index) ==> shard::top_of_book_on(feeds, index) is Some
}

/// See [`carries`].
pub open spec fn carries_depth(feeds: Seq<ShardView>, on: Option<usize>) -> bool {
    &&& shard::any_market_by_price(feeds)
    &&& on matches Some(index) ==> shard::market_by_price_on(feeds, index) is Some
}

/// What a lowered event is sent as.
pub open spec fn message_of(class: EventClass) -> EgressMessageType {
    match class {
        EventClass::Quote => EgressMessageType::Quote,
        EventClass::Trade => EgressMessageType::Trade,
        EventClass::Level => EgressMessageType::LevelUpdate,
        _ => EgressMessageType::BookClear,
    }
}

/// Whether an event of this class goes to the top-of-book feed.
pub open spec fn goes_to_top_of_book(class: EventClass) -> bool {
    class == EventClass::Quote || class == EventClass::Trade
}

/// Whether an event of this class goes to the market-by-price feed.
pub open spec fn goes_to_depth(class: EventClass) -> bool {
    class == EventClass::Trade || class == EventClass::Level || class == EventClass::Clear
}

/// The steps that send a lowered event of an instrument on a shard: one value,
/// to each of the shard's feeds that carries it, top-of-book first.
pub open spec fn event_steps(
    feeds: Seq<ShardView>,
    class: EventClass,
    on: Option<usize>,
    now_unix_ns: u64,
) -> Seq<Step> {
    let steps = |path: PipelineView| path.mktdata_steps(message_of(class), now_unix_ns);
    match on {
        None => Seq::empty(),
        Some(index) => (if goes_to_top_of_book(class) {
            shard::steps_of(shard::top_of_book_on(feeds, index), steps)
        } else {
            Seq::empty()
        }) + (if goes_to_depth(class) {
            shard::steps_of(shard::market_by_price_on(feeds, index), steps)
        } else {
            Seq::empty()
        }),
    }
}

/// The send paths after a lowered event was sent, or tried.
pub open spec fn after_event(
    feeds: Seq<ShardView>,
    class: EventClass,
    on: Option<usize>,
    now_mono_ns: u64,
) -> Seq<ShardView> {
    let change = |path: PipelineView| path.after_mktdata(now_mono_ns);
    match on {
        Some(index) if index < feeds.len() => {
            let before = feeds[index as int];
            feeds.update(
                index as int,
                ShardView {
                    name: before.name,
                    top_of_book: if goes_to_top_of_book(class) {
                        shard::changed(before.top_of_book, change)
                    } else {
                        before.top_of_book
                    },
                    market_by_price: if goes_to_depth(class) {
                        shard::changed(before.market_by_price, change)
                    } else {
                        before.market_by_price
                    },
                },
            )
        },
        _ => feeds,
    }
}

/// Whether a message reached the wire: some channel took it, and was flushed right
/// behind it.
pub open spec fn reached(steps: Seq<Step>, taken: Seq<bool>) -> bool {
    exists|i: int| 0 < i < steps.len() && #[trigger] flushed_behind(steps, taken, i)
}

/// A channel took a message and was flushed right behind it.
pub open spec fn flushed_behind(steps: Seq<Step>, taken: Seq<bool>, at: int) -> bool {
    &&& steps[at].action == Action::Flush
    &&& steps[at - 1].action is Push
    &&& taken[at - 1]
    &&& taken[at]
}

/// What an event came to, once it was lowered or would not be.
#[derive(Debug)]
pub struct Lowered {
    /// The steps that send it.
    pub steps: Vec<Step>,
    /// The reason it would not be lowered, for the metric.
    pub refused: Option<LoweringRefusalReason>,
}

/// A latency measured from a payload's arrival, in nanoseconds.
#[derive(Debug, Clone, Copy, PartialEq, Eq)]
pub struct ArrivalLatency {
    pub kind: EventKind,
    /// From the payload arriving to the datagram leaving.
    pub recv_to_send_ns: u64,
    /// From the venue's stamp to the payload arriving, where the adapter says
    /// which clock stamped it.
    pub venue_to_recv: Option<(TimestampKind, u64)>,
}

/// What a send came to.
#[derive(Debug, Clone, Copy, PartialEq, Eq)]
pub struct Sent {
    /// Whether a message reached the wire; the idle guard's gauge then moves to
    /// this moment.
    pub published: bool,
    pub latency: Option<ArrivalLatency>,
}

/// How long one moment is behind another, never negative: a venue clock ahead
/// of this one is skew and not a negative duration.
pub open spec fn behind(later: u64, earlier: u64) -> u64 {
    if later >= earlier {
        (later - earlier) as u64
    } else {
        0
    }
}

impl PublisherView {
    /// The latency of a message that was sent: measured only inside a payload's
    /// scope, since what did not arrive from upstream has no arrival.
    pub open spec fn arrival_latency(
        self,
        class: EventClass,
        source_ts_ns: u64,
        sent_unix_ns: u64,
    ) -> Option<ArrivalLatency> {
        match self.payload_recv_ts_ns {
            None => None,
            Some(recv_ts_ns) => Some(
                ArrivalLatency {
                    kind: event::kind_of(class),
                    recv_to_send_ns: behind(sent_unix_ns, recv_ts_ns),
                    venue_to_recv: match self.venue_timestamp_kind {
                        Some(kind) => Some((kind, behind(recv_ts_ns, source_ts_ns))),
                        None => None,
                    },
                },
            ),
        }
    }

    /// The publisher after a message reached the wire.
    pub open spec fn after_published(self, now_mono_ns: u64) -> PublisherView {
        PublisherView {
            idle: IdleView {
                last_published_ns: Some(now_mono_ns),
                started_ns: guard::started(self.idle.started_ns, now_mono_ns),
                ..self.idle
            },
            ..self
        }
    }

    /// The live sequence of an instrument's own channel: another shard's would
    /// be a number of another series.
    pub open spec fn live_anchor(self, on: Option<usize>) -> u64 {
        match on {
            None => 0,
            Some(index) => match shard::market_by_price_on(self.feeds, index) {
                Some(path) => match path.ports.mktdata.next_sequence {
                    Some(next) => next,
                    None => 0,
                },
                None => 0,
            },
        }
    }
}

impl Publisher {
    /// Compose a publisher over the built send paths. There is one rotation per
    /// shard, in the send paths' own order: a shard that configures none holds
    /// `None` rather than being left out.
    pub fn new(feeds: Feeds, idle_guard: Duration) -> (publisher: Self)
        ensures
            publisher@ == composed(feeds@, idle_guard@),
            publisher@.well_formed(),
    {
        let mut snapshots: Vec<Option<SnapshotRotation>> = Vec::new();
        let mut at: usize = 0;
        while at < feeds.shard_count()
            invariant
                at <= feeds@.len(),
                snapshots@.len() == at,
                forall|i: int|
                    0 <= i < at ==> rotation_view(#[trigger] snapshots@[i]) == configured_rotation(
                        feeds@[i],
                    ),
            decreases feeds@.len() - at,
        {
            let rotation: Option<SnapshotRotation> = match feeds.market_by_price_on(at) {
                Some(path) => match path.snapshot_cycle() {
                    Some(cycle) => Some(SnapshotRotation::new(cycle)),
                    None => None,
                },
                None => None,
            };
            snapshots.push(rotation);
            at += 1;
        }
        let publisher: Self = Self {
            feeds,
            idle: IdleGuard::new(idle_guard),
            consistency: ConsistencyGuard::new(),
            forwarded: Counts::default(),
            refusals: Refusals::default(),
            snapshot_refusals: SnapshotRefusals::default(),
            unroutable: 0,
            owed: Vec::new(),
            payload_recv_ts_ns: None,
            venue_timestamp_kind: None,
            last_poll_ns: None,
            snapshots,
            snapshot_cursor: 0,
            seeded: false,
            overruns: 0,
        };
        proof {
            assert(publisher@.snapshots =~= composed(publisher@.feeds, idle_guard@).snapshots);
            assert(publisher@.owed =~= Seq::<(InstrumentRef, u64)>::empty());
        }
        publisher
    }

    fn carries_quotes(&self, on: Option<usize>) -> (yes: bool)
        ensures
            yes == carries_quotes(self@.feeds, on),
    {
        self.feeds.carries_top_of_book() && match on {
            None => true,
            Some(index) => self.feeds.top_of_book_on(index).is_some(),
        }
    }

    fn carries_depth(&self, on: Option<usize>) -> (yes: bool)
        ensures
            yes == carries_depth(self@.feeds, on),
    {
        self.feeds.carries_market_by_price() && match on {
            None => true,
            Some(index) => self.feeds.market_by_price_on(index).is_some(),
        }
    }

    /// Whether an event is to be lowered. One no enabled feed carries is
    /// counted and dropped. `on` is the shard the venue admitted the event's
    /// instrument to, `None` for a handle the published set does not hold.
    pub fn route(&mut self, event: &Event, on: Option<usize>) -> (lower: bool)
        requires
            old(self)@.unroutable < u64::MAX,
        ensures
            lower == carries(old(self)@.feeds, event.class, on),
            final(self)@ == if lower {
                old(self)@
            } else {
                PublisherView { unroutable: (old(self)@.unroutable + 1) as u64, ..old(self)@ }
            },
    {
        let lower: bool = match event.class {
            EventClass::Quote => self.carries_quotes(on),
            EventClass::Trade => true,
            EventClass::Level => self.carries_depth(on),
            EventClass::Clear => self.carries_depth(on),
            EventClass::Other => false,
        };
        if !lower {
            self.unroutable += 1;
        }
        lower
    }

    /// What an event comes to once it has been lowered: the steps that send it,
    /// or the reason it could not be.
    pub fn lowered(
        &mut self,
        event: &Event,
        on: Option<usize>,
        outcome: Result<(), LoweringError>,
        now_mono_ns: u64,
        now_unix_ns: u64,
    ) -> (lowered: Lowered)
        requires
            carries(old(self)@.feeds, event.class, on),
            outcome is Ok && event.class != EventClass::Trade ==> on is Some,
            old(self)@.refusals.sum() < u64::MAX,
        ensures
            match outcome {
                Ok(()) => {
                    &&& lowered.refused is None
                    &&& lowered.steps@ == event_steps(
                        old(self)@.feeds,
                        event.class,
                        on,
                        now_unix_ns,
                    )
                    &&& final(self)@ == (PublisherView {
                        feeds: after_event(old(self)@.feeds, event.class, on, now_mono_ns),
                        ..old(self)@
                    })
                },
                Err(error) => {
                    &&& lowered.refused == Some(event::reason_of(error))
                    &&& lowered.steps@.len() == 0
                    &&& final(self)@ == (PublisherView {
                        refusals: old(self)@.refusals.with(event::reason_of(error)),
                        ..old(self)@
                    })
                },
            },
    {
        match outcome {
            Err(error) => {
                let reason: LoweringRefusalReason = self.refusals.record(error);
                Lowered { steps: Vec::new(), refused: Some(reason) }
            },
            Ok(()) => {
                let mut steps: Vec<Step> = Vec::new();
                if let Some(index) = on {
                    match event.class {
                        EventClass::Quote => {
                            if let Some(path) = self.feeds.top_of_book_on_mut(index) {
                                steps = path.send_quote(now_mono_ns, now_unix_ns);
                            }
                        },
                        EventClass::Trade => {
                            if let Some(path) = self.feeds.top_of_book_on_mut(index) {
                                steps = path.send_trade(now_mono_ns, now_unix_ns);
                            }
                            if let Some(path) = self.feeds.market_by_price_on_mut(index) {
                                let mut more: Vec<Step> = path.send_trade(now_mono_ns, now_unix_ns);
                                steps.append(&mut more);
                            }
                        },
                        EventClass::Level => {
                            if let Some(path) = self.feeds.market_by_price_on_mut(index) {
                                steps = path.send_level(now_mono_ns, now_unix_ns);
                            }
                        },
                        EventClass::Clear => {
                            if let Some(path) = self.feeds.market_by_price_on_mut(index) {
                                steps = path.send_book_clear(now_mono_ns, now_unix_ns);
                            }
                        },
                        EventClass::Other => {},
                    }
                }
                proof {
                    assert(steps@ =~= event_steps(old(self)@.feeds, event.class, on, now_unix_ns));
                    assert(self@.feeds =~= after_event(
                        old(self)@.feeds,
                        event.class,
                        on,
                        now_mono_ns,
                    ));
                }
                Lowered { steps, refused: None }
            },
        }
    }

    /// What a send came to, by how each of its steps went. A trade moves the
    /// idle guard, and is measured, where either feed took it.
    pub fn sent(
        &mut self,
        event: &Event,
        steps: &Vec<Step>,
        taken: &Vec<bool>,
        now_mono_ns: u64,
        now_unix_ns: u64,
    ) -> (sent: Sent)
        requires
            taken@.len() == steps@.len(),
        ensures
            sent.published == reached(steps@, taken@),
            sent.latency == if sent.published {
                old(self)@.arrival_latency(event.class, event.source_ts_ns, now_unix_ns)
            } else {
                None
            },
            final(self)@ == if sent.published {
                old(self)@.after_published(now_mono_ns)
            } else {
                old(self)@
            },
    {
        let published: bool = has_reached(steps, taken);
        if !published {
            return Sent { published, latency: None };
        }
        self.idle.published(now_mono_ns);
        let latency: Option<ArrivalLatency> = self.observe_arrival_latency(
            event.class,
            event.source_ts_ns,
            now_unix_ns,
        );
        Sent { published, latency }
    }

    fn observe_arrival_latency(
        &self,
        class: EventClass,
        source_ts_ns: u64,
        sent_unix_ns: u64,
    ) -> (latency: Option<ArrivalLatency>)
        ensures
            latency == self@.arrival_latency(class, source_ts_ns, sent_unix_ns),
    {
        match self.payload_recv_ts_ns {
            None => None,
            Some(recv_ts_ns) => Some(
                ArrivalLatency {
                    kind: event::event_kind(class),
                    recv_to_send_ns: sent_unix_ns.saturating_sub(recv_ts_ns),
                    venue_to_recv: match self.venue_timestamp_kind {
                        Some(kind) => Some((kind, recv_ts_ns.saturating_sub(source_ts_ns))),
                        None => None,
                    },
                },
            ),
        }
    }
}

/// The shard an instrument was admitted to, by its slot: `None` for a slot the
/// published set does not hold.
pub open spec fn admitted_to(shard_of: Seq<Option<usize>>, slot: u32) -> Option<usize> {
    if slot < shard_of.len() {
        shard_of[slot as int]
    } else {
        None
    }
}

/// The shard the search considers at an offset from where it starts.
pub open spec fn searched(cursor: usize, shards: nat, offset: int) -> int {
    (cursor + offset) % (shards as int)
}

/// What asking one shard's rotation comes to. A shard the reference-data owner
/// has no published set for, or that configures no cycle, is passed by.
pub open spec fn asked(
    before: Option<RotationView>,
    after: Option<RotationView>,
    now_mono_ns: u64,
    instruments: InstrumentTable,
    published: Option<usize>,
    mine: spec_fn(u32) -> bool,
    due: Option<InstrumentRef>,
) -> bool {
    if published is Some && before is Some {
        &&& after is Some
        &&& rotation::paced(
            before->0,
            after->0,
            now_mono_ns,
            instruments,
            published->0,
            due,
            rotation::pass_over(instruments, mine, before->0.cursor, due, after->0.cursor),
        )
    } else {
        due is None && after == before
    }
}

/// What asking the shard at an offset from where the search starts comes to.
pub open spec fn shard_asked(
    before: PublisherView,
    after: PublisherView,
    now_mono_ns: u64,
    instruments: InstrumentTable,
    published: Seq<Option<usize>>,
    shard_of: Seq<Option<usize>>,
    offset: int,
    due: Option<InstrumentRef>,
) -> bool {
    let shard = searched(before.snapshot_cursor, before.snapshots.len(), offset);
    asked(
        before.snapshots[shard],
        after.snapshots[shard],
        now_mono_ns,
        instruments,
        published[shard],
        |slot: u32| admitted_to(shard_of, slot) == Some(shard as usize),
        due,
    )
}

/// The search finds an instrument due at an offset from where it starts: every
/// shard before has none, none behind is asked, and the next search starts right
/// behind.
pub open spec fn found_at(
    before: PublisherView,
    after: PublisherView,
    now_mono_ns: u64,
    instruments: InstrumentTable,
    published: Seq<Option<usize>>,
    shard_of: Seq<Option<usize>>,
    due: InstrumentRef,
    offset: int,
) -> bool {
    let shards = before.snapshots.len();
    &&& 0 <= offset < shards
    &&& shard_asked(
        before,
        after,
        now_mono_ns,
        instruments,
        published,
        shard_of,
        offset,
        Some(due),
    )
    &&& forall|earlier: int|
        0 <= earlier < offset ==> #[trigger] shard_asked(
            before,
            after,
            now_mono_ns,
            instruments,
            published,
            shard_of,
            earlier,
            None,
        )
    &&& forall|later: int|
        offset < later < shards ==> after.snapshots[#[trigger] searched(
            before.snapshot_cursor,
            shards,
            later,
        )] == before.snapshots[searched(before.snapshot_cursor, shards, later)]
    &&& after.snapshot_cursor == (searched(before.snapshot_cursor, shards, offset) + 1) % (
    shards as int)
}

/// What the search for a due snapshot comes to: the shards are asked from where
/// the last one was found, each once, until one has an instrument due; the next
/// search starts behind that one, so no shard takes every call it is due for
/// while another waits.
pub open spec fn search(
    before: PublisherView,
    after: PublisherView,
    now_mono_ns: u64,
    instruments: InstrumentTable,
    published: Seq<Option<usize>>,
    shard_of: Seq<Option<usize>>,
    due: Option<InstrumentRef>,
) -> bool {
    &&& after == (PublisherView {
        snapshots: after.snapshots,
        snapshot_cursor: after.snapshot_cursor,
        ..before
    })
    &&& after.snapshots.len() == before.snapshots.len()
    &&& match due {
        Some(handle) => exists|offset: int| #[trigger]
            found_at(
                before,
                after,
                now_mono_ns,
                instruments,
                published,
                shard_of,
                handle,
                offset,
            ),
        None => {
            &&& forall|offset: int|
                0 <= offset < before.snapshots.len() ==> #[trigger] shard_asked(
                    before,
                    after,
                    now_mono_ns,
                    instruments,
                    published,
                    shard_of,
                    offset,
                    None,
                )
            &&& after.snapshot_cursor == before.snapshot_cursor
        },
    }
}

impl PublisherView {
    /// There is a place for a rotation per shard, and the search starts at one
    /// of them.
    pub open spec fn well_formed(self) -> bool {
        &&& self.snapshots.len() == self.feeds.len()
        &&& self.snapshots.len() > 0 ==> self.snapshot_cursor < self.snapshots.len()
    }
}

impl Publisher {
    /// The next instrument any shard's rotation owes a snapshot, at most one
    /// per call. `published` is each shard's published count, `None` where the
    /// reference-data owner has no set for it; `shard_of` is the shard each
    /// slot's instrument was admitted to.
    pub fn due_snapshot(
        &mut self,
        now_mono_ns: u64,
        instruments: &InstrumentTable,
        published: &Vec<Option<usize>>,
        shard_of: &Vec<Option<usize>>,
    ) -> (due: Option<InstrumentRef>)
        requires
            old(self)@.well_formed(),
            published@.len() == old(self)@.feeds.len(),
        ensures
            search(
                old(self)@,
                final(self)@,
                now_mono_ns,
                *instruments,
                published@,
                shard_of@,
                due,
            ),
            final(self)@.well_formed(),
    {
        let shards: usize = self.snapshots.len();
        let ghost before = self@;
        let start: usize = self.snapshot_cursor;
        let mut offset: usize = 0;
        let ghost mine = |shard: int|
            |slot: u32| admitted_to(shard_of@, slot) == Some(shard as usize);
        let ghost now = now_mono_ns;
        while offset < shards
            invariant
                offset <= shards == before.snapshots.len() == self.snapshots@.len(),
                before == old(self)@,
                before.well_formed(),
                now == now_mono_ns,
                published@.len() == shards,
                shards > 0 ==> start < shards,
                start == before.snapshot_cursor,
                self@ == (PublisherView { snapshots: self@.snapshots, ..before }),
                self@.snapshots.len() == shards,
                mine == (|shard: int|
                    |slot: u32| admitted_to(shard_of@, slot) == Some(shard as usize)),
                forall|earlier: int|
                    0 <= earlier < offset ==> {
                        let shard = #[trigger] searched(start, shards as nat, earlier);
                        asked(
                            before.snapshots[shard],
                            self@.snapshots[shard],
                            now,
                            *instruments,
                            published@[shard],
                            mine(shard),
                            None,
                        )
                    },
                forall|later: int|
                    offset <= later < shards ==> {
                        let shard = #[trigger] searched(start, shards as nat, later);
                        self@.snapshots[shard] == before.snapshots[shard]
                    },
            decreases shards - offset,
        {
            let shard: usize = if offset < shards - start {
                start + offset
            } else {
                offset - (shards - start)
            };
            proof {
                searched_is(start, shards as nat, offset as int);
                assert forall|other: int| 0 <= other < shards && other != offset implies searched(
                    start,
                    shards as nat,
                    other,
                ) != shard && 0 <= #[trigger] searched(start, shards as nat, other) < shards by {
                    searched_is(start, shards as nat, other);
                }
            }
            let ghost held = self@.snapshots;
            let mut due: Option<InstrumentRef> = None;
            if let Some(count) = published[shard] {
                if let Some(rotation) = &mut self.snapshots[shard] {
                    let answers = |handle: InstrumentRef| -> (yes: bool)
                        ensures
                            yes == (admitted_to(shard_of@, handle@) == Some(shard)),
                        {
                            let slot: usize = handle.index() as usize;
                            slot < shard_of.len() && shard_of[slot] == Some(shard)
                        };
                    let ghost was = rotation@;
                    due = rotation.due(now_mono_ns, instruments, count, answers);
                    proof {
                        if rotation::pass(*instruments, answers, was.cursor, due, rotation@.cursor) {
                            rotation::answers_make_a_pass(
                                *instruments,
                                answers,
                                mine(shard as int),
                                was.cursor,
                                due,
                                rotation@.cursor,
                            );
                        }
                    }
                }
            }
            proof {
                assert(asked(
                    before.snapshots[shard as int],
                    self@.snapshots[shard as int],
                    now,
                    *instruments,
                    published@[shard as int],
                    mine(shard as int),
                    due,
                ));
                assert forall|other: int| 0 <= other < shards && other != shard implies #[trigger]
                    self@.snapshots[other] == held[other] by {}
            }
            if let Some(instrument) = due {
                self.snapshot_cursor = if shard + 1 < shards {
                    shard + 1
                } else {
                    0
                };
                proof {
                    found_by_search(
                        before,
                        self@,
                        now,
                        *instruments,
                        published@,
                        shard_of@,
                        instrument,
                        offset as int,
                        shard as int,
                    );
                }
                return Some(instrument);
            }
            offset += 1;
        }
        None
    }
}

/// Whether a snapshot of what is drained settles a debt: it is of the
/// instrument, and at no older anchor.
pub open spec fn settles(drained: Seq<(InstrumentRef, u64)>, debt: (InstrumentRef, u64)) -> bool {
    exists|i: int|
        0 <= i < drained.len() && (#[trigger] drained[i]).0@ == debt.0@ && drained[i].1 >= debt.1
}

/// Whether what is owed is drained: each instrument once, in order, with the
/// latest of the anchors its resets promised. A snapshot at an older anchor is
/// one the later reset has already told subscribers to discard.
pub open spec fn is_drained(
    owed: Seq<(InstrumentRef, u64)>,
    drained: Seq<(InstrumentRef, u64)>,
) -> bool {
    &&& ascends(drained)
    &&& forall|i: int| 0 <= i < drained.len() ==> owed.contains(#[trigger] drained[i])
    &&& forall|k: int| 0 <= k < owed.len() ==> settles(drained, #[trigger] owed[k])
}

/// Whether instruments are in order, each once.
#[verifier::opaque]
pub open spec fn ascends(drained: Seq<(InstrumentRef, u64)>) -> bool {
    forall|i: int, j: int|
        0 <= i < j < drained.len() ==> (#[trigger] drained[i]).0@ < (#[trigger] drained[j]).0@
}

proof fn inserting_keeps_the_order(
    before: Seq<(InstrumentRef, u64)>,
    debt: (InstrumentRef, u64),
    place: int,
)
    requires
        ascends(before),
        0 <= place <= before.len(),
        forall|i: int| 0 <= i < place ==> (#[trigger] before[i]).0@ < debt.0@,
        place < before.len() ==> before[place].0@ > debt.0@,
    ensures
        ascends(before.insert(place, debt)),
{
    reveal(ascends);
    let after = before.insert(place, debt);
    assert forall|i: int, j: int| 0 <= i < j < after.len() implies (#[trigger] after[i]).0@ < (
    #[trigger] after[j]).0@ by {
        let i_was = if i < place {
            i
        } else {
            i - 1
        };
        let j_was = if j < place {
            j
        } else {
            j - 1
        };
        if i != place && j != place {
            assert(before[i_was].0@ < before[j_was].0@);
        } else if i == place {
            if j_was > place {
                assert(before[place].0@ < before[j_was].0@);
            }
        }
    }
}

proof fn raising_keeps_the_order(
    before: Seq<(InstrumentRef, u64)>,
    debt: (InstrumentRef, u64),
    place: int,
)
    requires
        ascends(before),
        0 <= place < before.len(),
        before[place].0@ == debt.0@,
    ensures
        ascends(before.update(place, debt)),
{
    reveal(ascends);
    let after = before.update(place, debt);
    assert forall|i: int, j: int| 0 <= i < j < after.len() implies (#[trigger] after[i]).0@ < (
    #[trigger] after[j]).0@ by {
        assert(before[i].0@ < before[j].0@);
    }
}

proof fn a_raised_debt_is_drained(
    owed: Seq<(InstrumentRef, u64)>,
    before: Seq<(InstrumentRef, u64)>,
    debt: (InstrumentRef, u64),
    place: int,
)
    requires
        is_drained(owed, before),
        0 <= place < before.len(),
        before[place].0@ == debt.0@,
    ensures
        is_drained(
            owed.push(debt),
            if before[place].1 < debt.1 {
                before.update(place, debt)
            } else {
                before
            },
        ),
{
    let all = owed.push(debt);
    let after = if before[place].1 < debt.1 {
        before.update(place, debt)
    } else {
        before
    };
    assert(all[owed.len() as int] == debt);
    assert forall|i: int| 0 <= i < after.len() implies all.contains(#[trigger] after[i]) by {
        if i == place && before[place].1 < debt.1 {
            assert(all[owed.len() as int] == after[i]);
        } else {
            let k = choose|k: int| 0 <= k < owed.len() && owed[k] == before[i];
            assert(owed.contains(before[i]));
            assert(all[k] == after[i]);
        }
    }
    assert forall|k: int| 0 <= k < all.len() implies settles(after, #[trigger] all[k]) by {
        if k < owed.len() {
            assert(settles(before, owed[k]));
            let i = choose|i: int|
                0 <= i < before.len() && (#[trigger] before[i]).0@ == owed[k].0@ && before[i].1
                    >= owed[k].1;
            assert(after[i].0@ == all[k].0@ && after[i].1 >= all[k].1);
        } else {
            assert(after[place].0@ == all[k].0@ && after[place].1 >= all[k].1);
        }
    }
    raising_keeps_the_order(before, debt, place);
}

proof fn a_new_debt_is_drained(
    owed: Seq<(InstrumentRef, u64)>,
    before: Seq<(InstrumentRef, u64)>,
    debt: (InstrumentRef, u64),
    place: int,
)
    requires
        is_drained(owed, before),
        0 <= place <= before.len(),
        forall|i: int| 0 <= i < place ==> (#[trigger] before[i]).0@ < debt.0@,
        place < before.len() ==> before[place].0@ > debt.0@,
    ensures
        is_drained(owed.push(debt), before.insert(place, debt)),
{
    let all = owed.push(debt);
    let after = before.insert(place, debt);
    assert forall|i: int| 0 <= i < after.len() implies all.contains(#[trigger] after[i]) by {
        if i == place {
            assert(all[owed.len() as int] == after[i]);
        } else {
            let was = if i < place {
                i
            } else {
                i - 1
            };
            assert(after[i] == before[was]);
            assert(owed.contains(before[was]));
            let k = choose|k: int| 0 <= k < owed.len() && owed[k] == before[was];
            assert(all[k] == after[i]);
        }
    }
    assert forall|k: int| 0 <= k < all.len() implies settles(after, #[trigger] all[k]) by {
        if k < owed.len() {
            assert(settles(before, owed[k]));
            let i = choose|i: int|
                0 <= i < before.len() && (#[trigger] before[i]).0@ == owed[k].0@ && before[i].1
                    >= owed[k].1;
            let now = if i < place {
                i
            } else {
                i + 1
            };
            assert(after[now] == before[i]);
        } else {
            assert(after[place] == all[k]);
        }
    }
    inserting_keeps_the_order(before, debt, place);
}

fn owe(
    drained: &mut Vec<(InstrumentRef, u64)>,
    debt: (InstrumentRef, u64),
    Ghost(owed): Ghost<Seq<(InstrumentRef, u64)>>,
)
    requires
        is_drained(owed, old(drained)@),
    ensures
        is_drained(owed.push(debt), final(drained)@),
{
    let ghost before = drained@;
    let mut place: usize = 0;
    while place < drained.len() && drained[place].0.index() < debt.0.index()
        invariant
            place <= drained.len(),
            drained@ == before,
            forall|i: int| 0 <= i < place ==> (#[trigger] before[i]).0@ < debt.0@,
        decreases drained.len() - place,
    {
        place += 1;
    }
    if place < drained.len() && drained[place].0.index() == debt.0.index() {
        proof {
            a_raised_debt_is_drained(owed, before, debt, place as int);
        }
        if drained[place].1 < debt.1 {
            drained.set(place, debt);
        }
    } else {
        proof {
            a_new_debt_is_drained(owed, before, debt, place as int);
        }
        drained.insert(place, debt);
    }
}

impl Publisher {
    /// The instruments owing a recovery snapshot, each with the anchor its
    /// reset promised, drained.
    pub fn owed_snapshots(&mut self) -> (drained: Vec<(InstrumentRef, u64)>)
        ensures
            is_drained(old(self)@.owed, drained@),
            final(self)@ == (PublisherView { owed: Seq::empty(), ..old(self)@ }),
    {
        let mut owed: Vec<(InstrumentRef, u64)> = Vec::new();
        std::mem::swap(&mut owed, &mut self.owed);
        let mut drained: Vec<(InstrumentRef, u64)> = Vec::new();
        let mut at: usize = 0;
        proof {
            reveal(ascends);
        }
        while at < owed.len()
            invariant
                at <= owed.len(),
                is_drained(owed@.take(at as int), drained@),
            decreases owed.len() - at,
        {
            let debt: (InstrumentRef, u64) = owed[at];
            owe(&mut drained, debt, Ghost(owed@.take(at as int)));
            proof {
                assert(owed@.take(at as int).push(debt) =~= owed@.take(at + 1));
            }
            at += 1;
        }
        proof {
            assert(owed@.take(at as int) =~= owed@);
            assert(self@.owed =~= Seq::<(InstrumentRef, u64)>::empty());
        }
        drained
    }

    /// The adapter no longer trusts its own book for one instrument: the anchor
    /// its reset is to carry, or `None` where no depth feed of the instrument's
    /// shard could announce it, which is counted.
    pub fn desynchronised(&mut self, on: Option<usize>) -> (anchor: Option<u64>)
        requires
            old(self)@.unroutable < u64::MAX,
        ensures
            anchor == if carries_depth(old(self)@.feeds, on) {
                Some(old(self)@.live_anchor(on))
            } else {
                None
            },
            final(self)@ == if anchor is Some {
                old(self)@
            } else {
                PublisherView { unroutable: (old(self)@.unroutable + 1) as u64, ..old(self)@ }
            },
    {
        if !self.carries_depth(on) {
            self.unroutable += 1;
            return None;
        }
        Some(self.anchor_on(on))
    }

    fn anchor_on(&self, on: Option<usize>) -> (anchor: u64)
        ensures
            anchor == self@.live_anchor(on),
    {
        match on {
            None => 0,
            Some(index) => match self.feeds.market_by_price_on(index) {
                Some(path) => match path.mktdata_sequence() {
                    Some(next) => next,
                    None => 0,
                },
                None => 0,
            },
        }
    }

    /// What a reset comes to once it has been lowered.
    pub fn reset_lowered(
        &mut self,
        on: Option<usize>,
        outcome: Result<(), LoweringError>,
        now_mono_ns: u64,
        now_unix_ns: u64,
    ) -> (lowered: Lowered)
        requires
            carries_depth(old(self)@.feeds, on),
            outcome is Ok ==> on is Some,
            old(self)@.refusals.sum() < u64::MAX,
        ensures
            match outcome {
                Ok(()) => {
                    let path = shard::market_by_price_on(old(self)@.feeds, on->0)->0;
                    &&& lowered.refused is None
                    &&& lowered.steps@ == path.mktdata_steps(
                        EgressMessageType::InstrumentReset,
                        now_unix_ns,
                    )
                    &&& final(self)@ == (PublisherView {
                        feeds: after_event(
                            old(self)@.feeds,
                            EventClass::Level,
                            on,
                            now_mono_ns,
                        ),
                        ..old(self)@
                    })
                },
                Err(error) => {
                    &&& lowered.refused == Some(event::reason_of(error))
                    &&& lowered.steps@.len() == 0
                    &&& final(self)@ == (PublisherView {
                        refusals: old(self)@.refusals.with(event::reason_of(error)),
                        ..old(self)@
                    })
                },
            },
    {
        match outcome {
            Err(error) => {
                let reason: LoweringRefusalReason = self.refusals.record(error);
                Lowered { steps: Vec::new(), refused: Some(reason) }
            },
            Ok(()) => {
                let mut steps: Vec<Step> = Vec::new();
                if let Some(index) = on {
                    if let Some(path) = self.feeds.market_by_price_on_mut(index) {
                        steps = path.send_instrument_reset(now_mono_ns, now_unix_ns);
                    }
                }
                proof {
                    assert(self@.feeds =~= after_event(
                        old(self)@.feeds,
                        EventClass::Level,
                        on,
                        now_mono_ns,
                    ));
                }
                Lowered { steps, refused: None }
            },
        }
    }

    /// What a reset's send came to. The snapshot is owed, at the anchor the
    /// reset carried, only once the announcement reached the wire: one owed for
    /// a reset no subscriber saw would arrive with an anchor nobody waits for.
    pub fn reset_sent(
        &mut self,
        instrument: InstrumentRef,
        anchor: u64,
        steps: &Vec<Step>,
        taken: &Vec<bool>,
        now_mono_ns: u64,
    ) -> (published: bool)
        requires
            taken@.len() == steps@.len(),
        ensures
            published == reached(steps@, taken@),
            final(self)@ == if published {
                PublisherView { owed: old(self)@.owed.push((instrument, anchor)), ..old(self)@ }.after_published(
                    now_mono_ns,
                )
            } else {
                old(self)@
            },
    {
        let published: bool = has_reached(steps, taken);
        if published {
            self.owed.push((instrument, anchor));
            self.idle.published(now_mono_ns);
        }
        published
    }

    /// The anchor of a snapshot pulled now: where the instrument's own channel
    /// is. Refused, and counted, where its shard carries no depth feed.
    pub fn snapshot(&mut self, on: Option<usize>) -> (anchor: Result<u64, SnapshotError>)
        requires
            old(self)@.snapshot_refusals.not_ready < u64::MAX,
            old(self)@.snapshot_refusals.refused < u64::MAX,
        ensures
            anchored(old(self)@, final(self)@, on, anchor),
    {
        let live: u64 = self.anchor_on(on);
        self.snapshot_anchored_at(on, live)
    }

    /// The periodic snapshot that is due, if one is: of which instrument, and the
    /// anchor of it, or the refusal of it, which is counted.
    pub fn periodic_snapshot(
        &mut self,
        now_mono_ns: u64,
        instruments: &InstrumentTable,
        published: &Vec<Option<usize>>,
        shard_of: &Vec<Option<usize>>,
    ) -> (due: Option<(InstrumentRef, Result<u64, SnapshotError>)>)
        requires
            old(self)@.well_formed(),
            published@.len() == old(self)@.feeds.len(),
            old(self)@.snapshot_refusals.not_ready < u64::MAX,
            old(self)@.snapshot_refusals.refused < u64::MAX,
        ensures
            due is None ==> search(
                old(self)@,
                final(self)@,
                now_mono_ns,
                *instruments,
                published@,
                shard_of@,
                None,
            ),
            due matches Some((instrument, anchor)) ==> found_and_anchored(
                old(self)@,
                final(self)@,
                now_mono_ns,
                *instruments,
                published@,
                shard_of@,
                instrument,
                anchor,
            ),
            final(self)@.well_formed(),
    {
        let next: Option<InstrumentRef> = self.due_snapshot(
            now_mono_ns,
            instruments,
            published,
            shard_of,
        );
        match next {
            None => None,
            Some(instrument) => {
                let ghost found = self@;
                proof {
                    assert(search(
                        old(self)@,
                        found,
                        now_mono_ns,
                        *instruments,
                        published@,
                        shard_of@,
                        Some(instrument),
                    ));
                }
                let slot: usize = instrument.index() as usize;
                let on: Option<usize> = if slot < shard_of.len() {
                    shard_of[slot]
                } else {
                    None
                };
                let anchor: Result<u64, SnapshotError> = self.snapshot(on);
                proof {
                    assert(anchored(
                        found,
                        self@,
                        admitted_to(shard_of@, instrument@),
                        anchor,
                    ));
                }
                Some((instrument, anchor))
            },
        }
    }

    /// The anchor of a recovery snapshot: the one its reset promised, and not
    /// where the feed has since come to, which a subscriber would discard.
    /// Refused, and counted, where the instrument's shard carries no depth feed.
    pub fn snapshot_anchored_at(&mut self, on: Option<usize>, anchor: u64) -> (served: Result<
        u64,
        SnapshotError,
    >)
        requires
            old(self)@.snapshot_refusals.not_ready < u64::MAX,
            old(self)@.snapshot_refusals.refused < u64::MAX,
        ensures
            match served {
                Ok(at) => {
                    &&& carries_depth(old(self)@.feeds, on)
                    &&& at == anchor
                    &&& final(self)@ == old(self)@
                },
                Err(error) => {
                    &&& !carries_depth(old(self)@.feeds, on)
                    &&& error == SnapshotError::NoDepthFeed
                    &&& final(self)@ == (PublisherView {
                        snapshot_refusals: old(self)@.snapshot_refusals.with(error),
                        ..old(self)@
                    })
                },
            },
    {
        if self.carries_depth(on) {
            Ok(anchor)
        } else {
            let error: SnapshotError = SnapshotError::NoDepthFeed;
            self.snapshot_refusals.record(&error);
            Err(error)
        }
    }

    /// The steps that send a framed snapshot of so many levels. Framing it
    /// resolved the instrument, so it is on a shard with a depth feed.
    pub fn snapshot_framed(&self, on: usize, levels: usize, now_unix_ns: u64) -> (steps: Vec<Step>)
        requires
            carries_depth(self@.feeds, Some(on)),
        ensures
            steps@ == shard::market_by_price_on(self@.feeds, on)->0.snapshot_steps(
                levels,
                now_unix_ns,
            ),
    {
        match self.feeds.market_by_price_on(on) {
            Some(path) => path.send_snapshot(levels, now_unix_ns),
            None => Vec::new(),
        }
    }

    /// A snapshot that was refused after it was asked for: by the adapter, the
    /// framing or the socket.
    pub fn snapshot_refused(&mut self, error: &SnapshotError)
        requires
            old(self)@.snapshot_refusals.not_ready < u64::MAX,
            old(self)@.snapshot_refusals.refused < u64::MAX,
        ensures
            final(self)@ == (PublisherView {
                snapshot_refusals: old(self)@.snapshot_refusals.with(*error),
                ..old(self)@
            }),
    {
        self.snapshot_refusals.record(error);
    }
}

/// What asking for the anchor of a snapshot comes to: where the instrument's own
/// channel is, and a counted refusal where its shard carries no depth feed.
pub open spec fn anchored(
    before: PublisherView,
    after: PublisherView,
    on: Option<usize>,
    anchor: Result<u64, SnapshotError>,
) -> bool {
    match anchor {
        Ok(at) => {
            &&& carries_depth(before.feeds, on)
            &&& at == before.live_anchor(on)
            &&& after == before
        },
        Err(error) => {
            &&& !carries_depth(before.feeds, on)
            &&& error == SnapshotError::NoDepthFeed
            &&& after == (PublisherView {
                snapshot_refusals: before.snapshot_refusals.with(error),
                ..before
            })
        },
    }
}

/// The search found an instrument due, and its anchor was asked for.
pub open spec fn found_and_anchored(
    before: PublisherView,
    after: PublisherView,
    now_mono_ns: u64,
    instruments: InstrumentTable,
    published: Seq<Option<usize>>,
    shard_of: Seq<Option<usize>>,
    instrument: InstrumentRef,
    anchor: Result<u64, SnapshotError>,
) -> bool {
    exists|found: PublisherView|
        {
            &&& #[trigger] search(
                before,
                found,
                now_mono_ns,
                instruments,
                published,
                shard_of,
                Some(instrument),
            )
            &&& anchored(found, after, admitted_to(shard_of, instrument@), anchor)
        }
}

/// What the reference-data owner says of one shard.
#[derive(Debug, Clone, Copy, PartialEq, Eq, Structural)]
pub struct ShardReference {
    pub manifest_seq: u32,
    pub valid: bool,
    pub published: Option<usize>,
}

/// The gauges of one channel.
#[derive(Debug, Clone, Copy, PartialEq, Eq, Structural)]
pub struct ChannelGauges {
    pub channel_id: u8,
    pub manifest_seq: u64,
    pub valid: bool,
    pub instruments: usize,
}

/// What a forwarding of the reference-data owner's counts adds to and sets in
/// the metrics.
#[derive(Debug)]
pub struct Forwarded {
    pub new_listings: u64,
    pub delistings: u64,
    pub definitions: u64,
    /// Instruments the venue listed and whose numbers cannot be stated on the
    /// wire: reference data that did not fully load.
    pub load_errors: u64,
    pub channels: Vec<ChannelGauges>,
    /// How many instruments the process publishes.
    pub published: i64,
}

/// The gauges of one shard's channels, each read from the shard that owns it:
/// one process-wide value would move a quiet channel's gauge for an admission
/// its subscribers cannot see.
pub open spec fn shard_gauges(ids: Seq<u8>, reference: ShardReference) -> Seq<ChannelGauges> {
    Seq::new(
        ids.len(),
        |i: int|
            ChannelGauges {
                channel_id: ids[i],
                manifest_seq: reference.manifest_seq as u64,
                valid: reference.valid,
                instruments: match reference.published {
                    Some(count) => count,
                    None => 0,
                },
            },
    )
}

/// The gauges of the first `count` shards' channels.
pub open spec fn gauges_among(
    feeds: Seq<ShardView>,
    references: Seq<Option<ShardReference>>,
    count: nat,
) -> Seq<ChannelGauges>
    decreases count,
{
    if count == 0 {
        Seq::empty()
    } else {
        gauges_among(feeds, references, (count - 1) as nat) + match references[count - 1] {
            Some(reference) => shard_gauges(feeds[count - 1].channel_ids(), reference),
            None => Seq::empty(),
        }
    }
}

/// What the first `count` shards owe a tick. A shard the reference-data owner
/// has no manifest for owes nothing: one composed from another shard's set would
/// be a false statement about this channel.
pub open spec fn tick_among(
    feeds: Seq<ShardView>,
    references: Seq<Option<usize>>,
    now_mono_ns: u64,
    now_unix_ns: u64,
    count: nat,
) -> Seq<Step>
    decreases count,
{
    if count == 0 {
        Seq::empty()
    } else {
        tick_among(feeds, references, now_mono_ns, now_unix_ns, (count - 1) as nat)
            + match references[count - 1] {
            Some(definitions) => feeds[count - 1].both(
                |path: PipelineView| path.tick_steps(definitions, now_mono_ns, now_unix_ns),
            ),
            None => Seq::empty(),
        }
    }
}

/// A shard's send paths after a tick.
pub open spec fn ticked(shard: ShardView, reference: Option<usize>, now_mono_ns: u64) -> ShardView {
    match reference {
        Some(_) => shard.both_changed(|path: PipelineView| path.after_tick(now_mono_ns)),
        None => shard,
    }
}

/// How much of the process's snapshot capacity the first `count` rotations ask
/// for together.
pub open spec fn wanted(
    snapshots: Seq<Option<RotationView>>,
    published: Seq<Option<usize>>,
    process_tick: nat,
    count: nat,
) -> nat
    decreases count,
{
    if count == 0 {
        0
    } else {
        wanted(snapshots, published, process_tick, (count - 1) as nat) + match (
            snapshots[count - 1],
            published[count - 1],
        ) {
            (Some(rotation), Some(instruments)) => rotation::share(
                process_tick,
                rotation.cycle_ns as nat,
                instruments,
            ),
            _ => 0,
        }
    }
}

impl PublisherView {
    /// What the consistency guard has found once it has read the two states the
    /// publisher cannot recover from: the first finding stands.
    pub open spec fn consistency_after(self, fault: Option<String>) -> Option<Inconsistency> {
        if self.consistency is Some {
            self.consistency
        } else {
            match shard::dark_among(self.feeds, self.feeds.len()) {
                Some(sink) => Some(Inconsistency::EgressDark { sink }),
                None => match fault {
                    Some(detail) => Some(Inconsistency::StateUnpersistable { detail }),
                    None => None,
                },
            }
        }
    }

    /// Whether the configured cycles ask for more snapshots than one process
    /// can send.
    pub open spec fn overruns_now(
        self,
        published: Seq<Option<usize>>,
        process_tick: nat,
    ) -> bool {
        wanted(self.snapshots, published, process_tick, self.snapshots.len())
            > rotation::WHOLE_SNAPSHOT_CAPACITY
    }

    /// Whether the adapter's listings are to be drained.
    pub open spec fn poll_due(self, now_mono_ns: u64) -> bool {
        match self.last_poll_ns {
            None => true,
            Some(last) => behind(now_mono_ns, last) >= LISTING_POLL_NS,
        }
    }

    /// The first rotation's cycle, of the first that has one, from `from` on.
    pub open spec fn first_cycle(self, from: nat) -> Option<u64>
        decreases self.snapshots.len() - from,
    {
        if from >= self.snapshots.len() {
            None
        } else {
            match self.snapshots[from as int] {
                Some(rotation) => Some(rotation.cycle_ns),
                None => self.first_cycle(from + 1),
            }
        }
    }
}

impl Publisher {
    /// Read the adapter's venue-timestamp declaration, once, at startup. Returns
    /// how many kinds are available, for the gauge.
    pub fn declare_venue_timestamps(&mut self, declared: Option<VenueTimestampKind>) -> (available:
        i64)
        ensures
            final(self)@.venue_timestamp_kind == match declared {
                Some(kind) => Some(event::label_of(kind)),
                None => None,
            },
            final(self)@ == (PublisherView {
                venue_timestamp_kind: final(self)@.venue_timestamp_kind,
                ..old(self)@
            }),
            available == if declared is Some {
                1int
            } else {
                0int
            },
    {
        match declared {
            Some(kind) => {
                self.venue_timestamp_kind = Some(event::timestamp_kind(kind));
                1
            },
            None => {
                self.venue_timestamp_kind = None;
                0
            },
        }
    }

    /// Whether the adapter's listings are to be drained now, and if so whether
    /// this is the first time, after which the set is seeded. `None` where the
    /// poll is not due.
    pub fn poll_listings(&mut self, now_mono_ns: u64) -> (drain: Option<bool>)
        ensures
            drain == if old(self)@.poll_due(now_mono_ns) {
                Some(!old(self)@.seeded)
            } else {
                None
            },
            final(self)@ == if drain is Some {
                PublisherView { last_poll_ns: Some(now_mono_ns), seeded: true, ..old(self)@ }
            } else {
                old(self)@
            },
    {
        let due: bool = match self.last_poll_ns {
            None => true,
            Some(last) => now_mono_ns.saturating_sub(last) >= LISTING_POLL_NS,
        };
        if !due {
            return None;
        }
        self.last_poll_ns = Some(now_mono_ns);
        let first: bool = !self.seeded;
        self.seeded = true;
        Some(first)
    }

    /// The upstream said something the adapter recognised.
    pub fn upstream_message(&mut self, now_mono_ns: u64)
        ensures
            final(self)@ == (PublisherView {
                idle: IdleView {
                    last_upstream_ns: Some(now_mono_ns),
                    started_ns: guard::started(old(self)@.idle.started_ns, now_mono_ns),
                    ..old(self)@.idle
                },
                ..old(self)@
            }),
    {
        self.idle.upstream(now_mono_ns);
    }

    /// The transport states which payload is being mapped, and withdraws it.
    pub fn payload_scope(&mut self, recv_ts_ns: Option<u64>)
        ensures
            final(self)@ == (PublisherView { payload_recv_ts_ns: recv_ts_ns, ..old(self)@ }),
    {
        self.payload_recv_ts_ns = recv_ts_ns;
    }

    /// Everything the send paths owe a tick. `references` says how many
    /// definitions each shard's pacer owes, `None` for a shard the
    /// reference-data owner has no manifest for; a shard's pacer is asked once,
    /// and both of its feeds carry the answer.
    pub fn tick(&mut self, references: &Vec<Option<usize>>, now_mono_ns: u64, now_unix_ns: u64) -> (
    steps: Vec<Step>)
        requires
            references@.len() == old(self)@.feeds.len(),
        ensures
            steps@ == tick_among(
                old(self)@.feeds,
                references@,
                now_mono_ns,
                now_unix_ns,
                old(self)@.feeds.len(),
            ),
            final(self)@ == (PublisherView {
                feeds: Seq::new(
                    old(self)@.feeds.len(),
                    |i: int| ticked(old(self)@.feeds[i], references@[i], now_mono_ns),
                ),
                ..old(self)@
            }),
    {
        let ghost before = self@.feeds;
        let shards: usize = self.feeds.shard_count();
        let mut steps: Vec<Step> = Vec::new();
        let mut at: usize = 0;
        while at < shards
            invariant
                at <= shards == before.len() == references@.len(),
                before == old(self)@.feeds,
                self@.feeds.len() == shards,
                self@ == (PublisherView { feeds: self@.feeds, ..old(self)@ }),
                steps@ == tick_among(before, references@, now_mono_ns, now_unix_ns, at as nat),
                forall|i: int|
                    0 <= i < at ==> #[trigger] self@.feeds[i] == ticked(
                        before[i],
                        references@[i],
                        now_mono_ns,
                    ),
                forall|i: int| at <= i < shards ==> #[trigger] self@.feeds[i] == before[i],
            decreases shards - at,
        {
            let ghost held = self@.feeds;
            if let Some(definitions) = references[at] {
                if let Some(shard) = self.feeds.shard_mut(at) {
                    let mut more: Vec<Step> = shard.tick(definitions, now_mono_ns, now_unix_ns);
                    steps.append(&mut more);
                }
            } else {
                proof {
                    assert(steps@ + Seq::<Step>::empty() =~= steps@);
                }
            }
            proof {
                assert(held[at as int] == before[at as int]);
            }
            at += 1;
        }
        proof {
            assert(self@.feeds =~= Seq::new(
                old(self)@.feeds.len(),
                |i: int| ticked(old(self)@.feeds[i], references@[i], now_mono_ns),
            ));
        }
        steps
    }

    /// Forward the reference-data owner's counts to the metrics, as deltas.
    pub fn forward_counts(
        &mut self,
        counts: Counts,
        references: &Vec<Option<ShardReference>>,
        published: usize,
    ) -> (forwarded: Forwarded)
        requires
            references@.len() == old(self)@.feeds.len(),
        ensures
            forwarded.new_listings == behind(counts.admitted, old(self)@.forwarded.admitted),
            forwarded.delistings == behind(counts.delisted, old(self)@.forwarded.delisted),
            forwarded.definitions == behind(
                counts.definitions_emitted,
                old(self)@.forwarded.definitions_emitted,
            ),
            forwarded.load_errors == behind(
                counts.declined_unrepresentable,
                old(self)@.forwarded.declined_unrepresentable,
            ),
            forwarded.channels@ == gauges_among(
                old(self)@.feeds,
                references@,
                old(self)@.feeds.len(),
            ),
            forwarded.published == if published <= i64::MAX {
                published as int
            } else {
                i64::MAX as int
            },
            final(self)@ == (PublisherView { forwarded: counts, ..old(self)@ }),
    {
        let last: Counts = self.forwarded;
        self.forwarded = counts;
        let mut channels: Vec<ChannelGauges> = Vec::new();
        let shards: usize = self.feeds.shard_count();
        let mut at: usize = 0;
        while at < shards
            invariant
                at <= shards == self@.feeds.len() == references@.len(),
                self@ == (PublisherView { forwarded: counts, ..old(self)@ }),
                channels@ == gauges_among(self@.feeds, references@, at as nat),
            decreases shards - at,
        {
            match references[at] {
                Some(reference) => {
                    let mut more: Vec<ChannelGauges> = list_gauges(
                        &self.feeds.channel_ids_on(at),
                        reference,
                    );
                    channels.append(&mut more);
                },
                None => {
                    proof {
                        assert(channels@ + Seq::<ChannelGauges>::empty() =~= channels@);
                    }
                },
            }
            at += 1;
        }
        let published: u64 = published as u64;
        let published: i64 = if published <= i64::MAX as u64 {
            published as i64
        } else {
            i64::MAX
        };
        Forwarded {
            new_listings: counts.admitted.saturating_sub(last.admitted),
            delistings: counts.delisted.saturating_sub(last.delisted),
            definitions: counts.definitions_emitted.saturating_sub(last.definitions_emitted),
            load_errors: counts.declined_unrepresentable.saturating_sub(
                last.declined_unrepresentable,
            ),
            channels,
            published,
        }
    }

    /// Read the two states the publisher cannot recover from in place.
    pub fn check_consistency(&mut self, fault: Option<String>)
        ensures
            final(self)@ == (PublisherView {
                consistency: old(self)@.consistency_after(fault),
                ..old(self)@
            }),
    {
        if let Some(sink) = self.feeds.dark_transmitter() {
            let sink: String = sink.clone();
            self.consistency.found(Inconsistency::EgressDark { sink });
        }
        if let Some(detail) = fault {
            self.consistency.found(Inconsistency::StateUnpersistable { detail });
        }
    }

    /// Count a tick on which the configured cycles asked for more snapshots
    /// than one process, which serves one every `process_tick`, can send.
    pub fn count_overrun(&mut self, published: &Vec<Option<usize>>, process_tick: Duration)
        requires
            published@.len() == old(self)@.snapshots.len(),
            old(self)@.overruns < u64::MAX,
        ensures
            final(self)@ == if old(self)@.overruns_now(published@, process_tick@) {
                PublisherView { overruns: (old(self)@.overruns + 1) as u64, ..old(self)@ }
            } else {
                old(self)@
            },
    {
        let mut total: u64 = 0;
        let mut at: usize = 0;
        while at < self.snapshots.len()
            invariant
                at <= self.snapshots@.len() == self@.snapshots.len() == published@.len(),
                self@ == old(self)@,
                total == duration::clamped(
                    wanted(self@.snapshots, published@, process_tick@, at as nat),
                ),
            decreases self.snapshots@.len() - at,
        {
            proof {
                assert(self@.snapshots[at as int] == rotation_view(self.snapshots@[at as int]));
            }
            if let Some(rotation) = &self.snapshots[at] {
                if let Some(instruments) = published[at] {
                    let share: u64 = rotation::schedule_share(
                        process_tick,
                        rotation.cycle(),
                        instruments,
                    );
                    total = total.saturating_add(share);
                }
            }
            at += 1;
        }
        if total > rotation::WHOLE_SNAPSHOT_CAPACITY {
            self.overruns += 1;
        }
    }

    /// The exit a guard decides on, if one does. The consistency guard is read
    /// first: a transmitter whose failure darkens the publisher explains the
    /// silence the idle guard would report.
    pub fn exit(&self, now_mono_ns: u64) -> (exit: Option<Exit>)
        ensures
            exit == match self@.consistency {
                Some(what) => Some(Exit::ConsistencyGuard(what)),
                None => if self@.idle.fired(now_mono_ns) {
                    Some(Exit::IdleGuard)
                } else {
                    None
                },
            },
    {
        match self.consistency.check() {
            Some(exit) => Some(exit),
            None => self.idle.check(now_mono_ns),
        }
    }

    /// One full pass of a snapshot rotation, if this publisher runs one: the
    /// first shard that does answers for it.
    pub fn snapshot_cycle(&self) -> (cycle: Option<Duration>)
        ensures
            match cycle {
                Some(found) => self@.first_cycle(0) matches Some(nanos) && found@ == nanos,
                None => self@.first_cycle(0) is None,
            },
    {
        let mut at: usize = 0;
        while at < self.snapshots.len()
            invariant
                at <= self.snapshots@.len() == self@.snapshots.len(),
                self@.first_cycle(0) == self@.first_cycle(at as nat),
            decreases self.snapshots@.len() - at,
        {
            proof {
                assert(self@.snapshots[at as int] == rotation_view(self.snapshots@[at as int]));
            }
            if let Some(rotation) = &self.snapshots[at] {
                return Some(rotation.cycle());
            }
            at += 1;
        }
        None
    }

    /// Lowering refusals, by reason.
    pub fn refusals(&self) -> (refusals: Refusals)
        ensures
            refusals == self@.refusals,
    {
        self.refusals
    }

    /// Snapshots asked for and not sent.
    pub fn snapshot_refusals(&self) -> (refusals: SnapshotRefusals)
        ensures
            refusals == self@.snapshot_refusals,
    {
        self.snapshot_refusals
    }

    /// Events no enabled feed carried.
    pub fn unroutable(&self) -> (count: u64)
        ensures
            count == self@.unroutable,
    {
        self.unroutable
    }

    /// Ticks on which the configured cycles could not be met.
    pub fn snapshot_schedule_overruns(&self) -> (count: u64)
        ensures
            count == self@.overruns,
    {
        self.overruns
    }

    /// The send paths.
    pub fn feeds(&self) -> (feeds: &Feeds)
        ensures
            feeds@ == self@.feeds,
    {
        &self.feeds
    }

    /// One shard's send paths, to take in how its fan-outs stand.
    pub fn shard_mut(&mut self, index: usize) -> (feeds: Option<&mut ShardFeeds>)
        ensures
            match feeds {
                Some(found) => {
                    &&& index < old(self)@.feeds.len()
                    &&& (*found)@ == old(self)@.feeds[index as int]
                    &&& final(self)@ == (PublisherView {
                        feeds: old(self)@.feeds.update(index as int, (*final(found))@),
                        ..old(self)@
                    })
                },
                None => index >= old(self)@.feeds.len() && final(self)@ == old(self)@,
            },
    {
        self.feeds.shard_mut(index)
    }

    /// Every fan-out member that is no longer sent to.
    pub fn dropped_sinks(&self) -> (sinks: Vec<SinkRef>)
        ensures
            sinks@ == shard::dropped_among(self@.feeds, self@.feeds.len()),
    {
        self.feeds.dropped_sinks()
    }

    /// Every fan-out member whose route is down.
    pub fn path_down_sinks(&self) -> (sinks: Vec<SinkRef>)
        ensures
            sinks@ == shard::path_down_among(self@.feeds, self@.feeds.len()),
    {
        self.feeds.path_down_sinks()
    }
}

/// One step of the teardown, in the order it happens.
#[derive(Debug, Clone, Copy, PartialEq, Eq, Structural)]
pub enum TeardownStep {
    /// Nothing more will arrive from upstream.
    IngressStopped,
    /// The manifest is no longer valid and nothing further is admitted.
    AdmissionsClosed,
    /// The last manifest is on every channel instance's refdata port.
    FinalManifestSent,
    /// The end of the session is on every channel instance's mktdata port.
    EndOfSessionSent,
    /// Every port role's open datagram has been sent.
    PortsFlushed,
    /// The exit has been counted.
    ExitRecorded,
}

impl TeardownStep {
    /// The order every teardown follows.
    pub open spec fn order() -> Seq<TeardownStep> {
        seq![
            TeardownStep::IngressStopped,
            TeardownStep::AdmissionsClosed,
            TeardownStep::FinalManifestSent,
            TeardownStep::EndOfSessionSent,
            TeardownStep::PortsFlushed,
            TeardownStep::ExitRecorded,
        ]
    }
}

/// One thing a teardown does.
#[derive(Debug, Clone, Copy, PartialEq, Eq, Structural)]
pub enum TeardownAction {
    /// Close admissions at the reference-data owner.
    CloseAdmissions,
    /// Carry out a step of a send, whatever became of the others.
    Run(Step),
    /// Forward the reference-data owner's counts.
    ForwardCounts,
    /// Count the exit.
    RecordExit(ExitReason),
}

/// What a teardown did.
#[derive(Debug)]
pub struct Teardown {
    steps: Vec<TeardownStep>,
    exit: Exit,
}

/// A teardown as values to reason about.
pub struct TeardownView {
    pub steps: Seq<TeardownStep>,
    pub exit: Exit,
}

impl View for Teardown {
    type V = TeardownView;

    closed spec fn view(&self) -> TeardownView {
        TeardownView { steps: self.steps@, exit: self.exit }
    }
}

impl Teardown {
    /// The steps, in the order they happened.
    pub fn steps(&self) -> (steps: &Vec<TeardownStep>)
        ensures
            steps@ == self@.steps,
    {
        &self.steps
    }

    /// Why the process is ending.
    pub fn exit(&self) -> (exit: &Exit)
        ensures
            *exit == self@.exit,
    {
        &self.exit
    }
}

/// What is to be done to shut down, and what it comes to.
#[derive(Debug)]
pub struct ShutDown {
    /// Everything to do, in order.
    pub actions: Vec<TeardownAction>,
    pub teardown: Teardown,
}

/// Steps, as things a teardown does.
pub open spec fn running(steps: Seq<Step>) -> Seq<TeardownAction> {
    Seq::new(steps.len(), |i: int| TeardownAction::Run(steps[i]))
}

/// The last manifests of the first `count` shards, where there are any.
pub open spec fn manifests_among(
    feeds: Seq<ShardView>,
    manifests: Seq<bool>,
    now_unix_ns: u64,
    count: nat,
) -> Seq<Step>
    decreases count,
{
    if count == 0 {
        Seq::empty()
    } else {
        manifests_among(feeds, manifests, now_unix_ns, (count - 1) as nat) + if manifests[count
            - 1] {
            feeds[count - 1].both(|path: PipelineView| path.manifest_steps(now_unix_ns))
        } else {
            Seq::empty()
        }
    }
}

/// The ends of the session of the first `count` shards.
pub open spec fn ends_among(feeds: Seq<ShardView>, now_unix_ns: u64, count: nat) -> Seq<Step>
    decreases count,
{
    if count == 0 {
        Seq::empty()
    } else {
        ends_among(feeds, now_unix_ns, (count - 1) as nat) + feeds[count - 1].both(
            |path: PipelineView| path.mktdata_steps(EgressMessageType::EndOfSession, now_unix_ns),
        )
    }
}

/// The flushes of the first `count` shards.
pub open spec fn flushes_among(feeds: Seq<ShardView>, now_unix_ns: u64, count: nat) -> Seq<Step>
    decreases count,
{
    if count == 0 {
        Seq::empty()
    } else {
        flushes_among(feeds, now_unix_ns, (count - 1) as nat) + feeds[count - 1].both(
            |path: PipelineView| path.flush_steps(now_unix_ns),
        )
    }
}

/// Everything a teardown does: admissions close, every last manifest goes out,
/// then every end of the session, then every port role flushes, and the counts
/// and the exit are recorded.
pub open spec fn teardown_actions(
    feeds: Seq<ShardView>,
    manifests: Seq<bool>,
    exit: Exit,
    now_unix_ns: u64,
) -> Seq<TeardownAction> {
    seq![TeardownAction::CloseAdmissions] + running(
        manifests_among(feeds, manifests, now_unix_ns, feeds.len()) + ends_among(
            feeds,
            now_unix_ns,
            feeds.len(),
        ) + flushes_among(feeds, now_unix_ns, feeds.len()),
    ) + seq![
        TeardownAction::ForwardCounts,
        TeardownAction::RecordExit(exit.counted_under()),
    ]
}

/// A shard's send paths after a teardown.
pub open spec fn torn_down(shard: ShardView, manifest: bool, now_mono_ns: u64) -> ShardView {
    let after = if manifest {
        shard.both_changed(|path: PipelineView| path.after_manifest(now_mono_ns))
    } else {
        shard
    };
    after.both_changed(|path: PipelineView| path.after_mktdata(now_mono_ns))
}

fn push_running(actions: &mut Vec<TeardownAction>, steps: &Vec<Step>)
    ensures
        final(actions)@ == old(actions)@ + running(steps@),
{
    let ghost before = actions@;
    let mut at: usize = 0;
    proof {
        assert(actions@ =~= before + running(steps@).take(0));
    }
    while at < steps.len()
        invariant
            at <= steps.len(),
            actions@ == before + running(steps@).take(at as int),
        decreases steps.len() - at,
    {
        actions.push(TeardownAction::Run(steps[at]));
        proof {
            assert(actions@ =~= before + running(steps@).take(at + 1));
        }
        at += 1;
    }
    proof {
        assert(running(steps@).take(at as int) =~= running(steps@));
    }
}

impl Publisher {
    fn final_manifests(
        &mut self,
        manifests: &Vec<bool>,
        now_mono_ns: u64,
        now_unix_ns: u64,
    ) -> (steps: Vec<Step>)
        requires
            manifests@.len() == old(self)@.feeds.len(),
        ensures
            steps@ == manifests_among(
                old(self)@.feeds,
                manifests@,
                now_unix_ns,
                old(self)@.feeds.len(),
            ),
            final(self)@ == (PublisherView {
                feeds: Seq::new(
                    old(self)@.feeds.len(),
                    |i: int|
                        if manifests@[i] {
                            old(self)@.feeds[i].both_changed(
                                |path: PipelineView| path.after_manifest(now_mono_ns),
                            )
                        } else {
                            old(self)@.feeds[i]
                        },
                ),
                ..old(self)@
            }),
    {
        let ghost before = self@.feeds;
        let ghost change = |path: PipelineView| path.after_manifest(now_mono_ns);
        let ghost after = Seq::new(
            before.len(),
            |i: int|
                if manifests@[i] {
                    before[i].both_changed(change)
                } else {
                    before[i]
                },
        );
        let shards: usize = self.feeds.shard_count();
        let mut steps: Vec<Step> = Vec::new();
        let mut at: usize = 0;
        while at < shards
            invariant
                at <= shards == before.len() == manifests@.len() == after.len(),
                before == old(self)@.feeds,
                change == (|path: PipelineView| path.after_manifest(now_mono_ns)),
                after == Seq::new(
                    before.len(),
                    |i: int|
                        if manifests@[i] {
                            before[i].both_changed(change)
                        } else {
                            before[i]
                        },
                ),
                self@.feeds.len() == shards,
                self@ == (PublisherView { feeds: self@.feeds, ..old(self)@ }),
                steps@ == manifests_among(before, manifests@, now_unix_ns, at as nat),
                forall|i: int| 0 <= i < at ==> #[trigger] self@.feeds[i] == after[i],
                forall|i: int| at <= i < shards ==> #[trigger] self@.feeds[i] == before[i],
            decreases shards - at,
        {
            let ghost held = self@.feeds;
            proof {
                assert(held[at as int] == before[at as int]);
            }
            if manifests[at] {
                if let Some(shard) = self.feeds.shard_mut(at) {
                    let mut more: Vec<Step> = shard.send_manifests(now_mono_ns, now_unix_ns);
                    steps.append(&mut more);
                }
            } else {
                proof {
                    assert(steps@ + Seq::<Step>::empty() =~= steps@);
                }
            }
            at += 1;
        }
        proof {
            assert(self@.feeds =~= after);
        }
        steps
    }

    fn final_ends(&mut self, now_mono_ns: u64, now_unix_ns: u64) -> (steps: Vec<Step>)
        ensures
            steps@ == ends_among(old(self)@.feeds, now_unix_ns, old(self)@.feeds.len()),
            final(self)@ == (PublisherView {
                feeds: Seq::new(
                    old(self)@.feeds.len(),
                    |i: int|
                        old(self)@.feeds[i].both_changed(
                            |path: PipelineView| path.after_mktdata(now_mono_ns),
                        ),
                ),
                ..old(self)@
            }),
    {
        let ghost before = self@.feeds;
        let ghost change = |path: PipelineView| path.after_mktdata(now_mono_ns);
        let shards: usize = self.feeds.shard_count();
        let mut steps: Vec<Step> = Vec::new();
        let mut at: usize = 0;
        while at < shards
            invariant
                at <= shards == before.len(),
                before == old(self)@.feeds,
                change == (|path: PipelineView| path.after_mktdata(now_mono_ns)),
                self@.feeds.len() == shards,
                self@ == (PublisherView { feeds: self@.feeds, ..old(self)@ }),
                steps@ == ends_among(before, now_unix_ns, at as nat),
                forall|i: int|
                    0 <= i < at ==> #[trigger] self@.feeds[i] == before[i].both_changed(change),
                forall|i: int| at <= i < shards ==> #[trigger] self@.feeds[i] == before[i],
            decreases shards - at,
        {
            let ghost held = self@.feeds;
            proof {
                assert(held[at as int] == before[at as int]);
            }
            if let Some(shard) = self.feeds.shard_mut(at) {
                let mut more: Vec<Step> = shard.send_ends_of_session(now_mono_ns, now_unix_ns);
                steps.append(&mut more);
            }
            at += 1;
        }
        proof {
            assert(self@.feeds =~= Seq::new(
                before.len(),
                |i: int| before[i].both_changed(change),
            ));
        }
        steps
    }

    fn final_flushes(&self, now_unix_ns: u64) -> (steps: Vec<Step>)
        ensures
            steps@ == flushes_among(self@.feeds, now_unix_ns, self@.feeds.len()),
    {
        let shards: usize = self.feeds.shard_count();
        let mut steps: Vec<Step> = Vec::new();
        let mut at: usize = 0;
        while at < shards
            invariant
                at <= shards == self@.feeds.len(),
                steps@ == flushes_among(self@.feeds, now_unix_ns, at as nat),
            decreases shards - at,
        {
            if let Some(shard) = self.feeds.shard(at) {
                let mut more: Vec<Step> = shard.flush(now_unix_ns);
                steps.append(&mut more);
            }
            at += 1;
        }
        steps
    }

    /// Shut down, once nothing more arrives from upstream. `manifests` says
    /// which shards the reference-data owner has a manifest for.
    ///
    /// The last manifest goes out before the end of the session: a subscriber
    /// that stops reading there would otherwise never see it. The end of the
    /// session is the last statement on its port: anything after it would
    /// contradict it. And a datagram left open holds a number that has been
    /// assigned, so every port role flushes.
    pub fn shut_down(
        &mut self,
        exit: Exit,
        manifests: &Vec<bool>,
        now_mono_ns: u64,
        now_unix_ns: u64,
    ) -> (shut_down: ShutDown)
        requires
            manifests@.len() == old(self)@.feeds.len(),
        ensures
            shut_down.actions@ == teardown_actions(
                old(self)@.feeds,
                manifests@,
                exit,
                now_unix_ns,
            ),
            shut_down.teardown@ == (TeardownView { steps: TeardownStep::order(), exit }),
            final(self)@ == (PublisherView {
                feeds: Seq::new(
                    old(self)@.feeds.len(),
                    |i: int| torn_down(old(self)@.feeds[i], manifests@[i], now_mono_ns),
                ),
                ..old(self)@
            }),
    {
        let ghost before = self@.feeds;
        let mut actions: Vec<TeardownAction> = Vec::new();
        let mut steps: Vec<TeardownStep> = Vec::new();
        steps.push(TeardownStep::IngressStopped);

        actions.push(TeardownAction::CloseAdmissions);
        steps.push(TeardownStep::AdmissionsClosed);

        let manifest_steps: Vec<Step> = self.final_manifests(manifests, now_mono_ns, now_unix_ns);
        let ghost told = self@.feeds;
        push_running(&mut actions, &manifest_steps);
        steps.push(TeardownStep::FinalManifestSent);

        let end_steps: Vec<Step> = self.final_ends(now_mono_ns, now_unix_ns);
        let ghost ended = self@.feeds;
        push_running(&mut actions, &end_steps);
        steps.push(TeardownStep::EndOfSessionSent);

        let flush_steps: Vec<Step> = self.final_flushes(now_unix_ns);
        push_running(&mut actions, &flush_steps);
        steps.push(TeardownStep::PortsFlushed);

        actions.push(TeardownAction::ForwardCounts);
        actions.push(TeardownAction::RecordExit(exit.reason()));
        steps.push(TeardownStep::ExitRecorded);

        proof {
            cadences_do_not_change_what_is_sent(before, told, now_unix_ns, before.len());
            cadences_do_not_change_what_is_sent(before, ended, now_unix_ns, before.len());
            assert(actions@ =~= teardown_actions(before, manifests@, exit, now_unix_ns));
            assert(steps@ =~= TeardownStep::order());
            assert(self@.feeds =~= Seq::new(
                before.len(),
                |i: int| torn_down(before[i], manifests@[i], now_mono_ns),
            ));
        }
        ShutDown { actions, teardown: Teardown { steps, exit } }
    }
}

/// Whether two shards send alike: on the same channels, over the same ports.
spec fn sends_alike(one: Option<PipelineView>, other: Option<PipelineView>) -> bool {
    match (one, other) {
        (Some(left), Some(right)) => left.channel_id == right.channel_id && left.ports
            == right.ports,
        (None, None) => true,
        _ => false,
    }
}

proof fn cadences_do_not_change_what_is_sent(
    before: Seq<ShardView>,
    after: Seq<ShardView>,
    now_unix_ns: u64,
    count: nat,
)
    requires
        count <= before.len() == after.len(),
        forall|i: int|
            0 <= i < before.len() ==> sends_alike(
                (#[trigger] before[i]).top_of_book,
                after[i].top_of_book,
            ) && sends_alike(before[i].market_by_price, after[i].market_by_price),
    ensures
        ends_among(before, now_unix_ns, count) == ends_among(after, now_unix_ns, count),
        flushes_among(before, now_unix_ns, count) == flushes_among(after, now_unix_ns, count),
    decreases count,
{
    if count > 0 {
        cadences_do_not_change_what_is_sent(before, after, now_unix_ns, (count - 1) as nat);
        let left = before[count - 1];
        let right = after[count - 1];
        assert(sends_alike(left.top_of_book, right.top_of_book));
    }
}

fn list_gauges(ids: &Vec<u8>, reference: ShardReference) -> (gauges: Vec<ChannelGauges>)
    ensures
        gauges@ == shard_gauges(ids@, reference),
{
    let instruments: usize = match reference.published {
        Some(count) => count,
        None => 0,
    };
    let mut gauges: Vec<ChannelGauges> = Vec::new();
    let mut at: usize = 0;
    while at < ids.len()
        invariant
            at <= ids.len(),
            instruments == match reference.published {
                Some(count) => count,
                None => 0,
            },
            gauges@ == shard_gauges(ids@, reference).take(at as int),
        decreases ids.len() - at,
    {
        gauges.push(
            ChannelGauges {
                channel_id: ids[at],
                manifest_seq: reference.manifest_seq as u64,
                valid: reference.valid,
                instruments,
            },
        );
        proof {
            assert(gauges@ =~= shard_gauges(ids@, reference).take(at + 1));
        }
        at += 1;
    }
    proof {
        assert(shard_gauges(ids@, reference).take(at as int) =~= shard_gauges(ids@, reference));
    }
    gauges
}

proof fn searched_is(cursor: usize, shards: nat, offset: int)
    requires
        cursor < shards,
        0 <= offset < shards,
    ensures
        searched(cursor, shards, offset) == if cursor + offset < shards {
            cursor + offset
        } else {
            cursor + offset - shards
        },
{
    if cursor + offset < shards {
        vstd::arithmetic::div_mod::lemma_small_mod((cursor + offset) as nat, shards);
    } else {
        vstd::arithmetic::div_mod::lemma_mod_sub_multiples_vanish(
            cursor + offset,
            shards as int,
        );
        vstd::arithmetic::div_mod::lemma_small_mod((cursor + offset - shards) as nat, shards);
    }
}

proof fn found_by_search(
    before: PublisherView,
    after: PublisherView,
    now: u64,
    instruments: InstrumentTable,
    published: Seq<Option<usize>>,
    shard_of: Seq<Option<usize>>,
    handle: InstrumentRef,
    offset: int,
    shard: int,
)
    requires
        before.snapshots.len() == after.snapshots.len(),
        before.snapshots.len() <= usize::MAX,
        0 <= offset < before.snapshots.len(),
        before.snapshot_cursor < before.snapshots.len(),
        shard == searched(before.snapshot_cursor, before.snapshots.len(), offset),
        0 <= shard < before.snapshots.len(),
        after == (PublisherView {
            snapshots: after.snapshots,
            snapshot_cursor: after.snapshot_cursor,
            ..before
        }),
        after.snapshot_cursor == if shard + 1 < before.snapshots.len() {
            shard + 1
        } else {
            0
        },
        asked(
            before.snapshots[shard],
            after.snapshots[shard],
            now,
            instruments,
            published[shard],
            |slot: u32| admitted_to(shard_of, slot) == Some(shard as usize),
            Some(handle),
        ),
        forall|earlier: int|
            0 <= earlier < offset ==> {
                let other = #[trigger] searched(
                    before.snapshot_cursor,
                    before.snapshots.len(),
                    earlier,
                );
                asked(
                    before.snapshots[other],
                    after.snapshots[other],
                    now,
                    instruments,
                    published[other],
                    |slot: u32| admitted_to(shard_of, slot) == Some(other as usize),
                    None,
                )
            },
        forall|later: int|
            offset < later < before.snapshots.len() ==> {
                let other = #[trigger] searched(
                    before.snapshot_cursor,
                    before.snapshots.len(),
                    later,
                );
                after.snapshots[other] == before.snapshots[other]
            },
    ensures
        search(before, after, now, instruments, published, shard_of, Some(handle)),
{
    let shards = before.snapshots.len();
    if shard + 1 < shards {
        vstd::arithmetic::div_mod::lemma_small_mod((shard + 1) as nat, shards);
    } else {
        vstd::arithmetic::div_mod::lemma_mod_self_0(shards as int);
    }
    assert(found_at(
        before,
        after,
        now,
        instruments,
        published,
        shard_of,
        handle,
        offset,
    ));
}

fn has_reached(steps: &Vec<Step>, taken: &Vec<bool>) -> (yes: bool)
    requires
        taken@.len() == steps@.len(),
    ensures
        yes == reached(steps@, taken@),
{
    let mut at: usize = 1;
    while at < steps.len()
        invariant
            1 <= at,
            taken@.len() == steps@.len(),
            forall|i: int| 0 < i < at ==> !#[trigger] flushed_behind(steps@, taken@, i),
        decreases steps.len() - at,
    {
        let pushed: bool = match steps[at - 1].action {
            Action::Push { .. } => true,
            _ => false,
        };
        if pushed && steps[at].action == Action::Flush && taken[at - 1] && taken[at] {
            proof {
                assert(flushed_behind(steps@, taken@, at as int));
            }
            return true;
        }
        at += 1;
    }
    false
}

} // verus!
