//! What holds of a publisher whatever happens to it.

use vstd::prelude::*;

use crate::event::{EventClass, EventKind, SnapshotError};
use crate::guard::{Exit, ExitReason};
use crate::instrument;
use crate::instrument::{InstrumentRef, InstrumentTable};
use crate::pipeline;
use crate::pipeline::{Action, EgressMessageType, PipelineView, Step};
use crate::config::PortRole;
use crate::publisher;
use crate::publisher::{
    ChannelGauges,
    PublisherView,
    ShardReference,
    TeardownAction,
    TeardownStep,
};
use crate::rotation;
use crate::rotation::RotationView;
use crate::run;
use crate::shard;
use crate::shard::ShardView;

verus! {

/// A trade is lowered once and handed to both of its shard's feeds: they do not
/// carry two things that agree, they carry one.
pub proof fn one_trade_goes_to_both_feeds(feeds: Seq<ShardView>, index: usize, now_unix_ns: u64)
    requires
        index < feeds.len(),
        feeds[index as int].top_of_book is Some,
        feeds[index as int].market_by_price is Some,
    ensures
        publisher::event_steps(feeds, EventClass::Trade, Some(index), now_unix_ns)
            == feeds[index as int].top_of_book->0.mktdata_steps(
            EgressMessageType::Trade,
            now_unix_ns,
        ) + feeds[index as int].market_by_price->0.mktdata_steps(
            EgressMessageType::Trade,
            now_unix_ns,
        ),
{
}

/// A message inside a payload's scope is measured whatever it is: a trade under
/// its own label, everything that changes a book as a book update, and alike but
/// for that. Outside of one nothing is.
pub proof fn every_message_of_a_payload_is_measured(
    publisher: PublisherView,
    class: EventClass,
    source_ts_ns: u64,
    sent_unix_ns: u64,
)
    ensures
        ({
            let measured = publisher.arrival_latency(class, source_ts_ns, sent_unix_ns);
            let trade = publisher.arrival_latency(EventClass::Trade, source_ts_ns, sent_unix_ns);
            &&& measured is Some <==> publisher.payload_recv_ts_ns is Some
            &&& measured is Some ==> {
                &&& measured->0.kind == if class == EventClass::Trade {
                    EventKind::Trade
                } else {
                    EventKind::BookUpdate
                }
                &&& measured->0.recv_to_send_ns == trade->0.recv_to_send_ns
                &&& measured->0.venue_to_recv == trade->0.venue_to_recv
            }
        }),
{
}

/// A quote goes to the top-of-book feed and nowhere else; a level and a clear go
/// to the market-by-price feed and nowhere else.
pub proof fn each_feed_carries_its_own(feeds: Seq<ShardView>, index: usize, now_unix_ns: u64)
    requires
        index < feeds.len(),
    ensures
        publisher::event_steps(feeds, EventClass::Quote, Some(index), now_unix_ns)
            == shard::steps_of(
            feeds[index as int].top_of_book,
            |path: PipelineView| path.mktdata_steps(EgressMessageType::Quote, now_unix_ns),
        ),
        publisher::event_steps(feeds, EventClass::Level, Some(index), now_unix_ns)
            == shard::steps_of(
            feeds[index as int].market_by_price,
            |path: PipelineView| path.mktdata_steps(EgressMessageType::LevelUpdate, now_unix_ns),
        ),
        publisher::event_steps(feeds, EventClass::Clear, Some(index), now_unix_ns)
            == shard::steps_of(
            feeds[index as int].market_by_price,
            |path: PipelineView| path.mktdata_steps(EgressMessageType::BookClear, now_unix_ns),
        ),
{
    let quote = |path: PipelineView| path.mktdata_steps(EgressMessageType::Quote, now_unix_ns);
    let level = |path: PipelineView|
        path.mktdata_steps(EgressMessageType::LevelUpdate, now_unix_ns);
    let clear = |path: PipelineView| path.mktdata_steps(EgressMessageType::BookClear, now_unix_ns);
    assert(publisher::event_steps(feeds, EventClass::Quote, Some(index), now_unix_ns)
        =~= shard::steps_of(feeds[index as int].top_of_book, quote));
    assert(publisher::event_steps(feeds, EventClass::Level, Some(index), now_unix_ns)
        =~= shard::steps_of(feeds[index as int].market_by_price, level));
    assert(publisher::event_steps(feeds, EventClass::Clear, Some(index), now_unix_ns)
        =~= shard::steps_of(feeds[index as int].market_by_price, clear));
}

/// Whatever an event is, it leaves on the channels of the shard its instrument
/// was put on, and on their mktdata port.
pub proof fn an_event_stays_on_its_own_shard(
    feeds: Seq<ShardView>,
    class: EventClass,
    index: usize,
    now_unix_ns: u64,
)
    requires
        index < feeds.len(),
    ensures
        forall|i: int|
            0 <= i < publisher::event_steps(feeds, class, Some(index), now_unix_ns).len() ==> {
                let step = #[trigger] publisher::event_steps(
                    feeds,
                    class,
                    Some(index),
                    now_unix_ns,
                )[i];
                step.port_role == PortRole::Mktdata
                    && feeds[index as int].channel_ids().contains(step.channel_id)
            },
{
    let own = feeds[index as int];
    let steps = publisher::event_steps(feeds, class, Some(index), now_unix_ns);
    let ids = own.channel_ids();
    if let Some(path) = own.top_of_book {
        assert(ids[0] == path.channel_id);
    }
    if let Some(path) = own.market_by_price {
        assert(ids[ids.len() - 1] == path.channel_id);
    }
    assert forall|i: int| 0 <= i < steps.len() implies (#[trigger] steps[i]).port_role
        == PortRole::Mktdata && ids.contains(steps[i].channel_id) by {}
}

/// An event of an instrument the published set does not hold leaves on no
/// channel.
pub proof fn an_unpublished_instrument_reaches_no_channel(
    feeds: Seq<ShardView>,
    class: EventClass,
    now_unix_ns: u64,
)
    ensures
        publisher::event_steps(feeds, class, None, now_unix_ns).len() == 0,
{
}

/// A message a step puts into a datagram.
pub open spec fn pushes(step: Step, message: EgressMessageType) -> bool {
    step.action matches Action::Push { message: pushed, .. } && pushed == message
}

/// A step that puts nothing into a datagram.
pub open spec fn only_flushes(step: Step) -> bool {
    !(step.action is Push)
}

proof fn manifests_push_manifests(
    feeds: Seq<ShardView>,
    manifests: Seq<bool>,
    now_unix_ns: u64,
    count: nat,
)
    requires
        count <= feeds.len() == manifests.len(),
    ensures
        forall|i: int|
            0 <= i < publisher::manifests_among(feeds, manifests, now_unix_ns, count).len() ==> {
                let step = #[trigger] publisher::manifests_among(
                    feeds,
                    manifests,
                    now_unix_ns,
                    count,
                )[i];
                pushes(step, EgressMessageType::ManifestSummary) || only_flushes(step)
            },
    decreases count,
{
    if count > 0 {
        manifests_push_manifests(feeds, manifests, now_unix_ns, (count - 1) as nat);
    }
}

proof fn ends_push_ends(feeds: Seq<ShardView>, now_unix_ns: u64, count: nat)
    requires
        count <= feeds.len(),
    ensures
        forall|i: int|
            0 <= i < publisher::ends_among(feeds, now_unix_ns, count).len() ==> {
                let step = #[trigger] publisher::ends_among(feeds, now_unix_ns, count)[i];
                pushes(step, EgressMessageType::EndOfSession) || only_flushes(step)
            },
    decreases count,
{
    if count > 0 {
        ends_push_ends(feeds, now_unix_ns, (count - 1) as nat);
    }
}

proof fn flushes_push_nothing(feeds: Seq<ShardView>, now_unix_ns: u64, count: nat)
    requires
        count <= feeds.len(),
    ensures
        forall|i: int|
            0 <= i < publisher::flushes_among(feeds, now_unix_ns, count).len() ==> only_flushes(
                #[trigger] publisher::flushes_among(feeds, now_unix_ns, count)[i],
            ),
    decreases count,
{
    if count > 0 {
        flushes_push_nothing(feeds, now_unix_ns, (count - 1) as nat);
        let steps = |path: PipelineView| path.flush_steps(now_unix_ns);
        let last = feeds[count - 1].both(steps);
        assert forall|i: int| 0 <= i < last.len() implies only_flushes(#[trigger] last[i]) by {
            let first = shard::steps_of(feeds[count - 1].top_of_book, steps);
            if i < first.len() {
                assert(last[i] == first[i]);
            }
        }
        let before = publisher::flushes_among(feeds, now_unix_ns, (count - 1) as nat);
        let all = publisher::flushes_among(feeds, now_unix_ns, count);
        assert(all =~= before + last);
        assert forall|i: int| 0 <= i < all.len() implies only_flushes(#[trigger] all[i]) by {
            if i < before.len() {
                assert(all[i] == before[i]);
            } else {
                assert(all[i] == last[i - before.len()]);
            }
        }
    }
}

/// Once one action tells a channel that the session is over, no later one puts
/// anything else into a datagram.
pub open spec fn ends_have_the_last_word(actions: Seq<TeardownAction>) -> bool {
    forall|i: int, j: int|
        #![trigger actions[i], actions[j]]
        0 <= i < j < actions.len() && actions[i] is Run && pushes(
            actions[i]->Run_0,
            EgressMessageType::EndOfSession,
        ) && actions[j] is Run ==> pushes(actions[j]->Run_0, EgressMessageType::EndOfSession)
            || only_flushes(actions[j]->Run_0)
}

/// Admissions close before anything else and the exit is counted last. Once one
/// channel has been told that the session is over, nothing is put into any
/// datagram but the same for the others: what was said last is the last word.
pub proof fn nothing_follows_the_end_of_the_session(
    feeds: Seq<ShardView>,
    manifests: Seq<bool>,
    exit: Exit,
    now_unix_ns: u64,
)
    requires
        manifests.len() == feeds.len(),
    ensures
        publisher::teardown_actions(feeds, manifests, exit, now_unix_ns).first()
            == TeardownAction::CloseAdmissions,
        publisher::teardown_actions(feeds, manifests, exit, now_unix_ns).last()
            == TeardownAction::RecordExit(exit.counted_under()),
        ends_have_the_last_word(
            publisher::teardown_actions(feeds, manifests, exit, now_unix_ns),
        ),
{
    let count = feeds.len();
    manifests_push_manifests(feeds, manifests, now_unix_ns, count);
    ends_push_ends(feeds, now_unix_ns, count);
    flushes_push_nothing(feeds, now_unix_ns, count);
    let told = publisher::manifests_among(feeds, manifests, now_unix_ns, count);
    let ended = publisher::ends_among(feeds, now_unix_ns, count);
    let flushed = publisher::flushes_among(feeds, now_unix_ns, count);
    let actions = publisher::teardown_actions(feeds, manifests, exit, now_unix_ns);
    assert forall|i: int| 0 <= i < actions.len() && #[trigger] actions[i] is Run implies {
        let step = actions[i]->Run_0;
        &&& i <= told.len() ==> !pushes(step, EgressMessageType::EndOfSession)
        &&& i > told.len() ==> pushes(step, EgressMessageType::EndOfSession) || only_flushes(step)
    } by {
        let step = actions[i]->Run_0;
        if i <= told.len() {
            assert(step == told[i - 1]);
        } else if i <= told.len() + ended.len() {
            assert(step == ended[i - 1 - told.len()]);
        } else {
            assert(step == flushed[i - 1 - told.len() - ended.len()]);
        }
    }
}

/// The instruments that owe a recovery snapshot are drained in one way: each
/// once, in order, with the latest anchor promised.
pub proof fn there_is_one_way_to_drain(
    owed: Seq<(InstrumentRef, u64)>,
    one: Seq<(InstrumentRef, u64)>,
    other: Seq<(InstrumentRef, u64)>,
)
    requires
        publisher::is_drained(owed, one),
        publisher::is_drained(owed, other),
    ensures
        one.len() == other.len(),
        forall|i: int|
            0 <= i < one.len() ==> (#[trigger] one[i]).0@ == other[i].0@ && one[i].1 == other[i].1,
{
    assert(drained_so(owed, one) && drained_so(owed, other)) by {
        reveal(drained_so);
    }
    drained_one_way(owed, one, other);
}

proof fn drained_one_way(
    owed: Seq<(InstrumentRef, u64)>,
    one: Seq<(InstrumentRef, u64)>,
    other: Seq<(InstrumentRef, u64)>,
)
    requires
        drained_so(owed, one),
        drained_so(owed, other),
    ensures
        one.len() == other.len(),
        forall|i: int|
            0 <= i < one.len() ==> (#[trigger] one[i]).0@ == other[i].0@ && one[i].1 == other[i].1,
{
    let shorter = if one.len() <= other.len() {
        one.len() as int
    } else {
        other.len() as int
    };
    same_places(owed, one, other, shorter);
    if one.len() > other.len() {
        let k = place_in_other(owed, one, other, shorter);
        drained_in_order(owed, one, k, shorter);
    }
    if other.len() > one.len() {
        let k = place_in_other(owed, other, one, shorter);
        drained_in_order(owed, other, k, shorter);
    }
}

/// A reset that reached the wire is followed by a recovery snapshot of its
/// instrument, at the anchor it promised or at one a later reset promised; and at
/// its own where no reset of the instrument promised a later one.
pub proof fn a_reset_is_followed_by_its_snapshot(
    owed: Seq<(InstrumentRef, u64)>,
    instrument: InstrumentRef,
    anchor: u64,
    drained: Seq<(InstrumentRef, u64)>,
)
    requires
        publisher::is_drained(owed.push((instrument, anchor)), drained),
    ensures
        publisher::settles(drained, (instrument, anchor)),
        (forall|k: int|
            0 <= k < owed.len() && (#[trigger] owed[k]).0@ == instrument@ ==> owed[k].1 <= anchor)
            ==> exists|i: int|
            0 <= i < drained.len() && (#[trigger] drained[i]).0@ == instrument@ && drained[i].1
                == anchor,
{
    let all = owed.push((instrument, anchor));
    assert(all[owed.len() as int] == (instrument, anchor));
    assert(publisher::settles(drained, all[owed.len() as int]));
    let i = choose|i: int|
        0 <= i < drained.len() && (#[trigger] drained[i]).0@ == instrument@ && drained[i].1
            >= anchor;
    assert(all.contains(drained[i]));
    let k = choose|k: int| 0 <= k < all.len() && all[k] == drained[i];
    if k < owed.len() {
        assert(owed[k] == all[k]);
    }
}

#[verifier::opaque]
spec fn drained_so(owed: Seq<(InstrumentRef, u64)>, drained: Seq<(InstrumentRef, u64)>) -> bool {
    publisher::is_drained(owed, drained)
}

proof fn drained_in_order(
    owed: Seq<(InstrumentRef, u64)>,
    drained: Seq<(InstrumentRef, u64)>,
    i: int,
    j: int,
)
    requires
        drained_so(owed, drained),
        0 <= i < j < drained.len(),
    ensures
        drained[i].0@ < drained[j].0@,
{
    reveal(drained_so);
    reveal(publisher::ascends);
}

proof fn place_in_owed(
    owed: Seq<(InstrumentRef, u64)>,
    drained: Seq<(InstrumentRef, u64)>,
    i: int,
) -> (k: int)
    requires
        drained_so(owed, drained),
        0 <= i < drained.len(),
    ensures
        0 <= k < owed.len(),
        owed[k] == drained[i],
{
    reveal(drained_so);
    assert(owed.contains(drained[i]));
    choose|k: int| 0 <= k < owed.len() && owed[k] == drained[i]
}

proof fn place_that_settles(
    owed: Seq<(InstrumentRef, u64)>,
    drained: Seq<(InstrumentRef, u64)>,
    k: int,
) -> (i: int)
    requires
        drained_so(owed, drained),
        0 <= k < owed.len(),
    ensures
        0 <= i < drained.len(),
        drained[i].0@ == owed[k].0@,
        drained[i].1 >= owed[k].1,
{
    reveal(drained_so);
    assert(publisher::settles(drained, owed[k]));
    choose|i: int|
        0 <= i < drained.len() && (#[trigger] drained[i]).0@ == owed[k].0@ && drained[i].1
            >= owed[k].1
}

proof fn place_in_other(
    owed: Seq<(InstrumentRef, u64)>,
    one: Seq<(InstrumentRef, u64)>,
    other: Seq<(InstrumentRef, u64)>,
    i: int,
) -> (k: int)
    requires
        drained_so(owed, one),
        drained_so(owed, other),
        0 <= i < one.len(),
    ensures
        0 <= k < other.len(),
        other[k].0@ == one[i].0@,
        other[k].1 == one[i].1,
{
    let a = place_in_owed(owed, one, i);
    let k = place_that_settles(owed, other, a);
    let b = place_in_owed(owed, other, k);
    let m = place_that_settles(owed, one, b);
    if m < i {
        drained_in_order(owed, one, m, i);
    }
    if i < m {
        drained_in_order(owed, one, i, m);
    }
    k
}

proof fn same_places(
    owed: Seq<(InstrumentRef, u64)>,
    one: Seq<(InstrumentRef, u64)>,
    other: Seq<(InstrumentRef, u64)>,
    upto: int,
)
    requires
        drained_so(owed, one),
        drained_so(owed, other),
        0 <= upto <= one.len(),
        upto <= other.len(),
    ensures
        forall|i: int|
            0 <= i < upto ==> (#[trigger] one[i]).0@ == other[i].0@ && one[i].1 == other[i].1,
    decreases upto,
{
    if upto > 0 {
        let at = upto - 1;
        same_places(owed, one, other, at);
        let k = place_in_other(owed, one, other, at);
        let m = place_in_other(owed, other, one, at);
        if k < at {
            drained_in_order(owed, one, k, at);
        }
        if m < at {
            drained_in_order(owed, other, m, at);
        }
        if k > at {
            drained_in_order(owed, other, at, k);
        }
        if m > at {
            drained_in_order(owed, one, at, m);
        }
    }
}

/// What the consistency guard found first stands, whatever is found after.
pub proof fn the_first_finding_stands(
    publisher: PublisherView,
    first: Option<String>,
    next: Option<String>,
)
    requires
        publisher.consistency_after(first) is Some,
    ensures
        (PublisherView { consistency: publisher.consistency_after(first), ..publisher })
            .consistency_after(next) == publisher.consistency_after(first),
{
}

/// What two forwardings add is what one of both would have: no count is
/// forwarded twice and none is lost.
pub proof fn forwarded_counts_add_up(first: u64, then: u64, last: u64)
    requires
        first <= then <= last,
    ensures
        publisher::behind(then, first) + publisher::behind(last, then) == publisher::behind(
            last,
            first,
        ),
{
}

/// How many shards the search asks before this one.
pub open spec fn shards_ahead(cursor: usize, shards: nat, shard: int) -> int {
    if shard >= cursor {
        shard - cursor
    } else {
        shard - cursor + shards
    }
}

/// No shard is starved: a search that stops before it has asked a shard leaves
/// that shard nearer to the front, so it is asked within as many searches as
/// there are shards.
pub proof fn no_shard_is_starved(
    before: PublisherView,
    after: PublisherView,
    now_mono_ns: u64,
    instruments: InstrumentTable,
    published: Seq<Option<usize>>,
    shard_of: Seq<Option<usize>>,
    due: InstrumentRef,
    shard: int,
)
    requires
        before.well_formed(),
        published.len() == before.snapshots.len(),
        publisher::search(
            before,
            after,
            now_mono_ns,
            instruments,
            published,
            shard_of,
            Some(due),
        ),
        0 <= shard < before.snapshots.len(),
    ensures
        shards_ahead(after.snapshot_cursor, before.snapshots.len(), shard) < shards_ahead(
            before.snapshot_cursor,
            before.snapshots.len(),
            shard,
        ) || exists|found: Option<InstrumentRef>| #[trigger]
            publisher::shard_asked(
                before,
                after,
                now_mono_ns,
                instruments,
                published,
                shard_of,
                shards_ahead(before.snapshot_cursor, before.snapshots.len(), shard),
                found,
            ),
        publisher::searched(
            before.snapshot_cursor,
            before.snapshots.len(),
            shards_ahead(before.snapshot_cursor, before.snapshots.len(), shard),
        ) == shard,
{
    let shards = before.snapshots.len();
    let cursor = before.snapshot_cursor;
    let ahead = shards_ahead(cursor, shards, shard);
    let offset = choose|offset: int| #[trigger]
        publisher::found_at(
            before,
            after,
            now_mono_ns,
            instruments,
            published,
            shard_of,
            due,
            offset,
        );
    publisher::searched_is(cursor, shards, ahead);
    publisher::searched_is(cursor, shards, offset);
    let at = publisher::searched(cursor, shards, offset);
    if at + 1 < shards {
        vstd::arithmetic::div_mod::lemma_small_mod((at + 1) as nat, shards);
    } else {
        vstd::arithmetic::div_mod::lemma_mod_self_0(shards as int);
    }
    if ahead < offset {
        assert(publisher::shard_asked(
            before,
            after,
            now_mono_ns,
            instruments,
            published,
            shard_of,
            ahead,
            None,
        ));
    }
}

/// A message is published exactly where the channel took it and was flushed behind
/// it.
pub proof fn a_message_is_published_where_both_went_well(
    channel_id: u8,
    port_role: PortRole,
    message: EgressMessageType,
    send_ts_ns: u64,
    answers: Seq<bool>,
)
    requires
        answers.len() == 2,
    ensures
        ({
            let steps = pipeline::send(channel_id, port_role, message, send_ts_ns);
            publisher::reached(steps, pipeline::taken_of(steps, answers)) <==> answers[0]
                && answers[1]
        }),
{
    let steps = pipeline::send(channel_id, port_role, message, send_ts_ns);
    let taken = pipeline::taken_of(steps, answers);
    reveal_with_fuel(pipeline::taken_of, 3);
    assert(answers.drop_last().drop_last() =~= Seq::<bool>::empty());
    assert(taken =~= seq![answers[0], answers[0] && answers[1]]);
    if answers[0] && answers[1] {
        assert(publisher::flushed_behind(steps, taken, 1));
    }
}

/// A message that goes to two channels is published where either of them took it
/// and was flushed behind it: what becomes of one send is nothing to the other.
pub proof fn either_channel_publishes(one: Seq<Step>, other: Seq<Step>, answers: Seq<bool>)
    requires
        one.len() == 2,
        other.len() == 2,
        one[0].action is Push,
        one[1].action == Action::Flush,
        one[1].if_taken,
        !one[0].if_taken,
        other[0].action is Push,
        other[1].action == Action::Flush,
        other[1].if_taken,
        !other[0].if_taken,
        answers.len() == 4,
    ensures
        publisher::reached(one + other, pipeline::taken_of(one + other, answers)) <==> (answers[0]
            && answers[1]) || (answers[2] && answers[3]),
{
    let steps = one + other;
    let taken = pipeline::taken_of(steps, answers);
    reveal_with_fuel(pipeline::taken_of, 5);
    assert(answers.drop_last().drop_last().drop_last().drop_last() =~= Seq::<bool>::empty());
    assert(taken =~= seq![
        answers[0],
        answers[0] && answers[1],
        answers[2],
        answers[2] && answers[3],
    ]);
    if answers[0] && answers[1] {
        assert(publisher::flushed_behind(steps, taken, 1));
    }
    if answers[2] && answers[3] {
        assert(publisher::flushed_behind(steps, taken, 3));
    }
    if publisher::reached(steps, taken) {
        let at = choose|at: int|
            0 < at < steps.len() && #[trigger] publisher::flushed_behind(steps, taken, at);
        assert(at == 1 || at == 3);
    }
}

/// No instrument is sent two recovery snapshots in one pass of the loop.
pub proof fn a_pass_recovers_none_twice(
    owed: Seq<(InstrumentRef, u64)>,
    drained: Seq<(InstrumentRef, u64)>,
    one: int,
    other: int,
)
    requires
        publisher::is_drained(owed, drained),
        0 <= one < other < run::pass_steps(drained).len(),
        run::pass_steps(drained)[one] is RecoverySnapshot,
        run::pass_steps(drained)[other] is RecoverySnapshot,
    ensures
        run::pass_steps(drained)[one]->instrument != run::pass_steps(drained)[other]->instrument,
{
    reveal(publisher::ascends);
    run::each_step_has_its_place(drained, one);
    run::each_step_has_its_place(drained, other);
}

/// Every instrument that is owed a recovery snapshot is sent one in the pass that
/// drains it, at no older an anchor than was promised.
pub proof fn a_pass_recovers_what_is_owed(
    owed: Seq<(InstrumentRef, u64)>,
    drained: Seq<(InstrumentRef, u64)>,
    debt: int,
) -> (at: int)
    requires
        publisher::is_drained(owed, drained),
        0 <= debt < owed.len(),
    ensures
        0 <= at < run::pass_steps(drained).len(),
        run::pass_steps(drained)[at] is RecoverySnapshot,
        run::pass_steps(drained)[at]->instrument == owed[debt].0,
        run::pass_steps(drained)[at]->anchor >= owed[debt].1,
{
    assert(publisher::settles(drained, owed[debt]));
    let i = choose|i: int|
        0 <= i < drained.len() && (#[trigger] drained[i]).0@ == owed[debt].0@ && drained[i].1
            >= owed[debt].1;
    instrument::one_handle_per_slot(drained[i].0, owed[debt].0);
    run::each_step_has_its_place(drained, 0);
    run::each_step_has_its_place(drained, i + 4);
    i + 4
}

/// Every trade is lowered, whatever feeds there are: a shard publishes its trades
/// on whichever it has.
pub proof fn a_trade_is_never_dropped(feeds: Seq<ShardView>, on: Option<usize>)
    ensures
        publisher::carries(feeds, EventClass::Trade, on),
{
}

/// An event of an instrument on a shard is dropped only where no feed of that
/// shard carries its class: a quote without a top-of-book feed, and a level or a
/// clear without a market-by-price one. What nobody knows is dropped.
pub proof fn an_event_is_lowered_where_its_shard_carries_it(feeds: Seq<ShardView>, index: usize)
    requires
        index < feeds.len(),
    ensures
        publisher::carries(feeds, EventClass::Quote, Some(index))
            <==> feeds[index as int].top_of_book is Some,
        publisher::carries(feeds, EventClass::Level, Some(index))
            <==> feeds[index as int].market_by_price is Some,
        publisher::carries(feeds, EventClass::Clear, Some(index))
            <==> feeds[index as int].market_by_price is Some,
        !publisher::carries(feeds, EventClass::Other, Some(index)),
{
}

/// An event of an instrument nobody holds is lowered, for the lowering to refuse
/// it by name, unless no shard at all has a feed of its class.
pub proof fn an_unknown_instrument_is_left_to_the_lowering(feeds: Seq<ShardView>, at: int)
    ensures
        0 <= at < feeds.len() && feeds[at].top_of_book is Some ==> publisher::carries(
            feeds,
            EventClass::Quote,
            None,
        ),
        0 <= at < feeds.len() && feeds[at].market_by_price is Some ==> publisher::carries(
            feeds,
            EventClass::Level,
            None,
        ) && publisher::carries(feeds, EventClass::Clear, None),
        (forall|i: int| 0 <= i < feeds.len() ==> (#[trigger] feeds[i]).top_of_book is None)
            ==> !publisher::carries(feeds, EventClass::Quote, None),
        (forall|i: int| 0 <= i < feeds.len() ==> (#[trigger] feeds[i]).market_by_price is None)
            ==> !publisher::carries(feeds, EventClass::Level, None) && !publisher::carries(
            feeds,
            EventClass::Clear,
            None,
        ),
        !publisher::carries(feeds, EventClass::Other, None),
{
}

/// One message sent from one place of a list of steps on: put into a channel's
/// mktdata datagram, which is flushed if it was taken.
pub open spec fn sends_at(
    steps: Seq<Step>,
    at: int,
    channel_id: u8,
    message: EgressMessageType,
    send_ts_ns: u64,
) -> bool {
    &&& 0 <= at < steps.len() - 1
    &&& pipeline::puts(steps[at], PortRole::Mktdata, message, 0)
    &&& steps[at].channel_id == channel_id
    &&& steps[at].send_ts_ns == send_ts_ns
    &&& !steps[at].if_taken
    &&& steps[at + 1].action == Action::Flush
    &&& steps[at + 1].port_role == PortRole::Mktdata
    &&& steps[at + 1].channel_id == channel_id
    &&& steps[at + 1].send_ts_ns == send_ts_ns
    &&& steps[at + 1].if_taken
}

/// What each event is sent as, and on which channels of its shard: a quote on the
/// top-of-book channel, a level and a clear on the market-by-price channel and a
/// trade on both that are there, each as its own message, once, and nothing else.
pub proof fn each_event_is_sent_as_itself(feeds: Seq<ShardView>, index: usize, now_unix_ns: u64)
    requires
        index < feeds.len(),
    ensures
        ({
            let top = feeds[index as int].top_of_book;
            let depth = feeds[index as int].market_by_price;
            let on = Some(index);
            let quote = publisher::event_steps(feeds, EventClass::Quote, on, now_unix_ns);
            let trade = publisher::event_steps(feeds, EventClass::Trade, on, now_unix_ns);
            let level = publisher::event_steps(feeds, EventClass::Level, on, now_unix_ns);
            let clear = publisher::event_steps(feeds, EventClass::Clear, on, now_unix_ns);
            &&& top is None ==> quote.len() == 0
            &&& top matches Some(path) ==> quote.len() == 2 && sends_at(
                quote,
                0,
                path.channel_id,
                EgressMessageType::Quote,
                now_unix_ns,
            )
            &&& depth is None ==> level.len() == 0 && clear.len() == 0
            &&& depth matches Some(path) ==> level.len() == 2 && clear.len() == 2 && sends_at(
                level,
                0,
                path.channel_id,
                EgressMessageType::LevelUpdate,
                now_unix_ns,
            ) && sends_at(clear, 0, path.channel_id, EgressMessageType::BookClear, now_unix_ns)
            &&& trade.len() == (if top is Some {
                2int
            } else {
                0
            }) + (if depth is Some {
                2int
            } else {
                0
            })
            &&& top matches Some(path) ==> sends_at(
                trade,
                0,
                path.channel_id,
                EgressMessageType::Trade,
                now_unix_ns,
            )
            &&& depth matches Some(path) ==> sends_at(
                trade,
                trade.len() - 2,
                path.channel_id,
                EgressMessageType::Trade,
                now_unix_ns,
            )
            &&& publisher::event_steps(feeds, EventClass::Other, on, now_unix_ns).len() == 0
        }),
{
}

/// An event puts off the heartbeat of the channels it went to, and leaves every
/// other send path as it was.
pub proof fn an_event_moves_its_own_channels(
    feeds: Seq<ShardView>,
    class: EventClass,
    index: usize,
    now_mono_ns: u64,
)
    requires
        index < feeds.len(),
    ensures
        ({
            let after = publisher::after_event(feeds, class, Some(index), now_mono_ns);
            let before = feeds[index as int];
            let top = class == EventClass::Quote || class == EventClass::Trade;
            let depth = class == EventClass::Trade || class == EventClass::Level || class
                == EventClass::Clear;
            &&& after.len() == feeds.len()
            &&& forall|i: int|
                0 <= i < feeds.len() && i != index ==> #[trigger] after[i] == feeds[i]
            &&& after[index as int].name == before.name
            &&& after[index as int].top_of_book is Some <==> before.top_of_book is Some
            &&& after[index as int].market_by_price is Some <==> before.market_by_price is Some
            &&& !top ==> after[index as int].top_of_book == before.top_of_book
            &&& !depth ==> after[index as int].market_by_price == before.market_by_price
            &&& top && before.top_of_book is Some ==> moved_to(
                before.top_of_book->0,
                after[index as int].top_of_book->0,
                now_mono_ns,
            )
            &&& depth && before.market_by_price is Some ==> moved_to(
                before.market_by_price->0,
                after[index as int].market_by_price->0,
                now_mono_ns,
            )
        }),
{
}

/// A send path on which something was sent at a moment.
pub open spec fn moved_to(before: PipelineView, after: PipelineView, now_mono_ns: u64) -> bool {
    &&& after.last_mktdata_ns == Some(now_mono_ns)
    &&& after.next_manifest_ns == before.next_manifest_ns
    &&& pipeline::sends_as(before, after)
}

/// A latency is measured from the payload's own stamp: to the send, and from the
/// venue's stamp under the clock the adapter declared; and a stamp from ahead of
/// this clock is no time at all.
pub proof fn a_latency_is_the_time_that_passed(
    publisher: PublisherView,
    class: EventClass,
    source_ts_ns: u64,
    recv_ts_ns: u64,
    sent_unix_ns: u64,
)
    requires
        publisher.payload_recv_ts_ns == Some(recv_ts_ns),
    ensures
        ({
            let measured = publisher.arrival_latency(class, source_ts_ns, sent_unix_ns);
            &&& measured is Some
            &&& recv_ts_ns <= sent_unix_ns ==> measured->0.recv_to_send_ns == sent_unix_ns
                - recv_ts_ns
            &&& recv_ts_ns > sent_unix_ns ==> measured->0.recv_to_send_ns == 0
            &&& publisher.venue_timestamp_kind is None ==> measured->0.venue_to_recv is None
            &&& publisher.venue_timestamp_kind matches Some(kind) ==> {
                &&& measured->0.venue_to_recv matches Some((label, nanos))
                &&& label == kind
                &&& source_ts_ns <= recv_ts_ns ==> nanos == recv_ts_ns - source_ts_ns
                &&& source_ts_ns > recv_ts_ns ==> nanos == 0
            }
        }),
{
}

/// A count is forwarded as what it has grown by.
pub proof fn a_delta_is_the_growth(now: u64, last: u64)
    ensures
        last <= now ==> publisher::behind(now, last) == now - last,
        last > now ==> publisher::behind(now, last) == 0,
{
}

/// A message that reached the wire moves the idle guard to this moment, and
/// nothing else of the publisher.
pub proof fn publishing_moves_the_guard_alone(publisher: PublisherView, now_mono_ns: u64)
    ensures
        ({
            let after = publisher.after_published(now_mono_ns);
            &&& after.idle.last_published_ns == Some(now_mono_ns)
            &&& after.idle.window == publisher.idle.window
            &&& after.idle.last_upstream_ns == publisher.idle.last_upstream_ns
            &&& after.idle.started_ns is Some
            &&& publisher.idle.started_ns is Some ==> after.idle.started_ns
                == publisher.idle.started_ns
            &&& after == (PublisherView { idle: after.idle, ..publisher })
        }),
{
}

/// A book state is anchored where its instrument's own depth channel is, and at
/// nothing else: no other send path's number has any part in it.
pub proof fn an_anchor_is_of_its_own_channel(
    publisher: PublisherView,
    other: PublisherView,
    index: usize,
    next: u64,
)
    requires
        index < publisher.feeds.len(),
        publisher.feeds[index as int].market_by_price is Some,
        publisher.feeds[index as int].market_by_price->0.ports.mktdata.next_sequence == Some(next),
        index < other.feeds.len(),
        other.feeds[index as int].market_by_price == publisher.feeds[index as int].market_by_price,
    ensures
        publisher.live_anchor(Some(index)) == next,
        other.live_anchor(Some(index)) == next,
        publisher::carries_depth(publisher.feeds, Some(index)),
{
}

/// Asking for the anchor of a snapshot gives where the instrument's own depth
/// channel is and changes nothing; without a depth feed on the instrument's shard
/// it is refused as that and counted, whatever the other shards have.
pub proof fn a_snapshot_is_anchored_or_refused(
    before: PublisherView,
    after: PublisherView,
    index: usize,
    anchor: Result<u64, SnapshotError>,
)
    requires
        index < before.feeds.len(),
        publisher::anchored(before, after, Some(index), anchor),
        before.snapshot_refusals.refused < u64::MAX,
    ensures
        before.feeds[index as int].market_by_price matches Some(path) ==> {
            &&& anchor is Ok
            &&& after == before
            &&& path.ports.mktdata.next_sequence matches Some(next) ==> anchor->Ok_0 == next
            &&& path.ports.mktdata.next_sequence is None ==> anchor->Ok_0 == 0
        },
        before.feeds[index as int].market_by_price is None ==> {
            &&& anchor is Err
            &&& anchor->Err_0 == SnapshotError::NoDepthFeed
            &&& after.snapshot_refusals.refused == before.snapshot_refusals.refused + 1
            &&& after.snapshot_refusals.not_ready == before.snapshot_refusals.not_ready
            &&& after.feeds == before.feeds
            &&& after.owed == before.owed
        },
{
}

/// A composed publisher has done nothing, guards the window it was given, and has
/// a rotation for each shard whose depth feed states a cycle and for no other.
pub proof fn a_composed_publisher_is_new(feeds: Seq<ShardView>, idle_guard: nat, at: int)
    ensures
        ({
            let new = publisher::composed(feeds, idle_guard);
            &&& new.feeds == feeds
            &&& new.idle.window == idle_guard
            &&& new.idle.last_upstream_ns is None
            &&& new.idle.last_published_ns is None
            &&& new.idle.started_ns is None
            &&& new.consistency is None
            &&& new.unroutable == 0
            &&& new.owed.len() == 0
            &&& new.payload_recv_ts_ns is None
            &&& new.venue_timestamp_kind is None
            &&& new.last_poll_ns is None
            &&& !new.seeded
            &&& new.overruns == 0
            &&& new.snapshot_cursor == 0
            &&& new.snapshots.len() == feeds.len()
            &&& new.forwarded.admitted == 0 && new.forwarded.delisted == 0
            &&& new.forwarded.definitions_emitted == 0
            &&& new.forwarded.declined_unrepresentable == 0
            &&& new.refusals.unknown_instrument == 0 && new.refusals.inexact_contract == 0
            &&& new.refusals.too_precise == 0 && new.refusals.malformed == 0
            &&& new.refusals.overflow == 0
            &&& new.snapshot_refusals.not_ready == 0 && new.snapshot_refusals.refused == 0
            &&& 0 <= at < feeds.len() ==> {
                let depth = feeds[at].market_by_price;
                &&& new.snapshots[at] is Some <==> depth is Some && depth->0.snapshot_cycle is Some
                &&& new.snapshots[at] matches Some(rotation) ==> {
                    &&& rotation.cursor == 0
                    &&& rotation.next_due_ns is None
                    &&& depth->0.snapshot_cycle->0@ <= u64::MAX ==> rotation.cycle_ns
                        == depth->0.snapshot_cycle->0@
                    &&& depth->0.snapshot_cycle->0@ > u64::MAX ==> rotation.cycle_ns == u64::MAX
                }
            }
        }),
{
}

/// The listings are drained at once, and then once a second.
pub proof fn listings_are_polled_every_second(
    publisher: PublisherView,
    last: u64,
    now_mono_ns: u64,
)
    ensures
        publisher.last_poll_ns is None ==> publisher.poll_due(now_mono_ns),
        publisher.last_poll_ns == Some(last) ==> (publisher.poll_due(now_mono_ns)
            <==> now_mono_ns - last >= 1_000_000_000),
{
}

/// The cycle a publisher answers with is that of its first shard that has one.
pub proof fn the_first_rotation_answers(publisher: PublisherView, from: nat, at: int)
    requires
        from <= at < publisher.snapshots.len(),
        publisher.snapshots[at] is Some,
        forall|i: int| from <= i < at ==> (#[trigger] publisher.snapshots[i]) is None,
    ensures
        publisher.first_cycle(from) == Some(publisher.snapshots[at]->0.cycle_ns),
    decreases at - from,
{
    if from < at {
        assert(publisher.snapshots[from as int] is None);
        the_first_rotation_answers(publisher, from + 1, at);
    }
}

/// Without a rotation there is no cycle to answer with.
pub proof fn no_rotation_answers_nothing(publisher: PublisherView, from: nat)
    requires
        forall|i: int|
            from <= i < publisher.snapshots.len() ==> (#[trigger] publisher.snapshots[i]) is None,
    ensures
        publisher.first_cycle(from) is None,
    decreases publisher.snapshots.len() - from,
{
    if from < publisher.snapshots.len() {
        assert(publisher.snapshots[from as int] is None);
        no_rotation_answers_nothing(publisher, from + 1);
    }
}

/// What is drained is what is owed, each instrument once and in slot order.
pub proof fn what_is_drained_is_owed(
    owed: Seq<(InstrumentRef, u64)>,
    drained: Seq<(InstrumentRef, u64)>,
    one: int,
    other: int,
)
    requires
        publisher::is_drained(owed, drained),
        0 <= one < drained.len(),
    ensures
        exists|k: int| 0 <= k < owed.len() && #[trigger] owed[k] == drained[one],
        one < other < drained.len() ==> drained[one].0@ < drained[other].0@,
{
    reveal(publisher::ascends);
    assert(owed.contains(drained[one]));
}

/// A tick does, for each send path of each shard the reference-data owner has a
/// manifest for, all that the send path owes; a shard it has none for does
/// nothing.
pub proof fn every_shard_with_a_manifest_ticks(
    feeds: Seq<ShardView>,
    references: Seq<Option<usize>>,
    now_mono_ns: u64,
    now_unix_ns: u64,
    count: nat,
    at: int,
    definitions: usize,
)
    requires
        0 <= at < count <= feeds.len() == references.len(),
        references[at] == Some(definitions),
    ensures
        ({
            let steps = publisher::tick_among(
                feeds,
                references,
                now_mono_ns,
                now_unix_ns,
                count,
            );
            &&& feeds[at].top_of_book matches Some(path) ==> shard::holds_run(
                steps,
                path.tick_steps(definitions, now_mono_ns, now_unix_ns),
            )
            &&& feeds[at].market_by_price matches Some(path) ==> shard::holds_run(
                steps,
                path.tick_steps(definitions, now_mono_ns, now_unix_ns),
            )
        }),
    decreases count,
{
    let before = publisher::tick_among(
        feeds,
        references,
        now_mono_ns,
        now_unix_ns,
        (count - 1) as nat,
    );
    let all = publisher::tick_among(feeds, references, now_mono_ns, now_unix_ns, count);
    let none = Seq::<Step>::empty();
    let part = |path: PipelineView| path.tick_steps(definitions, now_mono_ns, now_unix_ns);
    if at < count - 1 {
        every_shard_with_a_manifest_ticks(
            feeds,
            references,
            now_mono_ns,
            now_unix_ns,
            (count - 1) as nat,
            at,
            definitions,
        );
        let more = all.skip(before.len() as int);
        assert(none + before + more =~= all);
        if let Some(path) = feeds[at].top_of_book {
            shard::a_run_stays(none, before, more, part(path));
        }
        if let Some(path) = feeds[at].market_by_price {
            shard::a_run_stays(none, before, more, part(path));
        }
    } else {
        shard::both_paths_have_their_part(feeds[at], part);
        let more = feeds[at].both(part);
        assert(before + more + none =~= all);
        if let Some(path) = feeds[at].top_of_book {
            shard::a_run_stays(before, more, none, part(path));
        }
        if let Some(path) = feeds[at].market_by_price {
            shard::a_run_stays(before, more, none, part(path));
        }
    }
}

/// A shard without a manifest adds nothing to a tick, and none of it moves.
pub proof fn a_shard_without_a_manifest_does_not_tick(
    feeds: Seq<ShardView>,
    references: Seq<Option<usize>>,
    now_mono_ns: u64,
    now_unix_ns: u64,
    count: nat,
)
    requires
        0 < count <= feeds.len() == references.len(),
        references[count - 1] is None,
    ensures
        publisher::tick_among(feeds, references, now_mono_ns, now_unix_ns, count)
            == publisher::tick_among(
            feeds,
            references,
            now_mono_ns,
            now_unix_ns,
            (count - 1) as nat,
        ),
        publisher::tick_among(feeds, references, now_mono_ns, now_unix_ns, 0).len() == 0,
        publisher::ticked(feeds[count - 1], references[count - 1], now_mono_ns) == feeds[count - 1],
{
}

/// A shard that ticks has both of its send paths tick.
pub proof fn a_shard_ticks_whole(shard: ShardView, definitions: usize, now_mono_ns: u64)
    ensures
        ({
            let after = publisher::ticked(shard, Some(definitions), now_mono_ns);
            &&& after.name == shard.name
            &&& shard.top_of_book matches Some(path) ==> after.top_of_book == Some(
                path.after_tick(now_mono_ns),
            )
            &&& shard.market_by_price matches Some(path) ==> after.market_by_price == Some(
                path.after_tick(now_mono_ns),
            )
            &&& shard.top_of_book is None ==> after.top_of_book is None
            &&& shard.market_by_price is None ==> after.market_by_price is None
        }),
{
}

/// A gauge that says of a channel what is so of the shard that owns it.
pub open spec fn gauges(
    all: Seq<ChannelGauges>,
    channel_id: u8,
    reference: ShardReference,
) -> bool {
    exists|i: int|
        0 <= i < all.len() && (#[trigger] all[i]).channel_id == channel_id && all[i].manifest_seq
            == reference.manifest_seq && all[i].valid == reference.valid && all[i].instruments
            == match reference.published {
            Some(count) => count,
            None => 0,
        }
}

/// Every channel of every shard the reference-data owner has a set for is gauged
/// by what is so of its own shard, and no other channel is gauged.
pub proof fn every_channel_is_gauged_by_its_own_shard(
    feeds: Seq<ShardView>,
    references: Seq<Option<ShardReference>>,
    count: nat,
    at: int,
    reference: ShardReference,
)
    requires
        0 <= at < count <= feeds.len() == references.len(),
        references[at] == Some(reference),
    ensures
        feeds[at].top_of_book matches Some(path) ==> gauges(
            publisher::gauges_among(feeds, references, count),
            path.channel_id,
            reference,
        ),
        feeds[at].market_by_price matches Some(path) ==> gauges(
            publisher::gauges_among(feeds, references, count),
            path.channel_id,
            reference,
        ),
    decreases count,
{
    let before = publisher::gauges_among(feeds, references, (count - 1) as nat);
    let all = publisher::gauges_among(feeds, references, count);
    if at < count - 1 {
        every_channel_is_gauged_by_its_own_shard(
            feeds,
            references,
            (count - 1) as nat,
            at,
            reference,
        );
        if let Some(path) = feeds[at].top_of_book {
            let i = choose|i: int|
                0 <= i < before.len() && (#[trigger] before[i]).channel_id == path.channel_id
                    && before[i].manifest_seq == reference.manifest_seq && before[i].valid
                    == reference.valid && before[i].instruments == match reference.published {
                    Some(count) => count,
                    None => 0,
                };
            assert(all[i] == before[i]);
        }
        if let Some(path) = feeds[at].market_by_price {
            let i = choose|i: int|
                0 <= i < before.len() && (#[trigger] before[i]).channel_id == path.channel_id
                    && before[i].manifest_seq == reference.manifest_seq && before[i].valid
                    == reference.valid && before[i].instruments == match reference.published {
                    Some(count) => count,
                    None => 0,
                };
            assert(all[i] == before[i]);
        }
    } else {
        if let Some(path) = feeds[at].top_of_book {
            assert(all[before.len() as int].channel_id == path.channel_id);
        }
        if let Some(path) = feeds[at].market_by_price {
            assert(all[all.len() - 1].channel_id == path.channel_id);
        }
    }
}

/// A gauge stands for a send path of a shard with a set: there are as many as
/// those.
pub proof fn no_channel_is_gauged_twice(
    feeds: Seq<ShardView>,
    references: Seq<Option<ShardReference>>,
    count: nat,
)
    requires
        0 < count <= feeds.len() == references.len(),
    ensures
        publisher::gauges_among(feeds, references, 0).len() == 0,
        publisher::gauges_among(feeds, references, count).len() == publisher::gauges_among(
            feeds,
            references,
            (count - 1) as nat,
        ).len() + if references[count - 1] is Some {
            (if feeds[count - 1].top_of_book is Some {
                1int
            } else {
                0
            }) + (if feeds[count - 1].market_by_price is Some {
                1int
            } else {
                0
            })
        } else {
            0
        },
{
}

/// What the rotations ask for together is what each asks for, added up: one more
/// shard adds its own share, and none where it has no rotation or no set.
pub proof fn shares_add_up(
    snapshots: Seq<Option<RotationView>>,
    published: Seq<Option<usize>>,
    process_tick: nat,
    count: nat,
)
    requires
        0 < count <= snapshots.len() == published.len(),
    ensures
        publisher::wanted(snapshots, published, process_tick, 0) == 0,
        snapshots[count - 1] is None || published[count - 1] is None ==> publisher::wanted(
            snapshots,
            published,
            process_tick,
            count,
        ) == publisher::wanted(snapshots, published, process_tick, (count - 1) as nat),
        snapshots[count - 1] is Some && published[count - 1] is Some ==> publisher::wanted(
            snapshots,
            published,
            process_tick,
            count,
        ) == publisher::wanted(snapshots, published, process_tick, (count - 1) as nat)
            + rotation::share(
            process_tick,
            snapshots[count - 1]->0.cycle_ns as nat,
            published[count - 1]->0,
        ),
{
}

/// The schedule is overrun exactly where the shares come to more than the whole,
/// which is a million parts.
pub proof fn a_schedule_over_the_whole_is_an_overrun(
    publisher: PublisherView,
    published: Seq<Option<usize>>,
    process_tick: nat,
)
    ensures
        publisher.overruns_now(published, process_tick) <==> publisher::wanted(
            publisher.snapshots,
            published,
            process_tick,
            publisher.snapshots.len(),
        ) > 1_000_000,
{
}

/// What the consistency guard finds: what it found before; else a send path of any
/// shard that has gone dark, by what darkened it; else that the state cannot be
/// written; else nothing.
pub proof fn a_finding_is_what_is_wrong(
    publisher: PublisherView,
    fault: Option<String>,
    at: int,
)
    ensures
        publisher.consistency is Some ==> publisher.consistency_after(fault)
            == publisher.consistency,
        publisher.consistency is None && 0 <= at < publisher.feeds.len() && (
        publisher.feeds[at].top_of_book is Some
            && publisher.feeds[at].top_of_book->0.dark() is Some
            || publisher.feeds[at].market_by_price is Some
            && publisher.feeds[at].market_by_price->0.dark() is Some)
            ==> publisher.consistency_after(fault) is Some
            && publisher.consistency_after(fault)->0 is EgressDark,
        publisher.consistency is None && publisher.consistency_after(fault) is Some
            && publisher.consistency_after(fault)->0 is EgressDark ==> exists|i: int|
            0 <= i < publisher.feeds.len() && #[trigger] shard::is_dark_with(
                publisher.feeds[i],
                Some(publisher.consistency_after(fault)->0->sink),
            ),
        publisher.consistency is None && fault is Some ==> publisher.consistency_after(
            fault,
        ) is Some,
        publisher.consistency is None && publisher.consistency_after(fault) is Some
            && publisher.consistency_after(fault)->0 !is EgressDark
            ==> publisher.consistency_after(fault)->0 is StateUnpersistable && fault == Some(
            publisher.consistency_after(fault)->0->StateUnpersistable_detail,
        ),
{
    shard::a_dark_shard_is_seen(publisher.feeds, publisher.feeds.len(), at);
    let dark = shard::dark_among(publisher.feeds, publisher.feeds.len());
    if publisher.consistency is None && dark is Some {
        let i = choose|i: int|
            0 <= i < publisher.feeds.len() && #[trigger] shard::is_dark_with(
                publisher.feeds[i],
                dark,
            );
        assert(dark == Some(publisher.consistency_after(fault)->0->sink));
        assert(shard::is_dark_with(
            publisher.feeds[i],
            Some(publisher.consistency_after(fault)->0->sink),
        ));
    }
}

/// One of the actions carries out a step that does this on a channel.
pub open spec fn runs_one(
    actions: Seq<TeardownAction>,
    channel_id: u8,
    role: PortRole,
    message: EgressMessageType,
) -> bool {
    exists|i: int|
        0 <= i < actions.len() && (#[trigger] actions[i]) is Run && actions[i]->Run_0.channel_id
            == channel_id && pipeline::puts(actions[i]->Run_0, role, message, 0)
}

/// What stands in the steps of a teardown stands in what it does.
proof fn a_step_is_run(
    feeds: Seq<ShardView>,
    manifests: Seq<bool>,
    exit: Exit,
    now_unix_ns: u64,
    part: Seq<Step>,
    at: int,
) -> (place: int)
    requires
        0 <= at < part.len(),
        ({
            let all = publisher::manifests_among(feeds, manifests, now_unix_ns, feeds.len())
                + publisher::ends_among(feeds, now_unix_ns, feeds.len())
                + publisher::flushes_among(feeds, now_unix_ns, feeds.len());
            shard::holds_run(all, part)
        }),
    ensures
        0 <= place < publisher::teardown_actions(feeds, manifests, exit, now_unix_ns).len(),
        publisher::teardown_actions(feeds, manifests, exit, now_unix_ns)[place]
            == TeardownAction::Run(part[at]),
{
    let all = publisher::manifests_among(feeds, manifests, now_unix_ns, feeds.len())
        + publisher::ends_among(feeds, now_unix_ns, feeds.len()) + publisher::flushes_among(
        feeds,
        now_unix_ns,
        feeds.len(),
    );
    let from = choose|from: int| #[trigger] shard::run_at(all, part, from);
    assert(all[from + at] == part[at]);
    assert(publisher::running(all)[from + at] == TeardownAction::Run(part[at]));
    from + at + 1
}

proof fn a_path_ends_its_session(
    feeds: Seq<ShardView>,
    now_unix_ns: u64,
    count: nat,
    at: int,
)
    requires
        0 <= at < count <= feeds.len(),
    ensures
        feeds[at].top_of_book matches Some(path) ==> shard::holds_run(
            publisher::ends_among(feeds, now_unix_ns, count),
            path.mktdata_steps(EgressMessageType::EndOfSession, now_unix_ns),
        ) && shard::holds_run(
            publisher::flushes_among(feeds, now_unix_ns, count),
            path.flush_steps(now_unix_ns),
        ),
        feeds[at].market_by_price matches Some(path) ==> shard::holds_run(
            publisher::ends_among(feeds, now_unix_ns, count),
            path.mktdata_steps(EgressMessageType::EndOfSession, now_unix_ns),
        ) && shard::holds_run(
            publisher::flushes_among(feeds, now_unix_ns, count),
            path.flush_steps(now_unix_ns),
        ),
    decreases count,
{
    let before = publisher::ends_among(feeds, now_unix_ns, (count - 1) as nat);
    let flushed = publisher::flushes_among(feeds, now_unix_ns, (count - 1) as nat);
    let none = Seq::<Step>::empty();
    let end = |path: PipelineView| path.mktdata_steps(EgressMessageType::EndOfSession, now_unix_ns);
    let flush = |path: PipelineView| path.flush_steps(now_unix_ns);
    let more = feeds[count - 1].both(end);
    let more_flushed = feeds[count - 1].both(flush);
    assert(none + before + more =~= publisher::ends_among(feeds, now_unix_ns, count));
    assert(before + more + none =~= publisher::ends_among(feeds, now_unix_ns, count));
    assert(none + flushed + more_flushed =~= publisher::flushes_among(feeds, now_unix_ns, count));
    assert(flushed + more_flushed + none =~= publisher::flushes_among(feeds, now_unix_ns, count));
    if at < count - 1 {
        a_path_ends_its_session(feeds, now_unix_ns, (count - 1) as nat, at);
    } else {
        shard::both_paths_have_their_part(feeds[at], end);
        shard::both_paths_have_their_part(feeds[at], flush);
    }
    if let Some(path) = feeds[at].top_of_book {
        if at < count - 1 {
            shard::a_run_stays(none, before, more, end(path));
            shard::a_run_stays(none, flushed, more_flushed, flush(path));
        } else {
            shard::a_run_stays(before, more, none, end(path));
            shard::a_run_stays(flushed, more_flushed, none, flush(path));
        }
    }
    if let Some(path) = feeds[at].market_by_price {
        if at < count - 1 {
            shard::a_run_stays(none, before, more, end(path));
            shard::a_run_stays(none, flushed, more_flushed, flush(path));
        } else {
            shard::a_run_stays(before, more, none, end(path));
            shard::a_run_stays(flushed, more_flushed, none, flush(path));
        }
    }
}

proof fn a_path_sends_its_last_manifest(
    feeds: Seq<ShardView>,
    manifests: Seq<bool>,
    now_unix_ns: u64,
    count: nat,
    at: int,
)
    requires
        0 <= at < count <= feeds.len() == manifests.len(),
        manifests[at],
    ensures
        feeds[at].top_of_book matches Some(path) ==> shard::holds_run(
            publisher::manifests_among(feeds, manifests, now_unix_ns, count),
            path.manifest_steps(now_unix_ns),
        ),
        feeds[at].market_by_price matches Some(path) ==> shard::holds_run(
            publisher::manifests_among(feeds, manifests, now_unix_ns, count),
            path.manifest_steps(now_unix_ns),
        ),
    decreases count,
{
    let before = publisher::manifests_among(feeds, manifests, now_unix_ns, (count - 1) as nat);
    let all = publisher::manifests_among(feeds, manifests, now_unix_ns, count);
    let none = Seq::<Step>::empty();
    let part = |path: PipelineView| path.manifest_steps(now_unix_ns);
    let more = all.skip(before.len() as int);
    assert(none + before + more =~= all);
    assert(before + more + none =~= all);
    if at < count - 1 {
        a_path_sends_its_last_manifest(feeds, manifests, now_unix_ns, (count - 1) as nat, at);
    } else {
        shard::both_paths_have_their_part(feeds[at], part);
        assert(more =~= feeds[at].both(part));
    }
    if let Some(path) = feeds[at].top_of_book {
        if at < count - 1 {
            shard::a_run_stays(none, before, more, part(path));
        } else {
            shard::a_run_stays(before, more, none, part(path));
        }
    }
    if let Some(path) = feeds[at].market_by_price {
        if at < count - 1 {
            shard::a_run_stays(none, before, more, part(path));
        } else {
            shard::a_run_stays(before, more, none, part(path));
        }
    }
}

/// A teardown tells every channel of every shard that the session is over, sends
/// the last manifest on every channel whose shard has one, and forwards the counts
/// before it records the exit under its own reason.
pub proof fn a_teardown_leaves_no_channel_out(
    feeds: Seq<ShardView>,
    manifests: Seq<bool>,
    exit: Exit,
    now_unix_ns: u64,
    at: int,
)
    requires
        0 <= at < feeds.len() == manifests.len(),
    ensures
        ({
            let actions = publisher::teardown_actions(feeds, manifests, exit, now_unix_ns);
            &&& feeds[at].top_of_book matches Some(path) ==> runs_one(
                actions,
                path.channel_id,
                PortRole::Mktdata,
                EgressMessageType::EndOfSession,
            )
            &&& feeds[at].market_by_price matches Some(path) ==> runs_one(
                actions,
                path.channel_id,
                PortRole::Mktdata,
                EgressMessageType::EndOfSession,
            )
            &&& manifests[at] ==> (feeds[at].top_of_book matches Some(path) ==> runs_one(
                actions,
                path.channel_id,
                PortRole::Refdata,
                EgressMessageType::ManifestSummary,
            ))
            &&& manifests[at] ==> (feeds[at].market_by_price matches Some(path) ==> runs_one(
                actions,
                path.channel_id,
                PortRole::Refdata,
                EgressMessageType::ManifestSummary,
            ))
            &&& actions.len() >= 3
            &&& actions[actions.len() - 2] == TeardownAction::ForwardCounts
            &&& exit is IdleGuard ==> actions.last() == TeardownAction::RecordExit(
                ExitReason::IdleGuard,
            )
            &&& exit is ConsistencyGuard ==> actions.last() == TeardownAction::RecordExit(
                ExitReason::ConsistencyGuard,
            )
            &&& exit is Signal ==> actions.last() == TeardownAction::RecordExit(ExitReason::Signal)
        }),
{
    let told = publisher::manifests_among(feeds, manifests, now_unix_ns, feeds.len());
    let ends = publisher::ends_among(feeds, now_unix_ns, feeds.len());
    let flushes = publisher::flushes_among(feeds, now_unix_ns, feeds.len());
    let none = Seq::<Step>::empty();
    let actions = publisher::teardown_actions(feeds, manifests, exit, now_unix_ns);
    assert(none + told + (ends + flushes) =~= told + ends + flushes);
    a_path_ends_its_session(feeds, now_unix_ns, feeds.len(), at);
    if manifests[at] {
        a_path_sends_its_last_manifest(feeds, manifests, now_unix_ns, feeds.len(), at);
    }
    if let Some(path) = feeds[at].top_of_book {
        let end = path.mktdata_steps(EgressMessageType::EndOfSession, now_unix_ns);
        shard::a_run_stays(told, ends, flushes, end);
        let i = a_step_is_run(feeds, manifests, exit, now_unix_ns, end, 0);
        assert(actions[i] is Run && pipeline::puts(
            actions[i]->Run_0,
            PortRole::Mktdata,
            EgressMessageType::EndOfSession,
            0,
        ));
        if manifests[at] {
            let manifest = path.manifest_steps(now_unix_ns);
            shard::a_run_stays(none, told, ends + flushes, manifest);
            let j = a_step_is_run(feeds, manifests, exit, now_unix_ns, manifest, 0);
            assert(actions[j] is Run && pipeline::puts(
                actions[j]->Run_0,
                PortRole::Refdata,
                EgressMessageType::ManifestSummary,
                0,
            ));
        }
    }
    if let Some(path) = feeds[at].market_by_price {
        let end = path.mktdata_steps(EgressMessageType::EndOfSession, now_unix_ns);
        shard::a_run_stays(told, ends, flushes, end);
        let i = a_step_is_run(feeds, manifests, exit, now_unix_ns, end, 0);
        assert(actions[i] is Run && pipeline::puts(
            actions[i]->Run_0,
            PortRole::Mktdata,
            EgressMessageType::EndOfSession,
            0,
        ));
        if manifests[at] {
            let manifest = path.manifest_steps(now_unix_ns);
            shard::a_run_stays(none, told, ends + flushes, manifest);
            let j = a_step_is_run(feeds, manifests, exit, now_unix_ns, manifest, 0);
            assert(actions[j] is Run && pipeline::puts(
                actions[j]->Run_0,
                PortRole::Refdata,
                EgressMessageType::ManifestSummary,
                0,
            ));
        }
    }
}

/// A shard without a manifest is sent none, and every manifest goes out ahead of
/// every end of a session.
pub proof fn manifests_go_before_the_end(
    feeds: Seq<ShardView>,
    manifests: Seq<bool>,
    exit: Exit,
    now_unix_ns: u64,
    manifest: int,
    end: int,
)
    requires
        manifests.len() == feeds.len(),
        ({
            let actions = publisher::teardown_actions(feeds, manifests, exit, now_unix_ns);
            &&& 0 <= manifest < actions.len()
            &&& 0 <= end < actions.len()
            &&& actions[manifest] is Run
            &&& actions[end] is Run
            &&& pushes(actions[manifest]->Run_0, EgressMessageType::ManifestSummary)
            &&& pushes(actions[end]->Run_0, EgressMessageType::EndOfSession)
        }),
    ensures
        manifest < end,
{
    nothing_follows_the_end_of_the_session(feeds, manifests, exit, now_unix_ns);
    let actions = publisher::teardown_actions(feeds, manifests, exit, now_unix_ns);
    if end < manifest {
        assert(pushes(actions[manifest]->Run_0, EgressMessageType::EndOfSession) || only_flushes(
            actions[manifest]->Run_0,
        ));
    }
}

/// A shard the reference-data owner has no manifest for adds none to a teardown.
pub proof fn no_manifest_is_made_up(
    feeds: Seq<ShardView>,
    manifests: Seq<bool>,
    now_unix_ns: u64,
    count: nat,
)
    requires
        0 < count <= feeds.len() == manifests.len(),
        !manifests[count - 1],
    ensures
        publisher::manifests_among(feeds, manifests, now_unix_ns, count)
            == publisher::manifests_among(feeds, manifests, now_unix_ns, (count - 1) as nat),
        publisher::manifests_among(feeds, manifests, now_unix_ns, 0).len() == 0,
{
}

/// Every port role of every send path is flushed by a teardown, each whatever
/// became of the others.
pub proof fn a_teardown_flushes_every_port(
    feeds: Seq<ShardView>,
    manifests: Seq<bool>,
    exit: Exit,
    now_unix_ns: u64,
    at: int,
    role: PortRole,
)
    requires
        0 <= at < feeds.len() == manifests.len(),
    ensures
        ({
            let actions = publisher::teardown_actions(feeds, manifests, exit, now_unix_ns);
            &&& feeds[at].top_of_book matches Some(path) ==> (role != PortRole::Snapshot
                || path.ports.snapshot is Some ==> flushes_one(actions, path.channel_id, role))
            &&& feeds[at].market_by_price matches Some(path) ==> (role != PortRole::Snapshot
                || path.ports.snapshot is Some ==> flushes_one(actions, path.channel_id, role))
        }),
{
    let told = publisher::manifests_among(feeds, manifests, now_unix_ns, feeds.len());
    let ends = publisher::ends_among(feeds, now_unix_ns, feeds.len());
    let flushes = publisher::flushes_among(feeds, now_unix_ns, feeds.len());
    let none = Seq::<Step>::empty();
    let actions = publisher::teardown_actions(feeds, manifests, exit, now_unix_ns);
    assert((told + ends) + flushes + none =~= told + ends + flushes);
    a_path_ends_its_session(feeds, now_unix_ns, feeds.len(), at);
    let place: int = match role {
        PortRole::Mktdata => 0,
        PortRole::Refdata => 1,
        PortRole::Snapshot => 2,
    };
    if let Some(path) = feeds[at].top_of_book {
        let part = path.flush_steps(now_unix_ns);
        shard::a_run_stays(told + ends, flushes, none, part);
        if role != PortRole::Snapshot || path.ports.snapshot is Some {
            let i = a_step_is_run(feeds, manifests, exit, now_unix_ns, part, place);
            assert(actions[i] == TeardownAction::Run(part[place]));
        }
    }
    if let Some(path) = feeds[at].market_by_price {
        let part = path.flush_steps(now_unix_ns);
        shard::a_run_stays(told + ends, flushes, none, part);
        if role != PortRole::Snapshot || path.ports.snapshot is Some {
            let i = a_step_is_run(feeds, manifests, exit, now_unix_ns, part, place);
            assert(actions[i] == TeardownAction::Run(part[place]));
        }
    }
}

/// One of the actions sends whatever is open on a port role of a channel, whatever
/// came before it.
pub open spec fn flushes_one(
    actions: Seq<TeardownAction>,
    channel_id: u8,
    role: PortRole,
) -> bool {
    exists|i: int|
        0 <= i < actions.len() && (#[trigger] actions[i]) is Run && actions[i]->Run_0.channel_id
            == channel_id && actions[i]->Run_0.port_role == role && actions[i]->Run_0.action
            == Action::FlushAll && !actions[i]->Run_0.if_taken
}

/// What a teardown reports it did: the ingress stopped first, admissions closed,
/// the last manifests, the ends of the session, the flushes, and the exit last,
/// each once.
pub proof fn a_teardown_reports_its_order()
    ensures
        TeardownStep::order().len() == 6,
        TeardownStep::order()[0] == TeardownStep::IngressStopped,
        TeardownStep::order()[1] == TeardownStep::AdmissionsClosed,
        TeardownStep::order()[2] == TeardownStep::FinalManifestSent,
        TeardownStep::order()[3] == TeardownStep::EndOfSessionSent,
        TeardownStep::order()[4] == TeardownStep::PortsFlushed,
        TeardownStep::order()[5] == TeardownStep::ExitRecorded,
{
}

/// A teardown leaves every send path having just sent, and the manifest's time
/// moved where a last one went out.
pub proof fn a_teardown_is_sent_on_every_path(shard: ShardView, manifest: bool, now_mono_ns: u64)
    ensures
        ({
            let after = publisher::torn_down(shard, manifest, now_mono_ns);
            &&& after.name == shard.name
            &&& after.top_of_book is Some <==> shard.top_of_book is Some
            &&& after.market_by_price is Some <==> shard.market_by_price is Some
            &&& shard.top_of_book matches Some(path) ==> {
                &&& after.top_of_book->0.last_mktdata_ns == Some(now_mono_ns)
                &&& after.top_of_book->0.channel_id == path.channel_id
                &&& after.top_of_book->0.ports == path.ports
                &&& !manifest ==> after.top_of_book->0.next_manifest_ns == path.next_manifest_ns
                &&& manifest ==> after.top_of_book->0.next_manifest_ns == path.after_manifest(
                    now_mono_ns,
                ).next_manifest_ns
            }
            &&& shard.market_by_price matches Some(path) ==> {
                &&& after.market_by_price->0.last_mktdata_ns == Some(now_mono_ns)
                &&& after.market_by_price->0.channel_id == path.channel_id
                &&& after.market_by_price->0.ports == path.ports
                &&& !manifest ==> after.market_by_price->0.next_manifest_ns
                    == path.next_manifest_ns
                &&& manifest ==> after.market_by_price->0.next_manifest_ns == path.after_manifest(
                    now_mono_ns,
                ).next_manifest_ns
            }
        }),
{
}

/// The instrument a search finds is one that is held, on a shard with a set and a
/// rotation whose time has come; that shard's rotation is rescheduled from now, and
/// the next search starts behind it.
pub proof fn what_is_found_is_due(
    before: PublisherView,
    after: PublisherView,
    now_mono_ns: u64,
    instruments: InstrumentTable,
    published: Seq<Option<usize>>,
    shard_of: Seq<Option<usize>>,
    due: InstrumentRef,
) -> (shard: int)
    requires
        before.snapshots.len() <= usize::MAX,
        publisher::search(
            before,
            after,
            now_mono_ns,
            instruments,
            published,
            shard_of,
            Some(due),
        ),
    ensures
        0 <= shard < before.snapshots.len(),
        before.snapshots[shard] is Some,
        published[shard] is Some,
        before.snapshots[shard]->0.next_due_ns matches Some(at) && now_mono_ns >= at,
        due@ < instruments@.len(),
        instruments@[due@ as int],
        due@ < shard_of.len(),
        shard_of[due@ as int] == Some(shard as usize),
        after.snapshots[shard] is Some,
        after.snapshots[shard]->0.cycle_ns == before.snapshots[shard]->0.cycle_ns,
        after.snapshots[shard]->0.next_due_ns matches Some(next) && next >= now_mono_ns,
        after.snapshot_cursor == (shard + 1) % (before.snapshots.len() as int),
        after.feeds == before.feeds,
        after.owed == before.owed,
{
    let offset = choose|offset: int| #[trigger]
        publisher::found_at(
            before,
            after,
            now_mono_ns,
            instruments,
            published,
            shard_of,
            due,
            offset,
        );
    let shards = before.snapshots.len();
    let shard = publisher::searched(before.snapshot_cursor, shards, offset);
    vstd::arithmetic::div_mod::lemma_mod_bound(before.snapshot_cursor + offset, shards as int);
    shard
}

/// Where a shard has a set and a rotation whose time has come, and holds an
/// instrument that was admitted to it, a search finds an instrument.
pub proof fn what_is_due_is_found(
    before: PublisherView,
    after: PublisherView,
    now_mono_ns: u64,
    instruments: InstrumentTable,
    published: Seq<Option<usize>>,
    shard_of: Seq<Option<usize>>,
    due: Option<InstrumentRef>,
    shard: int,
    slot: u32,
)
    requires
        before.well_formed(),
        before.snapshots.len() <= usize::MAX,
        publisher::search(before, after, now_mono_ns, instruments, published, shard_of, due),
        0 <= shard < before.snapshots.len(),
        before.snapshots[shard] is Some,
        before.snapshots[shard]->0.cursor < instruments@.len(),
        before.snapshots[shard]->0.next_due_ns matches Some(at) && at <= now_mono_ns,
        published[shard] is Some,
        instruments@.len() <= u32::MAX,
        slot < instruments@.len(),
        instruments@[slot as int],
        slot < shard_of.len(),
        shard_of[slot as int] == Some(shard as usize),
    ensures
        due is Some,
{
    let shards = before.snapshots.len();
    let ahead = shards_ahead(before.snapshot_cursor, shards, shard);
    publisher::searched_is(before.snapshot_cursor, shards, ahead);
    if due is None {
        assert(publisher::shard_asked(
            before,
            after,
            now_mono_ns,
            instruments,
            published,
            shard_of,
            ahead,
            None,
        ));
        let mine = |slot: u32| publisher::admitted_to(shard_of, slot) == Some(shard as usize);
        let lap = before.snapshots[shard]->0;
        assert(mine(slot));
        assert(rotation::pass_over(
            instruments,
            mine,
            lap.cursor,
            None,
            after.snapshots[shard]->0.cursor,
        ));
        rotation::a_pass_finds_where_there_is_one(
            instruments,
            mine,
            lap.cursor,
            None,
            after.snapshots[shard]->0.cursor,
            slot,
        );
    }
}

/// Where nothing is found nothing moves but the rotations, and a shard without a
/// rotation stays without; where something is, no other shard's rotation behind it
/// is asked.
pub proof fn a_search_touches_rotations_alone(
    before: PublisherView,
    after: PublisherView,
    now_mono_ns: u64,
    instruments: InstrumentTable,
    published: Seq<Option<usize>>,
    shard_of: Seq<Option<usize>>,
    due: Option<InstrumentRef>,
)
    requires
        publisher::search(before, after, now_mono_ns, instruments, published, shard_of, due),
    ensures
        after.feeds == before.feeds,
        after.idle == before.idle,
        after.consistency == before.consistency,
        after.forwarded == before.forwarded,
        after.refusals == before.refusals,
        after.snapshot_refusals == before.snapshot_refusals,
        after.unroutable == before.unroutable,
        after.owed == before.owed,
        after.overruns == before.overruns,
        after.snapshots.len() == before.snapshots.len(),
        due is None ==> after.snapshot_cursor == before.snapshot_cursor,
{
}

/// An instrument is on the shard its slot was admitted to, and a slot the published
/// set does not hold is on none.
pub proof fn an_instrument_is_where_it_was_admitted(shard_of: Seq<Option<usize>>, slot: u32)
    ensures
        slot < shard_of.len() ==> publisher::admitted_to(shard_of, slot) == shard_of[slot as int],
        slot >= shard_of.len() ==> publisher::admitted_to(shard_of, slot) is None,
{
}

/// A message reached the wire exactly where a channel took it and was flushed right
/// behind it, both: a message that was not taken is not published by a flush.
pub proof fn a_message_reaches_the_wire_when_taken_and_flushed(
    message: Step,
    flush: Step,
    steps: Seq<Step>,
    taken: Seq<bool>,
    at: int,
)
    requires
        message.action is Push,
        flush.action == Action::Flush,
    ensures
        publisher::reached(seq![message, flush], seq![true, true]),
        !publisher::reached(seq![message, flush], seq![false, true]),
        !publisher::reached(seq![message, flush], seq![true, false]),
        !publisher::reached(seq![message, message], seq![true, true]),
        !publisher::reached(seq![flush, flush], seq![true, true]),
        0 < at < steps.len() && steps[at - 1].action is Push && steps[at].action == Action::Flush
            && taken[at - 1] && taken[at] ==> publisher::reached(steps, taken),
        (forall|i: int| 0 <= i < taken.len() ==> !#[trigger] taken[i]) && taken.len() == steps.len()
            ==> !publisher::reached(steps, taken),
{
    assert(publisher::flushed_behind(seq![message, flush], seq![true, true], 1));
    if 0 < at < steps.len() && steps[at - 1].action is Push && steps[at].action == Action::Flush
        && taken[at - 1] && taken[at] {
        assert(publisher::flushed_behind(steps, taken, at));
    }
}

} // verus!
