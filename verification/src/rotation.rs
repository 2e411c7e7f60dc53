//! The snapshot rotation: which instrument is snapshotted next, and when.
//!
//! A cycle is one full pass over a shard's published set, and the interval
//! between two snapshots is derived from it and the count. One instrument is
//! taken per tick, so a stall degrades into a slower lap rather than a burst.
//!
//! Each shard has a rotation of its own, paced by its own published count, and
//! all of them draw on one budget of one snapshot per tick of the process. So a
//! configuration can be met exactly where the shares of every shard sum to no
//! more than the whole: [`schedule_share`].

use vstd::prelude::*;

use crate::duration;
use crate::duration::Duration;
use crate::instrument::{InstrumentRef, InstrumentTable};
use crate::run;

verus! {

/// The floor under a derived tick, in nanoseconds: a tick of zero is not a
/// slower cycle, it is every tick.
pub const MIN_TICK_NS: u64 = 1_000_000;

/// One process's whole snapshot-serving capacity, as a share.
pub const WHOLE_SNAPSHOT_CAPACITY: u64 = 1_000_000;

/// The divisor of a cycle: the published count, at least one, at most what 32
/// bits count.
pub open spec fn divisor(instruments: usize) -> nat {
    if instruments == 0 {
        1
    } else if instruments <= u32::MAX {
        instruments as nat
    } else {
        u32::MAX as nat
    }
}

/// The interval between two snapshots, from a cycle and a published count, in
/// nanoseconds.
pub open spec fn tick_nanos(cycle: nat, instruments: usize) -> nat {
    let part = cycle / divisor(instruments);
    if part >= MIN_TICK_NS {
        part
    } else {
        MIN_TICK_NS as nat
    }
}

/// The interval between per-instrument snapshots, from the cycle and the count.
pub fn tick(cycle: Duration, instruments: usize) -> (interval: Duration)
    ensures
        interval@ == tick_nanos(cycle@, instruments),
{
    let parts: u32 = if instruments == 0 {
        1
    } else if instruments <= u32::MAX as usize {
        instruments as u32
    } else {
        u32::MAX
    };
    cycle.divided(parts).longer_of(Duration::from_nanos(MIN_TICK_NS))
}

/// The share of one process's snapshot capacity one rotation's schedule asks
/// for: the process tick over the rotation's own, of the whole.
pub open spec fn share(process_tick: nat, cycle: nat, instruments: usize) -> nat {
    if instruments == 0 {
        0
    } else {
        process_tick * WHOLE_SNAPSHOT_CAPACITY as nat / tick_nanos(cycle, instruments)
    }
}

/// The share of one process's snapshot capacity one rotation's schedule asks
/// for, or the largest 64-bit number where it is more than that. A shard with
/// nothing published asks for nothing.
pub fn schedule_share(process_tick: Duration, cycle: Duration, instruments: usize) -> (asked: u64)
    ensures
        asked == duration::clamped(share(process_tick@, cycle@, instruments)),
{
    if instruments == 0 {
        return 0;
    }
    let per_instrument: u128 = tick(cycle, instruments).as_nanos();
    let nanos: u128 = process_tick.as_nanos();
    proof {
        assert(nanos * 1_000_000 <= 18_446_744_073_709_551_615_999_999_999 * 1_000_000);
    }
    let wanted: u128 = nanos * 1_000_000 / per_instrument;
    if wanted <= u64::MAX as u128 {
        wanted as u64
    } else {
        u64::MAX
    }
}

/// Where a rotation is, and when its next instrument falls due.
#[derive(Debug)]
pub struct SnapshotRotation {
    cycle_ns: u64,
    cursor: u32,
    next_due_ns: Option<u64>,
}

/// A rotation as values to reason about.
pub struct RotationView {
    /// One full pass, in nanoseconds.
    pub cycle_ns: u64,
    /// The next slot to consider.
    pub cursor: u32,
    /// When the next snapshot is due; `None` until the first is scheduled.
    pub next_due_ns: Option<u64>,
}

impl View for SnapshotRotation {
    type V = RotationView;

    closed spec fn view(&self) -> RotationView {
        RotationView {
            cycle_ns: self.cycle_ns,
            cursor: self.cursor,
            next_due_ns: self.next_due_ns,
        }
    }
}

/// The slot a pass from `cursor` over `slots` slots considers `step` steps on.
pub open spec fn slot_at(cursor: u32, slots: u32, step: int) -> u32 {
    if step == 0 {
        cursor
    } else {
        ((cursor + step) % slots as int) as u32
    }
}

/// Whether a pass goes past a slot: it holds no instrument, or the instrument
/// was answered to be another shard's.
pub open spec fn passed_over<F: Fn(InstrumentRef) -> bool>(
    instruments: InstrumentTable,
    on_shard: F,
    slot: u32,
) -> bool {
    ||| !instruments.holds_slot(slot as int)
    ||| exists|handle: InstrumentRef|
        handle@ == slot && #[trigger] on_shard.ensures((handle,), false)
}

/// How many slots a pass considers.
pub open spec fn pass_length(instruments: InstrumentTable) -> u32 {
    if instruments@.len() <= u32::MAX {
        instruments@.len() as u32
    } else {
        u32::MAX
    }
}

/// What a pass from `cursor` comes to: the first slot that is not passed over,
/// and the cursor behind it; or none, after all of them.
pub open spec fn pass<F: Fn(InstrumentRef) -> bool>(
    instruments: InstrumentTable,
    on_shard: F,
    cursor: u32,
    found: Option<InstrumentRef>,
    after: u32,
) -> bool {
    let slots = pass_length(instruments);
    match found {
        Some(handle) => exists|step: int|
            {
                &&& 0 <= step < slots
                &&& handle@ == #[trigger] slot_at(cursor, slots, step)
                &&& instruments.holds_slot(handle@ as int)
                &&& on_shard.ensures((handle,), true)
                &&& forall|earlier: int|
                    0 <= earlier < step ==> passed_over(
                        instruments,
                        on_shard,
                        #[trigger] slot_at(cursor, slots, earlier),
                    )
                &&& after == slot_at(cursor, slots, step + 1)
            },
        None => {
            &&& forall|earlier: int|
                0 <= earlier < slots ==> passed_over(
                    instruments,
                    on_shard,
                    #[trigger] slot_at(cursor, slots, earlier),
                )
            &&& after == slot_at(cursor, slots, slots as int)
        },
    }
}

/// What a call for the next due instrument comes to. The first call schedules;
/// one before the time does nothing; one at or after it schedules the next from
/// now, so a tick that was missed leaves the next one due at once rather than
/// pushing the lap out, and makes a pass. `passed` says that the pass came to
/// what was returned.
pub open spec fn paced(
    before: RotationView,
    after: RotationView,
    now_ns: u64,
    instruments: InstrumentTable,
    published: usize,
    due: Option<InstrumentRef>,
    passed: bool,
) -> bool {
    let interval = tick_nanos(before.cycle_ns as nat, published);
    let scheduled = Some(duration::moved_on(now_ns, interval));
    &&& after.cycle_ns == before.cycle_ns
    &&& if instruments@.len() == 0 {
        due is None && after == before
    } else {
        match before.next_due_ns {
            None => {
                &&& due is None
                &&& after.next_due_ns == scheduled
                &&& after.cursor == before.cursor
            },
            Some(at) => if now_ns < at {
                due is None && after == before
            } else {
                after.next_due_ns == scheduled && passed
            },
        }
    }
}

/// What a pass comes to where whose instruments the slots hold is known:
/// [`pass`], with `mine` for the answers.
pub open spec fn pass_over(
    instruments: InstrumentTable,
    mine: spec_fn(u32) -> bool,
    cursor: u32,
    found: Option<InstrumentRef>,
    after: u32,
) -> bool {
    let slots = pass_length(instruments);
    match found {
        Some(handle) => exists|step: int|
            {
                &&& 0 <= step < slots
                &&& handle@ == #[trigger] slot_at(cursor, slots, step)
                &&& instruments.holds_slot(handle@ as int)
                &&& mine(handle@)
                &&& forall|earlier: int|
                    0 <= earlier < step ==> {
                        let slot = #[trigger] slot_at(cursor, slots, earlier);
                        !instruments.holds_slot(slot as int) || !mine(slot)
                    }
                &&& after == slot_at(cursor, slots, step + 1)
            },
        None => {
            &&& forall|earlier: int|
                0 <= earlier < slots ==> {
                    let slot = #[trigger] slot_at(cursor, slots, earlier);
                    !instruments.holds_slot(slot as int) || !mine(slot)
                }
            &&& after == slot_at(cursor, slots, slots as int)
        },
    }
}

/// Answers that are the truth of `mine` make a pass over `mine`.
pub proof fn answers_make_a_pass<F: Fn(InstrumentRef) -> bool>(
    instruments: InstrumentTable,
    on_shard: F,
    mine: spec_fn(u32) -> bool,
    cursor: u32,
    found: Option<InstrumentRef>,
    after: u32,
)
    requires
        pass(instruments, on_shard, cursor, found, after),
        forall|handle: InstrumentRef, answer: bool| #[trigger]
            on_shard.ensures((handle,), answer) ==> answer == mine(handle@),
    ensures
        pass_over(instruments, mine, cursor, found, after),
{
    let slots = pass_length(instruments);
    assert forall|slot: u32| #[trigger] passed_over(instruments, on_shard, slot) implies
        !instruments.holds_slot(slot as int) || !mine(slot) by {}
    match found {
        Some(handle) => {
            let step = choose|step: int|
                {
                    &&& 0 <= step < slots
                    &&& handle@ == #[trigger] slot_at(cursor, slots, step)
                    &&& instruments.holds_slot(handle@ as int)
                    &&& on_shard.ensures((handle,), true)
                    &&& forall|earlier: int|
                        0 <= earlier < step ==> passed_over(
                            instruments,
                            on_shard,
                            #[trigger] slot_at(cursor, slots, earlier),
                        )
                    &&& after == slot_at(cursor, slots, step + 1)
                };
            assert(handle@ == slot_at(cursor, slots, step));
        },
        None => {},
    }
}

impl SnapshotRotation {
    #[verifier::type_invariant]
    closed spec fn cursor_can_move(self) -> bool {
        self.cursor < u32::MAX
    }

    /// A rotation that completes one pass over the published set every `cycle`.
    /// The cycle is held as a 64-bit count of nanoseconds, and a longer one as
    /// the longest that is.
    pub fn new(cycle: Duration) -> (rotation: Self)
        ensures
            rotation@.cycle_ns == duration::clamped(cycle@),
            rotation@.cursor == 0,
            rotation@.next_due_ns is None,
    {
        Self { cycle_ns: cycle.as_nanos_clamped(), cursor: 0, next_due_ns: None }
    }

    /// The cycle this rotation was configured with.
    pub fn cycle(&self) -> (cycle: Duration)
        ensures
            cycle@ == self@.cycle_ns,
    {
        Duration::from_nanos(self.cycle_ns)
    }

    /// The next instrument due a snapshot, or `None` if none is yet.
    ///
    /// Advances the cursor past the instrument it returns, so an instrument the
    /// caller cannot snapshot comes back on the next lap rather than holding
    /// the rotation on one slot. `published` is this rotation's own shard's
    /// published count, and `on_shard` says whether a slot holds one of its
    /// instruments.
    pub fn due<F: Fn(InstrumentRef) -> bool>(
        &mut self,
        now_ns: u64,
        instruments: &InstrumentTable,
        published: usize,
        on_shard: F,
    ) -> (due: Option<InstrumentRef>)
        requires
            forall|handle: InstrumentRef| #[trigger] on_shard.requires((handle,)),
        ensures
            paced(
                old(self)@,
                final(self)@,
                now_ns,
                *instruments,
                published,
                due,
                pass(*instruments, on_shard, old(self)@.cursor, due, final(self)@.cursor),
            ),
            final(self)@.cursor < u32::MAX,
    {
        proof {
            use_type_invariant(&*self);
        }
        let all: usize = instruments.slots();
        let slots: u32 = if all <= u32::MAX as usize {
            all as u32
        } else {
            u32::MAX
        };
        if slots == 0 {
            return None;
        }
        let cycle_ns: u64 = self.cycle_ns;
        let interval: Duration = tick(self.cycle(), published);
        proof {
            assert(cycle_ns as nat / divisor(published) <= cycle_ns) by (nonlinear_arith)
                requires
                    divisor(published) >= 1,
            ;
        }
        let scheduled: Option<u64> = Some(now_ns.saturating_add(interval.as_nanos() as u64));
        match self.next_due_ns {
            None => {
                self.next_due_ns = scheduled;
                return None;
            },
            Some(at) => {
                if now_ns < at {
                    return None;
                }
            },
        }
        self.next_due_ns = scheduled;
        let start: u32 = self.cursor;
        let mut cursor: u32 = start;
        let mut step: u32 = 0;
        while step < slots
            invariant
                step <= slots,
                0 < slots == pass_length(*instruments),
                start < u32::MAX,
                cursor < u32::MAX,
                cursor == slot_at(start, slots, step as int),
                forall|handle: InstrumentRef| #[trigger] on_shard.requires((handle,)),
                forall|earlier: int|
                    0 <= earlier < step ==> passed_over(
                        *instruments,
                        on_shard,
                        #[trigger] slot_at(start, slots, earlier),
                    ),
                self@.cycle_ns == cycle_ns,
                self@.next_due_ns == scheduled,
                cycle_ns == old(self)@.cycle_ns,
                start == old(self)@.cursor,
                scheduled == Some(
                    duration::moved_on(now_ns, tick_nanos(cycle_ns as nat, published)),
                ),
                old(self)@.next_due_ns matches Some(at) && now_ns >= at,
            decreases slots - step,
        {
            let candidate: InstrumentRef = InstrumentRef::from_admission(cursor);
            proof {
                next_slot(start, slots, step as int);
            }
            let next: u32 = (cursor + 1) % slots;
            if instruments.holds(candidate) && on_shard(candidate) {
                self.cursor = next;
                proof {
                    assert(candidate@ == slot_at(start, slots, step as int));
                }
                return Some(candidate);
            }
            proof {
                assert(passed_over(*instruments, on_shard, cursor)) by {
                    if instruments.holds_slot(cursor as int) {
                        assert(candidate@ == cursor && on_shard.ensures((candidate,), false));
                    }
                }
            }
            cursor = next;
            step += 1;
        }
        self.cursor = cursor;
        None
    }
}

proof fn next_slot(cursor: u32, slots: u32, step: int)
    requires
        slots > 0,
        0 <= step < slots,
    ensures
        slot_at(cursor, slots, step + 1) == (slot_at(cursor, slots, step) + 1) % slots as int,
        slot_at(cursor, slots, step + 1) < slots,
{
    if step > 0 {
        vstd::arithmetic::div_mod::lemma_add_mod_noop(cursor + step, 1, slots as int);
        vstd::arithmetic::div_mod::lemma_small_mod(1, slots as nat);
    }
}

/// However large the published set, a derived tick does not collapse.
pub proof fn a_tick_never_collapses(cycle: nat, instruments: usize)
    ensures
        tick_nanos(cycle, instruments) >= MIN_TICK_NS,
        tick_nanos(cycle, 0) == tick_nanos(cycle, 1),
{
}

/// The floor under a derived tick slows no schedule that could be met: where a
/// cycle divided by its set is no shorter than what the process serves one
/// snapshot in, it is the tick.
pub proof fn the_floor_slows_nothing_that_could_be_met(cycle: nat, instruments: usize)
    requires
        cycle / divisor(instruments) >= run::TICK_NS,
    ensures
        tick_nanos(cycle, instruments) == cycle / divisor(instruments),
{
}

/// How many steps on from `cursor` a pass considers `slot`.
pub open spec fn steps_to(cursor: u32, slots: u32, slot: u32) -> int {
    if slot >= cursor {
        slot - cursor
    } else {
        slot - cursor + slots
    }
}

proof fn steps_reach(cursor: u32, slots: u32, slot: u32)
    requires
        cursor < slots,
        slot < slots,
    ensures
        0 <= steps_to(cursor, slots, slot) < slots,
        slot_at(cursor, slots, steps_to(cursor, slots, slot)) == slot,
{
    let sum = cursor + steps_to(cursor, slots, slot);
    if slot >= cursor {
        vstd::arithmetic::div_mod::lemma_small_mod(sum as nat, slots as nat);
    } else {
        vstd::arithmetic::div_mod::lemma_mod_add_multiples_vanish(slot as int, slots as int);
        vstd::arithmetic::div_mod::lemma_small_mod(slot as nat, slots as nat);
        assert(sum == slot + slots);
    }
}

proof fn steps_are_steps(cursor: u32, slots: u32, step: int)
    requires
        cursor < slots,
        0 <= step < slots,
    ensures
        slot_at(cursor, slots, step) < slots,
        steps_to(cursor, slots, slot_at(cursor, slots, step)) == step,
{
    let sum = cursor + step;
    if sum < slots {
        vstd::arithmetic::div_mod::lemma_small_mod(sum as nat, slots as nat);
    } else {
        vstd::arithmetic::div_mod::lemma_mod_add_multiples_vanish(sum - slots, slots as int);
        vstd::arithmetic::div_mod::lemma_small_mod((sum - slots) as nat, slots as nat);
    }
}

/// A pass that does not return an instrument of the shard moves towards it:
/// what it returns instead comes before it, and leaves fewer steps to it.
pub proof fn a_pass_moves_towards_every_instrument<F: Fn(InstrumentRef) -> bool>(
    instruments: InstrumentTable,
    on_shard: F,
    cursor: u32,
    found: Option<InstrumentRef>,
    after: u32,
    slot: u32,
)
    requires
        pass(instruments, on_shard, cursor, found, after),
        cursor < pass_length(instruments),
        slot < pass_length(instruments),
        !passed_over(instruments, on_shard, slot),
    ensures
        found is Some,
        after < pass_length(instruments),
        steps_to(cursor, pass_length(instruments), found->0@) <= steps_to(
            cursor,
            pass_length(instruments),
            slot,
        ),
        found->0@ != slot ==> steps_to(after, pass_length(instruments), slot) < steps_to(
            cursor,
            pass_length(instruments),
            slot,
        ),
{
    let slots = pass_length(instruments);
    let wanted = steps_to(cursor, slots, slot);
    steps_reach(cursor, slots, slot);
    assert(!passed_over(instruments, on_shard, slot_at(cursor, slots, wanted)));
    let handle = found->0;
    let step = choose|step: int|
        {
            &&& 0 <= step < slots
            &&& handle@ == #[trigger] slot_at(cursor, slots, step)
            &&& instruments.holds_slot(handle@ as int)
            &&& on_shard.ensures((handle,), true)
            &&& forall|earlier: int|
                0 <= earlier < step ==> passed_over(
                    instruments,
                    on_shard,
                    #[trigger] slot_at(cursor, slots, earlier),
                )
            &&& after == slot_at(cursor, slots, step + 1)
        };
    assert(step <= wanted);
    steps_are_steps(cursor, slots, step);
    next_slot(cursor, slots, step);
    if step < wanted {
        steps_are_steps(cursor, slots, step + 1);
        assert(after == slot_at(cursor, slots, step + 1));
        assert(steps_to(cursor, slots, after) == step + 1);
    }
}

/// Whether `found` is what successive passes come to, each from where the one
/// before it left the cursor.
pub open spec fn are_passes<F: Fn(InstrumentRef) -> bool>(
    instruments: InstrumentTable,
    on_shard: F,
    cursors: Seq<u32>,
    found: Seq<Option<InstrumentRef>>,
) -> bool {
    &&& cursors.len() == found.len() + 1
    &&& forall|i: int|
        0 <= i < found.len() ==> pass(
            instruments,
            on_shard,
            cursors[i],
            #[trigger] found[i],
            cursors[i + 1],
        )
}

/// No instrument of the shard is starved: over a table that does not change, as
/// many passes as there are slots return every one of them.
pub proof fn every_instrument_is_reached<F: Fn(InstrumentRef) -> bool>(
    instruments: InstrumentTable,
    on_shard: F,
    cursors: Seq<u32>,
    found: Seq<Option<InstrumentRef>>,
    slot: u32,
)
    requires
        are_passes(instruments, on_shard, cursors, found),
        cursors[0] < pass_length(instruments),
        found.len() >= pass_length(instruments),
        slot < pass_length(instruments),
        !passed_over(instruments, on_shard, slot),
    ensures
        exists|i: int|
            0 <= i < pass_length(instruments) && (#[trigger] found[i]) is Some && found[i]->0@
                == slot,
{
    steps_reach(cursors[0], pass_length(instruments), slot);
    let at = reached(instruments, on_shard, cursors, found, slot, 0);
    assert(found[at] is Some && found[at]->0@ == slot);
}

proof fn reached<F: Fn(InstrumentRef) -> bool>(
    instruments: InstrumentTable,
    on_shard: F,
    cursors: Seq<u32>,
    found: Seq<Option<InstrumentRef>>,
    slot: u32,
    from: int,
) -> (at: int)
    requires
        are_passes(instruments, on_shard, cursors, found),
        0 <= from < found.len(),
        cursors[from] < pass_length(instruments),
        slot < pass_length(instruments),
        found.len() >= pass_length(instruments),
        from + steps_to(cursors[from], pass_length(instruments), slot) < pass_length(instruments),
        !passed_over(instruments, on_shard, slot),
    ensures
        from <= at < pass_length(instruments),
        found[at] is Some,
        found[at]->0@ == slot,
    decreases steps_to(cursors[from], pass_length(instruments), slot),
{
    assert(pass(instruments, on_shard, cursors[from], found[from], cursors[from + 1]));
    a_pass_moves_towards_every_instrument(
        instruments,
        on_shard,
        cursors[from],
        found[from],
        cursors[from + 1],
        slot,
    );
    steps_reach(cursors[from], pass_length(instruments), slot);
    steps_reach(cursors[from + 1], pass_length(instruments), slot);
    if found[from]->0@ == slot {
        from
    } else {
        reached(instruments, on_shard, cursors, found, slot, from + 1)
    }
}

/// Whether `own` is the slots a rotation serves: every slot of a pass that holds
/// an instrument of its shard, each once, ascending.
pub open spec fn serves(
    instruments: InstrumentTable,
    mine: spec_fn(u32) -> bool,
    own: Seq<u32>,
) -> bool {
    &&& forall|i: int, j: int| 0 <= i < j < own.len() ==> #[trigger] own[i] < #[trigger] own[j]
    &&& forall|i: int|
        0 <= i < own.len() ==> (#[trigger] own[i]) < pass_length(instruments)
            && instruments.holds_slot(own[i] as int) && mine(own[i])
    &&& forall|slot: u32|
        slot < pass_length(instruments) && instruments.holds_slot(slot as int) && mine(slot)
            ==> #[trigger] own.contains(slot)
}

/// Whether `due` is what successive calls for the next due instrument come to,
/// over a table, a shard and a published count that stay the same.
pub open spec fn are_calls(
    instruments: InstrumentTable,
    mine: spec_fn(u32) -> bool,
    published: usize,
    now_ns: Seq<u64>,
    states: Seq<RotationView>,
    due: Seq<Option<InstrumentRef>>,
) -> bool {
    &&& states.len() == due.len() + 1
    &&& now_ns.len() == due.len()
    &&& forall|i: int|
        0 <= i < due.len() ==> paced(
            states[i],
            states[i + 1],
            now_ns[i],
            instruments,
            published,
            #[trigger] due[i],
            pass_over(instruments, mine, states[i].cursor, due[i], states[i + 1].cursor),
        )
}

/// The instruments successive calls returned, by their slots, without the calls
/// that returned none.
pub open spec fn returned(due: Seq<Option<InstrumentRef>>) -> Seq<u32>
    decreases due.len(),
{
    if due.len() == 0 {
        Seq::empty()
    } else {
        match due.last() {
            Some(handle) => returned(due.drop_last()).push(handle@),
            None => returned(due.drop_last()),
        }
    }
}

/// The place `steps` on from another, in a lap of `len` places.
pub open spec fn lapped(start: int, steps: int, len: nat) -> int {
    (start + steps) % (len as int)
}

/// A pass that returns an instrument returns one the rotation serves, and leaves
/// the cursor right behind it.
proof fn a_pass_returns_its_own(
    instruments: InstrumentTable,
    mine: spec_fn(u32) -> bool,
    own: Seq<u32>,
    cursor: u32,
    found: InstrumentRef,
    after: u32,
)
    requires
        serves(instruments, mine, own),
        cursor < u32::MAX,
        pass_over(instruments, mine, cursor, Some(found), after),
    ensures
        own.contains(found@),
        found@ < pass_length(instruments),
        after == (found@ + 1) % pass_length(instruments) as int,
        after < pass_length(instruments),
{
    let slots = pass_length(instruments);
    let step = choose|step: int|
        {
            &&& 0 <= step < slots
            &&& found@ == #[trigger] slot_at(cursor, slots, step)
            &&& instruments.holds_slot(found@ as int)
            &&& mine(found@)
            &&& forall|earlier: int|
                0 <= earlier < step ==> {
                    let slot = #[trigger] slot_at(cursor, slots, earlier);
                    !instruments.holds_slot(slot as int) || !mine(slot)
                }
            &&& after == slot_at(cursor, slots, step + 1)
        };
    next_slot(cursor, slots, step);
    if step > 0 {
        next_slot(cursor, slots, step - 1);
    }
}

/// A pass from right behind an instrument the rotation serves returns the next
/// one it serves, and the first behind the last.
proof fn a_pass_returns_the_next(
    instruments: InstrumentTable,
    mine: spec_fn(u32) -> bool,
    own: Seq<u32>,
    place: int,
    cursor: u32,
    found: InstrumentRef,
    after: u32,
)
    requires
        serves(instruments, mine, own),
        0 <= place < own.len(),
        cursor == (own[place] + 1) % pass_length(instruments) as int,
        pass_over(instruments, mine, cursor, Some(found), after),
    ensures
        found@ == own[lapped(place, 1, own.len())],
{
    let slots = pass_length(instruments);
    let last = own.len() - 1;
    let next = if place < last {
        place + 1
    } else {
        0
    };
    assert(next == lapped(place, 1, own.len())) by {
        if place < last {
            vstd::arithmetic::div_mod::lemma_small_mod((place + 1) as nat, own.len());
        } else {
            vstd::arithmetic::div_mod::lemma_mod_self_0(own.len() as int);
        }
    }
    assert(own[place] < slots && own[next] < slots);
    assert(cursor == if own[place] + 1 < slots {
        own[place] + 1
    } else {
        0
    }) by {
        if own[place] + 1 < slots {
            vstd::arithmetic::div_mod::lemma_small_mod((own[place] + 1) as nat, slots as nat);
        } else {
            vstd::arithmetic::div_mod::lemma_mod_self_0(slots as int);
        }
    }
    a_pass_returns_its_own(instruments, mine, own, cursor, found, after);
    let wanted = steps_to(cursor, slots, own[next]);
    steps_reach(cursor, slots, own[next]);
    let step = choose|step: int|
        {
            &&& 0 <= step < slots
            &&& found@ == #[trigger] slot_at(cursor, slots, step)
            &&& instruments.holds_slot(found@ as int)
            &&& mine(found@)
            &&& forall|earlier: int|
                0 <= earlier < step ==> {
                    let slot = #[trigger] slot_at(cursor, slots, earlier);
                    !instruments.holds_slot(slot as int) || !mine(slot)
                }
            &&& after == slot_at(cursor, slots, step + 1)
        };
    steps_are_steps(cursor, slots, step);
    assert(slot_at(cursor, slots, wanted) == own[next]);
    assert(step <= wanted);
    let at = own.index_of(found@);
    assert(0 <= at < own.len() && own[at] == found@);
    if step < wanted {
        if place < last {
            assert(own[place] < own[at] < own[next]);
            assert(at > place && at < next);
        } else {
            assert(own[at] <= own[last] && own[0] <= own[at]);
        }
    }
}

/// Where a run of calls has come to after the first `count` of them: `start` is
/// the place of the first instrument it returned.
spec fn lapping(
    instruments: InstrumentTable,
    own: Seq<u32>,
    states: Seq<RotationView>,
    due: Seq<Option<InstrumentRef>>,
    count: int,
    start: int,
) -> bool {
    let so_far = returned(due.take(count));
    &&& states[count].cursor < u32::MAX
    &&& forall|i: int|
        0 <= i < so_far.len() ==> #[trigger] so_far[i] == own[lapped(start, i, own.len())]
    &&& so_far.len() > 0 ==> states[count].cursor == (so_far.last() + 1) % pass_length(
        instruments,
    ) as int
}

proof fn a_place_is_a_place(start: int, steps: int, len: nat)
    requires
        len > 0,
    ensures
        0 <= lapped(start, steps, len) < len,
        lapped(lapped(start, steps, len), 1, len) == lapped(start, steps + 1, len),
        0 <= start < len ==> lapped(start, 0, len) == start,
{
    vstd::arithmetic::div_mod::lemma_mod_bound(start + steps, len as int);
    vstd::arithmetic::div_mod::lemma_add_mod_noop(start + steps, 1, len as int);
    vstd::arithmetic::div_mod::lemma_add_mod_noop(lapped(start, steps, len), 1, len as int);
    vstd::arithmetic::div_mod::lemma_mod_twice(start + steps, len as int);
    if 0 <= start < len {
        vstd::arithmetic::div_mod::lemma_small_mod(start as nat, len);
    }
}

proof fn calls_lap(
    instruments: InstrumentTable,
    mine: spec_fn(u32) -> bool,
    published: usize,
    now_ns: Seq<u64>,
    states: Seq<RotationView>,
    due: Seq<Option<InstrumentRef>>,
    own: Seq<u32>,
    count: int,
) -> (start: int)
    requires
        serves(instruments, mine, own),
        own.len() > 0,
        are_calls(instruments, mine, published, now_ns, states, due),
        states[0].cursor < u32::MAX,
        0 <= count <= due.len(),
    ensures
        0 <= start < own.len(),
        lapping(instruments, own, states, due, count, start),
    decreases count,
{
    if count == 0 {
        assert(returned(due.take(0)) =~= Seq::<u32>::empty());
        return 0;
    }
    let at = count - 1;
    let start = calls_lap(instruments, mine, published, now_ns, states, due, own, at);
    let before = returned(due.take(at));
    let slots = pass_length(instruments);
    assert(due.take(count).drop_last() =~= due.take(at));
    assert(due.take(count).last() == due[at]);
    assert(paced(
        states[at],
        states[at + 1],
        now_ns[at],
        instruments,
        published,
        due[at],
        pass_over(instruments, mine, states[at].cursor, due[at], states[at + 1].cursor),
    ));
    match due[at] {
        None => {
            none_leaves_the_cursor_or_passes(
                instruments,
                mine,
                published,
                now_ns[at],
                states[at],
                states[at + 1],
                own,
            );
            if before.len() > 0 {
                a_place_is_a_place(start, before.len() - 1, own.len());
                assert(own[lapped(start, before.len() - 1, own.len())] < slots);
                vstd::arithmetic::div_mod::lemma_mod_pos_bound(
                    before.last() + 1,
                    slots as int,
                );
            }
            start
        },
        Some(found) => {
            let cursor = states[at].cursor;
            let after = states[at + 1].cursor;
            a_pass_returns_its_own(instruments, mine, own, cursor, found, after);
            let so_far = returned(due.take(count));
            assert(so_far == before.push(found@));
            if before.len() == 0 {
                let place = own.index_of(found@);
                a_place_is_a_place(place, 0, own.len());
                place
            } else {
                let last = before.len() - 1;
                let place = lapped(start, last, own.len());
                a_place_is_a_place(start, last, own.len());
                a_pass_returns_the_next(instruments, mine, own, place, cursor, found, after);
                assert(so_far[before.len() as int] == own[lapped(
                    start,
                    before.len() as int,
                    own.len(),
                )]);
                start
            }
        },
    }
}

/// A call that returns nothing leaves the cursor where it is, unless the cursor
/// is past every slot: a pass from a slot that meets an instrument returns one.
proof fn none_leaves_the_cursor_or_passes(
    instruments: InstrumentTable,
    mine: spec_fn(u32) -> bool,
    published: usize,
    now_ns: u64,
    before: RotationView,
    after: RotationView,
    own: Seq<u32>,
)
    requires
        serves(instruments, mine, own),
        own.len() > 0,
        before.cursor < u32::MAX,
        paced(
            before,
            after,
            now_ns,
            instruments,
            published,
            None,
            pass_over(instruments, mine, before.cursor, None, after.cursor),
        ),
    ensures
        after.cursor < u32::MAX,
        before.cursor < pass_length(instruments) ==> after.cursor == before.cursor && !(
        before.next_due_ns matches Some(at) && now_ns >= at),
{
    let slots = pass_length(instruments);
    assert(own[0] < slots);
    if before.next_due_ns matches Some(at) && now_ns >= at {
        assert(pass_over(instruments, mine, before.cursor, None, after.cursor));
        next_slot(before.cursor, slots, slots - 1);
        if before.cursor < slots {
            let step = steps_to(before.cursor, slots, own[0]);
            steps_reach(before.cursor, slots, own[0]);
            assert(slot_at(before.cursor, slots, step) == own[0]);
        }
    }
}

/// A lap returns each instrument once: over a table that does not change, the
/// instruments successive calls return are those the rotation serves, in
/// ascending slot order read cyclically. So any as many of them as it serves are
/// all of them, each once, whether or not the caller could snapshot the one
/// before; and a call at its time always returns one.
pub proof fn a_lap_returns_each_once(
    instruments: InstrumentTable,
    mine: spec_fn(u32) -> bool,
    published: usize,
    now_ns: Seq<u64>,
    states: Seq<RotationView>,
    due: Seq<Option<InstrumentRef>>,
    own: Seq<u32>,
)
    requires
        serves(instruments, mine, own),
        own.len() > 0,
        are_calls(instruments, mine, published, now_ns, states, due),
        states[0].cursor < u32::MAX,
    ensures
        forall|i: int|
            0 <= i < returned(due).len() ==> own.contains(#[trigger] returned(due)[i]),
        forall|i: int, place: int|
            0 <= i < returned(due).len() - 1 && 0 <= place < own.len() && #[trigger] own[place]
                == #[trigger] returned(due)[i] ==> returned(due)[i + 1] == own[lapped(
                place,
                1,
                own.len(),
            )],
        forall|i: int, j: int|
            0 <= i < j < returned(due).len() && j < i + own.len() ==> #[trigger] returned(due)[i]
                != #[trigger] returned(due)[j],
        forall|i: int, slot: u32|
            0 <= i && i + own.len() <= returned(due).len() && own.contains(slot)
                ==> #[trigger] returned(due).subrange(i, i + own.len()).contains(slot),
        states[0].cursor < pass_length(instruments) ==> forall|i: int|
            0 <= i < due.len() && (states[i].next_due_ns matches Some(at) && now_ns[i] >= at)
                ==> (#[trigger] due[i]) is Some,
{
    let start = calls_lap(
        instruments,
        mine,
        published,
        now_ns,
        states,
        due,
        own,
        due.len() as int,
    );
    assert(due.take(due.len() as int) =~= due);
    let all = returned(due);
    let len = own.len();
    assert forall|i: int| 0 <= i < all.len() implies own.contains(#[trigger] all[i]) by {
        a_place_is_a_place(start, i, len);
        assert(own[lapped(start, i, len)] == all[i]);
    }
    assert forall|i: int, place: int|
        0 <= i < all.len() - 1 && 0 <= place < len && #[trigger] own[place]
            == #[trigger] all[i] implies all[i + 1] == own[lapped(place, 1, len)] by {
        a_place_is_a_place(start, i, len);
        one_place_each(own, place, lapped(start, i, len));
    }
    assert forall|i: int, j: int|
        0 <= i < j < all.len() && j < i + len implies #[trigger] all[i] != #[trigger] all[j] by {
        a_place_is_a_place(start, i, len);
        a_place_is_a_place(start, j, len);
        places_within_a_lap_differ(start, i, j, len);
        if all[i] == all[j] {
            one_place_each(own, lapped(start, i, len), lapped(start, j, len));
        }
    }
    assert forall|i: int, slot: u32|
        0 <= i && i + len <= all.len() && own.contains(slot) implies #[trigger] all.subrange(
        i,
        i + len,
    ).contains(slot) by {
        let place = own.index_of(slot);
        a_place_is_a_place(start, i, len);
        let on = if place >= lapped(start, i, len) {
            place - lapped(start, i, len)
        } else {
            place - lapped(start, i, len) + len
        };
        a_lap_comes_by(start, i, place, len);
        assert(all[i + on] == slot);
        assert(all.subrange(i, i + len)[on] == slot);
    }
    if states[0].cursor < pass_length(instruments) {
        assert forall|i: int|
            0 <= i < due.len() && (states[i].next_due_ns matches Some(at) && now_ns[i]
                >= at) implies (#[trigger] due[i]) is Some by {
            the_cursor_stays_a_slot(instruments, mine, published, now_ns, states, due, own, i);
            if due[i] is None {
                none_leaves_the_cursor_or_passes(
                    instruments,
                    mine,
                    published,
                    now_ns[i],
                    states[i],
                    states[i + 1],
                    own,
                );
            }
        }
    }
}

proof fn one_place_each(own: Seq<u32>, one: int, other: int)
    requires
        forall|i: int, j: int|
            0 <= i < j < own.len() ==> #[trigger] own[i] < #[trigger] own[j],
        0 <= one < own.len(),
        0 <= other < own.len(),
        own[one] == own[other],
    ensures
        one == other,
{
}

proof fn places_within_a_lap_differ(start: int, i: int, j: int, len: nat)
    requires
        len > 0,
        i < j < i + len,
    ensures
        lapped(start, i, len) != lapped(start, j, len),
{
    if lapped(start, i, len) == lapped(start, j, len) {
        vstd::arithmetic::div_mod::lemma_mod_equivalence(start + j, start + i, len as int);
        vstd::arithmetic::div_mod::lemma_small_mod((j - i) as nat, len);
        assert((start + j) - (start + i) == j - i);
    }
}

proof fn a_lap_comes_by(start: int, i: int, place: int, len: nat)
    requires
        0 <= place < len,
    ensures
        ({
            let from = lapped(start, i, len);
            let on = if place >= from {
                place - from
            } else {
                place - from + len
            };
            0 <= on < len && lapped(start, i + on, len) == place
        }),
{
    let from = lapped(start, i, len);
    vstd::arithmetic::div_mod::lemma_mod_bound(start + i, len as int);
    let on = if place >= from {
        place - from
    } else {
        place - from + len
    };
    vstd::arithmetic::div_mod::lemma_add_mod_noop(start + i, on, len as int);
    vstd::arithmetic::div_mod::lemma_small_mod(on as nat, len);
    assert(start + (i + on) == (start + i) + on);
    if place >= from {
        vstd::arithmetic::div_mod::lemma_small_mod(place as nat, len);
    } else {
        vstd::arithmetic::div_mod::lemma_mod_add_multiples_vanish(place, len as int);
        vstd::arithmetic::div_mod::lemma_small_mod(place as nat, len);
    }
}

proof fn the_cursor_stays_a_slot(
    instruments: InstrumentTable,
    mine: spec_fn(u32) -> bool,
    published: usize,
    now_ns: Seq<u64>,
    states: Seq<RotationView>,
    due: Seq<Option<InstrumentRef>>,
    own: Seq<u32>,
    count: int,
)
    requires
        serves(instruments, mine, own),
        own.len() > 0,
        are_calls(instruments, mine, published, now_ns, states, due),
        states[0].cursor < pass_length(instruments),
        states[0].cursor < u32::MAX,
        0 <= count <= due.len(),
    ensures
        states[count].cursor < pass_length(instruments),
        states[count].cursor < u32::MAX,
    decreases count,
{
    if count > 0 {
        let at = count - 1;
        the_cursor_stays_a_slot(instruments, mine, published, now_ns, states, due, own, at);
        assert(paced(
            states[at],
            states[at + 1],
            now_ns[at],
            instruments,
            published,
            due[at],
            pass_over(instruments, mine, states[at].cursor, due[at], states[at + 1].cursor),
        ));
        match due[at] {
            None => none_leaves_the_cursor_or_passes(
                instruments,
                mine,
                published,
                now_ns[at],
                states[at],
                states[at + 1],
                own,
            ),
            Some(found) => a_pass_returns_its_own(
                instruments,
                mine,
                own,
                states[at].cursor,
                found,
                states[at + 1].cursor,
            ),
        }
    }
}

/// A snapshot falls due every cycle divided by the set, rounded down, and never
/// more often than every millisecond; an empty set is paced as a set of one.
pub proof fn a_tick_is_the_cycle_over_the_set(cycle: nat, instruments: usize)
    ensures
        ({
            let parts: nat = if instruments == 0 {
                1
            } else {
                instruments as nat
            };
            &&& instruments <= u32::MAX && cycle / parts >= 1_000_000 ==> tick_nanos(
                cycle,
                instruments,
            ) == cycle / parts
            &&& instruments <= u32::MAX && cycle / parts < 1_000_000 ==> tick_nanos(
                cycle,
                instruments,
            ) == 1_000_000
        }),
{
}

/// The share a shard asks for is how many of its snapshots the process would have
/// to send per one it can, in millionths; an empty shard asks for none.
pub proof fn a_share_is_the_process_tick_over_the_shards(
    process_tick: nat,
    cycle: nat,
    instruments: usize,
)
    ensures
        share(process_tick, cycle, 0) == 0,
        instruments > 0 ==> share(process_tick, cycle, instruments) == process_tick * 1_000_000
            / tick_nanos(cycle, instruments),
{
}

/// The first call schedules and takes nothing; one before its time does nothing at
/// all; and one at its time schedules the next a tick from now.
pub proof fn a_rotation_keeps_its_time(
    before: RotationView,
    after: RotationView,
    now_ns: u64,
    instruments: InstrumentTable,
    published: usize,
    due: Option<InstrumentRef>,
    passed: bool,
)
    requires
        paced(before, after, now_ns, instruments, published, due, passed),
        instruments@.len() > 0,
    ensures
        after.cycle_ns == before.cycle_ns,
        before.next_due_ns is None ==> due is None && after.cursor == before.cursor,
        before.next_due_ns matches Some(at) && now_ns < at ==> due is None && after == before,
        before.next_due_ns is None || now_ns >= before.next_due_ns->0 ==> {
            let next = now_ns + tick_nanos(before.cycle_ns as nat, published);
            &&& next <= u64::MAX ==> after.next_due_ns == Some(next as u64)
            &&& next > u64::MAX ==> after.next_due_ns == Some(u64::MAX)
        },
        before.next_due_ns matches Some(at) && now_ns >= at ==> passed,
{
}

/// Over an empty table nothing is scheduled and nothing is taken.
pub proof fn an_empty_table_is_not_paced(
    before: RotationView,
    after: RotationView,
    now_ns: u64,
    instruments: InstrumentTable,
    published: usize,
    due: Option<InstrumentRef>,
    passed: bool,
)
    requires
        paced(before, after, now_ns, instruments, published, due, passed),
        instruments@.len() == 0,
    ensures
        due is None,
        after == before,
{
}

/// A set of more than 32 bits count is paced as one of that many.
pub proof fn a_larger_set_is_paced_as_the_largest(cycle: nat, instruments: usize)
    requires
        instruments > u32::MAX,
    ensures
        tick_nanos(cycle, instruments) == tick_nanos(cycle, u32::MAX as usize),
{
}

/// A pass over slots of which one holds an instrument of the shard finds one: held,
/// the shard's own, and the first from the cursor on.
pub proof fn a_pass_finds_where_there_is_one(
    instruments: InstrumentTable,
    mine: spec_fn(u32) -> bool,
    cursor: u32,
    found: Option<InstrumentRef>,
    after: u32,
    slot: u32,
)
    requires
        pass_over(instruments, mine, cursor, found, after),
        instruments@.len() <= u32::MAX,
        cursor < instruments@.len(),
        slot < instruments@.len(),
        instruments@[slot as int],
        mine(slot),
    ensures
        found is Some,
        found->0@ < instruments@.len(),
        instruments@[found->0@ as int],
        mine(found->0@),
        cursor <= slot ==> cursor <= found->0@ <= slot,
        after == if found->0@ + 1 < instruments@.len() {
            found->0@ + 1
        } else {
            0
        },
{
    let slots = pass_length(instruments);
    let wanted = steps_to(cursor, slots, slot);
    steps_reach(cursor, slots, slot);
    assert(slot_at(cursor, slots, wanted) == slot);
    let handle = found->0;
    let step = choose|step: int|
        {
            &&& 0 <= step < slots
            &&& handle@ == #[trigger] slot_at(cursor, slots, step)
            &&& instruments.holds_slot(handle@ as int)
            &&& mine(handle@)
            &&& forall|earlier: int|
                0 <= earlier < step ==> {
                    let slot = #[trigger] slot_at(cursor, slots, earlier);
                    !instruments.holds_slot(slot as int) || !mine(slot)
                }
            &&& after == slot_at(cursor, slots, step + 1)
        };
    assert(step <= wanted);
    steps_are_steps(cursor, slots, step);
    next_slot(cursor, slots, step);
    if handle@ + 1 < slots {
        vstd::arithmetic::div_mod::lemma_small_mod((handle@ + 1) as nat, slots as nat);
    } else {
        vstd::arithmetic::div_mod::lemma_mod_self_0(slots as int);
    }
}

/// A pass over slots none of which holds an instrument of the shard finds none, and
/// leaves the cursor where it was.
pub proof fn a_pass_finds_nothing_where_there_is_none(
    instruments: InstrumentTable,
    mine: spec_fn(u32) -> bool,
    cursor: u32,
    found: Option<InstrumentRef>,
    after: u32,
)
    requires
        pass_over(instruments, mine, cursor, found, after),
        instruments@.len() <= u32::MAX,
        cursor < instruments@.len(),
        forall|slot: u32|
            #![trigger mine(slot)]
            slot < instruments@.len() && instruments@[slot as int] ==> !mine(slot),
    ensures
        found is None,
        after == cursor,
{
    let slots = pass_length(instruments);
    vstd::arithmetic::div_mod::lemma_mod_add_multiples_vanish(cursor as int, slots as int);
    vstd::arithmetic::div_mod::lemma_small_mod(cursor as nat, slots as nat);
}

} // verus!
