//! Instruments by their handles, and which of the handles are held.
//!
//! A handle is a slot for the lifetime of the table: an instrument that is
//! withdrawn leaves a hole behind and its handle is not used again.

use vstd::prelude::*;

verus! {

/// A handle on an instrument: the slot it was listed in.
#[derive(Debug, Clone, Copy, PartialEq, Eq, PartialOrd, Ord, Hash, Structural)]
pub struct InstrumentRef {
    index: u32,
}

impl View for InstrumentRef {
    type V = u32;

    closed spec fn view(&self) -> u32 {
        self.index
    }
}

impl InstrumentRef {
    /// The handle on slot `index`.
    pub fn from_admission(index: u32) -> (handle: Self)
        ensures
            handle@ == index,
    {
        Self { index }
    }

    /// The slot.
    pub fn index(self) -> (index: u32)
        ensures
            index == self@,
    {
        self.index
    }

    /// Whether two handles are on one slot.
    pub fn same_instrument(&self, other: &Self) -> (same: bool)
        ensures
            same == (self@ == other@),
            same == (*self == *other),
    {
        self.index == other.index
    }
}

/// One handle per slot.
pub proof fn one_handle_per_slot(one: InstrumentRef, other: InstrumentRef)
    requires
        one@ == other@,
    ensures
        one == other,
{
}

/// The slots instruments were listed in, in order, and which of them still
/// hold one.
#[derive(Debug)]
pub struct InstrumentTable {
    held: Vec<bool>,
    count: usize,
}

/// How many of the slots are held.
pub open spec fn held_count(slots: Seq<bool>) -> nat
    decreases slots.len(),
{
    if slots.len() == 0 {
        0
    } else {
        held_count(slots.drop_last()) + if slots.last() {
            1nat
        } else {
            0nat
        }
    }
}

proof fn clearing_a_held_slot_counts_one_less(slots: Seq<bool>, at: int)
    requires
        0 <= at < slots.len(),
        slots[at],
    ensures
        held_count(slots.update(at, false)) + 1 == held_count(slots),
    decreases slots.len(),
{
    let cleared = slots.update(at, false);
    if at == slots.len() - 1 {
        assert(cleared.drop_last() =~= slots.drop_last());
    } else {
        assert(cleared.drop_last() =~= slots.drop_last().update(at, false));
        clearing_a_held_slot_counts_one_less(slots.drop_last(), at);
    }
}

proof fn a_held_slot_counts(slots: Seq<bool>, at: int)
    requires
        0 <= at < slots.len(),
        slots[at],
    ensures
        held_count(slots) > 0,
    decreases slots.len(),
{
    if at < slots.len() - 1 {
        a_held_slot_counts(slots.drop_last(), at);
    }
}

proof fn held_slots_are_slots(slots: Seq<bool>)
    ensures
        held_count(slots) <= slots.len(),
    decreases slots.len(),
{
    if slots.len() > 0 {
        held_slots_are_slots(slots.drop_last());
    }
}

impl View for InstrumentTable {
    type V = Seq<bool>;

    /// Whether each slot is held.
    closed spec fn view(&self) -> Seq<bool> {
        self.held@
    }
}

impl InstrumentTable {
    #[verifier::type_invariant]
    closed spec fn counted(self) -> bool {
        self.count == held_count(self.held@)
    }

    /// Whether `index` is a slot that holds an instrument.
    pub open spec fn holds_slot(self, index: int) -> bool {
        0 <= index < self@.len() && self@[index]
    }

    /// A table nothing was listed in.
    pub fn new() -> (table: Self)
        ensures
            table@ == Seq::<bool>::empty(),
    {
        Self { held: Vec::new(), count: 0 }
    }

    /// List an instrument in the next slot.
    pub fn list(&mut self) -> (handle: InstrumentRef)
        requires
            old(self)@.len() < u32::MAX,
        ensures
            handle@ == old(self)@.len(),
            final(self)@ == old(self)@.push(true),
    {
        proof {
            use_type_invariant(&*self);
            held_slots_are_slots(self.held@);
        }
        let mut table: Self = Self::new();
        std::mem::swap(&mut table, self);
        let index: u32 = table.held.len() as u32;
        let count: usize = table.count + 1;
        let mut held: Vec<bool> = table.held;
        held.push(true);
        proof {
            assert(held@.drop_last() =~= old(self)@);
        }
        *self = Self { held, count };
        InstrumentRef { index }
    }

    /// Withdraw an instrument, leaving its slot a hole.
    pub fn withdraw(&mut self, handle: InstrumentRef)
        ensures
            final(self)@ == if old(self).holds_slot(handle@ as int) {
                old(self)@.update(handle@ as int, false)
            } else {
                old(self)@
            },
    {
        if self.holds(handle) {
            proof {
                use_type_invariant(&*self);
                a_held_slot_counts(self.held@, handle@ as int);
                clearing_a_held_slot_counts_one_less(self.held@, handle@ as int);
            }
            let mut table: Self = Self::new();
            std::mem::swap(&mut table, self);
            let count: usize = table.count - 1;
            let mut held: Vec<bool> = table.held;
            held.set(handle.index as usize, false);
            *self = Self { held, count };
        }
    }

    /// Whether a handle is on an instrument that is still there.
    pub fn holds(&self, handle: InstrumentRef) -> (held: bool)
        ensures
            held == self.holds_slot(handle@ as int),
    {
        let index: usize = handle.index as usize;
        index < self.held.len() && self.held[index]
    }

    /// How many slots there are, held and not.
    pub fn slots(&self) -> (slots: usize)
        ensures
            slots == self@.len(),
    {
        self.held.len()
    }

    /// How many instruments there are.
    pub fn len(&self) -> (count: usize)
        ensures
            count == held_count(self@),
    {
        proof {
            use_type_invariant(self);
        }
        self.count
    }

    /// Whether there is no instrument.
    pub fn is_empty(&self) -> (empty: bool)
        ensures
            empty == (held_count(self@) == 0),
    {
        self.len() == 0
    }
}

/// Every held slot is counted, and nothing else is.
pub proof fn a_slot_counts_where_it_is_held(slots: Seq<bool>, held: bool)
    ensures
        held_count(Seq::empty()) == 0,
        held_count(slots.push(held)) == held_count(slots) + if held {
            1int
        } else {
            0
        },
{
    assert(slots.push(held).drop_last() =~= slots);
}

} // verus!
