//! The decisions of the loop that runs a composed publisher: what a pass of it
//! does and in which order, which connections it reads, and which of them can end
//! it.

use vstd::prelude::*;
use vstd::string::*;

use crate::config::{Source, SourceRole};
use crate::duration::Duration;
use crate::error;
use crate::error::{Refusal, StartupError};
use crate::guard::Exit;
use crate::instrument::InstrumentRef;
use crate::text;

verus! {

/// How often the loop runs, and so how often one periodic snapshot is served,
/// in nanoseconds.
pub const TICK_NS: u64 = 10_000_000;

/// How often the loop runs.
pub fn tick_interval() -> (interval: Duration)
    ensures
        interval@ == TICK_NS,
{
    Duration::from_nanos(TICK_NS)
}

/// The most datagrams one definition tick may emit: the smallest schedule that
/// makes progress. The published set is never emitted as a single burst, and a
/// stall degrades into a denser lap rather than a spike.
pub const MAX_DEFINITION_DATAGRAMS_PER_TICK: usize = 1;

/// One step of a pass of the loop.
#[derive(Debug, Clone, Copy, PartialEq, Eq, Structural)]
pub enum PassStep {
    /// Wait for the next tick.
    Wait,
    /// Take in what the venue lists.
    PollListings,
    /// Name the shards that were offered and are not configured.
    NameUnknownShards,
    /// Drain the recovery snapshots that are owed.
    DrainOwed,
    /// Send one recovery snapshot, at the anchor its reset promised. One that is
    /// refused is not retried.
    RecoverySnapshot { instrument: InstrumentRef, anchor: u64 },
    /// Send the one periodic snapshot that is due, where one is.
    PeriodicSnapshot,
    /// Name the members that are no longer sent to.
    NameSinks,
    /// Run the tick, which says whether the process has to end.
    Tick,
}

/// The steps that send what was drained, one for each and in its order.
pub open spec fn recoveries(owed: Seq<(InstrumentRef, u64)>) -> Seq<PassStep> {
    Seq::new(
        owed.len(),
        |i: int| PassStep::RecoverySnapshot { instrument: owed[i].0, anchor: owed[i].1 },
    )
}

/// The steps of one pass that drains `owed`, in order.
pub open spec fn pass_steps(owed: Seq<(InstrumentRef, u64)>) -> Seq<PassStep> {
    seq![
        PassStep::Wait,
        PassStep::PollListings,
        PassStep::NameUnknownShards,
        PassStep::DrainOwed,
    ] + recoveries(owed) + seq![PassStep::PeriodicSnapshot, PassStep::NameSinks, PassStep::Tick]
}

/// How far a pass of the loop has come.
#[derive(Debug)]
pub struct Pass {
    /// Which of the steps there always are comes next, and four for a recovery
    /// snapshot.
    at: u8,
    owed: Vec<(InstrumentRef, u64)>,
    handed: usize,
}

/// A pass as values to reason about.
#[verifier::ext_equal]
pub struct PassView {
    /// What was drained in this pass; nothing before it is.
    pub owed: Seq<(InstrumentRef, u64)>,
    /// How many of its steps are done.
    pub done: int,
}

impl PassView {
    /// A pass that has done nothing.
    pub open spec fn fresh() -> PassView {
        PassView { owed: Seq::empty(), done: 0 }
    }

    /// What to do next.
    pub open spec fn step(self) -> PassStep {
        pass_steps(self.owed)[self.done]
    }

    /// Whether the next step is the last of the pass.
    pub open spec fn at_the_end(self) -> bool {
        self.done == pass_steps(self.owed).len() - 1
    }

    /// The pass after the next step, and behind the last step the next pass.
    pub open spec fn after_step(self) -> PassView {
        if self.at_the_end() {
            PassView::fresh()
        } else {
            PassView { done: self.done + 1, ..self }
        }
    }

    /// The pass after `drained` was drained.
    pub open spec fn after_drain(self, drained: Seq<(InstrumentRef, u64)>) -> PassView {
        PassView { owed: drained, done: self.done + 1 }
    }
}

impl View for Pass {
    type V = PassView;

    closed spec fn view(&self) -> PassView {
        PassView {
            owed: self.owed@,
            done: if self.at < 4 {
                self.at as int
            } else if self.at == 4 {
                4 + self.handed
            } else {
                4 + self.owed@.len() + (self.at - 5)
            },
        }
    }
}

impl Pass {
    #[verifier::type_invariant]
    closed spec fn within_the_pass(self) -> bool {
        &&& self.at < 8
        &&& self.at < 4 ==> self.owed@.len() == 0
        &&& self.at == 4 ==> self.handed < self.owed@.len()
    }

    /// A pass that has done nothing.
    pub fn new() -> (pass: Self)
        ensures
            pass@ == PassView::fresh(),
    {
        let pass: Self = Self { at: 0, owed: Vec::new(), handed: 0 };
        proof {
            assert(pass@ =~= PassView::fresh());
        }
        pass
    }

    /// What to do next.
    pub fn step(&self) -> (step: PassStep)
        ensures
            0 <= self@.done < pass_steps(self@.owed).len(),
            step == self@.step(),
    {
        proof {
            use_type_invariant(self);
        }
        match self.at {
            0 => PassStep::Wait,
            1 => PassStep::PollListings,
            2 => PassStep::NameUnknownShards,
            3 => PassStep::DrainOwed,
            4 => {
                let (instrument, anchor): (InstrumentRef, u64) = self.owed[self.handed];
                PassStep::RecoverySnapshot { instrument, anchor }
            },
            5 => PassStep::PeriodicSnapshot,
            6 => PassStep::NameSinks,
            _ => PassStep::Tick,
        }
    }

    /// What was owed has been drained: each of it is a step of this pass.
    pub fn drained(&mut self, owed: Vec<(InstrumentRef, u64)>)
        requires
            old(self)@.step() == PassStep::DrainOwed,
        ensures
            final(self)@ == old(self)@.after_drain(owed@),
    {
        proof {
            use_type_invariant(&*self);
            assert(self.at == 3);
        }
        let at: u8 = if owed.len() == 0 {
            5
        } else {
            4
        };
        *self = Self { at, owed, handed: 0 };
    }

    /// The step is done, and the process has to end where `exit` says so: which
    /// the last step alone decides.
    pub fn done(&mut self, exit: Option<Exit>) -> (ended: Option<Exit>)
        requires
            old(self)@.step() != PassStep::DrainOwed,
        ensures
            ended == if old(self)@.at_the_end() {
                exit
            } else {
                None
            },
            final(self)@ == old(self)@.after_step(),
    {
        proof {
            use_type_invariant(&*self);
            assert(self.at != 3);
        }
        if self.at == 7 {
            *self = Self::new();
            return exit;
        }
        if self.at == 4 && self.owed.len() - self.handed > 1 {
            self.handed = self.handed + 1;
        } else {
            self.at = self.at + 1;
        }
        None
    }
}

/// One step was gone through: the draining gave `drained`, and any other step is
/// done.
pub open spec fn went_on(
    before: PassView,
    after: PassView,
    drained: Seq<(InstrumentRef, u64)>,
) -> bool {
    after == if before.step() == PassStep::DrainOwed {
        before.after_drain(drained)
    } else {
        before.after_step()
    }
}

/// A pass waits once, polls the listings once, sends each recovery snapshot that
/// was drained once and in its order, sends at most one periodic snapshot, and
/// ticks once, in this order; and behind the tick the next pass begins.
pub proof fn a_pass_is_its_steps(states: Seq<PassView>, drained: Seq<(InstrumentRef, u64)>)
    requires
        states.len() == pass_steps(drained).len() + 1,
        states[0] == PassView::fresh(),
        forall|i: int|
            0 <= i < states.len() - 1 ==> went_on(#[trigger] states[i], states[i + 1], drained),
    ensures
        forall|i: int|
            0 <= i < pass_steps(drained).len() ==> (#[trigger] states[i]).step() == pass_steps(
                drained,
            )[i],
        forall|i: int|
            0 <= i < pass_steps(drained).len() ==> ((#[trigger] states[i]).at_the_end() <==> i
                == pass_steps(drained).len() - 1),
        states.last() == PassView::fresh(),
{
    let steps = pass_steps(drained);
    assert(pass_steps(Seq::empty()).len() == 7);
    assert forall|i: int| 0 <= i < steps.len() implies ({
        &&& (#[trigger] states[i]).step() == steps[i]
        &&& states[i].at_the_end() <==> i == steps.len() - 1
    }) by {
        a_pass_so_far(states, drained, i);
    }
    a_pass_so_far(states, drained, steps.len() - 1);
    assert(went_on(states[steps.len() - 1], states[steps.len() as int], drained));
}

proof fn a_pass_so_far(states: Seq<PassView>, drained: Seq<(InstrumentRef, u64)>, count: int)
    requires
        states.len() == pass_steps(drained).len() + 1,
        states[0] == PassView::fresh(),
        forall|i: int|
            0 <= i < states.len() - 1 ==> went_on(#[trigger] states[i], states[i + 1], drained),
        0 <= count < pass_steps(drained).len(),
    ensures
        states[count].done == count,
        states[count].owed == if count < 4 {
            Seq::<(InstrumentRef, u64)>::empty()
        } else {
            drained
        },
        states[count].step() == pass_steps(drained)[count],
        states[count].at_the_end() <==> count == pass_steps(drained).len() - 1,
    decreases count,
{
    let none = Seq::<(InstrumentRef, u64)>::empty();
    assert(pass_steps(none).len() == 7);
    assert(pass_steps(drained).len() == drained.len() + 7);
    if count > 0 {
        a_pass_so_far(states, drained, count - 1);
        assert(went_on(states[count - 1], states[count], drained));
    }
    if count < 4 {
        assert(pass_steps(none)[count] == pass_steps(drained)[count]);
    }
}

/// Where each step of a pass stands: the wait first and the tick last, one
/// periodic snapshot, and a recovery snapshot for each that was drained and for
/// no other.
pub proof fn each_step_has_its_place(owed: Seq<(InstrumentRef, u64)>, at: int)
    requires
        0 <= at < pass_steps(owed).len(),
    ensures
        pass_steps(owed).len() == owed.len() + 7,
        pass_steps(owed)[at] == PassStep::Wait <==> at == 0,
        pass_steps(owed)[at] == PassStep::PollListings <==> at == 1,
        pass_steps(owed)[at] == PassStep::NameUnknownShards <==> at == 2,
        pass_steps(owed)[at] == PassStep::DrainOwed <==> at == 3,
        pass_steps(owed)[at] is RecoverySnapshot <==> 4 <= at < 4 + owed.len(),
        4 <= at < 4 + owed.len() ==> pass_steps(owed)[at] == (PassStep::RecoverySnapshot {
            instrument: owed[at - 4].0,
            anchor: owed[at - 4].1,
        }),
        pass_steps(owed)[at] == PassStep::PeriodicSnapshot <==> at == owed.len() + 4,
        pass_steps(owed)[at] == PassStep::NameSinks <==> at == owed.len() + 5,
        pass_steps(owed)[at] == PassStep::Tick <==> at == owed.len() + 6,
{
}

/// The connections a document declares.
pub open spec fn declared(sources: Seq<Source>) -> Seq<Seq<char>> {
    Seq::new(sources.len(), |i: int| sources[i].connection@)
}

/// Why the connections a document declares and those a venue built do not match.
pub open spec fn sources_refusal(sources: Seq<Source>, built: Seq<Seq<char>>) -> Option<Refusal> {
    if built.len() == 0 {
        Some(Refusal::NoVenueSource)
    } else if sources.len() == 0 {
        if built.len() > 1 {
            Some(Refusal::SourcesUndeclared { built: built.len() as usize })
        } else {
            None
        }
    } else if text::in_order(declared(sources)) != text::in_order(built) {
        Some(
            Refusal::SourcesDisagree {
                declared: text::joined(text::in_order(declared(sources)), ", "@),
                built: text::joined(text::in_order(built), ", "@),
            },
        )
    } else {
        None
    }
}

pub(crate) fn list_declared(sources: &Vec<Source>) -> (names: Vec<String>)
    ensures
        text::views(names@) == declared(sources@),
{
    let mut names: Vec<String> = Vec::new();
    let mut at: usize = 0;
    while at < sources.len()
        invariant
            at <= sources.len(),
            text::views(names@) == declared(sources@).take(at as int),
        decreases sources.len() - at,
    {
        text::push_text(&mut names, sources[at].connection.clone());
        proof {
            assert(declared(sources@).take(at + 1) =~= declared(sources@).take(at as int).push(
                sources@[at as int].connection@,
            ));
        }
        at += 1;
    }
    proof {
        assert(declared(sources@).take(at as int) =~= declared(sources@));
    }
    names
}

fn same_lists(left: &Vec<String>, right: &Vec<String>) -> (same: bool)
    ensures
        same == (text::views(left@) == text::views(right@)),
{
    if left.len() != right.len() {
        proof {
            assert(text::views(left@).len() != text::views(right@).len());
        }
        return false;
    }
    let mut at: usize = 0;
    while at < left.len()
        invariant
            at <= left.len(),
            left.len() == right.len(),
            forall|i: int| 0 <= i < at ==> text::views(left@)[i] == text::views(right@)[i],
        decreases left.len() - at,
    {
        if !text::same(left[at].as_str(), right[at].as_str()) {
            proof {
                assert(text::views(left@)[at as int] != text::views(right@)[at as int]);
            }
            return false;
        }
        at += 1;
    }
    proof {
        assert(text::views(left@) =~= text::views(right@));
    }
    true
}

/// Hold the connections a venue built to those the document declares.
///
/// The two are held to each other as sets: the document's order is a reading
/// order and the venue's is a construction order. A document that declares none
/// has one source, named by the transport the venue built.
///
/// # Errors
///
/// [`StartupError::NoVenueSource`] for a venue that built none,
/// [`StartupError::SourcesUndeclared`] for several that no document declares,
/// and [`StartupError::SourcesDisagree`] where the two differ.
pub fn check_sources(sources: &Vec<Source>, built: Vec<String>) -> (checked: Result<
    (),
    StartupError,
>)
    ensures
        match checked {
            Ok(_) => sources_refusal(sources@, text::views(built@)) is None,
            Err(error) => sources_refusal(sources@, text::views(built@)) == Some(error@),
        },
{
    if built.len() == 0 {
        return Err(StartupError::NoVenueSource);
    }
    if sources.len() == 0 {
        if built.len() > 1 {
            return Err(StartupError::SourcesUndeclared { built: built.len() });
        }
        return Ok(());
    }
    let declared: Vec<String> = text::sort(list_declared(sources));
    let built: Vec<String> = text::sort(built);
    if !same_lists(&declared, &built) {
        return Err(
            StartupError::SourcesDisagree {
                declared: text::join(&declared, ", "),
                built: text::join(&built, ", "),
            },
        );
    }
    Ok(())
}

/// Where a document declares its connections and no refusal is owed, the venue
/// built exactly those, each as often as it is declared.
pub proof fn what_is_declared_is_what_was_built(sources: Seq<Source>, built: Seq<Seq<char>>)
    requires
        sources.len() > 0,
        sources_refusal(sources, built) is None,
    ensures
        declared(sources).to_multiset() == built.to_multiset(),
        forall|name: Seq<char>| declared(sources).contains(name) <==> built.contains(name),
{
    text::ordering_keeps_what_is_there(declared(sources));
    text::ordering_keeps_what_is_there(built);
    broadcast use vstd::seq_lib::group_to_multiset_ensures;

    assert forall|name: Seq<char>| declared(sources).contains(name) <==> built.contains(name) by {
        assert(declared(sources).to_multiset().count(name) == built.to_multiset().count(name));
    }
}

/// A source that is published from is the first of its kind.
pub open spec fn first_primary(sources: Seq<Source>, at: int) -> bool {
    &&& 0 <= at < sources.len()
    &&& sources[at].role == SourceRole::Primary
    &&& forall|i: int| 0 <= i < at ==> (#[trigger] sources[i]).role != SourceRole::Primary
}

/// The connection a replay stands for: the primary's, and the one the venue
/// built where the document declares none.
pub fn primary_connection(sources: &Vec<Source>, built: &Vec<String>) -> (connection: String)
    requires
        built.len() > 0 || exists|i: int|
            0 <= i < sources.len() && (#[trigger] sources@[i]).role == SourceRole::Primary,
    ensures
        forall|at: int| #[trigger]
            first_primary(sources@, at) ==> connection@ == sources@[at].connection@,
        (forall|i: int|
            0 <= i < sources.len() ==> (#[trigger] sources@[i]).role != SourceRole::Primary)
            ==> connection@ == built@[0]@,
{
    let mut at: usize = 0;
    while at < sources.len()
        invariant
            at <= sources.len(),
            forall|i: int| 0 <= i < at ==> (#[trigger] sources@[i]).role != SourceRole::Primary,
            built.len() > 0 || exists|i: int|
                0 <= i < sources.len() && (#[trigger] sources@[i]).role == SourceRole::Primary,
        decreases sources.len() - at,
    {
        if sources[at].is_primary() {
            proof {
                assert forall|other: int| #[trigger] first_primary(
                    sources@,
                    other,
                ) implies other == at by {
                    if other < at {
                        assert(sources@[other].role != SourceRole::Primary);
                    }
                    if at < other {
                        assert(sources@[at as int].role != SourceRole::Primary);
                    }
                }
            }
            return sources[at].connection.clone();
        }
        at += 1;
    }
    built[0].clone()
}

/// The first source a connection is declared by.
pub open spec fn declared_by(sources: Seq<Source>, connection: Seq<char>, at: int) -> bool {
    &&& 0 <= at < sources.len()
    &&& sources[at].connection@ == connection
    &&& forall|i: int| 0 <= i < at ==> (#[trigger] sources[i]).connection@ != connection
}

/// Whether a fatal error on a connection ends the process: unless the source
/// that declares it is a comparison.
pub open spec fn fatal_ends(sources: Seq<Source>, connection: Seq<char>) -> bool {
    forall|at: int| #[trigger]
        declared_by(sources, connection, at) ==> sources[at].role != SourceRole::Comparison
}

/// Whether a fatal error on this connection ends the process.
///
/// Its role decides. A comparison's does not: everything it carries arrives on
/// the primary too. A connection that no source declares does: a publisher is
/// not kept running past a fault nobody spoke for.
pub fn fatal_ends_the_process(sources: &Vec<Source>, connection: &str) -> (ends: bool)
    ensures
        ends == fatal_ends(sources@, connection@),
{
    let mut at: usize = 0;
    while at < sources.len()
        invariant
            at <= sources.len(),
            forall|i: int| 0 <= i < at ==> (#[trigger] sources@[i]).connection@ != connection@,
        decreases sources.len() - at,
    {
        if text::same(sources[at].connection.as_str(), connection) {
            proof {
                assert(declared_by(sources@, connection@, at as int));
                assert forall|other: int| #[trigger] declared_by(
                    sources@,
                    connection@,
                    other,
                ) implies other == at by {
                    if other < at {
                        assert(sources@[other].connection@ != connection@);
                    }
                    if at < other {
                        assert(sources@[at as int].connection@ != connection@);
                    }
                }
            }
            return sources[at].role.fatal_error_ends_the_process();
        }
        at += 1;
    }
    true
}

/// What becomes of a run that was polled.
#[derive(Debug, Clone, Copy, PartialEq, Eq, Structural)]
pub enum Verdict {
    /// It has not given up and is polled again.
    Waits,
    /// It gave up and this publisher carries on without it.
    LeftOut,
    /// It gave up and the process ends with it.
    EndsTheProcess,
}

/// What becomes of a run, by whether its failure ends the process and whether
/// it gave up.
pub open spec fn verdict(ends_the_process: bool, gave_up: bool) -> Verdict {
    if !gave_up {
        Verdict::Waits
    } else if ends_the_process {
        Verdict::EndsTheProcess
    } else {
        Verdict::LeftOut
    }
}

/// One pass over the runs of the connections, each polled once and in turn.
///
/// A run that gave up is never polled again. The first whose failure ends the
/// process ends the pass; one whose failure does not is left out and named.
#[derive(Debug)]
pub struct Sweep {
    left_out: Vec<bool>,
}

impl View for Sweep {
    type V = Seq<bool>;

    /// For each run polled, whether it is left out.
    closed spec fn view(&self) -> Seq<bool> {
        self.left_out@
    }
}

/// What is not left out, in its order.
pub open spec fn kept<R>(runs: Seq<R>, left_out: Seq<bool>) -> Seq<R>
    decreases runs.len(),
{
    if runs.len() == 0 {
        Seq::empty()
    } else {
        let before = kept(runs.drop_last(), left_out);
        if runs.len() <= left_out.len() && left_out[runs.len() - 1] {
            before
        } else {
            before.push(runs.last())
        }
    }
}

impl Sweep {
    /// A pass that has polled nothing.
    pub fn new() -> (sweep: Self)
        ensures
            sweep@ == Seq::<bool>::empty(),
    {
        Self { left_out: Vec::new() }
    }

    /// What becomes of the next run, which was polled.
    pub fn answered(&mut self, ends_the_process: bool, gave_up: bool) -> (next: Verdict)
        ensures
            next == verdict(ends_the_process, gave_up),
            final(self)@ == old(self)@.push(next == Verdict::LeftOut),
    {
        let next: Verdict = if !gave_up {
            Verdict::Waits
        } else if ends_the_process {
            Verdict::EndsTheProcess
        } else {
            Verdict::LeftOut
        };
        self.left_out.push(next == Verdict::LeftOut);
        next
    }

    /// Leave out the runs that gave up.
    pub fn finish<R>(self, runs: &mut Vec<R>)
        requires
            self@.len() <= old(runs)@.len(),
        ensures
            final(runs)@ == kept(old(runs)@, self@),
    {
        let ghost all = runs@;
        let ghost marks = self.left_out@;
        let mut at: usize = self.left_out.len();
        proof {
            assert(all.take(at as int) + kept_from(all, marks, at as int) =~= all) by {
                nothing_left_out_past_the_marks(all, marks, all.len() as int);
            }
        }
        // Back to front, so that the places in front stay what they were.
        while at > 0
            invariant
                at <= marks.len() <= all.len(),
                marks == self.left_out@,
                runs@ == all.take(at as int) + kept_from(all, marks, at as int),
            decreases at,
        {
            at -= 1;
            proof {
                assert(runs@[at as int] == all[at as int]);
            }
            if self.left_out[at] {
                let ghost rest = kept_from(all, marks, at + 1);
                let ghost was = runs@;
                runs.remove(at);
                proof {
                    assert(was =~= all.take(at + 1) + rest);
                    assert(was.remove(at as int) =~= all.take(at as int) + rest);
                }
            } else {
                proof {
                    let rest = kept_from(all, marks, at + 1);
                    assert(all.take(at + 1) + rest =~= all.take(at as int) + (seq![all[at as int]]
                        + rest));
                }
            }
        }
        proof {
            assert(all.take(0) + kept_from(all, marks, 0) =~= kept_from(all, marks, 0));
            kept_either_way(all, marks, all.len() as int);
        }
    }
}

/// What is not left out from a place on.
spec fn kept_from<R>(runs: Seq<R>, left_out: Seq<bool>, from: int) -> Seq<R>
    decreases runs.len() - from,
{
    if from >= runs.len() || from < 0 {
        Seq::empty()
    } else {
        (if from < left_out.len() && left_out[from] {
            Seq::empty()
        } else {
            seq![runs[from]]
        }) + kept_from(runs, left_out, from + 1)
    }
}

proof fn nothing_left_out_past_the_marks<R>(runs: Seq<R>, left_out: Seq<bool>, from: int)
    requires
        left_out.len() <= from <= runs.len(),
    ensures
        kept_from(runs, left_out, left_out.len() as int) == runs.subrange(
            left_out.len() as int,
            from,
        ) + kept_from(runs, left_out, from),
    decreases from,
{
    if from == left_out.len() {
        assert(runs.subrange(from, from) + kept_from(runs, left_out, from) =~= kept_from(
            runs,
            left_out,
            from,
        ));
    } else {
        nothing_left_out_past_the_marks(runs, left_out, from - 1);
        let start = left_out.len() as int;
        assert(kept_from(runs, left_out, from - 1) == seq![runs[from - 1]] + kept_from(
            runs,
            left_out,
            from,
        ));
        assert(runs.subrange(start, from - 1) + (seq![runs[from - 1]] + kept_from(
            runs,
            left_out,
            from,
        )) =~= runs.subrange(start, from) + kept_from(runs, left_out, from));
    }
}

proof fn kept_either_way<R>(runs: Seq<R>, left_out: Seq<bool>, upto: int)
    requires
        0 <= upto <= runs.len(),
    ensures
        kept_from(runs, left_out, 0) == kept(runs.take(upto), left_out) + kept_from(
            runs,
            left_out,
            upto,
        ),
        upto == runs.len() ==> kept_from(runs, left_out, 0) == kept(runs, left_out),
    decreases upto,
{
    if upto > 0 {
        kept_either_way(runs, left_out, upto - 1);
        let part = runs.take(upto);
        assert(part.drop_last() =~= runs.take(upto - 1));
        let before = kept(runs.take(upto - 1), left_out);
        let rest = kept_from(runs, left_out, upto);
        if upto <= left_out.len() && left_out[upto - 1] {
            assert(Seq::<R>::empty() + rest =~= rest);
        } else {
            assert(before + (seq![runs[upto - 1]] + rest) =~= before.push(runs[upto - 1]) + rest);
        }
    } else {
        assert(kept(runs.take(0), left_out) + kept_from(runs, left_out, 0) =~= kept_from(
            runs,
            left_out,
            0,
        ));
    }
    if upto == runs.len() {
        assert(runs.take(upto) =~= runs);
        assert(kept(runs, left_out) + Seq::<R>::empty() =~= kept(runs, left_out));
    }
}

/// A comparison that gives up never ends the process, whatever else the
/// document declares.
pub proof fn a_comparison_never_ends_the_process(sources: Seq<Source>, at: int)
    requires
        0 <= at < sources.len(),
        sources[at].role == SourceRole::Comparison,
        forall|i: int|
            0 <= i < sources.len() && i != at ==> (#[trigger] sources[i]).connection@
                != sources[at].connection@,
    ensures
        !fatal_ends(sources, sources[at].connection@),
        forall|gave_up: bool|
            verdict(fatal_ends(sources, sources[at].connection@), gave_up)
                != Verdict::EndsTheProcess,
{
    assert(declared_by(sources, sources[at].connection@, at));
}

/// A document that declares no connections has one, and its failure ends the
/// process.
pub proof fn an_undeclared_connection_ends_the_process(sources: Seq<Source>, connection: Seq<char>)
    requires
        !declared(sources).contains(connection),
    ensures
        fatal_ends(sources, connection),
{
    assert forall|at: int| #[trigger] declared_by(sources, connection, at) implies sources[at].role
        != SourceRole::Comparison by {
        assert(declared(sources)[at] == connection);
    }
}

/// What is polled again is what did not give up: nothing that waits is lost and
/// nothing that gave up is polled twice.
pub proof fn what_waits_is_kept<R>(runs: Seq<R>, left_out: Seq<bool>)
    requires
        left_out.len() == runs.len(),
    ensures
        (forall|i: int| 0 <= i < left_out.len() ==> !left_out[i]) ==> kept(runs, left_out) == runs,
        (forall|i: int| 0 <= i < left_out.len() ==> left_out[i]) ==> kept(runs, left_out).len()
            == 0,
        forall|i: int| 0 <= i < runs.len() && !left_out[i] ==> kept(runs, left_out).contains(
            #[trigger] runs[i],
        ),
{
    kept_of(runs, left_out, runs.len() as int);
    assert(runs.take(runs.len() as int) =~= runs);
}

proof fn kept_of<R>(runs: Seq<R>, left_out: Seq<bool>, upto: int)
    requires
        left_out.len() == runs.len(),
        0 <= upto <= runs.len(),
    ensures
        (forall|i: int| 0 <= i < upto ==> !left_out[i]) ==> kept(runs.take(upto), left_out)
            == runs.take(upto),
        (forall|i: int| 0 <= i < upto ==> left_out[i]) ==> kept(runs.take(upto), left_out).len()
            == 0,
        forall|i: int| 0 <= i < upto && !left_out[i] ==> kept(runs.take(upto), left_out).contains(
            #[trigger] runs[i],
        ),
    decreases upto,
{
    if upto > 0 {
        kept_of(runs, left_out, upto - 1);
        let part = runs.take(upto);
        assert(part.drop_last() =~= runs.take(upto - 1));
        let before = kept(runs.take(upto - 1), left_out);
        let after = kept(part, left_out);
        if !left_out[upto - 1] {
            assert(after == before.push(runs[upto - 1]));
            assert(runs.take(upto - 1).push(runs[upto - 1]) =~= part);
            assert(after[before.len() as int] == runs[upto - 1]);
        }
        assert forall|i: int| 0 <= i < upto && !left_out[i] implies after.contains(
            #[trigger] runs[i],
        ) by {
            if i < upto - 1 {
                let k = choose|k: int| 0 <= k < before.len() && before[k] == runs[i];
                assert(after[k] == runs[i]);
            }
        }
    } else {
        assert(kept(runs.take(0), left_out) =~= runs.take(0));
    }
}

/// Why the run of one connection ended the process, as the exit states it.
pub open spec fn unusable_detail(connection: Seq<char>, error: Seq<char>) -> Seq<char> {
    "`"@ + connection + "`: "@ + error
}

/// Why the run of one connection ended the process.
pub fn upstream_unusable(connection: &str, error: &str) -> (detail: String)
    ensures
        detail@ == unusable_detail(connection@, error@),
{
    let mut detail: String = "`".to_owned();
    detail.append(connection);
    detail.append("`: ");
    detail.append(error);
    detail
}

/// The loop runs a hundred times a second, and sends one datagram of definitions
/// each time.
pub proof fn the_loop_keeps_its_pace()
    ensures
        100 * TICK_NS == 1_000_000_000,
        MAX_DEFINITION_DATAGRAMS_PER_TICK == 1,
{
}

/// What a document declares is the connection of each of its sources.
pub proof fn a_source_declares_its_connection(sources: Seq<Source>, at: int)
    requires
        0 <= at < sources.len(),
    ensures
        declared(sources).len() == sources.len(),
        declared(sources)[at] == sources[at].connection@,
{
}

/// A venue that built nothing is refused, whatever the document says; a document
/// that declares nothing takes one connection and no more; and one that declares
/// some takes exactly these, in any order, and says what each side has where they
/// differ.
pub proof fn connections_are_held_to_what_is_declared(
    sources: Seq<Source>,
    built: Seq<Seq<char>>,
)
    ensures
        built.len() == 0 ==> sources_refusal(sources, built) == Some(Refusal::NoVenueSource),
        sources.len() == 0 && built.len() == 1 ==> sources_refusal(sources, built) is None,
        sources.len() == 0 && built.len() > 1 ==> sources_refusal(sources, built) is Some,
        sources.len() == 0 && 1 < built.len() <= usize::MAX ==> sources_refusal(sources, built)
            == Some(Refusal::SourcesUndeclared { built: built.len() as usize }),
        sources.len() > 0 && built.len() > 0 ==> (sources_refusal(sources, built) is None
            <==> declared(sources).to_multiset() == built.to_multiset()),
        sources.len() > 0 && built.len() > 0 && sources_refusal(sources, built) is Some ==> {
            &&& sources_refusal(sources, built)->0 matches Refusal::SourcesDisagree {
                declared: said,
                built: made,
            }
            &&& said == text::joined(text::in_order(declared(sources)), ", "@)
            &&& made == text::joined(text::in_order(built), ", "@)
        },
{
    if sources.len() > 0 && built.len() > 0 {
        if declared(sources).to_multiset() == built.to_multiset() {
            text::the_same_texts_have_one_order(declared(sources), built);
        }
        if sources_refusal(sources, built) is None {
            what_is_declared_is_what_was_built(sources, built);
        }
    }
}

/// Where a source publishes, there is one that publishes with none before it.
pub proof fn there_is_a_first_primary(sources: Seq<Source>, some: int) -> (first: int)
    requires
        0 <= some < sources.len(),
        sources[some].role == SourceRole::Primary,
    ensures
        0 <= first <= some,
        sources[first].role == SourceRole::Primary,
        forall|i: int| 0 <= i < first ==> (#[trigger] sources[i]).role != SourceRole::Primary,
        forall|at: int| #[trigger] first_primary(sources, at) <==> at == first,
    decreases some,
{
    let first = if exists|i: int|
        0 <= i < some && (#[trigger] sources[i]).role == SourceRole::Primary {
        let i = choose|i: int|
            0 <= i < some && (#[trigger] sources[i]).role == SourceRole::Primary;
        there_is_a_first_primary(sources, i)
    } else {
        some
    };
    assert forall|at: int| #[trigger] first_primary(sources, at) <==> at == first by {
        if first_primary(sources, at) && at != first {
            assert(sources[at].role == sources[first].role);
        }
    }
    first
}

/// A source that publishes, or a part of the upstream, ends the process where it
/// fails; of all the roles a comparison alone does not.
pub proof fn only_a_comparison_is_carried_on_without(sources: Seq<Source>, at: int)
    requires
        0 <= at < sources.len(),
        forall|i: int|
            0 <= i < sources.len() && i != at ==> (#[trigger] sources[i]).connection@
                != sources[at].connection@,
    ensures
        fatal_ends(sources, sources[at].connection@) <==> sources[at].role == SourceRole::Primary
            || sources[at].role == SourceRole::UpstreamPartition,
{
    let connection = sources[at].connection@;
    assert(declared_by(sources, connection, at));
    assert forall|other: int| #[trigger] declared_by(sources, connection, other) implies other
        == at by {
        assert(sources[other].connection@ == connection);
    }
}

/// A run that has not given up is polled again, whatever it is; one that has ends
/// the process exactly where its failure does.
pub proof fn what_gave_up_is_not_polled_again(ends_the_process: bool)
    ensures
        verdict(ends_the_process, false) == Verdict::Waits,
        verdict(true, true) == Verdict::EndsTheProcess,
        verdict(false, true) == Verdict::LeftOut,
{
}

/// One more run is kept behind the others exactly where it is not left out.
pub proof fn a_run_is_kept_where_it_is_not_left_out<R>(
    runs: Seq<R>,
    next: R,
    left_out: Seq<bool>,
)
    ensures
        kept(Seq::<R>::empty(), left_out).len() == 0,
        runs.len() < left_out.len() && left_out[runs.len() as int] ==> kept(
            runs.push(next),
            left_out,
        ) == kept(runs, left_out),
        runs.len() >= left_out.len() || !left_out[runs.len() as int] ==> kept(
            runs.push(next),
            left_out,
        ) == kept(runs, left_out).push(next),
{
    assert(runs.push(next).drop_last() =~= runs);
}

/// Where an upstream ends the process, the connection is named and then its error.
pub proof fn an_unusable_upstream_is_named(connection: Seq<char>, error: Seq<char>)
    ensures
        error::stand_in_turn(connection, error, unusable_detail(connection, error)),
{
    let none = Seq::<char>::empty();
    assert(unusable_detail(connection, error) =~= "`"@ + connection + "`: "@ + error + none);
}

} // verus!
