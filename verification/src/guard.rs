//! The two guards, and the one distinction that decides what each measures.
//!
//! Upstream liveness is a property of the input connection; feed silence is a
//! property of what is published, and a channel whose instruments are dormant
//! is silent and healthy. What is left for a guard is the part that is a
//! publisher's own defect: upstream in and nothing out, and a publisher that can
//! no longer describe itself truthfully.

use vstd::prelude::*;
use vstd::string::*;

use crate::duration;
use crate::duration::Duration;
use crate::registry;

verus! {

/// The `reason` label an exit is counted under. `Panic` is nobody's decision: it
/// is what a panic hook records on the way out.
#[derive(Debug, Clone, Copy, PartialEq, Eq, Hash, Structural)]
pub enum ExitReason {
    IdleGuard,
    ConsistencyGuard,
    Signal,
    Panic,
}

/// What the consistency guard found.
#[derive(Debug, PartialEq, Eq)]
pub enum Inconsistency {
    /// A transmitter whose failure darkens the publisher is no longer sent to.
    EgressDark { sink: String },
    /// The upstream transport is not usable as configured.
    UpstreamUnusable { detail: String },
    /// The reference-data state directory has stopped being writable.
    StateUnpersistable { detail: String },
}

impl Clone for Inconsistency {
    fn clone(&self) -> (copy: Self)
        ensures
            copy == *self,
    {
        match self {
            Inconsistency::EgressDark { sink } => Inconsistency::EgressDark { sink: sink.clone() },
            Inconsistency::UpstreamUnusable { detail } => Inconsistency::UpstreamUnusable {
                detail: detail.clone(),
            },
            Inconsistency::StateUnpersistable { detail } => Inconsistency::StateUnpersistable {
                detail: detail.clone(),
            },
        }
    }
}

impl Inconsistency {
    /// See [`Inconsistency::message`].
    pub open spec fn said(self) -> Seq<char> {
        match self {
            Inconsistency::EgressDark { sink } => "the transmitter `"@ + sink@
                + "` is no longer being sent to, and its failure darkens this publisher"@,
            Inconsistency::UpstreamUnusable { detail } =>
                "the upstream transport is not usable as configured: "@ + detail@,
            Inconsistency::StateUnpersistable { detail } =>
                "the reference-data state directory is no longer writable: "@ + detail@,
        }
    }

    /// What was found, in words.
    pub fn message(&self) -> (text: String)
        ensures
            text@ == self.said(),
    {
        match self {
            Inconsistency::EgressDark { sink } => {
                let mut text: String = "the transmitter `".to_owned();
                text.append(sink.as_str());
                text.append(
                    "` is no longer being sent to, and its failure darkens this publisher",
                );
                text
            },
            Inconsistency::UpstreamUnusable { detail } => {
                let mut text: String =
                    "the upstream transport is not usable as configured: ".to_owned();
                text.append(detail.as_str());
                text
            },
            Inconsistency::StateUnpersistable { detail } => {
                let mut text: String =
                    "the reference-data state directory is no longer writable: ".to_owned();
                text.append(detail.as_str());
                text
            },
        }
    }
}

/// Why the process is ending.
#[derive(Debug, PartialEq, Eq)]
pub enum Exit {
    /// The upstream is delivering and nothing is reaching the wire.
    IdleGuard,
    /// The publisher can no longer describe itself truthfully.
    ConsistencyGuard(Inconsistency),
    /// It was asked to.
    Signal,
}

impl Clone for Exit {
    fn clone(&self) -> (copy: Self)
        ensures
            copy == *self,
    {
        match self {
            Exit::IdleGuard => Exit::IdleGuard,
            Exit::ConsistencyGuard(what) => Exit::ConsistencyGuard(what.clone()),
            Exit::Signal => Exit::Signal,
        }
    }
}

impl Exit {
    /// See [`Exit::reason`].
    pub open spec fn counted_under(self) -> ExitReason {
        match self {
            Exit::IdleGuard => ExitReason::IdleGuard,
            Exit::ConsistencyGuard(_) => ExitReason::ConsistencyGuard,
            Exit::Signal => ExitReason::Signal,
        }
    }

    /// The `reason` label this exit is counted under.
    pub fn reason(&self) -> (reason: ExitReason)
        ensures
            reason == self.counted_under(),
    {
        match self {
            Exit::IdleGuard => ExitReason::IdleGuard,
            Exit::ConsistencyGuard(_) => ExitReason::ConsistencyGuard,
            Exit::Signal => ExitReason::Signal,
        }
    }

    /// See [`Exit::message`].
    pub open spec fn said(self) -> Seq<char> {
        match self {
            Exit::IdleGuard =>
                "the idle guard: the upstream is delivering and nothing is reaching the wire"@,
            Exit::ConsistencyGuard(what) => "the consistency guard: "@ + what.said(),
            Exit::Signal => "a signal"@,
        }
    }

    /// Why the process is ending, in words.
    pub fn message(&self) -> (text: String)
        ensures
            text@ == self.said(),
    {
        match self {
            Exit::IdleGuard =>
                "the idle guard: the upstream is delivering and nothing is reaching the wire".to_owned(),
            Exit::ConsistencyGuard(what) => {
                let mut text: String = "the consistency guard: ".to_owned();
                text.append(what.message().as_str());
                text
            },
            Exit::Signal => "a signal".to_owned(),
        }
    }
}

/// Upstream activity: whether a payload the adapter recognised has arrived.
#[derive(Debug, Clone, Copy, PartialEq, Eq, Structural)]
pub enum Upstream {
    Delivering,
    Silent,
}

/// The idle guard: upstream in, nothing out.
///
/// Not *no datagrams on this channel*, which is what a dormant venue looks
/// like, and not *no upstream payloads*, which is the transport's to answer. The
/// conjunction, which is neither.
#[derive(Debug, Clone, Copy)]
pub struct IdleGuard {
    window: Duration,
    last_upstream_ns: Option<u64>,
    last_published_ns: Option<u64>,
    started_ns: Option<u64>,
}

/// An idle guard as values to reason about.
pub struct IdleView {
    /// How long a silence it takes, in nanoseconds.
    pub window: nat,
    /// When the upstream last said something the adapter recognised.
    pub last_upstream_ns: Option<u64>,
    /// When a message last reached the wire.
    pub last_published_ns: Option<u64>,
    /// When either first happened.
    pub started_ns: Option<u64>,
}

impl IdleView {
    /// How long ago something was, never negative.
    pub open spec fn since(now_ns: u64, then_ns: u64) -> nat {
        if now_ns >= then_ns {
            (now_ns - then_ns) as nat
        } else {
            0
        }
    }

    /// What the upstream was doing over the window.
    pub open spec fn upstream(self, now_ns: u64) -> Upstream {
        match self.last_upstream_ns {
            Some(last) => if Self::since(now_ns, last) < duration::clamped(self.window) {
                Upstream::Delivering
            } else {
                Upstream::Silent
            },
            None => Upstream::Silent,
        }
    }

    /// Whether nothing has reached the wire for the window. Before the first
    /// message there is no window to have been silent for.
    pub open spec fn publish_silence(self, now_ns: u64) -> bool {
        match self.last_published_ns {
            Some(last) => Self::since(now_ns, last) >= duration::clamped(self.window),
            None => match self.started_ns {
                Some(started) => Self::since(now_ns, started) >= duration::clamped(self.window),
                None => false,
            },
        }
    }

    /// Whether the guard has fired: for the conjunction and nothing else.
    pub open spec fn fired(self, now_ns: u64) -> bool {
        self.publish_silence(now_ns) && self.upstream(now_ns) == Upstream::Delivering
    }
}

impl View for IdleGuard {
    type V = IdleView;

    closed spec fn view(&self) -> IdleView {
        IdleView {
            window: self.window@,
            last_upstream_ns: self.last_upstream_ns,
            last_published_ns: self.last_published_ns,
            started_ns: self.started_ns,
        }
    }
}

/// The first of two moments, where there was a first.
pub open spec fn started(before: Option<u64>, now_ns: u64) -> Option<u64> {
    match before {
        Some(first) => Some(first),
        None => Some(now_ns),
    }
}

impl IdleGuard {
    /// A guard over `[[feed]] idle_guard`.
    pub fn new(window: Duration) -> (guard: Self)
        ensures
            guard@ == (IdleView {
                window: window@,
                last_upstream_ns: None,
                last_published_ns: None,
                started_ns: None,
            }),
    {
        Self { window, last_upstream_ns: None, last_published_ns: None, started_ns: None }
    }

    /// An upstream message the adapter recognised.
    pub fn upstream(&mut self, now_ns: u64)
        ensures
            final(self)@ == (IdleView {
                last_upstream_ns: Some(now_ns),
                started_ns: started(old(self)@.started_ns, now_ns),
                ..old(self)@
            }),
    {
        if self.started_ns.is_none() {
            self.started_ns = Some(now_ns);
        }
        self.last_upstream_ns = Some(now_ns);
    }

    /// A message reached the wire.
    pub fn published(&mut self, now_ns: u64)
        ensures
            final(self)@ == (IdleView {
                last_published_ns: Some(now_ns),
                started_ns: started(old(self)@.started_ns, now_ns),
                ..old(self)@
            }),
    {
        if self.started_ns.is_none() {
            self.started_ns = Some(now_ns);
        }
        self.last_published_ns = Some(now_ns);
    }

    /// When a message last reached the wire. `None` until one has.
    pub fn last_published_ns(&self) -> (last: Option<u64>)
        ensures
            last == self@.last_published_ns,
    {
        self.last_published_ns
    }

    /// Whether the guard has fired: nothing has reached the wire for the window
    /// and the upstream delivered inside it.
    pub fn check(&self, now_ns: u64) -> (exit: Option<Exit>)
        ensures
            exit == if self@.fired(now_ns) {
                Some(Exit::IdleGuard)
            } else {
                None::<Exit>
            },
    {
        let window_ns: u64 = self.window.as_nanos_clamped();
        let last: u64 = match self.last_published_ns {
            Some(last) => last,
            None => match self.started_ns {
                Some(started) => started,
                None => {
                    return None;
                },
            },
        };
        if now_ns.saturating_sub(last) < window_ns {
            return None;
        }
        let upstream: Upstream = match self.last_upstream_ns {
            Some(last) if now_ns.saturating_sub(last) < window_ns => Upstream::Delivering,
            _ => Upstream::Silent,
        };
        match upstream {
            Upstream::Delivering => Some(Exit::IdleGuard),
            Upstream::Silent => None,
        }
    }
}

/// A venue that has gone quiet never ends the process: the guard does not fire
/// where the upstream has said nothing for the window, however long nothing has
/// been published.
pub proof fn a_quiet_venue_never_fires(guard: IdleView, now_ns: u64)
    requires
        guard.last_upstream_ns matches Some(last) ==> IdleView::since(now_ns, last)
            >= duration::clamped(guard.window),
    ensures
        !guard.fired(now_ns),
{
}

/// A publisher that is publishing never fires the guard, whatever its upstream
/// is doing.
pub proof fn a_publishing_publisher_never_fires(guard: IdleView, now_ns: u64)
    requires
        guard.last_published_ns matches Some(last) && IdleView::since(now_ns, last)
            < duration::clamped(guard.window),
    ensures
        !guard.fired(now_ns),
{
}

/// A publisher waiting for its first message owes nothing and never fires.
pub proof fn startup_is_not_silence(guard: IdleView, now_ns: u64)
    requires
        guard.last_upstream_ns is None,
    ensures
        !guard.fired(now_ns),
{
}

/// The consistency guard. The first finding is the one reported: two arriving
/// together are one incident, and the second is usually the consequence.
#[derive(Debug)]
pub struct ConsistencyGuard {
    found: Option<Inconsistency>,
}

impl View for ConsistencyGuard {
    type V = Option<Inconsistency>;

    /// The finding, if there is one.
    closed spec fn view(&self) -> Option<Inconsistency> {
        self.found
    }
}

impl ConsistencyGuard {
    /// A guard that has found nothing.
    pub fn new() -> (guard: Self)
        ensures
            guard@ is None,
    {
        Self { found: None }
    }

    /// Record a finding, keeping the first.
    pub fn found(&mut self, what: Inconsistency)
        ensures
            final(self)@ == match old(self)@ {
                Some(first) => Some(first),
                None => Some(what),
            },
    {
        if self.found.is_none() {
            self.found = Some(what);
        }
    }

    /// The finding, if there is one.
    pub fn finding(&self) -> (finding: Option<&Inconsistency>)
        ensures
            match finding {
                Some(what) => self@ == Some(*what),
                None => self@ is None,
            },
    {
        self.found.as_ref()
    }

    /// Whether the guard has fired.
    pub fn check(&self) -> (exit: Option<Exit>)
        ensures
            exit == match self@ {
                Some(what) => Some(Exit::ConsistencyGuard(what)),
                None => None,
            },
    {
        match &self.found {
            Some(what) => Some(Exit::ConsistencyGuard(what.clone())),
            None => None,
        }
    }
}

/// When the guard fires, over a window of so many nanoseconds: nothing has
/// reached the wire for the whole of it, counted from the last message that did
/// or, before the first, from when anything first happened; and inside it the
/// upstream said something. Nothing else fires it.
pub proof fn upstream_in_and_nothing_out_fires(
    guard: IdleView,
    now_ns: u64,
    silent_since_ns: u64,
    heard_ns: u64,
)
    requires
        0 < guard.window <= u64::MAX,
        guard.last_upstream_ns == Some(heard_ns),
        guard.last_published_ns == Some(silent_since_ns) || (guard.last_published_ns is None
            && guard.started_ns == Some(silent_since_ns)),
    ensures
        guard.fired(now_ns) <==> now_ns - silent_since_ns >= guard.window && now_ns - heard_ns
            < guard.window,
{
}

/// A guard without a window never fires, and nor does one that nothing has
/// happened under.
pub proof fn nothing_to_measure_never_fires(guard: IdleView, now_ns: u64)
    requires
        guard.window == 0 || guard.last_upstream_ns is None || (guard.last_published_ns is None
            && guard.started_ns is None),
    ensures
        !guard.fired(now_ns),
{
}

/// The moment anything first happened is kept, and is the first there was.
pub proof fn the_first_moment_is_kept(first: u64, next: u64)
    ensures
        started(None, first) == Some(first),
        started(started(None, first), next) == Some(first),
{
}

/// Each way of ending is counted under a reason of its own, and none as a panic.
pub proof fn every_exit_has_its_own_reason(what: Inconsistency)
    ensures
        Exit::IdleGuard.counted_under() == ExitReason::IdleGuard,
        Exit::ConsistencyGuard(what).counted_under() == ExitReason::ConsistencyGuard,
        Exit::Signal.counted_under() == ExitReason::Signal,
{
}

/// What was found is named in what is said of it, and in what is said of the exit
/// it comes to.
pub proof fn an_exit_says_what_was_found(found: String)
    ensures
        ({
            let dark = Inconsistency::EgressDark { sink: found };
            let unusable = Inconsistency::UpstreamUnusable { detail: found };
            let unwritable = Inconsistency::StateUnpersistable { detail: found };
            &&& registry::stands_in(found@, Exit::ConsistencyGuard(dark).said())
            &&& registry::stands_in(found@, Exit::ConsistencyGuard(unusable).said())
            &&& registry::stands_in(found@, Exit::ConsistencyGuard(unwritable).said())
        }),
{
    let lead = "the consistency guard: "@;
    let dark = Exit::ConsistencyGuard(Inconsistency::EgressDark { sink: found }).said();
    let unusable = Exit::ConsistencyGuard(
        Inconsistency::UpstreamUnusable { detail: found },
    ).said();
    let unwritable = Exit::ConsistencyGuard(
        Inconsistency::StateUnpersistable { detail: found },
    ).said();
    let none = Seq::<char>::empty();
    assert(dark =~= (lead + "the transmitter `"@) + found@
        + "` is no longer being sent to, and its failure darkens this publisher"@);
    assert(unusable =~= (lead + "the upstream transport is not usable as configured: "@) + found@
        + none);
    assert(unwritable =~= (lead + "the reference-data state directory is no longer writable: "@)
        + found@ + none);
}

} // verus!
