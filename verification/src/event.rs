//! What arrives, why it is refused, and the labels each is counted under.

use vstd::prelude::*;
use vstd::string::*;

use crate::instrument::InstrumentRef;

verus! {

/// What an event says happened. `Other` is a kind of event this build does not
/// know.
#[derive(Debug, Clone, Copy, PartialEq, Eq, Structural)]
pub enum EventClass {
    Quote,
    Trade,
    Level,
    Clear,
    Other,
}

/// One normalized event, as far as routing reads it.
#[derive(Debug, Clone, Copy, PartialEq, Eq, Structural)]
pub struct Event {
    pub class: EventClass,
    pub instrument: InstrumentRef,
    /// The venue's own stamp.
    pub source_ts_ns: u64,
}

/// The event-kind label of the send-side latency family.
#[derive(Debug, Clone, Copy, PartialEq, Eq, Structural)]
pub enum EventKind {
    BookUpdate,
    Trade,
}

/// See [`event_kind`].
pub open spec fn kind_of(class: EventClass) -> EventKind {
    match class {
        EventClass::Trade => EventKind::Trade,
        _ => EventKind::BookUpdate,
    }
}

/// The latency label of an event: everything that changes a book is a book
/// update, and so is what nobody has decided about.
pub fn event_kind(class: EventClass) -> (kind: EventKind)
    ensures
        kind == kind_of(class),
{
    match class {
        EventClass::Quote => EventKind::BookUpdate,
        EventClass::Level => EventKind::BookUpdate,
        EventClass::Clear => EventKind::BookUpdate,
        EventClass::Trade => EventKind::Trade,
        EventClass::Other => EventKind::BookUpdate,
    }
}

/// Which venue clock an adapter's stamps carry, as the adapter declares it.
#[derive(Debug, Clone, Copy, PartialEq, Eq, Structural)]
pub enum VenueTimestampKind {
    ExchangeRecv,
    MatchingEngine,
    GatewaySend,
    BlockTime,
}

/// Which venue clock an adapter's stamps carry, as a metric label.
#[derive(Debug, Clone, Copy, PartialEq, Eq, Structural)]
pub enum TimestampKind {
    ExchangeRecv,
    MatchingEngine,
    GatewaySend,
    BlockTime,
}

/// See [`timestamp_kind`].
pub open spec fn label_of(kind: VenueTimestampKind) -> TimestampKind {
    match kind {
        VenueTimestampKind::ExchangeRecv => TimestampKind::ExchangeRecv,
        VenueTimestampKind::MatchingEngine => TimestampKind::MatchingEngine,
        VenueTimestampKind::GatewaySend => TimestampKind::GatewaySend,
        VenueTimestampKind::BlockTime => TimestampKind::BlockTime,
    }
}

/// The metric label for what an adapter declared.
pub fn timestamp_kind(kind: VenueTimestampKind) -> (label: TimestampKind)
    ensures
        label == label_of(kind),
{
    match kind {
        VenueTimestampKind::ExchangeRecv => TimestampKind::ExchangeRecv,
        VenueTimestampKind::MatchingEngine => TimestampKind::MatchingEngine,
        VenueTimestampKind::GatewaySend => TimestampKind::GatewaySend,
        VenueTimestampKind::BlockTime => TimestampKind::BlockTime,
    }
}

/// Why a value could not be stated at an instrument's exponent.
#[derive(Debug, Clone, Copy, PartialEq, Eq, Structural)]
pub enum ScaleError {
    /// More precision than the exponent can state.
    TooPrecise,
    /// Not a decimal number.
    Malformed,
    /// Past what the wire's integer can hold.
    Overflow,
}

/// Why an event could not be lowered.
#[derive(Debug, Clone, Copy, PartialEq, Eq, Structural)]
pub enum LoweringError {
    /// A handle the instrument table does not hold.
    UnknownInstrument,
    /// The contract size does not divide the value exactly.
    InexactContract,
    /// The exponents cannot state the value.
    Scale(ScaleError),
}

/// The `reason` label a lowering refusal is counted under.
#[derive(Debug, Clone, Copy, PartialEq, Eq, Structural)]
pub enum LoweringRefusalReason {
    UnknownInstrument,
    InexactContract,
    TooPrecise,
    Malformed,
    Overflow,
}

/// See [`LoweringError::reason`].
pub open spec fn reason_of(error: LoweringError) -> LoweringRefusalReason {
    match error {
        LoweringError::UnknownInstrument => LoweringRefusalReason::UnknownInstrument,
        LoweringError::InexactContract => LoweringRefusalReason::InexactContract,
        LoweringError::Scale(ScaleError::TooPrecise) => LoweringRefusalReason::TooPrecise,
        LoweringError::Scale(ScaleError::Malformed) => LoweringRefusalReason::Malformed,
        LoweringError::Scale(ScaleError::Overflow) => LoweringRefusalReason::Overflow,
    }
}

/// Why an adapter would not answer.
#[derive(Debug, Clone, Copy, PartialEq, Eq, Structural)]
pub enum AdapterError {
    /// A book that has not bootstrapped, or a session that has not
    /// authenticated.
    NotReady,
    /// A handle the adapter does not hold.
    UnknownInstrument,
    /// Anything else.
    Internal,
}

/// Why a pulled snapshot did not reach the wire. What another component said is
/// carried in its own words.
#[derive(Debug)]
pub enum SnapshotError {
    /// The instrument's shard carries no feed with a snapshot port role.
    NoDepthFeed,
    /// The adapter could not answer.
    Adapter { error: AdapterError, said: String },
    /// The framing refused it.
    Lowering { error: LoweringError, said: String },
    /// The snapshot framed and did not send.
    Egress { said: String },
}

impl SnapshotError {
    /// See [`SnapshotError::message`].
    pub open spec fn shown(self) -> Seq<char> {
        match self {
            SnapshotError::NoDepthFeed =>
                "this publisher emits no feed that carries a snapshot port role"@,
            SnapshotError::Adapter { said, .. } => said@,
            SnapshotError::Lowering { said, .. } => said@,
            SnapshotError::Egress { said } => said@,
        }
    }

    /// Why, in words.
    pub fn message(&self) -> (text: String)
        ensures
            text@ == self.shown(),
    {
        match self {
            SnapshotError::NoDepthFeed =>
                "this publisher emits no feed that carries a snapshot port role".to_owned(),
            SnapshotError::Adapter { said, .. } => said.clone(),
            SnapshotError::Lowering { said, .. } => said.clone(),
            SnapshotError::Egress { said } => said.clone(),
        }
    }

    /// Whether this is the expected refusal: a book that is not ready yet.
    pub open spec fn is_not_ready(self) -> bool {
        self matches SnapshotError::Adapter { error: AdapterError::NotReady, .. }
    }

    /// See [`SnapshotError::is_not_ready`].
    pub fn not_ready(&self) -> (yes: bool)
        ensures
            yes == self.is_not_ready(),
    {
        match self {
            SnapshotError::Adapter { error: AdapterError::NotReady, .. } => true,
            _ => false,
        }
    }
}

/// Snapshots that were asked for and did not go out. A refused snapshot is
/// invisible in every other number: the other instruments are still served.
#[derive(Debug, Clone, Copy, PartialEq, Eq, Structural)]
pub struct SnapshotRefusals {
    /// The adapter's book had not bootstrapped.
    pub not_ready: u64,
    /// Every other refusal.
    pub refused: u64,
}

impl Default for SnapshotRefusals {
    fn default() -> (none: Self)
        ensures
            none == (SnapshotRefusals { not_ready: 0, refused: 0 }),
    {
        Self { not_ready: 0, refused: 0 }
    }
}

impl SnapshotRefusals {
    /// The counts with one more refusal.
    pub open spec fn with(self, error: SnapshotError) -> SnapshotRefusals {
        if error.is_not_ready() {
            SnapshotRefusals { not_ready: (self.not_ready + 1) as u64, ..self }
        } else {
            SnapshotRefusals { refused: (self.refused + 1) as u64, ..self }
        }
    }

    /// Count one refusal.
    pub fn record(&mut self, error: &SnapshotError)
        requires
            old(self).not_ready < u64::MAX,
            old(self).refused < u64::MAX,
        ensures
            *final(self) == old(self).with(*error),
    {
        match error {
            SnapshotError::Adapter { error: AdapterError::NotReady, .. } => {
                self.not_ready += 1;
            },
            SnapshotError::Adapter { error: AdapterError::UnknownInstrument, .. }
            | SnapshotError::Adapter { error: AdapterError::Internal, .. }
            | SnapshotError::NoDepthFeed
            | SnapshotError::Lowering { .. }
            | SnapshotError::Egress { .. } => {
                self.refused += 1;
            },
        }
    }

    /// How many there were.
    pub fn total(&self) -> (total: u64)
        requires
            self.not_ready + self.refused <= u64::MAX,
        ensures
            total == self.not_ready + self.refused,
    {
        self.not_ready + self.refused
    }
}

/// Lowering refusals, by the reason each is distinguishable under.
#[derive(Debug, Clone, Copy, PartialEq, Eq, Structural)]
pub struct Refusals {
    /// An event naming a handle the instrument table does not hold.
    pub unknown_instrument: u64,
    /// The contract size does not divide the value exactly.
    pub inexact_contract: u64,
    /// More precision than the instrument's exponent can state.
    pub too_precise: u64,
    /// Not a decimal number in the accepted grammar.
    pub malformed: u64,
    /// Exact, and past what the wire's integer can hold.
    pub overflow: u64,
}

impl Default for Refusals {
    fn default() -> (none: Self)
        ensures
            none == Refusals::none(),
    {
        Self {
            unknown_instrument: 0,
            inexact_contract: 0,
            too_precise: 0,
            malformed: 0,
            overflow: 0,
        }
    }
}

impl Refusals {
    /// No refusal.
    pub open spec fn none() -> Refusals {
        Refusals {
            unknown_instrument: 0,
            inexact_contract: 0,
            too_precise: 0,
            malformed: 0,
            overflow: 0,
        }
    }

    /// How many there were.
    pub open spec fn sum(self) -> nat {
        (self.unknown_instrument + self.inexact_contract + self.too_precise + self.malformed
            + self.overflow) as nat
    }

    /// The counts with one more refusal, under its own reason.
    pub open spec fn with(self, reason: LoweringRefusalReason) -> Refusals {
        match reason {
            LoweringRefusalReason::UnknownInstrument => Refusals {
                unknown_instrument: (self.unknown_instrument + 1) as u64,
                ..self
            },
            LoweringRefusalReason::InexactContract => Refusals {
                inexact_contract: (self.inexact_contract + 1) as u64,
                ..self
            },
            LoweringRefusalReason::TooPrecise => Refusals {
                too_precise: (self.too_precise + 1) as u64,
                ..self
            },
            LoweringRefusalReason::Malformed => Refusals {
                malformed: (self.malformed + 1) as u64,
                ..self
            },
            LoweringRefusalReason::Overflow => Refusals {
                overflow: (self.overflow + 1) as u64,
                ..self
            },
        }
    }

    /// Count one refusal under its own reason, and say which: one match for
    /// both, so a series and a report cannot tell different stories.
    pub fn record(&mut self, error: LoweringError) -> (reason: LoweringRefusalReason)
        requires
            old(self).sum() < u64::MAX,
        ensures
            reason == reason_of(error),
            *final(self) == old(self).with(reason),
            final(self).sum() == old(self).sum() + 1,
    {
        match error {
            LoweringError::UnknownInstrument => {
                self.unknown_instrument += 1;
                LoweringRefusalReason::UnknownInstrument
            },
            LoweringError::InexactContract => {
                self.inexact_contract += 1;
                LoweringRefusalReason::InexactContract
            },
            LoweringError::Scale(source) => match source {
                ScaleError::TooPrecise => {
                    self.too_precise += 1;
                    LoweringRefusalReason::TooPrecise
                },
                ScaleError::Malformed => {
                    self.malformed += 1;
                    LoweringRefusalReason::Malformed
                },
                ScaleError::Overflow => {
                    self.overflow += 1;
                    LoweringRefusalReason::Overflow
                },
            },
        }
    }

    /// Every reason and its count.
    pub fn by_reason(&self) -> (counts: [(&'static str, u64); 5])
        ensures
            counts@ == seq![
                ("unknown_instrument", self.unknown_instrument),
                ("inexact_contract", self.inexact_contract),
                ("too_precise", self.too_precise),
                ("malformed", self.malformed),
                ("overflow", self.overflow),
            ],
    {
        let counts: [(&'static str, u64); 5] = [
            ("unknown_instrument", self.unknown_instrument),
            ("inexact_contract", self.inexact_contract),
            ("too_precise", self.too_precise),
            ("malformed", self.malformed),
            ("overflow", self.overflow),
        ];
        proof {
            assert(counts@ =~= seq![
                ("unknown_instrument", self.unknown_instrument),
                ("inexact_contract", self.inexact_contract),
                ("too_precise", self.too_precise),
                ("malformed", self.malformed),
                ("overflow", self.overflow),
            ]);
        }
        counts
    }

    /// How many there were.
    pub fn total(&self) -> (total: u64)
        requires
            self.sum() <= u64::MAX,
        ensures
            total == self.sum(),
    {
        self.unknown_instrument + self.inexact_contract + self.too_precise + self.malformed
            + self.overflow
    }
}

/// Each refusal is counted under the reason it is, and under no other.
pub proof fn a_refusal_is_counted_under_its_own_reason(before: Refusals)
    requires
        before.sum() < u64::MAX,
    ensures
        ({
            let after = before.with(reason_of(LoweringError::UnknownInstrument));
            after.unknown_instrument == before.unknown_instrument + 1 && after == (Refusals {
                unknown_instrument: after.unknown_instrument,
                ..before
            })
        }),
        ({
            let after = before.with(reason_of(LoweringError::InexactContract));
            after.inexact_contract == before.inexact_contract + 1 && after == (Refusals {
                inexact_contract: after.inexact_contract,
                ..before
            })
        }),
        ({
            let after = before.with(reason_of(LoweringError::Scale(ScaleError::TooPrecise)));
            after.too_precise == before.too_precise + 1 && after == (Refusals {
                too_precise: after.too_precise,
                ..before
            })
        }),
        ({
            let after = before.with(reason_of(LoweringError::Scale(ScaleError::Malformed)));
            after.malformed == before.malformed + 1 && after == (Refusals {
                malformed: after.malformed,
                ..before
            })
        }),
        ({
            let after = before.with(reason_of(LoweringError::Scale(ScaleError::Overflow)));
            after.overflow == before.overflow + 1 && after == (Refusals {
                overflow: after.overflow,
                ..before
            })
        }),
{
}

/// The label of a refusal is its own name.
pub proof fn a_refusals_label_is_its_name()
    ensures
        reason_of(LoweringError::UnknownInstrument) == LoweringRefusalReason::UnknownInstrument,
        reason_of(LoweringError::InexactContract) == LoweringRefusalReason::InexactContract,
        reason_of(LoweringError::Scale(ScaleError::TooPrecise))
            == LoweringRefusalReason::TooPrecise,
        reason_of(LoweringError::Scale(ScaleError::Malformed)) == LoweringRefusalReason::Malformed,
        reason_of(LoweringError::Scale(ScaleError::Overflow)) == LoweringRefusalReason::Overflow,
{
}

/// The label of a venue clock is its own name.
pub proof fn a_clocks_label_is_its_name()
    ensures
        label_of(VenueTimestampKind::ExchangeRecv) == TimestampKind::ExchangeRecv,
        label_of(VenueTimestampKind::MatchingEngine) == TimestampKind::MatchingEngine,
        label_of(VenueTimestampKind::GatewaySend) == TimestampKind::GatewaySend,
        label_of(VenueTimestampKind::BlockTime) == TimestampKind::BlockTime,
{
}

/// A trade is a trade and everything else is a book update.
pub proof fn only_a_trade_is_a_trade(class: EventClass)
    ensures
        kind_of(class) == EventKind::Trade <==> class == EventClass::Trade,
{
}

/// Every refusal there was is in the sum, each once.
pub proof fn the_sum_is_of_every_reason(counts: Refusals)
    ensures
        counts.sum() == counts.unknown_instrument + counts.inexact_contract + counts.too_precise
            + counts.malformed + counts.overflow,
        Refusals::none().sum() == 0,
{
}

/// A book that is not ready is told apart from every other refusal of a snapshot,
/// and each is counted where it belongs.
pub proof fn a_book_that_is_not_ready_is_told_apart(
    before: SnapshotRefusals,
    error: SnapshotError,
)
    requires
        before.not_ready < u64::MAX,
        before.refused < u64::MAX,
    ensures
        ({
            let after = before.with(error);
            let not_ready = error is Adapter && error->Adapter_error == AdapterError::NotReady;
            &&& after.not_ready == before.not_ready + if not_ready {
                1int
            } else {
                0
            }
            &&& after.refused == before.refused + if not_ready {
                0int
            } else {
                1
            }
        }),
{
}

/// What another component said of a snapshot it refused is what is shown.
pub proof fn a_refused_snapshot_says_why(said: String, adapter: AdapterError, lowering: LoweringError)
    ensures
        (SnapshotError::Adapter { error: adapter, said }).shown() == said@,
        (SnapshotError::Lowering { error: lowering, said }).shown() == said@,
        (SnapshotError::Egress { said }).shown() == said@,
{
}

} // verus!
