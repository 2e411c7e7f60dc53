//! One feed's send path: its port roles and the cadences.
//!
//! What this owns is the part that is a question of *when*: heartbeats, the
//! manifest cadence, and the flush. It decides what is to be done on which port
//! role and in which order, as a list of [`Step`]s; whoever holds the sockets
//! carries them out and says how each went.
//!
//! The live path flushes per message: a numbered datagram that waits is one
//! whose send timestamp is a lie. The definition cycle and a snapshot pack.

use vstd::prelude::*;
use vstd::string::*;

use crate::config::{Feed, FeedSpec, PortRole, ShardName};
use crate::duration;
use crate::duration::Duration;
use crate::error;

verus! {

/// What a message is, as it is counted.
#[derive(Debug, Clone, Copy, PartialEq, Eq, Hash, Structural)]
pub enum EgressMessageType {
    Heartbeat,
    InstrumentDefinition,
    Quote,
    Trade,
    EndOfSession,
    ManifestSummary,
    InstrumentReset,
    SnapshotBegin,
    SnapshotLevel,
    SnapshotEnd,
    LevelUpdate,
    BookClear,
}

/// One thing done on a port role.
#[derive(Debug, Clone, Copy, PartialEq, Eq, Structural)]
pub enum Action {
    /// Put a message into the open datagram. `index` says which, where several
    /// of one type go out together.
    Push { message: EgressMessageType, index: usize },
    /// Send the channel's open datagram.
    Flush,
    /// Send every open datagram of the port role.
    FlushAll,
}

/// One step of a send, to be carried out in order.
#[derive(Debug, Clone, Copy, PartialEq, Eq, Structural)]
pub struct Step {
    pub channel_id: u8,
    pub port_role: PortRole,
    pub send_ts_ns: u64,
    pub action: Action,
    /// Carry this out only if the step before it was carried out and went well.
    pub if_taken: bool,
}

impl Step {
    /// See [`Step::runs`].
    pub open spec fn runs_after(self, before_taken: bool) -> bool {
        before_taken || !self.if_taken
    }

    /// Whether this step is to be carried out, by how the one before it went.
    pub fn runs(&self, before_taken: bool) -> (runs: bool)
        ensures
            runs == self.runs_after(before_taken),
    {
        before_taken || !self.if_taken
    }
}

/// Whether the last of the steps gone through was taken; where there is none yet,
/// nothing stands in the way.
pub open spec fn last_taken(taken: Seq<bool>) -> bool {
    taken.len() == 0 || taken.last()
}

/// Which steps were taken, where `answers` says how carrying each of them out
/// went: one that does not run is not taken, whatever is answered.
pub open spec fn taken_of(steps: Seq<Step>, answers: Seq<bool>) -> Seq<bool>
    decreases answers.len(),
{
    if answers.len() == 0 {
        Seq::empty()
    } else {
        let before = taken_of(steps, answers.drop_last());
        before.push(
            steps[answers.len() - 1].runs_after(last_taken(before)) && answers.last(),
        )
    }
}

/// Steps on their way: which of them were taken so far.
#[derive(Debug)]
pub struct Delivery {
    steps: Vec<Step>,
    answers: Vec<bool>,
    taken: Vec<bool>,
}

/// Steps on their way, as values to reason about.
#[verifier::ext_equal]
pub struct DeliveryView {
    pub steps: Seq<Step>,
    /// How carrying out each step gone through went.
    pub answers: Seq<bool>,
}

impl DeliveryView {
    /// Which of the steps gone through were taken.
    pub open spec fn taken(self) -> Seq<bool> {
        taken_of(self.steps, self.answers)
    }
}

impl View for Delivery {
    type V = DeliveryView;

    closed spec fn view(&self) -> DeliveryView {
        DeliveryView { steps: self.steps@, answers: self.answers@ }
    }
}

impl Delivery {
    /// No more answers than steps, and what was taken is what they come to.
    pub closed spec fn well_formed(&self) -> bool {
        &&& self.answers@.len() <= self.steps@.len()
        &&& self.taken@ == taken_of(self.steps@, self.answers@)
    }

    /// Steps of which none has been gone through.
    pub fn new(steps: Vec<Step>) -> (delivery: Self)
        ensures
            delivery.well_formed(),
            delivery@ == (DeliveryView { steps: steps@, answers: Seq::empty() }),
    {
        let delivery: Self = Self { steps, answers: Vec::new(), taken: Vec::new() };
        proof {
            assert(delivery.taken@ =~= taken_of(steps@, Seq::empty()));
            assert(delivery@ =~= (DeliveryView { steps: steps@, answers: Seq::empty() }));
        }
        delivery
    }

    /// The next step, and whether it is to be carried out; `None` where all have
    /// been gone through.
    pub fn next(&self) -> (next: Option<(Step, bool)>)
        requires
            self.well_formed(),
        ensures
            next == if self@.answers.len() < self@.steps.len() {
                let step = self@.steps[self@.answers.len() as int];
                Some((step, step.runs_after(last_taken(self@.taken()))))
            } else {
                None
            },
    {
        proof {
            one_answer_each(self@.steps, self@.answers);
        }
        let at: usize = self.taken.len();
        if at < self.steps.len() {
            let before: bool = at == 0 || self.taken[at - 1];
            let step: Step = self.steps[at];
            Some((step, step.runs(before)))
        } else {
            None
        }
    }

    /// How carrying out the next step went. What is said of one that was not to be
    /// carried out makes no difference.
    pub fn answered(&mut self, went_well: bool)
        requires
            old(self).well_formed(),
            old(self)@.answers.len() < old(self)@.steps.len(),
        ensures
            final(self).well_formed(),
            final(self)@ == (DeliveryView {
                answers: old(self)@.answers.push(went_well),
                ..old(self)@
            }),
    {
        proof {
            one_answer_each(self@.steps, self@.answers);
        }
        let at: usize = self.taken.len();
        let before: bool = at == 0 || self.taken[at - 1];
        let runs: bool = self.steps[at].runs(before);
        self.taken.push(runs && went_well);
        self.answers.push(went_well);
        proof {
            assert(self.answers@.drop_last() =~= old(self).answers@);
            assert(self@ =~= (DeliveryView {
                answers: old(self)@.answers.push(went_well),
                ..old(self)@
            }));
        }
    }

    /// The steps, and which of them were taken.
    pub fn finish(self) -> (finished: (Vec<Step>, Vec<bool>))
        requires
            self.well_formed(),
        ensures
            finished.0@ == self@.steps,
            finished.1@ == self@.taken(),
            finished.1@.len() == self@.answers.len(),
    {
        proof {
            one_answer_each(self@.steps, self@.answers);
        }
        (self.steps, self.taken)
    }
}

proof fn one_answer_each(steps: Seq<Step>, answers: Seq<bool>)
    ensures
        taken_of(steps, answers).len() == answers.len(),
    decreases answers.len(),
{
    if answers.len() > 0 {
        one_answer_each(steps, answers.drop_last());
    }
}

/// What is taken went well, and a step that waits on the one before it is taken
/// only where that one was: no channel is flushed behind a message it refused.
pub proof fn nothing_is_taken_out_of_turn(steps: Seq<Step>, answers: Seq<bool>, at: int)
    requires
        0 <= at < answers.len() <= steps.len(),
    ensures
        taken_of(steps, answers).len() == answers.len(),
        taken_of(steps, answers)[at] ==> answers[at],
        taken_of(steps, answers)[at] && steps[at].if_taken && at > 0 ==> taken_of(
            steps,
            answers,
        )[at - 1],
    decreases answers.len(),
{
    one_answer_each(steps, answers);
    one_answer_each(steps, answers.drop_last());
    if at < answers.len() - 1 {
        nothing_is_taken_out_of_turn(steps, answers.drop_last(), at);
    }
}

/// The step that pushes a message.
pub open spec fn push(
    channel_id: u8,
    port_role: PortRole,
    message: EgressMessageType,
    index: usize,
    send_ts_ns: u64,
    if_taken: bool,
) -> Step {
    Step { channel_id, port_role, send_ts_ns, action: Action::Push { message, index }, if_taken }
}

/// A message pushed and the channel then flushed, if the message was taken.
pub open spec fn send(
    channel_id: u8,
    port_role: PortRole,
    message: EgressMessageType,
    send_ts_ns: u64,
) -> Seq<Step> {
    seq![
        push(channel_id, port_role, message, 0, send_ts_ns, false),
        Step { channel_id, port_role, send_ts_ns, action: Action::Flush, if_taken: true },
    ]
}

fn push_send(
    steps: &mut Vec<Step>,
    channel_id: u8,
    port_role: PortRole,
    message: EgressMessageType,
    send_ts_ns: u64,
)
    ensures
        final(steps)@ == old(steps)@ + send(channel_id, port_role, message, send_ts_ns),
{
    let ghost before = steps@;
    steps.push(
        Step {
            channel_id,
            port_role,
            send_ts_ns,
            action: Action::Push { message, index: 0 },
            if_taken: false,
        },
    );
    steps.push(
        Step { channel_id, port_role, send_ts_ns, action: Action::Flush, if_taken: true },
    );
    proof {
        assert(steps@ =~= before + send(channel_id, port_role, message, send_ts_ns));
    }
}

/// One port role's fan-out as it stands between ticks.
#[derive(Debug)]
pub struct Port {
    /// How many of its members are still sent to.
    pub live: usize,
    /// A member that is no longer sent to and whose failure darkens the
    /// publisher.
    pub process_failure: Option<String>,
    /// Every member that is no longer sent to.
    pub dropped: Vec<String>,
    /// Every member whose route is down.
    pub path_down: Vec<String>,
    /// The number the next datagram of the port role's series will take.
    pub next_sequence: Option<u64>,
}

/// The port roles one feed operates.
#[derive(Debug)]
pub struct Ports {
    pub mktdata: Port,
    pub refdata: Port,
    /// Depth feeds only, and required for one.
    pub snapshot: Option<Port>,
}

/// A fan-out member of one port role of one feed.
#[derive(Debug, PartialEq, Eq)]
pub struct SinkRef {
    pub spec: FeedSpec,
    pub port_role: PortRole,
    pub name: String,
}

impl SinkRef {
    /// See [`SinkRef::label`].
    pub open spec fn shown(spec: FeedSpec, port_role: PortRole, name: Seq<char>) -> Seq<char> {
        "`"@ + name + "` ("@ + spec.name() + " "@ + port_role.name() + ")"@
    }

    /// This member as an operator is shown it.
    pub fn label(&self) -> (text: String)
        ensures
            text@ == Self::shown(self.spec, self.port_role, self.name@),
    {
        let mut text: String = "`".to_owned();
        text.append(self.name.as_str());
        text.append("` (");
        text.append(self.spec.as_str());
        text.append(" ");
        text.append(self.port_role.as_str());
        text.append(")");
        text
    }
}

/// The members of one fan-out, each with its feed and port role.
pub open spec fn members(spec: FeedSpec, port_role: PortRole, names: Seq<String>) -> Seq<SinkRef> {
    Seq::new(names.len(), |i: int| SinkRef { spec, port_role, name: names[i] })
}

fn push_members(sinks: &mut Vec<SinkRef>, spec: FeedSpec, port_role: PortRole, names: &Vec<String>)
    ensures
        final(sinks)@ == old(sinks)@ + members(spec, port_role, names@),
{
    let ghost before = sinks@;
    let mut at: usize = 0;
    proof {
        assert(sinks@ =~= before + members(spec, port_role, names@).take(0));
    }
    while at < names.len()
        invariant
            at <= names.len(),
            sinks@ == before + members(spec, port_role, names@).take(at as int),
        decreases names.len() - at,
    {
        sinks.push(SinkRef { spec, port_role, name: names[at].clone() });
        proof {
            assert(sinks@ =~= before + members(spec, port_role, names@).take(at + 1));
        }
        at += 1;
    }
    proof {
        assert(members(spec, port_role, names@).take(at as int) =~= members(
            spec,
            port_role,
            names@,
        ));
    }
}

/// The send path for one `[[feed]]` block.
#[derive(Debug)]
pub struct FeedPipeline {
    spec: FeedSpec,
    shard: ShardName,
    channel_id: u8,
    ports: Ports,
    heartbeat_interval_ns: u64,
    manifest_cadence_ns: u64,
    snapshot_cycle: Option<Duration>,
    last_mktdata_ns: Option<u64>,
    next_manifest_ns: Option<u64>,
}

/// A send path as values to reason about.
pub struct PipelineView {
    pub spec: FeedSpec,
    pub shard: Seq<char>,
    pub channel_id: u8,
    pub ports: Ports,
    pub heartbeat_interval_ns: u64,
    pub manifest_cadence_ns: u64,
    pub snapshot_cycle: Option<Duration>,
    /// When something last left the mktdata port.
    pub last_mktdata_ns: Option<u64>,
    /// When the manifest is next due.
    pub next_manifest_ns: Option<u64>,
}

impl PipelineView {
    /// Nothing has left the mktdata port for the interval; the first heartbeat
    /// is due at once.
    pub open spec fn heartbeat_due(self, now_mono_ns: u64) -> bool {
        match self.last_mktdata_ns {
            None => true,
            Some(last) => (if now_mono_ns >= last {
                now_mono_ns - last
            } else {
                0
            }) >= self.heartbeat_interval_ns,
        }
    }

    /// Whether the manifest is due.
    pub open spec fn manifest_due(self, now_mono_ns: u64) -> bool {
        match self.next_manifest_ns {
            None => true,
            Some(next) => now_mono_ns >= next,
        }
    }

    /// The send path after something was sent on the mktdata port, or tried.
    pub open spec fn after_mktdata(self, now_mono_ns: u64) -> PipelineView {
        PipelineView { last_mktdata_ns: Some(now_mono_ns), ..self }
    }

    /// The send path after a manifest was sent, or tried.
    pub open spec fn after_manifest(self, now_mono_ns: u64) -> PipelineView {
        PipelineView {
            next_manifest_ns: Some(
                duration::moved_on(now_mono_ns, self.manifest_cadence_ns as nat),
            ),
            ..self
        }
    }

    /// The steps that send one mktdata message.
    pub open spec fn mktdata_steps(
        self,
        message: EgressMessageType,
        send_ts_ns: u64,
    ) -> Seq<Step> {
        send(self.channel_id, PortRole::Mktdata, message, send_ts_ns)
    }

    /// The steps that send the manifest.
    pub open spec fn manifest_steps(self, send_ts_ns: u64) -> Seq<Step> {
        send(self.channel_id, PortRole::Refdata, EgressMessageType::ManifestSummary, send_ts_ns)
    }

    /// The steps that pack so many definitions.
    pub open spec fn definition_steps(self, definitions: usize, send_ts_ns: u64) -> Seq<Step> {
        Seq::new(
            definitions as nat,
            |i: int|
                push(
                    self.channel_id,
                    PortRole::Refdata,
                    EgressMessageType::InstrumentDefinition,
                    i as usize,
                    send_ts_ns,
                    false,
                ),
        )
    }

    /// The step that sends whatever is open on a port role.
    pub open spec fn flush_step(self, port_role: PortRole, send_ts_ns: u64) -> Step {
        Step {
            channel_id: self.channel_id,
            port_role,
            send_ts_ns,
            action: Action::FlushAll,
            if_taken: false,
        }
    }

    /// The steps that send whatever is open on any port role, each of them
    /// attempted whatever became of the others.
    pub open spec fn flush_steps(self, send_ts_ns: u64) -> Seq<Step> {
        let both = seq![
            self.flush_step(PortRole::Mktdata, send_ts_ns),
            self.flush_step(PortRole::Refdata, send_ts_ns),
        ];
        if self.ports.snapshot is Some {
            both.push(self.flush_step(PortRole::Snapshot, send_ts_ns))
        } else {
            both
        }
    }

    /// The steps that send one book state: the begin, every level and the end,
    /// packed, and then flushed together. Each needs the one before it.
    pub open spec fn snapshot_steps(self, levels: usize, send_ts_ns: u64) -> Seq<Step> {
        if self.ports.snapshot is Some {
            seq![
                push(
                    self.channel_id,
                    PortRole::Snapshot,
                    EgressMessageType::SnapshotBegin,
                    0,
                    send_ts_ns,
                    false,
                ),
            ] + self.level_steps(levels as nat, send_ts_ns) + seq![
                push(
                    self.channel_id,
                    PortRole::Snapshot,
                    EgressMessageType::SnapshotEnd,
                    0,
                    send_ts_ns,
                    true,
                ),
                Step {
                    channel_id: self.channel_id,
                    port_role: PortRole::Snapshot,
                    send_ts_ns,
                    action: Action::Flush,
                    if_taken: true,
                },
            ]
        } else {
            Seq::empty()
        }
    }

    /// The steps that pack so many levels of a snapshot.
    pub open spec fn level_steps(self, levels: nat, send_ts_ns: u64) -> Seq<Step> {
        Seq::new(
            levels,
            |i: int|
                push(
                    self.channel_id,
                    PortRole::Snapshot,
                    EgressMessageType::SnapshotLevel,
                    i as usize,
                    send_ts_ns,
                    true,
                ),
        )
    }

    /// Everything this send path owes a tick.
    pub open spec fn tick_steps(
        self,
        definitions: usize,
        now_mono_ns: u64,
        now_unix_ns: u64,
    ) -> Seq<Step> {
        (if self.heartbeat_due(now_mono_ns) {
            self.mktdata_steps(EgressMessageType::Heartbeat, now_unix_ns)
        } else {
            Seq::empty()
        }) + self.definition_steps(definitions, now_unix_ns) + (if self.manifest_due(now_mono_ns) {
            self.manifest_steps(now_unix_ns)
        } else {
            Seq::empty()
        }) + self.flush_steps(now_unix_ns)
    }

    /// The send path after a tick.
    pub open spec fn after_tick(self, now_mono_ns: u64) -> PipelineView {
        let beaten = if self.heartbeat_due(now_mono_ns) {
            self.after_mktdata(now_mono_ns)
        } else {
            self
        };
        if self.manifest_due(now_mono_ns) {
            beaten.after_manifest(now_mono_ns)
        } else {
            beaten
        }
    }

    /// A member whose failure darkens the publisher, on the first port role
    /// that has one.
    pub open spec fn dark(self) -> Option<String> {
        if self.ports.mktdata.process_failure is Some {
            self.ports.mktdata.process_failure
        } else if self.ports.refdata.process_failure is Some {
            self.ports.refdata.process_failure
        } else if self.ports.snapshot is Some {
            self.ports.snapshot->0.process_failure
        } else {
            None
        }
    }

    /// Every member that is no longer sent to, port role by port role.
    pub open spec fn dropped(self) -> Seq<SinkRef> {
        members(self.spec, PortRole::Mktdata, self.ports.mktdata.dropped@) + members(
            self.spec,
            PortRole::Refdata,
            self.ports.refdata.dropped@,
        ) + (match self.ports.snapshot {
            Some(port) => members(self.spec, PortRole::Snapshot, port.dropped@),
            None => Seq::empty(),
        })
    }

    /// Every member whose route is down, port role by port role.
    pub open spec fn path_down(self) -> Seq<SinkRef> {
        members(self.spec, PortRole::Mktdata, self.ports.mktdata.path_down@) + members(
            self.spec,
            PortRole::Refdata,
            self.ports.refdata.path_down@,
        ) + (match self.ports.snapshot {
            Some(port) => members(self.spec, PortRole::Snapshot, port.path_down@),
            None => Seq::empty(),
        })
    }
}

impl View for FeedPipeline {
    type V = PipelineView;

    closed spec fn view(&self) -> PipelineView {
        PipelineView {
            spec: self.spec,
            shard: self.shard@,
            channel_id: self.channel_id,
            ports: self.ports,
            heartbeat_interval_ns: self.heartbeat_interval_ns,
            manifest_cadence_ns: self.manifest_cadence_ns,
            snapshot_cycle: self.snapshot_cycle,
            last_mktdata_ns: self.last_mktdata_ns,
            next_manifest_ns: self.next_manifest_ns,
        }
    }
}

/// The send path a block is composed into, over opened ports.
pub open spec fn composed(feed: Feed, ports: Ports) -> PipelineView {
    PipelineView {
        spec: feed.spec,
        shard: feed.shard@,
        channel_id: feed.channel_id,
        ports,
        heartbeat_interval_ns: duration::clamped(feed.heartbeat_interval@),
        manifest_cadence_ns: duration::clamped(feed.manifest_cadence@),
        snapshot_cycle: feed.snapshot_cycle,
        last_mktdata_ns: None,
        next_manifest_ns: None,
    }
}

impl FeedPipeline {
    /// Compose a feed's send path over already-opened fan-outs, which operate
    /// the port roles its specification carries.
    pub fn new(feed: &Feed, ports: Ports) -> (pipeline: Self)
        requires
            ports.snapshot is Some == (feed.spec == FeedSpec::MarketByPrice),
        ensures
            pipeline@ == composed(*feed, ports),
    {
        Self {
            spec: feed.spec,
            shard: feed.shard.clone(),
            channel_id: feed.channel_id,
            ports,
            heartbeat_interval_ns: feed.heartbeat_interval.as_nanos_clamped(),
            manifest_cadence_ns: feed.manifest_cadence.as_nanos_clamped(),
            snapshot_cycle: feed.snapshot_cycle,
            last_mktdata_ns: None,
            next_manifest_ns: None,
        }
    }

    /// Take in how the fan-outs stand now.
    pub fn observe(&mut self, ports: Ports)
        ensures
            final(self)@ == (PipelineView { ports, ..old(self)@ }),
    {
        self.ports = ports;
    }

    /// One full pass of this feed's snapshot rotation, if it configures one.
    pub fn snapshot_cycle(&self) -> (cycle: Option<Duration>)
        ensures
            cycle == self@.snapshot_cycle,
    {
        self.snapshot_cycle
    }

    /// The specification this send path carries.
    pub fn spec(&self) -> (spec: FeedSpec)
        ensures
            spec == self@.spec,
    {
        self.spec
    }

    /// The shard this send path carries.
    pub fn shard(&self) -> (shard: &ShardName)
        ensures
            shard@ == self@.shard,
    {
        &self.shard
    }

    /// The channel this send path sends on.
    pub fn channel_id(&self) -> (id: u8)
        ensures
            id == self@.channel_id,
    {
        self.channel_id
    }

    fn send_mktdata(&mut self, message: EgressMessageType, now_mono_ns: u64, send_ts_ns: u64) -> (
    steps: Vec<Step>)
        ensures
            steps@ == old(self)@.mktdata_steps(message, send_ts_ns),
            final(self)@ == old(self)@.after_mktdata(now_mono_ns),
    {
        // Recorded before the push, so a message the port refuses still counts
        // as an attempt: the alternative is a refused type provoking a
        // heartbeat on every tick.
        self.last_mktdata_ns = Some(now_mono_ns);
        let mut steps: Vec<Step> = Vec::new();
        push_send(&mut steps, self.channel_id, PortRole::Mktdata, message, send_ts_ns);
        proof {
            assert(steps@ =~= old(self)@.mktdata_steps(message, send_ts_ns));
        }
        steps
    }

    /// Send one quote.
    pub fn send_quote(&mut self, now_mono_ns: u64, send_ts_ns: u64) -> (steps: Vec<Step>)
        ensures
            steps@ == old(self)@.mktdata_steps(EgressMessageType::Quote, send_ts_ns),
            final(self)@ == old(self)@.after_mktdata(now_mono_ns),
    {
        self.send_mktdata(EgressMessageType::Quote, now_mono_ns, send_ts_ns)
    }

    /// Send one trade, already lowered: a publisher emitting two feeds sends one
    /// lowered value to both rather than two values that agree.
    pub fn send_trade(&mut self, now_mono_ns: u64, send_ts_ns: u64) -> (steps: Vec<Step>)
        ensures
            steps@ == old(self)@.mktdata_steps(EgressMessageType::Trade, send_ts_ns),
            final(self)@ == old(self)@.after_mktdata(now_mono_ns),
    {
        self.send_mktdata(EgressMessageType::Trade, now_mono_ns, send_ts_ns)
    }

    /// Send one level update.
    pub fn send_level(&mut self, now_mono_ns: u64, send_ts_ns: u64) -> (steps: Vec<Step>)
        ensures
            steps@ == old(self)@.mktdata_steps(EgressMessageType::LevelUpdate, send_ts_ns),
            final(self)@ == old(self)@.after_mktdata(now_mono_ns),
    {
        self.send_mktdata(EgressMessageType::LevelUpdate, now_mono_ns, send_ts_ns)
    }

    /// Send one book clear, in the same series as the level updates.
    pub fn send_book_clear(&mut self, now_mono_ns: u64, send_ts_ns: u64) -> (steps: Vec<Step>)
        ensures
            steps@ == old(self)@.mktdata_steps(EgressMessageType::BookClear, send_ts_ns),
            final(self)@ == old(self)@.after_mktdata(now_mono_ns),
    {
        self.send_mktdata(EgressMessageType::BookClear, now_mono_ns, send_ts_ns)
    }

    /// Send one instrument reset. Its anchor is the number its own datagram
    /// takes, which is [`FeedPipeline::mktdata_sequence`].
    pub fn send_instrument_reset(&mut self, now_mono_ns: u64, send_ts_ns: u64) -> (steps: Vec<
        Step,
    >)
        ensures
            steps@ == old(self)@.mktdata_steps(EgressMessageType::InstrumentReset, send_ts_ns),
            final(self)@ == old(self)@.after_mktdata(now_mono_ns),
    {
        self.send_mktdata(EgressMessageType::InstrumentReset, now_mono_ns, send_ts_ns)
    }

    /// Send one heartbeat.
    pub fn send_heartbeat(&mut self, now_mono_ns: u64, send_ts_ns: u64) -> (steps: Vec<Step>)
        ensures
            steps@ == old(self)@.mktdata_steps(EgressMessageType::Heartbeat, send_ts_ns),
            final(self)@ == old(self)@.after_mktdata(now_mono_ns),
    {
        self.send_mktdata(EgressMessageType::Heartbeat, now_mono_ns, send_ts_ns)
    }

    /// Send the end of the session, the terminal statement on the mktdata port.
    pub fn send_end_of_session(&mut self, now_mono_ns: u64, send_ts_ns: u64) -> (steps: Vec<Step>)
        ensures
            steps@ == old(self)@.mktdata_steps(EgressMessageType::EndOfSession, send_ts_ns),
            final(self)@ == old(self)@.after_mktdata(now_mono_ns),
    {
        self.send_mktdata(EgressMessageType::EndOfSession, now_mono_ns, send_ts_ns)
    }

    /// Pack one definition onto the refdata port, without flushing.
    pub fn pack_definition(&self, index: usize, send_ts_ns: u64) -> (step: Step)
        ensures
            step == push(
                self@.channel_id,
                PortRole::Refdata,
                EgressMessageType::InstrumentDefinition,
                index,
                send_ts_ns,
                false,
            ),
    {
        Step {
            channel_id: self.channel_id,
            port_role: PortRole::Refdata,
            send_ts_ns,
            action: Action::Push { message: EgressMessageType::InstrumentDefinition, index },
            if_taken: false,
        }
    }

    /// Pack so many definitions, in order: the pacer has already decided how many
    /// this tick owes.
    pub fn pack_definitions(&self, definitions: usize, send_ts_ns: u64) -> (steps: Vec<Step>)
        ensures
            steps@ == self@.definition_steps(definitions, send_ts_ns),
    {
        let mut steps: Vec<Step> = Vec::new();
        let mut index: usize = 0;
        while index < definitions
            invariant
                index <= definitions,
                steps@ == self@.definition_steps(definitions, send_ts_ns).take(index as int),
            decreases definitions - index,
        {
            steps.push(self.pack_definition(index, send_ts_ns));
            proof {
                assert(steps@ =~= self@.definition_steps(definitions, send_ts_ns).take(index + 1));
            }
            index += 1;
        }
        proof {
            assert(self@.definition_steps(definitions, send_ts_ns).take(index as int)
                =~= self@.definition_steps(definitions, send_ts_ns));
        }
        steps
    }

    /// Send the manifest.
    pub fn send_manifest(&mut self, now_mono_ns: u64, send_ts_ns: u64) -> (steps: Vec<Step>)
        ensures
            steps@ == old(self)@.manifest_steps(send_ts_ns),
            final(self)@ == old(self)@.after_manifest(now_mono_ns),
    {
        self.next_manifest_ns = Some(now_mono_ns.saturating_add(self.manifest_cadence_ns));
        let mut steps: Vec<Step> = Vec::new();
        push_send(
            &mut steps,
            self.channel_id,
            PortRole::Refdata,
            EgressMessageType::ManifestSummary,
            send_ts_ns,
        );
        proof {
            assert(steps@ =~= old(self)@.manifest_steps(send_ts_ns));
        }
        steps
    }

    /// Send whatever is still open on any port role. Every role is attempted
    /// even after one fails.
    pub fn flush(&self, send_ts_ns: u64) -> (steps: Vec<Step>)
        ensures
            steps@ == self@.flush_steps(send_ts_ns),
    {
        let mut steps: Vec<Step> = Vec::new();
        steps.push(
            Step {
                channel_id: self.channel_id,
                port_role: PortRole::Mktdata,
                send_ts_ns,
                action: Action::FlushAll,
                if_taken: false,
            },
        );
        steps.push(
            Step {
                channel_id: self.channel_id,
                port_role: PortRole::Refdata,
                send_ts_ns,
                action: Action::FlushAll,
                if_taken: false,
            },
        );
        if self.ports.snapshot.is_some() {
            steps.push(
                Step {
                    channel_id: self.channel_id,
                    port_role: PortRole::Snapshot,
                    send_ts_ns,
                    action: Action::FlushAll,
                    if_taken: false,
                },
            );
        }
        proof {
            assert(steps@ =~= self@.flush_steps(send_ts_ns));
        }
        steps
    }

    /// Send one instrument's book state, of so many levels, on the snapshot
    /// port role.
    pub fn send_snapshot(&self, levels: usize, send_ts_ns: u64) -> (steps: Vec<Step>)
        ensures
            steps@ == self@.snapshot_steps(levels, send_ts_ns),
    {
        let mut steps: Vec<Step> = Vec::new();
        if self.ports.snapshot.is_none() {
            return steps;
        }
        steps.push(
            Step {
                channel_id: self.channel_id,
                port_role: PortRole::Snapshot,
                send_ts_ns,
                action: Action::Push { message: EgressMessageType::SnapshotBegin, index: 0 },
                if_taken: false,
            },
        );
        let ghost begin = steps@;
        let mut index: usize = 0;
        proof {
            assert(begin + self@.level_steps(0, send_ts_ns) =~= begin);
        }
        while index < levels
            invariant
                index <= levels,
                steps@ == begin + self@.level_steps(index as nat, send_ts_ns),
            decreases levels - index,
        {
            steps.push(
                Step {
                    channel_id: self.channel_id,
                    port_role: PortRole::Snapshot,
                    send_ts_ns,
                    action: Action::Push { message: EgressMessageType::SnapshotLevel, index },
                    if_taken: true,
                },
            );
            proof {
                assert(steps@ =~= begin + self@.level_steps((index + 1) as nat, send_ts_ns));
            }
            index += 1;
        }
        steps.push(
            Step {
                channel_id: self.channel_id,
                port_role: PortRole::Snapshot,
                send_ts_ns,
                action: Action::Push { message: EgressMessageType::SnapshotEnd, index: 0 },
                if_taken: true,
            },
        );
        steps.push(
            Step {
                channel_id: self.channel_id,
                port_role: PortRole::Snapshot,
                send_ts_ns,
                action: Action::Flush,
                if_taken: true,
            },
        );
        proof {
            assert(steps@ =~= self@.snapshot_steps(levels, send_ts_ns));
        }
        steps
    }

    /// Everything this send path owes a tick: a heartbeat where nothing else
    /// was sent, the definitions the pacer owes, the manifest where it is due,
    /// and then whatever is still open.
    pub fn tick(&mut self, definitions: usize, now_mono_ns: u64, now_unix_ns: u64) -> (steps: Vec<
        Step,
    >)
        ensures
            steps@ == old(self)@.tick_steps(definitions, now_mono_ns, now_unix_ns),
            final(self)@ == old(self)@.after_tick(now_mono_ns),
    {
        let mut steps: Vec<Step> = Vec::new();
        let manifest_due: bool = self.manifest_due(now_mono_ns);
        if self.heartbeat_due(now_mono_ns) {
            steps = self.send_heartbeat(now_mono_ns, now_unix_ns);
        }
        let mut packed: Vec<Step> = self.pack_definitions(definitions, now_unix_ns);
        steps.append(&mut packed);
        if manifest_due {
            let mut manifest: Vec<Step> = self.send_manifest(now_mono_ns, now_unix_ns);
            steps.append(&mut manifest);
        }
        let mut flushed: Vec<Step> = self.flush(now_unix_ns);
        steps.append(&mut flushed);
        proof {
            assert(steps@ =~= old(self)@.tick_steps(definitions, now_mono_ns, now_unix_ns));
        }
        steps
    }

    /// Whether a heartbeat is due: nothing has left the mktdata port for the
    /// interval.
    pub fn heartbeat_due(&self, now_mono_ns: u64) -> (due: bool)
        ensures
            due == self@.heartbeat_due(now_mono_ns),
    {
        match self.last_mktdata_ns {
            None => true,
            Some(last) => now_mono_ns.saturating_sub(last) >= self.heartbeat_interval_ns,
        }
    }

    /// Whether the manifest is due.
    pub fn manifest_due(&self, now_mono_ns: u64) -> (due: bool)
        ensures
            due == self@.manifest_due(now_mono_ns),
    {
        match self.next_manifest_ns {
            None => true,
            Some(next) => now_mono_ns >= next,
        }
    }

    /// A dropped fan-out member whose failure darkens this publisher, on any
    /// port role.
    pub fn dark_transmitter(&self) -> (dark: Option<&String>)
        ensures
            match dark {
                Some(name) => self@.dark() == Some(*name),
                None => self@.dark() is None,
            },
    {
        if let Some(name) = &self.ports.mktdata.process_failure {
            return Some(name);
        }
        if let Some(name) = &self.ports.refdata.process_failure {
            return Some(name);
        }
        match &self.ports.snapshot {
            Some(port) => match &port.process_failure {
                Some(name) => Some(name),
                None => None,
            },
            None => None,
        }
    }

    /// Every fan-out member, on any port role, that is no longer sent to.
    pub fn dropped_sinks(&self) -> (sinks: Vec<SinkRef>)
        ensures
            sinks@ == self@.dropped(),
    {
        let mut sinks: Vec<SinkRef> = Vec::new();
        push_members(&mut sinks, self.spec, PortRole::Mktdata, &self.ports.mktdata.dropped);
        push_members(&mut sinks, self.spec, PortRole::Refdata, &self.ports.refdata.dropped);
        if let Some(port) = &self.ports.snapshot {
            push_members(&mut sinks, self.spec, PortRole::Snapshot, &port.dropped);
        }
        proof {
            assert(sinks@ =~= self@.dropped());
        }
        sinks
    }

    /// Every fan-out member, on any port role, whose route is down.
    pub fn path_down_sinks(&self) -> (sinks: Vec<SinkRef>)
        ensures
            sinks@ == self@.path_down(),
    {
        let mut sinks: Vec<SinkRef> = Vec::new();
        push_members(&mut sinks, self.spec, PortRole::Mktdata, &self.ports.mktdata.path_down);
        push_members(&mut sinks, self.spec, PortRole::Refdata, &self.ports.refdata.path_down);
        if let Some(port) = &self.ports.snapshot {
            push_members(&mut sinks, self.spec, PortRole::Snapshot, &port.path_down);
        }
        proof {
            assert(sinks@ =~= self@.path_down());
        }
        sinks
    }

    /// The live member count of one port role's fan-out. `None` for a role this
    /// feed does not operate.
    pub fn live_sinks(&self, port_role: PortRole) -> (live: Option<usize>)
        ensures
            live == match port_role {
                PortRole::Mktdata => Some(self@.ports.mktdata.live),
                PortRole::Refdata => Some(self@.ports.refdata.live),
                PortRole::Snapshot => match self@.ports.snapshot {
                    Some(port) => Some(port.live),
                    None => None,
                },
            },
    {
        match port_role {
            PortRole::Mktdata => Some(self.ports.mktdata.live),
            PortRole::Refdata => Some(self.ports.refdata.live),
            PortRole::Snapshot => match &self.ports.snapshot {
                Some(port) => Some(port.live),
                None => None,
            },
        }
    }

    /// The number this feed's mktdata series will stamp next: the point in the
    /// live stream a book state captured now is true as of.
    pub fn mktdata_sequence(&self) -> (next: Option<u64>)
        ensures
            next == self@.ports.mktdata.next_sequence,
    {
        self.ports.mktdata.next_sequence
    }
}

/// A heartbeat is what is sent where nothing else was: whatever leaves the
/// mktdata port puts the next one off by the whole interval.
pub proof fn traffic_stands_in_for_a_heartbeat(path: PipelineView, sent_ns: u64, now_mono_ns: u64)
    requires
        sent_ns <= now_mono_ns,
    ensures
        path.after_mktdata(sent_ns).heartbeat_due(now_mono_ns) <==> now_mono_ns - sent_ns
            >= path.heartbeat_interval_ns,
{
}

/// Neither cadence repeats itself: what a tick sent is not due again at the same
/// moment, and the manifest is due once its cadence has passed.
pub proof fn a_tick_is_not_repeated(path: PipelineView, now_mono_ns: u64)
    requires
        path.heartbeat_interval_ns > 0,
        path.manifest_cadence_ns > 0,
        now_mono_ns + path.manifest_cadence_ns <= u64::MAX,
    ensures
        !path.after_tick(now_mono_ns).heartbeat_due(now_mono_ns),
        !path.after_tick(now_mono_ns).manifest_due(now_mono_ns),
        path.manifest_due(now_mono_ns) ==> path.after_tick(now_mono_ns).manifest_due(
            (now_mono_ns + path.manifest_cadence_ns) as u64,
        ),
{
}

/// The last thing a tick does is to send whatever is open on every port role.
pub proof fn a_tick_leaves_nothing_open(
    path: PipelineView,
    definitions: usize,
    now_mono_ns: u64,
    now_unix_ns: u64,
)
    ensures
        exists|before: Seq<Step>|
            path.tick_steps(definitions, now_mono_ns, now_unix_ns) == #[trigger] (before
                + path.flush_steps(now_unix_ns)),
{
    let all = path.tick_steps(definitions, now_mono_ns, now_unix_ns);
    let last = path.flush_steps(now_unix_ns);
    let before = all.take(all.len() - last.len());
    assert(all =~= before + last);
}

/// A step that puts the message of one index into the open datagram of a port
/// role.
pub open spec fn puts(step: Step, role: PortRole, message: EgressMessageType, index: int) -> bool {
    &&& step.port_role == role
    &&& step.action matches Action::Push { message: put, index: which } && put == message && which
        == index
}

/// One of the steps puts that message there.
pub open spec fn one_puts(
    steps: Seq<Step>,
    role: PortRole,
    message: EgressMessageType,
    index: int,
) -> bool {
    exists|i: int| 0 <= i < steps.len() && #[trigger] puts(steps[i], role, message, index)
}

/// A step that puts any message of a type into a datagram, wherever that is.
pub open spec fn puts_any(step: Step, message: EgressMessageType) -> bool {
    step.action matches Action::Push { message: put, .. } && put == message
}

/// Whether a step puts something into a datagram.
pub open spec fn puts_something(step: Step) -> bool {
    step.action is Push
}

/// A message goes into a datagram of its own feed's mktdata series and leaves at
/// once: the send stamp it carries is the one it leaves at, and it is not flushed
/// where it was not taken.
pub proof fn a_message_leaves_on_its_own_channel(
    path: PipelineView,
    message: EgressMessageType,
    send_ts_ns: u64,
)
    ensures
        path.mktdata_steps(message, send_ts_ns).len() == 2,
        puts(path.mktdata_steps(message, send_ts_ns)[0], PortRole::Mktdata, message, 0),
        !path.mktdata_steps(message, send_ts_ns)[0].if_taken,
        path.mktdata_steps(message, send_ts_ns)[1].port_role == PortRole::Mktdata,
        path.mktdata_steps(message, send_ts_ns)[1].action == Action::Flush,
        path.mktdata_steps(message, send_ts_ns)[1].if_taken,
        forall|i: int|
            0 <= i < 2 ==> (#[trigger] path.mktdata_steps(message, send_ts_ns)[i]).channel_id
                == path.channel_id && path.mktdata_steps(message, send_ts_ns)[i].send_ts_ns
                == send_ts_ns,
{
}

/// A manifest goes out on its own feed's reference-data series, and leaves at
/// once.
pub proof fn a_manifest_leaves_on_its_own_channel(path: PipelineView, send_ts_ns: u64)
    ensures
        path.manifest_steps(send_ts_ns).len() == 2,
        puts(
            path.manifest_steps(send_ts_ns)[0],
            PortRole::Refdata,
            EgressMessageType::ManifestSummary,
            0,
        ),
        !path.manifest_steps(send_ts_ns)[0].if_taken,
        path.manifest_steps(send_ts_ns)[1].port_role == PortRole::Refdata,
        path.manifest_steps(send_ts_ns)[1].action == Action::Flush,
        path.manifest_steps(send_ts_ns)[1].if_taken,
        forall|i: int|
            0 <= i < 2 ==> (#[trigger] path.manifest_steps(send_ts_ns)[i]).channel_id
                == path.channel_id && path.manifest_steps(send_ts_ns)[i].send_ts_ns == send_ts_ns,
{
}

/// When something last left the mktdata port decides the heartbeat, and the
/// manifest's own time decides the manifest: each is due at once before its
/// first, and then exactly when its interval has passed.
pub proof fn each_cadence_is_its_own(path: PipelineView, last: u64, now_mono_ns: u64)
    ensures
        path.last_mktdata_ns is None ==> path.heartbeat_due(now_mono_ns),
        path.last_mktdata_ns == Some(last) && last <= now_mono_ns ==> (path.heartbeat_due(
            now_mono_ns,
        ) <==> now_mono_ns - last >= path.heartbeat_interval_ns),
        path.last_mktdata_ns == Some(last) && now_mono_ns < last ==> (path.heartbeat_due(
            now_mono_ns,
        ) <==> path.heartbeat_interval_ns == 0),
        path.next_manifest_ns is None ==> path.manifest_due(now_mono_ns),
        path.next_manifest_ns == Some(last) ==> (path.manifest_due(now_mono_ns) <==> now_mono_ns
            >= last),
{
}

/// The steps of a tick by their places: the heartbeat where it is due, then the
/// definitions, then the manifest where it is due, then the flushes.
proof fn places_of_a_tick(
    path: PipelineView,
    definitions: usize,
    now_mono_ns: u64,
    now_unix_ns: u64,
) -> (places: (int, int, int))
    ensures
        ({
            let steps = path.tick_steps(definitions, now_mono_ns, now_unix_ns);
            let beat = path.mktdata_steps(EgressMessageType::Heartbeat, now_unix_ns);
            let packed = path.definition_steps(definitions, now_unix_ns);
            let manifest = path.manifest_steps(now_unix_ns);
            let flushed = path.flush_steps(now_unix_ns);
            &&& places.0 == if path.heartbeat_due(now_mono_ns) {
                2int
            } else {
                0
            }
            &&& places.1 == places.0 + definitions
            &&& places.2 == places.1 + if path.manifest_due(now_mono_ns) {
                2int
            } else {
                0
            }
            &&& steps.len() == places.2 + flushed.len()
            &&& path.heartbeat_due(now_mono_ns) ==> steps[0] == beat[0] && steps[1] == beat[1]
            &&& forall|i: int|
                places.0 <= i < places.1 ==> #[trigger] steps[i] == packed[i - places.0]
            &&& path.manifest_due(now_mono_ns) ==> steps[places.1] == manifest[0]
                && steps[places.1 + 1] == manifest[1]
            &&& forall|i: int|
                places.2 <= i < steps.len() ==> #[trigger] steps[i] == flushed[i - places.2]
        }),
{
    let beat: int = if path.heartbeat_due(now_mono_ns) {
        2
    } else {
        0
    };
    let manifest: int = if path.manifest_due(now_mono_ns) {
        2
    } else {
        0
    };
    (beat, beat + definitions, beat + definitions + manifest)
}

/// Every tick puts each definition the pacer owes into the feed's reference-data
/// datagram, once each and in order, whatever else is due; a heartbeat goes out
/// exactly where one is due, and a manifest exactly where one is.
pub proof fn a_tick_puts_what_is_owed(
    path: PipelineView,
    definitions: usize,
    now_mono_ns: u64,
    now_unix_ns: u64,
)
    ensures
        ({
            let steps = path.tick_steps(definitions, now_mono_ns, now_unix_ns);
            &&& forall|k: int|
                0 <= k < definitions ==> #[trigger] one_puts(
                    steps,
                    PortRole::Refdata,
                    EgressMessageType::InstrumentDefinition,
                    k,
                )
            &&& forall|i: int, j: int|
                0 <= i < j < steps.len() && puts_any(
                    #[trigger] steps[i],
                    EgressMessageType::InstrumentDefinition,
                ) && puts_any(#[trigger] steps[j], EgressMessageType::InstrumentDefinition)
                    ==> steps[i].action->index < steps[j].action->index
            &&& forall|i: int|
                0 <= i < steps.len() && puts_any(
                    #[trigger] steps[i],
                    EgressMessageType::InstrumentDefinition,
                ) ==> steps[i].port_role == PortRole::Refdata && steps[i].action->index
                    < definitions && !steps[i].if_taken
            &&& (exists|i: int|
                0 <= i < steps.len() && puts_any(
                    #[trigger] steps[i],
                    EgressMessageType::ManifestSummary,
                )) <==> (path.next_manifest_ns is None || now_mono_ns >= path.next_manifest_ns->0)
            &&& (exists|i: int|
                0 <= i < steps.len() && puts_any(
                    #[trigger] steps[i],
                    EgressMessageType::Heartbeat,
                )) <==> (path.last_mktdata_ns is None || (now_mono_ns >= path.last_mktdata_ns->0
                && now_mono_ns - path.last_mktdata_ns->0 >= path.heartbeat_interval_ns)
                || path.heartbeat_interval_ns == 0)
            &&& forall|i: int|
                0 <= i < steps.len() && puts_something(#[trigger] steps[i]) ==> puts_any(
                    steps[i],
                    EgressMessageType::Heartbeat,
                ) || puts_any(steps[i], EgressMessageType::InstrumentDefinition) || puts_any(
                    steps[i],
                    EgressMessageType::ManifestSummary,
                )
        }),
{
    let steps = path.tick_steps(definitions, now_mono_ns, now_unix_ns);
    let (packed, manifest, flushed) = places_of_a_tick(
        path,
        definitions,
        now_mono_ns,
        now_unix_ns,
    );
    assert forall|k: int| 0 <= k < definitions implies #[trigger] one_puts(
        steps,
        PortRole::Refdata,
        EgressMessageType::InstrumentDefinition,
        k,
    ) by {
        assert(puts(
            steps[packed + k],
            PortRole::Refdata,
            EgressMessageType::InstrumentDefinition,
            k,
        ));
    }
    if path.manifest_due(now_mono_ns) {
        assert(puts_any(steps[manifest], EgressMessageType::ManifestSummary));
    }
    if path.heartbeat_due(now_mono_ns) {
        assert(puts_any(steps[0], EgressMessageType::Heartbeat));
    }
}

/// A tick is all on the one channel, under the one send stamp, and ends by sending
/// what is open on every port role the feed has, each whatever became of the
/// others; nothing is put into a datagram after that.
pub proof fn a_tick_sends_all_it_put(
    path: PipelineView,
    definitions: usize,
    now_mono_ns: u64,
    now_unix_ns: u64,
)
    ensures
        ({
            let steps = path.tick_steps(definitions, now_mono_ns, now_unix_ns);
            let roles: int = if path.ports.snapshot is Some {
                3
            } else {
                2
            };
            &&& steps.len() >= roles
            &&& forall|i: int|
                0 <= i < steps.len() ==> (#[trigger] steps[i]).channel_id == path.channel_id
                    && steps[i].send_ts_ns == now_unix_ns
            &&& forall|i: int|
                steps.len() - roles <= i < steps.len() ==> (#[trigger] steps[i]).action
                    == Action::FlushAll && !steps[i].if_taken
            &&& steps[steps.len() - roles].port_role == PortRole::Mktdata
            &&& steps[steps.len() - roles + 1].port_role == PortRole::Refdata
            &&& path.ports.snapshot is Some ==> steps.last().port_role == PortRole::Snapshot
        }),
{
    let (packed, manifest, flushed) = places_of_a_tick(
        path,
        definitions,
        now_mono_ns,
        now_unix_ns,
    );
}

/// A tick moves the two cadences it served and nothing else: the heartbeat counts
/// from now, and the manifest is next due a cadence from now.
pub proof fn a_tick_moves_what_it_served(path: PipelineView, now_mono_ns: u64)
    ensures
        ({
            let after = path.after_tick(now_mono_ns);
            let beat = path.last_mktdata_ns is None || (now_mono_ns >= path.last_mktdata_ns->0
                && now_mono_ns - path.last_mktdata_ns->0 >= path.heartbeat_interval_ns)
                || path.heartbeat_interval_ns == 0;
            let manifest = path.next_manifest_ns is None || now_mono_ns
                >= path.next_manifest_ns->0;
            &&& after.last_mktdata_ns == if beat {
                Some(now_mono_ns)
            } else {
                path.last_mktdata_ns
            }
            &&& !manifest ==> after.next_manifest_ns == path.next_manifest_ns
            &&& manifest ==> after.next_manifest_ns is Some
            &&& manifest && now_mono_ns + path.manifest_cadence_ns <= u64::MAX
                ==> after.next_manifest_ns->0 == now_mono_ns + path.manifest_cadence_ns
            &&& manifest && now_mono_ns + path.manifest_cadence_ns > u64::MAX
                ==> after.next_manifest_ns->0 == u64::MAX
            &&& sends_as(path, after)
        }),
{
}

/// Two states of a send path that is the same in all but how far its cadences have
/// come.
pub open spec fn sends_as(before: PipelineView, after: PipelineView) -> bool {
    &&& after.spec == before.spec
    &&& after.shard == before.shard
    &&& after.channel_id == before.channel_id
    &&& after.ports == before.ports
    &&& after.heartbeat_interval_ns == before.heartbeat_interval_ns
    &&& after.manifest_cadence_ns == before.manifest_cadence_ns
    &&& after.snapshot_cycle == before.snapshot_cycle
}

/// What leaves the mktdata port puts the heartbeat off from now and moves nothing
/// else; a manifest moves its own time and nothing else.
pub proof fn a_send_moves_its_own_cadence(path: PipelineView, now_mono_ns: u64)
    ensures
        path.after_mktdata(now_mono_ns).last_mktdata_ns == Some(now_mono_ns),
        path.after_mktdata(now_mono_ns).next_manifest_ns == path.next_manifest_ns,
        sends_as(path, path.after_mktdata(now_mono_ns)),
        path.after_manifest(now_mono_ns).last_mktdata_ns == path.last_mktdata_ns,
        path.after_manifest(now_mono_ns).next_manifest_ns matches Some(next) && (next
            == now_mono_ns + path.manifest_cadence_ns || (next == u64::MAX && now_mono_ns
            + path.manifest_cadence_ns > u64::MAX)),
        sends_as(path, path.after_manifest(now_mono_ns)),
{
}

/// A snapshot is one group: a begin, every level once and in order, an end, and
/// then it leaves, all on the feed's snapshot port; and each of it needs the one
/// before it, so a group that breaks off is not flushed. A feed without a snapshot
/// port sends none.
pub proof fn a_snapshot_is_one_group(path: PipelineView, levels: usize, send_ts_ns: u64)
    ensures
        ({
            let steps = path.snapshot_steps(levels, send_ts_ns);
            &&& path.ports.snapshot is None ==> steps.len() == 0
            &&& path.ports.snapshot is Some ==> {
                &&& steps.len() == levels + 3
                &&& puts(steps[0], PortRole::Snapshot, EgressMessageType::SnapshotBegin, 0)
                &&& !steps[0].if_taken
                &&& forall|k: int|
                    0 <= k < levels ==> puts(
                        #[trigger] steps[k + 1],
                        PortRole::Snapshot,
                        EgressMessageType::SnapshotLevel,
                        k,
                    )
                &&& puts(
                    steps[levels + 1],
                    PortRole::Snapshot,
                    EgressMessageType::SnapshotEnd,
                    0,
                )
                &&& steps[levels + 2].action == Action::Flush
                &&& forall|i: int|
                    0 <= i < steps.len() ==> (#[trigger] steps[i]).channel_id == path.channel_id
                        && steps[i].port_role == PortRole::Snapshot && steps[i].send_ts_ns
                        == send_ts_ns && (i > 0 ==> steps[i].if_taken)
            }
        }),
{
    let steps = path.snapshot_steps(levels, send_ts_ns);
    if path.ports.snapshot is Some {
        assert forall|k: int| 0 <= k < levels implies puts(
            #[trigger] steps[k + 1],
            PortRole::Snapshot,
            EgressMessageType::SnapshotLevel,
            k,
        ) by {
            assert(steps[k + 1] == path.level_steps(levels as nat, send_ts_ns)[k]);
        }
        assert(steps[levels + 1].action is Push);
    }
}

/// A step is taken exactly where it went well and, if it waits on the one before
/// it, that one was taken.
pub proof fn a_step_is_taken_in_its_turn(steps: Seq<Step>, answers: Seq<bool>, at: int)
    requires
        0 <= at < answers.len() <= steps.len(),
    ensures
        taken_of(steps, answers).len() == answers.len(),
        taken_of(steps, answers)[at] <==> answers[at] && (!steps[at].if_taken || at == 0
            || taken_of(steps, answers)[at - 1]),
    decreases answers.len(),
{
    one_answer_each(steps, answers);
    one_answer_each(steps, answers.drop_last());
    if at < answers.len() - 1 {
        a_step_is_taken_in_its_turn(steps, answers.drop_last(), at);
    }
}

/// A failure that darkens the publisher is seen on whichever port role it is, and
/// what is named is a member that failed so.
pub proof fn a_dark_member_is_seen(path: PipelineView)
    ensures
        path.dark() is Some <==> (path.ports.mktdata.process_failure is Some
            || path.ports.refdata.process_failure is Some || (path.ports.snapshot is Some
            && path.ports.snapshot->0.process_failure is Some)),
        path.dark() is Some ==> (path.dark() == path.ports.mktdata.process_failure || path.dark()
            == path.ports.refdata.process_failure || (path.ports.snapshot is Some && path.dark()
            == path.ports.snapshot->0.process_failure)),
        path.ports.mktdata.process_failure is Some ==> path.dark()
            == path.ports.mktdata.process_failure,
{
}

/// A member of one fan-out, by its place in it.
pub open spec fn names_member(
    sinks: Seq<SinkRef>,
    spec: FeedSpec,
    role: PortRole,
    name: String,
) -> bool {
    exists|i: int|
        0 <= i < sinks.len() && (#[trigger] sinks[i]).spec == spec && sinks[i].port_role == role
            && sinks[i].name == name
}

proof fn members_are_named(spec: FeedSpec, role: PortRole, names: Seq<String>, all: Seq<SinkRef>, from: int)
    requires
        0 <= from,
        from + names.len() <= all.len(),
        forall|i: int|
            0 <= i < names.len() ==> #[trigger] all[from + i] == members(spec, role, names)[i],
    ensures
        forall|i: int|
            0 <= i < names.len() ==> names_member(all, spec, role, #[trigger] names[i]),
{
    assert forall|i: int| 0 <= i < names.len() implies names_member(
        all,
        spec,
        role,
        #[trigger] names[i],
    ) by {
        let sink = all[from + i];
        assert(sink.spec == spec && sink.port_role == role && sink.name == names[i]);
    }
}

/// Every member of every port role that is no longer sent to is named once, under
/// its own feed and role, and so is every one whose route is down.
pub proof fn every_lost_member_is_named(path: PipelineView)
    ensures
        path.dropped().len() == path.ports.mktdata.dropped@.len()
            + path.ports.refdata.dropped@.len() + match path.ports.snapshot {
            Some(port) => port.dropped@.len(),
            None => 0,
        },
        forall|i: int|
            0 <= i < path.ports.mktdata.dropped@.len() ==> names_member(
                path.dropped(),
                path.spec,
                PortRole::Mktdata,
                #[trigger] path.ports.mktdata.dropped@[i],
            ),
        forall|i: int|
            0 <= i < path.ports.refdata.dropped@.len() ==> names_member(
                path.dropped(),
                path.spec,
                PortRole::Refdata,
                #[trigger] path.ports.refdata.dropped@[i],
            ),
        path.ports.snapshot matches Some(port) ==> forall|i: int|
            0 <= i < port.dropped@.len() ==> names_member(
                path.dropped(),
                path.spec,
                PortRole::Snapshot,
                #[trigger] port.dropped@[i],
            ),
        path.path_down().len() == path.ports.mktdata.path_down@.len()
            + path.ports.refdata.path_down@.len() + match path.ports.snapshot {
            Some(port) => port.path_down@.len(),
            None => 0,
        },
        forall|i: int|
            0 <= i < path.ports.mktdata.path_down@.len() ==> names_member(
                path.path_down(),
                path.spec,
                PortRole::Mktdata,
                #[trigger] path.ports.mktdata.path_down@[i],
            ),
        forall|i: int|
            0 <= i < path.ports.refdata.path_down@.len() ==> names_member(
                path.path_down(),
                path.spec,
                PortRole::Refdata,
                #[trigger] path.ports.refdata.path_down@[i],
            ),
        path.ports.snapshot matches Some(port) ==> forall|i: int|
            0 <= i < port.path_down@.len() ==> names_member(
                path.path_down(),
                path.spec,
                PortRole::Snapshot,
                #[trigger] port.path_down@[i],
            ),
{
    let (m, r) = (path.ports.mktdata, path.ports.refdata);
    members_are_named(path.spec, PortRole::Mktdata, m.dropped@, path.dropped(), 0);
    members_are_named(
        path.spec,
        PortRole::Refdata,
        r.dropped@,
        path.dropped(),
        m.dropped@.len() as int,
    );
    members_are_named(path.spec, PortRole::Mktdata, m.path_down@, path.path_down(), 0);
    members_are_named(
        path.spec,
        PortRole::Refdata,
        r.path_down@,
        path.path_down(),
        m.path_down@.len() as int,
    );
    if let Some(port) = path.ports.snapshot {
        members_are_named(
            path.spec,
            PortRole::Snapshot,
            port.dropped@,
            path.dropped(),
            (m.dropped@.len() + r.dropped@.len()) as int,
        );
        members_are_named(
            path.spec,
            PortRole::Snapshot,
            port.path_down@,
            path.path_down(),
            (m.path_down@.len() + r.path_down@.len()) as int,
        );
    }
}

/// A send path is its block's own: the same specification, shard, channel and
/// cadences, over the ports that were opened for it, with nothing sent yet.
pub proof fn a_path_is_its_blocks_own(feed: Feed, ports: Ports)
    ensures
        ({
            let path = composed(feed, ports);
            &&& path.spec == feed.spec
            &&& path.shard == feed.shard@
            &&& path.channel_id == feed.channel_id
            &&& path.ports == ports
            &&& path.snapshot_cycle == feed.snapshot_cycle
            &&& path.last_mktdata_ns is None
            &&& path.next_manifest_ns is None
            &&& feed.heartbeat_interval@ <= u64::MAX ==> path.heartbeat_interval_ns
                == feed.heartbeat_interval@
            &&& feed.heartbeat_interval@ > u64::MAX ==> path.heartbeat_interval_ns == u64::MAX
            &&& feed.manifest_cadence@ <= u64::MAX ==> path.manifest_cadence_ns
                == feed.manifest_cadence@
            &&& feed.manifest_cadence@ > u64::MAX ==> path.manifest_cadence_ns == u64::MAX
        }),
{
}

/// A member is shown by its name, then its feed, then its port role.
pub proof fn a_member_is_shown_with_its_place(spec: FeedSpec, role: PortRole, name: Seq<char>)
    ensures
        error::stand_in_turn(name, spec.name(), SinkRef::shown(spec, role, name)),
        error::stand_in_turn(spec.name(), role.name(), SinkRef::shown(spec, role, name)),
{
    let said = SinkRef::shown(spec, role, name);
    assert(said =~= "`"@ + name + "` ("@ + spec.name() + (" "@ + role.name() + ")"@));
    assert(said =~= ("`"@ + name + "` ("@) + spec.name() + " "@ + role.name() + ")"@);
}

} // verus!
