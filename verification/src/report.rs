//! The lines an operator is shown while a publisher runs and when it ends.
//!
//! A condition that repeats is written on a schedule and counted in between: a
//! line a hundred times a second is what makes an operator turn the log off.

use vstd::prelude::*;
use vstd::string::*;

use crate::duration;
use crate::error;
use crate::event::{Refusals, SnapshotError, SnapshotRefusals};
use crate::pipeline::SinkRef;
use crate::publisher::{Counts, Publisher, PublisherView};
use crate::registry;
use crate::run;
use crate::shard;
use crate::text;

verus! {

/// Whether a count is one, ten, a hundred, and so on.
pub open spec fn is_power_of_ten(count: nat) -> bool {
    exists|exponent: nat| count == #[trigger] vstd::arithmetic::power::pow(10, exponent)
}

/// Whether a count that has just moved is worth a line: the first time, and then
/// once a decade.
pub fn worth_a_line(count: u64) -> (worth: bool)
    ensures
        worth == is_power_of_ten(count as nat),
{
    if count == 0 {
        proof {
            assert forall|exponent: nat| 0 != #[trigger] vstd::arithmetic::power::pow(10, exponent) by {
                vstd::arithmetic::power::lemma_pow_positive(10, exponent);
            }
        }
        return false;
    }
    let mut left: u64 = count;
    while left % 10 == 0
        invariant
            left > 0,
            is_power_of_ten(count as nat) == is_power_of_ten(left as nat),
        decreases left,
    {
        proof {
            a_tenth_of_a_power(left as nat);
        }
        left = left / 10;
    }
    proof {
        if left == 1 {
            vstd::arithmetic::power::lemma_pow0(10);
            assert(1 == vstd::arithmetic::power::pow(10, 0));
        } else {
            assert forall|exponent: nat| left as int != #[trigger] vstd::arithmetic::power::pow(
                10,
                exponent,
            ) by {
                if exponent == 0 {
                    vstd::arithmetic::power::lemma_pow0(10);
                } else {
                    vstd::arithmetic::power::lemma_pow_positive(10, (exponent - 1) as nat);
                    reveal(vstd::arithmetic::power::pow);
                    assert(vstd::arithmetic::power::pow(10, exponent) == 10
                        * vstd::arithmetic::power::pow(10, (exponent - 1) as nat));
                }
            }
        }
    }
    left == 1
}

proof fn a_tenth_of_a_power(count: nat)
    requires
        count > 0,
        count % 10 == 0,
    ensures
        is_power_of_ten(count) == is_power_of_ten(count / 10),
{
    reveal(vstd::arithmetic::power::pow);
    if is_power_of_ten(count) {
        let exponent = choose|exponent: nat|
            count == #[trigger] vstd::arithmetic::power::pow(10, exponent);
        assert(exponent > 0) by {
            if exponent == 0 {
                vstd::arithmetic::power::lemma_pow0(10);
            }
        }
        assert(vstd::arithmetic::power::pow(10, exponent) == 10 * vstd::arithmetic::power::pow(
            10,
            (exponent - 1) as nat,
        ));
        assert(count / 10 == vstd::arithmetic::power::pow(10, (exponent - 1) as nat));
    }
    if is_power_of_ten(count / 10) {
        let exponent = choose|exponent: nat|
            count / 10 == #[trigger] vstd::arithmetic::power::pow(10, exponent);
        assert(vstd::arithmetic::power::pow(10, exponent + 1) == 10
            * vstd::arithmetic::power::pow(10, exponent));
        assert(count == vstd::arithmetic::power::pow(10, exponent + 1));
    }
}

/// Names in backticks.
pub open spec fn ticked_names(names: Seq<String>) -> Seq<Seq<char>> {
    Seq::new(names.len(), |i: int| "`"@ + names[i]@ + "`"@)
}

/// See [`unknown_shard_line`].
pub open spec fn unknown_shard_said(offered: Seq<char>, configured: Seq<String>) -> Seq<char> {
    "dz-publisher-runtime: the venue offered instruments on `"@ + offered
        + "`, which is not a shard this publisher is configured with. They are declined and reach no channel. Configured: "@
        + (if configured.len() == 0 {
        "none"@
    } else {
        text::joined(ticked_names(configured), ", "@)
    })
        + ". Said once for this name however many instruments were offered under it."@
}

/// What is written of a shard name the venue offered that this publisher has no
/// channel for.
pub fn unknown_shard_line(offered: &str, configured: &Vec<String>) -> (line: String)
    ensures
        line@ == unknown_shard_said(offered@, configured@),
{
    let names: String = if configured.len() == 0 {
        "none".to_owned()
    } else {
        let mut ticked: Vec<String> = Vec::new();
        let mut at: usize = 0;
        while at < configured.len()
            invariant
                at <= configured.len(),
                text::views(ticked@) == ticked_names(configured@).take(at as int),
            decreases configured.len() - at,
        {
            let ghost before = ticked@;
            let mut name: String = "`".to_owned();
            name.append(configured[at].as_str());
            name.append("`");
            let ghost added = name@;
            ticked.push(name);
            proof {
                assert(text::views(ticked@) =~= text::views(before).push(added));
                assert(ticked_names(configured@).take(at + 1) =~= ticked_names(configured@).take(
                    at as int,
                ).push(added));
            }
            at += 1;
        }
        proof {
            assert(ticked_names(configured@).take(at as int) =~= ticked_names(configured@));
        }
        text::join(&ticked, ", ")
    };
    let mut line: String =
        "dz-publisher-runtime: the venue offered instruments on `".to_owned();
    line.append(offered);
    line.append(
        "`, which is not a shard this publisher is configured with. They are declined and reach no channel. Configured: ",
    );
    line.append(names.as_str());
    line.append(". Said once for this name however many instruments were offered under it.");
    line
}

/// See [`snapshot_refusal_line`].
pub open spec fn snapshot_refusal_said(
    which: Seq<char>,
    error: SnapshotError,
    counts: SnapshotRefusals,
) -> Option<Seq<char>> {
    if error.is_not_ready() {
        if is_power_of_ten(counts.not_ready as nat) {
            Some(
                "dz-publisher-runtime: "@ + which + " snapshot found a book that is not ready ("@
                    + text::decimal(counts.not_ready as nat) + " so far): "@ + error.shown(),
            )
        } else {
            None
        }
    } else if is_power_of_ten(counts.refused as nat) {
        Some(
            "dz-publisher-runtime: "@ + which + " snapshot was refused ("@ + text::decimal(
                counts.refused as nat,
            ) + " so far): "@ + error.shown(),
        )
    } else {
        None
    }
}

/// What is written of a snapshot that was refused, where its count is worth a
/// line. A book that is not ready is the expected refusal and is worded as one:
/// *never ready* and *not ready yet* read alike, and the count is what separates
/// them.
pub fn snapshot_refusal_line(
    which: &str,
    error: &SnapshotError,
    counts: SnapshotRefusals,
) -> (line: Option<String>)
    ensures
        match snapshot_refusal_said(which@, *error, counts) {
            Some(said) => line matches Some(text) && text@ == said,
            None => line is None,
        },
{
    let mut line: String = "dz-publisher-runtime: ".to_owned();
    line.append(which);
    if error.not_ready() {
        if !worth_a_line(counts.not_ready) {
            return None;
        }
        line.append(" snapshot found a book that is not ready (");
        line.append(text::number(counts.not_ready).as_str());
    } else {
        if !worth_a_line(counts.refused) {
            return None;
        }
        line.append(" snapshot was refused (");
        line.append(text::number(counts.refused).as_str());
    }
    line.append(" so far): ");
    line.append(error.message().as_str());
    Some(line)
}

/// See [`overrun_line`].
pub open spec fn overrun_said(overruns: u64) -> Option<Seq<char>> {
    if is_power_of_ten(overruns as nat) {
        Some(
            "dz-publisher-runtime: the configured snapshot cycles want more snapshots than one process can send ("@
                + text::decimal(overruns as nat)
                + " ticks so far), so every channel is lapping more slowly than its `[[feed]] snapshot_cycle` states"@,
        )
    } else {
        None
    }
}

/// What is written of cycles that cannot be met, where the count of ticks is
/// worth a line.
pub fn overrun_line(overruns: u64) -> (line: Option<String>)
    ensures
        match overrun_said(overruns) {
            Some(said) => line matches Some(text) && text@ == said,
            None => line is None,
        },
{
    if !worth_a_line(overruns) {
        return None;
    }
    let mut line: String =
        "dz-publisher-runtime: the configured snapshot cycles want more snapshots than one process can send (".to_owned();
    line.append(text::number(overruns).as_str());
    line.append(
        " ticks so far), so every channel is lapping more slowly than its `[[feed]] snapshot_cycle` states",
    );
    Some(line)
}

/// See [`give_up_line`].
pub open spec fn give_up_said(connection: Seq<char>, error: Seq<char>) -> Seq<char> {
    "`"@ + connection
        + "` gave up. It is neither the primary nor an upstream partition, so this publisher carries on without it. Nothing retries it: its connection_state stays at 0 until this process is restarted, which is what retries it — and several causes of a fatal error are only fatal for one attempt, a credential path that does not exist yet most of all. "@
        + error
}

/// What is written of a connection that gave up without ending the process.
pub fn give_up_line(connection: &str, error: &str) -> (line: String)
    ensures
        line@ == give_up_said(connection@, error@),
{
    let mut line: String = "`".to_owned();
    line.append(connection);
    line.append(
        "` gave up. It is neither the primary nor an upstream partition, so this publisher carries on without it. Nothing retries it: its connection_state stays at 0 until this process is restarted, which is what retries it — and several causes of a fatal error are only fatal for one attempt, a credential path that does not exist yet most of all. ",
    );
    line.append(error);
    line
}

/// A line, where there is something to say.
pub open spec fn line_if(said: bool, line: Seq<char>) -> Seq<Seq<char>> {
    if said {
        seq![line]
    } else {
        Seq::empty()
    }
}

/// One reason and its count, where it was counted.
pub open spec fn reason_part(reason: Seq<char>, count: u64) -> Seq<Seq<char>> {
    line_if(count > 0, reason + "="@ + text::decimal(count as nat))
}

/// Every reason that was counted, with its count.
pub open spec fn reason_parts(refusals: Refusals) -> Seq<Seq<char>> {
    reason_part("unknown_instrument"@, refusals.unknown_instrument) + reason_part(
        "inexact_contract"@,
        refusals.inexact_contract,
    ) + reason_part("too_precise"@, refusals.too_precise) + reason_part(
        "malformed"@,
        refusals.malformed,
    ) + reason_part("overflow"@, refusals.overflow)
}

fn push_reason(parts: &mut Vec<String>, reason: &str, count: u64)
    ensures
        text::views(final(parts)@) == text::views(old(parts)@) + reason_part(reason@, count),
{
    if count > 0 {
        let mut part: String = reason.to_owned();
        part.append("=");
        part.append(text::number(count).as_str());
        let ghost before = text::views(parts@);
        let ghost added = part@;
        text::push_text(parts, part);
        proof {
            assert(before.push(added) =~= before + seq![added]);
        }
    } else {
        proof {
            assert(text::views(parts@) + Seq::<Seq<char>>::empty() =~= text::views(parts@));
        }
    }
}

fn list_reasons(refusals: &Refusals) -> (parts: Vec<String>)
    ensures
        text::views(parts@) == reason_parts(*refusals),
{
    let mut parts: Vec<String> = Vec::new();
    proof {
        assert(text::views(parts@) + reason_part(
            "unknown_instrument"@,
            refusals.unknown_instrument,
        ) =~= reason_part("unknown_instrument"@, refusals.unknown_instrument));
    }
    push_reason(&mut parts, "unknown_instrument", refusals.unknown_instrument);
    push_reason(&mut parts, "inexact_contract", refusals.inexact_contract);
    push_reason(&mut parts, "too_precise", refusals.too_precise);
    push_reason(&mut parts, "malformed", refusals.malformed);
    push_reason(&mut parts, "overflow", refusals.overflow);
    parts
}

/// A number between two texts.
pub open spec fn counted(before: Seq<char>, count: nat, after: Seq<char>) -> Seq<char> {
    before + text::decimal(count) + after
}

fn counted_line(before: &str, count: u64, after: &str) -> (line: String)
    ensures
        line@ == counted(before@, count as nat, after@),
{
    let mut line: String = before.to_owned();
    line.append(text::number(count).as_str());
    line.append(after);
    line
}

/// What the exit report says of lowering refusals.
pub open spec fn refusals_said(refusals: Refusals) -> Seq<char> {
    counted("dz-publisher-runtime: "@, refusals.sum(), " lowering refusals ("@) + text::joined(
        reason_parts(refusals),
        " "@,
    ) + ")"@
}

/// What the exit report says of snapshots that were not sent.
pub open spec fn snapshots_said(refusals: SnapshotRefusals) -> Seq<char> {
    counted(
        "dz-publisher-runtime: "@,
        (refusals.not_ready + refusals.refused) as nat,
        " snapshots were not sent ("@,
    ) + text::decimal(refusals.refused as nat) + " refused, "@ + text::decimal(
        refusals.not_ready as nat,
    ) + " on a book that was not ready)"@
}

/// What the exit report says of fan-out members that were no longer sent to.
pub open spec fn dropped_said(sinks: Seq<SinkRef>) -> Seq<Seq<char>> {
    Seq::new(
        sinks.len(),
        |i: int| "dz-publisher-runtime: was no longer sending to "@ + label_of(sinks[i]),
    )
}

/// A fan-out member as an operator is shown it.
pub open spec fn label_of(sink: SinkRef) -> Seq<char> {
    SinkRef::shown(sink.spec, sink.port_role, sink.name@)
}

/// What the exit report says of cycles that could not be met.
pub open spec fn overruns_said(overruns: u64) -> Seq<char> {
    counted(
        "dz-publisher-runtime: on "@,
        overruns as nat,
        " ticks the configured `[[feed]] snapshot_cycle` values together asked for more snapshots than one process can send, so every channel lapped more slowly than its own key states. One process serves one periodic snapshot per "@,
    ) + duration::shown(run::TICK_NS as nat) + ", and that budget is shared across every shard"@
}

/// The exit report: a line for everything that was counted.
pub open spec fn report_said(
    publisher: PublisherView,
    adapter_errors: u64,
    counts: Counts,
) -> Seq<Seq<char>> {
    line_if(publisher.refusals.sum() > 0, refusals_said(publisher.refusals)) + line_if(
        publisher.snapshot_refusals.not_ready + publisher.snapshot_refusals.refused > 0,
        snapshots_said(publisher.snapshot_refusals),
    ) + dropped_said(shard::dropped_among(publisher.feeds, publisher.feeds.len())) + line_if(
        publisher.unroutable > 0,
        counted(
            "dz-publisher-runtime: "@,
            publisher.unroutable as nat,
            " events had no feed to carry them"@,
        ),
    ) + line_if(
        adapter_errors > 0,
        counted("dz-publisher-runtime: "@, adapter_errors as nat, " adapter failures"@),
    ) + line_if(publisher.overruns > 0, overruns_said(publisher.overruns)) + line_if(
        counts.declined_unknown_shard > 0,
        counted(
            "dz-publisher-runtime: "@,
            counts.declined_unknown_shard as nat,
            " listings were declined naming a shard this publisher has no channel for; the names are in the lines written when they were first offered"@,
        ),
    ) + line_if(
        counts.declined_shard_restated > 0,
        counted(
            "dz-publisher-runtime: "@,
            counts.declined_shard_restated as nat,
            " re-offers named a different shard for an instrument already published, which stayed on the shard it was admitted to"@,
        ),
    )
}

fn push_line_if(lines: &mut Vec<String>, said: bool, line: String)
    ensures
        text::views(final(lines)@) == text::views(old(lines)@) + line_if(said, line@),
{
    if said {
        let ghost before = text::views(lines@);
        let ghost added = line@;
        text::push_text(lines, line);
        proof {
            assert(before.push(added) =~= before + seq![added]);
        }
    } else {
        proof {
            assert(text::views(lines@) + Seq::<Seq<char>>::empty() =~= text::views(lines@));
        }
    }
}

/// The exit report.
pub fn report(publisher: &Publisher, adapter_errors: u64, counts: &Counts) -> (lines: Vec<String>)
    requires
        publisher@.refusals.sum() <= u64::MAX,
        publisher@.snapshot_refusals.not_ready + publisher@.snapshot_refusals.refused <= u64::MAX,
    ensures
        text::views(lines@) == report_said(publisher@, adapter_errors, *counts),
{
    let mut lines: Vec<String> = Vec::new();
    let refusals: Refusals = publisher.refusals();
    let mut line: String = counted_line(
        "dz-publisher-runtime: ",
        refusals.total(),
        " lowering refusals (",
    );
    line.append(text::join(&list_reasons(&refusals), " ").as_str());
    line.append(")");
    proof {
        assert(text::views(lines@) =~= Seq::<Seq<char>>::empty());
        assert(Seq::<Seq<char>>::empty() + line_if(refusals.sum() > 0, line@) =~= line_if(
            refusals.sum() > 0,
            line@,
        ));
    }
    push_line_if(&mut lines, refusals.total() > 0, line);

    let snapshots: SnapshotRefusals = publisher.snapshot_refusals();
    let mut line: String = counted_line(
        "dz-publisher-runtime: ",
        snapshots.total(),
        " snapshots were not sent (",
    );
    line.append(text::number(snapshots.refused).as_str());
    line.append(" refused, ");
    line.append(text::number(snapshots.not_ready).as_str());
    line.append(" on a book that was not ready)");
    push_line_if(&mut lines, snapshots.total() > 0, line);

    push_dropped(&mut lines, &publisher.dropped_sinks());

    push_line_if(
        &mut lines,
        publisher.unroutable() > 0,
        counted_line(
            "dz-publisher-runtime: ",
            publisher.unroutable(),
            " events had no feed to carry them",
        ),
    );
    push_line_if(
        &mut lines,
        adapter_errors > 0,
        counted_line("dz-publisher-runtime: ", adapter_errors, " adapter failures"),
    );
    let overruns: u64 = publisher.snapshot_schedule_overruns();
    let mut line: String = counted_line(
        "dz-publisher-runtime: on ",
        overruns,
        " ticks the configured `[[feed]] snapshot_cycle` values together asked for more snapshots than one process can send, so every channel lapped more slowly than its own key states. One process serves one periodic snapshot per ",
    );
    line.append(run::tick_interval().shown_text().as_str());
    line.append(", and that budget is shared across every shard");
    push_line_if(&mut lines, overruns > 0, line);
    push_line_if(
        &mut lines,
        counts.declined_unknown_shard > 0,
        counted_line(
            "dz-publisher-runtime: ",
            counts.declined_unknown_shard,
            " listings were declined naming a shard this publisher has no channel for; the names are in the lines written when they were first offered",
        ),
    );
    push_line_if(
        &mut lines,
        counts.declined_shard_restated > 0,
        counted_line(
            "dz-publisher-runtime: ",
            counts.declined_shard_restated,
            " re-offers named a different shard for an instrument already published, which stayed on the shard it was admitted to",
        ),
    );
    lines
}

fn push_dropped(lines: &mut Vec<String>, sinks: &Vec<SinkRef>)
    ensures
        text::views(final(lines)@) == text::views(old(lines)@) + dropped_said(sinks@),
{
    let ghost before = text::views(lines@);
    let mut at: usize = 0;
    proof {
        assert(before + dropped_said(sinks@).take(0) =~= before);
    }
    while at < sinks.len()
        invariant
            at <= sinks.len(),
            text::views(lines@) == before + dropped_said(sinks@).take(at as int),
        decreases sinks.len() - at,
    {
        let mut line: String = "dz-publisher-runtime: was no longer sending to ".to_owned();
        line.append(sinks[at].label().as_str());
        text::push_text(lines, line);
        proof {
            assert(text::views(lines@) =~= before + dropped_said(sinks@).take(at + 1));
        }
        at += 1;
    }
    proof {
        assert(dropped_said(sinks@).take(at as int) =~= dropped_said(sinks@));
    }
}

/// Which fan-out members have been named: each is named once when it is dropped,
/// and when its route goes down and when it comes back, and not in between.
#[derive(Debug)]
pub struct SinkLog {
    named_dropped: Vec<String>,
    named_path_down: Vec<String>,
}

/// A log as values to reason about.
pub struct SinkLogView {
    /// Members named as dropped.
    pub dropped: Seq<Seq<char>>,
    /// Members whose route was down when last looked.
    pub path_down: Seq<Seq<char>>,
}

impl View for SinkLog {
    type V = SinkLogView;

    closed spec fn view(&self) -> SinkLogView {
        SinkLogView {
            dropped: text::views(self.named_dropped@),
            path_down: text::views(self.named_path_down@),
        }
    }
}

/// Fan-out members as an operator is shown them.
pub open spec fn labels(sinks: Seq<SinkRef>) -> Seq<Seq<char>> {
    Seq::new(sinks.len(), |i: int| label_of(sinks[i]))
}

/// What has been named once `seen` have been, those named before first.
pub open spec fn named_after(named: Seq<Seq<char>>, seen: Seq<Seq<char>>) -> Seq<Seq<char>>
    decreases seen.len(),
{
    if seen.len() == 0 {
        named
    } else {
        let before = named_after(named, seen.drop_last());
        if before.contains(seen.last()) {
            before
        } else {
            before.push(seen.last())
        }
    }
}

/// The lines for those of `names` that are in neither of two lists.
pub open spec fn said_of_others(
    names: Seq<Seq<char>>,
    one: Seq<Seq<char>>,
    other: Seq<Seq<char>>,
    before: Seq<char>,
    after: Seq<char>,
) -> Seq<Seq<char>>
    decreases names.len(),
{
    if names.len() == 0 {
        Seq::empty()
    } else {
        said_of_others(names.drop_last(), one, other, before, after) + line_if(
            !one.contains(names.last()) && !other.contains(names.last()),
            before + names.last() + after,
        )
    }
}

/// The lines for what has newly been named.
pub open spec fn said_of_new(named: Seq<Seq<char>>, seen: Seq<Seq<char>>) -> Seq<Seq<char>> {
    Seq::new(
        (named_after(named, seen).len() - named.len()) as nat,
        |i: int|
            "dz-publisher-runtime: no longer sending to "@ + named_after(named, seen)[named.len()
                + i],
    )
}

fn names_it(names: &Vec<String>, name: &String) -> (found: bool)
    ensures
        found == text::views(names@).contains(name@),
{
    let mut at: usize = 0;
    while at < names.len()
        invariant
            at <= names.len(),
            forall|i: int| 0 <= i < at ==> text::views(names@)[i] != name@,
        decreases names.len() - at,
    {
        if text::same(names[at].as_str(), name.as_str()) {
            proof {
                assert(text::views(names@)[at as int] == name@);
            }
            return true;
        }
        at += 1;
    }
    false
}

fn list_labels(sinks: &Vec<SinkRef>) -> (names: Vec<String>)
    ensures
        text::views(names@) == labels(sinks@),
{
    let mut names: Vec<String> = Vec::new();
    let mut at: usize = 0;
    while at < sinks.len()
        invariant
            at <= sinks.len(),
            text::views(names@) == labels(sinks@).take(at as int),
        decreases sinks.len() - at,
    {
        text::push_text(&mut names, sinks[at].label());
        proof {
            assert(labels(sinks@).take(at + 1) =~= labels(sinks@).take(at as int).push(
                label_of(sinks@[at as int]),
            ));
        }
        at += 1;
    }
    proof {
        assert(labels(sinks@).take(at as int) =~= labels(sinks@));
    }
    names
}

fn push_others(
    lines: &mut Vec<String>,
    names: &Vec<String>,
    one: &Vec<String>,
    other: &Vec<String>,
    before: &str,
    after: &str,
)
    ensures
        text::views(final(lines)@) == text::views(old(lines)@) + said_of_others(
            text::views(names@),
            text::views(one@),
            text::views(other@),
            before@,
            after@,
        ),
{
    let ghost start = text::views(lines@);
    let ghost all = text::views(names@);
    let mut at: usize = 0;
    proof {
        assert(all.take(0) =~= Seq::<Seq<char>>::empty());
        assert(start + Seq::<Seq<char>>::empty() =~= start);
    }
    while at < names.len()
        invariant
            at <= names.len(),
            all == text::views(names@),
            text::views(lines@) == start + said_of_others(
                all.take(at as int),
                text::views(one@),
                text::views(other@),
                before@,
                after@,
            ),
        decreases names.len() - at,
    {
        let said: bool = !names_it(one, &names[at]) && !names_it(other, &names[at]);
        let mut line: String = before.to_owned();
        line.append(names[at].as_str());
        line.append(after);
        proof {
            assert(all.take(at + 1).drop_last() =~= all.take(at as int));
            assert(all.take(at + 1).last() == names@[at as int]@);
        }
        let ghost so_far = said_of_others(
            all.take(at as int),
            text::views(one@),
            text::views(other@),
            before@,
            after@,
        );
        let ghost added = line@;
        push_line_if(lines, said, line);
        proof {
            assert(start + so_far + line_if(said, added) =~= start + (so_far + line_if(
                said,
                added,
            )));
        }
        at += 1;
    }
    proof {
        assert(all.take(at as int) =~= all);
    }
}

proof fn naming_only_adds(named: Seq<Seq<char>>, seen: Seq<Seq<char>>)
    ensures
        named_after(named, seen).len() >= named.len(),
        named_after(named, seen).take(named.len() as int) == named,
    decreases seen.len(),
{
    if seen.len() > 0 {
        naming_only_adds(named, seen.drop_last());
        assert(named_after(named, seen).take(named.len() as int) =~= named);
    } else {
        assert(named.take(named.len() as int) =~= named);
    }
}

impl SinkLog {
    /// Nothing named.
    pub fn new() -> (log: Self)
        ensures
            log@.dropped.len() == 0,
            log@.path_down.len() == 0,
    {
        Self { named_dropped: Vec::new(), named_path_down: Vec::new() }
    }

    /// The lines for how the fan-outs stand between two ticks. `held` is how
    /// long a socket is held for its route to return, as an operator is shown
    /// it. A member that is not down any more because it was given up on is
    /// dropped, not back.
    pub fn log(&mut self, dropped: &Vec<SinkRef>, path_down: &Vec<SinkRef>, held: &str) -> (lines:
        Vec<String>)
        ensures
            text::views(lines@) == said_of_new(old(self)@.dropped, labels(dropped@))
                + said_of_others(
                labels(path_down@),
                old(self)@.path_down,
                Seq::empty(),
                "dz-publisher-runtime: the route is down for "@,
                "; holding its socket for up to "@ + held@ + " for the route to return"@,
            ) + said_of_others(
                old(self)@.path_down,
                labels(path_down@),
                labels(dropped@),
                "dz-publisher-runtime: the route is back for "@,
                Seq::empty(),
            ),
            final(self)@ == (SinkLogView {
                dropped: named_after(old(self)@.dropped, labels(dropped@)),
                path_down: labels(path_down@),
            }),
    {
        let ghost named = self@.dropped;
        let gone: Vec<String> = list_labels(dropped);
        let down: Vec<String> = list_labels(path_down);
        let ghost seen = labels(dropped@);
        let mut lines: Vec<String> = Vec::new();
        let mut at: usize = 0;
        proof {
            assert(seen.take(0) =~= Seq::<Seq<char>>::empty());
            assert(text::views(lines@) =~= said_of_new(named, seen.take(0)));
        }
        while at < gone.len()
            invariant
                at <= gone.len(),
                seen == labels(dropped@),
                seen == text::views(gone@),
                named == old(self)@.dropped,
                self@.dropped == named_after(named, seen.take(at as int)),
                self@.path_down == old(self)@.path_down,
                text::views(lines@) == said_of_new(named, seen.take(at as int)),
            decreases gone.len() - at,
        {
            proof {
                assert(seen.take(at + 1).drop_last() =~= seen.take(at as int));
                assert(seen.take(at + 1).last() == gone@[at as int]@);
                naming_only_adds(named, seen.take(at as int));
            }
            if !names_it(&self.named_dropped, &gone[at]) {
                let mut line: String = "dz-publisher-runtime: no longer sending to ".to_owned();
                line.append(gone[at].as_str());
                text::push_text(&mut lines, line);
                text::push_text(&mut self.named_dropped, gone[at].clone());
                proof {
                    assert(text::views(lines@) =~= said_of_new(named, seen.take(at + 1)));
                }
            }
            at += 1;
        }
        proof {
            assert(seen.take(at as int) =~= seen);
        }
        let mut after: String = "; holding its socket for up to ".to_owned();
        after.append(held);
        after.append(" for the route to return");
        let none: Vec<String> = Vec::new();
        proof {
            assert(text::views(none@) =~= Seq::<Seq<char>>::empty());
        }
        push_others(
            &mut lines,
            &down,
            &self.named_path_down,
            &none,
            "dz-publisher-runtime: the route is down for ",
            after.as_str(),
        );
        let nothing: String = String::new();
        push_others(
            &mut lines,
            &self.named_path_down,
            &down,
            &gone,
            "dz-publisher-runtime: the route is back for ",
            nothing.as_str(),
        );
        self.named_path_down = down;
        lines
    }
}

/// A member that has been named as dropped is not named again.
pub proof fn a_dropped_member_is_named_once(named: Seq<Seq<char>>, seen: Seq<Seq<char>>)
    requires
        forall|i: int| 0 <= i < seen.len() ==> named.contains(#[trigger] seen[i]),
    ensures
        named_after(named, seen) == named,
        said_of_new(named, seen).len() == 0,
    decreases seen.len(),
{
    if seen.len() > 0 {
        let before = seen.drop_last();
        assert forall|i: int| 0 <= i < before.len() implies named.contains(
            #[trigger] before[i],
        ) by {
            assert(before[i] == seen[i]);
        }
        a_dropped_member_is_named_once(named, before);
        assert(named.contains(seen[seen.len() - 1]));
    }
}

/// One is worth a line, ten times what is worth one is, and nothing else is: no
/// count that is neither one nor a multiple of ten.
pub proof fn the_counts_worth_a_line(count: nat)
    ensures
        is_power_of_ten(1),
        !is_power_of_ten(0),
        is_power_of_ten(10 * count) <==> is_power_of_ten(count),
        count % 10 != 0 && count != 1 ==> !is_power_of_ten(count),
{
    reveal(vstd::arithmetic::power::pow);
    vstd::arithmetic::power::lemma_pow0(10);
    assert(1 == vstd::arithmetic::power::pow(10, 0));
    assert forall|exponent: nat| 0 < #[trigger] vstd::arithmetic::power::pow(10, exponent) by {
        vstd::arithmetic::power::lemma_pow_positive(10, exponent);
    }
    if count > 0 {
        a_tenth_of_a_power(10 * count);
        assert((10 * count) / 10 == count);
    }
    if is_power_of_ten(count) {
        let exponent = choose|exponent: nat|
            count == #[trigger] vstd::arithmetic::power::pow(10, exponent);
        if exponent > 0 {
            assert(count == 10 * vstd::arithmetic::power::pow(10, (exponent - 1) as nat));
        }
    }
}

/// A name no channel was configured for is shown, and so is every shard that was.
pub proof fn an_unknown_shard_is_shown_beside_the_known(
    offered: Seq<char>,
    configured: Seq<String>,
    at: int,
)
    requires
        0 <= at < configured.len(),
    ensures
        error::stand_in_turn(offered, configured[at]@, unknown_shard_said(offered, configured)),
{
    let said = unknown_shard_said(offered, configured);
    let lead = "dz-publisher-runtime: the venue offered instruments on `"@;
    let between =
        "`, which is not a shard this publisher is configured with. They are declined and reach no channel. Configured: "@;
    let end = ". Said once for this name however many instruments were offered under it."@;
    let (before, after) = text::a_joined_part_stands(ticked_names(configured), ", "@, at);
    assert(ticked_names(configured)[at] == "`"@ + configured[at]@ + "`"@);
    assert(said =~= lead + offered + (between + before + "`"@) + configured[at]@ + ("`"@ + after
        + end));
}

/// A snapshot that was refused is written of where the count it moved is worth a
/// line, with that count and with what was said of it; and the count is that of
/// books that are not ready exactly where this one was not.
pub proof fn a_refused_snapshot_is_written_of(
    which: Seq<char>,
    error: SnapshotError,
    counts: SnapshotRefusals,
)
    ensures
        ({
            let count = if error.is_not_ready() {
                counts.not_ready
            } else {
                counts.refused
            };
            let said = snapshot_refusal_said(which, error, counts);
            &&& said is Some <==> is_power_of_ten(count as nat)
            &&& said is Some ==> error::stand_in_turn(which, text::decimal(count as nat), said->0)
                && error::stand_in_turn(text::decimal(count as nat), error.shown(), said->0)
        }),
{
    let count = if error.is_not_ready() {
        counts.not_ready
    } else {
        counts.refused
    };
    let number = text::decimal(count as nat);
    let lead = "dz-publisher-runtime: "@;
    let said = snapshot_refusal_said(which, error, counts);
    if said is Some {
        let between = if error.is_not_ready() {
            " snapshot found a book that is not ready ("@
        } else {
            " snapshot was refused ("@
        };
        let none = Seq::<char>::empty();
        assert(said->0 =~= lead + which + between + number + (" so far): "@ + error.shown()));
        assert(said->0 =~= (lead + which + between) + number + " so far): "@ + error.shown()
            + none);
    }
}

/// Cycles that cannot be met are written of where the count of ticks is worth a
/// line, with the count.
pub proof fn an_overrun_is_written_of(overruns: u64)
    ensures
        overrun_said(overruns) is Some <==> is_power_of_ten(overruns as nat),
        overrun_said(overruns) matches Some(said) ==> registry::stands_in(
            text::decimal(overruns as nat),
            said,
        ),
{
}

/// A connection that gave up is named, and behind it why.
pub proof fn a_connection_that_gave_up_is_named(connection: Seq<char>, error: Seq<char>)
    ensures
        error::stand_in_turn(connection, error, give_up_said(connection, error)),
{
    let none = Seq::<char>::empty();
    let between =
        "` gave up. It is neither the primary nor an upstream partition, so this publisher carries on without it. Nothing retries it: its connection_state stays at 0 until this process is restarted, which is what retries it \u{2014} and several causes of a fatal error are only fatal for one attempt, a credential path that does not exist yet most of all. "@;
    assert(give_up_said(connection, error) =~= "`"@ + connection + between + error + none);
}

/// A reason is reported exactly where it was counted, and with its count.
pub proof fn a_reason_is_reported_where_it_was_counted(reason: Seq<char>, count: u64)
    ensures
        reason_part(reason, count).len() == if count > 0 {
            1int
        } else {
            0
        },
        count > 0 ==> reason_part(reason, count)[0] == reason + "="@ + text::decimal(count as nat),
{
}

/// Every reason a refusal is counted under is reported where it was counted.
pub proof fn every_reason_is_reported(refusals: Refusals)
    ensures
        refusals.unknown_instrument > 0 ==> reason_parts(refusals).contains(
            "unknown_instrument"@ + "="@ + text::decimal(refusals.unknown_instrument as nat),
        ),
        refusals.inexact_contract > 0 ==> reason_parts(refusals).contains(
            "inexact_contract"@ + "="@ + text::decimal(refusals.inexact_contract as nat),
        ),
        refusals.too_precise > 0 ==> reason_parts(refusals).contains(
            "too_precise"@ + "="@ + text::decimal(refusals.too_precise as nat),
        ),
        refusals.malformed > 0 ==> reason_parts(refusals).contains(
            "malformed"@ + "="@ + text::decimal(refusals.malformed as nat),
        ),
        refusals.overflow > 0 ==> reason_parts(refusals).contains(
            "overflow"@ + "="@ + text::decimal(refusals.overflow as nat),
        ),
{
    let a = reason_part("unknown_instrument"@, refusals.unknown_instrument);
    let b = reason_part("inexact_contract"@, refusals.inexact_contract);
    let c = reason_part("too_precise"@, refusals.too_precise);
    let d = reason_part("malformed"@, refusals.malformed);
    let e = reason_part("overflow"@, refusals.overflow);
    let all = reason_parts(refusals);
    assert(all == a + b + c + d + e);
    if refusals.unknown_instrument > 0 {
        assert(all[0] == a[0]);
    }
    if refusals.inexact_contract > 0 {
        assert(all[a.len() as int] == b[0]);
    }
    if refusals.too_precise > 0 {
        assert(all[(a + b).len() as int] == c[0]);
    }
    if refusals.malformed > 0 {
        assert(all[(a + b + c).len() as int] == d[0]);
    }
    if refusals.overflow > 0 {
        assert(all[(a + b + c + d).len() as int] == e[0]);
    }
}

/// The line on lowering refusals has how many there were and each reason with its
/// count; that on snapshots has how many were not sent, how many of them were
/// refused and how many found a book that was not ready; and that on cycles has on
/// how many ticks they were not met.
pub proof fn what_the_exit_report_counts(
    refusals: Refusals,
    snapshots: SnapshotRefusals,
    overruns: u64,
    at: int,
)
    ensures
        0 <= at < reason_parts(refusals).len() ==> error::stand_in_turn(
            text::decimal(refusals.sum()),
            reason_parts(refusals)[at],
            refusals_said(refusals),
        ),
        error::stand_in_turn(
            text::decimal((snapshots.not_ready + snapshots.refused) as nat),
            text::decimal(snapshots.refused as nat),
            snapshots_said(snapshots),
        ),
        error::stand_in_turn(
            text::decimal(snapshots.refused as nat),
            text::decimal(snapshots.not_ready as nat),
            snapshots_said(snapshots),
        ),
        error::stand_in_turn(
            text::decimal(overruns as nat),
            duration::shown(10_000_000),
            overruns_said(overruns),
        ),
{
    let lead = "dz-publisher-runtime: "@;
    if 0 <= at < reason_parts(refusals).len() {
        let (before, after) = text::a_joined_part_stands(reason_parts(refusals), " "@, at);
        assert(refusals_said(refusals) =~= lead + text::decimal(refusals.sum()) + (
        " lowering refusals ("@ + before) + reason_parts(refusals)[at] + (after + ")"@));
    }
    let all = text::decimal((snapshots.not_ready + snapshots.refused) as nat);
    let refused = text::decimal(snapshots.refused as nat);
    let not_ready = text::decimal(snapshots.not_ready as nat);
    let said = snapshots_said(snapshots);
    assert(said =~= lead + all + " snapshots were not sent ("@ + refused + (" refused, "@
        + not_ready + " on a book that was not ready)"@));
    assert(said =~= (lead + all + " snapshots were not sent ("@) + refused + " refused, "@
        + not_ready + " on a book that was not ready)"@);
}

/// A member that was no longer sent to has a line of its own with what it is shown
/// as, in the order of the members.
pub proof fn every_dropped_member_has_a_line(sinks: Seq<SinkRef>, at: int)
    requires
        0 <= at < sinks.len(),
    ensures
        dropped_said(sinks).len() == sinks.len(),
        registry::stands_in(label_of(sinks[at]), dropped_said(sinks)[at]),
        labels(sinks).len() == sinks.len(),
        labels(sinks)[at] == label_of(sinks[at]),
        label_of(sinks[at]) == SinkRef::shown(
            sinks[at].spec,
            sinks[at].port_role,
            sinks[at].name@,
        ),
{
    let none = Seq::<char>::empty();
    assert(dropped_said(sinks)[at] =~= "dz-publisher-runtime: was no longer sending to "@
        + label_of(sinks[at]) + none);
}

/// One for what was counted, and none for what was not.
pub open spec fn one_if(counted: bool) -> int {
    if counted {
        1
    } else {
        0
    }
}

/// How many lines the exit report has: one for each thing that was counted at all,
/// and one for each member that was no longer sent to.
pub proof fn the_exit_report_is_as_long_as_what_was_counted(
    publisher: PublisherView,
    adapter_errors: u64,
    counts: Counts,
)
    ensures
        report_said(publisher, adapter_errors, counts).len() == shard::dropped_among(
            publisher.feeds,
            publisher.feeds.len(),
        ).len() + one_if(publisher.refusals.sum() > 0) + one_if(
            publisher.snapshot_refusals.not_ready + publisher.snapshot_refusals.refused > 0,
        ) + one_if(publisher.unroutable > 0) + one_if(adapter_errors > 0) + one_if(
            publisher.overruns > 0,
        ) + one_if(counts.declined_unknown_shard > 0) + one_if(counts.declined_shard_restated > 0),
{
}

proof fn either_is_in_both(one: Seq<Seq<char>>, other: Seq<Seq<char>>, line: Seq<char>)
    requires
        one.contains(line) || other.contains(line),
    ensures
        (one + other).contains(line),
{
    if one.contains(line) {
        let i = choose|i: int| 0 <= i < one.len() && one[i] == line;
        assert((one + other)[i] == line);
    } else {
        let i = choose|i: int| 0 <= i < other.len() && other[i] == line;
        assert((one + other)[one.len() + i] == line);
    }
}

proof fn one_of_eight_is_in_all(
    a: Seq<Seq<char>>,
    b: Seq<Seq<char>>,
    c: Seq<Seq<char>>,
    d: Seq<Seq<char>>,
    e: Seq<Seq<char>>,
    f: Seq<Seq<char>>,
    g: Seq<Seq<char>>,
    h: Seq<Seq<char>>,
    line: Seq<char>,
)
    requires
        a.contains(line) || b.contains(line) || c.contains(line) || d.contains(line) || e.contains(
            line,
        ) || f.contains(line) || g.contains(line) || h.contains(line),
    ensures
        (a + b + c + d + e + f + g + h).contains(line),
{
    if a.contains(line) || b.contains(line) {
        either_is_in_both(a, b, line);
    }
    if (a + b).contains(line) || c.contains(line) {
        either_is_in_both(a + b, c, line);
    }
    if (a + b + c).contains(line) || d.contains(line) {
        either_is_in_both(a + b + c, d, line);
    }
    if (a + b + c + d).contains(line) || e.contains(line) {
        either_is_in_both(a + b + c + d, e, line);
    }
    if (a + b + c + d + e).contains(line) || f.contains(line) {
        either_is_in_both(a + b + c + d + e, f, line);
    }
    if (a + b + c + d + e + f).contains(line) || g.contains(line) {
        either_is_in_both(a + b + c + d + e + f, g, line);
    }
    either_is_in_both(a + b + c + d + e + f + g, h, line);
}

/// The exit report has a line for each thing that was counted at all, with its
/// count.
#[verifier::spinoff_prover]
pub proof fn the_exit_report_has_a_line_for_each_count(
    publisher: PublisherView,
    adapter_errors: u64,
    counts: Counts,
)
    ensures
        ({
            let members = shard::dropped_among(publisher.feeds, publisher.feeds.len());
            let lines = report_said(publisher, adapter_errors, counts);
            &&& publisher.refusals.sum() > 0 ==> lines.contains(refusals_said(publisher.refusals))
            &&& publisher.snapshot_refusals.not_ready + publisher.snapshot_refusals.refused > 0
                ==> lines.contains(snapshots_said(publisher.snapshot_refusals))
            &&& publisher.overruns > 0 ==> lines.contains(overruns_said(publisher.overruns))
            &&& publisher.unroutable > 0 ==> lines.contains(
                "dz-publisher-runtime: "@ + text::decimal(publisher.unroutable as nat)
                    + " events had no feed to carry them"@,
            )
            &&& adapter_errors > 0 ==> lines.contains(
                "dz-publisher-runtime: "@ + text::decimal(adapter_errors as nat)
                    + " adapter failures"@,
            )
            &&& counts.declined_unknown_shard > 0 ==> lines.contains(
                "dz-publisher-runtime: "@ + text::decimal(counts.declined_unknown_shard as nat)
                    + " listings were declined naming a shard this publisher has no channel for; the names are in the lines written when they were first offered"@,
            )
            &&& counts.declined_shard_restated > 0 ==> lines.contains(
                "dz-publisher-runtime: "@ + text::decimal(counts.declined_shard_restated as nat)
                    + " re-offers named a different shard for an instrument already published, which stayed on the shard it was admitted to"@,
            )
            &&& forall|i: int|
                0 <= i < members.len() ==> lines.contains(#[trigger] dropped_said(members)[i])
        }),
{
    let members = shard::dropped_among(publisher.feeds, publisher.feeds.len());
    let lines = report_said(publisher, adapter_errors, counts);
    let lead = "dz-publisher-runtime: "@;
    let a = line_if(publisher.refusals.sum() > 0, refusals_said(publisher.refusals));
    let b = line_if(
        publisher.snapshot_refusals.not_ready + publisher.snapshot_refusals.refused > 0,
        snapshots_said(publisher.snapshot_refusals),
    );
    let c = dropped_said(members);
    let d = line_if(
        publisher.unroutable > 0,
        lead + text::decimal(publisher.unroutable as nat) + " events had no feed to carry them"@,
    );
    let e = line_if(
        adapter_errors > 0,
        lead + text::decimal(adapter_errors as nat) + " adapter failures"@,
    );
    let f = line_if(publisher.overruns > 0, overruns_said(publisher.overruns));
    let g = line_if(
        counts.declined_unknown_shard > 0,
        lead + text::decimal(counts.declined_unknown_shard as nat)
            + " listings were declined naming a shard this publisher has no channel for; the names are in the lines written when they were first offered"@,
    );
    let h = line_if(
        counts.declined_shard_restated > 0,
        lead + text::decimal(counts.declined_shard_restated as nat)
            + " re-offers named a different shard for an instrument already published, which stayed on the shard it was admitted to"@,
    );
    assert(lines == a + b + c + d + e + f + g + h);
    if publisher.refusals.sum() > 0 {
        assert(a.contains(a[0]));
        one_of_eight_is_in_all(a, b, c, d, e, f, g, h, a[0]);
    }
    if publisher.snapshot_refusals.not_ready + publisher.snapshot_refusals.refused > 0 {
        assert(b.contains(b[0]));
        one_of_eight_is_in_all(a, b, c, d, e, f, g, h, b[0]);
    }
    if publisher.unroutable > 0 {
        assert(d.contains(d[0]));
        one_of_eight_is_in_all(a, b, c, d, e, f, g, h, d[0]);
    }
    if adapter_errors > 0 {
        assert(e.contains(e[0]));
        one_of_eight_is_in_all(a, b, c, d, e, f, g, h, e[0]);
    }
    if publisher.overruns > 0 {
        assert(f.contains(f[0]));
        one_of_eight_is_in_all(a, b, c, d, e, f, g, h, f[0]);
    }
    if counts.declined_unknown_shard > 0 {
        assert(g.contains(g[0]));
        one_of_eight_is_in_all(a, b, c, d, e, f, g, h, g[0]);
    }
    if counts.declined_shard_restated > 0 {
        assert(h.contains(h[0]));
        one_of_eight_is_in_all(a, b, c, d, e, f, g, h, h[0]);
    }
    assert forall|i: int| 0 <= i < members.len() implies lines.contains(
        #[trigger] dropped_said(members)[i],
    ) by {
        assert(c.contains(c[i]));
        one_of_eight_is_in_all(a, b, c, d, e, f, g, h, c[i]);
    }
}

/// What has been named is what had been and what was seen, each once and none
/// forgotten.
pub proof fn what_was_seen_is_named(named: Seq<Seq<char>>, seen: Seq<Seq<char>>, name: Seq<char>)
    ensures
        named_after(named, seen).contains(name) <==> named.contains(name) || seen.contains(name),
        named.no_duplicates() ==> named_after(named, seen).no_duplicates(),
        named_after(named, seen).len() >= named.len(),
        named_after(named, seen).take(named.len() as int) == named,
    decreases seen.len(),
{
    naming_only_adds(named, seen);
    if seen.len() > 0 {
        let start = seen.drop_last();
        what_was_seen_is_named(named, start, name);
        let before = named_after(named, start);
        let after = named_after(named, seen);
        if seen.contains(name) {
            let i = choose|i: int| 0 <= i < seen.len() && seen[i] == name;
            if i < start.len() {
                assert(start[i] == name);
            }
        }
        if start.contains(name) {
            let i = choose|i: int| 0 <= i < start.len() && start[i] == name;
            assert(seen[i] == name);
        }
        if name == seen.last() {
            assert(seen[seen.len() - 1] == name);
        }
        if !before.contains(seen.last()) {
            assert(after[before.len() as int] == seen.last());
            if before.contains(name) {
                let k = choose|k: int| 0 <= k < before.len() && before[k] == name;
                assert(after[k] == name);
            }
        }
    }
}

/// A line is written for a member that is newly dropped, and for no other.
pub proof fn a_line_is_written_for_each_new_member(
    named: Seq<Seq<char>>,
    seen: Seq<Seq<char>>,
    name: Seq<char>,
)
    requires
        seen.contains(name),
        !named.contains(name),
    ensures
        said_of_new(named, seen).contains("dz-publisher-runtime: no longer sending to "@ + name),
{
    what_was_seen_is_named(named, seen, name);
    let after = named_after(named, seen);
    let k = choose|k: int| 0 <= k < after.len() && after[k] == name;
    if k < named.len() {
        assert(after.take(named.len() as int)[k] == name);
    }
    assert(said_of_new(named, seen)[k - named.len()]
        == "dz-publisher-runtime: no longer sending to "@ + name);
}

/// A name is written of between its two texts exactly where neither list has it.
pub proof fn a_name_is_written_of_where_no_list_has_it(
    names: Seq<Seq<char>>,
    next: Seq<char>,
    one: Seq<Seq<char>>,
    other: Seq<Seq<char>>,
    before: Seq<char>,
    after: Seq<char>,
)
    ensures
        said_of_others(Seq::empty(), one, other, before, after).len() == 0,
        one.contains(next) || other.contains(next) ==> said_of_others(
            names.push(next),
            one,
            other,
            before,
            after,
        ) == said_of_others(names, one, other, before, after),
        !one.contains(next) && !other.contains(next) ==> said_of_others(
            names.push(next),
            one,
            other,
            before,
            after,
        ) == said_of_others(names, one, other, before, after).push(before + next + after),
{
    assert(names.push(next).drop_last() =~= names);
    let so_far = said_of_others(names, one, other, before, after);
    assert(so_far + Seq::<Seq<char>>::empty() =~= so_far);
    assert(so_far + seq![before + next + after] =~= so_far.push(before + next + after));
}

} // verus!
