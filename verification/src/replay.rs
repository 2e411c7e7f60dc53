//! An input that reads recorded payloads instead of a connection.
//!
//! A replay is a transport: it hands payloads over and knows nothing of what
//! they mean. It hands each over once and in name order, and it does not start
//! again: a book that applied one delta twice is nobody's book.

use vstd::prelude::*;
use vstd::string::*;

use crate::command;
use crate::duration::Duration;
use crate::error;
use crate::observer::DisconnectReason;
use crate::registry;
use crate::text;

verus! {

/// How long a replay waits before its first payload, in nanoseconds. A
/// recording has no handshake for reference data to go out during.
pub const SETTLE_NS: u64 = 1_500_000_000;

/// How long a replay waits before its first payload.
pub fn settle() -> (wait: Duration)
    ensures
        wait@ == SETTLE_NS,
{
    Duration::from_nanos(SETTLE_NS)
}

/// Why an input stopped.
#[derive(Debug, PartialEq, Eq)]
pub enum IngressError {
    /// Nothing that is tried again would go otherwise.
    Fatal { detail: String },
    /// The session ended.
    Ended { reason: DisconnectReason, detail: String },
}

/// Why an input stopped, as values to reason about.
pub enum Stopped {
    Fatal { detail: Seq<char> },
    Ended { reason: DisconnectReason, detail: Seq<char> },
}

impl View for IngressError {
    type V = Stopped;

    open spec fn view(&self) -> Stopped {
        match self {
            IngressError::Fatal { detail } => Stopped::Fatal { detail: detail@ },
            IngressError::Ended { reason, detail } => Stopped::Ended {
                reason: *reason,
                detail: detail@,
            },
        }
    }
}

/// A file found in a directory, and what reading it gave: its bytes or why there
/// are none.
#[derive(Debug)]
pub struct Found {
    /// The file's own name.
    pub name: Vec<u8>,
    /// Its path as an operator is shown it.
    pub shown: String,
    pub read: Result<Vec<u8>, String>,
}

/// One recorded payload.
#[derive(Debug)]
pub struct Recorded {
    /// The file's own name, so that a run can say what it replayed.
    pub name: String,
    pub bytes: Vec<u8>,
}

/// What an adapter writes upstream.
#[derive(Debug)]
pub enum UpstreamMessage {
    Text(String),
    Binary(Vec<u8>),
}

/// One payload handed over.
#[derive(Debug)]
pub struct Replayed<'a> {
    pub bytes: &'a Vec<u8>,
    /// Never a receive stamp: a recording carries the venue's clock in its own
    /// bytes, and this process's would be a pretence.
    pub ts_ns: Option<u64>,
    /// What an operator is told of it.
    pub line: String,
}

/// The order of two names by their bytes, shorter first where one is the start
/// of the other.
pub open spec fn name_precedes(left: Seq<u8>, right: Seq<u8>) -> bool
    decreases left.len(),
{
    if right.len() == 0 {
        false
    } else if left.len() == 0 {
        true
    } else if left[0] != right[0] {
        left[0] < right[0]
    } else {
        name_precedes(left.drop_first(), right.drop_first())
    }
}

/// Files in name order.
pub open spec fn in_name_order(files: Seq<Found>) -> bool {
    forall|i: int, j: int|
        0 <= i < j < files.len() ==> !name_precedes(
            (#[trigger] files[j]).name@,
            (#[trigger] files[i]).name@,
        )
}

/// The same files in name order.
pub open spec fn is_ordering(ordered: Seq<Found>, files: Seq<Found>) -> bool {
    &&& ordered.to_multiset() == files.to_multiset()
    &&& in_name_order(ordered)
}

/// What a path and what went wrong with it are told as.
pub open spec fn path_said(path: Seq<char>, error: Seq<char>) -> Seq<char> {
    path + ": "@ + error
}

/// What a path and what went wrong with it are told as.
pub fn path_error(path: &str, error: &str) -> (detail: String)
    ensures
        detail@ == path_said(path@, error@),
{
    let mut detail: String = path.to_owned();
    detail.append(": ");
    detail.append(error);
    detail
}

fn name_before(left: &Vec<u8>, right: &Vec<u8>) -> (yes: bool)
    ensures
        yes == name_precedes(left@, right@),
{
    let mut at: usize = 0;
    proof {
        assert(left@.skip(0) =~= left@);
        assert(right@.skip(0) =~= right@);
    }
    while at < left.len() && at < right.len()
        invariant
            at <= left.len(),
            at <= right.len(),
            name_precedes(left@, right@) == name_precedes(
                left@.skip(at as int),
                right@.skip(at as int),
            ),
        decreases left.len() - at,
    {
        if left[at] != right[at] {
            return left[at] < right[at];
        }
        proof {
            assert(left@.skip(at as int).drop_first() =~= left@.skip(at + 1));
            assert(right@.skip(at as int).drop_first() =~= right@.skip(at + 1));
        }
        at += 1;
    }
    at < right.len()
}

proof fn no_name_precedes_itself(name: Seq<u8>)
    ensures
        !name_precedes(name, name),
    decreases name.len(),
{
    if name.len() > 0 {
        no_name_precedes_itself(name.drop_first());
    }
}

proof fn one_of_two_names_precedes(left: Seq<u8>, right: Seq<u8>)
    requires
        left != right,
    ensures
        name_precedes(left, right) || name_precedes(right, left),
    decreases left.len(),
{
    if left.len() == 0 || right.len() == 0 {
        if left.len() == 0 && right.len() == 0 {
            assert(left =~= right);
        }
    } else if left[0] == right[0] {
        if left.drop_first() == right.drop_first() {
            assert(left =~= seq![left[0]] + left.drop_first());
            assert(right =~= seq![right[0]] + right.drop_first());
        } else {
            one_of_two_names_precedes(left.drop_first(), right.drop_first());
        }
    }
}

proof fn name_order_is_transitive(one: Seq<u8>, two: Seq<u8>, three: Seq<u8>)
    requires
        name_precedes(one, two),
        name_precedes(two, three),
    ensures
        name_precedes(one, three),
    decreases one.len(),
{
    if one.len() > 0 && one[0] == two[0] && two[0] == three[0] {
        name_order_is_transitive(one.drop_first(), two.drop_first(), three.drop_first());
    }
}

proof fn standing_before_is_transitive(one: Seq<u8>, two: Seq<u8>, three: Seq<u8>)
    requires
        !name_precedes(two, one),
        !name_precedes(three, two),
    ensures
        !name_precedes(three, one),
{
    if name_precedes(three, one) && one != two {
        one_of_two_names_precedes(one, two);
        name_order_is_transitive(three, one, two);
    }
}

proof fn inserting_keeps_name_order(files: Seq<Found>, at: int, added: Found)
    requires
        0 <= at <= files.len(),
        in_name_order(files),
        forall|i: int| at <= i < files.len() ==> name_precedes(
            added.name@,
            (#[trigger] files[i]).name@,
        ),
        at > 0 ==> !name_precedes(added.name@, files[at - 1].name@),
    ensures
        in_name_order(files.insert(at, added)),
{
    let after = files.insert(at, added);
    assert forall|i: int, j: int| 0 <= i < j < after.len() implies !name_precedes(
        (#[trigger] after[j]).name@,
        (#[trigger] after[i]).name@,
    ) by {
        if j == at {
            assert(after[i] == files[i]);
            if i < at - 1 {
                standing_before_is_transitive(
                    files[i].name@,
                    files[at - 1].name@,
                    added.name@,
                );
            }
        } else if i == at {
            assert(after[j] == files[j - 1]);
            if name_precedes(files[j - 1].name@, added.name@) {
                name_order_is_transitive(added.name@, files[j - 1].name@, added.name@);
                no_name_precedes_itself(added.name@);
            }
        } else {
            let a = if i < at {
                i
            } else {
                i - 1
            };
            let b = if j < at {
                j
            } else {
                j - 1
            };
            assert(after[i] == files[a] && after[j] == files[b]);
        }
    }
}

fn sort(files: Vec<Found>) -> (ordered: Vec<Found>)
    ensures
        is_ordering(ordered@, files@),
{
    let ghost all = files@;
    let mut rest: Vec<Found> = files;
    let mut ordered: Vec<Found> = Vec::new();
    proof {
        assert(all.take(rest@.len() as int) =~= all);
        assert(all.skip(rest@.len() as int) =~= ordered@);
    }
    while rest.len() > 0
        invariant
            rest@.len() <= all.len(),
            rest@ == all.take(rest@.len() as int),
            in_name_order(ordered@),
            ordered@.to_multiset() == all.skip(rest@.len() as int).to_multiset(),
        decreases rest.len(),
    {
        let ghost before = rest@;
        let last: Option<Found> = rest.pop();
        if let Some(file) = last {
            let mut at: usize = ordered.len();
            while at > 0 && name_before(&file.name, &ordered[at - 1].name)
                invariant
                    at <= ordered.len(),
                    in_name_order(ordered@),
                    forall|i: int| at <= i < ordered.len() ==> name_precedes(
                        file.name@,
                        (#[trigger] ordered@[i]).name@,
                    ),
                decreases at,
            {
                at -= 1;
            }
            let ghost was = ordered@;
            proof {
                inserting_keeps_name_order(was, at as int, file);
                broadcast use vstd::seq_lib::group_to_multiset_ensures;
                let k = rest@.len() as int;
                assert(file == all[k]);
                assert(all.skip(k) =~= seq![file] + all.skip(k + 1));
                assert(all.skip(k) =~= all.skip(k + 1).insert(0, file));
            }
            ordered.insert(at, file);
        }
    }
    proof {
        assert(all.skip(0) =~= all);
    }
    ordered
}

/// What a recording is made of: files in the order they are replayed.
pub open spec fn recorded_as(payloads: Seq<Recorded>, files: Seq<Found>) -> bool {
    &&& payloads.len() == files.len()
    &&& forall|i: int|
        0 <= i < files.len() ==> (#[trigger] files[i]).read is Ok && payloads[i].name@
            == command::lossy(files[i].name@) && payloads[i].bytes@ == files[i].read->Ok_0@
}

/// The first file that could not be read.
pub open spec fn first_unreadable(files: Seq<Found>, at: int) -> bool {
    &&& 0 <= at < files.len()
    &&& files[at].read is Err
    &&& forall|i: int| 0 <= i < at ==> (#[trigger] files[i]).read is Ok
}

/// A transport that hands over recorded payloads, in name order, once.
#[derive(Debug)]
pub struct ReplayInput {
    connection: String,
    payloads: Vec<Recorded>,
    at: usize,
    sent: Vec<String>,
}

/// A replay as values to reason about.
pub struct ReplayView {
    pub connection: Seq<char>,
    pub payloads: Seq<Recorded>,
    /// How many have been handed over.
    pub at: int,
    /// What the adapter wrote upstream.
    pub sent: Seq<Seq<char>>,
}

impl View for ReplayInput {
    type V = ReplayView;

    closed spec fn view(&self) -> ReplayView {
        ReplayView {
            connection: self.connection@,
            payloads: self.payloads@,
            at: self.at as int,
            sent: text::views(self.sent@),
        }
    }
}

/// What is kept of a message the adapter wrote.
pub open spec fn kept_of(message: UpstreamMessage) -> Seq<char> {
    match message {
        UpstreamMessage::Text(written) => written@,
        UpstreamMessage::Binary(bytes) => text::decimal(bytes@.len()) + " binary bytes"@,
    }
}

/// What an operator is told of a payload handed over.
pub open spec fn replayed_said(name: Seq<char>, bytes: nat, left: nat) -> Seq<char> {
    "  replayed "@ + name + " ("@ + text::decimal(bytes) + " bytes), "@ + text::decimal(left)
        + " left"@
}

/// The names of recorded payloads.
pub open spec fn names_of(payloads: Seq<Recorded>) -> Seq<Seq<char>> {
    Seq::new(payloads.len(), |i: int| payloads[i].name@)
}

/// What an operator is told of a replay before it starts.
pub open spec fn replaying_said(replay: ReplayView, path: Seq<char>) -> Seq<char> {
    "replaying "@ + text::decimal((replay.payloads.len() - replay.at) as nat) + " payloads as `"@
        + replay.connection + "` from "@ + path + ": "@ + text::joined(
        names_of(replay.payloads),
        ", "@,
    )
}

impl ReplayInput {
    /// No more payloads are handed over than there are.
    #[verifier::type_invariant]
    spec fn within(self) -> bool {
        self.at <= self.payloads@.len()
    }

    /// A recording, from the files found directly under a directory.
    ///
    /// Name order is the assumption: `10.json` comes before `9.json`.
    ///
    /// # Errors
    ///
    /// [`IngressError::Fatal`] for the first file, in name order, that could not
    /// be read, and for a directory that holds none: no amount of reconnecting
    /// will put a file there.
    pub fn open(connection: &str, dir: &str, files: Vec<Found>) -> (replay: Result<
        Self,
        IngressError,
    >)
        ensures
            match replay {
                Ok(input) => files@.len() > 0 && input@.connection == connection@ && input@.at == 0
                    && input@.sent.len() == 0 && exists|ordered: Seq<Found>| #[trigger]
                    is_ordering(ordered, files@) && recorded_as(input@.payloads, ordered),
                Err(error) => (files@.len() == 0 && error@ == (Stopped::Fatal {
                    detail: dir@ + " holds no payload to replay"@,
                })) || exists|ordered: Seq<Found>, at: int| #[trigger]
                    is_ordering(ordered, files@) && #[trigger] first_unreadable(ordered, at)
                        && error@ == (Stopped::Fatal {
                        detail: path_said(ordered[at].shown@, ordered[at].read->Err_0@),
                    }),
            },
    {
        let ghost all = files@;
        let ordered: Vec<Found> = sort(files);
        proof {
            broadcast use vstd::seq_lib::group_to_multiset_ensures;
            assert(ordered@.len() == ordered@.to_multiset().len());
            assert(all.len() == all.to_multiset().len());
        }
        let mut payloads: Vec<Recorded> = Vec::new();
        let mut at: usize = 0;
        while at < ordered.len()
            invariant
                at <= ordered.len(),
                is_ordering(ordered@, all),
                all == files@,
                recorded_as(payloads@, ordered@.take(at as int)),
                forall|i: int| 0 <= i < at ==> (#[trigger] ordered@[i]).read is Ok,
            decreases ordered.len() - at,
        {
            match &ordered[at].read {
                Ok(bytes) => {
                    let ghost before = payloads@;
                    payloads.push(
                        Recorded {
                            name: command::lossy_text(ordered[at].name.as_slice()),
                            bytes: copy(bytes),
                        },
                    );
                    proof {
                        let part = ordered@.take(at + 1);
                        assert forall|i: int| 0 <= i < part.len() implies (
                        #[trigger] part[i]).read is Ok && payloads@[i].name@ == command::lossy(
                            part[i].name@,
                        ) && payloads@[i].bytes@ == part[i].read->Ok_0@ by {
                            if i < at {
                                assert(part[i] == ordered@.take(at as int)[i]);
                                assert(payloads@[i] == before[i]);
                            }
                        }
                    }
                },
                Err(error) => {
                    proof {
                        assert(first_unreadable(ordered@, at as int));
                    }
                    return Err(
                        IngressError::Fatal {
                            detail: path_error(ordered[at].shown.as_str(), error.as_str()),
                        },
                    );
                },
            }
            at += 1;
        }
        proof {
            assert(ordered@.take(at as int) =~= ordered@);
        }
        if payloads.len() == 0 {
            let mut detail: String = dir.to_owned();
            detail.append(" holds no payload to replay");
            return Err(IngressError::Fatal { detail });
        }
        Ok(Self { connection: connection.to_owned(), payloads, at: 0, sent: Vec::new() })
    }

    /// The connection this stands for.
    pub fn connection(&self) -> (connection: &str)
        ensures
            connection@ == self@.connection,
    {
        self.connection.as_str()
    }

    /// How many payloads are waiting.
    pub fn remaining(&self) -> (count: usize)
        ensures
            count == self@.payloads.len() - self@.at,
    {
        proof {
            use_type_invariant(self);
        }
        self.payloads.len() - self.at
    }

    /// What the adapter wrote upstream, in order.
    pub fn sent(&self) -> (written: &Vec<String>)
        ensures
            text::views(written@) == self@.sent,
    {
        &self.sent
    }

    /// The payloads this will replay, in the order it will replay them.
    pub fn names(&self) -> (names: Vec<String>)
        ensures
            text::views(names@) == names_of(self@.payloads),
    {
        let mut names: Vec<String> = Vec::new();
        let mut at: usize = 0;
        proof {
            assert(text::views(names@) =~= names_of(self@.payloads).take(0));
        }
        while at < self.payloads.len()
            invariant
                at <= self.payloads.len(),
                text::views(names@) == names_of(self@.payloads).take(at as int),
            decreases self.payloads.len() - at,
        {
            text::push_text(&mut names, self.payloads[at].name.clone());
            proof {
                assert(names_of(self@.payloads).take(at + 1) =~= names_of(self@.payloads).take(
                    at as int,
                ).push(self@.payloads[at as int].name@));
            }
            at += 1;
        }
        proof {
            assert(names_of(self@.payloads).take(at as int) =~= names_of(self@.payloads));
        }
        names
    }

    /// What to tell an operator before the replay starts.
    pub fn line(&self, path: &str) -> (line: String)
        ensures
            line@ == replaying_said(self@, path@),
    {
        let mut line: String = "replaying ".to_owned();
        line.append(text::number(self.remaining() as u64).as_str());
        line.append(" payloads as `");
        line.append(self.connection.as_str());
        line.append("` from ");
        line.append(path);
        line.append(": ");
        line.append(text::join(&self.names(), ", ").as_str());
        line
    }

    /// Connect, once the replay has settled.
    ///
    /// # Errors
    ///
    /// [`IngressError::Fatal`] once a payload was handed over: to connect again
    /// would be to replay it.
    pub fn connect(&self) -> (connected: Result<(), IngressError>)
        ensures
            match connected {
                Ok(_) => self@.at <= 0,
                Err(error) => self@.at > 0 && error@ == (Stopped::Fatal {
                    detail: "a replay does not reconnect; its payloads are spent"@,
                }),
            },
    {
        if self.at > 0 {
            return Err(
                IngressError::Fatal {
                    detail: "a replay does not reconnect; its payloads are spent".to_owned(),
                },
            );
        }
        Ok(())
    }

    /// Keep what the adapter wrote. There is nowhere to send it, and a recording
    /// holds whatever the venue answered.
    pub fn send(&mut self, message: UpstreamMessage)
        ensures
            final(self)@ == (ReplayView {
                sent: old(self)@.sent.push(kept_of(message)),
                ..old(self)@
            }),
    {
        proof {
            use_type_invariant(&*self);
        }
        let kept: String = match message {
            UpstreamMessage::Text(written) => written,
            UpstreamMessage::Binary(bytes) => {
                let mut counted: String = text::number(bytes.len() as u64);
                counted.append(" binary bytes");
                counted
            },
        };
        let mut sent: Vec<String> = Vec::new();
        std::mem::swap(&mut sent, &mut self.sent);
        text::push_text(&mut sent, kept);
        self.sent = sent;
    }

    /// Hand over the next payload.
    ///
    /// # Errors
    ///
    /// [`IngressError::Ended`] once every payload was handed over.
    pub fn recv(&mut self) -> (received: Result<Replayed<'_>, IngressError>)
        ensures
            match received {
                Ok(payload) => old(self)@.at < old(self)@.payloads.len() && final(self)@ == (
                ReplayView { at: old(self)@.at + 1, ..old(self)@ }) && *payload.bytes
                    == old(self)@.payloads[old(self)@.at].bytes && payload.ts_ns is None
                    && payload.line@ == replayed_said(
                    old(self)@.payloads[old(self)@.at].name@,
                    old(self)@.payloads[old(self)@.at].bytes@.len(),
                    (old(self)@.payloads.len() - old(self)@.at - 1) as nat,
                ),
                Err(error) => old(self)@.at == old(self)@.payloads.len() && final(self)@
                    == old(self)@ && error@ == (Stopped::Ended {
                    reason: DisconnectReason::RemoteClose,
                    detail: "the recording's "@ + text::decimal(old(self)@.payloads.len())
                        + " payloads are spent"@,
                }),
            },
    {
        proof {
            use_type_invariant(&*self);
        }
        if self.at >= self.payloads.len() {
            let mut detail: String = "the recording's ".to_owned();
            detail.append(text::number(self.payloads.len() as u64).as_str());
            detail.append(" payloads are spent");
            return Err(IngressError::Ended { reason: DisconnectReason::RemoteClose, detail });
        }
        let place: usize = self.at;
        self.at = place + 1;
        let payload: &Recorded = &self.payloads[place];
        let mut line: String = "  replayed ".to_owned();
        line.append(payload.name.as_str());
        line.append(" (");
        line.append(text::number(payload.bytes.len() as u64).as_str());
        line.append(" bytes), ");
        line.append(text::number((self.payloads.len() - self.at) as u64).as_str());
        line.append(" left");
        Ok(Replayed { bytes: &payload.bytes, ts_ns: None, line })
    }
}

fn copy(bytes: &Vec<u8>) -> (copied: Vec<u8>)
    ensures
        copied@ == bytes@,
{
    let copied: Vec<u8> = bytes.clone();
    proof {
        assert(copied@ =~= bytes@);
    }
    copied
}

/// The payloads handed over, in the order they were.
pub open spec fn handed_over(replay: ReplayView) -> Seq<Recorded> {
    replay.payloads.take(replay.at)
}

/// A payload received is the next in name order, is handed over beside all that
/// were before it, and is not handed over again: from then on the replay does
/// not connect, and it ends when everything was handed over once.
pub proof fn each_payload_is_handed_over_once(before: ReplayView, after: ReplayView)
    requires
        0 <= before.at < before.payloads.len(),
        after == (ReplayView { at: before.at + 1, ..before }),
    ensures
        handed_over(after) == handed_over(before).push(before.payloads[before.at]),
        after.at > 0,
        after.at == after.payloads.len() ==> handed_over(after) == before.payloads,
{
    assert(handed_over(after) =~= handed_over(before).push(before.payloads[before.at]));
    if after.at == after.payloads.len() {
        assert(handed_over(after) =~= before.payloads);
    }
}

/// Where no two files share a name there is one order to replay them in.
pub proof fn distinct_names_are_replayed_in_one_order(
    one: Seq<Found>,
    other: Seq<Found>,
    files: Seq<Found>,
)
    requires
        is_ordering(one, files),
        is_ordering(other, files),
        forall|i: int, j: int|
            0 <= i < files.len() && 0 <= j < files.len() && (#[trigger] files[i]).name@ == (
            #[trigger] files[j]).name@ ==> i == j,
    ensures
        one == other,
{
    broadcast use vstd::seq_lib::group_to_multiset_ensures;

    assert forall|a: Found| #[trigger] one.contains(a) implies files.contains(a) by {
        assert(one.to_multiset().count(a) == files.to_multiset().count(a));
    }
    same_order(one, other, files);
}

proof fn same_order(one: Seq<Found>, other: Seq<Found>, files: Seq<Found>)
    requires
        one.to_multiset() == other.to_multiset(),
        in_name_order(one),
        in_name_order(other),
        forall|a: Found| #[trigger] one.contains(a) ==> files.contains(a),
        forall|i: int, j: int|
            0 <= i < files.len() && 0 <= j < files.len() && (#[trigger] files[i]).name@ == (
            #[trigger] files[j]).name@ ==> i == j,
    ensures
        one == other,
    decreases one.len(),
{
    broadcast use vstd::seq_lib::group_to_multiset_ensures;

    assert(one.len() == one.to_multiset().len());
    assert(other.len() == other.to_multiset().len());
    if one.len() == 0 {
        assert(one =~= other);
    } else {
        assert(one.contains(one[0]) && other.contains(other[0]));
        assert(one.to_multiset().count(other[0]) > 0);
        assert(other.to_multiset().count(one[0]) > 0);
        assert(one.contains(other[0]) && other.contains(one[0]));
        let i = choose|i: int| 0 <= i < one.len() && one[i] == other[0];
        let j = choose|j: int| 0 <= j < other.len() && other[j] == one[0];
        no_name_precedes_itself(one[0].name@);
        assert(!name_precedes(one[i].name@, one[0].name@));
        assert(!name_precedes(other[j].name@, other[0].name@));
        if one[0].name@ != other[0].name@ {
            one_of_two_names_precedes(one[0].name@, other[0].name@);
        }
        let a = choose|a: int| 0 <= a < files.len() && files[a] == one[0];
        let b = choose|b: int| 0 <= b < files.len() && files[b] == other[0];
        assert(files[a].name@ == files[b].name@);
        assert(one[0] == other[0]);
        assert(one.remove(0) =~= one.drop_first());
        assert(other.remove(0) =~= other.drop_first());
        assert forall|c: Found| #[trigger] one.drop_first().contains(c) implies files.contains(
            c,
        ) by {
            let k = choose|k: int|
                0 <= k < one.drop_first().len() && one.drop_first()[k] == c;
            assert(one[k + 1] == c);
            assert(one.contains(c));
        }
        same_order(one.drop_first(), other.drop_first(), files);
        assert(one =~= seq![one[0]] + one.drop_first());
        assert(other =~= seq![other[0]] + other.drop_first());
    }
}

/// A replay waits a second and a half before its first payload.
pub proof fn a_replay_settles()
    ensures
        2 * SETTLE_NS == 3_000_000_000,
{
}

/// The first byte two names differ in decides which comes first, and where they
/// differ in none the shorter does.
pub proof fn the_first_byte_that_differs_decides(
    common: Seq<u8>,
    left: Seq<u8>,
    right: Seq<u8>,
)
    requires
        left.len() == 0 || right.len() == 0 || left[0] != right[0],
    ensures
        name_precedes(common + left, common + right) <==> right.len() > 0 && (left.len() == 0
            || left[0] < right[0]),
    decreases common.len(),
{
    let (l, r) = (common + left, common + right);
    if common.len() > 0 {
        let rest = common.drop_first();
        the_first_byte_that_differs_decides(rest, left, right);
        assert(l.drop_first() =~= rest + left);
        assert(r.drop_first() =~= rest + right);
    } else {
        assert(l =~= left);
        assert(r =~= right);
    }
}

/// What is replayed is every file there is, as often as it is there, and a file
/// with an earlier name first; each payload is its file's bytes.
pub proof fn what_is_replayed_is_what_was_recorded(
    payloads: Seq<Recorded>,
    ordered: Seq<Found>,
    files: Seq<Found>,
    one: int,
    other: int,
)
    requires
        is_ordering(ordered, files),
        recorded_as(payloads, ordered),
        0 <= one < payloads.len(),
        0 <= other < payloads.len(),
    ensures
        payloads.len() == files.len(),
        ordered[one].read matches Ok(bytes) && payloads[one].bytes@ == bytes@,
        payloads[one].name@ == command::lossy(ordered[one].name@),
        files.contains(ordered[one]),
        name_precedes(ordered[one].name@, ordered[other].name@) ==> one < other,
{
    broadcast use vstd::seq_lib::group_to_multiset_ensures;

    assert(ordered.len() == ordered.to_multiset().len());
    assert(files.len() == files.to_multiset().len());
    assert(ordered.contains(ordered[one]));
    assert(files.to_multiset().count(ordered[one]) > 0);
    if name_precedes(ordered[one].name@, ordered[other].name@) {
        no_name_precedes_itself(ordered[one].name@);
        if other < one {
            assert(!name_precedes(ordered[one].name@, ordered[other].name@));
        }
    }
}

/// The file a recording is refused for is one that could not be read, and none
/// with an earlier place is.
pub proof fn the_first_unreadable_file_refuses(files: Seq<Found>, one: int, other: int)
    requires
        first_unreadable(files, one),
        0 <= other < files.len(),
        files[other].read is Err,
    ensures
        files[one].read is Err,
        one <= other,
{
}

/// What was written is kept as it was, and of bytes how many there were.
pub proof fn what_was_written_is_kept(written: String, bytes: Vec<u8>)
    ensures
        kept_of(UpstreamMessage::Text(written)) == written@,
        registry::stands_in(
            text::decimal(bytes@.len()),
            kept_of(UpstreamMessage::Binary(bytes)),
        ),
{
    let none = Seq::<char>::empty();
    assert(kept_of(UpstreamMessage::Binary(bytes)) =~= none + text::decimal(bytes@.len())
        + " binary bytes"@);
}

/// An operator is told which payload was handed over, of how many bytes, and how
/// many are left.
pub proof fn an_operator_is_told_of_each_payload(name: Seq<char>, bytes: nat, left: nat)
    ensures
        error::stand_in_turn(name, text::decimal(bytes), replayed_said(name, bytes, left)),
        error::stand_in_turn(
            text::decimal(bytes),
            text::decimal(left),
            replayed_said(name, bytes, left),
        ),
{
    let said = replayed_said(name, bytes, left);
    assert(said =~= "  replayed "@ + name + " ("@ + text::decimal(bytes) + (" bytes), "@
        + text::decimal(left) + " left"@));
    assert(said =~= ("  replayed "@ + name + " ("@) + text::decimal(bytes) + " bytes), "@
        + text::decimal(left) + " left"@);
}

/// An operator is told before a replay how many payloads wait, as which connection
/// and from where, and the name of each of them.
pub proof fn an_operator_is_told_what_will_be_replayed(
    replay: ReplayView,
    path: Seq<char>,
    at: int,
)
    requires
        0 <= replay.at <= replay.payloads.len(),
        0 <= at < replay.payloads.len(),
    ensures
        error::stand_in_turn(
            text::decimal((replay.payloads.len() - replay.at) as nat),
            replay.connection,
            replaying_said(replay, path),
        ),
        error::stand_in_turn(replay.connection, path, replaying_said(replay, path)),
        error::stand_in_turn(path, replay.payloads[at].name@, replaying_said(replay, path)),
{
    let said = replaying_said(replay, path);
    let count = text::decimal((replay.payloads.len() - replay.at) as nat);
    let names = names_of(replay.payloads);
    let all = text::joined(names, ", "@);
    assert(said =~= "replaying "@ + count + " payloads as `"@ + replay.connection + ("` from "@
        + path + ": "@ + all));
    assert(said =~= ("replaying "@ + count + " payloads as `"@) + replay.connection + "` from "@
        + path + (": "@ + all));
    let (before, after) = text::a_joined_part_stands(names, ", "@, at);
    assert(names[at] == replay.payloads[at].name@);
    assert(said =~= ("replaying "@ + count + " payloads as `"@ + replay.connection + "` from "@)
        + path + (": "@ + before) + replay.payloads[at].name@ + after);
}

/// What went wrong with a path is told behind the path.
pub proof fn a_path_is_told_with_what_went_wrong(path: Seq<char>, error: Seq<char>)
    ensures
        error::stand_in_turn(path, error, path_said(path, error)),
{
    let none = Seq::<char>::empty();
    assert(path_said(path, error) =~= none + path + ": "@ + error + none);
}

} // verus!
