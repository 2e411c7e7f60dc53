//! The whole document, and the whole of what it resolves to.

use vstd::prelude::*;
use vstd::string::*;

use crate::address;
use crate::address::Ipv4Addr;
use crate::config;
use crate::config::feeds;
use crate::config::sources;
use crate::config::{
    AdapterConfig,
    EgressPolicy,
    EgressSection,
    Feed,
    FeedSection,
    FeedSpec,
    Ipv4Prefix,
    Kind,
    MetricsSection,
    PortRole,
    RefdataSection,
    ShardName,
    Source,
    SourceRole,
    SourceSection,
};
use crate::duration::Duration;
use crate::error::{Refusal, StartupError};
use crate::table;
use crate::text;

verus! {

/// What a configuration file says.
#[derive(Debug)]
pub struct Document {
    /// The label on every series this process emits.
    pub venue: String,
    pub egress: EgressSection,
    /// One per feed emitted.
    pub feeds: Vec<FeedSection>,
    pub refdata: RefdataSection,
    pub metrics: MetricsSection,
    /// The transport named at `[ingress]`, for a publisher with one source.
    pub ingress_kind: Option<String>,
    /// One per upstream connection; none is one source, named by the transport
    /// the venue builds.
    pub sources: Vec<SourceSection>,
    pub adapter: AdapterConfig,
}

/// What the owners of the document's sections answer for what it says. `P` is
/// the owner's own form of the `[ingress]` section, checked.
#[derive(Debug)]
pub struct Answers<P> {
    /// The prefix `[egress] expected_prefix` names, or why it names none.
    pub expected_prefix: Option<Result<Ipv4Prefix, String>>,
    /// Whether `[refdata.selection]` is a coherent policy, or why it is not.
    pub selection: Result<(), String>,
    /// The transport and the policy of an `[ingress]` that names one.
    pub ingress: Result<(Kind, P), String>,
    /// The policy of an `[ingress]` whose transports are named elsewhere.
    pub policy: Result<P, String>,
    /// The transport each `[[source]]` block's `ingress` names.
    pub kinds: Vec<Result<Kind, String>>,
    /// The role of a `[[source]]` block that states none.
    pub unnamed_role: SourceRole,
}

/// What a publisher runs on: the document, checked.
#[derive(Debug)]
pub struct Config<P> {
    pub venue: String,
    pub egress: EgressPolicy,
    pub feeds: Vec<Feed>,
    pub refdata: RefdataSection,
    pub metrics: MetricsSection,
    /// `None` where the document names its transports per `[[source]]`.
    pub ingress_kind: Option<Kind>,
    pub ingress: P,
    /// Every enabled `[[source]]`. None means one source, named by the
    /// transport the venue builds.
    pub sources: Vec<Source>,
    pub adapter: AdapterConfig,
}

/// The first thing wrong with `[egress]`.
pub open spec fn egress_refusal(
    section: EgressSection,
    prefix: Option<Result<Ipv4Prefix, String>>,
) -> Option<Refusal> {
    if prefix is Some && prefix->0 is Err {
        Some(Refusal::BadPrefix { source: prefix->0->Err_0@ })
    } else if section.pin is Some && address::address_read(section.pin->0@) is None {
        Some(Refusal::NotAnAddress { key: "[egress] pin"@, value: section.pin->0@ })
    } else {
        None
    }
}

/// `[egress]` where nothing is wrong with it.
pub open spec fn egress_policy(
    section: EgressSection,
    prefix: Option<Result<Ipv4Prefix, String>>,
) -> EgressPolicy {
    EgressPolicy {
        pin: match section.pin {
            None => None,
            Some(text) => address::address_read(text@),
        },
        expected_prefix: match prefix {
            None => None,
            Some(named) => Some(named->Ok_0),
        },
        ttl: section.ttl,
    }
}

impl EgressSection {
    /// Check `[egress]`; `prefix` is the prefix its `expected_prefix` names.
    ///
    /// # Errors
    ///
    /// [`StartupError::BadPrefix`], then [`StartupError::NotAnAddress`].
    pub fn resolve(&self, prefix: Option<Result<Ipv4Prefix, String>>) -> (resolved: Result<
        EgressPolicy,
        StartupError,
    >)
        requires
            prefix is Some == self.expected_prefix is Some,
        ensures
            match resolved {
                Ok(policy) => {
                    &&& egress_refusal(*self, prefix) is None
                    &&& policy == egress_policy(*self, prefix)
                },
                Err(error) => egress_refusal(*self, prefix) == Some(error@),
            },
    {
        let expected_prefix: Option<Ipv4Prefix> = match prefix {
            None => None,
            Some(Ok(named)) => Some(named),
            Some(Err(source)) => {
                return Err(StartupError::BadPrefix { source });
            },
        };
        let pin: Option<Ipv4Addr> = match &self.pin {
            None => None,
            Some(text) => match Ipv4Addr::parse(text.as_str()) {
                None => {
                    return Err(
                        StartupError::NotAnAddress { key: "[egress] pin", value: text.clone() },
                    );
                },
                Some(address) => Some(address),
            },
        };
        Ok(EgressPolicy { pin, expected_prefix, ttl: self.ttl })
    }
}

/// What is wrong with one credential: a value that is not a string, or a string
/// of several lines, which is a key somebody pasted in.
pub open spec fn credential_fault(value: Option<Seq<char>>) -> Option<Seq<char>> {
    match value {
        None => Some("not a string"@),
        Some(text) => if text.contains('\n') || text.contains('\r') {
            Some("several lines of text"@)
        } else {
            None
        },
    }
}

/// The first thing wrong with the first `count` entries of a credentials table.
pub open spec fn entries_refusal(
    entries: Seq<(Seq<char>, Option<Seq<char>>)>,
    count: nat,
) -> Option<Refusal>
    decreases count,
{
    if count == 0 {
        None
    } else {
        match entries_refusal(entries, (count - 1) as nat) {
            Some(refusal) => Some(refusal),
            None => match credential_fault(entries[count - 1].1) {
                None => None,
                Some(what) => Some(
                    Refusal::NotACredentialPath { key: entries[count - 1].0, what },
                ),
            },
        }
    }
}

/// The first thing wrong with a credentials table.
pub open spec fn credentials_refusal(
    credentials: toml::map::Map<String, toml::Value>,
) -> Option<Refusal> {
    entries_refusal(table::entries(credentials), table::entries(credentials).len())
}

proof fn a_refused_entry_is_refused(
    entries: Seq<(Seq<char>, Option<Seq<char>>)>,
    start: nat,
    count: nat,
)
    requires
        start <= count,
    ensures
        entries_refusal(entries, start) is Some ==> entries_refusal(entries, count)
            == entries_refusal(entries, start),
    decreases count,
{
    if start < count {
        a_refused_entry_is_refused(entries, start, (count - 1) as nat);
    }
}

/// What is wrong with listed credentials, one by one.
pub fn check_entries(listed: &Vec<(String, Option<String>)>) -> (checked: Result<(), StartupError>)
    ensures
        ({
            let entries = listed@.map_values(
                |entry: (String, Option<String>)| table::entry_view(entry),
            );
            match checked {
                Ok(()) => entries_refusal(entries, entries.len()) is None,
                Err(error) => entries_refusal(entries, entries.len()) == Some(error@),
            }
        }),
{
    let ghost entries = listed@.map_values(
        |entry: (String, Option<String>)| table::entry_view(entry),
    );
    let mut at: usize = 0;
    while at < listed.len()
        invariant
            at <= listed.len(),
            entries == listed@.map_values(
                |entry: (String, Option<String>)| table::entry_view(entry),
            ),
            entries_refusal(entries, at as nat) is None,
        decreases listed.len() - at,
    {
        proof {
            assert(entries[at as int] == table::entry_view(listed@[at as int]));
            a_refused_entry_is_refused(entries, (at + 1) as nat, entries.len());
        }
        match &listed[at].1 {
            None => {
                return Err(
                    StartupError::NotACredentialPath {
                        key: listed[at].0.clone(),
                        what: "not a string",
                    },
                );
            },
            Some(text) => {
                if text::has_char(text.as_str(), '\n') || text::has_char(text.as_str(), '\r') {
                    return Err(
                        StartupError::NotACredentialPath {
                            key: listed[at].0.clone(),
                            what: "several lines of text",
                        },
                    );
                }
            },
        }
        at += 1;
    }
    Ok(())
}

/// The checkable half of *paths only, never inline secrets*.
///
/// # Errors
///
/// [`StartupError::NotACredentialPath`] for the first value that is not one
/// line of text.
pub fn check_credentials(credentials: &toml::map::Map<String, toml::Value>) -> (checked: Result<
    (),
    StartupError,
>)
    ensures
        match checked {
            Ok(()) => credentials_refusal(*credentials) is None,
            Err(error) => credentials_refusal(*credentials) == Some(error@),
        },
{
    check_entries(&table::rows(credentials))
}

/// The first thing wrong with the credentials of the first `count` sources.
pub open spec fn source_credentials_refusal(sources: Seq<Source>, count: nat) -> Option<Refusal>
    decreases count,
{
    if count == 0 {
        None
    } else {
        match source_credentials_refusal(sources, (count - 1) as nat) {
            Some(refusal) => Some(refusal),
            None => credentials_refusal(sources[count - 1].credentials),
        }
    }
}

proof fn a_refused_source_is_refused(sources: Seq<Source>, start: nat, count: nat)
    requires
        start <= count,
    ensures
        source_credentials_refusal(sources, start) is Some ==> source_credentials_refusal(
            sources,
            count,
        ) == source_credentials_refusal(sources, start),
    decreases count,
{
    if start < count {
        a_refused_source_is_refused(sources, start, (count - 1) as nat);
    }
}

fn check_source_credentials(sources: &Vec<Source>) -> (checked: Result<(), StartupError>)
    ensures
        match checked {
            Ok(()) => source_credentials_refusal(sources@, sources@.len()) is None,
            Err(error) => source_credentials_refusal(sources@, sources@.len()) == Some(error@),
        },
{
    let mut at: usize = 0;
    while at < sources.len()
        invariant
            at <= sources.len(),
            source_credentials_refusal(sources@, at as nat) is None,
        decreases sources.len() - at,
    {
        proof {
            a_refused_source_is_refused(sources@, (at + 1) as nat, sources@.len());
        }
        match check_credentials(&sources[at].credentials) {
            Err(error) => {
                return Err(error);
            },
            Ok(()) => {},
        }
        at += 1;
    }
    Ok(())
}

/// The blocks of `sections` that are switched on, in the document's own order.
pub open spec fn enabled_feeds(sections: Seq<FeedSection>) -> Seq<FeedSection>
    decreases sections.len(),
{
    if sections.len() == 0 {
        Seq::empty()
    } else if sections.last().enabled {
        enabled_feeds(sections.drop_last()).push(sections.last())
    } else {
        enabled_feeds(sections.drop_last())
    }
}

fn enabled_only(sections: Vec<FeedSection>) -> (enabled: Vec<FeedSection>)
    ensures
        enabled@ == enabled_feeds(sections@),
{
    let ghost all = sections@;
    let ghost mut done: int = 0;
    let mut left: Vec<FeedSection> = sections;
    let mut enabled: Vec<FeedSection> = Vec::new();
    while left.len() > 0
        invariant
            0 <= done <= all.len(),
            left@ == all.skip(done),
            enabled@ == enabled_feeds(all.take(done)),
        decreases left@.len(),
    {
        proof {
            assert(left@[0] == all[done]);
            assert(all.take(done + 1).drop_last() =~= all.take(done));
            assert(all.take(done + 1).last() == all[done]);
        }
        let section: FeedSection = left.remove(0);
        proof {
            assert(left@ =~= all.skip(done + 1));
            done = done + 1;
        }
        if section.enabled {
            enabled.push(section);
        }
    }
    proof {
        assert(all.take(done) =~= all);
    }
    enabled
}

/// What each block states for the definition cycle.
pub open spec fn stated_cycles(enabled: Seq<FeedSection>) -> Seq<Option<Duration>> {
    Seq::new(enabled.len(), |i: int| enabled[i].definition_cycle)
}

/// What each block states for the idle guard.
pub open spec fn stated_guards(enabled: Seq<FeedSection>) -> Seq<Option<Duration>> {
    Seq::new(enabled.len(), |i: int| enabled[i].idle_guard)
}

/// The first thing wrong with what the document says of transports: one named
/// at `[ingress]` and again per source, or one its owner refuses.
pub open spec fn ingress_refusal<P>(document: Document, answers: Answers<P>) -> Option<Refusal> {
    if document.sources@.len() == 0 {
        if answers.ingress is Err {
            Some(Refusal::Ingress { source: answers.ingress->Err_0@ })
        } else {
            None
        }
    } else if document.ingress_kind is Some {
        Some(
            Refusal::KindNamedTwice {
                document: document.ingress_kind->0@,
                sources: document.sources@.len() as usize,
            },
        )
    } else if answers.policy is Err {
        Some(Refusal::Ingress { source: answers.policy->Err_0@ })
    } else {
        None
    }
}

/// The first thing wrong with a document, in the order an operator hears of
/// them: the feeds before the adapter, because a wrong channel is a conversation
/// with subscribers and a misspelled adapter is a typo.
pub open spec fn document_refusal<P>(document: Document, answers: Answers<P>) -> Option<Refusal> {
    let enabled = enabled_feeds(document.feeds@);
    let cycle = feeds::settled("[[feed]] definition_cycle"@, stated_cycles(enabled));
    let guard = feeds::settled("[[feed]] idle_guard"@, stated_guards(enabled));
    let resolved = sources::sources_of(
        document.sources@,
        answers.kinds@,
        answers.unnamed_role,
        document.sources@.len(),
    );
    if egress_refusal(document.egress, answers.expected_prefix) is Some {
        egress_refusal(document.egress, answers.expected_prefix)
    } else if cycle is Err {
        Some(cycle->Err_0)
    } else if guard is Err {
        Some(guard->Err_0)
    } else if feeds::feeds_refusal(enabled) is Some {
        feeds::feeds_refusal(enabled)
    } else if answers.selection is Err {
        Some(Refusal::Selection { source: answers.selection->Err_0@ })
    } else if ingress_refusal(document, answers) is Some {
        ingress_refusal(document, answers)
    } else if sources::sources_refusal(
        document.sources@,
        answers.kinds@,
        answers.unnamed_role,
    ) is Some {
        sources::sources_refusal(document.sources@, answers.kinds@, answers.unnamed_role)
    } else if credentials_refusal(document.adapter.credentials) is Some {
        credentials_refusal(document.adapter.credentials)
    } else if source_credentials_refusal(resolved, resolved.len()) is Some {
        source_credentials_refusal(resolved, resolved.len())
    } else if document.adapter.tee.enabled && document.adapter.tee.path is None {
        Some(Refusal::TeeWithoutPath)
    } else {
        None
    }
}

/// Whether a configuration is what a document with nothing wrong says.
pub open spec fn is_config_of<P>(
    config: Config<P>,
    document: Document,
    answers: Answers<P>,
) -> bool {
    let enabled = enabled_feeds(document.feeds@);
    let cycle = feeds::settled("[[feed]] definition_cycle"@, stated_cycles(enabled))->Ok_0;
    let guard = feeds::settled("[[feed]] idle_guard"@, stated_guards(enabled))->Ok_0;
    &&& config.venue == document.venue
    &&& config.egress == egress_policy(document.egress, answers.expected_prefix)
    &&& config.feeds@.len() == enabled.len()
    &&& forall|i: int|
        0 <= i < enabled.len() ==> {
            let feed = #[trigger] config.feeds@[i];
            &&& feeds::is_feed_of(feed, enabled[i], feed.definition_cycle, feed.idle_guard)
            &&& feed.definition_cycle@ == match cycle {
                Some(stated) => stated@,
                None => 30_000_000_000,
            }
            &&& feed.idle_guard@ == match guard {
                Some(stated) => stated@,
                None => 60_000_000_000,
            }
        }
    &&& config.refdata == document.refdata
    &&& config.metrics == document.metrics
    &&& if document.sources@.len() == 0 {
        &&& config.ingress_kind == Some(answers.ingress->Ok_0.0)
        &&& config.ingress == answers.ingress->Ok_0.1
    } else {
        &&& config.ingress_kind is None
        &&& config.ingress == answers.policy->Ok_0
    }
    &&& config.sources@ == sources::sources_of(
        document.sources@,
        answers.kinds@,
        answers.unnamed_role,
        document.sources@.len(),
    )
    &&& config.adapter == document.adapter
}

fn list_stated_cycles(enabled: &Vec<FeedSection>) -> (stated: Vec<Option<Duration>>)
    ensures
        stated@ == stated_cycles(enabled@),
{
    let mut stated: Vec<Option<Duration>> = Vec::new();
    let mut at: usize = 0;
    while at < enabled.len()
        invariant
            at <= enabled.len(),
            stated@ == stated_cycles(enabled@).take(at as int),
        decreases enabled.len() - at,
    {
        stated.push(enabled[at].definition_cycle);
        proof {
            assert(stated@ =~= stated_cycles(enabled@).take(at + 1));
        }
        at += 1;
    }
    proof {
        assert(stated_cycles(enabled@).take(at as int) =~= stated_cycles(enabled@));
    }
    stated
}

fn list_stated_guards(enabled: &Vec<FeedSection>) -> (stated: Vec<Option<Duration>>)
    ensures
        stated@ == stated_guards(enabled@),
{
    let mut stated: Vec<Option<Duration>> = Vec::new();
    let mut at: usize = 0;
    while at < enabled.len()
        invariant
            at <= enabled.len(),
            stated@ == stated_guards(enabled@).take(at as int),
        decreases enabled.len() - at,
    {
        stated.push(enabled[at].idle_guard);
        proof {
            assert(stated@ =~= stated_guards(enabled@).take(at + 1));
        }
        at += 1;
    }
    proof {
        assert(stated_guards(enabled@).take(at as int) =~= stated_guards(enabled@));
    }
    stated
}

/// The transports' half of the document: the one kind an `[ingress]` names and
/// its policy, or the policy alone.
fn resolve_ingress<P>(
    kind: &Option<String>,
    sources: usize,
    ingress: Result<(Kind, P), String>,
    policy: Result<P, String>,
) -> (resolved: Result<(Option<Kind>, P), StartupError>)
    ensures
        match resolved {
            Ok((named, settled)) => if sources == 0 {
                ingress matches Ok(pair) && named == Some(pair.0) && settled == pair.1
            } else {
                kind is None && named is None && policy == Ok::<P, String>(settled)
            },
            Err(error) => if sources == 0 {
                ingress matches Err(source) && error@ == (Refusal::Ingress { source: source@ })
            } else if kind is Some {
                error@ == (Refusal::KindNamedTwice { document: kind->0@, sources })
            } else {
                policy matches Err(source) && error@ == (Refusal::Ingress { source: source@ })
            },
        },
{
    if sources == 0 {
        match ingress {
            Err(source) => Err(StartupError::Ingress { source }),
            Ok((kind, policy)) => Ok((Some(kind), policy)),
        }
    } else {
        match kind {
            Some(document) => Err(
                StartupError::KindNamedTwice { document: document.clone(), sources },
            ),
            None => match policy {
                Err(source) => Err(StartupError::Ingress { source }),
                Ok(policy) => Ok((None, policy)),
            },
        }
    }
}

impl Document {
    /// Check every section, each by the answers of whoever owns it.
    ///
    /// # Errors
    ///
    /// The first thing wrong with the document.
    pub fn resolve<P>(self, answers: Answers<P>) -> (resolved: Result<Config<P>, StartupError>)
        requires
            answers.expected_prefix is Some == self.egress.expected_prefix is Some,
            answers.kinds@.len() == self.sources@.len(),
        ensures
            match resolved {
                Ok(config) => {
                    &&& document_refusal(self, answers) is None
                    &&& is_config_of(config, self, answers)
                },
                Err(error) => document_refusal(self, answers) == Some(error@),
            },
    {
        let egress: EgressPolicy = match self.egress.resolve(answers.expected_prefix) {
            Err(error) => {
                return Err(error);
            },
            Ok(policy) => policy,
        };
        let enabled: Vec<FeedSection> = enabled_only(self.feeds);
        let definition_cycle: Duration = match feeds::one_stated(
            "[[feed]] definition_cycle",
            &list_stated_cycles(&enabled),
            feeds::default_definition_cycle(),
        ) {
            Err(error) => {
                return Err(error);
            },
            Ok(cycle) => cycle,
        };
        let idle_guard: Duration = match feeds::one_stated(
            "[[feed]] idle_guard",
            &list_stated_guards(&enabled),
            feeds::default_idle_guard(),
        ) {
            Err(error) => {
                return Err(error);
            },
            Ok(window) => window,
        };
        let feeds: Vec<Feed> = match feeds::resolve_feeds(&enabled, definition_cycle, idle_guard) {
            Err(error) => {
                return Err(error);
            },
            Ok(feeds) => feeds,
        };
        match answers.selection {
            Err(source) => {
                return Err(StartupError::Selection { source });
            },
            Ok(()) => {},
        }
        let (ingress_kind, ingress): (Option<Kind>, P) = match resolve_ingress(
            &self.ingress_kind,
            self.sources.len(),
            answers.ingress,
            answers.policy,
        ) {
            Err(error) => {
                return Err(error);
            },
            Ok(pair) => pair,
        };
        let sources: Vec<Source> = match sources::resolve_sources(
            self.sources,
            answers.kinds,
            answers.unnamed_role,
        ) {
            Err(error) => {
                return Err(error);
            },
            Ok(sources) => sources,
        };
        match check_credentials(&self.adapter.credentials) {
            Err(error) => {
                return Err(error);
            },
            Ok(()) => {},
        }
        match check_source_credentials(&sources) {
            Err(error) => {
                return Err(error);
            },
            Ok(()) => {},
        }
        if self.adapter.tee.enabled && self.adapter.tee.path.is_none() {
            return Err(StartupError::TeeWithoutPath);
        }
        let config: Config<P> = Config {
            venue: self.venue,
            egress,
            feeds,
            refdata: self.refdata,
            metrics: self.metrics,
            ingress_kind,
            ingress,
            sources,
            adapter: self.adapter,
        };
        proof {
            assert forall|i: int| 0 <= i < enabled@.len() implies feeds::is_feed_of(
                #[trigger] config.feeds@[i],
                enabled@[i],
                config.feeds@[i].definition_cycle,
                config.feeds@[i].idle_guard,
            ) && config.feeds@[i].definition_cycle == definition_cycle
                && config.feeds@[i].idle_guard == idle_guard by {
                assert(feeds::is_feed_of(
                    config.feeds@[i],
                    enabled@[i],
                    definition_cycle,
                    idle_guard,
                ));
            }
        }
        Ok(config)
    }
}

/// The values of a sequence, each once, in the order they first occur.
pub open spec fn distinct<T>(values: Seq<T>) -> Seq<T>
    decreases values.len(),
{
    if values.len() == 0 {
        Seq::empty()
    } else {
        let before = distinct(values.drop_last());
        if before.contains(values.last()) {
            before
        } else {
            before.push(values.last())
        }
    }
}

/// The distinct values are all of the values, each once.
pub proof fn distinct_keeps_every_value_once<T>(values: Seq<T>)
    ensures
        forall|value: T| #[trigger] distinct(values).contains(value) <==> values.contains(value),
        forall|i: int, j: int|
            0 <= i < j < distinct(values).len() ==> distinct(values)[i] != distinct(values)[j],
    decreases values.len(),
{
    if values.len() > 0 {
        let start = values.drop_last();
        distinct_keeps_every_value_once(start);
        let before = distinct(start);
        assert forall|value: T| #[trigger] distinct(values).contains(value) <==> values.contains(
            value,
        ) by {
            if values.contains(value) {
                let i = choose|i: int| 0 <= i < values.len() && values[i] == value;
                if i < values.len() - 1 {
                    assert(start[i] == value);
                    assert(start.contains(value));
                    assert(before.contains(value));
                    let k = choose|k: int| 0 <= k < before.len() && before[k] == value;
                    assert(distinct(values)[k] == value);
                } else if !before.contains(value) {
                    assert(distinct(values)[before.len() as int] == value);
                } else {
                    let k = choose|k: int| 0 <= k < before.len() && before[k] == value;
                    assert(distinct(values)[k] == value);
                }
            }
            if distinct(values).contains(value) {
                let k = choose|k: int| 0 <= k < distinct(values).len() && distinct(values)[k]
                    == value;
                if k < before.len() {
                    assert(before[k] == value);
                    assert(before.contains(value));
                    let i = choose|i: int| 0 <= i < start.len() && start[i] == value;
                    assert(values[i] == value);
                } else {
                    assert(values[values.len() - 1] == value);
                }
            }
        }
    }
}

/// The channel ids of a list of feeds.
pub open spec fn channels(feeds: Seq<Feed>) -> Seq<u8> {
    Seq::new(feeds.len(), |i: int| feeds[i].channel_id)
}

/// The specifications of a list of feeds.
pub open spec fn specs(feeds: Seq<Feed>) -> Seq<FeedSpec> {
    Seq::new(feeds.len(), |i: int| feeds[i].spec)
}

/// The shards of a list of feeds.
pub open spec fn shard_names(feeds: Seq<Feed>) -> Seq<Seq<char>> {
    Seq::new(feeds.len(), |i: int| feeds[i].shard@)
}

/// The port roles of the first `count` feeds, one feed's after another's.
pub open spec fn all_roles(feeds: Seq<Feed>, count: nat) -> Seq<PortRole>
    decreases count,
{
    if count == 0 {
        Seq::empty()
    } else {
        all_roles(feeds, (count - 1) as nat) + feeds[count - 1].spec.roles()
    }
}

impl<P> Config<P> {
    /// Every channel id this publisher sends on, in order, each once.
    pub fn channel_ids(&self) -> (ids: Vec<u8>)
        ensures
            forall|i: int, j: int| 0 <= i < j < ids@.len() ==> ids@[i] < ids@[j],
            forall|id: u8| #[trigger] ids@.contains(id) <==> channels(self.feeds@).contains(id),
    {
        let mut ids: Vec<u8> = Vec::new();
        let mut at: usize = 0;
        while at < self.feeds.len()
            invariant
                at <= self.feeds.len(),
                forall|i: int, j: int| 0 <= i < j < ids@.len() ==> ids@[i] < ids@[j],
                forall|id: u8| #[trigger]
                    ids@.contains(id) <==> exists|i: int|
                        0 <= i < at && (#[trigger] self.feeds@[i]).channel_id == id,
            decreases self.feeds.len() - at,
        {
            let id: u8 = self.feeds[at].channel_id;
            let mut place: usize = 0;
            while place < ids.len() && ids[place] < id
                invariant
                    place <= ids.len(),
                    forall|i: int| 0 <= i < place ==> ids@[i] < id,
                decreases ids.len() - place,
            {
                place += 1;
            }
            let ghost before = ids@;
            if place == ids.len() || ids[place] != id {
                ids.insert(place, id);
                proof {
                    assert(ids@[place as int] == id);
                    assert forall|any: u8| before.contains(any) implies ids@.contains(any) by {
                        let i = choose|i: int| 0 <= i < before.len() && before[i] == any;
                        if i < place {
                            assert(ids@[i] == any);
                        } else {
                            assert(ids@[i + 1] == any);
                        }
                    }
                    assert forall|any: u8| ids@.contains(any) implies before.contains(any) || any
                        == id by {
                        let i = choose|i: int| 0 <= i < ids@.len() && ids@[i] == any;
                        if i < place {
                            assert(before[i] == any);
                        } else if i > place {
                            assert(before[i - 1] == any);
                        }
                    }
                }
            } else {
                proof {
                    assert(before[place as int] == id);
                }
            }
            proof {
                assert(forall|any: u8| #[trigger]
                    ids@.contains(any) <==> before.contains(any) || any == id);
                assert forall|any: u8| #[trigger] ids@.contains(any) <==> exists|i: int|
                    0 <= i < at + 1 && (#[trigger] self.feeds@[i]).channel_id == any by {
                    if before.contains(any) {
                        let i = choose|i: int|
                            0 <= i < at && (#[trigger] self.feeds@[i]).channel_id == any;
                        assert(self.feeds@[i].channel_id == any);
                    }
                    if any == id {
                        assert(self.feeds@[at as int].channel_id == any);
                    }
                }
            }
            at += 1;
        }
        proof {
            assert forall|id: u8| #[trigger] ids@.contains(id) <==> channels(
                self.feeds@,
            ).contains(id) by {
                if ids@.contains(id) {
                    let i = choose|i: int|
                        0 <= i < self.feeds@.len() && (#[trigger] self.feeds@[i]).channel_id == id;
                    assert(channels(self.feeds@)[i] == id);
                }
                if channels(self.feeds@).contains(id) {
                    let i = choose|i: int|
                        0 <= i < self.feeds@.len() && channels(self.feeds@)[i] == id;
                    assert(self.feeds@[i].channel_id == id);
                }
            }
        }
        ids
    }

    /// Every enabled feed's specification, each once, in the document's own
    /// order.
    pub fn feed_specs(&self) -> (specs: Vec<FeedSpec>)
        ensures
            specs@ == distinct(self::specs(self.feeds@)),
    {
        let ghost all = self::specs(self.feeds@);
        let mut specs: Vec<FeedSpec> = Vec::new();
        let mut at: usize = 0;
        while at < self.feeds.len()
            invariant
                at <= self.feeds.len(),
                all == self::specs(self.feeds@),
                specs@ == distinct(all.take(at as int)),
            decreases self.feeds.len() - at,
        {
            let spec: FeedSpec = self.feeds[at].spec;
            let mut known: bool = false;
            let mut i: usize = 0;
            while i < specs.len()
                invariant
                    i <= specs.len(),
                    known == exists|k: int| 0 <= k < i && specs@[k] == spec,
                decreases specs.len() - i,
            {
                if specs[i] == spec {
                    known = true;
                }
                i += 1;
            }
            proof {
                assert(all.take(at + 1).drop_last() =~= all.take(at as int));
                assert(known == specs@.contains(spec));
            }
            if !known {
                specs.push(spec);
            }
            at += 1;
        }
        proof {
            assert(all.take(at as int) =~= all);
        }
        specs
    }

    /// The distinct shards this publisher carries, in the document's own order.
    pub fn shards(&self) -> (shards: Vec<ShardName>)
        ensures
            Seq::new(shards@.len(), |i: int| shards@[i]@) == distinct(shard_names(self.feeds@)),
    {
        let ghost all = shard_names(self.feeds@);
        let mut shards: Vec<ShardName> = Vec::new();
        let mut at: usize = 0;
        proof {
            assert(Seq::new(0, |i: int| shards@[i]@) =~= distinct(all.take(0)));
        }
        while at < self.feeds.len()
            invariant
                at <= self.feeds.len(),
                all == shard_names(self.feeds@),
                Seq::new(shards@.len(), |i: int| shards@[i]@) == distinct(all.take(at as int)),
            decreases self.feeds.len() - at,
        {
            let shard: &ShardName = &self.feeds[at].shard;
            let ghost before = Seq::new(shards@.len(), |i: int| shards@[i]@);
            let mut known: bool = false;
            let mut i: usize = 0;
            while i < shards.len()
                invariant
                    i <= shards.len(),
                    known == exists|k: int| 0 <= k < i && (#[trigger] shards@[k])@ == shard@,
                decreases shards.len() - i,
            {
                if shards[i].same_shard(shard) {
                    known = true;
                }
                i += 1;
            }
            proof {
                assert(all.take(at + 1).drop_last() =~= all.take(at as int));
                if known {
                    let k = choose|k: int|
                        0 <= k < shards@.len() && (#[trigger] shards@[k])@ == shard@;
                    assert(before[k] == shard@);
                }
                if before.contains(shard@) {
                    let k = choose|k: int| 0 <= k < before.len() && before[k] == shard@;
                    assert(shards@[k]@ == shard@);
                }
            }
            if !known {
                shards.push(shard.clone());
                proof {
                    assert(Seq::new(shards@.len(), |i: int| shards@[i]@) =~= before.push(shard@));
                }
            }
            at += 1;
        }
        proof {
            assert(all.take(at as int) =~= all);
        }
        shards
    }

    /// Exactly the port roles this publisher operates, across every enabled
    /// feed.
    pub fn port_roles(&self) -> (roles: Vec<PortRole>)
        ensures
            roles@ == distinct(all_roles(self.feeds@, self.feeds@.len())),
    {
        let mut roles: Vec<PortRole> = Vec::new();
        let mut at: usize = 0;
        while at < self.feeds.len()
            invariant
                at <= self.feeds.len(),
                roles@ == distinct(all_roles(self.feeds@, at as nat)),
            decreases self.feeds.len() - at,
        {
            let more: Vec<PortRole> = self.feeds[at].spec.port_roles();
            let ghost start = all_roles(self.feeds@, at as nat);
            let mut i: usize = 0;
            proof {
                assert(start + more@.take(0) =~= start);
            }
            while i < more.len()
                invariant
                    i <= more.len(),
                    roles@ == distinct(start + more@.take(i as int)),
                decreases more.len() - i,
            {
                let mut known: bool = false;
                let mut k: usize = 0;
                while k < roles.len()
                    invariant
                        k <= roles.len(),
                        i < more.len(),
                        known == exists|n: int| 0 <= n < k && roles@[n] == more@[i as int],
                    decreases roles.len() - k,
                {
                    if roles[k] == more[i] {
                        known = true;
                    }
                    k += 1;
                }
                proof {
                    assert((start + more@.take(i + 1)).drop_last() =~= start + more@.take(
                        i as int,
                    ));
                    assert((start + more@.take(i + 1)).last() == more@[i as int]);
                    assert(known == roles@.contains(more@[i as int]));
                }
                if !known {
                    roles.push(more[i]);
                }
                i += 1;
            }
            proof {
                assert(more@.take(i as int) =~= more@);
            }
            at += 1;
        }
        roles
    }
}

} // verus!
