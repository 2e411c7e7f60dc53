//! What holds of every configuration a document resolves to.

use vstd::prelude::*;

use crate::address;
use crate::address::Ipv4Addr;
use crate::config;
use crate::config::document;
use crate::config::document::{Answers, Config, Document};
use crate::config::feeds;
use crate::config::sources;
use crate::config::{
    EgressSection,
    Feed,
    FeedSection,
    FeedSpec,
    Ipv4Prefix,
    Kind,
    PortRole,
    Source,
    SourceRole,
    SourceSection,
};
use crate::error::Refusal;
use crate::table;
use crate::text;

verus! {

/// Whether one feed can be sent: its ports are ports, no two of them the same,
/// its snapshot port is there exactly where its specification carries one, its
/// group is multicast and nothing of it happens at an interval of zero.
pub open spec fn is_sendable(feed: Feed) -> bool {
    &&& feed.mktdata_port != 0
    &&& feed.refdata_port != 0
    &&& feed.mktdata_port != feed.refdata_port
    &&& feed.snapshot_port is Some <==> feed.spec == FeedSpec::MarketByPrice
    &&& feed.snapshot_port matches Some(port) ==> port != 0 && port != feed.mktdata_port && port
        != feed.refdata_port
    &&& feed.snapshot_cycle is Some ==> feed.snapshot_port is Some
    &&& feed.group.multicast()
    &&& feed.heartbeat_interval@ > 0
    &&& feed.manifest_cadence@ > 0
    &&& feed.snapshot_cycle matches Some(cycle) ==> cycle@ > 0
    &&& feed.definition_cycle@ > 0
    &&& feed.idle_guard@ > 0
}

proof fn no_block_is_refused(enabled: Seq<FeedSection>, count: nat, at: int)
    requires
        feeds::blocks_refusal(enabled, count) is None,
        0 <= at < count,
    ensures
        feeds::block_refusal(enabled, at) is None,
    decreases count,
{
    if at < count - 1 {
        no_block_is_refused(enabled, (count - 1) as nat, at);
    }
}

/// Every feed of a resolved configuration can be sent.
pub proof fn every_feed_can_be_sent<P>(
    config: Config<P>,
    document: Document,
    answers: Answers<P>,
    at: int,
)
    requires
        document::document_refusal(document, answers) is None,
        document::is_config_of(config, document, answers),
        0 <= at < config.feeds@.len(),
    ensures
        is_sendable(config.feeds@[at]),
{
    let enabled = document::enabled_feeds(document.feeds@);
    let feed = config.feeds@[at];
    assert(feeds::is_feed_of(feed, enabled[at], feed.definition_cycle, feed.idle_guard));
    no_block_is_refused(enabled, enabled.len(), at);
    assert(FeedSpec::MarketByPrice.roles()[2] == crate::config::PortRole::Snapshot);
    feeds::agreeing_values_settle(
        "[[feed]] definition_cycle"@,
        document::stated_cycles(enabled),
    );
    feeds::agreeing_values_settle("[[feed]] idle_guard"@, document::stated_guards(enabled));
    let cycles = document::stated_cycles(enabled);
    let guards = document::stated_guards(enabled);
    let cycle = feeds::settled("[[feed]] definition_cycle"@, cycles)->Ok_0;
    let guard = feeds::settled("[[feed]] idle_guard"@, guards)->Ok_0;
    if cycle is Some {
        let i = choose|i: int| 0 <= i < cycles.len() && (#[trigger] cycles[i]) is Some;
        assert(cycles[i] == cycle);
    }
    if guard is Some {
        let i = choose|i: int| 0 <= i < guards.len() && (#[trigger] guards[i]) is Some;
        assert(guards[i] == guard);
    }
}

/// Every feed of a resolved configuration has the one definition cycle and the
/// one idle guard, and a value stated in any block is the value of all of them.
pub proof fn one_value_governs_every_feed<P>(
    config: Config<P>,
    document: Document,
    answers: Answers<P>,
    one: int,
    other: int,
)
    requires
        document::document_refusal(document, answers) is None,
        document::is_config_of(config, document, answers),
        0 <= one < config.feeds@.len(),
        0 <= other < config.feeds@.len(),
    ensures
        config.feeds@[one].definition_cycle@ == config.feeds@[other].definition_cycle@,
        config.feeds@[one].idle_guard@ == config.feeds@[other].idle_guard@,
        document::enabled_feeds(document.feeds@)[one].definition_cycle matches Some(stated)
            ==> config.feeds@[other].definition_cycle@ == stated@,
        document::enabled_feeds(document.feeds@)[one].idle_guard matches Some(stated)
            ==> config.feeds@[other].idle_guard@ == stated@,
{
    let enabled = document::enabled_feeds(document.feeds@);
    let cycles = document::stated_cycles(enabled);
    let guards = document::stated_guards(enabled);
    feeds::agreeing_values_settle("[[feed]] definition_cycle"@, cycles);
    feeds::agreeing_values_settle("[[feed]] idle_guard"@, guards);
    assert(cycles[one] == enabled[one].definition_cycle);
    assert(guards[one] == enabled[one].idle_guard);
    let first = config.feeds@[one];
    let second = config.feeds@[other];
    assert(feeds::is_feed_of(first, enabled[one], first.definition_cycle, first.idle_guard));
    assert(feeds::is_feed_of(second, enabled[other], second.definition_cycle, second.idle_guard));
}

/// No two feeds of a resolved configuration are one channel instance, no two
/// share a channel id, and all of them carry one identity.
pub proof fn feeds_are_distinct_and_one_publishers<P>(
    config: Config<P>,
    document: Document,
    answers: Answers<P>,
    one: int,
    other: int,
)
    requires
        document::document_refusal(document, answers) is None,
        document::is_config_of(config, document, answers),
        0 <= one < other < config.feeds@.len(),
    ensures
        feeds::feed_instance(config.feeds@[one]) != feeds::feed_instance(config.feeds@[other]),
        config.feeds@[one].channel_id != config.feeds@[other].channel_id,
        config.feeds@[one].source_id@ == config.feeds@[other].source_id@,
{
    let enabled = document::enabled_feeds(document.feeds@);
    let first = config.feeds@[one];
    let second = config.feeds@[other];
    assert(feeds::is_feed_of(first, enabled[one], first.definition_cycle, first.idle_guard));
    assert(feeds::is_feed_of(second, enabled[other], second.definition_cycle, second.idle_guard));
    no_block_is_refused(enabled, enabled.len(), other);
    if first.channel_id == second.channel_id {
        let found = first_on_channel(enabled, other, one);
        assert(feeds::is_first_on_channel(enabled, other, found));
    }
    one_identity(enabled, one);
    one_identity(enabled, other);
}

proof fn first_on_channel(enabled: Seq<FeedSection>, at: int, upto: int) -> (first: int)
    requires
        0 <= upto < at < enabled.len(),
        enabled[upto].channel_id == enabled[at].channel_id,
    ensures
        feeds::is_first_on_channel(enabled, at, first),
    decreases upto,
{
    if exists|i: int| 0 <= i < upto && (#[trigger] enabled[i]).channel_id == enabled[at].channel_id {
        let i = choose|i: int|
            0 <= i < upto && (#[trigger] enabled[i]).channel_id == enabled[at].channel_id;
        first_on_channel(enabled, at, i)
    } else {
        upto
    }
}

proof fn one_identity(enabled: Seq<FeedSection>, at: int)
    requires
        feeds::feeds_refusal(enabled) is None,
        0 <= at < enabled.len(),
    ensures
        enabled[at].source_id == enabled[0].source_id,
    decreases at,
{
    if enabled[at].source_id != enabled[0].source_id {
        assert forall|i: int| 0 <= i < at implies (#[trigger] enabled[i]).source_id
            == enabled[0].source_id by {
            one_identity(enabled, i);
        }
        assert(feeds::is_first_other_identity(enabled, at));
    }
}

/// Every shard of a resolved configuration carries every specification any
/// shard does, so an instrument admitted to a shard reaches every feed.
pub proof fn every_shard_carries_every_specification<P>(
    config: Config<P>,
    document: Document,
    answers: Answers<P>,
    one: int,
    other: int,
)
    requires
        document::document_refusal(document, answers) is None,
        document::is_config_of(config, document, answers),
        0 <= one < config.feeds@.len(),
        0 <= other < config.feeds@.len(),
    ensures
        feeds::instances(config.feeds@).contains(
            (config.feeds@[one].spec, config.feeds@[other].shard@),
        ),
{
    let enabled = document::enabled_feeds(document.feeds@);
    let carried = Seq::new(enabled.len(), |i: int| feeds::instance_of(enabled[i]));
    assert forall|i: int| 0 <= i < carried.len() implies #[trigger] carried[i] == feeds::instances(
        config.feeds@,
    )[i] by {
        let feed = config.feeds@[i];
        assert(feeds::is_feed_of(feed, enabled[i], feed.definition_cycle, feed.idle_guard));
    }
    assert(carried =~= feeds::instances(config.feeds@));
    feeds::shards_not_refused_carry_the_same(carried);
    assert(carried[one].0 == config.feeds@[one].spec);
    assert(carried[other].1 == config.feeds@[other].shard@);
}

/// A resolved configuration emits something.
pub proof fn something_is_emitted<P>(config: Config<P>, document: Document, answers: Answers<P>)
    requires
        document::document_refusal(document, answers) is None,
        document::is_config_of(config, document, answers),
    ensures
        config.feeds@.len() > 0,
{
}

/// The transport is named once: at `[ingress]` for a document without
/// `[[source]]` blocks, and per block, never in both places, for one with them.
pub proof fn the_transport_is_named_once<P>(
    config: Config<P>,
    document: Document,
    answers: Answers<P>,
)
    requires
        document::document_refusal(document, answers) is None,
        document::is_config_of(config, document, answers),
    ensures
        config.ingress_kind is Some <==> document.sources@.len() == 0,
        config.ingress_kind is Some <==> config.sources@.len() == 0,
        document.sources@.len() > 0 ==> document.ingress_kind is None,
{
    if document.sources@.len() == 0 {
        assert(sources::sources_of(
            document.sources@,
            answers.kinds@,
            answers.unnamed_role,
            0,
        ).len() == 0);
    }
}

/// How many of the first `count` sources are primaries.
pub open spec fn primary_count(sources: Seq<Source>, count: nat) -> nat
    decreases count,
{
    if count == 0 {
        0
    } else {
        primary_count(sources, (count - 1) as nat) + if sources[count - 1].role
            == SourceRole::Primary {
            1nat
        } else {
            0nat
        }
    }
}

proof fn primaries_are_counted(sources: Seq<Source>, count: nat)
    ensures
        sources::primaries(sources, count).len() == primary_count(sources, count),
    decreases count,
{
    if count > 0 {
        primaries_are_counted(sources, (count - 1) as nat);
    }
}

/// A document that names its sources resolves to exactly one primary.
pub proof fn exactly_one_source_publishes<P>(
    config: Config<P>,
    document: Document,
    answers: Answers<P>,
)
    requires
        document::document_refusal(document, answers) is None,
        document::is_config_of(config, document, answers),
        document.sources@.len() > 0,
    ensures
        primary_count(config.sources@, config.sources@.len()) == 1,
{
    primaries_are_counted(config.sources@, config.sources@.len());
}

proof fn no_section_is_refused(
    sections: Seq<SourceSection>,
    kinds: Seq<Result<Kind, String>>,
    count: nat,
    at: int,
)
    requires
        sources::sections_refusal(sections, kinds, count) is None,
        0 <= at < count,
    ensures
        sources::section_refusal(sections, kinds, at) is None,
    decreases count,
{
    if at < count - 1 {
        no_section_is_refused(sections, kinds, (count - 1) as nat, at);
    }
}

/// Where each of the sources comes from, and that the order is the document's.
proof fn sources_come_from_sections(
    sections: Seq<SourceSection>,
    kinds: Seq<Result<Kind, String>>,
    unnamed: SourceRole,
    count: nat,
    at: int,
) -> (from: int)
    requires
        count <= sections.len(),
        0 <= at < sources::sources_of(sections, kinds, unnamed, count).len(),
    ensures
        0 <= from < count,
        sections[from].enabled,
        sources::sources_of(sections, kinds, unnamed, count)[at] == sources::source_of(
            sections[from],
            kinds[from],
            unnamed,
        ),
    decreases count,
{
    let before = sources::sources_of(sections, kinds, unnamed, (count - 1) as nat);
    if at < before.len() {
        sources_come_from_sections(sections, kinds, unnamed, (count - 1) as nat, at)
    } else {
        count - 1
    }
}

/// Two sources of a resolved configuration come from two blocks.
proof fn two_sources_come_from_two_sections(
    sections: Seq<SourceSection>,
    kinds: Seq<Result<Kind, String>>,
    unnamed: SourceRole,
    count: nat,
    one: int,
    other: int,
) -> (from: (int, int))
    requires
        count <= sections.len(),
        0 <= one < other < sources::sources_of(sections, kinds, unnamed, count).len(),
    ensures
        0 <= from.0 < from.1 < count,
        sources::sources_of(sections, kinds, unnamed, count)[one].connection
            == sections[from.0].name,
        sources::sources_of(sections, kinds, unnamed, count)[other].connection
            == sections[from.1].name,
    decreases count,
{
    let before = sources::sources_of(sections, kinds, unnamed, (count - 1) as nat);
    if other < before.len() {
        two_sources_come_from_two_sections(
            sections,
            kinds,
            unnamed,
            (count - 1) as nat,
            one,
            other,
        )
    } else {
        let from = sources_come_from_sections(sections, kinds, unnamed, (count - 1) as nat, one);
        (from, count - 1)
    }
}

/// The names of a resolved configuration's sources are distinct, and each is
/// the label it is written as: not empty, and without white space at its ends.
pub proof fn source_names_are_labels<P>(
    config: Config<P>,
    document: Document,
    answers: Answers<P>,
    one: int,
    other: int,
)
    requires
        document::document_refusal(document, answers) is None,
        document::is_config_of(config, document, answers),
        0 <= one < config.sources@.len(),
        0 <= other < config.sources@.len(),
    ensures
        config.sources@[one].connection@.len() > 0,
        text::trimmed(config.sources@[one].connection@) == config.sources@[one].connection@,
        one != other ==> config.sources@[one].connection@ != config.sources@[other].connection@,
{
    let sections = document.sources@;
    let kinds = answers.kinds@;
    let unnamed = answers.unnamed_role;
    let from = sources_come_from_sections(sections, kinds, unnamed, sections.len(), one);
    no_section_is_refused(sections, kinds, sections.len(), from);
    if one < other {
        let pair = two_sources_come_from_two_sections(
            sections,
            kinds,
            unnamed,
            sections.len(),
            one,
            other,
        );
        no_section_is_refused(sections, kinds, sections.len(), pair.1);
        assert(sections[pair.0].name@ != sections[pair.1].name@);
    } else if other < one {
        let pair = two_sources_come_from_two_sections(
            sections,
            kinds,
            unnamed,
            sections.len(),
            other,
            one,
        );
        no_section_is_refused(sections, kinds, sections.len(), pair.1);
        assert(sections[pair.0].name@ != sections[pair.1].name@);
    }
}

proof fn first_sharing(sources: Seq<Source>, one: int, another: int) -> (first: (int, int))
    requires
        0 <= one < another < sources.len(),
        sources::share_credentials(sources[one], sources[another]),
    ensures
        sources::is_first_sharing(sources, first.0, first.1),
    decreases another, one,
{
    if exists|i: int, j: int|
        0 <= i < j < another && sources::share_credentials(
            #[trigger] sources[i],
            #[trigger] sources[j],
        ) {
        let (i, j) = choose|i: int, j: int|
            0 <= i < j < another && sources::share_credentials(
                #[trigger] sources[i],
                #[trigger] sources[j],
            );
        first_sharing(sources, i, j)
    } else if exists|i: int|
        0 <= i < one && sources::share_credentials(#[trigger] sources[i], sources[another]) {
        let i = choose|i: int|
            0 <= i < one && sources::share_credentials(#[trigger] sources[i], sources[another]);
        first_sharing(sources, i, another)
    } else {
        (one, another)
    }
}

/// No two enabled sources of a resolved configuration share a credential.
pub proof fn no_credential_is_shared<P>(
    config: Config<P>,
    document: Document,
    answers: Answers<P>,
    one: int,
    another: int,
)
    requires
        document::document_refusal(document, answers) is None,
        document::is_config_of(config, document, answers),
        0 <= one < another < config.sources@.len(),
    ensures
        !sources::share_credentials(config.sources@[one], config.sources@[another]),
{
    if document.sources@.len() == 0 {
        assert(sources::sources_of(
            document.sources@,
            answers.kinds@,
            answers.unnamed_role,
            0,
        ).len() == 0);
    }
    if sources::share_credentials(config.sources@[one], config.sources@[another]) {
        let first = first_sharing(config.sources@, one, another);
        assert(sources::is_first_sharing(config.sources@, first.0, first.1));
    }
}

proof fn no_entry_is_refused(
    entries: Seq<(Seq<char>, Option<Seq<char>>)>,
    count: nat,
    at: int,
)
    requires
        document::entries_refusal(entries, count) is None,
        0 <= at < count,
    ensures
        document::credential_fault(entries[at].1) is None,
    decreases count,
{
    if at < count - 1 {
        no_entry_is_refused(entries, (count - 1) as nat, at);
    }
}

proof fn no_source_is_refused(sources: Seq<Source>, count: nat, at: int)
    requires
        document::source_credentials_refusal(sources, count) is None,
        0 <= at < count,
    ensures
        document::credentials_refusal(sources[at].credentials) is None,
    decreases count,
{
    if at < count - 1 {
        no_source_is_refused(sources, (count - 1) as nat, at);
    }
}

/// Whether every value of a table is one line of text.
pub open spec fn holds_single_lines(credentials: toml::map::Map<String, toml::Value>) -> bool {
    forall|i: int|
        0 <= i < table::entries(credentials).len() ==> {
            let value = (#[trigger] table::entries(credentials)[i]).1;
            &&& value is Some
            &&& !value->0.contains('\n')
            &&& !value->0.contains('\r')
        }
}

/// Every credential of a resolved configuration is one line of text.
pub proof fn credentials_are_single_lines<P>(
    config: Config<P>,
    document: Document,
    answers: Answers<P>,
)
    requires
        document::document_refusal(document, answers) is None,
        document::is_config_of(config, document, answers),
    ensures
        holds_single_lines(config.adapter.credentials),
        forall|i: int|
            0 <= i < config.sources@.len() ==> holds_single_lines(
                (#[trigger] config.sources@[i]).credentials,
            ),
{
    let own = table::entries(config.adapter.credentials);
    assert forall|i: int| 0 <= i < own.len() implies document::credential_fault(
        (#[trigger] own[i]).1,
    ) is None by {
        no_entry_is_refused(own, own.len(), i);
    }
    assert forall|i: int| 0 <= i < config.sources@.len() implies holds_single_lines(
        (#[trigger] config.sources@[i]).credentials,
    ) by {
        no_source_is_refused(config.sources@, config.sources@.len(), i);
        let entries = table::entries(config.sources@[i].credentials);
        assert forall|k: int| 0 <= k < entries.len() implies document::credential_fault(
            (#[trigger] entries[k]).1,
        ) is None by {
            no_entry_is_refused(entries, entries.len(), k);
        }
    }
}

/// A fan-out that is switched on names where it goes.
pub proof fn a_tee_that_is_on_has_a_path<P>(
    config: Config<P>,
    document: Document,
    answers: Answers<P>,
)
    requires
        document::document_refusal(document, answers) is None,
        document::is_config_of(config, document, answers),
        config.adapter.tee.enabled,
    ensures
        config.adapter.tee.path is Some,
{
}

/// The egress a publisher runs on is the one the document states: the TTL is the
/// stated one, the pin is the address the stated pin spells, and the prefix is the
/// one that was named.
pub proof fn the_stated_egress_is_used<P>(
    config: Config<P>,
    document: Document,
    answers: Answers<P>,
)
    requires
        document::document_refusal(document, answers) is None,
        document::is_config_of(config, document, answers),
    ensures
        config.egress.ttl == document.egress.ttl,
        document.egress.pin is None ==> config.egress.pin is None,
        document.egress.pin matches Some(stated) ==> config.egress.pin is Some && address::dotted(
            config.egress.pin->0,
        ) == stated@,
        answers.expected_prefix is None ==> config.egress.expected_prefix is None,
        answers.expected_prefix matches Some(named) ==> named is Ok && config.egress.expected_prefix
            == Some(named->Ok_0),
{
    if document.egress.pin is Some {
        address::a_written_address_is_read_back(
            config.egress.pin->0,
            document.egress.pin->0@,
        );
    }
}

/// What a document says of things this library does not check is handed on as it
/// stands: the venue, the reference data, the metrics, the adapter, and the
/// transport as its owner answered.
pub proof fn what_is_not_checked_is_handed_on<P>(
    config: Config<P>,
    document: Document,
    answers: Answers<P>,
)
    requires
        document::document_refusal(document, answers) is None,
        document::is_config_of(config, document, answers),
    ensures
        config.venue == document.venue,
        config.refdata == document.refdata,
        config.metrics == document.metrics,
        config.adapter == document.adapter,
        document.sources@.len() == 0 ==> answers.ingress is Ok && answers.ingress->Ok_0 == (
            config.ingress_kind->0,
            config.ingress,
        ),
        document.sources@.len() > 0 ==> answers.policy == Ok::<P, String>(config.ingress),
{
}

/// Every feed is what its block states, field by field: there is one for each
/// enabled block and in the document's order, and a cadence no block states is
/// thirty seconds for the definitions and sixty for the idle guard.
pub proof fn a_feed_is_what_its_block_states<P>(
    config: Config<P>,
    document: Document,
    answers: Answers<P>,
    at: int,
)
    requires
        document::document_refusal(document, answers) is None,
        document::is_config_of(config, document, answers),
        0 <= at < config.feeds@.len(),
    ensures
        config.feeds@.len() == document::enabled_feeds(document.feeds@).len(),
        ({
            let section = document::enabled_feeds(document.feeds@)[at];
            let feed = config.feeds@[at];
            &&& feed.spec == FeedSpec::TopOfBook ==> section.spec@ == "top-of-book"@
            &&& feed.spec == FeedSpec::MarketByPrice ==> section.spec@ == "market-by-price"@
            &&& section.shard is None ==> feed.shard@ == "default"@
            &&& section.shard matches Some(stated) ==> feed.shard@ == stated@ && stated@
                != "default"@
            &&& feed.channel_id == section.channel_id
            &&& feed.source_id@ == section.source_id
            &&& address::dotted(feed.group) == section.multicast_group@
            &&& feed.mktdata_port == section.mktdata_port
            &&& feed.refdata_port == section.refdata_port
            &&& feed.snapshot_port == section.snapshot_port
            &&& feed.snapshot_cycle == section.snapshot_cycle
            &&& feed.heartbeat_interval == section.heartbeat_interval
            &&& feed.manifest_cadence == section.manifest_cadence
        }),
        (forall|i: int|
            0 <= i < config.feeds@.len() ==> (#[trigger] document::enabled_feeds(
                document.feeds@,
            )[i]).definition_cycle is None) ==> config.feeds@[at].definition_cycle@
            == 30_000_000_000,
        (forall|i: int|
            0 <= i < config.feeds@.len() ==> (#[trigger] document::enabled_feeds(
                document.feeds@,
            )[i]).idle_guard is None) ==> config.feeds@[at].idle_guard@ == 60_000_000_000,
{
    let enabled = document::enabled_feeds(document.feeds@);
    let feed = config.feeds@[at];
    assert(feeds::is_feed_of(feed, enabled[at], feed.definition_cycle, feed.idle_guard));
    no_block_is_refused(enabled, enabled.len(), at);
    address::a_written_address_is_read_back(feed.group, enabled[at].multicast_group@);
    let cycles = document::stated_cycles(enabled);
    let guards = document::stated_guards(enabled);
    feeds::agreeing_values_settle("[[feed]] definition_cycle"@, cycles);
    feeds::agreeing_values_settle("[[feed]] idle_guard"@, guards);
    if forall|i: int| 0 <= i < enabled.len() ==> (#[trigger] enabled[i]).definition_cycle is None {
        assert forall|i: int| 0 <= i < cycles.len() implies (#[trigger] cycles[i]) is None by {
            assert(enabled[i].definition_cycle is None);
        }
    }
    if forall|i: int| 0 <= i < enabled.len() ==> (#[trigger] enabled[i]).idle_guard is None {
        assert forall|i: int| 0 <= i < guards.len() implies (#[trigger] guards[i]) is None by {
            assert(enabled[i].idle_guard is None);
        }
    }
}

/// A block counts exactly where it is switched on, and behind those before it.
pub proof fn a_block_counts_where_it_is_enabled(sections: Seq<FeedSection>, next: FeedSection)
    ensures
        document::enabled_feeds(Seq::empty()).len() == 0,
        next.enabled ==> document::enabled_feeds(sections.push(next)) == document::enabled_feeds(
            sections,
        ).push(next),
        !next.enabled ==> document::enabled_feeds(sections.push(next)) == document::enabled_feeds(
            sections,
        ),
{
    assert(sections.push(next).drop_last() =~= sections);
}

/// Every source is what its block states, field by field, and its block is
/// switched on.
pub proof fn a_source_is_what_its_block_states<P>(
    config: Config<P>,
    document: Document,
    answers: Answers<P>,
    at: int,
) -> (from: int)
    requires
        document::document_refusal(document, answers) is None,
        document::is_config_of(config, document, answers),
        0 <= at < config.sources@.len(),
    ensures
        0 <= from < document.sources@.len(),
        document.sources@[from].enabled,
        ({
            let section = document.sources@[from];
            let source = config.sources@[at];
            &&& source.connection == section.name
            &&& answers.kinds@[from] == Ok::<Kind, String>(source.kind)
            &&& source.upstream == section.upstream
            &&& source.credentials == section.credentials
            &&& section.role is None ==> source.role == answers.unnamed_role
            &&& section.role matches Some(token) ==> match source.role {
                SourceRole::Primary => token@ == "primary"@,
                SourceRole::Comparison => token@ == "comparison"@,
                SourceRole::UpstreamPartition => token@ == "upstream-partition"@,
            }
        }),
{
    let from = sources_come_from_sections(
        document.sources@,
        answers.kinds@,
        answers.unnamed_role,
        document.sources@.len(),
        at,
    );
    no_section_is_refused(document.sources@, answers.kinds@, document.sources@.len(), from);
    from
}

/// Every block that is switched on is a source, and the sources stand in the order
/// of their blocks.
pub proof fn an_enabled_block_is_a_source(
    sections: Seq<SourceSection>,
    kinds: Seq<Result<Kind, String>>,
    unnamed: SourceRole,
    count: nat,
    one: int,
    other: int,
) -> (at: (int, int))
    requires
        count <= sections.len(),
        0 <= one < other < count,
        sections[one].enabled,
        sections[other].enabled,
    ensures
        0 <= at.0 < at.1 < sources::sources_of(sections, kinds, unnamed, count).len(),
        sources::sources_of(sections, kinds, unnamed, count)[at.0].connection == sections[one].name,
        sources::sources_of(sections, kinds, unnamed, count)[at.1].connection
            == sections[other].name,
    decreases count,
{
    let before = sources::sources_of(sections, kinds, unnamed, (count - 1) as nat);
    if other < count - 1 {
        an_enabled_block_is_a_source(sections, kinds, unnamed, (count - 1) as nat, one, other)
    } else {
        (
            one_enabled_block_is_a_source(sections, kinds, unnamed, (count - 1) as nat, one),
            before.len() as int,
        )
    }
}

/// A block that is switched on is a source.
pub proof fn one_enabled_block_is_a_source(
    sections: Seq<SourceSection>,
    kinds: Seq<Result<Kind, String>>,
    unnamed: SourceRole,
    count: nat,
    from: int,
) -> (at: int)
    requires
        count <= sections.len(),
        0 <= from < count,
        sections[from].enabled,
    ensures
        0 <= at < sources::sources_of(sections, kinds, unnamed, count).len(),
        sources::sources_of(sections, kinds, unnamed, count)[at].connection == sections[from].name,
    decreases count,
{
    let before = sources::sources_of(sections, kinds, unnamed, (count - 1) as nat);
    if from < count - 1 {
        one_enabled_block_is_a_source(sections, kinds, unnamed, (count - 1) as nat, from)
    } else {
        before.len() as int
    }
}

/// A block is accepted on its own exactly where a publisher can send what it
/// describes, and it is accepted as it stands.
pub proof fn a_block_is_accepted_where_it_can_be_sent(section: FeedSection, group: Ipv4Addr)
    requires
        section.multicast_group@ == address::dotted(group),
    ensures
        feeds::feed_refusal(section) is None <==> {
            &&& section.spec@ == "top-of-book"@ || section.spec@ == "market-by-price"@
            &&& section.shard matches Some(stated) ==> config::is_shard_name(stated@) && stated@
                != "default"@
            &&& (1 <= section.source_id && section.source_id <= 1023) || section.source_id >= 32768
            &&& 224 <= group.a && group.a <= 239
            &&& section.mktdata_port != 0
            &&& section.refdata_port != 0
            &&& section.mktdata_port != section.refdata_port
            &&& section.snapshot_port is Some <==> section.spec@ == "market-by-price"@
            &&& section.snapshot_port matches Some(port) ==> port != 0 && port
                != section.mktdata_port && port != section.refdata_port
            &&& section.snapshot_cycle is Some ==> section.snapshot_port is Some
            &&& section.snapshot_cycle matches Some(cycle) ==> cycle@ != 0
            &&& section.heartbeat_interval@ != 0
            &&& section.manifest_cadence@ != 0
        },
{
    address::a_written_address_is_read_back(group, section.multicast_group@);
    config::a_token_names_its_specification(section.spec@);
    config::only_a_depth_feed_has_snapshots(FeedSpec::TopOfBook);
    config::only_a_depth_feed_has_snapshots(FeedSpec::MarketByPrice);
    reveal_strlit("top-of-book");
    reveal_strlit("market-by-price");
    assert("top-of-book"@.len() == 11);
    assert("market-by-price"@.len() == 15);
}

/// A group that is no address is refused.
pub proof fn a_group_that_is_no_address_is_refused(section: FeedSection)
    requires
        forall|group: Ipv4Addr| section.multicast_group@ != #[trigger] address::dotted(group),
    ensures
        feeds::feed_refusal(section) is Some,
{
    if address::address_read(section.multicast_group@) is Some {
        let group = address::address_read(section.multicast_group@)->0;
        address::a_written_address_is_read_back(group, section.multicast_group@);
    }
}

/// What a block is refused for is what is wrong with it.
pub proof fn a_block_is_refused_for_what_is_wrong(section: FeedSection)
    ensures
        match feeds::feed_refusal(section) {
            None => true,
            Some(Refusal::UnsupportedFeedSpec { spec, supported }) => spec == section.spec@ && spec
                != "top-of-book"@ && spec != "market-by-price"@ && supported == config::FEED_SPECS@,
            Some(Refusal::UnsafeShardName { spec, shard }) => spec == section.spec@
                && section.shard is Some && section.shard->0@ == shard && !config::is_shard_name(
                shard,
            ),
            Some(Refusal::ReservedShardName { spec, shard }) => spec == section.spec@
                && section.shard is Some && section.shard->0@ == shard && shard == "default"@,
            Some(Refusal::BadSourceId { source_id }) => source_id == section.source_id && (source_id
                == 0 || (1023 < source_id && source_id < 32768)),
            Some(Refusal::NotAnAddress { key, value }) => key == "[[feed]] multicast_group"@ && value
                == section.multicast_group@ && forall|group: Ipv4Addr|
                value != #[trigger] address::dotted(group),
            Some(Refusal::NotMulticast { group }) => section.multicast_group@ == address::dotted(
                group,
            ) && (group.a < 224 || group.a > 239),
            Some(Refusal::ZeroPort { key }) => {
                ||| key == "mktdata_port"@ && section.mktdata_port == 0
                ||| key == "refdata_port"@ && section.refdata_port == 0
                ||| key == "snapshot_port"@ && section.snapshot_port == Some(0u16)
            },
            Some(Refusal::SnapshotPortRequired { spec }) => section.snapshot_port is None && spec
                == "market-by-price"@ && section.spec@ == spec,
            Some(Refusal::SnapshotPortNotCarried { spec, port }) => section.snapshot_port == Some(
                port,
            ) && spec == "top-of-book"@ && section.spec@ == spec,
            Some(Refusal::PortsCollide { left, right, port }) => {
                ||| left == "mktdata_port"@ && right == "refdata_port"@ && section.mktdata_port
                    == port && section.refdata_port == port
                ||| left == "mktdata_port"@ && right == "snapshot_port"@ && section.mktdata_port
                    == port && section.snapshot_port == Some(port)
                ||| left == "refdata_port"@ && right == "snapshot_port"@ && section.refdata_port
                    == port && section.snapshot_port == Some(port)
            },
            Some(Refusal::SnapshotCycleWithoutPort { spec }) => section.snapshot_cycle is Some
                && section.snapshot_port is None && spec == section.spec@,
            Some(Refusal::ZeroDuration { key }) => {
                ||| key == "[[feed]] heartbeat_interval"@ && section.heartbeat_interval@ == 0
                ||| key == "[[feed]] manifest_cadence"@ && section.manifest_cadence@ == 0
                ||| key == "[[feed]] snapshot_cycle"@ && section.snapshot_cycle is Some
                    && section.snapshot_cycle->0@ == 0
            },
            Some(_) => false,
        },
{
    config::a_token_names_its_specification(section.spec@);
    config::only_a_depth_feed_has_snapshots(FeedSpec::TopOfBook);
    config::only_a_depth_feed_has_snapshots(FeedSpec::MarketByPrice);
    let read = address::address_read(section.multicast_group@);
    if read is Some {
        address::a_written_address_is_read_back(read->0, section.multicast_group@);
    } else {
        assert forall|group: Ipv4Addr|
            section.multicast_group@ != #[trigger] address::dotted(group) by {
            address::a_written_address_is_read_back(group, section.multicast_group@);
        }
    }
}

/// Enabled blocks are accepted exactly where each is, no two of them carry one
/// specification on one shard, and no two have one channel.
pub proof fn blocks_are_accepted_where_they_are_distinct(enabled: Seq<FeedSection>, count: nat)
    requires
        count <= enabled.len(),
    ensures
        feeds::blocks_refusal(enabled, count) is None <==> {
            &&& forall|i: int|
                0 <= i < count ==> feeds::feed_refusal(#[trigger] enabled[i]) is None
            &&& forall|i: int, j: int|
                0 <= i < j < count ==> (#[trigger] enabled[i]).channel_id != (
                #[trigger] enabled[j]).channel_id
            &&& forall|i: int, j: int|
                0 <= i < j < count ==> feeds::instance_of(#[trigger] enabled[i])
                    != feeds::instance_of(#[trigger] enabled[j])
        },
    decreases count,
{
    if count > 0 {
        let last = count - 1;
        blocks_are_accepted_where_they_are_distinct(enabled, (count - 1) as nat);
        if feeds::repeats_an_instance(enabled, last) {
            let i = choose|i: int|
                0 <= i < last && feeds::instance_of(#[trigger] enabled[i]) == feeds::instance_of(
                    enabled[last],
                );
            assert(feeds::instance_of(enabled[i]) == feeds::instance_of(enabled[last]));
        }
        if exists|i: int|
            0 <= i < last && (#[trigger] enabled[i]).channel_id == enabled[last].channel_id {
            let i = choose|i: int|
                0 <= i < last && (#[trigger] enabled[i]).channel_id == enabled[last].channel_id;
            let first = first_on_channel(enabled, last, i);
            assert(feeds::is_first_on_channel(enabled, last, first));
        } else if exists|first: int| feeds::is_first_on_channel(enabled, last, first) {
            let first = choose|first: int| feeds::is_first_on_channel(enabled, last, first);
            assert(enabled[first].channel_id == enabled[last].channel_id);
        }
    }
}

/// What a block carries is its specification, on the shard it names or on the
/// default one.
pub proof fn what_a_block_carries(section: FeedSection)
    ensures
        section.spec@ == "top-of-book"@ ==> feeds::instance_of(section).0 == FeedSpec::TopOfBook,
        section.spec@ == "market-by-price"@ ==> feeds::instance_of(section).0
            == FeedSpec::MarketByPrice,
        section.shard is None ==> feeds::instance_of(section).1 == "default"@,
        section.shard matches Some(stated) ==> feeds::instance_of(section).1 == stated@,
{
    config::a_token_names_its_specification(section.spec@);
}

/// Shards that carry the same specifications are not refused, and where they are
/// refused the shard that is named is one and lacks what it is said to.
pub proof fn shards_that_carry_the_same_are_accepted(carried: Seq<(FeedSpec, Seq<char>)>)
    ensures
        (forall|i: int, j: int|
            0 <= i < carried.len() && 0 <= j < carried.len() ==> carried.contains(
                ((#[trigger] carried[i]).0, (#[trigger] carried[j]).1),
            )) ==> feeds::shards_refusal(carried) is None,
        feeds::shards_refusal(carried) matches Some(refusal) ==> refusal matches
            Refusal::ShardSpecsDisagree { shard, spec } && (exists|i: int|
            0 <= i < carried.len() && (#[trigger] carried[i]).1 == shard) && exists|i: int|
            0 <= i < carried.len() && (#[trigger] carried[i]).0.name() == spec
                && !carried.contains((carried[i].0, shard)),
{
    if exists|shard: Seq<char>, spec: FeedSpec| feeds::lacks_first(carried, shard, spec) {
        let (shard, spec) = choose|shard: Seq<char>, spec: FeedSpec|
            feeds::lacks_first(carried, shard, spec);
        let j = choose|j: int| 0 <= j < carried.len() && (#[trigger] carried[j]).1 == shard;
        let i = choose|i: int| 0 <= i < carried.len() && (#[trigger] carried[i]).0 == spec;
        assert(!carried.contains((carried[i].0, carried[j].1)));
        assert(carried[i].0.name() == spec.name());
    }
}

/// The egress section is refused exactly where a named prefix is none or a stated
/// pin is no address, and it says which.
pub proof fn an_egress_is_refused_for_what_is_wrong(
    section: EgressSection,
    prefix: Option<Result<Ipv4Prefix, String>>,
)
    ensures
        document::egress_refusal(section, prefix) is Some <==> {
            ||| prefix is Some && prefix->0 is Err
            ||| section.pin is Some && forall|pin: Ipv4Addr|
                section.pin->0@ != #[trigger] address::dotted(pin)
        },
        document::egress_refusal(section, prefix) matches Some(refusal) ==> match refusal {
            Refusal::BadPrefix { source } => prefix is Some && prefix->0 is Err && source
                == prefix->0->Err_0@,
            Refusal::NotAnAddress { key, value } => key == "[egress] pin"@ && section.pin is Some
                && value == section.pin->0@,
            _ => false,
        },
{
    if section.pin is Some {
        let stated = section.pin->0@;
        let read = address::address_read(stated);
        if read is Some {
            address::a_written_address_is_read_back(read->0, stated);
        } else {
            assert forall|pin: Ipv4Addr| stated != #[trigger] address::dotted(pin) by {
                address::a_written_address_is_read_back(pin, stated);
            }
        }
    }
}

/// A credential is refused exactly where it is not one line of text.
pub proof fn a_credential_is_one_line(text: Seq<char>)
    ensures
        document::credential_fault(None) == Some("not a string"@),
        document::credential_fault(Some(text)) is None <==> forall|i: int|
            0 <= i < text.len() ==> (#[trigger] text[i]) != '\n' && text[i] != '\r',
        document::credential_fault(Some(text)) is Some ==> document::credential_fault(Some(text))
            == Some("several lines of text"@),
{
    if text.contains('\n') {
        let i = choose|i: int| 0 <= i < text.len() && text[i] == '\n';
        assert(text[i] == '\n');
    }
    if text.contains('\r') {
        let i = choose|i: int| 0 <= i < text.len() && text[i] == '\r';
        assert(text[i] == '\r');
    }
    if exists|i: int| 0 <= i < text.len() && ((#[trigger] text[i]) == '\n' || text[i] == '\r') {
        let i = choose|i: int|
            0 <= i < text.len() && ((#[trigger] text[i]) == '\n' || text[i] == '\r');
        assert(text.contains(text[i]));
    }
}

/// A credentials table is refused exactly where one of its entries is, and for one
/// of them.
pub proof fn a_table_is_refused_for_an_entry(
    entries: Seq<(Seq<char>, Option<Seq<char>>)>,
    count: nat,
)
    requires
        count <= entries.len(),
    ensures
        document::entries_refusal(entries, count) is None <==> forall|i: int|
            0 <= i < count ==> document::credential_fault((#[trigger] entries[i]).1) is None,
        document::entries_refusal(entries, count) matches Some(refusal) ==> refusal matches
            Refusal::NotACredentialPath { key, what } && exists|i: int|
            0 <= i < count && (#[trigger] entries[i]).0 == key && document::credential_fault(
                entries[i].1,
            ) == Some(what),
    decreases count,
{
    if count > 0 {
        a_table_is_refused_for_an_entry(entries, (count - 1) as nat);
        if document::entries_refusal(entries, (count - 1) as nat) is None {
            assert(entries[count - 1].1 == entries[count - 1].1);
        }
    }
}

/// A document with one source names its transport at `[ingress]`, and its owner
/// decides; one that names its sources names none there.
pub proof fn a_transport_is_refused_for_what_is_wrong<P>(document: Document, answers: Answers<P>)
    ensures
        document::ingress_refusal(document, answers) is None <==> {
            &&& document.sources@.len() == 0 ==> answers.ingress is Ok
            &&& document.sources@.len() > 0 ==> document.ingress_kind is None && answers.policy is Ok
        },
        document::ingress_refusal(document, answers) matches Some(refusal) ==> match refusal {
            Refusal::KindNamedTwice { document: kind, sources } => document.ingress_kind is Some
                && kind == document.ingress_kind->0@ && document.sources@.len() > 0,
            Refusal::Ingress { source } => {
                ||| document.sources@.len() == 0 && answers.ingress is Err && source
                    == answers.ingress->Err_0@
                ||| document.sources@.len() > 0 && answers.policy is Err && source
                    == answers.policy->Err_0@
            },
            _ => false,
        },
{
}

/// A `[[source]]` block is accepted beside those before it exactly where its name
/// is a label of its own and, if it is switched on, its transport and its role are
/// ones there are; and what it is refused for is what is wrong.
pub proof fn a_source_block_is_refused_for_what_is_wrong(
    sections: Seq<SourceSection>,
    kinds: Seq<Result<Kind, String>>,
    at: int,
)
    requires
        0 <= at < sections.len(),
    ensures
        sources::section_refusal(sections, kinds, at) is None <==> {
            let section = sections[at];
            &&& section.name@.len() > 0
            &&& text::trimmed(section.name@) == section.name@
            &&& forall|i: int| 0 <= i < at ==> (#[trigger] sections[i]).name@ != section.name@
            &&& section.enabled ==> {
                &&& kinds[at] is Ok
                &&& section.role matches Some(token) ==> token@ == "primary"@ || token@
                    == "comparison"@ || token@ == "upstream-partition"@
            }
        },
        sources::section_refusal(sections, kinds, at) matches Some(refusal) ==> match refusal {
            Refusal::UnnamedSource => text::trimmed(sections[at].name@).len() == 0,
            Refusal::SourceNameNotTrimmed { name, trimmed } => name == sections[at].name@ && trimmed
                == text::trimmed(name) && trimmed != name,
            Refusal::DuplicateSourceName { name } => name == sections[at].name@ && exists|i: int|
                0 <= i < at && (#[trigger] sections[i]).name@ == name,
            Refusal::Ingress { source } => sections[at].enabled && kinds[at] is Err && source
                == kinds[at]->Err_0@,
            Refusal::UnknownSourceRole { token, supported } => sections[at].enabled
                && sections[at].role is Some && token == sections[at].role->0@ && supported
                == config::SOURCE_ROLES@,
            _ => false,
        },
{
    if sections[at].role is Some {
        config::a_token_names_its_role(sections[at].role->0@);
    }
}

/// The blocks are accepted exactly where each is.
pub proof fn every_source_block_is_asked(
    sections: Seq<SourceSection>,
    kinds: Seq<Result<Kind, String>>,
    count: nat,
)
    requires
        count <= sections.len(),
    ensures
        sources::sections_refusal(sections, kinds, count) is None <==> forall|i: int|
            0 <= i < count ==> sources::section_refusal(sections, kinds, i) is None,
    decreases count,
{
    if count > 0 {
        every_source_block_is_asked(sections, kinds, (count - 1) as nat);
    }
}

/// Sources are accepted together exactly where one of them publishes and no two of
/// them share a credential.
pub proof fn sources_are_accepted_where_one_publishes(sources: Seq<Source>)
    ensures
        sources::together_refusal(sources) is None <==> {
            &&& primary_count(sources, sources.len()) == 1
            &&& forall|i: int, j: int|
                0 <= i < j < sources.len() ==> !sources::share_credentials(
                    #[trigger] sources[i],
                    #[trigger] sources[j],
                )
        },
        sources::together_refusal(sources) matches Some(Refusal::SourcePrimaries { primaries })
            ==> primary_count(sources, sources.len()) != 1,
{
    primaries_are_counted(sources, sources.len());
    if exists|one: int, another: int| sources::is_first_sharing(sources, one, another) {
        let (one, another) = choose|one: int, another: int|
            sources::is_first_sharing(sources, one, another);
        assert(sources::share_credentials(sources[one], sources[another]));
    }
    if exists|i: int, j: int|
        0 <= i < j < sources.len() && sources::share_credentials(
            #[trigger] sources[i],
            #[trigger] sources[j],
        ) {
        let (i, j) = choose|i: int, j: int|
            0 <= i < j < sources.len() && sources::share_credentials(
                #[trigger] sources[i],
                #[trigger] sources[j],
            );
        let first = first_sharing(sources, i, j);
        assert(sources::is_first_sharing(sources, first.0, first.1));
    }
}

/// The primaries are those whose role is to publish, by name and in order.
pub proof fn a_primary_is_named(sources: Seq<Source>, count: nat)
    requires
        count < sources.len(),
    ensures
        sources[count as int].role == SourceRole::Primary ==> sources::primaries(
            sources,
            count + 1,
        ) == sources::primaries(sources, count).push(sources[count as int].connection@),
        sources[count as int].role != SourceRole::Primary ==> sources::primaries(
            sources,
            count + 1,
        ) == sources::primaries(sources, count),
{
}

/// A document is refused for the first of these that is wrong: the egress, the two
/// cadences, the feeds, the selection, the transport, the sources, the credentials,
/// and last a fan-out that is on and goes nowhere; and where none of them is, it is
/// accepted.
pub proof fn a_document_is_refused_in_order<P>(document: Document, answers: Answers<P>)
    ensures
        ({
            let enabled = document::enabled_feeds(document.feeds@);
            let egress = document::egress_refusal(document.egress, answers.expected_prefix);
            let cycle = feeds::settled(
                "[[feed]] definition_cycle"@,
                document::stated_cycles(enabled),
            );
            let guard = feeds::settled("[[feed]] idle_guard"@, document::stated_guards(enabled));
            let blocks = feeds::feeds_refusal(enabled);
            let ingress = document::ingress_refusal(document, answers);
            let named = sources::sources_refusal(
                document.sources@,
                answers.kinds@,
                answers.unnamed_role,
            );
            let own = document::credentials_refusal(document.adapter.credentials);
            let resolved = sources::sources_of(
                document.sources@,
                answers.kinds@,
                answers.unnamed_role,
                document.sources@.len(),
            );
            let theirs = document::source_credentials_refusal(resolved, resolved.len());
            let refusal = document::document_refusal(document, answers);
            let feeds_stand = egress is None && cycle is Ok && guard is Ok && blocks is None;
            let venue_stands = feeds_stand && answers.selection is Ok && ingress is None && named is
                None;
            &&& egress is Some ==> refusal == egress
            &&& egress is None && cycle is Err ==> refusal == Some(cycle->Err_0)
            &&& egress is None && cycle is Ok && guard is Err ==> refusal == Some(guard->Err_0)
            &&& egress is None && cycle is Ok && guard is Ok && blocks is Some ==> refusal == blocks
            &&& feeds_stand && answers.selection is Err ==> refusal == Some(
                Refusal::Selection { source: answers.selection->Err_0@ },
            )
            &&& feeds_stand && answers.selection is Ok && ingress is Some ==> refusal == ingress
            &&& feeds_stand && answers.selection is Ok && ingress is None && named is Some
                ==> refusal == named
            &&& venue_stands && own is Some ==> refusal == own
            &&& venue_stands && own is None && theirs is Some ==> refusal == theirs
            &&& venue_stands && own is None && theirs is None && document.adapter.tee.enabled
                && document.adapter.tee.path is None ==> refusal == Some(Refusal::TeeWithoutPath)
            &&& venue_stands && own is None && theirs is None && (!document.adapter.tee.enabled
                || document.adapter.tee.path is Some) ==> refusal is None
        }),
{
}

/// The sources' credentials are refused exactly where one source's are.
pub proof fn every_sources_credentials_are_asked(sources: Seq<Source>, count: nat)
    requires
        count <= sources.len(),
    ensures
        document::source_credentials_refusal(sources, count) is None <==> forall|i: int|
            0 <= i < count ==> document::credentials_refusal(
                (#[trigger] sources[i]).credentials,
            ) is None,
    decreases count,
{
    if count > 0 {
        every_sources_credentials_are_asked(sources, (count - 1) as nat);
        if document::source_credentials_refusal(sources, (count - 1) as nat) is None {
            assert(sources[count - 1].credentials == sources[count - 1].credentials);
        }
    }
}

/// Enabled blocks are accepted together exactly where each is beside those before
/// it, there is one, every shard carries every specification and all have one
/// identity; and a second identity is named with the first.
pub proof fn feeds_are_accepted_where_they_are_one_publishers(enabled: Seq<FeedSection>)
    ensures
        ({
            let carried = Seq::new(enabled.len(), |i: int| feeds::instance_of(enabled[i]));
            &&& feeds::feeds_refusal(enabled) is None <==> {
                &&& feeds::blocks_refusal(enabled, enabled.len()) is None
                &&& enabled.len() > 0
                &&& feeds::shards_refusal(carried) is None
                &&& forall|i: int|
                    0 <= i < enabled.len() ==> (#[trigger] enabled[i]).source_id
                        == enabled[0].source_id
            }
            &&& feeds::blocks_refusal(enabled, enabled.len()) is None && enabled.len() > 0
                && feeds::shards_refusal(carried) is None && feeds::feeds_refusal(enabled) is Some
                ==> {
                &&& feeds::feeds_refusal(enabled)->0 matches Refusal::SeveralSourceIds {
                    one,
                    another,
                }
                &&& one == enabled[0].source_id
                &&& another != one
                &&& exists|i: int|
                    0 <= i < enabled.len() && (#[trigger] enabled[i]).source_id == another
            }
        }),
        enabled.len() == 0 ==> feeds::feeds_refusal(enabled) == Some(Refusal::NoEnabledFeed),
{
    if feeds::feeds_refusal(enabled) is None {
        assert forall|i: int| 0 <= i < enabled.len() implies (#[trigger] enabled[i]).source_id
            == enabled[0].source_id by {
            one_identity(enabled, i);
        }
    }
    if exists|at: int| feeds::is_first_other_identity(enabled, at) {
        let at = choose|at: int| feeds::is_first_other_identity(enabled, at);
        assert(enabled[0].source_id != enabled[at].source_id);
    }
}

/// The channels, the specifications and the shards of a list of feeds are those of
/// each feed.
pub proof fn what_a_list_of_feeds_has(feeds: Seq<Feed>, at: int)
    requires
        0 <= at < feeds.len(),
    ensures
        document::channels(feeds).len() == feeds.len(),
        document::channels(feeds)[at] == feeds[at].channel_id,
        document::specs(feeds).len() == feeds.len(),
        document::specs(feeds)[at] == feeds[at].spec,
        document::shard_names(feeds).len() == feeds.len(),
        document::shard_names(feeds)[at] == feeds[at].shard@,
        feeds::instances(feeds).len() == feeds.len(),
        feeds::instances(feeds)[at] == (feeds[at].spec, feeds[at].shard@),
{
}

/// A publisher operates market data and reference data for every feed, and
/// snapshots where one of its feeds is a depth feed.
pub proof fn the_roles_a_publisher_operates(feeds: Seq<Feed>, count: nat)
    requires
        count <= feeds.len(),
    ensures
        document::all_roles(feeds, count).contains(PortRole::Mktdata) <==> count > 0,
        document::all_roles(feeds, count).contains(PortRole::Refdata) <==> count > 0,
        document::all_roles(feeds, count).contains(PortRole::Snapshot) <==> exists|i: int|
            0 <= i < count && (#[trigger] feeds[i]).spec == FeedSpec::MarketByPrice,
    decreases count,
{
    if count > 0 {
        the_roles_a_publisher_operates(feeds, (count - 1) as nat);
        let before = document::all_roles(feeds, (count - 1) as nat);
        let more = feeds[count - 1].spec.roles();
        config::only_a_depth_feed_has_snapshots(feeds[count - 1].spec);
        vstd::seq_lib::lemma_seq_concat_contains_all_elements(before, more, PortRole::Mktdata);
        vstd::seq_lib::lemma_seq_concat_contains_all_elements(before, more, PortRole::Refdata);
        vstd::seq_lib::lemma_seq_concat_contains_all_elements(before, more, PortRole::Snapshot);
        if feeds[count - 1].spec == FeedSpec::MarketByPrice {
            assert(feeds[count - 1].spec == FeedSpec::MarketByPrice);
        }
    }
}

/// A value keeps its place: what comes later changes nothing of the distinct values
/// of what came before.
pub proof fn distinct_values_keep_their_order<T>(values: Seq<T>, next: T)
    ensures
        document::distinct(values).contains(next) ==> document::distinct(values.push(next))
            == document::distinct(values),
        !document::distinct(values).contains(next) ==> document::distinct(values.push(next))
            == document::distinct(values).push(next),
{
    assert(values.push(next).drop_last() =~= values);
}

/// Two sources share a credential where their tables are equal and hold something;
/// a source without credentials shares none.
pub proof fn only_a_stated_credential_is_shared(one: Source, another: Source)
    ensures
        table::entries(another.credentials).len() == 0 ==> !sources::share_credentials(
            one,
            another,
        ),
        table::entries(another.credentials).len() > 0 ==> (sources::share_credentials(one, another)
            <==> table::tables_equal(one.credentials, another.credentials)),
{
}

/// Sources that are refused together are refused for a credential two of them
/// share, both named and the earlier first, or for how many of them publish: none,
/// or the names of them all.
pub proof fn sources_are_refused_for_what_is_wrong(sources: Seq<Source>)
    ensures
        sources::together_refusal(sources) matches Some(refusal) ==> match refusal {
            Refusal::SourceCredentialsShared { one, another } => exists|i: int, j: int|
                0 <= i < j < sources.len() && sources::share_credentials(
                    #[trigger] sources[i],
                    #[trigger] sources[j],
                ) && sources[i].connection@ == one && sources[j].connection@ == another,
            Refusal::SourcePrimaries { primaries } => {
                ||| primary_count(sources, sources.len()) == 0 && primaries == "none"@
                ||| primary_count(sources, sources.len()) > 1 && primaries == text::joined(
                    sources::primaries(sources, sources.len()),
                    ", "@,
                )
            },
            _ => false,
        },
{
    primaries_are_counted(sources, sources.len());
    if exists|one: int, another: int| sources::is_first_sharing(sources, one, another) {
        let (one, another) = choose|one: int, another: int|
            sources::is_first_sharing(sources, one, another);
        assert(sources::share_credentials(sources[one], sources[another]));
    }
}

/// The blocks of a document are refused for the sources there are: none of them
/// switched on where there are some, and then what is wrong with those together.
pub proof fn sources_are_refused_in_order(
    sections: Seq<SourceSection>,
    kinds: Seq<Result<Kind, String>>,
    unnamed: SourceRole,
)
    ensures
        ({
            let refusal = sources::sources_refusal(sections, kinds, unnamed);
            let each = sources::sections_refusal(sections, kinds, sections.len());
            let enabled = sources::sources_of(sections, kinds, unnamed, sections.len());
            &&& each is Some ==> refusal == each
            &&& sections.len() == 0 ==> refusal is None
            &&& each is None && sections.len() > 0 && enabled.len() == 0 ==> refusal == Some(
                Refusal::NoEnabledSource,
            )
            &&& each is None && enabled.len() > 0 && sections.len() > 0 ==> refusal
                == sources::together_refusal(enabled)
        }),
{
}

/// A shard that is named for what it lacks is the first by name that lacks
/// anything.
pub proof fn the_first_shard_by_name_is_named(
    carried: Seq<(FeedSpec, Seq<char>)>,
    one: int,
    other: int,
)
    requires
        0 <= one < carried.len(),
        0 <= other < carried.len(),
        !carried.contains((carried[one].0, carried[other].1)),
    ensures
        feeds::shards_refusal(carried) is Some,
        feeds::shards_refusal(carried)->0 matches Refusal::ShardSpecsDisagree { shard, spec }
            && !text::precedes(carried[other].1, shard),
{
    if feeds::shards_refusal(carried) is None {
        feeds::shards_not_refused_carry_the_same(carried);
        assert(carried.contains((carried[one].0, carried[other].1)));
    }
    let (shard, spec) = choose|shard: Seq<char>, spec: FeedSpec|
        feeds::lacks_first(carried, shard, spec);
    assert forall|i: int| 0 <= i < carried.len() implies #[trigger] carried[i] != (
        carried[one].0,
        carried[other].1,
    ) by {
        assert(carried.contains(carried[i]));
    }
    assert(feeds::lacks(carried, carried[other].1, carried[one].0));
}

/// What a block is refused for beside those before it is what it repeats: the
/// specification and the shard of an earlier one, or the channel of one, which is
/// named with it.
pub proof fn a_block_is_refused_for_what_it_repeats(enabled: Seq<FeedSection>, at: int)
    requires
        0 <= at < enabled.len(),
        feeds::feed_refusal(enabled[at]) is None,
    ensures
        feeds::block_refusal(enabled, at) matches Some(refusal) ==> match refusal {
            Refusal::DuplicateFeedShard { spec, shard } => {
                &&& spec == feeds::instance_of(enabled[at]).0.name()
                &&& shard == feeds::instance_of(enabled[at]).1
                &&& exists|i: int|
                    0 <= i < at && feeds::instance_of(#[trigger] enabled[i]) == feeds::instance_of(
                        enabled[at],
                    )
            },
            Refusal::DuplicateChannelId {
                channel_id,
                first_spec,
                first_shard,
                second_spec,
                second_shard,
            } => {
                &&& channel_id == enabled[at].channel_id
                &&& second_spec == feeds::instance_of(enabled[at]).0.name()
                &&& second_shard == feeds::instance_of(enabled[at]).1
                &&& exists|i: int|
                    0 <= i < at && (#[trigger] enabled[i]).channel_id == channel_id && first_spec
                        == feeds::instance_of(enabled[i]).0.name() && first_shard
                        == feeds::instance_of(enabled[i]).1
            },
            _ => false,
        },
{
    if !feeds::repeats_an_instance(enabled, at) && exists|first: int|
        feeds::is_first_on_channel(enabled, at, first) {
        let first = choose|first: int| feeds::is_first_on_channel(enabled, at, first);
        assert(enabled[first].channel_id == enabled[at].channel_id);
    }
}

/// What a key is refused for is what is stated: a zero, or two values that differ,
/// the earlier first.
pub proof fn a_key_is_refused_for_what_is_stated(
    key: Seq<char>,
    stated: Seq<Option<crate::duration::Duration>>,
)
    ensures
        feeds::settled(key, stated) matches Err(refusal) ==> match refusal {
            Refusal::ZeroDuration { key: named } => named == key && exists|i: int|
                0 <= i < stated.len() && (#[trigger] stated[i]) is Some && stated[i]->0@ == 0,
            Refusal::FeedsDisagree { key: named, one, another } => named == key && exists|
                i: int,
                j: int,
            |
                0 <= i < j < stated.len() && (#[trigger] stated[i]) is Some && (
                #[trigger] stated[j]) is Some && stated[i]->0@ == one && stated[j]->0@ == another
                    && stated[i] != stated[j],
            _ => false,
        },
    decreases stated.len(),
{
    if stated.len() > 0 {
        let before = stated.drop_last();
        let last = stated.len() - 1;
        a_key_is_refused_for_what_is_stated(key, before);
        assert(forall|i: int| 0 <= i < before.len() ==> #[trigger] before[i] == stated[i]);
        assert(stated[last] == stated.last());
        match feeds::settled(key, before) {
            Err(Refusal::ZeroDuration { key: named }) => {
                let i = choose|i: int|
                    0 <= i < before.len() && (#[trigger] before[i]) is Some && before[i]->0@ == 0;
                assert(stated[i] == before[i]);
            },
            Err(Refusal::FeedsDisagree { key: named, one, another }) => {
                let (i, j) = choose|i: int, j: int|
                    0 <= i < j < before.len() && (#[trigger] before[i]) is Some && (
                    #[trigger] before[j]) is Some && before[i]->0@ == one && before[j]->0@
                        == another && before[i] != before[j];
                assert(stated[i] == before[i] && stated[j] == before[j]);
            },
            Ok(Some(one)) => {
                feeds::agreeing_values_settle(key, before);
                let i = choose|i: int| 0 <= i < before.len() && (#[trigger] before[i]) is Some;
                assert(stated[i] == before[i]);
            },
            _ => {},
        }
    }
}

} // verus!
