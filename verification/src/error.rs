//! Why a publisher did not start.
//!
//! Every variant here is a refusal to start, and every one of them names the
//! values that would have been accepted wherever there is a set to name. There
//! is deliberately nothing in here that a publisher can continue past.

use vstd::prelude::*;
use vstd::string::*;

use crate::address;
use crate::address::Ipv4Addr;
use crate::duration;
use crate::duration::Duration;
use crate::registry;
use crate::text;

verus! {

/// Why a publisher did not start. A cause outside this library is carried in
/// its own words.
#[derive(Debug, Clone)]
pub enum StartupError {
    /// The configuration file could not be read. `path` is the path as a
    /// console shows it, in quotes.
    Read { path: String, source: String },
    /// The document did not parse, which is also what a key nobody reads is.
    Document { source: String },
    /// `[adapter] kind` names no adapter this binary was linked with. Never a
    /// fallback and never a default.
    UnknownAdapterKind { token: String, registered: String },
    /// The adapter was registered and would not construct.
    AdapterInit { kind: String, source: String },
    /// `[ingress]`, or the transport a `[[source]]` names, could not be
    /// resolved. The words are those of the transports' own configuration.
    Ingress { source: String },
    /// A transport named at `[ingress]` in a document that names one per
    /// `[[source]]`.
    KindNamedTwice { document: String, sources: usize },
    /// A `[[feed]] spec` this build cannot emit.
    UnsupportedFeedSpec { spec: String, supported: &'static str },
    /// A `[[feed]] shard` that cannot be one path component.
    UnsafeShardName { spec: String, shard: String },
    /// A `[[feed]] shard` that spells the default shard, which is spelled by
    /// its absence.
    ReservedShardName { spec: String, shard: String },
    /// A depth feed with no `snapshot_port`: a subscriber that lost a datagram
    /// would have nowhere to recover from.
    SnapshotPortRequired { spec: &'static str },
    /// A feed with a `snapshot_port` its specification does not carry.
    SnapshotPortNotCarried { spec: &'static str, port: u16 },
    /// A feed with a `snapshot_cycle` and no snapshot port role.
    SnapshotCycleWithoutPort { spec: &'static str },
    /// Two enabled blocks state different values for a key this publisher holds
    /// once.
    FeedsDisagree { key: &'static str, one: Duration, another: Duration },
    /// Two enabled blocks carry one specification for one shard.
    DuplicateFeedShard { spec: &'static str, shard: String },
    /// Two enabled blocks name one channel.
    DuplicateChannelId { channel_id: u8, first_spec: &'static str, first_shard: String, second_spec: &'static str, second_shard: String },
    /// A shard without a block for a specification another shard has.
    ShardSpecsDisagree { shard: String, spec: &'static str },
    /// A shard no enabled block carries.
    ShardWithNoFeed { shard: String },
    /// The venue built no source.
    NoVenueSource,
    /// The venue built several sources and the document declares none.
    SourcesUndeclared { built: usize },
    /// The `[[source]]` blocks and what the venue built are different sets.
    SourcesDisagree { declared: String, built: String },
    /// A `[[source]]` block with no name.
    UnnamedSource,
    /// A `[[source]] name` with white space at an end.
    SourceNameNotTrimmed { name: String, trimmed: String },
    /// Two `[[source]]` blocks share a name.
    DuplicateSourceName { name: String },
    /// A `[[source]] role` that is not one.
    UnknownSourceRole { token: String, supported: &'static str },
    /// Every `[[source]]` block is switched off.
    NoEnabledSource,
    /// Two enabled sources state one credential. A venue may allow one session
    /// per credential and answer the second logon by evicting the first. What
    /// this cannot see is two paths to one file.
    SourceCredentialsShared { one: String, another: String },
    /// Not exactly one enabled primary.
    SourcePrimaries { primaries: String },
    /// Two enabled blocks name different source ids.
    SeveralSourceIds { one: u16, another: u16 },
    /// No block is enabled.
    NoEnabledFeed,
    /// A source id the registry does not admit.
    BadSourceId { source_id: u16 },
    /// A value that is not an IPv4 address.
    NotAnAddress { key: &'static str, value: String },
    /// A group that is not a multicast address.
    NotMulticast { group: Ipv4Addr },
    /// `[egress] expected_prefix` is not a prefix.
    BadPrefix { source: String },
    /// A destination port of zero.
    ZeroPort { key: &'static str },
    /// Two port roles of one feed on one port.
    PortsCollide { left: &'static str, right: &'static str, port: u16 },
    /// A duration of no time at all.
    ZeroDuration { key: &'static str },
    /// `[refdata.selection]` is not a coherent policy.
    Selection { source: String },
    /// A credential that is not a path.
    NotACredentialPath { key: String, what: &'static str },
    /// The reference-data registry would not open.
    Refdata { source: String },
    /// A channel instance's era could not be begun.
    Era { source: String },
    /// A transmitter would not open.
    Transmitter { source: String },
    /// A venue's own series was refused by the metrics registry.
    VenueMetric { source: String },
    /// The metrics endpoint could not be bound.
    Metrics { addr: String, source: String },
    /// The asynchronous runtime would not start.
    Runtime { source: String },
    /// The command line names no document.
    NoConfigPath { usage: &'static str },
    /// An option without its value.
    OptionNeedsValue { option: &'static str, usage: &'static str },
    /// An option nobody reads.
    UnknownOption { option: String, usage: &'static str },
    /// Two documents on one command line.
    TwoConfigPaths { first: String, second: String, usage: &'static str },
    /// `[adapter.tee]` is on and names no path.
    TeeWithoutPath,
    /// A reference stream would not open.
    Tee { path: String, source: String },
    /// `[adapter.replay]` is on and names no path.
    ReplayWithoutPath,
    /// The replay directory cannot be used.
    Replay { source: String },
}

/// What a [`StartupError`] says, as values to reason about.
#[verifier::ext_equal]
pub enum Refusal {
    Read { path: Seq<char>, source: Seq<char> },
    Document { source: Seq<char> },
    UnknownAdapterKind { token: Seq<char>, registered: Seq<char> },
    AdapterInit { kind: Seq<char>, source: Seq<char> },
    Ingress { source: Seq<char> },
    KindNamedTwice { document: Seq<char>, sources: usize },
    UnsupportedFeedSpec { spec: Seq<char>, supported: Seq<char> },
    UnsafeShardName { spec: Seq<char>, shard: Seq<char> },
    ReservedShardName { spec: Seq<char>, shard: Seq<char> },
    SnapshotPortRequired { spec: Seq<char> },
    SnapshotPortNotCarried { spec: Seq<char>, port: u16 },
    SnapshotCycleWithoutPort { spec: Seq<char> },
    FeedsDisagree { key: Seq<char>, one: nat, another: nat },
    DuplicateFeedShard { spec: Seq<char>, shard: Seq<char> },
    DuplicateChannelId { channel_id: u8, first_spec: Seq<char>, first_shard: Seq<char>, second_spec: Seq<char>, second_shard: Seq<char> },
    ShardSpecsDisagree { shard: Seq<char>, spec: Seq<char> },
    ShardWithNoFeed { shard: Seq<char> },
    NoVenueSource,
    SourcesUndeclared { built: usize },
    SourcesDisagree { declared: Seq<char>, built: Seq<char> },
    UnnamedSource,
    SourceNameNotTrimmed { name: Seq<char>, trimmed: Seq<char> },
    DuplicateSourceName { name: Seq<char> },
    UnknownSourceRole { token: Seq<char>, supported: Seq<char> },
    NoEnabledSource,
    SourceCredentialsShared { one: Seq<char>, another: Seq<char> },
    SourcePrimaries { primaries: Seq<char> },
    SeveralSourceIds { one: u16, another: u16 },
    NoEnabledFeed,
    BadSourceId { source_id: u16 },
    NotAnAddress { key: Seq<char>, value: Seq<char> },
    NotMulticast { group: Ipv4Addr },
    BadPrefix { source: Seq<char> },
    ZeroPort { key: Seq<char> },
    PortsCollide { left: Seq<char>, right: Seq<char>, port: u16 },
    ZeroDuration { key: Seq<char> },
    Selection { source: Seq<char> },
    NotACredentialPath { key: Seq<char>, what: Seq<char> },
    Refdata { source: Seq<char> },
    Era { source: Seq<char> },
    Transmitter { source: Seq<char> },
    VenueMetric { source: Seq<char> },
    Metrics { addr: Seq<char>, source: Seq<char> },
    Runtime { source: Seq<char> },
    NoConfigPath { usage: Seq<char> },
    OptionNeedsValue { option: Seq<char>, usage: Seq<char> },
    UnknownOption { option: Seq<char>, usage: Seq<char> },
    TwoConfigPaths { first: Seq<char>, second: Seq<char>, usage: Seq<char> },
    TeeWithoutPath,
    Tee { path: Seq<char>, source: Seq<char> },
    ReplayWithoutPath,
    Replay { source: Seq<char> },
}

impl View for StartupError {
    type V = Refusal;

    open spec fn view(&self) -> Refusal {
        match self {
            StartupError::Read { path, source } => Refusal::Read {
                path: path@,
                source: source@,
            },
            StartupError::Document { source } => Refusal::Document {
                source: source@,
            },
            StartupError::UnknownAdapterKind { token, registered } => Refusal::UnknownAdapterKind {
                token: token@,
                registered: registered@,
            },
            StartupError::AdapterInit { kind, source } => Refusal::AdapterInit {
                kind: kind@,
                source: source@,
            },
            StartupError::Ingress { source } => Refusal::Ingress {
                source: source@,
            },
            StartupError::KindNamedTwice { document, sources } => Refusal::KindNamedTwice {
                document: document@,
                sources: *sources,
            },
            StartupError::UnsupportedFeedSpec { spec, supported } => Refusal::UnsupportedFeedSpec {
                spec: spec@,
                supported: supported@,
            },
            StartupError::UnsafeShardName { spec, shard } => Refusal::UnsafeShardName {
                spec: spec@,
                shard: shard@,
            },
            StartupError::ReservedShardName { spec, shard } => Refusal::ReservedShardName {
                spec: spec@,
                shard: shard@,
            },
            StartupError::SnapshotPortRequired { spec } => Refusal::SnapshotPortRequired {
                spec: spec@,
            },
            StartupError::SnapshotPortNotCarried { spec, port } => Refusal::SnapshotPortNotCarried {
                spec: spec@,
                port: *port,
            },
            StartupError::SnapshotCycleWithoutPort { spec } => Refusal::SnapshotCycleWithoutPort {
                spec: spec@,
            },
            StartupError::FeedsDisagree { key, one, another } => Refusal::FeedsDisagree {
                key: key@,
                one: one@,
                another: another@,
            },
            StartupError::DuplicateFeedShard { spec, shard } => Refusal::DuplicateFeedShard {
                spec: spec@,
                shard: shard@,
            },
            StartupError::DuplicateChannelId { channel_id, first_spec, first_shard, second_spec, second_shard } => Refusal::DuplicateChannelId {
                channel_id: *channel_id,
                first_spec: first_spec@,
                first_shard: first_shard@,
                second_spec: second_spec@,
                second_shard: second_shard@,
            },
            StartupError::ShardSpecsDisagree { shard, spec } => Refusal::ShardSpecsDisagree {
                shard: shard@,
                spec: spec@,
            },
            StartupError::ShardWithNoFeed { shard } => Refusal::ShardWithNoFeed {
                shard: shard@,
            },
            StartupError::NoVenueSource => Refusal::NoVenueSource,
            StartupError::SourcesUndeclared { built } => Refusal::SourcesUndeclared {
                built: *built,
            },
            StartupError::SourcesDisagree { declared, built } => Refusal::SourcesDisagree {
                declared: declared@,
                built: built@,
            },
            StartupError::UnnamedSource => Refusal::UnnamedSource,
            StartupError::SourceNameNotTrimmed { name, trimmed } => Refusal::SourceNameNotTrimmed {
                name: name@,
                trimmed: trimmed@,
            },
            StartupError::DuplicateSourceName { name } => Refusal::DuplicateSourceName {
                name: name@,
            },
            StartupError::UnknownSourceRole { token, supported } => Refusal::UnknownSourceRole {
                token: token@,
                supported: supported@,
            },
            StartupError::NoEnabledSource => Refusal::NoEnabledSource,
            StartupError::SourceCredentialsShared { one, another } => Refusal::SourceCredentialsShared {
                one: one@,
                another: another@,
            },
            StartupError::SourcePrimaries { primaries } => Refusal::SourcePrimaries {
                primaries: primaries@,
            },
            StartupError::SeveralSourceIds { one, another } => Refusal::SeveralSourceIds {
                one: *one,
                another: *another,
            },
            StartupError::NoEnabledFeed => Refusal::NoEnabledFeed,
            StartupError::BadSourceId { source_id } => Refusal::BadSourceId {
                source_id: *source_id,
            },
            StartupError::NotAnAddress { key, value } => Refusal::NotAnAddress {
                key: key@,
                value: value@,
            },
            StartupError::NotMulticast { group } => Refusal::NotMulticast {
                group: *group,
            },
            StartupError::BadPrefix { source } => Refusal::BadPrefix {
                source: source@,
            },
            StartupError::ZeroPort { key } => Refusal::ZeroPort {
                key: key@,
            },
            StartupError::PortsCollide { left, right, port } => Refusal::PortsCollide {
                left: left@,
                right: right@,
                port: *port,
            },
            StartupError::ZeroDuration { key } => Refusal::ZeroDuration {
                key: key@,
            },
            StartupError::Selection { source } => Refusal::Selection {
                source: source@,
            },
            StartupError::NotACredentialPath { key, what } => Refusal::NotACredentialPath {
                key: key@,
                what: what@,
            },
            StartupError::Refdata { source } => Refusal::Refdata {
                source: source@,
            },
            StartupError::Era { source } => Refusal::Era {
                source: source@,
            },
            StartupError::Transmitter { source } => Refusal::Transmitter {
                source: source@,
            },
            StartupError::VenueMetric { source } => Refusal::VenueMetric {
                source: source@,
            },
            StartupError::Metrics { addr, source } => Refusal::Metrics {
                addr: addr@,
                source: source@,
            },
            StartupError::Runtime { source } => Refusal::Runtime {
                source: source@,
            },
            StartupError::NoConfigPath { usage } => Refusal::NoConfigPath {
                usage: usage@,
            },
            StartupError::OptionNeedsValue { option, usage } => Refusal::OptionNeedsValue {
                option: option@,
                usage: usage@,
            },
            StartupError::UnknownOption { option, usage } => Refusal::UnknownOption {
                option: option@,
                usage: usage@,
            },
            StartupError::TwoConfigPaths { first, second, usage } => Refusal::TwoConfigPaths {
                first: first@,
                second: second@,
                usage: usage@,
            },
            StartupError::TeeWithoutPath => Refusal::TeeWithoutPath,
            StartupError::Tee { path, source } => Refusal::Tee {
                path: path@,
                source: source@,
            },
            StartupError::ReplayWithoutPath => Refusal::ReplayWithoutPath,
            StartupError::Replay { source } => Refusal::Replay {
                source: source@,
            },
        }
    }
}

impl Refusal {
    /// The line an operator is shown.
    pub open spec fn message(self) -> Seq<char> {
        match self {
            Refusal::Read { path, source } => "the configuration file "@
                + path
                + " could not be read: "@
                + source,
            Refusal::Document { source } => "the configuration document is not one this publisher can run: "@
                + source,
            Refusal::UnknownAdapterKind { token, registered } => "`[adapter] kind = \""@
                + token
                + "\"` names no adapter this binary registered; registered in this binary: "@
                + registered,
            Refusal::AdapterInit { kind, source } => "the adapter registered as `"@
                + kind
                + "` could not be constructed: "@
                + source,
            Refusal::Ingress { source } => source,
            Refusal::KindNamedTwice { document, sources } => "`[ingress] kind = \""@
                + document
                + "\"` names a transport in a document whose "@
                + text::decimal(sources as nat)
                + " `[[source]]` blocks name their own; name it in one place"@,
            Refusal::UnsupportedFeedSpec { spec, supported } => "`[[feed]] spec = \""@
                + spec
                + "\"` is not a feed this build can emit; it can emit: "@
                + supported,
            Refusal::UnsafeShardName { spec, shard } => "`[[feed]] spec = \""@
                + spec
                + "\"` names `shard = \""@
                + shard
                + "\"`, which is not 1 to 64 lowercase letters, digits and dashes"@,
            Refusal::ReservedShardName { spec, shard } => "`[[feed]] spec = \""@
                + spec
                + "\"` names `shard = \""@
                + shard
                + "\"`, which is the default shard; leave `shard` out"@,
            Refusal::SnapshotPortRequired { spec } => "`[[feed]] spec = \""@
                + spec
                + "\"` carries a snapshot port role and `snapshot_port` is not set"@,
            Refusal::SnapshotPortNotCarried { spec, port } => "`[[feed]] spec = \""@
                + spec
                + "\"` carries no snapshot port role, so `snapshot_port = "@
                + text::decimal(port as nat)
                + "` names a port nothing will send on"@,
            Refusal::SnapshotCycleWithoutPort { spec } => "`[[feed]] spec = \""@
                + spec
                + "\"` carries no snapshot port role, so `snapshot_cycle` would pace snapshots nothing sends"@,
            Refusal::FeedsDisagree { key, one, another } => "two enabled `[[feed]]` blocks state different `"@
                + key
                + "`, "@
                + duration::shown(one)
                + " and "@
                + duration::shown(another)
                + ", and this publisher holds one"@,
            Refusal::DuplicateFeedShard { spec, shard } => "two enabled `[[feed]]` blocks carry `spec = \""@
                + spec
                + "\"` for shard `"@
                + shard
                + "`"@,
            Refusal::DuplicateChannelId { channel_id, first_spec, first_shard, second_spec, second_shard } => "two enabled `[[feed]]` blocks name `channel_id = "@
                + text::decimal(channel_id as nat)
                + "`: `"@
                + first_spec
                + "` for shard `"@
                + first_shard
                + "` and `"@
                + second_spec
                + "` for shard `"@
                + second_shard
                + "`"@,
            Refusal::ShardSpecsDisagree { shard, spec } => "shard `"@
                + shard
                + "` has no enabled `[[feed]]` block for `spec = \""@
                + spec
                + "\"`, which another shard has"@,
            Refusal::ShardWithNoFeed { shard } => "shard `"@
                + shard
                + "` has no enabled `[[feed]]` block"@,
            Refusal::NoVenueSource => "the adapter's constructor returned no source: this publisher would read nothing"@,
            Refusal::SourcesUndeclared { built } => "the adapter's constructor returned "@
                + text::decimal(built as nat)
                + " sources and the document declares none; state one `[[source]]` block per connection"@,
            Refusal::SourcesDisagree { declared, built } => "the `[[source]]` blocks and the adapter's transports are different sets: declared "@
                + declared
                + "; built "@
                + built,
            Refusal::UnnamedSource => "a `[[source]]` block has an empty `name`"@,
            Refusal::SourceNameNotTrimmed { name, trimmed } => "`[[source]] name = \""@
                + name
                + "\"` has leading or trailing whitespace: the name is the `connection` metric label, and `\""@
                + trimmed
                + "\"` and `\""@
                + name
                + "\"` would be two series a dashboard cannot tell apart"@,
            Refusal::DuplicateSourceName { name } => "two `[[source]]` blocks are named `"@
                + name
                + "`"@,
            Refusal::UnknownSourceRole { token, supported } => "`[[source]] role = \""@
                + token
                + "\"` is not a role; the roles are "@
                + supported,
            Refusal::NoEnabledSource => "every `[[source]]` block is disabled: this publisher would connect to nothing"@,
            Refusal::SourceCredentialsShared { one, another } => "`[[source]]` blocks `"@
                + one
                + "` and `"@
                + another
                + "` state the same credentials; a venue that allows one session per credential evicts one of them at the other's logon"@,
            Refusal::SourcePrimaries { primaries } => "exactly one enabled `[[source]]` must have `role = \"primary\"`; there "@ + (if primaries.contains(',') {
                "are"@
            } else {
                "is"@
            }) + " "@ + primaries + ". Every source's payloads reach one adapter and no event carries the source it came from, so this is a publisher-wide rule and not a per-feed one"@,
            Refusal::SeveralSourceIds { one, another } => "two enabled `[[feed]]` blocks name different source ids, "@
                + text::decimal(one as nat)
                + " and "@
                + text::decimal(another as nat),
            Refusal::NoEnabledFeed => "no `[[feed]]` block is enabled: this publisher would emit nothing"@,
            Refusal::BadSourceId { source_id } => "`[[feed]] source_id = "@
                + text::decimal(source_id as nat)
                + "` is not a Source ID the registry admits; assigned production ids are 1-1023 and private or experimental ids are 32768-65535"@,
            Refusal::NotAnAddress { key, value } => "`"@
                + key
                + " = \""@
                + value
                + "\"` is not an IPv4 address"@,
            Refusal::NotMulticast { group } => "`[[feed]] multicast_group = \""@
                + address::dotted(group)
                + "\"` is not a multicast address"@,
            Refusal::BadPrefix { source } => "`[egress] expected_prefix`: "@
                + source,
            Refusal::ZeroPort { key } => "`[[feed]] "@
                + key
                + "` is 0, which is not a destination port"@,
            Refusal::PortsCollide { left, right, port } => "`[[feed]] "@
                + left
                + "` and `"@
                + right
                + "` are both port "@
                + text::decimal(port as nat),
            Refusal::ZeroDuration { key } => "`"@
                + key
                + "` must be greater than zero"@,
            Refusal::Selection { source } => "`[refdata.selection]`: "@
                + source,
            Refusal::NotACredentialPath { key, what } => "`[adapter.credentials] "@
                + key
                + "` is "@
                + what
                + "; credentials are paths to files"@,
            Refusal::Refdata { source } => source,
            Refusal::Era { source } => source,
            Refusal::Transmitter { source } => source,
            Refusal::VenueMetric { source } => "the venue's own metrics were refused: "@
                + source,
            Refusal::Metrics { addr, source } => "the metrics endpoint could not be bound to "@
                + addr
                + ": "@
                + source,
            Refusal::Runtime { source } => "the async runtime could not be started: "@
                + source,
            Refusal::NoConfigPath { usage } => "no configuration file: "@
                + usage,
            Refusal::OptionNeedsValue { option, usage } => "`"@
                + option
                + "` needs a value: "@
                + usage,
            Refusal::UnknownOption { option, usage } => "`"@
                + option
                + "` is not an option: "@
                + usage,
            Refusal::TwoConfigPaths { first, second, usage } => "two configuration files, `"@
                + first
                + "` and `"@
                + second
                + "`: "@
                + usage,
            Refusal::TeeWithoutPath => "[adapter.tee] is enabled but names no path"@,
            Refusal::Tee { path, source } => "the reference stream for "@
                + path
                + " would not open: "@
                + source,
            Refusal::ReplayWithoutPath => "[adapter.replay] is enabled but names no path"@,
            Refusal::Replay { source } => "the replay directory cannot be used: "@
                + source,
        }
    }
}

impl StartupError {
    /// The line an operator is shown.
    pub fn message(&self) -> (said: String)
        ensures
            said@ == self@.message(),
    {
        match self {
            StartupError::Read { path, source } => {
                let mut said: String = "the configuration file ".to_owned();
                said.append(path.as_str());
                said.append(" could not be read: ");
                said.append(source.as_str());
                said
            },
            StartupError::Document { source } => {
                let mut said: String = "the configuration document is not one this publisher can run: ".to_owned();
                said.append(source.as_str());
                said
            },
            StartupError::UnknownAdapterKind { token, registered } => {
                let mut said: String = "`[adapter] kind = \"".to_owned();
                said.append(token.as_str());
                said.append("\"` names no adapter this binary registered; registered in this binary: ");
                said.append(registered.as_str());
                said
            },
            StartupError::AdapterInit { kind, source } => {
                let mut said: String = "the adapter registered as `".to_owned();
                said.append(kind.as_str());
                said.append("` could not be constructed: ");
                said.append(source.as_str());
                said
            },
            StartupError::Ingress { source } => source.clone(),
            StartupError::KindNamedTwice { document, sources } => {
                let mut said: String = "`[ingress] kind = \"".to_owned();
                said.append(document.as_str());
                said.append("\"` names a transport in a document whose ");
                said.append(text::number(*sources as u64).as_str());
                said.append(" `[[source]]` blocks name their own; name it in one place");
                said
            },
            StartupError::UnsupportedFeedSpec { spec, supported } => {
                let mut said: String = "`[[feed]] spec = \"".to_owned();
                said.append(spec.as_str());
                said.append("\"` is not a feed this build can emit; it can emit: ");
                said.append(supported);
                said
            },
            StartupError::UnsafeShardName { spec, shard } => {
                let mut said: String = "`[[feed]] spec = \"".to_owned();
                said.append(spec.as_str());
                said.append("\"` names `shard = \"");
                said.append(shard.as_str());
                said.append("\"`, which is not 1 to 64 lowercase letters, digits and dashes");
                said
            },
            StartupError::ReservedShardName { spec, shard } => {
                let mut said: String = "`[[feed]] spec = \"".to_owned();
                said.append(spec.as_str());
                said.append("\"` names `shard = \"");
                said.append(shard.as_str());
                said.append("\"`, which is the default shard; leave `shard` out");
                said
            },
            StartupError::SnapshotPortRequired { spec } => {
                let mut said: String = "`[[feed]] spec = \"".to_owned();
                said.append(spec);
                said.append("\"` carries a snapshot port role and `snapshot_port` is not set");
                said
            },
            StartupError::SnapshotPortNotCarried { spec, port } => {
                let mut said: String = "`[[feed]] spec = \"".to_owned();
                said.append(spec);
                said.append("\"` carries no snapshot port role, so `snapshot_port = ");
                said.append(text::number(*port as u64).as_str());
                said.append("` names a port nothing will send on");
                said
            },
            StartupError::SnapshotCycleWithoutPort { spec } => {
                let mut said: String = "`[[feed]] spec = \"".to_owned();
                said.append(spec);
                said.append("\"` carries no snapshot port role, so `snapshot_cycle` would pace snapshots nothing sends");
                said
            },
            StartupError::FeedsDisagree { key, one, another } => {
                let mut said: String = "two enabled `[[feed]]` blocks state different `".to_owned();
                said.append(key);
                said.append("`, ");
                said.append(one.shown_text().as_str());
                said.append(" and ");
                said.append(another.shown_text().as_str());
                said.append(", and this publisher holds one");
                said
            },
            StartupError::DuplicateFeedShard { spec, shard } => {
                let mut said: String = "two enabled `[[feed]]` blocks carry `spec = \"".to_owned();
                said.append(spec);
                said.append("\"` for shard `");
                said.append(shard.as_str());
                said.append("`");
                said
            },
            StartupError::DuplicateChannelId { channel_id, first_spec, first_shard, second_spec, second_shard } => {
                let mut said: String = "two enabled `[[feed]]` blocks name `channel_id = ".to_owned();
                said.append(text::number(*channel_id as u64).as_str());
                said.append("`: `");
                said.append(first_spec);
                said.append("` for shard `");
                said.append(first_shard.as_str());
                said.append("` and `");
                said.append(second_spec);
                said.append("` for shard `");
                said.append(second_shard.as_str());
                said.append("`");
                said
            },
            StartupError::ShardSpecsDisagree { shard, spec } => {
                let mut said: String = "shard `".to_owned();
                said.append(shard.as_str());
                said.append("` has no enabled `[[feed]]` block for `spec = \"");
                said.append(spec);
                said.append("\"`, which another shard has");
                said
            },
            StartupError::ShardWithNoFeed { shard } => {
                let mut said: String = "shard `".to_owned();
                said.append(shard.as_str());
                said.append("` has no enabled `[[feed]]` block");
                said
            },
            StartupError::NoVenueSource => "the adapter's constructor returned no source: this publisher would read nothing".to_owned(),
            StartupError::SourcesUndeclared { built } => {
                let mut said: String = "the adapter's constructor returned ".to_owned();
                said.append(text::number(*built as u64).as_str());
                said.append(" sources and the document declares none; state one `[[source]]` block per connection");
                said
            },
            StartupError::SourcesDisagree { declared, built } => {
                let mut said: String = "the `[[source]]` blocks and the adapter's transports are different sets: declared ".to_owned();
                said.append(declared.as_str());
                said.append("; built ");
                said.append(built.as_str());
                said
            },
            StartupError::UnnamedSource => "a `[[source]]` block has an empty `name`".to_owned(),
            StartupError::SourceNameNotTrimmed { name, trimmed } => {
                let mut said: String = "`[[source]] name = \"".to_owned();
                said.append(name.as_str());
                said.append("\"` has leading or trailing whitespace: the name is the `connection` metric label, and `\"");
                said.append(trimmed.as_str());
                said.append("\"` and `\"");
                said.append(name.as_str());
                said.append("\"` would be two series a dashboard cannot tell apart");
                said
            },
            StartupError::DuplicateSourceName { name } => {
                let mut said: String = "two `[[source]]` blocks are named `".to_owned();
                said.append(name.as_str());
                said.append("`");
                said
            },
            StartupError::UnknownSourceRole { token, supported } => {
                let mut said: String = "`[[source]] role = \"".to_owned();
                said.append(token.as_str());
                said.append("\"` is not a role; the roles are ");
                said.append(supported);
                said
            },
            StartupError::NoEnabledSource => "every `[[source]]` block is disabled: this publisher would connect to nothing".to_owned(),
            StartupError::SourceCredentialsShared { one, another } => {
                let mut said: String = "`[[source]]` blocks `".to_owned();
                said.append(one.as_str());
                said.append("` and `");
                said.append(another.as_str());
                said.append("` state the same credentials; a venue that allows one session per credential evicts one of them at the other's logon");
                said
            },
            StartupError::SourcePrimaries { primaries } => {
                let mut said: String = "exactly one enabled `[[source]]` must have `role = \"primary\"`; there ".to_owned();
                if text::has_char(primaries.as_str(), ',') {
                    said.append("are");
                } else {
                    said.append("is");
                }
                said.append(" ");
                said.append(primaries.as_str());
                said.append(". Every source's payloads reach one adapter and no event carries the source it came from, so this is a publisher-wide rule and not a per-feed one");
                said
            },
            StartupError::SeveralSourceIds { one, another } => {
                let mut said: String = "two enabled `[[feed]]` blocks name different source ids, ".to_owned();
                said.append(text::number(*one as u64).as_str());
                said.append(" and ");
                said.append(text::number(*another as u64).as_str());
                said
            },
            StartupError::NoEnabledFeed => "no `[[feed]]` block is enabled: this publisher would emit nothing".to_owned(),
            StartupError::BadSourceId { source_id } => {
                let mut said: String = "`[[feed]] source_id = ".to_owned();
                said.append(text::number(*source_id as u64).as_str());
                said.append("` is not a Source ID the registry admits; assigned production ids are 1-1023 and private or experimental ids are 32768-65535");
                said
            },
            StartupError::NotAnAddress { key, value } => {
                let mut said: String = "`".to_owned();
                said.append(key);
                said.append(" = \"");
                said.append(value.as_str());
                said.append("\"` is not an IPv4 address");
                said
            },
            StartupError::NotMulticast { group } => {
                let mut said: String = "`[[feed]] multicast_group = \"".to_owned();
                said.append(group.to_text().as_str());
                said.append("\"` is not a multicast address");
                said
            },
            StartupError::BadPrefix { source } => {
                let mut said: String = "`[egress] expected_prefix`: ".to_owned();
                said.append(source.as_str());
                said
            },
            StartupError::ZeroPort { key } => {
                let mut said: String = "`[[feed]] ".to_owned();
                said.append(key);
                said.append("` is 0, which is not a destination port");
                said
            },
            StartupError::PortsCollide { left, right, port } => {
                let mut said: String = "`[[feed]] ".to_owned();
                said.append(left);
                said.append("` and `");
                said.append(right);
                said.append("` are both port ");
                said.append(text::number(*port as u64).as_str());
                said
            },
            StartupError::ZeroDuration { key } => {
                let mut said: String = "`".to_owned();
                said.append(key);
                said.append("` must be greater than zero");
                said
            },
            StartupError::Selection { source } => {
                let mut said: String = "`[refdata.selection]`: ".to_owned();
                said.append(source.as_str());
                said
            },
            StartupError::NotACredentialPath { key, what } => {
                let mut said: String = "`[adapter.credentials] ".to_owned();
                said.append(key.as_str());
                said.append("` is ");
                said.append(what);
                said.append("; credentials are paths to files");
                said
            },
            StartupError::Refdata { source } => source.clone(),
            StartupError::Era { source } => source.clone(),
            StartupError::Transmitter { source } => source.clone(),
            StartupError::VenueMetric { source } => {
                let mut said: String = "the venue's own metrics were refused: ".to_owned();
                said.append(source.as_str());
                said
            },
            StartupError::Metrics { addr, source } => {
                let mut said: String = "the metrics endpoint could not be bound to ".to_owned();
                said.append(addr.as_str());
                said.append(": ");
                said.append(source.as_str());
                said
            },
            StartupError::Runtime { source } => {
                let mut said: String = "the async runtime could not be started: ".to_owned();
                said.append(source.as_str());
                said
            },
            StartupError::NoConfigPath { usage } => {
                let mut said: String = "no configuration file: ".to_owned();
                said.append(usage);
                said
            },
            StartupError::OptionNeedsValue { option, usage } => {
                let mut said: String = "`".to_owned();
                said.append(option);
                said.append("` needs a value: ");
                said.append(usage);
                said
            },
            StartupError::UnknownOption { option, usage } => {
                let mut said: String = "`".to_owned();
                said.append(option.as_str());
                said.append("` is not an option: ");
                said.append(usage);
                said
            },
            StartupError::TwoConfigPaths { first, second, usage } => {
                let mut said: String = "two configuration files, `".to_owned();
                said.append(first.as_str());
                said.append("` and `");
                said.append(second.as_str());
                said.append("`: ");
                said.append(usage);
                said
            },
            StartupError::TeeWithoutPath => "[adapter.tee] is enabled but names no path".to_owned(),
            StartupError::Tee { path, source } => {
                let mut said: String = "the reference stream for ".to_owned();
                said.append(path.as_str());
                said.append(" would not open: ");
                said.append(source.as_str());
                said
            },
            StartupError::ReplayWithoutPath => "[adapter.replay] is enabled but names no path".to_owned(),
            StartupError::Replay { source } => {
                let mut said: String = "the replay directory cannot be used: ".to_owned();
                said.append(source.as_str());
                said
            },
        }
    }
}

impl Refusal {
    /// See [`StartupError::cause`].
    pub open spec fn cause(self) -> Option<Seq<char>> {
        match self {
            Refusal::Read { source, .. } => Some(source),
            Refusal::Document { source } => Some(source),
            Refusal::AdapterInit { source, .. } => Some(source),
            Refusal::BadPrefix { source } => Some(source),
            Refusal::Selection { source } => Some(source),
            Refusal::VenueMetric { source } => Some(source),
            Refusal::Metrics { source, .. } => Some(source),
            Refusal::Runtime { source } => Some(source),
            Refusal::Tee { source, .. } => Some(source),
            Refusal::Replay { source } => Some(source),
            _ => None,
        }
    }
}

impl StartupError {
    /// What another component said, where this is not only its words: those that
    /// are nothing else have no cause but themselves.
    pub fn cause(&self) -> (cause: Option<&str>)
        ensures
            match cause {
                Some(said) => self@.cause() == Some(said@),
                None => self@.cause() is None,
            },
    {
        match self {
            StartupError::Read { source, .. } => Some(source.as_str()),
            StartupError::Document { source } => Some(source.as_str()),
            StartupError::AdapterInit { source, .. } => Some(source.as_str()),
            StartupError::BadPrefix { source } => Some(source.as_str()),
            StartupError::Selection { source } => Some(source.as_str()),
            StartupError::VenueMetric { source } => Some(source.as_str()),
            StartupError::Metrics { source, .. } => Some(source.as_str()),
            StartupError::Runtime { source } => Some(source.as_str()),
            StartupError::Tee { source, .. } => Some(source.as_str()),
            StartupError::Replay { source } => Some(source.as_str()),
            _ => None,
        }
    }
}

/// Whether two texts stand in a third, one behind the other.
pub open spec fn stand_in_turn(one: Seq<char>, other: Seq<char>, whole: Seq<char>) -> bool {
    exists|before: Seq<char>, between: Seq<char>, after: Seq<char>|
        whole == #[trigger] (before + one + between + other + after)
}

impl Refusal {
    /// Everything a refusal carries is in the line an operator is shown, and in its
    /// order; what is only another component's words is shown as these words.
    pub proof fn an_operator_is_shown_all_of_it(self)
        ensures
            match self {
                Refusal::Read { path, source } => {
                    &&& registry::stands_in(path, self.message())
                    &&& registry::stands_in(source, self.message())
                    &&& stand_in_turn(path, source, self.message())
                },
                Refusal::Document { source } => {
                    &&& registry::stands_in(source, self.message())
                },
                Refusal::UnknownAdapterKind { token, registered } => {
                    &&& registry::stands_in(token, self.message())
                    &&& registry::stands_in(registered, self.message())
                    &&& stand_in_turn(token, registered, self.message())
                },
                Refusal::AdapterInit { kind, source } => {
                    &&& registry::stands_in(kind, self.message())
                    &&& registry::stands_in(source, self.message())
                    &&& stand_in_turn(kind, source, self.message())
                },
                Refusal::Ingress { source } => {
                    &&& self.message() == source
                },
                Refusal::KindNamedTwice { document, sources } => {
                    &&& registry::stands_in(document, self.message())
                    &&& registry::stands_in(text::decimal(sources as nat), self.message())
                    &&& stand_in_turn(document, text::decimal(sources as nat), self.message())
                },
                Refusal::UnsupportedFeedSpec { spec, supported } => {
                    &&& registry::stands_in(spec, self.message())
                    &&& registry::stands_in(supported, self.message())
                    &&& stand_in_turn(spec, supported, self.message())
                },
                Refusal::UnsafeShardName { spec, shard } => {
                    &&& registry::stands_in(spec, self.message())
                    &&& registry::stands_in(shard, self.message())
                    &&& stand_in_turn(spec, shard, self.message())
                },
                Refusal::ReservedShardName { spec, shard } => {
                    &&& registry::stands_in(spec, self.message())
                    &&& registry::stands_in(shard, self.message())
                    &&& stand_in_turn(spec, shard, self.message())
                },
                Refusal::SnapshotPortRequired { spec } => {
                    &&& registry::stands_in(spec, self.message())
                },
                Refusal::SnapshotPortNotCarried { spec, port } => {
                    &&& registry::stands_in(spec, self.message())
                    &&& registry::stands_in(text::decimal(port as nat), self.message())
                    &&& stand_in_turn(spec, text::decimal(port as nat), self.message())
                },
                Refusal::SnapshotCycleWithoutPort { spec } => {
                    &&& registry::stands_in(spec, self.message())
                },
                Refusal::FeedsDisagree { key, one, another } => {
                    &&& registry::stands_in(key, self.message())
                    &&& registry::stands_in(duration::shown(one), self.message())
                    &&& registry::stands_in(duration::shown(another), self.message())
                    &&& stand_in_turn(key, duration::shown(one), self.message())
                    &&& stand_in_turn(duration::shown(one), duration::shown(another), self.message())
                },
                Refusal::DuplicateFeedShard { spec, shard } => {
                    &&& registry::stands_in(spec, self.message())
                    &&& registry::stands_in(shard, self.message())
                    &&& stand_in_turn(spec, shard, self.message())
                },
                Refusal::DuplicateChannelId { channel_id, first_spec, first_shard, second_spec, second_shard } => {
                    &&& registry::stands_in(text::decimal(channel_id as nat), self.message())
                    &&& registry::stands_in(first_spec, self.message())
                    &&& registry::stands_in(first_shard, self.message())
                    &&& registry::stands_in(second_spec, self.message())
                    &&& registry::stands_in(second_shard, self.message())
                    &&& stand_in_turn(text::decimal(channel_id as nat), first_spec, self.message())
                    &&& stand_in_turn(first_spec, first_shard, self.message())
                    &&& stand_in_turn(first_shard, second_spec, self.message())
                    &&& stand_in_turn(second_spec, second_shard, self.message())
                },
                Refusal::ShardSpecsDisagree { shard, spec } => {
                    &&& registry::stands_in(shard, self.message())
                    &&& registry::stands_in(spec, self.message())
                    &&& stand_in_turn(shard, spec, self.message())
                },
                Refusal::ShardWithNoFeed { shard } => {
                    &&& registry::stands_in(shard, self.message())
                },
                Refusal::SourcesUndeclared { built } => {
                    &&& registry::stands_in(text::decimal(built as nat), self.message())
                },
                Refusal::SourcesDisagree { declared, built } => {
                    &&& registry::stands_in(declared, self.message())
                    &&& registry::stands_in(built, self.message())
                    &&& stand_in_turn(declared, built, self.message())
                },
                Refusal::SourceNameNotTrimmed { name, trimmed } => {
                    &&& registry::stands_in(name, self.message())
                    &&& registry::stands_in(trimmed, self.message())
                    &&& registry::stands_in(name, self.message())
                    &&& stand_in_turn(name, trimmed, self.message())
                    &&& stand_in_turn(trimmed, name, self.message())
                },
                Refusal::DuplicateSourceName { name } => {
                    &&& registry::stands_in(name, self.message())
                },
                Refusal::UnknownSourceRole { token, supported } => {
                    &&& registry::stands_in(token, self.message())
                    &&& registry::stands_in(supported, self.message())
                    &&& stand_in_turn(token, supported, self.message())
                },
                Refusal::SourceCredentialsShared { one, another } => {
                    &&& registry::stands_in(one, self.message())
                    &&& registry::stands_in(another, self.message())
                    &&& stand_in_turn(one, another, self.message())
                },
                Refusal::SourcePrimaries { primaries } => {
                    &&& registry::stands_in(primaries, self.message())
                },
                Refusal::SeveralSourceIds { one, another } => {
                    &&& registry::stands_in(text::decimal(one as nat), self.message())
                    &&& registry::stands_in(text::decimal(another as nat), self.message())
                    &&& stand_in_turn(text::decimal(one as nat), text::decimal(another as nat), self.message())
                },
                Refusal::BadSourceId { source_id } => {
                    &&& registry::stands_in(text::decimal(source_id as nat), self.message())
                },
                Refusal::NotAnAddress { key, value } => {
                    &&& registry::stands_in(key, self.message())
                    &&& registry::stands_in(value, self.message())
                    &&& stand_in_turn(key, value, self.message())
                },
                Refusal::NotMulticast { group } => {
                    &&& registry::stands_in(address::dotted(group), self.message())
                },
                Refusal::BadPrefix { source } => {
                    &&& registry::stands_in(source, self.message())
                },
                Refusal::ZeroPort { key } => {
                    &&& registry::stands_in(key, self.message())
                },
                Refusal::PortsCollide { left, right, port } => {
                    &&& registry::stands_in(left, self.message())
                    &&& registry::stands_in(right, self.message())
                    &&& registry::stands_in(text::decimal(port as nat), self.message())
                    &&& stand_in_turn(left, right, self.message())
                    &&& stand_in_turn(right, text::decimal(port as nat), self.message())
                },
                Refusal::ZeroDuration { key } => {
                    &&& registry::stands_in(key, self.message())
                },
                Refusal::Selection { source } => {
                    &&& registry::stands_in(source, self.message())
                },
                Refusal::NotACredentialPath { key, what } => {
                    &&& registry::stands_in(key, self.message())
                    &&& registry::stands_in(what, self.message())
                    &&& stand_in_turn(key, what, self.message())
                },
                Refusal::Refdata { source } => {
                    &&& self.message() == source
                },
                Refusal::Era { source } => {
                    &&& self.message() == source
                },
                Refusal::Transmitter { source } => {
                    &&& self.message() == source
                },
                Refusal::VenueMetric { source } => {
                    &&& registry::stands_in(source, self.message())
                },
                Refusal::Metrics { addr, source } => {
                    &&& registry::stands_in(addr, self.message())
                    &&& registry::stands_in(source, self.message())
                    &&& stand_in_turn(addr, source, self.message())
                },
                Refusal::Runtime { source } => {
                    &&& registry::stands_in(source, self.message())
                },
                Refusal::NoConfigPath { usage } => {
                    &&& registry::stands_in(usage, self.message())
                },
                Refusal::OptionNeedsValue { option, usage } => {
                    &&& registry::stands_in(option, self.message())
                    &&& registry::stands_in(usage, self.message())
                    &&& stand_in_turn(option, usage, self.message())
                },
                Refusal::UnknownOption { option, usage } => {
                    &&& registry::stands_in(option, self.message())
                    &&& registry::stands_in(usage, self.message())
                    &&& stand_in_turn(option, usage, self.message())
                },
                Refusal::TwoConfigPaths { first, second, usage } => {
                    &&& registry::stands_in(first, self.message())
                    &&& registry::stands_in(second, self.message())
                    &&& registry::stands_in(usage, self.message())
                    &&& stand_in_turn(first, second, self.message())
                    &&& stand_in_turn(second, usage, self.message())
                },
                Refusal::Tee { path, source } => {
                    &&& registry::stands_in(path, self.message())
                    &&& registry::stands_in(source, self.message())
                    &&& stand_in_turn(path, source, self.message())
                },
                Refusal::Replay { source } => {
                    &&& registry::stands_in(source, self.message())
                },
                _ => self.message().len() > 0,
            },
    {
        let said = self.message();
        match self {
            Refusal::Read { path, source } => {
                assert(said =~= ("the configuration file "@) + path + (" could not be read: "@ + source));
                assert(said =~= ("the configuration file "@ + path + " could not be read: "@) + source + Seq::<char>::empty());
                assert(said =~= ("the configuration file "@) + path + (" could not be read: "@) + source + Seq::<char>::empty());
            },
            Refusal::Document { source } => {
                assert(said =~= ("the configuration document is not one this publisher can run: "@) + source + Seq::<char>::empty());
            },
            Refusal::UnknownAdapterKind { token, registered } => {
                assert(said =~= ("`[adapter] kind = \""@) + token + ("\"` names no adapter this binary registered; registered in this binary: "@ + registered));
                assert(said =~= ("`[adapter] kind = \""@ + token + "\"` names no adapter this binary registered; registered in this binary: "@) + registered + Seq::<char>::empty());
                assert(said =~= ("`[adapter] kind = \""@) + token + ("\"` names no adapter this binary registered; registered in this binary: "@) + registered + Seq::<char>::empty());
            },
            Refusal::AdapterInit { kind, source } => {
                assert(said =~= ("the adapter registered as `"@) + kind + ("` could not be constructed: "@ + source));
                assert(said =~= ("the adapter registered as `"@ + kind + "` could not be constructed: "@) + source + Seq::<char>::empty());
                assert(said =~= ("the adapter registered as `"@) + kind + ("` could not be constructed: "@) + source + Seq::<char>::empty());
            },
            Refusal::KindNamedTwice { document, sources } => {
                assert(said =~= ("`[ingress] kind = \""@) + document + ("\"` names a transport in a document whose "@ + text::decimal(sources as nat) + " `[[source]]` blocks name their own; name it in one place"@));
                assert(said =~= ("`[ingress] kind = \""@ + document + "\"` names a transport in a document whose "@) + text::decimal(sources as nat) + (" `[[source]]` blocks name their own; name it in one place"@));
                assert(said =~= ("`[ingress] kind = \""@) + document + ("\"` names a transport in a document whose "@) + text::decimal(sources as nat) + (" `[[source]]` blocks name their own; name it in one place"@));
            },
            Refusal::UnsupportedFeedSpec { spec, supported } => {
                assert(said =~= ("`[[feed]] spec = \""@) + spec + ("\"` is not a feed this build can emit; it can emit: "@ + supported));
                assert(said =~= ("`[[feed]] spec = \""@ + spec + "\"` is not a feed this build can emit; it can emit: "@) + supported + Seq::<char>::empty());
                assert(said =~= ("`[[feed]] spec = \""@) + spec + ("\"` is not a feed this build can emit; it can emit: "@) + supported + Seq::<char>::empty());
            },
            Refusal::UnsafeShardName { spec, shard } => {
                assert(said =~= ("`[[feed]] spec = \""@) + spec + ("\"` names `shard = \""@ + shard + "\"`, which is not 1 to 64 lowercase letters, digits and dashes"@));
                assert(said =~= ("`[[feed]] spec = \""@ + spec + "\"` names `shard = \""@) + shard + ("\"`, which is not 1 to 64 lowercase letters, digits and dashes"@));
                assert(said =~= ("`[[feed]] spec = \""@) + spec + ("\"` names `shard = \""@) + shard + ("\"`, which is not 1 to 64 lowercase letters, digits and dashes"@));
            },
            Refusal::ReservedShardName { spec, shard } => {
                assert(said =~= ("`[[feed]] spec = \""@) + spec + ("\"` names `shard = \""@ + shard + "\"`, which is the default shard; leave `shard` out"@));
                assert(said =~= ("`[[feed]] spec = \""@ + spec + "\"` names `shard = \""@) + shard + ("\"`, which is the default shard; leave `shard` out"@));
                assert(said =~= ("`[[feed]] spec = \""@) + spec + ("\"` names `shard = \""@) + shard + ("\"`, which is the default shard; leave `shard` out"@));
            },
            Refusal::SnapshotPortRequired { spec } => {
                assert(said =~= ("`[[feed]] spec = \""@) + spec + ("\"` carries a snapshot port role and `snapshot_port` is not set"@));
            },
            Refusal::SnapshotPortNotCarried { spec, port } => {
                assert(said =~= ("`[[feed]] spec = \""@) + spec + ("\"` carries no snapshot port role, so `snapshot_port = "@ + text::decimal(port as nat) + "` names a port nothing will send on"@));
                assert(said =~= ("`[[feed]] spec = \""@ + spec + "\"` carries no snapshot port role, so `snapshot_port = "@) + text::decimal(port as nat) + ("` names a port nothing will send on"@));
                assert(said =~= ("`[[feed]] spec = \""@) + spec + ("\"` carries no snapshot port role, so `snapshot_port = "@) + text::decimal(port as nat) + ("` names a port nothing will send on"@));
            },
            Refusal::SnapshotCycleWithoutPort { spec } => {
                assert(said =~= ("`[[feed]] spec = \""@) + spec + ("\"` carries no snapshot port role, so `snapshot_cycle` would pace snapshots nothing sends"@));
            },
            Refusal::FeedsDisagree { key, one, another } => {
                assert(said =~= ("two enabled `[[feed]]` blocks state different `"@) + key + ("`, "@ + duration::shown(one) + " and "@ + duration::shown(another) + ", and this publisher holds one"@));
                assert(said =~= ("two enabled `[[feed]]` blocks state different `"@ + key + "`, "@) + duration::shown(one) + (" and "@ + duration::shown(another) + ", and this publisher holds one"@));
                assert(said =~= ("two enabled `[[feed]]` blocks state different `"@ + key + "`, "@ + duration::shown(one) + " and "@) + duration::shown(another) + (", and this publisher holds one"@));
                assert(said =~= ("two enabled `[[feed]]` blocks state different `"@) + key + ("`, "@) + duration::shown(one) + (" and "@ + duration::shown(another) + ", and this publisher holds one"@));
                assert(said =~= ("two enabled `[[feed]]` blocks state different `"@ + key + "`, "@) + duration::shown(one) + (" and "@) + duration::shown(another) + (", and this publisher holds one"@));
            },
            Refusal::DuplicateFeedShard { spec, shard } => {
                assert(said =~= ("two enabled `[[feed]]` blocks carry `spec = \""@) + spec + ("\"` for shard `"@ + shard + "`"@));
                assert(said =~= ("two enabled `[[feed]]` blocks carry `spec = \""@ + spec + "\"` for shard `"@) + shard + ("`"@));
                assert(said =~= ("two enabled `[[feed]]` blocks carry `spec = \""@) + spec + ("\"` for shard `"@) + shard + ("`"@));
            },
            Refusal::DuplicateChannelId { channel_id, first_spec, first_shard, second_spec, second_shard } => {
                assert(said =~= ("two enabled `[[feed]]` blocks name `channel_id = "@) + text::decimal(channel_id as nat) + ("`: `"@ + first_spec + "` for shard `"@ + first_shard + "` and `"@ + second_spec + "` for shard `"@ + second_shard + "`"@));
                assert(said =~= ("two enabled `[[feed]]` blocks name `channel_id = "@ + text::decimal(channel_id as nat) + "`: `"@) + first_spec + ("` for shard `"@ + first_shard + "` and `"@ + second_spec + "` for shard `"@ + second_shard + "`"@));
                assert(said =~= ("two enabled `[[feed]]` blocks name `channel_id = "@ + text::decimal(channel_id as nat) + "`: `"@ + first_spec + "` for shard `"@) + first_shard + ("` and `"@ + second_spec + "` for shard `"@ + second_shard + "`"@));
                assert(said =~= ("two enabled `[[feed]]` blocks name `channel_id = "@ + text::decimal(channel_id as nat) + "`: `"@ + first_spec + "` for shard `"@ + first_shard + "` and `"@) + second_spec + ("` for shard `"@ + second_shard + "`"@));
                assert(said =~= ("two enabled `[[feed]]` blocks name `channel_id = "@ + text::decimal(channel_id as nat) + "`: `"@ + first_spec + "` for shard `"@ + first_shard + "` and `"@ + second_spec + "` for shard `"@) + second_shard + ("`"@));
                assert(said =~= ("two enabled `[[feed]]` blocks name `channel_id = "@) + text::decimal(channel_id as nat) + ("`: `"@) + first_spec + ("` for shard `"@ + first_shard + "` and `"@ + second_spec + "` for shard `"@ + second_shard + "`"@));
                assert(said =~= ("two enabled `[[feed]]` blocks name `channel_id = "@ + text::decimal(channel_id as nat) + "`: `"@) + first_spec + ("` for shard `"@) + first_shard + ("` and `"@ + second_spec + "` for shard `"@ + second_shard + "`"@));
                assert(said =~= ("two enabled `[[feed]]` blocks name `channel_id = "@ + text::decimal(channel_id as nat) + "`: `"@ + first_spec + "` for shard `"@) + first_shard + ("` and `"@) + second_spec + ("` for shard `"@ + second_shard + "`"@));
                assert(said =~= ("two enabled `[[feed]]` blocks name `channel_id = "@ + text::decimal(channel_id as nat) + "`: `"@ + first_spec + "` for shard `"@ + first_shard + "` and `"@) + second_spec + ("` for shard `"@) + second_shard + ("`"@));
            },
            Refusal::ShardSpecsDisagree { shard, spec } => {
                assert(said =~= ("shard `"@) + shard + ("` has no enabled `[[feed]]` block for `spec = \""@ + spec + "\"`, which another shard has"@));
                assert(said =~= ("shard `"@ + shard + "` has no enabled `[[feed]]` block for `spec = \""@) + spec + ("\"`, which another shard has"@));
                assert(said =~= ("shard `"@) + shard + ("` has no enabled `[[feed]]` block for `spec = \""@) + spec + ("\"`, which another shard has"@));
            },
            Refusal::ShardWithNoFeed { shard } => {
                assert(said =~= ("shard `"@) + shard + ("` has no enabled `[[feed]]` block"@));
            },
            Refusal::SourcesUndeclared { built } => {
                assert(said =~= ("the adapter's constructor returned "@) + text::decimal(built as nat) + (" sources and the document declares none; state one `[[source]]` block per connection"@));
            },
            Refusal::SourcesDisagree { declared, built } => {
                assert(said =~= ("the `[[source]]` blocks and the adapter's transports are different sets: declared "@) + declared + ("; built "@ + built));
                assert(said =~= ("the `[[source]]` blocks and the adapter's transports are different sets: declared "@ + declared + "; built "@) + built + Seq::<char>::empty());
                assert(said =~= ("the `[[source]]` blocks and the adapter's transports are different sets: declared "@) + declared + ("; built "@) + built + Seq::<char>::empty());
            },
            Refusal::SourceNameNotTrimmed { name, trimmed } => {
                assert(said =~= ("`[[source]] name = \""@) + name + ("\"` has leading or trailing whitespace: the name is the `connection` metric label, and `\""@ + trimmed + "\"` and `\""@ + name + "\"` would be two series a dashboard cannot tell apart"@));
                assert(said =~= ("`[[source]] name = \""@ + name + "\"` has leading or trailing whitespace: the name is the `connection` metric label, and `\""@) + trimmed + ("\"` and `\""@ + name + "\"` would be two series a dashboard cannot tell apart"@));
                assert(said =~= ("`[[source]] name = \""@ + name + "\"` has leading or trailing whitespace: the name is the `connection` metric label, and `\""@ + trimmed + "\"` and `\""@) + name + ("\"` would be two series a dashboard cannot tell apart"@));
                assert(said =~= ("`[[source]] name = \""@) + name + ("\"` has leading or trailing whitespace: the name is the `connection` metric label, and `\""@) + trimmed + ("\"` and `\""@ + name + "\"` would be two series a dashboard cannot tell apart"@));
                assert(said =~= ("`[[source]] name = \""@ + name + "\"` has leading or trailing whitespace: the name is the `connection` metric label, and `\""@) + trimmed + ("\"` and `\""@) + name + ("\"` would be two series a dashboard cannot tell apart"@));
            },
            Refusal::DuplicateSourceName { name } => {
                assert(said =~= ("two `[[source]]` blocks are named `"@) + name + ("`"@));
            },
            Refusal::UnknownSourceRole { token, supported } => {
                assert(said =~= ("`[[source]] role = \""@) + token + ("\"` is not a role; the roles are "@ + supported));
                assert(said =~= ("`[[source]] role = \""@ + token + "\"` is not a role; the roles are "@) + supported + Seq::<char>::empty());
                assert(said =~= ("`[[source]] role = \""@) + token + ("\"` is not a role; the roles are "@) + supported + Seq::<char>::empty());
            },
            Refusal::SourceCredentialsShared { one, another } => {
                assert(said =~= ("`[[source]]` blocks `"@) + one + ("` and `"@ + another + "` state the same credentials; a venue that allows one session per credential evicts one of them at the other's logon"@));
                assert(said =~= ("`[[source]]` blocks `"@ + one + "` and `"@) + another + ("` state the same credentials; a venue that allows one session per credential evicts one of them at the other's logon"@));
                assert(said =~= ("`[[source]]` blocks `"@) + one + ("` and `"@) + another + ("` state the same credentials; a venue that allows one session per credential evicts one of them at the other's logon"@));
            },
            Refusal::SourcePrimaries { primaries } => {
                assert(said =~= ("exactly one enabled `[[source]]` must have `role = \"primary\"`; there "@ + (if primaries.contains(',') {
                "are"@
            } else {
                "is"@
            }) + " "@) + primaries + (". Every source's payloads reach one adapter and no event carries the source it came from, so this is a publisher-wide rule and not a per-feed one"@));
            },
            Refusal::SeveralSourceIds { one, another } => {
                assert(said =~= ("two enabled `[[feed]]` blocks name different source ids, "@) + text::decimal(one as nat) + (" and "@ + text::decimal(another as nat)));
                assert(said =~= ("two enabled `[[feed]]` blocks name different source ids, "@ + text::decimal(one as nat) + " and "@) + text::decimal(another as nat) + Seq::<char>::empty());
                assert(said =~= ("two enabled `[[feed]]` blocks name different source ids, "@) + text::decimal(one as nat) + (" and "@) + text::decimal(another as nat) + Seq::<char>::empty());
            },
            Refusal::BadSourceId { source_id } => {
                assert(said =~= ("`[[feed]] source_id = "@) + text::decimal(source_id as nat) + ("` is not a Source ID the registry admits; assigned production ids are 1-1023 and private or experimental ids are 32768-65535"@));
            },
            Refusal::NotAnAddress { key, value } => {
                assert(said =~= ("`"@) + key + (" = \""@ + value + "\"` is not an IPv4 address"@));
                assert(said =~= ("`"@ + key + " = \""@) + value + ("\"` is not an IPv4 address"@));
                assert(said =~= ("`"@) + key + (" = \""@) + value + ("\"` is not an IPv4 address"@));
            },
            Refusal::NotMulticast { group } => {
                assert(said =~= ("`[[feed]] multicast_group = \""@) + address::dotted(group) + ("\"` is not a multicast address"@));
            },
            Refusal::BadPrefix { source } => {
                assert(said =~= ("`[egress] expected_prefix`: "@) + source + Seq::<char>::empty());
            },
            Refusal::ZeroPort { key } => {
                assert(said =~= ("`[[feed]] "@) + key + ("` is 0, which is not a destination port"@));
            },
            Refusal::PortsCollide { left, right, port } => {
                assert(said =~= ("`[[feed]] "@) + left + ("` and `"@ + right + "` are both port "@ + text::decimal(port as nat)));
                assert(said =~= ("`[[feed]] "@ + left + "` and `"@) + right + ("` are both port "@ + text::decimal(port as nat)));
                assert(said =~= ("`[[feed]] "@ + left + "` and `"@ + right + "` are both port "@) + text::decimal(port as nat) + Seq::<char>::empty());
                assert(said =~= ("`[[feed]] "@) + left + ("` and `"@) + right + ("` are both port "@ + text::decimal(port as nat)));
                assert(said =~= ("`[[feed]] "@ + left + "` and `"@) + right + ("` are both port "@) + text::decimal(port as nat) + Seq::<char>::empty());
            },
            Refusal::ZeroDuration { key } => {
                assert(said =~= ("`"@) + key + ("` must be greater than zero"@));
            },
            Refusal::Selection { source } => {
                assert(said =~= ("`[refdata.selection]`: "@) + source + Seq::<char>::empty());
            },
            Refusal::NotACredentialPath { key, what } => {
                assert(said =~= ("`[adapter.credentials] "@) + key + ("` is "@ + what + "; credentials are paths to files"@));
                assert(said =~= ("`[adapter.credentials] "@ + key + "` is "@) + what + ("; credentials are paths to files"@));
                assert(said =~= ("`[adapter.credentials] "@) + key + ("` is "@) + what + ("; credentials are paths to files"@));
            },
            Refusal::VenueMetric { source } => {
                assert(said =~= ("the venue's own metrics were refused: "@) + source + Seq::<char>::empty());
            },
            Refusal::Metrics { addr, source } => {
                assert(said =~= ("the metrics endpoint could not be bound to "@) + addr + (": "@ + source));
                assert(said =~= ("the metrics endpoint could not be bound to "@ + addr + ": "@) + source + Seq::<char>::empty());
                assert(said =~= ("the metrics endpoint could not be bound to "@) + addr + (": "@) + source + Seq::<char>::empty());
            },
            Refusal::Runtime { source } => {
                assert(said =~= ("the async runtime could not be started: "@) + source + Seq::<char>::empty());
            },
            Refusal::NoConfigPath { usage } => {
                assert(said =~= ("no configuration file: "@) + usage + Seq::<char>::empty());
            },
            Refusal::OptionNeedsValue { option, usage } => {
                assert(said =~= ("`"@) + option + ("` needs a value: "@ + usage));
                assert(said =~= ("`"@ + option + "` needs a value: "@) + usage + Seq::<char>::empty());
                assert(said =~= ("`"@) + option + ("` needs a value: "@) + usage + Seq::<char>::empty());
            },
            Refusal::UnknownOption { option, usage } => {
                assert(said =~= ("`"@) + option + ("` is not an option: "@ + usage));
                assert(said =~= ("`"@ + option + "` is not an option: "@) + usage + Seq::<char>::empty());
                assert(said =~= ("`"@) + option + ("` is not an option: "@) + usage + Seq::<char>::empty());
            },
            Refusal::TwoConfigPaths { first, second, usage } => {
                assert(said =~= ("two configuration files, `"@) + first + ("` and `"@ + second + "`: "@ + usage));
                assert(said =~= ("two configuration files, `"@ + first + "` and `"@) + second + ("`: "@ + usage));
                assert(said =~= ("two configuration files, `"@ + first + "` and `"@ + second + "`: "@) + usage + Seq::<char>::empty());
                assert(said =~= ("two configuration files, `"@) + first + ("` and `"@) + second + ("`: "@ + usage));
                assert(said =~= ("two configuration files, `"@ + first + "` and `"@) + second + ("`: "@) + usage + Seq::<char>::empty());
            },
            Refusal::Tee { path, source } => {
                assert(said =~= ("the reference stream for "@) + path + (" would not open: "@ + source));
                assert(said =~= ("the reference stream for "@ + path + " would not open: "@) + source + Seq::<char>::empty());
                assert(said =~= ("the reference stream for "@) + path + (" would not open: "@) + source + Seq::<char>::empty());
            },
            Refusal::Replay { source } => {
                assert(said =~= ("the replay directory cannot be used: "@) + source + Seq::<char>::empty());
            },
            _ => {
                reveal_strlit("the adapter's constructor returned no source: this publisher would read nothing");
                reveal_strlit("a `[[source]]` block has an empty `name`");
                reveal_strlit("every `[[source]]` block is disabled: this publisher would connect to nothing");
                reveal_strlit("no `[[feed]]` block is enabled: this publisher would emit nothing");
                reveal_strlit("[adapter.tee] is enabled but names no path");
                reveal_strlit("[adapter.replay] is enabled but names no path");
            },
        }
    }

    /// What another component said is the cause where it is not all there is to
    /// say, and is shown behind what this library says of it.
    pub proof fn a_cause_is_shown(self)
        ensures
            self.cause() matches Some(said) ==> registry::stands_in(said, self.message()),
            match self {
                Refusal::Read { path, source } => self.cause() == Some(source),
                Refusal::Document { source } => self.cause() == Some(source),
                Refusal::AdapterInit { kind, source } => self.cause() == Some(source),
                Refusal::BadPrefix { source } => self.cause() == Some(source),
                Refusal::Selection { source } => self.cause() == Some(source),
                Refusal::VenueMetric { source } => self.cause() == Some(source),
                Refusal::Metrics { addr, source } => self.cause() == Some(source),
                Refusal::Runtime { source } => self.cause() == Some(source),
                Refusal::Tee { path, source } => self.cause() == Some(source),
                Refusal::Replay { source } => self.cause() == Some(source),
                _ => self.cause() is None,
            },
    {
        self.an_operator_is_shown_all_of_it();
    }
}

} // verus!
