//! The configuration document: its sections, and what they resolve to.
//!
//! What runs takes what has been checked, not what was written: [`Document`] is
//! what a file says and [`Config`] is what a publisher runs on, and the one way
//! from the first to the second is [`Document::resolve`].
//!
//! A section that another component owns is checked by its owner. The owner's
//! answers come in beside the document, as [`Answers`].

use vstd::prelude::*;
use vstd::string::*;

use crate::address::Ipv4Addr;
use crate::duration::Duration;
use crate::error::StartupError;
use crate::registry;
use crate::text;

pub mod document;
pub mod feeds;
pub mod laws;
pub mod sources;

verus! {

/// The shard of a document that names none.
pub const DEFAULT_SHARD: &'static str = "default";

/// Every feed specification this build can emit, as an operator is shown them.
pub const FEED_SPECS: &'static str = "top-of-book, market-by-price";

/// Every role a source may have, as an operator is shown them.
pub const SOURCE_ROLES: &'static str = "primary, comparison, upstream-partition";

/// The hops a datagram may take where the document does not say.
pub const DEFAULT_TTL: u8 = 1;

/// A port role of a feed: which of its destination ports a datagram is for.
#[derive(Debug, Clone, Copy, PartialEq, Eq, Hash, Structural)]
pub enum PortRole {
    Mktdata,
    Refdata,
    Snapshot,
}

impl PortRole {
    /// This role's own name.
    pub fn as_str(&self) -> (name: &'static str)
        ensures
            name@ == self.name(),
    {
        match self {
            PortRole::Mktdata => "mktdata",
            PortRole::Refdata => "refdata",
            PortRole::Snapshot => "snapshot",
        }
    }

    /// See [`PortRole::as_str`].
    pub open spec fn name(self) -> Seq<char> {
        match self {
            PortRole::Mktdata => "mktdata"@,
            PortRole::Refdata => "refdata"@,
            PortRole::Snapshot => "snapshot"@,
        }
    }
}

/// A feed specification this build can emit.
#[derive(Debug, Clone, Copy, PartialEq, Eq, Hash, Structural)]
pub enum FeedSpec {
    TopOfBook,
    MarketByPrice,
}

impl FeedSpec {
    /// See [`FeedSpec::as_str`].
    pub open spec fn name(self) -> Seq<char> {
        match self {
            FeedSpec::TopOfBook => "top-of-book"@,
            FeedSpec::MarketByPrice => "market-by-price"@,
        }
    }

    /// The specification a token names.
    pub open spec fn named(token: Seq<char>) -> Option<FeedSpec> {
        if token == "top-of-book"@ {
            Some(FeedSpec::TopOfBook)
        } else if token == "market-by-price"@ {
            Some(FeedSpec::MarketByPrice)
        } else {
            None
        }
    }

    /// The specification a `[[feed]] spec` names, of the closed set this build
    /// can emit.
    pub fn resolve(token: &str) -> (spec: Option<Self>)
        ensures
            spec == Self::named(token@),
    {
        if text::same(token, "top-of-book") {
            Some(FeedSpec::TopOfBook)
        } else if text::same(token, "market-by-price") {
            Some(FeedSpec::MarketByPrice)
        } else {
            None
        }
    }

    /// This specification's token.
    pub fn as_str(&self) -> (name: &'static str)
        ensures
            name@ == self.name(),
    {
        match self {
            FeedSpec::TopOfBook => "top-of-book",
            FeedSpec::MarketByPrice => "market-by-price",
        }
    }

    /// The port roles this specification carries.
    pub open spec fn roles(self) -> Seq<PortRole> {
        match self {
            FeedSpec::TopOfBook => seq![PortRole::Mktdata, PortRole::Refdata],
            FeedSpec::MarketByPrice => seq![
                PortRole::Mktdata,
                PortRole::Refdata,
                PortRole::Snapshot,
            ],
        }
    }

    /// The port roles this specification carries, in order.
    pub fn port_roles(&self) -> (roles: Vec<PortRole>)
        ensures
            roles@ == self.roles(),
    {
        let mut roles: Vec<PortRole> = Vec::new();
        roles.push(PortRole::Mktdata);
        roles.push(PortRole::Refdata);
        if self.has_snapshot_port() {
            roles.push(PortRole::Snapshot);
        }
        roles
    }

    /// Whether this specification carries a snapshot port role.
    pub fn has_snapshot_port(&self) -> (carries: bool)
        ensures
            carries == self.roles().contains(PortRole::Snapshot),
            carries == (*self == FeedSpec::MarketByPrice),
    {
        proof {
            assert(FeedSpec::MarketByPrice.roles()[2] == PortRole::Snapshot);
        }
        match self {
            FeedSpec::TopOfBook => false,
            FeedSpec::MarketByPrice => true,
        }
    }
}

/// A publisher's registered identity on the wire.
#[derive(Debug, Clone, Copy, PartialEq, Eq, Hash, Structural)]
pub struct SourceId {
    value: u16,
}

impl View for SourceId {
    type V = u16;

    closed spec fn view(&self) -> u16 {
        self.value
    }
}

impl SourceId {
    /// Whether the registry admits a number: assigned production ids are 1 to
    /// 1023, private and experimental ones 32768 and up, and everything else is
    /// reserved.
    pub open spec fn admits(value: u16) -> bool {
        1 <= value <= 1023 || value >= 32768
    }

    #[verifier::type_invariant]
    closed spec fn admitted(self) -> bool {
        Self::admits(self.value)
    }

    /// A source id, or `None` for a number the registry does not admit.
    pub fn new(value: u16) -> (id: Option<Self>)
        ensures
            match id {
                Some(admitted) => Self::admits(value) && admitted@ == value,
                None => !Self::admits(value),
            },
    {
        if (1 <= value && value <= 1023) || value >= 32768 {
            Some(Self { value })
        } else {
            None
        }
    }

    /// The number.
    pub fn get(&self) -> (value: u16)
        ensures
            value == self@,
            Self::admits(value),
    {
        proof {
            use_type_invariant(self);
        }
        self.value
    }
}

/// Which shard of the instrument set a block carries, in the venue's own word.
///
/// A shard name becomes a path component in two places, so it is checked once,
/// where the value enters the process: whoever holds one holds a name that is
/// safe to write.
#[derive(Debug, PartialEq, Eq, PartialOrd, Ord, Hash)]
pub struct ShardName {
    name: String,
}

/// Whether text can be a shard's name: 1 to 64 lowercase letters, digits and
/// dashes.
pub open spec fn is_shard_name(name: Seq<char>) -> bool {
    &&& 0 < name.len() <= 64
    &&& forall|i: int| 0 <= i < name.len() ==> is_shard_char(#[trigger] name[i])
}

pub open spec fn is_shard_char(c: char) -> bool {
    'a' <= c <= 'z' || '0' <= c <= '9' || c == '-'
}

fn shard_name(name: &str) -> (safe: bool)
    ensures
        safe == is_shard_name(name@),
{
    let length: usize = name.unicode_len();
    if length == 0 || length > 64 {
        return false;
    }
    let mut at: usize = 0;
    while at < length
        invariant
            at <= length,
            length == name@.len(),
            forall|i: int| 0 <= i < at ==> is_shard_char(#[trigger] name@[i]),
        decreases length - at,
    {
        let c: char = name.get_char(at);
        let code: u32 = c as u32;
        if !((97 <= code && code <= 122) || (48 <= code && code <= 57) || c == '-') {
            proof {
                assert(!is_shard_char(name@[at as int]));
            }
            return false;
        }
        at += 1;
    }
    true
}

/// The default shard's token is a shard name like any other.
pub proof fn the_default_shard_is_a_shard_name()
    ensures
        is_shard_name(DEFAULT_SHARD@),
{
    reveal_strlit("default");
}

impl View for ShardName {
    type V = Seq<char>;

    closed spec fn view(&self) -> Seq<char> {
        self.name@
    }
}

impl Clone for ShardName {
    fn clone(&self) -> (copy: Self)
        ensures
            copy == *self,
    {
        proof {
            use_type_invariant(self);
        }
        Self { name: self.name.clone() }
    }
}

impl ShardName {
    #[verifier::type_invariant]
    closed spec fn safe(self) -> bool {
        is_shard_name(self.name@)
    }

    /// A shard name, or `None` for one that cannot be a path component.
    pub fn new(value: &str) -> (shard: Option<Self>)
        ensures
            match shard {
                Some(named) => is_shard_name(value@) && named@ == value@,
                None => !is_shard_name(value@),
            },
    {
        if shard_name(value) {
            Some(Self { name: value.to_owned() })
        } else {
            None
        }
    }

    /// The default shard, for a document that names none.
    pub fn default_shard() -> (shard: Self)
        ensures
            shard@ == DEFAULT_SHARD@,
    {
        proof {
            the_default_shard_is_a_shard_name();
        }
        Self { name: DEFAULT_SHARD.to_owned() }
    }

    /// Whether this is the default, which a block may not spell explicitly.
    pub fn is_default(&self) -> (default: bool)
        ensures
            default == (self@ == DEFAULT_SHARD@),
    {
        text::same(self.name.as_str(), DEFAULT_SHARD)
    }

    /// The name, which can be a path component.
    pub fn as_str(&self) -> (name: &str)
        ensures
            name@ == self@,
            is_shard_name(name@),
    {
        proof {
            use_type_invariant(self);
        }
        self.name.as_str()
    }

    /// Whether two names are one shard.
    pub fn same_shard(&self, other: &Self) -> (same: bool)
        ensures
            same == (self@ == other@),
    {
        text::same(self.name.as_str(), other.name.as_str())
    }

    /// This shard as era files are keyed: by its name, and the default shard by
    /// none, so that its era file keeps the name it had before there were
    /// shards.
    pub fn era_shard(&self) -> (keyed: Option<&str>)
        ensures
            match keyed {
                None => self@ == DEFAULT_SHARD@,
                Some(name) => self@ != DEFAULT_SHARD@ && name@ == self@,
            },
    {
        if self.is_default() {
            None
        } else {
            Some(self.name.as_str())
        }
    }
}

/// What this publisher does with a source.
#[derive(Debug, Clone, Copy, PartialEq, Eq, Hash, Structural)]
pub enum SourceRole {
    /// The one whose data the publisher is published from.
    Primary,
    /// Read beside the primary, to be compared with it.
    Comparison,
    /// One of several connections an upstream splits its data over.
    UpstreamPartition,
}

impl SourceRole {
    /// The role a token names.
    pub open spec fn named(token: Seq<char>) -> Option<SourceRole> {
        if token == "primary"@ {
            Some(SourceRole::Primary)
        } else if token == "comparison"@ {
            Some(SourceRole::Comparison)
        } else if token == "upstream-partition"@ {
            Some(SourceRole::UpstreamPartition)
        } else {
            None
        }
    }

    /// The role a `[[source]] role` names.
    pub fn resolve(token: &str) -> (role: Option<Self>)
        ensures
            role == Self::named(token@),
    {
        if text::same(token, "primary") {
            Some(SourceRole::Primary)
        } else if text::same(token, "comparison") {
            Some(SourceRole::Comparison)
        } else if text::same(token, "upstream-partition") {
            Some(SourceRole::UpstreamPartition)
        } else {
            None
        }
    }

    /// Whether a connection of this role that gives up takes the publisher with
    /// it. A comparison's does not: what it brings must not reach the wire, so
    /// neither must its misconfiguration.
    pub fn fatal_error_ends_the_process(&self) -> (ends: bool)
        ensures
            ends == (*self != SourceRole::Comparison),
    {
        match self {
            SourceRole::Primary => true,
            SourceRole::Comparison => false,
            SourceRole::UpstreamPartition => true,
        }
    }
}

/// A transport, by the token it answers to.
#[derive(Debug, PartialEq, Eq)]
pub struct Kind {
    pub token: String,
}

/// `[[source]]`: one upstream connection, and what this publisher does with it.
#[derive(Debug)]
pub struct SourceSection {
    /// The connection's name, and the label on every series it moves.
    pub name: String,
    /// Which transport carries it.
    pub ingress: String,
    /// `false` keeps the block and opens nothing.
    pub enabled: bool,
    pub role: Option<String>,
    /// The venue's own endpoint keys for this source.
    pub upstream: toml::map::Map<String, toml::Value>,
    /// Paths, never secrets.
    pub credentials: toml::map::Map<String, toml::Value>,
}

/// One enabled source, checked.
#[derive(Debug)]
pub struct Source {
    pub connection: String,
    pub kind: Kind,
    pub role: SourceRole,
    pub upstream: toml::map::Map<String, toml::Value>,
    pub credentials: toml::map::Map<String, toml::Value>,
}

impl Source {
    /// Whether this is the source the publisher is published from.
    pub fn is_primary(&self) -> (primary: bool)
        ensures
            primary == (self.role == SourceRole::Primary),
    {
        self.role == SourceRole::Primary
    }
}

/// One `[[feed]]` block.
///
/// `definition_cycle` and `idle_guard` are per block in the document and single
/// in the publisher, so a stated value has to be told apart from an absent one:
/// an omission is not a disagreement.
#[derive(Debug, Clone)]
pub struct FeedSection {
    pub spec: String,
    pub enabled: bool,
    pub channel_id: u8,
    pub shard: Option<String>,
    pub source_id: u16,
    pub multicast_group: String,
    pub mktdata_port: u16,
    pub refdata_port: u16,
    pub snapshot_port: Option<u16>,
    pub snapshot_cycle: Option<Duration>,
    pub heartbeat_interval: Duration,
    pub definition_cycle: Option<Duration>,
    pub manifest_cadence: Duration,
    pub idle_guard: Option<Duration>,
}

/// One feed's configuration, checked.
#[derive(Debug, Clone)]
pub struct Feed {
    pub spec: FeedSpec,
    pub shard: ShardName,
    pub channel_id: u8,
    pub source_id: SourceId,
    pub group: Ipv4Addr,
    pub mktdata_port: u16,
    pub refdata_port: u16,
    pub snapshot_port: Option<u16>,
    pub snapshot_cycle: Option<Duration>,
    pub heartbeat_interval: Duration,
    pub definition_cycle: Duration,
    pub manifest_cadence: Duration,
    pub idle_guard: Duration,
}

/// An IPv4 prefix.
#[derive(Debug, Clone, Copy, PartialEq, Eq, Hash, Structural)]
pub struct Ipv4Prefix {
    pub network: Ipv4Addr,
    pub length: u8,
}

/// `[egress]`: how the source address is chosen, and the TTL.
#[derive(Debug, Clone)]
pub struct EgressSection {
    /// An invariant on the discovered address, not a source of one.
    pub expected_prefix: Option<String>,
    /// An operator's override of route discovery.
    pub pin: Option<String>,
    pub ttl: u8,
}

impl Default for EgressSection {
    /// The policy of a host whose route is right: discover the source address,
    /// assert nothing of it, one hop.
    fn default() -> (section: Self)
        ensures
            section.expected_prefix is None,
            section.pin is None,
            section.ttl == DEFAULT_TTL,
    {
        Self { expected_prefix: None, pin: None, ttl: DEFAULT_TTL }
    }
}

/// `[egress]`, checked.
#[derive(Debug, Clone, Copy, PartialEq, Eq, Structural)]
pub struct EgressPolicy {
    pub pin: Option<Ipv4Addr>,
    pub expected_prefix: Option<Ipv4Prefix>,
    pub ttl: u8,
}

/// `[refdata.selection]`: how many instruments are published. All three are
/// stated rather than defaulted.
#[derive(Debug, Clone, Copy, PartialEq, Eq, Structural)]
pub struct SelectionSection {
    pub bootstrap_top_n: usize,
    pub max_published: usize,
    pub warn_published_above: usize,
}

/// `[refdata]`.
#[derive(Debug, Clone)]
pub struct RefdataSection {
    /// Durable state, not a cache: it takes exactly one writer.
    pub state_dir: String,
    pub selection: SelectionSection,
}

/// `[metrics]`. The address is a socket address in its text form.
#[derive(Debug, Clone)]
pub struct MetricsSection {
    pub enabled: bool,
    pub listen_addr: String,
}

impl Default for MetricsSection {
    /// On, and bound to loopback: the exposition describes a live data path.
    fn default() -> (section: Self)
        ensures
            section.enabled,
            section.listen_addr@ == "127.0.0.1:9100"@,
    {
        Self { enabled: true, listen_addr: "127.0.0.1:9100".to_owned() }
    }
}

/// `[adapter.replay]`: where captured payloads are read from in place of a
/// connection.
#[derive(Debug, Clone)]
pub struct ReplayConfig {
    pub enabled: bool,
    pub path: Option<String>,
}

/// `[adapter.tee]`: where a byte-identical copy of every datagram goes.
///
/// `path` is a prefix. A Unix datagram carries neither a destination port nor a
/// group, so each feed, shard and port role has a socket of its own and all
/// three are in its name; the default shard is spelled by its absence.
#[derive(Debug, Clone, PartialEq, Eq)]
pub struct TeeConfig {
    pub enabled: bool,
    pub path: Option<String>,
}

/// `[adapter]`.
#[derive(Debug)]
pub struct AdapterConfig {
    pub kind: String,
    pub tee: TeeConfig,
    /// Endpoints. Keys defined by the adapter.
    pub upstream: toml::map::Map<String, toml::Value>,
    /// Paths only, never inline secrets.
    pub credentials: toml::map::Map<String, toml::Value>,
    pub replay: ReplayConfig,
}

/// What is appended to the prefix for one channel instance's one port role.
pub open spec fn tee_suffix(spec: FeedSpec, shard: Seq<char>, role: PortRole) -> Seq<char> {
    if shard == DEFAULT_SHARD@ {
        "."@ + spec.name() + "."@ + role.name()
    } else {
        "."@ + spec.name() + "."@ + shard + "."@ + role.name()
    }
}

impl TeeConfig {
    /// The socket one channel instance's one port role is copied to:
    /// `<path>.<feed spec>.<shard>.<port role>`, and
    /// `<path>.<feed spec>.<port role>` for the default shard.
    ///
    /// # Errors
    ///
    /// [`StartupError::TeeWithoutPath`] when no path is named.
    pub fn destination(&self, spec: FeedSpec, shard: &ShardName, port_role: PortRole) -> (socket:
        Result<String, StartupError>)
        ensures
            match self.path {
                None => socket matches Err(error) && error@ == crate::error::Refusal::TeeWithoutPath,
                Some(prefix) => socket matches Ok(name) && name@ == prefix@ + tee_suffix(
                    spec,
                    shard@,
                    port_role,
                ),
            },
    {
        match &self.path {
            None => Err(StartupError::TeeWithoutPath),
            Some(prefix) => {
                let mut suffix: String = ".".to_owned();
                suffix.append(spec.as_str());
                if !shard.is_default() {
                    suffix.append(".");
                    suffix.append(shard.as_str());
                }
                suffix.append(".");
                suffix.append(port_role.as_str());
                let mut socket: String = prefix.clone();
                socket.append(suffix.as_str());
                Ok(socket)
            },
        }
    }
}

/// Two copies go to one socket only where they are of one feed, one shard and
/// one port role.
pub proof fn tee_sockets_are_distinct(
    prefix: Seq<char>,
    one: (FeedSpec, Seq<char>, PortRole),
    other: (FeedSpec, Seq<char>, PortRole),
)
    requires
        is_shard_name(one.1),
        is_shard_name(other.1),
        prefix + tee_suffix(one.0, one.1, one.2) == prefix + tee_suffix(other.0, other.1, other.2),
    ensures
        one == other,
{
    reveal_strlit(".");
    reveal_strlit("top-of-book");
    reveal_strlit("market-by-price");
    reveal_strlit("mktdata");
    reveal_strlit("refdata");
    reveal_strlit("snapshot");
    let left = tee_suffix(one.0, one.1, one.2);
    let right = tee_suffix(other.0, other.1, other.2);
    assert((prefix + left).subrange(prefix.len() as int, (prefix + left).len() as int) =~= left);
    assert((prefix + right).subrange(prefix.len() as int, (prefix + right).len() as int) =~= right);
    assert(left[1] == one.0.name()[0]);
    assert(right[1] == other.0.name()[0]);
    let cut = 1 + one.0.name().len() as int;
    let end = left.len() as int;
    assert(end == right.len());
    if one.1 == DEFAULT_SHARD@ && other.1 == DEFAULT_SHARD@ {
        assert(left[cut + 1] == one.2.name()[0]);
        assert(right[cut + 1] == other.2.name()[0]);
    } else if one.1 == DEFAULT_SHARD@ {
        a_named_shard_is_between_stops(other.0, other.1, other.2);
        a_role_holds_no_stop(one.2);
        let at = cut + 1 + other.1.len();
        assert(right[at] == '.');
        assert(left[at] == one.2.name()[at - cut - 1]);
    } else if other.1 == DEFAULT_SHARD@ {
        a_named_shard_is_between_stops(one.0, one.1, one.2);
        a_role_holds_no_stop(other.2);
        let at = cut + 1 + one.1.len();
        assert(left[at] == '.');
        assert(right[at] == other.2.name()[at - cut - 1]);
    } else {
        a_named_shard_is_between_stops(one.0, one.1, one.2);
        a_named_shard_is_between_stops(other.0, other.1, other.2);
        if one.1.len() < other.1.len() {
            let at = cut + 1 + one.1.len();
            assert(left[at] == '.');
            assert(right[at] == other.1[one.1.len() as int]);
        } else if one.1.len() > other.1.len() {
            let at = cut + 1 + other.1.len();
            assert(right[at] == '.');
            assert(left[at] == one.1[other.1.len() as int]);
        }
        assert(left.subrange(cut + 1, cut + 1 + one.1.len()) =~= one.1);
        assert(right.subrange(cut + 1, cut + 1 + other.1.len()) =~= other.1);
        let at = cut + 2 + one.1.len();
        assert(left[at] == one.2.name()[0]);
        assert(right[at] == other.2.name()[0]);
    }
}

proof fn a_role_holds_no_stop(role: PortRole)
    ensures
        forall|i: int| 0 <= i < role.name().len() ==> #[trigger] role.name()[i] != '.',
{
    reveal_strlit("mktdata");
    reveal_strlit("refdata");
    reveal_strlit("snapshot");
}

proof fn a_named_shard_is_between_stops(spec: FeedSpec, shard: Seq<char>, role: PortRole)
    requires
        shard != DEFAULT_SHARD@,
    ensures
        ({
            let suffix = tee_suffix(spec, shard, role);
            let cut = 1 + spec.name().len() as int;
            &&& suffix.len() == cut + 2 + shard.len() + role.name().len()
            &&& forall|i: int| 0 <= i < shard.len() ==> #[trigger] suffix[cut + 1 + i] == shard[i]
            &&& suffix[cut + 1 + shard.len()] == '.'
        }),
{
    reveal_strlit(".");
}

/// A specification is named by its own token, and no other token names one.
pub proof fn a_token_names_its_specification(token: Seq<char>)
    ensures
        FeedSpec::named("top-of-book"@) == Some(FeedSpec::TopOfBook),
        FeedSpec::named("market-by-price"@) == Some(FeedSpec::MarketByPrice),
        token != "top-of-book"@ && token != "market-by-price"@ ==> FeedSpec::named(token) is None,
        FeedSpec::named(token) matches Some(spec) ==> spec.name() == token,
        FeedSpec::TopOfBook.name() == "top-of-book"@,
        FeedSpec::MarketByPrice.name() == "market-by-price"@,
        PortRole::Mktdata.name() == "mktdata"@,
        PortRole::Refdata.name() == "refdata"@,
        PortRole::Snapshot.name() == "snapshot"@,
{
    reveal_strlit("top-of-book");
    reveal_strlit("market-by-price");
    assert("top-of-book"@.len() == 11);
    assert("market-by-price"@.len() == 15);
}

/// Every feed sends market data and reference data, and a depth feed snapshots as
/// well.
pub proof fn only_a_depth_feed_has_snapshots(spec: FeedSpec)
    ensures
        spec.roles().contains(PortRole::Mktdata),
        spec.roles().contains(PortRole::Refdata),
        spec.roles().contains(PortRole::Snapshot) <==> spec == FeedSpec::MarketByPrice,
        spec.roles().no_duplicates(),
{
    assert(spec.roles()[0] == PortRole::Mktdata && spec.roles()[1] == PortRole::Refdata);
    if spec == FeedSpec::MarketByPrice {
        assert(spec.roles()[2] == PortRole::Snapshot);
    }
}

/// A role is named by its own token, and no other token names one.
pub proof fn a_token_names_its_role(token: Seq<char>)
    ensures
        SourceRole::named("primary"@) == Some(SourceRole::Primary),
        SourceRole::named("comparison"@) == Some(SourceRole::Comparison),
        SourceRole::named("upstream-partition"@) == Some(SourceRole::UpstreamPartition),
        token != "primary"@ && token != "comparison"@ && token != "upstream-partition"@
            ==> SourceRole::named(token) is None,
{
    reveal_strlit("primary");
    reveal_strlit("comparison");
    reveal_strlit("upstream-partition");
    assert("primary"@.len() == 7);
    assert("comparison"@.len() == 10);
    assert("upstream-partition"@.len() == 18);
}

/// The source ids there are: the assigned ones and the private ones.
pub proof fn the_source_ids_there_are(value: u16)
    ensures
        SourceId::admits(value) <==> (0 < value && value < 1024) || 32767 < value,
{
}

/// A shard name is made of lower-case letters, digits and hyphens, so that it is a
/// path component and no separator.
pub proof fn the_characters_of_a_shard_name(c: char)
    ensures
        is_shard_char(c) <==> {
            let code = c as u32;
            (97 <= code && code <= 122) || (48 <= code && code <= 57) || code == 45
        },
{
}

/// It has one to sixty-four of them, and no other character.
pub proof fn a_shard_name_is_a_path_component(name: Seq<char>)
    ensures
        is_shard_name(name) <==> 1 <= name.len() && name.len() <= 64 && forall|i: int|
            0 <= i < name.len() ==> is_shard_char(#[trigger] name[i]),
{
}

/// The socket a copy goes to names the feed, the shard and the port role in this
/// order, and leaves out the default shard.
pub proof fn a_tee_socket_names_what_it_copies(spec: FeedSpec, shard: Seq<char>, role: PortRole)
    ensures
        shard == "default"@ ==> tee_suffix(spec, shard, role) == "."@ + spec.name() + "."@
            + role.name(),
        shard != "default"@ ==> tee_suffix(spec, shard, role) == "."@ + spec.name() + "."@ + shard
            + "."@ + role.name(),
{
}

/// What an operator is shown where a token is refused is every token there is.
pub proof fn every_token_is_shown(spec: FeedSpec)
    ensures
        registry::stands_in(spec.name(), FEED_SPECS@),
        registry::stands_in("primary"@, SOURCE_ROLES@),
        registry::stands_in("comparison"@, SOURCE_ROLES@),
        registry::stands_in("upstream-partition"@, SOURCE_ROLES@),
{
    reveal_strlit("top-of-book");
    reveal_strlit("market-by-price");
    reveal_strlit(", ");
    reveal_strlit("top-of-book, market-by-price");
    reveal_strlit("primary");
    reveal_strlit("comparison");
    reveal_strlit("upstream-partition");
    reveal_strlit("primary, comparison, upstream-partition");
    let none = Seq::<char>::empty();
    let (tob, mbp, comma) = ("top-of-book"@, "market-by-price"@, ", "@);
    assert(FEED_SPECS@ =~= tob + comma + mbp);
    assert(FEED_SPECS@ =~= none + tob + (comma + mbp));
    assert(FEED_SPECS@ =~= (tob + comma) + mbp + none);
    let (one, two, three) = ("primary"@, "comparison"@, "upstream-partition"@);
    assert(SOURCE_ROLES@ =~= one + comma + two + comma + three);
    assert(SOURCE_ROLES@ =~= none + one + (comma + two + comma + three));
    assert(SOURCE_ROLES@ =~= (one + comma) + two + (comma + three));
    assert(SOURCE_ROLES@ =~= (one + comma + two + comma) + three + none);
}

} // verus!
