//! The publisher a venue links: everything its runtime decides.
//!
//! A market-data publisher reads a venue's upstream through the venue's own
//! adapter and puts what it says on multicast groups. This library holds the
//! decisions of the runtime that does so, each with its contract: what a
//! configuration document may say and what it resolves to ([`config`]), which
//! adapter it names ([`registry`]), in which order a publisher is composed
//! ([`compose`]), which feed carries which event and on which channel
//! ([`publisher`], [`shard`], [`pipeline`]), when a snapshot is due
//! ([`rotation`]), when the process has to end ([`guard`]) and what it says on
//! the way ([`report`], [`command`]).
//!
//! It opens no file and binds no socket. What has to be done is handed out as
//! values, and how it went is handed back in.
//!
//! `datagram`, never `frame`, is the word for the publisher's own traffic.
//! `channel` is the `Channel ID` shard and nothing else: the three ports are
//! *port roles*, spelled `mktdata`, `refdata` and `snapshot`.

pub mod address;
pub mod builtin;
pub mod clock;
pub mod command;
pub mod compose;
pub mod config;
pub mod duration;
pub mod error;
pub mod event;
pub mod guard;
pub mod instrument;
pub mod observer;
pub mod pipeline;
pub mod publisher;
pub mod registry;
pub mod replay;
pub mod report;
pub mod rotation;
pub mod run;
pub mod shard;
pub mod table;
pub mod text;

pub use builtin::BUILTIN_KINDS;
pub use clock::{Clock, ManualClock, SystemClock};
pub use config::document::{Config, Document};
pub use config::{
    AdapterConfig,
    EgressSection,
    Feed,
    FeedSection,
    FeedSpec,
    MetricsSection,
    RefdataSection,
    ReplayConfig,
    SelectionSection,
    Source,
    SourceRole,
    SourceSection,
    TeeConfig,
};
pub use error::StartupError;
pub use event::{Refusals, SnapshotError, SnapshotRefusals};
pub use guard::{ConsistencyGuard, Exit, IdleGuard, Inconsistency, Upstream};
pub use observer::MetricsObserver;
pub use pipeline::{FeedPipeline, Port, Ports};
pub use publisher::{Publisher, Teardown, TeardownStep};
pub use registry::AdapterRegistry;
pub use replay::ReplayInput;
pub use rotation::SnapshotRotation;
pub use run::check_sources;
pub use shard::{Feeds, ShardFeeds};
