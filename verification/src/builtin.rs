//! The adapter this crate contains itself: the one for an integration that is
//! another process, which writes normalized-event records to be read.
//!
//! It is a registered kind and not a fallback. Its transport is not built, so
//! every connection it opens refuses and says so; a recording is how it is
//! driven.

use vstd::prelude::*;
use vstd::string::*;

use crate::config::Source;
use crate::error::{Refusal, StartupError};
use crate::run;
use crate::text;

verus! {

/// The kind the built-in adapter answers to.
pub const UDS: &'static str = "uds";

/// The kinds this crate answers to itself. A refused kind is shown them apart from
/// the venue's own.
pub const BUILTIN_KINDS: [&'static str; 1] = [UDS];

/// The connection a record source reports under where the document declares
/// none.
pub const CONNECTION: &'static str = "records";

/// Why a document that names no instrument is refused.
pub const EMPTY_LISTINGS: &'static str =
    "`[adapter.upstream]` names no `[[adapter.upstream.listing]]`: the record source and this publisher have to agree on the instrument set out of band, and there is no discovery in the record encoding";

/// Why a connection of the built-in adapter refuses.
pub const UNBUILT: &'static str =
    "the `uds` transport is not built yet: `dz-ingress-uds` does not exist, so the built-in record adapter can only be driven by `[adapter.replay]`";

/// The connections the built-in adapter opens: those the document declares, each
/// under the operator's own name for it, or the one there is without.
pub open spec fn record_connections(sources: Seq<Source>) -> Seq<Seq<char>> {
    if sources.len() == 0 {
        seq![CONNECTION@]
    } else {
        run::declared(sources)
    }
}

/// Open the built-in adapter over so many listings: the connections it opens.
///
/// # Errors
///
/// [`StartupError::AdapterInit`] for no listing. An adapter that offers nothing
/// publishes nothing, and would look alive.
pub fn open(listings: usize, sources: &Vec<Source>) -> (connections: Result<
    Vec<String>,
    StartupError,
>)
    ensures
        match connections {
            Ok(names) => listings > 0 && text::views(names@) == record_connections(sources@),
            Err(error) => listings == 0 && error@ == (Refusal::AdapterInit {
                kind: UDS@,
                source: EMPTY_LISTINGS@,
            }),
        },
{
    if listings == 0 {
        return Err(
            StartupError::AdapterInit { kind: UDS.to_owned(), source: EMPTY_LISTINGS.to_owned() },
        );
    }
    let mut names: Vec<String> = Vec::new();
    if sources.len() == 0 {
        text::push_text(&mut names, CONNECTION.to_owned());
        proof {
            assert(text::views(names@) =~= seq![CONNECTION@]);
        }
        return Ok(names);
    }
    Ok(run::list_declared(sources))
}

/// Every record source the document declares is opened, and held to it without
/// a refusal.
pub proof fn the_built_in_connections_are_the_declared_ones(sources: Seq<Source>)
    ensures
        run::sources_refusal(sources, record_connections(sources)) is None,
{
}

/// What an instrument is.
#[derive(Debug, Clone, Copy, PartialEq, Eq, Structural)]
pub enum AssetClass {
    Unknown,
    CryptoSpot,
    PredictionBinary,
    PredictionScalar,
    PredictionCategorical,
    PerpetualFuture,
}

/// How a venue matches.
#[derive(Debug, Clone, Copy, PartialEq, Eq, Structural)]
pub enum MarketModel {
    Unknown,
    Clob,
    Amm,
}

/// How an instrument settles.
#[derive(Debug, Clone, Copy, PartialEq, Eq, Structural)]
pub enum SettleType {
    NotApplicable,
    Cash,
    Physical,
}

/// The range prices may take.
#[derive(Debug, Clone, Copy, PartialEq, Eq, Structural)]
pub enum PriceBound {
    Unbounded,
    UnitInterval,
    NonNegative,
}

impl AssetClass {
    /// The token a document spells this with.
    pub open spec fn name(self) -> Seq<char> {
        match self {
            AssetClass::Unknown => "unknown"@,
            AssetClass::CryptoSpot => "crypto_spot"@,
            AssetClass::PredictionBinary => "prediction_binary"@,
            AssetClass::PredictionScalar => "prediction_scalar"@,
            AssetClass::PredictionCategorical => "prediction_categorical"@,
            AssetClass::PerpetualFuture => "perpetual_future"@,
        }
    }

    /// What a token names.
    pub fn resolve(token: &str) -> (class: Option<Self>)
        ensures
            match class {
                Some(named) => token@ == named.name(),
                None => forall|other: Self| token@ != #[trigger] other.name(),
            },
    {
        if text::same(token, "unknown") {
            Some(AssetClass::Unknown)
        } else if text::same(token, "crypto_spot") {
            Some(AssetClass::CryptoSpot)
        } else if text::same(token, "prediction_binary") {
            Some(AssetClass::PredictionBinary)
        } else if text::same(token, "prediction_scalar") {
            Some(AssetClass::PredictionScalar)
        } else if text::same(token, "prediction_categorical") {
            Some(AssetClass::PredictionCategorical)
        } else if text::same(token, "perpetual_future") {
            Some(AssetClass::PerpetualFuture)
        } else {
            None
        }
    }
}

impl MarketModel {
    /// The token a document spells this with.
    pub open spec fn name(self) -> Seq<char> {
        match self {
            MarketModel::Unknown => "unknown"@,
            MarketModel::Clob => "clob"@,
            MarketModel::Amm => "amm"@,
        }
    }

    /// What a token names.
    pub fn resolve(token: &str) -> (model: Option<Self>)
        ensures
            match model {
                Some(named) => token@ == named.name(),
                None => forall|other: Self| token@ != #[trigger] other.name(),
            },
    {
        if text::same(token, "unknown") {
            Some(MarketModel::Unknown)
        } else if text::same(token, "clob") {
            Some(MarketModel::Clob)
        } else if text::same(token, "amm") {
            Some(MarketModel::Amm)
        } else {
            None
        }
    }
}

impl SettleType {
    /// The token a document spells this with.
    pub open spec fn name(self) -> Seq<char> {
        match self {
            SettleType::NotApplicable => "not_applicable"@,
            SettleType::Cash => "cash"@,
            SettleType::Physical => "physical"@,
        }
    }

    /// What a token names.
    pub fn resolve(token: &str) -> (settles: Option<Self>)
        ensures
            match settles {
                Some(named) => token@ == named.name(),
                None => forall|other: Self| token@ != #[trigger] other.name(),
            },
    {
        if text::same(token, "not_applicable") {
            Some(SettleType::NotApplicable)
        } else if text::same(token, "cash") {
            Some(SettleType::Cash)
        } else if text::same(token, "physical") {
            Some(SettleType::Physical)
        } else {
            None
        }
    }
}

impl PriceBound {
    /// The token a document spells this with.
    pub open spec fn name(self) -> Seq<char> {
        match self {
            PriceBound::Unbounded => "unbounded"@,
            PriceBound::UnitInterval => "unit_interval"@,
            PriceBound::NonNegative => "non_negative"@,
        }
    }

    /// What a token names.
    pub fn resolve(token: &str) -> (bound: Option<Self>)
        ensures
            match bound {
                Some(named) => token@ == named.name(),
                None => forall|other: Self| token@ != #[trigger] other.name(),
            },
    {
        if text::same(token, "unbounded") {
            Some(PriceBound::Unbounded)
        } else if text::same(token, "unit_interval") {
            Some(PriceBound::UnitInterval)
        } else if text::same(token, "non_negative") {
            Some(PriceBound::NonNegative)
        } else {
            None
        }
    }
}

/// No token names two things.
pub proof fn tokens_are_distinct(
    class: (AssetClass, AssetClass),
    model: (MarketModel, MarketModel),
    settles: (SettleType, SettleType),
    bound: (PriceBound, PriceBound),
)
    ensures
        class.0.name() == class.1.name() ==> class.0 == class.1,
        model.0.name() == model.1.name() ==> model.0 == model.1,
        settles.0.name() == settles.1.name() ==> settles.0 == settles.1,
        bound.0.name() == bound.1.name() ==> bound.0 == bound.1,
{
    reveal_strlit("unknown");
    reveal_strlit("crypto_spot");
    reveal_strlit("prediction_binary");
    reveal_strlit("prediction_scalar");
    reveal_strlit("prediction_categorical");
    reveal_strlit("perpetual_future");
    reveal_strlit("clob");
    reveal_strlit("amm");
    reveal_strlit("not_applicable");
    reveal_strlit("cash");
    reveal_strlit("physical");
    reveal_strlit("unbounded");
    reveal_strlit("unit_interval");
    reveal_strlit("non_negative");
    assert("unknown"@.len() == 7);
    assert("crypto_spot"@.len() == 11);
    assert("prediction_binary"@.len() == 17);
    assert("prediction_scalar"@.len() == 17);
    assert("prediction_categorical"@.len() == 22);
    assert("perpetual_future"@.len() == 16);
    assert("clob"@.len() == 4);
    assert("amm"@.len() == 3);
    assert("not_applicable"@.len() == 14);
    assert("cash"@.len() == 4);
    assert("physical"@.len() == 8);
    assert("unbounded"@.len() == 9);
    assert("unit_interval"@.len() == 13);
    assert("non_negative"@.len() == 12);
    assert("prediction_binary"@[11] == 'b');
    assert("prediction_scalar"@[11] == 's');
}

/// The tokens a listing is spelled with.
pub proof fn the_tokens_there_are()
    ensures
        AssetClass::Unknown.name() == "unknown"@,
        AssetClass::CryptoSpot.name() == "crypto_spot"@,
        AssetClass::PredictionBinary.name() == "prediction_binary"@,
        AssetClass::PredictionScalar.name() == "prediction_scalar"@,
        AssetClass::PredictionCategorical.name() == "prediction_categorical"@,
        AssetClass::PerpetualFuture.name() == "perpetual_future"@,
        MarketModel::Unknown.name() == "unknown"@,
        MarketModel::Clob.name() == "clob"@,
        MarketModel::Amm.name() == "amm"@,
        SettleType::NotApplicable.name() == "not_applicable"@,
        SettleType::Cash.name() == "cash"@,
        SettleType::Physical.name() == "physical"@,
        PriceBound::Unbounded.name() == "unbounded"@,
        PriceBound::UnitInterval.name() == "unit_interval"@,
        PriceBound::NonNegative.name() == "non_negative"@,
{
}

/// The built-in adapter opens what the document declares, under the document's
/// names, and one connection where it declares nothing.
pub proof fn what_the_built_in_adapter_opens(sources: Seq<Source>, at: int)
    ensures
        sources.len() == 0 ==> record_connections(sources) == seq!["records"@],
        0 <= at < sources.len() ==> record_connections(sources).len() == sources.len()
            && record_connections(sources)[at] == sources[at].connection@,
{
}

} // verus!
