//! Which adapter a document's `[adapter] kind` names.
//!
//! The set of adapters a binary contains is decided by whoever links it, so a
//! kind that none of them answers to is refused and every one of them is named.
//! There is no default and nothing is fallen back on.

use vstd::prelude::*;
use vstd::string::*;

use crate::builtin;
use crate::error::{Refusal, StartupError};
use crate::text;

verus! {

/// The adapter a kind names.
#[derive(Debug, Clone, Copy, PartialEq, Eq, Structural)]
pub enum AdapterResolution {
    /// One the venue registered, by its place among them.
    Registered(usize),
    /// The one this crate contains itself.
    Builtin,
}

/// The adapters a binary contains, by the kinds they answer to.
#[derive(Debug)]
pub struct AdapterRegistry {
    kinds: Vec<String>,
}

impl View for AdapterRegistry {
    type V = Seq<Seq<char>>;

    closed spec fn view(&self) -> Seq<Seq<char>> {
        text::views(self.kinds@)
    }
}

/// The first adapter registered under a kind.
pub open spec fn registered_first(kinds: Seq<Seq<char>>, kind: Seq<char>, at: int) -> bool {
    &&& 0 <= at < kinds.len()
    &&& kinds[at] == kind
    &&& forall|i: int| 0 <= i < at ==> kinds[i] != kind
}

/// The kinds a binary answers to, as an operator is shown them: the venue's own
/// and, apart from them, the built-in one.
pub open spec fn kinds_said(kinds: Seq<Seq<char>>) -> Seq<char> {
    (if kinds.len() == 0 {
        "none"@
    } else {
        text::joined(kinds, ", "@)
    }) + " (built in: "@ + builtin::UDS@ + ")"@
}

impl AdapterRegistry {
    /// No adapter but the built-in one.
    pub fn new() -> (registry: Self)
        ensures
            registry@ == Seq::<Seq<char>>::empty(),
    {
        let registry: Self = Self { kinds: Vec::new() };
        proof {
            assert(registry@ =~= Seq::<Seq<char>>::empty());
        }
        registry
    }

    /// One more adapter, under a kind.
    pub fn with(self, kind: &str) -> (registry: Self)
        ensures
            registry@ == self@.push(kind@),
    {
        let mut kinds: Vec<String> = self.kinds;
        text::push_text(&mut kinds, kind.to_owned());
        Self { kinds }
    }

    /// The adapter a kind names: the first the venue registered under it, and
    /// otherwise the built-in one that answers to it.
    ///
    /// # Errors
    ///
    /// [`StartupError::UnknownAdapterKind`] where neither does, naming every kind
    /// that one does answer to.
    pub fn resolve(&self, kind: &str) -> (adapter: Result<AdapterResolution, StartupError>)
        ensures
            match adapter {
                Ok(AdapterResolution::Registered(at)) => registered_first(self@, kind@, at as int),
                Ok(AdapterResolution::Builtin) => !self@.contains(kind@) && kind@ == builtin::UDS@,
                Err(error) => !self@.contains(kind@) && kind@ != builtin::UDS@ && error@ == (
                Refusal::UnknownAdapterKind { token: kind@, registered: kinds_said(self@) }),
            },
    {
        let mut at: usize = 0;
        while at < self.kinds.len()
            invariant
                at <= self.kinds.len(),
                forall|i: int| 0 <= i < at ==> self@[i] != kind@,
            decreases self.kinds.len() - at,
        {
            if text::same(self.kinds[at].as_str(), kind) {
                return Ok(AdapterResolution::Registered(at));
            }
            at += 1;
        }
        if text::same(kind, builtin::UDS) {
            return Ok(AdapterResolution::Builtin);
        }
        let mut registered: String = if self.kinds.len() == 0 {
            "none".to_owned()
        } else {
            text::join(&self.kinds, ", ")
        };
        registered.append(" (built in: ");
        registered.append(builtin::UDS);
        registered.append(")");
        Err(StartupError::UnknownAdapterKind { token: kind.to_owned(), registered })
    }
}

/// Whether a text stands in another.
pub open spec fn stands_in(part: Seq<char>, whole: Seq<char>) -> bool {
    exists|before: Seq<char>, after: Seq<char>| whole == #[trigger] (before + part + after)
}

/// What an operator is shown where a kind is refused.
pub open spec fn refusal_said(kinds: Seq<Seq<char>>, kind: Seq<char>) -> Seq<char> {
    (Refusal::UnknownAdapterKind { token: kind, registered: kinds_said(kinds) }).message()
}

/// The refusal of a kind names that kind, every kind the venue registered and
/// the built-in one: an operator can see whether to fix a spelling or a build.
pub proof fn a_refused_kind_is_shown_every_kind_there_is(kinds: Seq<Seq<char>>, kind: Seq<char>)
    ensures
        stands_in(kind, refusal_said(kinds, kind)),
        stands_in(builtin::UDS@, refusal_said(kinds, kind)),
        forall|at: int|
            0 <= at < kinds.len() ==> stands_in(#[trigger] kinds[at], refusal_said(kinds, kind)),
{
    let message = refusal_said(kinds, kind);
    let lead = "`[adapter] kind = \""@;
    let between = "\"` names no adapter this binary registered; registered in this binary: "@;
    let built = " (built in: "@;
    let all = if kinds.len() == 0 {
        "none"@
    } else {
        text::joined(kinds, ", "@)
    };
    assert(message =~= lead + kind + (between + all + built + builtin::UDS@ + ")"@));
    assert(message =~= (lead + kind + between + all + built) + builtin::UDS@ + ")"@);
    assert forall|at: int| 0 <= at < kinds.len() implies stands_in(
        #[trigger] kinds[at],
        message,
    ) by {
        let (before, after) = text::a_joined_part_stands(kinds, ", "@, at);
        assert(message =~= (lead + kind + between + before) + kinds[at] + (after + built
            + builtin::UDS@ + ")"@));
    }
}

/// Of adapters under one kind the first registered is meant, and a later one
/// changes nothing.
pub proof fn the_first_registered_is_meant(kinds: Seq<Seq<char>>, kind: Seq<char>, some: int) -> (at:
    int)
    requires
        0 <= some < kinds.len(),
        kinds[some] == kind,
    ensures
        0 <= at <= some,
        kinds[at] == kind,
        forall|i: int| 0 <= i < at ==> kinds[i] != kind,
        forall|other: int| #[trigger] registered_first(kinds, kind, other) <==> other == at,
    decreases some,
{
    if exists|i: int| 0 <= i < some && kinds[i] == kind {
        let i = choose|i: int| 0 <= i < some && kinds[i] == kind;
        the_first_registered_is_meant(kinds, kind, i)
    } else {
        assert(registered_first(kinds, kind, some));
        some
    }
}

} // verus!
