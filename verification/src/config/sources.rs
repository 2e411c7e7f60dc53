//! `[[source]]`: the upstream connections, and which of them publishes.
//!
//! The one rule that has to be a startup error is **exactly one enabled
//! primary, publisher-wide**: two are two publishers' worth of events on one
//! sequence number series, and none is a publisher whose data has no path to
//! the wire.

use vstd::prelude::*;
use vstd::string::*;

use crate::config;
use crate::config::{Kind, Source, SourceRole, SourceSection};
use crate::error::{Refusal, StartupError};
use crate::table;
use crate::text;

verus! {

/// What is wrong with one block, on its own and beside those before it. A block
/// that is switched off still has to have a name of its own: two blocks that
/// share one are two descriptions of one connection.
pub open spec fn section_refusal(
    sections: Seq<SourceSection>,
    kinds: Seq<Result<Kind, String>>,
    at: int,
) -> Option<Refusal> {
    let section = sections[at];
    let name = section.name@;
    if text::trimmed(name).len() == 0 {
        Some(Refusal::UnnamedSource)
    } else if text::trimmed(name) != name {
        Some(Refusal::SourceNameNotTrimmed { name, trimmed: text::trimmed(name) })
    } else if exists|i: int| 0 <= i < at && (#[trigger] sections[i]).name@ == name {
        Some(Refusal::DuplicateSourceName { name })
    } else if !section.enabled {
        None
    } else if kinds[at] is Err {
        Some(Refusal::Ingress { source: kinds[at]->Err_0@ })
    } else if section.role is Some && SourceRole::named(section.role->0@) is None {
        Some(
            Refusal::UnknownSourceRole {
                token: section.role->0@,
                supported: config::SOURCE_ROLES@,
            },
        )
    } else {
        None
    }
}

/// The first thing wrong with the first `count` blocks.
pub open spec fn sections_refusal(
    sections: Seq<SourceSection>,
    kinds: Seq<Result<Kind, String>>,
    count: nat,
) -> Option<Refusal>
    decreases count,
{
    if count == 0 {
        None
    } else {
        match sections_refusal(sections, kinds, (count - 1) as nat) {
            Some(refusal) => Some(refusal),
            None => section_refusal(sections, kinds, count - 1),
        }
    }
}

/// The role a block has: the one it names, or the one that is had by naming
/// none.
pub open spec fn role_of(section: SourceSection, unnamed: SourceRole) -> SourceRole {
    match section.role {
        Some(token) => SourceRole::named(token@)->0,
        None => unnamed,
    }
}

/// The source a block describes.
pub open spec fn source_of(
    section: SourceSection,
    kind: Result<Kind, String>,
    unnamed: SourceRole,
) -> Source {
    Source {
        connection: section.name,
        kind: kind->Ok_0,
        role: role_of(section, unnamed),
        upstream: section.upstream,
        credentials: section.credentials,
    }
}

/// The sources the enabled blocks among the first `count` describe, in the
/// document's own order.
pub open spec fn sources_of(
    sections: Seq<SourceSection>,
    kinds: Seq<Result<Kind, String>>,
    unnamed: SourceRole,
    count: nat,
) -> Seq<Source>
    decreases count,
{
    if count == 0 {
        Seq::empty()
    } else {
        let before = sources_of(sections, kinds, unnamed, (count - 1) as nat);
        if sections[count - 1].enabled {
            before.push(source_of(sections[count - 1], kinds[count - 1], unnamed))
        } else {
            before
        }
    }
}

/// Whether two sources state one credential: tables that are equal and hold
/// something. A venue that needs none leaves the table unwritten.
pub open spec fn share_credentials(one: Source, another: Source) -> bool {
    &&& table::entries(another.credentials).len() > 0
    &&& table::tables_equal(one.credentials, another.credentials)
}

/// Whether `another` is the first source that shares a credential with one
/// before it, and `one` the first of those before it.
pub open spec fn is_first_sharing(sources: Seq<Source>, one: int, another: int) -> bool {
    &&& 0 <= one < another < sources.len()
    &&& share_credentials(sources[one], sources[another])
    &&& forall|i: int| 0 <= i < one ==> !share_credentials(#[trigger] sources[i], sources[another])
    &&& forall|i: int, j: int|
        0 <= i < j < another ==> !share_credentials(#[trigger] sources[i], #[trigger] sources[j])
}

/// The names of the primaries among the first `count` sources.
pub open spec fn primaries(sources: Seq<Source>, count: nat) -> Seq<Seq<char>>
    decreases count,
{
    if count == 0 {
        Seq::empty()
    } else if sources[count - 1].role == SourceRole::Primary {
        primaries(sources, (count - 1) as nat).push(sources[count - 1].connection@)
    } else {
        primaries(sources, (count - 1) as nat)
    }
}

/// What is wrong with enabled sources held against each other.
pub open spec fn together_refusal(sources: Seq<Source>) -> Option<Refusal> {
    let named = primaries(sources, sources.len());
    if exists|one: int, another: int| is_first_sharing(sources, one, another) {
        let (one, another) = choose|one: int, another: int|
            is_first_sharing(sources, one, another);
        Some(
            Refusal::SourceCredentialsShared {
                one: sources[one].connection@,
                another: sources[another].connection@,
            },
        )
    } else if named.len() == 0 {
        Some(Refusal::SourcePrimaries { primaries: "none"@ })
    } else if named.len() > 1 {
        Some(Refusal::SourcePrimaries { primaries: text::joined(named, ", "@) })
    } else {
        None
    }
}

/// The first thing wrong with the blocks, each and then together.
pub open spec fn sources_refusal(
    sections: Seq<SourceSection>,
    kinds: Seq<Result<Kind, String>>,
    unnamed: SourceRole,
) -> Option<Refusal> {
    let sources = sources_of(sections, kinds, unnamed, sections.len());
    if sections_refusal(sections, kinds, sections.len()) is Some {
        sections_refusal(sections, kinds, sections.len())
    } else if sections.len() == 0 {
        None
    } else if sources.len() == 0 {
        Some(Refusal::NoEnabledSource)
    } else {
        together_refusal(sources)
    }
}

/// A refusal of the first blocks is the refusal of all of them.
proof fn the_first_refusal_stands(
    sections: Seq<SourceSection>,
    kinds: Seq<Result<Kind, String>>,
    start: nat,
    count: nat,
)
    requires
        start <= count,
    ensures
        sections_refusal(sections, kinds, start) is Some ==> sections_refusal(
            sections,
            kinds,
            count,
        ) == sections_refusal(sections, kinds, start),
    decreases count,
{
    if start < count {
        the_first_refusal_stands(sections, kinds, start, (count - 1) as nat);
    }
}

fn named_before(seen: &Vec<String>, name: &String) -> (found: bool)
    ensures
        found == exists|i: int| 0 <= i < seen@.len() && (#[trigger] seen@[i])@ == name@,
{
    let mut at: usize = 0;
    while at < seen.len()
        invariant
            at <= seen.len(),
            forall|i: int| 0 <= i < at ==> (#[trigger] seen@[i])@ != name@,
        decreases seen.len() - at,
    {
        if text::same(seen[at].as_str(), name.as_str()) {
            return true;
        }
        at += 1;
    }
    false
}

fn check_credentials_are_not_shared(sources: &Vec<Source>) -> (checked: Result<(), StartupError>)
    ensures
        match checked {
            Ok(()) => forall|one: int, another: int|
                !is_first_sharing(sources@, one, another),
            Err(error) => exists|one: int, another: int|
                is_first_sharing(sources@, one, another) && error@
                    == (Refusal::SourceCredentialsShared {
                    one: sources@[one].connection@,
                    another: sources@[another].connection@,
                }),
        },
{
    let mut another: usize = 0;
    while another < sources.len()
        invariant
            another <= sources.len(),
            forall|i: int, j: int|
                0 <= i < j < another ==> !share_credentials(
                    #[trigger] sources@[i],
                    #[trigger] sources@[j],
                ),
        decreases sources.len() - another,
    {
        if !table::is_empty(&sources[another].credentials) {
            let mut one: usize = 0;
            while one < another
                invariant
                    one <= another < sources.len(),
                    table::entries(sources@[another as int].credentials).len() > 0,
                    forall|i: int, j: int|
                        0 <= i < j < another ==> !share_credentials(
                            #[trigger] sources@[i],
                            #[trigger] sources@[j],
                        ),
                    forall|i: int|
                        0 <= i < one ==> !share_credentials(
                            #[trigger] sources@[i],
                            sources@[another as int],
                        ),
                decreases another - one,
            {
                if table::equal(&sources[one].credentials, &sources[another].credentials) {
                    proof {
                        assert(is_first_sharing(sources@, one as int, another as int));
                    }
                    return Err(
                        StartupError::SourceCredentialsShared {
                            one: sources[one].connection.clone(),
                            another: sources[another].connection.clone(),
                        },
                    );
                }
                one += 1;
            }
        }
        another += 1;
    }
    Ok(())
}

proof fn one_pair_shares_first(sources: Seq<Source>, one: int, another: int, i: int, j: int)
    requires
        is_first_sharing(sources, one, another),
        is_first_sharing(sources, i, j),
    ensures
        one == i,
        another == j,
{
    assert(share_credentials(sources[one], sources[another]));
    assert(share_credentials(sources[i], sources[j]));
}

fn primary_names(sources: &Vec<Source>) -> (names: Vec<String>)
    ensures
        text::views(names@) == primaries(sources@, sources@.len()),
{
    let mut names: Vec<String> = Vec::new();
    let mut at: usize = 0;
    while at < sources.len()
        invariant
            at <= sources.len(),
            text::views(names@) == primaries(sources@, at as nat),
        decreases sources.len() - at,
    {
        if sources[at].is_primary() {
            let ghost before = names@;
            names.push(sources[at].connection.clone());
            proof {
                assert(text::views(names@) =~= text::views(before).push(
                    sources@[at as int].connection@,
                ));
            }
        }
        at += 1;
    }
    names
}

fn check_together(sources: &Vec<Source>) -> (checked: Result<(), StartupError>)
    ensures
        match checked {
            Ok(()) => together_refusal(sources@) is None,
            Err(error) => together_refusal(sources@) == Some(error@),
        },
{
    match check_credentials_are_not_shared(sources) {
        Err(error) => {
            proof {
                let (one, another) = choose|one: int, another: int|
                    is_first_sharing(sources@, one, another);
                let (i, j) = choose|i: int, j: int|
                    is_first_sharing(sources@, i, j) && error@
                        == (Refusal::SourceCredentialsShared {
                        one: sources@[i].connection@,
                        another: sources@[j].connection@,
                    });
                one_pair_shares_first(sources@, one, another, i, j);
            }
            return Err(error);
        },
        Ok(()) => {},
    }
    let names: Vec<String> = primary_names(sources);
    if names.len() == 0 {
        return Err(StartupError::SourcePrimaries { primaries: "none".to_owned() });
    }
    if names.len() > 1 {
        return Err(StartupError::SourcePrimaries { primaries: text::join(&names, ", ") });
    }
    Ok(())
}

/// Resolve `[[source]]`, and refuse every document that names alternatives
/// without saying which one publishes. `kinds` holds, for each block, what its
/// `ingress` token names; `unnamed` is the role of a block that states none.
///
/// # Errors
///
/// The first thing wrong with the blocks.
pub fn resolve_sources(
    sections: Vec<SourceSection>,
    kinds: Vec<Result<Kind, String>>,
    unnamed: SourceRole,
) -> (resolved: Result<Vec<Source>, StartupError>)
    requires
        kinds@.len() == sections@.len(),
    ensures
        match resolved {
            Ok(sources) => {
                &&& sources_refusal(sections@, kinds@, unnamed) is None
                &&& sources@ == sources_of(sections@, kinds@, unnamed, sections@.len())
            },
            Err(error) => sources_refusal(sections@, kinds@, unnamed) == Some(error@),
        },
{
    let mut left: Vec<SourceSection> = sections;
    let mut pending: Vec<Result<Kind, String>> = kinds;
    let ghost all = sections@;
    let ghost answers = kinds@;
    let mut sources: Vec<Source> = Vec::new();
    let mut seen: Vec<String> = Vec::new();
    while left.len() > 0
        invariant
            all == sections@,
            answers == kinds@,
            answers.len() == all.len(),
            seen@.len() <= all.len(),
            left@ == all.skip(seen@.len() as int),
            pending@ == answers.skip(seen@.len() as int),
            forall|i: int| 0 <= i < seen@.len() ==> (#[trigger] seen@[i])@ == all[i].name@,
            sections_refusal(all, answers, seen@.len()) is None,
            sources@ == sources_of(all, answers, unnamed, seen@.len()),
        decreases left@.len(),
    {
        let ghost at = seen@.len() as int;
        proof {
            the_first_refusal_stands(all, answers, (at + 1) as nat, all.len());
            assert(left@[0] == all[at]);
            assert(pending@[0] == answers[at]);
        }
        let section: SourceSection = left.remove(0);
        let kind: Result<Kind, String> = pending.remove(0);
        proof {
            assert(left@ =~= all.skip(at + 1));
            assert(pending@ =~= answers.skip(at + 1));
        }
        let name: &str = text::trim(section.name.as_str());
        if name.unicode_len() == 0 {
            return Err(StartupError::UnnamedSource);
        }
        if !text::same(name, section.name.as_str()) {
            return Err(
                StartupError::SourceNameNotTrimmed {
                    name: section.name.clone(),
                    trimmed: name.to_owned(),
                },
            );
        }
        if named_before(&seen, &section.name) {
            proof {
                let i = choose|i: int|
                    0 <= i < seen@.len() && (#[trigger] seen@[i])@ == section.name@;
                assert(all[i].name@ == section.name@);
            }
            return Err(StartupError::DuplicateSourceName { name: section.name });
        }
        proof {
            assert forall|i: int| 0 <= i < at implies (#[trigger] all[i]).name@
                != section.name@ by {
                assert(seen@[i]@ == all[i].name@);
            }
        }
        seen.push(section.name.clone());
        if section.enabled {
            let kind: Kind = match kind {
                Err(source) => {
                    return Err(StartupError::Ingress { source });
                },
                Ok(kind) => kind,
            };
            let role: SourceRole = match &section.role {
                None => unnamed,
                Some(token) => match SourceRole::resolve(token.as_str()) {
                    None => {
                        return Err(
                            StartupError::UnknownSourceRole {
                                token: token.clone(),
                                supported: config::SOURCE_ROLES,
                            },
                        );
                    },
                    Some(role) => role,
                },
            };
            sources.push(
                Source {
                    connection: section.name,
                    kind,
                    role,
                    upstream: section.upstream,
                    credentials: section.credentials,
                },
            );
        }
    }
    if seen.len() == 0 {
        return Ok(sources);
    }
    if sources.len() == 0 {
        return Err(StartupError::NoEnabledSource);
    }
    match check_together(&sources) {
        Err(error) => Err(error),
        Ok(()) => Ok(sources),
    }
}

} // verus!
