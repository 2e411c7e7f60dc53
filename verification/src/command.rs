//! The command line, and what a publisher answers without publishing.
//!
//! A configuration path is a path and not text: an argument that is not UTF-8
//! is still a file that can be opened. So arguments are bytes here, and the only
//! place one becomes text is a message that names it.

use vstd::prelude::*;
use vstd::string::*;

use crate::error::{Refusal, StartupError};
use crate::guard::Exit;
use crate::text;

verus! {

/// The accepted forms of the command line.
pub const USAGE: &'static str =
    "usage: <publisher> [--config] <config.toml> | --version|-V | --help|-h";

/// What a version nobody set is reported as.
pub const UNKNOWN_VERSION: &'static str = "unknown";

/// The option that names a document.
pub const CONFIG_OPTION: &'static str = "--config";

/// What the command line asks for.
#[derive(Debug, PartialEq, Eq)]
pub enum Invocation {
    Version,
    Help,
    /// Run on the document at this path.
    Config(Vec<u8>),
}

/// What the command line asks for, as values to reason about.
#[verifier::ext_equal]
pub enum Asked {
    Version,
    Help,
    Config(Seq<u8>),
}

impl View for Invocation {
    type V = Asked;

    open spec fn view(&self) -> Asked {
        match self {
            Invocation::Version => Asked::Version,
            Invocation::Help => Asked::Help,
            Invocation::Config(path) => Asked::Config(path@),
        }
    }
}

/// Bytes as text, with whatever is not UTF-8 replaced: what
/// `String::from_utf8_lossy` gives.
pub uninterp spec fn lossy(bytes: Seq<u8>) -> Seq<char>;

/// Calls `String::from_utf8_lossy`, which decodes what is UTF-8 and replaces
/// what is not. How it replaces is left unsaid but for that the bytes decide
/// it.
#[verifier::external_body]
pub(crate) fn lossy_text(bytes: &[u8]) -> (text: String)
    ensures
        text@ == lossy(bytes@),
        vstd::utf8::valid_utf8(bytes@) ==> text@ == vstd::utf8::decode_utf8(bytes@),
{
    String::from_utf8_lossy(bytes).into_owned()
}

/// The bytes of a text.
pub open spec fn bytes_of(text: &str) -> Seq<u8> {
    text.spec_bytes()
}

fn same_bytes(left: &[u8], right: &[u8]) -> (equal: bool)
    ensures
        equal == (left@ == right@),
{
    if left.len() != right.len() {
        return false;
    }
    let mut at: usize = 0;
    while at < left.len()
        invariant
            at <= left.len() == right.len(),
            forall|i: int| 0 <= i < at ==> left@[i] == right@[i],
        decreases left.len() - at,
    {
        if left[at] != right[at] {
            return false;
        }
        at += 1;
    }
    proof {
        assert(left@ =~= right@);
    }
    true
}

fn is(arg: &Vec<u8>, form: &str) -> (yes: bool)
    ensures
        yes == (arg@ == bytes_of(form)),
{
    same_bytes(arg.as_slice(), form.as_bytes())
}

/// Whether an argument is an option and its value joined by `=`.
pub open spec fn is_joined(arg: Seq<u8>, option: Seq<u8>) -> bool {
    &&& arg.len() > option.len()
    &&& arg.take(option.len() as int) == option
    &&& arg[option.len() as int] == 61
}

/// What follows the first `skipped` arguments when a document is named by one
/// of them.
pub open spec fn named(
    args: Seq<Seq<u8>>,
    skipped: int,
    path: Option<Seq<u8>>,
    value: Seq<u8>,
) -> Result<Asked, Refusal>
    decreases args.len() - skipped, 2int,
    when 0 < skipped <= args.len()
{
    match path {
        Some(first) => Err(
            Refusal::TwoConfigPaths { first: lossy(first), second: lossy(value), usage: USAGE@ },
        ),
        None => asked(args.skip(skipped), Some(value)),
    }
}

/// What arguments ask for, once those before them have named `path`. The first
/// argument that is decisive answers.
pub open spec fn asked(args: Seq<Seq<u8>>, path: Option<Seq<u8>>) -> Result<Asked, Refusal>
    decreases args.len(), 1int,
{
    let option = bytes_of(CONFIG_OPTION);
    if args.len() == 0 {
        match path {
            Some(named) => Ok(Asked::Config(named)),
            None => Err(Refusal::NoConfigPath { usage: USAGE@ }),
        }
    } else {
        let arg = args[0];
        if arg == bytes_of("--help") || arg == bytes_of("-h") {
            Ok(Asked::Help)
        } else if arg == bytes_of("--version") || arg == bytes_of("-V") {
            Ok(Asked::Version)
        } else if arg == option {
            if args.len() == 1 {
                Err(Refusal::OptionNeedsValue { option: CONFIG_OPTION@, usage: USAGE@ })
            } else {
                named(args, 2, path, args[1])
            }
        } else if is_joined(arg, option) {
            if arg.len() == option.len() + 1 {
                Err(Refusal::OptionNeedsValue { option: CONFIG_OPTION@, usage: USAGE@ })
            } else {
                named(args, 1, path, arg.skip(option.len() as int + 1))
            }
        } else if arg.len() > 0 && arg[0] == 45 {
            Err(Refusal::UnknownOption { option: lossy(arg), usage: USAGE@ })
        } else {
            named(args, 1, path, arg)
        }
    }
}

/// Arguments as values to reason about.
pub open spec fn arguments(args: Seq<Vec<u8>>) -> Seq<Seq<u8>> {
    Seq::new(args.len(), |i: int| args[i]@)
}

fn joined_value(arg: &Vec<u8>, option: &[u8]) -> (value: Option<Vec<u8>>)
    ensures
        match value {
            Some(after) => is_joined(arg@, option@) && after@ == arg@.skip(option@.len() as int + 1),
            None => !is_joined(arg@, option@),
        },
{
    if arg.len() <= option.len() {
        return None;
    }
    let mut at: usize = 0;
    while at < option.len()
        invariant
            at <= option.len() < arg.len(),
            forall|i: int| 0 <= i < at ==> arg@[i] == option@[i],
        decreases option.len() - at,
    {
        if arg[at] != option[at] {
            proof {
                assert(arg@.take(option@.len() as int)[at as int] != option@[at as int]);
            }
            return None;
        }
        at += 1;
    }
    proof {
        assert(arg@.take(option@.len() as int) =~= option@);
    }
    if arg[option.len()] != 61 {
        return None;
    }
    let mut value: Vec<u8> = Vec::new();
    let mut from: usize = option.len() + 1;
    while from < arg.len()
        invariant
            option.len() + 1 <= from <= arg.len(),
            value@ == arg@.subrange(option@.len() as int + 1, from as int),
        decreases arg.len() - from,
    {
        value.push(arg[from]);
        proof {
            assert(value@ =~= arg@.subrange(option@.len() as int + 1, from + 1));
        }
        from += 1;
    }
    proof {
        assert(value@ =~= arg@.skip(option@.len() as int + 1));
    }
    Some(value)
}

/// Name the document, where none was named before.
fn name_config_path(path: &Option<Vec<u8>>, value: &Vec<u8>) -> (named: Result<(), StartupError>)
    ensures
        match named {
            Ok(()) => path is None,
            Err(error) => path matches Some(first) && error@ == (Refusal::TwoConfigPaths {
                first: lossy(first@),
                second: lossy(value@),
                usage: USAGE@,
            }),
        },
{
    match path {
        Some(first) => Err(
            StartupError::TwoConfigPaths {
                first: lossy_text(first.as_slice()),
                second: lossy_text(value.as_slice()),
                usage: USAGE,
            },
        ),
        None => Ok(()),
    }
}

/// What a command line asks for: the arguments behind the program's name.
///
/// # Errors
///
/// [`StartupError::UnknownOption`], [`StartupError::OptionNeedsValue`],
/// [`StartupError::TwoConfigPaths`] for what is read by then, and
/// [`StartupError::NoConfigPath`] where all of it names no document.
pub fn invocation(args: Vec<Vec<u8>>) -> (asked_for: Result<Invocation, StartupError>)
    ensures
        match asked(arguments(args@), None) {
            Ok(answer) => asked_for matches Ok(invocation) && invocation@ == answer,
            Err(refusal) => asked_for matches Err(error) && error@ == refusal,
        },
{
    let mut path: Option<Vec<u8>> = None;
    let mut at: usize = 0;
    let ghost all = arguments(args@);
    let ghost mut held: Option<Seq<u8>> = None;
    proof {
        assert(all.skip(0) =~= all);
    }
    while at < args.len()
        invariant
            at <= args.len(),
            all == arguments(args@),
            held == match path {
                Some(named) => Some(named@),
                None => None,
            },
            asked(all, None) == asked(all.skip(at as int), held),
        decreases args.len() - at,
    {
        let arg: &Vec<u8> = &args[at];
        let ghost left = all.skip(at as int);
        proof {
            assert(left[0] == arg@);
            assert(left.skip(1) =~= all.skip(at + 1));
            if at + 1 < args.len() {
                assert(left[1] == args@[at + 1]@);
                assert(left.skip(2) =~= all.skip(at + 2));
            }
        }
        if is(arg, "--help") || is(arg, "-h") {
            return Ok(Invocation::Help);
        }
        if is(arg, "--version") || is(arg, "-V") {
            return Ok(Invocation::Version);
        }
        let value: Vec<u8>;
        let mut next: usize = at + 1;
        if is(arg, CONFIG_OPTION) {
            if at + 1 >= args.len() {
                return Err(StartupError::OptionNeedsValue { option: CONFIG_OPTION, usage: USAGE });
            }
            value = args[at + 1].clone();
            proof {
                assert(value@ =~= args@[at + 1]@);
            }
            next = at + 2;
        } else {
            match joined_value(arg, CONFIG_OPTION.as_bytes()) {
                Some(after) => {
                    if after.len() == 0 {
                        return Err(
                            StartupError::OptionNeedsValue { option: CONFIG_OPTION, usage: USAGE },
                        );
                    }
                    value = after;
                },
                None => {
                    if arg.len() > 0 && arg[0] == 45 {
                        return Err(
                            StartupError::UnknownOption {
                                option: lossy_text(arg.as_slice()),
                                usage: USAGE,
                            },
                        );
                    }
                    value = arg.clone();
                    proof {
                        assert(value@ =~= arg@);
                    }
                },
            }
        }
        match name_config_path(&path, &value) {
            Err(error) => {
                return Err(error);
            },
            Ok(()) => {},
        }
        proof {
            held = Some(value@);
        }
        path = Some(value);
        at = next;
    }
    match path {
        Some(named) => Ok(Invocation::Config(named)),
        None => Err(StartupError::NoConfigPath { usage: USAGE }),
    }
}

/// The version a publisher reports: what its build was given, without the white
/// space around it, or `unknown` where that is nothing or would print as
/// several lines.
pub open spec fn version_reported(version: Seq<char>) -> Seq<char> {
    let named = text::trimmed(version);
    if named.len() == 0 || named.contains('\n') || named.contains('\r') {
        UNKNOWN_VERSION@
    } else {
        named
    }
}

/// The version a publisher reports.
pub fn reported_version(version: &str) -> (reported: &str)
    ensures
        reported@ == version_reported(version@),
{
    let named: &str = text::trim(version);
    if named.unicode_len() == 0 || text::has_char(named, '\n') || text::has_char(named, '\r') {
        UNKNOWN_VERSION
    } else {
        named
    }
}

/// What `--version` writes: exactly the version, alone on one line.
pub fn version_stdout(version: &str) -> (out: String)
    ensures
        out@ == version@ + "\n"@,
{
    let mut out: String = version.to_owned();
    out.append("\n");
    out
}

/// Whether a publisher that ended this way was asked to. A supervisor is told
/// of every other end as a failure.
pub fn ended_well(exit: &Exit) -> (well: bool)
    ensures
        well == (*exit is Signal),
{
    match exit {
        Exit::Signal => true,
        Exit::IdleGuard => false,
        Exit::ConsistencyGuard(_) => false,
    }
}

/// What is written when a publisher ends.
pub fn exit_line(exit: &Exit) -> (line: String)
    ensures
        line@ == "dz-publisher-runtime: exiting because of "@ + exit.said(),
{
    let mut line: String = "dz-publisher-runtime: exiting because of ".to_owned();
    line.append(exit.message().as_str());
    line
}

/// What is written of a publisher that did not start.
pub fn refusal_line(error: &StartupError) -> (line: String)
    ensures
        line@ == "dz-publisher-runtime: "@ + error@.message(),
{
    let mut line: String = "dz-publisher-runtime: ".to_owned();
    line.append(error.message().as_str());
    line
}

/// What is written of the cause of that, where it has one.
pub fn cause_line(error: &StartupError) -> (line: Option<String>)
    ensures
        match line {
            Some(said) => error@.cause() is Some && said@ == "  caused by: "@ + error@.cause()->0,
            None => error@.cause() is None,
        },
{
    match error.cause() {
        Some(cause) => {
            let mut line: String = "  caused by: ".to_owned();
            line.append(cause);
            Some(line)
        },
        None => None,
    }
}

/// The version reported is one line with something on it.
pub proof fn the_version_is_one_line(version: Seq<char>)
    ensures
        version_reported(version).len() > 0,
        !version_reported(version).contains('\n'),
        !version_reported(version).contains('\r'),
{
    reveal_strlit("unknown");
    assert(forall|i: int|
        0 <= i < UNKNOWN_VERSION@.len() ==> UNKNOWN_VERSION@[i] != '\n' && UNKNOWN_VERSION@[i]
            != '\r');
}

/// Where arguments that name at most one document end, whatever follows them is
/// read on from there.
pub proof fn reading_goes_on(args: Seq<Seq<u8>>, path: Option<Seq<u8>>, rest: Seq<Seq<u8>>)
    requires
        asked(args, path) matches Ok(answer) && answer is Config || asked(args, path) == Err::<
            Asked,
            Refusal,
        >(Refusal::NoConfigPath { usage: USAGE@ }),
    ensures
        asked(args + rest, path) == asked(
            rest,
            match asked(args, path) {
                Ok(Asked::Config(named)) => Some(named),
                _ => None,
            },
        ),
    decreases args.len(),
{
    let option = bytes_of(CONFIG_OPTION);
    let whole = args + rest;
    if args.len() == 0 {
        assert(whole =~= rest);
    } else {
        let arg = args[0];
        assert(whole[0] == arg);
        assert(whole.skip(1) =~= args.skip(1) + rest);
        if arg == option {
            assert(whole[1] == args[1]);
            assert(whole.skip(2) =~= args.skip(2) + rest);
            reading_goes_on(args.skip(2), Some(args[1]), rest);
        } else if is_joined(arg, option) {
            reading_goes_on(args.skip(1), Some(arg.skip(option.len() as int + 1)), rest);
        } else {
            reading_goes_on(args.skip(1), Some(arg), rest);
        }
    }
}

/// The forms that publish nothing win wherever they are written: behind
/// arguments that name at most one document, and whatever follows them.
pub proof fn a_query_is_answered_wherever_it_stands(
    before: Seq<Seq<u8>>,
    query: Seq<u8>,
    after: Seq<Seq<u8>>,
)
    requires
        asked(before, None) matches Ok(answer) && answer is Config || asked(before, None)
            == Err::<Asked, Refusal>(Refusal::NoConfigPath { usage: USAGE@ }),
        query == bytes_of("--version") || query == bytes_of("-V") || query == bytes_of("--help")
            || query == bytes_of("-h"),
    ensures
        asked(before + (seq![query] + after), None) == if query == bytes_of("--help") || query
            == bytes_of("-h") {
            Ok::<Asked, Refusal>(Asked::Help)
        } else {
            Ok::<Asked, Refusal>(Asked::Version)
        },
{
    reading_goes_on(before, None, seq![query] + after);
    assert((seq![query] + after)[0] == query);
}

proof fn config_option_bytes()
    ensures
        bytes_of(CONFIG_OPTION).len() == 8,
        bytes_of("--help").len() == 6,
        bytes_of("-h").len() == 2,
        bytes_of("--version").len() == 9,
        bytes_of("-V").len() == 2,
{
    reveal_strlit("--config");
    reveal_strlit("--help");
    reveal_strlit("-h");
    reveal_strlit("--version");
    reveal_strlit("-V");
    vstd::utf8::is_ascii_chars_encode_utf8("--config"@);
    vstd::utf8::is_ascii_chars_encode_utf8("--help"@);
    vstd::utf8::is_ascii_chars_encode_utf8("-h"@);
    vstd::utf8::is_ascii_chars_encode_utf8("--version"@);
    vstd::utf8::is_ascii_chars_encode_utf8("-V"@);
}

/// The two spellings of the option are one option: a value behind it and a value
/// joined to it name the same document, whatever is read after them.
pub proof fn both_spellings_name_the_same_document(
    value: Seq<u8>,
    path: Option<Seq<u8>>,
    rest: Seq<Seq<u8>>,
)
    requires
        value.len() > 0,
    ensures
        asked(seq![bytes_of(CONFIG_OPTION), value] + rest, path) == asked(
            seq![bytes_of(CONFIG_OPTION) + seq![61u8] + value] + rest,
            path,
        ),
{
    config_option_bytes();
    let option = bytes_of(CONFIG_OPTION);
    let joined = option + seq![61u8] + value;
    let apart = seq![option, value] + rest;
    let together = seq![joined] + rest;
    assert(apart[0] == option && apart[1] == value);
    assert(together[0] == joined);
    assert(apart.skip(2) =~= rest);
    assert(together.skip(1) =~= rest);
    assert(joined.take(option.len() as int) =~= option);
    assert(joined.skip(option.len() as int + 1) =~= value);
    assert(joined.len() >= 10);
    assert(is_joined(joined, option));
}

/// An argument that starts with a dash and is no accepted form is refused by
/// name, wherever it stands among arguments that name at most one document.
pub proof fn an_unknown_option_is_refused_by_name(
    before: Seq<Seq<u8>>,
    arg: Seq<u8>,
    after: Seq<Seq<u8>>,
)
    requires
        asked(before, None) matches Ok(answer) && answer is Config || asked(before, None)
            == Err::<Asked, Refusal>(Refusal::NoConfigPath { usage: USAGE@ }),
        arg.len() > 0,
        arg[0] == 45,
        arg != bytes_of("--help"),
        arg != bytes_of("-h"),
        arg != bytes_of("--version"),
        arg != bytes_of("-V"),
        arg != bytes_of(CONFIG_OPTION),
        !is_joined(arg, bytes_of(CONFIG_OPTION)),
    ensures
        asked(before + (seq![arg] + after), None) == Err::<Asked, Refusal>(
            Refusal::UnknownOption { option: lossy(arg), usage: USAGE@ },
        ),
{
    reading_goes_on(before, None, seq![arg] + after);
    assert((seq![arg] + after)[0] == arg);
}

/// A second document is refused rather than either being dropped.
pub proof fn a_second_document_is_refused(
    before: Seq<Seq<u8>>,
    first: Seq<u8>,
    second: Seq<u8>,
    after: Seq<Seq<u8>>,
)
    requires
        asked(before, None) == Ok::<Asked, Refusal>(Asked::Config(first)),
        second != bytes_of("--help"),
        second != bytes_of("-h"),
        second != bytes_of("--version"),
        second != bytes_of("-V"),
        second != bytes_of(CONFIG_OPTION),
        !is_joined(second, bytes_of(CONFIG_OPTION)),
        second.len() == 0 || second[0] != 45,
    ensures
        asked(before + (seq![second] + after), None) == Err::<Asked, Refusal>(
            Refusal::TwoConfigPaths { first: lossy(first), second: lossy(second), usage: USAGE@ },
        ),
{
    reading_goes_on(before, None, seq![second] + after);
    assert((seq![second] + after)[0] == second);
}

/// What is left when there is nothing more to read: the document that was named,
/// and without one a refusal that shows the accepted forms.
pub proof fn what_was_named_is_run(path: Seq<u8>)
    ensures
        asked(Seq::empty(), Some(path)) == Ok::<Asked, Refusal>(Asked::Config(path)),
        asked(Seq::empty(), None) == Err::<Asked, Refusal>(
            Refusal::NoConfigPath { usage: USAGE@ },
        ),
{
}

/// An argument that is no option names the document it spells.
pub proof fn a_bare_argument_names_a_document(path: Seq<u8>)
    requires
        path.len() == 0 || path[0] != 45,
        path != bytes_of("--help"),
        path != bytes_of("-h"),
        path != bytes_of("--version"),
        path != bytes_of("-V"),
        path != bytes_of("--config"),
        !is_joined(path, bytes_of("--config")),
    ensures
        asked(seq![path], None) == Ok::<Asked, Refusal>(Asked::Config(path)),
{
    let args = seq![path];
    assert(args.skip(1) =~= Seq::<Seq<u8>>::empty());
    assert(named(args, 1, None, path) == asked(args.skip(1), Some(path)));
}

/// The argument behind the option is the document, whatever it looks like; the
/// option with nothing behind it is refused.
pub proof fn an_option_takes_the_next_argument(value: Seq<u8>)
    ensures
        asked(seq![bytes_of("--config"), value], None) == Ok::<Asked, Refusal>(
            Asked::Config(value),
        ),
        asked(seq![bytes_of("--config")], None) == Err::<Asked, Refusal>(
            Refusal::OptionNeedsValue { option: "--config"@, usage: USAGE@ },
        ),
{
    config_option_bytes();
    let args = seq![bytes_of("--config"), value];
    assert(args.skip(2) =~= Seq::<Seq<u8>>::empty());
    assert(named(args, 2, None, value) == asked(args.skip(2), Some(value)));
}

/// A value joined to the option is what stands behind the `=`.
pub proof fn a_joined_value_is_what_follows(arg: Seq<u8>, option: Seq<u8>, value: Seq<u8>)
    ensures
        is_joined(option + seq![61u8] + value, option),
        is_joined(arg, option) ==> arg == option + seq![61u8] + arg.skip(option.len() as int + 1),
{
    let whole = option + seq![61u8] + value;
    assert(whole.take(option.len() as int) =~= option);
    if is_joined(arg, option) {
        assert(arg =~= arg.take(option.len() as int) + seq![61u8] + arg.skip(
            option.len() as int + 1,
        ));
    }
}

/// A version that is one line is reported as it is, without the white space around
/// it; anything else is reported as unknown.
pub proof fn a_version_is_reported_as_it_is(version: Seq<char>)
    ensures
        text::trimmed(version).len() > 0 && !text::trimmed(version).contains('\n')
            && !text::trimmed(version).contains('\r') ==> version_reported(version)
            == text::trimmed(version),
        text::trimmed(version).len() == 0 || text::trimmed(version).contains('\n')
            || text::trimmed(version).contains('\r') ==> version_reported(version) == "unknown"@,
{
}

/// The arguments read are the arguments given, in their order.
pub proof fn each_argument_has_its_place(args: Seq<Vec<u8>>, at: int)
    requires
        0 <= at < args.len(),
    ensures
        arguments(args).len() == args.len(),
        arguments(args)[at] == args[at]@,
{
}

} // verus!
