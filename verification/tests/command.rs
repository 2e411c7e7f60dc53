use dz_publisher_runtime::command::{
    cause_line, ended_well, exit_line, invocation, refusal_line, reported_version, version_stdout, Invocation,
    CONFIG_OPTION, UNKNOWN_VERSION, USAGE,
};
use dz_publisher_runtime::error::StartupError;
use dz_publisher_runtime::guard::{Exit, Inconsistency};

/// Read a command line written the way a shell hands it over: the arguments
/// after the program name, and nothing else.
fn invocation_of(args: &[&str]) -> Result<Invocation, StartupError> {
    invocation(args.iter().map(|arg| arg.as_bytes().to_vec()).collect())
}

fn config(path: &str) -> Invocation {
    Invocation::Config(path.as_bytes().to_vec())
}

#[test]
fn a_configuration_file_is_named_bare_or_after_the_option() {
    assert_eq!(
        invocation_of(&["/etc/dz/publisher.toml"]).expect("a bare path is a path"),
        config("/etc/dz/publisher.toml")
    );
    assert_eq!(
        invocation_of(&["--config", "/etc/dz/publisher.toml"]).expect("and so is this one"),
        config("/etc/dz/publisher.toml")
    );
    assert_eq!(
        invocation_of(&["./publisher.toml"]).expect("a relative path is a path"),
        config("./publisher.toml")
    );
}

#[test]
fn a_configuration_file_is_named_by_the_joined_spelling_too() {
    assert_eq!(
        invocation_of(&["--config=/etc/dz/publisher.toml"])
            .expect("the joined spelling names a document"),
        config("/etc/dz/publisher.toml")
    );
    assert_eq!(
        invocation_of(&["--config=/etc/dz/a=b.toml"])
            .expect("the value ends where the argument does"),
        config("/etc/dz/a=b.toml")
    );
    match invocation_of(&["--config=a.toml", "--config", "b.toml"]) {
        Err(StartupError::TwoConfigPaths { first, second, .. }) => {
            assert_eq!(first, "a.toml");
            assert_eq!(second, "b.toml");
        }
        other => panic!("the joined spelling did not name the first document: {other:?}"),
    }
}

#[test]
fn the_joined_spelling_with_nothing_after_it_names_the_option() {
    match invocation_of(&["--config="]) {
        Err(StartupError::OptionNeedsValue { option, usage }) => {
            assert_eq!(option, CONFIG_OPTION);
            assert_eq!(usage, USAGE);
        }
        other => panic!("an empty value did not name the option: {other:?}"),
    }
}

#[test]
fn the_version_is_asked_for_by_either_spelling() {
    assert_eq!(
        invocation_of(&["--version"]).expect("--version is an option"),
        Invocation::Version
    );
    assert_eq!(
        invocation_of(&["-V"]).expect("-V is the same option"),
        Invocation::Version
    );
}

#[test]
fn an_option_this_reader_does_not_know_is_refused_by_name() {
    for option in ["--verison", "--nope", "-v", "-", "--confg=publisher.toml"] {
        for args in [vec![option], vec!["publisher.toml", option]] {
            match invocation_of(&args) {
                Err(StartupError::UnknownOption {
                    option: named,
                    usage,
                }) => {
                    assert_eq!(named, option);
                    assert_eq!(usage, USAGE);
                }
                other => panic!("{args:?} was not refused by name: {other:?}"),
            }
        }
    }
}

#[test]
fn the_usage_names_every_accepted_form() {
    for form in ["--config", "--version", "-V", "--help", "-h"] {
        assert!(USAGE.contains(form), "{form} is not in the usage: {USAGE}");
    }
}

#[test]
fn a_command_line_with_no_configuration_file_names_the_usage() {
    match invocation_of(&[]) {
        Err(StartupError::NoConfigPath { usage }) => assert_eq!(usage, USAGE),
        other => panic!("an empty command line did not ask for a document: {other:?}"),
    }
}

#[test]
fn the_flags_that_publish_nothing_win_wherever_they_appear() {
    for args in [
        vec!["--config", "publisher.toml", "--version"],
        vec!["publisher.toml", "--version"],
        vec!["publisher.toml", "-V"],
    ] {
        assert_eq!(
            invocation_of(&args).expect("a version is still asked for"),
            Invocation::Version,
            "{args:?}"
        );
    }
    for args in [
        vec!["--help"],
        vec!["-h"],
        vec!["publisher.toml", "--help"],
        vec!["--config", "publisher.toml", "-h"],
    ] {
        assert_eq!(
            invocation_of(&args).expect("help is still asked for"),
            Invocation::Help,
            "{args:?}"
        );
    }
}

#[test]
fn the_first_decisive_argument_is_the_one_answered() {
    assert_eq!(
        invocation_of(&["--version", "--verison"]).expect("the flag was reached first"),
        Invocation::Version
    );
    assert_eq!(
        invocation_of(&["--help", "--verison"]).expect("and so was this one"),
        Invocation::Help
    );
    match invocation_of(&["--verison", "--version"]) {
        Err(StartupError::UnknownOption { option, .. }) => assert_eq!(option, "--verison"),
        other => panic!("the misspelling was reached first: {other:?}"),
    }
}

#[test]
fn two_configuration_files_are_refused_rather_than_one_being_dropped() {
    for args in [
        vec!["a.toml", "b.toml"],
        vec!["--config", "a.toml", "--config", "b.toml"],
        vec!["a.toml", "--config", "b.toml"],
        vec!["--config", "a.toml", "b.toml"],
    ] {
        match invocation_of(&args) {
            Err(StartupError::TwoConfigPaths {
                first,
                second,
                usage,
            }) => {
                assert_eq!(first, "a.toml", "{args:?}");
                assert_eq!(second, "b.toml", "{args:?}");
                assert_eq!(usage, USAGE, "{args:?}");
            }
            other => panic!("{args:?} did not refuse the second file: {other:?}"),
        }
    }
}

#[test]
fn an_option_with_no_value_is_named_rather_than_the_file() {
    for args in [vec!["--config"], vec!["publisher.toml", "--config"]] {
        match invocation_of(&args) {
            Err(StartupError::OptionNeedsValue { option, usage }) => {
                assert_eq!(option, "--config", "{args:?}");
                assert_eq!(usage, USAGE, "{args:?}");
            }
            other => panic!("{args:?} did not name the option: {other:?}"),
        }
    }
}

#[test]
fn a_version_nobody_set_is_reported_as_unknown() {
    assert_eq!(reported_version(""), UNKNOWN_VERSION);
    assert_eq!(reported_version("   "), UNKNOWN_VERSION);
    assert_eq!(reported_version("\n"), UNKNOWN_VERSION);
    assert_eq!(version_stdout(reported_version("")), "unknown\n");
    assert_eq!(reported_version(" 1.2.3\n"), "1.2.3");
    assert_eq!(reported_version("0.2.0"), "0.2.0");
}

#[test]
fn a_version_that_would_print_as_two_lines_is_reported_as_unknown() {
    for handed in ["1.2.3\nextra", "1.2.3\r\nextra", "1.2.3\rextra", "a\nb\nc"] {
        assert_eq!(reported_version(handed), UNKNOWN_VERSION, "{handed:?}");
        let out = version_stdout(reported_version(handed));
        assert_eq!(out.lines().count(), 1, "{out:?}");
    }
    assert_eq!(reported_version("1.2.3\n"), "1.2.3");
}

#[test]
fn the_version_is_written_alone_on_one_line() {
    assert_eq!(version_stdout("0.2.0"), "0.2.0\n");
    assert_eq!(version_stdout("1.2.3-rc.1"), "1.2.3-rc.1\n");
    let out = version_stdout("0.2.0");
    assert_eq!(out.lines().count(), 1, "{out:?}");
    assert!(out.ends_with('\n'), "{out:?}");
}

#[test]
fn a_path_that_is_not_text_is_still_a_path() {
    let path = vec![b'/', 0xff, b'a'];
    assert_eq!(
        invocation(vec![path.clone()]).expect("a path is bytes"),
        Invocation::Config(path)
    );
}

#[test]
fn an_option_that_is_not_text_is_named_with_what_can_be_read_of_it() {
    match invocation(vec![vec![b'-', 0xff, b'x']]) {
        Err(StartupError::UnknownOption { option, .. }) => assert_eq!(option, "-\u{fffd}x"),
        other => panic!("it was not refused by name: {other:?}"),
    }
}

#[test]
fn only_a_signal_is_a_good_end() {
    assert!(ended_well(&Exit::Signal));
    assert!(!ended_well(&Exit::IdleGuard));
    let dark = Exit::ConsistencyGuard(Inconsistency::EgressDark {
        sink: "mktdata".to_owned(),
    });
    assert!(!ended_well(&dark));
    assert_eq!(
        exit_line(&dark),
        "dz-publisher-runtime: exiting because of the consistency guard: the transmitter `mktdata` is no longer being sent to, and its failure darkens this publisher"
    );
    assert_eq!(
        refusal_line(&StartupError::NoEnabledFeed),
        "dz-publisher-runtime: no `[[feed]]` block is enabled: this publisher would emit nothing"
    );
}

#[test]
fn a_refusal_is_written_with_its_cause() {
    let error = StartupError::Runtime {
        source: "no threads".to_owned(),
    };
    assert_eq!(
        refusal_line(&error),
        "dz-publisher-runtime: the async runtime could not be started: no threads"
    );
    assert_eq!(cause_line(&error).as_deref(), Some("  caused by: no threads"));
    assert_eq!(cause_line(&StartupError::NoEnabledFeed), None);
    // What is another component's words and no more has no cause but itself.
    let said = StartupError::Era {
        source: "the era is gone".to_owned(),
    };
    assert_eq!(cause_line(&said), None);
}
