use dz_publisher_runtime::config::{Kind, Source, SourceRole};
use dz_publisher_runtime::error::StartupError;
use dz_publisher_runtime::instrument::InstrumentRef;
use dz_publisher_runtime::run::{
    check_sources, fatal_ends_the_process, primary_connection, upstream_unusable, Pass, PassStep,
    Sweep, Verdict,
};
use dz_publisher_runtime::Exit;

fn declared(name: &str, role: SourceRole) -> Source {
    Source {
        connection: name.to_owned(),
        kind: Kind {
            token: "uds".to_owned(),
        },
        role,
        upstream: toml::map::Map::new(),
        credentials: toml::map::Map::new(),
    }
}

fn names(list: &[&str]) -> Vec<String> {
    list.iter().map(|name| (*name).to_owned()).collect()
}

#[test]
fn a_comparison_fatal_error_does_not_end_the_process() {
    let sources = vec![
        declared("ws", SourceRole::Primary),
        declared("fix", SourceRole::Comparison),
    ];
    assert!(fatal_ends_the_process(&sources, "ws"));
    assert!(!fatal_ends_the_process(&sources, "fix"));
}

#[test]
fn an_upstream_partition_fatal_error_ends_the_process() {
    let sources = vec![
        declared("ws", SourceRole::Primary),
        declared("ws-2", SourceRole::UpstreamPartition),
        declared("fix", SourceRole::Comparison),
    ];
    assert!(fatal_ends_the_process(&sources, "ws-2"));
    assert!(fatal_ends_the_process(&sources, "ws"));
    assert!(!fatal_ends_the_process(&sources, "fix"));
}

#[test]
fn with_no_sources_declared_every_fatal_error_still_ends_the_process() {
    assert!(fatal_ends_the_process(&Vec::new(), "whatever"));
}

#[test]
fn an_undeclared_connection_fatal_error_ends_the_process() {
    let sources = vec![declared("ws", SourceRole::Primary)];
    assert!(fatal_ends_the_process(&sources, "nobody"));
}

type Run = std::pin::Pin<Box<dyn std::future::Future<Output = (&'static str, &'static str)>>>;

/// Poll every run once and in turn, as the loop does.
fn poll(
    runs: &mut Vec<(bool, Run)>,
    cx: &mut std::task::Context<'_>,
    mut report: impl FnMut(&'static str, &'static str),
) -> std::task::Poll<(&'static str, &'static str)> {
    let mut sweep = Sweep::new();
    for (ends_the_process, run) in runs.iter_mut() {
        let polled = run.as_mut().poll(cx);
        match polled {
            std::task::Poll::Pending => {
                assert_eq!(sweep.answered(*ends_the_process, false), Verdict::Waits);
            }
            std::task::Poll::Ready((connection, error)) => {
                match sweep.answered(*ends_the_process, true) {
                    Verdict::EndsTheProcess => {
                        return std::task::Poll::Ready((connection, error));
                    }
                    Verdict::LeftOut => report(connection, error),
                    Verdict::Waits => unreachable!("it gave up"),
                }
            }
        }
    }
    sweep.finish(runs);
    std::task::Poll::Pending
}

#[test]
fn a_non_fatal_run_that_gives_up_is_reported_and_dropped_from_the_set() {
    let ready = |name: &'static str| -> Run { Box::pin(std::future::ready((name, "fatal"))) };
    let pending = || -> Run { Box::pin(std::future::pending()) };

    let mut runs: Vec<(bool, Run)> = vec![
        (false, ready("fix")),
        (true, pending()),
        (false, ready("poll")),
    ];
    let mut reported: Vec<&'static str> = Vec::new();
    let waker = std::task::Waker::noop();
    let mut cx = std::task::Context::from_waker(&waker);

    let polled = poll(&mut runs, &mut cx, |connection, _| {
        reported.push(connection);
    });
    assert!(polled.is_pending(), "no fatal run has given up");
    assert_eq!(reported, vec!["fix", "poll"]);
    assert_eq!(runs.len(), 1);
    assert!(runs[0].0, "the one left is the run whose failure is fatal");

    reported.clear();
    assert!(poll(&mut runs, &mut cx, |connection, _| {
        reported.push(connection);
    })
    .is_pending());
    assert!(reported.is_empty());
}

#[test]
fn a_fatal_run_that_gives_up_ends_the_poll_and_is_named() {
    let mut runs: Vec<(bool, Run)> = vec![
        (false, Box::pin(std::future::pending())),
        (true, Box::pin(std::future::ready(("ws", "endpoint")))),
    ];
    let waker = std::task::Waker::noop();
    let mut cx = std::task::Context::from_waker(&waker);

    let polled = poll(&mut runs, &mut cx, |_, _| {
        panic!("a run whose failure is fatal is not reported and carried on from");
    });
    match polled {
        std::task::Poll::Ready((connection, error)) => {
            assert_eq!(connection, "ws");
            assert_eq!(error, "endpoint");
        }
        std::task::Poll::Pending => panic!("the primary gave up"),
    }
}

#[test]
fn what_waits_is_kept_in_its_order() {
    let mut sweep = Sweep::new();
    for gave_up in [false, true, false, true, false] {
        sweep.answered(false, gave_up);
    }
    let mut runs = vec!["a", "b", "c", "d", "e", "f"];
    sweep.finish(&mut runs);
    assert_eq!(runs, ["a", "c", "e", "f"]);
}

#[test]
fn a_venue_that_built_nothing_is_refused() {
    assert!(matches!(
        check_sources(&Vec::new(), Vec::new()),
        Err(StartupError::NoVenueSource)
    ));
}

#[test]
fn several_transports_that_no_document_declares_are_refused() {
    assert!(check_sources(&Vec::new(), names(&["records"])).is_ok());
    match check_sources(&Vec::new(), names(&["one", "two"])) {
        Err(StartupError::SourcesUndeclared { built }) => assert_eq!(built, 2),
        other => panic!("nothing says what the second one is: {other:?}"),
    }
}

#[test]
fn what_is_declared_and_what_was_built_are_held_to_each_other_as_sets() {
    let sources = vec![
        declared("ws", SourceRole::Primary),
        declared("fix", SourceRole::Comparison),
    ];
    assert!(check_sources(&sources, names(&["fix", "ws"])).is_ok());
    match check_sources(&sources, names(&["ws", "poll"])) {
        Err(StartupError::SourcesDisagree { declared, built }) => {
            assert_eq!(declared, "fix, ws");
            assert_eq!(built, "poll, ws");
        }
        other => panic!("they are different sets: {other:?}"),
    }
    // One connection built twice is not the two that were declared.
    assert!(check_sources(&sources, names(&["ws", "ws"])).is_err());
}

#[test]
fn a_replay_stands_for_the_primary() {
    let sources = vec![
        declared("fix", SourceRole::Comparison),
        declared("ws", SourceRole::Primary),
    ];
    assert_eq!(primary_connection(&sources, &names(&["fix", "ws"])), "ws");
    assert_eq!(primary_connection(&Vec::new(), &names(&["records"])), "records");
}

#[test]
fn an_unusable_upstream_is_named() {
    assert_eq!(upstream_unusable("ws", "no such host"), "`ws`: no such host");
}

#[test]
fn a_pass_takes_each_step_once_and_ends_on_the_tick_alone() {
    let mut pass = Pass::new();
    let order = [
        PassStep::Wait,
        PassStep::PollListings,
        PassStep::NameUnknownShards,
        PassStep::DrainOwed,
        PassStep::PeriodicSnapshot,
        PassStep::NameSinks,
        PassStep::Tick,
    ];
    for _ in 0..2 {
        for step in order {
            assert_eq!(pass.step(), step);
            if step == PassStep::DrainOwed {
                pass.drained(Vec::new());
            } else {
                assert!(pass.done(None).is_none());
            }
        }
    }
    for step in order {
        assert_eq!(pass.step(), step);
        if step == PassStep::DrainOwed {
            pass.drained(Vec::new());
        } else {
            let ended = pass.done(Some(Exit::IdleGuard));
            assert_eq!(matches!(ended, Some(Exit::IdleGuard)), step == PassStep::Tick);
        }
    }
    assert_eq!(pass.step(), PassStep::Wait);
}

#[test]
fn each_snapshot_that_was_drained_is_handed_out_once_and_in_order() {
    let mut pass = Pass::new();
    let owed: Vec<(InstrumentRef, u64)> = [(2, 18), (5, 9), (9, 20)]
        .into_iter()
        .map(|(slot, anchor)| (InstrumentRef::from_admission(slot), anchor))
        .collect();
    for _ in 0..2 {
        let mut handed = Vec::new();
        let mut steps = 0;
        loop {
            steps += 1;
            match pass.step() {
                PassStep::DrainOwed => pass.drained(owed.clone()),
                PassStep::RecoverySnapshot { instrument, anchor } => {
                    handed.push((instrument, anchor));
                    assert!(pass.done(None).is_none());
                }
                step => {
                    assert!(pass.done(None).is_none());
                    if step == PassStep::Tick {
                        break;
                    }
                }
            }
        }
        assert_eq!(handed, owed);
        assert_eq!(steps, 10);
    }
}
