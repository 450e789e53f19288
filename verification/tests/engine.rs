//! The dispatch engine and its handlers, exercised on concrete sessions.

use pinix::action::{Action, ActionType, BuildStepId, ResultFields, StartFields};
use pinix::effect::{Effect, StyleTemplate, SummaryLine};
use pinix::handlers::Handler;
use pinix::program::OutputStream;
use pinix::state::{SessionConfig, State};

fn config() -> SessionConfig {
    SessionConfig { debug: false, summary_download: true, log_window_size: 2 }
}

fn start(kind: StartFields, id: u64, parent: u64, text: &str) -> Action {
    Action::Start {
        start_type: kind,
        id: BuildStepId(id),
        level: 0,
        parent: BuildStepId(parent),
        text: text.into(),
    }
}

fn printlns(effects: &[Effect]) -> Vec<&SummaryLine> {
    effects
        .iter()
        .filter_map(|e| match e {
            Effect::Println { line } => Some(line),
            _ => None,
        })
        .collect()
}

#[test]
fn ordering_of_group_and_child_summaries() {
    let (mut state, fx) = State::new(config(), 90);
    assert!(printlns(&fx).is_empty());

    let mut all: Vec<Effect> = Vec::new();
    all.extend(state.handle(&start(StartFields::Builds, 1, 0, "builds"), 90));
    all.extend(state.handle(
        &start(
            StartFields::Build {
                target: "/nix/store/aaaa-pkg-1.0".into(),
                source: "here".into(),
                val1: 0,
                val2: 0,
            },
            2,
            1,
            "building pkg",
        ),
        90,
    ));
    all.extend(state.handle(&Action::Stop { id: BuildStepId(2) }, 90));
    all.extend(state.handle(&Action::Stop { id: BuildStepId(1) }, 90));

    let lines = printlns(&all);
    // The child build's summary is printed; the group saw no progress
    // event, so its expected count stayed zero and its summary is
    // suppressed.
    assert_eq!(lines.len(), 1);
    assert_eq!(
        lines[0],
        &SummaryLine::Built { target: "/nix/store/aaaa-pkg-1.0".to_string() }
    );

    // Only the six always-on factories survive.
    assert_eq!(state.handlers.len(), 6);
    assert!(state
        .handlers
        .iter()
        .all(|h| !matches!(h, Handler::BuildGroup(_) | Handler::Build(_) | Handler::Log(_))));
}

#[test]
fn group_summary_reports_expected_count() {
    let (mut state, _) = State::new(config(), 90);
    state.handle(&start(StartFields::Builds, 1, 0, "builds"), 90);
    state.handle(
        &Action::Result {
            id: BuildStepId(1),
            fields: ResultFields::Progress { done: 2, expected: 3, running: 1, failed: 0 },
        },
        90,
    );
    let fx = state.handle(&Action::Stop { id: BuildStepId(1) }, 90);
    let lines = printlns(&fx);
    assert_eq!(lines.len(), 1);
    assert_eq!(lines[0], &SummaryLine::BuiltGroup { count: 3 });
}

#[test]
fn second_stop_is_silent_and_changes_nothing() {
    let (mut state, _) = State::new(config(), 90);
    state.handle(&start(StartFields::Builds, 1, 0, "builds"), 90);
    state.handle(
        &Action::Result {
            id: BuildStepId(1),
            fields: ResultFields::Progress { done: 1, expected: 1, running: 0, failed: 0 },
        },
        90,
    );
    let first = state.handle(&Action::Stop { id: BuildStepId(1) }, 90);
    assert_eq!(printlns(&first).len(), 1);
    let n = state.handlers.len();

    let second = state.handle(&Action::Stop { id: BuildStepId(1) }, 90);
    assert!(printlns(&second).is_empty());
    assert_eq!(state.handlers.len(), n);
}

#[test]
fn end_to_end_empty_group_session() {
    let (mut state, _) = State::new(config(), 90);
    let fx1 = state
        .process_line(
            OutputStream::StdErr,
            r#"@nix {"action":"start","id":1,"level":0,"parent":0,"text":"t","type":104}"#,
            90,
        )
        .unwrap();
    assert!(printlns(&fx1).is_empty());
    let fx2 = state
        .process_line(OutputStream::StdErr, r#"@nix {"action":"stop","id":1}"#, 90)
        .unwrap();
    // Zero derivations were expected, so no summary line is printed, and
    // the group handler is gone.
    assert!(printlns(&fx2).is_empty());
    assert_eq!(state.handlers.len(), 6);
    assert!(state.handlers.iter().all(|h| !matches!(h, Handler::BuildGroup(_))));
}

#[test]
fn decode_failures_are_reported_not_dispatched() {
    let (mut state, _) = State::new(config(), 90);
    let before = state.handlers.len();
    let res = state.process_line(OutputStream::StdErr, r#"@nix {"action":"stop"}"#, 90);
    assert!(res.is_err());
    assert_eq!(state.handlers.len(), before);
}

#[test]
fn plain_lines_pass_through() {
    let (mut state, _) = State::new(config(), 90);
    let fx = state
        .process_line(OutputStream::StdOut, "compiling foo.c", 90)
        .unwrap();
    assert_eq!(fx.len(), 1);
    assert_eq!(
        fx[0],
        Effect::Println { line: SummaryLine::Raw { text: "compiling foo.c".into() } }
    );
    let fx2 = state
        .process_line(OutputStream::StdErr, "warning: something", 90)
        .unwrap();
    assert_eq!(printlns(&fx2).len(), 1);
}

#[test]
fn messages_are_printed_with_their_level() {
    let (mut state, _) = State::new(config(), 90);
    let fx = state.handle(&Action::Msg { level: 3, msg: "note".into() }, 90);
    let lines = printlns(&fx);
    assert_eq!(lines.len(), 1);
    assert_eq!(lines[0], &SummaryLine::Message { level: 3, text: "note".to_string() });
}

#[test]
fn unknown_work_gets_a_capitalized_spinner() {
    let (mut state, _) = State::new(config(), 90);
    let fx = state.handle(&start(StartFields::Unknown, 5, 0, "querying things"), 90);
    assert!(fx.iter().any(|e| matches!(
        e,
        Effect::SetMessage { text, .. } if text == "Querying things"
    )));
    // The spinner goes away on the matching stop.
    let fx2 = state.handle(&Action::Stop { id: BuildStepId(5) }, 90);
    assert!(fx2.iter().any(|e| matches!(e, Effect::FinishAndClear { .. })));
}

#[test]
fn log_lines_flush_in_order_on_stop() {
    let (mut state, _) = State::new(config(), 90);
    state.handle(&start(StartFields::Unknown, 5, 0, "work"), 90);
    state.handle(
        &Action::Result { id: BuildStepId(5), fields: ResultFields::BuildLogLine("one".into()) },
        90,
    );
    state.handle(
        &Action::Result { id: BuildStepId(5), fields: ResultFields::BuildLogLine("two".into()) },
        90,
    );
    let fx = state.handle(&Action::Stop { id: BuildStepId(5) }, 90);
    let lines = printlns(&fx);
    assert_eq!(lines.len(), 2);
    assert_eq!(lines[0], &SummaryLine::Log { last: false, text: "one".to_string() });
    assert_eq!(lines[1], &SummaryLine::Log { last: true, text: "two".to_string() });
}

#[test]
fn small_transfers_get_no_visible_bar() {
    let (mut state, _) = State::new(config(), 90);
    state.handle(
        &start(
            StartFields::CopyPath {
                path: "/nix/store/bbbb-small-1.0".into(),
                origin: "o".into(),
                destination: "d".into(),
            },
            10,
            0,
            "copying",
        ),
        90,
    );
    state.handle(&start(StartFields::FileTransfer { target: "url".into() }, 11, 10, "t"), 90);
    // A small expected size: tracked, but no bar is allocated.
    let fx = state.handle(
        &Action::Result {
            id: BuildStepId(11),
            fields: ResultFields::Progress { done: 10, expected: 100, running: 0, failed: 0 },
        },
        90,
    );
    assert!(!fx.iter().any(|e| matches!(e, Effect::CreateBar { .. })));
    // The summary still reports the bytes that were tracked.
    let fx2 = state.handle(&Action::Stop { id: BuildStepId(11) }, 90);
    let lines = printlns(&fx2);
    assert_eq!(lines.len(), 1);
    assert_eq!(
        lines[0],
        &SummaryLine::Downloaded { target: "/nix/store/bbbb-small-1.0".to_string(), bytes: 10 }
    );
}

#[test]
fn zero_expected_progress_never_divides() {
    let (mut state, _) = State::new(config(), 90);
    state.handle(
        &start(
            StartFields::CopyPath {
                path: "/nix/store/cccc-big-2.0".into(),
                origin: "o".into(),
                destination: "d".into(),
            },
            10,
            0,
            "copying",
        ),
        90,
    );
    state.handle(&start(StartFields::FileTransfer { target: "url".into() }, 11, 10, "t"), 90);
    // An unknown total must compute an empty bar, not divide by zero, and
    // must not allocate a visible bar yet.
    let fx = state.handle(
        &Action::Result {
            id: BuildStepId(11),
            fields: ResultFields::Progress { done: 5, expected: 0, running: 0, failed: 0 },
        },
        90,
    );
    assert!(!fx.iter().any(|e| matches!(e, Effect::CreateBar { .. })));
    assert!(!fx.iter().any(|e| matches!(e, Effect::SetPosition { .. })));
}

#[test]
fn large_transfers_get_a_bar_and_a_summary() {
    let (mut state, _) = State::new(config(), 90);
    state.handle(
        &start(
            StartFields::CopyPath {
                path: "/nix/store/dddd-big-2.0".into(),
                origin: "o".into(),
                destination: "d".into(),
            },
            10,
            0,
            "copying",
        ),
        90,
    );
    state.handle(&start(StartFields::FileTransfer { target: "url".into() }, 11, 10, "t"), 90);
    let fx = state.handle(
        &Action::Result {
            id: BuildStepId(11),
            fields: ResultFields::Progress {
                done: 1024,
                expected: 20 * 1024 * 1024,
                running: 0,
                failed: 0,
            },
        },
        90,
    );
    assert!(fx.iter().any(|e| matches!(e, Effect::CreateBar { .. })));
    assert!(fx
        .iter()
        .any(|e| matches!(e, Effect::SetLength { value, .. } if *value == 20 * 1024 * 1024)));
    let fx2 = state.handle(&Action::Stop { id: BuildStepId(11) }, 90);
    let lines = printlns(&fx2);
    assert_eq!(lines.len(), 1);
    assert_eq!(
        lines[0],
        &SummaryLine::Downloaded { target: "/nix/store/dddd-big-2.0".to_string(), bytes: 1024 }
    );
}

#[test]
fn downloads_group_aggregates_and_summarizes() {
    let (mut state, _) = State::new(config(), 90);
    state.handle(&start(StartFields::CopyPaths, 1, 0, "copying paths"), 90);
    state.handle(
        &Action::Result {
            id: BuildStepId(1),
            fields: ResultFields::SetExpected { action: ActionType::FileTransfer, expected: 100 },
        },
        90,
    );
    state.handle(
        &start(
            StartFields::CopyPath {
                path: "/nix/store/eeee-pkg-3.0".into(),
                origin: "o".into(),
                destination: "d".into(),
            },
            2,
            1,
            "copying",
        ),
        90,
    );
    state.handle(&start(StartFields::FileTransfer { target: "url".into() }, 3, 2, "t"), 90);
    let fx = state.handle(
        &Action::Result {
            id: BuildStepId(3),
            fields: ResultFields::Progress { done: 40, expected: 100, running: 0, failed: 0 },
        },
        90,
    );
    assert!(fx
        .iter()
        .any(|e| matches!(e, Effect::SetPosition { value, .. } if *value == 40)));
    state.handle(
        &Action::Result {
            id: BuildStepId(1),
            fields: ResultFields::Progress { done: 1, expected: 4, running: 0, failed: 0 },
        },
        90,
    );
    let fx2 = state.handle(&Action::Stop { id: BuildStepId(1) }, 90);
    let lines = printlns(&fx2);
    assert_eq!(lines.len(), 1);
    assert_eq!(
        lines[0],
        &SummaryLine::DownloadedGroup { count: 1, bytes_down: 40, bytes_unpacked: 0 }
    );
}

#[test]
fn debug_gauge_tracks_every_event() {
    let cfg = SessionConfig { debug: true, summary_download: false, log_window_size: 2 };
    let (mut state, fx0) = State::new(cfg, 90);
    assert!(fx0.iter().any(|e| matches!(e, Effect::CreateBar { .. })));
    assert_eq!(state.handlers.len(), 7);
    let fx = state.handle(&Action::Msg { level: 1, msg: "x".into() }, 90);
    assert!(fx
        .iter()
        .any(|e| matches!(e, Effect::SetGauge { lines_parsed: 1, handlers: 7, .. })));
}

#[test]
fn resize_restyles_before_the_event() {
    let (mut state, _) = State::new(config(), 90);
    state.handle(&start(StartFields::Builds, 1, 0, "builds"), 90);
    // A narrower terminal: the group bar is restyled during the next pass.
    let fx = state.handle(&Action::Msg { level: 0, msg: "x".into() }, 60);
    assert!(fx.iter().any(|e| matches!(e, Effect::SetStyle { .. })));
    let styled = fx.iter().position(|e| matches!(e, Effect::SetStyle { .. })).unwrap();
    let printed = fx
        .iter()
        .position(|e| matches!(e, Effect::Println { .. }))
        .unwrap();
    assert!(styled < printed);
}

#[test]
fn log_window_shifts_lines_upward() {
    let (mut state, _) = State::new(config(), 90);
    let fx0 = state.handle(&start(StartFields::Builds, 1, 0, "builds"), 90);
    // The group opened a two-line shared window.
    let window_bars = fx0
        .iter()
        .filter(|e| matches!(e, Effect::CreateBar { .. }))
        .count();
    assert_eq!(window_bars, 3);  // the group bar and two window lines
    state.handle(
        &start(
            StartFields::Build {
                target: "/nix/store/ffff-pkg-1.0".into(),
                source: "s".into(),
                val1: 0,
                val2: 0,
            },
            2,
            1,
            "building",
        ),
        90,
    );
    state.handle(
        &Action::Result { id: BuildStepId(2), fields: ResultFields::BuildLogLine("first".into()) },
        90,
    );
    let fx = state.handle(
        &Action::Result { id: BuildStepId(2), fields: ResultFields::BuildLogLine("second".into()) },
        90,
    );
    // The older line moves up, the new one takes the bottom slot.
    let msgs: Vec<&str> = fx
        .iter()
        .filter_map(|e| match e {
            Effect::SetMessage { text, .. } => Some(text.as_str()),
            _ => None,
        })
        .collect();
    assert!(msgs.contains(&"first"));
    assert!(msgs.contains(&"second"));
}

#[test]
fn child_summary_precedes_group_summary() {
    let (mut state, _) = State::new(config(), 90);
    state.handle(&start(StartFields::Builds, 1, 0, "builds"), 90);
    state.handle(
        &Action::Result {
            id: BuildStepId(1),
            fields: ResultFields::Progress { done: 0, expected: 1, running: 1, failed: 0 },
        },
        90,
    );
    state.handle(
        &start(
            StartFields::Build {
                target: "/nix/store/gggg-pkg-1.0".into(),
                source: "s".into(),
                val1: 0,
                val2: 0,
            },
            2,
            1,
            "building",
        ),
        90,
    );
    let mut all: Vec<Effect> = Vec::new();
    all.extend(state.handle(&Action::Stop { id: BuildStepId(2) }, 90));
    all.extend(state.handle(&Action::Stop { id: BuildStepId(1) }, 90));
    let lines = printlns(&all);
    assert_eq!(lines.len(), 2);
    assert!(matches!(lines[0], SummaryLine::Built { .. }));
    assert_eq!(lines[1], &SummaryLine::BuiltGroup { count: 1 });
    assert!(state.handlers.iter().all(|h| !matches!(
        h,
        Handler::BuildGroup(_) | Handler::Build(_) | Handler::Log(_)
    )));
}

#[test]
fn downloads_group_message_counts_and_labels() {
    let (mut state, _) = State::new(config(), 90);
    state.handle(&start(StartFields::CopyPaths, 1, 0, "copying"), 90);
    state.handle(
        &start(
            StartFields::CopyPath {
                path: "/nix/store/hhhh-tool-0.4".into(),
                origin: "o".into(),
                destination: "d".into(),
            },
            2,
            1,
            "copying",
        ),
        90,
    );
    let fx = state.handle(
        &Action::Result {
            id: BuildStepId(1),
            fields: ResultFields::Progress { done: 1, expected: 4, running: 0, failed: 0 },
        },
        90,
    );
    assert!(fx.iter().any(|e| matches!(
        e,
        Effect::SetMessage { text, .. } if text == "Downloaded 1/4: tool-0.4"
    )));
}

#[test]
fn resize_restyles_unknown_spinners_and_ticks_windows() {
    let (mut state, _) = State::new(config(), 90);
    state.handle(&start(StartFields::Unknown, 5, 0, "odd work"), 90);
    state.handle(&start(StartFields::Builds, 1, 0, "builds"), 90);
    let fx = state.handle(&Action::Msg { level: 0, msg: "x".into() }, 70);
    // The spinner is restyled for the new width...
    assert!(fx.iter().any(|e| matches!(
        e,
        Effect::SetStyle { style, .. } if style.template == StyleTemplate::UnknownSpinner
            && style.width == 70
    )));
    // ...the group bar too, and its log window is redrawn.
    assert!(fx.iter().any(|e| matches!(
        e,
        Effect::SetStyle { style, .. } if style.template == StyleTemplate::BuildsGroup
    )));
    assert!(fx.iter().any(|e| matches!(e, Effect::Tick { .. })));
}

#[test]
fn group_stop_clears_its_slot_and_the_separator() {
    let (mut state, _) = State::new(config(), 90);
    state.handle(&start(StartFields::Builds, 1, 0, "builds"), 90);
    let fx = state.handle(&Action::Stop { id: BuildStepId(1) }, 90);
    let i_remove = fx
        .iter()
        .position(|e| matches!(e, Effect::RemoveSeparator))
        .unwrap();
    let i_clear = fx
        .iter()
        .position(|e| matches!(e, Effect::FinishAndClear { .. }))
        .unwrap();
    assert!(i_remove < i_clear);
}

#[test]
fn group_message_follows_the_tracked_labels() {
    let (mut state, _) = State::new(config(), 90);
    state.handle(&start(StartFields::Builds, 1, 0, "builds"), 90);
    let fx = state.handle(
        &start(
            StartFields::Build {
                target: "/nix/store/iiii-alpha-1.0".into(),
                source: "s".into(),
                val1: 0,
                val2: 0,
            },
            2,
            1,
            "building",
        ),
        90,
    );
    assert!(fx.iter().any(|e| matches!(
        e,
        Effect::SetMessage { text, .. } if text == "alpha-1.0"
    )));
    let fx2 = state.handle(&Action::Stop { id: BuildStepId(2) }, 90);
    // The removed child leaves an empty label list behind.
    assert!(fx2.iter().any(|e| matches!(
        e,
        Effect::SetMessage { text, .. } if text.is_empty()
    )));
}
