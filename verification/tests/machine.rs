use sad::displace::{start, step, Action, Failure, FsAction, FsEvent, FsOp, Options, State, Step};
use sad::engine::Engine;

fn opts(pattern: &str, replace: &str, action: Action) -> Options {
    Options {
        engine: Engine::Literal {
            pattern: String::from(pattern),
            replace: String::from(replace),
        },
        action,
        unified: 3,
    }
}

fn advance(r: Step) -> (FsAction, State) {
    match r {
        Step::Next { action, state } => (action, state),
        Step::Done { output } => panic!("run finished early with {:?}", output),
        Step::Fail { failure } => panic!("run failed early with {:?}", failure),
    }
}

fn read_state(display: &str, canonical: &str, mode: u32, o: &Options) -> State {
    let (action, state) = start(String::from(display));
    assert!(matches!(action, FsAction::Canonicalize { ref path } if path == display));
    let (action, state) = advance(step(
        state,
        FsEvent::Canonicalized { canonical: String::from(canonical) },
        o,
    ));
    assert!(matches!(action, FsAction::Stat { ref path } if path == canonical));
    let (action, state) = advance(step(state, FsEvent::Statted { is_regular: true, mode }, o));
    assert!(matches!(action, FsAction::Read { ref path } if path == canonical));
    state
}

#[test]
fn scenario_diff_renders_unified_diff() {
    let o = opts("foo", "baz", Action::Diff);
    let state = read_state("a.txt", "/dir/a.txt", 0o644, &o);
    let r = step(state, FsEvent::ReadDone { text: String::from("foo bar foo") }, &o);
    match r {
        Step::Done { output } => assert_eq!(
            output,
            "--- a.txt\n+++ a.txt\n@@ -1,1 +1,1 @@\n-foo bar foo\n+baz bar baz\n"
        ),
        _ => panic!("expected a finished run with diff output"),
    }
}

#[test]
fn scenario_write_commits_in_four_steps() {
    let o = opts("foo", "baz", Action::Write);
    let state = read_state("a.txt", "/dir/a.txt", 0o600, &o);
    let r = step(state, FsEvent::ReadDone { text: String::from("foo bar foo") }, &o);
    let (action, state) = advance(r);
    let backup = match action {
        FsAction::Rename { from, to } => {
            assert_eq!(from, "/dir/a.txt");
            assert!(to.starts_with("/dir/a.txt___"));
            assert_eq!(to.len(), "/dir/a.txt".len() + 35);
            let suffix = &to["/dir/a.txt___".len()..];
            assert!(suffix.chars().all(|c| c.is_ascii_hexdigit()));
            to
        }
        other => panic!("expected the rename-aside step, got {:?}", other),
    };
    let (action, state) = advance(step(state, FsEvent::Succeeded, &o));
    match &action {
        FsAction::WriteFile { path, text } => {
            assert_eq!(path, "/dir/a.txt");
            assert_eq!(text, "baz bar baz");
        }
        other => panic!("expected the write step, got {:?}", other),
    }
    let (action, state) = advance(step(state, FsEvent::Succeeded, &o));
    assert!(matches!(
        action,
        FsAction::SetPermissions { ref path, mode } if path == "/dir/a.txt" && mode == 0o600
    ));
    let (action, state) = advance(step(state, FsEvent::Succeeded, &o));
    assert!(matches!(action, FsAction::Remove { ref path } if *path == backup));
    match step(state, FsEvent::Succeeded, &o) {
        Step::Done { output } => assert_eq!(output, "a.txt\n"),
        other => panic!("expected the finished run, got {:?}", other),
    }
}

#[test]
fn scenario_no_change_returns_empty_output() {
    for action in [Action::Diff, Action::Write] {
        let o = opts("xyz", "abc", action);
        let state = read_state("a.txt", "/dir/a.txt", 0o644, &o);
        let r = step(state, FsEvent::ReadDone { text: String::from("nothing to match") }, &o);
        match r {
            Step::Done { output } => assert_eq!(output, ""),
            _ => panic!("expected a finished run with empty output"),
        }
    }
}

#[test]
fn directory_is_rejected_before_read() {
    let o = opts("foo", "baz", Action::Write);
    let (_, state) = start(String::from("some/dir"));
    let r = step(
        state,
        FsEvent::Canonicalized { canonical: String::from("/abs/dir") },
        &o,
    );
    let (_, state) = advance(r);
    let r = step(state, FsEvent::Statted { is_regular: false, mode: 0o755 }, &o);
    match r {
        Step::Fail { failure } => {
            assert_eq!(failure, Failure::NotAFile { path: String::from("/abs/dir") })
        }
        _ => panic!("expected NotAFile"),
    }
}

#[test]
fn unresolvable_path_fails_with_path_resolution() {
    let o = opts("foo", "baz", Action::Diff);
    let (_, state) = start(String::from("missing.txt"));
    match step(state, FsEvent::FailedOp, &o) {
        Step::Fail { failure } => {
            assert_eq!(failure, Failure::PathResolution { path: String::from("missing.txt") })
        }
        _ => panic!("expected PathResolution"),
    }
}

#[test]
fn undecodable_bytes_fail_with_decode() {
    let o = opts("foo", "baz", Action::Diff);
    let state = read_state("bin", "/abs/bin", 0o644, &o);
    match step(state, FsEvent::NotText, &o) {
        Step::Fail { failure } => {
            assert_eq!(failure, Failure::Decode { path: String::from("/abs/bin") })
        }
        _ => panic!("expected Decode"),
    }
}

#[test]
fn nameless_path_fails_with_bad_file_name() {
    let o = opts("foo", "baz", Action::Write);
    let state = read_state("/", "/", 0o644, &o);
    match step(state, FsEvent::ReadDone { text: String::from("foo") }, &o) {
        Step::Fail { failure } => {
            assert_eq!(failure, Failure::BadFileName { path: String::from("/") })
        }
        _ => panic!("expected BadFileName"),
    }
}

#[test]
fn failed_rename_reports_io_and_stops() {
    let o = opts("foo", "baz", Action::Write);
    let state = read_state("a.txt", "/dir/a.txt", 0o644, &o);
    let r = step(state, FsEvent::ReadDone { text: String::from("foo") }, &o);
    let (_, state) = advance(r);
    match step(state, FsEvent::FailedOp, &o) {
        Step::Fail { failure } => assert_eq!(
            failure,
            Failure::Io { op: FsOp::Rename, path: String::from("/dir/a.txt") }
        ),
        _ => panic!("expected an Io failure for the rename"),
    }
}

#[test]
fn failed_remove_names_the_backup() {
    let o = opts("foo", "baz", Action::Write);
    let state = read_state("a.txt", "/dir/a.txt", 0o644, &o);
    let r = step(state, FsEvent::ReadDone { text: String::from("foo") }, &o);
    let (action, state) = advance(r);
    let backup = match action {
        FsAction::Rename { to, .. } => to,
        other => panic!("expected the rename-aside step, got {:?}", other),
    };
    let (_, state) = advance(step(state, FsEvent::Succeeded, &o));
    let (_, state) = advance(step(state, FsEvent::Succeeded, &o));
    let (_, state) = advance(step(state, FsEvent::Succeeded, &o));
    match step(state, FsEvent::FailedOp, &o) {
        Step::Fail { failure } => {
            assert_eq!(failure, Failure::Io { op: FsOp::Remove, path: backup })
        }
        _ => panic!("expected an Io failure for the remove"),
    }
}

#[test]
fn two_writes_use_distinct_backup_names() {
    let o = opts("foo", "baz", Action::Write);
    let mut backups = Vec::new();
    for _ in 0..2 {
        let state = read_state("a.txt", "/dir/a.txt", 0o644, &o);
        let r = step(state, FsEvent::ReadDone { text: String::from("foo") }, &o);
        let (action, _) = advance(r);
        match action {
            FsAction::Rename { to, .. } => backups.push(to),
            other => panic!("expected the rename-aside step, got {:?}", other),
        }
    }
    assert_ne!(backups[0], backups[1]);
}
