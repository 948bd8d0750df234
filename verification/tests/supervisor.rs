use ssh_tunnel::config::SshConfig;
use ssh_tunnel::status::{exit_status_from_stderr, SshStatus};
use ssh_tunnel::supervisor::{handshake_status, start_report, SupervisorState, MAX_RETRIES};

/// Feeds one exit report through the supervisor and returns the
/// notification that went out, if one did, together with whether a
/// reconnect attempt was scheduled.
fn step(state: &mut SupervisorState, report: SshStatus) -> (Option<String>, bool) {
    let (resolved, reconnect) = state.resolve_exit(report);
    let signal = resolved.to_signal();
    let emitted = state.note_status(resolved);
    (if emitted { Some(signal) } else { None }, reconnect)
}

#[test]
fn retry_budget_bounds_reconnecting() {
    let mut state = SupervisorState::new();
    let mut notifications: Vec<String> = Vec::new();

    let (signal, reconnect) = step(&mut state, SshStatus::Dropped);
    assert!(reconnect);
    if let Some(s) = signal {
        notifications.push(s);
    }
    assert_eq!(state.get_retries(), MAX_RETRIES);
    assert!(state.reconnecting());

    for _ in 0..10 {
        let (signal, _reconnect) = step(&mut state, SshStatus::Unreachable);
        if let Some(s) = signal {
            notifications.push(s);
        }
    }

    let retrying = notifications.iter().filter(|s| *s == "RETRYING").count();
    assert!(retrying <= MAX_RETRIES as usize);
    assert!(notifications.iter().any(|s| s == "DROPPED"));
    assert!(!state.reconnecting());
    assert_eq!(state.get_retries(), 0);
}

#[test]
fn retry_budget_counts_down() {
    let mut state = SupervisorState::new();
    let (_signal, reconnect) = step(&mut state, SshStatus::Dropped);
    assert!(reconnect);
    // Four unreachable reports keep the cycle going, the fifth ends it.
    for expected in [4u32, 3, 2, 1] {
        let (signal, reconnect) = step(&mut state, SshStatus::Unreachable);
        assert!(reconnect);
        assert_eq!(state.get_retries(), expected);
        // RETRYING was already the last notification, so repeats are silent.
        assert_eq!(signal, None);
    }
    let (signal, reconnect) = step(&mut state, SshStatus::Unreachable);
    assert!(!reconnect);
    assert_eq!(signal, Some(String::from("DROPPED")));
    // A later unreachable report without a running cycle is terminal.
    let (signal, reconnect) = step(&mut state, SshStatus::Unreachable);
    assert!(!reconnect);
    assert_eq!(signal, Some(String::from("UNREACHABLE")));
}

#[test]
fn deduplication_suppresses_repeats() {
    let mut state = SupervisorState::new();
    assert!(state.note_status(SshStatus::Connected));
    assert!(!state.note_status(SshStatus::Connected));
    assert!(state.note_status(SshStatus::Unreachable));
    assert!(!state.note_status(SshStatus::Unreachable));
    assert!(state.note_status(SshStatus::Unknown(String::from("a"))));
    assert!(!state.note_status(SshStatus::Unknown(String::from("a"))));
    assert!(state.note_status(SshStatus::Unknown(String::from("b"))));
}

#[test]
fn stop_is_idempotent() {
    let mut state = SupervisorState::new();
    // No process: stopping is a no-op, twice as well.
    assert!(!state.stop());
    assert!(!state.stop());
    state.set_tunnel();
    assert!(state.note_status(SshStatus::Connected));
    // A process is held: both stops ask for a kill, which is itself benign
    // on a dead process; neither emits a notification.
    assert!(state.stop());
    assert!(state.stop());
    assert!(state.running());
    // The terminal notification is the watch loop's, exactly one.
    assert!(state.note_status(SshStatus::Ready));
    assert!(!state.note_status(SshStatus::Ready));
}

#[test]
fn bad_config_scenario() {
    // The client fails right away: a short handshake read, then stderr
    // holds the bad-forwarding message.
    let mut state = SupervisorState::new();
    let wait_status = handshake_status(3);
    assert!(matches!(wait_status, SshStatus::Ready));
    // The start path emits nothing for a short read; the watch loop will.
    assert!(start_report(wait_status).is_none());
    let classified = exit_status_from_stderr("Bad local forwarding specification\n");
    let (resolved, reconnect) = state.resolve_exit(classified);
    assert!(!reconnect);
    assert_eq!(
        resolved.to_signal(),
        "BAD_CONFIG: Bad local forwarding specification"
    );
    let emitted = state.note_status(resolved);
    assert!(emitted);
}

#[test]
fn connect_then_drop_scenario() {
    let config = SshConfig::new(
        "db.example.com",
        "operator",
        "/home/op/.ssh/id_ed25519",
        "localhost",
        15432,
        5432,
        10,
        &["-T"],
    );
    let mut state = SupervisorState::new();

    // The spawn succeeded and the supervisor records the process.
    let (status, emitted) = state.manage_spawn(true, SshStatus::Ready);
    assert!(emitted);
    assert_eq!(status.to_signal(), "CONNECTING");

    // The handshake produced enough bytes: Connected is notified.
    let wait_status = handshake_status(15);
    let report = start_report(wait_status).expect("a successful handshake is reported");
    assert!(state.note_status(report));

    // The client later dies with a dropped-pattern message: the watch loop
    // classifies it and the supervisor starts a reconnect cycle.
    let classified = exit_status_from_stderr("Timeout, server db.example.com not responding\n");
    assert!(matches!(classified, SshStatus::Dropped));
    let (resolved, reconnect) = state.resolve_exit(classified);
    assert!(reconnect);
    let signal = resolved.to_signal();
    assert!(state.note_status(resolved));
    assert_eq!(signal, "RETRYING");

    // The respawn uses the identical configuration.
    let retry_config = config.clone();
    assert_eq!(retry_config.to_args(), config.to_args());

    // The new spawn succeeds while reconnecting: the status stays RETRYING
    // and deduplication keeps it silent.
    let (status, emitted) = state.manage_spawn(true, SshStatus::Ready);
    assert_eq!(status.to_signal(), "RETRYING");
    assert!(!emitted);
}

#[test]
fn spawn_failure_reports_error() {
    let mut state = SupervisorState::new();
    let err = SshStatus::AppError(String::from("No such file or directory"));
    let (status, emitted) = state.manage_spawn(false, err);
    assert!(emitted);
    assert_eq!(status.to_signal(), "ERROR: No such file or directory");
    assert!(!state.running());
}
