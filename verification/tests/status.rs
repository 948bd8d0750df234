use ssh_tunnel::status::{exit_status_from_stderr, filter_diagnostics, ExitCondition, SshStatus};
use ssh_tunnel::text::{contains_str, parse_u32, u32_to_string};

#[test]
fn classify_empty_is_ready() {
    let status = SshStatus::from_stderr("");
    assert!(matches!(status, SshStatus::Ready));
    assert_eq!(status.to_signal(), "READY");
}

#[test]
fn classify_timeout_pattern_is_dropped() {
    let status = SshStatus::from_stderr("Timeout, server foo.bar not responding");
    assert!(matches!(status, SshStatus::Dropped));
    assert_eq!(status.to_signal(), "DROPPED");
}

#[test]
fn classify_timeout_pattern_needs_one_line() {
    // The two pieces of the timeout pattern on different lines do not match
    // it, and no other rule applies, so the text is preserved as unknown.
    let text = "Timeout, server foo\nbar not responding";
    let status = SshStatus::from_stderr(text);
    assert!(matches!(status, SshStatus::Unknown(ref m) if m == text));
}

#[test]
fn classify_connection_reset_is_dropped() {
    let status = SshStatus::from_stderr("Connection reset by peer");
    assert!(matches!(status, SshStatus::Dropped));
}

#[test]
fn classify_unreachable_phrases() {
    assert!(matches!(
        SshStatus::from_stderr("Network is unreachable"),
        SshStatus::Unreachable
    ));
    assert!(matches!(
        SshStatus::from_stderr("connect to host example port 22: Connection timed out"),
        SshStatus::Unreachable
    ));
    assert!(matches!(
        SshStatus::from_stderr("Unknown error"),
        SshStatus::Unreachable
    ));
    assert!(matches!(
        SshStatus::from_stderr("Could not resolve hostname example"),
        SshStatus::Unreachable
    ));
}

#[test]
fn classify_denied_phrases() {
    let status = SshStatus::from_stderr("Permission denied (publickey)");
    assert!(matches!(status, SshStatus::Denied));
    assert_eq!(status.to_signal(), "DENIED");
    assert!(matches!(
        SshStatus::from_stderr("Connection refused"),
        SshStatus::Denied
    ));
}

#[test]
fn classify_bad_forwarding_is_config_error() {
    let text = "Bad local forwarding specification";
    let status = SshStatus::from_stderr(text);
    assert!(matches!(status, SshStatus::ConfigError(ref m) if m == text));
    assert_eq!(
        status.to_signal(),
        "BAD_CONFIG: Bad local forwarding specification"
    );
}

#[test]
fn classify_unknown_preserves_text() {
    let text = "some novel diagnostic this library has never seen";
    let status = SshStatus::from_stderr(text);
    assert!(matches!(status, SshStatus::Unknown(ref m) if m == text));
    assert_eq!(
        status.to_signal(),
        format!("UNKNOWN: {}", text)
    );
}

#[test]
fn classify_dropped_wins_over_denied() {
    let text = "Timeout, server db not responding\nPermission denied";
    assert!(matches!(SshStatus::from_stderr(text), SshStatus::Dropped));
}

#[test]
fn signals_of_plain_statuses() {
    assert_eq!(SshStatus::Connecting.to_signal(), "CONNECTING");
    assert_eq!(SshStatus::Connected.to_signal(), "CONNECTED");
    assert_eq!(SshStatus::Unreachable.to_signal(), "UNREACHABLE");
    assert_eq!(SshStatus::Reconnecting.to_signal(), "RETRYING");
    assert_eq!(
        SshStatus::AppError(String::from("spawn failed")).to_signal(),
        "ERROR: spawn failed"
    );
}

#[test]
fn same_compares_by_variant_and_payload() {
    assert!(SshStatus::Ready.same(&SshStatus::Ready));
    assert!(!SshStatus::Ready.same(&SshStatus::Connected));
    let a = SshStatus::Unknown(String::from("x"));
    let b = SshStatus::Unknown(String::from("x"));
    let c = SshStatus::Unknown(String::from("y"));
    assert!(a.same(&b));
    assert!(!a.same(&c));
    assert!(!a.same(&SshStatus::AppError(String::from("x"))));
}

#[test]
fn filter_removes_warning_and_empty_lines() {
    let text = "first\n\nWarning: Permanently added 'host' (ED25519) to the list of known hosts.\nsecond";
    assert_eq!(filter_diagnostics(text), "firstsecond");
    assert_eq!(filter_diagnostics(""), "");
    assert_eq!(
        filter_diagnostics("Warning: Permanently added 'h'.\n"),
        ""
    );
}

#[test]
fn exit_status_ignores_warnings() {
    let text = "Warning: Permanently added 'db' (ED25519) to the list of known hosts.\nPermission denied (publickey)\n";
    assert!(matches!(exit_status_from_stderr(text), SshStatus::Denied));
    let clean = "Warning: Permanently added 'db' (ED25519) to the list of known hosts.\n";
    assert!(matches!(exit_status_from_stderr(clean), SshStatus::Ready));
}

#[test]
fn exit_condition_from_codes() {
    assert_eq!(ExitCondition::from_exit_code(Some(0)), ExitCondition::Clean);
    assert_eq!(
        ExitCondition::from_exit_code(Some(1)),
        ExitCondition::ProcError
    );
    assert_eq!(
        ExitCondition::from_exit_code(Some(255)),
        ExitCondition::SshError
    );
    assert_eq!(
        ExitCondition::from_exit_code(Some(-1)),
        ExitCondition::ProcError
    );
    assert_eq!(
        ExitCondition::from_exit_code(Some(42)),
        ExitCondition::ProcError
    );
    assert_eq!(ExitCondition::from_exit_code(None), ExitCondition::Canceled);
}

#[test]
fn exit_condition_codes() {
    assert_eq!(ExitCondition::Clean.code(), 0);
    assert_eq!(ExitCondition::ProcError.code(), 1);
    assert_eq!(ExitCondition::SshError.code(), 255);
    assert_eq!(ExitCondition::Canceled.code(), -1);
}

#[test]
fn decimal_formatting() {
    assert_eq!(u32_to_string(0), "0");
    assert_eq!(u32_to_string(7), "7");
    assert_eq!(u32_to_string(5432), "5432");
    assert_eq!(u32_to_string(u32::MAX), "4294967295");
}

#[test]
fn parsing_ports() {
    assert_eq!(parse_u32("123"), Some(123));
    assert_eq!(parse_u32("+123"), Some(123));
    assert_eq!(parse_u32("0123"), Some(123));
    assert_eq!(parse_u32("4294967295"), Some(u32::MAX));
    assert_eq!(parse_u32("4294967296"), None);
    assert_eq!(parse_u32(""), None);
    assert_eq!(parse_u32("+"), None);
    assert_eq!(parse_u32("12a"), None);
    assert_eq!(parse_u32("-1"), None);
    assert_eq!(parse_u32(" 1"), None);
}

#[test]
fn substring_search() {
    assert!(contains_str("Permission denied (publickey)", "Permission denied"));
    assert!(!contains_str("Permission denie", "Permission denied"));
    assert!(contains_str("abc", ""));
    assert!(!contains_str("", "a"));
}
