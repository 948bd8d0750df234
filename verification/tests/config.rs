use ssh_tunnel::config::{SshConfig, UserSettings};
use ssh_tunnel::status::SshStatus;

#[test]
fn test_config() {
    let config = SshConfig::new(
        "endhost",
        "username",
        "keypath",
        "tohost",
        1,
        2,
        10,
        &["-T"],
    );
    let args = config.to_args();
    let expected: Vec<String> = vec![
        "-T",
        "-o",
        "StrictHostKeyChecking=accept-new",
        "-o",
        "ServerAliveCountMax=1",
        "-o",
        "ServerAliveInterval=10",
        "-L",
        "1:tohost:2",
        "-i",
        "keypath",
        "username@endhost",
    ]
    .iter()
    .map(|s| String::from(*s))
    .collect();
    println!("{:?}", args);
    assert!(args == expected);
}

#[test]
fn key_path_normalized() {
    let config = SshConfig::new(
        "host",
        "user",
        "C:\\foo\\bar",
        "localhost",
        5432,
        5432,
        10,
        &[],
    );
    let args = config.to_args();
    assert_eq!(args[args.len() - 2], "/foo/bar");
}

#[test]
fn args_deterministic() {
    let make = || {
        SshConfig::new(
            "db.example.com",
            "operator",
            "/home/op/.ssh/id_ed25519",
            "localhost",
            15432,
            5432,
            10,
            &["-T", "-q"],
        )
    };
    assert_eq!(make().to_args(), make().to_args());
}

#[test]
fn clone_keeps_parameters() {
    let config = SshConfig::new("h", "u", "k", "localhost", 1, 2, 3, &["-T"]);
    let copy = config.clone();
    assert_eq!(config.to_args(), copy.to_args());
}

#[test]
fn settings_good_port() {
    let settings = UserSettings {
        host: String::from("db.example.com"),
        user: String::from("operator"),
        port: String::from("15432"),
        key_path: String::from("C:\\keys\\id_rsa"),
    };
    let config = settings.to_config().expect("port should parse");
    let args = config.to_args();
    let expected: Vec<String> = vec![
        "-t",
        "-t",
        "-o",
        "StrictHostKeyChecking=accept-new",
        "-o",
        "ServerAliveCountMax=1",
        "-o",
        "ServerAliveInterval=10",
        "-L",
        "15432:localhost:5432",
        "-i",
        "/keys/id_rsa",
        "operator@db.example.com",
    ]
    .iter()
    .map(|s| String::from(*s))
    .collect();
    assert_eq!(args, expected);
}

#[test]
fn settings_plus_sign_port() {
    let settings = UserSettings {
        host: String::from("h"),
        user: String::from("u"),
        port: String::from("+80"),
        key_path: String::from("k"),
    };
    assert!(settings.to_config().is_ok());
}

#[test]
fn settings_bad_port() {
    let settings = UserSettings {
        host: String::from("h"),
        user: String::from("u"),
        port: String::from("54x2"),
        key_path: String::from("k"),
    };
    let err = settings.to_config().err().expect("port must be rejected");
    assert_eq!(err.to_signal(), "BAD_CONFIG: Illegal port value");
    assert!(matches!(err, SshStatus::ConfigError(ref m) if m == "Illegal port value"));
}

#[test]
fn settings_empty_port() {
    let settings = UserSettings {
        host: String::from("h"),
        user: String::from("u"),
        port: String::from(""),
        key_path: String::from("k"),
    };
    assert!(settings.to_config().is_err());
}

#[test]
fn settings_overflowing_port() {
    let settings = UserSettings {
        host: String::from("h"),
        user: String::from("u"),
        port: String::from("99999999999"),
        key_path: String::from("k"),
    };
    assert!(settings.to_config().is_err());
}
