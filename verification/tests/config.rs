use zigzag::config::{config, server_config, Argument, FileSource};
use zigzag::jules::DEFAULT_JULES_BIN;
use zigzag::tailnet::Address;

const TAILNET: Address = Address::V4([100, 101, 237, 83]);

fn argument(text: &str) -> Argument {
    Argument {
        text: text.to_owned(),
        address: match text {
            "100.101.237.83" => Some(TAILNET),
            "0.0.0.0" => Some(Address::V4([0, 0, 0, 0])),
            "::1" => Some(Address::V6([0, 0, 0, 0, 0, 0, 0, 1])),
            _ => None,
        },
    }
}

fn server(values: &[&str]) -> Vec<Argument> {
    values.iter().map(|value| argument(value)).collect()
}

fn strings(values: &[&str]) -> Vec<String> {
    values.iter().map(|value| value.to_string()).collect()
}

fn from_argument(path: &str) -> FileSource {
    FileSource::Argument(path.to_owned())
}

#[test]
fn the_relay_has_defaults() {
    let made = server_config(&[], true, true, None).unwrap();
    assert_eq!(made.secret_file, FileSource::Environment);
    assert_eq!(made.state_file, FileSource::Environment);
    assert_eq!(made.port, 8765);
    assert_eq!(made.tailscale_ip, None);
    assert_eq!(made.max_events, 1000);
    assert_eq!(made.jules_bin, DEFAULT_JULES_BIN);
    let made = server_config(&[], true, true, Some("/opt/jules".to_owned())).unwrap();
    assert_eq!(made.jules_bin, "/opt/jules");
}

#[test]
fn the_relay_takes_its_options_from_the_command_line() {
    let made = server_config(
        &server(&[
            "--secret-file",
            "s1",
            "--state-file",
            "e",
            "--port",
            "65535",
            "--tailscale-ip",
            "100.101.237.83",
            "--max-events",
            "7",
            "--jules-bin",
            "/bin/j",
            "--secret-file",
            "s2",
        ]),
        true,
        false,
        Some("/opt/jules".to_owned()),
    )
    .unwrap();
    assert_eq!(made.secret_file, from_argument("s2"));
    assert_eq!(made.state_file, from_argument("e"));
    assert_eq!(made.port, 65535);
    assert_eq!(made.tailscale_ip, Some(TAILNET));
    assert_eq!(made.max_events, 7);
    assert_eq!(made.jules_bin, "/bin/j");
}

#[test]
fn bad_relay_options_are_told_why() {
    for (values, message) in [
        (&["--port"][..], "--port requires a value"),
        (&["--secret-file"], "--secret-file requires a value"),
        (&["--state-file"], "--state-file requires a value"),
        (&["--tailscale-ip"], "--tailscale-ip requires a value"),
        (&["--max-events"], "--max-events requires a value"),
        (&["--jules-bin"], "--jules-bin requires a value"),
        (&["--port", "65536"], "--port must be a valid u16"),
        (&["--port", "http"], "--port must be a valid u16"),
        (
            &["--tailscale-ip", "host"],
            "--tailscale-ip must be an IP address",
        ),
        (
            &["--tailscale-ip", "0.0.0.0"],
            "--tailscale-ip must be a Tailscale IPv4 address",
        ),
        (
            &["--tailscale-ip", "::1"],
            "--tailscale-ip must be a Tailscale IPv4 address",
        ),
        (
            &["--max-events", "-1"],
            "--max-events must be a positive integer",
        ),
        (
            &["--max-events", "0"],
            "--max-events must be greater than zero",
        ),
        (
            &["--help", "--port"],
            "usage: relay --secret-file PATH --state-file PATH [--port 8765] [--max-events 1000]",
        ),
        (
            &["-h"],
            "usage: relay --secret-file PATH --state-file PATH [--port 8765] [--max-events 1000]",
        ),
        (&["--bind", "0.0.0.0"], "unknown argument: --bind"),
    ] {
        assert_eq!(
            server_config(&server(values), true, true, None).err(),
            Some(message.to_owned())
        );
    }
    assert_eq!(
        server_config(&server(&["--max-events", "0"]), false, false, None).err(),
        Some("--secret-file or RELAY_SECRET_FILE is required".to_owned())
    );
    assert_eq!(
        server_config(&[], true, false, None).err(),
        Some("--state-file or RELAY_STATE_FILE is required".to_owned())
    );
}

const REQUIRED: [&str; 4] = ["--relay-url", "http://h", "--state-file", "c"];

fn poller(more: &[&str]) -> Vec<String> {
    let mut all = strings(&REQUIRED);
    all.extend(strings(more));
    all
}

#[test]
fn the_poller_has_defaults() {
    let made = config(&poller(&[]), true, None).unwrap();
    assert_eq!(made.relay_url, "http://h");
    assert_eq!(made.secret_file, FileSource::Environment);
    assert_eq!(made.state_file, "c");
    assert_eq!(made.proxy, None);
    assert_eq!(made.timeout, 50);
    assert!(!made.once);
    let made = config(&poller(&[]), true, Some("http://p:3130".to_owned())).unwrap();
    assert_eq!(made.proxy, Some("http://p:3130".to_owned()));
    let made = config(&poller(&[]), true, Some(String::new())).unwrap();
    assert_eq!(made.proxy, None);
}

#[test]
fn the_poller_takes_its_options_from_the_command_line() {
    let made = config(
        &poller(&[
            "--secret-file",
            "s",
            "--once",
            "--proxy",
            "",
            "--timeout",
            "54",
            "--timeout",
            "55",
        ]),
        true,
        Some("http://p:3130".to_owned()),
    )
    .unwrap();
    assert_eq!(made.secret_file, from_argument("s"));
    assert_eq!(made.proxy, Some(String::new()));
    assert_eq!(made.timeout, 55);
    assert!(made.once);
    assert_eq!(
        config(&poller(&["--timeout", "1"]), true, None)
            .map(|made| made.timeout)
            .unwrap(),
        1
    );
}

#[test]
fn bad_poller_options_are_told_why() {
    let usage = "usage: poller --relay-url http://HOST:PORT --secret-file PATH --state-file PATH [--proxy URL] [--timeout 50] [--once]";
    for (values, message) in [
        (&["--relay-url"][..], "--relay-url requires a value"),
        (&["--secret-file"], "--secret-file requires a value"),
        (&["--state-file"], "--state-file requires a value"),
        (&["--proxy"], "--proxy requires a value"),
        (&["--timeout"], "--timeout requires a value"),
        (&["--timeout", "soon"], "--timeout must be an integer"),
        (&["--timeout", "0"], "--timeout must be between 1 and 55"),
        (&["--timeout", "56"], "--timeout must be between 1 and 55"),
        (&["--help"], usage),
        (&["--once", "-h"], usage),
        (&["--twice"], "unknown argument: --twice"),
    ] {
        assert_eq!(
            config(&poller(values), true, None).err(),
            Some(message.to_owned())
        );
    }
    assert_eq!(
        config(&[], false, None).err(),
        Some("--relay-url is required".to_owned())
    );
    assert_eq!(
        config(&poller(&[]), false, None).err(),
        Some("--secret-file or RELAY_SECRET_FILE is required".to_owned())
    );
    assert_eq!(
        config(&strings(&REQUIRED[..2]), true, None).err(),
        Some("--state-file is required".to_owned())
    );
}
