use zigzag::json::Json;
use zigzag::jules::{
    drain_limited, parse_request, run, run_with_timeout, validate, Drain, Ending, ExecRequest,
    ExecResult, WaitAction, WaitEvent, CHUNK_LEN, MAX_ARG_LEN, OUTPUT_CAP,
};

fn args(values: &[&str]) -> Vec<String> {
    values.iter().map(|value| value.to_string()).collect()
}

#[test]
fn allowlist_accepts_the_workflow_subcommands() {
    assert!(validate(&args(&["remote", "list", "--repo"])).is_ok());
    assert!(validate(&args(&["remote", "list", "--session"])).is_ok());
    assert!(validate(&args(&["remote", "pull", "--session", "123"])).is_ok());
    assert!(validate(&args(&["remote", "new", "--repo", "a/b"])).is_ok());
    assert!(validate(&args(&["new", "--repo", "a/b", "do the thing"])).is_ok());
}

#[test]
fn allowlist_rejects_everything_else() {
    assert!(validate(&[]).is_err());
    assert!(validate(&args(&["login"])).is_err());
    assert!(validate(&args(&["logout"])).is_err());
    assert!(validate(&args(&["remote"])).is_err());
    assert!(validate(&args(&["remote", "delete"])).is_err());
    assert!(validate(&args(&["version"])).is_err());
    assert!(validate(&args(&["--help"])).is_err());
    assert!(validate(&args(&[""])).is_err());
    assert!(validate(&args(&["new", &"x".repeat(MAX_ARG_LEN + 1)])).is_err());
}

#[test]
fn request_parsing_requires_an_id_and_string_args() {
    let body = Json::Object(vec![
        ("id".to_owned(), Json::String("req-1".to_owned())),
        (
            "args".to_owned(),
            Json::Array(vec![
                Json::String("remote".to_owned()),
                Json::String("list".to_owned()),
                Json::String("--repo".to_owned()),
            ]),
        ),
    ]);
    let request = parse_request(&body).unwrap();
    assert_eq!(request.id, "req-1");
    assert_eq!(request.args.len(), 3);
    assert!(parse_request(&Json::Object(vec![])).is_err());
    let no_id = Json::Object(vec![(
        "args".to_owned(),
        Json::Array(vec![Json::String("new".to_owned())]),
    )]);
    assert!(parse_request(&no_id).is_err());
    let bad_args = Json::Object(vec![
        ("id".to_owned(), Json::String("req-1".to_owned())),
        (
            "args".to_owned(),
            Json::Array(vec![Json::Number("7".to_owned())]),
        ),
    ]);
    assert!(parse_request(&bad_args).is_err());
    let disallowed = Json::Object(vec![
        ("id".to_owned(), Json::String("req-1".to_owned())),
        (
            "args".to_owned(),
            Json::Array(vec![Json::String("login".to_owned())]),
        ),
    ]);
    assert!(parse_request(&disallowed).is_err());
}

#[test]
fn drain_limited_caps_output_but_keeps_draining() {
    let big: Vec<u8> = (0..OUTPUT_CAP + 100).map(|i| (i % 251) as u8).collect();
    let (kept, truncated) = drain_limited(&big[..]);
    assert_eq!(kept.len(), OUTPUT_CAP);
    assert!(truncated);
    let (kept, truncated) = drain_limited(&b"hello"[..]);
    assert_eq!(kept, b"hello");
    assert!(!truncated);
}

fn request(id: &str, values: &[&str]) -> ExecRequest {
    ExecRequest {
        id: id.to_owned(),
        args: args(values),
    }
}

const SECOND: u128 = 1_000_000_000;

#[test]
fn execution_captures_output_and_exit_code() {
    let run = run_with_timeout("/bin/echo", request("echo-1", &["new"]), 10 * SECOND);
    assert_eq!(run.bin, "/bin/echo");
    assert_eq!(run.request.args, args(&["new"]));
    assert!(matches!(
        run.observe(WaitEvent::Running(SECOND)),
        WaitAction::Sleep(50_000_000)
    ));
    let ending = match run.observe(WaitEvent::Exited(Some(0))) {
        WaitAction::Collect(ending) => ending,
        _ => panic!("an exited child is not waited for"),
    };
    let result = run.finish(ending, drain_limited(b"new\n"), drain_limited(b""));
    assert_eq!(result.exit_code, Some(0));
    assert_eq!(result.stdout, "new\n");
    assert!(!result.timed_out);
    assert!(!result.truncated);
    assert_eq!(result.id, "echo-1");
    assert_eq!(result.stderr, "");
}

#[test]
fn execution_reports_a_missing_binary_without_panicking() {
    let run = run_with_timeout(
        "/nonexistent/jules-test-binary",
        request("missing-1", &["new"]),
        10 * SECOND,
    );
    let result = run.spawn_failed("No such file or directory (os error 2)");
    assert_eq!(result.exit_code, None);
    assert!(result.stderr.contains("could not spawn"));
    assert!(!result.timed_out);
    assert_eq!(
        result.stderr,
        "could not spawn /nonexistent/jules-test-binary: No such file or directory (os error 2)"
    );
    assert_eq!(result.stdout, "");
    assert!(!result.truncated);
}

#[test]
fn execution_kills_a_child_that_outlives_the_timeout() {
    let run = run_with_timeout("/bin/sleep", request("sleep-1", &["30"]), 300_000_000);
    assert!(matches!(
        run.observe(WaitEvent::Running(299_999_999)),
        WaitAction::Sleep(50_000_000)
    ));
    let ending = match run.observe(WaitEvent::Running(300_000_000)) {
        WaitAction::Kill(ending) => ending,
        _ => panic!("a child that outlives the timeout is killed"),
    };
    let result = run.finish(ending, drain_limited(b""), drain_limited(b""));
    assert!(result.timed_out);
    assert_eq!(result.exit_code, None);
}

#[test]
fn a_child_that_cannot_be_watched_has_no_exit_code() {
    let run = run("/bin/echo", request("lost-1", &["new"]));
    assert_eq!(run.timeout, 300 * SECOND);
    let ending = match run.observe(WaitEvent::Failed) {
        WaitAction::Collect(ending) => ending,
        _ => panic!("there is nothing to wait for"),
    };
    let result = run.finish(ending, drain_limited(b"partial"), drain_limited(b"oops"));
    assert_eq!(result.exit_code, None);
    assert!(!result.timed_out);
    assert_eq!(result.stdout, "partial");
    assert_eq!(result.stderr, "oops");
}

#[test]
fn a_child_that_a_signal_ended_has_no_exit_code() {
    let run = run("/bin/echo", request("signal-1", &["new"]));
    let result = match run.observe(WaitEvent::Exited(None)) {
        WaitAction::Collect(ending) => {
            run.finish(ending, (Vec::new(), false), (Vec::new(), false))
        }
        _ => panic!("an exited child is not waited for"),
    };
    assert_eq!(result.exit_code, None);
    assert!(!result.timed_out);
}

#[test]
fn truncation_of_either_stream_is_reported() {
    let big = vec![b'x'; OUTPUT_CAP + 1];
    for (out, err) in [(&big[..], &b""[..]), (&b""[..], &big[..])] {
        let run = run("/bin/echo", request("big-1", &["new"]));
        let result = run.finish(
            Ending::Exited(Some(0)),
            drain_limited(out),
            drain_limited(err),
        );
        assert!(result.truncated);
        assert_eq!(result.stdout.len() + result.stderr.len(), OUTPUT_CAP);
    }
    let (kept, truncated) = drain_limited(&big[..OUTPUT_CAP]);
    assert_eq!(kept.len(), OUTPUT_CAP);
    assert!(!truncated);
}

#[test]
fn output_that_is_not_utf8_is_replaced() {
    let run = run("/bin/echo", request("bytes-1", &["new"]));
    let result = run.finish(
        Ending::Exited(Some(0)),
        drain_limited(b"a\xffb"),
        drain_limited("\u{e9}".as_bytes()),
    );
    assert_eq!(result.stdout, "a\u{fffd}b");
    assert_eq!(result.stderr, "\u{e9}");
}

#[test]
fn a_result_is_concluded_from_texts() {
    let run = run("/bin/echo", request("texts-1", &["new"]));
    let result = run.conclude(Ending::TimedOut, "out".to_owned(), "err".to_owned(), true);
    assert_eq!(result.id, "texts-1");
    assert_eq!(result.stdout, "out");
    assert_eq!(result.stderr, "err");
    assert!(result.truncated);
    assert!(result.timed_out);
    assert_eq!(result.exit_code, None);
}

#[test]
fn a_drain_keeps_the_beginning_of_many_reads() {
    let mut drain = Drain::new();
    let chunk = [7u8; CHUNK_LEN];
    for _ in 0..OUTPUT_CAP / CHUNK_LEN {
        drain = drain.absorb(&chunk);
    }
    drain = drain.absorb(b"");
    let (kept, truncated) = drain.finish();
    assert_eq!(kept.len(), OUTPUT_CAP);
    assert!(!truncated);
    let (kept, truncated) = Drain::new()
        .absorb(b"one ")
        .absorb(&vec![b'x'; OUTPUT_CAP - 5])
        .absorb(b"two three")
        .absorb(b"four")
        .finish();
    assert_eq!(&kept[..5], b"one x");
    assert_eq!(&kept[OUTPUT_CAP - 2..], b"xt");
    assert_eq!(kept.len(), OUTPUT_CAP);
    assert!(truncated);
}

#[test]
fn refused_arguments_are_told_why() {
    let count = "args must contain between 1 and 64 entries";
    let size = "each arg must be between 1 and 16384 bytes";
    let sub = "remote requires list, pull, or new as its subcommand";
    let only = "only the new and remote subcommands may be executed";
    assert_eq!(validate(&[]).unwrap_err(), count);
    assert_eq!(validate(&args(&["new"; 65])).unwrap_err(), count);
    assert!(validate(&args(&["new"; 64])).is_ok());
    assert_eq!(validate(&args(&["login", ""])).unwrap_err(), size);
    assert_eq!(
        validate(&args(&["new", &"\u{e9}".repeat(8193)])).unwrap_err(),
        size
    );
    assert!(validate(&args(&["new", &"\u{e9}".repeat(8192)])).is_ok());
    assert_eq!(validate(&args(&["remote", "delete"])).unwrap_err(), sub);
    assert_eq!(validate(&args(&["remote"])).unwrap_err(), sub);
    assert_eq!(validate(&args(&["logout"])).unwrap_err(), only);
}

fn body(id: Json, list: Json) -> Json {
    Json::Object(vec![("id".to_owned(), id), ("args".to_owned(), list)])
}

#[test]
fn refused_requests_are_told_why() {
    let no_id = "body must include a non-empty id of at most 128 bytes";
    let no_args = "body must include args as an array of strings";
    let list = || Json::Array(vec![Json::text("new")]);
    let long = "\u{e9}".repeat(65);
    for id in [Json::Null, Json::text(""), Json::text(&long), Json::number(7)] {
        assert_eq!(parse_request(&body(id, list())).err(), Some(no_id.to_owned()));
    }
    assert!(parse_request(&body(Json::text(&"x".repeat(128)), list())).is_ok());
    assert_eq!(
        parse_request(&body(Json::text("a"), Json::text("new"))).err(),
        Some(no_args.to_owned())
    );
    assert_eq!(parse_request(&Json::Null).err(), Some(no_id.to_owned()));
    assert_eq!(
        parse_request(&body(Json::text("a"), Json::Array(vec![Json::text("login")]))).err(),
        Some("only the new and remote subcommands may be executed".to_owned())
    );
}

#[test]
fn results_are_answered_field_by_field() {
    let result = ExecResult {
        id: "r".to_owned(),
        exit_code: Some(-2147483648),
        stdout: "o".to_owned(),
        stderr: "e".to_owned(),
        truncated: true,
        timed_out: false,
    };
    assert_eq!(
        result.to_json(),
        Json::Object(vec![
            ("id".to_owned(), Json::text("r")),
            (
                "exit_code".to_owned(),
                Json::Number("-2147483648".to_owned())
            ),
            ("stdout".to_owned(), Json::text("o")),
            ("stderr".to_owned(), Json::text("e")),
            ("truncated".to_owned(), Json::Bool(true)),
            ("timed_out".to_owned(), Json::Bool(false)),
        ])
    );
    let killed = ExecResult {
        exit_code: None,
        timed_out: true,
        ..result
    };
    assert_eq!(killed.to_json().object("exit_code"), Some(&Json::Null));
    assert_eq!(killed.to_json().object("timed_out"), Some(&Json::Bool(true)));
}
