use zigzag::exec::{
    allowlist_file, allowlist_unreadable, apply_policy, check_session, config_arguments, exec_reply, exec_request,
    is_local_gui_session, log_line, parse_exec_request, policy_path_or_denial,
    require_gui_login_session, run_config, BinRequest, ConfigAction, ExecStep, OwnerRequest,
    ParsedExec, PolicyStep, SessionStep, SESSION_HAS_GRAPHIC_ACCESS, SESSION_IS_REMOTE,
};
use zigzag::json::Json;
use zigzag::jules::ExecResult;
use zigzag::relay::{denial_response, error};

fn args(values: &[&str]) -> Vec<String> {
    values.iter().map(|value| value.to_string()).collect()
}

fn denied(id: &str) -> Json {
    Json::Object(vec![
        ("id".to_owned(), Json::text(id)),
        ("error".to_owned(), Json::text("denied")),
    ])
}

fn request(bin: &str, values: &[&str]) -> BinRequest {
    BinRequest {
        id: "request-1".to_owned(),
        bin: bin.to_owned(),
        args: args(values),
    }
}

#[test]
fn allowlist_updater_accepts_only_its_exact_arguments() {
    let valid = vec![
        "set-allowlist".to_owned(),
        "--file".to_owned(),
        "/secure/policy.json".to_owned(),
    ];
    assert_eq!(allowlist_file(&valid).unwrap(), "/secure/policy.json");
    for invalid in [
        vec![],
        vec!["set-allowlist".to_owned()],
        vec!["set-allowlist".to_owned(), "--file".to_owned()],
        vec![
            "set-allowlist".to_owned(),
            "--other".to_owned(),
            "/secure/policy.json".to_owned(),
        ],
        vec![
            "set-allowlist".to_owned(),
            "--file".to_owned(),
            "".to_owned(),
        ],
    ] {
        assert!(allowlist_file(&invalid).is_err());
    }
}

#[test]
fn gui_session_check_rejects_remote_or_non_graphical_sessions() {
    assert!(is_local_gui_session(0, SESSION_HAS_GRAPHIC_ACCESS));
    assert!(!is_local_gui_session(
        0,
        SESSION_HAS_GRAPHIC_ACCESS | SESSION_IS_REMOTE
    ));
    assert!(!is_local_gui_session(0, 0));
    assert!(!is_local_gui_session(-1, SESSION_HAS_GRAPHIC_ACCESS));
}

#[test]
fn exec_denials_are_opaque_and_never_include_policy_data() {
    let expected = denied("request-1");
    let invalid_json = match parse_exec_request(None) {
        Err(denial) => denial,
        Ok(_) => panic!("malformed request was accepted"),
    };
    assert_eq!(invalid_json, denied(""));
    let malformed_schema = match parse_exec_request(Some(ParsedExec {
        id: "request-1".to_owned(),
        request: None,
    })) {
        Err(denial) => denial,
        Ok(_) => panic!("malformed request was accepted"),
    };
    assert_eq!(malformed_schema, expected);

    for (bin, values) in [("unknown", ["new"]), ("jules", ["login"])] {
        let parsed = ParsedExec {
            id: "request-1".to_owned(),
            request: Some(request(bin, &values)),
        };
        let request = parse_exec_request(Some(parsed)).unwrap();
        assert_eq!(request.bin, bin);
        assert_eq!(request.args, args(&values));
        let denial = policy_path_or_denial(None, &request).unwrap_err();
        assert_eq!(denial, expected);
        assert!(!format!("{denial:?}").contains("configured-binary"));
        let (status, response) = denial_response(&request.id);
        assert_eq!(status, 200);
        assert_eq!(response, expected);
    }
    assert_eq!(
        policy_path_or_denial(
            Some("/private/configured-binary"),
            &request("jules", &["new"])
        ),
        Ok("/private/configured-binary")
    );
}

#[test]
fn execution_requests_are_put_to_the_policy() {
    let parsed = ParsedExec {
        id: "request-1".to_owned(),
        request: Some(request("jules", &["new", "prompt"])),
    };
    match exec_request(Some(parsed)) {
        ExecStep::AskPolicy(asked) => {
            assert_eq!(asked.id, "request-1");
            assert_eq!(asked.bin, "jules");
            assert_eq!(asked.args, args(&["new", "prompt"]));
        }
        ExecStep::Reply(_) => panic!("the policy decides"),
    }
    for (parsed, id) in [
        (None, ""),
        (
            Some(ParsedExec {
                id: "r".to_owned(),
                request: None,
            }),
            "r",
        ),
    ] {
        match exec_request(parsed) {
            ExecStep::Reply(reply) => {
                assert_eq!(reply.status, 200);
                assert_eq!(reply.body, denied(id));
            }
            ExecStep::AskPolicy(_) => panic!("there is nothing to ask"),
        }
    }
}

fn owned(bin: &str, values: &[&str]) -> OwnerRequest {
    match check_session(request(bin, values), Some((0, SESSION_HAS_GRAPHIC_ACCESS))) {
        SessionStep::AskPolicy(asked) => asked,
        SessionStep::Fail(..) => panic!("this is the owner's session"),
    }
}

#[test]
fn only_the_policy_lets_a_binary_run() {
    match apply_policy(
        owned("jules", &["new"]),
        Ok(Some("/opt/jules".to_owned())),
    ) {
        PolicyStep::Run(path, allowed) => {
            assert_eq!(path, "/opt/jules");
            assert_eq!(allowed.args, args(&["new"]));
        }
        _ => panic!("the policy allows it"),
    }
    match apply_policy(owned("jules", &["login"]), Ok(None)) {
        PolicyStep::Reply(reply) => {
            assert_eq!(reply.status, 200);
            assert_eq!(reply.body, denied("request-1"));
        }
        _ => panic!("the policy does not allow it"),
    }
    match apply_policy(owned("jules", &["new"]), Err("locked".to_owned())) {
        PolicyStep::Fail(reply, log) => {
            assert_eq!(reply.status, 500);
            assert_eq!(reply.body, error("could_not_read_execution_policy"));
            assert_eq!(log, "exec policy read failed: locked");
        }
        _ => panic!("there is no policy"),
    }
}

#[test]
fn the_policy_is_asked_in_the_owner_session_only() {
    let asked = request("jules", &["new", "prompt"]);
    match check_session(asked, Some((0, SESSION_HAS_GRAPHIC_ACCESS))) {
        SessionStep::AskPolicy(asked) => {
            let kept = asked.request();
            assert_eq!(kept.id, "request-1");
            assert_eq!(kept.bin, "jules");
            assert_eq!(kept.args, args(&["new", "prompt"]));
        }
        SessionStep::Fail(..) => panic!("this is the owner's session"),
    }
    for session in [
        None,
        Some((0, 0)),
        Some((-1, SESSION_HAS_GRAPHIC_ACCESS)),
        Some((0, SESSION_HAS_GRAPHIC_ACCESS | SESSION_IS_REMOTE)),
    ] {
        match check_session(request("jules", &["new"]), session) {
            SessionStep::Fail(reply, log) => {
                assert_eq!(reply.status, 500);
                assert_eq!(reply.body, error("could_not_read_execution_policy"));
                assert_eq!(
                    log,
                    "exec policy read failed: set-allowlist must run from Shukant's local macOS GUI login session"
                );
            }
            SessionStep::AskPolicy(_) => panic!("this is not the owner's session"),
        }
    }
}

#[test]
fn an_execution_is_answered_with_its_result() {
    let result = ExecResult {
        id: "request-1".to_owned(),
        exit_code: Some(3),
        stdout: "out".to_owned(),
        stderr: String::new(),
        truncated: false,
        timed_out: false,
    };
    let reply = exec_reply(&result);
    assert_eq!(reply.status, 200);
    assert_eq!(reply.body, result.to_json());
    assert_eq!(
        reply.body.object("exit_code"),
        Some(&Json::Number("3".to_owned()))
    );
}

#[test]
fn logs_hold_the_subcommand_and_no_prompt() {
    assert_eq!(
        log_line(&request("jules", &["new", "a secret prompt"])),
        "exec id=request-1 bin=jules subcommand=new"
    );
    assert_eq!(
        log_line(&request("jules", &["new", "another prompt"])),
        "exec id=request-1 bin=jules subcommand=new"
    );
    assert_eq!(
        log_line(&request("jules", &[])),
        "exec id=request-1 bin=jules subcommand="
    );
}

#[test]
fn the_policy_is_acted_on_from_the_owner_session_only() {
    let message = "set-allowlist must run from Shukant's local macOS GUI login session";
    let owner = Some((0, SESSION_HAS_GRAPHIC_ACCESS));
    assert_eq!(require_gui_login_session(owner), Ok(()));
    for session in [
        None,
        Some((0, 0)),
        Some((1, SESSION_HAS_GRAPHIC_ACCESS)),
        Some((0, SESSION_HAS_GRAPHIC_ACCESS | SESSION_IS_REMOTE)),
    ] {
        assert_eq!(
            require_gui_login_session(session),
            Err(message.to_owned())
        );
        assert_eq!(
            run_config(&args(&["get-allowlist"]), session).err(),
            Some(message.to_owned())
        );
    }
    assert!(matches!(
        run_config(&args(&["get-allowlist"]), owner),
        Ok(ConfigAction::GetAllowlist)
    ));
    assert!(matches!(
        run_config(&args(&["set-allowlist", "--file", "p"]), owner),
        Ok(ConfigAction::SetAllowlist("p"))
    ));
    for wrong in [&["get-allowlist", "x"][..], &["set-allowlist"], &[]] {
        assert_eq!(
            run_config(&args(wrong), owner).err(),
            Some("usage: relay config set-allowlist --file PATH".to_owned())
        );
    }
}

#[test]
fn policy_actions_are_told_from_a_start_of_the_relay() {
    let call = args(&["config", "get-allowlist"]);
    assert_eq!(config_arguments(&call), Some(&call[1..]));
    assert_eq!(config_arguments(&args(&["config"])), Some(&[][..]));
    assert_eq!(config_arguments(&args(&["--port", "config"])), None);
    assert_eq!(config_arguments(&[]), None);
}

#[test]
fn an_unreadable_policy_file_is_reported() {
    assert_eq!(
        allowlist_unreadable("/secure/policy.json", "denied"),
        "could not read allowlist file /secure/policy.json: denied"
    );
}
