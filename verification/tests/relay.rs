use zigzag::http::{
    reply, Head, HeadProgress, HeadStep, ReadRequestError, Request, MAX_BODY,
};
use zigzag::json::Json;
use zigzag::relay::{
    authorized, denial_json, error, get, get_reply, handle, jules_request, post, post_reply,
    post_text, read_json, refuse, route, Handling, ReadResult, Route,
};

/// Reads a request off a text, as off a connection that ends with it.
fn read(text: &str) -> Result<Request, ReadRequestError> {
    let mut rest = text;
    let mut progress = HeadProgress::RequestLine;
    loop {
        let end = rest.find('\n').map_or(rest.len(), |n| n + 1);
        let (line, tail) = rest.split_at(end);
        rest = tail;
        match progress.read_request(Some(line)) {
            HeadStep::ReadLine(next) => progress = next,
            HeadStep::Failed(error) => return Err(error),
            HeadStep::ReadBody(head, length) => {
                let body = rest.as_bytes().get(..length).map(<[u8]>::to_vec);
                return head.with_body(body);
            }
        }
    }
}

fn message(text: &str) -> Option<ReadRequestError> {
    Some(ReadRequestError::Message(text.to_owned()))
}

fn error_body(text: &str) -> Json {
    Json::Object(vec![("error".to_owned(), Json::text(text))])
}

#[test]
fn bearer_comparison_requires_the_full_token() {
    assert!(authorized(
        &format!("Bearer {}", "x".repeat(32)),
        &"x".repeat(32)
    ));
    assert!(!authorized("Bearer x", &"x".repeat(32)));
    assert!(!authorized(
        &format!("Bearer {}suffix", "x".repeat(32)),
        &"x".repeat(32)
    ));
}

#[test]
fn bearer_comparison_sees_every_byte() {
    let secret = "s".repeat(32);
    for at in 0..39 {
        let mut supplied = format!("Bearer {secret}").into_bytes();
        supplied[at] = b'!';
        assert!(!authorized(&String::from_utf8(supplied).unwrap(), &secret));
    }
    assert!(!authorized("", &secret));
    assert!(!authorized(&format!("bearer {secret}"), &secret));
    assert!(!authorized("Bearer ", "\0"));
    assert!(authorized("Bearer \u{e9}", "\u{e9}"));
}

#[test]
fn oversized_exec_request_is_an_opaque_denial_before_body_allocation() {
    let text = format!(
        "POST /v1/exec HTTP/1.1\r\nContent-Length: {}\r\n\r\n",
        MAX_BODY + 1
    );
    assert!(matches!(read(&text), Err(ReadRequestError::ExecDenied)));
}

#[test]
fn truncated_exec_request_is_an_opaque_denial() {
    assert!(matches!(
        read("POST /v1/exec HTTP/1.1\r\nContent-Length: 1\r\n\r\n"),
        Err(ReadRequestError::ExecDenied)
    ));
}

#[test]
fn requests_are_read() {
    let request = read(
        "POST /v1/events?x=1 HTTP/1.1\r\nAUTHORIZATION:  Bearer a \r\ncontent-length:+3\r\nX: 1\r\nx: 2:3\r\n\r\nabcdef",
    )
    .unwrap();
    assert_eq!(request.head.method, "POST");
    assert_eq!(request.head.target, "/v1/events?x=1");
    assert_eq!(request.body, b"abc");
    let headers = &request.head.headers;
    assert_eq!(headers.get("authorization"), Some(&"Bearer a".to_owned()));
    assert_eq!(headers.get("x"), Some(&"2:3".to_owned()));
    assert_eq!(headers.get("X"), None);
    assert!(!request.head.is_exec());
    let bare = read("GET /v1/exec HTTP/1.1\n\n").unwrap();
    assert_eq!(bare.body, b"");
    assert!(!bare.head.is_exec());
    assert!(read("POST /v1/exec? x\n\n").unwrap().head.is_exec());
}

#[test]
fn bad_requests_are_told_why() {
    for text in ["", "\r\n", "GET\r\n", "GET /\r\n"] {
        assert_eq!(read(text).err(), message("malformed request line"));
    }
    assert_eq!(
        read("GET / HTTP/1.1\r\nno colon\r\n\r\n").err(),
        message("malformed header")
    );
    assert_eq!(
        read("GET / HTTP/1.1\r\nHost: h\r\n").err(),
        message("malformed header")
    );
    for length in ["x", "-1", "", "18446744073709551616"] {
        assert_eq!(
            read(&format!("GET / HTTP/1.1\nContent-Length: {length}\n\n")).err(),
            message("invalid content length")
        );
    }
    assert_eq!(
        read("POST /v1/events HTTP/1.1\nContent-Length: 65537\n\n").err(),
        message("request body too large")
    );
    assert_eq!(
        read("POST /v1/events HTTP/1.1\nContent-Length: 65536\n\nshort").err(),
        message("short request body")
    );
    assert!(matches!(
        HeadProgress::RequestLine.read_request(None),
        HeadStep::Failed(ReadRequestError::Message(m)) if m == "could not read request line"
    ));
    match HeadProgress::RequestLine.read_request(Some("GET / HTTP/1.1\r\n")) {
        HeadStep::ReadLine(next) => assert!(matches!(
            next.read_request(None),
            HeadStep::Failed(ReadRequestError::Message(m)) if m == "could not read headers"
        )),
        _ => panic!("a request line is followed by headers"),
    }
}

fn request(method: &str, target: &str, authorization: &str) -> Request {
    read(&format!(
        "{method} {target} HTTP/1.1\r\nAuthorization: {authorization}\r\nContent-Length: 4\r\n\r\nbody"
    ))
    .unwrap()
}

#[test]
fn requests_are_routed() {
    for (method, target, expected) in [
        ("POST", "/v1/events", Route::PostEvent),
        ("POST", "/v1/events?x", Route::PostEvent),
        ("GET", "/v1/events?after=1", Route::GetEvents),
        ("POST", "/v1/exec", Route::Exec),
        ("POST", "/v1/jules", Route::Jules),
        ("GET", "/v1/exec", Route::NotFound),
        ("GET", "/v1/jules", Route::NotFound),
        ("PUT", "/v1/events", Route::NotFound),
        ("post", "/v1/events", Route::NotFound),
        ("GET", "/v1/events/", Route::NotFound),
        ("GET", "/?/v1/events", Route::NotFound),
    ] {
        assert_eq!(route(&request(method, target, "Bearer k"), "k"), expected);
        assert_eq!(
            route(&request(method, target, "Bearer K"), "k"),
            Route::Unauthorized
        );
    }
    assert_eq!(
        route(&read("GET /v1/events HTTP/1.1\n\n").unwrap(), "k"),
        Route::Unauthorized
    );
}

#[test]
fn requests_are_handled() {
    let taken = |method, target, token| handle(Ok(request(method, target, token)), "k");
    assert!(matches!(
        taken("POST", "/v1/events", "Bearer k"),
        Handling::PostEvent(body) if body == b"body"
    ));
    assert!(matches!(
        taken("GET", "/v1/events?after=3", "Bearer k"),
        Handling::GetEvents(target) if target == "/v1/events?after=3"
    ));
    assert!(matches!(
        taken("POST", "/v1/exec", "Bearer k"),
        Handling::Exec(body) if body == b"body"
    ));
    assert!(matches!(
        taken("POST", "/v1/jules", "Bearer k"),
        Handling::Jules(body) if body == b"body"
    ));
    for (handling, status, text) in [
        (taken("POST", "/v1/exec", "Bearer x"), 401, "unauthorized"),
        (taken("GET", "/", "Bearer k"), 404, "not_found"),
        (
            handle(Err(ReadRequestError::Message("what".to_owned())), "k"),
            400,
            "what",
        ),
    ] {
        match handling {
            Handling::Reply(reply) => {
                assert_eq!(reply.status, status);
                assert_eq!(reply.body, error_body(text));
            }
            _ => panic!("the request is answered at once"),
        }
    }
    let denied = refuse(ReadRequestError::ExecDenied);
    assert_eq!(denied.status, 200);
    assert_eq!(denied.body, denial_json(""));
    assert!(matches!(
        handle(Err(ReadRequestError::ExecDenied), "k"),
        Handling::Reply(reply) if reply.status == 200 && reply.body == denial_json("")
    ));
}

#[test]
fn errors_and_denials_are_objects() {
    assert_eq!(error("x"), error_body("x"));
    assert_eq!(
        denial_json("7"),
        Json::Object(vec![
            ("id".to_owned(), Json::text("7")),
            ("error".to_owned(), Json::text("denied")),
        ])
    );
}

#[test]
fn posted_events_need_an_id() {
    let event = Json::Object(vec![
        ("id".to_owned(), Json::text("e1")),
        ("x".to_owned(), Json::Null),
    ]);
    assert_eq!(post(Some(event.clone())).ok(), Some(event));
    for bad in [
        None,
        Some(Json::text("e1")),
        Some(Json::Object(Vec::new())),
        Some(Json::Object(vec![("id".to_owned(), Json::text(""))])),
        Some(Json::Object(vec![("id".to_owned(), Json::number(1))])),
        Some(Json::Array(vec![])),
    ] {
        let refusal = post(bad).err().unwrap();
        assert_eq!(refusal.status, 400);
        assert_eq!(
            refusal.body,
            error_body("body_must_be_an_object_with_nonempty_id")
        );
    }
    assert_eq!(post_text(b"{}".to_vec()).ok(), Some("{}".to_owned()));
    let refusal = post_text(vec![0xff]).err().unwrap();
    assert_eq!(refusal.status, 400);
    assert_eq!(
        refusal.body,
        error_body("body_must_be_an_object_with_nonempty_id")
    );
}

#[test]
fn stored_events_are_answered() {
    for (duplicate, status) in [(false, 201), (true, 200)] {
        let answer = post_reply(Some((Json::text("event"), duplicate)));
        assert_eq!(answer.status, status);
        assert_eq!(
            answer.body,
            Json::Object(vec![
                ("duplicate".to_owned(), Json::Bool(duplicate)),
                ("event".to_owned(), Json::text("event")),
            ])
        );
    }
    let answer = post_reply(None);
    assert_eq!(answer.status, 500);
    assert_eq!(answer.body, error_body("could_not_persist_event"));
}

fn stored() -> ReadResult {
    ReadResult {
        epoch: "e".to_owned(),
        reset: true,
        lost: false,
        events: vec![Json::Object(Vec::new())],
        next: 9,
    }
}

#[test]
fn polls_are_answered() {
    let expected = Json::Object(vec![
        ("epoch".to_owned(), Json::text("e")),
        ("reset".to_owned(), Json::Bool(true)),
        ("lost".to_owned(), Json::Bool(false)),
        (
            "events".to_owned(),
            Json::Array(vec![Json::Object(Vec::new())]),
        ),
        ("next".to_owned(), Json::Number("9".to_owned())),
    ]);
    assert_eq!(read_json(stored()), expected);
    let answer = get_reply(Some(stored()));
    assert_eq!(answer.status, 200);
    assert_eq!(answer.body, expected);
    let answer = get_reply(None);
    assert_eq!(answer.status, 500);
    assert_eq!(answer.body, error_body("could_not_read_events"));
    assert_eq!(
        get("/v1/events?after=2&timeout=3&epoch=x").ok(),
        Some((2, 3, "x".to_owned()))
    );
    let refusal = get("/v1/events?timeout=99").err().unwrap();
    assert_eq!(refusal.status, 400);
    assert_eq!(refusal.body, error_body("timeout must be between 0 and 55"));
}

#[test]
fn jules_requests_are_accepted_or_answered() {
    let accepted = jules_request(Some(Json::Object(vec![
        ("id".to_owned(), Json::text("list-repos-1")),
        (
            "args".to_owned(),
            Json::Array(vec![
                Json::text("remote"),
                Json::text("list"),
                Json::text("--repo"),
            ]),
        ),
    ])))
    .ok()
    .unwrap();
    assert_eq!(accepted.id, "list-repos-1");
    assert_eq!(accepted.args, ["remote", "list", "--repo"]);
    for parsed in [None, Some(Json::Object(Vec::new()))] {
        let refusal = jules_request(parsed).err().unwrap();
        assert_eq!(refusal.status, 400);
        assert_eq!(
            refusal.body,
            error_body("body must include a non-empty id of at most 128 bytes")
        );
    }
}

#[test]
fn responses_are_written() {
    assert_eq!(
        reply(200, "{\"a\":\"\u{e9}\"}"),
        "HTTP/1.1 200 OK\r\nContent-Type: application/json\r\nContent-Length: 10\r\nCache-Control: no-store\r\nConnection: close\r\n\r\n{\"a\":\"\u{e9}\"}"
    );
    for (code, reason) in [
        (201, "Created"),
        (400, "Bad Request"),
        (401, "Unauthorized"),
        (404, "Not Found"),
        (500, "Internal Server Error"),
        (418, "Internal Server Error"),
    ] {
        assert!(reply(code, "").starts_with(&format!("HTTP/1.1 {code} {reason}\r\n")));
        assert!(reply(code, "").contains("Content-Length: 0\r\n"));
    }
}

#[test]
fn header_names_count_whatever_their_case() {
    for name in ["content-length", "CONTENT-LENGTH", "Content-Length"] {
        let head: Head = read(&format!("GET / HTTP/1.1\n{name}: 2\n\nab")).unwrap().head;
        assert_eq!(head.headers.get("content-length"), Some(&"2".to_owned()));
    }
}

#[test]
fn a_request_is_waited_for_ten_seconds() {
    assert_eq!(zigzag::http::READ_TIMEOUT, 10);
}
