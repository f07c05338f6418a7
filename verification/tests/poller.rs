use zigzag::http::{reply, HeadProgress, HeadStep};
use zigzag::json::Json;
use zigzag::poller::{
    deliver, load_cursor, poll, required_bool, required_number, required_string, response_body,
    run, save_cursor, temporary_name, Cursor, CursorFile, Next, ResponseProgress, ResponseStep,
    Round,
};
use zigzag::query::get_query;
use zigzag::relay::{read_json, route, ReadResult, Route};
use zigzag::url::parse_url;

fn cursor(epoch: &str, after: u64) -> Cursor {
    Cursor {
        epoch: epoch.to_owned(),
        after,
    }
}

#[test]
fn a_poll_is_planned() {
    let relay = parse_url("http://h:8765/base/").unwrap();
    let plan = poll(&relay, None, "secret", &cursor("a b", 7), 50).ok().unwrap();
    assert!(!plan.proxied);
    assert_eq!(plan.host, "h");
    assert_eq!(plan.port, 8765);
    assert_eq!(plan.read_timeout, 65);
    assert_eq!(plan.write_timeout, 15);
    assert_eq!(
        plan.connect_failed("refused"),
        "could not connect to relay: refused"
    );
    assert_eq!(plan.write_failed("reset"), "could not write poll: reset");
    assert_eq!(
        plan.request,
        "GET /base/v1/events?after=7&epoch=a%20b&timeout=50 HTTP/1.1\r\nHost: h:8765\r\nAuthorization: Bearer secret\r\nAccept: application/json\r\nConnection: close\r\n\r\n"
    );
}

#[test]
fn a_poll_goes_through_the_proxy() {
    let relay = parse_url("http://h:8765").unwrap();
    let plan = poll(&relay, Some("http://p:3130"), "k", &cursor("", 0), 1)
        .ok()
        .unwrap();
    assert!(plan.proxied);
    assert_eq!(plan.host, "p");
    assert_eq!(plan.port, 3130);
    assert_eq!(
        plan.connect_failed("refused"),
        "could not connect to proxy: refused"
    );
    assert!(plan.request.starts_with(
        "GET http://h:8765/v1/events?after=0&epoch=&timeout=1 HTTP/1.1\r\nHost: h:8765\r\n"
    ));
    assert_eq!(
        poll(&relay, Some("https://p"), "k", &cursor("", 0), 1).err(),
        Some("relay URL must use http:// (the tailnet is the transport boundary)".to_owned())
    );
}

#[test]
fn the_relay_reads_what_the_poller_sends() {
    let relay = parse_url("http://h:8765").unwrap();
    let epoch = "e&=?%+ \r\n\u{e9}";
    let plan = poll(&relay, None, "k", &cursor(epoch, u64::MAX), 55).ok().unwrap();
    let mut rest = plan.request.as_str();
    let mut progress = HeadProgress::RequestLine;
    let head = loop {
        let (line, tail) = rest.split_at(rest.find('\n').unwrap() + 1);
        rest = tail;
        match progress.read_request(Some(line)) {
            HeadStep::ReadLine(next) => progress = next,
            HeadStep::ReadBody(head, length) => {
                assert_eq!(length, 0);
                break head;
            }
            HeadStep::Failed(error) => panic!("{error:?}"),
        }
    };
    assert_eq!(rest, "");
    assert_eq!(
        get_query(&head.target),
        Ok((u64::MAX, 55, epoch.to_owned()))
    );
    let request = head.with_body(Some(Vec::new())).ok().unwrap();
    assert_eq!(route(&request, "k"), Route::GetEvents);
    assert_eq!(route(&request, "other"), Route::Unauthorized);
}

fn read(text: &[u8]) -> Result<String, String> {
    let mut rest = text;
    let mut progress = ResponseProgress::Status;
    loop {
        let end = rest
            .iter()
            .position(|byte| *byte == b'\n')
            .map_or(rest.len(), |n| n + 1);
        let (line, tail) = rest.split_at(end);
        rest = tail;
        match progress.read_response(std::str::from_utf8(line).ok()) {
            ResponseStep::ReadLine(next) => progress = next,
            ResponseStep::Failed(error) => return Err(error),
            ResponseStep::ReadBody(code, length) => {
                let body = match length {
                    Some(n) => rest.get(..n).map(<[u8]>::to_vec),
                    None => Some(rest.to_vec()),
                };
                return response_body(code, length, body);
            }
        }
    }
}

#[test]
fn the_poller_reads_what_the_relay_answers() {
    let body = "{\"epoch\":\"\u{e9}\"}";
    assert_eq!(read(reply(200, body).as_bytes()), Ok(body.to_owned()));
    assert_eq!(read(reply(200, "").as_bytes()), Ok(String::new()));
    assert_eq!(
        read(reply(401, body).as_bytes()),
        Err("relay returned HTTP 401".to_owned())
    );
    assert_eq!(read(b"HTTP/1.0 200\n\nall that is left"), Ok("all that is left".to_owned()));
    assert_eq!(
        read(b"X 200 OK\r\ncontent-LENGTH:  2 \r\nContent-Length: 3\r\n\r\nabcd"),
        Ok("abc".to_owned())
    );
}

#[test]
fn bad_responses_are_told_why() {
    for (text, message) in [
        (&b""[..], "malformed HTTP status"),
        (b"HTTP/1.1\r\n", "malformed HTTP status"),
        (b"HTTP/1.1 OK\r\n", "malformed HTTP status"),
        (b"HTTP/1.1 65536 OK\r\n", "malformed HTTP status"),
        (b"\xff\n", "could not read HTTP status"),
        (b"H 200\r\n\xff\r\n", "could not read response headers"),
        (b"H 200\r\nno colon\r\n", "malformed HTTP response header"),
        (b"H 200\r\n", "malformed HTTP response header"),
        (
            b"H 200\r\nContent-Length: x\r\n",
            "invalid response content length",
        ),
        (
            b"H 200\r\nContent-Length: 3\r\n\r\nab",
            "short HTTP response body",
        ),
        (b"H 200\r\n\r\n\xff", "relay response was not UTF-8"),
        (b"H 503\r\n\r\n\xff", "relay returned HTTP 503"),
    ] {
        assert_eq!(read(text), Err(message.to_owned()));
    }
    assert_eq!(
        response_body(200, None, None),
        Err("could not read HTTP response body".to_owned())
    );
}

#[test]
fn required_fields_are_read() {
    let value = Json::Object(vec![
        ("s".to_owned(), Json::text("x")),
        ("n".to_owned(), Json::number(5)),
        ("b".to_owned(), Json::Bool(true)),
    ]);
    assert_eq!(required_string(&value, "s"), Ok("x"));
    assert_eq!(required_number(&value, "n"), Ok(5));
    assert_eq!(required_bool(&value, "b"), Ok(true));
    for field in ["n", "missing"] {
        assert_eq!(
            required_string(&value, field),
            Err(format!("relay response missing string {field}"))
        );
    }
    for field in ["s", "missing"] {
        assert_eq!(
            required_number(&value, field),
            Err(format!("relay response missing integer {field}"))
        );
        assert_eq!(
            required_bool(&value, field),
            Err(format!("relay response missing boolean {field}"))
        );
    }
}

#[test]
fn a_cursor_reads_back() {
    let kept = cursor("e\u{e9}", u64::MAX);
    let value = save_cursor(&kept);
    assert_eq!(
        value,
        Json::Object(vec![
            ("epoch".to_owned(), Json::text("e\u{e9}")),
            (
                "next".to_owned(),
                Json::Number("18446744073709551615".to_owned())
            ),
        ])
    );
    assert_eq!(load_cursor("f", CursorFile::Value(value)), Ok(kept));
    assert_eq!(load_cursor("f", CursorFile::Missing), Ok(cursor("", 0)));
    assert_eq!(
        temporary_name(12, &cursor("e", 34)),
        ".poller-12-34.tmp"
    );
}

#[test]
fn a_bad_cursor_file_is_told_why() {
    for (file, message) in [
        (
            CursorFile::Unreadable("denied".to_owned()),
            "could not read cursor file /c: denied",
        ),
        (
            CursorFile::Malformed("eof".to_owned()),
            "invalid cursor file: eof",
        ),
        (
            CursorFile::Value(Json::Null),
            "relay response missing string epoch",
        ),
        (
            CursorFile::Value(Json::Object(vec![("epoch".to_owned(), Json::text("e"))])),
            "relay response missing integer next",
        ),
    ] {
        assert_eq!(load_cursor("/c", file), Err(message.to_owned()));
    }
}

fn event(id: &str) -> Json {
    Json::Object(vec![("id".to_owned(), Json::text(id))])
}

fn line(id: &str, epoch: &str) -> Json {
    Json::Object(vec![
        ("id".to_owned(), Json::text(id)),
        ("relay_epoch".to_owned(), Json::text(epoch)),
    ])
}

fn answer(events: Vec<Json>) -> Json {
    read_json(ReadResult {
        epoch: "e".to_owned(),
        reset: true,
        lost: false,
        events,
        next: 4,
    })
}

#[test]
fn events_are_delivered_in_order() {
    let delivery = deliver(&answer(vec![event("1"), event("2")]));
    assert!(delivery.reset);
    assert!(!delivery.lost);
    assert_eq!(delivery.lines, vec![line("1", "e"), line("2", "e")]);
    assert_eq!(delivery.outcome, Ok(cursor("e", 4)));
    let delivery = deliver(&answer(Vec::new()));
    assert_eq!(delivery.lines, Vec::new());
    assert_eq!(delivery.outcome, Ok(cursor("e", 4)));
}

#[test]
fn a_bad_event_ends_the_delivery() {
    let delivery = deliver(&answer(vec![event("1"), Json::Null, event("2")]));
    assert!(delivery.reset);
    assert_eq!(delivery.lines, vec![line("1", "e")]);
    assert_eq!(
        delivery.outcome,
        Err("relay response contains a non-object event".to_owned())
    );
}

#[test]
fn an_incomplete_answer_is_not_delivered() {
    let fields = |names: &[&str]| {
        let all = answer(vec![event("1")]);
        Json::Object(
            names
                .iter()
                .map(|name| (name.to_string(), all.object(name).unwrap().clone()))
                .collect(),
        )
    };
    for (message, error) in [
        (Json::Null, "relay response missing string epoch"),
        (
            fields(&["reset", "lost", "events", "next"]),
            "relay response missing string epoch",
        ),
        (
            fields(&["epoch", "lost", "events", "next"]),
            "relay response missing boolean reset",
        ),
        (
            fields(&["epoch", "reset", "events", "next"]),
            "relay response missing boolean lost",
        ),
        (
            fields(&["epoch", "reset", "lost", "events"]),
            "relay response missing integer next",
        ),
    ] {
        let delivery = deliver(&message);
        assert!(!delivery.reset);
        assert!(!delivery.lost);
        assert!(delivery.lines.is_empty());
        assert_eq!(delivery.outcome, Err(error.to_owned()));
    }
    let delivery = deliver(&fields(&["epoch", "reset", "lost", "next"]));
    assert!(delivery.reset);
    assert!(delivery.lines.is_empty());
    assert_eq!(
        delivery.outcome,
        Err("relay response missing events array".to_owned())
    );
}

#[test]
fn rounds_follow_each_other() {
    let failed = || Round::Failed("down".to_owned());
    assert!(matches!(run(failed(), false), Next::Retry(2)));
    assert!(matches!(run(failed(), true), Next::Stop(Err(e)) if e == "down"));
    assert!(matches!(run(Round::Delivered(Ok(())), false), Next::Poll));
    assert!(matches!(
        run(Round::Delivered(Ok(())), true),
        Next::Stop(Ok(()))
    ));
    for once in [false, true] {
        assert!(matches!(
            run(Round::Delivered(Err("full".to_owned())), once),
            Next::Stop(Err(e)) if e == "full"
        ));
    }
}
