//! Polling a relay and delivering its events.

use crate::bytes;
use crate::http::{blank, line_text};
use crate::json::{copy_fields, field_values, item_values, lookup, Json, Value};
use crate::query;
use crate::relay::read_value;
use crate::text;
use crate::text::CharClass;
use crate::url::{parse_url, url_parts, RelayUrl, UrlParts};
use vstd::prelude::*;

verus! {

/// How far the events of a relay have been delivered.
#[derive(Debug, PartialEq, Eq)]
pub struct Cursor {
    pub epoch: String,
    pub after: u64,
}

/// The mathematical counterpart of [`Cursor`].
pub struct CursorValue {
    pub epoch: Seq<char>,
    pub after: nat,
}

impl View for Cursor {
    type V = CursorValue;

    open spec fn view(&self) -> CursorValue {
        CursorValue { epoch: self.epoch@, after: self.after as nat }
    }
}

/// The request target of a poll.
pub open spec fn poll_target(base_path: Seq<char>, cursor: CursorValue, timeout: nat) -> Seq<char> {
    base_path + "v1/events?after="@ + text::decimal(cursor.after) + "&epoch="@ + query::encoded(
        cursor.epoch,
    ) + "&timeout="@ + text::decimal(timeout)
}

/// The text of a poll.
pub open spec fn poll_text(
    target: Seq<char>,
    authority: Seq<char>,
    secret: Seq<char>,
) -> Seq<char> {
    "GET "@ + target + " HTTP/1.1\r\nHost: "@ + authority + "\r\nAuthorization: Bearer "@ + secret
        + "\r\nAccept: application/json\r\nConnection: close\r\n\r\n"@
}

/// A connection to make and what to send over it.
pub struct PollPlan {
    /// Whether the connection is to the proxy.
    pub proxied: bool,
    pub host: String,
    pub port: u16,
    pub request: String,
    /// The time to wait for the answer, in seconds.
    pub read_timeout: u64,
    /// The time to wait until the request is sent, in seconds.
    pub write_timeout: u64,
}

/// The mathematical counterpart of [`PollPlan`].
pub struct PlanValue {
    pub proxied: bool,
    pub host: Seq<char>,
    pub port: nat,
    pub request: Seq<char>,
    pub read_timeout: nat,
    pub write_timeout: nat,
}

impl View for PollPlan {
    type V = PlanValue;

    open spec fn view(&self) -> PlanValue {
        PlanValue {
            proxied: self.proxied,
            host: self.host@,
            port: self.port as nat,
            request: self.request@,
            read_timeout: self.read_timeout as nat,
            write_timeout: self.write_timeout as nat,
        }
    }
}

/// What is reported where the connection cannot be made.
pub open spec fn connect_failure(proxied: bool, error: Seq<char>) -> Seq<char> {
    (if proxied {
        "could not connect to proxy: "@
    } else {
        "could not connect to relay: "@
    }) + error
}

/// What is reported where the request cannot be sent.
pub open spec fn write_failure(error: Seq<char>) -> Seq<char> {
    "could not write poll: "@ + error
}

impl PollPlan {
    /// Reports that the connection cannot be made.
    pub fn connect_failed(&self, error: &str) -> (r: String)
        ensures
            r@ == connect_failure(self@.proxied, error@),
    {
        let mut message = if self.proxied {
            "could not connect to proxy: ".to_owned()
        } else {
            "could not connect to relay: ".to_owned()
        };
        message.append(error);
        message
    }

    /// Reports that the request cannot be sent.
    pub fn write_failed(&self, error: &str) -> (r: String)
        ensures
            r@ == write_failure(error@),
    {
        let mut message = "could not write poll: ".to_owned();
        message.append(error);
        message
    }
}

/// How a relay is polled: through the proxy, if there is one, with the whole
/// URL as the request target. The relay is given time to hold the poll open.
pub open spec fn planned(
    relay: UrlParts,
    proxy: Option<Seq<char>>,
    secret: Seq<char>,
    cursor: CursorValue,
    timeout: nat,
) -> Result<PlanValue, Seq<char>> {
    let target = poll_target(relay.base_path, cursor, timeout);
    match proxy {
        None => Ok(
            PlanValue {
                proxied: false,
                host: relay.host,
                port: relay.port,
                request: poll_text(target, relay.authority, secret),
                read_timeout: timeout + 15,
                write_timeout: 15,
            },
        ),
        Some(url) => match url_parts(url) {
            Ok(via) => Ok(
                PlanValue {
                    proxied: true,
                    host: via.host,
                    port: via.port,
                    request: poll_text(
                        "http://"@ + relay.authority + target,
                        relay.authority,
                        secret,
                    ),
                    read_timeout: timeout + 15,
                    write_timeout: 15,
                },
            ),
            Err(message) => Err(message),
        },
    }
}

/// Plans a poll.
pub fn poll(
    relay: &RelayUrl,
    proxy: Option<&str>,
    secret: &str,
    cursor: &Cursor,
    timeout: u64,
) -> (r: Result<PollPlan, String>)
    requires
        timeout <= u64::MAX - 15,
    ensures
        match r {
            Ok(plan) => planned(relay@, line_text(proxy), secret@, cursor@, timeout as nat) == Ok::<
                _,
                Seq<char>,
            >(plan@),
            Err(message) => planned(relay@, line_text(proxy), secret@, cursor@, timeout as nat)
                == Err::<PlanValue, _>(message@),
        },
{
    let mut target = relay.base_path.clone();
    target.append("v1/events?after=");
    target.append(text::to_decimal(cursor.after).as_str());
    target.append("&epoch=");
    target.append(query::encode(cursor.epoch.as_str()).as_str());
    target.append("&timeout=");
    target.append(text::to_decimal(timeout).as_str());
    assert(target@ == poll_target(relay@.base_path, cursor@, timeout as nat));
    let (proxied, host, port, request_target) = match proxy {
        Some(url) => match parse_url(url) {
            Ok(via) => {
                let mut whole = "http://".to_owned();
                whole.append(relay.authority.as_str());
                whole.append(target.as_str());
                (true, via.host, via.port, whole)
            },
            Err(message) => {
                return Err(message);
            },
        },
        None => (false, relay.host.clone(), relay.port, target),
    };
    let mut request = "GET ".to_owned();
    request.append(request_target.as_str());
    request.append(" HTTP/1.1\r\nHost: ");
    request.append(relay.authority.as_str());
    request.append("\r\nAuthorization: Bearer ");
    request.append(secret);
    request.append("\r\nAccept: application/json\r\nConnection: close\r\n\r\n");
    Ok(
        PollPlan {
            proxied,
            host,
            port,
            request,
            read_timeout: timeout + 15,
            write_timeout: 15,
        },
    )
}

/// How far the head of a response has been read.
#[derive(Debug, PartialEq, Eq, Clone, Copy)]
pub enum ResponseProgress {
    Status,
    /// The status code, and the length of the body if a header gave it.
    Headers(u16, Option<usize>),
}

/// What to do after a line of the head of a response.
#[derive(Debug, PartialEq, Eq)]
pub enum ResponseStep {
    /// Read another line.
    ReadLine(ResponseProgress),
    /// Read a body of that length, or all that is left where it is not given.
    ReadBody(u16, Option<usize>),
    /// Give up.
    Failed(String),
}

/// The mathematical counterpart of [`ResponseStep`].
pub enum Received {
    ReadLine(ResponseProgress),
    ReadBody(u16, Option<usize>),
    Failed(Seq<char>),
}

impl View for ResponseStep {
    type V = Received;

    open spec fn view(&self) -> Received {
        match self {
            ResponseStep::ReadLine(progress) => Received::ReadLine(*progress),
            ResponseStep::ReadBody(code, length) => Received::ReadBody(*code, *length),
            ResponseStep::Failed(message) => Received::Failed(message@),
        }
    }
}

/// What follows from a status line: its second word is the status code.
pub open spec fn after_status_line(line: Seq<char>) -> Received {
    let w = text::words(line);
    if w.len() < 2 {
        Received::Failed("malformed HTTP status"@)
    } else {
        match text::number(w[1], u16::MAX as nat) {
            Some(code) => Received::ReadLine(ResponseProgress::Headers(code as u16, None)),
            None => Received::Failed("malformed HTTP status"@),
        }
    }
}

/// What follows from a header line of a response. Only the length counts.
pub open spec fn after_response_header(
    code: u16,
    length: Option<usize>,
    line: Seq<char>,
) -> Received {
    if blank(line) {
        Received::ReadBody(code, length)
    } else {
        match text::first_cut(text::trimmed_end(line, CharClass::Space), ':') {
            None => Received::Failed("malformed HTTP response header"@),
            Some((name, value)) => if text::lowered(name) == "content-length"@ {
                match text::number(text::trimmed(value, CharClass::Space), usize::MAX as nat) {
                    Some(n) => Received::ReadLine(
                        ResponseProgress::Headers(code, Some(n as usize)),
                    ),
                    None => Received::Failed("invalid response content length"@),
                }
            } else {
                Received::ReadLine(ResponseProgress::Headers(code, length))
            },
        }
    }
}

/// What follows from an attempt to read a line of the head of a response.
pub open spec fn response_decision(
    progress: ResponseProgress,
    line: Option<Seq<char>>,
) -> Received {
    match (progress, line) {
        (ResponseProgress::Status, None) => Received::Failed("could not read HTTP status"@),
        (ResponseProgress::Status, Some(l)) => after_status_line(l),
        (ResponseProgress::Headers(_, _), None) => Received::Failed(
            "could not read response headers"@,
        ),
        (ResponseProgress::Headers(code, length), Some(l)) => after_response_header(
            code,
            length,
            l,
        ),
    }
}

fn broken(message: &str) -> (r: ResponseStep)
    ensures
        r@ == Received::Failed(message@),
{
    ResponseStep::Failed(message.to_owned())
}

impl ResponseProgress {
    /// Takes in an attempt to read a line of the head of a response.
    pub fn read_response(self, line: Option<&str>) -> (r: ResponseStep)
        ensures
            r@ == response_decision(self, line_text(line)),
    {
        match self {
            ResponseProgress::Status => match line {
                None => broken("could not read HTTP status"),
                Some(l) => {
                    let chars = text::chars_of(l);
                    let parts = text::split_whitespace(chars.as_slice());
                    assert(parts@.len() == text::words(l@).len());
                    if parts.len() < 2 {
                        return broken("malformed HTTP status");
                    }
                    assert(text::words(l@)[1] == parts@[1]@);
                    let word = text::chars_of(parts[1].as_str());
                    match text::parse_number(word.as_slice(), u16::MAX as u64) {
                        Some(code) => ResponseStep::ReadLine(
                            ResponseProgress::Headers(code as u16, None),
                        ),
                        None => broken("malformed HTTP status"),
                    }
                },
            },
            ResponseProgress::Headers(code, length) => match line {
                None => broken("could not read response headers"),
                Some(l) => {
                    if text::same(l, "\r\n") || text::same(l, "\n") {
                        return ResponseStep::ReadBody(code, length);
                    }
                    let chars = text::chars_of(l);
                    match text::split_once(text::trim_end(chars.as_slice(), CharClass::Space), ':') {
                        None => broken("malformed HTTP response header"),
                        Some((name, value)) => {
                            let name = text::to_ascii_lowercase(name);
                            if text::same(name.as_str(), "content-length") {
                                let value = text::trim(value, CharClass::Space);
                                match text::parse_number(value, usize::MAX as u64) {
                                    Some(n) => ResponseStep::ReadLine(
                                        ResponseProgress::Headers(code, Some(n as usize)),
                                    ),
                                    None => broken("invalid response content length"),
                                }
                            } else {
                                ResponseStep::ReadLine(ResponseProgress::Headers(code, length))
                            }
                        },
                    }
                },
            },
        }
    }
}

/// The text of a response with that status, or why there is none. The body
/// is missing where it could not be read.
pub open spec fn response_text(
    code: u16,
    length: Option<usize>,
    body: Option<Seq<u8>>,
) -> Result<Seq<char>, Seq<char>> {
    match body {
        None => if length is Some {
            Err("short HTTP response body"@)
        } else {
            Err("could not read HTTP response body"@)
        },
        Some(b) => if code != 200 {
            Err("relay returned HTTP "@ + text::decimal(code as nat))
        } else {
            match bytes::utf8_text(b) {
                Some(s) => Ok(s),
                None => Err("relay response was not UTF-8"@),
            }
        },
    }
}

/// The bytes of an attempt to read a body.
pub open spec fn body_bytes(body: Option<Vec<u8>>) -> Option<Seq<u8>> {
    match body {
        Some(b) => Some(b@),
        None => None,
    }
}

/// Takes in an attempt to read the body of a response.
pub fn response_body(code: u16, length: Option<usize>, body: Option<Vec<u8>>) -> (r: Result<
    String,
    String,
>)
    ensures
        match r {
            Ok(s) => response_text(code, length, body_bytes(body)) == Ok::<_, Seq<char>>(s@),
            Err(message) => response_text(code, length, body_bytes(body)) == Err::<Seq<char>, _>(
                message@,
            ),
        },
{
    match body {
        None => match length {
            Some(_) => Err("short HTTP response body".to_owned()),
            None => Err("could not read HTTP response body".to_owned()),
        },
        Some(b) => {
            if code != 200 {
                let mut message = "relay returned HTTP ".to_owned();
                message.append(text::to_decimal(code as u64).as_str());
                return Err(message);
            }
            match bytes::to_text(b) {
                Some(s) => Ok(s),
                None => Err("relay response was not UTF-8".to_owned()),
            }
        },
    }
}

/// What is answered where a value lacks a field.
pub open spec fn missing_field(kind: Seq<char>, field: Seq<char>) -> Seq<char> {
    "relay response missing "@ + kind + " "@ + field
}

fn missing(kind: &str, field: &str) -> (r: String)
    ensures
        r@ == missing_field(kind@, field@),
{
    let mut message = "relay response missing ".to_owned();
    message.append(kind);
    message.append(" ");
    message.append(field);
    message
}

/// The string that a field holds.
pub fn required_string<'a>(value: &'a Json, field: &str) -> (r: Result<&'a str, String>)
    ensures
        match r {
            Ok(s) => value@.text_field(field@) == Some(s@),
            Err(message) => value@.text_field(field@) is None && message@ == missing_field(
                "string"@,
                field@,
            ),
        },
{
    match value.object(field) {
        Some(v) => match v.as_str() {
            Some(s) => Ok(s),
            None => Err(missing("string", field)),
        },
        None => Err(missing("string", field)),
    }
}

/// The integer that a field holds.
pub fn required_number(value: &Json, field: &str) -> (r: Result<u64, String>)
    ensures
        match r {
            Ok(n) => value@.integer_field(field@) == Some(n as nat),
            Err(message) => value@.integer_field(field@) is None && message@ == missing_field(
                "integer"@,
                field@,
            ),
        },
{
    match value.object(field) {
        Some(v) => match v.as_u64() {
            Some(n) => Ok(n),
            None => Err(missing("integer", field)),
        },
        None => Err(missing("integer", field)),
    }
}

/// The boolean that a field holds.
pub fn required_bool(value: &Json, field: &str) -> (r: Result<bool, String>)
    ensures
        match r {
            Ok(b) => value@.boolean_field(field@) == Some(b),
            Err(message) => value@.boolean_field(field@) is None && message@ == missing_field(
                "boolean"@,
                field@,
            ),
        },
{
    match value.object(field) {
        Some(v) => match v.as_bool() {
            Some(b) => Ok(b),
            None => Err(missing("boolean", field)),
        },
        None => Err(missing("boolean", field)),
    }
}

/// What was found where the cursor is kept.
pub enum CursorFile {
    /// No file.
    Missing,
    /// A file that cannot be read, with the reason.
    Unreadable(String),
    /// A file that is not JSON, with the reason.
    Malformed(String),
    Value(Json),
}

/// The cursor that a JSON value holds, or why it holds none.
pub open spec fn cursor_of(value: Value) -> Result<CursorValue, Seq<char>> {
    match (value.text_field("epoch"@), value.integer_field("next"@)) {
        (None, _) => Err(missing_field("string"@, "epoch"@)),
        (Some(_), None) => Err(missing_field("integer"@, "next"@)),
        (Some(epoch), Some(after)) => Ok(CursorValue { epoch, after }),
    }
}

/// The cursor to begin with: the one that was kept, or the beginning where
/// none was.
pub open spec fn loaded(path: Seq<char>, file: CursorFile) -> Result<CursorValue, Seq<char>> {
    match file {
        CursorFile::Missing => Ok(CursorValue { epoch: seq![], after: 0 }),
        CursorFile::Unreadable(error) => Err(
            "could not read cursor file "@ + path + ": "@ + error@,
        ),
        CursorFile::Malformed(error) => Err("invalid cursor file: "@ + error@),
        CursorFile::Value(value) => cursor_of(value@),
    }
}

/// Reads the cursor to begin with.
pub fn load_cursor(path: &str, file: CursorFile) -> (r: Result<Cursor, String>)
    ensures
        match r {
            Ok(cursor) => loaded(path@, file) == Ok::<_, Seq<char>>(cursor@),
            Err(message) => loaded(path@, file) == Err::<CursorValue, _>(message@),
        },
{
    match file {
        CursorFile::Missing => {
            let cursor = Cursor { epoch: String::new(), after: 0 };
            assert(cursor@.epoch =~= seq![]);
            Ok(cursor)
        },
        CursorFile::Unreadable(error) => {
            let mut message = "could not read cursor file ".to_owned();
            message.append(path);
            message.append(": ");
            message.append(error.as_str());
            Err(message)
        },
        CursorFile::Malformed(error) => {
            let mut message = "invalid cursor file: ".to_owned();
            message.append(error.as_str());
            Err(message)
        },
        CursorFile::Value(value) => {
            let epoch = match required_string(&value, "epoch") {
                Ok(s) => s.to_owned(),
                Err(message) => {
                    return Err(message);
                },
            };
            match required_number(&value, "next") {
                Ok(after) => Ok(Cursor { epoch, after }),
                Err(message) => Err(message),
            }
        },
    }
}

/// The JSON value that keeps a cursor.
pub open spec fn cursor_value(cursor: CursorValue) -> Value {
    Value::Object(
        seq![
            ("epoch"@, Value::Text(cursor.epoch)),
            ("next"@, Value::Number(text::decimal(cursor.after))),
        ],
    )
}

/// The JSON value to keep a cursor in.
pub fn save_cursor(cursor: &Cursor) -> (r: Json)
    ensures
        r@ == cursor_value(cursor@),
{
    let r = Json::object_of(
        vec![
            ("epoch".to_owned(), Json::String(cursor.epoch.clone())),
            ("next".to_owned(), Json::number(cursor.after)),
        ],
    );
    assert(r@->Object_0 =~= cursor_value(cursor@)->Object_0);
    r
}

/// The name of the file that a cursor is written to before it takes its
/// place.
pub open spec fn temporary_text(process: u32, cursor: CursorValue) -> Seq<char> {
    ".poller-"@ + text::decimal(process as nat) + "-"@ + text::decimal(cursor.after) + ".tmp"@
}

/// The name of the file that a cursor is written to before it takes its
/// place.
pub fn temporary_name(process: u32, cursor: &Cursor) -> (r: String)
    ensures
        r@ == temporary_text(process, cursor@),
{
    let mut name = ".poller-".to_owned();
    name.append(text::to_decimal(process as u64).as_str());
    name.append("-");
    name.append(text::to_decimal(cursor.after).as_str());
    name.append(".tmp");
    name
}

/// What an answer of the relay comes to.
pub struct Delivery {
    /// The relay began a new epoch.
    pub reset: bool,
    /// Events were lost because the relay retains only so many.
    pub lost: bool,
    /// The events to print, one object to a line.
    pub lines: Vec<Json>,
    /// The cursor to keep once they are printed, or why there is none.
    pub outcome: Result<Cursor, String>,
}

/// The mathematical counterpart of [`Delivery`].
pub struct Delivered {
    pub reset: bool,
    pub lost: bool,
    pub lines: Seq<Value>,
    pub outcome: Result<CursorValue, Seq<char>>,
}

impl View for Delivery {
    type V = Delivered;

    open spec fn view(&self) -> Delivered {
        Delivered {
            reset: self.reset,
            lost: self.lost,
            lines: item_values(self.lines@),
            outcome: match self.outcome {
                Ok(cursor) => Ok(cursor@),
                Err(message) => Err(message@),
            },
        }
    }
}

/// An event with the epoch that it came from.
pub open spec fn with_epoch(event: Value, epoch: Seq<char>) -> Value {
    match event {
        Value::Object(fields) => Value::Object(fields.push(("relay_epoch"@, Value::Text(epoch)))),
        _ => event,
    }
}

/// The number of objects that a list begins with.
pub open spec fn leading_objects(items: Seq<Value>) -> nat
    decreases items.len(),
{
    if items.len() == 0 || !(items[0] is Object) {
        0
    } else {
        1 + leading_objects(items.skip(1))
    }
}

/// The events of a list up to the first that is not an object, with their
/// epoch.
pub open spec fn event_lines(items: Seq<Value>, epoch: Seq<char>) -> Seq<Value> {
    items.take(leading_objects(items) as int).map_values(|event: Value| with_epoch(event, epoch))
}

/// What an answer comes to that lacks something.
pub open spec fn undelivered(message: Seq<char>) -> Delivered {
    Delivered { reset: false, lost: false, lines: seq![], outcome: Err(message) }
}

/// What an answer of the relay comes to.
pub open spec fn delivered(message: Value) -> Delivered {
    let epoch = message.text_field("epoch"@);
    let reset = message.boolean_field("reset"@);
    let lost = message.boolean_field("lost"@);
    let next = message.integer_field("next"@);
    if epoch is None {
        undelivered(missing_field("string"@, "epoch"@))
    } else if reset is None {
        undelivered(missing_field("boolean"@, "reset"@))
    } else if lost is None {
        undelivered(missing_field("boolean"@, "lost"@))
    } else if next is None {
        undelivered(missing_field("integer"@, "next"@))
    } else {
        match message.field("events"@) {
            Some(Value::Array(events)) => Delivered {
                reset: reset->0,
                lost: lost->0,
                lines: event_lines(events, epoch->0),
                outcome: if leading_objects(events) == events.len() {
                    Ok(CursorValue { epoch: epoch->0, after: next->0 })
                } else {
                    Err("relay response contains a non-object event"@)
                },
            },
            _ => Delivered {
                reset: reset->0,
                lost: lost->0,
                lines: seq![],
                outcome: Err("relay response missing events array"@),
            },
        }
    }
}

/// The objects that a list begins with end at the first item that is none.
proof fn lemma_leading_objects(items: Seq<Value>)
    ensures
        0 <= leading_objects(items) <= items.len(),
        forall|i: int| 0 <= i < leading_objects(items) ==> #[trigger] items[i] is Object,
        leading_objects(items) < items.len() ==> !(items[leading_objects(items) as int] is Object),
    decreases items.len(),
{
    if items.len() > 0 && items[0] is Object {
        let rest = items.skip(1);
        lemma_leading_objects(rest);
        assert forall|i: int| 0 <= i < leading_objects(items) implies #[trigger] items[i] is Object by {
            if i > 0 {
                assert(rest[i - 1] == items[i]);
            }
        }
    }
}

pub proof fn lemma_leading_objects_is(items: Seq<Value>, n: int)
    requires
        0 <= n <= items.len(),
        forall|i: int| 0 <= i < n ==> #[trigger] items[i] is Object,
        n < items.len() ==> !(items[n] is Object),
    ensures
        leading_objects(items) == n,
{
    lemma_leading_objects(items);
    let m = leading_objects(items) as int;
    if m < n {
        assert(items[m] is Object);
    }
    if n < m {
        assert(items[n] is Object);
    }
}

/// The events to print, and whether they are all of the list.
fn lines_of(events: &Vec<Json>, epoch: &str) -> (r: (Vec<Json>, bool))
    ensures
        item_values(r.0@) == event_lines(item_values(events@), epoch@),
        r.1 == (leading_objects(item_values(events@)) == events@.len()),
{
    let ghost all = item_values(events@);
    let mut out: Vec<Json> = Vec::new();
    let mut i: usize = 0;
    while i < events.len()
        invariant
            i <= events.len(),
            out.len() == i,
            all == item_values(events@),
            forall|j: int| 0 <= j < i ==> #[trigger] all[j] is Object,
            forall|j: int| 0 <= j < i ==> (#[trigger] out@[j])@ == with_epoch(all[j], epoch@),
        decreases events.len() - i,
    {
        assert(all[i as int] == events@[i as int]@);
        match events[i].as_fields() {
            Some(fields) => {
                let mut copy = copy_fields(fields);
                let ghost before = copy@;
                copy.push(("relay_epoch".to_owned(), Json::text(epoch)));
                proof {
                    assert(field_values(copy@) =~= field_values(before).push(
                        ("relay_epoch"@, Value::Text(epoch@)),
                    ));
                }
                out.push(Json::object_of(copy));
            },
            None => {
                proof {
                    lemma_leading_objects_is(all, i as int);
                    assert(item_values(out@) =~= event_lines(all, epoch@));
                }
                return (out, false);
            },
        }
        i = i + 1;
    }
    proof {
        lemma_leading_objects_is(all, i as int);
        assert(item_values(out@) =~= event_lines(all, epoch@));
    }
    (out, true)
}

fn nothing(message: String) -> (r: Delivery)
    ensures
        r@ == undelivered(message@),
{
    let r = Delivery { reset: false, lost: false, lines: Vec::new(), outcome: Err(message) };
    assert(r@.lines =~= seq![]);
    r
}

/// Takes in an answer of the relay.
pub fn deliver(message: &Json) -> (r: Delivery)
    ensures
        r@ == delivered(message@),
{
    let epoch = match required_string(message, "epoch") {
        Ok(s) => s,
        Err(error) => {
            return nothing(error);
        },
    };
    let reset = match required_bool(message, "reset") {
        Ok(b) => b,
        Err(error) => {
            return nothing(error);
        },
    };
    let lost = match required_bool(message, "lost") {
        Ok(b) => b,
        Err(error) => {
            return nothing(error);
        },
    };
    let next: u64 = match required_number(message, "next") {
        Ok(n) => n,
        Err(error) => {
            return nothing(error);
        },
    };
    let events = match message.object("events") {
        Some(v) => v.as_array(),
        None => None,
    };
    match events {
        Some(events) => {
            let (lines, all) = lines_of(events, epoch);
            let outcome = if all {
                Ok(Cursor { epoch: epoch.to_owned(), after: next })
            } else {
                Err("relay response contains a non-object event".to_owned())
            };
            Delivery { reset, lost, lines, outcome }
        },
        None => {
            let r = Delivery {
                reset,
                lost,
                lines: Vec::new(),
                outcome: Err("relay response missing events array".to_owned()),
            };
            assert(r@.lines =~= seq![]);
            r
        },
    }
}

/// What a round of polling came to.
pub enum Round {
    /// The relay could not be polled.
    Failed(String),
    /// The events were delivered and the cursor was kept, or it was not.
    Delivered(Result<(), String>),
}

/// What to do after a round of polling.
pub enum Next {
    Poll,
    /// Poll again after this many seconds.
    Retry(u64),
    Stop(Result<(), String>),
}

/// What follows from a round: the next one, or the end where only one was
/// asked for. A failed poll is tried again; a failed delivery ends it all.
pub open spec fn next_round(round: Round, once: bool) -> Next {
    match round {
        Round::Delivered(Err(error)) => Next::Stop(Err(error)),
        Round::Delivered(Ok(())) => if once {
            Next::Stop(Ok(()))
        } else {
            Next::Poll
        },
        Round::Failed(error) => if once {
            Next::Stop(Err(error))
        } else {
            Next::Retry(2)
        },
    }
}

/// Decides what to do after a round of polling.
pub fn run(round: Round, once: bool) -> (r: Next)
    ensures
        r == next_round(round, once),
{
    match round {
        Round::Delivered(Err(error)) => Next::Stop(Err(error)),
        Round::Delivered(Ok(())) => if once {
            Next::Stop(Ok(()))
        } else {
            Next::Poll
        },
        Round::Failed(error) => if once {
            Next::Stop(Err(error))
        } else {
            Next::Retry(2)
        },
    }
}

/// The report of a poll that failed.
pub open spec fn failed_poll_text(error: Seq<char>) -> Seq<char> {
    "poll failed: "@ + error + "; retrying in 2s"@
}

/// Reports a poll that failed.
pub fn failed_poll_report(error: &str) -> (r: String)
    ensures
        r@ == failed_poll_text(error@),
{
    let mut report = "poll failed: ".to_owned();
    report.append(error);
    report.append("; retrying in 2s");
    report
}

/// A cursor that was kept reads back as it was.
pub proof fn cursor_reads_back(cursor: CursorValue)
    requires
        cursor.after <= u64::MAX,
    ensures
        cursor_of(cursor_value(cursor)) == Ok::<_, Seq<char>>(cursor),
{
    reveal_strlit("epoch");
    reveal_strlit("next");
    assert("epoch"@.len() == 5 && "next"@.len() == 4);
    text::decimal_reads_back(cursor.after, u64::MAX as nat);
    let fields = cursor_value(cursor)->Object_0;
    assert(fields.skip(1)[0] == fields[1]);
    reveal_with_fuel(lookup, 3);
}

/// What the relay answers to a poll the poller delivers: all its events in
/// order, each with the epoch, and then the cursor that follows them.
pub proof fn answer_is_delivered(
    epoch: Seq<char>,
    reset: bool,
    lost: bool,
    events: Seq<Value>,
    next: nat,
)
    requires
        next <= u64::MAX,
        forall|i: int| 0 <= i < events.len() ==> #[trigger] events[i] is Object,
    ensures
        delivered(read_value(epoch, reset, lost, events, next)) == (Delivered {
            reset,
            lost,
            lines: events.map_values(|event: Value| with_epoch(event, epoch)),
            outcome: Ok(CursorValue { epoch, after: next }),
        }),
{
    reveal_strlit("epoch");
    reveal_strlit("reset");
    reveal_strlit("lost");
    reveal_strlit("events");
    reveal_strlit("next");
    assert("epoch"@.len() == 5 && "epoch"@[0] == 'e');
    assert("reset"@.len() == 5 && "reset"@[0] == 'r');
    assert("lost"@.len() == 4 && "lost"@[0] == 'l');
    assert("events"@.len() == 6);
    assert("next"@.len() == 4 && "next"@[0] == 'n');
    text::decimal_reads_back(next, u64::MAX as nat);
    let message = read_value(epoch, reset, lost, events, next);
    let fields = message->Object_0;
    assert(fields.skip(1).skip(1) =~= fields.skip(2));
    assert(fields.skip(2).skip(1) =~= fields.skip(3));
    assert(fields.skip(3).skip(1) =~= fields.skip(4));
    reveal_with_fuel(lookup, 6);
    assert(message.field("epoch"@) == Some(fields[0].1));
    assert(message.field("reset"@) == Some(fields[1].1));
    assert(message.field("lost"@) == Some(fields[2].1));
    assert(message.field("events"@) == Some(fields[3].1));
    assert(message.field("next"@) == Some(fields[4].1));
    lemma_leading_objects_is(events, events.len() as int);
    assert(events.take(events.len() as int) == events);
}

/// There is a new cursor only where every event of the answer is among the
/// lines to print; else the old one stands, and the events come again. Each
/// line is the event with the epoch as its last field.
pub proof fn cursor_moves_past_printed_events_only(message: Value)
    ensures
        delivered(message).outcome matches Ok(cursor) ==> {
            &&& message.field("events"@) matches Some(Value::Array(events))
            &&& delivered(message).lines.len() == events.len()
            &&& forall|i: int|
                0 <= i < events.len() ==> {
                    &&& events[i] matches Value::Object(fields)
                    &&& #[trigger] delivered(message).lines[i] == Value::Object(
                        fields.push(("relay_epoch"@, Value::Text(cursor.epoch))),
                    )
                }
            &&& message.text_field("epoch"@) == Some(cursor.epoch)
            &&& message.integer_field("next"@) == Some(cursor.after)
        },
{
    if let Some(Value::Array(events)) = message.field("events"@) {
        lemma_leading_objects(events);
    }
}

/// Every line to print is one JSON object, whatever the relay answered.
pub proof fn every_line_is_an_object(message: Value)
    ensures
        forall|i: int|
            0 <= i < delivered(message).lines.len() ==> #[trigger] delivered(message).lines[i] is Object,
{
    if let Some(Value::Array(events)) = message.field("events"@) {
        lemma_leading_objects(events);
    }
}

} // verus!
