//! What the relay answers.

use crate::bytes;
use crate::http::{path_of, HeadValue, ReadRequestError, Refusal, Request, RequestValue};
use crate::json::{item_values, Json, Value};
use crate::jules::{parse_request, requested, ExecRequest};
use crate::query;
use crate::text;
use vstd::prelude::*;
use vstd::utf8::encode_utf8_decode_utf8;

verus! {

/// A status code and the JSON value that goes with it.
pub struct Reply {
    pub status: u16,
    pub body: Json,
}

/// The mathematical counterpart of [`Reply`].
pub struct ReplyValue {
    pub status: u16,
    pub body: Value,
}

impl View for Reply {
    type V = ReplyValue;

    open spec fn view(&self) -> ReplyValue {
        ReplyValue { status: self.status, body: self.body@ }
    }
}

/// The value that reports an error.
pub open spec fn error_value(message: Seq<char>) -> Value {
    Value::Object(seq![("error"@, Value::Text(message))])
}

/// The reply that reports an error.
pub open spec fn error_reply(status: u16, message: Seq<char>) -> ReplyValue {
    ReplyValue { status, body: error_value(message) }
}

/// Reports an error.
pub fn error(message: &str) -> (r: Json)
    ensures
        r@ == error_value(message@),
{
    let r = Json::object_of(vec![("error".to_owned(), Json::String(message.to_owned()))]);
    assert(r@->Object_0 =~= error_value(message@)->Object_0);
    r
}

fn failure(status: u16, message: &str) -> (r: Reply)
    ensures
        r@ == error_reply(status, message@),
{
    Reply { status, body: error(message) }
}

/// The answer to an execution request that is not allowed. It tells the
/// client nothing but the id that it sent.
pub open spec fn denial(id: Seq<char>) -> Value {
    Value::Object(seq![("id"@, Value::Text(id)), ("error"@, Value::Text("denied"@))])
}

/// Denies an execution request.
pub fn denial_json(id: &str) -> (r: Json)
    ensures
        r@ == denial(id@),
{
    let r = Json::object_of(
        vec![
            ("id".to_owned(), Json::String(id.to_owned())),
            ("error".to_owned(), Json::String("denied".to_owned())),
        ],
    );
    assert(r@->Object_0 =~= denial(id@)->Object_0);
    r
}

/// Denies an execution request, with the status of any other answer to one.
pub fn denial_response(id: &str) -> (r: (u16, Json))
    ensures
        r.0 == 200,
        r.1@ == denial(id@),
{
    (200, denial_json(id))
}

/// The value of the `Authorization` header that a secret asks for.
pub open spec fn bearer(secret: Seq<char>) -> Seq<char> {
    "Bearer "@ + secret
}

/// Accepts exactly the bearer token that holds the secret. All bytes of the
/// expected token are compared, whatever was supplied.
pub fn authorized(supplied: &str, secret: &str) -> (r: bool)
    ensures
        r == (supplied@ == bearer(secret@)),
{
    let mut expected = "Bearer ".to_owned();
    expected.append(secret);
    let left = expected.as_str().as_bytes();
    let right = supplied.as_bytes();
    let m: usize = left.len();
    let n: usize = right.len();
    let mut difference: usize = m ^ n;
    assert((m ^ n == 0) <==> m == n) by (bit_vector);
    let mut i: usize = 0;
    while i < left.len()
        invariant
            i <= left.len(),
            m == left@.len(),
            n == right@.len(),
            difference == 0 <==> (m == n && forall|j: int| 0 <= j < i ==> left@[j] == right@[j]),
        decreases left.len() - i,
    {
        let a: u8 = left[i];
        let b: u8 = if i < right.len() {
            right[i]
        } else {
            0
        };
        let x: usize = (a ^ b) as usize;
        let d: usize = difference;
        assert((a ^ b == 0) <==> a == b) by (bit_vector);
        assert((d | x == 0) <==> (d == 0 && x == 0)) by (bit_vector);
        difference = d | x;
        i = i + 1;
    }
    proof {
        if difference == 0 {
            assert(left@ =~= right@);
            encode_utf8_decode_utf8(expected@);
            encode_utf8_decode_utf8(supplied@);
        }
    }
    difference == 0
}

/// What a request asks for.
#[derive(Debug, PartialEq, Eq, Clone, Copy)]
pub enum Route {
    Unauthorized,
    PostEvent,
    GetEvents,
    Exec,
    Jules,
    NotFound,
}

/// The `Authorization` header of a request, empty where there is none.
pub open spec fn authorization(head: HeadValue) -> Seq<char> {
    if head.headers.contains_key("authorization"@) {
        head.headers["authorization"@]
    } else {
        seq![]
    }
}

/// What a request asks for: nothing at all unless it bears the secret.
pub open spec fn routed(head: HeadValue, secret: Seq<char>) -> Route {
    let path = path_of(head.target);
    if authorization(head) != bearer(secret) {
        Route::Unauthorized
    } else if head.method == "POST"@ && path == "/v1/events"@ {
        Route::PostEvent
    } else if head.method == "GET"@ && path == "/v1/events"@ {
        Route::GetEvents
    } else if head.method == "POST"@ && path == "/v1/exec"@ {
        Route::Exec
    } else if head.method == "POST"@ && path == "/v1/jules"@ {
        Route::Jules
    } else {
        Route::NotFound
    }
}

/// Tells what a request asks for.
pub fn route(request: &Request, secret: &str) -> (r: Route)
    ensures
        r == routed(request@.head, secret@),
{
    let head = &request.head;
    let supplied = match head.headers.get("authorization") {
        Some(value) => {
            assert(head@.headers["authorization"@] == value@);
            value.as_str()
        },
        None => {
            proof {
                text::lemma_empty_literal();
            }
            ""
        },
    };
    if !authorized(supplied, secret) {
        return Route::Unauthorized;
    }
    let target = text::chars_of(head.target.as_str());
    let path = text::text_before(target.as_slice(), '?');
    let post = text::same(head.method.as_str(), "POST");
    let get = text::same(head.method.as_str(), "GET");
    if post && text::is_text(path, "/v1/events") {
        Route::PostEvent
    } else if get && text::is_text(path, "/v1/events") {
        Route::GetEvents
    } else if post && text::is_text(path, "/v1/exec") {
        Route::Exec
    } else if post && text::is_text(path, "/v1/jules") {
        Route::Jules
    } else {
        Route::NotFound
    }
}

/// What to do about a request.
pub enum Handling {
    /// Answer it.
    Reply(Reply),
    /// Store the event in this body.
    PostEvent(Vec<u8>),
    /// Read events as this target asks.
    GetEvents(String),
    /// Execute what this body asks for, as the policy allows.
    Exec(Vec<u8>),
    /// Execute the `jules` command as this body asks.
    Jules(Vec<u8>),
}

/// The mathematical counterpart of [`Handling`].
pub enum Handled {
    Reply(ReplyValue),
    PostEvent(Seq<u8>),
    GetEvents(Seq<char>),
    Exec(Seq<u8>),
    Jules(Seq<u8>),
}

impl View for Handling {
    type V = Handled;

    open spec fn view(&self) -> Handled {
        match self {
            Handling::Reply(reply) => Handled::Reply(reply@),
            Handling::PostEvent(body) => Handled::PostEvent(body@),
            Handling::GetEvents(target) => Handled::GetEvents(target@),
            Handling::Exec(body) => Handled::Exec(body@),
            Handling::Jules(body) => Handled::Jules(body@),
        }
    }
}

/// The answer to a request that could not be read.
pub open spec fn refused(error: Refusal) -> ReplyValue {
    match error {
        Refusal::ExecDenied => ReplyValue { status: 200, body: denial(seq![]) },
        Refusal::Message(message) => error_reply(400, message),
    }
}

/// What to do about a request that was read.
pub open spec fn dispatched(request: RequestValue, secret: Seq<char>) -> Handled {
    match routed(request.head, secret) {
        Route::Unauthorized => Handled::Reply(error_reply(401, "unauthorized"@)),
        Route::PostEvent => Handled::PostEvent(request.body),
        Route::GetEvents => Handled::GetEvents(request.head.target),
        Route::Exec => Handled::Exec(request.body),
        Route::Jules => Handled::Jules(request.body),
        Route::NotFound => Handled::Reply(error_reply(404, "not_found"@)),
    }
}

/// Answers a request that could not be read.
pub fn refuse(error: ReadRequestError) -> (r: Reply)
    ensures
        r@ == refused(error@),
{
    match error {
        ReadRequestError::ExecDenied => {
            proof {
                text::lemma_empty_literal();
            }
            let (status, body) = denial_response("");
            Reply { status, body }
        },
        ReadRequestError::Message(message) => failure(400, message.as_str()),
    }
}

/// Decides what to do about a request, whether it could be read or not.
pub fn handle(outcome: Result<Request, ReadRequestError>, secret: &str) -> (r: Handling)
    ensures
        r@ == (match outcome {
            Ok(request) => dispatched(request@, secret@),
            Err(error) => Handled::Reply(refused(error@)),
        }),
{
    let request = match outcome {
        Ok(request) => request,
        Err(error) => {
            return Handling::Reply(refuse(error));
        },
    };
    match route(&request, secret) {
        Route::Unauthorized => Handling::Reply(failure(401, "unauthorized")),
        Route::PostEvent => Handling::PostEvent(request.body),
        Route::GetEvents => Handling::GetEvents(request.head.target),
        Route::Exec => Handling::Exec(request.body),
        Route::Jules => Handling::Jules(request.body),
        Route::NotFound => Handling::Reply(failure(404, "not_found")),
    }
}

/// The answer to an event that cannot be stored because of what it is.
pub open spec fn bad_event() -> ReplyValue {
    error_reply(400, "body_must_be_an_object_with_nonempty_id"@)
}

/// Whether a value is an event: an object whose id is a string that is not
/// empty.
pub open spec fn is_event(value: Value) -> bool {
    &&& value is Object
    &&& value.text_field("id"@) matches Some(id) && id.len() > 0
}

/// Reads the body of a request that posts an event as text.
pub fn post_text(body: Vec<u8>) -> (r: Result<String, Reply>)
    ensures
        match r {
            Ok(s) => bytes::utf8_text(body@) == Some(s@),
            Err(reply) => bytes::utf8_text(body@) is None && reply@ == bad_event(),
        },
{
    match bytes::to_text(body) {
        Some(s) => Ok(s),
        None => Err(failure(400, "body_must_be_an_object_with_nonempty_id")),
    }
}

/// Accepts a posted value as an event; there is none where the body is not
/// JSON.
pub fn post(parsed: Option<Json>) -> (r: Result<Json, Reply>)
    ensures
        match r {
            Ok(event) => parsed == Some(event) && is_event(event@),
            Err(reply) => (parsed matches Some(value) ==> !is_event(value@)) && reply@
                == bad_event(),
        },
{
    match parsed {
        Some(value) => {
            let named = match value.object("id") {
                Some(id) => match id.as_str() {
                    Some(s) => !s.is_empty(),
                    None => false,
                },
                None => false,
            };
            let object = match &value {
                Json::Object(_) => true,
                _ => false,
            };
            if named && object {
                Ok(value)
            } else {
                Err(failure(400, "body_must_be_an_object_with_nonempty_id"))
            }
        },
        None => Err(failure(400, "body_must_be_an_object_with_nonempty_id")),
    }
}

/// The answer to an event: the stored event and whether it was there before,
/// or that it could not be stored.
pub open spec fn stored_reply(stored: Option<(Value, bool)>) -> ReplyValue {
    match stored {
        Some((event, duplicate)) => ReplyValue {
            status: if duplicate {
                200
            } else {
                201
            },
            body: Value::Object(
                seq![("duplicate"@, Value::Bool(duplicate)), ("event"@, event)],
            ),
        },
        None => error_reply(500, "could_not_persist_event"@),
    }
}

/// Answers a request that posted an event.
pub fn post_reply(stored: Option<(Json, bool)>) -> (r: Reply)
    ensures
        r@ == stored_reply(
            match stored {
                Some((event, duplicate)) => Some((event@, duplicate)),
                None => None,
            },
        ),
{
    match stored {
        Some((event, duplicate)) => {
            let ghost shown = event@;
            let body = Json::object_of(
                vec![
                    ("duplicate".to_owned(), Json::Bool(duplicate)),
                    ("event".to_owned(), event),
                ],
            );
            assert(body@->Object_0 =~= seq![
                ("duplicate"@, Value::Bool(duplicate)),
                ("event"@, shown),
            ]);
            Reply {
                status: if duplicate {
                    200
                } else {
                    201
                },
                body,
            }
        },
        None => failure(500, "could_not_persist_event"),
    }
}

/// What a read of the stored events gives.
pub struct ReadResult {
    pub epoch: String,
    pub reset: bool,
    pub lost: bool,
    pub events: Vec<Json>,
    pub next: u64,
}

/// The answer to a poll.
pub open spec fn read_value(
    epoch: Seq<char>,
    reset: bool,
    lost: bool,
    events: Seq<Value>,
    next: nat,
) -> Value {
    Value::Object(
        seq![
            ("epoch"@, Value::Text(epoch)),
            ("reset"@, Value::Bool(reset)),
            ("lost"@, Value::Bool(lost)),
            ("events"@, Value::Array(events)),
            ("next"@, Value::Number(text::decimal(next))),
        ],
    )
}

/// The answer to a poll.
pub fn read_json(result: ReadResult) -> (r: Json)
    ensures
        r@ == read_value(
            result.epoch@,
            result.reset,
            result.lost,
            item_values(result.events@),
            result.next as nat,
        ),
{
    let ghost shown = read_value(
        result.epoch@,
        result.reset,
        result.lost,
        item_values(result.events@),
        result.next as nat,
    );
    let r = Json::object_of(
        vec![
            ("epoch".to_owned(), Json::String(result.epoch)),
            ("reset".to_owned(), Json::Bool(result.reset)),
            ("lost".to_owned(), Json::Bool(result.lost)),
            ("events".to_owned(), Json::array_of(result.events)),
            ("next".to_owned(), Json::number(result.next)),
        ],
    );
    assert(r@->Object_0 =~= shown->Object_0);
    r
}

/// Reads what a poll asks for, or answers that it asks for nothing.
pub fn get(target: &str) -> (r: Result<(u64, u64, String), Reply>)
    ensures
        match r {
            Ok((after, timeout, epoch)) => query::polled(target@) == Ok::<_, Seq<char>>(
                (after as nat, timeout as nat, epoch@),
            ),
            Err(reply) => query::polled(target@) matches Err(message) && reply@ == error_reply(
                400,
                message,
            ),
        },
{
    match query::get_query(target) {
        Ok(q) => Ok(q),
        Err(message) => Err(failure(400, message.as_str())),
    }
}

/// Answers a poll with what was read, if it could be.
pub fn get_reply(result: Option<ReadResult>) -> (r: Reply)
    ensures
        match result {
            Some(read) => r.status == 200 && r.body@ == read_value(
                read.epoch@,
                read.reset,
                read.lost,
                item_values(read.events@),
                read.next as nat,
            ),
            None => r@ == error_reply(500, "could_not_read_events"@),
        },
{
    match result {
        Some(read) => Reply { status: 200, body: read_json(read) },
        None => failure(500, "could_not_read_events"),
    }
}

/// The value that the body of a request stands for: none where it is not
/// JSON.
pub open spec fn body_value(parsed: Option<Json>) -> Value {
    match parsed {
        Some(value) => value@,
        None => Value::Null,
    }
}

/// Accepts a request to execute the `jules` command, or answers why it is
/// not accepted; there is nothing parsed where the body is not JSON.
pub fn jules_request(parsed: Option<Json>) -> (r: Result<ExecRequest, Reply>)
    ensures
        match r {
            Ok(request) => requested(body_value(parsed)) == Ok::<_, Seq<char>>(
                (request.id@, text::texts(request.args@)),
            ),
            Err(reply) => requested(body_value(parsed)) matches Err(message) && reply@
                == error_reply(400, message),
        },
{
    let body = match parsed {
        Some(value) => value,
        None => Json::Null,
    };
    match parse_request(&body) {
        Ok(request) => Ok(request),
        Err(message) => Err(failure(400, message.as_str())),
    }
}

/// A request that does not bear the secret is answered with a refusal and
/// has no other effect, whatever it asks for.
pub proof fn nothing_without_the_secret(request: RequestValue, secret: Seq<char>)
    ensures
        authorization(request.head) != bearer(secret) ==> dispatched(request, secret)
            == Handled::Reply(error_reply(401, "unauthorized"@)),
{
}

/// The body of a request, and its target where events are read, come through
/// as they were sent.
pub proof fn requests_come_through(request: RequestValue, secret: Seq<char>)
    ensures
        match dispatched(request, secret) {
            Handled::Reply(reply) => reply.status == 401 || reply.status == 404,
            Handled::GetEvents(target) => target == request.head.target,
            Handled::PostEvent(body) => body == request.body,
            Handled::Exec(body) => body == request.body,
            Handled::Jules(body) => body == request.body,
        },
{
}

/// A stored event is reported as new with status 201 and as a duplicate with
/// status 200, with the event as it is stored.
pub proof fn stored_events_are_reported(event: Value, duplicate: bool)
    ensures
        stored_reply(Some((event, duplicate))).status == (if duplicate {
            200u16
        } else {
            201u16
        }),
        stored_reply(Some((event, duplicate))).body.field("event"@) == Some(event),
        stored_reply(Some((event, duplicate))).body.boolean_field("duplicate"@) == Some(duplicate),
{
    reveal_strlit("event");
    reveal_strlit("duplicate");
    assert("event"@.len() == 5 && "duplicate"@.len() == 9);
    let fields = seq![("duplicate"@, Value::Bool(duplicate)), ("event"@, event)];
    assert(fields.skip(1)[0] == ("event"@, event));
    reveal_with_fuel(crate::json::lookup, 3);
}

} // verus!
