//! What the answers of the relay promise.

use crate::http::{HeadValue, Refusal, RequestValue};
use crate::json::{Json, Value};
use crate::laws::http::{a_path_ends_at_the_question_mark, at_path};
use crate::laws::json::a_field_is_found_by_its_name;
use crate::relay::{
    bad_event, body_value, denial, dispatched, error_reply, error_value, is_event, read_value,
    refused, routed, stored_reply, Handled, Handling, Reply, ReplyValue, Route,
};
use crate::text::decimal;
use vstd::prelude::*;

verus! {

/// Whether a request bears a secret: its authorization is the word `Bearer`, a
/// space and the secret.
pub open spec fn bears(head: HeadValue, secret: Seq<char>) -> bool {
    head.headers.dom().contains("authorization"@) && head.headers["authorization"@] == "Bearer "@
        + secret
}

/// A request that bears the secret comes to its endpoint by its method and
/// its path, whatever its query; any other gets to none.
pub proof fn a_request_comes_to_its_endpoint(head: HeadValue, secret: Seq<char>)
    ensures
        !bears(head, secret) ==> routed(head, secret) == Route::Unauthorized,
        bears(head, secret) ==> {
            let post = head.method == "POST"@;
            let get = head.method == "GET"@;
            let events = at_path(head.target, "/v1/events"@);
            let exec = at_path(head.target, "/v1/exec"@);
            let jules = at_path(head.target, "/v1/jules"@);
            &&& routed(head, secret) == Route::PostEvent <==> post && events
            &&& routed(head, secret) == Route::GetEvents <==> get && events
            &&& routed(head, secret) == Route::Exec <==> post && exec
            &&& routed(head, secret) == Route::Jules <==> post && jules
            &&& routed(head, secret) != Route::Unauthorized
        },
{
    reveal_strlit("Bearer ");
    reveal_strlit("/v1/events");
    reveal_strlit("/v1/exec");
    reveal_strlit("/v1/jules");
    reveal_strlit("POST");
    reveal_strlit("GET");
    assert(("Bearer "@ + secret).len() >= 7);
    assert("POST"@.len() == 4 && "GET"@.len() == 3);
    assert("/v1/events"@.len() == 10 && "/v1/exec"@.len() == 8 && "/v1/jules"@.len() == 9);
    assert(!"/v1/events"@.contains('?') && !"/v1/exec"@.contains('?') && !"/v1/jules"@.contains('?'));
    a_path_ends_at_the_question_mark(head.target, "/v1/events"@);
    a_path_ends_at_the_question_mark(head.target, "/v1/exec"@);
    a_path_ends_at_the_question_mark(head.target, "/v1/jules"@);
}

/// What a request is handed on with: its body, or its target where events are
/// read. Without the secret, or without an endpoint, it is answered.
pub proof fn a_request_is_handed_on_whole(request: RequestValue, secret: Seq<char>)
    ensures
        match routed(request.head, secret) {
            Route::PostEvent => dispatched(request, secret) == Handled::PostEvent(request.body),
            Route::GetEvents => dispatched(request, secret) == Handled::GetEvents(
                request.head.target,
            ),
            Route::Exec => dispatched(request, secret) == Handled::Exec(request.body),
            Route::Jules => dispatched(request, secret) == Handled::Jules(request.body),
            Route::Unauthorized => dispatched(request, secret) == Handled::Reply(
                ReplyValue {
                    status: 401,
                    body: Value::Object(seq![("error"@, Value::Text("unauthorized"@))]),
                },
            ),
            Route::NotFound => dispatched(request, secret) == Handled::Reply(
                ReplyValue {
                    status: 404,
                    body: Value::Object(seq![("error"@, Value::Text("not_found"@))]),
                },
            ),
        },
{
}

/// A request that could not be read is told what is wrong, in its own words;
/// an execution request is denied without a word and without an id.
pub proof fn an_unread_request_is_answered(message: Seq<char>)
    ensures
        refused(Refusal::Message(message)) == (ReplyValue {
            status: 400,
            body: Value::Object(seq![("error"@, Value::Text(message))]),
        }),
        refused(Refusal::ExecDenied) == (ReplyValue {
            status: 200,
            body: Value::Object(
                seq![("id"@, Value::Text(Seq::<char>::empty())), ("error"@, Value::Text("denied"@))],
            ),
        }),
{
}

/// A value is an event wherever its id stands among its fields, as long as the
/// first field of that name is a text that is not empty.
pub proof fn an_event_has_an_id_somewhere(fields: Seq<(Seq<char>, Value)>, i: int)
    requires
        0 <= i < fields.len(),
        fields[i].0 == "id"@,
        forall|j: int| 0 <= j < i ==> (#[trigger] fields[j]).0 != "id"@,
    ensures
        is_event(Value::Object(fields)) <==> (fields[i].1 matches Value::Text(id) && id.len() > 0),
{
    a_field_is_found_by_its_name(fields, "id"@, i);
}

/// What is no object, or has no id, is no event.
pub proof fn without_an_id_there_is_no_event(value: Value)
    ensures
        !(value is Object) ==> !is_event(value),
        value matches Value::Object(fields) ==> (forall|j: int|
            0 <= j < fields.len() ==> (#[trigger] fields[j]).0 != "id"@) ==> !is_event(value),
        bad_event() == (ReplyValue {
            status: 400,
            body: Value::Object(
                seq![("error"@, Value::Text("body_must_be_an_object_with_nonempty_id"@))],
            ),
        }),
{
    if let Value::Object(fields) = value {
        if forall|j: int| 0 <= j < fields.len() ==> (#[trigger] fields[j]).0 != "id"@ {
            a_field_is_found_by_its_name(fields, "id"@, fields.len() as int);
        }
    }
}

/// A stored event is answered with what is stored and whether it was there
/// before; one that was not stored with a failure.
pub proof fn a_stored_event_is_answered_as_stored(event: Value, duplicate: bool)
    ensures
        stored_reply(Some((event, duplicate))) == (ReplyValue {
            status: if duplicate {
                200
            } else {
                201
            },
            body: Value::Object(seq![("duplicate"@, Value::Bool(duplicate)), ("event"@, event)]),
        }),
        stored_reply(None) == (ReplyValue {
            status: 500,
            body: Value::Object(seq![("error"@, Value::Text("could_not_persist_event"@))]),
        }),
{
}

/// The answer to a poll holds all that was read: every event, in order, and
/// the number that the next poll asks after.
pub proof fn an_answer_holds_all_that_was_read(
    epoch: Seq<char>,
    reset: bool,
    lost: bool,
    events: Seq<Value>,
    next: nat,
)
    ensures
        read_value(epoch, reset, lost, events, next) == Value::Object(
            seq![
                ("epoch"@, Value::Text(epoch)),
                ("reset"@, Value::Bool(reset)),
                ("lost"@, Value::Bool(lost)),
                ("events"@, Value::Array(events)),
                ("next"@, Value::Number(decimal(next))),
            ],
        ),
{
}

/// An error names what is wrong, a denial the id and nothing else.
pub proof fn errors_and_denials_hold_their_words(status: u16, words: Seq<char>)
    ensures
        error_value(words) == Value::Object(seq![("error"@, Value::Text(words))]),
        error_reply(status, words) == (ReplyValue {
            status,
            body: Value::Object(seq![("error"@, Value::Text(words))]),
        }),
        denial(words) == Value::Object(
            seq![("id"@, Value::Text(words)), ("error"@, Value::Text("denied"@))],
        ),
{
}

/// Replies and what a request is handed on with show what they hold.
pub proof fn replies_show_what_they_hold(reply: Reply, handling: Handling, body: Option<Json>)
    ensures
        reply@ == (ReplyValue { status: reply.status, body: reply.body@ }),
        match handling {
            Handling::Reply(r) => handling@ == Handled::Reply(r@),
            Handling::PostEvent(b) => handling@ == Handled::PostEvent(b@),
            Handling::GetEvents(t) => handling@ == Handled::GetEvents(t@),
            Handling::Exec(b) => handling@ == Handled::Exec(b@),
            Handling::Jules(b) => handling@ == Handled::Jules(b@),
        },
        match body {
            Some(value) => body_value(body) == value@,
            None => body_value(body) == Value::Null,
        },
{
}

} // verus!
