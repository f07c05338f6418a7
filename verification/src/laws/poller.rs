//! What polling promises.

use crate::bytes::utf8_text;
use crate::exchange::lemma_header;
use crate::json::{item_values, Value};
use crate::laws::text::{the_first_cut_parts_a_text, trimming_takes_off_the_ends};
use crate::poller::{
    body_bytes, connect_failure, cursor_of, cursor_value, delivered, failed_poll_text, loaded,
    missing_field, next_round, planned, poll_target, response_decision, response_text,
    temporary_text, write_failure, Cursor, CursorFile, CursorValue, Delivered, Delivery, Next,
    PlanValue, PollPlan, Received, ResponseProgress, ResponseStep, Round,
};
use crate::query::encoded;
use crate::scan::free_of;
use crate::text::{decimal, first_cut, lowered, number, trimmed, trimmed_end, words, CharClass};
use crate::url::{url_parts, UrlParts};
use vstd::prelude::*;

verus! {

/// A poll goes to the relay itself, or to the proxy where there is one, and
/// waits fifteen seconds longer than the relay may hold it open. But for the
/// target, which names the relay, it is the same request either way.
pub proof fn a_poll_goes_to_the_relay_or_the_proxy(
    relay: UrlParts,
    url: Seq<char>,
    secret: Seq<char>,
    cursor: CursorValue,
    timeout: nat,
)
    ensures
        ({
            let target = poll_target(relay.base_path, cursor, timeout);
            let rest = " HTTP/1.1\r\nHost: "@ + relay.authority + "\r\nAuthorization: Bearer "@
                + secret + "\r\nAccept: application/json\r\nConnection: close\r\n\r\n"@;
            &&& planned(relay, None, secret, cursor, timeout) matches Ok(plan)
            &&& !plan.proxied
            &&& plan.host == relay.host
            &&& plan.port == relay.port
            &&& plan.read_timeout == timeout + 15
            &&& plan.write_timeout == 15
            &&& plan.request == "GET "@ + target + rest
            &&& url_parts(url) matches Err(message) ==> planned(
                relay,
                Some(url),
                secret,
                cursor,
                timeout,
            ) == Err::<PlanValue, _>(message)
            &&& url_parts(url) matches Ok(via) ==> (planned(
                relay,
                Some(url),
                secret,
                cursor,
                timeout,
            ) matches Ok(p) && p.proxied && p.host == via.host && p.port == via.port
                && p.read_timeout == timeout + 15 && p.write_timeout == 15 && p.request == "GET "@
                + ("http://"@ + relay.authority + target) + rest)
        }),
{
    let target = poll_target(relay.base_path, cursor, timeout);
    let whole = "http://"@ + relay.authority + target;
    let rest = " HTTP/1.1\r\nHost: "@ + relay.authority + "\r\nAuthorization: Bearer "@ + secret
        + "\r\nAccept: application/json\r\nConnection: close\r\n\r\n"@;
    assert(crate::poller::poll_text(target, relay.authority, secret) =~= "GET "@ + target + rest);
    assert(crate::poller::poll_text(whole, relay.authority, secret) =~= "GET "@ + whole + rest);
}

/// The target of a poll holds the cursor and the time.
pub proof fn a_target_holds_the_cursor(base_path: Seq<char>, cursor: CursorValue, timeout: nat)
    ensures
        poll_target(base_path, cursor, timeout) == base_path + "v1/events?after="@ + decimal(
            cursor.after,
        ) + "&epoch="@ + encoded(cursor.epoch) + "&timeout="@ + decimal(timeout),
{
}

/// The status of a response is the second word of its first line.
pub proof fn the_second_word_is_the_status(line: Seq<char>)
    ensures
        words(line).len() >= 2 && number(words(line)[1], 65535) is Some ==> response_decision(
            ResponseProgress::Status,
            Some(line),
        ) == Received::ReadLine(
            ResponseProgress::Headers(number(words(line)[1], 65535)->0 as u16, None),
        ),
        words(line).len() < 2 || number(words(line)[1], 65535) is None ==> response_decision(
            ResponseProgress::Status,
            Some(line),
        ) == Received::Failed("malformed HTTP status"@),
        response_decision(ResponseProgress::Status, None) == Received::Failed(
            "could not read HTTP status"@,
        ),
{
}

/// Of the headers of a response only the length of the body counts, whatever
/// the case of its name, and the later one over the earlier.
pub proof fn only_the_length_counts(
    code: u16,
    length: Option<usize>,
    name: Seq<char>,
    value: Seq<char>,
)
    requires
        !name.contains(':'),
    ensures
        ({
            let read = response_decision(
                ResponseProgress::Headers(code, length),
                Some(name + seq![':'] + value),
            );
            let n = number(trimmed(value, CharClass::Space), usize::MAX as nat);
            &&& lowered(name) != "content-length"@ ==> read == Received::ReadLine(
                ResponseProgress::Headers(code, length),
            )
            &&& lowered(name) == "content-length"@ && n is Some ==> read == Received::ReadLine(
                ResponseProgress::Headers(code, Some(n->0 as usize)),
            )
            &&& lowered(name) == "content-length"@ && n is None ==> read == Received::Failed(
                "invalid response content length"@,
            )
        }),
{
    assert(free_of(name, ':')) by {
        assert forall|i: int| 0 <= i < name.len() implies #[trigger] name[i] != ':' by {
            assert(name.contains(name[i]));
        }
    }
    lemma_header(name, value);
}

/// The blank line ends the head of a response; a line without a colon is
/// malformed.
pub proof fn the_blank_line_ends_the_head(code: u16, length: Option<usize>, line: Seq<char>)
    ensures
        line == seq!['\r', '\n'] || line == seq!['\n'] ==> response_decision(
            ResponseProgress::Headers(code, length),
            Some(line),
        ) == Received::ReadBody(code, length),
        !line.contains(':') && line != seq!['\r', '\n'] && line != seq!['\n'] ==> response_decision(
            ResponseProgress::Headers(code, length),
            Some(line),
        ) == Received::Failed("malformed HTTP response header"@),
        response_decision(ResponseProgress::Headers(code, length), None) == Received::Failed(
            "could not read response headers"@,
        ),
{
    reveal_strlit("\r\n");
    reveal_strlit("\n");
    assert("\r\n"@ =~= seq!['\r', '\n']);
    assert("\n"@ =~= seq!['\n']);
    if !line.contains(':') {
        let t = trimmed_end(line, CharClass::Space);
        trimming_takes_off_the_ends(line, CharClass::Space);
        the_first_cut_parts_a_text(t, ':');
        if let Some((a, _)) = first_cut(t, ':') {
            assert(t[a.len() as int] == ':');
            let r = choose|r: Seq<char>| line == #[trigger] (t + r);
            assert(line[a.len() as int] == ':');
        }
    }
}

/// A response with status 200 gives its whole body as text; any other status
/// is reported, and so is a body that is cut short or no text.
pub proof fn a_good_response_gives_its_body(code: u16, length: Option<usize>, body: Seq<u8>)
    ensures
        code == 200 ==> response_text(code, length, Some(body)) == (match utf8_text(body) {
            Some(s) => Ok(s),
            None => Err("relay response was not UTF-8"@),
        }),
        code != 200 ==> response_text(code, length, Some(body)) == Err::<Seq<char>, _>(
            "relay returned HTTP "@ + decimal(code as nat),
        ),
        length is Some ==> response_text(code, length, None) == Err::<Seq<char>, _>(
            "short HTTP response body"@,
        ),
        length is None ==> response_text(code, length, None) == Err::<Seq<char>, _>(
            "could not read HTTP response body"@,
        ),
{
}

/// A cursor is read from its two fields, wherever they stand.
pub proof fn a_cursor_is_read_from_its_fields(value: Value, epoch: Seq<char>, after: nat)
    ensures
        value.text_field("epoch"@) == Some(epoch) && value.integer_field("next"@) == Some(after)
            ==> cursor_of(value) == Ok::<_, Seq<char>>(CursorValue { epoch, after }),
        value.text_field("epoch"@) is None ==> cursor_of(value) == Err::<CursorValue, _>(
            "relay response missing "@ + "string"@ + " "@ + "epoch"@,
        ),
        value.text_field("epoch"@) is Some && value.integer_field("next"@) is None ==> cursor_of(
            value,
        ) == Err::<CursorValue, _>("relay response missing "@ + "integer"@ + " "@ + "next"@),
        cursor_value(CursorValue { epoch, after }) == Value::Object(
            seq![("epoch"@, Value::Text(epoch)), ("next"@, Value::Number(decimal(after)))],
        ),
{
}

/// The poller begins where its file says, or at the beginning without a file.
pub proof fn the_poller_begins_where_its_file_says(path: Seq<char>, file: CursorFile)
    ensures
        match file {
            CursorFile::Missing => loaded(path, file) matches Ok(c) && c.epoch.len() == 0 && c.after
                == 0,
            CursorFile::Unreadable(error) => loaded(path, file) == Err::<CursorValue, _>(
                "could not read cursor file "@ + path + ": "@ + error@,
            ),
            CursorFile::Malformed(error) => loaded(path, file) == Err::<CursorValue, _>(
                "invalid cursor file: "@ + error@,
            ),
            CursorFile::Value(value) => loaded(path, file) == cursor_of(value@),
        },
{
}

/// An answer with all its fields is delivered: the events up to the first that
/// is no object, each with its own fields and then the epoch, and the cursor
/// where all of them are objects.
pub proof fn an_answer_is_delivered_by_its_fields(
    message: Value,
    epoch: Seq<char>,
    reset: bool,
    lost: bool,
    next: nat,
    events: Seq<Value>,
    n: int,
)
    requires
        message.text_field("epoch"@) == Some(epoch),
        message.boolean_field("reset"@) == Some(reset),
        message.boolean_field("lost"@) == Some(lost),
        message.integer_field("next"@) == Some(next),
        message.field("events"@) == Some(Value::Array(events)),
        0 <= n <= events.len(),
        forall|i: int| 0 <= i < n ==> #[trigger] events[i] is Object,
        n < events.len() ==> !(events[n] is Object),
    ensures
        ({
            let d = delivered(message);
            &&& d.reset == reset
            &&& d.lost == lost
            &&& d.lines.len() == n
            &&& forall|i: int|
                0 <= i < n ==> #[trigger] d.lines[i] == Value::Object(
                    events[i]->Object_0.push(("relay_epoch"@, Value::Text(epoch))),
                )
            &&& n == events.len() ==> d.outcome == Ok::<_, Seq<char>>(
                CursorValue { epoch, after: next },
            )
            &&& n < events.len() ==> d.outcome == Err::<CursorValue, _>(
                "relay response contains a non-object event"@,
            )
        }),
{
    crate::poller::lemma_leading_objects_is(events, n);
    let d = delivered(message);
    assert forall|i: int| 0 <= i < n implies #[trigger] d.lines[i] == Value::Object(
        events[i]->Object_0.push(("relay_epoch"@, Value::Text(epoch))),
    ) by {
        assert(events[i] is Object);
    }
}

/// An answer that lacks a field is not delivered, and what it lacks is told.
pub proof fn an_answer_that_lacks_a_field_is_told(message: Value)
    ensures
        ({
            let d = delivered(message);
            let epoch = message.text_field("epoch"@) is Some;
            let reset = message.boolean_field("reset"@) is Some;
            let lost = message.boolean_field("lost"@) is Some;
            let next = message.integer_field("next"@) is Some;
            &&& !epoch ==> d.outcome == Err::<CursorValue, _>(missing_field("string"@, "epoch"@))
            &&& epoch && !reset ==> d.outcome == Err::<CursorValue, _>(
                missing_field("boolean"@, "reset"@),
            )
            &&& epoch && reset && !lost ==> d.outcome == Err::<CursorValue, _>(
                missing_field("boolean"@, "lost"@),
            )
            &&& epoch && reset && lost && !next ==> d.outcome == Err::<CursorValue, _>(
                missing_field("integer"@, "next"@),
            )
            &&& !(epoch && reset && lost && next) ==> d.lines.len() == 0 && !d.reset && !d.lost
            &&& epoch && reset && lost && next && !(message.field(
                "events"@,
            ) matches Some(Value::Array(_))) ==> {
                &&& d.outcome == Err::<CursorValue, _>("relay response missing events array"@)
                &&& d.lines.len() == 0
                &&& message.boolean_field("reset"@) == Some(d.reset)
                &&& message.boolean_field("lost"@) == Some(d.lost)
            }
        }),
{
}

/// A round that failed is tried again in two seconds, one that went well is
/// followed by the next, and a delivery that failed ends it all; where one
/// round was asked for, it is the last.
pub proof fn rounds_go_on_until_a_delivery_fails(error: String, once: bool)
    ensures
        next_round(Round::Failed(error), false) == Next::Retry(2),
        next_round(Round::Failed(error), true) == Next::Stop(Err(error)),
        next_round(Round::Delivered(Ok(())), false) == Next::Poll,
        next_round(Round::Delivered(Ok(())), true) == Next::Stop(Ok(())),
        next_round(Round::Delivered(Err(error)), once) == Next::Stop(Err(error)),
{
}

/// Reports hold their words.
pub proof fn reports_hold_their_words(
    kind: Seq<char>,
    words: Seq<char>,
    process: u32,
    cursor: CursorValue,
)
    ensures
        missing_field(kind, words) == "relay response missing "@ + kind + " "@ + words,
        connect_failure(true, words) == "could not connect to proxy: "@ + words,
        connect_failure(false, words) == "could not connect to relay: "@ + words,
        write_failure(words) == "could not write poll: "@ + words,
        failed_poll_text(words) == "poll failed: "@ + words + "; retrying in 2s"@,
        temporary_text(process, cursor) == ".poller-"@ + decimal(process as nat) + "-"@ + decimal(
            cursor.after,
        ) + ".tmp"@,
{
}

/// Plans, cursors, steps and deliveries show what they hold.
pub proof fn polls_show_what_they_hold(
    cursor: Cursor,
    plan: PollPlan,
    step: ResponseStep,
    delivery: Delivery,
    body: Vec<u8>,
)
    ensures
        cursor@ == (CursorValue { epoch: cursor.epoch@, after: cursor.after as nat }),
        plan@ == (PlanValue {
            proxied: plan.proxied,
            host: plan.host@,
            port: plan.port as nat,
            request: plan.request@,
            read_timeout: plan.read_timeout as nat,
            write_timeout: plan.write_timeout as nat,
        }),
        match step {
            ResponseStep::ReadLine(progress) => step@ == Received::ReadLine(progress),
            ResponseStep::ReadBody(code, length) => step@ == Received::ReadBody(code, length),
            ResponseStep::Failed(message) => step@ == Received::Failed(message@),
        },
        delivery@ == (Delivered {
            reset: delivery.reset,
            lost: delivery.lost,
            lines: item_values(delivery.lines@),
            outcome: match delivery.outcome {
                Ok(c) => Ok(c@),
                Err(message) => Err(message@),
            },
        }),
        body_bytes(Some(body)) == Some(body@),
        body_bytes(None) is None,
{
}

} // verus!
