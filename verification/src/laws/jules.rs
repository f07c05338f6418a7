//! What the `jules` bridge promises.

use crate::json::Value;
use crate::jules::{
    capped, exit_code_of, refusal, requested, result_value, wait_decision, Ending, WaitAction,
    WaitEvent,
};
use crate::text::signed_decimal;
use vstd::prelude::*;
use vstd::utf8::encode_utf8;

verus! {

/// Whether a text has between one byte and that many.
pub open spec fn of_size(s: Seq<char>, most: nat) -> bool {
    0 < s.len() && encode_utf8(s).len() <= most
}

/// Whether some arguments are at most sixty-four, none of them empty or longer
/// than sixteen KiB.
pub open spec fn in_bounds(args: Seq<Seq<char>>) -> bool {
    0 < args.len() <= 64 && forall|i: int|
        0 <= i < args.len() ==> of_size(#[trigger] args[i], 16384)
}

/// Arguments are accepted exactly where they are in bounds and call for `new`,
/// or for `remote` with `list`, `pull` or `new`; what else they hold makes no
/// difference. Any others are told why, the bounds first.
pub proof fn arguments_are_accepted_by_their_subcommand(args: Seq<Seq<char>>)
    ensures
        refusal(args) is None <==> in_bounds(args) && (args[0] == "new"@ || (args[0] == "remote"@
            && args.len() > 1 && (args[1] == "list"@ || args[1] == "pull"@ || args[1] == "new"@))),
        !(0 < args.len() <= 64) ==> refusal(args) == Some(
            "args must contain between 1 and 64 entries"@,
        ),
        0 < args.len() <= 64 && !in_bounds(args) ==> refusal(args) == Some(
            "each arg must be between 1 and 16384 bytes"@,
        ),
        in_bounds(args) && refusal(args) is Some && args[0] == "remote"@ ==> refusal(args) == Some(
            "remote requires list, pull, or new as its subcommand"@,
        ),
        in_bounds(args) && refusal(args) is Some && args[0] != "remote"@ ==> refusal(args) == Some(
            "only the new and remote subcommands may be executed"@,
        ),
{
    if 0 < args.len() <= 64 {
        if in_bounds(args) {
            assert forall|i: int| 0 <= i < args.len() implies crate::jules::arg_fits(
                #[trigger] args[i],
            ) by {
                assert(of_size(args[i], 16384));
            }
        } else {
            let i = choose|i: int| 0 <= i < args.len() && !of_size(#[trigger] args[i], 16384);
            assert(!crate::jules::arg_fits(args[i]));
        }
    }
}

/// A request that is accepted comes through as it was sent: its id, and its
/// arguments one for one, in order and unchanged.
pub proof fn an_accepted_request_comes_through(body: Value)
    ensures
        requested(body) matches Ok((id, args)) ==> {
            &&& body.text_field("id"@) == Some(id)
            &&& of_size(id, 128)
            &&& body.field("args"@) matches Some(Value::Array(items))
            &&& items.len() == args.len()
            &&& forall|i: int| 0 <= i < items.len() ==> #[trigger] items[i] == Value::Text(args[i])
            &&& refusal(args) is None
        },
{
    if let Ok((id, args)) = requested(body) {
        let items = body.field("args"@)->0->Array_0;
        assert forall|i: int| 0 <= i < items.len() implies #[trigger] items[i] == Value::Text(
            args[i],
        ) by {
            assert(items[i] is Text);
        }
    }
}

/// A request with an id and texts that the allowlist accepts is accepted; any
/// other is told what is wrong, the id first.
pub proof fn requests_are_accepted_or_told_why(
    body: Value,
    id: Seq<char>,
    args: Seq<Seq<char>>,
    items: Seq<Value>,
)
    ensures
        !(body.text_field("id"@) matches Some(given) && of_size(given, 128)) ==> requested(body)
            == Err::<(Seq<char>, Seq<Seq<char>>), _>(
            "body must include a non-empty id of at most 128 bytes"@,
        ),
        body.text_field("id"@) == Some(id) && of_size(id, 128) ==> {
            &&& !(body.field("args"@) matches Some(Value::Array(_))) ==> requested(body) == Err::<
                (Seq<char>, Seq<Seq<char>>),
                _,
            >("body must include args as an array of strings"@)
            &&& body.field("args"@) == Some(Value::Array(items)) && (exists|i: int|
                0 <= i < items.len() && !(#[trigger] items[i] is Text)) ==> requested(body) == Err::<
                (Seq<char>, Seq<Seq<char>>),
                _,
            >("body must include args as an array of strings"@)
            &&& body.field("args"@) == Some(Value::Array(items)) && items.len() == args.len() && (
            forall|i: int| 0 <= i < items.len() ==> #[trigger] items[i] == Value::Text(args[i]))
                ==> requested(body) == (match refusal(args) {
                None => Ok((id, args)),
                Some(message) => Err(message),
            })
        },
{
    if body.field("args"@) == Some(Value::Array(items)) && items.len() == args.len() && (forall|
        i: int,
    | 0 <= i < items.len() ==> #[trigger] items[i] == Value::Text(args[i])) {
        assert(items.map_values(|v: Value| v->Text_0) =~= args);
        assert(crate::jules::string_items(items) == Some(args));
    }
}

/// A child that exits is collected with the code that it exited with, whatever
/// that is, and this is the code in the result. One that was killed or could
/// not be watched has none.
pub proof fn the_exit_code_is_the_one_of_the_child(code: Option<i32>, timeout: u128)
    ensures
        wait_decision(WaitEvent::Exited(code), timeout) matches WaitAction::Collect(ending)
            && ending == Ending::Exited(code) && exit_code_of(ending) == code,
        exit_code_of(Ending::Exited(code)) == code,
        exit_code_of(Ending::TimedOut) is None,
        exit_code_of(Ending::Lost) is None,
        wait_decision(WaitEvent::Failed, timeout) == WaitAction::Collect(Ending::Lost),
{
}

/// A running child is looked at again after fifty milliseconds until its time
/// is over, and then killed.
pub proof fn a_running_child_is_watched(elapsed: u128, timeout: u128)
    ensures
        elapsed < timeout ==> wait_decision(WaitEvent::Running(elapsed), timeout)
            == WaitAction::Sleep(50_000_000),
        elapsed >= timeout ==> wait_decision(WaitEvent::Running(elapsed), timeout)
            == WaitAction::Kill(Ending::TimedOut),
        crate::jules::EXEC_TIMEOUT == 300_000_000_000,
{
}

/// The first mebibyte of a stream is kept, or all of it where it is shorter:
/// byte by byte as it came.
pub proof fn the_first_mebibyte_is_kept(stream: Seq<u8>, more: Seq<u8>)
    ensures
        capped(stream).len() == (if stream.len() < 1048576 {
            stream.len()
        } else {
            1048576
        }),
        forall|i: int| 0 <= i < capped(stream).len() ==> #[trigger] capped(stream)[i] == stream[i],
        stream.len() >= 1048576 ==> capped(stream + more) == capped(stream),
        crate::jules::OUTPUT_CAP == 1048576,
{
    if stream.len() >= 1048576 {
        assert(capped(stream + more) =~= capped(stream));
    }
}

/// A result is answered with all that it holds.
pub proof fn a_result_is_answered_whole(
    id: Seq<char>,
    exit_code: Option<i32>,
    stdout: Seq<char>,
    stderr: Seq<char>,
    truncated: bool,
    timed_out: bool,
)
    ensures
        result_value(id, exit_code, stdout, stderr, truncated, timed_out) == Value::Object(
            seq![
                ("id"@, Value::Text(id)),
                (
                    "exit_code"@,
                    match exit_code {
                        Some(code) => Value::Number(signed_decimal(code as int)),
                        None => Value::Null,
                    },
                ),
                ("stdout"@, Value::Text(stdout)),
                ("stderr"@, Value::Text(stderr)),
                ("truncated"@, Value::Bool(truncated)),
                ("timed_out"@, Value::Bool(timed_out)),
            ],
        ),
{
}

} // verus!
