//! What execution under the owner's policy promises.

use crate::exec::{
    allowlist_path, asks_for_policy, config_part, denied_reply, exec_answer, local_gui, log_text,
    owner_session, policy_answer, refused_id, ruling, subcommand, unreadable_file,
    unreadable_log, unreadable_reply, ParsedExec, PolicyAnswer,
};
use crate::json::Value;
use crate::relay::ReplyValue;
use vstd::prelude::*;

verus! {

/// The reply that denies a request with that id.
pub open spec fn denies(reply: ReplyValue, id: Seq<char>) -> bool {
    reply.status == 200 && reply.body == Value::Object(
        seq![("id"@, Value::Text(id)), ("error"@, Value::Text("denied"@))],
    )
}

/// The policy decides in the owner's session: a request runs at the path that
/// it gives, whatever that is, and is denied under its own id where it gives
/// none. Where it cannot be read nothing runs, and the reason is logged but
/// not told.
pub proof fn the_policy_decides(
    id: Seq<char>,
    status: i32,
    attributes: u32,
    path: Seq<char>,
    reason: Seq<char>,
)
    requires
        status == 0,
        attributes & 0x0010 != 0,
        attributes & 0x1000 == 0,
    ensures
        exec_answer(id, Some((status, attributes)), Ok(Some(path))) == PolicyAnswer::Run(path),
        exec_answer(id, Some((status, attributes)), Ok(None)) matches PolicyAnswer::Reply(reply)
            && denies(reply, id),
        exec_answer(id, Some((status, attributes)), Err(reason)) == PolicyAnswer::Fail(
            ReplyValue {
                status: 500,
                body: Value::Object(
                    seq![("error"@, Value::Text("could_not_read_execution_policy"@))],
                ),
            },
            "exec policy read failed: "@ + reason,
        ),
        policy_answer(id, Ok(Some(path))) == PolicyAnswer::Run(path),
{
}

/// A session is the owner's exactly where its attributes could be read, it has
/// graphic access and it is not remote.
pub proof fn the_owner_is_local_and_graphical(status: i32, attributes: u32)
    ensures
        local_gui(status, attributes) <==> status == 0 && attributes & 0x0010 != 0 && attributes
            & 0x1000 == 0,
        owner_session(Some((status, attributes))) == local_gui(status, attributes),
        !owner_session(None),
{
}

/// A denial names the id that was sent; a body that is not JSON has none.
pub proof fn a_denial_names_the_id_that_was_sent(parsed: ParsedExec, id: Seq<char>)
    ensures
        refused_id(Some(parsed)) == parsed.id@,
        refused_id(None).len() == 0,
        denies(denied_reply(id), id),
        unreadable_reply().status == 500,
        unreadable_log(id) == "exec policy read failed: "@ + id,
{
}

/// What the policy says is taken as it is said.
pub proof fn a_ruling_is_taken_as_it_is(path: String)
    ensures
        ruling(Ok(Some(path))) == Ok::<_, Seq<char>>(Some(path@)),
        ruling(Ok(None)) == Ok::<Option<Seq<char>>, Seq<char>>(None),
        ruling(Err(path)) == Err::<Option<Seq<char>>, _>(path@),
{
}

/// The log names the id, the binary and the first argument.
pub proof fn the_log_names_the_subcommand(
    id: Seq<char>,
    bin: Seq<char>,
    first: String,
    more: Seq<String>,
)
    ensures
        log_text(id, bin, subcommand(seq![first] + more)) == "exec id="@ + id + " bin="@ + bin
            + " subcommand="@ + first@,
        log_text(id, bin, subcommand(Seq::<String>::empty())) == "exec id="@ + id + " bin="@ + bin
            + " subcommand="@,
{
    assert("exec id="@ + id + " bin="@ + bin + " subcommand="@ + Seq::<char>::empty()
        =~= "exec id="@ + id + " bin="@ + bin + " subcommand="@);
}

/// The policy is replaced by the file that exactly these arguments name, and
/// asked for by one other.
pub proof fn policy_arguments_are_exact(arguments: Seq<Seq<char>>, file: Seq<char>)
    ensures
        allowlist_path(arguments) == Some(file) <==> file.len() > 0 && arguments == seq![
            "set-allowlist"@,
            "--file"@,
            file,
        ],
        asks_for_policy(arguments) <==> arguments == seq!["get-allowlist"@],
{
    let exact = seq!["set-allowlist"@, "--file"@, file];
    if allowlist_path(arguments) == Some(file) {
        assert(arguments =~= exact);
    }
    if asks_for_policy(arguments) {
        assert(arguments =~= seq!["get-allowlist"@]);
    }
}

/// A call acts on the policy where its first argument is `config`, and it is
/// the others that say how.
pub proof fn config_is_the_first_argument(first: Seq<char>, more: Seq<Seq<char>>)
    ensures
        config_part(seq![first] + more) == (if first == "config"@ {
            Some(more)
        } else {
            None
        }),
        config_part(Seq::<Seq<char>>::empty()) is None,
{
    assert((seq![first] + more).skip(1) =~= more);
}

/// The report of a file that cannot be read names the file and the reason.
pub proof fn an_unreadable_file_is_named(file: Seq<char>, error: Seq<char>)
    ensures
        unreadable_file(file, error) == "could not read allowlist file "@ + file + ": "@ + error,
{
}

} // verus!
