//! Execution of commands that the owner's policy allows.

use crate::http::Refusal;
use crate::json::{Json, Value};
use crate::jules;
use crate::jules::ExecResult;
use crate::relay::{denial, denial_json, error, error_reply, refused, Reply, ReplyValue};
use crate::text;
use vstd::prelude::*;
use vstd::slice::slice_subrange;

verus! {

/// The session attribute of a graphical session.
pub const SESSION_HAS_GRAPHIC_ACCESS: u32 = 0x0010;

/// The session attribute of a remote session.
pub const SESSION_IS_REMOTE: u32 = 0x1000;

/// A request to execute one of the configured binaries.
pub struct BinRequest {
    pub id: String,
    pub bin: String,
    pub args: Vec<String>,
}

/// What the body of an execution request says: the id that a refusal names,
/// and the request if the body has its form.
pub struct ParsedExec {
    pub id: String,
    pub request: Option<BinRequest>,
}

/// The reply that refuses an execution request.
pub open spec fn denied_reply(id: Seq<char>) -> ReplyValue {
    ReplyValue { status: 200, body: denial(id) }
}

/// The id that the refusal of a body names: none where the body is not JSON.
pub open spec fn refused_id(parsed: Option<ParsedExec>) -> Seq<char> {
    match parsed {
        Some(p) => p.id@,
        None => seq![],
    }
}

/// Accepts an execution request that has its form; there is nothing parsed
/// where the body is not JSON.
pub fn parse_exec_request(parsed: Option<ParsedExec>) -> (r: Result<BinRequest, Json>)
    ensures
        match r {
            Ok(request) => parsed is Some && parsed->0.request == Some(request),
            Err(refusal) => (parsed is None || parsed->0.request is None) && refusal@ == denial(
                refused_id(parsed),
            ),
        },
{
    match parsed {
        None => {
            proof {
                text::lemma_empty_literal();
            }
            Err(denial_json(""))
        },
        Some(ParsedExec { id, request }) => match request {
            Some(request) => Ok(request),
            None => Err(denial_json(id.as_str())),
        },
    }
}

/// The path of the binary that the policy gives for a request, or the
/// refusal where it gives none.
pub fn policy_path_or_denial<'a>(path: Option<&'a str>, request: &BinRequest) -> (r: Result<
    &'a str,
    Json,
>)
    ensures
        match r {
            Ok(p) => path == Some(p),
            Err(refusal) => path is None && refusal@ == denial(request.id@),
        },
{
    match path {
        Some(p) => Ok(p),
        None => Err(denial_json(request.id.as_str())),
    }
}

/// What to do about an execution request.
pub enum ExecStep {
    /// Ask the policy about it.
    AskPolicy(BinRequest),
    /// Answer it.
    Reply(Reply),
}

/// Decides what to do about the body of an execution request.
pub fn exec_request(parsed: Option<ParsedExec>) -> (r: ExecStep)
    ensures
        match r {
            ExecStep::AskPolicy(request) => parsed is Some && parsed->0.request == Some(request),
            ExecStep::Reply(reply) => (parsed is None || parsed->0.request is None) && reply@
                == denied_reply(refused_id(parsed)),
        },
{
    match parse_exec_request(parsed) {
        Ok(request) => ExecStep::AskPolicy(request),
        Err(body) => ExecStep::Reply(Reply { status: 200, body }),
    }
}

/// The reply where the policy cannot be read. It does not say why.
pub open spec fn unreadable_reply() -> ReplyValue {
    error_reply(500, "could_not_read_execution_policy"@)
}

/// The line that is logged where the policy cannot be read.
pub open spec fn unreadable_log(reason: Seq<char>) -> Seq<char> {
    "exec policy read failed: "@ + reason
}

fn unreadable(reason: &str) -> (r: (Reply, String))
    ensures
        r.0@ == unreadable_reply(),
        r.1@ == unreadable_log(reason@),
{
    let mut log = "exec policy read failed: ".to_owned();
    log.append(reason);
    (Reply { status: 500, body: error("could_not_read_execution_policy") }, log)
}

/// A request that came in the owner's session. Only such a one is put to the
/// policy.
pub struct OwnerRequest {
    request: BinRequest,
    session: Option<(i32, u32)>,
}

impl OwnerRequest {
    /// The request.
    pub closed spec fn content(self) -> BinRequest {
        self.request
    }

    /// The session that it came in.
    pub closed spec fn origin(self) -> Option<(i32, u32)> {
        self.session
    }

    #[verifier::type_invariant]
    spec fn is_the_owners(self) -> bool {
        owner_session(self.session)
    }

    /// The request.
    pub fn request(&self) -> (r: &BinRequest)
        ensures
            *r == self.content(),
            owner_session(self.origin()),
    {
        proof {
            use_type_invariant(self);
        }
        &self.request
    }
}

/// What to do about a request before the policy is read.
pub enum SessionStep {
    /// Read the policy.
    AskPolicy(OwnerRequest),
    /// Log this line and answer the request.
    Fail(Reply, String),
}

/// Lets a request come before the policy in the owner's session, and in no
/// other.
pub fn check_session(request: BinRequest, session: Option<(i32, u32)>) -> (r: SessionStep)
    ensures
        match r {
            SessionStep::AskPolicy(asked) => {
                &&& owner_session(session)
                &&& asked.content() == request
                &&& asked.origin() == session
            },
            SessionStep::Fail(reply, log) => {
                &&& !owner_session(session)
                &&& reply@ == unreadable_reply()
                &&& log@ == unreadable_log(gui_only())
                &&& forall|policy: Result<Option<Seq<char>>, Seq<char>>| #[trigger]
                    exec_answer(request.id@, session, policy) == PolicyAnswer::Fail(reply@, log@)
            },
        },
{
    match require_gui_login_session(session) {
        Ok(()) => SessionStep::AskPolicy(OwnerRequest { request, session }),
        Err(message) => {
            let (reply, log) = unreadable(message.as_str());
            SessionStep::Fail(reply, log)
        },
    }
}

/// What to do once the policy was read, or could not be.
pub enum PolicyStep {
    /// Execute the binary at this path.
    Run(String, BinRequest),
    /// Answer the request.
    Reply(Reply),
    /// Log this line and answer the request.
    Fail(Reply, String),
}

/// The mathematical counterpart of [`PolicyStep`], without the request, which
/// stays as it is.
pub enum PolicyAnswer {
    Run(Seq<char>),
    Reply(ReplyValue),
    Fail(ReplyValue, Seq<char>),
}

/// What the policy makes of a request with that id: a path where it allows
/// the request, none where it does not, and the reason where it cannot be
/// read.
pub open spec fn policy_answer(
    id: Seq<char>,
    policy: Result<Option<Seq<char>>, Seq<char>>,
) -> PolicyAnswer {
    match policy {
        Err(reason) => PolicyAnswer::Fail(unreadable_reply(), unreadable_log(reason)),
        Ok(None) => PolicyAnswer::Reply(denied_reply(id)),
        Ok(Some(path)) => PolicyAnswer::Run(path),
    }
}

/// What becomes of a request with that id. The policy counts in the owner's
/// session only.
pub open spec fn exec_answer(
    id: Seq<char>,
    session: Option<(i32, u32)>,
    policy: Result<Option<Seq<char>>, Seq<char>>,
) -> PolicyAnswer {
    if owner_session(session) {
        policy_answer(id, policy)
    } else {
        PolicyAnswer::Fail(unreadable_reply(), unreadable_log(gui_only()))
    }
}

/// The texts of what the policy says.
pub open spec fn ruling(policy: Result<Option<String>, String>) -> Result<
    Option<Seq<char>>,
    Seq<char>,
> {
    match policy {
        Err(reason) => Err(reason@),
        Ok(None) => Ok(None),
        Ok(Some(path)) => Ok(Some(path@)),
    }
}

/// Decides about a request by what the policy says.
pub fn apply_policy(asked: OwnerRequest, policy: Result<Option<String>, String>) -> (r: PolicyStep)
    ensures
        match r {
            PolicyStep::Run(path, request) => exec_answer(
                asked.content().id@,
                asked.origin(),
                ruling(policy),
            ) == PolicyAnswer::Run(path@) && request == asked.content(),
            PolicyStep::Reply(reply) => exec_answer(
                asked.content().id@,
                asked.origin(),
                ruling(policy),
            ) == PolicyAnswer::Reply(reply@),
            PolicyStep::Fail(reply, log) => exec_answer(
                asked.content().id@,
                asked.origin(),
                ruling(policy),
            ) == PolicyAnswer::Fail(reply@, log@),
        },
{
    proof {
        use_type_invariant(&asked);
    }
    let request = asked.request;
    match policy {
        Err(reason) => {
            let (reply, log) = unreadable(reason.as_str());
            PolicyStep::Fail(reply, log)
        },
        Ok(allowed) => {
            let path = match &allowed {
                Some(p) => Some(p.as_str()),
                None => None,
            };
            match policy_path_or_denial(path, &request) {
                Ok(p) => PolicyStep::Run(p.to_owned(), request),
                Err(body) => PolicyStep::Reply(Reply { status: 200, body }),
            }
        },
    }
}

/// Answers a request that was executed.
pub fn exec_reply(result: &ExecResult) -> (r: Reply)
    ensures
        r.status == 200,
        r.body@ == jules::result_value(
            result.id@,
            result.exit_code,
            result.stdout@,
            result.stderr@,
            result.truncated,
            result.timed_out,
        ),
{
    Reply { status: 200, body: result.to_json() }
}

/// The line that is logged for a request. Prompts can be sensitive, so it
/// holds the id, the binary and the subcommand only.
pub open spec fn log_text(id: Seq<char>, bin: Seq<char>, subcommand: Seq<char>) -> Seq<char> {
    "exec id="@ + id + " bin="@ + bin + " subcommand="@ + subcommand
}

/// The subcommand of a request, empty where it has no arguments.
pub open spec fn subcommand(args: Seq<String>) -> Seq<char> {
    if args.len() > 0 {
        args[0]@
    } else {
        seq![]
    }
}

/// The line that is logged for a request.
pub fn log_line(request: &BinRequest) -> (r: String)
    ensures
        r@ == log_text(request.id@, request.bin@, subcommand(request.args@)),
{
    let mut out = "exec id=".to_owned();
    out.append(request.id.as_str());
    out.append(" bin=");
    out.append(request.bin.as_str());
    out.append(" subcommand=");
    if request.args.len() > 0 {
        out.append(request.args[0].as_str());
    }
    assert(out@ =~= log_text(request.id@, request.bin@, subcommand(request.args@)));
    out
}

/// Whether a session is a local graphical one: its attributes could be read,
/// it has graphic access and is not remote.
pub open spec fn local_gui(status: i32, attributes: u32) -> bool {
    &&& status == 0
    &&& attributes & SESSION_HAS_GRAPHIC_ACCESS != 0
    &&& attributes & SESSION_IS_REMOTE == 0
}

/// Tells whether a session is a local graphical one.
pub fn is_local_gui_session(status: i32, attributes: u32) -> (r: bool)
    ensures
        r == local_gui(status, attributes),
{
    status == 0 && attributes & SESSION_HAS_GRAPHIC_ACCESS != 0 && attributes & SESSION_IS_REMOTE
        == 0
}

/// What is answered to a policy action from any other session.
pub open spec fn gui_only() -> Seq<char> {
    "set-allowlist must run from Shukant's local macOS GUI login session"@
}

/// Whether a session may act on the policy. Systems without such sessions
/// have none.
pub open spec fn owner_session(session: Option<(i32, u32)>) -> bool {
    session matches Some((status, attributes)) && local_gui(status, attributes)
}

/// Policy actions are the owner's, from the local graphical session.
pub fn require_gui_login_session(session: Option<(i32, u32)>) -> (r: Result<(), String>)
    ensures
        match r {
            Ok(()) => owner_session(session),
            Err(message) => !owner_session(session) && message@ == gui_only(),
        },
{
    match session {
        Some((status, attributes)) => if is_local_gui_session(status, attributes) {
            Ok(())
        } else {
            Err("set-allowlist must run from Shukant's local macOS GUI login session".to_owned())
        },
        None => Err(
            "set-allowlist must run from Shukant's local macOS GUI login session".to_owned(),
        ),
    }
}

/// How the policy is replaced.
pub open spec fn allowlist_usage() -> Seq<char> {
    "usage: relay config set-allowlist --file PATH"@
}

/// The file that the arguments name for the policy.
pub open spec fn allowlist_path(arguments: Seq<Seq<char>>) -> Option<Seq<char>> {
    if arguments.len() == 3 && arguments[0] == "set-allowlist"@ && arguments[1] == "--file"@
        && arguments[2].len() > 0 {
        Some(arguments[2])
    } else {
        None
    }
}

/// Reads the file that the arguments name for the policy.
pub fn allowlist_file(arguments: &[String]) -> (r: Result<&str, String>)
    ensures
        match r {
            Ok(file) => allowlist_path(text::texts(arguments@)) == Some(file@),
            Err(message) => allowlist_path(text::texts(arguments@)) is None && message@
                == allowlist_usage(),
        },
{
    let ghost all = text::texts(arguments@);
    if arguments.len() != 3 {
        return Err("usage: relay config set-allowlist --file PATH".to_owned());
    }
    assert(all[0] == arguments@[0]@ && all[1] == arguments@[1]@ && all[2] == arguments@[2]@);
    let file = arguments[2].as_str();
    if !text::same(arguments[0].as_str(), "set-allowlist") || !text::same(
        arguments[1].as_str(),
        "--file",
    ) || file.is_empty() {
        return Err("usage: relay config set-allowlist --file PATH".to_owned());
    }
    Ok(file)
}

/// The arguments behind `config`, where that is what the relay is asked to do.
pub open spec fn config_part(arguments: Seq<Seq<char>>) -> Option<Seq<Seq<char>>> {
    if arguments.len() > 0 && arguments[0] == "config"@ {
        Some(arguments.skip(1))
    } else {
        None
    }
}

/// Tells a call that acts on the policy from one that starts the relay.
pub fn config_arguments<'a>(arguments: &'a [String]) -> (r: Option<&'a [String]>)
    ensures
        match r {
            Some(rest) => config_part(text::texts(arguments@)) == Some(text::texts(rest@)),
            None => config_part(text::texts(arguments@)) is None,
        },
{
    if arguments.len() == 0 {
        return None;
    }
    assert(text::texts(arguments@)[0] == arguments@[0]@);
    if text::same(arguments[0].as_str(), "config") {
        let rest = slice_subrange(arguments, 1, arguments.len());
        assert(text::texts(rest@) =~= text::texts(arguments@).skip(1));
        Some(rest)
    } else {
        None
    }
}

/// An action on the policy.
pub enum ConfigAction<'a> {
    /// Print the policy.
    GetAllowlist,
    /// Replace the policy by the one in this file.
    SetAllowlist(&'a str),
}

/// Whether the arguments ask for the policy.
pub open spec fn asks_for_policy(arguments: Seq<Seq<char>>) -> bool {
    arguments.len() == 1 && arguments[0] == "get-allowlist"@
}

/// Decides which action on the policy the arguments ask for. None is taken
/// outside the owner's session.
pub fn run_config<'a>(arguments: &'a [String], session: Option<(i32, u32)>) -> (r: Result<
    ConfigAction<'a>,
    String,
>)
    ensures
        match r {
            Ok(ConfigAction::GetAllowlist) => owner_session(session) && asks_for_policy(
                text::texts(arguments@),
            ),
            Ok(ConfigAction::SetAllowlist(file)) => owner_session(session) && allowlist_path(
                text::texts(arguments@),
            ) == Some(file@),
            Err(message) => if owner_session(session) {
                &&& !asks_for_policy(text::texts(arguments@))
                &&& allowlist_path(text::texts(arguments@)) is None
                &&& message@ == allowlist_usage()
            } else {
                message@ == gui_only()
            },
        },
{
    match require_gui_login_session(session) {
        Ok(()) => {},
        Err(message) => {
            return Err(message);
        },
    }
    if arguments.len() == 1 {
        assert(text::texts(arguments@)[0] == arguments@[0]@);
        if text::same(arguments[0].as_str(), "get-allowlist") {
            return Ok(ConfigAction::GetAllowlist);
        }
    }
    match allowlist_file(arguments) {
        Ok(file) => Ok(ConfigAction::SetAllowlist(file)),
        Err(message) => Err(message),
    }
}

/// What is reported where the file with a policy cannot be read.
pub open spec fn unreadable_file(file: Seq<char>, error: Seq<char>) -> Seq<char> {
    "could not read allowlist file "@ + file + ": "@ + error
}

/// Reports that the file with a policy cannot be read.
pub fn allowlist_unreadable(file: &str, error: &str) -> (r: String)
    ensures
        r@ == unreadable_file(file@, error@),
{
    let mut message = "could not read allowlist file ".to_owned();
    message.append(file);
    message.append(": ");
    message.append(error);
    message
}

/// Every refusal of an execution request, at whatever point it comes, is the
/// same answer: status 200 with the id and the word `denied`. Nothing of the
/// policy, and nothing of what is wrong with the request, is in it.
pub proof fn refusals_are_opaque(parsed: Option<ParsedExec>, id: Seq<char>)
    ensures
        denied_reply(id).status == 200,
        denied_reply(id).body == Value::Object(
            seq![("id"@, Value::Text(id)), ("error"@, Value::Text("denied"@))],
        ),
        refused(Refusal::ExecDenied) == denied_reply(seq![]),
        parsed is None ==> denied_reply(refused_id(parsed)) == denied_reply(seq![]),
        policy_answer(id, Ok(None)) == PolicyAnswer::Reply(denied_reply(id)),
{
}

/// Nothing is executed unless this is the owner's session and the policy
/// could be read there and gave the path of the binary.
pub proof fn only_the_policy_permits(
    id: Seq<char>,
    session: Option<(i32, u32)>,
    policy: Result<Option<Seq<char>>, Seq<char>>,
)
    ensures
        exec_answer(id, session, policy) matches PolicyAnswer::Run(path) ==> owner_session(session)
            && policy == Ok::<_, Seq<char>>(Some(path)),
{
}

/// Outside the owner's session the policy makes no difference, and a client
/// cannot tell such a session from a policy that cannot be read.
pub proof fn other_sessions_learn_nothing(
    id: Seq<char>,
    session: Option<(i32, u32)>,
    policy: Result<Option<Seq<char>>, Seq<char>>,
    reason: Seq<char>,
)
    requires
        !owner_session(session),
    ensures
        exec_answer(id, session, policy) matches PolicyAnswer::Fail(reply, _) && policy_answer(
            id,
            Err(reason),
        ) matches PolicyAnswer::Fail(other, _) && reply == other,
{
}

/// Two requests that differ in their arguments behind the first only are
/// logged alike: what may be sensitive is not logged.
pub proof fn prompts_are_not_logged(
    id: Seq<char>,
    bin: Seq<char>,
    first: String,
    some: Seq<String>,
    other: Seq<String>,
)
    ensures
        log_text(id, bin, subcommand(seq![first] + some)) == log_text(
            id,
            bin,
            subcommand(seq![first] + other),
        ),
{
}

} // verus!
