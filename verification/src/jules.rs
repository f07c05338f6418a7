//! Synchronous, allowlisted execution of the `jules` command.
//!
//! Exactly one binary can be executed, with a small set of subcommands and
//! without a shell. `login` and `logout` are outside the allowlist: the bridge
//! never changes the authentication state of the command.

use crate::bytes;
use crate::json::{Json, Value};
use crate::text;
use vstd::prelude::*;
use vstd::slice::slice_subrange;
use vstd::utf8::encode_utf8;

verus! {

/// The binary that is executed unless another one is configured.
pub const DEFAULT_JULES_BIN: &'static str = "/Users/shukant/.npm-global/bin/jules";

/// Upper bound for one execution, in nanoseconds. A client must allow for a
/// slightly longer wait.
pub const EXEC_TIMEOUT: u128 = 300_000_000_000;

/// The number of bytes that are kept of each output stream.
pub const OUTPUT_CAP: usize = 1024 * 1024;

/// The number of bytes that are read from an output stream at a time.
pub const CHUNK_LEN: usize = 8192;

/// The time between two looks at the child process, in nanoseconds.
pub const WAIT_INTERVAL: u64 = 50_000_000;

/// The largest number of arguments.
pub const MAX_ARGS: usize = 64;

/// The largest length of an argument, in bytes.
pub const MAX_ARG_LEN: usize = 16384;

/// The largest length of a request id, in bytes.
pub const MAX_ID_LEN: usize = 128;

/// A request to execute the binary with the given arguments.
pub struct ExecRequest {
    pub id: String,
    pub args: Vec<String>,
}

/// What an execution came to.
pub struct ExecResult {
    pub id: String,
    pub exit_code: Option<i32>,
    pub stdout: String,
    pub stderr: String,
    pub truncated: bool,
    pub timed_out: bool,
}

/// Whether a text can be an argument.
pub open spec fn arg_fits(arg: Seq<char>) -> bool {
    0 < arg.len() && encode_utf8(arg).len() <= MAX_ARG_LEN
}

/// Whether a text can be the id of a request.
pub open spec fn id_fits(id: Seq<char>) -> bool {
    0 < id.len() && encode_utf8(id).len() <= MAX_ID_LEN
}

/// Whether the arguments begin with an allowed subcommand.
pub open spec fn allowed(args: Seq<Seq<char>>) -> bool {
    ||| args[0] == "new"@
    ||| {
        &&& args[0] == "remote"@
        &&& args.len() > 1
        &&& (args[1] == "list"@ || args[1] == "pull"@ || args[1] == "new"@)
    }
}

/// Why arguments are refused, if they are.
pub open spec fn refusal(args: Seq<Seq<char>>) -> Option<Seq<char>> {
    if args.len() == 0 || args.len() > MAX_ARGS {
        Some("args must contain between 1 and 64 entries"@)
    } else if exists|i: int| 0 <= i < args.len() && !arg_fits(#[trigger] args[i]) {
        Some("each arg must be between 1 and 16384 bytes"@)
    } else if allowed(args) {
        None
    } else if args[0] == "remote"@ {
        Some("remote requires list, pull, or new as its subcommand"@)
    } else {
        Some("only the new and remote subcommands may be executed"@)
    }
}

/// Accepts the arguments of the subcommands that the workflow needs and
/// refuses all others.
pub fn validate(args: &[String]) -> (r: Result<(), String>)
    ensures
        match r {
            Ok(()) => refusal(text::texts(args@)) is None,
            Err(message) => refusal(text::texts(args@)) == Some(message@),
        },
{
    let ghost all = text::texts(args@);
    if args.len() == 0 || args.len() > MAX_ARGS {
        return Err("args must contain between 1 and 64 entries".to_owned());
    }
    let mut i: usize = 0;
    while i < args.len()
        invariant
            i <= args.len(),
            0 < args.len() <= MAX_ARGS,
            all == text::texts(args@),
            forall|j: int| 0 <= j < i ==> arg_fits(#[trigger] all[j]),
        decreases args.len() - i,
    {
        let arg = args[i].as_str();
        assert(all[i as int] == arg@);
        if arg.is_empty() || arg.as_bytes().len() > MAX_ARG_LEN {
            assert(!arg_fits(all[i as int]));
            return Err("each arg must be between 1 and 16384 bytes".to_owned());
        }
        i = i + 1;
    }
    assert(all[0] == args@[0]@);
    let command = args[0].as_str();
    if text::same(command, "new") {
        Ok(())
    } else if text::same(command, "remote") {
        if args.len() > 1 {
            let sub = args[1].as_str();
            assert(all[1] == args@[1]@);
            if text::same(sub, "list") || text::same(sub, "pull") || text::same(sub, "new") {
                return Ok(());
            }
        }
        Err("remote requires list, pull, or new as its subcommand".to_owned())
    } else {
        Err("only the new and remote subcommands may be executed".to_owned())
    }
}

/// The texts of a list of JSON strings, if it is one.
pub open spec fn string_items(items: Seq<Value>) -> Option<Seq<Seq<char>>> {
    if forall|i: int| 0 <= i < items.len() ==> #[trigger] items[i] is Text {
        Some(items.map_values(|v: Value| v->Text_0))
    } else {
        None
    }
}

/// The id and the arguments of a request, or why it is refused.
pub open spec fn requested(body: Value) -> Result<(Seq<char>, Seq<Seq<char>>), Seq<char>> {
    let args = match body.field("args"@) {
        Some(Value::Array(items)) => string_items(items),
        _ => None,
    };
    match body.text_field("id"@) {
        Some(id) if id_fits(id) => match args {
            Some(list) => match refusal(list) {
                None => Ok((id, list)),
                Some(message) => Err(message),
            },
            None => Err("body must include args as an array of strings"@),
        },
        _ => Err("body must include a non-empty id of at most 128 bytes"@),
    }
}

/// The texts of a list of JSON strings.
fn string_args(items: &Vec<Json>) -> (r: Option<Vec<String>>)
    ensures
        match r {
            Some(list) => string_items(crate::json::item_values(items@)) == Some(
                text::texts(list@),
            ),
            None => string_items(crate::json::item_values(items@)) is None,
        },
{
    let ghost all = crate::json::item_values(items@);
    let mut out: Vec<String> = Vec::new();
    let mut i: usize = 0;
    while i < items.len()
        invariant
            i <= items.len(),
            out.len() == i,
            all == crate::json::item_values(items@),
            forall|j: int|
                0 <= j < i ==> #[trigger] all[j] is Text && all[j]->Text_0 == out@[j]@,
        decreases items.len() - i,
    {
        assert(all[i as int] == items@[i as int]@);
        match items[i].as_str() {
            Some(s) => {
                out.push(s.to_owned());
            },
            None => {
                assert(!(all[i as int] is Text));
                return None;
            },
        }
        i = i + 1;
    }
    assert(all.map_values(|v: Value| v->Text_0) =~= text::texts(out@));
    Some(out)
}

/// Reads a request: an id, and arguments that the allowlist accepts.
pub fn parse_request(body: &Json) -> (r: Result<ExecRequest, String>)
    ensures
        match r {
            Ok(request) => requested(body@) == Ok::<_, Seq<char>>(
                (request.id@, text::texts(request.args@)),
            ),
            Err(message) => requested(body@) == Err::<(Seq<char>, Seq<Seq<char>>), _>(message@),
        },
{
    let id = match body.object("id") {
        Some(v) => match v.as_str() {
            Some(id) => id,
            None => {
                return Err("body must include a non-empty id of at most 128 bytes".to_owned());
            },
        },
        None => {
            return Err("body must include a non-empty id of at most 128 bytes".to_owned());
        },
    };
    if id.is_empty() || id.as_bytes().len() > MAX_ID_LEN {
        return Err("body must include a non-empty id of at most 128 bytes".to_owned());
    }
    let args = match body.object("args") {
        Some(v) => match v.as_array() {
            Some(items) => string_args(items),
            None => None,
        },
        None => None,
    };
    match args {
        Some(args) => match validate(args.as_slice()) {
            Ok(()) => Ok(ExecRequest { id: id.to_owned(), args }),
            Err(message) => Err(message),
        },
        None => Err("body must include args as an array of strings".to_owned()),
    }
}

/// What is kept of an output stream: at most [`OUTPUT_CAP`] bytes, and
/// whether there were more.
pub struct Drain {
    kept: Vec<u8>,
    truncated: bool,
    seen: Ghost<Seq<u8>>,
}

/// The part of an output stream that is kept.
pub open spec fn capped(stream: Seq<u8>) -> Seq<u8> {
    if stream.len() > OUTPUT_CAP {
        stream.take(OUTPUT_CAP as int)
    } else {
        stream
    }
}

impl Drain {
    /// All the bytes that the stream has given.
    pub closed spec fn stream(self) -> Seq<u8> {
        self.seen@
    }

    #[verifier::type_invariant]
    spec fn keeps_the_beginning(self) -> bool {
        &&& self.kept@ == capped(self.seen@)
        &&& self.truncated == (self.seen@.len() > OUTPUT_CAP)
    }

    /// Nothing read yet.
    pub fn new() -> (r: Drain)
        ensures
            r.stream() == Seq::<u8>::empty(),
    {
        Drain { kept: Vec::new(), truncated: false, seen: Ghost(Seq::empty()) }
    }

    /// Takes in what one read gave. Past the cap the bytes are dropped, so
    /// that a stream can be read to its end whatever its length.
    pub fn absorb(self, chunk: &[u8]) -> (r: Drain)
        ensures
            r.stream() == self.stream() + chunk@,
    {
        proof {
            use_type_invariant(&self);
        }
        let Drain { mut kept, mut truncated, seen } = self;
        let ghost before = kept@;
        if kept.len() < OUTPUT_CAP {
            let room: usize = OUTPUT_CAP - kept.len();
            let n: usize = if chunk.len() < room {
                chunk.len()
            } else {
                room
            };
            let part = slice_subrange(chunk, 0, n);
            kept.extend_from_slice(part);
            assert(kept@ =~= before + part@);
            if chunk.len() > room {
                truncated = true;
            }
        } else if chunk.len() > 0 {
            truncated = true;
        }
        let ghost stream = seen@ + chunk@;
        assert(kept@ =~= capped(stream));
        Drain { kept, truncated, seen: Ghost(stream) }
    }

    /// The kept bytes, and whether there were more.
    pub fn finish(self) -> (r: (Vec<u8>, bool))
        ensures
            r.0@ == capped(self.stream()),
            r.1 == (self.stream().len() > OUTPUT_CAP),
    {
        proof {
            use_type_invariant(&self);
        }
        (self.kept, self.truncated)
    }
}

/// Reads an output stream to its end, one chunk at a time.
pub fn drain_limited(pipe: &[u8]) -> (r: (Vec<u8>, bool))
    ensures
        r.0@ == capped(pipe@),
        r.1 == (pipe@.len() > OUTPUT_CAP),
{
    let mut drain = Drain::new();
    let mut at: usize = 0;
    while at < pipe.len()
        invariant
            at <= pipe.len(),
            drain.stream() == pipe@.take(at as int),
        decreases pipe.len() - at,
    {
        let n: usize = if pipe.len() - at < CHUNK_LEN {
            pipe.len() - at
        } else {
            CHUNK_LEN
        };
        let chunk = slice_subrange(pipe, at, at + n);
        drain = drain.absorb(chunk);
        assert(pipe@.take(at as int) + chunk@ == pipe@.take(at + n));
        at = at + n;
    }
    assert(pipe@.take(at as int) == pipe@);
    drain.finish()
}

/// The answer to a request that was executed.
pub open spec fn result_value(
    id: Seq<char>,
    exit_code: Option<i32>,
    stdout: Seq<char>,
    stderr: Seq<char>,
    truncated: bool,
    timed_out: bool,
) -> Value {
    Value::Object(
        seq![
            ("id"@, Value::Text(id)),
            (
                "exit_code"@,
                match exit_code {
                    Some(code) => Value::Number(text::signed_decimal(code as int)),
                    None => Value::Null,
                },
            ),
            ("stdout"@, Value::Text(stdout)),
            ("stderr"@, Value::Text(stderr)),
            ("truncated"@, Value::Bool(truncated)),
            ("timed_out"@, Value::Bool(timed_out)),
        ],
    )
}

impl ExecResult {
    /// The answer to the request.
    pub fn to_json(&self) -> (r: Json)
        ensures
            r@ == result_value(
                self.id@,
                self.exit_code,
                self.stdout@,
                self.stderr@,
                self.truncated,
                self.timed_out,
            ),
    {
        let code = match self.exit_code {
            Some(code) => Json::Number(text::to_signed_decimal(code)),
            None => Json::Null,
        };
        let r = Json::object_of(
            vec![
                ("id".to_owned(), Json::String(self.id.clone())),
                ("exit_code".to_owned(), code),
                ("stdout".to_owned(), Json::String(self.stdout.clone())),
                ("stderr".to_owned(), Json::String(self.stderr.clone())),
                ("truncated".to_owned(), Json::Bool(self.truncated)),
                ("timed_out".to_owned(), Json::Bool(self.timed_out)),
            ],
        );
        assert(r@->Object_0 =~= result_value(
            self.id@,
            self.exit_code,
            self.stdout@,
            self.stderr@,
            self.truncated,
            self.timed_out,
        )->Object_0);
        r
    }
}

/// What is found when the state of the child process is looked at.
pub enum WaitEvent {
    /// It has exited, with a code unless a signal ended it.
    Exited(Option<i32>),
    /// It is running, this many nanoseconds after its start.
    Running(u128),
    /// Its state cannot be told.
    Failed,
}

/// How the wait for the child process ended.
pub enum Ending {
    Exited(Option<i32>),
    TimedOut,
    Lost,
}

/// What to do next about the child process.
pub enum WaitAction {
    /// Look again after this many nanoseconds.
    Sleep(u64),
    /// Kill the child, reap it, then collect its output.
    Kill(Ending),
    /// Collect its output.
    Collect(Ending),
}

/// One execution of the binary.
pub struct Run {
    pub bin: String,
    pub request: ExecRequest,
    pub timeout: u128,
}

/// Begins an execution that is bounded by [`EXEC_TIMEOUT`].
pub fn run(bin: &str, request: ExecRequest) -> (r: Run)
    ensures
        r.bin@ == bin@,
        r.request == request,
        r.timeout == EXEC_TIMEOUT,
{
    run_with_timeout(bin, request, EXEC_TIMEOUT)
}

/// Begins an execution that is bounded by a number of nanoseconds.
pub fn run_with_timeout(bin: &str, request: ExecRequest, timeout: u128) -> (r: Run)
    ensures
        r.bin@ == bin@,
        r.request == request,
        r.timeout == timeout,
{
    Run { bin: bin.to_owned(), request, timeout }
}

/// What follows from what is found of the child process: it is waited for
/// until it exits, looked at again after each interval, and killed once the
/// time is over.
pub open spec fn wait_decision(event: WaitEvent, timeout: u128) -> WaitAction {
    match event {
        WaitEvent::Exited(code) => WaitAction::Collect(Ending::Exited(code)),
        WaitEvent::Running(elapsed) => if elapsed >= timeout {
            WaitAction::Kill(Ending::TimedOut)
        } else {
            WaitAction::Sleep(WAIT_INTERVAL)
        },
        WaitEvent::Failed => WaitAction::Collect(Ending::Lost),
    }
}

/// The exit code that is reported: that of a child which exited by itself.
pub open spec fn exit_code_of(ending: Ending) -> Option<i32> {
    match ending {
        Ending::Exited(code) => code,
        _ => None,
    }
}

impl Run {
    /// Decides what to do next about the child process.
    pub fn observe(&self, event: WaitEvent) -> (r: WaitAction)
        ensures
            r == wait_decision(event, self.timeout),
    {
        match event {
            WaitEvent::Exited(code) => WaitAction::Collect(Ending::Exited(code)),
            WaitEvent::Running(elapsed) => if elapsed >= self.timeout {
                WaitAction::Kill(Ending::TimedOut)
            } else {
                WaitAction::Sleep(WAIT_INTERVAL)
            },
            WaitEvent::Failed => WaitAction::Collect(Ending::Lost),
        }
    }

    /// The result where the binary could not be started.
    pub fn spawn_failed(self, error: &str) -> (r: ExecResult)
        ensures
            r.id@ == self.request.id@,
            r.exit_code is None,
            r.stdout@ == Seq::<char>::empty(),
            r.stderr@ == "could not spawn "@ + self.bin@ + ": "@ + error@,
            !r.truncated,
            !r.timed_out,
    {
        let mut message = "could not spawn ".to_owned();
        message.append(self.bin.as_str());
        message.append(": ");
        message.append(error);
        ExecResult {
            id: self.request.id,
            exit_code: None,
            stdout: String::new(),
            stderr: message,
            truncated: false,
            timed_out: false,
        }
    }

    /// The result where the binary was started: how the wait ended, and what
    /// was kept of each output stream with whether there was more. Where the
    /// kept bytes are UTF-8 they come through unchanged.
    pub fn finish(self, ending: Ending, stdout: (Vec<u8>, bool), stderr: (Vec<u8>, bool)) -> (r:
        ExecResult)
        ensures
            r.id@ == self.request.id@,
            r.exit_code == exit_code_of(ending),
            r.stdout@ == bytes::lossy_text(stdout.0@),
            r.stderr@ == bytes::lossy_text(stderr.0@),
            bytes::utf8_text(stdout.0@) matches Some(s) ==> r.stdout@ == s,
            bytes::utf8_text(stderr.0@) matches Some(s) ==> r.stderr@ == s,
            bytes::utf8_text(stdout.0@) is None ==> r.stdout@.contains('\u{fffd}'),
            bytes::utf8_text(stderr.0@) is None ==> r.stderr@.contains('\u{fffd}'),
            r.truncated == (stdout.1 || stderr.1),
            r.timed_out == (ending is TimedOut),
    {
        let out = bytes::lossy(stdout.0.as_slice());
        let err = bytes::lossy(stderr.0.as_slice());
        self.conclude(ending, out, err, stdout.1 || stderr.1)
    }

    /// The result that the texts of the output streams make.
    pub fn conclude(
        self,
        ending: Ending,
        stdout: String,
        stderr: String,
        truncated: bool,
    ) -> (r: ExecResult)
        ensures
            r.id@ == self.request.id@,
            r.exit_code == exit_code_of(ending),
            r.stdout@ == stdout@,
            r.stderr@ == stderr@,
            r.truncated == truncated,
            r.timed_out == (ending is TimedOut),
    {
        let (exit_code, timed_out) = match ending {
            Ending::Exited(code) => (code, false),
            Ending::TimedOut => (None, true),
            Ending::Lost => (None, false),
        };
        ExecResult { id: self.request.id, exit_code, stdout, stderr, truncated, timed_out }
    }
}

/// Nothing but the subcommands of the workflow is executed, whatever else the
/// arguments hold; in particular the authentication state cannot be changed.
pub proof fn only_the_workflow_is_executed(args: Seq<Seq<char>>)
    ensures
        refusal(args) is None ==> {
            &&& 0 < args.len() <= MAX_ARGS
            &&& forall|i: int| 0 <= i < args.len() ==> arg_fits(#[trigger] args[i])
            &&& allowed(args)
        },
        args.len() > 0 && (args[0] == "login"@ || args[0] == "logout"@) ==> refusal(args) is Some,
{
    reveal_strlit("login");
    reveal_strlit("logout");
    reveal_strlit("new");
    reveal_strlit("remote");
    assert("login"@.len() == 5 && "logout"@[0] == 'l' && "remote"@[0] == 'r' && "new"@.len() == 3);
    assert("logout"@.len() == 6 && "remote"@.len() == 6);
}

/// A request that is accepted has an id and arguments that the allowlist
/// accepts.
pub proof fn accepted_request_is_allowed(body: Value)
    ensures
        requested(body) matches Ok((id, args)) ==> id_fits(id) && refusal(args) is None,
{
}

/// What is kept of an output stream is its beginning: all of it up to the
/// cap, and never more.
pub proof fn kept_output_is_the_beginning(stream: Seq<u8>)
    ensures
        capped(stream).is_prefix_of(stream),
        capped(stream).len() <= OUTPUT_CAP,
        capped(stream) == stream <==> stream.len() <= OUTPUT_CAP,
{
    assert(capped(stream) =~= stream.subrange(0, capped(stream).len() as int));
}

/// A running child is killed once its time is over and not before; one that
/// was killed has no exit code.
pub proof fn time_is_bounded(event: WaitEvent, timeout: u128)
    ensures
        wait_decision(event, timeout) is Kill <==> (event matches WaitEvent::Running(elapsed)
            && elapsed >= timeout),
        wait_decision(event, timeout) is Sleep <==> (event matches WaitEvent::Running(elapsed)
            && elapsed < timeout),
        wait_decision(event, timeout) matches WaitAction::Sleep(pause) ==> pause == WAIT_INTERVAL,
        wait_decision(event, timeout) matches WaitAction::Kill(ending) ==> ending is TimedOut
            && exit_code_of(ending) is None,
{
}

} // verus!
