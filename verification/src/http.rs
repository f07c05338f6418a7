//! Reading a request and writing a response, as the relay does it.

use crate::query::entries;
use crate::text;
use crate::text::CharClass;
use vstd::hash_map::StringHashMap;
use vstd::prelude::*;
use vstd::utf8::encode_utf8;

verus! {

/// The longest request body, in bytes.
pub const MAX_BODY: usize = 64 * 1024;

/// The time to wait for a part of a request, in seconds.
pub const READ_TIMEOUT: u64 = 10;

/// The request line and the headers of a request. Header names are in lower
/// case.
pub struct Head {
    pub method: String,
    pub target: String,
    pub headers: StringHashMap<String>,
}

/// A request.
pub struct Request {
    pub head: Head,
    pub body: Vec<u8>,
}

/// Why a request could not be read.
#[derive(Debug, PartialEq, Eq)]
pub enum ReadRequestError {
    Message(String),
    /// An execution request with a body that is too long or incomplete.
    ExecDenied,
}

/// How far the head of a request has been read.
pub enum HeadProgress {
    RequestLine,
    Headers(Head),
}

/// What to do after a line of the head.
pub enum HeadStep {
    /// Read another line.
    ReadLine(HeadProgress),
    /// Read a body of this many bytes.
    ReadBody(Head, usize),
    /// Give up.
    Failed(ReadRequestError),
}

/// The mathematical counterpart of [`Head`].
#[verifier::ext_equal]
pub struct HeadValue {
    pub method: Seq<char>,
    pub target: Seq<char>,
    pub headers: Map<Seq<char>, Seq<char>>,
}

/// The mathematical counterpart of [`Request`].
pub struct RequestValue {
    pub head: HeadValue,
    pub body: Seq<u8>,
}

/// The mathematical counterpart of [`ReadRequestError`].
pub enum Refusal {
    Message(Seq<char>),
    ExecDenied,
}

/// The mathematical counterpart of [`HeadProgress`].
pub enum Progress {
    RequestLine,
    Headers(HeadValue),
}

/// The mathematical counterpart of [`HeadStep`].
pub enum Step {
    ReadLine(Progress),
    ReadBody(HeadValue, nat),
    Failed(Refusal),
}

impl View for Head {
    type V = HeadValue;

    open spec fn view(&self) -> HeadValue {
        HeadValue {
            method: self.method@,
            target: self.target@,
            headers: entries(self.headers@),
        }
    }
}

impl View for Request {
    type V = RequestValue;

    open spec fn view(&self) -> RequestValue {
        RequestValue { head: self.head@, body: self.body@ }
    }
}

impl View for ReadRequestError {
    type V = Refusal;

    open spec fn view(&self) -> Refusal {
        match self {
            ReadRequestError::Message(m) => Refusal::Message(m@),
            ReadRequestError::ExecDenied => Refusal::ExecDenied,
        }
    }
}

impl View for HeadProgress {
    type V = Progress;

    open spec fn view(&self) -> Progress {
        match self {
            HeadProgress::RequestLine => Progress::RequestLine,
            HeadProgress::Headers(head) => Progress::Headers(head@),
        }
    }
}

impl View for HeadStep {
    type V = Step;

    open spec fn view(&self) -> Step {
        match self {
            HeadStep::ReadLine(progress) => Step::ReadLine(progress@),
            HeadStep::ReadBody(head, length) => Step::ReadBody(head@, *length as nat),
            HeadStep::Failed(error) => Step::Failed(error@),
        }
    }
}

/// The path of a request target.
pub open spec fn path_of(target: Seq<char>) -> Seq<char> {
    text::before(target, '?')
}

impl HeadValue {
    /// Whether this is a request to execute a command.
    pub open spec fn is_exec(self) -> bool {
        self.method == "POST"@ && path_of(self.target) == "/v1/exec"@
    }

    /// The head with one more header; of two with one name the later counts.
    pub open spec fn with_header(self, name: Seq<char>, value: Seq<char>) -> HeadValue {
        HeadValue { headers: self.headers.insert(name, value), ..self }
    }

    /// The length of the body that the headers announce.
    pub open spec fn content_length(self) -> Option<nat> {
        if self.headers.contains_key("content-length"@) {
            text::number(self.headers["content-length"@], usize::MAX as nat)
        } else {
            Some(0)
        }
    }
}

/// What follows from a request line: at least a method, a target and a
/// version.
pub open spec fn after_request_line(line: Seq<char>) -> Step {
    let w = text::words(line);
    if w.len() < 3 {
        Step::Failed(Refusal::Message("malformed request line"@))
    } else {
        Step::ReadLine(
            Progress::Headers(HeadValue { method: w[0], target: w[1], headers: Map::empty() }),
        )
    }
}

/// What follows from the end of the head. A body that is too long is not
/// read.
pub open spec fn after_head(head: HeadValue) -> Step {
    match head.content_length() {
        None => Step::Failed(Refusal::Message("invalid content length"@)),
        Some(length) => if length <= MAX_BODY {
            Step::ReadBody(head, length)
        } else if head.is_exec() {
            Step::Failed(Refusal::ExecDenied)
        } else {
            Step::Failed(Refusal::Message("request body too large"@))
        },
    }
}

/// Whether a line ends the head.
pub open spec fn blank(line: Seq<char>) -> bool {
    line == "\r\n"@ || line == "\n"@
}

/// What follows from a line of the headers.
pub open spec fn after_header_line(head: HeadValue, line: Seq<char>) -> Step {
    if blank(line) {
        after_head(head)
    } else {
        match text::first_cut(text::trimmed_end(line, CharClass::Space), ':') {
            None => Step::Failed(Refusal::Message("malformed header"@)),
            Some((name, value)) => Step::ReadLine(
                Progress::Headers(
                    head.with_header(text::lowered(name), text::trimmed(value, CharClass::Space)),
                ),
            ),
        }
    }
}

/// What follows from an attempt to read a line of the head.
pub open spec fn head_decision(progress: Progress, line: Option<Seq<char>>) -> Step {
    match (progress, line) {
        (Progress::RequestLine, None) => Step::Failed(
            Refusal::Message("could not read request line"@),
        ),
        (Progress::RequestLine, Some(l)) => after_request_line(l),
        (Progress::Headers(_), None) => Step::Failed(Refusal::Message("could not read headers"@)),
        (Progress::Headers(head), Some(l)) => after_header_line(head, l),
    }
}

/// What follows from an attempt to read the body.
pub open spec fn body_decision(head: HeadValue, body: Option<Seq<u8>>) -> Result<
    RequestValue,
    Refusal,
> {
    match body {
        Some(b) => Ok(RequestValue { head, body: b }),
        None => if head.is_exec() {
            Err(Refusal::ExecDenied)
        } else {
            Err(Refusal::Message("short request body"@))
        },
    }
}

/// The text of an attempt to read a line.
pub open spec fn line_text(line: Option<&str>) -> Option<Seq<char>> {
    match line {
        Some(l) => Some(l@),
        None => None,
    }
}

fn failed(message: &str) -> (r: HeadStep)
    ensures
        r@ == Step::Failed(Refusal::Message(message@)),
{
    HeadStep::Failed(ReadRequestError::Message(message.to_owned()))
}

impl Head {
    /// Tells whether this is a request to execute a command.
    pub fn is_exec(&self) -> (r: bool)
        ensures
            r == self@.is_exec(),
    {
        if text::same(self.method.as_str(), "POST") {
            let target = text::chars_of(self.target.as_str());
            text::is_text(text::text_before(target.as_slice(), '?'), "/v1/exec")
        } else {
            false
        }
    }

    /// The end of the head.
    fn complete(self) -> (r: HeadStep)
        ensures
            r@ == after_head(self@),
    {
        let length: usize = match self.headers.get("content-length") {
            Some(value) => {
                let chars = text::chars_of(value.as_str());
                assert(self@.headers["content-length"@] == value@);
                match text::parse_number(chars.as_slice(), usize::MAX as u64) {
                    Some(n) => n as usize,
                    None => {
                        return failed("invalid content length");
                    },
                }
            },
            None => 0,
        };
        if length > MAX_BODY {
            if self.is_exec() {
                return HeadStep::Failed(ReadRequestError::ExecDenied);
            }
            return failed("request body too large");
        }
        HeadStep::ReadBody(self, length)
    }

    /// Takes in an attempt to read the body.
    pub fn with_body(self, body: Option<Vec<u8>>) -> (r: Result<Request, ReadRequestError>)
        ensures
            match r {
                Ok(request) => body_decision(
                    self@,
                    match body {
                        Some(b) => Some(b@),
                        None => None,
                    },
                ) == Ok::<_, Refusal>(request@),
                Err(error) => body_decision(
                    self@,
                    match body {
                        Some(b) => Some(b@),
                        None => None,
                    },
                ) == Err::<RequestValue, _>(error@),
            },
    {
        match body {
            Some(body) => Ok(Request { head: self, body }),
            None => if self.is_exec() {
                Err(ReadRequestError::ExecDenied)
            } else {
                Err(ReadRequestError::Message("short request body".to_owned()))
            },
        }
    }
}

impl HeadProgress {
    /// Takes in an attempt to read a line of the head.
    pub fn read_request(self, line: Option<&str>) -> (r: HeadStep)
        ensures
            r@ == head_decision(self@, line_text(line)),
    {
        match self {
            HeadProgress::RequestLine => match line {
                None => failed("could not read request line"),
                Some(l) => {
                    let chars = text::chars_of(l);
                    let parts = text::split_whitespace(chars.as_slice());
                    assert(parts@.len() == text::words(l@).len());
                    if parts.len() < 3 {
                        return failed("malformed request line");
                    }
                    let headers: StringHashMap<String> = StringHashMap::new();
                    assert(entries(headers@) =~= Map::<Seq<char>, Seq<char>>::empty());
                    assert(text::words(l@)[0] == parts@[0]@ && text::words(l@)[1] == parts@[1]@);
                    HeadStep::ReadLine(
                        HeadProgress::Headers(
                            Head { method: parts[0].clone(), target: parts[1].clone(), headers },
                        ),
                    )
                },
            },
            HeadProgress::Headers(head) => match line {
                None => failed("could not read headers"),
                Some(l) => {
                    if text::same(l, "\r\n") || text::same(l, "\n") {
                        return head.complete();
                    }
                    let chars = text::chars_of(l);
                    match text::split_once(text::trim_end(chars.as_slice(), CharClass::Space), ':') {
                        None => failed("malformed header"),
                        Some((name, value)) => {
                            let Head { method, target, mut headers } = head;
                            let ghost before = headers@;
                            let name = text::to_ascii_lowercase(name);
                            let value = text::string_of(text::trim(value, CharClass::Space));
                            let ghost n = name@;
                            let ghost v = value@;
                            headers.insert(name, value);
                            assert(entries(headers@) =~= entries(before).insert(n, v));
                            HeadStep::ReadLine(
                                HeadProgress::Headers(Head { method, target, headers }),
                            )
                        },
                    }
                },
            },
        }
    }
}

/// The reason phrase of a status code.
pub open spec fn reason_phrase(code: u16) -> Seq<char> {
    if code == 200 {
        "OK"@
    } else if code == 201 {
        "Created"@
    } else if code == 400 {
        "Bad Request"@
    } else if code == 401 {
        "Unauthorized"@
    } else if code == 404 {
        "Not Found"@
    } else {
        "Internal Server Error"@
    }
}

/// The lines of a response before its body.
pub open spec fn response_head(code: u16, length: nat) -> Seq<char> {
    "HTTP/1.1 "@ + text::decimal(code as nat) + " "@ + reason_phrase(code)
        + "\r\nContent-Type: application/json\r\nContent-Length: "@ + text::decimal(length)
        + "\r\nCache-Control: no-store\r\nConnection: close\r\n\r\n"@
}

/// A response with a JSON text as its body.
pub open spec fn response(code: u16, body: Seq<char>) -> Seq<char> {
    response_head(code, encode_utf8(body).len()) + body
}

/// Writes a response with a JSON text as its body.
pub fn reply(code: u16, body: &str) -> (r: String)
    ensures
        r@ == response(code, body@),
{
    let reason = match code {
        200 => "OK",
        201 => "Created",
        400 => "Bad Request",
        401 => "Unauthorized",
        404 => "Not Found",
        _ => "Internal Server Error",
    };
    let status = text::to_decimal(code as u64);
    let length = text::to_decimal(body.as_bytes().len() as u64);
    let mut out = "HTTP/1.1 ".to_owned();
    out.append(status.as_str());
    out.append(" ");
    out.append(reason);
    out.append("\r\nContent-Type: application/json\r\nContent-Length: ");
    out.append(length.as_str());
    out.append("\r\nCache-Control: no-store\r\nConnection: close\r\n\r\n");
    out.append(body);
    out
}

/// No body is read that is longer than the limit, and no other decision of
/// the head leads to a body.
pub proof fn bodies_are_bounded(progress: Progress, line: Option<Seq<char>>)
    ensures
        head_decision(progress, line) matches Step::ReadBody(head, length) ==> {
            &&& length <= MAX_BODY
            &&& progress == Progress::Headers(head)
            &&& head.content_length() == Some(length)
        },
{
}

/// An execution request whose body is too long is denied without reading it,
/// and one whose body is incomplete is denied too; any other request is told
/// what is wrong.
pub proof fn bad_bodies_are_refused(head: HeadValue)
    ensures
        head.content_length() matches Some(length) && length > MAX_BODY ==> after_head(head)
            == Step::Failed(
            if head.is_exec() {
                Refusal::ExecDenied
            } else {
                Refusal::Message("request body too large"@)
            },
        ),
        body_decision(head, None) == Err::<RequestValue, _>(
            if head.is_exec() {
                Refusal::ExecDenied
            } else {
                Refusal::Message("short request body"@)
            },
        ),
{
}

} // verus!
