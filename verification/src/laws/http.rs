//! What reading a request and writing a response promise.

use crate::exchange::{head_of, lemma_field, lemma_header, lemma_line};
use crate::http::{
    body_decision, head_decision, line_text, path_of, response, Head, HeadProgress, HeadStep,
    HeadValue, Progress, ReadRequestError, Refusal, Request, RequestValue, Step,
};
use crate::laws::text::{
    the_first_cut_parts_a_text, trimming_takes_off_the_ends, white_space_parts_words,
};
use crate::query::entries;
use crate::scan::{all_in, free_of};
use crate::text::{
    decimal, first_cut, lowered, number, trimmed, trimmed_end, white_space, words, CharClass,
};
use vstd::prelude::*;
use vstd::utf8::encode_utf8;

verus! {

/// Whether a target has that path: it is the path, or the path and a query.
pub open spec fn at_path(target: Seq<char>, path: Seq<char>) -> bool {
    target == path || path.push('?').is_prefix_of(target)
}

/// The path of a target ends at its first question mark.
pub proof fn a_path_ends_at_the_question_mark(target: Seq<char>, path: Seq<char>)
    requires
        !path.contains('?'),
    ensures
        path_of(target) == path <==> at_path(target, path),
{
    the_first_cut_parts_a_text(target, '?');
    let mark = path.push('?');
    match first_cut(target, '?') {
        Some((a, b)) => {
            assert(target[a.len() as int] == '?');
            if path_of(target) == path {
                assert(target.subrange(0, mark.len() as int) =~= mark);
            }
            if target == path {
                assert(path.contains('?'));
            }
            if mark.is_prefix_of(target) {
                assert(target[path.len() as int] == mark[path.len() as int]);
                if a.len() < path.len() {
                    assert(path[a.len() as int] == mark[a.len() as int]);
                    assert(path.contains('?'));
                }
                if path.len() < a.len() {
                    assert(a[path.len() as int] == '?');
                    assert(a.contains('?'));
                }
                assert(a =~= path);
            }
        },
        None => {
            if mark.is_prefix_of(target) {
                assert(target[path.len() as int] == mark[path.len() as int]);
                assert(target.contains('?'));
            }
        },
    }
}

/// A request line gives a method and a target, which something must follow;
/// what that is makes no difference.
pub proof fn a_request_line_is_read(line: Seq<char>)
    ensures
        words(line).len() < 3 ==> head_decision(Progress::RequestLine, Some(line)) == Step::Failed(
            Refusal::Message("malformed request line"@),
        ),
        words(line).len() >= 3 ==> (head_decision(Progress::RequestLine, Some(line)) matches Step::ReadLine(
            Progress::Headers(head),
        ) && head.method == words(line)[0] && head.target == words(line)[1] && head.headers.dom()
            == Set::<Seq<char>>::empty()),
{
    assert(Map::<Seq<char>, Seq<char>>::empty().dom() =~= Set::<Seq<char>>::empty());
}

/// A header line adds its header, in place of an earlier one of that name,
/// and changes nothing else.
pub proof fn a_header_line_is_read(head: HeadValue, name: Seq<char>, value: Seq<char>)
    requires
        !name.contains(':'),
    ensures
        head_decision(Progress::Headers(head), Some(name + seq![':'] + value)) == Step::ReadLine(
            Progress::Headers(
                HeadValue {
                    method: head.method,
                    target: head.target,
                    headers: head.headers.insert(
                        lowered(name),
                        trimmed(value, CharClass::Space),
                    ),
                },
            ),
        ),
{
    assert(free_of(name, ':')) by {
        assert forall|i: int| 0 <= i < name.len() implies #[trigger] name[i] != ':' by {
            assert(name.contains(name[i]));
        }
    }
    lemma_header(name, value);
}

/// A line without a colon that is not the end of the head is malformed, and
/// what cannot be read is told.
pub proof fn other_lines_are_malformed(head: HeadValue, line: Seq<char>)
    ensures
        !line.contains(':') && line != seq!['\r', '\n'] && line != seq!['\n'] ==> head_decision(
            Progress::Headers(head),
            Some(line),
        ) == Step::Failed(Refusal::Message("malformed header"@)),
        head_decision(Progress::Headers(head), None) == Step::Failed(
            Refusal::Message("could not read headers"@),
        ),
        head_decision(Progress::RequestLine, None) == Step::Failed(
            Refusal::Message("could not read request line"@),
        ),
{
    reveal_strlit("\r\n");
    reveal_strlit("\n");
    assert("\r\n"@ =~= seq!['\r', '\n']);
    assert("\n"@ =~= seq!['\n']);
    if !line.contains(':') {
        let t = trimmed_end(line, CharClass::Space);
        trimming_takes_off_the_ends(line, CharClass::Space);
        the_first_cut_parts_a_text(t, ':');
        if let Some((a, _)) = first_cut(t, ':') {
            assert(t[a.len() as int] == ':');
            let r = choose|r: Seq<char>| line == #[trigger] (t + r);
            assert(line[a.len() as int] == ':');
        }
    }
}

/// What a head leads to: a body of the length that the header announces, as a
/// number, if that is no more than 64 KiB; none where no length is announced.
/// A longer one is refused, and an execution request is not told why.
pub open spec fn leads_to(head: HeadValue, step: Step) -> bool {
    let exec = head.method == "POST"@ && at_path(head.target, "/v1/exec"@);
    if !head.headers.dom().contains("content-length"@) {
        step == Step::ReadBody(head, 0)
    } else {
        match number(head.headers["content-length"@], usize::MAX as nat) {
            None => step == Step::Failed(Refusal::Message("invalid content length"@)),
            Some(n) => if n <= 65536 {
                step == Step::ReadBody(head, n)
            } else if exec {
                step == Step::Failed(Refusal::ExecDenied)
            } else {
                step == Step::Failed(Refusal::Message("request body too large"@))
            },
        }
    }
}

/// The blank line ends the head, which then leads to its body.
pub proof fn the_announced_body_is_read(head: HeadValue)
    ensures
        leads_to(head, head_decision(Progress::Headers(head), Some(seq!['\r', '\n']))),
        leads_to(head, head_decision(Progress::Headers(head), Some(seq!['\n']))),
{
    reveal_strlit("\r\n");
    reveal_strlit("\n");
    assert("\r\n"@ =~= seq!['\r', '\n']);
    assert("\n"@ =~= seq!['\n']);
    reveal_strlit("/v1/exec");
    assert(!"/v1/exec"@.contains('?'));
    a_path_ends_at_the_question_mark(head.target, "/v1/exec"@);
}

/// A body that announces its length in decimal is read to that length.
pub proof fn every_length_up_to_the_limit_is_read(head: HeadValue, n: nat)
    requires
        n <= 65536,
        head.headers.dom().contains("content-length"@),
        head.headers["content-length"@] == decimal(n),
    ensures
        head_decision(Progress::Headers(head), Some(seq!['\r', '\n'])) == Step::ReadBody(head, n),
{
    the_announced_body_is_read(head);
    crate::text::decimal_reads_back(n, usize::MAX as nat);
}

/// The lines of some headers.
pub open spec fn written_fields(fields: Seq<(Seq<char>, Seq<char>)>) -> Seq<char>
    decreases fields.len(),
{
    if fields.len() == 0 {
        seq![]
    } else {
        fields[0].0 + seq![':', ' '] + fields[0].1 + seq!['\r', '\n'] + written_fields(
            fields.skip(1),
        )
    }
}

/// The headers that some lines give over others.
pub open spec fn read_fields(
    headers: Map<Seq<char>, Seq<char>>,
    fields: Seq<(Seq<char>, Seq<char>)>,
) -> Map<Seq<char>, Seq<char>>
    decreases fields.len(),
{
    if fields.len() == 0 {
        headers
    } else {
        read_fields(
            headers.insert(lowered(fields[0].0), trimmed(fields[0].1, CharClass::Space)),
            fields.skip(1),
        )
    }
}

proof fn lemma_fields(
    head: HeadValue,
    fields: Seq<(Seq<char>, Seq<char>)>,
    rest: Seq<char>,
)
    requires
        forall|i: int|
            0 <= i < fields.len() ==> free_of((#[trigger] fields[i]).0, ':') && free_of(
                fields[i].0,
                '\n',
            ) && free_of(fields[i].1, '\n'),
    ensures
        head_of(Progress::Headers(head), written_fields(fields) + rest) == head_of(
            Progress::Headers(
                HeadValue {
                    method: head.method,
                    target: head.target,
                    headers: read_fields(head.headers, fields),
                },
            ),
            rest,
        ),
    decreases fields.len(),
{
    if fields.len() == 0 {
        assert(written_fields(fields) + rest =~= rest);
    } else {
        let (name, value) = fields[0];
        assert(free_of(fields[0].0, ':'));
        let later = fields.skip(1);
        assert forall|i: int| 0 <= i < later.len() implies free_of((#[trigger] later[i]).0, ':')
            && free_of(later[i].0, '\n') && free_of(later[i].1, '\n') by {
            assert(later[i] == fields[i + 1]);
        }
        let next = HeadValue {
            method: head.method,
            target: head.target,
            headers: head.headers.insert(lowered(name), trimmed(value, CharClass::Space)),
        };
        assert(head.with_header(lowered(name), trimmed(value, CharClass::Space)) == next);
        let tail = written_fields(later) + rest;
        assert(written_fields(fields) + rest =~= name + seq![':', ' '] + value + seq!['\r', '\n']
            + tail);
        lemma_field(head, name, value, tail);
        lemma_fields(next, later, rest);
    }
}

/// A written request reads back: its method, its target and all its headers,
/// of which the later one of a name counts, and then the body that it
/// announces. What follows the head is left for that body.
pub proof fn a_written_request_is_read(
    method: Seq<char>,
    target: Seq<char>,
    version: Seq<char>,
    fields: Seq<(Seq<char>, Seq<char>)>,
    rest: Seq<char>,
)
    requires
        method.len() > 0,
        all_in(method, CharClass::Word),
        target.len() > 0,
        all_in(target, CharClass::Word),
        version.len() > 0,
        all_in(version, CharClass::Word),
        forall|i: int|
            0 <= i < fields.len() ==> free_of((#[trigger] fields[i]).0, ':') && free_of(
                fields[i].0,
                '\n',
            ) && free_of(fields[i].1, '\n'),
    ensures
        ({
            let line = method + seq![' '] + target + seq![' '] + version + seq!['\r', '\n'];
            let head = HeadValue { method, target, headers: read_fields(Map::empty(), fields) };
            let (step, left) = head_of(
                Progress::RequestLine,
                line + (written_fields(fields) + (seq!['\r', '\n'] + rest)),
            );
            leads_to(head, step) && left == rest
        }),
{
    let crlf = seq!['\r', '\n'];
    let head0 = HeadValue { method, target, headers: Map::<Seq<char>, Seq<char>>::empty() };
    let head = HeadValue { method, target, headers: read_fields(Map::empty(), fields) };
    let l = method + seq![' '] + target + seq![' '] + version + seq!['\r'];
    let line = method + seq![' '] + target + seq![' '] + version + crlf;
    let after = written_fields(fields) + (crlf + rest);
    assert(free_of(l, '\n')) by {
        assert forall|i: int| 0 <= i < l.len() implies #[trigger] l[i] != '\n' by {
            let m = method.len();
            let t = target.len();
            let v = version.len();
            if i < m {
                assert(l[i] == method[i]);
                assert(CharClass::Word.has(method[i]));
            } else if m + 1 <= i < m + 1 + t {
                assert(l[i] == target[i - m - 1]);
                assert(CharClass::Word.has(target[i - m - 1]));
            } else if m + t + 2 <= i < m + t + 2 + v {
                assert(l[i] == version[i - m - t - 2]);
                assert(CharClass::Word.has(version[i - m - t - 2]));
            }
        }
    }
    lemma_line(l, after);
    assert(line =~= l + seq!['\n']);
    assert(line + after =~= l + seq!['\n'] + after);
    lemma_request_words(method, target, version);
    assert(head_decision(Progress::RequestLine, Some(line)) == Step::ReadLine(
        Progress::Headers(head0),
    ));
    lemma_fields(head0, fields, crlf + rest);
    let none = seq!['\r'];
    assert(free_of(none, '\n'));
    lemma_line(none, rest);
    assert(crlf + rest =~= none + seq!['\n'] + rest);
    assert(none + seq!['\n'] =~= crlf);
    the_announced_body_is_read(head);
}

proof fn lemma_request_words(method: Seq<char>, target: Seq<char>, version: Seq<char>)
    requires
        method.len() > 0,
        all_in(method, CharClass::Word),
        target.len() > 0,
        all_in(target, CharClass::Word),
        version.len() > 0,
        all_in(version, CharClass::Word),
    ensures
        words(method + seq![' '] + target + seq![' '] + version + seq!['\r', '\n']) == seq![
            method,
            target,
            version,
        ],
{
    let none = Seq::<char>::empty();
    let a = method + seq![' '] + target;
    let b = version + seq!['\r', '\n'];
    lemma_word(method);
    lemma_word(target);
    lemma_word(version);
    white_space_parts_words(method, ' ', target);
    white_space_parts_words(a, ' ', b);
    white_space_parts_words(version, '\r', seq!['\n']);
    white_space_parts_words(none, '\n', none);
    assert(none + seq!['\n'] + none =~= seq!['\n']);
    assert(version + seq!['\r'] + seq!['\n'] =~= b);
    assert(method + seq![' '] + target + seq![' '] + version + seq!['\r', '\n'] =~= a + seq![' ']
        + b);
    assert(words(a) + words(b) =~= seq![method, target, version]);
}

proof fn lemma_word(w: Seq<char>)
    requires
        w.len() > 0,
        all_in(w, CharClass::Word),
    ensures
        words(w) == seq![w],
{
    assert forall|i: int| 0 <= i < w.len() implies !white_space(#[trigger] w[i]) by {
        assert(CharClass::Word.has(w[i]));
    }
    white_space_parts_words(w, ' ', w);
}

/// A body is taken as it comes; where it is cut short the request is refused,
/// and an execution request is not told why.
pub proof fn a_body_is_taken_as_it_comes(head: HeadValue, body: Seq<u8>)
    ensures
        body_decision(head, Some(body)) == Ok::<_, Refusal>(RequestValue { head, body }),
        head.method == "POST"@ && at_path(head.target, "/v1/exec"@) ==> body_decision(head, None)
            == Err::<RequestValue, _>(Refusal::ExecDenied),
        !(head.method == "POST"@ && at_path(head.target, "/v1/exec"@)) ==> body_decision(head, None)
            == Err::<RequestValue, _>(Refusal::Message("short request body"@)),
        head.is_exec() == (head.method == "POST"@ && at_path(head.target, "/v1/exec"@)),
{
    reveal_strlit("/v1/exec");
    assert(!"/v1/exec"@.contains('?'));
    a_path_ends_at_the_question_mark(head.target, "/v1/exec"@);
}

/// A response is the status, the headers with the length of the body in
/// bytes, and the body itself.
pub proof fn a_response_is_written_out(code: u16, body: Seq<char>, reason: Seq<char>)
    requires
        code == 200 ==> reason == "OK"@,
        code == 201 ==> reason == "Created"@,
        code == 400 ==> reason == "Bad Request"@,
        code == 401 ==> reason == "Unauthorized"@,
        code == 404 ==> reason == "Not Found"@,
        code != 200 && code != 201 && code != 400 && code != 401 && code != 404 ==> reason
            == "Internal Server Error"@,
    ensures
        response(code, body) == "HTTP/1.1 "@ + decimal(code as nat) + " "@ + reason
            + "\r\nContent-Type: application/json\r\nContent-Length: "@ + decimal(
            encode_utf8(body).len(),
        ) + "\r\nCache-Control: no-store\r\nConnection: close\r\n\r\n"@ + body,
{
}

/// The parts of a request show what they hold.
pub proof fn a_request_shows_what_it_holds(head: Head, request: Request, error: ReadRequestError)
    ensures
        head@ == (HeadValue {
            method: head.method@,
            target: head.target@,
            headers: entries(head.headers@),
        }),
        request@ == (RequestValue { head: request.head@, body: request.body@ }),
        match error {
            ReadRequestError::Message(m) => error@ == Refusal::Message(m@),
            ReadRequestError::ExecDenied => error@ == Refusal::ExecDenied,
        },
{
}

/// A step shows what it asks for, and a line what it holds.
pub proof fn a_step_shows_what_it_asks_for(
    progress: HeadProgress,
    step: HeadStep,
    line: &str,
)
    ensures
        match progress {
            HeadProgress::RequestLine => progress@ == Progress::RequestLine,
            HeadProgress::Headers(head) => progress@ == Progress::Headers(head@),
        },
        match step {
            HeadStep::ReadLine(next) => step@ == Step::ReadLine(next@),
            HeadStep::ReadBody(head, length) => step@ == Step::ReadBody(head@, length as nat),
            HeadStep::Failed(error) => step@ == Step::Failed(error@),
        },
        line_text(Some(line)) == Some(line@),
        line_text(None) is None,
{
}

} // verus!
