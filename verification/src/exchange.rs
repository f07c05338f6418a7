//! What the poller writes the relay reads, and the other way round.

use crate::http::{
    after_header_line, blank, head_decision, path_of, reason_phrase, response, HeadValue, Progress,
    Step,
};
use crate::laws::{lemma_poll_target_parts, poll_reads_back};
use crate::poller::{
    planned, poll_target, poll_text, response_decision, response_text, CursorValue, Received,
    ResponseProgress,
};
use crate::query::{encoded, encoding_is_url_safe, polled, url_safe, MAX_TIMEOUT};
use crate::relay::{authorization, bearer, routed, Route};
use crate::scan::{
    all_in, free_of, lemma_first_cut, lemma_prefix_of_parts, lemma_trimmed_around,
    lemma_trimmed_between, lemma_trimmed_end_after, lemma_trimmed_twice, lemma_words_after_space,
    lemma_words_first,
};
use crate::text::{
    decimal, decimal_reads_back, first_cut, is_digit, lowered, number, prefix_len, trimmed,
    trimmed_end, white_space, words, CharClass,
};
use crate::url::{url_parts, UrlParts};
use vstd::prelude::*;
use vstd::utf8::{encode_utf8, encode_utf8_decode_utf8, encode_utf8_valid_utf8};

verus! {

/// The length of the first line of a stream, with the line feed that ends it
/// if there is one.
pub open spec fn line_len(stream: Seq<char>) -> int {
    let n = prefix_len(stream, CharClass::Except('\n')) as int;
    if n < stream.len() {
        n + 1
    } else {
        n
    }
}

/// A stream that is not empty has a first line that is not empty.
pub proof fn lemma_line_len(stream: Seq<char>)
    ensures
        0 <= line_len(stream) <= stream.len(),
        stream.len() > 0 ==> line_len(stream) > 0,
{
    crate::text::lemma_prefix_len(stream, CharClass::Except('\n'));
}

/// What reading the head of a request off a stream comes to, one line after
/// the other, and what is left of the stream then.
pub open spec fn head_of(progress: Progress, stream: Seq<char>) -> (Step, Seq<char>)
    decreases stream.len(),
{
    let n = line_len(stream);
    let step = head_decision(progress, Some(stream.take(n)));
    match step {
        Step::ReadLine(next) if stream.len() > 0 => {
            proof {
                lemma_line_len(stream);
            }
            head_of(next, stream.skip(n))
        },
        _ => (step, stream.skip(n)),
    }
}

/// What reading the head of a response off a stream comes to, one line after
/// the other, and what is left of the stream then.
pub open spec fn response_of(progress: ResponseProgress, stream: Seq<char>) -> (
    Received,
    Seq<char>,
)
    decreases stream.len(),
{
    let n = line_len(stream);
    let step = response_decision(progress, Some(stream.take(n)));
    match step {
        Received::ReadLine(next) if stream.len() > 0 => {
            proof {
                lemma_line_len(stream);
            }
            response_of(next, stream.skip(n))
        },
        _ => (step, stream.skip(n)),
    }
}

/// A line ends at its line feed.
pub proof fn lemma_line(l: Seq<char>, rest: Seq<char>)
    requires
        free_of(l, '\n'),
    ensures
        ({
            let s = l + seq!['\n'] + rest;
            &&& line_len(s) == l.len() + 1
            &&& s.take(line_len(s)) == l + seq!['\n']
            &&& s.skip(line_len(s)) == rest
        }),
{
    let s = l + seq!['\n'] + rest;
    assert(s == l + (seq!['\n'] + rest));
    lemma_prefix_of_parts(l, seq!['\n'] + rest, CharClass::Except('\n'));
    assert(s.take(l.len() as int + 1) == l + seq!['\n']);
    assert(s.skip(l.len() as int + 1) == rest);
}

/// A header line names a header and its value, trimmed.
pub proof fn lemma_header(name: Seq<char>, x: Seq<char>)
    requires
        free_of(name, ':'),
    ensures
        ({
            let line = name + seq![':'] + x;
            &&& !blank(line)
            &&& first_cut(trimmed_end(line, CharClass::Space), ':') == Some(
                (name, trimmed_end(x, CharClass::Space)),
            )
            &&& trimmed(trimmed_end(x, CharClass::Space), CharClass::Space) == trimmed(
                x,
                CharClass::Space,
            )
        }),
{
    reveal_strlit("\r\n");
    reveal_strlit("\n");
    let line = name + seq![':'] + x;
    assert(line[name.len() as int] == ':');
    lemma_trimmed_end_after(name, ':', x, CharClass::Space);
    lemma_first_cut(name, ':', trimmed_end(x, CharClass::Space));
    lemma_trimmed_twice(x, CharClass::Space);
}

/// One step over a header line of a request.
proof fn lemma_head_step(head: HeadValue, name: Seq<char>, x: Seq<char>, rest: Seq<char>)
    requires
        free_of(name, ':'),
        free_of(name, '\n'),
        free_of(x, '\n'),
    ensures
        head_of(Progress::Headers(head), name + seq![':'] + x + seq!['\n'] + rest) == head_of(
            Progress::Headers(
                head.with_header(lowered(name), trimmed(x + seq!['\n'], CharClass::Space)),
            ),
            rest,
        ),
{
    let l = name + seq![':'] + x;
    assert(free_of(l, '\n'));
    lemma_line(l, rest);
    assert(l + seq!['\n'] =~= name + seq![':'] + (x + seq!['\n']));
    lemma_header(name, x + seq!['\n']);
}

/// The head that the relay reads from a poll.
pub open spec fn poll_head(
    target: Seq<char>,
    authority: Seq<char>,
    secret: Seq<char>,
) -> HeadValue {
    HeadValue {
        method: "GET"@,
        target,
        headers: Map::empty().insert("host"@, trimmed(authority, CharClass::Space)).insert(
            "authorization"@,
            bearer(secret),
        ).insert("accept"@, "application/json"@).insert("connection"@, "close"@),
    }
}

/// The characters of a few literals.
proof fn lemma_literals()
    ensures
        "\r\n"@ == seq!['\r', '\n'],
        " "@ == seq![' '],
        "GET "@ == "GET"@ + seq![' '],
        " HTTP/1.1\r\nHost: "@ == seq![' '] + "HTTP/1.1"@ + seq!['\r', '\n'] + "Host"@ + seq![
            ':',
            ' ',
        ],
        "\r\nAuthorization: Bearer "@ == seq!['\r', '\n'] + "Authorization"@ + seq![':', ' ']
            + "Bearer "@,
        "\r\nAccept: application/json\r\nConnection: close\r\n\r\n"@ == seq!['\r', '\n']
            + "Accept"@ + seq![':', ' '] + "application/json"@ + seq!['\r', '\n'] + "Connection"@
            + seq![':', ' '] + "close"@ + seq!['\r', '\n'] + "\r\n"@,
        lowered("Host"@) == "host"@,
        lowered("Authorization"@) == "authorization"@,
        lowered("Accept"@) == "accept"@,
        lowered("Connection"@) == "connection"@,
        free_of("Host"@, ':') && free_of("Host"@, '\n') && "Host"@.len() == 4,
        free_of("Authorization"@, ':') && free_of("Authorization"@, '\n')
            && "Authorization"@.len() == 13,
        free_of("Accept"@, ':') && free_of("Accept"@, '\n') && "Accept"@.len() == 6,
        free_of("Connection"@, ':') && free_of("Connection"@, '\n') && "Connection"@.len() == 10,
        all_in("GET"@, CharClass::Word) && "GET"@.len() == 3,
        all_in("HTTP/1.1"@, CharClass::Word) && "HTTP/1.1"@.len() == 8,
        all_in("application/json"@, CharClass::Word) && "application/json"@.len() == 16,
        all_in("close"@, CharClass::Word) && "close"@.len() == 5,
        "Bearer "@.len() == 7 && !white_space("Bearer "@[0]) && free_of("Bearer "@, '\n'),
{
    reveal_strlit("\r\n");
    reveal_strlit(" ");
    reveal_strlit("GET ");
    reveal_strlit("GET");
    reveal_strlit(" HTTP/1.1\r\nHost: ");
    reveal_strlit("HTTP/1.1");
    reveal_strlit("Host");
    reveal_strlit("\r\nAuthorization: Bearer ");
    reveal_strlit("Authorization");
    reveal_strlit("Bearer ");
    reveal_strlit("\r\nAccept: application/json\r\nConnection: close\r\n\r\n");
    reveal_strlit("Accept");
    reveal_strlit("application/json");
    reveal_strlit("Connection");
    reveal_strlit("close");
    reveal_strlit("host");
    reveal_strlit("authorization");
    reveal_strlit("accept");
    reveal_strlit("connection");
    assert("\r\n"@ =~= seq!['\r', '\n']);
    assert(" "@ =~= seq![' ']);
    assert("GET "@ =~= "GET"@ + seq![' ']);
    assert(" HTTP/1.1\r\nHost: "@ =~= seq![' '] + "HTTP/1.1"@ + seq!['\r', '\n'] + "Host"@ + seq![
        ':',
        ' ',
    ]);
    assert("\r\nAuthorization: Bearer "@ =~= seq!['\r', '\n'] + "Authorization"@ + seq![':', ' ']
        + "Bearer "@);
    assert("\r\nAccept: application/json\r\nConnection: close\r\n\r\n"@ =~= seq!['\r', '\n']
        + "Accept"@ + seq![':', ' '] + "application/json"@ + seq!['\r', '\n'] + "Connection"@
        + seq![':', ' '] + "close"@ + seq!['\r', '\n'] + "\r\n"@);
    assert(lowered("Host"@) =~= "host"@);
    assert(lowered("Authorization"@) =~= "authorization"@);
    assert(lowered("Accept"@) =~= "accept"@);
    assert(lowered("Connection"@) =~= "connection"@);
}

/// A text with no white space at its ends is what trimming leaves of it.
proof fn lemma_trimmed_same(v: Seq<char>)
    requires
        v.len() > 0,
        !white_space(v[0]),
        !white_space(v.last()),
    ensures
        trimmed(v, CharClass::Space) == v,
{
    let none = Seq::<char>::empty();
    lemma_trimmed_between(none, v, none, CharClass::Space);
    assert(none + v + none == v);
}

/// A word breaks no line, and trimming leaves all of it.
proof fn lemma_word_value(v: Seq<char>)
    requires
        v.len() > 0,
        all_in(v, CharClass::Word),
    ensures
        free_of(v, '\n'),
        trimmed(v, CharClass::Space) == v,
{
    assert forall|i: int| 0 <= i < v.len() implies #[trigger] v[i] != '\n' by {
        assert(CharClass::Word.has(v[i]));
    }
    assert(CharClass::Word.has(v[0]) && CharClass::Word.has(v[v.len() - 1]));
    lemma_trimmed_same(v);
}

/// One step over a header line that a colon and a space part.
pub proof fn lemma_field(head: HeadValue, name: Seq<char>, v: Seq<char>, rest: Seq<char>)
    requires
        free_of(name, ':'),
        free_of(name, '\n'),
        free_of(v, '\n'),
    ensures
        head_of(
            Progress::Headers(head),
            name + seq![':', ' '] + v + seq!['\r', '\n'] + rest,
        ) == head_of(
            Progress::Headers(head.with_header(lowered(name), trimmed(v, CharClass::Space))),
            rest,
        ),
{
    let x = seq![' '] + v + seq!['\r'];
    assert(free_of(x, '\n'));
    lemma_head_step(head, name, x, rest);
    assert(name + seq![':', ' '] + v + seq!['\r', '\n'] + rest =~= name + seq![':'] + x + seq!['\n']
        + rest);
    assert(x + seq!['\n'] =~= seq![' '] + v + seq!['\r', '\n']);
    lemma_trimmed_around(seq![' '], v, seq!['\r', '\n'], CharClass::Space);
}

/// One step over the request line of a poll.
proof fn lemma_poll_line(target: Seq<char>, rest: Seq<char>)
    requires
        target.len() > 0,
        all_in(target, CharClass::Word),
    ensures
        head_of(
            Progress::RequestLine,
            "GET "@ + target + (seq![' '] + "HTTP/1.1"@ + seq!['\r', '\n']) + rest,
        ) == head_of(
            Progress::Headers(HeadValue { method: "GET"@, target, headers: Map::empty() }),
            rest,
        ),
{
    lemma_literals();
    let l = "GET"@ + seq![' '] + target + seq![' '] + "HTTP/1.1"@ + seq!['\r'];
    assert(free_of(l, '\n')) by {
        assert forall|i: int| 0 <= i < l.len() implies #[trigger] l[i] != '\n' by {
            if i < 3 {
                assert(CharClass::Word.has("GET"@[i]));
            } else if 4 <= i < 4 + target.len() {
                assert(l[i] == target[i - 4]);
                assert(CharClass::Word.has(target[i - 4]));
            } else if 5 + target.len() <= i < 13 + target.len() {
                assert(l[i] == "HTTP/1.1"@[i - 5 - target.len()]);
                assert(CharClass::Word.has("HTTP/1.1"@[i - 5 - target.len()]));
            }
        }
    }
    lemma_line(l, rest);
    assert("GET "@ + target + (seq![' '] + "HTTP/1.1"@ + seq!['\r', '\n']) + rest =~= l + seq!['\n']
        + rest);
    let t3 = "HTTP/1.1"@ + seq!['\r', '\n'];
    let t2 = target + (seq![' '] + t3);
    let t1 = "GET"@ + (seq![' '] + t2);
    assert(l + seq!['\n'] =~= t1);
    lemma_words_first("GET"@, seq![' '] + t2);
    lemma_words_after_space(seq![' '], t2);
    lemma_words_first(target, seq![' '] + t3);
    lemma_words_after_space(seq![' '], t3);
    lemma_words_first("HTTP/1.1"@, seq!['\r', '\n']);
    let w = words(t1);
    assert(w[0] == "GET"@);
    assert(w[1] == target) by {
        assert(w[1] == words(t2)[0]);
    }
    assert(w.len() >= 3);
}

/// The relay reads a poll as the poller means it, and leaves what follows
/// it: the method, the target and the bearer token, and no body. The target
/// must be one word, no part may break a line, and the token must not end in
/// white space, which is not part of a header.
#[verifier::spinoff_prover]
#[verifier::rlimit(40)]
pub proof fn poll_is_read(
    target: Seq<char>,
    authority: Seq<char>,
    secret: Seq<char>,
    rest: Seq<char>,
)
    requires
        target.len() > 0,
        all_in(target, CharClass::Word),
        free_of(authority, '\n'),
        free_of(secret, '\n'),
        secret.len() > 0,
        !white_space(secret.last()),
    ensures
        head_of(Progress::RequestLine, poll_text(target, authority, secret) + rest) == (
            Step::ReadBody(poll_head(target, authority, secret), 0),
            rest,
        ),
        authorization(poll_head(target, authority, secret)) == bearer(secret),
        poll_head(target, authority, secret).method == "GET"@,
        poll_head(target, authority, secret).target == target,
        poll_head(target, authority, secret).headers.dom().contains("authorization"@),
        poll_head(target, authority, secret).headers["authorization"@] == "Bearer "@ + secret,
{
    lemma_literals();
    let crlf = seq!['\r', '\n'];
    let s5 = "\r\n"@ + rest;
    let s4 = "Connection"@ + seq![':', ' '] + "close"@ + crlf + s5;
    let s3 = "Accept"@ + seq![':', ' '] + "application/json"@ + crlf + s4;
    let s2 = "Authorization"@ + seq![':', ' '] + bearer(secret) + crlf + s3;
    let s1 = "Host"@ + seq![':', ' '] + authority + crlf + s2;
    assert(poll_text(target, authority, secret) + rest =~= "GET "@ + target + (seq![' ']
        + "HTTP/1.1"@ + crlf) + s1);
    lemma_poll_line(target, s1);
    let h0 = HeadValue { method: "GET"@, target, headers: Map::empty() };
    let h1 = h0.with_header("host"@, trimmed(authority, CharClass::Space));
    let h2 = h1.with_header("authorization"@, bearer(secret));
    let h3 = h2.with_header("accept"@, "application/json"@);
    let h4 = h3.with_header("connection"@, "close"@);
    lemma_field(h0, "Host"@, authority, s2);
    let b = bearer(secret);
    assert(free_of(b, '\n')) by {
        assert forall|i: int| 0 <= i < b.len() implies #[trigger] b[i] != '\n' by {
            if i >= 7 {
                assert(b[i] == secret[i - 7]);
            } else {
                assert(b[i] == "Bearer "@[i]);
            }
        }
    }
    assert(b[0] == "Bearer "@[0] && b.last() == secret.last());
    lemma_trimmed_same(b);
    lemma_field(h1, "Authorization"@, b, s3);
    lemma_word_value("application/json"@);
    lemma_field(h2, "Accept"@, "application/json"@, s4);
    lemma_word_value("close"@);
    lemma_field(h3, "Connection"@, "close"@, s5);
    assert(h4 == poll_head(target, authority, secret));
    assert(s5 =~= seq!['\r'] + seq!['\n'] + rest);
    lemma_line(seq!['\r'], rest);
    assert(seq!['\r'] + seq!['\n'] =~= "\r\n"@);
    reveal_strlit("content-length");
    reveal_strlit("host");
    reveal_strlit("authorization");
    reveal_strlit("accept");
    reveal_strlit("connection");
    assert("content-length"@.len() == 14 && "authorization"@.len() == 13);
    assert("accept"@.len() == 6 && "connection"@.len() == 10);
    assert(!h4.headers.contains_key("content-length"@));
    assert(head_of(Progress::Headers(h4), s5) == (Step::ReadBody(h4, 0), rest));
}

/// The target of a poll is one word, and its path is that of the events below
/// the base path.
proof fn lemma_poll_target(base_path: Seq<char>, cursor: CursorValue, timeout: nat)
    requires
        all_in(base_path, CharClass::Word),
        free_of(base_path, '?'),
    ensures
        all_in(poll_target(base_path, cursor, timeout), CharClass::Word),
        poll_target(base_path, cursor, timeout).len() > 0,
        path_of(poll_target(base_path, cursor, timeout)) == base_path + "v1/events"@,
{
    let target = poll_target(base_path, cursor, timeout);
    let a = decimal(cursor.after);
    let e = encoded(cursor.epoch);
    let t = decimal(timeout);
    reveal_strlit("v1/events?after=");
    reveal_strlit("&epoch=");
    reveal_strlit("&timeout=");
    decimal_reads_back(cursor.after, cursor.after);
    decimal_reads_back(timeout, timeout);
    encoding_is_url_safe(cursor.epoch);
    let p0 = base_path;
    let p1 = p0 + "v1/events?after="@;
    let p2 = p1 + a;
    let p3 = p2 + "&epoch="@;
    let p4 = p3 + e;
    let p5 = p4 + "&timeout="@;
    assert(target == p5 + t);
    assert forall|i: int| 0 <= i < target.len() implies CharClass::Word.has(#[trigger] target[i]) by {
        if i < p0.len() {
            assert(target[i] == p0[i]);
        } else if i < p1.len() {
            assert(target[i] == "v1/events?after="@[i - p0.len()]);
        } else if i < p2.len() {
            assert(target[i] == a[i - p1.len()]);
            assert(is_digit(a[i - p1.len()]));
        } else if i < p3.len() {
            assert(target[i] == "&epoch="@[i - p2.len()]);
        } else if i < p4.len() {
            assert(target[i] == e[i - p3.len()]);
            assert(url_safe(e[i - p3.len()]));
        } else if i < p5.len() {
            assert(target[i] == "&timeout="@[i - p4.len()]);
        } else {
            assert(target[i] == t[i - p5.len()]);
            assert(is_digit(t[i - p5.len()]));
        }
    }
    lemma_poll_target_parts(base_path, cursor, timeout);
}

/// A poll reaches the events of a relay: the relay reads it as it was sent,
/// lets it pass if, and only if, both hold one secret, and finds in it the
/// cursor and the time that the poller put into it. The relay must be at the
/// root path, below which its endpoints lie. Where a part of the URL or of the
/// secret would break the request line or a header, there is no such poll.
#[verifier::spinoff_prover]
#[verifier::rlimit(40)]
pub proof fn poll_reaches_the_events(
    relay: UrlParts,
    cursor: CursorValue,
    timeout: nat,
    secret: Seq<char>,
    relay_secret: Seq<char>,
)
    requires
        cursor.after <= u64::MAX,
        timeout <= MAX_TIMEOUT,
        all_in(relay.base_path, CharClass::Word),
        free_of(relay.base_path, '?'),
        free_of(relay.authority, '\n'),
        free_of(secret, '\n'),
        secret.len() > 0,
        !white_space(secret.last()),
    ensures
        ({
            let target = poll_target(relay.base_path, cursor, timeout);
            let head = poll_head(target, relay.authority, secret);
            &&& planned(relay, None, secret, cursor, timeout) matches Ok(plan)
            &&& head_of(Progress::RequestLine, plan.request) == (
                Step::ReadBody(head, 0),
                Seq::<char>::empty(),
            )
            &&& routed(head, relay_secret) == (if relay_secret != secret {
                Route::Unauthorized
            } else if relay.base_path == "/"@ {
                Route::GetEvents
            } else {
                Route::NotFound
            })
            &&& polled(head.target) == Ok::<_, Seq<char>>((cursor.after, timeout, cursor.epoch))
        }),
{
    let target = poll_target(relay.base_path, cursor, timeout);
    lemma_poll_target(relay.base_path, cursor, timeout);
    poll_is_read(target, relay.authority, secret, Seq::<char>::empty());
    let text = poll_text(target, relay.authority, secret);
    assert(text + Seq::<char>::empty() == text);
    reveal_strlit("/");
    reveal_strlit("v1/events");
    reveal_strlit("/v1/events");
    reveal_strlit("POST");
    reveal_strlit("GET");
    assert("POST"@.len() == 4 && "GET"@.len() == 3);
    let path = path_of(target);
    if relay.base_path == "/"@ {
        assert(path =~= "/v1/events"@);
    } else if path == "/v1/events"@ {
        assert(path.len() == relay.base_path.len() + "v1/events"@.len());
        assert(relay.base_path.len() == 1 && relay.base_path[0] == path[0]);
        assert(relay.base_path =~= "/"@);
    }
    assert(!relay.base_path.contains('?'));
    poll_reads_back(relay.base_path, cursor, timeout);
    if bearer(secret) == bearer(relay_secret) {
        assert(secret =~= bearer(secret).skip("Bearer "@.len() as int));
        assert(relay_secret =~= bearer(relay_secret).skip("Bearer "@.len() as int));
    }
}

/// A poll through a proxy is the same poll: it goes to the proxy, names the
/// relay in its target and bears the secret, so that the relay behind the
/// proxy lets it pass and reads the cursor from it. The proxy is given more
/// time than the relay may hold the poll open.
#[verifier::spinoff_prover]
#[verifier::rlimit(40)]
pub proof fn poll_through_a_proxy_bears_the_secret(
    relay: UrlParts,
    url: Seq<char>,
    cursor: CursorValue,
    timeout: nat,
    secret: Seq<char>,
)
    requires
        url_parts(url) is Ok,
        cursor.after <= u64::MAX,
        timeout <= MAX_TIMEOUT,
        all_in(relay.base_path, CharClass::Word),
        free_of(relay.base_path, '?'),
        all_in(relay.authority, CharClass::Word),
        free_of(relay.authority, '?'),
        free_of(secret, '\n'),
        secret.len() > 0,
        !white_space(secret.last()),
    ensures
        ({
            let via = url_parts(url)->Ok_0;
            let target = "http://"@ + relay.authority + poll_target(
                relay.base_path,
                cursor,
                timeout,
            );
            &&& planned(relay, Some(url), secret, cursor, timeout) matches Ok(plan)
            &&& plan.proxied
            &&& plan.host == via.host
            &&& plan.port == via.port
            &&& plan.read_timeout > timeout
            &&& head_of(Progress::RequestLine, plan.request) matches (
                Step::ReadBody(head, length),
                left,
            )
            &&& length == 0
            &&& left.len() == 0
            &&& head.method == "GET"@
            &&& head.target == target
            &&& head.headers.dom().contains("authorization"@)
            &&& head.headers["authorization"@] == "Bearer "@ + secret
            &&& head.headers.dom().contains("host"@)
            &&& head.headers["host"@] == trimmed(relay.authority, CharClass::Space)
            &&& polled(head.target) == Ok::<_, Seq<char>>((cursor.after, timeout, cursor.epoch))
        }),
{
    let whole = "http://"@ + relay.authority;
    let base = whole + relay.base_path;
    let target = poll_target(relay.base_path, cursor, timeout);
    assert(whole + target =~= poll_target(base, cursor, timeout));
    reveal_strlit("http://");
    assert(free_of(relay.authority, '\n')) by {
        assert forall|i: int| 0 <= i < relay.authority.len() implies #[trigger] relay.authority[i]
            != '\n' by {
            assert(CharClass::Word.has(relay.authority[i]));
        }
    }
    assert forall|i: int| 0 <= i < base.len() implies CharClass::Word.has(#[trigger] base[i])
        && base[i] != '?' by {
        if i < 7 {
            assert(base[i] == "http://"@[i]);
        } else if i < whole.len() {
            assert(base[i] == relay.authority[i - 7]);
            assert(CharClass::Word.has(relay.authority[i - 7]));
        } else {
            assert(base[i] == relay.base_path[i - whole.len()]);
            assert(CharClass::Word.has(relay.base_path[i - whole.len()]));
        }
    }
    lemma_poll_target(base, cursor, timeout);
    poll_is_read(whole + target, relay.authority, secret, Seq::<char>::empty());
    let text = poll_text(whole + target, relay.authority, secret);
    assert(text + Seq::<char>::empty() =~= text);
    assert(!base.contains('?'));
    poll_reads_back(base, cursor, timeout);
    reveal_strlit("host");
    reveal_strlit("authorization");
    reveal_strlit("accept");
    reveal_strlit("connection");
    assert("host"@.len() == 4 && "authorization"@.len() == 13);
    assert("accept"@.len() == 6 && "connection"@.len() == 10);
}

/// One step over a header line of a response.
#[verifier::spinoff_prover]
#[verifier::rlimit(40)]
proof fn lemma_response_field(
    code: u16,
    length: Option<usize>,
    name: Seq<char>,
    v: Seq<char>,
    rest: Seq<char>,
)
    requires
        free_of(name, ':'),
        free_of(name, '\n'),
        free_of(v, '\n'),
    ensures
        ({
            let line = name + seq![':', ' '] + v + seq!['\r', '\n'];
            let value = trimmed(v, CharClass::Space);
            &&& lowered(name) != "content-length"@ ==> response_of(
                ResponseProgress::Headers(code, length),
                line + rest,
            ) == response_of(ResponseProgress::Headers(code, length), rest)
            &&& lowered(name) == "content-length"@ && number(value, usize::MAX as nat) is Some
                ==> response_of(ResponseProgress::Headers(code, length), line + rest)
                == response_of(
                ResponseProgress::Headers(
                    code,
                    Some(number(value, usize::MAX as nat)->0 as usize),
                ),
                rest,
            )
        }),
{
    let x = seq![' '] + v + seq!['\r'];
    let l = name + seq![':'] + x;
    let line = name + seq![':', ' '] + v + seq!['\r', '\n'];
    let s = line + rest;
    let n = line_len(s);
    assert(s.take(n) == line && s.skip(n) == rest && s.len() > 0) by {
        assert(free_of(l, '\n'));
        lemma_line(l, rest);
        assert(s =~= l + seq!['\n'] + rest);
        assert(line =~= l + seq!['\n']);
    }
    let y = x + seq!['\n'];
    assert(line =~= name + seq![':'] + y);
    lemma_header(name, y);
    assert(trimmed(y, CharClass::Space) == trimmed(v, CharClass::Space)) by {
        assert(y =~= seq![' '] + v + seq!['\r', '\n']);
        lemma_trimmed_around(seq![' '], v, seq!['\r', '\n'], CharClass::Space);
    }
}

/// The characters of the literals of a response.
proof fn lemma_response_literals()
    ensures
        "HTTP/1.1 "@ == "HTTP/1.1"@ + seq![' '],
        "\r\nContent-Type: application/json\r\nContent-Length: "@ == seq!['\r', '\n']
            + "Content-Type"@ + seq![':', ' '] + "application/json"@ + seq!['\r', '\n']
            + "Content-Length"@ + seq![':', ' '],
        "\r\nCache-Control: no-store\r\nConnection: close\r\n\r\n"@ == seq!['\r', '\n']
            + "Cache-Control"@ + seq![':', ' '] + "no-store"@ + seq!['\r', '\n'] + "Connection"@
            + seq![':', ' '] + "close"@ + seq!['\r', '\n'] + "\r\n"@,
        free_of("Content-Type"@, ':') && free_of("Content-Type"@, '\n'),
        free_of("Content-Length"@, ':') && free_of("Content-Length"@, '\n'),
        free_of("Cache-Control"@, ':') && free_of("Cache-Control"@, '\n'),
        "Content-Type"@.len() == 12 && "Content-Length"@.len() == 14 && "Cache-Control"@.len()
            == 13,
        free_of("no-store"@, '\n') && free_of("application/json"@, '\n') && free_of(
            "close"@,
            '\n',
        ),
        lowered("Content-Length"@) == "content-length"@,
        lowered("Content-Type"@).len() == 12,
        lowered("Cache-Control"@).len() == 13,
        lowered("Connection"@).len() == 10,
        "content-length"@.len() == 14,
{
    reveal_strlit("HTTP/1.1 ");
    reveal_strlit("HTTP/1.1");
    reveal_strlit("\r\nContent-Type: application/json\r\nContent-Length: ");
    reveal_strlit("\r\nCache-Control: no-store\r\nConnection: close\r\n\r\n");
    reveal_strlit("Content-Type");
    reveal_strlit("Content-Length");
    reveal_strlit("Cache-Control");
    reveal_strlit("Connection");
    reveal_strlit("application/json");
    reveal_strlit("no-store");
    reveal_strlit("close");
    reveal_strlit("content-length");
    reveal_strlit("\r\n");
    assert("HTTP/1.1 "@ =~= "HTTP/1.1"@ + seq![' ']);
    assert("\r\nContent-Type: application/json\r\nContent-Length: "@ =~= seq!['\r', '\n']
        + "Content-Type"@ + seq![':', ' '] + "application/json"@ + seq!['\r', '\n']
        + "Content-Length"@ + seq![':', ' ']);
    assert("\r\nCache-Control: no-store\r\nConnection: close\r\n\r\n"@ =~= seq!['\r', '\n']
        + "Cache-Control"@ + seq![':', ' '] + "no-store"@ + seq!['\r', '\n'] + "Connection"@
        + seq![':', ' '] + "close"@ + seq!['\r', '\n'] + "\r\n"@);
    assert(lowered("Content-Length"@) =~= "content-length"@);
}

/// A reason phrase breaks no line.
proof fn lemma_reason(code: u16)
    ensures
        free_of(reason_phrase(code), '\n'),
{
    reveal_strlit("OK");
    reveal_strlit("Created");
    reveal_strlit("Bad Request");
    reveal_strlit("Unauthorized");
    reveal_strlit("Not Found");
    reveal_strlit("Internal Server Error");
}

/// One step over the status line of a response.
proof fn lemma_status_line(code: u16, rest: Seq<char>)
    ensures
        response_of(
            ResponseProgress::Status,
            "HTTP/1.1 "@ + decimal(code as nat) + " "@ + reason_phrase(code) + seq!['\r', '\n']
                + rest,
        ) == response_of(ResponseProgress::Headers(code, None), rest),
{
    lemma_literals();
    lemma_response_literals();
    lemma_reason(code);
    decimal_reads_back(code as nat, u16::MAX as nat);
    let d = decimal(code as nat);
    let reason = reason_phrase(code);
    let l = "HTTP/1.1"@ + seq![' '] + d + seq![' '] + reason + seq!['\r'];
    assert(all_in(d, CharClass::Word)) by {
        assert forall|i: int| 0 <= i < d.len() implies CharClass::Word.has(#[trigger] d[i]) by {
            assert(is_digit(d[i]));
        }
    }
    assert(free_of(l, '\n')) by {
        assert forall|i: int| 0 <= i < l.len() implies #[trigger] l[i] != '\n' by {
            if i < 8 {
                assert(CharClass::Word.has("HTTP/1.1"@[i]));
            } else if 9 <= i < 9 + d.len() {
                assert(l[i] == d[i - 9]);
                assert(is_digit(d[i - 9]));
            } else if 10 + d.len() <= i < 10 + d.len() + reason.len() {
                assert(l[i] == reason[i - 10 - d.len()]);
            }
        }
    }
    lemma_line(l, rest);
    assert("HTTP/1.1 "@ + d + " "@ + reason + seq!['\r', '\n'] + rest =~= l + seq!['\n'] + rest);
    let t3 = reason + seq!['\r', '\n'];
    let t2 = d + (seq![' '] + t3);
    let t1 = "HTTP/1.1"@ + (seq![' '] + t2);
    assert(l + seq!['\n'] =~= t1);
    lemma_words_first("HTTP/1.1"@, seq![' '] + t2);
    lemma_words_after_space(seq![' '], t2);
    lemma_words_first(d, seq![' '] + t3);
    let w = words(t1);
    assert(w[1] == d) by {
        assert(w[1] == words(t2)[0]);
    }
}

/// The poller reads a response of the relay as the relay means it: the
/// status, and a body with the length that the head announces. Where the
/// status is 200 it takes the body as the text that the relay sent, else it
/// reports the status.
#[verifier::spinoff_prover]
#[verifier::rlimit(40)]
pub proof fn response_reads_back(code: u16, body: Seq<char>)
    requires
        encode_utf8(body).len() <= usize::MAX,
    ensures
        ({
            let length = encode_utf8(body).len() as usize;
            &&& response_of(ResponseProgress::Status, response(code, body)) == (
                Received::ReadBody(code, Some(length)),
                body,
            )
            &&& response_text(code, Some(length), Some(encode_utf8(body))) == (if code == 200 {
                Ok(body)
            } else {
                Err("relay returned HTTP "@ + decimal(code as nat))
            })
        }),
{
    lemma_literals();
    lemma_response_literals();
    let n = encode_utf8(body).len();
    let crlf = seq!['\r', '\n'];
    let digits = decimal(n);
    decimal_reads_back(n, usize::MAX as nat);
    let s5 = "\r\n"@ + body;
    let s4 = "Connection"@ + seq![':', ' '] + "close"@ + crlf + s5;
    let s3 = "Cache-Control"@ + seq![':', ' '] + "no-store"@ + crlf + s4;
    let s2 = "Content-Length"@ + seq![':', ' '] + digits + crlf + s3;
    let s1 = "Content-Type"@ + seq![':', ' '] + "application/json"@ + crlf + s2;
    assert(response(code, body) =~= "HTTP/1.1 "@ + decimal(code as nat) + " "@ + reason_phrase(
        code,
    ) + crlf + s1);
    lemma_status_line(code, s1);
    lemma_response_field(code, None, "Content-Type"@, "application/json"@, s2);
    assert(all_in(digits, CharClass::Word)) by {
        assert forall|i: int| 0 <= i < digits.len() implies CharClass::Word.has(
            #[trigger] digits[i],
        ) by {
            assert(is_digit(digits[i]));
        }
    }
    lemma_word_value(digits);
    lemma_response_field(code, None, "Content-Length"@, digits, s3);
    let length = Some(n as usize);
    lemma_response_field(code, length, "Cache-Control"@, "no-store"@, s4);
    lemma_response_field(code, length, "Connection"@, "close"@, s5);
    assert(s5 =~= seq!['\r'] + seq!['\n'] + body);
    lemma_line(seq!['\r'], body);
    assert(seq!['\r'] + seq!['\n'] =~= "\r\n"@);
    encode_utf8_valid_utf8(body);
    encode_utf8_decode_utf8(body);
}

/// Header names count whatever the case of their letters.
pub proof fn header_names_ignore_case(
    head: HeadValue,
    name: Seq<char>,
    other: Seq<char>,
    value: Seq<char>,
)
    requires
        lowered(name) == lowered(other),
        free_of(name, ':'),
        free_of(other, ':'),
    ensures
        after_header_line(head, name + seq![':'] + value) == after_header_line(
            head,
            other + seq![':'] + value,
        ),
{
    lemma_header(name, value);
    lemma_header(other, value);
}

} // verus!
