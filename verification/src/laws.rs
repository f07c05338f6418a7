//! What a poll asks for is what the relay reads from it, and, below, what the
//! parts of the library promise.

pub mod config;
pub mod delivery;
pub mod exec;
pub mod http;
pub mod json;
pub mod jules;
pub mod poller;
pub mod query;
pub mod relay;
pub mod tailnet;
pub mod text;
pub mod url;

use crate::http::path_of;
use crate::poller::{poll_target, CursorValue};
use crate::query::{
    decoded, encoded, encoding_is_url_safe, encoding_reads_back, escaped, escaped_byte, parameter,
    parameters, polled, unreserved, url_safe, MAX_TIMEOUT,
};
use crate::scan::{free_of, lemma_first_cut, lemma_one_piece, lemma_pieces};
use crate::text::{decimal, decimal_reads_back, first_cut, is_digit, pieces};
use vstd::prelude::*;
use vstd::utf8::{encode_utf8, is_ascii_chars, is_ascii_chars_encode_utf8};

verus! {

/// Whether a character stands for itself in a URL.
spec fn plain_char(c: char) -> bool {
    url_safe(c) && c != '%'
}

/// A text of characters that stand for themselves is its own encoding.
proof fn lemma_plain(s: Seq<char>)
    requires
        forall|i: int| 0 <= i < s.len() ==> plain_char(#[trigger] s[i]),
    ensures
        decoded(s) == Some(s),
{
    assert(is_ascii_chars(s)) by {
        assert forall|i: int| 0 <= i < s.len() implies '\0' <= #[trigger] s[i] <= '\u{7f}' by {
            assert(plain_char(s[i]));
        }
    }
    is_ascii_chars_encode_utf8(s);
    let b = encode_utf8(s);
    assert forall|i: int| 0 <= i < b.len() implies unreserved(#[trigger] b[i]) && b[i] as char
        == s[i] by {
        assert(plain_char(s[i]));
        assert(s[i] as u8 == b[i]);
    }
    lemma_plain_bytes(b, s);
    encoding_reads_back(s);
}

proof fn lemma_plain_bytes(b: Seq<u8>, s: Seq<char>)
    requires
        b.len() == s.len(),
        forall|i: int| 0 <= i < b.len() ==> unreserved(#[trigger] b[i]) && b[i] as char == s[i],
    ensures
        escaped(b) == s,
    decreases b.len(),
{
    if b.len() > 0 {
        assert forall|i: int| 0 <= i < b.drop_last().len() implies unreserved(
            #[trigger] b.drop_last()[i],
        ) && b.drop_last()[i] as char == s.drop_last()[i] by {
            assert(b.drop_last()[i] == b[i]);
        }
        lemma_plain_bytes(b.drop_last(), s.drop_last());
        assert(unreserved(b[b.len() - 1]));
        assert(escaped_byte(b.last()) == seq![s.last()]);
        assert(s.drop_last() + seq![s.last()] == s);
    } else {
        assert(s == Seq::<char>::empty());
    }
}

/// A number in decimal stands for itself in a URL.
proof fn lemma_decimal_plain(n: nat)
    ensures
        forall|i: int| 0 <= i < decimal(n).len() ==> plain_char(#[trigger] decimal(n)[i]),
        decoded(decimal(n)) == Some(decimal(n)),
{
    decimal_reads_back(n, n);
    assert forall|i: int| 0 <= i < decimal(n).len() implies plain_char(#[trigger] decimal(n)[i]) by {
        assert(is_digit(decimal(n)[i]));
    }
    lemma_plain(decimal(n));
}

/// A parameter with a plain name and an encoded value reads back.
proof fn lemma_parameter(name: Seq<char>, raw: Seq<char>, value: Seq<char>)
    requires
        forall|i: int| 0 <= i < name.len() ==> plain_char(#[trigger] name[i]),
        decoded(raw) == Some(value),
    ensures
        parameter(name + seq!['='] + raw) == Some((name, value)),
{
    assert(free_of(name, '=')) by {
        assert forall|i: int| 0 <= i < name.len() implies #[trigger] name[i] != '=' by {
            assert(plain_char(name[i]));
        }
    }
    lemma_first_cut(name, '=', raw);
    lemma_plain(name);
}

/// The query of a poll.
pub open spec fn poll_query(cursor: CursorValue, timeout: nat) -> Seq<char> {
    "after"@ + seq!['='] + decimal(cursor.after) + seq!['&'] + ("epoch"@ + seq!['='] + encoded(
        cursor.epoch,
    ) + seq!['&'] + ("timeout"@ + seq!['='] + decimal(timeout)))
}

/// The target of a poll is the path of the events below the base path, then
/// the query.
pub proof fn lemma_poll_target_parts(base_path: Seq<char>, cursor: CursorValue, timeout: nat)
    requires
        free_of(base_path, '?'),
    ensures
        first_cut(poll_target(base_path, cursor, timeout), '?') == Some(
            (base_path + "v1/events"@, poll_query(cursor, timeout)),
        ),
        path_of(poll_target(base_path, cursor, timeout)) == base_path + "v1/events"@,
{
    reveal_strlit("v1/events?after=");
    reveal_strlit("v1/events");
    reveal_strlit("&epoch=");
    reveal_strlit("&timeout=");
    reveal_strlit("after");
    reveal_strlit("epoch");
    reveal_strlit("timeout");
    let path = base_path + "v1/events"@;
    let raw = poll_query(cursor, timeout);
    assert(poll_target(base_path, cursor, timeout) =~= path + seq!['?'] + raw);
    assert forall|i: int| 0 <= i < path.len() implies #[trigger] path[i] != '?' by {
        if i < base_path.len() {
            assert(path[i] == base_path[i]);
        } else {
            assert(path[i] == "v1/events"@[i - base_path.len()]);
        }
    }
    lemma_first_cut(path, '?', raw);
}

/// The relay reads from a poll exactly what the poller put into it, whatever
/// the epoch holds. The base path must not hold a question mark, which would
/// begin the query.
pub proof fn poll_reads_back(base_path: Seq<char>, cursor: CursorValue, timeout: nat)
    requires
        !base_path.contains('?'),
        cursor.after <= u64::MAX,
        timeout <= MAX_TIMEOUT,
    ensures
        polled(poll_target(base_path, cursor, timeout)) == Ok::<_, Seq<char>>(
            (cursor.after, timeout, cursor.epoch),
        ),
{
    let a = decimal(cursor.after);
    let e = encoded(cursor.epoch);
    let t = decimal(timeout);
    reveal_strlit("after");
    reveal_strlit("epoch");
    reveal_strlit("timeout");
    assert forall|i: int| 0 <= i < base_path.len() implies #[trigger] base_path[i] != '?' by {
        assert(base_path.contains(base_path[i]));
    }
    lemma_poll_target_parts(base_path, cursor, timeout);
    lemma_decimal_plain(cursor.after);
    lemma_decimal_plain(timeout);
    encoding_is_url_safe(cursor.epoch);
    encoding_reads_back(cursor.epoch);
    let i1 = "after"@ + seq!['='] + a;
    let i2 = "epoch"@ + seq!['='] + e;
    let i3 = "timeout"@ + seq!['='] + t;
    let raw = poll_query(cursor, timeout);
    assert(raw == i1 + seq!['&'] + (i2 + seq!['&'] + i3));
    assert(free_of(i1, '&')) by {
        assert forall|i: int| 0 <= i < i1.len() implies #[trigger] i1[i] != '&' by {
            if i >= 6 {
                assert(i1[i] == a[i - 6]);
                assert(plain_char(a[i - 6]));
            }
        }
    }
    assert(free_of(i2, '&')) by {
        assert forall|i: int| 0 <= i < i2.len() implies #[trigger] i2[i] != '&' by {
            if i >= 6 {
                assert(i2[i] == e[i - 6]);
                assert(url_safe(e[i - 6]));
            }
        }
    }
    assert(free_of(i3, '&')) by {
        assert forall|i: int| 0 <= i < i3.len() implies #[trigger] i3[i] != '&' by {
            if i >= 8 {
                assert(i3[i] == t[i - 8]);
                assert(plain_char(t[i - 8]));
            }
        }
    }
    lemma_pieces(i1, '&', i2 + seq!['&'] + i3);
    lemma_pieces(i2, '&', i3);
    lemma_one_piece(i3, '&');
    let items = pieces(raw, '&');
    assert(items =~= seq![i1, i2, i3]);
    lemma_parameter("after"@, a, a);
    lemma_parameter("epoch"@, e, cursor.epoch);
    lemma_parameter("timeout"@, t, t);
    let m0 = Map::<Seq<char>, Seq<char>>::empty();
    let m1 = m0.insert("after"@, a);
    let m2 = m1.insert("epoch"@, cursor.epoch);
    let m3 = m2.insert("timeout"@, t);
    assert(items.drop_last() =~= seq![i1, i2]);
    assert(items.drop_last().drop_last() =~= seq![i1]);
    assert(items.drop_last().drop_last().drop_last() =~= Seq::<Seq<char>>::empty());
    assert(parameters(items.drop_last().drop_last().drop_last()) == Some(m0));
    assert(parameters(items.drop_last().drop_last()) == Some(m1));
    assert(parameters(items.drop_last()) == Some(m2));
    assert(parameters(items) == Some(m3));
    assert("after"@.len() == 5 && "timeout"@.len() == 7);
    assert("after"@[0] != "epoch"@[0] && "timeout"@[0] != "epoch"@[0]);
    assert(m3.contains_key("after"@) && m3["after"@] == a);
    assert(m3.contains_key("epoch"@) && m3["epoch"@] == cursor.epoch);
    assert(m3.contains_key("timeout"@) && m3["timeout"@] == t);
    decimal_reads_back(cursor.after, u64::MAX as nat);
    decimal_reads_back(timeout, u64::MAX as nat);
}

} // verus!
