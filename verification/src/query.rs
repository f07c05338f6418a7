//! Percent encoding and the query part of a request target.

use crate::bytes;
use crate::text;
use vstd::hash_map::StringHashMap;
use vstd::prelude::*;
use vstd::utf8::{
    encode_utf8, encode_utf8_decode_utf8, encode_utf8_valid_utf8, is_ascii_chars,
    is_ascii_chars_encode_utf8,
};

verus! {

/// The value of an ASCII hexadecimal digit.
pub open spec fn hex_value(byte: u8) -> Option<u8> {
    if 0x30 <= byte <= 0x39 {
        Some((byte - 0x30) as u8)
    } else if 0x61 <= byte <= 0x66 {
        Some((byte - 0x61 + 10) as u8)
    } else if 0x41 <= byte <= 0x46 {
        Some((byte - 0x41 + 10) as u8)
    } else {
        None
    }
}

/// The bytes that a percent-encoded byte sequence stands for: `%` and two
/// hexadecimal digits for the byte of that value, `+` for a space, any other
/// byte for itself.
pub open spec fn unescaped(s: Seq<u8>) -> Option<Seq<u8>>
    decreases s.len(),
{
    if s.len() == 0 {
        Some(seq![])
    } else if s[0] == 0x25 {
        if s.len() < 3 {
            None
        } else {
            match (hex_value(s[1]), hex_value(s[2]), unescaped(s.skip(3))) {
                (Some(high), Some(low), Some(rest)) => Some(seq![(high * 16 + low) as u8] + rest),
                _ => None,
            }
        }
    } else {
        match unescaped(s.skip(1)) {
            Some(rest) => Some(
                seq![
                    if s[0] == 0x2b {
                        0x20u8
                    } else {
                        s[0]
                    },
                ] + rest,
            ),
            None => None,
        }
    }
}

/// The text that a percent-encoded text stands for.
pub open spec fn decoded(s: Seq<char>) -> Option<Seq<char>> {
    match unescaped(encode_utf8(s)) {
        Some(b) => bytes::utf8_text(b),
        None => None,
    }
}

/// What is answered to a text that is not percent-encoded.
pub open spec fn bad_encoding() -> Seq<char> {
    "invalid URL encoding"@
}

/// The value of a hexadecimal digit.
pub fn hex(byte: u8) -> (r: Result<u8, String>)
    ensures
        match r {
            Ok(v) => hex_value(byte) == Some(v) && v < 16,
            Err(message) => hex_value(byte) is None && message@ == bad_encoding(),
        },
{
    if 0x30 <= byte && byte <= 0x39 {
        Ok(byte - 0x30)
    } else if 0x61 <= byte && byte <= 0x66 {
        Ok(byte - 0x61 + 10)
    } else if 0x41 <= byte && byte <= 0x46 {
        Ok(byte - 0x41 + 10)
    } else {
        Err("invalid URL encoding".to_owned())
    }
}

/// Decodes a percent-encoded text.
pub fn percent_decode(input: &str) -> (r: Result<String, String>)
    ensures
        match r {
            Ok(s) => decoded(input@) == Some(s@),
            Err(message) => decoded(input@) is None && message@ == bad_encoding(),
        },
{
    let raw = input.as_bytes();
    let mut out: Vec<u8> = Vec::new();
    let mut i: usize = 0;
    assert(raw@.skip(0) == raw@);
    while i < raw.len()
        invariant
            i <= raw.len(),
            raw@ == encode_utf8(input@),
            unescaped(raw@) == (match unescaped(raw@.skip(i as int)) {
                Some(rest) => Some(out@ + rest),
                None => None,
            }),
        decreases raw.len() - i,
    {
        let ghost rest = raw@.skip(i as int);
        let ghost before = out@;
        let byte: u8 = raw[i];
        assert(rest[0] == byte);
        if byte == 0x25 {
            if raw.len() - i < 3 {
                return Err("invalid URL encoding".to_owned());
            }
            assert(rest[1] == raw@[i + 1] && rest[2] == raw@[i + 2]);
            let high: u8 = match hex(raw[i + 1]) {
                Ok(v) => v,
                Err(message) => {
                    return Err(message);
                },
            };
            let low: u8 = match hex(raw[i + 2]) {
                Ok(v) => v,
                Err(message) => {
                    return Err(message);
                },
            };
            out.push(high * 16 + low);
            i = i + 3;
            assert(rest.skip(3) == raw@.skip(i as int));
        } else {
            out.push(
                if byte == 0x2b {
                    0x20
                } else {
                    byte
                },
            );
            i = i + 1;
            assert(rest.skip(1) == raw@.skip(i as int));
        }
        proof {
            if let Some(tail) = unescaped(raw@.skip(i as int)) {
                assert(out@ + tail == before + (seq![out@.last()] + tail));
            }
        }
    }
    assert(raw@.skip(i as int) == Seq::<u8>::empty());
    assert(unescaped(raw@) == Some(out@ + Seq::<u8>::empty()));
    assert(out@ + Seq::<u8>::empty() == out@);
    match bytes::to_text(out) {
        Some(s) => Ok(s),
        None => Err("invalid URL encoding".to_owned()),
    }
}

/// Whether a byte stands for itself in a URL.
pub open spec fn unreserved(b: u8) -> bool {
    ||| 0x41 <= b <= 0x5a
    ||| 0x61 <= b <= 0x7a
    ||| 0x30 <= b <= 0x39
    ||| b == 0x2d
    ||| b == 0x5f
    ||| b == 0x2e
    ||| b == 0x7e
}

/// The upper-case hexadecimal digit of a value.
pub open spec fn hex_char(v: nat) -> char {
    if v < 10 {
        (48 + v) as char
    } else {
        (55 + v) as char
    }
}

/// The percent encoding of one byte.
pub open spec fn escaped_byte(b: u8) -> Seq<char> {
    if unreserved(b) {
        seq![b as char]
    } else {
        seq!['%', hex_char((b / 16) as nat), hex_char((b % 16) as nat)]
    }
}

/// The percent encoding of a byte sequence.
pub open spec fn escaped(s: Seq<u8>) -> Seq<char>
    decreases s.len(),
{
    if s.len() == 0 {
        seq![]
    } else {
        escaped(s.drop_last()) + escaped_byte(s.last())
    }
}

/// The percent encoding of a text.
pub open spec fn encoded(s: Seq<char>) -> Seq<char> {
    escaped(encode_utf8(s))
}

fn upper_hex(v: u8) -> (c: char)
    requires
        v < 16,
    ensures
        c == hex_char(v as nat),
{
    if v < 10 {
        (48 + v) as char
    } else {
        (55 + v) as char
    }
}

/// Percent-encodes a text.
pub fn encode(input: &str) -> (r: String)
    ensures
        r@ == encoded(input@),
{
    let raw = input.as_bytes();
    let mut out = String::new();
    let mut i: usize = 0;
    assert(raw@.take(0) == Seq::<u8>::empty());
    while i < raw.len()
        invariant
            i <= raw.len(),
            out@ == escaped(raw@.take(i as int)),
        decreases raw.len() - i,
    {
        let b: u8 = raw[i];
        let ghost before = out@;
        let plain = (0x41 <= b && b <= 0x5a) || (0x61 <= b && b <= 0x7a) || (0x30 <= b && b <= 0x39)
            || b == 0x2d || b == 0x5f || b == 0x2e || b == 0x7e;
        if plain {
            out.push(b as char);
        } else {
            out.push('%');
            out.push(upper_hex(b / 16));
            out.push(upper_hex(b % 16));
        }
        assert(out@ == before + escaped_byte(b));
        assert(raw@.take(i + 1).drop_last() == raw@.take(i as int));
        i = i + 1;
    }
    assert(raw@.take(i as int) == raw@);
    out
}

/// The name and the value that an item of a query stands for.
pub open spec fn parameter(item: Seq<char>) -> Option<(Seq<char>, Seq<char>)> {
    let (key, value) = match text::first_cut(item, '=') {
        Some(pair) => pair,
        None => (item, seq![]),
    };
    match (decoded(key), decoded(value)) {
        (Some(k), Some(v)) => Some((k, v)),
        _ => None,
    }
}

/// The parameters that a list of items stands for. Empty items stand for
/// none; of two with one name the later one counts.
pub open spec fn parameters(items: Seq<Seq<char>>) -> Option<Map<Seq<char>, Seq<char>>>
    decreases items.len(),
{
    if items.len() == 0 {
        Some(Map::empty())
    } else {
        match parameters(items.drop_last()) {
            None => None,
            Some(m) => if items.last().len() == 0 {
                Some(m)
            } else {
                match parameter(items.last()) {
                    Some((k, v)) => Some(m.insert(k, v)),
                    None => None,
                }
            },
        }
    }
}

/// The parameters in the query part of a request target.
pub open spec fn queried(target: Seq<char>) -> Option<Map<Seq<char>, Seq<char>>> {
    match text::first_cut(target, '?') {
        None => Some(Map::empty()),
        Some((_, raw)) => parameters(text::pieces(raw, '&')),
    }
}

/// The texts that a map of strings holds.
pub open spec fn entries(m: Map<Seq<char>, String>) -> Map<Seq<char>, Seq<char>> {
    m.map_values(|s: String| s@)
}

/// Where one item cannot be decoded, the list it begins cannot either.
proof fn lemma_parameters_fail(items: Seq<Seq<char>>, n: int)
    requires
        0 <= n <= items.len(),
        parameters(items.take(n)) is None,
    ensures
        parameters(items) is None,
    decreases items.len(),
{
    if n < items.len() {
        assert(items.drop_last().take(n) == items.take(n));
        lemma_parameters_fail(items.drop_last(), n);
    } else {
        assert(items.take(n) == items);
    }
}

/// Reads the parameters of a request target.
pub fn query(target: &str) -> (r: Result<StringHashMap<String>, String>)
    ensures
        match r {
            Ok(m) => queried(target@) == Some(entries(m@)),
            Err(message) => queried(target@) is None && message@ == bad_encoding(),
        },
{
    let mut out: StringHashMap<String> = StringHashMap::new();
    let chars = text::chars_of(target);
    assert(entries(out@) =~= Map::<Seq<char>, Seq<char>>::empty());
    let raw = match text::split_once(chars.as_slice(), '?') {
        Some((_, raw)) => raw,
        None => {
            return Ok(out);
        },
    };
    let items = text::split(raw, '&');
    let ghost all = text::texts(items@);
    let mut i: usize = 0;
    assert(all.take(0) == Seq::<Seq<char>>::empty());
    while i < items.len()
        invariant
            i <= items.len(),
            all == text::texts(items@),
            queried(target@) == parameters(all),
            parameters(all.take(i as int)) == Some(entries(out@)),
        decreases items.len() - i,
    {
        let item = text::chars_of(items[i].as_str());
        proof {
            assert(all.take(i + 1).drop_last() == all.take(i as int));
            assert(all.take(i + 1).last() == item@);
        }
        if item.len() > 0 {
            let (key, value) = match text::split_once(item.as_slice(), '=') {
                Some((k, v)) => (text::string_of(k), text::string_of(v)),
                None => (text::string_of(item.as_slice()), String::new()),
            };
            let k = match percent_decode(key.as_str()) {
                Ok(k) => k,
                Err(message) => {
                    proof {
                        lemma_parameters_fail(all, i + 1);
                    }
                    return Err(message);
                },
            };
            let v = match percent_decode(value.as_str()) {
                Ok(v) => v,
                Err(message) => {
                    proof {
                        lemma_parameters_fail(all, i + 1);
                    }
                    return Err(message);
                },
            };
            let ghost before = out@;
            let ghost name = k@;
            let ghost shown = v@;
            out.insert(k, v);
            assert(entries(out@) =~= entries(before).insert(name, shown));
        }
        i = i + 1;
    }
    assert(all.take(i as int) == all);
    Ok(out)
}

/// The longest time, in seconds, that a poll may be held open.
pub const MAX_TIMEOUT: u64 = 55;

/// What a poll asks for: the sequence number to read after, the time to wait
/// in seconds and the epoch. Where the target is no poll, the reason.
pub open spec fn polled(target: Seq<char>) -> Result<(nat, nat, Seq<char>), Seq<char>> {
    match queried(target) {
        None => Err(bad_encoding()),
        Some(m) => {
            let after = if m.contains_key("after"@) {
                text::number(m["after"@], u64::MAX as nat)
            } else {
                Some(0)
            };
            let timeout = if m.contains_key("timeout"@) {
                text::number(m["timeout"@], u64::MAX as nat)
            } else {
                Some(50)
            };
            let epoch = if m.contains_key("epoch"@) {
                m["epoch"@]
            } else {
                seq![]
            };
            if after is None {
                Err("after must be a non-negative integer"@)
            } else if timeout is None {
                Err("timeout must be an integer"@)
            } else if timeout->0 > MAX_TIMEOUT {
                Err("timeout must be between 0 and 55"@)
            } else {
                Ok((after->0, timeout->0, epoch))
            }
        },
    }
}

/// Reads what a poll asks for.
pub fn get_query(target: &str) -> (r: Result<(u64, u64, String), String>)
    ensures
        match r {
            Ok((after, timeout, epoch)) => polled(target@) == Ok::<_, Seq<char>>(
                (after as nat, timeout as nat, epoch@),
            ),
            Err(message) => polled(target@) == Err::<(nat, nat, Seq<char>), _>(message@),
        },
{
    let params = match query(target) {
        Ok(m) => m,
        Err(message) => {
            return Err(message);
        },
    };
    let ghost m = entries(params@);
    let after: u64 = match params.get("after") {
        Some(value) => {
            let chars = text::chars_of(value.as_str());
            assert(m["after"@] == value@);
            match text::parse_number(chars.as_slice(), u64::MAX) {
                Some(n) => n,
                None => {
                    return Err("after must be a non-negative integer".to_owned());
                },
            }
        },
        None => 0,
    };
    let timeout: u64 = match params.get("timeout") {
        Some(value) => {
            let chars = text::chars_of(value.as_str());
            assert(m["timeout"@] == value@);
            match text::parse_number(chars.as_slice(), u64::MAX) {
                Some(n) => n,
                None => {
                    return Err("timeout must be an integer".to_owned());
                },
            }
        },
        None => 50,
    };
    if timeout > MAX_TIMEOUT {
        return Err("timeout must be between 0 and 55".to_owned());
    }
    let epoch = match params.get("epoch") {
        Some(value) => value.clone(),
        None => String::new(),
    };
    Ok((after, timeout, epoch))
}

/// The encoding of a byte sequence begins with that of its first byte.
proof fn lemma_escaped_first(s: Seq<u8>)
    requires
        s.len() > 0,
    ensures
        escaped(s) == escaped_byte(s[0]) + escaped(s.skip(1)),
    decreases s.len(),
{
    if s.len() == 1 {
        assert(s.drop_last() == Seq::<u8>::empty());
        assert(s.skip(1) == Seq::<u8>::empty());
        assert(escaped(s) == escaped_byte(s[0]) + escaped(s.skip(1)));
    } else {
        lemma_escaped_first(s.drop_last());
        assert(s.drop_last().skip(1) == s.skip(1).drop_last());
        assert(escaped(s) == escaped_byte(s[0]) + escaped(s.skip(1)));
    }
}

/// The encoding of one byte, as bytes.
proof fn lemma_escaped_byte(b: u8)
    ensures
        is_ascii_chars(escaped_byte(b)),
        unreserved(b) ==> encode_utf8(escaped_byte(b)) == seq![b],
        !unreserved(b) ==> ({
            let e = encode_utf8(escaped_byte(b));
            &&& e.len() == 3
            &&& e[0] == 0x25
            &&& hex_value(e[1]) == Some((b / 16) as u8)
            &&& hex_value(e[2]) == Some((b % 16) as u8)
        }),
{
    is_ascii_chars_encode_utf8(escaped_byte(b));
    let e = encode_utf8(escaped_byte(b));
    if unreserved(b) {
        assert(escaped_byte(b)[0] as u8 == e[0]);
        assert(e == seq![b]);
    } else {
        assert(escaped_byte(b)[0] as u8 == e[0]);
        assert(escaped_byte(b)[1] as u8 == e[1]);
        assert(escaped_byte(b)[2] as u8 == e[2]);
    }
}

proof fn lemma_unescaped_escaped(s: Seq<u8>)
    ensures
        unescaped(encode_utf8(escaped(s))) == Some(s),
    decreases s.len(),
{
    if s.len() == 0 {
        assert(encode_utf8(escaped(s)) == Seq::<u8>::empty());
        assert(s == Seq::<u8>::empty());
    } else {
        let b = s[0];
        let rest = s.skip(1);
        let head = encode_utf8(escaped_byte(b));
        let tail = encode_utf8(escaped(rest));
        lemma_escaped_first(s);
        bytes::encode_utf8_concat(escaped_byte(b), escaped(rest));
        lemma_unescaped_escaped(rest);
        lemma_escaped_byte(b);
        let all = head + tail;
        assert(seq![b] + rest == s);
        if unreserved(b) {
            assert(all.skip(1) == tail);
            assert(all[0] == b);
        } else {
            assert(all.skip(3) == tail);
            assert(all[0] == 0x25 && all[1] == head[1] && all[2] == head[2]);
            assert(b / 16 * 16 + b % 16 == b);
        }
    }
}

/// A percent-encoded text decodes to the text that was encoded.
pub proof fn encoding_reads_back(s: Seq<char>)
    ensures
        decoded(encoded(s)) == Some(s),
{
    lemma_unescaped_escaped(encode_utf8(s));
    encode_utf8_valid_utf8(s);
    encode_utf8_decode_utf8(s);
}

/// Whether a character stands for itself in a URL or introduces an escape.
pub open spec fn url_safe(c: char) -> bool {
    ||| 'A' <= c <= 'Z'
    ||| 'a' <= c <= 'z'
    ||| '0' <= c <= '9'
    ||| c == '-'
    ||| c == '_'
    ||| c == '.'
    ||| c == '~'
    ||| c == '%'
}

/// A percent-encoded text holds no character that separates the parts of a
/// URL or of a request line.
pub proof fn encoding_is_url_safe(s: Seq<char>)
    ensures
        forall|i: int| 0 <= i < encoded(s).len() ==> url_safe(#[trigger] encoded(s)[i]),
{
    lemma_escaped_is_safe(encode_utf8(s));
}

proof fn lemma_escaped_is_safe(s: Seq<u8>)
    ensures
        forall|i: int| 0 <= i < escaped(s).len() ==> url_safe(#[trigger] escaped(s)[i]),
    decreases s.len(),
{
    if s.len() > 0 {
        let front = escaped(s.drop_last());
        lemma_escaped_is_safe(s.drop_last());
        assert forall|i: int| 0 <= i < escaped(s).len() implies url_safe(
            #[trigger] escaped(s)[i],
        ) by {
            if i < front.len() {
                assert(escaped(s)[i] == front[i]);
            } else {
                assert(escaped(s)[i] == escaped_byte(s.last())[i - front.len()]);
            }
        }
    }
}

} // verus!
