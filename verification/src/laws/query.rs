//! What percent encoding and the query of a request target promise.

use crate::laws::text::{a_separator_parts_pieces, the_first_cut_parts_a_text};
use crate::query::{
    decoded, encoded, entries, escaped, hex_char, hex_value, parameter, parameters, polled,
    queried, unescaped,
};
use crate::scan::{free_of, lemma_first_cut, lemma_one_piece};
use crate::text::{first_cut, number, pieces};
use vstd::prelude::*;
use vstd::utf8::{
    decode_utf8_encode_utf8, encode_utf8, encode_utf8_decode_utf8, encode_utf8_valid_utf8,
};

verus! {

/// Two encoded parts stand for what one stands for and then the other.
pub proof fn decoding_goes_part_by_part(a: Seq<u8>, b: Seq<u8>)
    requires
        unescaped(a) is Some,
    ensures
        unescaped(a + b) == (match unescaped(b) {
            Some(y) => Some(unescaped(a)->0 + y),
            None => None,
        }),
    decreases a.len(),
{
    let s = a + b;
    if a.len() == 0 {
        assert(s =~= b);
        if let Some(y) = unescaped(b) {
            assert(unescaped(a)->0 + y =~= y);
        }
    } else {
        let n: int = if a[0] == 0x25 {
            3
        } else {
            1
        };
        let rest = a.skip(n);
        decoding_goes_part_by_part(rest, b);
        assert(s.skip(n) =~= rest + b);
        assert(s[0] == a[0]);
        if a[0] == 0x25 {
            assert(s[1] == a[1] && s[2] == a[2]);
        }
        if let Some(y) = unescaped(b) {
            let x = unescaped(rest)->0;
            let one = unescaped(a)->0.take(1);
            assert(unescaped(a)->0 =~= one + x);
            assert(unescaped(a)->0 + y =~= one + (x + y));
        }
    }
}

/// A byte that is neither a percent sign nor a plus stands for itself, a plus
/// for a space.
pub proof fn plain_bytes_stand_for_themselves(b: u8)
    ensures
        b != 0x25 && b != 0x2b ==> unescaped(seq![b]) == Some(seq![b]),
        unescaped(seq![0x2bu8]) == Some(seq![0x20u8]),
        unescaped(Seq::<u8>::empty()) == Some(Seq::<u8>::empty()),
{
    let s = seq![b];
    let p = seq![0x2bu8];
    assert(s.skip(1) =~= Seq::<u8>::empty());
    assert(p.skip(1) =~= Seq::<u8>::empty());
    assert(seq![b] + Seq::<u8>::empty() =~= s);
    assert(seq![0x20u8] + Seq::<u8>::empty() =~= seq![0x20u8]);
}

/// An escape stands for the byte with that value, whatever the case of its
/// digits.
pub proof fn an_escape_stands_for_its_byte(high: u8, low: u8, x: u8, y: u8)
    requires
        x < 16,
        y < 16,
        x < 10 ==> high == 48 + x,
        x >= 10 ==> high == 55 + x || high == 87 + x,
        y < 10 ==> low == 48 + y,
        y >= 10 ==> low == 55 + y || low == 87 + y,
    ensures
        unescaped(seq![0x25u8, high, low]) == Some(seq![(16 * x + y) as u8]),
{
    let s = seq![0x25u8, high, low];
    assert(s.skip(3) =~= Seq::<u8>::empty());
    assert(unescaped(s.skip(3)) == Some(Seq::<u8>::empty()));
    assert(s[0] == 0x25 && s[1] == high && s[2] == low);
    assert(hex_value(high) == Some(x) && hex_value(low) == Some(y));
    assert(seq![(x * 16 + y) as u8] + Seq::<u8>::empty() =~= seq![(16 * x + y) as u8]);
}

/// Whether a byte is a hexadecimal digit.
pub open spec fn hexadecimal(b: u8) -> bool {
    48 <= b <= 57 || 65 <= b <= 70 || 97 <= b <= 102
}

/// A percent sign that two hexadecimal digits do not follow stands for
/// nothing, and neither does what it stands in.
pub proof fn a_broken_escape_stands_for_nothing(a: Seq<u8>, b: Seq<u8>)
    requires
        unescaped(a) is Some,
        b.len() > 0,
        b[0] == 0x25,
        b.len() < 3 || !hexadecimal(b[1]) || !hexadecimal(b[2]),
    ensures
        unescaped(a + b) is None,
{
    decoding_goes_part_by_part(a, b);
}

/// A text decodes to the text whose bytes its escapes stand for.
pub proof fn decoded_bytes_are_a_text(s: Seq<char>, t: Seq<char>)
    ensures
        decoded(s) == Some(t) <==> unescaped(encode_utf8(s)) == Some(encode_utf8(t)),
{
    encode_utf8_valid_utf8(t);
    encode_utf8_decode_utf8(t);
    if decoded(s) == Some(t) {
        decode_utf8_encode_utf8(unescaped(encode_utf8(s))->0);
    }
}

/// A text is encoded byte by byte: letters, digits and the marks `-_.~` stay,
/// any other byte becomes a percent sign and two upper-case digits.
pub proof fn encoding_goes_byte_by_byte(s: Seq<u8>, b: u8, t: Seq<char>)
    ensures
        escaped(s.push(b)) == escaped(s) + (if 65 <= b <= 90 || 97 <= b <= 122 || 48 <= b <= 57
            || b == 45 || b == 46 || b == 95 || b == 126 {
            seq![b as char]
        } else {
            seq!['%', "0123456789ABCDEF"@[b as int / 16], "0123456789ABCDEF"@[b as int % 16]]
        }),
        escaped(Seq::<u8>::empty()) == Seq::<char>::empty(),
        encoded(t) == escaped(encode_utf8(t)),
{
    reveal_strlit("0123456789ABCDEF");
    assert(s.push(b).drop_last() =~= s);
    assert(s.push(b).last() == b);
    let x = b as int / 16;
    let y = b as int % 16;
    assert(0 <= x < 16 && 0 <= y < 16);
    assert("0123456789ABCDEF"@[x] == hex_char((b / 16) as nat));
    assert("0123456789ABCDEF"@[y] == hex_char((b % 16) as nat));
}

/// A target without a question mark has no parameters; neither has one that
/// ends with it.
pub proof fn no_query_has_no_parameters(path: Seq<char>)
    requires
        !path.contains('?'),
    ensures
        queried(path) == Some(Map::<Seq<char>, Seq<char>>::empty()),
        queried(path.push('?')) == Some(Map::<Seq<char>, Seq<char>>::empty()),
{
    the_first_cut_parts_a_text(path, '?');
    if let Some((a, b)) = first_cut(path, '?') {
        assert(path[a.len() as int] == '?');
    }
    let none = Seq::<char>::empty();
    lemma_free(path, '?');
    lemma_first_cut(path, '?', none);
    assert(path + seq!['?'] + none =~= path.push('?'));
    lemma_one_piece(none, '&');
    let items = seq![none];
    assert(items.drop_last() =~= Seq::<Seq<char>>::empty());
    assert(parameters(items.drop_last()) == Some(Map::<Seq<char>, Seq<char>>::empty()));
    assert(items.last() == none);
    assert(pieces(none, '&') == items);
}

proof fn lemma_free(s: Seq<char>, c: char)
    requires
        !s.contains(c),
    ensures
        free_of(s, c),
{
    assert forall|i: int| 0 <= i < s.len() implies #[trigger] s[i] != c by {
        assert(s.contains(s[i]));
    }
}

/// The parameters with one more item: one with a name and a value comes over
/// what was there, an empty one makes no difference, and one that cannot be
/// decoded spoils all of them. A name without a value has an empty one.
pub open spec fn with_item(
    before: Option<Map<Seq<char>, Seq<char>>>,
    item: Option<(Option<Seq<char>>, Option<Seq<char>>)>,
) -> Option<Map<Seq<char>, Seq<char>>> {
    match (before, item) {
        (Some(m), None) => Some(m),
        (Some(m), Some((Some(name), Some(value)))) => Some(m.insert(name, value)),
        _ => None,
    }
}

/// A query is read item by item, the later over the earlier.
pub proof fn a_query_is_read_item_by_item(
    path: Seq<char>,
    raw: Seq<char>,
    name: Seq<char>,
    value: Seq<char>,
)
    requires
        !path.contains('?'),
        !name.contains('='),
        !name.contains('&'),
        !value.contains('&'),
    ensures
        ({
            let t = path + seq!['?'] + raw;
            let pair = name + seq!['='] + value;
            let given = Some((decoded(name), decoded(value)));
            let bare = if name.len() == 0 {
                None
            } else {
                Some((decoded(name), Some(Seq::<char>::empty())))
            };
            &&& queried(t + seq!['&'] + pair) == with_item(queried(t), given)
            &&& queried(t + seq!['&'] + name) == with_item(queried(t), bare)
            &&& queried(path + seq!['?'] + pair) == with_item(Some(Map::empty()), given)
            &&& queried(path + seq!['?'] + name) == with_item(Some(Map::empty()), bare)
        }),
{
    let none = Seq::<char>::empty();
    let pair = name + seq!['='] + value;
    lemma_free(path, '?');
    lemma_free(name, '=');
    lemma_first_cut(name, '=', value);
    lemma_one_piece(name, '=');
    plain_bytes_stand_for_themselves(0);
    assert(encode_utf8(none) =~= Seq::<u8>::empty());
    decoded_bytes_are_a_text(none, none);
    assert(!pair.contains('&')) by {
        assert forall|i: int| 0 <= i < pair.len() implies #[trigger] pair[i] != '&' by {
            if i < name.len() {
                assert(name.contains(name[i]));
                assert(pair[i] == name[i]);
            } else if i > name.len() {
                assert(value.contains(value[i - name.len() - 1]));
                assert(pair[i] == value[i - name.len() - 1]);
            }
        }
    }
    lemma_item(path, raw, pair);
    lemma_item(path, raw, name);
}

proof fn lemma_item(path: Seq<char>, raw: Seq<char>, item: Seq<char>)
    requires
        free_of(path, '?'),
        !item.contains('&'),
    ensures
        ({
            let t = path + seq!['?'] + raw;
            let read = if item.len() == 0 {
                None
            } else {
                match parameter(item) {
                    Some((k, v)) => Some((Some(k), Some(v))),
                    None => Some((None, None)),
                }
            };
            &&& queried(t + seq!['&'] + item) == with_item(queried(t), read)
            &&& queried(path + seq!['?'] + item) == with_item(Some(Map::empty()), read)
        }),
{
    let none = Seq::<char>::empty();
    lemma_first_cut(path, '?', raw);
    lemma_first_cut(path, '?', item);
    let more = raw + seq!['&'] + item;
    lemma_first_cut(path, '?', more);
    assert(path + seq!['?'] + raw + seq!['&'] + item =~= path + seq!['?'] + more);
    a_separator_parts_pieces(raw, '&', item);
    a_separator_parts_pieces(item, '&', none);
    let p = pieces(raw, '&');
    assert(p + seq![item] =~= p.push(item));
    assert(p.push(item).drop_last() =~= p);
    assert(seq![item].drop_last() =~= Seq::<Seq<char>>::empty());
    assert(parameters(Seq::<Seq<char>>::empty()) == Some(Map::<Seq<char>, Seq<char>>::empty()));
}

/// A poll asks for what its parameters say: the number to read after, from
/// nought, the time to wait, fifty seconds unless it is given and fifty-five
/// at most, and the epoch, which may be any text. Whatever else is there
/// makes no difference, and one thing that is wrong spoils the poll.
pub proof fn a_poll_asks_for_what_its_parameters_say(
    target: Seq<char>,
    m: Map<Seq<char>, Seq<char>>,
)
    requires
        queried(target) == Some(m),
    ensures
        ({
            let most = 0xffff_ffff_ffff_ffff;
            let a = if m.dom().contains("after"@) {
                number(m["after"@], most)
            } else {
                Some(0nat)
            };
            let t = if m.dom().contains("timeout"@) {
                number(m["timeout"@], most)
            } else {
                Some(50nat)
            };
            &&& a is Some && t is Some && t->0 <= 55 ==> (polled(target) matches Ok((after, timeout, epoch))
                && after == a->0 && timeout == t->0 && (m.dom().contains("epoch"@) ==> epoch
                == m["epoch"@]) && (!m.dom().contains("epoch"@) ==> epoch.len() == 0))
            &&& a is None ==> polled(target) == Err::<(nat, nat, Seq<char>), _>(
                "after must be a non-negative integer"@,
            )
            &&& a is Some && t is None ==> polled(target) == Err::<(nat, nat, Seq<char>), _>(
                "timeout must be an integer"@,
            )
            &&& a is Some && t is Some && t->0 > 55 ==> polled(target) == Err::<
                (nat, nat, Seq<char>),
                _,
            >("timeout must be between 0 and 55"@)
        }),
{
}

/// A poll whose parameters cannot be decoded is refused.
pub proof fn a_poll_that_cannot_be_decoded_is_refused(target: Seq<char>)
    requires
        queried(target) is None,
    ensures
        polled(target) == Err::<(nat, nat, Seq<char>), _>("invalid URL encoding"@),
{
}

/// A map of strings holds their texts.
pub proof fn entries_are_the_texts(m: Map<Seq<char>, String>, key: Seq<char>)
    ensures
        entries(m).dom() == m.dom(),
        m.dom().contains(key) ==> entries(m)[key] == m[key]@,
{
    assert(entries(m).dom() =~= m.dom());
}

} // verus!
