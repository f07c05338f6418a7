//! What scanning a text and writing a number promise.

use crate::bytes::utf8_text;
use crate::scan::{all_in, free_of, lemma_one_piece, lemma_words_after_space, lemma_words_first};
use crate::text::{
    after_prefix, before, decimal, digits_value, first_cut, is_digit, last_cut, lemma_prefix_len,
    lemma_suffix_len, lowered, number, pieces, prefix_len, signed_decimal, suffix_len, texts,
    trimmed, trimmed_end, unsigned_part, white_space, words, CharClass,
};
use vstd::prelude::*;
use vstd::utf8::{
    decode_utf8_encode_utf8, encode_utf8, encode_utf8_decode_utf8, encode_utf8_valid_utf8,
    valid_utf8,
};

verus! {

/// The texts of a list are those of its strings, one for one.
pub proof fn a_list_has_the_texts_of_its_strings(list: Seq<String>)
    ensures
        texts(list).len() == list.len(),
        forall|i: int| 0 <= i < list.len() ==> #[trigger] texts(list)[i] == list[i]@,
{
}

/// White space is a blank, a control character that moves the position, or
/// one of the Unicode spaces; letters, digits and marks are none.
pub proof fn white_space_is_blank(c: char)
    ensures
        c == ' ' || c == '\t' || c == '\n' || c == '\r' ==> white_space(c),
        '!' <= c <= '~' ==> !white_space(c),
        c > '\u{3000}' ==> !white_space(c),
        CharClass::Space.has(c) == white_space(c),
        CharClass::Word.has(c) == !white_space(c),
        forall|x: char| #[trigger] CharClass::Only(x).has(c) == (c == x),
        forall|x: char| #[trigger] CharClass::Except(x).has(c) == (c != x),
{
}

/// The first cut gives the text back around the separator, which does not
/// occur before it; there is none exactly where the separator does not occur.
pub proof fn the_first_cut_parts_a_text(s: Seq<char>, c: char)
    ensures
        match first_cut(s, c) {
            Some((a, b)) => s == a + seq![c] + b && !a.contains(c),
            None => !s.contains(c),
        },
        before(s, c) == (match first_cut(s, c) {
            Some((a, _)) => a,
            None => s,
        }),
{
    lemma_prefix_len(s, CharClass::Except(c));
    let n = prefix_len(s, CharClass::Except(c)) as int;
    if n < s.len() {
        assert(s[n] == c);
        assert(s =~= s.take(n) + seq![c] + s.skip(n + 1));
        assert forall|i: int| 0 <= i < n implies #[trigger] s.take(n)[i] != c by {
            assert(CharClass::Except(c).has(s[i]));
        }
    } else {
        assert forall|i: int| 0 <= i < s.len() implies #[trigger] s[i] != c by {
            assert(CharClass::Except(c).has(s[i]));
        }
        assert(s.take(n) =~= s);
    }
}

/// The last cut gives the text back around the separator, which does not
/// occur behind it; there is none exactly where the separator does not occur.
pub proof fn the_last_cut_parts_a_text(s: Seq<char>, c: char)
    ensures
        match last_cut(s, c) {
            Some((a, b)) => s == a + seq![c] + b && !b.contains(c),
            None => !s.contains(c),
        },
{
    lemma_suffix_len(s, CharClass::Except(c));
    let n = s.len() - suffix_len(s, CharClass::Except(c));
    if n > 0 {
        assert(s[n - 1] == c);
        assert(s =~= s.take(n - 1) + seq![c] + s.skip(n));
        assert forall|i: int| 0 <= i < s.skip(n).len() implies #[trigger] s.skip(n)[i] != c by {
            assert(CharClass::Except(c).has(s[i + n]));
        }
    } else {
        assert forall|i: int| 0 <= i < s.len() implies #[trigger] s[i] != c by {
            assert(CharClass::Except(c).has(s[i]));
        }
    }
}

/// Trimming takes characters of the class off the ends, and all of them that
/// stand there.
pub proof fn trimming_takes_off_the_ends(s: Seq<char>, class: CharClass)
    ensures
        exists|r: Seq<char>|
            s == #[trigger] (trimmed_end(s, class) + r) && forall|i: int|
                0 <= i < r.len() ==> class.has(#[trigger] r[i]),
        trimmed_end(s, class).len() > 0 ==> !class.has(trimmed_end(s, class).last()),
        exists|l: Seq<char>, r: Seq<char>|
            s == #[trigger] (l + trimmed(s, class) + r) && (forall|i: int|
                0 <= i < l.len() ==> class.has(#[trigger] l[i])) && (forall|i: int|
                0 <= i < r.len() ==> class.has(#[trigger] r[i])),
        trimmed(s, class).len() > 0 ==> !class.has(trimmed(s, class)[0]) && !class.has(
            trimmed(s, class).last(),
        ),
{
    lemma_trimmed_end_parts(s, class);
    let n = s.len() - suffix_len(s, class);
    let e = s.skip(n);
    assert(s == trimmed_end(s, class) + e);
    lemma_prefix_len(s, class);
    let p = prefix_len(s, class) as int;
    let l = s.take(p);
    let t = s.skip(p);
    lemma_trimmed_end_parts(t, class);
    let m = t.len() - suffix_len(t, class);
    let r = t.skip(m);
    let v = trimmed(s, class);
    assert(s =~= l + v + r);
    assert forall|i: int| 0 <= i < l.len() implies class.has(#[trigger] l[i]) by {
        assert(class.has(s[i]));
    }
    if v.len() > 0 {
        assert(v[0] == t[0]);
        assert(t[0] == s[p]);
    }
}

proof fn lemma_trimmed_end_parts(s: Seq<char>, class: CharClass)
    ensures
        0 <= s.len() - suffix_len(s, class) <= s.len(),
        s == trimmed_end(s, class) + s.skip(s.len() - suffix_len(s, class)),
        forall|i: int|
            0 <= i < s.skip(s.len() - suffix_len(s, class)).len() ==> class.has(
                #[trigger] s.skip(s.len() - suffix_len(s, class))[i],
            ),
        trimmed_end(s, class).len() > 0 ==> !class.has(trimmed_end(s, class).last()),
{
    lemma_suffix_len(s, class);
    let n = s.len() - suffix_len(s, class);
    let e = s.skip(n);
    assert(s =~= s.take(n) + e);
    assert forall|i: int| 0 <= i < e.len() implies class.has(#[trigger] e[i]) by {
        assert(class.has(s[i + n]));
    }
}

/// White space parts words: a text without it is one word, and the words of
/// two texts around it are those of one and then those of the other.
pub proof fn white_space_parts_words(a: Seq<char>, c: char, b: Seq<char>)
    requires
        white_space(c),
    ensures
        words(a + seq![c] + b) == words(a) + words(b),
        words(Seq::<char>::empty()) == Seq::<Seq<char>>::empty(),
        a.len() > 0 && (forall|i: int| 0 <= i < a.len() ==> !white_space(#[trigger] a[i]))
            ==> words(a) == seq![a],
    decreases a.len(),
{
    let none = Seq::<char>::empty();
    lemma_prefix_len(none, CharClass::Space);
    assert(words(none) =~= Seq::<Seq<char>>::empty());
    if a.len() > 0 && (forall|i: int| 0 <= i < a.len() ==> !white_space(#[trigger] a[i])) {
        lemma_words_first(a, none);
        assert(a + none =~= a);
        assert(seq![a] + words(none) =~= seq![a]);
    }
    lemma_prefix_len(a, CharClass::Space);
    let p = prefix_len(a, CharClass::Space) as int;
    let l = a.take(p);
    let t = a.skip(p);
    assert(all_in(l, CharClass::Space)) by {
        assert forall|i: int| 0 <= i < l.len() implies CharClass::Space.has(#[trigger] l[i]) by {
            assert(CharClass::Space.has(a[i]));
        }
    }
    assert(a =~= l + t);
    lemma_words_after_space(l, t);
    if t.len() == 0 {
        let gap = l + seq![c];
        assert(a + seq![c] + b =~= gap + b);
        assert(all_in(gap, CharClass::Space)) by {
            assert forall|i: int| 0 <= i < gap.len() implies CharClass::Space.has(
                #[trigger] gap[i],
            ) by {
                if i < l.len() {
                    assert(CharClass::Space.has(l[i]));
                }
            }
        }
        lemma_words_after_space(gap, b);
        assert(words(a) =~= Seq::<Seq<char>>::empty());
        assert(words(a) + words(b) =~= words(b));
    } else {
        lemma_prefix_len(t, CharClass::Word);
        let n = prefix_len(t, CharClass::Word) as int;
        let w = t.take(n);
        let r = t.skip(n);
        assert(t[0] == a[p]);
        assert(n > 0);
        assert(all_in(w, CharClass::Word)) by {
            assert forall|i: int| 0 <= i < w.len() implies CharClass::Word.has(#[trigger] w[i]) by {
                assert(CharClass::Word.has(t[i]));
            }
        }
        assert(t =~= w + r);
        if r.len() > 0 {
            assert(r[0] == t[n]);
        }
        lemma_words_first(w, r);
        let rest = r + seq![c] + b;
        assert(rest[0] == if r.len() > 0 {
            r[0]
        } else {
            c
        });
        assert(a + seq![c] + b =~= l + (w + rest));
        lemma_words_after_space(l, w + rest);
        lemma_words_first(w, rest);
        white_space_parts_words(r, c, b);
        assert(seq![w] + (words(r) + words(b)) =~= seq![w] + words(r) + words(b));
    }
}

/// A separator parts pieces: a text without it is one piece, and the pieces of
/// two texts around it are those of one and then those of the other.
pub proof fn a_separator_parts_pieces(a: Seq<char>, c: char, b: Seq<char>)
    ensures
        pieces(a + seq![c] + b, c) == pieces(a, c) + pieces(b, c),
        !a.contains(c) ==> pieces(a, c) == seq![a],
    decreases a.len(),
{
    the_first_cut_parts_a_text(a, c);
    match first_cut(a, c) {
        None => {
            assert(free_of(a, c)) by {
                assert forall|i: int| 0 <= i < a.len() implies #[trigger] a[i] != c by {
                    assert(a.contains(a[i]));
                }
            }
            lemma_one_piece(a, c);
            crate::scan::lemma_pieces(a, c, b);
        },
        Some((x, y)) => {
            assert(a[x.len() as int] == c);
            assert(free_of(x, c)) by {
                assert forall|i: int| 0 <= i < x.len() implies #[trigger] x[i] != c by {
                    assert(x.contains(x[i]));
                }
            }
            a_separator_parts_pieces(y, c, b);
            crate::scan::lemma_pieces(x, c, y);
            let rest = y + seq![c] + b;
            crate::scan::lemma_pieces(x, c, rest);
            assert(a + seq![c] + b =~= x + seq![c] + rest);
            assert(seq![x] + (pieces(y, c) + pieces(b, c)) =~= seq![x] + pieces(y, c) + pieces(b, c));
        },
    }
}

/// What follows a prefix is the rest of the text, and there is nothing where
/// the text does not begin with it.
pub proof fn a_prefix_is_taken_off(s: Seq<char>, p: Seq<char>, r: Seq<char>)
    ensures
        after_prefix(p + r, p) == Some(r),
        after_prefix(s, p) matches Some(rest) ==> s == p + rest,
{
    assert(p.is_prefix_of(p + r)) by {
        assert((p + r).subrange(0, p.len() as int) =~= p);
    }
    assert((p + r).skip(p.len() as int) =~= r);
    if p.is_prefix_of(s) {
        assert(s =~= p + s.skip(p.len() as int));
    }
}

/// Lower case changes the letters from A to Z and nothing else.
pub proof fn lower_case_changes_letters_only(s: Seq<char>, i: int)
    requires
        0 <= i < s.len(),
    ensures
        lowered(s).len() == s.len(),
        'A' <= s[i] <= 'Z' ==> lowered(s)[i] as u32 == s[i] as u32 + 32,
        !('A' <= s[i] <= 'Z') ==> lowered(s)[i] == s[i],
{
}

/// A number in decimal is its digits: one for a number below ten, and one
/// more for ten times as much and the digit.
pub proof fn decimals_grow_by_a_digit(n: nat, d: nat)
    requires
        d < 10,
    ensures
        decimal(d) == seq!["0123456789"@[d as int]],
        n > 0 ==> decimal(10 * n + d) == decimal(n).push("0123456789"@[d as int]),
        signed_decimal(n as int) == decimal(n),
        n > 0 ==> signed_decimal(-n) == seq!['-'] + decimal(n),
{
    reveal_strlit("0123456789");
    assert("0123456789"@[d as int] == (48 + d) as char);
    if n > 0 {
        assert((10 * n + d) / 10 == n && (10 * n + d) % 10 == d);
    }
}

/// A text denotes a number by its digits: one more digit makes ten times as
/// much and the digit, any other character makes it no number, and a plus in
/// front makes no difference.
pub proof fn numbers_are_read_digit_by_digit(s: Seq<char>, c: char, max: nat)
    requires
        s.len() > 0,
        s != seq!['+'],
    ensures
        number(seq![], max) is None,
        number(seq!['+'], max) is None,
        '0' <= c <= '9' ==> (match number(s, max) {
            Some(v) => number(s.push(c), max) == (if 10 * v + (c as nat - 48) <= max {
                Some((10 * v + (c as nat - 48)) as nat)
            } else {
                None
            }),
            None => number(s.push(c), max) is None,
        }),
        !('0' <= c <= '9') ==> number(s.push(c), max) is None,
        '0' <= c <= '9' ==> number(seq![c], max) == (if c as nat - 48 <= max {
            Some((c as nat - 48) as nat)
        } else {
            None
        }),
        !('0' <= c <= '9') ==> number(seq![c], max) is None,
        s[0] != '+' ==> number(seq!['+'] + s, max) == number(s, max),
        s[0] == '+' ==> number(seq!['+'] + s, max) is None,
{
    assert(unsigned_part(seq!['+']) =~= Seq::<char>::empty());
    let one = seq![c];
    assert(one.drop_last() =~= Seq::<char>::empty());
    assert(digits_value(Seq::<char>::empty()) == 0);
    if is_digit(c) {
        assert(unsigned_part(one) == one);
        assert(digits_value(one) == c as nat - 48);
    } else if c != '+' {
        assert(unsigned_part(one) == one);
        assert(!is_digit(one[0]));
    }
    let d = unsigned_part(s);
    let t = s.push(c);
    let e = unsigned_part(t);
    assert(t[0] == s[0]);
    assert(e =~= d.push(c));
    assert(d.len() > 0) by {
        if d.len() == 0 {
            assert(s =~= seq!['+']);
        }
    }
    assert(e.drop_last() =~= d);
    assert(e.last() == c);
    if forall|i: int| 0 <= i < e.len() ==> is_digit(#[trigger] e[i]) {
        assert forall|i: int| 0 <= i < d.len() implies is_digit(#[trigger] d[i]) by {
            assert(e[i] == d[i]);
        }
        assert(is_digit(e[e.len() - 1]));
        assert(digits_value(d) <= digits_value(e)) by {
            assert(digits_value(e) == digits_value(d) * 10 + (c as nat - 48));
        }
    }
    if is_digit(c) && (forall|i: int| 0 <= i < d.len() ==> is_digit(#[trigger] d[i])) {
        assert forall|i: int| 0 <= i < e.len() implies is_digit(#[trigger] e[i]) by {
            if i < d.len() {
                assert(e[i] == d[i]);
            }
        }
    }
    if !is_digit(c) {
        assert(!is_digit(e[e.len() - 1]));
    }
    let p = seq!['+'] + s;
    assert(unsigned_part(p) =~= s);
    if s[0] == '+' {
        assert(!is_digit(s[0]));
    } else {
        assert(d == s);
    }
}

/// The largest number that is accepted decides what is a number, not what the
/// number is.
pub proof fn a_limit_only_limits(s: Seq<char>, max: nat, other: nat)
    ensures
        number(s, max) matches Some(v) ==> v <= max && (v <= other ==> number(s, other) == Some(v))
            && (v > other ==> number(s, other) is None),
{
}

/// Bytes are a text exactly where they are the UTF-8 of it.
pub proof fn utf8_is_read_as_it_is_written(bytes: Seq<u8>, text: Seq<char>)
    ensures
        utf8_text(encode_utf8(text)) == Some(text),
        utf8_text(bytes) matches Some(t) ==> encode_utf8(t) == bytes,
        utf8_text(bytes) is None <==> !valid_utf8(bytes),
{
    encode_utf8_valid_utf8(text);
    encode_utf8_decode_utf8(text);
    if valid_utf8(bytes) {
        decode_utf8_encode_utf8(bytes);
    }
}

} // verus!
