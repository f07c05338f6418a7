//! Text as sequences of characters: scanning, splitting, trimming and numbers.

use vstd::prelude::*;
use vstd::slice::slice_subrange;

verus! {

/// Appends one character to a string (`String::push`).
pub assume_specification[ std::string::String::push ](s: &mut std::string::String, c: char)
    ensures
        final(s)@ == old(s)@.push(c),
;

/// The characters of each string of a list.
pub open spec fn texts(list: Seq<String>) -> Seq<Seq<char>> {
    list.map_values(|s: String| s@)
}

/// The empty literal holds no characters.
pub proof fn lemma_empty_literal()
    ensures
        ""@ == Seq::<char>::empty(),
{
    reveal_strlit("");
    assert(""@ =~= Seq::<char>::empty());
}

/// Whether a character has the Unicode property `White_Space`.
pub open spec fn white_space(c: char) -> bool {
    let u = c as u32;
    ||| 0x9 <= u <= 0xd
    ||| u == 0x20
    ||| u == 0x85
    ||| u == 0xa0
    ||| u == 0x1680
    ||| 0x2000 <= u <= 0x200a
    ||| u == 0x2028
    ||| u == 0x2029
    ||| u == 0x202f
    ||| u == 0x205f
    ||| u == 0x3000
}

/// A class of characters that a scan runs over.
#[derive(Clone, Copy)]
pub enum CharClass {
    /// White space.
    Space,
    /// Anything but white space.
    Word,
    /// One character.
    Only(char),
    /// Anything but one character.
    Except(char),
}

impl CharClass {
    /// Membership in the class.
    pub open spec fn has(self, c: char) -> bool {
        match self {
            CharClass::Space => white_space(c),
            CharClass::Word => !white_space(c),
            CharClass::Only(x) => c == x,
            CharClass::Except(x) => c != x,
        }
    }

    /// Tells whether the class holds `c`.
    pub fn contains(self, c: char) -> (r: bool)
        ensures
            r == self.has(c),
    {
        match self {
            CharClass::Space => is_whitespace(c),
            CharClass::Word => !is_whitespace(c),
            CharClass::Only(x) => c == x,
            CharClass::Except(x) => c != x,
        }
    }
}

/// Tells whether `c` is white space.
pub fn is_whitespace(c: char) -> (r: bool)
    ensures
        r == white_space(c),
{
    let u: u32 = c as u32;
    (0x9 <= u && u <= 0xd) || u == 0x20 || u == 0x85 || u == 0xa0 || u == 0x1680 || (0x2000 <= u
        && u <= 0x200a) || u == 0x2028 || u == 0x2029 || u == 0x202f || u == 0x205f || u == 0x3000
}

/// Length of the longest prefix of `s` whose characters are all in the class.
pub open spec fn prefix_len(s: Seq<char>, class: CharClass) -> nat
    decreases s.len(),
{
    if s.len() == 0 || !class.has(s[0]) {
        0
    } else {
        1 + prefix_len(s.skip(1), class)
    }
}

/// Length of the longest suffix of `s` whose characters are all in the class.
pub open spec fn suffix_len(s: Seq<char>, class: CharClass) -> nat
    decreases s.len(),
{
    if s.len() == 0 || !class.has(s.last()) {
        0
    } else {
        1 + suffix_len(s.drop_last(), class)
    }
}

/// What is before and after the first occurrence of `c`.
pub open spec fn first_cut(s: Seq<char>, c: char) -> Option<(Seq<char>, Seq<char>)> {
    let n = prefix_len(s, CharClass::Except(c)) as int;
    if n < s.len() {
        Some((s.take(n), s.skip(n + 1)))
    } else {
        None
    }
}

/// What is before and after the last occurrence of `c`.
pub open spec fn last_cut(s: Seq<char>, c: char) -> Option<(Seq<char>, Seq<char>)> {
    let n = s.len() - suffix_len(s, CharClass::Except(c));
    if n > 0 {
        Some((s.take(n - 1), s.skip(n)))
    } else {
        None
    }
}

/// The text before the first `c`, or all of it where there is none.
pub open spec fn before(s: Seq<char>, c: char) -> Seq<char> {
    s.take(prefix_len(s, CharClass::Except(c)) as int)
}

/// The text without the trailing characters of the class.
pub open spec fn trimmed_end(s: Seq<char>, class: CharClass) -> Seq<char> {
    s.take(s.len() - suffix_len(s, class))
}

/// The text without the leading and trailing characters of the class.
pub open spec fn trimmed(s: Seq<char>, class: CharClass) -> Seq<char> {
    trimmed_end(s.skip(prefix_len(s, class) as int), class)
}

/// The parts of `s` between the occurrences of `c`, empty ones among them.
pub open spec fn pieces(s: Seq<char>, c: char) -> Seq<Seq<char>>
    decreases s.len(),
{
    let n = prefix_len(s, CharClass::Except(c)) as int;
    if n < s.len() {
        proof {
            lemma_prefix_len(s, CharClass::Except(c));
        }
        seq![s.take(n)] + pieces(s.skip(n + 1), c)
    } else {
        seq![s]
    }
}

/// The maximal runs of `s` that hold no white space.
pub open spec fn words(s: Seq<char>) -> Seq<Seq<char>>
    decreases s.len(),
{
    let t = s.skip(prefix_len(s, CharClass::Space) as int);
    if t.len() == 0 {
        seq![]
    } else {
        let n = prefix_len(t, CharClass::Word) as int;
        proof {
            lemma_prefix_len(s, CharClass::Space);
            lemma_prefix_len(t, CharClass::Word);
        }
        seq![t.take(n)] + words(t.skip(n))
    }
}

/// The longest prefix in a class, by its characters and the one behind it.
pub proof fn lemma_prefix_len(s: Seq<char>, class: CharClass)
    ensures
        0 <= prefix_len(s, class) <= s.len(),
        forall|i: int| 0 <= i < prefix_len(s, class) ==> class.has(#[trigger] s[i]),
        prefix_len(s, class) < s.len() ==> !class.has(s[prefix_len(s, class) as int]),
    decreases s.len(),
{
    if s.len() > 0 && class.has(s[0]) {
        let t = s.skip(1);
        lemma_prefix_len(t, class);
        assert forall|i: int| 0 <= i < prefix_len(s, class) implies class.has(#[trigger] s[i]) by {
            if i > 0 {
                assert(t[i - 1] == s[i]);
            }
        }
    }
}

/// The longest prefix is the one that a character outside the class ends.
pub proof fn lemma_prefix_len_is(s: Seq<char>, class: CharClass, n: int)
    requires
        0 <= n <= s.len(),
        forall|i: int| 0 <= i < n ==> class.has(#[trigger] s[i]),
        n < s.len() ==> !class.has(s[n]),
    ensures
        prefix_len(s, class) == n,
{
    lemma_prefix_len(s, class);
    let m = prefix_len(s, class) as int;
    if m < n {
        assert(class.has(s[m]));
    }
    if n < m {
        assert(class.has(s[n]));
    }
}

/// The longest suffix in a class, by its characters and the one before it.
pub proof fn lemma_suffix_len(s: Seq<char>, class: CharClass)
    ensures
        suffix_len(s, class) <= s.len(),
        forall|i: int| s.len() - suffix_len(s, class) <= i < s.len() ==> class.has(#[trigger] s[i]),
        suffix_len(s, class) < s.len() ==> !class.has(s[s.len() - suffix_len(s, class) - 1]),
    decreases s.len(),
{
    if s.len() > 0 && class.has(s.last()) {
        let t = s.drop_last();
        lemma_suffix_len(t, class);
        assert forall|i: int| s.len() - suffix_len(s, class) <= i < s.len() implies class.has(
            #[trigger] s[i],
        ) by {
            if i < t.len() {
                assert(t[i] == s[i]);
            }
        }
    }
}

/// The longest suffix is the one that a character outside the class begins.
pub proof fn lemma_suffix_len_is(s: Seq<char>, class: CharClass, n: int)
    requires
        0 <= n <= s.len(),
        forall|i: int| s.len() - n <= i < s.len() ==> class.has(#[trigger] s[i]),
        n < s.len() ==> !class.has(s[s.len() - n - 1]),
    ensures
        suffix_len(s, class) == n,
{
    lemma_suffix_len(s, class);
    let m = suffix_len(s, class) as int;
    if m < n {
        assert(class.has(s[s.len() - m - 1]));
    }
    if n < m {
        assert(class.has(s[s.len() - n - 1]));
    }
}

/// The characters of a string slice.
pub fn chars_of(s: &str) -> (r: Vec<char>)
    ensures
        r@ == s@,
{
    let mut out: Vec<char> = Vec::new();
    for c in it: s.chars()
        invariant
            it.seq() == s@,
            out@ == s@.take(it.index() as int),
    {
        out.push(c);
    }
    out
}

/// The string that holds the given characters.
pub fn string_of(chars: &[char]) -> (r: String)
    ensures
        r@ == chars@,
{
    let mut out = String::new();
    let mut i: usize = 0;
    while i < chars.len()
        invariant
            i <= chars.len(),
            out@ == chars@.take(i as int),
        decreases chars.len() - i,
    {
        out.push(chars[i]);
        i = i + 1;
    }
    out
}

/// Length of the longest prefix in the class.
pub fn scan_prefix(s: &[char], class: CharClass) -> (n: usize)
    ensures
        n == prefix_len(s@, class),
        n <= s@.len(),
{
    let mut n: usize = 0;
    while n < s.len() && class.contains(s[n])
        invariant
            n <= s.len(),
            forall|i: int| 0 <= i < n ==> class.has(#[trigger] s@[i]),
        ensures
            n <= s.len(),
            forall|i: int| 0 <= i < n ==> class.has(#[trigger] s@[i]),
            n < s.len() ==> !class.has(s@[n as int]),
        decreases s.len() - n,
    {
        n = n + 1;
    }
    proof {
        lemma_prefix_len_is(s@, class, n as int);
    }
    n
}

/// Length of the longest suffix in the class.
pub fn scan_suffix(s: &[char], class: CharClass) -> (n: usize)
    ensures
        n == suffix_len(s@, class),
        n <= s@.len(),
{
    let mut n: usize = 0;
    while n < s.len() && class.contains(s[s.len() - n - 1])
        invariant
            n <= s.len(),
            forall|i: int| s.len() - n <= i < s.len() ==> class.has(#[trigger] s@[i]),
        ensures
            n <= s.len(),
            forall|i: int| s.len() - n <= i < s.len() ==> class.has(#[trigger] s@[i]),
            n < s.len() ==> !class.has(s@[s.len() - n - 1]),
        decreases s.len() - n,
    {
        n = n + 1;
    }
    proof {
        lemma_suffix_len_is(s@, class, n as int);
    }
    n
}

/// Splits at the first occurrence of `c`.
pub fn split_once<'a>(s: &'a [char], c: char) -> (r: Option<(&'a [char], &'a [char])>)
    ensures
        match r {
            Some((a, b)) => first_cut(s@, c) == Some((a@, b@)),
            None => first_cut(s@, c) is None,
        },
{
    let n: usize = scan_prefix(s, CharClass::Except(c));
    if n < s.len() {
        let a = slice_subrange(s, 0, n);
        let b = slice_subrange(s, n + 1, s.len());
        assert(a@ == s@.take(n as int));
        assert(b@ == s@.skip(n + 1));
        Some((a, b))
    } else {
        None
    }
}

/// Splits at the last occurrence of `c`.
pub fn rsplit_once<'a>(s: &'a [char], c: char) -> (r: Option<(&'a [char], &'a [char])>)
    ensures
        match r {
            Some((a, b)) => last_cut(s@, c) == Some((a@, b@)),
            None => last_cut(s@, c) is None,
        },
{
    let n: usize = s.len() - scan_suffix(s, CharClass::Except(c));
    if n > 0 {
        let a = slice_subrange(s, 0, n - 1);
        let b = slice_subrange(s, n, s.len());
        assert(a@ == s@.take(n - 1));
        assert(b@ == s@.skip(n as int));
        Some((a, b))
    } else {
        None
    }
}

/// The text before the first `c`, or all of it where there is none.
pub fn text_before<'a>(s: &'a [char], c: char) -> (r: &'a [char])
    ensures
        r@ == before(s@, c),
{
    let n: usize = scan_prefix(s, CharClass::Except(c));
    slice_subrange(s, 0, n)
}

/// Removes the trailing characters of the class.
pub fn trim_end<'a>(s: &'a [char], class: CharClass) -> (r: &'a [char])
    ensures
        r@ == trimmed_end(s@, class),
{
    let n: usize = scan_suffix(s, class);
    slice_subrange(s, 0, s.len() - n)
}

/// Removes the leading and trailing characters of the class.
pub fn trim<'a>(s: &'a [char], class: CharClass) -> (r: &'a [char])
    ensures
        r@ == trimmed(s@, class),
{
    let n: usize = scan_prefix(s, class);
    let t = slice_subrange(s, n, s.len());
    assert(t@ == s@.skip(n as int));
    trim_end(t, class)
}

/// The words of a text, in order.
pub fn split_whitespace(s: &[char]) -> (r: Vec<String>)
    ensures
        texts(r@) == words(s@),
{
    let mut out: Vec<String> = Vec::new();
    let mut at: usize = 0;
    assert(s@.skip(0) == s@);
    assert(texts(out@) == Seq::<Seq<char>>::empty());
    while at < s.len()
        invariant
            at <= s.len(),
            words(s@) == texts(out@) + words(s@.skip(at as int)),
        decreases s.len() - at,
    {
        let rest = slice_subrange(s, at, s.len());
        assert(rest@ == s@.skip(at as int));
        let gap: usize = scan_prefix(rest, CharClass::Space);
        let tail = slice_subrange(rest, gap, rest.len());
        assert(tail@ == rest@.skip(gap as int));
        if tail.len() == 0 {
            assert(words(rest@) == Seq::<Seq<char>>::empty());
            assert(words(s@) == texts(out@));
            return out;
        }
        let n: usize = scan_prefix(tail, CharClass::Word);
        let word = slice_subrange(tail, 0, n);
        assert(word@ == tail@.take(n as int));
        let ghost before = out@;
        out.push(string_of(word));
        proof {
            lemma_prefix_len(rest@, CharClass::Space);
            assert(n > 0);
            assert(texts(out@) == texts(before).push(word@));
            assert(tail@.skip(n as int) == s@.skip(at + gap + n));
            assert(words(rest@) == seq![word@] + words(tail@.skip(n as int)));
            assert(texts(before) + (seq![word@] + words(tail@.skip(n as int))) == texts(out@)
                + words(tail@.skip(n as int)));
        }
        at = at + gap + n;
    }
    proof {
        assert(words(s@.skip(at as int)) == Seq::<Seq<char>>::empty());
        assert(words(s@) == texts(out@));
    }
    out
}

/// The parts of a text between the occurrences of `c`, in order.
pub fn split(s: &[char], c: char) -> (r: Vec<String>)
    ensures
        texts(r@) == pieces(s@, c),
{
    let mut out: Vec<String> = Vec::new();
    let mut rest = s;
    assert(texts(out@) + pieces(s@, c) == pieces(s@, c));
    loop
        invariant
            pieces(s@, c) == texts(out@) + pieces(rest@, c),
        decreases rest@.len(),
    {
        let ghost before = out@;
        proof {
            lemma_prefix_len(rest@, CharClass::Except(c));
        }
        match split_once(rest, c) {
            Some((a, b)) => {
                out.push(string_of(a));
                proof {
                    assert(texts(out@) == texts(before).push(a@));
                    assert(texts(before) + (seq![a@] + pieces(b@, c)) == texts(out@) + pieces(
                        b@,
                        c,
                    ));
                }
                rest = b;
            },
            None => {
                out.push(string_of(rest));
                assert(texts(out@) == texts(before).push(rest@));
                assert(texts(before) + seq![rest@] == texts(out@));
                return out;
            },
        }
    }
}

/// What follows the prefix `p`, where `s` begins with it.
pub open spec fn after_prefix(s: Seq<char>, p: Seq<char>) -> Option<Seq<char>> {
    if p.is_prefix_of(s) {
        Some(s.skip(p.len() as int))
    } else {
        None
    }
}

/// Removes a prefix.
pub fn strip_prefix<'a>(s: &'a [char], prefix: &str) -> (r: Option<&'a [char]>)
    ensures
        match r {
            Some(t) => after_prefix(s@, prefix@) == Some(t@),
            None => after_prefix(s@, prefix@) is None,
        },
{
    let p = chars_of(prefix);
    if s.len() < p.len() {
        return None;
    }
    let head = slice_subrange(s, 0, p.len());
    if is_text(head, prefix) {
        let tail = slice_subrange(s, p.len(), s.len());
        assert(tail@ == s@.skip(p@.len() as int));
        Some(tail)
    } else {
        None
    }
}

/// Compares a text with a string.
pub fn is_text(s: &[char], other: &str) -> (r: bool)
    ensures
        r == (s@ == other@),
{
    let o = chars_of(other);
    if s.len() != o.len() {
        return false;
    }
    let mut i: usize = 0;
    while i < s.len()
        invariant
            i <= s.len(),
            s@.len() == o@.len(),
            o@ == other@,
            forall|j: int| 0 <= j < i ==> s@[j] == o@[j],
        decreases s.len() - i,
    {
        if s[i] != o[i] {
            return false;
        }
        i = i + 1;
    }
    assert(s@ == o@);
    true
}

/// Compares two strings.
pub fn same(a: &str, b: &str) -> (r: bool)
    ensures
        r == (a@ == b@),
{
    let s = chars_of(a);
    is_text(s.as_slice(), b)
}

/// The character of a decimal digit.
pub open spec fn digit_char(d: nat) -> char {
    (48 + d) as char
}

/// Whether a character is an ASCII decimal digit.
pub open spec fn is_digit(c: char) -> bool {
    '0' <= c <= '9'
}

/// A number in decimal, without leading zeros.
pub open spec fn decimal(n: nat) -> Seq<char>
    decreases n,
{
    if n < 10 {
        seq![digit_char(n)]
    } else {
        decimal(n / 10).push(digit_char(n % 10))
    }
}

/// The value of a run of decimal digits.
pub open spec fn digits_value(s: Seq<char>) -> nat
    decreases s.len(),
{
    if s.len() == 0 {
        0
    } else {
        (digits_value(s.drop_last()) * 10 + (s.last() as nat - 48)) as nat
    }
}

/// The digits of a number, behind the sign `+` that it may have.
pub open spec fn unsigned_part(s: Seq<char>) -> Seq<char> {
    if s.len() > 0 && s[0] == '+' {
        s.skip(1)
    } else {
        s
    }
}

/// The number that a text denotes: an optional `+`, then decimal digits and
/// nothing else, with a value of at most `max`.
pub open spec fn number(s: Seq<char>, max: nat) -> Option<nat> {
    let d = unsigned_part(s);
    if d.len() > 0 && (forall|i: int| 0 <= i < d.len() ==> is_digit(#[trigger] d[i]))
        && digits_value(d) <= max {
        Some(digits_value(d))
    } else {
        None
    }
}

/// Writes a number in decimal.
pub fn to_decimal(n: u64) -> (r: String)
    ensures
        r@ == decimal(n as nat),
    decreases n,
{
    let d: u8 = (n % 10) as u8;
    let c: char = (48 + d) as char;
    assert(c == digit_char((n % 10) as nat));
    let mut out = if n < 10 {
        String::new()
    } else {
        to_decimal(n / 10)
    };
    out.push(c);
    assert(out@ == decimal(n as nat));
    out
}

/// A signed number in decimal.
pub open spec fn signed_decimal(n: int) -> Seq<char> {
    if n < 0 {
        seq!['-'] + decimal((-n) as nat)
    } else {
        decimal(n as nat)
    }
}

/// Writes a signed number in decimal.
pub fn to_signed_decimal(n: i32) -> (r: String)
    ensures
        r@ == signed_decimal(n as int),
{
    if n < 0 {
        let mut out = String::new();
        out.push('-');
        let digits = to_decimal((-(n as i64)) as u64);
        out.append(digits.as_str());
        assert(out@ == signed_decimal(n as int));
        out
    } else {
        to_decimal(n as u64)
    }
}

/// A prefix of digits is worth no more than the whole.
proof fn lemma_digits_value_grows(s: Seq<char>, n: int)
    requires
        0 <= n <= s.len(),
        forall|i: int| 0 <= i < s.len() ==> is_digit(#[trigger] s[i]),
    ensures
        digits_value(s.take(n)) <= digits_value(s),
    decreases s.len(),
{
    if n < s.len() {
        lemma_digits_value_grows(s.drop_last(), n);
        assert(s.drop_last().take(n) == s.take(n));
    } else {
        assert(s.take(n) == s);
    }
}

/// Reads a number of at most `max`.
pub fn parse_number(s: &[char], max: u64) -> (r: Option<u64>)
    ensures
        match r {
            Some(v) => number(s@, max as nat) == Some(v as nat),
            None => number(s@, max as nat) is None,
        },
{
    let start: usize = if s.len() > 0 && s[0] == '+' {
        1
    } else {
        0
    };
    let d = slice_subrange(s, start, s.len());
    assert(d@ == unsigned_part(s@));
    if d.len() == 0 {
        return None;
    }
    let mut value: u64 = 0;
    let mut i: usize = 0;
    while i < d.len()
        invariant
            i <= d.len(),
            d@ == unsigned_part(s@),
            value <= max,
            value == digits_value(d@.take(i as int)),
            forall|j: int| 0 <= j < i ==> is_digit(#[trigger] d@[j]),
        decreases d.len() - i,
    {
        let c: char = d[i];
        if c < '0' || '9' < c {
            assert(!is_digit(d@[i as int]));
            return None;
        }
        let x: u64 = c as u64 - 48;
        proof {
            assert(d@.take(i + 1).drop_last() == d@.take(i as int));
            assert(d@.take(i + 1).last() == c);
            assert(digits_value(d@.take(i + 1)) == value * 10 + x);
        }
        if max < x || value > (max - x) / 10 {
            proof {
                if forall|j: int| 0 <= j < d@.len() ==> is_digit(#[trigger] d@[j]) {
                    lemma_digits_value_grows(d@, i + 1);
                }
            }
            return None;
        }
        value = value * 10 + x;
        i = i + 1;
    }
    assert(d@.take(i as int) == d@);
    Some(value)
}

/// A number in decimal reads back as itself.
pub proof fn decimal_reads_back(n: nat, max: nat)
    requires
        n <= max,
    ensures
        number(decimal(n), max) == Some(n),
        decimal(n).len() > 0,
        forall|i: int| 0 <= i < decimal(n).len() ==> is_digit(#[trigger] decimal(n)[i]),
{
    lemma_decimal(n);
}

proof fn lemma_decimal(n: nat)
    ensures
        decimal(n).len() > 0,
        forall|i: int| 0 <= i < decimal(n).len() ==> is_digit(#[trigger] decimal(n)[i]),
        digits_value(decimal(n)) == n,
    decreases n,
{
    if n < 10 {
        assert(decimal(n).drop_last() == Seq::<char>::empty());
        assert(digits_value(Seq::<char>::empty()) == 0);
    } else {
        lemma_decimal(n / 10);
        assert(decimal(n).drop_last() == decimal(n / 10));
    }
}

/// The ASCII lower case of a character.
pub open spec fn lower_char(c: char) -> char {
    if 'A' <= c <= 'Z' {
        (c as u8 + 32) as char
    } else {
        c
    }
}

/// The text with its ASCII letters in lower case.
pub open spec fn lowered(s: Seq<char>) -> Seq<char> {
    s.map_values(|c: char| lower_char(c))
}

/// Puts the ASCII letters of a text in lower case.
pub fn to_ascii_lowercase(s: &[char]) -> (r: String)
    ensures
        r@ == lowered(s@),
{
    let mut out = String::new();
    let mut i: usize = 0;
    while i < s.len()
        invariant
            i <= s.len(),
            out@ == lowered(s@.take(i as int)),
        decreases s.len() - i,
    {
        let c: char = s[i];
        let l: char = if 'A' <= c && c <= 'Z' {
            (c as u8 + 32) as char
        } else {
            c
        };
        let ghost before = out@;
        out.push(l);
        assert(out@ == lowered(s@.take(i + 1)));
        i = i + 1;
    }
    assert(s@.take(i as int) == s@);
    out
}

} // verus!
