//! Facts about scanning texts that were put together from parts.

use crate::text::{
    before, first_cut, lemma_prefix_len, lemma_prefix_len_is, lemma_suffix_len, lemma_suffix_len_is,
    pieces, prefix_len, suffix_len, trimmed, trimmed_end, white_space, words, CharClass,
};
use vstd::prelude::*;

verus! {

/// Whether a character does not occur in a text.
pub open spec fn free_of(s: Seq<char>, c: char) -> bool {
    forall|i: int| 0 <= i < s.len() ==> #[trigger] s[i] != c
}

/// Whether all characters of a text are in a class.
pub open spec fn all_in(s: Seq<char>, class: CharClass) -> bool {
    forall|i: int| 0 <= i < s.len() ==> class.has(#[trigger] s[i])
}

/// The longest prefix in a class ends where a character outside it stands.
pub proof fn lemma_prefix_of_parts(a: Seq<char>, b: Seq<char>, class: CharClass)
    requires
        all_in(a, class),
        b.len() > 0 ==> !class.has(b[0]),
    ensures
        prefix_len(a + b, class) == a.len(),
{
    let s = a + b;
    assert forall|i: int| 0 <= i < a.len() implies class.has(#[trigger] s[i]) by {
        assert(s[i] == a[i]);
    }
    if b.len() > 0 {
        assert(s[a.len() as int] == b[0]);
    }
    lemma_prefix_len_is(s, class, a.len() as int);
}

/// The first cut of a text is where the separator first stands.
pub proof fn lemma_first_cut(a: Seq<char>, c: char, b: Seq<char>)
    requires
        free_of(a, c),
    ensures
        first_cut(a + seq![c] + b, c) == Some((a, b)),
        before(a + seq![c] + b, c) == a,
{
    let s = a + seq![c] + b;
    assert(s == a + (seq![c] + b));
    lemma_prefix_of_parts(a, seq![c] + b, CharClass::Except(c));
    assert(s.take(a.len() as int) == a);
    assert(s.skip(a.len() as int + 1) == b);
}

/// A text without the separator has one piece.
pub proof fn lemma_one_piece(a: Seq<char>, c: char)
    requires
        free_of(a, c),
    ensures
        pieces(a, c) == seq![a],
        first_cut(a, c) is None,
{
    assert(a + Seq::<char>::empty() == a);
    lemma_prefix_of_parts(a, Seq::<char>::empty(), CharClass::Except(c));
}

/// The pieces of a text are the part before the separator and the pieces of
/// what follows it.
pub proof fn lemma_pieces(a: Seq<char>, c: char, b: Seq<char>)
    requires
        free_of(a, c),
    ensures
        pieces(a + seq![c] + b, c) == seq![a] + pieces(b, c),
{
    lemma_first_cut(a, c, b);
}

/// White space before a text holds no words.
pub proof fn lemma_words_after_space(l: Seq<char>, s: Seq<char>)
    requires
        all_in(l, CharClass::Space),
    ensures
        words(l + s) == words(s),
{
    let n = prefix_len(s, CharClass::Space) as int;
    lemma_prefix_len(s, CharClass::Space);
    let t = s.skip(n);
    let gap = l + s.take(n);
    assert(gap + t == l + s);
    assert(all_in(gap, CharClass::Space)) by {
        assert forall|i: int| 0 <= i < gap.len() implies white_space(#[trigger] gap[i]) by {
            if i >= l.len() {
                assert(gap[i] == s[i - l.len()]);
                assert(CharClass::Space.has(s[i - l.len()]));
            } else {
                assert(gap[i] == l[i]);
                assert(CharClass::Space.has(l[i]));
            }
        }
    }
    lemma_prefix_of_parts(gap, t, CharClass::Space);
    assert((l + s).skip(gap.len() as int) == t);
}

/// A text that begins with a word has it as its first word.
pub proof fn lemma_words_first(w: Seq<char>, s: Seq<char>)
    requires
        w.len() > 0,
        all_in(w, CharClass::Word),
        s.len() > 0 ==> white_space(s[0]),
    ensures
        words(w + s) == seq![w] + words(s),
{
    let all = w + s;
    assert(CharClass::Word.has(w[0]));
    assert(all[0] == w[0]);
    assert(Seq::<char>::empty() + all == all);
    lemma_prefix_of_parts(Seq::<char>::empty(), all, CharClass::Space);
    assert(all.skip(0) == all);
    lemma_prefix_of_parts(w, s, CharClass::Word);
    assert(all.take(w.len() as int) == w);
    assert(all.skip(w.len() as int) == s);
}

/// The end of a text is trimmed no further than to a character outside the
/// class.
pub proof fn lemma_trimmed_end_after(a: Seq<char>, c: char, x: Seq<char>, class: CharClass)
    requires
        !class.has(c),
    ensures
        trimmed_end(a + seq![c] + x, class) == a + seq![c] + trimmed_end(x, class),
{
    let s = a + seq![c] + x;
    let n = suffix_len(x, class) as int;
    lemma_suffix_len(x, class);
    assert forall|i: int| s.len() - n <= i < s.len() implies class.has(#[trigger] s[i]) by {
        assert(s[i] == x[i - a.len() - 1]);
    }
    if n < x.len() {
        assert(s[s.len() - n - 1] == x[x.len() - n - 1]);
    } else {
        assert(s[s.len() - n - 1] == c);
    }
    lemma_suffix_len_is(s, class, n);
    assert(s.take(s.len() - n) == a + seq![c] + x.take(x.len() - n));
}

/// A text between characters of the class is what trimming leaves of them.
pub proof fn lemma_trimmed_between(
    l: Seq<char>,
    v: Seq<char>,
    r: Seq<char>,
    class: CharClass,
)
    requires
        all_in(l, class),
        all_in(r, class),
        v.len() > 0,
        !class.has(v[0]),
        !class.has(v.last()),
    ensures
        trimmed(l + v + r, class) == v,
{
    let s = l + v + r;
    assert(s == l + (v + r));
    assert((v + r)[0] == v[0]);
    lemma_prefix_of_parts(l, v + r, class);
    assert(s.skip(l.len() as int) == v + r);
    let t = v + r;
    assert forall|i: int| t.len() - r.len() <= i < t.len() implies class.has(#[trigger] t[i]) by {
        assert(t[i] == r[i - v.len()]);
    }
    assert(t[t.len() - r.len() - 1] == v.last());
    lemma_suffix_len_is(t, class, r.len() as int);
    assert(t.take(t.len() - r.len()) == v);
}

/// Trimming both ends leaves the same, whether the end was trimmed before or
/// not.
pub proof fn lemma_trimmed_twice(x: Seq<char>, class: CharClass)
    ensures
        trimmed(trimmed_end(x, class), class) == trimmed(x, class),
{
    let n = suffix_len(x, class) as int;
    lemma_suffix_len(x, class);
    let y = x.take(x.len() - n);
    let p = prefix_len(x, class) as int;
    lemma_prefix_len(x, class);
    lemma_prefix_len(y, class);
    if p >= y.len() {
        assert(all_in(y, class)) by {
            assert forall|i: int| 0 <= i < y.len() implies class.has(#[trigger] y[i]) by {
                assert(y[i] == x[i]);
            }
        }
        if y.len() > 0 {
            assert(y[y.len() - 1] == x[x.len() - n - 1]);
            assert(false);
        }
        assert(y == Seq::<char>::empty());
        assert(n == x.len());
        assert forall|i: int| 0 <= i < x.len() implies class.has(#[trigger] x[i]) by {}
        assert(p == x.len()) by {
            if p < x.len() {
                assert(class.has(x[p]));
            }
        }
        assert(x.skip(p) == Seq::<char>::empty());
        assert(y.skip(prefix_len(y, class) as int) == Seq::<char>::empty());
    } else {
        assert forall|i: int| 0 <= i < p implies class.has(#[trigger] y[i]) by {
            assert(y[i] == x[i]);
        }
        assert(y[p] == x[p]);
        lemma_prefix_len_is(y, class, p);
        let t = x.skip(p);
        let u = y.skip(p);
        assert(u == t.take(t.len() - n));
        assert forall|i: int| t.len() - n <= i < t.len() implies class.has(#[trigger] t[i]) by {
            assert(t[i] == x[i + p]);
        }
        assert(t[t.len() - n - 1] == x[x.len() - n - 1]);
        lemma_suffix_len_is(t, class, n);
        assert(u[u.len() - 1] == x[x.len() - n - 1]);
        lemma_suffix_len_is(u, class, 0);
        assert(u.take(u.len() as int) == u);
    }
}

/// Trimming leaves nothing of a text that is all in the class.
proof fn lemma_trimmed_all(s: Seq<char>, class: CharClass)
    requires
        all_in(s, class),
    ensures
        trimmed(s, class) == Seq::<char>::empty(),
{
    lemma_prefix_len_is(s, class, s.len() as int);
    let t = s.skip(s.len() as int);
    assert(t == Seq::<char>::empty());
}

/// Characters of the class around a text do not change what trimming leaves.
pub proof fn lemma_trimmed_around(l: Seq<char>, v: Seq<char>, r: Seq<char>, class: CharClass)
    requires
        all_in(l, class),
        all_in(r, class),
    ensures
        trimmed(l + v + r, class) == trimmed(v, class),
{
    let p = prefix_len(v, class) as int;
    let n = suffix_len(v, class) as int;
    lemma_prefix_len(v, class);
    lemma_suffix_len(v, class);
    if p == v.len() {
        let s = l + v + r;
        assert forall|i: int| 0 <= i < s.len() implies class.has(#[trigger] s[i]) by {
            if i < l.len() {
                assert(s[i] == l[i]);
            } else if i < l.len() + v.len() {
                assert(s[i] == v[i - l.len()]);
            } else {
                assert(s[i] == r[i - l.len() - v.len()]);
            }
        }
        lemma_trimmed_all(s, class);
        lemma_trimmed_all(v, class);
    } else {
        assert(p + n < v.len()) by {
            if v.len() - n <= p {
                assert(class.has(v[p]));
            }
        }
        let core = v.subrange(p, v.len() - n);
        let front = v.take(p);
        let back = v.skip(v.len() - n);
        assert(core[0] == v[p] && core.last() == v[v.len() - n - 1]);
        assert(all_in(front, class) && all_in(back, class)) by {
            assert forall|i: int| 0 <= i < front.len() implies class.has(#[trigger] front[i]) by {
                assert(front[i] == v[i]);
            }
            assert forall|i: int| 0 <= i < back.len() implies class.has(#[trigger] back[i]) by {
                assert(back[i] == v[i + v.len() - n]);
            }
        }
        assert(v == front + core + back);
        lemma_trimmed_between(front, core, back, class);
        assert(all_in(l + front, class) && all_in(back + r, class)) by {
            assert forall|i: int| 0 <= i < (l + front).len() implies class.has(
                #[trigger] (l + front)[i],
            ) by {
                if i < l.len() {
                    assert((l + front)[i] == l[i]);
                } else {
                    assert((l + front)[i] == front[i - l.len()]);
                }
            }
            assert forall|i: int| 0 <= i < (back + r).len() implies class.has(
                #[trigger] (back + r)[i],
            ) by {
                if i < back.len() {
                    assert((back + r)[i] == back[i]);
                } else {
                    assert((back + r)[i] == r[i - back.len()]);
                }
            }
        }
        assert(l + v + r == (l + front) + core + (back + r));
        lemma_trimmed_between(l + front, core, back + r, class);
    }
}

} // verus!
