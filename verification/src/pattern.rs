//! Looking inside text: prefixes, suffixes, occurrences and words.

use crate::text::{chars_of, is_blank, is_space, space, text_of};
use vstd::prelude::*;

verus! {

/// `t` stands in `s` at position `i`.
pub open spec fn stands_at(s: Seq<char>, t: Seq<char>, i: int) -> bool {
    0 <= i && i + t.len() <= s.len() && s.subrange(i, i + t.len()) == t
}

/// `t` occurs somewhere in `s`.
pub open spec fn occurs(s: Seq<char>, t: Seq<char>) -> bool {
    exists|i: int| #[trigger] stands_at(s, t, i)
}

/// `s` begins with `t`.
pub open spec fn begins(s: Seq<char>, t: Seq<char>) -> bool {
    stands_at(s, t, 0)
}

/// `s` ends with `t`.
pub open spec fn finishes(s: Seq<char>, t: Seq<char>) -> bool {
    stands_at(s, t, s.len() - t.len())
}

fn matches_at(s: &Vec<char>, t: &Vec<char>, i: usize) -> (r: bool)
    requires
        i + t@.len() <= s@.len(),
    ensures
        r == stands_at(s@, t@, i as int),
{
    let n: usize = s.len();
    let ghost w = s@.subrange(i as int, i + t@.len());
    let mut k: usize = 0;
    while k < t.len()
        invariant
            k <= t@.len(),
            i + t@.len() <= s@.len(),
            n == s@.len(),
            w == s@.subrange(i as int, i + t@.len()),
            forall|j: int| 0 <= j < k ==> #[trigger] w[j] == t@[j],
        decreases t@.len() - k,
    {
        if s[i + k] != t[k] {
            assert(w[k as int] != t@[k as int]);
            return false;
        }
        k += 1;
    }
    assert(w =~= t@);
    true
}

/// `str::starts_with`.
pub fn starts_with(s: &str, t: &str) -> (r: bool)
    ensures
        r == begins(s@, t@),
{
    let a = chars_of(s);
    let b = chars_of(t);
    if b.len() > a.len() {
        return false;
    }
    matches_at(&a, &b, 0)
}

/// `str::ends_with`.
pub fn ends_with(s: &str, t: &str) -> (r: bool)
    ensures
        r == finishes(s@, t@),
{
    let a = chars_of(s);
    let b = chars_of(t);
    if b.len() > a.len() {
        return false;
    }
    matches_at(&a, &b, a.len() - b.len())
}

/// `str::contains`.
pub fn contains(s: &str, t: &str) -> (r: bool)
    ensures
        r == occurs(s@, t@),
{
    let a = chars_of(s);
    let b = chars_of(t);
    if b.len() > a.len() {
        return false;
    }
    let last: usize = a.len() - b.len();
    let mut i: usize = 0;
    while i < last
        invariant
            i <= last,
            last + b@.len() == a@.len(),
            a@ == s@,
            b@ == t@,
            forall|k: int| 0 <= k < i ==> !#[trigger] stands_at(s@, t@, k),
        decreases last - i,
    {
        if matches_at(&a, &b, i) {
            return true;
        }
        i += 1;
    }
    let r = matches_at(&a, &b, last);
    assert(!r ==> forall|k: int| !#[trigger] stands_at(s@, t@, k));
    r
}

/// `str::strip_prefix`: what follows the prefix, where the text begins with it.
pub fn after_prefix(s: &str, t: &str) -> (r: Option<String>)
    ensures
        match r {
            Some(x) => begins(s@, t@) && x@ == s@.skip(t@.len() as int),
            None => !begins(s@, t@),
        },
{
    let a = chars_of(s);
    let b = chars_of(t);
    if b.len() > a.len() {
        return None;
    }
    if matches_at(&a, &b, 0) {
        assert(a@.subrange(b@.len() as int, a@.len() as int) =~= s@.skip(t@.len() as int));
        Some(text_of(&a, b.len(), a.len()))
    } else {
        None
    }
}

/// `str::strip_suffix`: what precedes the suffix, where the text ends with it.
pub fn before_suffix(s: &str, t: &str) -> (r: Option<String>)
    ensures
        match r {
            Some(x) => finishes(s@, t@) && x@ == s@.take(s@.len() - t@.len()),
            None => !finishes(s@, t@),
        },
{
    let a = chars_of(s);
    let b = chars_of(t);
    if b.len() > a.len() {
        return None;
    }
    let k: usize = a.len() - b.len();
    if matches_at(&a, &b, k) {
        assert(a@.subrange(0, k as int) =~= s@.take(k as int));
        Some(text_of(&a, 0, k))
    } else {
        None
    }
}

/// The words of a text: its maximal runs of characters that are not white
/// space, from left to right.
pub open spec fn words(s: Seq<char>) -> Seq<Seq<char>>
    decreases s.len(),
{
    if s.len() == 0 {
        Seq::empty()
    } else if is_space(s.last()) {
        words(s.drop_last())
    } else if s.len() == 1 || is_space(s[s.len() - 2]) {
        words(s.drop_last()).push(seq![s.last()])
    } else {
        let w = words(s.drop_last());
        w.update(w.len() - 1, w.last().push(s.last()))
    }
}

/// A text that does not end in white space has a word.
pub proof fn lemma_words_nonempty(s: Seq<char>)
    requires
        s.len() > 0,
        !is_space(s.last()),
    ensures
        words(s).len() > 0,
    decreases s.len(),
{
    if s.len() > 1 && !is_space(s[s.len() - 2]) {
        assert(s.drop_last().last() == s[s.len() - 2]);
        lemma_words_nonempty(s.drop_last());
    }
}

/// `str::split_whitespace`.
pub fn split_words(s: &str) -> (r: Vec<String>)
    ensures
        r@.len() == words(s@).len(),
        forall|i: int| 0 <= i < r@.len() ==> (#[trigger] r@[i])@ == words(s@)[i],
{
    let v = chars_of(s);
    let mut out: Vec<String> = Vec::new();
    let mut cur = String::new();
    let mut open = false;
    let mut i: usize = 0;
    while i < v.len()
        invariant
            i <= v@.len(),
            v@ == s@,
            open == (i > 0 && !is_space(v@[i - 1])),
            open ==> words(s@.take(i as int)).len() == out@.len() + 1 && cur@ == words(
                s@.take(i as int),
            ).last(),
            !open ==> words(s@.take(i as int)).len() == out@.len() && cur@ == Seq::<char>::empty(),
            forall|k: int|
                0 <= k < out@.len() ==> (#[trigger] out@[k])@ == words(s@.take(i as int))[k],
        decreases v@.len() - i,
    {
        let ghost p = s@.take(i as int);
        let ghost q = s@.take(i + 1);
        let c = v[i];
        proof {
            assert(q.drop_last() =~= p);
            assert(q.last() == c);
            if open {
                assert(q[q.len() - 2] == v@[i - 1]);
            } else if i > 0 {
                assert(q[q.len() - 2] == v@[i - 1]);
            }
        }
        if space(c) {
            if open {
                out.push(cur);
                cur = String::new();
                open = false;
            }
        } else {
            cur.push(c);
            if !open {
                assert(cur@ =~= seq![c]);
                open = true;
            }
        }
        i += 1;
    }
    assert(s@.take(i as int) =~= s@);
    if open {
        out.push(cur);
    }
    out
}

/// Every character `c` replaced by the text `t`.
pub open spec fn replaced(s: Seq<char>, c: char, t: Seq<char>) -> Seq<char>
    decreases s.len(),
{
    if s.len() == 0 {
        Seq::empty()
    } else if s.last() == c {
        replaced(s.drop_last(), c, t) + t
    } else {
        replaced(s.drop_last(), c, t).push(s.last())
    }
}

/// `str::replace` with a character as the pattern.
pub fn replace_char(s: &str, c: char, t: &str) -> (r: String)
    ensures
        r@ == replaced(s@, c, t@),
{
    let v = chars_of(s);
    let mut out = String::new();
    let mut i: usize = 0;
    while i < v.len()
        invariant
            i <= v@.len(),
            v@ == s@,
            out@ == replaced(s@.take(i as int), c, t@),
        decreases v@.len() - i,
    {
        assert(s@.take(i + 1).drop_last() =~= s@.take(i as int));
        if v[i] == c {
            out.push_str(t);
        } else {
            out.push(v[i]);
        }
        i += 1;
    }
    assert(s@.take(i as int) =~= s@);
    out
}

/// The texts `parts`, with `sep` between neighbours.
pub open spec fn joined(parts: Seq<Seq<char>>, sep: Seq<char>) -> Seq<char>
    decreases parts.len(),
{
    if parts.len() == 0 {
        Seq::empty()
    } else if parts.len() == 1 {
        parts[0]
    } else {
        joined(parts.drop_last(), sep) + sep + parts.last()
    }
}

/// The views of a list of texts.
pub open spec fn views(v: Seq<String>) -> Seq<Seq<char>> {
    v.map_values(|s: String| s@)
}

/// `[String]::join`.
pub fn join(parts: &Vec<String>, sep: &str) -> (r: String)
    ensures
        r@ == joined(views(parts@), sep@),
{
    let mut out = String::new();
    let ghost ps = views(parts@);
    let mut i: usize = 0;
    while i < parts.len()
        invariant
            i <= parts@.len(),
            ps == views(parts@),
            out@ == joined(ps.take(i as int), sep@),
        decreases parts@.len() - i,
    {
        assert(ps.take(i + 1).drop_last() =~= ps.take(i as int));
        if i > 0 {
            out.push_str(sep);
        }
        out.push_str(&parts[i]);
        assert(i == 0 ==> out@ =~= ps[0]);
        i += 1;
    }
    assert(ps.take(i as int) =~= ps);
    out
}

proof fn lemma_blank_has_no_words(s: Seq<char>)
    requires
        is_blank(s),
    ensures
        words(s).len() == 0,
    decreases s.len(),
{
    if s.len() > 0 {
        assert(is_space(s[s.len() - 1]));
        assert forall|i: int| 0 <= i < s.len() - 1 implies is_space(
            #[trigger] s.drop_last()[i],
        ) by {
            assert(s.drop_last()[i] == s[i]);
        }
        lemma_blank_has_no_words(s.drop_last());
    }
}

proof fn lemma_ink_has_words(s: Seq<char>, k: int)
    requires
        0 <= k < s.len(),
        !is_space(s[k]),
    ensures
        words(s).len() > 0,
    decreases s.len(),
{
    if !is_space(s.last()) {
        lemma_words_nonempty(s);
    } else {
        assert(s.drop_last()[k] == s[k]);
        lemma_ink_has_words(s.drop_last(), k);
    }
}

/// A text has no words exactly when it is blank.
pub proof fn no_words_iff_blank(s: Seq<char>)
    ensures
        words(s).len() == 0 <==> is_blank(s),
{
    if is_blank(s) {
        lemma_blank_has_no_words(s);
    } else {
        let k = choose|k: int| 0 <= k < s.len() && !is_space(#[trigger] s[k]);
        lemma_ink_has_words(s, k);
    }
}

/// White space separates words, and nothing else does: a word is a text without white
/// space, and the words of two texts with white space between them are the words of
/// the one and then of the other.
pub proof fn white_space_separates_words(a: Seq<char>, c: char, b: Seq<char>, w: Seq<char>)
    requires
        is_space(c),
        w.len() > 0,
        forall|i: int| 0 <= i < w.len() ==> !is_space(#[trigger] w[i]),
    ensures
        words(a + seq![c] + b) == words(a) + words(b),
        words(w) == seq![w],
        words(Seq::empty()).len() == 0,
{
    lemma_words_around(a, c, b);
    lemma_one_word(w);
}

proof fn lemma_words_around(a: Seq<char>, c: char, b: Seq<char>)
    requires
        is_space(c),
    ensures
        words(a + seq![c] + b) == words(a) + words(b),
    decreases b.len(),
{
    let s = a + seq![c] + b;
    if b.len() == 0 {
        assert(s =~= a + seq![c]);
        assert(s.drop_last() =~= a);
        assert(words(b) =~= Seq::<Seq<char>>::empty());
        assert(words(s) =~= words(a) + words(b));
    } else {
        let p = b.drop_last();
        lemma_words_around(a, c, p);
        assert(s.drop_last() =~= a + seq![c] + p);
        assert(s.last() == b.last());
        if b.len() > 1 {
            assert(s[s.len() - 2] == b[b.len() - 2]);
            if !is_space(b[b.len() - 2]) {
                assert(p.last() == b[b.len() - 2]);
                lemma_words_nonempty(p);
            }
        } else {
            assert(s[s.len() - 2] == c);
        }
        assert(words(s) =~= words(a) + words(b));
    }
}

proof fn lemma_one_word(w: Seq<char>)
    requires
        w.len() > 0,
        forall|i: int| 0 <= i < w.len() ==> !is_space(#[trigger] w[i]),
    ensures
        words(w) == seq![w],
    decreases w.len(),
{
    assert(!is_space(w[w.len() - 1]));
    if w.len() == 1 {
        assert(w.drop_last() =~= Seq::empty());
        assert(words(w.drop_last()) =~= Seq::<Seq<char>>::empty());
        assert(seq![w.last()] =~= w);
        assert(words(w) =~= seq![w]);
    } else {
        let p = w.drop_last();
        assert forall|i: int| 0 <= i < p.len() implies !is_space(#[trigger] p[i]) by {
            assert(p[i] == w[i]);
        }
        lemma_one_word(p);
        assert(!is_space(w[w.len() - 2]));
        assert(p.push(w.last()) =~= w);
        assert(words(w) =~= seq![w]);
    }
}

/// Every occurrence of the character is replaced, each on its own, and no other
/// character changes.
pub proof fn each_character_is_replaced(a: Seq<char>, b: Seq<char>, x: char, c: char, t: Seq<char>)
    ensures
        replaced(a + b, c, t) == replaced(a, c, t) + replaced(b, c, t),
        replaced(seq![x], c, t) == if x == c {
            t
        } else {
            seq![x]
        },
        replaced(Seq::empty(), c, t).len() == 0,
    decreases b.len(),
{
    let one = seq![x];
    assert(one.drop_last() =~= Seq::empty());
    assert(replaced(one.drop_last(), c, t) =~= Seq::<char>::empty());
    assert(replaced(one, c, t) =~= if x == c {
        t
    } else {
        seq![x]
    });
    if b.len() == 0 {
        assert(a + b =~= a);
        assert(replaced(a, c, t) + replaced(b, c, t) =~= replaced(a, c, t));
    } else {
        assert((a + b).drop_last() =~= a + b.drop_last());
        each_character_is_replaced(a, b.drop_last(), x, c, t);
        assert(replaced(a + b, c, t) =~= replaced(a, c, t) + replaced(b, c, t));
    }
}

/// Parts are joined in order, with the separator between them and nowhere else.
pub proof fn separators_stand_between(parts: Seq<Seq<char>>, x: Seq<char>, sep: Seq<char>)
    ensures
        joined(Seq::empty(), sep).len() == 0,
        joined(seq![x], sep) == x,
        parts.len() > 0 ==> joined(parts.push(x), sep) == joined(parts, sep) + sep + x,
{
    assert(parts.push(x).drop_last() =~= parts);
}

/// A text stands at a place exactly if its characters stand there one after the other.
/// A text begins and ends with itself, and with its parts.
pub proof fn texts_stand_where_their_characters_do(a: Seq<char>, b: Seq<char>, i: int)
    ensures
        stands_at(a, b, i) <==> 0 <= i && i + b.len() <= a.len() && forall|k: int|
            0 <= k < b.len() ==> #[trigger] b[k] == a[i + k],
        begins(a + b, a),
        finishes(a + b, b),
        begins(a, b) ==> occurs(a, b),
        finishes(a, b) ==> occurs(a, b),
{
    let s = a + b;
    assert(s.subrange(0, a.len() as int) =~= a);
    assert(s.subrange(a.len() as int, s.len() as int) =~= b);
    if 0 <= i && i + b.len() <= a.len() {
        let w = a.subrange(i, i + b.len());
        if forall|k: int| 0 <= k < b.len() ==> #[trigger] b[k] == a[i + k] {
            assert(w =~= b);
        }
        if w == b {
            assert forall|k: int| 0 <= k < b.len() implies #[trigger] b[k] == a[i + k] by {
                assert(w[k] == a[i + k]);
            }
        }
    }
}

} // verus!
