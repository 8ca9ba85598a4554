//! Text primitives: copies of texts, their characters, character classes, lower
//! case and trimming. Every function is stated over the characters of its
//! arguments.

use vstd::prelude::*;

verus! {

/// `String::push` appends one character.
pub assume_specification[ String::push ](s: &mut String, c: char)
    ensures
        final(s)@ == old(s)@.push(c),
;

/// `String::push_str` appends the characters of a slice.
pub assume_specification[ String::push_str ](s: &mut String, t: &str)
    ensures
        final(s)@ == old(s)@ + t@,
;

/// The lower-case form of a text, as the Unicode tables of `str::to_lowercase`
/// give it.
pub uninterp spec fn lower(s: Seq<char>) -> Seq<char>;

/// `str::to_lowercase`: the result is a function of the characters alone. What
/// the tables map a given character to is not stated.
#[verifier::external_body]
pub(crate) fn to_lower(s: &str) -> (r: String)
    ensures
        r@ == lower(s@),
{
    s.to_lowercase()
}

// ---------------------------------------------------------------------------
// Basics
// ---------------------------------------------------------------------------

/// Whether two texts hold the same characters.
pub fn same(a: &str, b: &str) -> (r: bool)
    ensures
        r == (a@ == b@),
{
    a.to_string() == b.to_string()
}

/// The characters of a text, in order.
pub fn chars_of(s: &str) -> (v: Vec<char>)
    ensures
        v@ == s@,
{
    let mut v: Vec<char> = Vec::new();
    for c in it: s.chars()
        invariant
            v@.len() == it.index(),
            it.seq() == s@,
            forall|i: int| 0 <= i < v@.len() ==> v@[i] == s@[i],
    {
        v.push(c);
    }
    v
}

/// The text made of `v[from..to]`.
pub fn text_of(v: &Vec<char>, from: usize, to: usize) -> (s: String)
    requires
        from <= to <= v@.len(),
    ensures
        s@ == v@.subrange(from as int, to as int),
{
    let mut s = String::new();
    let mut i: usize = from;
    while i < to
        invariant
            from <= i <= to <= v@.len(),
            s@ == v@.subrange(from as int, i as int),
        decreases to - i,
    {
        s.push(v[i]);
        i += 1;
        assert(v@.subrange(from as int, i as int) =~= v@.subrange(from as int, i - 1).push(
            v@[i - 1],
        ));
    }
    s
}

/// A copy of an optional text.
pub fn copy_opt(o: &Option<String>) -> (r: Option<String>)
    ensures
        r == *o,
{
    match o {
        Some(s) => Some(s.clone()),
        None => None,
    }
}

/// A copy of a list of texts.
pub fn copy_all(v: &Vec<String>) -> (r: Vec<String>)
    ensures
        r@ == v@,
{
    let mut r: Vec<String> = Vec::new();
    let mut i: usize = 0;
    while i < v.len()
        invariant
            i <= v@.len(),
            r@ == v@.take(i as int),
        decreases v@.len() - i,
    {
        r.push(v[i].clone());
        i += 1;
        assert(v@.take(i as int) =~= v@.take(i - 1).push(v@[i - 1]));
    }
    assert(v@.take(i as int) =~= v@);
    r
}

// ---------------------------------------------------------------------------
// Character classes
// ---------------------------------------------------------------------------

/// The characters with the Unicode property `White_Space`.
pub open spec fn is_space(c: char) -> bool {
    let u = c as u32;
    ||| 0x9 <= u <= 0xd
    ||| u == 0x20
    ||| u == 0x85
    ||| u == 0xa0
    ||| u == 0x1680
    ||| 0x2000 <= u <= 0x200a
    ||| u == 0x2028
    ||| u == 0x2029
    ||| u == 0x202f
    ||| u == 0x205f
    ||| u == 0x3000
}

/// Whether a character is white space.
pub fn space(c: char) -> (r: bool)
    ensures
        r == is_space(c),
{
    let u = c as u32;
    (0x9 <= u && u <= 0xd) || u == 0x20 || u == 0x85 || u == 0xa0 || u == 0x1680 || (0x2000 <= u
        && u <= 0x200a) || u == 0x2028 || u == 0x2029 || u == 0x202f || u == 0x205f || u == 0x3000
}

/// The characters of the Unicode category `Cc`.
pub open spec fn is_control(c: char) -> bool {
    let u = c as u32;
    u <= 0x1f || 0x7f <= u <= 0x9f
}

/// Whether a character is a control character.
pub fn control(c: char) -> (r: bool)
    ensures
        r == is_control(c),
{
    let u = c as u32;
    u <= 0x1f || (0x7f <= u && u <= 0x9f)
}

// ---------------------------------------------------------------------------
// Trimming
// ---------------------------------------------------------------------------

/// A text without its leading white space.
pub open spec fn trim_front(s: Seq<char>) -> Seq<char>
    decreases s.len(),
{
    if s.len() > 0 && is_space(s[0]) {
        trim_front(s.skip(1))
    } else {
        s
    }
}

/// A text without its trailing white space.
pub open spec fn trim_back(s: Seq<char>) -> Seq<char>
    decreases s.len(),
{
    if s.len() > 0 && is_space(s.last()) {
        trim_back(s.drop_last())
    } else {
        s
    }
}

/// A text without its leading and trailing white space.
pub open spec fn trimmed(s: Seq<char>) -> Seq<char> {
    trim_back(trim_front(s))
}

/// White space only, or nothing at all.
pub open spec fn is_blank(s: Seq<char>) -> bool {
    forall|i: int| 0 <= i < s.len() ==> is_space(#[trigger] s[i])
}

proof fn lemma_trim_front(s: Seq<char>, k: int)
    requires
        0 <= k <= s.len(),
        forall|i: int| 0 <= i < k ==> is_space(#[trigger] s[i]),
        k == s.len() || !is_space(s[k]),
    ensures
        trim_front(s) == s.skip(k),
    decreases k,
{
    if k > 0 {
        assert(is_space(s[0]));
        let t = s.skip(1);
        assert forall|i: int| 0 <= i < k - 1 implies is_space(#[trigger] t[i]) by {
            assert(t[i] == s[i + 1]);
        }
        lemma_trim_front(t, k - 1);
        assert(t.skip(k - 1) =~= s.skip(k));
    } else {
        assert(s.skip(0) =~= s);
    }
}

proof fn lemma_trim_back(s: Seq<char>, k: int)
    requires
        0 <= k <= s.len(),
        forall|i: int| k <= i < s.len() ==> is_space(#[trigger] s[i]),
        k == 0 || !is_space(s[k - 1]),
    ensures
        trim_back(s) == s.take(k),
    decreases s.len() - k,
{
    if k < s.len() {
        assert(is_space(s[s.len() - 1]));
        let t = s.drop_last();
        assert forall|i: int| k <= i < t.len() implies is_space(#[trigger] t[i]) by {
            assert(t[i] == s[i]);
        }
        lemma_trim_back(t, k);
        assert(t.take(k) =~= s.take(k));
    } else {
        assert(s.take(k) =~= s);
    }
}

/// Trimming leaves nothing exactly when the text is blank.
pub proof fn blank_iff_trims_to_nothing(s: Seq<char>)
    ensures
        is_blank(s) <==> trimmed(s).len() == 0,
{
    let k = lead(s);
    lemma_lead(s);
    lemma_trim_front(s, k);
    let t = s.skip(k);
    if k == s.len() {
        assert(trimmed(s).len() == 0);
        assert forall|i: int| 0 <= i < s.len() implies is_space(#[trigger] s[i]) by {}
    } else {
        assert(t[0] == s[k]);
        lemma_trim_back_keeps(t);
        assert(!is_space(s[k]));
    }
}

spec fn lead(s: Seq<char>) -> int
    decreases s.len(),
{
    if s.len() > 0 && is_space(s[0]) {
        1 + lead(s.skip(1))
    } else {
        0
    }
}

proof fn lemma_lead(s: Seq<char>)
    ensures
        0 <= lead(s) <= s.len(),
        forall|i: int| 0 <= i < lead(s) ==> is_space(#[trigger] s[i]),
        lead(s) == s.len() || !is_space(s[lead(s)]),
    decreases s.len(),
{
    if s.len() > 0 && is_space(s[0]) {
        let t = s.skip(1);
        lemma_lead(t);
        assert forall|i: int| 0 <= i < lead(s) implies is_space(#[trigger] s[i]) by {
            if i > 0 {
                assert(t[i - 1] == s[i]);
            }
        }
        if lead(s) < s.len() {
            assert(t[lead(t)] == s[lead(s)]);
        }
    }
}

proof fn lemma_trim_back_keeps(s: Seq<char>)
    requires
        s.len() > 0,
        !is_space(s[0]),
    ensures
        trim_back(s).len() > 0,
    decreases s.len(),
{
    if is_space(s.last()) {
        assert(s.len() > 1);
        assert(s.drop_last()[0] == s[0]);
        lemma_trim_back_keeps(s.drop_last());
    }
}

/// `str::trim`.
pub fn trim(s: &str) -> (r: String)
    ensures
        r@ == trimmed(s@),
{
    let v = chars_of(s);
    let mut a: usize = 0;
    while a < v.len() && space(v[a])
        invariant
            a <= v@.len(),
            forall|i: int| 0 <= i < a ==> is_space(#[trigger] v@[i]),
        decreases v@.len() - a,
    {
        a += 1;
    }
    let mut b: usize = v.len();
    while a < b && space(v[b - 1])
        invariant
            a <= b <= v@.len(),
            forall|i: int| b <= i < v@.len() ==> is_space(#[trigger] v@[i]),
        decreases b,
    {
        b -= 1;
    }
    proof {
        lemma_trim_front(v@, a as int);
        let t = v@.skip(a as int);
        assert forall|i: int| b - a <= i < t.len() implies is_space(#[trigger] t[i]) by {
            assert(t[i] == v@[i + a]);
        }
        if b > a {
            assert(t[b - a - 1] == v@[b - 1]);
        }
        lemma_trim_back(t, b - a);
        assert(t.take(b - a) =~= v@.subrange(a as int, b as int));
    }
    text_of(&v, a, b)
}

/// Whether a text is white space only.
pub fn blank(s: &str) -> (r: bool)
    ensures
        r == is_blank(s@),
{
    let v = chars_of(s);
    let mut i: usize = 0;
    while i < v.len()
        invariant
            i <= v@.len(),
            v@ == s@,
            forall|k: int| 0 <= k < i ==> is_space(#[trigger] v@[k]),
        decreases v@.len() - i,
    {
        if !space(v[i]) {
            assert(!is_space(v@[i as int]));
            return false;
        }
        i += 1;
    }
    true
}

/// Whether an optional text holds something other than white space.
pub open spec fn has_ink(o: Option<String>) -> bool {
    o matches Some(s) && !is_blank(s@)
}

/// Whether an optional text holds something other than white space.
pub fn inked(o: &Option<String>) -> (r: bool)
    ensures
        r == has_ink(*o),
{
    match o {
        Some(s) => !blank(s),
        None => false,
    }
}

/// Trimming takes white space from both ends and nothing else: what it leaves neither
/// begins nor ends with white space, and what it takes is blank. Trimming twice is
/// trimming once.
pub proof fn trimming_takes_the_margins(s: Seq<char>) -> (r: (Seq<char>, Seq<char>))
    ensures
        s == r.0 + trimmed(s) + r.1,
        is_blank(r.0) && is_blank(r.1),
        trimmed(s).len() > 0 ==> !is_space(trimmed(s)[0]) && !is_space(trimmed(s).last()),
        trimmed(trimmed(s)) == trimmed(s),
{
    let k = lead(s);
    lemma_lead(s);
    lemma_trim_front(s, k);
    let t = s.skip(k);
    let m = lemma_tail(t);
    lemma_trim_back(t, m);
    let a = s.take(k);
    let b = t.skip(m);
    assert(s =~= a + t.take(m) + b);
    assert forall|i: int| 0 <= i < a.len() implies is_space(#[trigger] a[i]) by {
        assert(a[i] == s[i]);
    }
    assert forall|i: int| 0 <= i < b.len() implies is_space(#[trigger] b[i]) by {
        assert(b[i] == t[m + i]);
    }
    let u = trimmed(s);
    if u.len() > 0 {
        assert(u[0] == s[k]);
        assert(u.last() == t[m - 1]);
        lemma_trim_front(u, 0);
        assert(u.skip(0) =~= u);
        lemma_trim_back(u, u.len() as int);
        assert(u.take(u.len() as int) =~= u);
    } else {
        lemma_trim_front(u, 0);
        assert(u.skip(0) =~= u);
        lemma_trim_back(u, 0);
        assert(u.take(0) =~= u);
    }
    (a, b)
}

proof fn lemma_tail(t: Seq<char>) -> (m: int)
    ensures
        0 <= m <= t.len(),
        forall|i: int| m <= i < t.len() ==> is_space(#[trigger] t[i]),
        m == 0 || !is_space(t[m - 1]),
    decreases t.len(),
{
    if t.len() > 0 && is_space(t.last()) {
        let h = t.drop_last();
        let m = lemma_tail(h);
        assert forall|i: int| m <= i < t.len() implies is_space(#[trigger] t[i]) by {
            if i < h.len() {
                assert(h[i] == t[i]);
            }
        }
        if m > 0 {
            assert(h[m - 1] == t[m - 1]);
        }
        m
    } else {
        t.len() as int
    }
}

/// Spaces, tabs, line breaks and the wide and thin spaces of other scripts are white
/// space; letters, digits, punctuation and joiners are not.
pub proof fn white_space_is_what_separates(c: char)
    ensures
        c == ' ' || c == '\t' || c == '\n' || c == '\r' ==> is_space(c),
        '!' <= c <= '~' ==> !is_space(c),
        c as u32 == 0xa0 || c as u32 == 0x2003 || c as u32 == 0x3000 ==> is_space(c),
        c as u32 == 0x200b || c as u32 == 0xfeff ==> !is_space(c),
        is_control(c) <==> c as u32 == 0x7f || (c as u32) % 0x80 < 0x20 && (c as u32) < 0x100,
{
    let u = c as u32;
    assert((u == 0x7f || u % 0x80 < 0x20 && u < 0x100) <==> (u <= 0x1f || 0x7f <= u <= 0x9f))
        by (bit_vector);
}

/// A text has ink exactly if some character of it is no white space.
pub proof fn ink_is_not_white(o: Option<String>)
    ensures
        has_ink(o) <==> (o matches Some(s) && exists|i: int|
            0 <= i < s@.len() && !is_space(#[trigger] s@[i])),
{
}

/// Control characters are the thirty-two before the blank, and the thirty-three from the
/// delete character on; what can be printed is none.
pub proof fn control_characters_stand_in_two_rows(c: char)
    ensures
        c < ' ' ==> is_control(c),
        ' ' <= c <= '~' ==> !is_control(c),
        c as int == 127 || c as int == 159 ==> is_control(c),
        127 <= c as int <= 159 <==> is_control(c) && c > '~',
        c as int >= 160 ==> !is_control(c),
{
}

} // verus!
