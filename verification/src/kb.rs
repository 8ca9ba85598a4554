//! The knowledge base: a one-way mirror of sessions and the overview document as
//! Markdown files.

#[allow(unused_imports)]
use crate::dates::{iso_date_or, is_iso_date};
#[allow(unused_imports)]
use crate::number::{decimal, is_digit};
#[allow(unused_imports)]
use crate::pattern::{finishes, join, joined, split_words, views, words};
#[allow(unused_imports)]
use crate::text::{chars_of, control, is_control, is_space, text_of, trim, trimmed};
use vstd::prelude::*;

verus! {

// ---------------------------------------------------------------------------
// File names
// ---------------------------------------------------------------------------

/// Characters that some file system does not allow in a name.
pub open spec fn is_illegal(c: char) -> bool {
    c == '/' || c == '\\' || c == ':' || c == '*' || c == '?' || c == '"' || c == '<' || c == '>'
        || c == '|' || c == '\0'
}

/// Characters that count as white space in a name.
pub open spec fn is_gap(c: char) -> bool {
    is_illegal(c) || is_control(c) || is_space(c)
}

/// The text with illegal and control characters turned into blanks.
pub open spec fn blanked(s: Seq<char>) -> Seq<char> {
    s.map_values(
        |c: char|
            if is_illegal(c) || is_control(c) {
                ' '
            } else {
                c
            },
    )
}

/// The text without leading `c`.
pub open spec fn strip_front(s: Seq<char>, c: char) -> Seq<char>
    decreases s.len(),
{
    if s.len() > 0 && s[0] == c {
        strip_front(s.skip(1), c)
    } else {
        s
    }
}

/// The text without trailing `c`.
pub open spec fn strip_back(s: Seq<char>, c: char) -> Seq<char>
    decreases s.len(),
{
    if s.len() > 0 && s.last() == c {
        strip_back(s.drop_last(), c)
    } else {
        s
    }
}

/// The text without `c` at either end.
pub open spec fn stripped(s: Seq<char>, c: char) -> Seq<char> {
    strip_back(strip_front(s, c), c)
}

/// At most the first `n` characters.
pub open spec fn capped(s: Seq<char>, n: int) -> Seq<char> {
    if s.len() <= n {
        s
    } else {
        s.take(n)
    }
}

/// The text as a part of a file name: its words joined by hyphens, no hyphens at
/// the ends, at most eighty characters. Illegal and control characters separate
/// words.
pub open spec fn file_part(s: Seq<char>) -> Seq<char> {
    capped(stripped(joined(words(blanked(s)), seq!['-']), '-'), 80)
}

fn blank_out(s: &str) -> (r: String)
    ensures
        r@ == blanked(s@),
{
    let v = chars_of(s);
    let mut r = String::new();
    let mut i: usize = 0;
    assert(r@ =~= blanked(s@.take(0)));
    while i < v.len()
        invariant
            i <= v@.len(),
            v@ == s@,
            r@ == blanked(s@.take(i as int)),
        decreases v@.len() - i,
    {
        let c = v[i];
        let illegal = c == '/' || c == '\\' || c == ':' || c == '*' || c == '?' || c == '"' || c
            == '<' || c == '>' || c == '|' || c == '\0';
        if illegal || control(c) {
            r.push(' ');
        } else {
            r.push(c);
        }
        i += 1;
        assert(r@ =~= blanked(s@.take(i as int)));
    }
    assert(s@.take(i as int) =~= s@);
    r
}

proof fn lemma_strip_front(s: Seq<char>, c: char, k: int)
    requires
        0 <= k <= s.len(),
        forall|i: int| 0 <= i < k ==> #[trigger] s[i] == c,
        k == s.len() || s[k] != c,
    ensures
        strip_front(s, c) == s.skip(k),
    decreases k,
{
    if k > 0 {
        assert(s[0] == c);
        let t = s.skip(1);
        assert forall|i: int| 0 <= i < k - 1 implies #[trigger] t[i] == c by {
            assert(t[i] == s[i + 1]);
        }
        lemma_strip_front(t, c, k - 1);
        assert(t.skip(k - 1) =~= s.skip(k));
    } else {
        assert(s.skip(0) =~= s);
    }
}

proof fn lemma_strip_back(s: Seq<char>, c: char, k: int)
    requires
        0 <= k <= s.len(),
        forall|i: int| k <= i < s.len() ==> #[trigger] s[i] == c,
        k == 0 || s[k - 1] != c,
    ensures
        strip_back(s, c) == s.take(k),
    decreases s.len() - k,
{
    if k < s.len() {
        assert(s[s.len() - 1] == c);
        let t = s.drop_last();
        assert forall|i: int| k <= i < t.len() implies #[trigger] t[i] == c by {
            assert(t[i] == s[i]);
        }
        lemma_strip_back(t, c, k);
        assert(t.take(k) =~= s.take(k));
    } else {
        assert(s.take(k) =~= s);
    }
}

/// Sanitizes a text for use as a part of a path.
pub fn kb_sanitize_filename(s: &str) -> (r: String)
    ensures
        r@ == file_part(s@),
{
    let clean = blank_out(s);
    let ws = split_words(&clean);
    proof {
        assert(views(ws@) =~= words(clean@));
        reveal_strlit("-");
        assert("-"@ =~= seq!['-']);
    }
    let j = join(&ws, "-");
    let v = chars_of(&j);
    let mut a: usize = 0;
    while a < v.len() && v[a] == '-'
        invariant
            a <= v@.len(),
            forall|i: int| 0 <= i < a ==> #[trigger] v@[i] == '-',
        decreases v@.len() - a,
    {
        a += 1;
    }
    let mut b: usize = v.len();
    while a < b && v[b - 1] == '-'
        invariant
            a <= b <= v@.len(),
            forall|i: int| b <= i < v@.len() ==> #[trigger] v@[i] == '-',
        decreases b,
    {
        b -= 1;
    }
    proof {
        lemma_strip_front(v@, '-', a as int);
        let t = v@.skip(a as int);
        assert forall|i: int| b - a <= i < t.len() implies #[trigger] t[i] == '-' by {
            assert(t[i] == v@[i + a]);
        }
        if b > a {
            assert(t[b - a - 1] == v@[b - 1]);
        }
        lemma_strip_back(t, '-', b - a);
        assert(t.take(b - a) =~= v@.subrange(a as int, b as int));
    }
    let end: usize = if b - a > 80 {
        a + 80
    } else {
        b
    };
    assert(v@.subrange(a as int, end as int) =~= capped(v@.subrange(a as int, b as int), 80));
    text_of(&v, a, end)
}

/// The file tag of a session.
pub open spec fn tag_of(id: Seq<char>) -> Seq<char> {
    file_part(trimmed(id))
}

/// The stable file tag of a session: its whole id, sanitized. A shortened id
/// would not do: files are found again by this tag.
pub fn kb_short_id(session_id: &str) -> (r: String)
    ensures
        r@ == tag_of(session_id@),
{
    kb_sanitize_filename(&trim(session_id))
}

/// What an optional title adds to a file name; a session without a usable title
/// goes by its tag.
pub open spec fn title_part(title: Option<Seq<char>>, id: Seq<char>) -> Seq<char> {
    match title {
        Some(t) => if file_part(trimmed(t)).len() > 0 {
            file_part(trimmed(t))
        } else {
            tag_of(id)
        },
        None => tag_of(id),
    }
}

/// The end of every file name of a session.
pub open spec fn tag_suffix(id: Seq<char>) -> Seq<char> {
    "-"@ + tag_of(id) + ".md"@
}

/// The name of a session's file, without its directory.
pub open spec fn base_name(date: Seq<char>, title: Option<Seq<char>>, id: Seq<char>) -> Seq<char> {
    date + "-"@ + title_part(title, id) + "-"@ + tag_of(id) + ".md"@
}

/// The characters of an optional text.
pub open spec fn opt_str(o: Option<&str>) -> Option<Seq<char>> {
    match o {
        Some(s) => Some(s@),
        None => None,
    }
}

/// The name of a session's file, without its directory.
pub fn kb_base_name(date: &str, title: Option<&str>, session_id: &str) -> (r: String)
    ensures
        r@ == base_name(date@, opt_str(title), session_id@),
{
    let short = kb_short_id(session_id);
    let part = match title {
        Some(t) => {
            let p = kb_sanitize_filename(&trim(t));
            if p.as_str().unicode_len() > 0 {
                p
            } else {
                short.clone()
            }
        },
        None => short.clone(),
    };
    let mut r = date.to_string();
    r.push_str("-");
    r.push_str(&part);
    r.push_str("-");
    r.push_str(&short);
    r.push_str(".md");
    r
}

/// The path of a session's file below the knowledge base:
/// `sessions/YYYY-MM-DD-<title>-<tag>.md`.
pub fn kb_session_filename(started_at: u64, title: Option<&str>, session_id: &str) -> (r: String)
    ensures
        exists|date: Seq<char>| #[trigger]
            is_iso_date(started_at, "0000-00-00"@, date) && r@ == "sessions/"@ + base_name(
                date,
                opt_str(title),
                session_id@,
            ),
{
    let date = iso_date_or(started_at, "0000-00-00");
    let base = kb_base_name(&date, title, session_id);
    let mut r = "sessions/".to_string();
    r.push_str(&base);
    r
}

// ---------------------------------------------------------------------------
// What holds of file names
// ---------------------------------------------------------------------------

/// No character of the text counts as white space in a name.
pub open spec fn is_clean(s: Seq<char>) -> bool {
    forall|i: int| 0 <= i < s.len() ==> !is_gap(#[trigger] s[i])
}

proof fn lemma_words_clean(s: Seq<char>)
    ensures
        forall|k: int| 0 <= k < words(blanked(s)).len() ==> is_clean(#[trigger] words(blanked(s))[k]),
    decreases s.len(),
{
    if s.len() > 0 {
        let h = s.drop_last();
        assert(blanked(s).drop_last() =~= blanked(h));
        lemma_words_clean(h);
        let b = blanked(s);
        let w = words(blanked(h));
        let v = words(b);
        if s.len() > 1 && !is_space(b[b.len() - 2]) {
            assert(b.drop_last().last() == b[b.len() - 2]);
            crate::pattern::lemma_words_nonempty(b.drop_last());
        }
        assert forall|k: int| 0 <= k < v.len() implies is_clean(#[trigger] v[k]) by {
            if is_space(b.last()) {
                assert(v[k] == w[k]);
            } else {
                assert(!is_gap(b.last()));
                if k < w.len() {
                    assert(is_clean(w[k]));
                }
            }
        }
    }
}

proof fn lemma_joined_clean(parts: Seq<Seq<char>>)
    requires
        forall|k: int| 0 <= k < parts.len() ==> is_clean(#[trigger] parts[k]),
    ensures
        is_clean(joined(parts, seq!['-'])),
    decreases parts.len(),
{
    if parts.len() > 1 {
        let h = parts.drop_last();
        assert forall|k: int| 0 <= k < h.len() implies is_clean(#[trigger] h[k]) by {
            assert(is_clean(parts[k]));
        }
        lemma_joined_clean(h);
        assert(is_clean(parts[parts.len() - 1]));
        let a = joined(h, seq!['-']);
        let r = joined(parts, seq!['-']);
        assert forall|i: int| 0 <= i < r.len() implies !is_gap(#[trigger] r[i]) by {
            if i < a.len() {
                assert(r[i] == a[i]);
            } else if i == a.len() {
                assert(r[i] == '-');
            } else {
                assert(r[i] == parts.last()[i - a.len() - 1]);
            }
        }
    } else if parts.len() == 1 {
        assert(is_clean(parts[0]));
    }
}

proof fn lemma_strip_front_part(s: Seq<char>, c: char)
    ensures
        exists|k: int| 0 <= k <= s.len() && #[trigger] s.skip(k) == strip_front(s, c),
        strip_front(s, c).len() > 0 ==> strip_front(s, c)[0] != c,
    decreases s.len(),
{
    if s.len() > 0 && s[0] == c {
        lemma_strip_front_part(s.skip(1), c);
        let k = choose|k: int|
            0 <= k <= s.skip(1).len() && #[trigger] s.skip(1).skip(k) == strip_front(
                s.skip(1),
                c,
            );
        assert(s.skip(1).skip(k) =~= s.skip(k + 1));
    } else {
        assert(s.skip(0) =~= s);
    }
}

proof fn lemma_strip_back_part(s: Seq<char>, c: char)
    ensures
        exists|k: int| 0 <= k <= s.len() && #[trigger] s.take(k) == strip_back(s, c),
        strip_back(s, c).len() > 0 ==> strip_back(s, c).last() != c,
    decreases s.len(),
{
    if s.len() > 0 && s.last() == c {
        lemma_strip_back_part(s.drop_last(), c);
        let k = choose|k: int|
            0 <= k <= s.drop_last().len() && #[trigger] s.drop_last().take(k) == strip_back(
                s.drop_last(),
                c,
            );
        assert(s.drop_last().take(k) =~= s.take(k));
    } else {
        assert(s.take(s.len() as int) =~= s);
    }
}

/// A file part is safe: it holds no separator, no other illegal or control
/// character and no white space, it does not begin with a hyphen, and it has at
/// most eighty characters. A part that was not cut does not end with a hyphen.
pub proof fn file_parts_are_safe(s: Seq<char>)
    ensures
        is_clean(file_part(s)),
        file_part(s).len() <= 80,
        file_part(s).len() > 0 ==> file_part(s)[0] != '-',
        0 < file_part(s).len() < 80 ==> file_part(s).last() != '-',
{
    lemma_words_clean(s);
    let j = joined(words(blanked(s)), seq!['-']);
    lemma_joined_clean(words(blanked(s)));
    lemma_strip_front_part(j, '-');
    let f = strip_front(j, '-');
    let k = choose|k: int| 0 <= k <= j.len() && #[trigger] j.skip(k) == f;
    assert forall|i: int| 0 <= i < f.len() implies !is_gap(#[trigger] f[i]) by {
        assert(f[i] == j[i + k]);
    }
    lemma_strip_back_part(f, '-');
    let t = strip_back(f, '-');
    let m = choose|m: int| 0 <= m <= f.len() && #[trigger] f.take(m) == t;
    assert forall|i: int| 0 <= i < t.len() implies !is_gap(#[trigger] t[i]) by {
        assert(t[i] == f[i]);
    }
    let r = file_part(s);
    assert forall|i: int| 0 <= i < r.len() implies !is_gap(#[trigger] r[i]) by {
        assert(r[i] == t[i]);
    }
    if r.len() > 0 {
        assert(r[0] == f[0]);
    }
}

proof fn lemma_one_word(s: Seq<char>)
    requires
        is_clean(s),
        s.len() > 0,
    ensures
        words(s) == seq![s],
    decreases s.len(),
{
    let h = s.drop_last();
    assert(!is_gap(s[s.len() - 1]));
    if s.len() > 1 {
        assert forall|i: int| 0 <= i < h.len() implies !is_gap(#[trigger] h[i]) by {
            assert(h[i] == s[i]);
        }
        lemma_one_word(h);
        assert(!is_gap(s[s.len() - 2]));
        assert(h.push(s.last()) =~= s);
        assert(words(s) =~= seq![s]);
    } else {
        assert(words(h) =~= Seq::empty());
        assert(seq![s.last()] =~= s);
        assert(words(s) =~= seq![s]);
    }
}

/// A name that is clean already, has no hyphen at its ends and is short enough
/// stays as it is.
pub proof fn clean_names_are_kept(s: Seq<char>)
    requires
        is_clean(s),
        s.len() <= 80,
        s.len() > 0 ==> s[0] != '-' && s.last() != '-',
    ensures
        file_part(s) == s,
{
    assert forall|i: int| 0 <= i < s.len() implies #[trigger] blanked(s)[i] == s[i] by {
        assert(!is_gap(s[i]));
    }
    assert(blanked(s) =~= s);
    if s.len() > 0 {
        lemma_one_word(s);
        assert(joined(words(s), seq!['-']) == s);
    } else {
        assert(words(s) =~= Seq::empty());
        assert(joined(words(s), seq!['-']) =~= s);
    }
}

/// Sanitizing twice is sanitizing once, unless the cut at eighty characters left
/// a hyphen at the end.
pub proof fn sanitizing_is_idempotent(s: Seq<char>)
    requires
        file_part(s).len() == 80 ==> file_part(s).last() != '-',
    ensures
        file_part(file_part(s)) == file_part(s),
{
    file_parts_are_safe(s);
    clean_names_are_kept(file_part(s));
}

proof fn lemma_decimal_len(n: nat, k: nat)
    requires
        k >= 1,
        n < vstd::arithmetic::power::pow(10, k),
    ensures
        decimal(n).len() <= k,
    decreases k,
{
    reveal(vstd::arithmetic::power::pow);
    if n >= 10 {
        if k == 1 {
            assert(vstd::arithmetic::power::pow(10, 1) == 10) by {
                reveal_with_fuel(vstd::arithmetic::power::pow, 2);
            }
        } else {
            assert(vstd::arithmetic::power::pow(10, k) == 10 * vstd::arithmetic::power::pow(
                10,
                (k - 1) as nat,
            ));
            lemma_decimal_len(n / 10, (k - 1) as nat);
        }
    }
}

proof fn lemma_u64_digits(n: u64)
    ensures
        decimal(n as nat).len() <= 20,
{
    assert(vstd::arithmetic::power::pow(10, 20) == 100_000_000_000_000_000_000) by {
        reveal_with_fuel(vstd::arithmetic::power::pow, 21);
    }
    lemma_decimal_len(n as nat, 20);
}

/// The id that a recording gets: a prefix and the time it began.
pub open spec fn stamped_id(prefix: Seq<char>, at: u64) -> Seq<char> {
    prefix + decimal(at as nat)
}

/// The prefixes of session ids: recordings, and imported files.
pub open spec fn is_id_prefix(p: Seq<char>) -> bool {
    p == "sess-"@ || p == "file-"@
}

/// The tag of a session is its id, unchanged.
pub proof fn session_tag_is_the_id(prefix: Seq<char>, at: u64)
    requires
        is_id_prefix(prefix),
    ensures
        tag_of(stamped_id(prefix, at)) == stamped_id(prefix, at),
{
    reveal_strlit("sess-");
    reveal_strlit("file-");
    let s = stamped_id(prefix, at);
    let d = decimal(at as nat);
    crate::number::decimal_has_digits_only(at as nat);
    lemma_u64_digits(at);
    assert forall|i: int| 0 <= i < s.len() implies !is_gap(#[trigger] s[i]) by {
        if i >= 5 {
            assert(s[i] == d[i - 5]);
            assert(is_digit(d[i - 5]));
        } else {
            assert(s[i] == prefix[i]);
        }
    }
    assert(s.last() == d.last());
    assert(is_digit(d[d.len() - 1]));
    assert(!is_gap(s[0]));
    assert(!is_gap(s[s.len() - 1]));
    assert(trimmed(s) == s) by {
        assert(crate::text::trim_front(s) == s);
        assert(crate::text::trim_back(s) == s);
    }
    clean_names_are_kept(s);
}

/// A session's file is found again by its own tag.
pub proof fn own_file_is_found(date: Seq<char>, title: Option<Seq<char>>, id: Seq<char>)
    ensures
        finishes(base_name(date, title, id), tag_suffix(id)),
{
    let a = date + "-"@ + title_part(title, id);
    let f = base_name(date, title, id);
    let t = tag_suffix(id);
    assert(f =~= a + t);
    assert(f.subrange(f.len() - t.len(), f.len() as int) =~= t);
}

/// No session's file is taken for the file of another session, whatever the
/// dates and titles.
pub proof fn tags_do_not_collide(
    date: Seq<char>,
    title: Option<Seq<char>>,
    p: Seq<char>,
    a: u64,
    q: Seq<char>,
    b: u64,
)
    requires
        is_id_prefix(p),
        is_id_prefix(q),
        finishes(base_name(date, title, stamped_id(p, a)), tag_suffix(stamped_id(q, b))),
    ensures
        p == q,
        a == b,
{
    reveal_strlit("sess-");
    reveal_strlit("file-");
    reveal_strlit(".md");
    reveal_strlit("-");
    let ida = stamped_id(p, a);
    let idb = stamped_id(q, b);
    session_tag_is_the_id(p, a);
    session_tag_is_the_id(q, b);
    let da = decimal(a as nat);
    let db = decimal(b as nat);
    crate::number::decimal_has_digits_only(a as nat);
    crate::number::decimal_has_digits_only(b as nat);
    let x = base_name(date, title, ida);
    let head = date + "-"@ + title_part(title, ida) + "-"@;
    let s = tag_suffix(idb);
    assert(x =~= head + p + da + ".md"@);
    assert(s =~= "-"@ + q + db + ".md"@);
    let n = x.len();
    let m = s.len();
    assert(forall|i: int| 0 <= i < m ==> #[trigger] s[i] == x[n - m + i]) by {
        assert(x.subrange(n - m, n as int) == s);
        assert forall|i: int| 0 <= i < m implies #[trigger] s[i] == x[n - m + i] by {
            assert(x.subrange(n - m, n as int)[i] == x[n - m + i]);
        }
    }
    if da.len() > db.len() {
        // The hyphen before the digits of `b` would be a digit of `a`.
        let i = m - 4 - db.len();
        assert(s[i] == '-') by {
            assert(s[i] == q[4]);
        }
        let k = n - 4 - db.len();
        assert(n - m + i == k);
        let j = k - (head.len() + 5);
        assert(x[k] == da[j]);
        assert(is_digit(da[j]));
        assert(false);
    } else if da.len() < db.len() {
        // The hyphen before the digits of `a` would be a digit of `b`.
        let k = n - 4 - da.len();
        assert(x[k] == '-') by {
            assert(x[k] == p[4]);
        }
        let i = k - (n - m);
        let j = i - 6;
        assert(s[i] == db[j]);
        assert(is_digit(db[j]));
        assert(false);
    } else {
        assert(da =~= db) by {
            assert forall|j: int| 0 <= j < da.len() implies da[j] == db[j] by {
                assert(x[head.len() + 5 + j] == da[j]);
                assert(s[6 + j] == db[j]);
                assert(n - m + 6 + j == head.len() + 5 + j);
            }
        }
        assert(p =~= q) by {
            assert forall|j: int| 0 <= j < 5 implies p[j] == q[j] by {
                assert(x[head.len() + j] == p[j]);
                assert(s[1 + j] == q[j]);
                assert(n - m + 1 + j == head.len() + j);
            }
        }
        crate::number::decimal_is_injective(a as nat, b as nat);
    }
}

/// A file part holds none of the characters that a file system may refuse.
pub proof fn refused_characters_are_gone(s: Seq<char>, i: int)
    requires
        0 <= i < file_part(s).len(),
    ensures
        file_part(s)[i] != '/' && file_part(s)[i] != '\\' && file_part(s)[i] != ':',
        file_part(s)[i] != '*' && file_part(s)[i] != '?' && file_part(s)[i] != '"',
        file_part(s)[i] != '<' && file_part(s)[i] != '>' && file_part(s)[i] != '|',
        file_part(s)[i] != '\0' && file_part(s)[i] != ' ' && file_part(s)[i] != '\n',
        file_part(s)[i] != '\t' && file_part(s)[i] != '\r',
{
    file_parts_are_safe(s);
    assert(!is_gap(file_part(s)[i]));
}

/// Words are kept, with one hyphen for whatever stood between them; a long name is cut
/// after eighty characters.
pub proof fn words_stay_in_names(a: Seq<char>, gap: Seq<char>, b: Seq<char>)
    requires
        is_clean(a),
        is_clean(b),
        a.len() > 0,
        b.len() > 0,
        a[0] != '-',
        b.last() != '-',
        gap.len() > 0,
        forall|i: int| 0 <= i < gap.len() ==> is_gap(#[trigger] gap[i]),
    ensures
        file_part(a + gap + b) == (if a.len() + 1 + b.len() <= 80 {
            a + seq!['-'] + b
        } else {
            (a + seq!['-'] + b).take(80)
        }),
        a.last() != '-' ==> file_part(gap + a + gap) == (if a.len() <= 80 {
            a
        } else {
            a.take(80)
        }),
{
    let s = a + gap + b;
    let g = blanked(gap);
    lemma_blanked_kept(a);
    lemma_blanked_kept(b);
    assert(blanked(s) =~= a + g + b);
    lemma_one_word(a);
    lemma_one_word(b);
    assert forall|i: int| 0 <= i < g.len() implies is_space(#[trigger] g[i]) by {
        assert(is_gap(gap[i]));
        assert(is_space(' '));
    }
    lemma_words_apart(a, g, b);
    assert(words(blanked(s)) =~= seq![a].push(b));
    crate::pattern::separators_stand_between(seq![a], b, seq!['-']);
    crate::pattern::separators_stand_between(seq![a], a, seq!['-']);
    let j = a + seq!['-'] + b;
    assert(joined(words(blanked(s)), seq!['-']) == j);
    assert(j[0] == a[0] && j.last() == b.last());
    assert(stripped(j, '-') == j);
    let t = gap + a + gap;
    assert(blanked(t) =~= g + a + g);
    let e = Seq::<char>::empty();
    lemma_words_apart(e, g, a + g);
    lemma_words_apart(a, g, e);
    assert(e + g + (a + g) =~= blanked(t));
    assert(a + g + e =~= a + g);
    assert(words(e) =~= Seq::empty());
    assert(words(blanked(t)) =~= seq![a]);
    if a.last() != '-' {
        assert(stripped(a, '-') == a);
    }
}

proof fn lemma_blanked_kept(s: Seq<char>)
    requires
        is_clean(s),
    ensures
        blanked(s) == s,
{
    assert forall|i: int| 0 <= i < s.len() implies #[trigger] blanked(s)[i] == s[i] by {
        assert(!is_gap(s[i]));
    }
    assert(blanked(s) =~= s);
}

proof fn lemma_words_apart(a: Seq<char>, g: Seq<char>, b: Seq<char>)
    requires
        g.len() > 0,
        forall|i: int| 0 <= i < g.len() ==> is_space(#[trigger] g[i]),
    ensures
        words(a + g + b) == words(a) + words(b),
    decreases g.len(),
{
    let c = g[0];
    let w = seq!['x'];
    assert(!is_space('x'));
    if g.len() == 1 {
        assert(g =~= seq![c]);
        crate::pattern::white_space_separates_words(a, c, b, w);
    } else {
        let h = g.skip(1);
        let e = Seq::<char>::empty();
        assert(a + g + b =~= a + seq![c] + (h + b));
        crate::pattern::white_space_separates_words(a, c, h + b, w);
        lemma_words_apart(e, h, b);
        assert(e + h + b =~= h + b);
        assert(words(e) + words(b) =~= words(b));
    }
}

/// A file's name says the date, the title and the session, in this order; a session
/// whose title has nothing to show goes by its tag.
pub proof fn names_say_date_title_and_session(date: Seq<char>, t: Seq<char>, id: Seq<char>)
    ensures
        file_part(trimmed(t)).len() > 0 ==> base_name(date, Some(t), id) == date + "-"@ + file_part(
            trimmed(t),
        ) + tag_suffix(id),
        file_part(trimmed(t)).len() == 0 ==> base_name(date, Some(t), id) == base_name(
            date,
            None,
            id,
        ),
        base_name(date, None, id) == date + "-"@ + tag_of(id) + tag_suffix(id),
        finishes(tag_suffix(id), ".md"@),
        tag_of(id) == file_part(trimmed(id)),
{
    assert(base_name(date, None, id) =~= date + "-"@ + tag_of(id) + tag_suffix(id));
    assert(base_name(date, Some(t), id) =~= date + "-"@ + title_part(Some(t), id) + tag_suffix(id));
    crate::pattern::texts_stand_where_their_characters_do("-"@ + tag_of(id), ".md"@, 0);
}

} // verus!
