//! Searching: full-text queries, and grouping of hits by session.

use crate::model::{Segment, Session};
#[allow(unused_imports)]
use crate::order::{arranged, in_order, order_by, picked};
#[allow(unused_imports)]
use crate::pattern::{contains, join, joined, replace_char, replaced, split_words, views, words};
#[allow(unused_imports)]
use crate::text::{is_blank, is_space};
use vstd::prelude::*;

verus! {

// ---------------------------------------------------------------------------
// Full-text queries
// ---------------------------------------------------------------------------

/// A word as a quoted prefix term.
pub open spec fn fts_term(body: Seq<char>) -> Seq<char> {
    seq!['"'] + body + seq!['"', '*']
}

/// The terms of a list of words: quotation marks are dropped, and words that
/// held nothing else give no term.
pub open spec fn fts_terms(ws: Seq<Seq<char>>) -> Seq<Seq<char>>
    decreases ws.len(),
{
    if ws.len() == 0 {
        Seq::empty()
    } else {
        let t = replaced(ws.last(), '"', Seq::empty());
        if t.len() == 0 {
            fts_terms(ws.drop_last())
        } else {
            fts_terms(ws.drop_last()).push(fts_term(t))
        }
    }
}

/// The full-text expression for what a user typed.
pub open spec fn fts_query(q: Seq<char>) -> Seq<char> {
    joined(fts_terms(words(q)), seq![' '])
}

/// Turns free text into a safe full-text expression: each word becomes a quoted
/// prefix term, and all terms must match.
pub fn sanitize_fts(q: &str) -> (r: String)
    ensures
        r@ == fts_query(q@),
{
    let ws = split_words(q);
    let ghost all = words(q@);
    let mut terms: Vec<String> = Vec::new();
    let mut i: usize = 0;
    while i < ws.len()
        invariant
            i <= ws@.len(),
            ws@.len() == all.len(),
            forall|k: int| 0 <= k < ws@.len() ==> (#[trigger] ws@[k])@ == all[k],
            views(terms@) == fts_terms(all.take(i as int)),
        decreases ws@.len() - i,
    {
        proof {
            reveal_strlit("");
            assert(""@ =~= Seq::<char>::empty());
            assert(all.take(i + 1).drop_last() =~= all.take(i as int));
            assert(all.take(i + 1).last() == all[i as int]);
        }
        let t = replace_char(&ws[i], '"', "");
        if t.as_str().unicode_len() > 0 {
            let mut term = String::new();
            term.push('"');
            term.push_str(&t);
            term.push('"');
            term.push('*');
            assert(term@ =~= fts_term(t@));
            let ghost was = terms@;
            terms.push(term);
            assert(views(terms@) =~= views(was).push(term@));
        }
        i += 1;
    }
    proof {
        assert(all.take(i as int) =~= all);
        reveal_strlit(" ");
        assert(" "@ =~= seq![' ']);
    }
    join(&terms, " ")
}

proof fn lemma_dropped(s: Seq<char>, c: char)
    ensures
        forall|i: int|
            0 <= i < replaced(s, c, Seq::empty()).len() ==> {
                &&& #[trigger] replaced(s, c, Seq::empty())[i] != c
                &&& s.contains(replaced(s, c, Seq::empty())[i])
            },
    decreases s.len(),
{
    if s.len() > 0 {
        let p = replaced(s.drop_last(), c, Seq::empty());
        lemma_dropped(s.drop_last(), c);
        let r = replaced(s, c, Seq::empty());
        assert forall|i: int| 0 <= i < r.len() implies {
            &&& #[trigger] r[i] != c
            &&& s.contains(r[i])
        } by {
            if i < p.len() {
                assert(r[i] == p[i]);
                assert(s.drop_last().contains(p[i]));
                let k = choose|k: int|
                    0 <= k < s.drop_last().len() && s.drop_last()[k] == p[i];
                assert(s[k] == r[i]);
            } else {
                assert(r[i] == s[s.len() - 1]);
            }
        }
    }
}

proof fn lemma_words_inkful(s: Seq<char>)
    ensures
        forall|k: int, i: int|
            0 <= k < words(s).len() && 0 <= i < words(s)[k].len() ==> !is_space(
                #[trigger] words(s)[k][i],
            ),
    decreases s.len(),
{
    if s.len() > 0 {
        let w = words(s.drop_last());
        let v = words(s);
        lemma_words_inkful(s.drop_last());
        if s.len() > 1 && !is_space(s[s.len() - 2]) {
            assert(s.drop_last().last() == s[s.len() - 2]);
            crate::pattern::lemma_words_nonempty(s.drop_last());
        }
        assert forall|k: int, i: int|
            0 <= k < v.len() && 0 <= i < v[k].len() implies !is_space(#[trigger] v[k][i]) by {
            if is_space(s.last()) {
                assert(v[k][i] == w[k][i]);
            } else if s.len() == 1 || is_space(s[s.len() - 2]) {
                if k < w.len() {
                    assert(v[k][i] == w[k][i]);
                }
            } else if k < w.len() - 1 {
                assert(v[k][i] == w[k][i]);
            } else if i < w[k].len() {
                assert(v[k][i] == w[k][i]);
            }
        }
    }
}

proof fn lemma_terms_closed(ws: Seq<Seq<char>>)
    requires
        forall|k: int, i: int|
            0 <= k < ws.len() && 0 <= i < ws[k].len() ==> !is_space(#[trigger] ws[k][i]),
    ensures
        forall|k: int|
            0 <= k < fts_terms(ws).len() ==> is_closed_term(#[trigger] fts_terms(ws)[k]),
    decreases ws.len(),
{
    if ws.len() > 0 {
        lemma_terms_closed(ws.drop_last());
        let w = ws.last();
        let t = replaced(w, '"', Seq::empty());
        lemma_dropped(w, '"');
        assert forall|i: int| 0 <= i < t.len() implies #[trigger] t[i] != '"' && !is_space(
            t[i],
        ) by {
            assert(w.contains(t[i]));
            let j = choose|j: int| 0 <= j < w.len() && w[j] == t[i];
            assert(!is_space(ws[ws.len() - 1][j]));
        }
        let p = fts_terms(ws.drop_last());
        let r = fts_terms(ws);
        assert forall|k: int| 0 <= k < r.len() implies is_closed_term(#[trigger] r[k]) by {
            if k < p.len() {
                assert(r[k] == p[k]);
            } else {
                let x = r[k];
                assert(x == fts_term(t));
                assert(x.subrange(1, x.len() - 2) =~= t);
            }
        }
    }
}

/// A term is a non-empty body between one pair of quotation marks, followed by
/// the prefix mark; the body holds neither quotation marks nor white space.
pub open spec fn is_closed_term(t: Seq<char>) -> bool {
    let body = t.subrange(1, t.len() - 2);
    &&& t.len() > 3
    &&& t == fts_term(body)
    &&& forall|i: int| 0 <= i < body.len() ==> #[trigger] body[i] != '"' && !is_space(body[i])
}

/// Nothing a user types escapes its term: every term of a query is closed.
pub proof fn quotes_cannot_escape(q: Seq<char>)
    ensures
        forall|k: int|
            0 <= k < fts_terms(words(q)).len() ==> is_closed_term(
                #[trigger] fts_terms(words(q))[k],
            ),
{
    lemma_words_inkful(q);
    lemma_terms_closed(words(q));
}

/// Input of which nothing is left: white space and quotation marks alone.
pub open spec fn says_nothing(q: Seq<char>) -> bool {
    forall|i: int| 0 <= i < q.len() ==> is_space(#[trigger] q[i]) || q[i] == '"'
}

proof fn lemma_quotes_only(w: Seq<char>)
    ensures
        replaced(w, '"', Seq::empty()).len() == 0 <==> forall|i: int|
            0 <= i < w.len() ==> #[trigger] w[i] == '"',
    decreases w.len(),
{
    if w.len() > 0 {
        let p = w.drop_last();
        lemma_quotes_only(p);
        let r = replaced(w, '"', Seq::empty());
        if w.last() == '"' {
            assert(r =~= replaced(p, '"', Seq::empty()));
            if forall|i: int| 0 <= i < p.len() ==> #[trigger] p[i] == '"' {
                assert forall|i: int| 0 <= i < w.len() implies #[trigger] w[i] == '"' by {
                    if i < p.len() {
                        assert(p[i] == w[i]);
                    }
                }
            } else {
                let i = choose|i: int| 0 <= i < p.len() && #[trigger] p[i] != '"';
                assert(w[i] != '"');
            }
        } else {
            assert(r.len() > 0);
            assert(w[w.len() - 1] != '"');
        }
    }
}

/// No word of a list holds anything but quotation marks.
pub open spec fn quotes_only(ws: Seq<Seq<char>>) -> bool {
    forall|k: int, i: int|
        0 <= k < ws.len() && 0 <= i < ws[k].len() ==> #[trigger] ws[k][i] == '"'
}

proof fn lemma_no_terms(ws: Seq<Seq<char>>)
    ensures
        fts_terms(ws).len() == 0 <==> quotes_only(ws),
    decreases ws.len(),
{
    if ws.len() > 0 {
        let p = ws.drop_last();
        lemma_no_terms(p);
        lemma_quotes_only(ws.last());
        if quotes_only(ws) {
            assert forall|k: int, i: int|
                0 <= k < p.len() && 0 <= i < p[k].len() implies #[trigger] p[k][i] == '"' by {
                assert(ws[k][i] == '"');
            }
            assert forall|i: int| 0 <= i < ws.last().len() implies #[trigger] ws.last()[i]
                == '"' by {
                assert(ws[ws.len() - 1][i] == '"');
            }
        }
        if fts_terms(ws).len() == 0 {
            assert forall|k: int, i: int|
                0 <= k < ws.len() && 0 <= i < ws[k].len() implies #[trigger] ws[k][i] == '"' by {
                if k < p.len() {
                    assert(p[k][i] == '"');
                } else {
                    assert(ws.last()[i] == '"');
                }
            }
        }
    }
}

proof fn lemma_words_say_nothing(q: Seq<char>)
    ensures
        quotes_only(words(q)) <==> says_nothing(q),
    decreases q.len(),
{
    if q.len() > 0 {
        let p = q.drop_last();
        let w = words(p);
        let v = words(q);
        lemma_words_say_nothing(p);
        if q.len() > 1 && !is_space(q[q.len() - 2]) {
            assert(p.last() == q[q.len() - 2]);
            crate::pattern::lemma_words_nonempty(p);
        }
        if says_nothing(q) {
            assert forall|i: int| 0 <= i < p.len() implies is_space(#[trigger] p[i]) || p[i]
                == '"' by {
                assert(q[i] == p[i]);
            }
            assert(is_space(q[q.len() - 1]) || q[q.len() - 1] == '"');
            assert forall|k: int, i: int|
                0 <= k < v.len() && 0 <= i < v[k].len() implies #[trigger] v[k][i] == '"' by {
                if k < w.len() && i < w[k].len() {
                    assert(v[k][i] == w[k][i]);
                }
            }
        }
        if quotes_only(v) {
            assert forall|k: int, i: int|
                0 <= k < w.len() && 0 <= i < w[k].len() implies #[trigger] w[k][i] == '"' by {
                assert(v[k][i] == w[k][i]);
            }
            assert forall|i: int| 0 <= i < q.len() implies is_space(#[trigger] q[i]) || q[i]
                == '"' by {
                if i < p.len() {
                    assert(p[i] == q[i]);
                } else if !is_space(q.last()) {
                    let k = v.len() - 1;
                    assert(v[k][v[k].len() - 1] == q.last());
                }
            }
        }
    }
}

proof fn lemma_joined_empty(parts: Seq<Seq<char>>, sep: Seq<char>)
    requires
        forall|k: int| 0 <= k < parts.len() ==> (#[trigger] parts[k]).len() > 0,
    ensures
        joined(parts, sep).len() == 0 <==> parts.len() == 0,
    decreases parts.len(),
{
    if parts.len() > 0 {
        assert(parts[parts.len() - 1].len() > 0);
    }
}

/// The expression is empty exactly for input of which nothing is left.
pub proof fn empty_iff_nothing_is_said(q: Seq<char>)
    ensures
        fts_query(q).len() == 0 <==> says_nothing(q),
        is_blank(q) ==> fts_query(q).len() == 0,
{
    let ts = fts_terms(words(q));
    lemma_words_say_nothing(q);
    lemma_no_terms(words(q));
    quotes_cannot_escape(q);
    assert forall|k: int| 0 <= k < ts.len() implies (#[trigger] ts[k]).len() > 0 by {
        assert(is_closed_term(ts[k]));
    }
    lemma_joined_empty(ts, seq![' ']);
    crate::pattern::no_words_iff_blank(q);
}

proof fn lemma_words_of_halves(a: Seq<char>, c: char, b: Seq<char>)
    requires
        is_space(c),
    ensures
        words(a + seq![c] + b) == words(a) + words(b),
    decreases b.len(),
{
    let s = a + seq![c] + b;
    if b.len() == 0 {
        assert(s =~= a + seq![c]);
        assert(s.drop_last() =~= a);
        assert(words(b) =~= Seq::<Seq<char>>::empty());
        assert(words(s) =~= words(a) + words(b));
    } else {
        let p = b.drop_last();
        lemma_words_of_halves(a, c, p);
        assert(s.drop_last() =~= a + seq![c] + p);
        assert(s.last() == b.last());
        if b.len() > 1 {
            assert(s[s.len() - 2] == b[b.len() - 2]);
            if !is_space(b[b.len() - 2]) {
                assert(p.last() == b[b.len() - 2]);
                crate::pattern::lemma_words_nonempty(p);
            }
        } else {
            assert(s[s.len() - 2] == c);
        }
        assert(words(s) =~= words(a) + words(b));
    }
}

proof fn lemma_terms_of_halves(u: Seq<Seq<char>>, v: Seq<Seq<char>>)
    ensures
        fts_terms(u + v) == fts_terms(u) + fts_terms(v),
    decreases v.len(),
{
    if v.len() == 0 {
        assert(u + v =~= u);
        assert(fts_terms(u + v) =~= fts_terms(u) + fts_terms(v));
    } else {
        assert((u + v).drop_last() =~= u + v.drop_last());
        lemma_terms_of_halves(u, v.drop_last());
        assert(fts_terms(u + v) =~= fts_terms(u) + fts_terms(v));
    }
}

/// The terms of a query made of two halves are those of the halves: each word is
/// searched for by itself, in the order typed.
pub proof fn halves_are_searched_together(a: Seq<char>, c: char, b: Seq<char>)
    requires
        is_space(c),
    ensures
        fts_terms(words(a + seq![c] + b)) == fts_terms(words(a)) + fts_terms(words(b)),
        fts_query(a + seq![c] + b) == joined(
            fts_terms(words(a)) + fts_terms(words(b)),
            seq![' '],
        ),
{
    lemma_words_of_halves(a, c, b);
    lemma_terms_of_halves(words(a), words(b));
}

// ---------------------------------------------------------------------------
// Grouping hits by session
// ---------------------------------------------------------------------------

/// The sessions of a list of hits, each once, in the order they first occur.
pub open spec fn hit_sessions(hits: Seq<(String, Segment)>) -> Seq<Seq<char>>
    decreases hits.len(),
{
    if hits.len() == 0 {
        Seq::empty()
    } else {
        let p = hit_sessions(hits.drop_last());
        if p.contains(hits.last().0@) {
            p
        } else {
            p.push(hits.last().0@)
        }
    }
}

/// The lines of one session among the hits.
pub open spec fn hit_lines(hits: Seq<(String, Segment)>, id: Seq<char>) -> Seq<Segment>
    decreases hits.len(),
{
    if hits.len() == 0 {
        Seq::empty()
    } else {
        let p = hit_lines(hits.drop_last(), id);
        if hits.last().0@ == id {
            p.push(hits.last().1)
        } else {
            p
        }
    }
}

/// When a session began; zero if it is unknown.
pub open spec fn began(sessions: Seq<Session>, id: Seq<char>) -> u64
    decreases sessions.len(),
{
    if sessions.len() == 0 {
        0
    } else if sessions.last().id@ == id {
        sessions.last().started_at
    } else {
        began(sessions.drop_last(), id)
    }
}

/// Start times of lines.
pub open spec fn starts(lines: Seq<Segment>) -> Seq<u64> {
    lines.map_values(|s: Segment| s.t_start_ms)
}

/// Keys that put the newest session first.
pub open spec fn newest_first(ids: Seq<Seq<char>>, sessions: Seq<Session>) -> Seq<u64> {
    ids.map_values(|id: Seq<char>| (u64::MAX - began(sessions, id)) as u64)
}

/// Hits grouped by session: the newest session first, the lines of a session by
/// time.
pub open spec fn grouped(
    hits: Seq<(String, Segment)>,
    sessions: Seq<Session>,
    r: Seq<(String, Vec<Segment>)>,
) -> bool {
    let ids = hit_sessions(hits);
    exists|p: Seq<usize>| #[trigger]
        in_order(newest_first(ids, sessions), p) && r.len() == p.len() && forall|k: int|
            0 <= k < r.len() ==> (#[trigger] r[k]).0@ == ids[p[k] as int] && arranged(
                hit_lines(hits, r[k].0@),
                starts(hit_lines(hits, r[k].0@)),
                r[k].1@,
            )
}

fn session_began(sessions: &Vec<Session>, id: &String) -> (r: u64)
    ensures
        r == began(sessions@, id@),
{
    let mut i: usize = sessions.len();
    assert(sessions@.take(i as int) =~= sessions@);
    while i > 0
        invariant
            i <= sessions@.len(),
            began(sessions@, id@) == began(sessions@.take(i as int), id@),
        decreases i,
    {
        assert(sessions@.take(i as int).drop_last() =~= sessions@.take(i - 1));
        if sessions[i - 1].id == *id {
            return sessions[i - 1].started_at;
        }
        i -= 1;
    }
    0
}

fn has_text(v: &Vec<String>, t: &String) -> (r: bool)
    ensures
        r == views(v@).contains(t@),
{
    let mut i: usize = 0;
    while i < v.len()
        invariant
            i <= v@.len(),
            forall|k: int| 0 <= k < i ==> (#[trigger] v@[k])@ != t@,
        decreases v@.len() - i,
    {
        if v[i] == *t {
            assert(views(v@)[i as int] == t@);
            return true;
        }
        i += 1;
    }
    assert forall|k: int| 0 <= k < views(v@).len() implies views(v@)[k] != t@ by {
        assert(views(v@)[k] == v@[k]@);
    }
    false
}

fn distinct_sessions(hits: &Vec<(String, Segment)>) -> (r: Vec<String>)
    ensures
        views(r@) == hit_sessions(hits@),
{
    let mut r: Vec<String> = Vec::new();
    let mut i: usize = 0;
    assert(views(r@) =~= hit_sessions(hits@.take(0)));
    while i < hits.len()
        invariant
            i <= hits@.len(),
            views(r@) == hit_sessions(hits@.take(i as int)),
        decreases hits@.len() - i,
    {
        assert(hits@.take(i + 1).drop_last() =~= hits@.take(i as int));
        if !has_text(&r, &hits[i].0) {
            let ghost was = r@;
            r.push(hits[i].0.clone());
            assert(views(r@) =~= views(was).push(hits@[i as int].0@));
        }
        i += 1;
    }
    assert(hits@.take(i as int) =~= hits@);
    r
}

fn lines_of(hits: &Vec<(String, Segment)>, id: &String) -> (r: Vec<Segment>)
    ensures
        arranged(hit_lines(hits@, id@), starts(hit_lines(hits@, id@)), r@),
{
    let mut lines: Vec<Segment> = Vec::new();
    let mut keys: Vec<u64> = Vec::new();
    let mut i: usize = 0;
    assert(keys@ =~= starts(lines@));
    while i < hits.len()
        invariant
            i <= hits@.len(),
            lines@ == hit_lines(hits@.take(i as int), id@),
            keys@ == starts(lines@),
        decreases hits@.len() - i,
    {
        assert(hits@.take(i + 1).drop_last() =~= hits@.take(i as int));
        if hits[i].0 == *id {
            let ghost was = lines@;
            lines.push(hits[i].1.copy());
            keys.push(hits[i].1.t_start_ms);
            assert(keys@ =~= starts(lines@));
        }
        i += 1;
    }
    assert(hits@.take(i as int) =~= hits@);
    let p = order_by(&keys);
    let mut r: Vec<Segment> = Vec::new();
    let mut k: usize = 0;
    while k < p.len()
        invariant
            k <= p@.len(),
            in_order(keys@, p@),
            keys@.len() == lines@.len(),
            r@.len() == k,
            forall|j: int| 0 <= j < k ==> #[trigger] r@[j] == lines@[p@[j] as int],
        decreases p@.len() - k,
    {
        r.push(lines[p[k]].copy());
        k += 1;
    }
    assert(r@ =~= picked(lines@, p@));
    r
}

/// Groups hits by session: the newest session first, the lines of a session by
/// time.
pub fn group_hits(hits: &Vec<(String, Segment)>, sessions: &Vec<Session>) -> (r: Vec<
    (String, Vec<Segment>),
>)
    ensures
        grouped(hits@, sessions@, r@),
{
    let ids = distinct_sessions(hits);
    let ghost all = hit_sessions(hits@);
    let mut keys: Vec<u64> = Vec::new();
    let mut i: usize = 0;
    while i < ids.len()
        invariant
            i <= ids@.len(),
            all == views(ids@),
            keys@.len() == i,
            forall|k: int|
                0 <= k < i ==> #[trigger] keys@[k] == u64::MAX - began(sessions@, all[k]),
        decreases ids@.len() - i,
    {
        assert(all[i as int] == ids@[i as int]@);
        keys.push(u64::MAX - session_began(sessions, &ids[i]));
        i += 1;
    }
    assert(keys@ =~= newest_first(all, sessions@));
    let p = order_by(&keys);
    let mut r: Vec<(String, Vec<Segment>)> = Vec::new();
    let mut k: usize = 0;
    while k < p.len()
        invariant
            k <= p@.len(),
            in_order(keys@, p@),
            keys@.len() == ids@.len(),
            all == views(ids@),
            r@.len() == k,
            forall|j: int|
                0 <= j < k ==> (#[trigger] r@[j]).0@ == all[p@[j] as int] && arranged(
                    hit_lines(hits@, r@[j].0@),
                    starts(hit_lines(hits@, r@[j].0@)),
                    r@[j].1@,
                ),
        decreases p@.len() - k,
    {
        let id = ids[p[k]].clone();
        assert(all[p@[k as int] as int] == ids@[p@[k as int] as int]@);
        let lines = lines_of(hits, &id);
        r.push((id, lines));
        k += 1;
    }
    r
}

proof fn lemma_hit_listed(hits: Seq<(String, Segment)>, i: int)
    requires
        0 <= i < hits.len(),
    ensures
        hit_sessions(hits).contains(hits[i].0@),
        hit_lines(hits, hits[i].0@).contains(hits[i].1),
    decreases hits.len(),
{
    let p = hit_sessions(hits.drop_last());
    let id = hits[i].0@;
    if i < hits.len() - 1 {
        assert(hits.drop_last()[i] == hits[i]);
        lemma_hit_listed(hits.drop_last(), i);
        let k = choose|k: int| 0 <= k < p.len() && p[k] == id;
        assert(hit_sessions(hits)[k] == id);
        let q = hit_lines(hits.drop_last(), id);
        let j = choose|j: int| 0 <= j < q.len() && q[j] == hits[i].1;
        assert(hit_lines(hits, id)[j] == hits[i].1);
    } else {
        if !p.contains(id) {
            assert(hit_sessions(hits)[p.len() as int] == id);
        }
        let q = hit_lines(hits.drop_last(), id);
        assert(hit_lines(hits, id)[q.len() as int] == hits[i].1);
    }
}

proof fn lemma_lines_are_hits(hits: Seq<(String, Segment)>, id: Seq<char>, j: int)
    requires
        0 <= j < hit_lines(hits, id).len(),
    ensures
        is_hit(hits, id, hit_lines(hits, id)[j]),
    decreases hits.len(),
{
    let h = hits.drop_last();
    let q = hit_lines(h, id);
    if j < q.len() {
        lemma_lines_are_hits(h, id, j);
        let i = choose|i: int|
            0 <= i < h.len() && (#[trigger] h[i]).0@ == id && h[i].1 == q[j];
        assert(hits[i].0@ == id && hits[i].1 == hit_lines(hits, id)[j]);
    } else {
        assert(hits[hits.len() - 1].0@ == id);
    }
}

proof fn lemma_ids_fit(hits: Seq<(String, Segment)>)
    ensures
        hit_sessions(hits).len() <= hits.len(),
    decreases hits.len(),
{
    if hits.len() > 0 {
        lemma_ids_fit(hits.drop_last());
    }
}

proof fn lemma_lines_fit(hits: Seq<(String, Segment)>, id: Seq<char>)
    ensures
        hit_lines(hits, id).len() <= hits.len(),
    decreases hits.len(),
{
    if hits.len() > 0 {
        lemma_lines_fit(hits.drop_last(), id);
    }
}

/// A line of this session is among the hits.
pub open spec fn is_hit(hits: Seq<(String, Segment)>, id: Seq<char>, line: Segment) -> bool {
    exists|i: int| 0 <= i < hits.len() && (#[trigger] hits[i]).0@ == id && hits[i].1 == line
}

/// A line stands in the group of its session.
pub open spec fn is_grouped(
    r: Seq<(String, Vec<Segment>)>,
    id: Seq<char>,
    line: Segment,
) -> bool {
    exists|k: int| 0 <= k < r.len() && (#[trigger] r[k]).0@ == id && r[k].1@.contains(line)
}

/// Grouping loses no hit and invents none.
pub proof fn grouping_keeps_every_hit(
    hits: Seq<(String, Segment)>,
    sessions: Seq<Session>,
    r: Seq<(String, Vec<Segment>)>,
)
    requires
        hits.len() <= usize::MAX,
        grouped(hits, sessions, r),
    ensures
        forall|i: int|
            0 <= i < hits.len() ==> is_grouped(r, (#[trigger] hits[i]).0@, hits[i].1),
        forall|k: int, j: int|
            0 <= k < r.len() && 0 <= j < r[k].1@.len() ==> is_hit(
                hits,
                r[k].0@,
                #[trigger] r[k].1@[j],
            ),
{
    let ids = hit_sessions(hits);
    let p = choose|p: Seq<usize>| #[trigger]
        in_order(newest_first(ids, sessions), p) && r.len() == p.len() && forall|k: int|
            0 <= k < r.len() ==> (#[trigger] r[k]).0@ == ids[p[k] as int] && arranged(
                hit_lines(hits, r[k].0@),
                starts(hit_lines(hits, r[k].0@)),
                r[k].1@,
            );
    assert forall|i: int| 0 <= i < hits.len() implies is_grouped(
        r,
        (#[trigger] hits[i]).0@,
        hits[i].1,
    ) by {
        lemma_hit_listed(hits, i);
        let m = choose|m: int| 0 <= m < ids.len() && ids[m] == hits[i].0@;
        lemma_ids_fit(hits);
        assert(p.contains(m as usize));
        let k = choose|k: int| 0 <= k < p.len() && p[k] == m as usize;
        assert(r[k].0@ == hits[i].0@);
        let lines = hit_lines(hits, r[k].0@);
        let q = choose|q: Seq<usize>| #[trigger]
            in_order(starts(lines), q) && r[k].1@ == picked(lines, q);
        let j = choose|j: int| 0 <= j < lines.len() && lines[j] == hits[i].1;
        lemma_lines_fit(hits, r[k].0@);
        assert(q.contains(j as usize));
        let w = choose|w: int| 0 <= w < q.len() && q[w] == j as usize;
        assert(r[k].1@[w] == hits[i].1);
    }
    assert forall|k: int, j: int| 0 <= k < r.len() && 0 <= j < r[k].1@.len() implies is_hit(
        hits,
        r[k].0@,
        #[trigger] r[k].1@[j],
    ) by {
        assert(r[k].0@ == ids[p[k] as int]);
        let lines = hit_lines(hits, r[k].0@);
        let q = choose|q: Seq<usize>| #[trigger]
            in_order(starts(lines), q) && r[k].1@ == picked(lines, q);
        assert(r[k].1@[j] == lines[q[j] as int]);
        lemma_lines_are_hits(hits, r[k].0@, q[j] as int);
    }
}

/// Each word of a query becomes one term: the word without its quotation marks, quoted
/// and open at the end, so that it finds longer words too.
pub proof fn words_become_prefix_terms(w: Seq<char>)
    requires
        w.len() > 0,
        forall|i: int| 0 <= i < w.len() ==> !is_space(#[trigger] w[i]) && w[i] != '"',
    ensures
        fts_query(w) == seq!['"'] + w + seq!['"', '*'],
{
    crate::pattern::white_space_separates_words(Seq::empty(), ' ', Seq::empty(), w);
    let ws = seq![w];
    assert(ws.drop_last() =~= Seq::empty());
    assert(fts_terms(ws.drop_last()) =~= Seq::<Seq<char>>::empty());
    lemma_plain_is_kept(w);
    assert(fts_terms(ws) =~= seq![fts_term(w)]);
    assert(joined(seq![fts_term(w)], seq![' ']) == fts_term(w));
}

proof fn lemma_plain_is_kept(w: Seq<char>)
    requires
        forall|i: int| 0 <= i < w.len() ==> #[trigger] w[i] != '"',
    ensures
        replaced(w, '"', Seq::empty()) == w,
    decreases w.len(),
{
    if w.len() > 0 {
        let p = w.drop_last();
        assert forall|i: int| 0 <= i < p.len() implies #[trigger] p[i] != '"' by {
            assert(p[i] == w[i]);
        }
        lemma_plain_is_kept(p);
        assert(w[w.len() - 1] != '"');
        assert(p.push(w.last()) =~= w);
    } else {
        assert(replaced(w, '"', Seq::empty()) =~= w);
    }
}

/// Grouped hits show the session that began last first, each session once, and the
/// lines of a session by their time.
pub proof fn groups_go_newest_first(
    hits: Seq<(String, Segment)>,
    sessions: Seq<Session>,
    r: Seq<(String, Vec<Segment>)>,
)
    requires
        hits.len() <= usize::MAX,
        grouped(hits, sessions, r),
    ensures
        forall|i: int, j: int|
            #![trigger r[i], r[j]]
            0 <= i < j < r.len() ==> began(sessions, r[i].0@) >= began(sessions, r[j].0@)
                && r[i].0@ != r[j].0@,
        forall|k: int, a: int, b: int|
            #![trigger r[k].1@[a], r[k].1@[b]]
            0 <= k < r.len() && 0 <= a < b < r[k].1@.len() ==> r[k].1@[a].t_start_ms
                <= r[k].1@[b].t_start_ms,
{
    let ids = hit_sessions(hits);
    let keys = newest_first(ids, sessions);
    let p = choose|p: Seq<usize>| #[trigger]
        in_order(keys, p) && r.len() == p.len() && forall|k: int|
            0 <= k < r.len() ==> (#[trigger] r[k]).0@ == ids[p[k] as int] && arranged(
                hit_lines(hits, r[k].0@),
                starts(hit_lines(hits, r[k].0@)),
                r[k].1@,
            );
    lemma_ids_once(hits);
    assert forall|i: int, j: int| #![trigger r[i], r[j]] 0 <= i < j < r.len() implies began(
        sessions,
        r[i].0@,
    ) >= began(sessions, r[j].0@) && r[i].0@ != r[j].0@ by {
        assert(p[i] < keys.len() && p[j] < keys.len());
        assert(crate::order::before(keys, p[i], p[j]));
        assert(keys[p[i] as int] == u64::MAX - began(sessions, ids[p[i] as int]));
        assert(keys[p[j] as int] == u64::MAX - began(sessions, ids[p[j] as int]));
        assert(p[i] != p[j]);
    }
    assert forall|k: int, a: int, b: int|
        #![trigger r[k].1@[a], r[k].1@[b]]
        0 <= k < r.len() && 0 <= a < b < r[k].1@.len() implies r[k].1@[a].t_start_ms
        <= r[k].1@[b].t_start_ms by {
        assert(r[k].0@ == ids[p[k] as int]);
        let lines = hit_lines(hits, r[k].0@);
        lemma_lines_fit(hits, r[k].0@);
        crate::order::arranging_keeps_and_sorts(
            lines,
            starts(lines),
            r[k].1@,
            |s: Segment| s.t_start_ms,
        );
    }
}

proof fn lemma_ids_once(hits: Seq<(String, Segment)>)
    ensures
        forall|i: int, j: int|
            #![trigger hit_sessions(hits)[i], hit_sessions(hits)[j]]
            0 <= i < hit_sessions(hits).len() && 0 <= j < hit_sessions(hits).len() && i != j
                ==> hit_sessions(hits)[i] != hit_sessions(hits)[j],
    decreases hits.len(),
{
    if hits.len() > 0 {
        let p = hit_sessions(hits.drop_last());
        let r = hit_sessions(hits);
        lemma_ids_once(hits.drop_last());
        assert forall|i: int, j: int| #![trigger r[i], r[j]] 0 <= i < r.len() && 0 <= j < r.len()
            && i != j implies r[i] != r[j] by {
            if i < p.len() {
                assert(r[i] == p[i]);
                assert(p.contains(p[i]));
            }
            if j < p.len() {
                assert(r[j] == p[j]);
                assert(p.contains(p[j]));
            }
        }
    }
}

/// A session began when the list says, and at zero if the list does not have it.
pub proof fn begins_are_looked_up(sessions: Seq<Session>, id: Seq<char>, i: int)
    ensures
        (forall|k: int| 0 <= k < sessions.len() ==> (#[trigger] sessions[k]).id@ != id) ==> began(
            sessions,
            id,
        ) == 0,
        0 <= i < sessions.len() && sessions[i].id@ == id && (forall|k: int|
            i < k < sessions.len() ==> (#[trigger] sessions[k]).id@ != id) ==> began(sessions, id)
            == sessions[i].started_at,
    decreases sessions.len(),
{
    if sessions.len() > 0 {
        let h = sessions.drop_last();
        begins_are_looked_up(h, id, i);
        assert(sessions[sessions.len() - 1] == sessions.last());
        if forall|k: int| 0 <= k < sessions.len() ==> (#[trigger] sessions[k]).id@ != id {
            assert forall|k: int| 0 <= k < h.len() implies (#[trigger] h[k]).id@ != id by {
                assert(sessions[k].id@ != id);
            }
        }
        if 0 <= i < h.len() && sessions[i].id@ == id && (forall|k: int|
            i < k < sessions.len() ==> (#[trigger] sessions[k]).id@ != id) {
            assert forall|k: int| i < k < h.len() implies (#[trigger] h[k]).id@ != id by {
                assert(sessions[k].id@ != id);
            }
        }
    }
}

} // verus!
