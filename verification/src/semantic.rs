//! Semantic search: which chunks of the index answer a query, and what the
//! search page shows.

#[allow(unused_imports)]
use crate::labels::{ago, relative_time, session_title, short_id, title_of};
use crate::model::{Features, Segment, Session};
#[allow(unused_imports)]
use crate::number::{decimal, write_u64};
#[allow(unused_imports)]
use crate::order::{ascending, before, first_by, first_in_order, picked};
#[allow(unused_imports)]
use crate::text::{blank, is_blank, same};
use vstd::prelude::*;

verus! {

// ---------------------------------------------------------------------------
// Ranking
// ---------------------------------------------------------------------------

/// How many hits a semantic search shows.
pub const TOP_K: usize = 20;

/// The lowest score of a hit, 0.35, as the bit pattern of a 32-bit float.
pub const FLOOR_BITS: u32 = 0x3eb3_3333;

/// The bit pattern of positive infinity. Patterns above it belong to negative
/// numbers and to values that are no numbers.
pub const INFINITY_BITS: u32 = 0x7f80_0000;

/// A score is high enough. Scores are bit patterns: those of positive numbers are
/// ordered as the numbers are.
pub open spec fn scores_enough(bits: u32) -> bool {
    FLOOR_BITS <= bits <= INFINITY_BITS
}

/// The chunks that score high enough, in the order of the index.
pub open spec fn hit_places(scores: Seq<u32>) -> Seq<usize>
    decreases scores.len(),
{
    if scores.len() == 0 {
        Seq::empty()
    } else {
        let p = hit_places(scores.drop_last());
        if scores_enough(scores.last()) {
            p.push((scores.len() - 1) as usize)
        } else {
            p
        }
    }
}

/// Keys that fall as the scores of the chunks rise.
pub open spec fn falling(scores: Seq<u32>, places: Seq<usize>) -> Seq<u64> {
    Seq::new(places.len(), |i: int| (u32::MAX - scores[places[i] as int]) as u64)
}

/// `r` lists the best chunks: the twenty that score highest among those that
/// score high enough, the best first; equal scores keep the order of the index.
pub open spec fn best_chunks(scores: Seq<u32>, r: Seq<usize>) -> bool {
    exists|p: Seq<usize>| #[trigger]
        first_in_order(falling(scores, hit_places(scores)), TOP_K as nat, p) && r == picked(
            hit_places(scores),
            p,
        )
}

proof fn lemma_places(scores: Seq<u32>)
    requires
        scores.len() <= usize::MAX,
    ensures
        hit_places(scores).len() <= scores.len(),
        forall|i: int|
            0 <= i < hit_places(scores).len() ==> (#[trigger] hit_places(scores)[i])
                < scores.len() && scores_enough(scores[hit_places(scores)[i] as int]),
    decreases scores.len(),
{
    if scores.len() > 0 {
        let h = scores.drop_last();
        lemma_places(h);
        assert forall|i: int| 0 <= i < hit_places(scores).len() implies (#[trigger] hit_places(
            scores,
        )[i]) < scores.len() && scores_enough(scores[hit_places(scores)[i] as int]) by {
            if i < hit_places(h).len() {
                assert(hit_places(scores)[i] == hit_places(h)[i]);
                assert(h[hit_places(h)[i] as int] == scores[hit_places(h)[i] as int]);
            }
        }
    }
}

/// The chunks that answer a query. `scores` holds the score of every chunk of the
/// index as a bit pattern.
pub fn semantic_hits(scores: &Vec<u32>) -> (r: Vec<usize>)
    ensures
        best_chunks(scores@, r@),
{
    let mut places: Vec<usize> = Vec::new();
    let mut keys: Vec<u64> = Vec::new();
    let mut i: usize = 0;
    while i < scores.len()
        invariant
            i <= scores@.len(),
            places@ == hit_places(scores@.take(i as int)),
            keys@ == falling(scores@, places@),
        decreases scores@.len() - i,
    {
        assert(scores@.take(i + 1).drop_last() =~= scores@.take(i as int));
        let bits: u32 = scores[i];
        if FLOOR_BITS <= bits && bits <= INFINITY_BITS {
            places.push(i);
            keys.push((u32::MAX - bits) as u64);
            assert(keys@ =~= falling(scores@, places@));
        }
        i += 1;
    }
    assert(scores@.take(i as int) =~= scores@);
    let order = first_by(&keys, TOP_K);
    let mut r: Vec<usize> = Vec::new();
    let mut k: usize = 0;
    while k < order.len()
        invariant
            k <= order@.len(),
            r@.len() == k,
            ascending(keys@, order@),
            keys@.len() == places@.len(),
            forall|j: int| 0 <= j < k ==> #[trigger] r@[j] == places@[order@[j] as int],
        decreases order@.len() - k,
    {
        let at: usize = order[k];
        assert(order@[k as int] < keys@.len());
        r.push(places[at]);
        k += 1;
    }
    assert(r@ =~= picked(places@, order@));
    r
}

/// No more than twenty chunks answer a query, each of them scores high enough,
/// and a better one never comes after a worse one.
pub proof fn hits_are_ranked(scores: Seq<u32>, r: Seq<usize>)
    requires
        scores.len() <= usize::MAX,
        best_chunks(scores, r),
    ensures
        r.len() <= 20,
        forall|i: int|
            0 <= i < r.len() ==> (#[trigger] r[i]) < scores.len() && scores_enough(
                scores[r[i] as int],
            ),
        forall|i: int, j: int|
            #![trigger r[i], r[j]]
            0 <= i < j < r.len() ==> scores[r[i] as int] >= scores[r[j] as int],
{
    lemma_places(scores);
    let places = hit_places(scores);
    let keys = falling(scores, places);
    let p = choose|p: Seq<usize>| #[trigger]
        first_in_order(keys, TOP_K as nat, p) && r == picked(places, p);
    assert forall|i: int| 0 <= i < r.len() implies (#[trigger] r[i]) < scores.len()
        && scores_enough(scores[r[i] as int]) by {
        assert(p[i] < keys.len());
        assert(r[i] == places[p[i] as int]);
    }
    assert forall|i: int, j: int|
        #![trigger r[i], r[j]]
        0 <= i < j < r.len() implies scores[r[i] as int] >= scores[r[j] as int] by {
        assert(before(keys, p[i], p[j]));
        assert(p[i] < keys.len() && p[j] < keys.len());
        assert(keys[p[i] as int] <= keys[p[j] as int]);
    }
}

/// The hits whose line is still stored.
pub open spec fn stored_hits(hits: Seq<(String, Option<Segment>)>) -> Seq<(String, Segment)>
    decreases hits.len(),
{
    if hits.len() == 0 {
        Seq::empty()
    } else {
        let p = stored_hits(hits.drop_last());
        match hits.last().1 {
            Some(seg) => p.push((hits.last().0, seg)),
            None => p,
        }
    }
}

/// Drops the hits whose line is no longer stored; the others keep their order.
pub fn resolved_hits(hits: &Vec<(String, Option<Segment>)>) -> (r: Vec<(String, Segment)>)
    ensures
        r@ == stored_hits(hits@),
{
    let mut r: Vec<(String, Segment)> = Vec::new();
    let mut i: usize = 0;
    while i < hits.len()
        invariant
            i <= hits@.len(),
            r@ == stored_hits(hits@.take(i as int)),
        decreases hits@.len() - i,
    {
        assert(hits@.take(i + 1).drop_last() =~= hits@.take(i as int));
        if let Some(seg) = &hits[i].1 {
            r.push((hits[i].0.clone(), seg.copy()));
        }
        i += 1;
    }
    assert(hits@.take(i as int) =~= hits@);
    r
}

/// The rows of the index of a session: its chunks, numbered, as far as there are
/// vectors for them.
pub fn index_rows(chunks: &Vec<(i64, u64)>, vectors: usize) -> (r: Vec<(usize, i64, u64)>)
    ensures
        r@.len() == (if chunks@.len() < vectors {
            chunks@.len() as int
        } else {
            vectors as int
        }),
        forall|i: int|
            0 <= i < r@.len() ==> #[trigger] r@[i] == (i as usize, chunks@[i].0, chunks@[i].1),
{
    let mut r: Vec<(usize, i64, u64)> = Vec::new();
    let mut i: usize = 0;
    while i < chunks.len() && i < vectors
        invariant
            i <= chunks@.len(),
            i <= vectors,
            r@.len() == i,
            forall|k: int|
                0 <= k < i ==> #[trigger] r@[k] == (k as usize, chunks@[k].0, chunks@[k].1),
        decreases chunks@.len() - i,
    {
        r.push((i, chunks[i].0, chunks[i].1));
        i += 1;
    }
    r
}

// ---------------------------------------------------------------------------
// Search page
// ---------------------------------------------------------------------------

/// The page searches by meaning.
pub fn is_semantic(mode: &str, f: Features) -> (r: bool)
    ensures
        r == (f.semantic && mode@ == "semantic"@),
{
    f.semantic && same(mode, "semantic")
}

/// What the search page shows.
#[derive(Debug, Clone, Copy, PartialEq, Eq, Structural)]
pub enum SearchBody {
    /// Nothing was asked for.
    Prompt,
    NoMatches,
    Hits,
}

/// What the search page shows.
pub fn search_body(query: &str, groups: usize, notes: usize) -> (r: SearchBody)
    ensures
        r == (if is_blank(query@) {
            SearchBody::Prompt
        } else if groups == 0 && notes == 0 {
            SearchBody::NoMatches
        } else {
            SearchBody::Hits
        }),
{
    if blank(query) {
        SearchBody::Prompt
    } else if groups == 0 && notes == 0 {
        SearchBody::NoMatches
    } else {
        SearchBody::Hits
    }
}

/// The count above the hits.
pub fn count_text(semantic: bool, total: u64, groups: usize, notes: usize) -> (r: String)
    ensures
        r@ == (if semantic {
            "Top "@ + decimal(total as nat) + " semantic match(es) across "@ + decimal(
                groups as nat,
            ) + " meeting(s) · ranked by meaning"@
        } else {
            let head = decimal(total as nat) + " transcript match(es) across "@ + decimal(
                groups as nat,
            ) + " meeting(s)"@;
            if notes > 0 {
                head + " · "@ + decimal(notes as nat) + " in notes"@
            } else {
                head
            }
        }),
{
    if semantic {
        let mut r = "Top ".to_string();
        r.push_str(&write_u64(total));
        r.push_str(" semantic match(es) across ");
        r.push_str(&write_u64(groups as u64));
        r.push_str(" meeting(s) · ranked by meaning");
        r
    } else {
        let mut r = write_u64(total);
        r.push_str(" transcript match(es) across ");
        r.push_str(&write_u64(groups as u64));
        r.push_str(" meeting(s)");
        if notes > 0 {
            r.push_str(" · ");
            r.push_str(&write_u64(notes as u64));
            r.push_str(" in notes");
        }
        r
    }
}

/// The place of a session in a list: the last one with this id.
pub open spec fn place_of(sessions: Seq<Session>, id: Seq<char>) -> Option<int>
    decreases sessions.len(),
{
    if sessions.len() == 0 {
        None
    } else if sessions.last().id@ == id {
        Some(sessions.len() - 1)
    } else {
        place_of(sessions.drop_last(), id)
    }
}

/// The head of a group of hits: the title and the age of its session. A session
/// that is not listed shows the beginning of its id.
pub fn group_head(sessions: &Vec<Session>, id: &str, now_ms: u64) -> (r: (String, String))
    ensures
        match place_of(sessions@, id@) {
            Some(i) => r.0@ == title_of(sessions@[i]) && r.1@ == ago(
                sessions@[i].started_at as nat,
                now_ms as nat,
            ),
            None => r.0@ == (if id@.len() <= 12 {
                id@
            } else {
                id@.take(12)
            }) && r.1@.len() == 0,
        },
{
    let mut i: usize = sessions.len();
    assert(sessions@.take(i as int) =~= sessions@);
    while i > 0
        invariant
            i <= sessions@.len(),
            place_of(sessions@, id@) == place_of(sessions@.take(i as int), id@),
        decreases i,
    {
        assert(sessions@.take(i as int).last() == sessions@[i - 1]);
        if same(&sessions[i - 1].id, id) {
            return (
                session_title(&sessions[i - 1]),
                relative_time(sessions[i - 1].started_at, now_ms),
            );
        }
        assert(sessions@.take(i as int).drop_last() =~= sessions@.take(i - 1));
        i -= 1;
    }
    (short_id(id), String::new())
}

/// The second half of a group's head: its hits, and how long ago the session was.
pub fn group_meta(count: usize, when: &str) -> (r: String)
    ensures
        r@ == decimal(count as nat) + " match · "@ + when@,
{
    let mut r = write_u64(count as u64);
    r.push_str(" match · ");
    r.push_str(when);
    r
}

// ---------------------------------------------------------------------------
// The model
// ---------------------------------------------------------------------------

/// The folder of the embedding model, below the models folder.
pub const EMBED_MODEL_DIR: &'static str = "bge-small-en-v1.5";

/// Where the files of the embedding model are downloaded from.
pub const EMBED_URL: &'static str =
    "https://huggingface.co/Xenova/bge-small-en-v1.5/resolve/main/";

/// The files of the embedding model.
pub open spec fn embed_names() -> Seq<Seq<char>> {
    seq![
        "onnx/model.onnx"@,
        "tokenizer.json"@,
        "config.json"@,
        "special_tokens_map.json"@,
        "tokenizer_config.json"@,
    ]
}

/// The files of the embedding model, each with the address it is downloaded from.
pub fn embed_files() -> (r: Vec<(&'static str, String)>)
    ensures
        r@.len() == embed_names().len(),
        forall|i: int|
            0 <= i < r@.len() ==> (#[trigger] r@[i]).0@ == embed_names()[i] && r@[i].1@
                == EMBED_URL@ + embed_names()[i],
{
    let names: Vec<&'static str> = vec![
        "onnx/model.onnx",
        "tokenizer.json",
        "config.json",
        "special_tokens_map.json",
        "tokenizer_config.json",
    ];
    let mut r: Vec<(&'static str, String)> = Vec::new();
    let mut i: usize = 0;
    while i < names.len()
        invariant
            i <= names@.len(),
            r@.len() == i,
            names@.len() == embed_names().len(),
            forall|j: int| 0 <= j < names@.len() ==> (#[trigger] names@[j])@ == embed_names()[j],
            forall|j: int|
                0 <= j < i ==> (#[trigger] r@[j]).0@ == embed_names()[j] && r@[j].1@ == EMBED_URL@
                    + embed_names()[j],
        decreases names@.len() - i,
    {
        let name: &'static str = names[i];
        assert(names@[i as int]@ == embed_names()[i as int]);
        let mut url = EMBED_URL.to_string();
        url.push_str(name);
        r.push((name, url));
        i = i + 1;
    }
    r
}

/// The folder of the model holds a file.
pub open spec fn holds_file(found: Seq<String>, name: Seq<char>) -> bool {
    exists|i: int| 0 <= i < found.len() && (#[trigger] found[i])@ == name
}

/// Whether every file of the embedding model is among the files found in its folder.
pub fn semantic_model_present(found: &Vec<String>) -> (r: bool)
    ensures
        r == (forall|k: int|
            0 <= k < embed_names().len() ==> holds_file(found@, #[trigger] embed_names()[k])),
{
    let files = embed_files();
    let mut k: usize = 0;
    while k < files.len()
        invariant
            k <= files@.len(),
            files@.len() == embed_names().len(),
            forall|j: int| 0 <= j < files@.len() ==> (#[trigger] files@[j]).0@ == embed_names()[j],
            forall|j: int| 0 <= j < k ==> holds_file(found@, #[trigger] embed_names()[j]),
        decreases files@.len() - k,
    {
        let ghost name = embed_names()[k as int];
        assert(files@[k as int].0@ == name);
        let mut hit = false;
        let mut i: usize = 0;
        while i < found.len()
            invariant
                i <= found@.len(),
                k < files@.len(),
                files@[k as int].0@ == name,
                hit == (exists|j: int| 0 <= j < i && (#[trigger] found@[j])@ == name),
            decreases found@.len() - i,
        {
            if same(&found[i], files[k].0) {
                hit = true;
            }
            i = i + 1;
        }
        if !hit {
            assert(!holds_file(found@, embed_names()[k as int]));
            return false;
        }
        k = k + 1;
    }
    true
}

// ---------------------------------------------------------------------------
// What a search by meaning finds
// ---------------------------------------------------------------------------

proof fn lemma_places_has(scores: Seq<u32>, k: int)
    requires
        scores.len() <= usize::MAX,
        0 <= k < scores.len(),
        0x3eb3_3333 <= scores[k] <= 0x7f80_0000,
    ensures
        hit_places(scores).contains(k as usize),
    decreases scores.len(),
{
    let h = scores.drop_last();
    let p = hit_places(h);
    let r = hit_places(scores);
    if k < h.len() {
        assert(h[k] == scores[k]);
        lemma_places_has(h, k);
        let m = choose|m: int| 0 <= m < p.len() && p[m] == k as usize;
        assert(r[m] == k as usize);
    } else {
        assert(r[r.len() - 1] == k as usize);
    }
}

/// No hit is passed over: a chunk that scores high enough is shown, unless twenty
/// chunks are shown that score at least as high. Each chunk is shown once.
pub proof fn good_chunks_are_shown(scores: Seq<u32>, r: Seq<usize>, k: int)
    requires
        scores.len() <= usize::MAX,
        best_chunks(scores, r),
        0 <= k < scores.len(),
        0x3eb3_3333 <= scores[k] <= 0x7f80_0000,
    ensures
        r.contains(k as usize) || (r.len() == 20 && forall|i: int|
            0 <= i < r.len() ==> scores[(#[trigger] r[i]) as int] >= scores[k]),
        forall|i: int|
            0 <= i < r.len() ==> 0x3eb3_3333 <= scores[(#[trigger] r[i]) as int] <= 0x7f80_0000,
{
    lemma_places(scores);
    lemma_places_has(scores, k);
    let places = hit_places(scores);
    let keys = falling(scores, places);
    let p = choose|p: Seq<usize>| #[trigger]
        first_in_order(keys, TOP_K as nat, p) && r == picked(places, p);
    let m = choose|m: int| 0 <= m < places.len() && places[m] == k as usize;
    if p.contains(m as usize) {
        let i = choose|i: int| 0 <= i < p.len() && p[i] == m as usize;
        assert(r[i] == k as usize);
    } else {
        assert forall|i: int| 0 <= i < r.len() implies scores[(#[trigger] r[i]) as int]
            >= scores[k] by {
            assert(p[i] < keys.len());
            assert(before(keys, p[i], m as usize));
            assert(r[i] == places[p[i] as int]);
        }
        if p.len() < 20 {
            assert(p.len() == keys.len());
            lemma_all_listed(keys, p, m as usize);
        }
    }
    assert forall|i: int| 0 <= i < r.len() implies 0x3eb3_3333 <= scores[(
    #[trigger] r[i]) as int] <= 0x7f80_0000 by {
        assert(p[i] < keys.len());
        assert(r[i] == places[p[i] as int]);
    }
}

proof fn lemma_all_listed(keys: Seq<u64>, p: Seq<usize>, m: usize)
    requires
        ascending(keys, p),
        p.len() == keys.len(),
        m < keys.len(),
    ensures
        p.contains(m),
{
    let s = p.map_values(|x: usize| x as int).to_set();
    let t = vstd::set_lib::set_int_range(0, keys.len() as int);
    vstd::set_lib::lemma_int_range(0, keys.len() as int);
    let q = p.map_values(|x: usize| x as int);
    assert(q.no_duplicates()) by {
        assert forall|i: int, j: int| 0 <= i < q.len() && 0 <= j < q.len() && i != j implies q[i]
            != q[j] by {
            if i < j {
                assert(before(keys, p[i], p[j]));
            } else {
                assert(before(keys, p[j], p[i]));
            }
        }
    }
    q.unique_seq_to_set();
    assert(s.subset_of(t)) by {
        assert forall|x: int| s.contains(x) implies t.contains(x) by {
            let i = choose|i: int| 0 <= i < q.len() && q[i] == x;
            assert(p[i] < keys.len());
        }
    }
    vstd::set_lib::lemma_subset_equality(s, t);
    assert(t.contains(m as int));
    assert(s.contains(m as int));
    let i = choose|i: int| 0 <= i < q.len() && q[i] == m as int;
    assert(p[i] == m);
}

/// Hits whose line is gone are dropped, and only those; the others keep their order.
pub proof fn stored_hits_are_kept(
    a: Seq<(String, Option<Segment>)>,
    b: Seq<(String, Option<Segment>)>,
    x: (String, Option<Segment>),
)
    ensures
        stored_hits(a + b) == stored_hits(a) + stored_hits(b),
        x.1 matches Some(seg) ==> stored_hits(seq![x]) == seq![(x.0, x.1->0)],
        x.1 is None ==> stored_hits(seq![x]).len() == 0,
    decreases b.len(),
{
    let one = seq![x];
    assert(one.drop_last() =~= Seq::empty());
    assert(stored_hits(one.drop_last()) =~= Seq::<(String, Segment)>::empty());
    if x.1 is Some {
        assert(stored_hits(one) =~= seq![(x.0, x.1->0)]);
    }
    if b.len() == 0 {
        assert(a + b =~= a);
        assert(stored_hits(a) + stored_hits(b) =~= stored_hits(a));
    } else {
        assert((a + b).drop_last() =~= a + b.drop_last());
        stored_hits_are_kept(a, b.drop_last(), x);
        assert(stored_hits(a + b) =~= stored_hits(a) + stored_hits(b));
    }
}

/// A group of hits is headed by the session it belongs to.
pub proof fn heads_belong_to_the_session(sessions: Seq<Session>, id: Seq<char>)
    ensures
        place_of(sessions, id) matches Some(i) ==> 0 <= i < sessions.len() && sessions[i].id@ == id
            && forall|k: int| i < k < sessions.len() ==> (#[trigger] sessions[k]).id@ != id,
        place_of(sessions, id) is None ==> forall|k: int|
            0 <= k < sessions.len() ==> (#[trigger] sessions[k]).id@ != id,
    decreases sessions.len(),
{
    if sessions.len() > 0 {
        let h = sessions.drop_last();
        heads_belong_to_the_session(h, id);
        assert(forall|k: int| 0 <= k < h.len() ==> h[k] == sessions[k]);
    }
}

/// The embedding model is its network, its tokenizer and their settings; it is there only
/// if each of them is.
pub proof fn the_model_is_all_its_files(found: Seq<String>)
    requires
        forall|k: int| 0 <= k < embed_names().len() ==> holds_file(found, #[trigger] embed_names()[k]),
    ensures
        holds_file(found, "onnx/model.onnx"@),
        holds_file(found, "tokenizer.json"@),
        holds_file(found, "config.json"@),
        holds_file(found, "special_tokens_map.json"@),
        holds_file(found, "tokenizer_config.json"@),
{
    assert(embed_names()[0] == "onnx/model.onnx"@);
    assert(embed_names()[1] == "tokenizer.json"@);
    assert(embed_names()[2] == "config.json"@);
    assert(embed_names()[3] == "special_tokens_map.json"@);
    assert(embed_names()[4] == "tokenizer_config.json"@);
}

/// A better score is good enough where a worse one is, from the floor up to the largest
/// number; nothing below the floor is, and nothing that is no number.
pub proof fn better_scores_are_good_enough(a: u32, b: u32)
    requires
        a <= b,
    ensures
        scores_enough(a) && b <= INFINITY_BITS ==> scores_enough(b),
        scores_enough(b) && a >= FLOOR_BITS ==> scores_enough(a),
        scores_enough(FLOOR_BITS) && scores_enough(INFINITY_BITS),
        b < FLOOR_BITS ==> !scores_enough(b),
        a > INFINITY_BITS ==> !scores_enough(a),
{
}

} // verus!
