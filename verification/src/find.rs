//! Finding within the transcript on screen, and selecting rows of a list.

use crate::model::Segment;
#[allow(unused_imports)]
use crate::number::{decimal, write_u64};
#[allow(unused_imports)]
use crate::pattern::{contains, occurs};
#[allow(unused_imports)]
use crate::text::{lower, to_lower};
use vstd::prelude::*;

verus! {

/// A line has this text in it, whatever the case.
pub open spec fn says(seg: Segment, q: Seq<char>) -> bool {
    occurs(lower(seg.text@), lower(q))
}

/// The ids of the lines that say `q`, in transcript order; lines without an id
/// are skipped.
pub open spec fn hits_in(segs: Seq<Segment>, q: Seq<char>) -> Seq<i64>
    decreases segs.len(),
{
    if segs.len() == 0 {
        Seq::empty()
    } else {
        let p = hits_in(segs.drop_last(), q);
        match segs.last().id {
            Some(id) => if says(segs.last(), q) {
                p.push(id)
            } else {
                p
            },
            None => p,
        }
    }
}

/// The ids of the lines whose text contains `query`, whatever the case. An empty
/// query finds nothing.
pub fn find_hits(segments: &[Segment], query: &str) -> (r: Vec<i64>)
    ensures
        r@ == (if query@.len() == 0 {
            Seq::empty()
        } else {
            hits_in(segments@, query@)
        }),
{
    let mut r: Vec<i64> = Vec::new();
    if query.unicode_len() == 0 {
        return r;
    }
    let q = to_lower(query);
    let mut i: usize = 0;
    while i < segments.len()
        invariant
            i <= segments@.len(),
            q@ == lower(query@),
            r@ == hits_in(segments@.take(i as int), query@),
        decreases segments@.len() - i,
    {
        assert(segments@.take(i + 1).drop_last() =~= segments@.take(i as int));
        if let Some(id) = segments[i].id {
            if contains(&to_lower(&segments[i].text), &q) {
                r.push(id);
            }
        }
        i += 1;
    }
    assert(segments@.take(i as int) =~= segments@);
    r
}

/// Where the find bar stands after one step; it wraps around at both ends.
pub open spec fn stepped(cur: int, total: int, forward: bool) -> int {
    if forward {
        (cur + 1) % total
    } else if cur == 0 {
        total - 1
    } else {
        cur - 1
    }
}

/// Moves the find bar to the next or the previous hit.
pub fn find_step(cur: usize, total: usize, forward: bool) -> (r: Option<usize>)
    requires
        forward && total > 0 ==> cur < usize::MAX,
    ensures
        match r {
            Some(n) => total > 0 && n == stepped(cur as int, total as int, forward),
            None => total == 0,
        },
{
    if total == 0 {
        return None;
    }
    Some(
        if forward {
            (cur + 1) % total
        } else if cur == 0 {
            total - 1
        } else {
            cur - 1
        },
    )
}

/// A step back undoes a step forward, and the other way round, for every hit of
/// the list.
pub proof fn find_steps_undo_each_other(cur: int, total: int)
    requires
        0 <= cur < total,
    ensures
        0 <= stepped(cur, total, true) < total,
        0 <= stepped(cur, total, false) < total,
        stepped(stepped(cur, total, true), total, false) == cur,
        stepped(stepped(cur, total, false), total, true) == cur,
{
    if cur + 1 < total {
        vstd::arithmetic::div_mod::lemma_small_mod((cur + 1) as nat, total as nat);
    } else {
        vstd::arithmetic::div_mod::lemma_mod_self_0(total);
    }
    vstd::arithmetic::div_mod::lemma_small_mod(cur as nat, total as nat);
    vstd::arithmetic::div_mod::lemma_mod_self_0(total);
}

/// The text beside the find field.
pub open spec fn count_text(active: nat, total: nat) -> Seq<char> {
    if total == 0 {
        "no matches"@
    } else {
        decimal(
            if active < total {
                active + 1
            } else {
                total
            },
        ) + " of "@ + decimal(total)
    }
}

/// The text beside the find field: which hit of how many.
pub fn find_count(active: usize, total: usize) -> (r: String)
    ensures
        r@ == count_text(active as nat, total as nat),
{
    if total == 0 {
        return "no matches".to_string();
    }
    let a: usize = if active < total {
        active + 1
    } else {
        total
    };
    let mut r = write_u64(a as u64);
    r.push_str(" of ");
    r.push_str(&write_u64(total as u64));
    r
}

// ---------------------------------------------------------------------------
// Ranges of rows
// ---------------------------------------------------------------------------

/// The first place of an id in a list.
pub open spec fn first_place(items: Seq<String>, id: Seq<char>, i: int) -> bool {
    &&& 0 <= i < items.len()
    &&& items[i]@ == id
    &&& forall|j: int| 0 <= j < i ==> (#[trigger] items[j])@ != id
}

/// The id stands nowhere in the list.
pub open spec fn absent(items: Seq<String>, id: Seq<char>) -> bool {
    forall|j: int| 0 <= j < items.len() ==> (#[trigger] items[j])@ != id
}

fn place_of(items: &[String], id: &str) -> (r: Option<usize>)
    ensures
        match r {
            Some(i) => first_place(items@, id@, i as int),
            None => absent(items@, id@),
        },
{
    let mut i: usize = 0;
    while i < items.len()
        invariant
            i <= items@.len(),
            forall|j: int| 0 <= j < i ==> (#[trigger] items@[j])@ != id@,
        decreases items@.len() - i,
    {
        if crate::text::same(&items[i], id) {
            return Some(i);
        }
        i += 1;
    }
    None
}

/// The rows from one id to another, both included, whichever comes first.
pub open spec fn rows_between(items: Seq<String>, a: int, b: int) -> Seq<String> {
    if a <= b {
        items.subrange(a, b + 1)
    } else {
        items.subrange(b, a + 1)
    }
}

/// The ids from `anchor` to `clicked` in list order, both included; empty if one
/// of them is not in the list.
pub fn range_ids(items_in_order: &[String], anchor: &str, clicked: &str) -> (r: Vec<String>)
    ensures
        absent(items_in_order@, anchor@) || absent(items_in_order@, clicked@) ==> r@.len() == 0,
        forall|a: int, b: int|
            first_place(items_in_order@, anchor@, a) && first_place(items_in_order@, clicked@, b)
                ==> r@ == #[trigger] rows_between(items_in_order@, a, b),
{
    let mut r: Vec<String> = Vec::new();
    match (place_of(items_in_order, anchor), place_of(items_in_order, clicked)) {
        (Some(a), Some(b)) => {
            let lo: usize = if a <= b {
                a
            } else {
                b
            };
            let hi: usize = if a <= b {
                b
            } else {
                a
            };
            let n: usize = items_in_order.len();
            let mut i: usize = lo;
            while i <= hi
                invariant
                    lo <= i <= hi + 1,
                    hi < items_in_order@.len(),
                    n == items_in_order@.len(),
                    r@ == items_in_order@.subrange(lo as int, i as int),
                decreases hi + 1 - i,
            {
                r.push(items_in_order[i].clone());
                assert(items_in_order@.subrange(lo as int, i + 1) =~= items_in_order@.subrange(
                    lo as int,
                    i as int,
                ).push(items_in_order@[i as int]));
                i += 1;
            }
            assert forall|x: int, y: int|
                first_place(items_in_order@, anchor@, x) && first_place(
                    items_in_order@,
                    clicked@,
                    y,
                ) implies r@ == #[trigger] rows_between(items_in_order@, x, y) by {
                assert(x == a && y == b);
            }
        },
        _ => {},
    }
    r
}

/// A range does not depend on the direction of the click.
pub proof fn range_has_no_direction(items: Seq<String>, a: int, b: int)
    ensures
        rows_between(items, a, b) == rows_between(items, b, a),
{
}

/// The hits are the lines that say the query, whatever the case, all of them and in
/// transcript order: two parts of a transcript are searched one after the other.
pub proof fn every_matching_line_is_hit(a: Seq<Segment>, b: Seq<Segment>, q: Seq<char>, x: Segment)
    ensures
        hits_in(a + b, q) == hits_in(a, q) + hits_in(b, q),
        x.id matches Some(id) && occurs(lower(x.text@), lower(q)) ==> hits_in(seq![x], q)
            == seq![x.id->0],
        (x.id is None || !occurs(lower(x.text@), lower(q))) ==> hits_in(seq![x], q).len() == 0,
        hits_in(Seq::empty(), q).len() == 0,
    decreases b.len(),
{
    let one = seq![x];
    assert(one.drop_last() =~= Seq::empty());
    assert(hits_in(one.drop_last(), q) =~= Seq::<i64>::empty());
    if x.id is Some && says(x, q) {
        assert(hits_in(one, q) =~= seq![x.id->0]);
    }
    if b.len() == 0 {
        assert(a + b =~= a);
        assert(hits_in(a, q) + hits_in(b, q) =~= hits_in(a, q));
    } else {
        assert((a + b).drop_last() =~= a + b.drop_last());
        every_matching_line_is_hit(a, b.drop_last(), q, x);
        assert(hits_in(a + b, q) =~= hits_in(a, q) + hits_in(b, q));
    }
}

/// Forward goes to the next hit and from the last to the first; back goes the other
/// way.
pub proof fn steps_go_round(cur: int, total: int)
    requires
        0 <= cur < total,
    ensures
        cur + 1 < total ==> stepped(cur, total, true) == cur + 1,
        cur + 1 == total ==> stepped(cur, total, true) == 0,
        cur > 0 ==> stepped(cur, total, false) == cur - 1,
        cur == 0 ==> stepped(cur, total, false) == total - 1,
{
    if cur + 1 < total {
        vstd::arithmetic::div_mod::lemma_small_mod((cur + 1) as nat, total as nat);
    } else {
        vstd::arithmetic::div_mod::lemma_mod_self_0(total);
    }
}

/// The count names the hit, from one, and how many there are; it never names one that
/// is not there.
pub proof fn counts_name_the_hit(active: nat, total: nat)
    ensures
        total == 0 ==> count_text(active, total) == "no matches"@,
        active < total ==> count_text(active, total) == decimal(active + 1) + " of "@ + decimal(
            total,
        ),
        0 < total <= active ==> count_text(active, total) == decimal(total) + " of "@ + decimal(
            total,
        ),
{
}

/// A range has both its ends and every row between them, in list order.
pub proof fn ranges_reach_from_end_to_end(items: Seq<String>, a: int, b: int, k: int)
    requires
        0 <= a < items.len(),
        0 <= b < items.len(),
        a <= k <= b || b <= k <= a,
    ensures
        rows_between(items, a, b).len() == (if a <= b {
            b - a
        } else {
            a - b
        }) + 1,
        a <= b ==> rows_between(items, a, b)[k - a] == items[k],
        b <= a ==> rows_between(items, a, b)[k - b] == items[k],
{
}

} // verus!
