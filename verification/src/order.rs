//! Stable ordering by integer keys.

use vstd::prelude::*;

verus! {

/// Index `a` comes before index `b`: a smaller key, or the same key and an
/// earlier place.
pub open spec fn before(keys: Seq<u64>, a: usize, b: usize) -> bool {
    keys[a as int] < keys[b as int] || (keys[a as int] == keys[b as int] && a < b)
}

/// The indices in `r` are indices of `keys`, and each comes before the next.
pub open spec fn ascending(keys: Seq<u64>, r: Seq<usize>) -> bool {
    &&& forall|i: int| 0 <= i < r.len() ==> (#[trigger] r[i]) < keys.len()
    &&& forall|i: int, j: int|
        #![trigger r[i], r[j]]
        0 <= i < j < r.len() ==> before(keys, r[i], r[j])
}

/// `r` lists every index of `keys` once, by key; equal keys keep their order.
pub open spec fn in_order(keys: Seq<u64>, r: Seq<usize>) -> bool {
    &&& r.len() == keys.len()
    &&& ascending(keys, r)
    &&& forall|k: usize| k < keys.len() ==> #[trigger] r.contains(k)
}

/// `r` lists the first `n` indices of the order by key.
pub open spec fn first_in_order(keys: Seq<u64>, n: nat, r: Seq<usize>) -> bool {
    &&& r.len() == if n <= keys.len() {
        n
    } else {
        keys.len()
    }
    &&& ascending(keys, r)
    &&& forall|k: usize, i: int|
        #![trigger r.contains(k), r[i]]
        k < keys.len() && !r.contains(k) && 0 <= i < r.len() ==> before(keys, r[i], k)
}

/// The elements of `s` in the order of their keys.
pub open spec fn arranged<T>(s: Seq<T>, keys: Seq<u64>, r: Seq<T>) -> bool {
    exists|p: Seq<usize>| #[trigger] in_order(keys, p) && r == picked(s, p)
}

/// The elements of `s` at the given places.
pub open spec fn picked<T>(s: Seq<T>, p: Seq<usize>) -> Seq<T> {
    Seq::new(p.len(), |i: int| s[p[i] as int])
}

/// Where index `k` belongs among the ordered indices `r`.
fn place(keys: &Vec<u64>, r: &Vec<usize>, k: usize) -> (at: usize)
    requires
        k < keys@.len(),
        ascending(keys@, r@),
        forall|i: int| 0 <= i < r@.len() ==> (#[trigger] r@[i]) < k,
    ensures
        at <= r@.len(),
        forall|i: int| 0 <= i < at ==> before(keys@, #[trigger] r@[i], k),
        forall|i: int| at <= i < r@.len() ==> before(keys@, k, #[trigger] r@[i]),
{
    let mut at: usize = r.len();
    while at > 0 && keys[r[at - 1]] > keys[k]
        invariant
            at <= r@.len(),
            k < keys@.len(),
            forall|i: int| 0 <= i < r@.len() ==> (#[trigger] r@[i]) < keys@.len(),
            forall|i: int| at <= i < r@.len() ==> before(keys@, k, #[trigger] r@[i]),
        decreases at,
    {
        at -= 1;
    }
    proof {
        assert forall|i: int| 0 <= i < at implies before(keys@, #[trigger] r@[i], k) by {
            if i < at - 1 {
                assert(before(keys@, r@[i], r@[at - 1]));
            }
        }
    }
    at
}

proof fn lemma_insert(keys: Seq<u64>, r: Seq<usize>, at: int, k: usize)
    requires
        k < keys.len(),
        0 <= at <= r.len(),
        ascending(keys, r),
        forall|i: int| 0 <= i < at ==> before(keys, #[trigger] r[i], k),
        forall|i: int| at <= i < r.len() ==> before(keys, k, #[trigger] r[i]),
    ensures
        ascending(keys, r.insert(at, k)),
        forall|x: usize| #[trigger] r.insert(at, k).contains(x) <==> r.contains(x) || x == k,
{
    let t = r.insert(at, k);
    assert(forall|i: int|
        0 <= i < t.len() ==> #[trigger] t[i] == (if i < at {
            r[i]
        } else if i == at {
            k
        } else {
            r[i - 1]
        }));
    assert forall|i: int, j: int|
        #![trigger t[i], t[j]]
        0 <= i < j < t.len() implies before(keys, t[i], t[j]) by {
        if i < at && at < j {
            assert(before(keys, r[i], r[j - 1]));
        } else if i < at && j < at {
            assert(before(keys, r[i], r[j]));
        } else if at < i {
            assert(before(keys, r[i - 1], r[j - 1]));
        } else if i == at {
            assert(before(keys, k, r[j - 1]));
        }
    }
    assert forall|x: usize| #[trigger] t.contains(x) <==> r.contains(x) || x == k by {
        if r.contains(x) {
            let i = choose|i: int| 0 <= i < r.len() && r[i] == x;
            if i < at {
                assert(t[i] == x);
            } else {
                assert(t[i + 1] == x);
            }
        }
        if x == k {
            assert(t[at] == k);
        }
        if t.contains(x) {
            let i = choose|i: int| 0 <= i < t.len() && t[i] == x;
            if i < at {
                assert(r[i] == x);
            } else if i > at {
                assert(r[i - 1] == x);
            }
        }
    }
}

/// The indices of `keys` by key; equal keys keep their order.
pub fn order_by(keys: &Vec<u64>) -> (r: Vec<usize>)
    ensures
        in_order(keys@, r@),
{
    let mut r: Vec<usize> = Vec::new();
    let mut k: usize = 0;
    while k < keys.len()
        invariant
            k <= keys@.len(),
            r@.len() == k,
            ascending(keys@, r@),
            forall|i: int| 0 <= i < r@.len() ==> (#[trigger] r@[i]) < k,
            forall|x: usize| x < k ==> #[trigger] r@.contains(x),
        decreases keys@.len() - k,
    {
        let at: usize = place(keys, &r, k);
        proof {
            lemma_insert(keys@, r@, at as int, k);
            assert forall|i: int| 0 <= i < r@.insert(at as int, k).len() implies (
            #[trigger] r@.insert(at as int, k)[i]) < k + 1 by {
                let t = r@.insert(at as int, k);
                assert(t.contains(t[i]));
                if r@.contains(t[i]) {
                    let j = choose|j: int| 0 <= j < r@.len() && r@[j] == t[i];
                    assert(r@[j] < k);
                }
            }
        }
        r.insert(at, k);
        k += 1;
    }
    r
}

/// The first `n` indices of `keys` by key; equal keys keep their order.
pub fn first_by(keys: &Vec<u64>, n: usize) -> (r: Vec<usize>)
    ensures
        first_in_order(keys@, n as nat, r@),
{
    let mut r: Vec<usize> = Vec::new();
    let mut k: usize = 0;
    while k < keys.len()
        invariant
            k <= keys@.len(),
            r@.len() == if n <= k {
                n
            } else {
                k
            },
            ascending(keys@, r@),
            forall|i: int| 0 <= i < r@.len() ==> (#[trigger] r@[i]) < k,
            forall|x: usize, i: int|
                #![trigger r@.contains(x), r@[i]]
                x < k && !r@.contains(x) && 0 <= i < r@.len() ==> before(keys@, r@[i], x),
        decreases keys@.len() - k,
    {
        let at: usize = place(keys, &r, k);
        let ghost was = r@;
        let ghost t = r@.insert(at as int, k);
        proof {
            lemma_insert(keys@, r@, at as int, k);
            assert forall|i: int| 0 <= i < t.len() implies (#[trigger] t[i]) < k + 1 by {
                assert(t.contains(t[i]));
                if was.contains(t[i]) {
                    let j = choose|j: int| 0 <= j < was.len() && was[j] == t[i];
                    assert(was[j] < k);
                }
            }
            assert(forall|i: int|
                0 <= i < t.len() ==> #[trigger] t[i] == (if i < at {
                    was[i]
                } else if i == at {
                    k
                } else {
                    was[i - 1]
                }));
        }
        r.insert(at, k);
        if r.len() > n {
            let _ = r.pop();
            proof {
                assert(r@ =~= t.drop_last());
                assert forall|x: usize, i: int|
                    #![trigger r@.contains(x), r@[i]]
                    x < k + 1 && !r@.contains(x) && 0 <= i < r@.len() implies before(
                    keys@,
                    r@[i],
                    x,
                ) by {
                    assert(r@[i] == t[i]);
                    if t.contains(x) {
                        let j = choose|j: int| 0 <= j < t.len() && t[j] == x;
                        if j < t.len() - 1 {
                            assert(r@[j] == x);
                        }
                        assert(before(keys@, t[i], t[j]));
                    } else {
                        assert(!was.contains(x));
                        if n > 0 {
                            if i < at {
                                assert(was[i] == t[i]);
                                assert(before(keys@, was[i], x));
                            } else if i == at {
                                assert(before(keys@, k, was[i]));
                                assert(before(keys@, was[i], x));
                            } else {
                                assert(was[i - 1] == t[i]);
                                assert(before(keys@, was[i - 1], x));
                            }
                        }
                    }
                }
            }
        } else {
            proof {
                assert(r@ == t);
                assert forall|x: usize, i: int|
                    #![trigger r@.contains(x), r@[i]]
                    x < k + 1 && !r@.contains(x) && 0 <= i < r@.len() implies before(
                    keys@,
                    r@[i],
                    x,
                ) by {
                    assert(was.len() == k);
                    assert(!was.contains(x));
                    lemma_all_below(was, k as int);
                    assert(was.contains(x));
                }
            }
        }
        k += 1;
    }
    r
}

/// Distinct numbers below `n`, `n` of them, are all the numbers below `n`.
proof fn lemma_all_below(r: Seq<usize>, n: int)
    requires
        r.len() == n,
        forall|i: int| 0 <= i < r.len() ==> (#[trigger] r[i]) < n,
        forall|i: int, j: int|
            #![trigger r[i], r[j]]
            0 <= i < j < r.len() ==> r[i] != r[j],
    ensures
        forall|x: usize| x < n ==> #[trigger] r.contains(x),
    decreases n,
{
    if n > 0 {
        let top = (n - 1) as usize;
        if r.contains(top) {
            let i = choose|i: int| 0 <= i < r.len() && r[i] == top;
            let t = r.remove(i);
            assert(forall|j: int|
                0 <= j < t.len() ==> #[trigger] t[j] == (if j < i {
                    r[j]
                } else {
                    r[j + 1]
                }));
            assert forall|j: int| 0 <= j < t.len() implies (#[trigger] t[j]) < n - 1 by {
                let m = if j < i {
                    j
                } else {
                    j + 1
                };
                assert(t[j] == r[m]);
                assert(r[m] != r[i]);
            }
            lemma_all_below(t, n - 1);
            assert forall|x: usize| x < n implies #[trigger] r.contains(x) by {
                if x != top {
                    assert(t.contains(x));
                    let j = choose|j: int| 0 <= j < t.len() && t[j] == x;
                    let m = if j < i {
                        j
                    } else {
                        j + 1
                    };
                    assert(r[m] == x);
                }
            }
        } else {
            assert forall|j: int| 0 <= j < r.len() implies (#[trigger] r[j]) < n - 1 by {
                assert(r.contains(r[j]));
            }
            let t = r.drop_last();
            lemma_all_below(t, n - 1);
            let last = r.last();
            assert(t.contains(last));
            let j = choose|j: int| 0 <= j < t.len() && t[j] == last;
            assert(r[j] == r[n - 1]);
        }
    }
}

/// An arranged list has every element of the list, as many as there were, with the
/// smaller keys first; of two elements with one key, the one that stood first stays
/// first.
pub proof fn arranging_keeps_and_sorts<T>(
    s: Seq<T>,
    keys: Seq<u64>,
    r: Seq<T>,
    key: spec_fn(T) -> u64,
)
    requires
        arranged(s, keys, r),
        keys.len() == s.len(),
        s.len() <= usize::MAX,
        forall|i: int| 0 <= i < s.len() ==> keys[i] == #[trigger] key(s[i]),
    ensures
        r.len() == s.len(),
        forall|x: T| #[trigger] s.contains(x) <==> r.contains(x),
        forall|i: int, j: int|
            #![trigger r[i], r[j]]
            0 <= i < j < r.len() ==> key(r[i]) <= key(r[j]),
        (forall|i: int, j: int|
            #![trigger s[i], s[j]]
            0 <= i < j < s.len() ==> key(s[i]) <= key(s[j])) ==> r == s,
{
    let p = choose|p: Seq<usize>| #[trigger] in_order(keys, p) && r == picked(s, p);
    assert forall|x: T| #[trigger] s.contains(x) <==> r.contains(x) by {
        if s.contains(x) {
            let k = choose|k: int| 0 <= k < s.len() && s[k] == x;
            assert(p.contains(k as usize));
            let m = choose|m: int| 0 <= m < p.len() && p[m] == k as usize;
            assert(r[m] == x);
        }
        if r.contains(x) {
            let m = choose|m: int| 0 <= m < r.len() && r[m] == x;
            assert(p[m] < keys.len());
            assert(s[p[m] as int] == x);
        }
    }
    assert forall|i: int, j: int| #![trigger r[i], r[j]] 0 <= i < j < r.len() implies key(r[i])
        <= key(r[j]) by {
        assert(p[i] < keys.len() && p[j] < keys.len());
        assert(before(keys, p[i], p[j]));
        assert(keys[p[i] as int] == key(s[p[i] as int]));
        assert(keys[p[j] as int] == key(s[p[j] as int]));
    }
    if forall|i: int, j: int|
        #![trigger s[i], s[j]]
        0 <= i < j < s.len() ==> key(s[i]) <= key(s[j]) {
        assert forall|i: int, j: int| #![trigger p[i], p[j]] 0 <= i < j < p.len() implies p[i]
            < p[j] by {
            assert(p[i] < keys.len() && p[j] < keys.len());
            assert(before(keys, p[i], p[j]));
            if p[j] < p[i] {
                assert(key(s[p[j] as int]) <= key(s[p[i] as int]));
                assert(keys[p[i] as int] == key(s[p[i] as int]));
                assert(keys[p[j] as int] == key(s[p[j] as int]));
            }
        }
        lemma_rising_is_counting(p, p.len() as int);
        assert(r =~= s);
    }
}

proof fn lemma_rising_is_counting(p: Seq<usize>, n: int)
    requires
        0 <= n <= p.len(),
        forall|i: int| 0 <= i < p.len() ==> (#[trigger] p[i]) < p.len(),
        forall|i: int, j: int| #![trigger p[i], p[j]] 0 <= i < j < p.len() ==> p[i] < p[j],
    ensures
        forall|i: int| 0 <= i < p.len() ==> (#[trigger] p[i]) == i,
{
    assert forall|i: int| 0 <= i < p.len() implies (#[trigger] p[i]) >= i by {
        lemma_at_least(p, i);
    }
    assert forall|i: int| 0 <= i < p.len() implies (#[trigger] p[i]) == i by {
        lemma_at_most(p, i);
    }
}

proof fn lemma_at_least(p: Seq<usize>, i: int)
    requires
        0 <= i < p.len(),
        forall|i: int, j: int| #![trigger p[i], p[j]] 0 <= i < j < p.len() ==> p[i] < p[j],
    ensures
        p[i] >= i,
    decreases i,
{
    if i > 0 {
        lemma_at_least(p, i - 1);
        assert(p[i - 1] < p[i]);
    }
}

proof fn lemma_at_most(p: Seq<usize>, i: int)
    requires
        0 <= i < p.len(),
        forall|i: int| 0 <= i < p.len() ==> (#[trigger] p[i]) < p.len(),
        forall|i: int, j: int| #![trigger p[i], p[j]] 0 <= i < j < p.len() ==> p[i] < p[j],
    ensures
        p[i] <= i,
    decreases p.len() - i,
{
    if i + 1 < p.len() {
        lemma_at_most(p, i + 1);
        assert(p[i] < p[i + 1]);
    }
}

} // verus!
