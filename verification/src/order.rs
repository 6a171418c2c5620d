//! Stable ordering by a composite key: a rank (higher first), then a primary and a
//! secondary text key (each in `String` order). This is the order every routing and
//! listing result is sorted by; equal keys keep the order they came in.
use vstd::prelude::*;
use crate::text::{lex_lt, lex_less};

verus! {

/// A sort key: higher `rank` first, then `primary`, then `secondary` ascending.
pub struct SortKey {
    pub rank: i64,
    pub primary: Vec<char>,
    pub secondary: Vec<char>,
}

/// Mathematical value of a sort key.
pub open spec fn key_of(k: SortKey) -> (int, Seq<char>, Seq<char>) {
    (k.rank as int, k.primary@, k.secondary@)
}

/// Strictly-before relation of the composite key.
pub open spec fn key_before(a: (int, Seq<char>, Seq<char>), b: (int, Seq<char>, Seq<char>)) -> bool {
    a.0 > b.0 || (a.0 == b.0 && (lex_lt(a.1, b.1) || (a.1 == b.1 && lex_lt(a.2, b.2))))
}

/// Inserts index `x` into the ordered sequence `t`, after every element it is not
/// strictly before (so equal keys keep insertion order).
pub open spec fn insert_ordered(t: Seq<int>, x: int, keys: Seq<(int, Seq<char>, Seq<char>)>) -> Seq<
    int,
>
    decreases t.len(),
{
    if t.len() == 0 {
        seq![x]
    } else if key_before(keys[x], keys[t.last()]) {
        insert_ordered(t.drop_last(), x, keys).push(t.last())
    } else {
        t.push(x)
    }
}

/// The stable ordering of the indices `0..n` by their keys.
pub open spec fn stable_order(n: nat, keys: Seq<(int, Seq<char>, Seq<char>)>) -> Seq<int>
    decreases n,
{
    if n == 0 {
        Seq::empty()
    } else {
        insert_ordered(stable_order((n - 1) as nat, keys), n - 1, keys)
    }
}

/// Ranks never increase along `t`.
pub open spec fn ranks_descending(t: Seq<int>, keys: Seq<(int, Seq<char>, Seq<char>)>) -> bool {
    forall|a: int, b: int| 0 <= a < b < t.len() ==> keys[t[a]].0 >= keys[t[b]].0
}

/// `t` lists each of `0..n` exactly once.
pub open spec fn is_permutation_of_range(t: Seq<int>, n: nat) -> bool {
    &&& t.len() == n
    &&& forall|a: int| 0 <= a < t.len() ==> 0 <= #[trigger] t[a] < n
    &&& forall|a: int, b: int| 0 <= a < b < t.len() ==> t[a] != t[b]
}

fn before(a: &SortKey, b: &SortKey) -> (r: bool)
    ensures
        r == key_before(key_of(*a), key_of(*b)),
{
    if a.rank > b.rank {
        return true;
    }
    if a.rank < b.rank {
        return false;
    }
    if lex_less(&a.primary, &b.primary) {
        return true;
    }
    if lex_less(&b.primary, &a.primary) {
        return false;
    }
    proof {
        lemma_lex_total(a.primary@, b.primary@);
    }
    lex_less(&a.secondary, &b.secondary)
}

/// `lex_lt` is total: two sequences neither of which is before the other are equal.
pub proof fn lemma_lex_total(a: Seq<char>, b: Seq<char>)
    ensures
        !lex_lt(a, b) && !lex_lt(b, a) ==> a == b,
    decreases a.len(),
{
    if a.len() > 0 && b.len() > 0 && a[0] == b[0] {
        lemma_lex_total(a.drop_first(), b.drop_first());
        if !lex_lt(a, b) && !lex_lt(b, a) {
            assert(a =~= seq![a[0]] + a.drop_first());
            assert(b =~= seq![b[0]] + b.drop_first());
        }
    } else if a.len() > 0 && b.len() > 0 {
        if (a[0] as u32) == (b[0] as u32) {
            vstd::utf8::char_u32_cast(a[0], a[0] as u32);
            vstd::utf8::char_u32_cast(b[0], b[0] as u32);
            assert(a[0] == b[0]);
        }
    } else if a.len() == 0 && b.len() == 0 {
        assert(a =~= b);
    }
}

proof fn lemma_insert_unfold(
    t: Seq<int>,
    x: int,
    keys: Seq<(int, Seq<char>, Seq<char>)>,
    j: int,
)
    requires
        0 < j <= t.len(),
        key_before(keys[x], keys[t[j - 1]]),
        insert_ordered(t, x, keys) == insert_ordered(t.subrange(0, j), x, keys) + t.subrange(
            j,
            t.len() as int,
        ),
    ensures
        insert_ordered(t, x, keys) == insert_ordered(t.subrange(0, j - 1), x, keys)
            + t.subrange(j - 1, t.len() as int),
{
    let p = t.subrange(0, j);
    assert(p.drop_last() =~= t.subrange(0, j - 1));
    assert(p.last() == t[j - 1]);
    assert(insert_ordered(p, x, keys) == insert_ordered(t.subrange(0, j - 1), x, keys).push(
        t[j - 1],
    ));
    assert(insert_ordered(t.subrange(0, j - 1), x, keys).push(t[j - 1]) + t.subrange(
        j,
        t.len() as int,
    ) =~= insert_ordered(t.subrange(0, j - 1), x, keys) + t.subrange(j - 1, t.len() as int));
}

/// The indices of `keys` in stable key order.
pub fn stable_sort_indices(keys: &Vec<SortKey>) -> (r: Vec<usize>)
    ensures
        r@.map_values(|i: usize| i as int) == stable_order(
            keys@.len(),
            keys@.map_values(|k: SortKey| key_of(k)),
        ),
{
    let ghost kv = keys@.map_values(|k: SortKey| key_of(k));
    let n = keys.len();
    let mut v: Vec<usize> = Vec::new();
    let mut i: usize = 0;
    while i < n
        invariant
            n == keys@.len(),
            kv == keys@.map_values(|k: SortKey| key_of(k)),
            i <= n,
            v@.len() == i,
            forall|a: int| 0 <= a < v@.len() ==> #[trigger] v@[a] < n,
            v@.map_values(|x: usize| x as int) == stable_order(i as nat, kv),
        decreases n - i,
    {
        let ghost t = v@.map_values(|x: usize| x as int);
        assert(t.subrange(0, i as int) =~= t);
        assert(t.subrange(i as int, i as int) =~= Seq::<int>::empty());
        v.push(i);
        let mut j: usize = i;
        while j > 0 && before(&keys[i], &keys[v[j - 1]])
            invariant
                n == keys@.len(),
                kv == keys@.map_values(|k: SortKey| key_of(k)),
                i < n,
                j <= i,
                v@.len() == i + 1,
                forall|a: int| 0 <= a < v@.len() ==> #[trigger] v@[a] < n,
                t.len() == i,
                v@[j as int] == i,
                v@.map_values(|x: usize| x as int) == t.subrange(0, j as int) + seq![i as int]
                    + t.subrange(j as int, i as int),
                insert_ordered(t, i as int, kv) == insert_ordered(
                    t.subrange(0, j as int),
                    i as int,
                    kv,
                ) + t.subrange(j as int, i as int),
            decreases j,
        {
            proof {
                assert(v@.map_values(|x: usize| x as int)[j - 1] == t[j - 1]);
                assert(kv[i as int] == key_of(keys@[i as int]));
                lemma_insert_unfold(t, i as int, kv, j as int);
            }
            let ghost before_swap = v@.map_values(|x: usize| x as int);
            let prev = v[j - 1];
            v.set(j, prev);
            v.set(j - 1, i);
            j = j - 1;
            proof {
                let now = v@.map_values(|x: usize| x as int);
                let want = t.subrange(0, j as int) + seq![i as int] + t.subrange(j as int, i as int);
                assert(now.len() == want.len());
                assert forall|k: int| 0 <= k < now.len() implies now[k] == want[k] by {
                    if k < j {
                        assert(now[k] == before_swap[k]);
                    } else if k == j {
                    } else if k == j + 1 {
                        assert(now[k] == before_swap[k - 1]);
                    } else {
                        assert(now[k] == before_swap[k]);
                    }
                }
                assert(now =~= want);
            }
        }
        proof {
            let tj = t.subrange(0, j as int);
            if j > 0 {
                assert(v@.map_values(|x: usize| x as int)[j - 1] == t[j - 1]);
                assert(tj.last() == t[j - 1]);
                assert(kv[i as int] == key_of(keys@[i as int]));
                assert(insert_ordered(tj, i as int, kv) == tj.push(i as int));
            } else {
                assert(insert_ordered(tj, i as int, kv) == seq![i as int]);
            }
            assert(v@.map_values(|x: usize| x as int) =~= insert_ordered(tj, i as int, kv)
                + t.subrange(j as int, i as int));
        }
        i = i + 1;
    }
    v
}

proof fn lemma_insert_props(t: Seq<int>, x: int, keys: Seq<(int, Seq<char>, Seq<char>)>)
    ensures
        insert_ordered(t, x, keys).len() == t.len() + 1,
        forall|y: int| #[trigger] insert_ordered(t, x, keys).contains(y) <==> (t.contains(y) || y == x),
        ranks_descending(t, keys) ==> ranks_descending(insert_ordered(t, x, keys), keys),
        (forall|a: int, b: int| 0 <= a < b < t.len() ==> t[a] != t[b]) && !t.contains(x) ==> (
        forall|a: int, b: int|
            0 <= a < b < insert_ordered(t, x, keys).len() ==> insert_ordered(t, x, keys)[a]
                != insert_ordered(t, x, keys)[b]),
    decreases t.len(),
{
    if t.len() == 0 {
        assert forall|y: int| #[trigger] insert_ordered(t, x, keys).contains(y) <==> (t.contains(y)
            || y == x) by {
            if y == x {
                assert(insert_ordered(t, x, keys)[0] == x);
            }
        }
    } else if key_before(keys[x], keys[t.last()]) {
        let p = t.drop_last();
        let l = t.last();
        lemma_insert_props(p, x, keys);
        let ip = insert_ordered(p, x, keys);
        let r = ip.push(l);
        assert forall|y: int| #[trigger] r.contains(y) <==> (t.contains(y) || y == x) by {
            if r.contains(y) {
                let k = choose|k: int| 0 <= k < r.len() && r[k] == y;
                if k < ip.len() {
                    assert(ip[k] == y);
                    assert(ip.contains(y));
                    if p.contains(y) {
                        let m = choose|m: int| 0 <= m < p.len() && p[m] == y;
                        assert(t[m] == y);
                    }
                } else {
                    assert(t[t.len() - 1] == y);
                }
            }
            if t.contains(y) {
                let m = choose|m: int| 0 <= m < t.len() && t[m] == y;
                if m < t.len() - 1 {
                    assert(p[m] == y);
                    assert(p.contains(y));
                    assert(ip.contains(y));
                    let k = choose|k: int| 0 <= k < ip.len() && ip[k] == y;
                    assert(r[k] == y);
                } else {
                    assert(r[r.len() - 1] == y);
                }
            }
            if y == x {
                assert(ip.contains(x));
                assert(ip.contains(y));
                let k = choose|k: int| 0 <= k < ip.len() && ip[k] == x;
                assert(r[k] == x);
            }
        }
        if ranks_descending(t, keys) {
            assert(ranks_descending(p, keys)) by {
                assert forall|a: int, b: int| 0 <= a < b < p.len() implies keys[p[a]].0
                    >= keys[p[b]].0 by {
                    assert(p[a] == t[a] && p[b] == t[b]);
                }
            }
            assert forall|a: int, b: int| 0 <= a < b < r.len() implies keys[r[a]].0
                >= keys[r[b]].0 by {
                if b == r.len() - 1 {
                    assert(r[b] == l);
                    assert(ip.contains(r[a]));
                    if r[a] == x {
                        assert(keys[x].0 >= keys[l].0);
                    } else {
                        assert(p.contains(r[a]));
                        let m = choose|m: int| 0 <= m < p.len() && p[m] == r[a];
                        assert(t[m] == r[a]);
                        assert(t[t.len() - 1] == l);
                    }
                } else {
                    assert(r[a] == ip[a] && r[b] == ip[b]);
                }
            }
        }
        if (forall|a: int, b: int| 0 <= a < b < t.len() ==> t[a] != t[b]) && !t.contains(x) {
            assert forall|a: int, b: int| 0 <= a < b < p.len() implies p[a] != p[b] by {
                assert(p[a] == t[a] && p[b] == t[b]);
            }
            assert(!p.contains(x)) by {
                if p.contains(x) {
                    let m = choose|m: int| 0 <= m < p.len() && p[m] == x;
                    assert(t[m] == x);
                }
            }
            assert forall|a: int, b: int| 0 <= a < b < r.len() implies r[a] != r[b] by {
                if b == r.len() - 1 {
                    assert(ip.contains(r[a]));
                    if r[a] == l {
                        if p.contains(l) {
                            let m = choose|m: int| 0 <= m < p.len() && p[m] == l;
                            assert(t[m] == t[t.len() - 1]);
                        } else {
                            assert(x == l);
                            assert(t.contains(x));
                        }
                    }
                } else {
                    assert(r[a] == ip[a] && r[b] == ip[b]);
                }
            }
        }
    } else {
        let r = t.push(x);
        assert forall|y: int| #[trigger] r.contains(y) <==> (t.contains(y) || y == x) by {
            if r.contains(y) {
                let k = choose|k: int| 0 <= k < r.len() && r[k] == y;
                if k < t.len() {
                    assert(t[k] == y);
                }
            }
            if t.contains(y) {
                let m = choose|m: int| 0 <= m < t.len() && t[m] == y;
                assert(r[m] == y);
            }
            if y == x {
                assert(r[t.len() as int] == x);
            }
        }
        if ranks_descending(t, keys) {
            assert forall|a: int, b: int| 0 <= a < b < r.len() implies keys[r[a]].0
                >= keys[r[b]].0 by {
                if b == r.len() - 1 {
                    assert(!key_before(keys[x], keys[t.last()]));
                    assert(keys[t[t.len() - 1]].0 >= keys[x].0);
                    if a < t.len() - 1 {
                        assert(keys[t[a]].0 >= keys[t[t.len() - 1]].0);
                    }
                } else {
                    assert(r[a] == t[a] && r[b] == t[b]);
                }
            }
        }
        if (forall|a: int, b: int| 0 <= a < b < t.len() ==> t[a] != t[b]) && !t.contains(x) {
            assert forall|a: int, b: int| 0 <= a < b < r.len() implies r[a] != r[b] by {
                if b == r.len() - 1 {
                    assert(r[a] == t[a]);
                } else {
                    assert(r[a] == t[a] && r[b] == t[b]);
                }
            }
        }
    }
}

/// The stable order lists every index exactly once and never puts a lower rank
/// before a higher one.
pub proof fn lemma_stable_order_props(n: nat, keys: Seq<(int, Seq<char>, Seq<char>)>)
    ensures
        is_permutation_of_range(stable_order(n, keys), n),
        ranks_descending(stable_order(n, keys), keys),
        forall|y: int| #[trigger] stable_order(n, keys).contains(y) <==> 0 <= y < n,
    decreases n,
{
    if n > 0 {
        let p = stable_order((n - 1) as nat, keys);
        lemma_stable_order_props((n - 1) as nat, keys);
        lemma_insert_props(p, n - 1, keys);
        let r = stable_order(n, keys);
        assert forall|a: int| 0 <= a < r.len() implies 0 <= #[trigger] r[a] < n by {
            assert(r.contains(r[a]));
        }
    }
}

} // verus!
