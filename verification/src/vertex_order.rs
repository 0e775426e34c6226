//! Ordering mesh vertices from the lowest upwards.
//!
//! The position of a vertex is compared lowest `z` first, then `y`, then `x`.
//! That comparison is made on floating-point coordinates outside this crate and
//! handed in as one key per vertex: its rank among the distinct vertex
//! positions, so that two vertices get the same key exactly when they sit at
//! the same place.
use vstd::prelude::*;

verus! {

/// Vertex `a` comes before vertex `b`: it is lower, or at the same place with
/// a smaller index.
pub open spec fn vertex_precedes(keys: Seq<u64>, a: usize, b: usize) -> bool {
    keys[a as int] < keys[b as int] || (keys[a as int] == keys[b as int] && a < b)
}

/// Keys are ranks: each is smaller than the number of vertices.
pub open spec fn keys_are_ranks(keys: Seq<u64>) -> bool {
    forall|i: int| 0 <= i < keys.len() ==> #[trigger] keys[i] < keys.len()
}

/// `order` lists every vertex exactly once, from the lowest upwards; vertices
/// at the same place keep their index order.
pub open spec fn is_vertex_order(keys: Seq<u64>, order: Seq<usize>) -> bool {
    &&& order.len() == keys.len()
    &&& forall|j: int| 0 <= j < order.len() ==> #[trigger] order[j] < keys.len()
    &&& forall|i: int, j: int|
        0 <= i < j < order.len() ==> vertex_precedes(keys, #[trigger] order[i], #[trigger] order[j])
    &&& forall|v: usize| v < keys.len() ==> #[trigger] order.contains(v)
}

/// The vertices below index `i` whose key is `c`, in index order.
pub open spec fn bucket(keys: Seq<u64>, c: int, i: int) -> Seq<usize>
    decreases i,
{
    if i <= 0 {
        Seq::empty()
    } else if keys[i - 1] == c {
        bucket(keys, c, i - 1).push((i - 1) as usize)
    } else {
        bucket(keys, c, i - 1)
    }
}

/// The buckets of keys `0..c`, one after the other.
pub open spec fn buckets_below(keys: Seq<u64>, c: int) -> Seq<usize>
    decreases c,
{
    if c <= 0 {
        Seq::empty()
    } else {
        buckets_below(keys, c - 1) + bucket(keys, c - 1, keys.len() as int)
    }
}

/// The number of vertices below index `i` with a key below `c`.
pub open spec fn count_below(keys: Seq<u64>, c: int, i: int) -> int
    decreases i,
{
    if i <= 0 {
        0
    } else if keys[i - 1] < c {
        count_below(keys, c, i - 1) + 1
    } else {
        count_below(keys, c, i - 1)
    }
}

proof fn lemma_bucket(keys: Seq<u64>, c: int, i: int)
    requires
        i <= keys.len() <= usize::MAX,
    ensures
        bucket(keys, c, i).len() + count_below(keys, c, i) == count_below(keys, c + 1, i),
        forall|j: int|
            0 <= j < bucket(keys, c, i).len() ==> {
                &&& #[trigger] bucket(keys, c, i)[j] < i
                &&& keys[bucket(keys, c, i)[j] as int] == c
            },
        forall|j: int, k: int|
            0 <= j < k < bucket(keys, c, i).len() ==> #[trigger] bucket(keys, c, i)[j]
                < #[trigger] bucket(keys, c, i)[k],
        forall|v: usize| v < i && keys[v as int] == c ==> #[trigger] bucket(keys, c, i).contains(v),
    decreases i,
{
    if i > 0 {
        lemma_bucket(keys, c, i - 1);
        let b = bucket(keys, c, i - 1);
        let r = bucket(keys, c, i);
        if keys[i - 1] == c {
            assert(r == b.push((i - 1) as usize));
            assert forall|j: int| 0 <= j < r.len() implies {
                &&& #[trigger] r[j] < i
                &&& keys[r[j] as int] == c
            } by {
                if j < b.len() {
                    assert(r[j] == b[j]);
                }
            }
            assert forall|j: int, k: int| 0 <= j < k < r.len() implies #[trigger] r[j]
                < #[trigger] r[k] by {
                if k < b.len() {
                    assert(r[j] == b[j]);
                    assert(r[k] == b[k]);
                } else {
                    assert(r[j] == b[j]);
                }
            }
            assert forall|v: usize| v < i && keys[v as int] == c implies #[trigger] r.contains(
                v,
            ) by {
                if v < i - 1 {
                    assert(b.contains(v));
                    let w = choose|w: int| 0 <= w < b.len() && b[w] == v;
                    assert(r[w] == v);
                } else {
                    assert(r[b.len() as int] == v);
                }
            }
        } else {
            assert(r == b);
        }
    }
}

proof fn lemma_count_none(keys: Seq<u64>, i: int)
    ensures
        count_below(keys, 0, i) == 0,
    decreases i,
{
    if i > 0 {
        lemma_count_none(keys, i - 1);
    }
}

proof fn lemma_count_all(keys: Seq<u64>, i: int)
    requires
        0 <= i <= keys.len(),
        keys_are_ranks(keys),
    ensures
        count_below(keys, keys.len() as int, i) == i,
    decreases i,
{
    if i > 0 {
        lemma_count_all(keys, i - 1);
    }
}

proof fn lemma_buckets_below(keys: Seq<u64>, c: int)
    requires
        0 <= c,
        keys.len() <= usize::MAX,
    ensures
        buckets_below(keys, c).len() == count_below(keys, c, keys.len() as int),
        forall|j: int|
            0 <= j < buckets_below(keys, c).len() ==> {
                &&& #[trigger] buckets_below(keys, c)[j] < keys.len()
                &&& keys[buckets_below(keys, c)[j] as int] < c
            },
        forall|i: int, j: int|
            0 <= i < j < buckets_below(keys, c).len() ==> vertex_precedes(
                keys,
                #[trigger] buckets_below(keys, c)[i],
                #[trigger] buckets_below(keys, c)[j],
            ),
        forall|v: usize|
            v < keys.len() && keys[v as int] < c ==> #[trigger] buckets_below(keys, c).contains(v),
    decreases c,
{
    if c > 0 {
        lemma_buckets_below(keys, c - 1);
        lemma_bucket(keys, c - 1, keys.len() as int);
        let a = buckets_below(keys, c - 1);
        let b = bucket(keys, c - 1, keys.len() as int);
        let r = buckets_below(keys, c);
        assert(r == a + b);
        assert forall|i: int, j: int| 0 <= i < j < r.len() implies vertex_precedes(
            keys,
            #[trigger] r[i],
            #[trigger] r[j],
        ) by {
            if j < a.len() {
            } else if i >= a.len() {
                assert(r[i] == b[i - a.len()]);
                assert(r[j] == b[j - a.len()]);
            } else {
                assert(r[i] == a[i]);
                assert(r[j] == b[j - a.len()]);
            }
        }
        assert forall|v: usize| v < keys.len() && keys[v as int] < c implies #[trigger] r.contains(
            v,
        ) by {
            if keys[v as int] < c - 1 {
                assert(a.contains(v));
                let w = choose|w: int| 0 <= w < a.len() && a[w] == v;
                assert(r[w] == v);
            } else {
                assert(b.contains(v));
                let w = choose|w: int| 0 <= w < b.len() && b[w] == v;
                assert(r[a.len() + w] == v);
            }
        }
        assert(r.len() == a.len() + b.len());
    } else {
        lemma_count_none(keys, keys.len() as int);
    }
}

/// The buckets of all keys, one after the other, list the vertices from the
/// lowest upwards, each exactly once.
pub proof fn lemma_buckets_are_vertex_order(keys: Seq<u64>)
    requires
        keys_are_ranks(keys),
        keys.len() <= usize::MAX,
    ensures
        is_vertex_order(keys, buckets_below(keys, keys.len() as int)),
{
    lemma_buckets_below(keys, keys.len() as int);
    lemma_count_all(keys, keys.len() as int);
}

/// Orders the vertices from the lowest upwards; vertices at the same place
/// keep their index order.
pub fn vertex_order(keys: &[u64]) -> (order: Vec<usize>)
    requires
        keys_are_ranks(keys@),
    ensures
        order@ == buckets_below(keys@, keys@.len() as int),
        is_vertex_order(keys@, order@),
{
    let n = keys.len();
    let mut buckets: Vec<Vec<usize>> = Vec::new();
    let mut c: usize = 0;
    while c < n
        invariant
            c <= n,
            n == keys@.len(),
            buckets@.len() == c,
            forall|k: int| 0 <= k < c ==> (#[trigger] buckets@[k])@ == Seq::<usize>::empty(),
        decreases n - c,
    {
        buckets.push(Vec::new());
        c = c + 1;
    }
    let mut i: usize = 0;
    while i < n
        invariant
            i <= n,
            n == keys@.len(),
            keys_are_ranks(keys@),
            buckets@.len() == n,
            forall|k: int| 0 <= k < n ==> (#[trigger] buckets@[k])@ == bucket(keys@, k, i as int),
        decreases n - i,
    {
        let k = keys[i] as usize;
        buckets[k].push(i);
        assert forall|k2: int| 0 <= k2 < n implies (#[trigger] buckets@[k2])@ == bucket(
            keys@,
            k2,
            i + 1,
        ) by {}
        i = i + 1;
    }
    let mut order: Vec<usize> = Vec::new();
    let mut c: usize = 0;
    while c < n
        invariant
            c <= n,
            n == keys@.len(),
            buckets@.len() == n,
            forall|k: int| c <= k < n ==> (#[trigger] buckets@[k])@ == bucket(keys@, k, n as int),
            order@ == buckets_below(keys@, c as int),
        decreases n - c,
    {
        let mut b: Vec<usize> = Vec::new();
        std::mem::swap(&mut b, &mut buckets[c]);
        order.append(&mut b);
        c = c + 1;
    }
    proof {
        lemma_buckets_are_vertex_order(keys@);
    }
    order
}

} // verus!
