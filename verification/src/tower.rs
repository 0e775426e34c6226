//! The triangle tower: every mesh vertex owns the ring fragments that start at
//! it, and walking the vertices from the lowest upwards keeps a set of closed
//! rings that describe the outline of the model at the current height.
use crate::error::SlicerErrors;
use crate::types::IndexedTriangle;
use crate::vertex_order::{buckets_below, keys_are_ranks, vertex_order};
use vstd::prelude::*;

verus! {

/// One element of a ring: a triangle face crossed by the slicing plane, or a
/// mesh edge from `start_index` to `end_index` cut by the plane.
#[derive(Clone, Copy, Debug, PartialEq, Eq, Hash, Structural)]
pub enum TowerRingElement {
    Face { triangle_index: usize },
    Edge { start_index: usize, end_index: usize },
}

/// A ring, or a fragment of one, as an ordered list of elements.
#[derive(Clone, Debug, PartialEq)]
pub struct TowerRing {
    pub elements: Vec<TowerRingElement>,
}

impl View for TowerRing {
    type V = Seq<TowerRingElement>;

    open spec fn view(&self) -> Seq<TowerRingElement> {
        self.elements@
    }
}

/// The element sequences of a list of rings.
pub open spec fn rings_view(rings: Seq<TowerRing>) -> Seq<Seq<TowerRingElement>> {
    rings.map_values(|r: TowerRing| r@)
}

/// First element of a sequence, if any.
pub open spec fn first_of(s: Seq<TowerRingElement>) -> Option<TowerRingElement> {
    if s.len() > 0 {
        Some(s[0])
    } else {
        None
    }
}

/// Last element of a sequence, if any.
pub open spec fn last_of(s: Seq<TowerRingElement>) -> Option<TowerRingElement> {
    if s.len() > 0 {
        Some(s.last())
    } else {
        None
    }
}

/// A closed ring: it comes back to the element it started with and holds more
/// than three elements.
pub open spec fn is_complete(s: Seq<TowerRingElement>) -> bool {
    s.len() > 3 && s[0] == s.last()
}

/// Gluing `second` onto the end of `first`: the first element of `second` is
/// the one `first` ends with, so it is not repeated.
pub open spec fn glue(first: Seq<TowerRingElement>, second: Seq<TowerRingElement>) -> Seq<
    TowerRingElement,
> {
    first + second.skip(1)
}

/// Whether `e` is an edge that ends at vertex `v`.
pub open spec fn edge_ends_at(e: TowerRingElement, v: usize) -> bool {
    match e {
        TowerRingElement::Edge { end_index, .. } => end_index == v,
        TowerRingElement::Face { .. } => false,
    }
}

/// Scanning a ring from the front, cutting it at every edge that ends at `v`:
/// the pieces closed by such an edge, and the piece still open at the end.
pub open spec fn split_scan(s: Seq<TowerRingElement>, v: usize) -> (
    Seq<Seq<TowerRingElement>>,
    Seq<TowerRingElement>,
)
    decreases s.len(),
{
    if s.len() == 0 {
        (Seq::empty(), Seq::empty())
    } else {
        let (pieces, open) = split_scan(s.drop_last(), v);
        if edge_ends_at(s.last(), v) {
            (pieces.push(open), Seq::empty())
        } else {
            (pieces, open.push(s.last()))
        }
    }
}

/// The pieces of a ring cut at vertex `v`, before short pieces are dropped:
/// the open tail piece is glued in front of the first piece, because a ring
/// runs on from its end to its start.
pub open spec fn split_glued(s: Seq<TowerRingElement>, v: usize) -> Seq<Seq<TowerRingElement>> {
    let (pieces, open) = split_scan(s, v);
    if pieces.len() == 0 {
        seq![open]
    } else if pieces[0].len() == 0 {
        pieces.update(0, open)
    } else {
        pieces.update(0, open + pieces[0].skip(1))
    }
}

/// The sequences of a list that are longer than one element, in order.
pub open spec fn keep_long(s: Seq<Seq<TowerRingElement>>) -> Seq<Seq<TowerRingElement>>
    decreases s.len(),
{
    if s.len() == 0 {
        s
    } else if s.last().len() > 1 {
        keep_long(s.drop_last()).push(s.last())
    } else {
        keep_long(s.drop_last())
    }
}

/// The fragments left of ring `s` once vertex `v` has been passed: every edge
/// ending at `v` cuts the ring, and pieces of at most one element end there.
pub open spec fn split_on_vertex(s: Seq<TowerRingElement>, v: usize) -> Seq<
    Seq<TowerRingElement>,
> {
    keep_long(split_glued(s, v))
}

impl TowerRing {
    /// Whether the ring is closed.
    pub fn is_complete_ring(&self) -> (b: bool)
        ensures
            b == is_complete(self@),
    {
        let n = self.elements.len();
        n > 3 && self.elements[0] == self.elements[n - 1]
    }

    /// `first` followed by `second` without the element they share.
    pub fn join_rings(first: TowerRing, second: TowerRing) -> (r: TowerRing)
        requires
            second@.len() > 0,
        ensures
            r@ == glue(first@, second@),
    {
        let mut first = first;
        TowerRing::join_rings_in_place(&mut first, second);
        first
    }

    /// Appends `second`, without its first element, to `first`.
    pub fn join_rings_in_place(first: &mut TowerRing, second: TowerRing)
        requires
            second@.len() > 0,
        ensures
            final(first)@ == glue(old(first)@, second@),
    {
        let n = second.elements.len();
        let mut i: usize = 1;
        while i < n
            invariant
                1 <= i <= n,
                n == second@.len(),
                first@ == old(first)@ + second@.subrange(1, i as int),
            decreases n - i,
        {
            first.elements.push(second.elements[i]);
            assert(second@.subrange(1, i + 1) == second@.subrange(1, i as int).push(second@[i as int]));
            i = i + 1;
        }
        assert(second@.subrange(1, n as int) == second@.skip(1));
    }

    /// Cuts the ring at every edge that ends at vertex `edge` and returns the
    /// fragments that carry on above it.
    pub fn split_on_edge(self, edge: usize) -> (frags: Vec<TowerRing>)
        ensures
            rings_view(frags@) == split_on_vertex(self@, edge),
    {
        let s = self.elements;
        let ghost sv = s@;
        let n = s.len();
        let mut new_ring: Vec<TowerRingElement> = Vec::new();
        let mut frags: Vec<TowerRing> = Vec::new();
        let mut i: usize = 0;
        while i < n
            invariant
                i <= n,
                n == sv.len(),
                s@ == sv,
                (rings_view(frags@), new_ring@) == split_scan(sv.take(i as int), edge),
            decreases n - i,
        {
            let e = s[i];
            assert(sv.take(i + 1).drop_last() == sv.take(i as int));
            let ends = match e {
                TowerRingElement::Edge { end_index, .. } => end_index == edge,
                TowerRingElement::Face { .. } => false,
            };
            if ends {
                let mut done: Vec<TowerRingElement> = Vec::new();
                std::mem::swap(&mut done, &mut new_ring);
                frags.push(TowerRing { elements: done });
                assert(rings_view(frags@) == split_scan(sv.take(i as int), edge).0.push(
                    split_scan(sv.take(i as int), edge).1,
                ));
            } else {
                new_ring.push(e);
            }
            i = i + 1;
        }
        assert(sv.take(n as int) == sv);
        let ghost scanned = split_scan(sv, edge);
        if frags.len() == 0 {
            frags.push(TowerRing { elements: new_ring });
            assert(rings_view(frags@) == seq![scanned.1]);
        } else {
            let mut head = TowerRing { elements: Vec::new() };
            std::mem::swap(&mut head, &mut frags[0]);
            if head.elements.len() == 0 {
                frags[0] = TowerRing { elements: new_ring };
            } else {
                let mut glued = TowerRing { elements: new_ring };
                TowerRing::join_rings_in_place(&mut glued, head);
                frags[0] = glued;
            }
            assert(rings_view(frags@) == split_glued(sv, edge));
        }
        keep_long_rings(frags)
    }
}

/// Keeps the rings that hold more than one element, in order.
fn keep_long_rings(rings: Vec<TowerRing>) -> (r: Vec<TowerRing>)
    ensures
        rings_view(r@) == keep_long(rings_view(rings@)),
{
    let ghost rv = rings_view(rings@);
    let mut rings = rings;
    let mut kept_rev: Vec<TowerRing> = Vec::new();
    // take rings off the back so that each can be moved out
    while rings.len() > 0
        invariant
            rings@.len() <= rv.len(),
            rings_view(rings@) == rv.take(rings@.len() as int),
            keep_long(rv) == keep_long(rings_view(rings@)) + rings_view(kept_rev@).reverse(),
        decreases rings@.len(),
    {
        let ghost before = rings_view(rings@);
        let ring = rings.pop().unwrap();
        assert(rings_view(rings@) == before.drop_last());
        assert(rings_view(rings@) == rv.take(rings@.len() as int));
        if ring.elements.len() > 1 {
            let ghost kv = rings_view(kept_rev@);
            kept_rev.push(ring);
            assert(rings_view(kept_rev@) == kv.push(ring@));
            assert(rings_view(kept_rev@).reverse() == seq![ring@] + kv.reverse());
        }
    }
    let mut out: Vec<TowerRing> = Vec::new();
    while kept_rev.len() > 0
        invariant
            keep_long(rv) == rings_view(out@) + rings_view(kept_rev@).reverse(),
        decreases kept_rev@.len(),
    {
        let ghost kv = rings_view(kept_rev@);
        let ghost ov = rings_view(out@);
        let ring = kept_rev.pop().unwrap();
        assert(rings_view(kept_rev@) == kv.drop_last());
        out.push(ring);
        assert(rings_view(out@) == ov.push(ring@));
        assert(kv.reverse() == seq![ring@] + kv.drop_last().reverse());
    }
    assert(rings_view(kept_rev@).reverse() == Seq::<Seq<TowerRingElement>>::empty());
    out
}


/// No two rings of the list are empty (joining two empty rings is not defined).
pub open spec fn at_most_one_empty(s: Seq<Seq<TowerRingElement>>) -> bool {
    forall|i: int, j: int|
        0 <= i < j < s.len() ==> !(#[trigger] s[i].len() == 0 && #[trigger] s[j].len() == 0)
}

/// Whether the fragment at `sp` continues the one at `fp`, or the other way round.
pub open spec fn fragments_meet(s: Seq<Seq<TowerRingElement>>, fp: int, sp: int) -> bool {
    last_of(s[fp]) == first_of(s[sp]) || last_of(s[sp]) == first_of(s[fp])
}

/// Whether the fragment at `sp` comes before the one at `fp` in the joined ring.
pub open spec fn fragments_reversed(s: Seq<Seq<TowerRingElement>>, fp: int, sp: int) -> bool {
    last_of(s[sp]) == first_of(s[fp])
}

/// Joins the fragments at `fp` and `sp` (in their ring order) into position
/// `fp`; the last fragment of the list takes the place of `sp`.
pub open spec fn join_at(s: Seq<Seq<TowerRingElement>>, fp: int, sp: int) -> Seq<
    Seq<TowerRingElement>,
> {
    let t = if fragments_reversed(s, fp, sp) {
        s.update(fp, s[sp]).update(sp, s[fp])
    } else {
        s
    };
    t.update(sp, t.last()).drop_last().update(fp, glue(t[fp], t[sp]))
}

/// The greedy search for fragments that meet the one at `fp`, from `sp` on.
/// After a join in which the fragment at `fp` got a new start, the search
/// starts over right behind `fp`.
pub open spec fn join_scan(s: Seq<Seq<TowerRingElement>>, fp: int, sp: int) -> Seq<
    Seq<TowerRingElement>,
>
    decreases s.len(), s.len() - sp,
{
    if 0 <= fp < sp < s.len() {
        if fragments_meet(s, fp, sp) {
            let next = if fragments_reversed(s, fp, sp) {
                fp + 1
            } else {
                sp
            };
            join_scan(join_at(s, fp, sp), fp, next)
        } else {
            join_scan(s, fp, sp + 1)
        }
    } else {
        s
    }
}

/// The greedy searches for every start position from `fp` up to `n`.
pub open spec fn join_pass(s: Seq<Seq<TowerRingElement>>, fp: int, n: int) -> Seq<
    Seq<TowerRingElement>,
>
    decreases n - fp,
{
    if fp < n {
        join_pass(join_scan(s, fp, fp + 1), fp + 1, n)
    } else {
        s
    }
}

/// The fragments of `s` after greedily joining fragments that meet end to start.
pub open spec fn join_all(s: Seq<Seq<TowerRingElement>>) -> Seq<Seq<TowerRingElement>> {
    join_pass(s, 0, s.len() as int)
}

proof fn lemma_join_at_keeps_empties(s: Seq<Seq<TowerRingElement>>, fp: int, sp: int)
    requires
        0 <= fp < sp < s.len(),
        fragments_meet(s, fp, sp),
        at_most_one_empty(s),
    ensures
        s[fp].len() > 0,
        s[sp].len() > 0,
        at_most_one_empty(join_at(s, fp, sp)),
{
    if s[fp].len() == 0 || s[sp].len() == 0 {
        assert(s[fp].len() == 0 && s[sp].len() == 0);
    }
    let t = if fragments_reversed(s, fp, sp) {
        s.update(fp, s[sp]).update(sp, s[fp])
    } else {
        s
    };
    let r = join_at(s, fp, sp);
    assert forall|i: int, j: int| 0 <= i < j < r.len() implies !(#[trigger] r[i].len() == 0
        && #[trigger] r[j].len() == 0) by {
        if r[i].len() == 0 && r[j].len() == 0 {
            // empty rings of r are empty rings of s, at distinct positions
            let si = if i == sp { s.len() - 1 } else if i == fp || (fragments_reversed(s, fp, sp) && i == sp) { fp } else { i };
            let sj = if j == sp { s.len() - 1 } else { j };
            assert(i != fp);
            assert(j != fp);
            assert(s[si].len() == 0);
            assert(s[sj].len() == 0);
            if si < sj {
            } else {
                assert(sj < si);
            }
        }
    }
}

/// Whether fragment `b` continues fragment `a`: `a` ends with the element `b` starts with.
fn ends_meet(a: &TowerRing, b: &TowerRing) -> (r: bool)
    ensures
        r == (last_of(a@) == first_of(b@)),
{
    let na = a.elements.len();
    let nb = b.elements.len();
    if na == 0 || nb == 0 {
        na == 0 && nb == 0
    } else {
        a.elements[na - 1] == b.elements[0]
    }
}

/// Greedily joins fragments whose ends meet: the last element of one is the
/// first element of the other.
///
/// Two empty fragments would both match the empty end of the other and
/// cannot be joined, so at most one fragment may be empty.
pub fn join_fragments(fragments: &mut Vec<TowerRing>)
    requires
        at_most_one_empty(rings_view(old(fragments)@)),
    ensures
        rings_view(final(fragments)@) == join_all(rings_view(old(fragments)@)),
        at_most_one_empty(rings_view(final(fragments)@)),
{
    let ghost target = join_all(rings_view(fragments@));
    let n = fragments.len();
    let mut first_pos: usize = 0;
    while first_pos < n
        invariant
            join_pass(rings_view(fragments@), first_pos as int, n as int) == target,
            at_most_one_empty(rings_view(fragments@)),
        decreases n - first_pos,
    {
        let mut second_pos: usize = first_pos + 1;
        while second_pos < fragments.len()
            invariant
                first_pos < n,
                first_pos < second_pos,
                join_pass(
                    join_scan(rings_view(fragments@), first_pos as int, second_pos as int),
                    first_pos + 1,
                    n as int,
                ) == target,
                at_most_one_empty(rings_view(fragments@)),
            decreases fragments@.len(), fragments@.len() - second_pos,
        {
            let ghost s = rings_view(fragments@);
            let swap = ends_meet(&fragments[second_pos], &fragments[first_pos]);
            let forward = ends_meet(&fragments[first_pos], &fragments[second_pos]);
            if forward || swap {
                proof {
                    lemma_join_at_keeps_empties(s, first_pos as int, second_pos as int);
                }
                if swap {
                    let mut tmp = TowerRing { elements: Vec::new() };
                    std::mem::swap(&mut tmp, &mut fragments[first_pos]);
                    std::mem::swap(&mut tmp, &mut fragments[second_pos]);
                    std::mem::swap(&mut tmp, &mut fragments[first_pos]);
                    assert(rings_view(fragments@) == s.update(first_pos as int, s[second_pos as int]).update(
                        second_pos as int,
                        s[first_pos as int],
                    ));
                }
                let ghost t = rings_view(fragments@);
                let second_r = fragments.swap_remove(second_pos);
                assert(rings_view(fragments@) == t.update(second_pos as int, t.last()).drop_last());
                TowerRing::join_rings_in_place(&mut fragments[first_pos], second_r);
                assert(rings_view(fragments@) == join_at(s, first_pos as int, second_pos as int));
            } else {
                second_pos = second_pos + 1;
            }
            if swap {
                second_pos = first_pos + 1;
            }
        }
        first_pos = first_pos + 1;
    }
}


/// The number of elements over all rings of a list.
pub open spec fn total_len(s: Seq<Seq<TowerRingElement>>) -> int
    decreases s.len(),
{
    if s.len() == 0 {
        0
    } else {
        total_len(s.drop_last()) + s.last().len()
    }
}

proof fn lemma_total_len_update(s: Seq<Seq<TowerRingElement>>, i: int, x: Seq<TowerRingElement>)
    requires
        0 <= i < s.len(),
    ensures
        total_len(s.update(i, x)) == total_len(s) - s[i].len() + x.len(),
    decreases s.len(),
{
    if i == s.len() - 1 {
        assert(s.update(i, x).drop_last() == s.drop_last());
    } else {
        lemma_total_len_update(s.drop_last(), i, x);
        assert(s.update(i, x).drop_last() == s.drop_last().update(i, x));
    }
}

proof fn lemma_join_at_total(s: Seq<Seq<TowerRingElement>>, fp: int, sp: int)
    requires
        0 <= fp < sp < s.len(),
        s[fp].len() > 0,
        s[sp].len() > 0,
    ensures
        total_len(join_at(s, fp, sp)) == total_len(s) - 1,
{
    let t = if fragments_reversed(s, fp, sp) {
        lemma_total_len_update(s, fp, s[sp]);
        lemma_total_len_update(s.update(fp, s[sp]), sp, s[fp]);
        s.update(fp, s[sp]).update(sp, s[fp])
    } else {
        s
    };
    assert(total_len(t) == total_len(s));
    let u = t.update(sp, t.last());
    lemma_total_len_update(t, sp, t.last());
    assert(total_len(u.drop_last()) == total_len(u) - t.last().len());
    let v = u.drop_last();
    lemma_total_len_update(v, fp, glue(t[fp], t[sp]));
}

proof fn lemma_join_scan_weight(s: Seq<Seq<TowerRingElement>>, fp: int, sp: int)
    requires
        at_most_one_empty(s),
    ensures
        total_len(join_scan(s, fp, sp)) - join_scan(s, fp, sp).len() == total_len(s) - s.len(),
        join_scan(s, fp, sp).len() <= s.len(),
        at_most_one_empty(join_scan(s, fp, sp)),
    decreases s.len(), s.len() - sp,
{
    if 0 <= fp < sp < s.len() {
        if fragments_meet(s, fp, sp) {
            lemma_join_at_keeps_empties(s, fp, sp);
            lemma_join_at_total(s, fp, sp);
            let next = if fragments_reversed(s, fp, sp) {
                fp + 1
            } else {
                sp
            };
            lemma_join_scan_weight(join_at(s, fp, sp), fp, next);
        } else {
            lemma_join_scan_weight(s, fp, sp + 1);
        }
    }
}

proof fn lemma_join_pass_weight(s: Seq<Seq<TowerRingElement>>, fp: int, n: int)
    requires
        at_most_one_empty(s),
    ensures
        total_len(join_pass(s, fp, n)) - join_pass(s, fp, n).len() == total_len(s) - s.len(),
        join_pass(s, fp, n).len() <= s.len(),
    decreases n - fp,
{
    if fp < n {
        lemma_join_scan_weight(s, fp, fp + 1);
        lemma_join_pass_weight(join_scan(s, fp, fp + 1), fp + 1, n);
    }
}

/// Joining fragments never loses or duplicates an element: each join merges
/// two fragments into one and drops only the element they share, so the
/// number of elements minus the number of fragments stays the same, and the
/// number of fragments never grows.
pub proof fn lemma_join_all_preserves_elements(s: Seq<Seq<TowerRingElement>>)
    requires
        at_most_one_empty(s),
    ensures
        total_len(join_all(s)) - join_all(s).len() == total_len(s) - s.len(),
        join_all(s).len() <= s.len(),
{
    lemma_join_pass_weight(s, 0, s.len() as int);
}


/// The position after `i` in a ring of `n` positions.
pub open spec fn ring_next(i: int, n: int) -> int {
    if i + 1 < n {
        i + 1
    } else {
        0
    }
}

/// Whether fragment `i` of `c` ends with the element that the fragment after
/// it, in ring order, starts with.
pub open spec fn links_to_next(c: Seq<Seq<TowerRingElement>>, i: int) -> bool {
    c[i].last() == c[ring_next(i, c.len() as int)][0]
}

/// Whether no two fragments of a list start with the same element.
pub open spec fn distinct_starts(c: Seq<Seq<TowerRingElement>>) -> bool {
    forall|i: int, j: int| 0 <= i < j < c.len() ==> #[trigger] c[i][0] != #[trigger] c[j][0]
}

/// Whether `c` lists fragments that chain into one closed ring, in ring
/// order: none is empty, each ends with the element the next one starts
/// with, the last ends with the element the first starts with, and no two
/// start alike.
pub open spec fn ring_order(c: Seq<Seq<TowerRingElement>>) -> bool {
    &&& c.len() > 0
    &&& forall|i: int| 0 <= i < c.len() ==> #[trigger] c[i].len() > 0
    &&& forall|i: int| 0 <= i < c.len() ==> #[trigger] links_to_next(c, i)
    &&& distinct_starts(c)
}

/// Whether two lists hold the same fragments, and none starts like another.
pub open spec fn same_fragments(s: Seq<Seq<TowerRingElement>>, c: Seq<Seq<TowerRingElement>>) -> bool {
    &&& s.len() == c.len()
    &&& forall|k: int| 0 <= k < s.len() ==> c.contains(#[trigger] s[k])
    &&& forall|i: int| 0 <= i < c.len() ==> s.contains(#[trigger] c[i])
    &&& distinct_starts(s)
}

proof fn lemma_glue_ends(a: Seq<TowerRingElement>, b: Seq<TowerRingElement>)
    requires
        a.len() > 0,
        b.len() > 0,
        a.last() == b[0],
    ensures
        glue(a, b).len() > 0,
        glue(a, b)[0] == a[0],
        glue(a, b).last() == b.last(),
{
    if b.len() == 1 {
        assert(glue(a, b) == a);
    }
}

/// Where a fragment of `c` stands: the position holding it.
proof fn lemma_position_by_start(c: Seq<Seq<TowerRingElement>>, x: Seq<TowerRingElement>, p: int)
    requires
        distinct_starts(c),
        c.contains(x),
        0 <= p < c.len(),
        c[p].len() > 0,
        x.len() > 0,
        c[p][0] == x[0],
    ensures
        c[p] == x,
{
    let q = choose|q: int| 0 <= q < c.len() && c[q] == x;
    if q < p {
        assert(c[q][0] != c[p][0]);
    } else if p < q {
        assert(c[p][0] != c[q][0]);
    }
}

/// The state of the greedy search that joins onto the fragment at position 0:
/// the fragments chain into one ring with the one at 0 first, and none at
/// positions 1 up to `sp` (not included) ends where the one at 0 starts.
spec fn scan_ready(s: Seq<Seq<TowerRingElement>>, c: Seq<Seq<TowerRingElement>>, sp: int) -> bool {
    &&& ring_order(c)
    &&& same_fragments(s, c)
    &&& c[0] == s[0]
    &&& 1 <= sp
    &&& forall|k: int| 1 <= k < sp && k < s.len() ==> (#[trigger] s[k]).last() != s[0][0]
}

proof fn lemma_fragments_nonempty(s: Seq<Seq<TowerRingElement>>, c: Seq<Seq<TowerRingElement>>)
    requires
        ring_order(c),
        same_fragments(s, c),
    ensures
        forall|k: int| 0 <= k < s.len() ==> #[trigger] s[k].len() > 0,
{
    assert forall|k: int| 0 <= k < s.len() implies #[trigger] s[k].len() > 0 by {
        assert(c.contains(s[k]));
        let q = choose|q: int| 0 <= q < c.len() && c[q] == s[k];
        assert(c[q].len() > 0);
    }
}

/// Joining the fragment at position 0 with the one at `sp` that ends where it
/// starts: the joined fragment takes the place of the two in the ring order.
proof fn lemma_join_reversed_step(s: Seq<Seq<TowerRingElement>>, c: Seq<Seq<TowerRingElement>>, sp: int)
    requires
        ring_order(c),
        same_fragments(s, c),
        c[0] == s[0],
        1 <= sp < s.len(),
        fragments_reversed(s, 0, sp),
    ensures
        ({
            let n = c.len() as int;
            let c2 = seq![glue(c[n - 1], c[0])] + c.subrange(1, n - 1);
            let s2 = join_at(s, 0, sp);
            &&& ring_order(c2)
            &&& same_fragments(s2, c2)
            &&& c2[0] == s2[0]
            &&& s2.len() == s.len() - 1
        }),
{
    let n = c.len() as int;
    lemma_fragments_nonempty(s, c);
    let p = s[0];
    let z = s[sp];
    assert(p.len() > 0 && z.len() > 0);
    assert(z.last() == p[0]);
    // the fragment that ends where the first starts is the last in ring order
    assert(c.contains(z));
    let iz = choose|q: int| 0 <= q < n && c[q] == z;
    assert(links_to_next(c, iz));
    let r = ring_next(iz, n);
    if r != 0 {
        assert(c[0][0] != c[r][0]);
    }
    assert(iz == n - 1);
    assert(c[n - 1] == z);
    assert(n >= 2);
    let g = glue(z, p);
    lemma_glue_ends(z, p);
    let c2 = seq![g] + c.subrange(1, n - 1);
    let t = s.update(0, s[sp]).update(sp, s[0]);
    let u = t.update(sp, t.last()).drop_last();
    let s2 = u.update(0, glue(t[0], t[sp]));
    assert(s2 == join_at(s, 0, sp));
    assert(t[0] == z && t[sp] == p);
    assert(s2[0] == g);
    assert(s2.len() == n - 1);
    assert forall|k: int| 1 <= k < n - 1 implies #[trigger] s2[k] == (if k == sp { s[n - 1] } else { s[k] }) by {
        if k == sp {
            assert(t.last() == t[n - 1]);
            assert(n - 1 != sp);
        }
    }
    assert forall|i: int| 1 <= i < n - 1 implies #[trigger] c2[i] == c[i] by {}
    // the ring order of the joined list
    assert(c2[0] == g);
    assert forall|i: int| 0 <= i < c2.len() implies #[trigger] c2[i].len() > 0 by {
        if i > 0 {
            assert(c2[i] == c[i]);
            assert(c[i].len() > 0);
        }
    }
    assert forall|i: int| 0 <= i < c2.len() implies #[trigger] links_to_next(c2, i) by {
        if i == 0 {
            assert(links_to_next(c, 0));
            if n - 1 >= 2 {
                assert(c2[1] == c[1]);
            } else {
                assert(c[1] == z);
            }
        } else {
            assert(c2[i] == c[i]);
            assert(links_to_next(c, i));
            if i + 1 < n - 1 {
                assert(c2[i + 1] == c[i + 1]);
            } else {
                assert(ring_next(i, n) == n - 1);
            }
        }
    }
    assert forall|i: int, j: int| 0 <= i < j < c2.len() implies #[trigger] c2[i][0] != #[trigger] c2[j][0] by {
        assert(c2[j] == c[j]);
        if i == 0 {
            assert(c[j][0] != c[n - 1][0]);
        } else {
            assert(c2[i] == c[i]);
            assert(c[i][0] != c[j][0]);
        }
    }
    assert(ring_order(c2));
    // the joined list holds the same fragments as the ring order
    let orig = |k: int| if k == sp { n - 1 } else { k };
    assert forall|i: int, j: int| 0 <= i < j < s2.len() implies #[trigger] s2[i][0] != #[trigger] s2[j][0] by {
        if i == 0 {
            assert(s2[j] == s[orig(j)]);
            assert(s[sp][0] != s[orig(j)][0]) by {
                if sp < orig(j) {
                    assert(s[sp][0] != s[orig(j)][0]);
                } else {
                    assert(s[orig(j)][0] != s[sp][0]);
                }
            }
        } else {
            assert(s2[i] == s[orig(i)]);
            assert(s2[j] == s[orig(j)]);
            if orig(i) < orig(j) {
                assert(s[orig(i)][0] != s[orig(j)][0]);
            } else {
                assert(s[orig(j)][0] != s[orig(i)][0]);
            }
        }
    }
    assert forall|k: int| 0 <= k < s2.len() implies c2.contains(#[trigger] s2[k]) by {
        if k == 0 {
            assert(c2[0] == s2[0]);
        } else {
            let m = orig(k);
            assert(s2[k] == s[m]);
            assert(c.contains(s[m]));
            let q = choose|q: int| 0 <= q < n && c[q] == s[m];
            assert(s[0][0] != s[m][0]);
            if q == n - 1 {
                if sp < m {
                    assert(s[sp][0] != s[m][0]);
                } else {
                    assert(s[m][0] != s[sp][0]);
                }
            }
            assert(q != 0 && q != n - 1);
            assert(c2[q] == c[q]);
        }
    }
    assert forall|i: int| 0 <= i < c2.len() implies s2.contains(#[trigger] c2[i]) by {
        if i == 0 {
            assert(s2[0] == c2[0]);
        } else {
            assert(c2[i] == c[i]);
            assert(s.contains(c[i]));
            let m = choose|m: int| 0 <= m < n && s[m] == c[i];
            assert(c[0][0] != c[i][0]);
            assert(c[i][0] != c[n - 1][0]);
            assert(m != 0 && m != sp);
            if m < n - 1 {
                assert(s2[m] == s[m]);
            } else {
                assert(s2[sp] == s[n - 1]);
            }
        }
    }
}

/// Joining the fragment at position 0 with the one at `sp` that starts where
/// it ends: the joined fragment takes the place of the two in the ring order,
/// and the fragments before `sp` stay where they are.
proof fn lemma_join_forward_step(s: Seq<Seq<TowerRingElement>>, c: Seq<Seq<TowerRingElement>>, sp: int)
    requires
        ring_order(c),
        same_fragments(s, c),
        c[0] == s[0],
        1 <= sp < s.len(),
        !fragments_reversed(s, 0, sp),
        fragments_meet(s, 0, sp),
    ensures
        ({
            let n = c.len() as int;
            let c2 = seq![glue(c[0], c[1])] + c.subrange(2, n);
            let s2 = join_at(s, 0, sp);
            &&& ring_order(c2)
            &&& same_fragments(s2, c2)
            &&& c2[0] == s2[0]
            &&& s2.len() == s.len() - 1
            &&& s2[0][0] == s[0][0]
            &&& forall|k: int| 1 <= k < sp && k < s2.len() ==> s2[k] == s[k]
        }),
{
    let n = c.len() as int;
    lemma_fragments_nonempty(s, c);
    let p = s[0];
    let q = s[sp];
    assert(p.len() > 0 && q.len() > 0);
    assert(p.last() == q[0]);
    assert(n >= 2);
    // the fragment that starts where the first ends is the next in ring order
    assert(links_to_next(c, 0));
    assert(ring_next(0, n) == 1);
    assert(c.contains(q));
    lemma_position_by_start(c, q, 1);
    assert(c[1] == q);
    let g = glue(p, q);
    lemma_glue_ends(p, q);
    let c2 = seq![g] + c.subrange(2, n);
    let s2 = s.update(sp, s.last()).drop_last().update(0, glue(s[0], s[sp]));
    assert(s2 == join_at(s, 0, sp));
    assert(s2[0] == g);
    assert(s2.len() == n - 1);
    assert forall|k: int| 1 <= k < n - 1 implies #[trigger] s2[k] == (if k == sp { s[n - 1] } else { s[k] }) by {}
    assert forall|i: int| 1 <= i < n - 1 implies #[trigger] c2[i] == c[i + 1] by {}
    assert(c2[0] == g);
    assert forall|i: int| 0 <= i < c2.len() implies #[trigger] c2[i].len() > 0 by {
        if i > 0 {
            assert(c2[i] == c[i + 1]);
            assert(c[i + 1].len() > 0);
        }
    }
    assert forall|i: int| 0 <= i < c2.len() implies #[trigger] links_to_next(c2, i) by {
        if i == 0 {
            assert(links_to_next(c, 1));
            if n - 1 >= 2 {
                assert(ring_next(1, n) == 2);
                assert(c2[1] == c[2]);
            } else {
                assert(ring_next(1, n) == 0);
            }
        } else {
            assert(c2[i] == c[i + 1]);
            assert(links_to_next(c, i + 1));
            if i + 1 < n - 1 {
                assert(c2[i + 1] == c[i + 2]);
            } else {
                assert(ring_next(i + 1, n) == 0);
            }
        }
    }
    assert forall|i: int, j: int| 0 <= i < j < c2.len() implies #[trigger] c2[i][0] != #[trigger] c2[j][0] by {
        assert(c2[j] == c[j + 1]);
        if i == 0 {
            assert(c[0][0] != c[j + 1][0]);
        } else {
            assert(c2[i] == c[i + 1]);
            assert(c[i + 1][0] != c[j + 1][0]);
        }
    }
    assert(ring_order(c2));
    let orig = |k: int| if k == sp { n - 1 } else { k };
    assert forall|i: int, j: int| 0 <= i < j < s2.len() implies #[trigger] s2[i][0] != #[trigger] s2[j][0] by {
        if i == 0 {
            assert(s2[j] == s[orig(j)]);
            assert(s[0][0] != s[orig(j)][0]);
        } else {
            assert(s2[i] == s[orig(i)]);
            assert(s2[j] == s[orig(j)]);
            if orig(i) < orig(j) {
                assert(s[orig(i)][0] != s[orig(j)][0]);
            } else {
                assert(s[orig(j)][0] != s[orig(i)][0]);
            }
        }
    }
    assert forall|k: int| 0 <= k < s2.len() implies c2.contains(#[trigger] s2[k]) by {
        if k == 0 {
            assert(c2[0] == s2[0]);
        } else {
            let m = orig(k);
            assert(s2[k] == s[m]);
            assert(c.contains(s[m]));
            let w = choose|w: int| 0 <= w < n && c[w] == s[m];
            assert(s[0][0] != s[m][0]);
            if w == 1 {
                if sp < m {
                    assert(s[sp][0] != s[m][0]);
                } else {
                    assert(s[m][0] != s[sp][0]);
                }
            }
            assert(w != 0 && w != 1);
            assert(c2[w - 1] == c[w]);
        }
    }
    assert forall|i: int| 0 <= i < c2.len() implies s2.contains(#[trigger] c2[i]) by {
        if i == 0 {
            assert(s2[0] == c2[0]);
        } else {
            assert(c2[i] == c[i + 1]);
            assert(s.contains(c[i + 1]));
            let m = choose|m: int| 0 <= m < n && s[m] == c[i + 1];
            assert(c[0][0] != c[i + 1][0]);
            assert(c[1][0] != c[i + 1][0]);
            assert(m != 0 && m != sp);
            if m < n - 1 {
                assert(s2[m] == s[m]);
            } else {
                assert(s2[sp] == s[n - 1]);
            }
        }
    }
}

proof fn lemma_scan_closes_ring(s: Seq<Seq<TowerRingElement>>, c: Seq<Seq<TowerRingElement>>, sp: int)
    requires
        scan_ready(s, c, sp),
    ensures
        join_scan(s, 0, sp).len() == 1,
        join_scan(s, 0, sp)[0].len() > 0,
        join_scan(s, 0, sp)[0][0] == join_scan(s, 0, sp)[0].last(),
    decreases s.len(), s.len() - sp,
{
    lemma_fragments_nonempty(s, c);
    let n = s.len() as int;
    if sp < n {
        if fragments_meet(s, 0, sp) {
            if fragments_reversed(s, 0, sp) {
                lemma_join_reversed_step(s, c, sp);
                let c2 = seq![glue(c[n - 1], c[0])] + c.subrange(1, n - 1);
                lemma_scan_closes_ring(join_at(s, 0, sp), c2, 1);
            } else {
                lemma_join_forward_step(s, c, sp);
                let c2 = seq![glue(c[0], c[1])] + c.subrange(2, n);
                let s2 = join_at(s, 0, sp);
                assert forall|k: int| 1 <= k < sp && k < s2.len() implies (#[trigger] s2[k]).last() != s2[0][0] by {
                    assert(s2[k] == s[k]);
                }
                lemma_scan_closes_ring(s2, c2, sp);
            }
        } else {
            assert(s[sp].last() != s[0][0]);
            lemma_scan_closes_ring(s, c, sp + 1);
        }
    } else {
        if n >= 2 {
            // the fragment that ends where the first starts has not been found
            assert(links_to_next(c, n - 1));
            assert(ring_next(n - 1, n) == 0);
            assert(s.contains(c[n - 1]));
            let k = choose|k: int| 0 <= k < n && s[k] == c[n - 1];
            assert(c[0][0] != c[n - 1][0]);
            assert(k != 0);
            assert(s[k].last() == s[0][0]);
            assert(false);
        }
        assert(links_to_next(c, 0));
    }
}

/// The ring order `c` turned to start with the first fragment of `s`.
proof fn lemma_rotate_to_first(s: Seq<Seq<TowerRingElement>>, c: Seq<Seq<TowerRingElement>>) -> (r: Seq<
    Seq<TowerRingElement>,
>)
    requires
        ring_order(c),
        same_fragments(s, c),
    ensures
        ring_order(r),
        same_fragments(s, r),
        r[0] == s[0],
{
    let n = c.len() as int;
    assert(c.contains(s[0]));
    let p = choose|p: int| 0 <= p < n && c[p] == s[0];
    let idx = |i: int| if i < n - p { i + p } else { i + p - n };
    let r = c.subrange(p, n) + c.subrange(0, p);
    assert(r.len() == n);
    assert forall|i: int| 0 <= i < n implies #[trigger] r[i] == c[idx(i)] by {}
    assert(r[0] == s[0]);
    assert forall|i: int| 0 <= i < r.len() implies #[trigger] r[i].len() > 0 by {
        assert(r[i] == c[idx(i)]);
    }
    assert forall|i: int| 0 <= i < r.len() implies #[trigger] links_to_next(r, i) by {
        assert(r[i] == c[idx(i)]);
        assert(links_to_next(c, idx(i)));
        let j = ring_next(i, n);
        assert(r[j] == c[idx(j)]);
        assert(idx(j) == ring_next(idx(i), n));
    }
    assert forall|i: int, j: int| 0 <= i < j < r.len() implies #[trigger] r[i][0] != #[trigger] r[j][0] by {
        assert(r[i] == c[idx(i)]);
        assert(r[j] == c[idx(j)]);
        if idx(i) < idx(j) {
            assert(c[idx(i)][0] != c[idx(j)][0]);
        } else {
            assert(c[idx(j)][0] != c[idx(i)][0]);
        }
    }
    assert forall|k: int| 0 <= k < s.len() implies r.contains(#[trigger] s[k]) by {
        assert(c.contains(s[k]));
        let q = choose|q: int| 0 <= q < n && c[q] == s[k];
        let i = if q >= p { q - p } else { q + n - p };
        assert(r[i] == c[idx(i)]);
    }
    assert forall|i: int| 0 <= i < r.len() implies s.contains(#[trigger] r[i]) by {
        assert(r[i] == c[idx(i)]);
        assert(s.contains(c[idx(i)]));
    }
    r
}

proof fn lemma_join_pass_single(s: Seq<Seq<TowerRingElement>>, fp: int, n: int)
    requires
        s.len() == 1,
        fp >= 1,
    ensures
        join_pass(s, fp, n) == s,
    decreases n - fp,
{
    if fp < n {
        lemma_join_pass_single(s, fp + 1, n);
    }
}

/// Fragments that chain into one closed ring, in any order, are joined into
/// that one ring: when the fragments of `s` are those of a ring order `c`
/// (each ends with the element the next one starts with, the last with the
/// element the first starts with, none starting like another), joining gives
/// exactly one fragment, which ends with the element it starts with and holds
/// every element once, but for the one where it closes.
pub proof fn lemma_fragments_of_one_ring_join_into_it(
    s: Seq<Seq<TowerRingElement>>,
    c: Seq<Seq<TowerRingElement>>,
)
    requires
        ring_order(c),
        same_fragments(s, c),
    ensures
        join_all(s).len() == 1,
        join_all(s)[0].len() > 0,
        join_all(s)[0][0] == join_all(s)[0].last(),
        join_all(s)[0].len() == total_len(s) - s.len() + 1,
{
    let n = s.len() as int;
    lemma_fragments_nonempty(s, c);
    let r = lemma_rotate_to_first(s, c);
    lemma_scan_closes_ring(s, r, 1);
    lemma_join_pass_single(join_scan(s, 0, 1), 1, n);
    assert(join_all(s) == join_scan(s, 0, 1));
    assert(at_most_one_empty(s));
    lemma_join_all_preserves_elements(s);
    let j = join_all(s);
    assert(total_len(j) == j[0].len()) by {
        assert(j.drop_last().len() == 0);
        reveal_with_fuel(total_len, 2);
    }
}

/// All rings of the list have at least one element.
pub open spec fn all_nonempty(s: Seq<Seq<TowerRingElement>>) -> bool {
    forall|i: int| 0 <= i < s.len() ==> #[trigger] s[i].len() > 0
}

proof fn lemma_join_scan_nonempty(s: Seq<Seq<TowerRingElement>>, fp: int, sp: int)
    requires
        all_nonempty(s),
    ensures
        all_nonempty(join_scan(s, fp, sp)),
    decreases s.len(), s.len() - sp,
{
    if 0 <= fp < sp < s.len() {
        if fragments_meet(s, fp, sp) {
            let r = join_at(s, fp, sp);
            assert(all_nonempty(r));
            let next = if fragments_reversed(s, fp, sp) {
                fp + 1
            } else {
                sp
            };
            lemma_join_scan_nonempty(r, fp, next);
        } else {
            lemma_join_scan_nonempty(s, fp, sp + 1);
        }
    }
}

proof fn lemma_join_pass_nonempty(s: Seq<Seq<TowerRingElement>>, fp: int, n: int)
    requires
        all_nonempty(s),
    ensures
        all_nonempty(join_pass(s, fp, n)),
    decreases n - fp,
{
    if fp < n {
        lemma_join_scan_nonempty(s, fp, fp + 1);
        lemma_join_pass_nonempty(join_scan(s, fp, fp + 1), fp + 1, n);
    }
}

/// Joining fragments that all hold elements gives fragments that all hold elements.
pub proof fn lemma_join_all_nonempty(s: Seq<Seq<TowerRingElement>>)
    requires
        all_nonempty(s),
    ensures
        all_nonempty(join_all(s)),
{
    lemma_join_pass_nonempty(s, 0, s.len() as int);
}

/// How a triangle meets a vertex of the tower, seen from that vertex.
#[derive(Clone, Copy, Debug, PartialEq, Eq, Structural)]
pub enum TriangleEvent {
    /// The vertex is the lowest of the triangle; both edges leave it upwards.
    MiddleVertex { leading_edge: usize, triangle: usize, trailing_edge: usize },
    /// The vertex is the middle one and the remaining edge leads the face.
    LeadingEdge { leading_edge: usize, triangle: usize },
    /// The vertex is the middle one and the remaining edge trails the face.
    TrailingEdge { triangle: usize, trailing_edge: usize },
}

/// The ring fragment that a triangle event starts at vertex `v`.
pub open spec fn event_ring(e: TriangleEvent, v: usize) -> Seq<TowerRingElement> {
    match e {
        TriangleEvent::LeadingEdge { leading_edge, triangle } => seq![
            TowerRingElement::Edge { start_index: v, end_index: leading_edge },
            TowerRingElement::Face { triangle_index: triangle },
        ],
        TriangleEvent::TrailingEdge { triangle, trailing_edge } => seq![
            TowerRingElement::Face { triangle_index: triangle },
            TowerRingElement::Edge { start_index: v, end_index: trailing_edge },
        ],
        TriangleEvent::MiddleVertex { leading_edge, triangle, trailing_edge } => seq![
            TowerRingElement::Edge { start_index: v, end_index: leading_edge },
            TowerRingElement::Face { triangle_index: triangle },
            TowerRingElement::Edge { start_index: v, end_index: trailing_edge },
        ],
    }
}

/// The fragments started at vertex `v` by a list of triangle events.
pub open spec fn event_rings(events: Seq<TriangleEvent>, v: usize) -> Seq<Seq<TowerRingElement>> {
    events.map_values(|e: TriangleEvent| event_ring(e, v))
}

/// The fragment of one event, as a ring.
fn event_to_ring(e: &TriangleEvent, v: usize) -> (r: TowerRing)
    ensures
        r@ == event_ring(*e, v),
{
    let mut elements: Vec<TowerRingElement> = Vec::new();
    match *e {
        TriangleEvent::LeadingEdge { leading_edge, triangle } => {
            elements.push(TowerRingElement::Edge { start_index: v, end_index: leading_edge });
            elements.push(TowerRingElement::Face { triangle_index: triangle });
        },
        TriangleEvent::TrailingEdge { triangle, trailing_edge } => {
            elements.push(TowerRingElement::Face { triangle_index: triangle });
            elements.push(TowerRingElement::Edge { start_index: v, end_index: trailing_edge });
        },
        TriangleEvent::MiddleVertex { leading_edge, triangle, trailing_edge } => {
            elements.push(TowerRingElement::Edge { start_index: v, end_index: leading_edge });
            elements.push(TowerRingElement::Face { triangle_index: triangle });
            elements.push(TowerRingElement::Edge { start_index: v, end_index: trailing_edge });
        },
    }
    let r = TowerRing { elements };
    assert(r@ == event_ring(*e, v));
    r
}

/// The ring fragments that start at vertex `starting_point`, joined where
/// they meet.
pub fn join_triangle_event(events: &[TriangleEvent], starting_point: usize) -> (rings: Vec<
    TowerRing,
>)
    ensures
        rings_view(rings@) == join_all(event_rings(events@, starting_point)),
        all_nonempty(rings_view(rings@)),
{
    let mut element_list: Vec<TowerRing> = Vec::new();
    let mut i: usize = 0;
    while i < events.len()
        invariant
            i <= events@.len(),
            rings_view(element_list@) == event_rings(events@.take(i as int), starting_point),
        decreases events@.len() - i,
    {
        let ghost before = rings_view(element_list@);
        element_list.push(event_to_ring(&events[i], starting_point));
        assert(events@.take(i + 1) == events@.take(i as int).push(events@[i as int]));
        assert(rings_view(element_list@) == before.push(event_ring(events@[i as int], starting_point)));
        i = i + 1;
    }
    assert(events@.take(events@.len() as int) == events@);
    let ghost start = rings_view(element_list@);
    assert(all_nonempty(start));
    assert(at_most_one_empty(start));
    join_fragments(&mut element_list);
    proof {
        lemma_join_all_nonempty(start);
    }
    element_list
}


/// The events that triangle number `ti`, with vertex indices `t`, adds to
/// vertex `v`. The first index of a triangle is its lowest vertex; of the
/// other two, the lower one gets the event of the remaining edge.
pub open spec fn triangle_events_at(t: Seq<usize>, ti: usize, keys: Seq<u64>, v: usize) -> Seq<
    TriangleEvent,
> {
    let mid: Seq<TriangleEvent> = if t[0] == v {
        seq![TriangleEvent::MiddleVertex { leading_edge: t[2], triangle: ti, trailing_edge: t[1] }]
    } else {
        Seq::empty()
    };
    if keys[t[1] as int] < keys[t[2] as int] {
        if t[1] == v {
            mid.push(TriangleEvent::TrailingEdge { triangle: ti, trailing_edge: t[2] })
        } else {
            mid
        }
    } else {
        if t[2] == v {
            mid.push(TriangleEvent::LeadingEdge { leading_edge: t[1], triangle: ti })
        } else {
            mid
        }
    }
}

/// The events of all triangles at vertex `v`, in triangle order.
pub open spec fn vertex_events(tris: Seq<IndexedTriangle>, keys: Seq<u64>, v: usize) -> Seq<
    TriangleEvent,
>
    decreases tris.len(),
{
    if tris.len() == 0 {
        Seq::empty()
    } else {
        vertex_events(tris.drop_last(), keys, v) + triangle_events_at(
            tris.last().verts@,
            (tris.len() - 1) as usize,
            keys,
            v,
        )
    }
}

/// The fragments that start at vertex `v`.
pub open spec fn vertex_fragments(tris: Seq<IndexedTriangle>, keys: Seq<u64>, v: usize) -> Seq<
    Seq<TowerRingElement>,
> {
    join_all(event_rings(vertex_events(tris, keys, v), v))
}

/// Every vertex index of every triangle is an index into the vertex list.
pub open spec fn triangles_in_range(tris: Seq<IndexedTriangle>, n: int) -> bool {
    forall|t: int, k: int| 0 <= t < tris.len() && 0 <= k < 3 ==> #[trigger] tris[t].verts@[k] < n
}

/// A vertex of the tower: the mesh vertex and the ring fragments that start at it.
pub struct TowerVertex {
    pub next_ring_fragments: Vec<TowerRing>,
    pub start_index: usize,
}

/// A set of triangles ordered into tower vertices, from the lowest vertex upwards.
pub struct TriangleTower {
    tower_vertices: Vec<TowerVertex>,
}

impl View for TriangleTower {
    /// For each tower vertex from the lowest: the mesh vertex and its fragments.
    type V = Seq<(usize, Seq<Seq<TowerRingElement>>)>;

    closed spec fn view(&self) -> Seq<(usize, Seq<Seq<TowerRingElement>>)> {
        self.tower_vertices@.map_values(
            |tv: TowerVertex| (tv.start_index, rings_view(tv.next_ring_fragments@)),
        )
    }
}

impl TriangleTower {
    /// Every fragment of every tower vertex holds elements.
    pub open spec fn wf(&self) -> bool {
        forall|j: int| 0 <= j < self@.len() ==> all_nonempty(#[trigger] self@[j].1)
    }

    /// Builds the tower of a mesh. `vertex_keys` orders the vertices: one key
    /// per vertex, its rank among the distinct vertex positions.
    pub fn from_triangles_and_vertices(
        triangles: &[IndexedTriangle],
        vertex_keys: &[u64],
    ) -> (r: Result<Self, SlicerErrors>)
        requires
            keys_are_ranks(vertex_keys@),
            triangles_in_range(triangles@, vertex_keys@.len() as int),
        ensures
            r is Ok,
            r matches Ok(tower) ==> {
                &&& tower@.len() == vertex_keys@.len()
                &&& tower.wf()
                &&& forall|j: int|
                    0 <= j < tower@.len() ==> {
                        &&& (#[trigger] tower@[j]).0 == buckets_below(
                            vertex_keys@,
                            vertex_keys@.len() as int,
                        )[j]
                        &&& tower@[j].1 == vertex_fragments(triangles@, vertex_keys@, tower@[j].0)
                    }
            },
    {
        let n = vertex_keys.len();
        let ghost tris = triangles@;
        let ghost keys = vertex_keys@;
        let mut future: Vec<Vec<TriangleEvent>> = Vec::new();
        let mut v: usize = 0;
        while v < n
            invariant
                v <= n,
                n == keys.len(),
                future@.len() == v,
                forall|k: int| 0 <= k < v ==> (#[trigger] future@[k])@ == Seq::<TriangleEvent>::empty(),
            decreases n - v,
        {
            future.push(Vec::new());
            v = v + 1;
        }
        assert forall|k: int| 0 <= k < n implies (#[trigger] future@[k])@ == vertex_events(
            tris.take(0),
            keys,
            k as usize,
        ) by {}
        let mut ti: usize = 0;
        while ti < triangles.len()
            invariant
                ti <= tris.len(),
                n == keys.len(),
                tris == triangles@,
                keys == vertex_keys@,
                triangles_in_range(tris, n as int),
                future@.len() == n,
                forall|k: int| 0 <= k < n ==> (#[trigger] future@[k])@ == vertex_events(
                    tris.take(ti as int),
                    keys,
                    k as usize,
                ),
            decreases tris.len() - ti,
        {
            let tri = triangles[ti];
            assert(tris.take(ti + 1).drop_last() == tris.take(ti as int));
            assert(tris.take(ti + 1).last() == tri);
            let v0 = tri.verts[0];
            let v1 = tri.verts[1];
            let v2 = tri.verts[2];
            assert(tri.verts@[0] < n && tri.verts@[1] < n && tri.verts@[2] < n) by {
                assert(tris[ti as int] == tri);
            }
            let ghost before = future@;
            future[v0].push(
                TriangleEvent::MiddleVertex { trailing_edge: v1, leading_edge: v2, triangle: ti },
            );
            let ghost mid = future@;
            if vertex_keys[v1] < vertex_keys[v2] {
                future[v1].push(TriangleEvent::TrailingEdge { trailing_edge: v2, triangle: ti });
            } else {
                future[v2].push(TriangleEvent::LeadingEdge { leading_edge: v1, triangle: ti });
            }
            assert forall|k: int| 0 <= k < n implies (#[trigger] future@[k])@ == vertex_events(
                tris.take(ti + 1),
                keys,
                k as usize,
            ) by {
                assert(vertex_events(tris.take(ti + 1), keys, k as usize) == vertex_events(
                    tris.take(ti as int),
                    keys,
                    k as usize,
                ) + triangle_events_at(tri.verts@, ti, keys, k as usize));
            }
            ti = ti + 1;
        }
        assert(tris.take(tris.len() as int) == tris);
        let order = vertex_order(vertex_keys);
        let mut tower_vertices: Vec<TowerVertex> = Vec::new();
        let mut j: usize = 0;
        while j < n
            invariant
                j <= n,
                n == keys.len(),
                keys == vertex_keys@,
                tris == triangles@,
                order@ == buckets_below(keys, n as int),
                order@.len() == n,
                forall|q: int| 0 <= q < n ==> #[trigger] order@[q] < n,
                future@.len() == n,
                forall|k: int| 0 <= k < n ==> (#[trigger] future@[k])@ == vertex_events(
                    tris,
                    keys,
                    k as usize,
                ),
                tower_vertices@.len() == j,
                forall|q: int|
                    0 <= q < j ==> {
                        &&& (#[trigger] tower_vertices@[q]).start_index == order@[q]
                        &&& rings_view(tower_vertices@[q].next_ring_fragments@) == vertex_fragments(
                            tris,
                            keys,
                            order@[q],
                        )
                        &&& all_nonempty(rings_view(tower_vertices@[q].next_ring_fragments@))
                    },
            decreases n - j,
        {
            let start = order[j];
            let fragments = join_triangle_event(future[start].as_slice(), start);
            tower_vertices.push(TowerVertex { next_ring_fragments: fragments, start_index: start });
            j = j + 1;
        }
        let tower = TriangleTower { tower_vertices };
        assert forall|q: int| 0 <= q < tower@.len() implies all_nonempty(#[trigger] tower@[q].1) by {
            assert(tower@[q] == (
                tower.tower_vertices@[q].start_index,
                rings_view(tower.tower_vertices@[q].next_ring_fragments@),
            ));
        }
        Ok(tower)
    }

    /// The number of tower vertices.
    pub fn len(&self) -> (n: usize)
        ensures
            n == self@.len(),
    {
        self.tower_vertices.len()
    }

    /// The mesh vertex of the tower vertex at position `j`.
    pub fn start_index(&self, j: usize) -> (v: usize)
        requires
            j < self@.len(),
        ensures
            v == self@[j as int].0,
    {
        self.tower_vertices[j].start_index
    }
}


/// The fragments of all rings of a list once vertex `v` has been passed.
pub open spec fn split_all(rings: Seq<Seq<TowerRingElement>>, v: usize) -> Seq<
    Seq<TowerRingElement>,
>
    decreases rings.len(),
{
    if rings.len() == 0 {
        Seq::empty()
    } else {
        split_all(rings.drop_last(), v) + split_on_vertex(rings.last(), v)
    }
}

proof fn lemma_keep_long(s: Seq<Seq<TowerRingElement>>)
    ensures
        forall|i: int| 0 <= i < keep_long(s).len() ==> #[trigger] keep_long(s)[i].len() > 1,
    decreases s.len(),
{
    if s.len() > 0 {
        lemma_keep_long(s.drop_last());
        let r = keep_long(s.drop_last());
        if s.last().len() > 1 {
            assert(keep_long(s) == r.push(s.last()));
            assert forall|i: int| 0 <= i < keep_long(s).len() implies #[trigger] keep_long(s)[i].len()
                > 1 by {
                if i < r.len() {
                    assert(keep_long(s)[i] == r[i]);
                }
            }
        }
    }
}

proof fn lemma_split_all_nonempty(rings: Seq<Seq<TowerRingElement>>, v: usize)
    ensures
        all_nonempty(split_all(rings, v)),
    decreases rings.len(),
{
    if rings.len() > 0 {
        lemma_split_all_nonempty(rings.drop_last(), v);
        lemma_keep_long(split_glued(rings.last(), v));
        let a = split_all(rings.drop_last(), v);
        let b = split_on_vertex(rings.last(), v);
        assert forall|i: int| 0 <= i < (a + b).len() implies #[trigger] (a + b)[i].len() > 0 by {
            if i >= a.len() {
                assert((a + b)[i] == b[i - a.len()]);
            }
        }
    }
}

/// Whether every ring of the list is closed.
fn all_complete(rings: &Vec<TowerRing>) -> (b: bool)
    ensures
        b <==> forall|i: int| 0 <= i < rings@.len() ==> is_complete(#[trigger] rings_view(rings@)[i]),
{
    let mut q: usize = 0;
    while q < rings.len()
        invariant
            q <= rings@.len(),
            forall|w: int| 0 <= w < q ==> is_complete(#[trigger] rings_view(rings@)[w]),
        decreases rings@.len() - q,
    {
        if !rings[q].is_complete_ring() {
            assert(!is_complete(rings_view(rings@)[q as int]));
            return false;
        }
        q = q + 1;
    }
    true
}

/// A copy of a ring.
fn copy_ring(r: &TowerRing) -> (c: TowerRing)
    ensures
        c@ == r@,
{
    let mut elements: Vec<TowerRingElement> = Vec::new();
    let mut i: usize = 0;
    while i < r.elements.len()
        invariant
            i <= r@.len(),
            elements@ == r@.take(i as int),
        decreases r@.len() - i,
    {
        elements.push(r.elements[i]);
        assert(r@.take(i + 1) == r@.take(i as int).push(r@[i as int]));
        i = i + 1;
    }
    assert(r@.take(r@.len() as int) == r@);
    TowerRing { elements }
}

/// The pairs of mesh vertices of the edges of a ring, in ring order.
pub open spec fn ring_edges(s: Seq<TowerRingElement>) -> Seq<(usize, usize)>
    decreases s.len(),
{
    if s.len() == 0 {
        Seq::empty()
    } else {
        match s.last() {
            TowerRingElement::Edge { start_index, end_index } => ring_edges(s.drop_last()).push(
                (start_index, end_index),
            ),
            TowerRingElement::Face { .. } => ring_edges(s.drop_last()),
        }
    }
}

/// The edges of a ring as a closed loop: the first edge is repeated at the end.
pub open spec fn edge_loop(s: Seq<TowerRingElement>) -> Seq<(usize, usize)> {
    let edges = ring_edges(s);
    if edges.len() > 0 {
        edges.push(edges[0])
    } else {
        edges
    }
}

/// Walks a tower from the lowest vertex upwards and keeps the rings that the
/// slicing plane cuts between the last vertex passed and the next one.
pub struct TriangleTowerIterator<'s> {
    tower: &'s TriangleTower,
    tower_vert_index: usize,
    active_rings: Vec<TowerRing>,
}

impl<'s> TriangleTowerIterator<'s> {
    /// The tower that is walked.
    pub closed spec fn tower_view(&self) -> Seq<(usize, Seq<Seq<TowerRingElement>>)> {
        self.tower@
    }

    /// The number of tower vertices passed so far.
    pub closed spec fn index(&self) -> int {
        self.tower_vert_index as int
    }

    /// The current rings.
    pub closed spec fn rings(&self) -> Seq<Seq<TowerRingElement>> {
        rings_view(self.active_rings@)
    }

    /// The walk is consistent: the tower's fragments and the current rings all
    /// hold elements, and no more vertices were passed than the tower has.
    pub closed spec fn wf(&self) -> bool {
        &&& self.tower.wf()
        &&& all_nonempty(rings_view(self.active_rings@))
        &&& self.tower_vert_index <= self.tower@.len()
    }

    /// A walk at the bottom of the tower, below its lowest vertex.
    pub fn new(tower: &'s TriangleTower) -> (it: Self)
        requires
            tower.wf(),
        ensures
            it.wf(),
            it.tower_view() == tower@,
            it.index() == 0,
            it.rings() == Seq::<Seq<TowerRingElement>>::empty(),
    {
        let it = TriangleTowerIterator { tower, tower_vert_index: 0, active_rings: Vec::new() };
        assert(rings_view(it.active_rings@) == Seq::<Seq<TowerRingElement>>::empty());
        it
    }

    /// The number of tower vertices passed so far.
    pub fn get_index(&self) -> (i: usize)
        ensures
            i == self.index(),
    {
        self.tower_vert_index
    }

    /// Whether every vertex of the tower has been passed.
    pub fn is_finished(&self) -> (b: bool)
        ensures
            b == (self.index() >= self.tower_view().len()),
    {
        self.tower_vert_index >= self.tower.len()
    }

    /// The mesh vertex that will be passed next, if any is left.
    pub fn next_vertex(&self) -> (v: Option<usize>)
        ensures
            v == (if self.index() < self.tower_view().len() {
                Some(self.tower_view()[self.index()].0)
            } else {
                None::<usize>
            }),
    {
        if self.tower_vert_index < self.tower.len() {
            Some(self.tower.start_index(self.tower_vert_index))
        } else {
            None
        }
    }

    /// Passes the next vertex of the tower: every ring is cut at the edges that
    /// end at that vertex, the fragments that start at the vertex are added, and
    /// fragments that meet are joined. Fails when a ring is left open.
    #[verifier::spinoff_prover]
    pub fn advance_past_next_vertex(&mut self) -> (r: Result<(), SlicerErrors>)
        requires
            old(self).wf(),
            old(self).index() < old(self).tower_view().len(),
        ensures
            final(self).wf(),
            final(self).tower_view() == old(self).tower_view(),
            final(self).index() == old(self).index() + 1,
            final(self).rings() == join_all(
                split_all(old(self).rings(), old(self).tower_view()[old(self).index()].0)
                    + old(self).tower_view()[old(self).index()].1,
            ),
            r is Ok <==> forall|i: int|
                0 <= i < final(self).rings().len() ==> is_complete(#[trigger] final(self).rings()[i]),
            r is Err ==> r == Err::<(), SlicerErrors>(SlicerErrors::TowerGeneration),
    {
        let ghost old_rings = rings_view(self.active_rings@);
        let tower = self.tower;
        let idx = self.tower_vert_index;
        let tower_len = tower.tower_vertices.len();
        assert(idx < tower_len);
        let ghost old_tower = old(self).tower;
        assert(old_tower == tower);
        let pop_vertex = &tower.tower_vertices[idx];
        let vertex = pop_vertex.start_index;
        assert(tower@[idx as int] == (vertex, rings_view(pop_vertex.next_ring_fragments@)));
        assert(all_nonempty(tower@[idx as int].1));
        assert(tower@.len() == tower.tower_vertices@.len());
        let mut old_active: Vec<TowerRing> = Vec::new();
        std::mem::swap(&mut old_active, &mut self.active_rings);
        let mut rings: Vec<TowerRing> = Vec::new();
        let mut i: usize = 0;
        while i < old_active.len()
            invariant
                i <= old_active@.len(),
                old_active@.len() == old_rings.len(),
                forall|k: int| i <= k < old_active@.len() ==> (#[trigger] old_active@[k])@ == old_rings[k],
                rings_view(rings@) == split_all(old_rings.take(i as int), vertex),
            decreases old_active@.len() - i,
        {
            let mut ring = TowerRing { elements: Vec::new() };
            std::mem::swap(&mut ring, &mut old_active[i]);
            let ghost before = rings_view(rings@);
            let mut pieces = ring.split_on_edge(vertex);
            let ghost pv = rings_view(pieces@);
            rings.append(&mut pieces);
            assert(rings_view(rings@) == before + pv);
            assert(old_rings.take(i + 1).drop_last() == old_rings.take(i as int));
            i = i + 1;
        }
        assert(old_rings.take(old_rings.len() as int) == old_rings);
        let ghost split = rings_view(rings@);
        let frags = &pop_vertex.next_ring_fragments;
        let mut k: usize = 0;
        while k < frags.len()
            invariant
                k <= frags@.len(),
                rings_view(rings@) == split + rings_view(frags@).take(k as int),
            decreases frags@.len() - k,
        {
            let ghost before = rings_view(rings@);
            rings.push(copy_ring(&frags[k]));
            assert(rings_view(frags@).take(k + 1) == rings_view(frags@).take(k as int).push(
                frags@[k as int]@,
            ));
            assert(rings_view(rings@) == before.push(frags@[k as int]@));
            k = k + 1;
        }
        assert(rings_view(frags@).take(frags@.len() as int) == rings_view(frags@));
        let ghost joined_from = rings_view(rings@);
        proof {
            lemma_split_all_nonempty(old_rings, vertex);
            assert(all_nonempty(rings_view(frags@)));
            assert forall|q: int| 0 <= q < joined_from.len() implies #[trigger] joined_from[q].len()
                > 0 by {
                if q >= split.len() {
                    assert(joined_from[q] == rings_view(frags@)[q - split.len()]);
                }
            }
        }
        join_fragments(&mut rings);
        proof {
            lemma_join_all_nonempty(joined_from);
        }
        self.active_rings = rings;
        self.tower_vert_index = idx + 1;
        let complete = all_complete(&self.active_rings);
        proof {
            assert(self.rings() == rings_view(self.active_rings@));
            assert(complete <==> forall|q: int|
                0 <= q < self.rings().len() ==> is_complete(#[trigger] self.rings()[q]));
        }
        if complete {
            Ok(())
        } else {
            Err(SlicerErrors::TowerGeneration)
        }
    }

    /// The edges of every current ring as a closed loop of mesh-vertex pairs;
    /// cutting each edge with the slicing plane gives the outline points.
    pub fn get_edge_loops(&self) -> (loops: Vec<Vec<(usize, usize)>>)
        ensures
            loops@.len() == self.rings().len(),
            forall|i: int| 0 <= i < loops@.len() ==> (#[trigger] loops@[i])@ == edge_loop(self.rings()[i]),
    {
        let mut loops: Vec<Vec<(usize, usize)>> = Vec::new();
        let mut i: usize = 0;
        while i < self.active_rings.len()
            invariant
                i <= self.active_rings@.len(),
                loops@.len() == i,
                forall|k: int| 0 <= k < i ==> (#[trigger] loops@[k])@ == edge_loop(self.active_rings@[k]@),
            decreases self.active_rings@.len() - i,
        {
            let ring = &self.active_rings[i];
            let mut edges: Vec<(usize, usize)> = Vec::new();
            let mut j: usize = 0;
            while j < ring.elements.len()
                invariant
                    j <= ring@.len(),
                    edges@ == ring_edges(ring@.take(j as int)),
                decreases ring@.len() - j,
            {
                assert(ring@.take(j + 1).drop_last() == ring@.take(j as int));
                match ring.elements[j] {
                    TowerRingElement::Edge { start_index, end_index } => {
                        edges.push((start_index, end_index));
                    },
                    TowerRingElement::Face { .. } => {},
                }
                j = j + 1;
            }
            assert(ring@.take(ring@.len() as int) == ring@);
            if edges.len() > 0 {
                let first = edges[0];
                edges.push(first);
            }
            loops.push(edges);
            i = i + 1;
        }
        loops
    }
}

} // verus!
