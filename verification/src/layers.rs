//! Index arithmetic of the layer passes, and the split of a print time.
use vstd::prelude::*;

verus! {

/// The layers whose areas decide the solid part of layer `layer`: the
/// `below` range of layers under it and the `above` range of layers over it,
/// each as a start and an end that is not included (`None` when that side
/// has no solid layers).
#[derive(Clone, Copy, Debug, PartialEq, Eq)]
pub struct LayerNeighbours {
    pub layer: usize,
    pub below: Option<(usize, usize)>,
    pub above: Option<(usize, usize)>,
}

/// The neighbours of layer `q`: the `bottom` layers just under it and the
/// `top` layers just over it.
pub open spec fn neighbours_of(q: int, top: int, bottom: int) -> LayerNeighbours {
    LayerNeighbours {
        layer: q as usize,
        below: if bottom != 0 {
            Some(((q - bottom) as usize, q as usize))
        } else {
            None
        },
        above: if top != 0 {
            Some(((q + 1) as usize, (q + top + 1) as usize))
        } else {
            None
        },
    }
}

/// The neighbours of every layer from `bottom` up to, but not including,
/// `count - top`; none when that leaves no layer.
pub open spec fn neighbour_list(count: nat, top: nat, bottom: nat) -> Seq<LayerNeighbours> {
    if count > bottom + top {
        Seq::new((count - top - bottom) as nat, |k: int| neighbours_of(bottom + k, top as int, bottom as int))
    } else {
        Seq::empty()
    }
}

/// Whether layer `layer` of `count` is one of the `bottom` first or `top`
/// last layers.
pub open spec fn solid_layer(layer: nat, count: nat, top: nat, bottom: nat) -> bool {
    layer < bottom || top + layer + 1 > count
}

/// Finds, for each layer that is not itself one of the `bottom` first or
/// `top` last layers, the layers under and over it whose common area must be
/// printed solid in it. Nothing when the layers are too few to leave one
/// layer that is not solid.
pub fn solid_layer_neighbours(count: usize, top: usize, bottom: usize) -> (r: Vec<LayerNeighbours>)
    ensures
        r@ == neighbour_list(count as nat, top as nat, bottom as nat),
{
    let mut r: Vec<LayerNeighbours> = Vec::new();
    if count > bottom && count - bottom > top {
        let end = count - top;
        let mut q = bottom;
        while q < end
            invariant
                bottom <= q <= end,
                end == count - top,
                count > bottom + top,
                r@.len() == q - bottom,
                forall|k: int|
                    0 <= k < r@.len() ==> #[trigger] r@[k] == neighbours_of(bottom + k, top as int, bottom as int),
            decreases end - q,
        {
            let below = if bottom != 0 {
                Some((q - bottom, q))
            } else {
                None
            };
            let above = if top != 0 {
                Some((q + 1, q + top + 1))
            } else {
                None
            };
            r.push(LayerNeighbours { layer: q, below, above });
            q = q + 1;
        }
    }
    assert(r@ == neighbour_list(count as nat, top as nat, bottom as nat));
    r
}

/// Whether layer `layer` of `count` is printed solid: it is one of the
/// `bottom` first layers or one of the `top` last layers.
pub fn is_solid_layer(layer: usize, count: usize, top: usize, bottom: usize) -> (b: bool)
    requires
        layer < count,
    ensures
        b == solid_layer(layer as nat, count as nat, top as nat, bottom as nat),
{
    layer < bottom || top > count - layer - 1
}

/// A print time in whole seconds as hours, minutes and seconds.
pub fn hours_minutes_seconds(total_time: usize) -> (r: (usize, usize, usize))
    ensures
        r.0 == total_time / 3600,
        r.1 == (total_time % 3600) / 60,
        r.2 == total_time % 60,
        r.0 * 3600 + r.1 * 60 + r.2 == total_time,
        r.1 < 60,
        r.2 < 60,
{
    let h = total_time / 3600;
    let m = (total_time % 3600) / 60;
    let s = total_time % 60;
    assert(h * 3600 + m * 60 + s == total_time) by (nonlinear_arith)
        requires
            h == total_time / 3600,
            m == (total_time % 3600) / 60,
            s == total_time % 60,
    {
        assert(total_time == h * 3600 + total_time % 3600);
        assert(total_time % 3600 == m * 60 + (total_time % 3600) % 60);
        assert((total_time % 3600) % 60 == total_time % 60);
    }
    (h, m, s)
}

/// Every layer of the print is either printed solid or gets its neighbours,
/// and not both: the layers with neighbours are exactly the layers that are
/// not solid, in order, when some layer is not solid.
pub proof fn lemma_neighbours_cover_the_layers_not_solid(count: nat, top: nat, bottom: nat, q: nat)
    requires
        q < count <= usize::MAX,
    ensures
        !solid_layer(q, count, top, bottom) <==> exists|k: int|
            0 <= k < neighbour_list(count, top, bottom).len() && #[trigger] neighbour_list(
                count,
                top,
                bottom,
            )[k].layer == q,
        !solid_layer(q, count, top, bottom) ==> neighbour_list(count, top, bottom)[q - bottom].layer
            == q,
{
    let l = neighbour_list(count, top, bottom);
    if !solid_layer(q, count, top, bottom) {
        assert(count > bottom + top);
        assert(l[q - bottom] == neighbours_of(q as int, top as int, bottom as int));
        assert(l[q - bottom].layer == q);
    }
    if exists|k: int| 0 <= k < l.len() && #[trigger] l[k].layer == q {
        let k = choose|k: int| 0 <= k < l.len() && #[trigger] l[k].layer == q;
        assert(count > bottom + top);
        assert(bottom + k < count);
        assert(l[k] == neighbours_of(bottom + k, top as int, bottom as int));
        assert(l[k].layer == bottom + k);
    }
}

} // verus!
