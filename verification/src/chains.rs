//! Turning the move chains of one layer into commands: the order the free
//! chains are printed in, and the single chain of moves that joins them.
use crate::commands::{chain_commands, Command, Coord, Move, MoveChain, MoveType, StateChange};
use crate::settings::LayerSettings;
use vstd::prelude::*;

verus! {

/// A travel move to `c`, which extrudes nothing.
pub open spec fn travel_to(c: Coord) -> Move {
    Move { end: c, width: 0, move_type: MoveType::Travel }
}

/// The moves of several chains as one: before the moves of each chain, a
/// travel to the chain's start point.
pub open spec fn joined_moves(chains: Seq<MoveChain>) -> Seq<Move>
    decreases chains.len(),
{
    if chains.len() == 0 {
        Seq::empty()
    } else {
        joined_moves(chains.drop_last()).push(travel_to(chains.last().start_point)) + chains.last().moves@
    }
}

/// The commands of a layer: nothing when there is no fixed chain; otherwise
/// the commands of one chain, starting at the first fixed chain's start
/// point, that runs through the fixed chains and then the other chains.
pub open spec fn layer_commands(
    fixed_chains: Seq<MoveChain>,
    chains: Seq<MoveChain>,
    settings: LayerSettings,
    layer_thickness: u64,
) -> Seq<Command> {
    if fixed_chains.len() == 0 {
        Seq::empty()
    } else {
        chain_commands(
            fixed_chains[0].start_point,
            joined_moves(fixed_chains + chains),
            settings,
            layer_thickness,
        )
    }
}

fn append_joined(all: &[MoveChain], out: &mut Vec<Move>)
    ensures
        final(out)@ == old(out)@ + joined_moves(all@),
{
    let ghost start = out@;
    let mut k: usize = 0;
    while k < all.len()
        invariant
            k <= all@.len(),
            out@ == start + joined_moves(all@.take(k as int)),
        decreases all@.len() - k,
    {
        let ghost before = out@;
        assert(all@.take(k + 1).drop_last() == all@.take(k as int));
        out.push(Move { end: all[k].start_point, width: 0, move_type: MoveType::Travel });
        let moves = &all[k].moves;
        let mut j: usize = 0;
        while j < moves.len()
            invariant
                j <= moves@.len(),
                out@ == before.push(travel_to(all@[k as int].start_point)) + moves@.take(j as int),
            decreases moves@.len() - j,
        {
            out.push(moves[j]);
            assert(moves@.take(j + 1) == moves@.take(j as int).push(moves@[j as int]));
            j = j + 1;
        }
        assert(moves@.take(moves@.len() as int) == moves@);
        k = k + 1;
    }
    assert(all@.take(all@.len() as int) == all@);
}

/// The commands that open a layer of an object: change to the object, move
/// to the layer's height, and set the temperatures and the fan, which is off
/// (speed zero) for the first `disable_fan_for_layers` layers.
pub open spec fn layer_opening(
    object: usize,
    z: u64,
    extruder_temp: u64,
    bed_temp: u64,
    fan_speed: u64,
    layer: usize,
    disable_fan_for_layers: usize,
) -> Seq<Command> {
    seq![
        Command::ChangeObject { object },
        Command::LayerChange { z },
        Command::SetState {
            new_state: StateChange {
                extruder_temp: Some(extruder_temp),
                bed_temp: Some(bed_temp),
                fan_speed: Some(if layer < disable_fan_for_layers { 0 } else { fan_speed }),
                movement_speed: None,
                acceleration: None,
                retract: None,
            },
        },
    ]
}

/// Starts the commands of layer `layer` of object `object` at height `z`
/// (see `layer_opening`); a fan speed of zero has the bit pattern zero.
pub fn layer_start_commands(
    object: usize,
    z: u64,
    extruder_temp: u64,
    bed_temp: u64,
    fan_speed: u64,
    layer: usize,
    disable_fan_for_layers: usize,
) -> (cmds: Vec<Command>)
    ensures
        cmds@ == layer_opening(object, z, extruder_temp, bed_temp, fan_speed, layer, disable_fan_for_layers),
{
    let fan = if layer < disable_fan_for_layers {
        0
    } else {
        fan_speed
    };
    let mut cmds: Vec<Command> = Vec::new();
    cmds.push(Command::ChangeObject { object });
    cmds.push(Command::LayerChange { z });
    cmds.push(
        Command::SetState {
            new_state: StateChange {
                extruder_temp: Some(extruder_temp),
                bed_temp: Some(bed_temp),
                fan_speed: Some(fan),
                movement_speed: None,
                acceleration: None,
                retract: None,
            },
        },
    );
    cmds
}

/// Appends the commands of a layer to `commands`: when the layer has fixed
/// chains, one chain starting at the first fixed chain's start point that
/// travels to each fixed chain and then to each other chain in turn and
/// makes its moves.
pub fn slice_into_commands(
    fixed_chains: &[MoveChain],
    chains: &[MoveChain],
    settings: &LayerSettings,
    commands: &mut Vec<Command>,
    layer_thickness: u64,
)
    ensures
        final(commands)@ == old(commands)@ + layer_commands(
            fixed_chains@,
            chains@,
            *settings,
            layer_thickness,
        ),
{
    if fixed_chains.len() > 0 {
        let mut full_moves: Vec<Move> = Vec::new();
        append_joined(fixed_chains, &mut full_moves);
        append_joined(chains, &mut full_moves);
        proof {
            lemma_joined_moves_append(fixed_chains@, chains@);
        }
        let chain = MoveChain { start_point: fixed_chains[0].start_point, moves: full_moves };
        let mut new_cmds = chain.create_commands(settings, layer_thickness);
        commands.append(&mut new_cmds);
    }
}

/// Joining two lists of chains is joining each and putting the moves together.
pub proof fn lemma_joined_moves_append(a: Seq<MoveChain>, b: Seq<MoveChain>)
    ensures
        joined_moves(a + b) == joined_moves(a) + joined_moves(b),
    decreases b.len(),
{
    if b.len() == 0 {
        assert(a + b == a);
    } else {
        assert((a + b).drop_last() == a + b.drop_last());
        lemma_joined_moves_append(a, b.drop_last());
    }
}

/// A distance computed outside the crate, given as a key that orders as the
/// distance does: defined for every pair of points and the same for the same
/// points.
pub open spec fn measures<D: Fn(Coord, Coord) -> u64>(d: &D) -> bool {
    &&& forall|a: Coord, b: Coord| d.requires((a, b))
    &&& forall|a: Coord, b: Coord, r1: u64, r2: u64|
        d.ensures((a, b), r1) && d.ensures((a, b), r2) ==> r1 == r2
}

/// The key a distance gives two points.
pub open spec fn measure<D: Fn(Coord, Coord) -> u64>(d: &D) -> spec_fn(Coord, Coord) -> u64 {
    |a: Coord, b: Coord| choose|r: u64| d.ensures((a, b), r)
}

/// The position of the first smallest key.
pub open spec fn first_min(keys: Seq<u64>) -> int
    decreases keys.len(),
{
    if keys.len() <= 1 {
        0
    } else {
        let j = first_min(keys.drop_last());
        if keys.last() < keys[j] {
            keys.len() - 1
        } else {
            j
        }
    }
}

/// `first_min` is a position of the list, no key is smaller than the one
/// there, and every key before it is larger.
pub proof fn lemma_first_min(keys: Seq<u64>)
    requires
        keys.len() > 0,
    ensures
        0 <= first_min(keys) < keys.len(),
        forall|i: int| 0 <= i < keys.len() ==> keys[first_min(keys)] <= #[trigger] keys[i],
        forall|i: int| 0 <= i < first_min(keys) ==> keys[first_min(keys)] < #[trigger] keys[i],
    decreases keys.len(),
{
    if keys.len() > 1 {
        let init = keys.drop_last();
        lemma_first_min(init);
        let j = first_min(init);
        let n = keys.len() - 1;
        assert(keys[j] == init[j]);
        assert forall|i: int| 0 <= i < keys.len() implies keys[first_min(keys)] <= #[trigger] keys[i] by {
            if i < n {
                assert(keys[i] == init[i]);
            }
        }
        assert forall|i: int| 0 <= i < first_min(keys) implies keys[first_min(keys)] < #[trigger] keys[i] by {
            if i < n {
                assert(keys[i] == init[i]);
                if first_min(keys) == n {
                    assert(init[j] <= init[i]);
                }
            }
        }
    }
}

/// Where a chain ends: the end of its last move.
pub open spec fn chain_end(c: MoveChain) -> Coord {
    c.moves@.last().end
}

/// The keys of the distances from `from` to the start of each chain.
pub open spec fn distances(from: Coord, rest: Seq<MoveChain>, d: spec_fn(Coord, Coord) -> u64) -> Seq<
    u64,
> {
    Seq::new(rest.len(), |i: int| d(from, rest[i].start_point))
}

/// The remaining chains in the order they are printed after `last`: each
/// time the first of the chains that start nearest to where the previous one
/// ended.
pub open spec fn ordered_after(
    last: MoveChain,
    rest: Seq<MoveChain>,
    d: spec_fn(Coord, Coord) -> u64,
) -> Seq<MoveChain>
    decreases rest.len(),
{
    if rest.len() == 0 {
        Seq::empty()
    } else {
        let i = first_min(distances(chain_end(last), rest, d));
        if 0 <= i < rest.len() {
            seq![rest[i]] + ordered_after(rest[i], rest.remove(i), d)
        } else {
            Seq::empty()
        }
    }
}

/// The chains after taking out the first one by swapping the last one in.
pub open spec fn swap_removed_first(chains: Seq<MoveChain>) -> Seq<MoveChain> {
    chains.update(0, chains.last()).drop_last()
}

/// The order the chains of a layer are printed in: the first chain, then
/// nearest neighbour after nearest neighbour.
pub open spec fn ordered_chains(chains: Seq<MoveChain>, d: spec_fn(Coord, Coord) -> u64) -> Seq<
    MoveChain,
> {
    if chains.len() == 0 {
        Seq::empty()
    } else {
        seq![chains[0]] + ordered_after(chains[0], swap_removed_first(chains), d)
    }
}

/// Ordering the chains keeps their number.
pub proof fn lemma_ordered_after_len(
    last: MoveChain,
    rest: Seq<MoveChain>,
    d: spec_fn(Coord, Coord) -> u64,
)
    ensures
        ordered_after(last, rest, d).len() == rest.len(),
    decreases rest.len(),
{
    if rest.len() > 0 {
        let keys = distances(chain_end(last), rest, d);
        lemma_first_min(keys);
        let i = first_min(keys);
        lemma_ordered_after_len(rest[i], rest.remove(i), d);
    }
}

fn nearest<D: Fn(Coord, Coord) -> u64>(from: Coord, rest: &Vec<MoveChain>, dist: &D) -> (i: usize)
    requires
        measures(dist),
        rest@.len() > 0,
    ensures
        i == first_min(distances(from, rest@, measure(dist))),
        i < rest@.len(),
{
    let ghost keys = distances(from, rest@, measure(dist));
    proof {
        lemma_first_min(keys);
    }
    let mut best: usize = 0;
    let mut best_key = dist(from, rest[0].start_point);
    let mut k: usize = 1;
    while k < rest.len()
        invariant
            measures(dist),
            keys == distances(from, rest@, measure(dist)),
            1 <= k <= rest@.len(),
            best == first_min(keys.take(k as int)),
            best < k,
            best_key == keys[best as int],
        decreases rest@.len() - k,
    {
        let key = dist(from, rest[k].start_point);
        assert(keys.take(k + 1).drop_last() == keys.take(k as int));
        proof {
            lemma_first_min(keys.take(k as int));
            assert(keys.take(k as int)[best as int] == keys[best as int]);
        }
        if key < best_key {
            best = k;
            best_key = key;
        }
        k = k + 1;
    }
    assert(keys.take(rest@.len() as int) == keys);
    best
}

/// Orders the chains for the fastest print: the first chain stays first, and
/// each next chain is the first of the remaining ones whose start is nearest
/// to the end of the chain before it. `dist` gives, for two points, a key
/// that orders as their distance (computed on floating-point values outside
/// this crate). Every chain that is followed by another one must have a move.
pub fn order_chains<D: Fn(Coord, Coord) -> u64>(chains: Vec<MoveChain>, dist: &D) -> (ordered: Vec<
    MoveChain,
>)
    requires
        measures(dist),
        forall|k: int|
            0 <= k < chains@.len() - 1 ==> (#[trigger] ordered_chains(chains@, measure(dist))[k]).moves@.len()
                > 0,
    ensures
        ordered@ == ordered_chains(chains@, measure(dist)),
        ordered@.len() == chains@.len(),
{
    let ghost d = measure(dist);
    let ghost target = ordered_chains(chains@, d);
    if chains.len() == 0 {
        return Vec::new();
    }
    let mut rest = chains;
    let first = rest.swap_remove(0);
    let mut ordered: Vec<MoveChain> = Vec::new();
    ordered.push(first);
    proof {
        lemma_ordered_after_len(first, rest@, d);
    }
    while rest.len() > 0
        invariant
            measures(dist),
            d == measure(dist),
            ordered@.len() > 0,
            target == ordered@ + ordered_after(ordered@.last(), rest@, d),
            forall|k: int| 0 <= k < target.len() - 1 ==> (#[trigger] target[k]).moves@.len() > 0,
        decreases rest@.len(),
    {
        let ghost last = ordered@.last();
        proof {
            lemma_ordered_after_len(last, rest@, d);
            assert(target[ordered@.len() - 1] == last);
        }
        let n = ordered.len();
        let m = ordered[n - 1].moves.len();
        let from = ordered[n - 1].moves[m - 1].end;
        let i = nearest(from, &rest, dist);
        let ghost picked = rest@[i as int];
        let ghost remaining = rest@.remove(i as int);
        assert(ordered_after(last, rest@, d) == seq![picked] + ordered_after(picked, remaining, d));
        let closest = rest.remove(i);
        ordered.push(closest);
        assert(ordered@.drop_last() + seq![picked] == ordered@);
        proof {
            assert(target == ordered@.drop_last() + (seq![picked] + ordered_after(picked, remaining, d)));
        }
    }
    proof {
        lemma_ordered_after_len(ordered@.last(), rest@, d);
    }
    assert(ordered@ + Seq::<MoveChain>::empty() == ordered@);
    ordered
}

/// Whether every chain of the order that is followed by another one has a
/// move to start the next one from.
pub open spec fn chains_can_follow(chains: Seq<MoveChain>, d: spec_fn(Coord, Coord) -> u64) -> bool {
    forall|k: int|
        0 <= k < chains.len() - 1 ==> (#[trigger] ordered_chains(chains, d)[k]).moves@.len() > 0
}

/// Orders the chains as `order_chains` does, or gives `None` when a chain
/// without moves would have to be followed by another one.
pub fn try_order_chains<D: Fn(Coord, Coord) -> u64>(chains: Vec<MoveChain>, dist: &D) -> (r: Option<
    Vec<MoveChain>,
>)
    requires
        measures(dist),
    ensures
        match r {
            Some(ordered) => chains_can_follow(chains@, measure(dist)) && ordered@ == ordered_chains(
                chains@,
                measure(dist),
            ),
            None => !chains_can_follow(chains@, measure(dist)),
        },
{
    let ghost d = measure(dist);
    let ghost target = ordered_chains(chains@, d);
    let ghost orig = chains@;
    if chains.len() == 0 {
        return Some(Vec::new());
    }
    let mut rest = chains;
    let first = rest.swap_remove(0);
    let mut ordered: Vec<MoveChain> = Vec::new();
    ordered.push(first);
    proof {
        lemma_ordered_after_len(first, rest@, d);
    }
    while rest.len() > 0
        invariant
            measures(dist),
            d == measure(dist),
            target == ordered_chains(orig, d),
            orig == chains@,
            ordered@.len() > 0,
            target == ordered@ + ordered_after(ordered@.last(), rest@, d),
            target.len() == ordered@.len() + rest@.len(),
            orig.len() == ordered@.len() + rest@.len(),
            forall|k: int| 0 <= k < ordered@.len() - 1 ==> (#[trigger] target[k]).moves@.len() > 0,
        decreases rest@.len(),
    {
        let ghost last = ordered@.last();
        proof {
            lemma_ordered_after_len(last, rest@, d);
            assert(target[ordered@.len() - 1] == last);
        }
        let n = ordered.len();
        let m = ordered[n - 1].moves.len();
        if m == 0 {
            assert(target[n - 1].moves@.len() == 0);
            assert(0 <= n - 1 < orig.len() - 1);
            assert(!chains_can_follow(orig, d));
            return None;
        }
        let from = ordered[n - 1].moves[m - 1].end;
        let i = nearest(from, &rest, dist);
        let ghost picked = rest@[i as int];
        let ghost remaining = rest@.remove(i as int);
        assert(ordered_after(last, rest@, d) == seq![picked] + ordered_after(picked, remaining, d));
        let closest = rest.remove(i);
        ordered.push(closest);
        assert(ordered@.drop_last() + seq![picked] == ordered@);
        proof {
            lemma_ordered_after_len(picked, remaining, d);
            assert(target == ordered@.drop_last() + (seq![picked] + ordered_after(picked, remaining, d)));
            assert(target[n as int - 1] == last);
        }
    }
    proof {
        lemma_ordered_after_len(ordered@.last(), rest@, d);
    }
    assert(ordered@ + Seq::<MoveChain>::empty() == ordered@);
    Some(ordered)
}

proof fn lemma_ordered_after_multiset(
    last: MoveChain,
    rest: Seq<MoveChain>,
    d: spec_fn(Coord, Coord) -> u64,
)
    ensures
        ordered_after(last, rest, d).to_multiset() == rest.to_multiset(),
    decreases rest.len(),
{
    broadcast use vstd::seq_lib::group_to_multiset_ensures;
    broadcast use vstd::multiset::group_multiset_axioms;

    if rest.len() == 0 {
        assert(ordered_after(last, rest, d) =~= rest);
    } else {
        let keys = distances(chain_end(last), rest, d);
        lemma_first_min(keys);
        let i = first_min(keys);
        let tail = ordered_after(rest[i], rest.remove(i), d);
        lemma_ordered_after_multiset(rest[i], rest.remove(i), d);
        vstd::seq_lib::lemma_multiset_commutative(seq![rest[i]], tail);
        assert(seq![rest[i]].to_multiset() =~= vstd::multiset::Multiset::<MoveChain>::empty().insert(rest[i])) by {
            assert(seq![rest[i]] =~= Seq::<MoveChain>::empty().push(rest[i]));
        }
        assert(rest.to_multiset().remove(rest[i]).insert(rest[i]) =~= rest.to_multiset()) by {
            assert(rest.to_multiset().count(rest[i]) > 0) by {
                assert(rest.contains(rest[i]));
            }
        }
    }
}

proof fn lemma_ordered_after_from_rest(last: MoveChain, rest: Seq<MoveChain>, d: spec_fn(Coord, Coord) -> u64)
    ensures
        forall|j: int|
            0 <= j < ordered_after(last, rest, d).len() ==> rest.contains(
                #[trigger] ordered_after(last, rest, d)[j],
            ),
    decreases rest.len(),
{
    if rest.len() > 0 {
        let keys = distances(chain_end(last), rest, d);
        lemma_first_min(keys);
        let i = first_min(keys);
        let r = rest.remove(i);
        let tail = ordered_after(rest[i], r, d);
        let o = ordered_after(last, rest, d);
        assert(o == seq![rest[i]] + tail);
        lemma_ordered_after_from_rest(rest[i], r, d);
        assert forall|j: int| 0 <= j < o.len() implies rest.contains(#[trigger] o[j]) by {
            if j == 0 {
                assert(rest[i] == o[0]);
            } else {
                let x = tail[j - 1];
                assert(o[j] == x);
                assert(r.contains(x));
                let m = choose|m: int| 0 <= m < r.len() && r[m] == x;
                let idx = if m < i { m } else { m + 1 };
                assert(rest[idx] == x);
            }
        }
    }
}

/// Whether chain `c` starts no farther than chain `other` from where chain
/// `before` ends (the end of its last move).
pub open spec fn starts_no_farther(
    before: MoveChain,
    c: MoveChain,
    other: MoveChain,
    d: spec_fn(Coord, Coord) -> u64,
) -> bool {
    d(before.moves@.last().end, c.start_point) <= d(before.moves@.last().end, other.start_point)
}

/// The first chain placed after `last` starts nearest to where `last` ends.
proof fn lemma_ordered_after_first_nearest(
    last: MoveChain,
    rest: Seq<MoveChain>,
    d: spec_fn(Coord, Coord) -> u64,
)
    ensures
        forall|j: int|
            0 <= j < ordered_after(last, rest, d).len() ==> #[trigger] starts_no_farther(
                last,
                ordered_after(last, rest, d)[0],
                ordered_after(last, rest, d)[j],
                d,
            ),
{
    if rest.len() > 0 {
        let keys = distances(chain_end(last), rest, d);
        lemma_first_min(keys);
        let i = first_min(keys);
        let o = ordered_after(last, rest, d);
        assert(o[0] == rest[i]);
        lemma_ordered_after_from_rest(last, rest, d);
        assert forall|j: int| 0 <= j < o.len() implies #[trigger] starts_no_farther(last, o[0], o[j], d) by {
            assert(rest.contains(o[j]));
            let idx = choose|m: int| 0 <= m < rest.len() && rest[m] == o[j];
            assert(keys[idx] == d(chain_end(last), rest[idx].start_point));
            assert(keys[i] <= keys[idx]);
        }
    }
}

/// Whether in the order `o` every chain after the first starts no farther
/// from where the chain before it ends than any chain placed after it.
pub open spec fn placed_nearest_first(o: Seq<MoveChain>, d: spec_fn(Coord, Coord) -> u64) -> bool {
    forall|k: int, j: int|
        1 <= k <= j < o.len() ==> #[trigger] starts_no_farther(o[k - 1], o[k], o[j], d)
}

proof fn lemma_prepend_nearest(
    first: MoveChain,
    tail: Seq<MoveChain>,
    d: spec_fn(Coord, Coord) -> u64,
)
    requires
        placed_nearest_first(tail, d),
        forall|j: int| 0 <= j < tail.len() ==> #[trigger] starts_no_farther(first, tail[0], tail[j], d),
    ensures
        placed_nearest_first(seq![first] + tail, d),
{
    let o = seq![first] + tail;
    assert forall|k: int, j: int| 1 <= k <= j < o.len() implies #[trigger] starts_no_farther(
        o[k - 1],
        o[k],
        o[j],
        d,
    ) by {
        assert(o[k] == tail[k - 1]);
        assert(o[j] == tail[j - 1]);
        if k == 1 {
            assert(o[0] == first);
            assert(starts_no_farther(first, tail[0], tail[j - 1], d));
        } else {
            assert(o[k - 1] == tail[k - 2]);
            assert(starts_no_farther(tail[k - 2], tail[k - 1], tail[j - 1], d));
        }
    }
}

proof fn lemma_ordered_after_nearest(last: MoveChain, rest: Seq<MoveChain>, d: spec_fn(Coord, Coord) -> u64)
    ensures
        placed_nearest_first(ordered_after(last, rest, d), d),
    decreases rest.len(),
{
    if rest.len() > 0 {
        let keys = distances(chain_end(last), rest, d);
        lemma_first_min(keys);
        let i = first_min(keys);
        let r = rest.remove(i);
        let tail = ordered_after(rest[i], r, d);
        assert(ordered_after(last, rest, d) == seq![rest[i]] + tail);
        lemma_ordered_after_nearest(rest[i], r, d);
        lemma_ordered_after_first_nearest(rest[i], r, d);
        lemma_prepend_nearest(rest[i], tail, d);
    }
}

/// The chains of a layer are printed nearest neighbour first: the first
/// chain stays first, and each chain after it starts at a smallest distance
/// from where the chain before it ends (the end of its last move) among the
/// chains not yet printed.
pub proof fn lemma_each_chain_starts_nearest(chains: Seq<MoveChain>, d: spec_fn(Coord, Coord) -> u64)
    ensures
        chains.len() > 0 ==> ordered_chains(chains, d)[0] == chains[0],
        forall|k: int, j: int|
            1 <= k <= j < ordered_chains(chains, d).len() ==> d(
                ordered_chains(chains, d)[k - 1].moves@.last().end,
                #[trigger] ordered_chains(chains, d)[k].start_point,
            ) <= d(
                ordered_chains(chains, d)[k - 1].moves@.last().end,
                #[trigger] ordered_chains(chains, d)[j].start_point,
            ),
{
    if chains.len() > 0 {
        let rest = swap_removed_first(chains);
        let tail = ordered_after(chains[0], rest, d);
        let o = ordered_chains(chains, d);
        assert(o == seq![chains[0]] + tail);
        lemma_ordered_after_nearest(chains[0], rest, d);
        lemma_ordered_after_first_nearest(chains[0], rest, d);
        lemma_prepend_nearest(chains[0], tail, d);
        assert forall|k: int, j: int| 1 <= k <= j < o.len() implies d(
            o[k - 1].moves@.last().end,
            #[trigger] o[k].start_point,
        ) <= d(o[k - 1].moves@.last().end, #[trigger] o[j].start_point) by {
            assert(starts_no_farther(o[k - 1], o[k], o[j], d));
        }
    }
}

/// Ordering the chains of a layer prints every chain exactly once: the
/// ordered chains are the given ones, each as often, in another order.
pub proof fn lemma_ordered_chains_permutation(chains: Seq<MoveChain>, d: spec_fn(Coord, Coord) -> u64)
    ensures
        ordered_chains(chains, d).to_multiset() == chains.to_multiset(),
        ordered_chains(chains, d).len() == chains.len(),
{
    broadcast use vstd::seq_lib::group_to_multiset_ensures;
    broadcast use vstd::multiset::group_multiset_axioms;

    if chains.len() == 0 {
        assert(ordered_chains(chains, d) =~= chains);
    } else {
        let rest = swap_removed_first(chains);
        lemma_ordered_after_multiset(chains[0], rest, d);
        lemma_ordered_after_len(chains[0], rest, d);
        let tail = ordered_after(chains[0], rest, d);
        vstd::seq_lib::lemma_multiset_commutative(seq![chains[0]], tail);
        assert(seq![chains[0]].to_multiset() =~= vstd::multiset::Multiset::<MoveChain>::empty().insert(chains[0])) by {
            assert(seq![chains[0]] =~= Seq::<MoveChain>::empty().push(chains[0]));
        }
        // taking out the first chain by swapping the last one into its place
        let n = chains.len() - 1;
        let updated = chains.update(0, chains.last());
        assert(updated.to_multiset() == chains.to_multiset().insert(chains.last()).remove(chains[0]));
        assert(updated == rest.push(chains.last()));
        assert(updated.to_multiset() == rest.to_multiset().insert(chains.last()));
        assert(chains.to_multiset().count(chains[0]) > 0) by {
            assert(chains.contains(chains[0]));
        }
        assert forall|x: MoveChain| #[trigger] rest.to_multiset().count(x) == chains.to_multiset().remove(
            chains[0],
        ).count(x) by {
            assert(updated.to_multiset().count(x) == rest.to_multiset().insert(chains.last()).count(x));
            assert(updated.to_multiset().count(x) == chains.to_multiset().insert(chains.last()).remove(
                chains[0],
            ).count(x));
        }
        assert(rest.to_multiset() =~= chains.to_multiset().remove(chains[0]));
        assert(chains.to_multiset().remove(chains[0]).insert(chains[0]) =~= chains.to_multiset());
    }
}

} // verus!
