//! Slowing down the print of layers that would print too fast for the
//! plastic to cool.
//!
//! The commands are cut into layers; for each layer the time it takes to
//! print is worked out on floating-point values outside this crate, and where
//! it is too short a speed limit comes back here to be applied to the layer's
//! state changes.
use crate::commands::{Command, StateChange};
use vstd::prelude::*;

verus! {

/// A comparison of two floating-point numbers, each by its bit pattern, made
/// outside the crate: defined for every pair and one answer for the same pair.
pub open spec fn compares_bits<E: Fn(u64, u64) -> bool>(same: &E) -> bool {
    &&& forall|a: u64, b: u64| same.requires((a, b))
    &&& forall|a: u64, b: u64, r1: bool, r2: bool|
        same.ensures((a, b), r1) && same.ensures((a, b), r2) ==> r1 == r2
}

/// The answer of a comparison of two numbers.
pub open spec fn bits_answer<E: Fn(u64, u64) -> bool>(same: &E) -> spec_fn(u64, u64) -> bool {
    |a: u64, b: u64| same.ensures((a, b), true)
}

/// A function of two floating-point numbers, each by its bit pattern,
/// computed outside the crate: defined everywhere and one result for the same
/// arguments.
pub open spec fn computes_bits<F: Fn(u64, u64) -> u64>(f: &F) -> bool {
    &&& forall|a: u64, b: u64| f.requires((a, b))
    &&& forall|a: u64, b: u64, r1: u64, r2: u64| f.ensures((a, b), r1) && f.ensures((a, b), r2) ==> r1 == r2
}

/// The result of a function of two numbers.
pub open spec fn bits_result<F: Fn(u64, u64) -> u64>(f: &F) -> spec_fn(u64, u64) -> u64 {
    |a: u64, b: u64| choose|r: u64| f.ensures((a, b), r)
}

/// The commands of one layer: positions `start` to `end`, both included, and
/// whether any of them extrudes.
#[derive(Clone, Copy, Debug, PartialEq, Eq, Structural)]
pub struct LayerBatch {
    pub start: usize,
    pub end: usize,
    pub extrudes: bool,
}

/// Whether command `c` moves to a height other than `height`.
pub open spec fn leaves_height(c: Command, height: u64, same: spec_fn(u64, u64) -> bool) -> bool {
    match c {
        Command::LayerChange { z } => !same(z, height),
        _ => false,
    }
}

/// The first position from `i` on whose command moves to a height other
/// than `height`, or the number of commands when there is none.
pub open spec fn layer_end(s: Seq<Command>, i: int, height: u64, same: spec_fn(u64, u64) -> bool) -> int
    decreases s.len() - i,
{
    if i >= s.len() {
        s.len() as int
    } else if leaves_height(s[i], height, same) {
        i
    } else {
        layer_end(s, i + 1, height, same)
    }
}

/// Whether a command from position `i` to `j`, both included, extrudes.
pub open spec fn extrudes_between(s: Seq<Command>, i: int, j: int) -> bool {
    exists|k: int| i <= k <= j && 0 <= k < s.len() && (#[trigger] s[k]) is MoveAndExtrude
}

/// The layers of the commands from position `i` on, at height `height`: each
/// runs up to and including the first command that moves to another height,
/// and the commands after the last such move form a layer only when one of
/// them extrudes.
pub open spec fn layers_from(s: Seq<Command>, i: int, height: u64, same: spec_fn(u64, u64) -> bool) -> Seq<
    LayerBatch,
>
    decreases s.len() - i,
{
    if i < 0 || i >= s.len() {
        Seq::empty()
    } else {
        let e = layer_end(s, i, height, same);
        proof {
            lemma_layer_end(s, i, height, same);
        }
        if e >= s.len() {
            if extrudes_between(s, i, s.len() - 1) {
                seq![LayerBatch { start: i as usize, end: (s.len() - 1) as usize, extrudes: true }]
            } else {
                Seq::empty()
            }
        } else {
            seq![LayerBatch { start: i as usize, end: e as usize, extrudes: extrudes_between(s, i, e) }]
                + layers_from(s, e + 1, s[e]->LayerChange_z, same)
        }
    }
}

/// `layer_end` lies between `i` and the number of commands; the command there,
/// when there is one, moves to another height, and none before it does.
pub proof fn lemma_layer_end(s: Seq<Command>, i: int, height: u64, same: spec_fn(u64, u64) -> bool)
    requires
        0 <= i <= s.len(),
    ensures
        i <= layer_end(s, i, height, same) <= s.len(),
        layer_end(s, i, height, same) < s.len() ==> leaves_height(
            s[layer_end(s, i, height, same)],
            height,
            same,
        ),
        forall|k: int| i <= k < layer_end(s, i, height, same) && k < s.len() ==> !leaves_height(#[trigger] s[k], height, same),
    decreases s.len() - i,
{
    if i < s.len() && !leaves_height(s[i], height, same) {
        lemma_layer_end(s, i + 1, height, same);
    }
}

/// Cuts the commands into layers, as the slow-down pass reads them: starting
/// at height zero, a layer runs up to and including the first layer change to
/// another height; the commands after the last such change form a layer only
/// when one of them extrudes. `same` compares two heights as floating-point
/// numbers.
pub fn layer_batches<E: Fn(u64, u64) -> bool>(cmds: &[Command], same: &E) -> (batches: Vec<
    LayerBatch,
>)
    requires
        compares_bits(same),
    ensures
        batches@ == layers_from(cmds@, 0, 0, bits_answer(same)),
{
    let ghost sa = bits_answer(same);
    let ghost s = cmds@;
    let mut batches: Vec<LayerBatch> = Vec::new();
    let mut i: usize = 0;
    let mut height: u64 = 0;
    while i < cmds.len()
        invariant
            compares_bits(same),
            sa == bits_answer(same),
            s == cmds@,
            i <= s.len(),
            layers_from(s, 0, 0, sa) == batches@ + layers_from(s, i as int, height, sa),
        decreases s.len() - i,
    {
        let start = i;
        let mut extrudes = false;
        let mut changed = false;
        proof {
            lemma_layer_end(s, i as int, height, sa);
        }
        while i < cmds.len() && !changed
            invariant
                compares_bits(same),
                sa == bits_answer(same),
                s == cmds@,
                start <= i <= s.len(),
                start < s.len(),
                changed ==> i >= start + 1 && i - 1 == layer_end(s, start as int, height, sa),
                !changed ==> i <= layer_end(s, start as int, height, sa),
                extrudes == extrudes_between(s, start as int, i - 1),
            decreases s.len() - i,
        {
            proof {
                lemma_layer_end(s, start as int, height, sa);
            }
            match cmds[i] {
                Command::LayerChange { z } => {
                    let eq = same(z, height);
                    if !eq {
                        changed = true;
                    }
                },
                Command::MoveAndExtrude { .. } => {
                    extrudes = true;
                },
                _ => {},
            }
            proof {
                if extrudes_between(s, start as int, i as int) {
                    let k = choose|k: int|
                        start <= k <= i && 0 <= k < s.len() && (#[trigger] s[k]) is MoveAndExtrude;
                    if k < i {
                        assert(extrudes_between(s, start as int, i - 1));
                    }
                }
                if s[i as int] is MoveAndExtrude {
                    assert(extrudes_between(s, start as int, i as int));
                }
                if extrudes_between(s, start as int, i - 1) {
                    let k = choose|k: int|
                        start <= k <= i - 1 && 0 <= k < s.len() && (#[trigger] s[k]) is MoveAndExtrude;
                    assert(extrudes_between(s, start as int, i as int));
                }
            }
            i = i + 1;
        }
        proof {
            lemma_layer_end(s, start as int, height, sa);
        }
        if changed {
            let end = i - 1;
            let new_height = match cmds[end] {
                Command::LayerChange { z } => z,
                _ => height,
            };
            batches.push(LayerBatch { start, end, extrudes });
            height = new_height;
        } else {
            if extrudes {
                batches.push(LayerBatch { start, end: i - 1, extrudes: true });
            }
            assert(layers_from(s, i as int, height, sa) == Seq::<LayerBatch>::empty());
        }
    }
    assert(batches@ + Seq::<LayerBatch>::empty() == batches@);
    batches
}

/// The state change `c` with its movement speed `speed` limited to
/// `limit(speed, max_speed)`, for a set speed that is not the travel speed.
pub open spec fn limited(
    c: Command,
    max_speed: u64,
    travel: u64,
    same: spec_fn(u64, u64) -> bool,
    limit: spec_fn(u64, u64) -> u64,
) -> Command {
    match c {
        Command::SetState { new_state } => match new_state.movement_speed {
            Some(speed) => if !same(speed, travel) {
                Command::SetState {
                    new_state: StateChange {
                        movement_speed: Some(limit(speed, max_speed)),
                        ..new_state
                    },
                }
            } else {
                c
            },
            None => c,
        },
        _ => c,
    }
}

/// The commands with the speed limit `r.0` applied at positions `r.1` up to,
/// but not including, `r.2`.
pub open spec fn with_limit(
    s: Seq<Command>,
    r: (u64, usize, usize),
    travel: u64,
    same: spec_fn(u64, u64) -> bool,
    limit: spec_fn(u64, u64) -> u64,
) -> Seq<Command> {
    Seq::new(
        s.len(),
        |i: int|
            if r.1 <= i < r.2 {
                limited(s[i], r.0, travel, same, limit)
            } else {
                s[i]
            },
    )
}

/// The commands with each speed limit applied in turn.
pub open spec fn with_limits(
    s: Seq<Command>,
    rs: Seq<(u64, usize, usize)>,
    travel: u64,
    same: spec_fn(u64, u64) -> bool,
    limit: spec_fn(u64, u64) -> u64,
) -> Seq<Command>
    decreases rs.len(),
{
    if rs.len() == 0 {
        s
    } else {
        with_limit(with_limits(s, rs.drop_last(), travel, same, limit), rs.last(), travel, same, limit)
    }
}

/// Slows down layers that print too fast.
pub struct SlowDownLayerPass {}

impl SlowDownLayerPass {
    /// Applies the speed limits found for the layers: for each limit
    /// `(max_speed, start, end)`, every state change at positions `start` up
    /// to, but not including, `end` that sets a movement speed other than the
    /// travel speed gets `limit(speed, max_speed)` instead (the speed brought
    /// down to `max_speed`, but not below the minimum print speed, computed
    /// outside this crate). `same` compares two speeds.
    pub fn pass<E: Fn(u64, u64) -> bool, F: Fn(u64, u64) -> u64>(
        cmds: &mut Vec<Command>,
        limits: &[(u64, usize, usize)],
        travel: u64,
        same: &E,
        limit: &F,
    )
        requires
            compares_bits(same),
            computes_bits(limit),
            forall|k: int|
                0 <= k < limits@.len() ==> (#[trigger] limits@[k]).1 <= limits@[k].2 <= old(
                    cmds,
                )@.len(),
        ensures
            final(cmds)@ == with_limits(old(cmds)@, limits@, travel, bits_answer(same), bits_result(limit)),
    {
        let ghost sa = bits_answer(same);
        let ghost la = bits_result(limit);
        let ghost orig = cmds@;
        let mut k: usize = 0;
        while k < limits.len()
            invariant
                compares_bits(same),
                computes_bits(limit),
                sa == bits_answer(same),
                la == bits_result(limit),
                k <= limits@.len(),
                forall|j: int|
                    0 <= j < limits@.len() ==> (#[trigger] limits@[j]).1 <= limits@[j].2 <= orig.len(),
                cmds@ == with_limits(orig, limits@.take(k as int), travel, sa, la),
                cmds@.len() == orig.len(),
            decreases limits@.len() - k,
        {
            let (max_speed, start, end) = limits[k];
            assert(limits@.take(k + 1).drop_last() == limits@.take(k as int));
            let ghost before = cmds@;
            let mut i = start;
            while i < end
                invariant
                    compares_bits(same),
                    computes_bits(limit),
                    sa == bits_answer(same),
                    la == bits_result(limit),
                    start <= i <= end <= before.len(),
                    cmds@.len() == before.len(),
                    forall|j: int|
                        0 <= j < before.len() ==> #[trigger] cmds@[j] == if start <= j < i {
                            limited(before[j], max_speed, travel, sa, la)
                        } else {
                            before[j]
                        },
                decreases end - i,
            {
                let c = cmds[i];
                if let Command::SetState { new_state } = c {
                    if let Some(speed) = new_state.movement_speed {
                        let is_travel = same(speed, travel);
                        if !is_travel {
                            let new_speed = limit(speed, max_speed);
                            let mut changed = new_state;
                            changed.movement_speed = Some(new_speed);
                            cmds.set(i, Command::SetState { new_state: changed });
                        }
                    }
                }
                i = i + 1;
            }
            assert(cmds@ == with_limit(before, (max_speed, start, end), travel, sa, la));
            k = k + 1;
        }
        assert(limits@.take(limits@.len() as int) == limits@);
    }
}

/// The layers follow one another without gap or overlap: the first starts
/// at `i`, each ends at or after its start and before the end of the
/// commands, and each next one starts right after the one before it.
pub proof fn lemma_layers_are_consecutive(
    s: Seq<Command>,
    i: int,
    height: u64,
    same: spec_fn(u64, u64) -> bool,
)
    requires
        0 <= i,
        s.len() <= usize::MAX,
    ensures
        layers_from(s, i, height, same).len() > 0 ==> layers_from(s, i, height, same)[0].start == i,
        forall|k: int|
            0 <= k < layers_from(s, i, height, same).len() ==> (#[trigger] layers_from(s, i, height, same)[k]).start
                <= layers_from(s, i, height, same)[k].end < s.len(),
        forall|k: int|
            1 <= k < layers_from(s, i, height, same).len() ==> (#[trigger] layers_from(s, i, height, same)[k]).start
                == layers_from(s, i, height, same)[k - 1].end + 1,
    decreases s.len() - i,
{
    if 0 <= i < s.len() {
        lemma_layer_end(s, i, height, same);
        let e = layer_end(s, i, height, same);
        if e < s.len() {
            let next = layers_from(s, e + 1, s[e]->LayerChange_z, same);
            lemma_layers_are_consecutive(s, e + 1, s[e]->LayerChange_z, same);
            let all = layers_from(s, i, height, same);
            assert(all == seq![LayerBatch { start: i as usize, end: e as usize, extrudes: extrudes_between(s, i, e) }] + next);
            assert forall|k: int| 0 <= k < all.len() implies (#[trigger] all[k]).start <= all[k].end < s.len() by {
                if k > 0 {
                    assert(all[k] == next[k - 1]);
                }
            }
            assert forall|k: int| 1 <= k < all.len() implies (#[trigger] all[k]).start == all[k - 1].end + 1 by {
                assert(all[k] == next[k - 1]);
                if k > 1 {
                    assert(all[k - 1] == next[k - 2]);
                    assert(next[k - 1].start == next[k - 2].end + 1);
                } else {
                    assert(next[0].start == e + 1);
                    assert(all[0].end == e);
                }
            }
        }
    }
}

/// Applying speed limits keeps the commands, their number and their kinds:
/// it only ever changes the movement speed of a state change.
pub proof fn lemma_limits_only_change_speeds(
    s: Seq<Command>,
    rs: Seq<(u64, usize, usize)>,
    travel: u64,
    same: spec_fn(u64, u64) -> bool,
    limit: spec_fn(u64, u64) -> u64,
)
    ensures
        with_limits(s, rs, travel, same, limit).len() == s.len(),
        forall|i: int|
            0 <= i < s.len() ==> match s[i] {
                Command::SetState { new_state } => #[trigger] with_limits(s, rs, travel, same, limit)[i]
                    matches Command::SetState { new_state: n } && n == (StateChange {
                    movement_speed: n.movement_speed,
                    ..new_state
                }) && (new_state.movement_speed is None ==> n.movement_speed is None),
                _ => with_limits(s, rs, travel, same, limit)[i] == s[i],
            },
    decreases rs.len(),
{
    if rs.len() > 0 {
        lemma_limits_only_change_speeds(s, rs.drop_last(), travel, same, limit);
    }
}

} // verus!
