//! Passes that shorten a list of commands without changing what the printer does.
use crate::commands::{
    combined, coord_eq, diff, float_eq, lemma_combine_associative, lemma_combine_neutral,
    lemma_diff_reaches_same_state, lemma_same_state_equivalence, no_change, same_coord, same_float,
    same_state, Command, Coord, StateChange,
};
use vstd::prelude::*;

verus! {

/// Whether a command achieves anything.
pub open spec fn is_useful(c: Command) -> bool {
    match c {
        Command::MoveTo { .. } => true,
        Command::MoveAndExtrude { start, end, .. } => !coord_eq(start, end),
        Command::LayerChange { .. } => true,
        Command::ChangeObject { .. } => true,
        Command::SetState { new_state } => new_state != no_change(),
        Command::Delay { msec } => msec != 0,
        Command::Arc { start, end, center, .. } => !coord_eq(start, end) || !coord_eq(start, center),
        Command::NoAction => false,
    }
}

/// The useful commands of a list, in order.
pub open spec fn useful_commands(s: Seq<Command>) -> Seq<Command>
    decreases s.len(),
{
    if s.len() == 0 {
        s
    } else if is_useful(s.last()) {
        useful_commands(s.drop_last()).push(s.last())
    } else {
        useful_commands(s.drop_last())
    }
}

fn check_useful(c: &Command) -> (b: bool)
    ensures
        b == is_useful(*c),
{
    match c {
        Command::MoveTo { .. } => true,
        Command::MoveAndExtrude { start, end, .. } => !same_coord(*start, *end),
        Command::LayerChange { .. } | Command::ChangeObject { .. } => true,
        Command::SetState { new_state } => {
            !(new_state.acceleration.is_none() && new_state.movement_speed.is_none()
                && new_state.fan_speed.is_none() && new_state.retract.is_none()
                && new_state.extruder_temp.is_none() && new_state.bed_temp.is_none())
        },
        Command::Delay { msec } => *msec != 0,
        Command::Arc { start, end, center, .. } => !same_coord(*start, *end) || !same_coord(
            *start,
            *center,
        ),
        Command::NoAction => false,
    }
}

/// Removes the commands that don't achieve anything.
pub fn unary_optimizer(cmds: &mut Vec<Command>)
    ensures
        final(cmds)@ == useful_commands(old(cmds)@),
{
    let ghost orig = cmds@;
    let mut out: Vec<Command> = Vec::new();
    let mut i: usize = 0;
    while i < cmds.len()
        invariant
            cmds@ == orig,
            i <= orig.len(),
            out@ == useful_commands(orig.take(i as int)),
        decreases orig.len() - i,
    {
        let c = cmds[i];
        assert(orig.take(i + 1).drop_last() == orig.take(i as int));
        if check_useful(&c) {
            out.push(c);
        }
        i = i + 1;
    }
    assert(orig.take(orig.len() as int) == orig);
    *cmds = out;
}

/// Replaces every state change by the difference it makes to the state the
/// printer is in at that point, starting from the empty state; a field that
/// already holds an equal number keeps its value. Returns the new list and
/// the state at its end.
pub open spec fn state_pass(s: Seq<Command>) -> (Seq<Command>, StateChange)
    decreases s.len(),
{
    if s.len() == 0 {
        (Seq::empty(), no_change())
    } else {
        let (out, state) = state_pass(s.drop_last());
        match s.last() {
            Command::SetState { new_state } => (
                out.push(Command::SetState { new_state: diff(state, new_state) }),
                combined(state, diff(state, new_state)),
            ),
            _ => (out.push(s.last()), state),
        }
    }
}

/// Removes from every state change what the printer state already holds.
pub fn state_optomizer(cmds: &mut Vec<Command>)
    ensures
        final(cmds)@ == state_pass(old(cmds)@).0,
{
    let ghost orig = cmds@;
    let mut current_state = StateChange::default();
    let mut i: usize = 0;
    while i < cmds.len()
        invariant
            cmds@.len() == orig.len(),
            i <= orig.len(),
            cmds@.take(i as int) == state_pass(orig.take(i as int)).0,
            current_state == state_pass(orig.take(i as int)).1,
            forall|k: int| i <= k < orig.len() ==> #[trigger] cmds@[k] == orig[k],
        decreases orig.len() - i,
    {
        assert(orig.take(i + 1).drop_last() == orig.take(i as int));
        let c = cmds[i];
        assert(c == orig[i as int]);
        let ghost before = cmds@;
        match c {
            Command::SetState { new_state } => {
                let d = current_state.state_diff(&new_state);
                cmds[i] = Command::SetState { new_state: d };
            },
            _ => {},
        }
        assert(cmds@.take(i + 1) == before.take(i as int).push(cmds@[i as int]));
        i = i + 1;
    }
    assert(orig.take(orig.len() as int) == orig);
    assert(cmds@.take(cmds@.len() as int) == cmds@);
}

/// The printer state after performing a list of commands from the empty
/// state: every state change applied in order.
pub open spec fn printer_state(s: Seq<Command>) -> StateChange
    decreases s.len(),
{
    if s.len() == 0 {
        no_change()
    } else {
        match s.last() {
            Command::SetState { new_state } => combined(printer_state(s.drop_last()), new_state),
            _ => printer_state(s.drop_last()),
        }
    }
}

proof fn lemma_state_pass(s: Seq<Command>)
    ensures
        printer_state(state_pass(s).0) == state_pass(s).1,
        same_state(state_pass(s).1, printer_state(s)),
        state_pass(s).0.len() == s.len(),
    decreases s.len(),
{
    if s.len() > 0 {
        lemma_state_pass(s.drop_last());
        let (out, state) = state_pass(s.drop_last());
        assert(state_pass(s).0.drop_last() == out);
        match s.last() {
            Command::SetState { new_state } => {
                lemma_diff_reaches_same_state(state, new_state);
                lemma_same_state_equivalence(
                    state,
                    printer_state(s.drop_last()),
                    combined(state, diff(state, new_state)),
                    new_state,
                );
                lemma_same_state_equivalence(
                    combined(state, diff(state, new_state)),
                    combined(state, new_state),
                    combined(printer_state(s.drop_last()), new_state),
                    new_state,
                );
            },
            _ => {},
        }
    }
}

/// Replacing state changes by their differences leaves the printer holding
/// the same numbers and retraction after the whole list.
pub proof fn lemma_state_optomizer_keeps_state(s: Seq<Command>)
    ensures
        same_state(printer_state(state_pass(s).0), printer_state(s)),
        state_pass(s).0.len() == s.len(),
{
    lemma_state_pass(s);
}

/// Removing the commands that achieve nothing leaves the printer in the same
/// state after the whole list.
pub proof fn lemma_unary_optimizer_keeps_state(s: Seq<Command>)
    ensures
        printer_state(useful_commands(s)) == printer_state(s),
        useful_commands(s).len() <= s.len(),
    decreases s.len(),
{
    if s.len() > 0 {
        lemma_unary_optimizer_keeps_state(s.drop_last());
        if is_useful(s.last()) {
            assert(useful_commands(s).drop_last() == useful_commands(s.drop_last()));
        } else {
            match s.last() {
                Command::SetState { new_state } => {
                    lemma_combine_neutral(printer_state(s.drop_last()));
                },
                _ => {},
            }
        }
    }
}


/// A decision on three points made outside the crate: defined for all points
/// and giving one answer for the same points.
pub open spec fn decides3<F: Fn(Coord, Coord, Coord) -> bool>(f: &F) -> bool {
    &&& forall|a: Coord, b: Coord, c: Coord| f.requires((a, b, c))
    &&& forall|a: Coord, b: Coord, c: Coord, r1: bool, r2: bool|
        f.ensures((a, b, c), r1) && f.ensures((a, b, c), r2) ==> r1 == r2
}

/// A decision on two points made outside the crate: defined for all points
/// and giving one answer for the same points.
pub open spec fn decides2<G: Fn(Coord, Coord) -> bool>(g: &G) -> bool {
    &&& forall|a: Coord, b: Coord| g.requires((a, b))
    &&& forall|a: Coord, b: Coord, r1: bool, r2: bool|
        g.ensures((a, b), r1) && g.ensures((a, b), r2) ==> r1 == r2
}

/// The answer of a three-point decision.
pub open spec fn answer3<F: Fn(Coord, Coord, Coord) -> bool>(f: &F) -> spec_fn(
    Coord,
    Coord,
    Coord,
) -> bool {
    |a: Coord, b: Coord, c: Coord| f.ensures((a, b, c), true)
}

/// The answer of a two-point decision.
pub open spec fn answer2<G: Fn(Coord, Coord) -> bool>(g: &G) -> spec_fn(Coord, Coord) -> bool {
    |a: Coord, b: Coord| g.ensures((a, b), true)
}

/// One step of merging neighbouring commands. `pos` is where the head was
/// last sent. `colinear(a, b, c)` says that `a`, `b` and `c` lie on one line;
/// `short_travel(a, b)` says that a travel from `a` to `b` is too short to be
/// worth a retraction. Returns the new position and either the one command
/// that replaces both, or the two commands to keep (the first possibly with
/// its retraction dropped).
pub open spec fn merge_step(
    pos: Coord,
    first: Command,
    second: Command,
    colinear: spec_fn(Coord, Coord, Coord) -> bool,
    short_travel: spec_fn(Coord, Coord) -> bool,
) -> (Coord, Result<Command, (Command, Command)>) {
    match first {
        Command::MoveAndExtrude { start: fs, end: fe, thickness: ft, width: fw } => match second {
            Command::MoveAndExtrude { start: ss, end: se, thickness: st, width: sw } => {
                if coord_eq(fe, ss) && float_eq(sw, fw) && float_eq(st, ft) && colinear(fs, ss, se) {
                    (se, Ok(Command::MoveAndExtrude { start: fs, end: se, thickness: ft, width: sw }))
                } else {
                    (se, Err((first, second)))
                }
            },
            Command::MoveTo { end } => (end, Err((first, second))),
            _ => (pos, Err((first, second))),
        },
        Command::MoveTo { .. } => match second {
            Command::MoveTo { end } => (end, Ok(Command::MoveTo { end })),
            Command::MoveAndExtrude { end, .. } => (end, Err((first, second))),
            _ => (pos, Err((first, second))),
        },
        Command::Delay { msec: t1 } => match second {
            Command::Delay { msec: t2 } => (pos, Ok(Command::Delay { msec: (t1 + t2) as u64 })),
            Command::MoveAndExtrude { end, .. } => (end, Err((first, second))),
            Command::MoveTo { end } => (end, Err((first, second))),
            _ => (pos, Err((first, second))),
        },
        Command::ChangeObject { .. } => match second {
            Command::ChangeObject { object } => (pos, Ok(Command::ChangeObject { object })),
            Command::MoveAndExtrude { end, .. } => (end, Err((first, second))),
            Command::MoveTo { end } => (end, Err((first, second))),
            _ => (pos, Err((first, second))),
        },
        Command::SetState { new_state: fst } => match second {
            Command::SetState { new_state: sst } => (
                pos,
                Ok(Command::SetState { new_state: combined(fst, sst) }),
            ),
            Command::MoveTo { end } => {
                if fst.retract == Some(true) && short_travel(pos, end) {
                    (
                        end,
                        Err(
                            (
                                Command::SetState {
                                    new_state: StateChange { retract: None, ..fst },
                                },
                                second,
                            ),
                        ),
                    )
                } else {
                    (end, Err((first, second)))
                }
            },
            Command::MoveAndExtrude { end, .. } => (end, Err((first, second))),
            _ => (pos, Err((first, second))),
        },
        _ => match second {
            Command::MoveAndExtrude { end, .. } => (end, Err((first, second))),
            Command::MoveTo { end } => (end, Err((first, second))),
            _ => (pos, Err((first, second))),
        },
    }
}

/// Merging neighbouring commands along a list, as far as it got: the commands
/// that are final, the command still open to merging, and the position.
pub open spec fn coalesce_state(
    s: Seq<Command>,
    colinear: spec_fn(Coord, Coord, Coord) -> bool,
    short_travel: spec_fn(Coord, Coord) -> bool,
) -> (Seq<Command>, Option<Command>, Coord)
    decreases s.len(),
{
    if s.len() == 0 {
        (Seq::empty(), None, Coord { x: 0, y: 0 })
    } else {
        let (out, last, pos) = coalesce_state(s.drop_last(), colinear, short_travel);
        match last {
            None => (out, Some(s.last()), pos),
            Some(l) => {
                let (p2, r) = merge_step(pos, l, s.last(), colinear, short_travel);
                match r {
                    Ok(m) => (out, Some(m), p2),
                    Err((a, b)) => (out.push(a), Some(b), p2),
                }
            },
        }
    }
}

/// The commands of a list once neighbouring commands have been merged.
pub open spec fn coalesced(
    s: Seq<Command>,
    colinear: spec_fn(Coord, Coord, Coord) -> bool,
    short_travel: spec_fn(Coord, Coord) -> bool,
) -> Seq<Command> {
    let (out, last, _) = coalesce_state(s, colinear, short_travel);
    match last {
        None => out,
        Some(l) => out.push(l),
    }
}

/// The total of the delays at the end of a list, back to the first command
/// that is not a delay.
pub open spec fn trailing_delay(s: Seq<Command>) -> int
    decreases s.len(),
{
    if s.len() == 0 {
        0
    } else {
        match s.last() {
            Command::Delay { msec } => trailing_delay(s.drop_last()) + msec,
            _ => 0,
        }
    }
}

/// Every run of consecutive delays adds up to a number of milliseconds that
/// fits a `u64`.
pub open spec fn delay_runs_fit(s: Seq<Command>) -> bool {
    forall|i: int| 0 <= i <= s.len() ==> #[trigger] trailing_delay(s.take(i)) <= u64::MAX
}

/// The command left open by a merge step: the merged one, or the second.
pub open spec fn open_after(r: Result<Command, (Command, Command)>) -> Command {
    match r {
        Ok(m) => m,
        Err((_, b)) => b,
    }
}

proof fn lemma_merge_step_delay(
    pos: Coord,
    first: Command,
    second: Command,
    colinear: spec_fn(Coord, Coord, Coord) -> bool,
    short_travel: spec_fn(Coord, Coord) -> bool,
)
    ensures
        ({
            let r = merge_step(pos, first, second, colinear, short_travel).1;
            &&& (open_after(r) is Delay) == (second is Delay)
            &&& (first is Delay && second is Delay) ==> r == Ok::<Command, (Command, Command)>(
                Command::Delay { msec: (first->Delay_msec + second->Delay_msec) as u64 },
            )
            &&& (!(first is Delay) && second is Delay) ==> open_after(r) == second
        }),
{
    match first {
        Command::MoveAndExtrude { .. } => match second {
            Command::MoveAndExtrude { .. } => {},
            _ => {},
        },
        Command::SetState { .. } => match second {
            Command::MoveTo { .. } => {},
            _ => {},
        },
        _ => {},
    }
}

proof fn lemma_coalesce_delay(
    s: Seq<Command>,
    colinear: spec_fn(Coord, Coord, Coord) -> bool,
    short_travel: spec_fn(Coord, Coord) -> bool,
)
    requires
        delay_runs_fit(s),
    ensures
        (s.len() > 0 && s.last() is Delay) <==> (coalesce_state(s, colinear, short_travel).1 matches Some(Command::Delay { .. })),
        coalesce_state(s, colinear, short_travel).1 matches Some(Command::Delay { msec }) ==> msec == trailing_delay(s),
        s.len() > 0 <==> coalesce_state(s, colinear, short_travel).1 is Some,
        coalesce_state(s, colinear, short_travel).0.len() + 1 <= s.len() || s.len() == 0,
        coalesced(s, colinear, short_travel).len() <= s.len(),
    decreases s.len(),
{
    if s.len() > 0 {
        let p = s.drop_last();
        assert forall|i: int| 0 <= i <= p.len() implies #[trigger] trailing_delay(p.take(i))
            <= u64::MAX by {
            assert(p.take(i) == s.take(i));
        }
        lemma_coalesce_delay(p, colinear, short_travel);
        assert(s.take(s.len() as int) == s);
        assert(trailing_delay(s) <= u64::MAX);
        let (out, last, pos) = coalesce_state(p, colinear, short_travel);
        match last {
            None => {
                assert(p.len() == 0);
                assert(coalesce_state(s, colinear, short_travel).1 == Some(s.last()));
                if s.last() is Delay {
                    assert(trailing_delay(s) == trailing_delay(p) + s.last()->Delay_msec);
                }
            },
            Some(l) => {
                lemma_merge_step_delay(pos, l, s.last(), colinear, short_travel);
                if !(l is Delay) {
                    assert(trailing_delay(s.drop_last()) == 0);
                }
                if !(l is Delay) && s.last() is Delay {
                    assert(coalesce_state(s, colinear, short_travel).1 == Some(s.last()));
                    assert(trailing_delay(s) == trailing_delay(p) + s.last()->Delay_msec);
                }
                if l is Delay && s.last() is Delay {
                    assert(l->Delay_msec == trailing_delay(p));
                    assert(trailing_delay(s) == trailing_delay(p) + s.last()->Delay_msec);
                    assert(coalesce_state(s, colinear, short_travel).1 == Some(
                        Command::Delay { msec: (l->Delay_msec + s.last()->Delay_msec) as u64 },
                    ));
                }
            },
        }
    }
}

/// Merges neighbouring commands that can be done as one: collinear extrusions
/// of the same size, consecutive travels, consecutive delays, consecutive
/// object changes and consecutive state changes; a retraction before a travel
/// that `short_travel` finds too short is dropped.
///
/// `colinear(a, b, c)` decides whether `a`, `b` and `c` lie on one line and
/// `short_travel(a, b)` whether a travel from `a` to `b` is shorter than the
/// minimum retraction distance; both are computed on floating-point values
/// outside this crate.
pub fn binary_optimizer<F: Fn(Coord, Coord, Coord) -> bool, G: Fn(Coord, Coord) -> bool>(
    cmds: &mut Vec<Command>,
    colinear: &F,
    short_travel: &G,
)
    requires
        decides3(colinear),
        decides2(short_travel),
        delay_runs_fit(old(cmds)@),
    ensures
        final(cmds)@ == coalesced(old(cmds)@, answer3(colinear), answer2(short_travel)),
{
    let ghost orig = cmds@;
    let ghost col = answer3(colinear);
    let ghost short = answer2(short_travel);
    let mut out: Vec<Command> = Vec::new();
    let mut last: Option<Command> = None;
    let mut pos = Coord::zero();
    let mut i: usize = 0;
    while i < cmds.len()
        invariant
            cmds@ == orig,
            i <= orig.len(),
            decides3(colinear),
            decides2(short_travel),
            delay_runs_fit(orig),
            col == answer3(colinear),
            short == answer2(short_travel),
            (out@, last, pos) == coalesce_state(orig.take(i as int), col, short),
        decreases orig.len() - i,
    {
        let c = cmds[i];
        let ghost prefix = orig.take(i as int);
        assert(orig.take(i + 1).drop_last() == prefix);
        assert(orig.take(i + 1).last() == c);
        proof {
            assert forall|k: int| 0 <= k <= prefix.len() implies #[trigger] trailing_delay(
                prefix.take(k),
            ) <= u64::MAX by {
                assert(prefix.take(k) == orig.take(k));
            }
            lemma_coalesce_delay(prefix, col, short);
            assert(trailing_delay(orig.take(i + 1)) <= u64::MAX);
        }
        match last {
            None => {
                last = Some(c);
            },
            Some(l) => {
                let (p2, r) = merge_step_exec(pos, l, c, colinear, short_travel);
                pos = p2;
                match r {
                    Ok(m) => {
                        last = Some(m);
                    },
                    Err((a, b)) => {
                        out.push(a);
                        last = Some(b);
                    },
                }
            },
        }
        i = i + 1;
    }
    assert(orig.take(orig.len() as int) == orig);
    match last {
        Some(l) => {
            out.push(l);
        },
        None => {},
    }
    *cmds = out;
}

fn merge_step_exec<F: Fn(Coord, Coord, Coord) -> bool, G: Fn(Coord, Coord) -> bool>(
    pos: Coord,
    first: Command,
    second: Command,
    colinear: &F,
    short_travel: &G,
) -> (r: (Coord, Result<Command, (Command, Command)>))
    requires
        decides3(colinear),
        decides2(short_travel),
        first is Delay && second is Delay ==> first->Delay_msec + second->Delay_msec <= u64::MAX,
    ensures
        r == merge_step(pos, first, second, answer3(colinear), answer2(short_travel)),
{
    let second_end: Option<Coord> = match second {
        Command::MoveAndExtrude { end, .. } => Some(end),
        Command::MoveTo { end } => Some(end),
        _ => None,
    };
    let keep_pos = match second_end {
        Some(e) => e,
        None => pos,
    };
    match first {
        Command::MoveAndExtrude { start: fs, end: fe, thickness: ft, width: fw } => {
            if let Command::MoveAndExtrude { start: ss, end: se, thickness: st, width: sw } = second {
                if same_coord(fe, ss) && same_float(sw, fw) && same_float(st, ft) {
                    let c = colinear(fs, ss, se);
                    assert(c == answer3(colinear)(fs, ss, se)) by {
                        if !c && answer3(colinear)(fs, ss, se) {
                            assert(colinear.ensures((fs, ss, se), true));
                        }
                    }
                    if c {
                        return (
                            se,
                            Ok(Command::MoveAndExtrude { start: fs, end: se, thickness: ft, width: sw }),
                        );
                    }
                }
                return (se, Err((first, second)));
            }
            (keep_pos, Err((first, second)))
        },
        Command::MoveTo { .. } => {
            if let Command::MoveTo { end } = second {
                return (end, Ok(Command::MoveTo { end }));
            }
            (keep_pos, Err((first, second)))
        },
        Command::Delay { msec: t1 } => {
            if let Command::Delay { msec: t2 } = second {
                return (pos, Ok(Command::Delay { msec: t1 + t2 }));
            }
            (keep_pos, Err((first, second)))
        },
        Command::ChangeObject { .. } => {
            if let Command::ChangeObject { object } = second {
                return (pos, Ok(Command::ChangeObject { object }));
            }
            (keep_pos, Err((first, second)))
        },
        Command::SetState { new_state: fst } => {
            if let Command::SetState { new_state: sst } = second {
                return (pos, Ok(Command::SetState { new_state: fst.combine(&sst) }));
            }
            if let Command::MoveTo { end } = second {
                if fst.retract == Some(true) {
                    let sh = short_travel(pos, end);
                    assert(sh == answer2(short_travel)(pos, end)) by {
                        if !sh && answer2(short_travel)(pos, end) {
                            assert(short_travel.ensures((pos, end), true));
                        }
                    }
                    if sh {
                        let mut no_retract = fst;
                        no_retract.retract = None;
                        return (end, Err((Command::SetState { new_state: no_retract }, second)));
                    }
                }
                return (end, Err((first, second)));
            }
            (keep_pos, Err((first, second)))
        },
        _ => (keep_pos, Err((first, second))),
    }
}


/// The total of all delays of a list, in milliseconds.
pub open spec fn delay_total(s: Seq<Command>) -> int
    decreases s.len(),
{
    if s.len() == 0 {
        0
    } else {
        match s.last() {
            Command::Delay { msec } => delay_total(s.drop_last()) + msec,
            _ => delay_total(s.drop_last()),
        }
    }
}

/// The delay held by an open command, if it is one.
pub open spec fn delay_of(c: Option<Command>) -> int {
    match c {
        Some(Command::Delay { msec }) => msec as int,
        _ => 0,
    }
}

proof fn lemma_trailing_below_total(s: Seq<Command>)
    ensures
        0 <= trailing_delay(s) <= delay_total(s),
        0 <= delay_total(s),
    decreases s.len(),
{
    if s.len() > 0 {
        lemma_trailing_below_total(s.drop_last());
    }
}

proof fn lemma_total_prefix(s: Seq<Command>, i: int)
    requires
        0 <= i <= s.len(),
    ensures
        delay_total(s.take(i)) <= delay_total(s),
    decreases s.len() - i,
{
    if i < s.len() {
        lemma_total_prefix(s, i + 1);
        assert(s.take(i + 1).drop_last() == s.take(i));
        lemma_trailing_below_total(s.take(i));
    } else {
        assert(s.take(i) == s);
    }
}

/// Lists whose delays add up to a `u64` have every run of delays fit too.
proof fn lemma_total_fits_runs(s: Seq<Command>)
    requires
        delay_total(s) <= u64::MAX,
    ensures
        delay_runs_fit(s),
{
    assert forall|i: int| 0 <= i <= s.len() implies #[trigger] trailing_delay(s.take(i))
        <= u64::MAX by {
        lemma_total_prefix(s, i);
        lemma_trailing_below_total(s.take(i));
    }
}

proof fn lemma_state_pass_delays(s: Seq<Command>)
    ensures
        delay_total(state_pass(s).0) == delay_total(s),
    decreases s.len(),
{
    if s.len() > 0 {
        lemma_state_pass_delays(s.drop_last());
        assert(state_pass(s).0.drop_last() == state_pass(s.drop_last()).0);
    }
}

proof fn lemma_useful_delays(s: Seq<Command>)
    ensures
        delay_total(useful_commands(s)) <= delay_total(s),
    decreases s.len(),
{
    if s.len() > 0 {
        lemma_useful_delays(s.drop_last());
        if is_useful(s.last()) {
            assert(useful_commands(s).drop_last() == useful_commands(s.drop_last()));
        }
        lemma_trailing_below_total(s.drop_last());
    }
}

proof fn lemma_coalesce_state_delays(
    s: Seq<Command>,
    colinear: spec_fn(Coord, Coord, Coord) -> bool,
    short_travel: spec_fn(Coord, Coord) -> bool,
)
    requires
        delay_runs_fit(s),
    ensures
        delay_total(coalesce_state(s, colinear, short_travel).0) + delay_of(
            coalesce_state(s, colinear, short_travel).1,
        ) == delay_total(s),
    decreases s.len(),
{
    if s.len() > 0 {
        let p = s.drop_last();
        assert forall|i: int| 0 <= i <= p.len() implies #[trigger] trailing_delay(p.take(i))
            <= u64::MAX by {
            assert(p.take(i) == s.take(i));
        }
        lemma_coalesce_state_delays(p, colinear, short_travel);
        lemma_coalesce_delay(p, colinear, short_travel);
        lemma_coalesce_delay(s, colinear, short_travel);
        let (out, last, pos) = coalesce_state(p, colinear, short_travel);
        match last {
            None => {},
            Some(l) => {
                lemma_merge_step_delay(pos, l, s.last(), colinear, short_travel);
                let r = merge_step(pos, l, s.last(), colinear, short_travel).1;
                match r {
                    Ok(m) => {},
                    Err((a, b)) => {
                        assert(out.push(a).drop_last() == out);
                        if a is Delay {
                            assert(l is Delay);
                        }
                    },
                }
            },
        }
    }
}

/// Merging neighbouring commands keeps the total delay and never lengthens the list.
pub proof fn lemma_coalesced_delays(
    s: Seq<Command>,
    colinear: spec_fn(Coord, Coord, Coord) -> bool,
    short_travel: spec_fn(Coord, Coord) -> bool,
)
    requires
        delay_runs_fit(s),
    ensures
        delay_total(coalesced(s, colinear, short_travel)) == delay_total(s),
        coalesced(s, colinear, short_travel).len() <= s.len(),
{
    lemma_coalesce_state_delays(s, colinear, short_travel);
    lemma_coalesce_delay(s, colinear, short_travel);
    let (out, last, _) = coalesce_state(s, colinear, short_travel);
    match last {
        Some(l) => {
            assert(out.push(l).drop_last() == out);
        },
        None => {},
    }
}

/// One round of the optimizer: state changes reduced to differences, useless
/// commands removed, neighbouring commands merged.
pub open spec fn optimize_round(
    s: Seq<Command>,
    colinear: spec_fn(Coord, Coord, Coord) -> bool,
    short_travel: spec_fn(Coord, Coord) -> bool,
) -> Seq<Command> {
    coalesced(useful_commands(state_pass(s).0), colinear, short_travel)
}

/// Rounds of the optimizer until a round no longer shortens the list.
pub open spec fn optimize_until_stable(
    s: Seq<Command>,
    colinear: spec_fn(Coord, Coord, Coord) -> bool,
    short_travel: spec_fn(Coord, Coord) -> bool,
) -> Seq<Command>
    decreases s.len(),
{
    let t = optimize_round(s, colinear, short_travel);
    if t.len() < s.len() {
        optimize_until_stable(t, colinear, short_travel)
    } else {
        t
    }
}

/// A round never lengthens the list nor adds delay.
pub proof fn lemma_optimize_round(
    s: Seq<Command>,
    colinear: spec_fn(Coord, Coord, Coord) -> bool,
    short_travel: spec_fn(Coord, Coord) -> bool,
)
    requires
        delay_total(s) <= u64::MAX,
    ensures
        optimize_round(s, colinear, short_travel).len() <= s.len(),
        delay_total(optimize_round(s, colinear, short_travel)) <= delay_total(s),
{
    let a = state_pass(s).0;
    lemma_state_pass_delays(s);
    lemma_state_optomizer_keeps_state(s);
    let b = useful_commands(a);
    lemma_useful_delays(a);
    lemma_unary_optimizer_keeps_state(a);
    lemma_trailing_below_total(b);
    lemma_total_fits_runs(b);
    lemma_coalesced_delays(b, colinear, short_travel);
}

/// Every round of the optimizer can add up the delays it merges: before each
/// merging, every run of consecutive delays fits a `u64`.
pub open spec fn rounds_fit(
    s: Seq<Command>,
    colinear: spec_fn(Coord, Coord, Coord) -> bool,
    short_travel: spec_fn(Coord, Coord) -> bool,
) -> bool
    decreases s.len(),
{
    let b = useful_commands(state_pass(s).0);
    if !delay_runs_fit(b) {
        false
    } else {
        let t = coalesced(b, colinear, short_travel);
        if t.len() < s.len() {
            rounds_fit(t, colinear, short_travel)
        } else {
            true
        }
    }
}

/// Computes `delay_runs_fit`.
pub fn delay_runs_fit_check(cmds: &Vec<Command>) -> (b: bool)
    ensures
        b == delay_runs_fit(cmds@),
{
    let ghost s = cmds@;
    let mut acc: u64 = 0;
    let mut i: usize = 0;
    assert(s.take(0) == Seq::<Command>::empty());
    while i < cmds.len()
        invariant
            s == cmds@,
            i <= s.len(),
            acc == trailing_delay(s.take(i as int)),
            forall|j: int| 0 <= j <= i ==> #[trigger] trailing_delay(s.take(j)) <= u64::MAX,
        decreases s.len() - i,
    {
        assert(s.take(i + 1).drop_last() == s.take(i as int));
        assert(s.take(i + 1).last() == s[i as int]);
        match cmds[i] {
            Command::Delay { msec } => {
                match acc.checked_add(msec) {
                    Some(t) => {
                        acc = t;
                    },
                    None => {
                        assert(trailing_delay(s.take(i + 1)) > u64::MAX);
                        return false;
                    },
                }
            },
            _ => {
                acc = 0;
            },
        }
        i = i + 1;
    }
    assert(s.take(s.len() as int) == s);
    true
}

/// Optimizes the commands: rounds of state reduction, removal of useless
/// commands and merging of neighbours, until a round no longer shortens the list.
pub struct OptimizePass {}

impl OptimizePass {
    /// Runs the optimizer. The delays that a round merges are added together,
    /// so each of them must fit a `u64` (`rounds_fit`).
    pub fn pass<F: Fn(Coord, Coord, Coord) -> bool, G: Fn(Coord, Coord) -> bool>(
        cmds: &mut Vec<Command>,
        colinear: &F,
        short_travel: &G,
    )
        requires
            decides3(colinear),
            decides2(short_travel),
            rounds_fit(old(cmds)@, answer3(colinear), answer2(short_travel)),
        ensures
            final(cmds)@ == optimize_until_stable(
                old(cmds)@,
                answer3(colinear),
                answer2(short_travel),
            ),
    {
        let ghost col = answer3(colinear);
        let ghost short = answer2(short_travel);
        let ghost target = optimize_until_stable(cmds@, col, short);
        let mut size = cmds.len();
        loop
            invariant_except_break
                decides3(colinear),
                decides2(short_travel),
                col == answer3(colinear),
                short == answer2(short_travel),
                size == cmds@.len(),
                rounds_fit(cmds@, col, short),
                optimize_until_stable(cmds@, col, short) == target,
            ensures
                cmds@ == target,
            decreases cmds@.len(),
        {
            let ghost before = cmds@;
            proof {
                lemma_state_optomizer_keeps_state(before);
                lemma_unary_optimizer_keeps_state(state_pass(before).0);
                lemma_coalesced_delays(useful_commands(state_pass(before).0), col, short);
            }
            state_optomizer(cmds);
            unary_optimizer(cmds);
            binary_optimizer(cmds, colinear, short_travel);
            assert(cmds@ == optimize_round(before, col, short));
            if cmds.len() == size {
                assert(optimize_until_stable(before, col, short) == cmds@);
                break;
            }
            size = cmds.len();
        }
    }
}

impl OptimizePass {
    /// Whether the optimizer can run on these commands (`rounds_fit`): the
    /// rounds are run on a copy, and the delays checked before each merging.
    pub fn fits<F: Fn(Coord, Coord, Coord) -> bool, G: Fn(Coord, Coord) -> bool>(
        cmds: &Vec<Command>,
        colinear: &F,
        short_travel: &G,
    ) -> (b: bool)
        requires
            decides3(colinear),
            decides2(short_travel),
        ensures
            b == rounds_fit(cmds@, answer3(colinear), answer2(short_travel)),
    {
        let ghost col = answer3(colinear);
        let ghost short = answer2(short_travel);
        let ghost target = rounds_fit(cmds@, col, short);
        let mut v: Vec<Command> = Vec::new();
        let mut i: usize = 0;
        while i < cmds.len()
            invariant
                i <= cmds@.len(),
                v@ == cmds@.take(i as int),
            decreases cmds@.len() - i,
        {
            v.push(cmds[i]);
            assert(cmds@.take(i + 1) == cmds@.take(i as int).push(cmds@[i as int]));
            i = i + 1;
        }
        assert(cmds@.take(cmds@.len() as int) == cmds@);
        loop
            invariant
                decides3(colinear),
                decides2(short_travel),
                col == answer3(colinear),
                short == answer2(short_travel),
                target == rounds_fit(cmds@, answer3(colinear), answer2(short_travel)),
                rounds_fit(v@, col, short) == target,
            decreases v@.len(),
        {
            let ghost before = v@;
            let size = v.len();
            state_optomizer(&mut v);
            unary_optimizer(&mut v);
            if !delay_runs_fit_check(&v) {
                return false;
            }
            proof {
                lemma_state_optomizer_keeps_state(before);
                lemma_unary_optimizer_keeps_state(state_pass(before).0);
                lemma_coalesced_delays(v@, col, short);
            }
            binary_optimizer(&mut v, colinear, short_travel);
            if v.len() >= size {
                return true;
            }
        }
    }
}

/// A printer state with its retraction left out.
pub open spec fn retract_free(s: StateChange) -> StateChange {
    StateChange { retract: None, ..s }
}

/// The commands still in hand while merging: the final ones and the open one.
pub open spec fn flushed(out: Seq<Command>, last: Option<Command>) -> Seq<Command> {
    match last {
        None => out,
        Some(l) => out.push(l),
    }
}

proof fn lemma_same_after(a: Seq<Command>, b: Seq<Command>, t: Seq<Command>)
    requires
        retract_free(printer_state(a)) == retract_free(printer_state(b)),
    ensures
        retract_free(printer_state(a + t)) == retract_free(printer_state(b + t)),
    decreases t.len(),
{
    if t.len() == 0 {
        assert(a + t == a);
        assert(b + t == b);
    } else {
        lemma_same_after(a, b, t.drop_last());
        assert((a + t).drop_last() == a + t.drop_last());
        assert((b + t).drop_last() == b + t.drop_last());
        assert((a + t).last() == t.last());
        assert((b + t).last() == t.last());
    }
}

proof fn lemma_merge_step_keeps_state(
    out: Seq<Command>,
    pos: Coord,
    l: Command,
    c: Command,
    colinear: spec_fn(Coord, Coord, Coord) -> bool,
    short_travel: spec_fn(Coord, Coord) -> bool,
)
    ensures
        match merge_step(pos, l, c, colinear, short_travel).1 {
            Ok(m) => retract_free(printer_state(out.push(m))) == retract_free(
                printer_state(out.push(l).push(c)),
            ),
            Err((a, b)) => retract_free(printer_state(out.push(a).push(b))) == retract_free(
                printer_state(out.push(l).push(c)),
            ),
        },
{
    reveal_with_fuel(printer_state, 3);
    assert(out.push(l).push(c).drop_last() == out.push(l));
    assert(out.push(l).drop_last() == out);
    let p = printer_state(out);
    if l is SetState && c is SetState {
        let f = l->SetState_new_state;
        let g = c->SetState_new_state;
        lemma_combine_associative(p, f, g);
        assert(out.push(Command::SetState { new_state: combined(f, g) }).drop_last() == out);
    } else {
        match merge_step(pos, l, c, colinear, short_travel).1 {
            Ok(m) => {
                assert(out.push(m).drop_last() == out);
                assert(!(m is SetState));
                assert(!(l is SetState) && !(c is SetState));
            },
            Err((a, b)) => {
                assert(out.push(a).push(b).drop_last() == out.push(a));
                assert(out.push(a).drop_last() == out);
                if a != l {
                    assert(l is SetState && c is MoveTo);
                    assert(a == Command::SetState {
                        new_state: StateChange { retract: None, ..l->SetState_new_state },
                    });
                    assert(b == c);
                    assert(retract_free(combined(p, a->SetState_new_state)) == retract_free(
                        combined(p, l->SetState_new_state),
                    ));
                } else {
                    assert(b == c);
                }
            },
        }
    }
}

proof fn lemma_coalesce_keeps_state(
    s: Seq<Command>,
    colinear: spec_fn(Coord, Coord, Coord) -> bool,
    short_travel: spec_fn(Coord, Coord) -> bool,
)
    ensures
        retract_free(
            printer_state(
                flushed(coalesce_state(s, colinear, short_travel).0, coalesce_state(s, colinear, short_travel).1),
            ),
        ) == retract_free(printer_state(s)),
    decreases s.len(),
{
    if s.len() > 0 {
        let init = s.drop_last();
        let c = s.last();
        lemma_coalesce_keeps_state(init, colinear, short_travel);
        let (out, last, pos) = coalesce_state(init, colinear, short_travel);
        lemma_same_after(flushed(out, last), init, seq![c]);
        assert(init + seq![c] == s);
        assert(flushed(out, last) + seq![c] == flushed(out, last).push(c));
        match last {
            None => {},
            Some(l) => {
                lemma_merge_step_keeps_state(out, pos, l, c, colinear, short_travel);
            },
        }
    }
}

/// Merging neighbouring commands leaves the printer with the same
/// temperatures, fan, speed and acceleration after the whole list; only a
/// retraction before a short travel may be dropped.
pub proof fn lemma_binary_optimizer_keeps_state(
    s: Seq<Command>,
    colinear: spec_fn(Coord, Coord, Coord) -> bool,
    short_travel: spec_fn(Coord, Coord) -> bool,
)
    ensures
        retract_free(printer_state(coalesced(s, colinear, short_travel))) == retract_free(
            printer_state(s),
        ),
{
    lemma_coalesce_keeps_state(s, colinear, short_travel);
}

/// The whole optimizer leaves the printer with the same temperatures, fan,
/// speed and acceleration (as numbers) after the list of commands.
pub proof fn lemma_optimizer_keeps_state(
    s: Seq<Command>,
    colinear: spec_fn(Coord, Coord, Coord) -> bool,
    short_travel: spec_fn(Coord, Coord) -> bool,
)
    ensures
        same_state(
            retract_free(printer_state(optimize_until_stable(s, colinear, short_travel))),
            retract_free(printer_state(s)),
        ),
    decreases s.len(),
{
    let a = state_pass(s).0;
    lemma_state_optomizer_keeps_state(s);
    let b = useful_commands(a);
    lemma_unary_optimizer_keeps_state(a);
    lemma_binary_optimizer_keeps_state(b, colinear, short_travel);
    let t = optimize_round(s, colinear, short_travel);
    let pa = retract_free(printer_state(a));
    let ps = retract_free(printer_state(s));
    let pt = retract_free(printer_state(t));
    assert(same_state(pa, ps));
    assert(pt == retract_free(printer_state(b)));
    assert(same_state(pt, ps));
    if t.len() < s.len() {
        lemma_optimizer_keeps_state(t, colinear, short_travel);
        lemma_same_state_equivalence(
            retract_free(printer_state(optimize_until_stable(t, colinear, short_travel))),
            pt,
            ps,
            no_change(),
        );
    } else {
        lemma_same_state_equivalence(ps, ps, ps, no_change());
    }
}

} // verus!
