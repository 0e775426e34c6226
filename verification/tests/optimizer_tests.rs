use gladius_slicer::commands::{same_float, Command, Coord, StateChange};
use gladius_slicer::optimizer::{binary_optimizer, state_optomizer, unary_optimizer, OptimizePass};

fn c(x: f64, y: f64) -> Coord {
    Coord { x: x.to_bits(), y: y.to_bits() }
}

fn colinear(a: Coord, b: Coord, d: Coord) -> bool {
    let (ax, ay) = (f64::from_bits(a.x), f64::from_bits(a.y));
    let (bx, by) = (f64::from_bits(b.x), f64::from_bits(b.y));
    let (dx, dy) = (f64::from_bits(d.x), f64::from_bits(d.y));
    let det = (bx - ax) * (dy - ay) - (by - ay) * (dx - ax);
    det.abs() < 0.00001
}

fn short_travel(a: Coord, b: Coord) -> bool {
    let dx = f64::from_bits(a.x) - f64::from_bits(b.x);
    let dy = f64::from_bits(a.y) - f64::from_bits(b.y);
    (dx * dx + dy * dy).sqrt() < 1.0
}

fn extrude(sx: f64, sy: f64, ex: f64, ey: f64) -> Command {
    Command::MoveAndExtrude { start: c(sx, sy), end: c(ex, ey), thickness: 2, width: 4 }
}

#[test]
fn unary_optimizer_removes_useless_commands() {
    let mut cmds = vec![
        Command::NoAction,
        Command::Delay { msec: 0 },
        Command::Delay { msec: 3 },
        extrude(1.0, 1.0, 1.0, 1.0),
        extrude(1.0, 1.0, 2.0, 1.0),
        Command::SetState { new_state: StateChange::default() },
        Command::SetState { new_state: StateChange { fan_speed: Some(1), ..StateChange::default() } },
        Command::LayerChange { z: 5 },
    ];
    unary_optimizer(&mut cmds);
    assert_eq!(
        cmds,
        vec![
            Command::Delay { msec: 3 },
            extrude(1.0, 1.0, 2.0, 1.0),
            Command::SetState { new_state: StateChange { fan_speed: Some(1), ..StateChange::default() } },
            Command::LayerChange { z: 5 },
        ]
    );
}

#[test]
fn state_optomizer_keeps_only_differences() {
    let s1 = StateChange { extruder_temp: Some(10), fan_speed: Some(1), ..StateChange::default() };
    let s2 = StateChange { extruder_temp: Some(10), fan_speed: Some(2), ..StateChange::default() };
    let mut cmds = vec![
        Command::SetState { new_state: s1.clone() },
        Command::MoveTo { end: c(1.0, 1.0) },
        Command::SetState { new_state: s2 },
    ];
    state_optomizer(&mut cmds);
    assert_eq!(
        cmds,
        vec![
            Command::SetState { new_state: s1 },
            Command::MoveTo { end: c(1.0, 1.0) },
            Command::SetState { new_state: StateChange { fan_speed: Some(2), ..StateChange::default() } },
        ]
    );
}

#[test]
fn binary_optimizer_merges_neighbours() {
    let mut cmds = vec![
        extrude(0.0, 0.0, 1.0, 0.0),
        extrude(1.0, 0.0, 2.0, 0.0),
        extrude(2.0, 0.0, 2.0, 1.0),
        Command::MoveTo { end: c(5.0, 5.0) },
        Command::MoveTo { end: c(6.0, 6.0) },
        Command::Delay { msec: 3 },
        Command::Delay { msec: 4 },
        Command::ChangeObject { object: 1 },
        Command::ChangeObject { object: 2 },
        Command::SetState { new_state: StateChange { bed_temp: Some(1), ..StateChange::default() } },
        Command::SetState { new_state: StateChange { bed_temp: Some(2), fan_speed: Some(3), ..StateChange::default() } },
    ];
    binary_optimizer(&mut cmds, &colinear, &short_travel);
    assert_eq!(
        cmds,
        vec![
            extrude(0.0, 0.0, 2.0, 0.0),
            extrude(2.0, 0.0, 2.0, 1.0),
            Command::MoveTo { end: c(6.0, 6.0) },
            Command::Delay { msec: 7 },
            Command::ChangeObject { object: 2 },
            Command::SetState { new_state: StateChange { bed_temp: Some(2), fan_speed: Some(3), ..StateChange::default() } },
        ]
    );
}

// The position is only followed through pairs of commands, so the extrusion
// that opens the list does not move it from the origin.
#[test]
fn binary_optimizer_drops_retraction_before_short_travel() {
    let retract = StateChange { retract: Some(true), movement_speed: Some(9), ..StateChange::default() };
    let mut cmds = vec![
        extrude(0.0, 0.0, 1.0, 0.0),
        Command::SetState { new_state: retract.clone() },
        Command::MoveTo { end: c(0.5, 0.0) },
        Command::SetState { new_state: retract.clone() },
        Command::MoveTo { end: c(10.0, 0.0) },
    ];
    binary_optimizer(&mut cmds, &colinear, &short_travel);
    assert_eq!(
        cmds,
        vec![
            extrude(0.0, 0.0, 1.0, 0.0),
            Command::SetState { new_state: StateChange { retract: None, ..retract.clone() } },
            Command::MoveTo { end: c(0.5, 0.0) },
            Command::SetState { new_state: retract },
            Command::MoveTo { end: c(10.0, 0.0) },
        ]
    );
}

#[test]
fn optimize_pass_runs_until_stable() {
    let mut cmds = vec![
        Command::SetState { new_state: StateChange { fan_speed: Some(1), ..StateChange::default() } },
        extrude(0.0, 0.0, 1.0, 0.0),
        Command::SetState { new_state: StateChange { fan_speed: Some(1), ..StateChange::default() } },
        extrude(1.0, 0.0, 2.0, 0.0),
        Command::NoAction,
        extrude(2.0, 0.0, 3.0, 0.0),
    ];
    OptimizePass::pass(&mut cmds, &colinear, &short_travel);
    assert_eq!(
        cmds,
        vec![
            Command::SetState { new_state: StateChange { fan_speed: Some(1), ..StateChange::default() } },
            extrude(0.0, 0.0, 3.0, 0.0),
        ]
    );
}

#[test]
fn optimize_pass_keeps_the_printer_state() {
    let a = StateChange { bed_temp: Some(5), ..StateChange::default() };
    let b = StateChange { extruder_temp: Some(6), ..StateChange::default() };
    let mut cmds = vec![
        Command::SetState { new_state: a.clone() },
        Command::SetState { new_state: b.clone() },
        Command::SetState { new_state: a.clone() },
    ];
    OptimizePass::pass(&mut cmds, &colinear, &short_travel);
    let mut state = StateChange::default();
    for cmd in &cmds {
        if let Command::SetState { new_state } = cmd {
            state = state.combine(new_state);
        }
    }
    assert_eq!(state, a.combine(&b).combine(&a));
}

#[test]
fn numbers_compare_as_floats() {
    let samples = [0.0f64, -0.0, 1.5, -1.5, f64::NAN, f64::INFINITY, f64::NEG_INFINITY, f64::MIN_POSITIVE, 5e-324];
    for a in samples {
        for b in samples {
            assert_eq!(same_float(a.to_bits(), b.to_bits()), a == b, "{} {}", a, b);
        }
    }
}

#[test]
fn state_diff_sees_both_zeros_as_equal() {
    let mut current = StateChange { fan_speed: Some(0.0f64.to_bits()), ..StateChange::default() };
    let d = current.state_diff(&StateChange { fan_speed: Some((-0.0f64).to_bits()), ..StateChange::default() });
    assert_eq!(d, StateChange::default());
    assert_eq!(current.fan_speed, Some(0.0f64.to_bits()));
}

#[test]
fn extrusion_between_both_zeros_is_removed() {
    let mut cmds = vec![Command::MoveAndExtrude { start: c(0.0, 0.0), end: c(-0.0, 0.0), thickness: 1, width: 1 }];
    unary_optimizer(&mut cmds);
    assert!(cmds.is_empty());
}

#[test]
fn optimizer_fits_unless_merged_delays_overflow() {
    let spread = vec![Command::Delay { msec: u64::MAX }, Command::MoveTo { end: c(1.0, 1.0) }, Command::Delay { msec: u64::MAX }];
    assert!(OptimizePass::fits(&spread, &colinear, &short_travel));
    let mut cmds = spread.clone();
    OptimizePass::pass(&mut cmds, &colinear, &short_travel);
    assert_eq!(cmds, spread);
    let together = vec![Command::Delay { msec: u64::MAX }, Command::NoAction, Command::Delay { msec: 1 }];
    assert!(!OptimizePass::fits(&together, &colinear, &short_travel));
}
