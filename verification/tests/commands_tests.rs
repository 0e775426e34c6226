use gladius_slicer::chains::{layer_start_commands, order_chains, slice_into_commands, try_order_chains};
use gladius_slicer::commands::{Command, Coord, Move, MoveChain, MoveType, StateChange};
use gladius_slicer::settings::{
    LayerSettings, MovementParameter, PartialInfillTypes, SolidInfillTypes,
};

fn c(x: f64, y: f64) -> Coord {
    Coord { x: x.to_bits(), y: y.to_bits() }
}

fn params(base: f64) -> MovementParameter {
    MovementParameter {
        interior_inner_perimeter: (base + 1.0).to_bits(),
        interior_surface_perimeter: (base + 2.0).to_bits(),
        exterior_inner_perimeter: (base + 3.0).to_bits(),
        exterior_surface_perimeter: (base + 4.0).to_bits(),
        solid_top_infill: (base + 5.0).to_bits(),
        solid_infill: (base + 6.0).to_bits(),
        infill: (base + 7.0).to_bits(),
        travel: (base + 8.0).to_bits(),
        bridge: (base + 9.0).to_bits(),
        support: (base + 10.0).to_bits(),
    }
}

fn layer_settings() -> LayerSettings {
    LayerSettings {
        layer_height: 0.2f64.to_bits(),
        layer_shrink_amount: None,
        speed: params(100.0),
        acceleration: params(1000.0),
        extrusion_width: params(0.0),
        solid_infill_type: SolidInfillTypes::Rectilinear,
        partial_infill_type: PartialInfillTypes::Linear,
        infill_percentage: 0.2f64.to_bits(),
        infill_perimeter_overlap_percentage: 0.25f64.to_bits(),
        inner_perimeters_first: true,
        bed_temp: 60.0f64.to_bits(),
        extruder_temp: 210.0f64.to_bits(),
        retraction_wipe: None,
        retraction_length: 0.8f64.to_bits(),
    }
}

fn state(speed: f64, accel: f64, retract: bool) -> StateChange {
    StateChange {
        extruder_temp: None,
        bed_temp: None,
        fan_speed: None,
        movement_speed: Some(speed.to_bits()),
        acceleration: Some(accel.to_bits()),
        retract: Some(retract),
    }
}

fn mv(x: f64, y: f64, move_type: MoveType) -> Move {
    Move { end: c(x, y), width: 0.4f64.to_bits(), move_type }
}

#[test]
fn state_diff_sends_only_changes() {
    let mut current = StateChange {
        extruder_temp: Some(210.0f64.to_bits()),
        bed_temp: Some(60.0f64.to_bits()),
        ..StateChange::default()
    };
    let new_state = StateChange {
        extruder_temp: Some(210.0f64.to_bits()),
        bed_temp: Some(65.0f64.to_bits()),
        fan_speed: Some(100.0f64.to_bits()),
        ..StateChange::default()
    };
    let d = current.state_diff(&new_state);
    assert_eq!(d.extruder_temp, None);
    assert_eq!(d.bed_temp, Some(65.0f64.to_bits()));
    assert_eq!(d.fan_speed, Some(100.0f64.to_bits()));
    assert_eq!(d.movement_speed, None);
    assert_eq!(current.bed_temp, Some(65.0f64.to_bits()));
    assert_eq!(current.extruder_temp, Some(210.0f64.to_bits()));
    assert_eq!(current.fan_speed, Some(100.0f64.to_bits()));
}

#[test]
fn state_diff_reaches_the_same_state_as_combine() {
    let start = StateChange { retract: Some(true), movement_speed: Some(5), ..StateChange::default() };
    let new_state = StateChange { retract: Some(true), movement_speed: Some(7), acceleration: Some(3), ..StateChange::default() };
    let mut current = start.clone();
    let d = current.state_diff(&new_state);
    assert_eq!(start.combine(&d), start.combine(&new_state));
    assert_eq!(current, start.combine(&new_state));
}

#[test]
fn combine_prefers_the_new_state() {
    let a = StateChange { bed_temp: Some(1), fan_speed: Some(2), ..StateChange::default() };
    let b = StateChange { bed_temp: Some(3), retract: Some(false), ..StateChange::default() };
    let m = a.combine(&b);
    assert_eq!(m.bed_temp, Some(3));
    assert_eq!(m.fan_speed, Some(2));
    assert_eq!(m.retract, Some(false));
    assert_eq!(m.extruder_temp, None);
    assert_eq!(StateChange::default().combine(&a), a);
    assert_eq!(a.combine(&StateChange::default()), a);
}

#[test]
fn create_commands_sets_state_on_each_type_change() {
    let settings = layer_settings();
    let chain = MoveChain {
        start_point: c(0.0, 0.0),
        moves: vec![
            mv(1.0, 0.0, MoveType::ExteriorSurfacePerimeter),
            mv(1.0, 1.0, MoveType::ExteriorSurfacePerimeter),
            mv(5.0, 5.0, MoveType::Travel),
            mv(6.0, 5.0, MoveType::Infill),
        ],
    };
    let thickness = 0.2f64.to_bits();
    let cmds = chain.create_commands(&settings, thickness);
    let width = 0.4f64.to_bits();
    assert_eq!(
        cmds,
        vec![
            Command::SetState { new_state: state(104.0, 1004.0, false) },
            Command::MoveAndExtrude { start: c(0.0, 0.0), end: c(1.0, 0.0), thickness, width },
            Command::MoveAndExtrude { start: c(1.0, 0.0), end: c(1.0, 1.0), thickness, width },
            Command::SetState { new_state: state(108.0, 1008.0, true) },
            Command::MoveTo { end: c(5.0, 5.0) },
            Command::SetState { new_state: state(107.0, 1007.0, false) },
            Command::MoveAndExtrude { start: c(5.0, 5.0), end: c(6.0, 5.0), thickness, width },
        ]
    );
}

#[test]
fn create_commands_of_empty_chain_is_empty() {
    let chain = MoveChain { start_point: c(3.0, 3.0), moves: vec![] };
    assert!(chain.create_commands(&layer_settings(), 0).is_empty());
}

#[test]
fn slice_into_commands_travels_to_each_chain() {
    let settings = layer_settings();
    let fixed = vec![MoveChain { start_point: c(0.0, 0.0), moves: vec![mv(1.0, 0.0, MoveType::InteriorInnerPerimeter)] }];
    let chains = vec![MoveChain { start_point: c(2.0, 0.0), moves: vec![mv(3.0, 0.0, MoveType::Infill)] }];
    let mut out = vec![Command::Delay { msec: 5 }];
    let thickness = 0.2f64.to_bits();
    slice_into_commands(&fixed, &chains, &settings, &mut out, thickness);
    let width = 0.4f64.to_bits();
    assert_eq!(
        out,
        vec![
            Command::Delay { msec: 5 },
            Command::SetState { new_state: state(108.0, 1008.0, true) },
            Command::MoveTo { end: c(0.0, 0.0) },
            Command::SetState { new_state: state(101.0, 1001.0, false) },
            Command::MoveAndExtrude { start: c(0.0, 0.0), end: c(1.0, 0.0), thickness, width },
            Command::SetState { new_state: state(108.0, 1008.0, true) },
            Command::MoveTo { end: c(2.0, 0.0) },
            Command::SetState { new_state: state(107.0, 1007.0, false) },
            Command::MoveAndExtrude { start: c(2.0, 0.0), end: c(3.0, 0.0), thickness, width },
        ]
    );
}

#[test]
fn slice_into_commands_without_fixed_chains_adds_nothing() {
    let chains = vec![MoveChain { start_point: c(2.0, 0.0), moves: vec![mv(3.0, 0.0, MoveType::Infill)] }];
    let mut out = vec![];
    slice_into_commands(&[], &chains, &layer_settings(), &mut out, 0);
    assert!(out.is_empty());
}

fn distance_key(a: Coord, b: Coord) -> u64 {
    let dx = f64::from_bits(a.x) - f64::from_bits(b.x);
    let dy = f64::from_bits(a.y) - f64::from_bits(b.y);
    (dx * dx + dy * dy).sqrt().to_bits()
}

#[test]
fn order_chains_takes_the_nearest_next() {
    let chain = |sx: f64, ex: f64| MoveChain { start_point: c(sx, 0.0), moves: vec![mv(ex, 0.0, MoveType::Infill)] };
    let chains = vec![chain(0.0, 1.0), chain(10.0, 11.0), chain(2.0, 3.0), chain(4.0, 5.0)];
    let ordered = order_chains(chains, &distance_key);
    let starts: Vec<f64> = ordered.iter().map(|m| f64::from_bits(m.start_point.x)).collect();
    assert_eq!(starts, vec![0.0, 2.0, 4.0, 10.0]);
}

#[test]
fn order_chains_breaks_ties_by_first_position() {
    let chain = |sx: f64, sy: f64| MoveChain { start_point: c(sx, sy), moves: vec![mv(sx, sy, MoveType::Infill)] };
    // after the chain ending at (0, 0), the chains at (1, 0) and (0, 1) are as near
    let chains = vec![chain(0.0, 0.0), chain(5.0, 5.0), chain(1.0, 0.0), chain(0.0, 1.0)];
    let ordered = order_chains(chains, &distance_key);
    // the first chain is taken out by swapping the last one into its place
    let starts: Vec<(f64, f64)> = ordered
        .iter()
        .map(|m| (f64::from_bits(m.start_point.x), f64::from_bits(m.start_point.y)))
        .collect();
    assert_eq!(starts, vec![(0.0, 0.0), (0.0, 1.0), (1.0, 0.0), (5.0, 5.0)]);
}

#[test]
fn order_chains_of_nothing_is_nothing() {
    assert!(order_chains(vec![], &distance_key).is_empty());
}

#[test]
fn layer_start_turns_the_fan_on_after_the_first_layers() {
    let z = 0.4f64.to_bits();
    let fan = 100.0f64.to_bits();
    let first = layer_start_commands(2, z, 210, 60, fan, 0, 1);
    assert_eq!(first.len(), 3);
    assert_eq!(first[0], Command::ChangeObject { object: 2 });
    assert_eq!(first[1], Command::LayerChange { z });
    assert_eq!(
        first[2],
        Command::SetState {
            new_state: StateChange {
                extruder_temp: Some(210),
                bed_temp: Some(60),
                fan_speed: Some(0),
                movement_speed: None,
                acceleration: None,
                retract: None,
            }
        }
    );
    let later = layer_start_commands(2, z, 210, 60, fan, 1, 1);
    match &later[2] {
        Command::SetState { new_state } => assert_eq!(new_state.fan_speed, Some(fan)),
        _ => panic!("expected a state change"),
    }
}

#[test]
fn empty_chain_may_only_come_last() {
    let full = |sx: f64| MoveChain { start_point: c(sx, 0.0), moves: vec![mv(sx + 1.0, 0.0, MoveType::Infill)] };
    let empty = |sx: f64| MoveChain { start_point: c(sx, 0.0), moves: vec![] };
    let last_empty = try_order_chains(vec![full(0.0), empty(5.0)], &distance_key).unwrap();
    assert_eq!(last_empty.len(), 2);
    assert!(try_order_chains(vec![empty(0.0), full(5.0)], &distance_key).is_none());
    assert_eq!(try_order_chains(vec![empty(0.0)], &distance_key).unwrap().len(), 1);
}
