use gladius_slicer::commands::{Command, Coord, StateChange};
use gladius_slicer::error::{SlicerErrors, SlicerWarnings};
use gladius_slicer::layers::{hours_minutes_seconds, is_solid_layer, solid_layer_neighbours};
use gladius_slicer::slow_down::{layer_batches, LayerBatch, SlowDownLayerPass};
use gladius_slicer::tower::{TriangleTower, TriangleTowerIterator};
use gladius_slicer::types::IndexedTriangle;
use gladius_slicer::vertex_order::vertex_order;

#[test]
fn neighbours_of_inner_layers() {
    let n = solid_layer_neighbours(6, 1, 2);
    assert_eq!(n.len(), 3);
    assert_eq!(n[0].layer, 2);
    assert_eq!(n[0].below, Some((0, 2)));
    assert_eq!(n[0].above, Some((3, 4)));
    assert_eq!(n[2].layer, 4);
    assert_eq!(n[2].below, Some((2, 4)));
    assert_eq!(n[2].above, Some((5, 6)));
}

#[test]
fn no_neighbours_when_too_few_layers() {
    assert!(solid_layer_neighbours(3, 1, 2).is_empty());
    let n = solid_layer_neighbours(2, 0, 0);
    assert_eq!(n.len(), 2);
    assert_eq!(n[1].below, None);
    assert_eq!(n[1].above, None);
}

#[test]
fn solid_layers_are_the_first_and_last() {
    let solid: Vec<bool> = (0..6).map(|l| is_solid_layer(l, 6, 1, 2)).collect();
    assert_eq!(solid, vec![true, true, false, false, false, true]);
}

#[test]
fn hours_minutes_seconds_of_a_print() {
    assert_eq!(hours_minutes_seconds(3725), (1, 2, 5));
    assert_eq!(hours_minutes_seconds(59), (0, 0, 59));
    assert_eq!(hours_minutes_seconds(0), (0, 0, 0));
}

#[test]
fn error_codes() {
    assert_eq!(SlicerErrors::ObjectFileNotFound { filepath: String::new() }.get_code(), 0x1000);
    assert_eq!(SlicerErrors::TowerGeneration.get_code(), 0x1007);
    assert_eq!(SlicerErrors::UnspecifiedError(String::new()).get_code(), 0xFFFF_FFFF);
    assert_eq!(SlicerErrors::SettingMacroParseError { sub_error: String::new() }.get_code(), 0x1016);
    let e = SlicerErrors::FileWriteError { filepath: String::from("a.gcode") };
    assert_eq!(e.duplicate(), e);
}

fn same(a: u64, b: u64) -> bool {
    f64::from_bits(a) == f64::from_bits(b)
}

fn extrude() -> Command {
    Command::MoveAndExtrude {
        start: Coord { x: 0, y: 0 },
        end: Coord { x: 1, y: 1 },
        thickness: 1,
        width: 1,
    }
}

#[test]
fn layers_end_at_a_change_of_height() {
    let h = |z: f64| Command::LayerChange { z: z.to_bits() };
    let cmds = vec![
        h(0.0),
        extrude(),
        h(0.2),
        extrude(),
        Command::Delay { msec: 1 },
        h(0.2),
        h(0.4),
        Command::Delay { msec: 1 },
    ];
    let b = layer_batches(&cmds, &same);
    assert_eq!(
        b,
        vec![
            LayerBatch { start: 0, end: 2, extrudes: true },
            LayerBatch { start: 3, end: 6, extrudes: true },
        ]
    );
    let mut with_extrusion = cmds.clone();
    with_extrusion.push(extrude());
    let b = layer_batches(&with_extrusion, &same);
    assert_eq!(b.len(), 3);
    assert_eq!(b[2], LayerBatch { start: 7, end: 8, extrudes: true });
}

#[test]
fn speed_limit_applies_to_print_speeds_only() {
    let speed = |v: f64| Command::SetState {
        new_state: StateChange { movement_speed: Some(v.to_bits()), ..StateChange::default() },
    };
    let mut cmds = vec![speed(50.0), speed(150.0), speed(40.0), speed(60.0)];
    let limit = |s: u64, max: u64| f64::from_bits(s).min(f64::from_bits(max)).max(5.0).to_bits();
    SlowDownLayerPass::pass(&mut cmds, &[(30.0f64.to_bits(), 0, 3)], 150.0f64.to_bits(), &same, &limit);
    assert_eq!(cmds, vec![speed(30.0), speed(150.0), speed(30.0), speed(60.0)]);
}

fn tetrahedron() -> Vec<IndexedTriangle> {
    vec![
        IndexedTriangle { verts: [0, 2, 1] },
        IndexedTriangle { verts: [0, 1, 3] },
        IndexedTriangle { verts: [0, 3, 2] },
        IndexedTriangle { verts: [1, 2, 3] },
    ]
}

#[test]
fn vertex_order_from_lowest() {
    assert_eq!(vertex_order(&[2, 0, 1, 0]), vec![1, 3, 2, 0]);
}

#[test]
fn tower_of_a_tetrahedron() {
    let tower = TriangleTower::from_triangles_and_vertices(&tetrahedron(), &[0, 1, 2, 3]).unwrap();
    assert_eq!(tower.len(), 4);
    let mut it = TriangleTowerIterator::new(&tower);
    assert_eq!(it.next_vertex(), Some(0));
    assert_eq!(it.advance_past_next_vertex(), Ok(()));
    let loops = it.get_edge_loops();
    assert_eq!(loops.len(), 1);
    // three edges around the lowest vertex, the loop closed by the first again
    assert_eq!(loops[0].len(), 5);
    assert!(loops[0].iter().all(|(s, _)| *s == 0));
    assert_eq!(loops[0][0], loops[0][4]);
    let mut ends: Vec<usize> = loops[0][..3].iter().map(|(_, e)| *e).collect();
    ends.sort();
    assert_eq!(ends, vec![1, 2, 3]);
    assert_eq!(it.advance_past_next_vertex(), Ok(()));
    assert_eq!(it.advance_past_next_vertex(), Ok(()));
    assert_eq!(it.get_edge_loops().len(), 1);
    assert_eq!(it.advance_past_next_vertex(), Ok(()));
    assert!(it.is_finished());
    assert_eq!(it.get_edge_loops().len(), 0);
}

#[test]
fn warning_codes() {
    assert_eq!(SlicerWarnings::LayerSizeTooLow { nozzle_diameter: 0, layer_height: 0 }.get_code(), 0x1000);
    assert_eq!(SlicerWarnings::SkirtAndBrimOverlap { skirt_distance: 0, brim_width: 0 }.get_code(), 0x1003);
    assert_eq!(SlicerWarnings::NozzleTemperatureTooHigh { temp: 0 }.get_code(), 0x1004);
    assert_eq!(SlicerWarnings::ExtrusionWidthTooLow { nozzle_diameter: 0, extrusion_width: 0 }.get_code(), 0x1007);
}
