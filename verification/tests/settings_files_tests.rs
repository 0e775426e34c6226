use gladius_slicer::settings::{MovementParameter, PartialConvertError, PartialInfillTypes, SolidInfillTypes};
use gladius_slicer::settings_files::{PartialFanSettings, PartialFilamentSettings, PartialMovementParameter, PartialSettings};

fn b(x: f64) -> Option<u64> {
    Some(x.to_bits())
}

fn params(x: f64) -> PartialMovementParameter {
    PartialMovementParameter {
        interior_inner_perimeter: b(x),
        interior_surface_perimeter: b(x),
        exterior_inner_perimeter: b(x),
        exterior_surface_perimeter: b(x),
        solid_top_infill: b(x),
        solid_infill: b(x),
        infill: b(x),
        travel: b(x),
        bridge: b(x),
        support: b(x),
    }
}

fn empty() -> PartialSettings<u8, u8> {
    PartialSettings {
        layer_height: None, extrusion_width: None, filament: None, fan: None, skirt: None, support: None,
        nozzle_diameter: None, retract_length: None, retract_lift_z: None, retract_speed: None,
        retraction_wipe: None, speed: None, acceleration: None, infill_percentage: None,
        inner_perimeters_first: None, number_of_perimeters: None, top_layers: None, bottom_layers: None,
        print_x: None, print_y: None, print_z: None, brim_width: None, layer_shrink_amount: None,
        minimum_retract_distance: None, infill_perimeter_overlap_percentage: None, solid_infill_type: None,
        partial_infill_type: None, starting_instructions: None, ending_instructions: None,
        before_layer_change_instructions: None, after_layer_change_instructions: None,
        object_change_instructions: None, max_acceleration_x: None, max_acceleration_y: None,
        max_acceleration_z: None, max_acceleration_e: None, max_acceleration_extruding: None,
        max_acceleration_travel: None, max_acceleration_retracting: None, max_jerk_x: None, max_jerk_y: None,
        max_jerk_z: None, max_jerk_e: None, minimum_feedrate_print: None, minimum_feedrate_travel: None,
        maximum_feedrate_x: None, maximum_feedrate_y: None, maximum_feedrate_z: None, maximum_feedrate_e: None,
        layer_settings: None, bed_exclude_areas: None,
    }
}

fn full() -> PartialSettings<u8, u8> {
    let mut p = empty();
    p.layer_height = b(0.2);
    p.extrusion_width = Some(params(0.4));
    p.filament = Some(PartialFilamentSettings { diameter: b(1.75), density: b(1.24), cost: b(20.0), extruder_temp: b(210.0), bed_temp: b(60.0) });
    p.fan = Some(PartialFanSettings { fan_speed: b(100.0), disable_fan_for_layers: Some(1), slow_down_threshold: b(15.0), min_print_speed: b(15.0) });
    for f in [
        &mut p.nozzle_diameter, &mut p.retract_length, &mut p.retract_lift_z, &mut p.retract_speed,
        &mut p.infill_percentage, &mut p.print_x, &mut p.print_y, &mut p.print_z, &mut p.minimum_retract_distance,
        &mut p.infill_perimeter_overlap_percentage, &mut p.max_acceleration_x, &mut p.max_acceleration_y,
        &mut p.max_acceleration_z, &mut p.max_acceleration_e, &mut p.max_acceleration_extruding,
        &mut p.max_acceleration_travel, &mut p.max_acceleration_retracting, &mut p.max_jerk_x, &mut p.max_jerk_y,
        &mut p.max_jerk_z, &mut p.max_jerk_e, &mut p.minimum_feedrate_print, &mut p.minimum_feedrate_travel,
        &mut p.maximum_feedrate_x, &mut p.maximum_feedrate_y, &mut p.maximum_feedrate_z, &mut p.maximum_feedrate_e,
    ] {
        *f = b(1.0);
    }
    p.speed = Some(params(50.0));
    p.acceleration = Some(params(1000.0));
    p.inner_perimeters_first = Some(true);
    p.number_of_perimeters = Some(3);
    p.top_layers = Some(3);
    p.bottom_layers = Some(3);
    p.solid_infill_type = Some(SolidInfillTypes::Rectilinear);
    p.partial_infill_type = Some(PartialInfillTypes::Linear);
    for f in [
        &mut p.starting_instructions, &mut p.ending_instructions, &mut p.before_layer_change_instructions,
        &mut p.after_layer_change_instructions, &mut p.object_change_instructions,
    ] {
        *f = Some(String::from("G28"));
    }
    p
}

#[test]
fn first_file_wins_and_others_fill_in() {
    let mut a = empty();
    a.layer_height = b(0.2);
    let mut other = full();
    other.layer_height = b(0.3);
    other.layer_settings = Some(vec![7]);
    a.combine(other);
    assert_eq!(a.layer_height, b(0.2));
    assert_eq!(a.print_x, b(1.0));
    assert_eq!(a.layer_settings, Some(vec![7]));
    let s = a.into_settings().unwrap();
    assert_eq!(s.layer_height, 0.2f64.to_bits());
    assert_eq!(s.layer_settings, vec![7]);
    assert_eq!(s.brim_width, None);
}

#[test]
fn complete_settings_keep_every_value() {
    let s = full().into_settings().unwrap();
    assert_eq!(s.speed, MovementParameter {
        interior_inner_perimeter: 50.0f64.to_bits(),
        interior_surface_perimeter: 50.0f64.to_bits(),
        exterior_inner_perimeter: 50.0f64.to_bits(),
        exterior_surface_perimeter: 50.0f64.to_bits(),
        solid_top_infill: 50.0f64.to_bits(),
        solid_infill: 50.0f64.to_bits(),
        infill: 50.0f64.to_bits(),
        travel: 50.0f64.to_bits(),
        bridge: 50.0f64.to_bits(),
        support: 50.0f64.to_bits(),
    });
    assert_eq!(s.fan.disable_fan_for_layers, 1);
    assert!(s.layer_settings.is_empty());
    assert_eq!(s.starting_instructions, "G28");
}

#[test]
fn first_missing_setting_is_named() {
    let e = empty().into_settings().unwrap_err();
    assert_eq!(e, PartialConvertError(String::from("layer_height")));
    let mut p = full();
    p.retract_speed = None;
    p.print_z = None;
    assert_eq!(p.into_settings().unwrap_err(), PartialConvertError(String::from("retract_speed")));
}

#[test]
fn missing_setting_in_a_group_is_named_by_its_path() {
    let mut p = full();
    let mut fan = p.fan.unwrap();
    fan.min_print_speed = None;
    p.fan = Some(fan);
    assert_eq!(p.into_settings().unwrap_err(), PartialConvertError(String::from("fan.min_print_speed")));
    let mut p = full();
    p.speed = None;
    assert_eq!(p.into_settings().unwrap_err(), PartialConvertError(String::from("speed")));
}

#[test]
fn a_single_setting_of_a_group_overrides_the_other_file() {
    let mut a = empty();
    let speed = PartialMovementParameter {
        interior_inner_perimeter: None,
        interior_surface_perimeter: None,
        exterior_inner_perimeter: None,
        exterior_surface_perimeter: None,
        solid_top_infill: None,
        solid_infill: None,
        infill: None,
        travel: None,
        bridge: b(10.0),
        support: None,
    };
    a.speed = Some(speed);
    a.fan = Some(PartialFanSettings { fan_speed: b(50.0), disable_fan_for_layers: None, slow_down_threshold: None, min_print_speed: None });
    a.combine(full());
    let s = a.into_settings().unwrap();
    assert_eq!(s.speed.bridge, 10.0f64.to_bits());
    assert_eq!(s.speed.travel, 50.0f64.to_bits());
    assert_eq!(s.speed.infill, 50.0f64.to_bits());
    assert_eq!(s.fan.fan_speed, 50.0f64.to_bits());
    assert_eq!(s.fan.min_print_speed, 15.0f64.to_bits());
}
