use gladius_slicer::commands::MoveType;
use gladius_slicer::error::SlicerErrors;
use gladius_slicer::settings::{
    get_layer_settings, LayerRange, LayerSettings, MovementParameter, PartialConvertError,
    PartialInfillTypes, PartialLayerSettings, SolidInfillTypes,
};

fn params(base: u64) -> MovementParameter {
    MovementParameter {
        interior_inner_perimeter: base + 1,
        interior_surface_perimeter: base + 2,
        exterior_inner_perimeter: base + 3,
        exterior_surface_perimeter: base + 4,
        solid_top_infill: base + 5,
        solid_infill: base + 6,
        infill: base + 7,
        travel: base + 8,
        bridge: base + 9,
        support: base + 10,
    }
}

fn base() -> LayerSettings {
    LayerSettings {
        layer_height: 20,
        layer_shrink_amount: None,
        speed: params(100),
        acceleration: params(1000),
        extrusion_width: params(0),
        solid_infill_type: SolidInfillTypes::Rectilinear,
        partial_infill_type: PartialInfillTypes::Linear,
        infill_percentage: 3,
        infill_perimeter_overlap_percentage: 4,
        inner_perimeters_first: true,
        bed_temp: 60,
        extruder_temp: 210,
        retraction_wipe: None,
        retraction_length: 8,
    }
}

#[test]
fn value_for_each_movement_type() {
    let p = params(0);
    let expect = [
        (MoveType::InteriorInnerPerimeter, 1),
        (MoveType::InteriorSurfacePerimeter, 2),
        (MoveType::ExteriorInnerPerimeter, 3),
        (MoveType::ExteriorSurfacePerimeter, 4),
        (MoveType::TopSolidInfill, 5),
        (MoveType::SolidInfill, 6),
        (MoveType::Infill, 7),
        (MoveType::Travel, 8),
        (MoveType::Bridging, 9),
        (MoveType::Support, 10),
    ];
    for (t, v) in expect {
        assert_eq!(p.get_value_for_movement_type(&t), v);
    }
}

#[test]
fn layer_without_rules_keeps_base() {
    assert_eq!(get_layer_settings(&base(), &[], 3, &[]), base());
}

#[test]
fn first_matching_rule_wins() {
    let rules = vec![
        (
            LayerRange::SingleLayer(0),
            PartialLayerSettings { extruder_temp: Some(215), ..PartialLayerSettings::default() },
        ),
        (
            LayerRange::LayerCountRange { start: 0, end: 5 },
            PartialLayerSettings {
                extruder_temp: Some(220),
                bed_temp: Some(70),
                ..PartialLayerSettings::default()
            },
        ),
        (
            LayerRange::HeightRange { start: 0, end: 0 },
            PartialLayerSettings { layer_height: Some(10), ..PartialLayerSettings::default() },
        ),
    ];
    let s0 = get_layer_settings(&base(), &rules, 0, &[false, false, true]);
    assert_eq!(s0.extruder_temp, 215);
    assert_eq!(s0.bed_temp, 70);
    assert_eq!(s0.layer_height, 10);
    let s3 = get_layer_settings(&base(), &rules, 3, &[false, false, false]);
    assert_eq!(s3.extruder_temp, 220);
    assert_eq!(s3.bed_temp, 70);
    assert_eq!(s3.layer_height, 20);
    let s9 = get_layer_settings(&base(), &rules, 9, &[false, false, false]);
    assert_eq!(s9, base());
}

#[test]
fn partial_layer_settings_combine_fills_unset_fields() {
    let mut a = PartialLayerSettings { bed_temp: Some(1), ..PartialLayerSettings::default() };
    a.combine(PartialLayerSettings {
        bed_temp: Some(2),
        extruder_temp: Some(3),
        ..PartialLayerSettings::default()
    });
    assert_eq!(a.bed_temp, Some(1));
    assert_eq!(a.extruder_temp, Some(3));
    assert_eq!(a.layer_height, None);
}

#[test]
fn missing_setting_error_names_the_setting() {
    let e = PartialConvertError(String::from("fan.fan_speed")).into_slicer_error();
    assert_eq!(
        e,
        SlicerErrors::SettingsFileMissingSettings { missing_setting: String::from("fan.fan_speed") }
    );
    assert_eq!(e.get_code(), 0x1006);
}
