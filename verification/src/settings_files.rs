//! Settings files: partial settings, in which any setting may be left unset,
//! merged file after file (the first file that sets a setting wins), and
//! turned into complete settings once every required setting is set.
//! Numbers are carried by their bit patterns. The layer rules (`L`) and the
//! areas of the bed to keep free (`A`) are carried through as they are.
use crate::settings::{MovementParameter, PartialInfillTypes, RetractionWipeSettings, SolidInfillTypes};
use crate::settings::PartialConvertError;
use vstd::prelude::*;
use vstd::string::StringExecFns;

verus! {

/// `a` where it is set, else `b`: the first file that sets a setting wins.
pub open spec fn first_set<T>(a: Option<T>, b: Option<T>) -> Option<T> {
    match a {
        Some(_) => a,
        None => b,
    }
}

fn keep_first<T>(a: &mut Option<T>, b: Option<T>)
    ensures
        *final(a) == first_set(*old(a), b),
{
    if a.is_none() {
        *a = b;
    }
}

/// The name of a setting when it is unset, as a list of at most one name.
pub open spec fn unset_name<T>(f: Option<T>, name: Seq<char>) -> Seq<Seq<char>> {
    if f is None {
        seq![name]
    } else {
        Seq::empty()
    }
}

/// The names of settings inside a group, each put behind the group's path.
pub open spec fn prefixed(path: Seq<char>, names: Seq<Seq<char>>) -> Seq<Seq<char>> {
    names.map_values(|n: Seq<char>| path + n)
}

fn missing(name: &str) -> (e: PartialConvertError)
    ensures
        e.0@ == name@,
{
    PartialConvertError(name.to_owned())
}

fn nested_missing(path: &str, inner: PartialConvertError) -> (e: PartialConvertError)
    ensures
        e.0@ == path@ + inner.0@,
{
    PartialConvertError(path.to_owned().concat(inner.0.as_str()))
}

/// The settings of a skirt, numbers by their bit patterns.
#[derive(Clone, Copy, Debug, PartialEq, Eq, Structural)]
pub struct SkirtSettings {
    /// The number of layers of the skirt
    pub layers: usize,
    /// The distance from the models
    pub distance: u64,
}

/// The settings of supports, numbers by their bit patterns.
#[derive(Clone, Copy, Debug, PartialEq, Eq, Structural)]
pub struct SupportSettings {
    /// The largest overhang angle printed without support
    pub max_overhang_angle: u64,
    /// The spacing of the support lines
    pub support_spacing: u64,
}


/// Partial version of `MovementParameter`: any setting may be unset.
#[derive(Clone, Copy, Debug, PartialEq, Eq, Structural)]
pub struct PartialMovementParameter {
    pub interior_inner_perimeter: Option<u64>,
    pub interior_surface_perimeter: Option<u64>,
    pub exterior_inner_perimeter: Option<u64>,
    pub exterior_surface_perimeter: Option<u64>,
    pub solid_top_infill: Option<u64>,
    pub solid_infill: Option<u64>,
    pub infill: Option<u64>,
    pub travel: Option<u64>,
    pub bridge: Option<u64>,
    pub support: Option<u64>,
}

/// Merging two partial `MovementParameter` groups, the first winning where both set a setting.
pub open spec fn merged_movement(a: PartialMovementParameter, b: PartialMovementParameter) -> PartialMovementParameter {
    PartialMovementParameter {
        interior_inner_perimeter: first_set(a.interior_inner_perimeter, b.interior_inner_perimeter),
        interior_surface_perimeter: first_set(a.interior_surface_perimeter, b.interior_surface_perimeter),
        exterior_inner_perimeter: first_set(a.exterior_inner_perimeter, b.exterior_inner_perimeter),
        exterior_surface_perimeter: first_set(a.exterior_surface_perimeter, b.exterior_surface_perimeter),
        solid_top_infill: first_set(a.solid_top_infill, b.solid_top_infill),
        solid_infill: first_set(a.solid_infill, b.solid_infill),
        infill: first_set(a.infill, b.infill),
        travel: first_set(a.travel, b.travel),
        bridge: first_set(a.bridge, b.bridge),
        support: first_set(a.support, b.support),
    }
}

/// The settings of a partial `MovementParameter` group that are unset, by name, in order.
pub open spec fn missing_movement(p: PartialMovementParameter) -> Seq<Seq<char>> {
    unset_name(p.interior_inner_perimeter, "interior_inner_perimeter"@)
        + unset_name(p.interior_surface_perimeter, "interior_surface_perimeter"@)
        + unset_name(p.exterior_inner_perimeter, "exterior_inner_perimeter"@)
        + unset_name(p.exterior_surface_perimeter, "exterior_surface_perimeter"@)
        + unset_name(p.solid_top_infill, "solid_top_infill"@)
        + unset_name(p.solid_infill, "solid_infill"@)
        + unset_name(p.infill, "infill"@)
        + unset_name(p.travel, "travel"@)
        + unset_name(p.bridge, "bridge"@)
        + unset_name(p.support, "support"@)
}

/// The partial group that sets every setting of a complete one.
pub open spec fn partial_movement_of(m: MovementParameter) -> PartialMovementParameter {
    PartialMovementParameter {
        interior_inner_perimeter: Some(m.interior_inner_perimeter),
        interior_surface_perimeter: Some(m.interior_surface_perimeter),
        exterior_inner_perimeter: Some(m.exterior_inner_perimeter),
        exterior_surface_perimeter: Some(m.exterior_surface_perimeter),
        solid_top_infill: Some(m.solid_top_infill),
        solid_infill: Some(m.solid_infill),
        infill: Some(m.infill),
        travel: Some(m.travel),
        bridge: Some(m.bridge),
        support: Some(m.support),
    }
}

impl PartialMovementParameter {
    /// Merges `other` into this group: every setting left unset here takes
    /// the value `other` gives it.
    pub fn combine(&mut self, other: PartialMovementParameter)
        ensures
            *final(self) == merged_movement(*old(self), other),
    {
        keep_first(&mut self.interior_inner_perimeter, other.interior_inner_perimeter);
        keep_first(&mut self.interior_surface_perimeter, other.interior_surface_perimeter);
        keep_first(&mut self.exterior_inner_perimeter, other.exterior_inner_perimeter);
        keep_first(&mut self.exterior_surface_perimeter, other.exterior_surface_perimeter);
        keep_first(&mut self.solid_top_infill, other.solid_top_infill);
        keep_first(&mut self.solid_infill, other.solid_infill);
        keep_first(&mut self.infill, other.infill);
        keep_first(&mut self.travel, other.travel);
        keep_first(&mut self.bridge, other.bridge);
        keep_first(&mut self.support, other.support);
    }

    /// The complete group, or the name of the first setting left unset.
    pub fn into_complete(self) -> (r: Result<MovementParameter, PartialConvertError>)
        ensures
            match r {
                Ok(m) => missing_movement(self).len() == 0 && partial_movement_of(m) == self,
                Err(e) => missing_movement(self).len() > 0 && e.0@ == missing_movement(self)[0],
            },
    {
        let interior_inner_perimeter = match self.interior_inner_perimeter {
            Some(v) => v,
            None => {
                return Err(missing("interior_inner_perimeter"));
            },
        };
        let interior_surface_perimeter = match self.interior_surface_perimeter {
            Some(v) => v,
            None => {
                return Err(missing("interior_surface_perimeter"));
            },
        };
        let exterior_inner_perimeter = match self.exterior_inner_perimeter {
            Some(v) => v,
            None => {
                return Err(missing("exterior_inner_perimeter"));
            },
        };
        let exterior_surface_perimeter = match self.exterior_surface_perimeter {
            Some(v) => v,
            None => {
                return Err(missing("exterior_surface_perimeter"));
            },
        };
        let solid_top_infill = match self.solid_top_infill {
            Some(v) => v,
            None => {
                return Err(missing("solid_top_infill"));
            },
        };
        let solid_infill = match self.solid_infill {
            Some(v) => v,
            None => {
                return Err(missing("solid_infill"));
            },
        };
        let infill = match self.infill {
            Some(v) => v,
            None => {
                return Err(missing("infill"));
            },
        };
        let travel = match self.travel {
            Some(v) => v,
            None => {
                return Err(missing("travel"));
            },
        };
        let bridge = match self.bridge {
            Some(v) => v,
            None => {
                return Err(missing("bridge"));
            },
        };
        let support = match self.support {
            Some(v) => v,
            None => {
                return Err(missing("support"));
            },
        };
        Ok(MovementParameter { interior_inner_perimeter, interior_surface_perimeter, exterior_inner_perimeter, exterior_surface_perimeter, solid_top_infill, solid_infill, infill, travel, bridge, support })
    }
}

/// Merging a group of settings that two files may give: when both give it,
/// setting by setting, the first file winning; otherwise the one given.
pub open spec fn merged_movement_group(a: Option<PartialMovementParameter>, b: Option<PartialMovementParameter>) -> Option<PartialMovementParameter> {
    match (a, b) {
        (Some(x), Some(y)) => Some(merged_movement(x, y)),
        _ => first_set(a, b),
    }
}

fn merge_movement_group(a: &mut Option<PartialMovementParameter>, b: Option<PartialMovementParameter>)
    ensures
        *final(a) == merged_movement_group(*old(a), b),
{
    match (*a, b) {
        (Some(mut x), Some(y)) => {
            x.combine(y);
            *a = Some(x);
        },
        (None, _) => {
            *a = b;
        },
        _ => {},
    }
}

/// Settings for a filament, numbers by their bit patterns.
#[derive(Clone, Copy, Debug, PartialEq, Eq, Structural)]
pub struct FilamentSettings {
    pub diameter: u64,
    pub density: u64,
    pub cost: u64,
    pub extruder_temp: u64,
    pub bed_temp: u64,
}

/// Partial version of `FilamentSettings`: any setting may be unset.
#[derive(Clone, Copy, Debug, PartialEq, Eq, Structural)]
pub struct PartialFilamentSettings {
    pub diameter: Option<u64>,
    pub density: Option<u64>,
    pub cost: Option<u64>,
    pub extruder_temp: Option<u64>,
    pub bed_temp: Option<u64>,
}

/// Merging two partial `FilamentSettings` groups, the first winning where both set a setting.
pub open spec fn merged_filament(a: PartialFilamentSettings, b: PartialFilamentSettings) -> PartialFilamentSettings {
    PartialFilamentSettings {
        diameter: first_set(a.diameter, b.diameter),
        density: first_set(a.density, b.density),
        cost: first_set(a.cost, b.cost),
        extruder_temp: first_set(a.extruder_temp, b.extruder_temp),
        bed_temp: first_set(a.bed_temp, b.bed_temp),
    }
}

/// The settings of a partial `FilamentSettings` group that are unset, by name, in order.
pub open spec fn missing_filament(p: PartialFilamentSettings) -> Seq<Seq<char>> {
    unset_name(p.diameter, "diameter"@)
        + unset_name(p.density, "density"@)
        + unset_name(p.cost, "cost"@)
        + unset_name(p.extruder_temp, "extruder_temp"@)
        + unset_name(p.bed_temp, "bed_temp"@)
}

/// The partial group that sets every setting of a complete one.
pub open spec fn partial_filament_of(m: FilamentSettings) -> PartialFilamentSettings {
    PartialFilamentSettings {
        diameter: Some(m.diameter),
        density: Some(m.density),
        cost: Some(m.cost),
        extruder_temp: Some(m.extruder_temp),
        bed_temp: Some(m.bed_temp),
    }
}

impl PartialFilamentSettings {
    /// Merges `other` into this group: every setting left unset here takes
    /// the value `other` gives it.
    pub fn combine(&mut self, other: PartialFilamentSettings)
        ensures
            *final(self) == merged_filament(*old(self), other),
    {
        keep_first(&mut self.diameter, other.diameter);
        keep_first(&mut self.density, other.density);
        keep_first(&mut self.cost, other.cost);
        keep_first(&mut self.extruder_temp, other.extruder_temp);
        keep_first(&mut self.bed_temp, other.bed_temp);
    }

    /// The complete group, or the name of the first setting left unset.
    pub fn into_complete(self) -> (r: Result<FilamentSettings, PartialConvertError>)
        ensures
            match r {
                Ok(m) => missing_filament(self).len() == 0 && partial_filament_of(m) == self,
                Err(e) => missing_filament(self).len() > 0 && e.0@ == missing_filament(self)[0],
            },
    {
        let diameter = match self.diameter {
            Some(v) => v,
            None => {
                return Err(missing("diameter"));
            },
        };
        let density = match self.density {
            Some(v) => v,
            None => {
                return Err(missing("density"));
            },
        };
        let cost = match self.cost {
            Some(v) => v,
            None => {
                return Err(missing("cost"));
            },
        };
        let extruder_temp = match self.extruder_temp {
            Some(v) => v,
            None => {
                return Err(missing("extruder_temp"));
            },
        };
        let bed_temp = match self.bed_temp {
            Some(v) => v,
            None => {
                return Err(missing("bed_temp"));
            },
        };
        Ok(FilamentSettings { diameter, density, cost, extruder_temp, bed_temp })
    }
}

/// Merging a group of settings that two files may give: when both give it,
/// setting by setting, the first file winning; otherwise the one given.
pub open spec fn merged_filament_group(a: Option<PartialFilamentSettings>, b: Option<PartialFilamentSettings>) -> Option<PartialFilamentSettings> {
    match (a, b) {
        (Some(x), Some(y)) => Some(merged_filament(x, y)),
        _ => first_set(a, b),
    }
}

fn merge_filament_group(a: &mut Option<PartialFilamentSettings>, b: Option<PartialFilamentSettings>)
    ensures
        *final(a) == merged_filament_group(*old(a), b),
{
    match (*a, b) {
        (Some(mut x), Some(y)) => {
            x.combine(y);
            *a = Some(x);
        },
        (None, _) => {
            *a = b;
        },
        _ => {},
    }
}

/// Settings for the fans, numbers by their bit patterns.
#[derive(Clone, Copy, Debug, PartialEq, Eq, Structural)]
pub struct FanSettings {
    pub fan_speed: u64,
    pub disable_fan_for_layers: usize,
    pub slow_down_threshold: u64,
    pub min_print_speed: u64,
}

/// Partial version of `FanSettings`: any setting may be unset.
#[derive(Clone, Copy, Debug, PartialEq, Eq, Structural)]
pub struct PartialFanSettings {
    pub fan_speed: Option<u64>,
    pub disable_fan_for_layers: Option<usize>,
    pub slow_down_threshold: Option<u64>,
    pub min_print_speed: Option<u64>,
}

/// Merging two partial `FanSettings` groups, the first winning where both set a setting.
pub open spec fn merged_fan(a: PartialFanSettings, b: PartialFanSettings) -> PartialFanSettings {
    PartialFanSettings {
        fan_speed: first_set(a.fan_speed, b.fan_speed),
        disable_fan_for_layers: first_set(a.disable_fan_for_layers, b.disable_fan_for_layers),
        slow_down_threshold: first_set(a.slow_down_threshold, b.slow_down_threshold),
        min_print_speed: first_set(a.min_print_speed, b.min_print_speed),
    }
}

/// The settings of a partial `FanSettings` group that are unset, by name, in order.
pub open spec fn missing_fan(p: PartialFanSettings) -> Seq<Seq<char>> {
    unset_name(p.fan_speed, "fan_speed"@)
        + unset_name(p.disable_fan_for_layers, "disable_fan_for_layers"@)
        + unset_name(p.slow_down_threshold, "slow_down_threshold"@)
        + unset_name(p.min_print_speed, "min_print_speed"@)
}

/// The partial group that sets every setting of a complete one.
pub open spec fn partial_fan_of(m: FanSettings) -> PartialFanSettings {
    PartialFanSettings {
        fan_speed: Some(m.fan_speed),
        disable_fan_for_layers: Some(m.disable_fan_for_layers),
        slow_down_threshold: Some(m.slow_down_threshold),
        min_print_speed: Some(m.min_print_speed),
    }
}

impl PartialFanSettings {
    /// Merges `other` into this group: every setting left unset here takes
    /// the value `other` gives it.
    pub fn combine(&mut self, other: PartialFanSettings)
        ensures
            *final(self) == merged_fan(*old(self), other),
    {
        keep_first(&mut self.fan_speed, other.fan_speed);
        keep_first(&mut self.disable_fan_for_layers, other.disable_fan_for_layers);
        keep_first(&mut self.slow_down_threshold, other.slow_down_threshold);
        keep_first(&mut self.min_print_speed, other.min_print_speed);
    }

    /// The complete group, or the name of the first setting left unset.
    pub fn into_complete(self) -> (r: Result<FanSettings, PartialConvertError>)
        ensures
            match r {
                Ok(m) => missing_fan(self).len() == 0 && partial_fan_of(m) == self,
                Err(e) => missing_fan(self).len() > 0 && e.0@ == missing_fan(self)[0],
            },
    {
        let fan_speed = match self.fan_speed {
            Some(v) => v,
            None => {
                return Err(missing("fan_speed"));
            },
        };
        let disable_fan_for_layers = match self.disable_fan_for_layers {
            Some(v) => v,
            None => {
                return Err(missing("disable_fan_for_layers"));
            },
        };
        let slow_down_threshold = match self.slow_down_threshold {
            Some(v) => v,
            None => {
                return Err(missing("slow_down_threshold"));
            },
        };
        let min_print_speed = match self.min_print_speed {
            Some(v) => v,
            None => {
                return Err(missing("min_print_speed"));
            },
        };
        Ok(FanSettings { fan_speed, disable_fan_for_layers, slow_down_threshold, min_print_speed })
    }
}

/// Merging a group of settings that two files may give: when both give it,
/// setting by setting, the first file winning; otherwise the one given.
pub open spec fn merged_fan_group(a: Option<PartialFanSettings>, b: Option<PartialFanSettings>) -> Option<PartialFanSettings> {
    match (a, b) {
        (Some(x), Some(y)) => Some(merged_fan(x, y)),
        _ => first_set(a, b),
    }
}

fn merge_fan_group(a: &mut Option<PartialFanSettings>, b: Option<PartialFanSettings>)
    ensures
        *final(a) == merged_fan_group(*old(a), b),
{
    match (*a, b) {
        (Some(mut x), Some(y)) => {
            x.combine(y);
            *a = Some(x);
        },
        (None, _) => {
            *a = b;
        },
        _ => {},
    }
}

/// A complete set of settings for the slicer, numbers by their bit patterns.
#[derive(Clone, Debug)]
pub struct Settings<A, L> {
    pub layer_height: u64,
    pub extrusion_width: MovementParameter,
    pub filament: FilamentSettings,
    pub fan: FanSettings,
    pub skirt: Option<SkirtSettings>,
    pub support: Option<SupportSettings>,
    pub nozzle_diameter: u64,
    pub retract_length: u64,
    pub retract_lift_z: u64,
    pub retract_speed: u64,
    pub retraction_wipe: Option<RetractionWipeSettings>,
    pub speed: MovementParameter,
    pub acceleration: MovementParameter,
    pub infill_percentage: u64,
    pub inner_perimeters_first: bool,
    pub number_of_perimeters: usize,
    pub top_layers: usize,
    pub bottom_layers: usize,
    pub print_x: u64,
    pub print_y: u64,
    pub print_z: u64,
    pub brim_width: Option<u64>,
    pub layer_shrink_amount: Option<u64>,
    pub minimum_retract_distance: u64,
    pub infill_perimeter_overlap_percentage: u64,
    pub solid_infill_type: SolidInfillTypes,
    pub partial_infill_type: PartialInfillTypes,
    pub starting_instructions: String,
    pub ending_instructions: String,
    pub before_layer_change_instructions: String,
    pub after_layer_change_instructions: String,
    pub object_change_instructions: String,
    pub max_acceleration_x: u64,
    pub max_acceleration_y: u64,
    pub max_acceleration_z: u64,
    pub max_acceleration_e: u64,
    pub max_acceleration_extruding: u64,
    pub max_acceleration_travel: u64,
    pub max_acceleration_retracting: u64,
    pub max_jerk_x: u64,
    pub max_jerk_y: u64,
    pub max_jerk_z: u64,
    pub max_jerk_e: u64,
    pub minimum_feedrate_print: u64,
    pub minimum_feedrate_travel: u64,
    pub maximum_feedrate_x: u64,
    pub maximum_feedrate_y: u64,
    pub maximum_feedrate_z: u64,
    pub maximum_feedrate_e: u64,
    pub layer_settings: Vec<L>,
    pub bed_exclude_areas: Option<A>,
}

/// Partial version of `Settings`, as a settings file gives it: any setting may
/// be unset.
#[derive(Clone, Debug)]
pub struct PartialSettings<A, L> {
    pub layer_height: Option<u64>,
    pub extrusion_width: Option<PartialMovementParameter>,
    pub filament: Option<PartialFilamentSettings>,
    pub fan: Option<PartialFanSettings>,
    pub skirt: Option<SkirtSettings>,
    pub support: Option<SupportSettings>,
    pub nozzle_diameter: Option<u64>,
    pub retract_length: Option<u64>,
    pub retract_lift_z: Option<u64>,
    pub retract_speed: Option<u64>,
    pub retraction_wipe: Option<RetractionWipeSettings>,
    pub speed: Option<PartialMovementParameter>,
    pub acceleration: Option<PartialMovementParameter>,
    pub infill_percentage: Option<u64>,
    pub inner_perimeters_first: Option<bool>,
    pub number_of_perimeters: Option<usize>,
    pub top_layers: Option<usize>,
    pub bottom_layers: Option<usize>,
    pub print_x: Option<u64>,
    pub print_y: Option<u64>,
    pub print_z: Option<u64>,
    pub brim_width: Option<u64>,
    pub layer_shrink_amount: Option<u64>,
    pub minimum_retract_distance: Option<u64>,
    pub infill_perimeter_overlap_percentage: Option<u64>,
    pub solid_infill_type: Option<SolidInfillTypes>,
    pub partial_infill_type: Option<PartialInfillTypes>,
    pub starting_instructions: Option<String>,
    pub ending_instructions: Option<String>,
    pub before_layer_change_instructions: Option<String>,
    pub after_layer_change_instructions: Option<String>,
    pub object_change_instructions: Option<String>,
    pub max_acceleration_x: Option<u64>,
    pub max_acceleration_y: Option<u64>,
    pub max_acceleration_z: Option<u64>,
    pub max_acceleration_e: Option<u64>,
    pub max_acceleration_extruding: Option<u64>,
    pub max_acceleration_travel: Option<u64>,
    pub max_acceleration_retracting: Option<u64>,
    pub max_jerk_x: Option<u64>,
    pub max_jerk_y: Option<u64>,
    pub max_jerk_z: Option<u64>,
    pub max_jerk_e: Option<u64>,
    pub minimum_feedrate_print: Option<u64>,
    pub minimum_feedrate_travel: Option<u64>,
    pub maximum_feedrate_x: Option<u64>,
    pub maximum_feedrate_y: Option<u64>,
    pub maximum_feedrate_z: Option<u64>,
    pub maximum_feedrate_e: Option<u64>,
    pub layer_settings: Option<Vec<L>>,
    pub bed_exclude_areas: Option<A>,
}

/// Merging the settings of two files, the first winning where both set a
/// setting; in a group of settings (speeds, accelerations, extrusion widths,
/// filament, fans) each setting is merged on its own.
pub open spec fn merged_settings<A, L>(a: PartialSettings<A, L>, b: PartialSettings<A, L>) -> PartialSettings<A, L> {
    PartialSettings {
        layer_height: first_set(a.layer_height, b.layer_height),
        extrusion_width: merged_movement_group(a.extrusion_width, b.extrusion_width),
        filament: merged_filament_group(a.filament, b.filament),
        fan: merged_fan_group(a.fan, b.fan),
        skirt: first_set(a.skirt, b.skirt),
        support: first_set(a.support, b.support),
        nozzle_diameter: first_set(a.nozzle_diameter, b.nozzle_diameter),
        retract_length: first_set(a.retract_length, b.retract_length),
        retract_lift_z: first_set(a.retract_lift_z, b.retract_lift_z),
        retract_speed: first_set(a.retract_speed, b.retract_speed),
        retraction_wipe: first_set(a.retraction_wipe, b.retraction_wipe),
        speed: merged_movement_group(a.speed, b.speed),
        acceleration: merged_movement_group(a.acceleration, b.acceleration),
        infill_percentage: first_set(a.infill_percentage, b.infill_percentage),
        inner_perimeters_first: first_set(a.inner_perimeters_first, b.inner_perimeters_first),
        number_of_perimeters: first_set(a.number_of_perimeters, b.number_of_perimeters),
        top_layers: first_set(a.top_layers, b.top_layers),
        bottom_layers: first_set(a.bottom_layers, b.bottom_layers),
        print_x: first_set(a.print_x, b.print_x),
        print_y: first_set(a.print_y, b.print_y),
        print_z: first_set(a.print_z, b.print_z),
        brim_width: first_set(a.brim_width, b.brim_width),
        layer_shrink_amount: first_set(a.layer_shrink_amount, b.layer_shrink_amount),
        minimum_retract_distance: first_set(a.minimum_retract_distance, b.minimum_retract_distance),
        infill_perimeter_overlap_percentage: first_set(a.infill_perimeter_overlap_percentage, b.infill_perimeter_overlap_percentage),
        solid_infill_type: first_set(a.solid_infill_type, b.solid_infill_type),
        partial_infill_type: first_set(a.partial_infill_type, b.partial_infill_type),
        starting_instructions: first_set(a.starting_instructions, b.starting_instructions),
        ending_instructions: first_set(a.ending_instructions, b.ending_instructions),
        before_layer_change_instructions: first_set(a.before_layer_change_instructions, b.before_layer_change_instructions),
        after_layer_change_instructions: first_set(a.after_layer_change_instructions, b.after_layer_change_instructions),
        object_change_instructions: first_set(a.object_change_instructions, b.object_change_instructions),
        max_acceleration_x: first_set(a.max_acceleration_x, b.max_acceleration_x),
        max_acceleration_y: first_set(a.max_acceleration_y, b.max_acceleration_y),
        max_acceleration_z: first_set(a.max_acceleration_z, b.max_acceleration_z),
        max_acceleration_e: first_set(a.max_acceleration_e, b.max_acceleration_e),
        max_acceleration_extruding: first_set(a.max_acceleration_extruding, b.max_acceleration_extruding),
        max_acceleration_travel: first_set(a.max_acceleration_travel, b.max_acceleration_travel),
        max_acceleration_retracting: first_set(a.max_acceleration_retracting, b.max_acceleration_retracting),
        max_jerk_x: first_set(a.max_jerk_x, b.max_jerk_x),
        max_jerk_y: first_set(a.max_jerk_y, b.max_jerk_y),
        max_jerk_z: first_set(a.max_jerk_z, b.max_jerk_z),
        max_jerk_e: first_set(a.max_jerk_e, b.max_jerk_e),
        minimum_feedrate_print: first_set(a.minimum_feedrate_print, b.minimum_feedrate_print),
        minimum_feedrate_travel: first_set(a.minimum_feedrate_travel, b.minimum_feedrate_travel),
        maximum_feedrate_x: first_set(a.maximum_feedrate_x, b.maximum_feedrate_x),
        maximum_feedrate_y: first_set(a.maximum_feedrate_y, b.maximum_feedrate_y),
        maximum_feedrate_z: first_set(a.maximum_feedrate_z, b.maximum_feedrate_z),
        maximum_feedrate_e: first_set(a.maximum_feedrate_e, b.maximum_feedrate_e),
        layer_settings: first_set(a.layer_settings, b.layer_settings),
        bed_exclude_areas: first_set(a.bed_exclude_areas, b.bed_exclude_areas),
    }
}

/// The required settings that are unset, by name, in order; a setting of a
/// group is named by the group's name, a dot, and its own name.
pub open spec fn missing_settings<A, L>(p: PartialSettings<A, L>) -> Seq<Seq<char>> {
    unset_name(p.layer_height, "layer_height"@)
        + (match p.extrusion_width {
            Some(q) => prefixed("extrusion_width."@, missing_movement(q)),
            None => seq!["extrusion_width"@],
        })
        + (match p.filament {
            Some(q) => prefixed("filament."@, missing_filament(q)),
            None => seq!["filament"@],
        })
        + (match p.fan {
            Some(q) => prefixed("fan."@, missing_fan(q)),
            None => seq!["fan"@],
        })
        + unset_name(p.nozzle_diameter, "nozzle_diameter"@)
        + unset_name(p.retract_length, "retract_length"@)
        + unset_name(p.retract_lift_z, "retract_lift_z"@)
        + unset_name(p.retract_speed, "retract_speed"@)
        + (match p.speed {
            Some(q) => prefixed("speed."@, missing_movement(q)),
            None => seq!["speed"@],
        })
        + (match p.acceleration {
            Some(q) => prefixed("acceleration."@, missing_movement(q)),
            None => seq!["acceleration"@],
        })
        + unset_name(p.infill_percentage, "infill_percentage"@)
        + unset_name(p.inner_perimeters_first, "inner_perimeters_first"@)
        + unset_name(p.number_of_perimeters, "number_of_perimeters"@)
        + unset_name(p.top_layers, "top_layers"@)
        + unset_name(p.bottom_layers, "bottom_layers"@)
        + unset_name(p.print_x, "print_x"@)
        + unset_name(p.print_y, "print_y"@)
        + unset_name(p.print_z, "print_z"@)
        + unset_name(p.minimum_retract_distance, "minimum_retract_distance"@)
        + unset_name(p.infill_perimeter_overlap_percentage, "infill_perimeter_overlap_percentage"@)
        + unset_name(p.solid_infill_type, "solid_infill_type"@)
        + unset_name(p.partial_infill_type, "partial_infill_type"@)
        + unset_name(p.starting_instructions, "starting_instructions"@)
        + unset_name(p.ending_instructions, "ending_instructions"@)
        + unset_name(p.before_layer_change_instructions, "before_layer_change_instructions"@)
        + unset_name(p.after_layer_change_instructions, "after_layer_change_instructions"@)
        + unset_name(p.object_change_instructions, "object_change_instructions"@)
        + unset_name(p.max_acceleration_x, "max_acceleration_x"@)
        + unset_name(p.max_acceleration_y, "max_acceleration_y"@)
        + unset_name(p.max_acceleration_z, "max_acceleration_z"@)
        + unset_name(p.max_acceleration_e, "max_acceleration_e"@)
        + unset_name(p.max_acceleration_extruding, "max_acceleration_extruding"@)
        + unset_name(p.max_acceleration_travel, "max_acceleration_travel"@)
        + unset_name(p.max_acceleration_retracting, "max_acceleration_retracting"@)
        + unset_name(p.max_jerk_x, "max_jerk_x"@)
        + unset_name(p.max_jerk_y, "max_jerk_y"@)
        + unset_name(p.max_jerk_z, "max_jerk_z"@)
        + unset_name(p.max_jerk_e, "max_jerk_e"@)
        + unset_name(p.minimum_feedrate_print, "minimum_feedrate_print"@)
        + unset_name(p.minimum_feedrate_travel, "minimum_feedrate_travel"@)
        + unset_name(p.maximum_feedrate_x, "maximum_feedrate_x"@)
        + unset_name(p.maximum_feedrate_y, "maximum_feedrate_y"@)
        + unset_name(p.maximum_feedrate_z, "maximum_feedrate_z"@)
        + unset_name(p.maximum_feedrate_e, "maximum_feedrate_e"@)
}

/// The partial settings that set every setting of complete ones; the layer
/// rules are left out.
pub open spec fn partial_settings_of<A, L>(s: Settings<A, L>) -> PartialSettings<A, L> {
    PartialSettings {
        layer_height: Some(s.layer_height),
        extrusion_width: Some(partial_movement_of(s.extrusion_width)),
        filament: Some(partial_filament_of(s.filament)),
        fan: Some(partial_fan_of(s.fan)),
        skirt: s.skirt,
        support: s.support,
        nozzle_diameter: Some(s.nozzle_diameter),
        retract_length: Some(s.retract_length),
        retract_lift_z: Some(s.retract_lift_z),
        retract_speed: Some(s.retract_speed),
        retraction_wipe: s.retraction_wipe,
        speed: Some(partial_movement_of(s.speed)),
        acceleration: Some(partial_movement_of(s.acceleration)),
        infill_percentage: Some(s.infill_percentage),
        inner_perimeters_first: Some(s.inner_perimeters_first),
        number_of_perimeters: Some(s.number_of_perimeters),
        top_layers: Some(s.top_layers),
        bottom_layers: Some(s.bottom_layers),
        print_x: Some(s.print_x),
        print_y: Some(s.print_y),
        print_z: Some(s.print_z),
        brim_width: s.brim_width,
        layer_shrink_amount: s.layer_shrink_amount,
        minimum_retract_distance: Some(s.minimum_retract_distance),
        infill_perimeter_overlap_percentage: Some(s.infill_perimeter_overlap_percentage),
        solid_infill_type: Some(s.solid_infill_type),
        partial_infill_type: Some(s.partial_infill_type),
        starting_instructions: Some(s.starting_instructions),
        ending_instructions: Some(s.ending_instructions),
        before_layer_change_instructions: Some(s.before_layer_change_instructions),
        after_layer_change_instructions: Some(s.after_layer_change_instructions),
        object_change_instructions: Some(s.object_change_instructions),
        max_acceleration_x: Some(s.max_acceleration_x),
        max_acceleration_y: Some(s.max_acceleration_y),
        max_acceleration_z: Some(s.max_acceleration_z),
        max_acceleration_e: Some(s.max_acceleration_e),
        max_acceleration_extruding: Some(s.max_acceleration_extruding),
        max_acceleration_travel: Some(s.max_acceleration_travel),
        max_acceleration_retracting: Some(s.max_acceleration_retracting),
        max_jerk_x: Some(s.max_jerk_x),
        max_jerk_y: Some(s.max_jerk_y),
        max_jerk_z: Some(s.max_jerk_z),
        max_jerk_e: Some(s.max_jerk_e),
        minimum_feedrate_print: Some(s.minimum_feedrate_print),
        minimum_feedrate_travel: Some(s.minimum_feedrate_travel),
        maximum_feedrate_x: Some(s.maximum_feedrate_x),
        maximum_feedrate_y: Some(s.maximum_feedrate_y),
        maximum_feedrate_z: Some(s.maximum_feedrate_z),
        maximum_feedrate_e: Some(s.maximum_feedrate_e),
        layer_settings: None,
        bed_exclude_areas: s.bed_exclude_areas,
    }
}

/// The layer rules of partial settings: none when they are unset.
pub open spec fn layer_rules<L>(rules: Option<Vec<L>>) -> Seq<L> {
    match rules {
        Some(v) => v@,
        None => Seq::empty(),
    }
}

impl<A, L> PartialSettings<A, L> {
    /// Merges the settings of `other`, a file read after this one: every
    /// setting left unset here, a single setting of a group too, takes the
    /// value `other` gives it.
    pub fn combine(&mut self, other: PartialSettings<A, L>)
        ensures
            *final(self) == merged_settings(*old(self), other),
    {
        keep_first(&mut self.layer_height, other.layer_height);
        merge_movement_group(&mut self.extrusion_width, other.extrusion_width);
        merge_filament_group(&mut self.filament, other.filament);
        merge_fan_group(&mut self.fan, other.fan);
        keep_first(&mut self.skirt, other.skirt);
        keep_first(&mut self.support, other.support);
        keep_first(&mut self.nozzle_diameter, other.nozzle_diameter);
        keep_first(&mut self.retract_length, other.retract_length);
        keep_first(&mut self.retract_lift_z, other.retract_lift_z);
        keep_first(&mut self.retract_speed, other.retract_speed);
        keep_first(&mut self.retraction_wipe, other.retraction_wipe);
        merge_movement_group(&mut self.speed, other.speed);
        merge_movement_group(&mut self.acceleration, other.acceleration);
        keep_first(&mut self.infill_percentage, other.infill_percentage);
        keep_first(&mut self.inner_perimeters_first, other.inner_perimeters_first);
        keep_first(&mut self.number_of_perimeters, other.number_of_perimeters);
        keep_first(&mut self.top_layers, other.top_layers);
        keep_first(&mut self.bottom_layers, other.bottom_layers);
        keep_first(&mut self.print_x, other.print_x);
        keep_first(&mut self.print_y, other.print_y);
        keep_first(&mut self.print_z, other.print_z);
        keep_first(&mut self.brim_width, other.brim_width);
        keep_first(&mut self.layer_shrink_amount, other.layer_shrink_amount);
        keep_first(&mut self.minimum_retract_distance, other.minimum_retract_distance);
        keep_first(&mut self.infill_perimeter_overlap_percentage, other.infill_perimeter_overlap_percentage);
        keep_first(&mut self.solid_infill_type, other.solid_infill_type);
        keep_first(&mut self.partial_infill_type, other.partial_infill_type);
        keep_first(&mut self.starting_instructions, other.starting_instructions);
        keep_first(&mut self.ending_instructions, other.ending_instructions);
        keep_first(&mut self.before_layer_change_instructions, other.before_layer_change_instructions);
        keep_first(&mut self.after_layer_change_instructions, other.after_layer_change_instructions);
        keep_first(&mut self.object_change_instructions, other.object_change_instructions);
        keep_first(&mut self.max_acceleration_x, other.max_acceleration_x);
        keep_first(&mut self.max_acceleration_y, other.max_acceleration_y);
        keep_first(&mut self.max_acceleration_z, other.max_acceleration_z);
        keep_first(&mut self.max_acceleration_e, other.max_acceleration_e);
        keep_first(&mut self.max_acceleration_extruding, other.max_acceleration_extruding);
        keep_first(&mut self.max_acceleration_travel, other.max_acceleration_travel);
        keep_first(&mut self.max_acceleration_retracting, other.max_acceleration_retracting);
        keep_first(&mut self.max_jerk_x, other.max_jerk_x);
        keep_first(&mut self.max_jerk_y, other.max_jerk_y);
        keep_first(&mut self.max_jerk_z, other.max_jerk_z);
        keep_first(&mut self.max_jerk_e, other.max_jerk_e);
        keep_first(&mut self.minimum_feedrate_print, other.minimum_feedrate_print);
        keep_first(&mut self.minimum_feedrate_travel, other.minimum_feedrate_travel);
        keep_first(&mut self.maximum_feedrate_x, other.maximum_feedrate_x);
        keep_first(&mut self.maximum_feedrate_y, other.maximum_feedrate_y);
        keep_first(&mut self.maximum_feedrate_z, other.maximum_feedrate_z);
        keep_first(&mut self.maximum_feedrate_e, other.maximum_feedrate_e);
        keep_first(&mut self.layer_settings, other.layer_settings);
        keep_first(&mut self.bed_exclude_areas, other.bed_exclude_areas);
    }

    /// The complete settings, or the name of the first required setting left
    /// unset. Layer rules default to none.
    #[verifier::rlimit(100)]
    pub fn into_settings(self) -> (r: Result<Settings<A, L>, PartialConvertError>)
        ensures
            match r {
                Ok(s) => {
                    &&& missing_settings(self).len() == 0
                    &&& partial_settings_of(s) == (PartialSettings { layer_settings: None, ..self })
                    &&& s.layer_settings@ == layer_rules(self.layer_settings)
                },
                Err(e) => missing_settings(self).len() > 0 && e.0@ == missing_settings(self)[0],
            },
    {
        let layer_height = match self.layer_height {
            Some(v) => v,
            None => {
                return Err(missing("layer_height"));
            },
        };
        let extrusion_width = match self.extrusion_width {
            Some(q) => match q.into_complete() {
                Ok(m) => m,
                Err(e) => {
                    return Err(nested_missing("extrusion_width.", e));
                },
            },
            None => {
                return Err(missing("extrusion_width"));
            },
        };
        let filament = match self.filament {
            Some(q) => match q.into_complete() {
                Ok(m) => m,
                Err(e) => {
                    return Err(nested_missing("filament.", e));
                },
            },
            None => {
                return Err(missing("filament"));
            },
        };
        let fan = match self.fan {
            Some(q) => match q.into_complete() {
                Ok(m) => m,
                Err(e) => {
                    return Err(nested_missing("fan.", e));
                },
            },
            None => {
                return Err(missing("fan"));
            },
        };
        let skirt = self.skirt;
        let support = self.support;
        let nozzle_diameter = match self.nozzle_diameter {
            Some(v) => v,
            None => {
                return Err(missing("nozzle_diameter"));
            },
        };
        let retract_length = match self.retract_length {
            Some(v) => v,
            None => {
                return Err(missing("retract_length"));
            },
        };
        let retract_lift_z = match self.retract_lift_z {
            Some(v) => v,
            None => {
                return Err(missing("retract_lift_z"));
            },
        };
        let retract_speed = match self.retract_speed {
            Some(v) => v,
            None => {
                return Err(missing("retract_speed"));
            },
        };
        let retraction_wipe = self.retraction_wipe;
        let speed = match self.speed {
            Some(q) => match q.into_complete() {
                Ok(m) => m,
                Err(e) => {
                    return Err(nested_missing("speed.", e));
                },
            },
            None => {
                return Err(missing("speed"));
            },
        };
        let acceleration = match self.acceleration {
            Some(q) => match q.into_complete() {
                Ok(m) => m,
                Err(e) => {
                    return Err(nested_missing("acceleration.", e));
                },
            },
            None => {
                return Err(missing("acceleration"));
            },
        };
        let infill_percentage = match self.infill_percentage {
            Some(v) => v,
            None => {
                return Err(missing("infill_percentage"));
            },
        };
        let inner_perimeters_first = match self.inner_perimeters_first {
            Some(v) => v,
            None => {
                return Err(missing("inner_perimeters_first"));
            },
        };
        let number_of_perimeters = match self.number_of_perimeters {
            Some(v) => v,
            None => {
                return Err(missing("number_of_perimeters"));
            },
        };
        let top_layers = match self.top_layers {
            Some(v) => v,
            None => {
                return Err(missing("top_layers"));
            },
        };
        let bottom_layers = match self.bottom_layers {
            Some(v) => v,
            None => {
                return Err(missing("bottom_layers"));
            },
        };
        let print_x = match self.print_x {
            Some(v) => v,
            None => {
                return Err(missing("print_x"));
            },
        };
        let print_y = match self.print_y {
            Some(v) => v,
            None => {
                return Err(missing("print_y"));
            },
        };
        let print_z = match self.print_z {
            Some(v) => v,
            None => {
                return Err(missing("print_z"));
            },
        };
        let brim_width = self.brim_width;
        let layer_shrink_amount = self.layer_shrink_amount;
        let minimum_retract_distance = match self.minimum_retract_distance {
            Some(v) => v,
            None => {
                return Err(missing("minimum_retract_distance"));
            },
        };
        let infill_perimeter_overlap_percentage = match self.infill_perimeter_overlap_percentage {
            Some(v) => v,
            None => {
                return Err(missing("infill_perimeter_overlap_percentage"));
            },
        };
        let solid_infill_type = match self.solid_infill_type {
            Some(v) => v,
            None => {
                return Err(missing("solid_infill_type"));
            },
        };
        let partial_infill_type = match self.partial_infill_type {
            Some(v) => v,
            None => {
                return Err(missing("partial_infill_type"));
            },
        };
        let starting_instructions = match self.starting_instructions {
            Some(v) => v,
            None => {
                return Err(missing("starting_instructions"));
            },
        };
        let ending_instructions = match self.ending_instructions {
            Some(v) => v,
            None => {
                return Err(missing("ending_instructions"));
            },
        };
        let before_layer_change_instructions = match self.before_layer_change_instructions {
            Some(v) => v,
            None => {
                return Err(missing("before_layer_change_instructions"));
            },
        };
        let after_layer_change_instructions = match self.after_layer_change_instructions {
            Some(v) => v,
            None => {
                return Err(missing("after_layer_change_instructions"));
            },
        };
        let object_change_instructions = match self.object_change_instructions {
            Some(v) => v,
            None => {
                return Err(missing("object_change_instructions"));
            },
        };
        let max_acceleration_x = match self.max_acceleration_x {
            Some(v) => v,
            None => {
                return Err(missing("max_acceleration_x"));
            },
        };
        let max_acceleration_y = match self.max_acceleration_y {
            Some(v) => v,
            None => {
                return Err(missing("max_acceleration_y"));
            },
        };
        let max_acceleration_z = match self.max_acceleration_z {
            Some(v) => v,
            None => {
                return Err(missing("max_acceleration_z"));
            },
        };
        let max_acceleration_e = match self.max_acceleration_e {
            Some(v) => v,
            None => {
                return Err(missing("max_acceleration_e"));
            },
        };
        let max_acceleration_extruding = match self.max_acceleration_extruding {
            Some(v) => v,
            None => {
                return Err(missing("max_acceleration_extruding"));
            },
        };
        let max_acceleration_travel = match self.max_acceleration_travel {
            Some(v) => v,
            None => {
                return Err(missing("max_acceleration_travel"));
            },
        };
        let max_acceleration_retracting = match self.max_acceleration_retracting {
            Some(v) => v,
            None => {
                return Err(missing("max_acceleration_retracting"));
            },
        };
        let max_jerk_x = match self.max_jerk_x {
            Some(v) => v,
            None => {
                return Err(missing("max_jerk_x"));
            },
        };
        let max_jerk_y = match self.max_jerk_y {
            Some(v) => v,
            None => {
                return Err(missing("max_jerk_y"));
            },
        };
        let max_jerk_z = match self.max_jerk_z {
            Some(v) => v,
            None => {
                return Err(missing("max_jerk_z"));
            },
        };
        let max_jerk_e = match self.max_jerk_e {
            Some(v) => v,
            None => {
                return Err(missing("max_jerk_e"));
            },
        };
        let minimum_feedrate_print = match self.minimum_feedrate_print {
            Some(v) => v,
            None => {
                return Err(missing("minimum_feedrate_print"));
            },
        };
        let minimum_feedrate_travel = match self.minimum_feedrate_travel {
            Some(v) => v,
            None => {
                return Err(missing("minimum_feedrate_travel"));
            },
        };
        let maximum_feedrate_x = match self.maximum_feedrate_x {
            Some(v) => v,
            None => {
                return Err(missing("maximum_feedrate_x"));
            },
        };
        let maximum_feedrate_y = match self.maximum_feedrate_y {
            Some(v) => v,
            None => {
                return Err(missing("maximum_feedrate_y"));
            },
        };
        let maximum_feedrate_z = match self.maximum_feedrate_z {
            Some(v) => v,
            None => {
                return Err(missing("maximum_feedrate_z"));
            },
        };
        let maximum_feedrate_e = match self.maximum_feedrate_e {
            Some(v) => v,
            None => {
                return Err(missing("maximum_feedrate_e"));
            },
        };
        let layer_settings = match self.layer_settings {
            Some(v) => v,
            None => Vec::new(),
        };
        let bed_exclude_areas = self.bed_exclude_areas;
        Ok(Settings {
            layer_height,
            extrusion_width,
            filament,
            fan,
            skirt,
            support,
            nozzle_diameter,
            retract_length,
            retract_lift_z,
            retract_speed,
            retraction_wipe,
            speed,
            acceleration,
            infill_percentage,
            inner_perimeters_first,
            number_of_perimeters,
            top_layers,
            bottom_layers,
            print_x,
            print_y,
            print_z,
            brim_width,
            layer_shrink_amount,
            minimum_retract_distance,
            infill_perimeter_overlap_percentage,
            solid_infill_type,
            partial_infill_type,
            starting_instructions,
            ending_instructions,
            before_layer_change_instructions,
            after_layer_change_instructions,
            object_change_instructions,
            max_acceleration_x,
            max_acceleration_y,
            max_acceleration_z,
            max_acceleration_e,
            max_acceleration_extruding,
            max_acceleration_travel,
            max_acceleration_retracting,
            max_jerk_x,
            max_jerk_y,
            max_jerk_z,
            max_jerk_e,
            minimum_feedrate_print,
            minimum_feedrate_travel,
            maximum_feedrate_x,
            maximum_feedrate_y,
            maximum_feedrate_z,
            maximum_feedrate_e,
            layer_settings,
            bed_exclude_areas,
        })
    }
}

/// Whether a merged setting holds `mine` where `mine` is set, and `theirs`
/// where it is not.
pub open spec fn mine_else_theirs<T>(mine: Option<T>, theirs: Option<T>, merged: Option<T>) -> bool {
    &&& mine is Some ==> merged == mine
    &&& mine is None ==> merged == theirs
}


/// Whether a merged `MovementParameter` group keeps every setting `mine` sets and takes
/// the others from `theirs`.
pub open spec fn movement_group_kept(
    mine: Option<PartialMovementParameter>,
    theirs: Option<PartialMovementParameter>,
    merged: Option<PartialMovementParameter>,
) -> bool {
    match (mine, theirs) {
        (Some(x), Some(y)) => merged matches Some(m) && mine_else_theirs(x.interior_inner_perimeter, y.interior_inner_perimeter, m.interior_inner_perimeter)
            && mine_else_theirs(x.interior_surface_perimeter, y.interior_surface_perimeter, m.interior_surface_perimeter)
            && mine_else_theirs(x.exterior_inner_perimeter, y.exterior_inner_perimeter, m.exterior_inner_perimeter)
            && mine_else_theirs(x.exterior_surface_perimeter, y.exterior_surface_perimeter, m.exterior_surface_perimeter)
            && mine_else_theirs(x.solid_top_infill, y.solid_top_infill, m.solid_top_infill)
            && mine_else_theirs(x.solid_infill, y.solid_infill, m.solid_infill)
            && mine_else_theirs(x.infill, y.infill, m.infill)
            && mine_else_theirs(x.travel, y.travel, m.travel)
            && mine_else_theirs(x.bridge, y.bridge, m.bridge)
            && mine_else_theirs(x.support, y.support, m.support),
        (None, _) => merged == theirs,
        (Some(_), None) => merged == mine,
    }
}


/// Whether a merged `FilamentSettings` group keeps every setting `mine` sets and takes
/// the others from `theirs`.
pub open spec fn filament_group_kept(
    mine: Option<PartialFilamentSettings>,
    theirs: Option<PartialFilamentSettings>,
    merged: Option<PartialFilamentSettings>,
) -> bool {
    match (mine, theirs) {
        (Some(x), Some(y)) => merged matches Some(m) && mine_else_theirs(x.diameter, y.diameter, m.diameter)
            && mine_else_theirs(x.density, y.density, m.density)
            && mine_else_theirs(x.cost, y.cost, m.cost)
            && mine_else_theirs(x.extruder_temp, y.extruder_temp, m.extruder_temp)
            && mine_else_theirs(x.bed_temp, y.bed_temp, m.bed_temp),
        (None, _) => merged == theirs,
        (Some(_), None) => merged == mine,
    }
}


/// Whether a merged `FanSettings` group keeps every setting `mine` sets and takes
/// the others from `theirs`.
pub open spec fn fan_group_kept(
    mine: Option<PartialFanSettings>,
    theirs: Option<PartialFanSettings>,
    merged: Option<PartialFanSettings>,
) -> bool {
    match (mine, theirs) {
        (Some(x), Some(y)) => merged matches Some(m) && mine_else_theirs(x.fan_speed, y.fan_speed, m.fan_speed)
            && mine_else_theirs(x.disable_fan_for_layers, y.disable_fan_for_layers, m.disable_fan_for_layers)
            && mine_else_theirs(x.slow_down_threshold, y.slow_down_threshold, m.slow_down_threshold)
            && mine_else_theirs(x.min_print_speed, y.min_print_speed, m.min_print_speed),
        (None, _) => merged == theirs,
        (Some(_), None) => merged == mine,
    }
}


/// The settings of a file win over those of the files it names: after
/// merging `b` into `a`, every setting `a` sets (a single setting of a group
/// too) keeps `a`'s value, and every setting `a` leaves unset takes `b`'s.
pub proof fn lemma_settings_of_this_file_win<A, L>(a: PartialSettings<A, L>, b: PartialSettings<A, L>, m: PartialSettings<A, L>)
    requires
        m == merged_settings(a, b),
    ensures
        mine_else_theirs(a.layer_height, b.layer_height, m.layer_height),
        movement_group_kept(a.extrusion_width, b.extrusion_width, m.extrusion_width),
        filament_group_kept(a.filament, b.filament, m.filament),
        fan_group_kept(a.fan, b.fan, m.fan),
        mine_else_theirs(a.skirt, b.skirt, m.skirt),
        mine_else_theirs(a.support, b.support, m.support),
        mine_else_theirs(a.nozzle_diameter, b.nozzle_diameter, m.nozzle_diameter),
        mine_else_theirs(a.retract_length, b.retract_length, m.retract_length),
        mine_else_theirs(a.retract_lift_z, b.retract_lift_z, m.retract_lift_z),
        mine_else_theirs(a.retract_speed, b.retract_speed, m.retract_speed),
        mine_else_theirs(a.retraction_wipe, b.retraction_wipe, m.retraction_wipe),
        movement_group_kept(a.speed, b.speed, m.speed),
        movement_group_kept(a.acceleration, b.acceleration, m.acceleration),
        mine_else_theirs(a.infill_percentage, b.infill_percentage, m.infill_percentage),
        mine_else_theirs(a.inner_perimeters_first, b.inner_perimeters_first, m.inner_perimeters_first),
        mine_else_theirs(a.number_of_perimeters, b.number_of_perimeters, m.number_of_perimeters),
        mine_else_theirs(a.top_layers, b.top_layers, m.top_layers),
        mine_else_theirs(a.bottom_layers, b.bottom_layers, m.bottom_layers),
        mine_else_theirs(a.print_x, b.print_x, m.print_x),
        mine_else_theirs(a.print_y, b.print_y, m.print_y),
        mine_else_theirs(a.print_z, b.print_z, m.print_z),
        mine_else_theirs(a.brim_width, b.brim_width, m.brim_width),
        mine_else_theirs(a.layer_shrink_amount, b.layer_shrink_amount, m.layer_shrink_amount),
        mine_else_theirs(a.minimum_retract_distance, b.minimum_retract_distance, m.minimum_retract_distance),
        mine_else_theirs(a.infill_perimeter_overlap_percentage, b.infill_perimeter_overlap_percentage, m.infill_perimeter_overlap_percentage),
        mine_else_theirs(a.solid_infill_type, b.solid_infill_type, m.solid_infill_type),
        mine_else_theirs(a.partial_infill_type, b.partial_infill_type, m.partial_infill_type),
        mine_else_theirs(a.starting_instructions, b.starting_instructions, m.starting_instructions),
        mine_else_theirs(a.ending_instructions, b.ending_instructions, m.ending_instructions),
        mine_else_theirs(a.before_layer_change_instructions, b.before_layer_change_instructions, m.before_layer_change_instructions),
        mine_else_theirs(a.after_layer_change_instructions, b.after_layer_change_instructions, m.after_layer_change_instructions),
        mine_else_theirs(a.object_change_instructions, b.object_change_instructions, m.object_change_instructions),
        mine_else_theirs(a.max_acceleration_x, b.max_acceleration_x, m.max_acceleration_x),
        mine_else_theirs(a.max_acceleration_y, b.max_acceleration_y, m.max_acceleration_y),
        mine_else_theirs(a.max_acceleration_z, b.max_acceleration_z, m.max_acceleration_z),
        mine_else_theirs(a.max_acceleration_e, b.max_acceleration_e, m.max_acceleration_e),
        mine_else_theirs(a.max_acceleration_extruding, b.max_acceleration_extruding, m.max_acceleration_extruding),
        mine_else_theirs(a.max_acceleration_travel, b.max_acceleration_travel, m.max_acceleration_travel),
        mine_else_theirs(a.max_acceleration_retracting, b.max_acceleration_retracting, m.max_acceleration_retracting),
        mine_else_theirs(a.max_jerk_x, b.max_jerk_x, m.max_jerk_x),
        mine_else_theirs(a.max_jerk_y, b.max_jerk_y, m.max_jerk_y),
        mine_else_theirs(a.max_jerk_z, b.max_jerk_z, m.max_jerk_z),
        mine_else_theirs(a.max_jerk_e, b.max_jerk_e, m.max_jerk_e),
        mine_else_theirs(a.minimum_feedrate_print, b.minimum_feedrate_print, m.minimum_feedrate_print),
        mine_else_theirs(a.minimum_feedrate_travel, b.minimum_feedrate_travel, m.minimum_feedrate_travel),
        mine_else_theirs(a.maximum_feedrate_x, b.maximum_feedrate_x, m.maximum_feedrate_x),
        mine_else_theirs(a.maximum_feedrate_y, b.maximum_feedrate_y, m.maximum_feedrate_y),
        mine_else_theirs(a.maximum_feedrate_z, b.maximum_feedrate_z, m.maximum_feedrate_z),
        mine_else_theirs(a.maximum_feedrate_e, b.maximum_feedrate_e, m.maximum_feedrate_e),
        mine_else_theirs(a.layer_settings, b.layer_settings, m.layer_settings),
        mine_else_theirs(a.bed_exclude_areas, b.bed_exclude_areas, m.bed_exclude_areas),
{
}

} // verus!
