//! Per-layer settings: the printer-wide values overridden by the first layer
//! rule that matches a layer and sets the value.
//!
//! Numbers that the slicer handles as floating point are carried by their
//! IEEE-754 bit pattern (`f64::to_bits`).
use crate::commands::MoveType;
use crate::error::SlicerErrors;
use vstd::prelude::*;

verus! {

/// A set of values, one for each type of move.
#[derive(Clone, Copy, Debug, PartialEq, Eq, Structural)]
pub struct MovementParameter {
    /// Value for interior perimeters that are inside the model
    pub interior_inner_perimeter: u64,
    /// Value for interior perimeters on the surface
    pub interior_surface_perimeter: u64,
    /// Value for exterior perimeters that are inside the model
    pub exterior_inner_perimeter: u64,
    /// Value for exterior perimeters on the surface
    pub exterior_surface_perimeter: u64,
    /// Value for solid top infill moves
    pub solid_top_infill: u64,
    /// Value for solid infill moves
    pub solid_infill: u64,
    /// Value for partial infill moves
    pub infill: u64,
    /// Value for travel moves
    pub travel: u64,
    /// Value for bridging
    pub bridge: u64,
    /// Value for support structures
    pub support: u64,
}

/// The value that a set of values gives a type of move.
pub open spec fn value_for(p: MovementParameter, t: MoveType) -> u64 {
    match t {
        MoveType::TopSolidInfill => p.solid_top_infill,
        MoveType::SolidInfill => p.solid_infill,
        MoveType::Infill => p.infill,
        MoveType::ExteriorSurfacePerimeter => p.exterior_surface_perimeter,
        MoveType::InteriorSurfacePerimeter => p.interior_surface_perimeter,
        MoveType::ExteriorInnerPerimeter => p.exterior_inner_perimeter,
        MoveType::InteriorInnerPerimeter => p.interior_inner_perimeter,
        MoveType::Bridging => p.bridge,
        MoveType::Support => p.support,
        MoveType::Travel => p.travel,
    }
}

impl MovementParameter {
    /// Returns the value for the move type provided.
    pub fn get_value_for_movement_type(&self, move_type: &MoveType) -> (v: u64)
        ensures
            v == value_for(*self, *move_type),
    {
        match move_type {
            MoveType::TopSolidInfill => self.solid_top_infill,
            MoveType::SolidInfill => self.solid_infill,
            MoveType::Infill => self.infill,
            MoveType::ExteriorSurfacePerimeter => self.exterior_surface_perimeter,
            MoveType::InteriorSurfacePerimeter => self.interior_surface_perimeter,
            MoveType::ExteriorInnerPerimeter => self.exterior_inner_perimeter,
            MoveType::InteriorInnerPerimeter => self.interior_inner_perimeter,
            MoveType::Bridging => self.bridge,
            MoveType::Support => self.support,
            MoveType::Travel => self.travel,
        }
    }
}

/// Types of solid infill.
#[derive(Clone, Copy, Debug, PartialEq, Eq, Structural)]
pub enum SolidInfillTypes {
    /// Back and forth lines, turned 120 degrees from one layer to the next
    Rectilinear,
    /// Back and forth lines, turned by the given number of degrees each layer
    RectilinearCustom(u64),
}

/// Types of partial infill.
#[derive(Clone, Copy, Debug, PartialEq, Eq, Structural)]
pub enum PartialInfillTypes {
    /// Back and forth spaced lines
    Linear,
    /// Back and forth spaced lines and their perpendicular lines
    Rectilinear,
    /// Lines in 3 directions forming tessellating triangles
    Triangle,
    /// A 3d cube structure
    Cubic,
    /// Lightning shaped infill that retracts into the print walls
    Lightning,
}

/// The settings of a retraction wipe.
#[derive(Clone, Copy, Debug, PartialEq, Eq, Structural)]
pub struct RetractionWipeSettings {
    /// The speed of the wipe move
    pub speed: u64,
    /// The acceleration of the wipe move
    pub acceleration: u64,
    /// Wipe distance in mm
    pub distance: u64,
}

/// The layers that a layer rule applies to.
#[derive(Clone, Copy, Debug, PartialEq, Eq, Structural)]
pub enum LayerRange {
    /// A single layer, by index
    SingleLayer(usize),
    /// A range of layers by index, both ends included
    LayerCountRange { start: usize, end: usize },
    /// A range of heights, both ends included
    HeightRange { start: u64, end: u64 },
}

/// Settings for one layer.
#[derive(Clone, Copy, Debug, PartialEq, Eq, Structural)]
pub struct LayerSettings {
    /// The height of the layer
    pub layer_height: u64,
    /// Inset the layer by the provided amount; if None no inset is performed
    pub layer_shrink_amount: Option<u64>,
    /// The speeds used for movement
    pub speed: MovementParameter,
    /// The acceleration for movement
    pub acceleration: MovementParameter,
    /// The extrusion width of the layer
    pub extrusion_width: MovementParameter,
    /// Solid infill type
    pub solid_infill_type: SolidInfillTypes,
    /// Partial infill type
    pub partial_infill_type: PartialInfillTypes,
    /// The percentage of infill to use for partial infill
    pub infill_percentage: u64,
    /// Overlap between infill and interior perimeters
    pub infill_perimeter_overlap_percentage: u64,
    /// Controls the order of perimeters
    pub inner_perimeters_first: bool,
    /// Temperature of the bed
    pub bed_temp: u64,
    /// Temperature of the extruder
    pub extruder_temp: u64,
    /// Retraction wipe
    pub retraction_wipe: Option<RetractionWipeSettings>,
    /// Retraction distance
    pub retraction_length: u64,
}

/// Settings that a layer rule changes; unset fields keep their value.
#[derive(Clone, Copy, Debug, PartialEq, Eq, Structural)]
pub struct PartialLayerSettings {
    pub layer_height: Option<u64>,
    pub layer_shrink_amount: Option<u64>,
    pub speed: Option<MovementParameter>,
    pub acceleration: Option<MovementParameter>,
    pub extrusion_width: Option<MovementParameter>,
    pub solid_infill_type: Option<SolidInfillTypes>,
    pub partial_infill_type: Option<PartialInfillTypes>,
    pub infill_percentage: Option<u64>,
    pub infill_perimeter_overlap_percentage: Option<u64>,
    pub inner_perimeters_first: Option<bool>,
    pub bed_temp: Option<u64>,
    pub extruder_temp: Option<u64>,
    pub retraction_wipe: Option<RetractionWipeSettings>,
    pub retraction_length: Option<u64>,
}

/// The layer rule that changes nothing.
pub open spec fn no_overrides() -> PartialLayerSettings {
    PartialLayerSettings {
        layer_height: None,
        layer_shrink_amount: None,
        speed: None,
        acceleration: None,
        extrusion_width: None,
        solid_infill_type: None,
        partial_infill_type: None,
        infill_percentage: None,
        infill_perimeter_overlap_percentage: None,
        inner_perimeters_first: None,
        bed_temp: None,
        extruder_temp: None,
        retraction_wipe: None,
        retraction_length: None,
    }
}

impl Default for PartialLayerSettings {
    fn default() -> (p: Self)
        ensures
            p == no_overrides(),
    {
        PartialLayerSettings {
            layer_height: None,
            layer_shrink_amount: None,
            speed: None,
            acceleration: None,
            extrusion_width: None,
            solid_infill_type: None,
            partial_infill_type: None,
            infill_percentage: None,
            infill_perimeter_overlap_percentage: None,
            inner_perimeters_first: None,
            bed_temp: None,
            extruder_temp: None,
            retraction_wipe: None,
            retraction_length: None,
        }
    }
}

/// `first` where it is set, else `second`.
pub open spec fn first_set<T>(first: Option<T>, second: Option<T>) -> Option<T> {
    match first {
        Some(v) => Some(v),
        None => second,
    }
}

/// `value` where it is set, else `default`.
pub open spec fn set_or<T>(value: Option<T>, default: T) -> T {
    match value {
        Some(v) => v,
        None => default,
    }
}

/// Two layer rules as one: the fields `first` sets win.
pub open spec fn merged(first: PartialLayerSettings, second: PartialLayerSettings) -> PartialLayerSettings {
    PartialLayerSettings {
        layer_height: first_set(first.layer_height, second.layer_height),
        layer_shrink_amount: first_set(first.layer_shrink_amount, second.layer_shrink_amount),
        speed: first_set(first.speed, second.speed),
        acceleration: first_set(first.acceleration, second.acceleration),
        extrusion_width: first_set(first.extrusion_width, second.extrusion_width),
        solid_infill_type: first_set(first.solid_infill_type, second.solid_infill_type),
        partial_infill_type: first_set(first.partial_infill_type, second.partial_infill_type),
        infill_percentage: first_set(first.infill_percentage, second.infill_percentage),
        infill_perimeter_overlap_percentage: first_set(
            first.infill_perimeter_overlap_percentage,
            second.infill_perimeter_overlap_percentage,
        ),
        inner_perimeters_first: first_set(first.inner_perimeters_first, second.inner_perimeters_first),
        bed_temp: first_set(first.bed_temp, second.bed_temp),
        extruder_temp: first_set(first.extruder_temp, second.extruder_temp),
        retraction_wipe: first_set(first.retraction_wipe, second.retraction_wipe),
        retraction_length: first_set(first.retraction_length, second.retraction_length),
    }
}

/// The settings of a layer: every field a rule sets replaces the base value.
pub open spec fn applied(base: LayerSettings, p: PartialLayerSettings) -> LayerSettings {
    LayerSettings {
        layer_height: set_or(p.layer_height, base.layer_height),
        layer_shrink_amount: first_set(p.layer_shrink_amount, base.layer_shrink_amount),
        speed: set_or(p.speed, base.speed),
        acceleration: set_or(p.acceleration, base.acceleration),
        extrusion_width: set_or(p.extrusion_width, base.extrusion_width),
        solid_infill_type: set_or(p.solid_infill_type, base.solid_infill_type),
        partial_infill_type: set_or(p.partial_infill_type, base.partial_infill_type),
        infill_percentage: set_or(p.infill_percentage, base.infill_percentage),
        infill_perimeter_overlap_percentage: set_or(
            p.infill_perimeter_overlap_percentage,
            base.infill_perimeter_overlap_percentage,
        ),
        inner_perimeters_first: set_or(p.inner_perimeters_first, base.inner_perimeters_first),
        bed_temp: set_or(p.bed_temp, base.bed_temp),
        extruder_temp: set_or(p.extruder_temp, base.extruder_temp),
        retraction_wipe: first_set(p.retraction_wipe, base.retraction_wipe),
        retraction_length: set_or(p.retraction_length, base.retraction_length),
    }
}

/// Whether a layer rule applies to layer `layer`; for a height range,
/// `in_height_range` tells whether the layer's height lies in it.
pub open spec fn range_matches(r: LayerRange, layer: usize, in_height_range: bool) -> bool {
    match r {
        LayerRange::LayerCountRange { start, end } => start <= layer && layer <= end,
        LayerRange::HeightRange { .. } => in_height_range,
        LayerRange::SingleLayer(l) => l == layer,
    }
}

/// The rules that apply to a layer, merged in order: the first rule that sets
/// a field decides it.
pub open spec fn matching_overrides(
    rules: Seq<(LayerRange, PartialLayerSettings)>,
    layer: usize,
    in_height_range: Seq<bool>,
) -> PartialLayerSettings
    decreases rules.len(),
{
    if rules.len() == 0 {
        no_overrides()
    } else {
        let before = matching_overrides(rules.drop_last(), layer, in_height_range);
        if range_matches(rules.last().0, layer, in_height_range[rules.len() - 1]) {
            merged(before, rules.last().1)
        } else {
            before
        }
    }
}

fn first_set_u64(first: Option<u64>, second: Option<u64>) -> (r: Option<u64>)
    ensures
        r == first_set(first, second),
{
    match first {
        Some(v) => Some(v),
        None => second,
    }
}

fn first_set_params(first: Option<MovementParameter>, second: Option<MovementParameter>) -> (r:
    Option<MovementParameter>)
    ensures
        r == first_set(first, second),
{
    match first {
        Some(v) => Some(v),
        None => second,
    }
}

impl PartialLayerSettings {
    /// Fills the fields this rule leaves unset from `other`.
    pub fn combine(&mut self, other: PartialLayerSettings)
        ensures
            *final(self) == merged(*old(self), other),
    {
        self.layer_height = first_set_u64(self.layer_height, other.layer_height);
        self.layer_shrink_amount = first_set_u64(self.layer_shrink_amount, other.layer_shrink_amount);
        self.speed = first_set_params(self.speed, other.speed);
        self.acceleration = first_set_params(self.acceleration, other.acceleration);
        self.extrusion_width = first_set_params(self.extrusion_width, other.extrusion_width);
        self.solid_infill_type = match self.solid_infill_type {
            Some(v) => Some(v),
            None => other.solid_infill_type,
        };
        self.partial_infill_type = match self.partial_infill_type {
            Some(v) => Some(v),
            None => other.partial_infill_type,
        };
        self.infill_percentage = first_set_u64(self.infill_percentage, other.infill_percentage);
        self.infill_perimeter_overlap_percentage = first_set_u64(
            self.infill_perimeter_overlap_percentage,
            other.infill_perimeter_overlap_percentage,
        );
        self.inner_perimeters_first = match self.inner_perimeters_first {
            Some(v) => Some(v),
            None => other.inner_perimeters_first,
        };
        self.bed_temp = first_set_u64(self.bed_temp, other.bed_temp);
        self.extruder_temp = first_set_u64(self.extruder_temp, other.extruder_temp);
        self.retraction_wipe = match self.retraction_wipe {
            Some(v) => Some(v),
            None => other.retraction_wipe,
        };
        self.retraction_length = first_set_u64(self.retraction_length, other.retraction_length);
    }
}

/// The settings of layer number `layer`: the base settings, overridden by the
/// rules that apply to the layer, an earlier rule winning over a later one.
/// `in_height_range[k]` tells whether the layer's height lies in rule `k`'s
/// range when that rule is a height range (the heights are compared as
/// floating-point numbers outside this crate).
pub fn get_layer_settings(
    base: &LayerSettings,
    rules: &[(LayerRange, PartialLayerSettings)],
    layer: usize,
    in_height_range: &[bool],
) -> (s: LayerSettings)
    requires
        in_height_range@.len() == rules@.len(),
    ensures
        s == applied(*base, matching_overrides(rules@, layer, in_height_range@)),
{
    let mut changes = PartialLayerSettings::default();
    let mut k: usize = 0;
    while k < rules.len()
        invariant
            k <= rules@.len(),
            in_height_range@.len() == rules@.len(),
            changes == matching_overrides(rules@.take(k as int), layer, in_height_range@),
        decreases rules@.len() - k,
    {
        assert(rules@.take(k + 1).drop_last() == rules@.take(k as int));
        let (range, pls) = rules[k];
        let matches = match range {
            LayerRange::LayerCountRange { start, end } => start <= layer && layer <= end,
            LayerRange::HeightRange { .. } => in_height_range[k],
            LayerRange::SingleLayer(l) => l == layer,
        };
        if matches {
            changes.combine(pls);
        }
        k = k + 1;
    }
    assert(rules@.take(rules@.len() as int) == rules@);
    LayerSettings {
        layer_height: match changes.layer_height {
            Some(v) => v,
            None => base.layer_height,
        },
        layer_shrink_amount: first_set_u64(changes.layer_shrink_amount, base.layer_shrink_amount),
        speed: match changes.speed {
            Some(v) => v,
            None => base.speed,
        },
        acceleration: match changes.acceleration {
            Some(v) => v,
            None => base.acceleration,
        },
        extrusion_width: match changes.extrusion_width {
            Some(v) => v,
            None => base.extrusion_width,
        },
        solid_infill_type: match changes.solid_infill_type {
            Some(v) => v,
            None => base.solid_infill_type,
        },
        partial_infill_type: match changes.partial_infill_type {
            Some(v) => v,
            None => base.partial_infill_type,
        },
        infill_percentage: match changes.infill_percentage {
            Some(v) => v,
            None => base.infill_percentage,
        },
        infill_perimeter_overlap_percentage: match changes.infill_perimeter_overlap_percentage {
            Some(v) => v,
            None => base.infill_perimeter_overlap_percentage,
        },
        inner_perimeters_first: match changes.inner_perimeters_first {
            Some(v) => v,
            None => base.inner_perimeters_first,
        },
        bed_temp: match changes.bed_temp {
            Some(v) => v,
            None => base.bed_temp,
        },
        extruder_temp: match changes.extruder_temp {
            Some(v) => v,
            None => base.extruder_temp,
        },
        retraction_wipe: match changes.retraction_wipe {
            Some(v) => Some(v),
            None => base.retraction_wipe,
        },
        retraction_length: match changes.retraction_length {
            Some(v) => v,
            None => base.retraction_length,
        },
    }
}

/// Merging layer rules is associative, and the empty rule is neutral.
pub proof fn lemma_merged_laws(a: PartialLayerSettings, b: PartialLayerSettings, c: PartialLayerSettings)
    ensures
        merged(merged(a, b), c) == merged(a, merged(b, c)),
        merged(no_overrides(), a) == a,
        merged(a, no_overrides()) == a,
{
}

/// A layer that no rule applies to keeps the base settings.
pub proof fn lemma_no_rule_keeps_base(base: LayerSettings)
    ensures
        applied(base, no_overrides()) == base,
{
}

/// Every setting that `p` sets, `q` sets to the same value.
spec fn sets_kept(p: PartialLayerSettings, q: PartialLayerSettings) -> bool {
    &&& (p.layer_height matches Some(v) ==> q.layer_height == Some(v))
    &&& (p.layer_shrink_amount matches Some(v) ==> q.layer_shrink_amount == Some(v))
    &&& (p.speed matches Some(v) ==> q.speed == Some(v))
    &&& (p.acceleration matches Some(v) ==> q.acceleration == Some(v))
    &&& (p.extrusion_width matches Some(v) ==> q.extrusion_width == Some(v))
    &&& (p.solid_infill_type matches Some(v) ==> q.solid_infill_type == Some(v))
    &&& (p.partial_infill_type matches Some(v) ==> q.partial_infill_type == Some(v))
    &&& (p.infill_percentage matches Some(v) ==> q.infill_percentage == Some(v))
    &&& (p.infill_perimeter_overlap_percentage matches Some(v) ==> q.infill_perimeter_overlap_percentage == Some(v))
    &&& (p.inner_perimeters_first matches Some(v) ==> q.inner_perimeters_first == Some(v))
    &&& (p.bed_temp matches Some(v) ==> q.bed_temp == Some(v))
    &&& (p.extruder_temp matches Some(v) ==> q.extruder_temp == Some(v))
    &&& (p.retraction_wipe matches Some(v) ==> q.retraction_wipe == Some(v))
    &&& (p.retraction_length matches Some(v) ==> q.retraction_length == Some(v))
}

proof fn lemma_uncovered_rules_change_nothing(
    rules: Seq<(LayerRange, PartialLayerSettings)>,
    layer: usize,
    in_height_range: Seq<bool>,
)
    requires
        in_height_range.len() >= rules.len(),
        forall|k: int|
            0 <= k < rules.len() ==> match #[trigger] rules[k].0 {
                LayerRange::LayerCountRange { start, end } => layer < start || end < layer,
                LayerRange::SingleLayer(l) => l != layer,
                LayerRange::HeightRange { .. } => !in_height_range[k],
            },
    ensures
        matching_overrides(rules, layer, in_height_range) == no_overrides(),
    decreases rules.len(),
{
    if rules.len() > 0 {
        let r = rules.drop_last();
        assert forall|k: int| 0 <= k < r.len() implies match #[trigger] r[k].0 {
            LayerRange::LayerCountRange { start, end } => layer < start || end < layer,
            LayerRange::SingleLayer(l) => l != layer,
            LayerRange::HeightRange { .. } => !in_height_range[k],
        } by {
            assert(r[k] == rules[k]);
        }
        lemma_uncovered_rules_change_nothing(r, layer, in_height_range);
        let last = rules.len() - 1;
        assert(rules[last] == rules.last());
    }
}

/// A layer that no rule covers keeps the base settings: no count range from
/// `start` to `end` (both included) holds it, no single-layer rule names it,
/// and its height lies in no height range.
pub proof fn lemma_uncovered_layer_keeps_base(
    base: LayerSettings,
    rules: Seq<(LayerRange, PartialLayerSettings)>,
    layer: usize,
    in_height_range: Seq<bool>,
)
    requires
        in_height_range.len() == rules.len(),
        forall|k: int|
            0 <= k < rules.len() ==> match #[trigger] rules[k].0 {
                LayerRange::LayerCountRange { start, end } => layer < start || end < layer,
                LayerRange::SingleLayer(l) => l != layer,
                LayerRange::HeightRange { .. } => !in_height_range[k],
            },
    ensures
        applied(base, matching_overrides(rules, layer, in_height_range)) == base,
{
    lemma_uncovered_rules_change_nothing(rules, layer, in_height_range);
}

proof fn lemma_covering_rule_kept(
    rules: Seq<(LayerRange, PartialLayerSettings)>,
    layer: usize,
    in_height_range: Seq<bool>,
    k: int,
    n: int,
)
    requires
        in_height_range.len() >= rules.len(),
        0 <= k < n <= rules.len(),
        match rules[k].0 {
            LayerRange::LayerCountRange { start, end } => start <= layer && layer <= end,
            LayerRange::SingleLayer(l) => l == layer,
            LayerRange::HeightRange { .. } => in_height_range[k],
        },
        forall|j: int|
            0 <= j < k ==> match #[trigger] rules[j].0 {
                LayerRange::LayerCountRange { start, end } => layer < start || end < layer,
                LayerRange::SingleLayer(l) => l != layer,
                LayerRange::HeightRange { .. } => !in_height_range[j],
            },
    ensures
        sets_kept(rules[k].1, matching_overrides(rules.take(n), layer, in_height_range)),
    decreases n,
{
    let t = rules.take(n);
    assert(t.drop_last() == rules.take(n - 1));
    assert(t.last() == rules[n - 1]);
    if n == k + 1 {
        let r = rules.take(k);
        assert forall|j: int| 0 <= j < r.len() implies match #[trigger] r[j].0 {
            LayerRange::LayerCountRange { start, end } => layer < start || end < layer,
            LayerRange::SingleLayer(l) => l != layer,
            LayerRange::HeightRange { .. } => !in_height_range[j],
        } by {
            assert(r[j] == rules[j]);
        }
        lemma_uncovered_rules_change_nothing(r, layer, in_height_range);
    } else {
        lemma_covering_rule_kept(rules, layer, in_height_range, k, n - 1);
    }
}

/// The first rule that covers a layer decides every setting it sets: a count
/// range from `start` to `end` covers the layers from `start` to `end`, both
/// included; a single-layer rule covers its layer; a height range covers the
/// layers whose height lies in it.
pub proof fn lemma_first_covering_rule_decides(
    base: LayerSettings,
    rules: Seq<(LayerRange, PartialLayerSettings)>,
    layer: usize,
    in_height_range: Seq<bool>,
    k: int,
)
    requires
        in_height_range.len() == rules.len(),
        0 <= k < rules.len(),
        match rules[k].0 {
            LayerRange::LayerCountRange { start, end } => start <= layer && layer <= end,
            LayerRange::SingleLayer(l) => l == layer,
            LayerRange::HeightRange { .. } => in_height_range[k],
        },
        forall|j: int|
            0 <= j < k ==> match #[trigger] rules[j].0 {
                LayerRange::LayerCountRange { start, end } => layer < start || end < layer,
                LayerRange::SingleLayer(l) => l != layer,
                LayerRange::HeightRange { .. } => !in_height_range[j],
            },
    ensures
        ({
            let s = applied(base, matching_overrides(rules, layer, in_height_range));
            let p = rules[k].1;
            &&& p.layer_height matches Some(v) ==> s.layer_height == v
            &&& p.layer_shrink_amount matches Some(v) ==> s.layer_shrink_amount == Some(v)
            &&& p.speed matches Some(v) ==> s.speed == v
            &&& p.acceleration matches Some(v) ==> s.acceleration == v
            &&& p.extrusion_width matches Some(v) ==> s.extrusion_width == v
            &&& p.solid_infill_type matches Some(v) ==> s.solid_infill_type == v
            &&& p.partial_infill_type matches Some(v) ==> s.partial_infill_type == v
            &&& p.infill_percentage matches Some(v) ==> s.infill_percentage == v
            &&& p.infill_perimeter_overlap_percentage matches Some(v) ==> s.infill_perimeter_overlap_percentage == v
            &&& p.inner_perimeters_first matches Some(v) ==> s.inner_perimeters_first == v
            &&& p.bed_temp matches Some(v) ==> s.bed_temp == v
            &&& p.extruder_temp matches Some(v) ==> s.extruder_temp == v
            &&& p.retraction_wipe matches Some(v) ==> s.retraction_wipe == Some(v)
            &&& p.retraction_length matches Some(v) ==> s.retraction_length == v
        }),
{
    lemma_covering_rule_kept(rules, layer, in_height_range, k, rules.len() as int);
    assert(rules.take(rules.len() as int) == rules);
}

/// A setting that a settings file leaves unset, by its path.
#[derive(Clone, Debug, PartialEq)]
pub struct PartialConvertError(pub String);

impl PartialConvertError {
    /// The error the slicer reports for it: a missing setting, named by its path.
    pub fn into_slicer_error(self) -> (e: SlicerErrors)
        ensures
            e == (SlicerErrors::SettingsFileMissingSettings { missing_setting: self.0 }),
    {
        SlicerErrors::SettingsFileMissingSettings { missing_setting: self.0 }
    }
}

} // verus!
