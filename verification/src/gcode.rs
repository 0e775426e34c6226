//! The G-code that the commands become, as a list of steps.
//!
//! Each step is one or a few lines of G-code; writing a step out means
//! formatting floating-point numbers (and, for an extrusion, working out the
//! length of filament it takes), which happens outside this crate. What is
//! decided here is which steps come for each command and in which order, and
//! the height, layer and object that the instruction templates are expanded
//! with.
use crate::commands::{Command, Coord, StateChange};
use vstd::prelude::*;

verus! {

/// The instruction templates of the settings.
#[derive(Clone, Copy, Debug, PartialEq, Eq, Structural)]
pub enum TemplateKind {
    /// Instructions at the start of the print
    Starting,
    /// Instructions at the end of the print
    Ending,
    /// Instructions before each layer change
    BeforeLayerChange,
    /// Instructions after each layer change
    AfterLayerChange,
    /// Instructions when the object being printed changes
    ObjectChange,
}

/// A step of the G-code output.
#[derive(Clone, Copy, Debug, PartialEq, Eq, Structural)]
pub enum GcodeStep {
    /// An instruction template, expanded for this height, layer and objects
    Instructions {
        kind: TemplateKind,
        z: u64,
        layer: usize,
        previous_object: Option<usize>,
        current_object: Option<usize>,
    },
    /// A move without extrusion (`G1 X Y`)
    MoveTo { end: Coord },
    /// A move that extrudes (`G1 X Y E`), the amount worked out from the
    /// length, width and thickness
    Extrude { start: Coord, end: Coord, thickness: u64, width: u64 },
    /// Set the feed rate (`G1 F`)
    Feedrate { speed: u64 },
    /// Set the acceleration (`M204 S`)
    Acceleration { acceleration: u64 },
    /// Retract the filament (`G1 E-` at the retract speed)
    Retract,
    /// Lift the head above height `z` by the retract lift (`G1 Z`)
    LiftZ { z: u64 },
    /// Bring the head back down to height `z` (`G1 Z`)
    UnliftZ { z: u64 },
    /// Push the filament back (`G1 E` at the retract speed)
    Unretract,
    /// Set the extruder temperature (`M104 S`)
    ExtruderTemp { temp: u64 },
    /// Set the bed temperature (`M140 S`)
    BedTemp { temp: u64 },
    /// Set the fan speed (`M106 S`)
    FanSpeed { speed: u64 },
    /// Move to the height of a new layer (`G1 Z`)
    LayerHeight { z: u64 },
    /// Wait (`G4 P`)
    Delay { msec: u64 },
    /// An arc move that extrudes (`G2` clockwise, `G3` otherwise)
    Arc { start: Coord, end: Coord, center: Coord, clockwise: bool, thickness: u64, width: u64 },
}

/// What the conversion keeps track of: the current height, the index of the
/// current layer, how many layer changes came so far, and the current object.
#[derive(Clone, Copy, Debug, PartialEq, Eq, Structural)]
pub struct GcodeState {
    pub z: u64,
    pub layer: usize,
    pub layer_changes: usize,
    pub object: Option<usize>,
}

/// The state at the start: height zero, layer zero, no object.
pub open spec fn initial_state() -> GcodeState {
    GcodeState { z: 0, layer: 0, layer_changes: 0, object: None }
}

/// The speed and acceleration steps of a state change.
pub open spec fn speed_steps(s: StateChange) -> Seq<GcodeStep> {
    let speed = match s.movement_speed {
        Some(v) => seq![GcodeStep::Feedrate { speed: v }],
        None => Seq::empty(),
    };
    let accel = match s.acceleration {
        Some(a) => seq![GcodeStep::Acceleration { acceleration: a }],
        None => Seq::empty(),
    };
    speed + accel
}

/// The retraction steps of a state change at height `z`: with a retraction,
/// speed and acceleration, then retract and lift; with an unretraction, bring
/// down and unretract, then speed and acceleration; otherwise speed and
/// acceleration alone.
pub open spec fn retraction_steps(s: StateChange, z: u64) -> Seq<GcodeStep> {
    match s.retract {
        None => speed_steps(s),
        Some(true) => speed_steps(s) + seq![GcodeStep::Retract, GcodeStep::LiftZ { z }],
        Some(false) => seq![GcodeStep::UnliftZ { z }, GcodeStep::Unretract] + speed_steps(s),
    }
}

/// The temperature and fan steps of a state change.
pub open spec fn setting_steps(s: StateChange) -> Seq<GcodeStep> {
    let ext = match s.extruder_temp {
        Some(t) => seq![GcodeStep::ExtruderTemp { temp: t }],
        None => Seq::empty(),
    };
    let bed = match s.bed_temp {
        Some(t) => seq![GcodeStep::BedTemp { temp: t }],
        None => Seq::empty(),
    };
    let fan = match s.fan_speed {
        Some(f) => seq![GcodeStep::FanSpeed { speed: f }],
        None => Seq::empty(),
    };
    ext + bed + fan
}

/// The steps of a state change at height `z`: its retraction steps, then the
/// temperatures and the fan.
pub open spec fn state_steps(s: StateChange, z: u64) -> Seq<GcodeStep> {
    retraction_steps(s, z) + setting_steps(s)
}

/// The steps of one command in state `st`, and the state after it.
pub open spec fn command_steps(c: Command, st: GcodeState) -> (Seq<GcodeStep>, GcodeState) {
    match c {
        Command::MoveTo { end } => (seq![GcodeStep::MoveTo { end }], st),
        Command::MoveAndExtrude { start, end, thickness, width } => (
            seq![GcodeStep::Extrude { start, end, thickness, width }],
            st,
        ),
        Command::SetState { new_state } => (state_steps(new_state, st.z), st),
        Command::LayerChange { z } => {
            let next = GcodeState {
                z,
                layer: st.layer_changes,
                layer_changes: (st.layer_changes + 1) as usize,
                object: st.object,
            };
            (
                seq![
                    GcodeStep::Instructions {
                        kind: TemplateKind::BeforeLayerChange,
                        z: st.z,
                        layer: st.layer,
                        previous_object: None,
                        current_object: st.object,
                    },
                    GcodeStep::LayerHeight { z },
                    GcodeStep::Instructions {
                        kind: TemplateKind::AfterLayerChange,
                        z,
                        layer: next.layer,
                        previous_object: None,
                        current_object: st.object,
                    },
                ],
                next,
            )
        },
        Command::Delay { msec } => (seq![GcodeStep::Delay { msec }], st),
        Command::Arc { start, end, center, clockwise, thickness, width } => (
            seq![GcodeStep::Arc { start, end, center, clockwise, thickness, width }],
            st,
        ),
        Command::ChangeObject { object } => (
            seq![
                GcodeStep::Instructions {
                    kind: TemplateKind::ObjectChange,
                    z: st.z,
                    layer: st.layer,
                    previous_object: st.object,
                    current_object: Some(object),
                },
            ],
            GcodeState { object: Some(object), ..st },
        ),
        Command::NoAction => (Seq::empty(), st),
    }
}

/// The steps of a list of commands, one command after the other, and the
/// state after them.
pub open spec fn run_steps(cmds: Seq<Command>) -> (Seq<GcodeStep>, GcodeState)
    decreases cmds.len(),
{
    if cmds.len() == 0 {
        (Seq::empty(), initial_state())
    } else {
        let (before, st) = run_steps(cmds.drop_last());
        let (steps, next) = command_steps(cmds.last(), st);
        (before + steps, next)
    }
}

/// The G-code steps of a print: those of each command in turn, then the
/// ending instructions expanded in the final state.
pub open spec fn gcode_steps(cmds: Seq<Command>) -> Seq<GcodeStep> {
    let (steps, st) = run_steps(cmds);
    steps.push(
        GcodeStep::Instructions {
            kind: TemplateKind::Ending,
            z: st.z,
            layer: st.layer,
            previous_object: None,
            current_object: st.object,
        },
    )
}

/// The number of layer changes in a list of commands.
pub open spec fn count_layer_changes(cmds: Seq<Command>) -> nat
    decreases cmds.len(),
{
    if cmds.len() == 0 {
        0
    } else {
        count_layer_changes(cmds.drop_last()) + if cmds.last() is LayerChange {
            1nat
        } else {
            0nat
        }
    }
}

proof fn lemma_run_changes(cmds: Seq<Command>)
    requires
        cmds.len() <= usize::MAX,
    ensures
        run_steps(cmds).1.layer_changes == count_layer_changes(cmds),
        count_layer_changes(cmds) <= cmds.len(),
    decreases cmds.len(),
{
    if cmds.len() > 0 {
        lemma_run_changes(cmds.drop_last());
    }
}

proof fn lemma_contains_concat(a: Seq<GcodeStep>, b: Seq<GcodeStep>, x: GcodeStep)
    ensures
        a.contains(x) ==> (a + b).contains(x),
        b.contains(x) ==> (a + b).contains(x),
{
    if a.contains(x) {
        let i = choose|i: int| 0 <= i < a.len() && a[i] == x;
        assert((a + b)[i] == x);
    }
    if b.contains(x) {
        let i = choose|i: int| 0 <= i < b.len() && b[i] == x;
        assert((a + b)[a.len() + i] == x);
    }
}

/// Whether step `x` comes out of a state change at every height.
spec fn written_at_any_height(s: StateChange, x: GcodeStep) -> bool {
    forall|z: u64| #[trigger] state_steps(s, z).contains(x)
}

proof fn lemma_command_steps_are_kept(cmds: Seq<Command>, i: int, x: GcodeStep)
    requires
        0 <= i < cmds.len(),
        cmds[i] matches Command::SetState { new_state } && written_at_any_height(new_state, x),
    ensures
        run_steps(cmds).0.contains(x),
    decreases cmds.len(),
{
    let (before, st) = run_steps(cmds.drop_last());
    let (steps, next) = command_steps(cmds.last(), st);
    if i == cmds.len() - 1 {
        assert(state_steps(cmds[i]->SetState_new_state, st.z).contains(x));
        lemma_contains_concat(before, steps, x);
    } else {
        assert(cmds.drop_last()[i] == cmds[i]);
        lemma_command_steps_are_kept(cmds.drop_last(), i, x);
        lemma_contains_concat(before, steps, x);
    }
}

proof fn lemma_step_in(a: Seq<GcodeStep>, k: int, x: GcodeStep)
    requires
        0 <= k < a.len(),
        a[k] == x,
    ensures
        a.contains(x),
{
}

/// Every setting that a state change sets is written out: a temperature, the
/// fan speed, the feed rate and the acceleration each become a step with that
/// value, a retraction a retract step and an unretraction an unretract step,
/// wherever the state change stands among the commands.
pub proof fn lemma_state_changes_are_written(cmds: Seq<Command>, i: int)
    requires
        0 <= i < cmds.len(),
        cmds[i] is SetState,
    ensures
        ({
            let s = cmds[i]->SetState_new_state;
            let out = gcode_steps(cmds);
            &&& s.extruder_temp matches Some(t) ==> out.contains(GcodeStep::ExtruderTemp { temp: t })
            &&& s.bed_temp matches Some(t) ==> out.contains(GcodeStep::BedTemp { temp: t })
            &&& s.fan_speed matches Some(f) ==> out.contains(GcodeStep::FanSpeed { speed: f })
            &&& s.movement_speed matches Some(v) ==> out.contains(GcodeStep::Feedrate { speed: v })
            &&& s.acceleration matches Some(a) ==> out.contains(GcodeStep::Acceleration { acceleration: a })
            &&& s.retract == Some(true) ==> out.contains(GcodeStep::Retract)
            &&& s.retract == Some(false) ==> out.contains(GcodeStep::Unretract)
        }),
{
    let s = cmds[i]->SetState_new_state;
    let xs = seq![
        GcodeStep::ExtruderTemp { temp: s.extruder_temp->0 },
        GcodeStep::BedTemp { temp: s.bed_temp->0 },
        GcodeStep::FanSpeed { speed: s.fan_speed->0 },
        GcodeStep::Feedrate { speed: s.movement_speed->0 },
        GcodeStep::Acceleration { acceleration: s.acceleration->0 },
        GcodeStep::Retract,
        GcodeStep::Unretract,
    ];
    let sets = seq![
        s.extruder_temp is Some,
        s.bed_temp is Some,
        s.fan_speed is Some,
        s.movement_speed is Some,
        s.acceleration is Some,
        s.retract == Some(true),
        s.retract == Some(false),
    ];
    let (steps, st) = run_steps(cmds);
    let end = GcodeStep::Instructions {
        kind: TemplateKind::Ending,
        z: st.z,
        layer: st.layer,
        previous_object: None,
        current_object: st.object,
    };
    assert forall|j: int| 0 <= j < 7 && #[trigger] sets[j] implies gcode_steps(cmds).contains(xs[j]) by {
        let x = xs[j];
        assert forall|z: u64| #[trigger] state_steps(s, z).contains(x) by {
            let sp = speed_steps(s);
            let ext = match s.extruder_temp {
                Some(t) => seq![GcodeStep::ExtruderTemp { temp: t }],
                None => Seq::<GcodeStep>::empty(),
            };
            let bed = match s.bed_temp {
                Some(t) => seq![GcodeStep::BedTemp { temp: t }],
                None => Seq::<GcodeStep>::empty(),
            };
            let fan = match s.fan_speed {
                Some(f) => seq![GcodeStep::FanSpeed { speed: f }],
                None => Seq::<GcodeStep>::empty(),
            };
            let spd = match s.movement_speed {
                Some(v) => seq![GcodeStep::Feedrate { speed: v }],
                None => Seq::<GcodeStep>::empty(),
            };
            let acc = match s.acceleration {
                Some(a) => seq![GcodeStep::Acceleration { acceleration: a }],
                None => Seq::<GcodeStep>::empty(),
            };
            assert(sp == spd + acc);
            assert(setting_steps(s) == ext + bed + fan);
            let r = retraction_steps(s, z);
            if j == 0 {
                lemma_step_in(ext, 0, x);
                lemma_contains_concat(ext, bed, x);
                lemma_contains_concat(ext + bed, fan, x);
                lemma_contains_concat(r, setting_steps(s), x);
            } else if j == 1 {
                lemma_step_in(bed, 0, x);
                lemma_contains_concat(ext, bed, x);
                lemma_contains_concat(ext + bed, fan, x);
                lemma_contains_concat(r, setting_steps(s), x);
            } else if j == 2 {
                lemma_step_in(fan, 0, x);
                lemma_contains_concat(ext + bed, fan, x);
                lemma_contains_concat(r, setting_steps(s), x);
            } else if j == 3 || j == 4 {
                if j == 3 {
                    lemma_step_in(spd, 0, x);
                } else {
                    lemma_step_in(acc, 0, x);
                }
                lemma_contains_concat(spd, acc, x);
                let rr = seq![GcodeStep::Retract, GcodeStep::LiftZ { z }];
                let ur = seq![GcodeStep::UnliftZ { z }, GcodeStep::Unretract];
                lemma_contains_concat(sp, rr, x);
                lemma_contains_concat(ur, sp, x);
                lemma_contains_concat(r, setting_steps(s), x);
            } else if j == 5 {
                let rr = seq![GcodeStep::Retract, GcodeStep::LiftZ { z }];
                lemma_step_in(rr, 0, x);
                lemma_contains_concat(sp, rr, x);
                lemma_contains_concat(r, setting_steps(s), x);
            } else {
                let ur = seq![GcodeStep::UnliftZ { z }, GcodeStep::Unretract];
                lemma_step_in(ur, 1, x);
                lemma_contains_concat(ur, sp, x);
                lemma_contains_concat(r, setting_steps(s), x);
            }
        }
        lemma_command_steps_are_kept(cmds, i, x);
        lemma_contains_concat(steps, seq![end], x);
        assert(gcode_steps(cmds) == steps + seq![end]);
    }
    assert(sets[0] ==> gcode_steps(cmds).contains(xs[0]));
    assert(sets[1] ==> gcode_steps(cmds).contains(xs[1]));
    assert(sets[2] ==> gcode_steps(cmds).contains(xs[2]));
    assert(sets[3] ==> gcode_steps(cmds).contains(xs[3]));
    assert(sets[4] ==> gcode_steps(cmds).contains(xs[4]));
    assert(sets[5] ==> gcode_steps(cmds).contains(xs[5]));
    assert(sets[6] ==> gcode_steps(cmds).contains(xs[6]));
}

fn push_speed_steps(s: &StateChange, out: &mut Vec<GcodeStep>)
    ensures
        final(out)@ == old(out)@ + speed_steps(*s),
{
    if let Some(v) = s.movement_speed {
        out.push(GcodeStep::Feedrate { speed: v });
    }
    if let Some(a) = s.acceleration {
        out.push(GcodeStep::Acceleration { acceleration: a });
    }
}

fn push_retraction_steps(s: &StateChange, z: u64, out: &mut Vec<GcodeStep>)
    ensures
        final(out)@ == old(out)@ + retraction_steps(*s, z),
{
    let ghost start = out@;
    match s.retract {
        None => {
            push_speed_steps(s, out);
        },
        Some(true) => {
            push_speed_steps(s, out);
            out.push(GcodeStep::Retract);
            out.push(GcodeStep::LiftZ { z });
            assert(out@ == start + retraction_steps(*s, z));
        },
        Some(false) => {
            out.push(GcodeStep::UnliftZ { z });
            out.push(GcodeStep::Unretract);
            push_speed_steps(s, out);
            assert(out@ == start + retraction_steps(*s, z));
        },
    }
}

fn push_setting_steps(s: &StateChange, out: &mut Vec<GcodeStep>)
    ensures
        final(out)@ == old(out)@ + setting_steps(*s),
{
    let ghost start = out@;
    if let Some(t) = s.extruder_temp {
        out.push(GcodeStep::ExtruderTemp { temp: t });
    }
    if let Some(t) = s.bed_temp {
        out.push(GcodeStep::BedTemp { temp: t });
    }
    if let Some(f) = s.fan_speed {
        out.push(GcodeStep::FanSpeed { speed: f });
    }
    assert(out@ == start + setting_steps(*s));
}

fn push_state_steps(s: &StateChange, z: u64, out: &mut Vec<GcodeStep>)
    ensures
        final(out)@ == old(out)@ + state_steps(*s, z),
{
    let ghost start = out@;
    push_retraction_steps(s, z, out);
    push_setting_steps(s, out);
    assert(out@ == start + state_steps(*s, z));
}

/// Works out the G-code steps of a print: for each command, the steps that
/// write it (an extrusion, a state change with its retraction, a layer change
/// between the templates before and after it, an object change with its
/// template), then the ending template. The templates are expanded for the
/// height, layer and objects at that point. The commands must hold no
/// `NoAction`: the optimizer takes those out.
pub fn convert(cmds: &[Command]) -> (steps: Vec<GcodeStep>)
    requires
        forall|i: int| 0 <= i < cmds@.len() ==> !(#[trigger] cmds@[i] is NoAction),
    ensures
        steps@ == gcode_steps(cmds@),
{
    let ghost s = cmds@;
    let mut out: Vec<GcodeStep> = Vec::new();
    let mut st = GcodeState { z: 0, layer: 0, layer_changes: 0, object: None };
    let mut i: usize = 0;
    while i < cmds.len()
        invariant
            s == cmds@,
            i <= s.len(),
            (out@, st) == run_steps(s.take(i as int)),
        decreases s.len() - i,
    {
        assert(s.take(i + 1).drop_last() == s.take(i as int));
        assert(s.take(i + 1).last() == s[i as int]);
        proof {
            lemma_run_changes(s.take(i as int));
        }
        let c = cmds[i];
        match c {
            Command::MoveTo { end } => {
                out.push(GcodeStep::MoveTo { end });
            },
            Command::MoveAndExtrude { start, end, thickness, width } => {
                out.push(GcodeStep::Extrude { start, end, thickness, width });
            },
            Command::SetState { new_state } => {
                push_state_steps(&new_state, st.z, &mut out);
            },
            Command::LayerChange { z } => {
                out.push(
                    GcodeStep::Instructions {
                        kind: TemplateKind::BeforeLayerChange,
                        z: st.z,
                        layer: st.layer,
                        previous_object: None,
                        current_object: st.object,
                    },
                );
                out.push(GcodeStep::LayerHeight { z });
                st = GcodeState {
                    z,
                    layer: st.layer_changes,
                    layer_changes: st.layer_changes + 1,
                    object: st.object,
                };
                out.push(
                    GcodeStep::Instructions {
                        kind: TemplateKind::AfterLayerChange,
                        z,
                        layer: st.layer,
                        previous_object: None,
                        current_object: st.object,
                    },
                );
            },
            Command::Delay { msec } => {
                out.push(GcodeStep::Delay { msec });
            },
            Command::Arc { start, end, center, clockwise, thickness, width } => {
                out.push(GcodeStep::Arc { start, end, center, clockwise, thickness, width });
            },
            Command::ChangeObject { object } => {
                out.push(
                    GcodeStep::Instructions {
                        kind: TemplateKind::ObjectChange,
                        z: st.z,
                        layer: st.layer,
                        previous_object: st.object,
                        current_object: Some(object),
                    },
                );
                st = GcodeState { object: Some(object), ..st };
            },
            Command::NoAction => {
                assert(s[i as int] is NoAction);
            },
        }
        i = i + 1;
    }
    assert(s.take(s.len() as int) == s);
    out.push(
        GcodeStep::Instructions {
            kind: TemplateKind::Ending,
            z: st.z,
            layer: st.layer,
            previous_object: None,
            current_object: st.object,
        },
    );
    out
}

} // verus!
