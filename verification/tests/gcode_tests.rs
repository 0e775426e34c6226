use evalexpr::{
    eval_float_with_context, ContextWithMutableVariables, DefaultNumericTypes, HashMapContext,
    Value,
};
use gladius_slicer::commands::{Command, Coord, StateChange};
use gladius_slicer::error::SlicerErrors;
use gladius_slicer::gcode::{convert, GcodeStep, TemplateKind};
use gladius_slicer::template::{convert_instructions, instruction_parts, InstructionPart};

/// Evaluates the expressions of a template as the slicer does, with the
/// extruder temperature of the default settings, and puts the template back
/// together.
fn expand(instructions: &str) -> Result<String, SlicerErrors> {
    let mut context = HashMapContext::<DefaultNumericTypes>::new();
    context
        .set_value("curr_extruder_temp".to_string(), Value::Float(210.0))
        .unwrap();
    let parts = instruction_parts(instructions);
    let values: Vec<Result<String, SlicerErrors>> = parts
        .iter()
        .map(|p| match p {
            InstructionPart::Text(_) => Ok(String::new()),
            InstructionPart::Expression { expression, .. } => {
                eval_float_with_context(expression, &context)
                    .map(|f| f.to_string())
                    .map_err(|e| SlicerErrors::SettingMacroParseError { sub_error: e.to_string() })
            }
        })
        .collect();
    convert_instructions(&parts, &values)
}

#[test]
fn convert_instructions_test() {
    assert_eq!(expand("{1.5+3.0}"), Ok(String::from("4.5")));
    assert_eq!(expand("{curr_extruder_temp+3.0}"), Ok(String::from("213")));
    assert_eq!(
        expand("// temp is {curr_extruder_temp+3.0} C"),
        Ok(String::from("// temp is 213 C"))
    );
    assert_eq!(
        expand("// temp is {if(10>20,10.0,20.0)} C"),
        Ok(String::from("// temp is 20 C"))
    );
}

#[test]
fn template_parts_are_cut_at_braces() {
    let parts = instruction_parts("G28 {a} mid {b}end}dropped {");
    assert_eq!(parts.len(), 4);
    match &parts[0] {
        InstructionPart::Text(t) => assert_eq!(t, "G28 "),
        _ => panic!("first part is text"),
    }
    match &parts[1] {
        InstructionPart::Expression { expression, tail } => {
            assert_eq!(expression, "a");
            assert_eq!(tail.as_deref(), Some(" mid "));
        }
        _ => panic!("second part is an expression"),
    }
    match &parts[2] {
        InstructionPart::Expression { expression, tail } => {
            assert_eq!(expression, "b");
            assert_eq!(tail.as_deref(), Some("end"));
        }
        _ => panic!("third part is an expression"),
    }
    match &parts[3] {
        InstructionPart::Text(t) => assert_eq!(t, ""),
        _ => panic!("an empty piece is text"),
    }
}

#[test]
fn missing_end_brace_is_an_error() {
    assert_eq!(
        expand("M104 {curr_extruder_temp"),
        Err(SlicerErrors::SettingMacroParseError { sub_error: String::from("Missing end brace") })
    );
}

#[test]
fn evaluation_error_comes_first() {
    let r = expand("x {unknown_variable");
    match r {
        Err(SlicerErrors::SettingMacroParseError { sub_error }) => {
            assert_ne!(sub_error, "Missing end brace")
        }
        other => panic!("unexpected {:?}", other),
    }
}

#[test]
fn template_without_expression_is_kept() {
    assert_eq!(expand("G28 ; home"), Ok(String::from("G28 ; home")));
    assert_eq!(expand(""), Ok(String::new()));
}

fn c(x: u64, y: u64) -> Coord {
    Coord { x, y }
}

#[test]
fn convert_plans_each_command() {
    let retract = StateChange {
        movement_speed: Some(1),
        acceleration: Some(2),
        retract: Some(true),
        ..StateChange::default()
    };
    let unretract = StateChange { retract: Some(false), extruder_temp: Some(3), fan_speed: Some(4), ..StateChange::default() };
    let cmds = vec![
        Command::ChangeObject { object: 0 },
        Command::LayerChange { z: 10 },
        Command::SetState { new_state: retract },
        Command::MoveTo { end: c(5, 5) },
        Command::SetState { new_state: unretract },
        Command::MoveAndExtrude { start: c(5, 5), end: c(6, 6), thickness: 7, width: 8 },
        Command::Delay { msec: 9 },
        Command::LayerChange { z: 20 },
    ];
    let steps = convert(&cmds);
    let instr = |kind, z, layer, previous_object, current_object| GcodeStep::Instructions {
        kind,
        z,
        layer,
        previous_object,
        current_object,
    };
    assert_eq!(
        steps,
        vec![
            instr(TemplateKind::ObjectChange, 0, 0, None, Some(0)),
            instr(TemplateKind::BeforeLayerChange, 0, 0, None, Some(0)),
            GcodeStep::LayerHeight { z: 10 },
            instr(TemplateKind::AfterLayerChange, 10, 0, None, Some(0)),
            GcodeStep::Feedrate { speed: 1 },
            GcodeStep::Acceleration { acceleration: 2 },
            GcodeStep::Retract,
            GcodeStep::LiftZ { z: 10 },
            GcodeStep::MoveTo { end: c(5, 5) },
            GcodeStep::UnliftZ { z: 10 },
            GcodeStep::Unretract,
            GcodeStep::ExtruderTemp { temp: 3 },
            GcodeStep::FanSpeed { speed: 4 },
            GcodeStep::Extrude { start: c(5, 5), end: c(6, 6), thickness: 7, width: 8 },
            GcodeStep::Delay { msec: 9 },
            instr(TemplateKind::BeforeLayerChange, 10, 0, None, Some(0)),
            GcodeStep::LayerHeight { z: 20 },
            instr(TemplateKind::AfterLayerChange, 20, 1, None, Some(0)),
            instr(TemplateKind::Ending, 20, 1, None, Some(0)),
        ]
    );
}

#[test]
fn convert_of_nothing_is_the_ending() {
    assert_eq!(
        convert(&[]),
        vec![GcodeStep::Instructions {
            kind: TemplateKind::Ending,
            z: 0,
            layer: 0,
            previous_object: None,
            current_object: None,
        }]
    );
}
