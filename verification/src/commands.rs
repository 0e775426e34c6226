//! The intermediate representation of the commands sent to the printer.
//!
//! Lengths, speeds and temperatures are floating-point numbers in the slicer;
//! here each one is carried by its IEEE-754 bit pattern (`f64::to_bits`), which
//! gives it back exactly. Two values are compared as the numbers they stand
//! for (`float_eq`): `0.0` equals `-0.0`, and a NaN equals nothing.
use crate::settings::{value_for, LayerSettings};
use vstd::prelude::*;

verus! {

/// A point in the plane, each coordinate by its bit pattern.
#[derive(Clone, Copy, Debug, PartialEq, Eq, Structural)]
pub struct Coord {
    pub x: u64,
    pub y: u64,
}

impl Coord {
    /// The origin: both coordinates are `0.0`, whose bit pattern is 0.
    pub fn zero() -> (c: Coord)
        ensures
            c == (Coord { x: 0, y: 0 }),
    {
        Coord { x: 0, y: 0 }
    }
}

/// The bit pattern with only the sign bit set; the other bits of a pattern
/// are its magnitude.
pub const SIGN_BIT: u64 = 0x8000_0000_0000_0000;

/// The largest magnitude of a pattern that is not a NaN: the pattern of
/// infinity.
pub const INFINITY_BITS: u64 = 0x7FF0_0000_0000_0000;

/// Whether a bit pattern is a NaN: all exponent bits set and a mantissa that
/// is not zero.
pub open spec fn is_nan_bits(a: u64) -> bool {
    a % SIGN_BIT > INFINITY_BITS
}

/// Floating-point equality of the numbers two bit patterns stand for: no NaN
/// is equal to anything, the two zeros are equal, and otherwise the patterns
/// must be the same.
pub open spec fn float_eq(a: u64, b: u64) -> bool {
    &&& !is_nan_bits(a)
    &&& !is_nan_bits(b)
    &&& (a == b || (a % SIGN_BIT == 0 && b % SIGN_BIT == 0))
}

/// Computes `float_eq`.
pub fn same_float(a: u64, b: u64) -> (r: bool)
    ensures
        r == float_eq(a, b),
{
    let ma = a % SIGN_BIT;
    let mb = b % SIGN_BIT;
    ma <= INFINITY_BITS && mb <= INFINITY_BITS && (a == b || (ma == 0 && mb == 0))
}

/// Equality of two optional numbers: both unset, or both set to equal numbers.
pub open spec fn opt_float_eq(a: Option<u64>, b: Option<u64>) -> bool {
    match (a, b) {
        (None, None) => true,
        (Some(x), Some(y)) => float_eq(x, y),
        _ => false,
    }
}

fn same_opt_float(a: Option<u64>, b: Option<u64>) -> (r: bool)
    ensures
        r == opt_float_eq(a, b),
{
    match (a, b) {
        (None, None) => true,
        (Some(x), Some(y)) => same_float(x, y),
        _ => false,
    }
}

/// Equality of two points: both coordinates equal as numbers.
pub open spec fn coord_eq(a: Coord, b: Coord) -> bool {
    float_eq(a.x, b.x) && float_eq(a.y, b.y)
}

/// Computes `coord_eq`.
pub fn same_coord(a: Coord, b: Coord) -> (r: bool)
    ensures
        r == coord_eq(a, b),
{
    same_float(a.x, b.x) && same_float(a.y, b.y)
}

/// Two readings of a setting that the printer cannot tell apart: the same
/// pattern, or equal numbers.
pub open spec fn same_reading(a: Option<u64>, b: Option<u64>) -> bool {
    a == b || opt_float_eq(a, b)
}

/// Two printer states that hold the same numbers and the same retraction.
pub open spec fn same_state(a: StateChange, b: StateChange) -> bool {
    &&& same_reading(a.extruder_temp, b.extruder_temp)
    &&& same_reading(a.bed_temp, b.bed_temp)
    &&& same_reading(a.fan_speed, b.fan_speed)
    &&& same_reading(a.movement_speed, b.movement_speed)
    &&& same_reading(a.acceleration, b.acceleration)
    &&& a.retract == b.retract
}

/// A change in the state of the printer. All fields are optional and are only
/// set when that part of the state changes.
#[derive(Clone, Copy, Debug, PartialEq, Eq, Structural)]
pub struct StateChange {
    /// The temperature of the current extruder
    pub extruder_temp: Option<u64>,
    /// The temperature of the printing bed
    pub bed_temp: Option<u64>,
    /// The speed of the fan
    pub fan_speed: Option<u64>,
    /// The speed movement commands are performed at
    pub movement_speed: Option<u64>,
    /// The acceleration that movement commands are performed at
    pub acceleration: Option<u64>,
    /// Whether the filament is retracted
    pub retract: Option<bool>,
}

/// The state change that changes nothing.
pub open spec fn no_change() -> StateChange {
    StateChange {
        extruder_temp: None,
        bed_temp: None,
        fan_speed: None,
        movement_speed: None,
        acceleration: None,
        retract: None,
    }
}

impl Default for StateChange {
    fn default() -> (s: Self)
        ensures
            s == no_change(),
    {
        StateChange {
            extruder_temp: None,
            bed_temp: None,
            fan_speed: None,
            movement_speed: None,
            acceleration: None,
            retract: None,
        }
    }
}

/// `new` where it is set, else `old`.
pub open spec fn prefer<T>(old: Option<T>, new: Option<T>) -> Option<T> {
    match new {
        Some(v) => Some(v),
        None => old,
    }
}

/// Applying state change `new` after `old`: every field that `new` sets wins.
pub open spec fn combined(old: StateChange, new: StateChange) -> StateChange {
    StateChange {
        extruder_temp: prefer(old.extruder_temp, new.extruder_temp),
        bed_temp: prefer(old.bed_temp, new.bed_temp),
        fan_speed: prefer(old.fan_speed, new.fan_speed),
        movement_speed: prefer(old.movement_speed, new.movement_speed),
        acceleration: prefer(old.acceleration, new.acceleration),
        retract: prefer(old.retract, new.retract),
    }
}

/// What has to be sent to go from `current` to `new` for one field: nothing
/// when the field is already as asked.
pub open spec fn field_diff<T>(current: Option<T>, new: Option<T>) -> Option<T> {
    if current == new {
        None
    } else {
        new
    }
}

/// `field_diff` for a number: nothing when the field already holds an equal
/// number.
pub open spec fn float_diff(current: Option<u64>, new: Option<u64>) -> Option<u64> {
    if opt_float_eq(current, new) {
        None
    } else {
        new
    }
}

/// The changes that take a printer in state `current` to the state asked by `new`.
pub open spec fn diff(current: StateChange, new: StateChange) -> StateChange {
    StateChange {
        extruder_temp: float_diff(current.extruder_temp, new.extruder_temp),
        bed_temp: float_diff(current.bed_temp, new.bed_temp),
        fan_speed: float_diff(current.fan_speed, new.fan_speed),
        movement_speed: float_diff(current.movement_speed, new.movement_speed),
        acceleration: float_diff(current.acceleration, new.acceleration),
        retract: field_diff(current.retract, new.retract),
    }
}

fn or_u64(new: Option<u64>, old: Option<u64>) -> (r: Option<u64>)
    ensures
        r == prefer(old, new),
{
    match new {
        Some(v) => Some(v),
        None => old,
    }
}

fn diff_u64(current: &mut Option<u64>, new: Option<u64>) -> (r: Option<u64>)
    ensures
        r == float_diff(*old(current), new),
        *final(current) == prefer(*old(current), r),
{
    if same_opt_float(*current, new) {
        None
    } else {
        *current = or_u64(new, *current);
        new
    }
}

impl StateChange {
    /// Changes the current state to the new state and returns the differences
    /// between the 2 states. A field that already holds an equal number keeps
    /// its value.
    pub fn state_diff(&mut self, new_state: &StateChange) -> (d: StateChange)
        ensures
            d == diff(*old(self), *new_state),
            *final(self) == combined(*old(self), d),
    {
        let extruder_temp = diff_u64(&mut self.extruder_temp, new_state.extruder_temp);
        let bed_temp = diff_u64(&mut self.bed_temp, new_state.bed_temp);
        let fan_speed = diff_u64(&mut self.fan_speed, new_state.fan_speed);
        let movement_speed = diff_u64(&mut self.movement_speed, new_state.movement_speed);
        let acceleration = diff_u64(&mut self.acceleration, new_state.acceleration);
        let retract = if self.retract == new_state.retract {
            None
        } else {
            self.retract = match new_state.retract {
                Some(b) => Some(b),
                None => self.retract,
            };
            new_state.retract
        };
        StateChange { extruder_temp, bed_temp, fan_speed, movement_speed, acceleration, retract }
    }

    /// Combines the 2 state changes into one, the new state winning where both
    /// set a field.
    pub fn combine(&self, new_state: &StateChange) -> (c: StateChange)
        ensures
            c == combined(*self, *new_state),
    {
        StateChange {
            extruder_temp: or_u64(new_state.extruder_temp, self.extruder_temp),
            bed_temp: or_u64(new_state.bed_temp, self.bed_temp),
            fan_speed: or_u64(new_state.fan_speed, self.fan_speed),
            movement_speed: or_u64(new_state.movement_speed, self.movement_speed),
            acceleration: or_u64(new_state.acceleration, self.acceleration),
            retract: match new_state.retract {
                Some(b) => Some(b),
                None => self.retract,
            },
        }
    }
}

/// Sending the differences that `state_diff` returns brings the printer to the
/// same state as sending the whole new state, and sending them once more
/// changes nothing.
pub proof fn lemma_diff_reaches_same_state(current: StateChange, new: StateChange)
    ensures
        same_state(combined(current, diff(current, new)), combined(current, new)),
        sets_no_nan(new) ==> diff(combined(current, diff(current, new)), new)
            == no_change(),
{
}

/// Whether every number that `new` sets is a number (no NaN), so that it can
/// be found equal to itself.
pub open spec fn sets_no_nan(new: StateChange) -> bool {
    &&& (new.extruder_temp matches Some(v) ==> !is_nan_bits(v))
    &&& (new.bed_temp matches Some(v) ==> !is_nan_bits(v))
    &&& (new.fan_speed matches Some(v) ==> !is_nan_bits(v))
    &&& (new.movement_speed matches Some(v) ==> !is_nan_bits(v))
    &&& (new.acceleration matches Some(v) ==> !is_nan_bits(v))
}

/// Telling states apart by their numbers is an equivalence, and applying the
/// same change to two states that hold the same numbers gives states that do.
pub proof fn lemma_same_state_equivalence(a: StateChange, b: StateChange, c: StateChange, n: StateChange)
    ensures
        same_state(a, a),
        same_state(a, b) ==> same_state(b, a),
        same_state(a, b) && same_state(b, c) ==> same_state(a, c),
        same_state(a, b) ==> same_state(combined(a, n), combined(b, n)),
{
}

/// Combining state changes is associative.
pub proof fn lemma_combine_associative(a: StateChange, b: StateChange, c: StateChange)
    ensures
        combined(combined(a, b), c) == combined(a, combined(b, c)),
{
}

/// The empty state change is neutral on both sides, and combining a change
/// with itself gives it back.
pub proof fn lemma_combine_neutral(a: StateChange)
    ensures
        combined(no_change(), a) == a,
        combined(a, no_change()) == a,
        combined(a, a) == a,
{
}

/// Types of moves.
#[derive(Clone, Copy, Debug, PartialEq, Eq, Structural)]
pub enum MoveType {
    /// The top layer of infill
    TopSolidInfill,
    /// Solid infill
    SolidInfill,
    /// Standard partial infill
    Infill,
    /// The outer perimeter of the outside of the model, on its surface
    ExteriorSurfacePerimeter,
    /// The outer perimeter of a hole, on the surface of the model
    InteriorSurfacePerimeter,
    /// An outer perimeter that lies inside the model
    ExteriorInnerPerimeter,
    /// A perimeter of a hole that lies inside the model
    InteriorInnerPerimeter,
    /// A bridge over open air
    Bridging,
    /// Support towers and interface
    Support,
    /// Standard travel moves without extrusion
    Travel,
}

/// The commands sent to the printer, in the order they are performed.
#[derive(Clone, Copy, Debug, PartialEq, Eq, Structural)]
pub enum Command {
    /// Move to a location without extrusion
    MoveTo { end: Coord },
    /// Move to a location while extruding plastic
    MoveAndExtrude { start: Coord, end: Coord, thickness: u64, width: u64 },
    /// Change the layer height
    LayerChange { z: u64 },
    /// Set the printer state to the new values
    SetState { new_state: StateChange },
    /// A fixed delay, in milliseconds
    Delay { msec: u64 },
    /// An arc move of the extruder around `center`
    Arc { start: Coord, end: Coord, center: Coord, clockwise: bool, thickness: u64, width: u64 },
    /// Change the object that is being printed
    ChangeObject { object: usize },
    /// Used in optimization, should be optimized out
    NoAction,
}

/// A move of the plotter; it starts where the previous move ended.
#[derive(Clone, Copy, Debug, PartialEq, Eq, Structural)]
pub struct Move {
    /// The end point of the move
    pub end: Coord,
    /// The width of plastic to extrude for this move
    pub width: u64,
    /// The type of move
    pub move_type: MoveType,
}

/// A chain of moves that happen in order.
#[derive(Clone, Debug)]
pub struct MoveChain {
    /// Start point of the chain of moves
    pub start_point: Coord,
    /// All moves, in the order they are made
    pub moves: Vec<Move>,
}

/// The state a type of move is printed in: its speed and acceleration from
/// the layer settings, and retracted exactly for travel moves.
pub open spec fn move_state(t: MoveType, settings: LayerSettings) -> StateChange {
    StateChange {
        extruder_temp: None,
        bed_temp: None,
        fan_speed: None,
        movement_speed: Some(value_for(settings.speed, t)),
        acceleration: Some(value_for(settings.acceleration, t)),
        retract: Some(t == MoveType::Travel),
    }
}

/// The command for one move that starts at `from`: a plain move for travel,
/// an extrusion otherwise.
pub open spec fn move_command(from: Coord, m: Move, thickness: u64) -> Command {
    if m.move_type == MoveType::Travel {
        Command::MoveTo { end: m.end }
    } else {
        Command::MoveAndExtrude { start: from, end: m.end, thickness, width: m.width }
    }
}

/// Where move `i` of a chain starts: the chain's start point for the first
/// move, the end of the move before it otherwise.
pub open spec fn move_start(start: Coord, moves: Seq<Move>, i: int) -> Coord {
    if i == 0 {
        start
    } else {
        moves[i - 1].end
    }
}

/// The commands for a chain of moves: each move, preceded by a change of
/// state wherever its type differs from the type of the move before it (and
/// before the first move).
pub open spec fn chain_commands(
    start: Coord,
    moves: Seq<Move>,
    settings: LayerSettings,
    thickness: u64,
) -> Seq<Command>
    decreases moves.len(),
{
    if moves.len() == 0 {
        Seq::empty()
    } else {
        let n = moves.len() - 1;
        let m = moves[n];
        let before = chain_commands(start, moves.drop_last(), settings, thickness);
        let with_state = if n == 0 || moves[n - 1].move_type != m.move_type {
            before.push(Command::SetState { new_state: move_state(m.move_type, settings) })
        } else {
            before
        };
        with_state.push(move_command(move_start(start, moves, n), m, thickness))
    }
}

fn state_for(t: MoveType, settings: &LayerSettings) -> (s: StateChange)
    ensures
        s == move_state(t, *settings),
{
    let travel = match t {
        MoveType::Travel => true,
        _ => false,
    };
    StateChange {
        extruder_temp: None,
        bed_temp: None,
        fan_speed: None,
        movement_speed: Some(settings.speed.get_value_for_movement_type(&t)),
        acceleration: Some(settings.acceleration.get_value_for_movement_type(&t)),
        retract: Some(travel),
    }
}

impl MoveChain {
    /// Converts a move chain into a list of commands.
    pub fn create_commands(self, settings: &LayerSettings, thickness: u64) -> (cmds: Vec<Command>)
        ensures
            cmds@ == chain_commands(self.start_point, self.moves@, *settings, thickness),
    {
        let ghost moves = self.moves@;
        let mut cmds: Vec<Command> = Vec::new();
        let mut current_type: Option<MoveType> = None;
        let mut current_loc = self.start_point;
        let mut i: usize = 0;
        while i < self.moves.len()
            invariant
                moves == self.moves@,
                i <= moves.len(),
                cmds@ == chain_commands(self.start_point, moves.take(i as int), *settings, thickness),
                current_loc == move_start(self.start_point, moves, i as int),
                current_type == (if i == 0 {
                    None
                } else {
                    Some(moves[i - 1].move_type)
                }),
            decreases moves.len() - i,
        {
            let m = self.moves[i];
            let ghost prefix = moves.take(i + 1);
            assert(prefix.drop_last() == moves.take(i as int));
            assert(prefix[i as int] == m);
            assert(i > 0 ==> prefix[i - 1] == moves[i - 1]);
            let changed = match current_type {
                None => true,
                Some(t) => t != m.move_type,
            };
            if changed {
                cmds.push(Command::SetState { new_state: state_for(m.move_type, settings) });
                current_type = Some(m.move_type);
            }
            let is_travel = match m.move_type {
                MoveType::Travel => true,
                _ => false,
            };
            if is_travel {
                cmds.push(Command::MoveTo { end: m.end });
            } else {
                cmds.push(
                    Command::MoveAndExtrude {
                        start: current_loc,
                        end: m.end,
                        thickness,
                        width: m.width,
                    },
                );
            }
            current_loc = m.end;
            i = i + 1;
        }
        assert(moves.take(moves.len() as int) == moves);
        cmds
    }
}

} // verus!
