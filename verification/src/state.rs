//! The machine state that reading a Gerber file builds up.
use vstd::prelude::*;
use std::collections::HashMap;
use crate::types::{
    Aperture, ApertureModel, ApertureShape, Coordinate, CoordinateModel, LineSegment, Number,
    NumberModel, PadModel, SegmentModel, SolderPad, Unit,
};

verus! {

broadcast use vstd::std_specs::hash::group_hash_axioms;

/// What a Gerber file has set up and drawn so far.
///
/// `format_decimals` is the number of decimal places of coordinates
/// (`%FSLAX..`); each coordinate keeps its own copy of it and of `unit`.
#[derive(Debug)]
pub struct CncState {
    pub current_x: Coordinate,
    pub current_y: Coordinate,
    pub format_decimals: u8,
    pub unit: Unit,
    pub apertures: HashMap<i32, Aperture>,
    pub current_aperture: i32,
    pub current_d_code: i32,
    pub traces: Vec<LineSegment>,
    pub pins: Vec<SolderPad>,
}

pub struct StateModel {
    pub x: CoordinateModel,
    pub y: CoordinateModel,
    pub format_decimals: u8,
    pub unit: Unit,
    pub apertures: Map<i32, ApertureModel>,
    pub current_aperture: i32,
    pub current_d_code: i32,
    pub traces: Seq<SegmentModel>,
    pub pins: Seq<PadModel>,
}

impl View for CncState {
    type V = StateModel;

    open spec fn view(&self) -> StateModel {
        StateModel {
            x: self.current_x@,
            y: self.current_y@,
            format_decimals: self.format_decimals,
            unit: self.unit,
            apertures: self.apertures@.map_values(|a: Aperture| a@),
            current_aperture: self.current_aperture,
            current_d_code: self.current_d_code,
            traces: self.traces@.map_values(|t: LineSegment| t@),
            pins: self.pins@.map_values(|p: SolderPad| p@),
        }
    }
}

/// The origin, `0` read as millimetres with six decimal places.
pub open spec fn origin() -> CoordinateModel {
    CoordinateModel {
        value: NumberModel { negative: false, digits: seq![0u8] },
        decimals: 6,
        unit: Unit::Millimeters,
    }
}

/// The state before any line: at the origin, six decimal places, millimetres,
/// no apertures, aperture 0 selected, mode D02 (move), nothing drawn.
pub open spec fn initial_state() -> StateModel {
    StateModel {
        x: origin(),
        y: origin(),
        format_decimals: 6,
        unit: Unit::Millimeters,
        apertures: Map::empty(),
        current_aperture: 0,
        current_d_code: 2,
        traces: Seq::empty(),
        pins: Seq::empty(),
    }
}

/// The aperture used where the selected one is not defined: a 1.5 mm circle.
pub open spec fn default_aperture() -> ApertureModel {
    ApertureModel {
        shape: ApertureShape::Circle,
        width: seq!['1', '.', '5'],
        height: seq!['1', '.', '5'],
        unit: Unit::Millimeters,
    }
}

impl SegmentModel {
    pub open spec fn wf(self) -> bool {
        &&& self.start_x.wf()
        &&& self.start_y.wf()
        &&& self.end_x.wf()
        &&& self.end_y.wf()
        &&& self.aperture.wf()
    }
}

impl PadModel {
    pub open spec fn wf(self) -> bool {
        self.x.wf() && self.y.wf() && self.aperture.wf()
    }
}

impl StateModel {
    /// The selected aperture, or the default one where it is not defined.
    pub open spec fn active_aperture(self) -> ApertureModel {
        if self.apertures.contains_key(self.current_aperture) {
            self.apertures[self.current_aperture]
        } else {
            default_aperture()
        }
    }

    /// A coordinate word read now: its number with the current format and unit.
    pub open spec fn coordinate(self, n: NumberModel) -> CoordinateModel {
        CoordinateModel { value: n, decimals: self.format_decimals, unit: self.unit }
    }

    /// Every number and size in the state is well formed.
    pub open spec fn wf(self) -> bool {
        &&& self.x.wf()
        &&& self.y.wf()
        &&& self.format_decimals <= 9
        &&& forall|k: i32| #[trigger] self.apertures.contains_key(k) ==> self.apertures[k].wf()
        &&& forall|i: int| 0 <= i < self.traces.len() ==> #[trigger] self.traces[i].wf()
        &&& forall|i: int| 0 <= i < self.pins.len() ==> #[trigger] self.pins[i].wf()
    }
}

fn origin_coordinate() -> (c: Coordinate)
    ensures
        c@ == origin(),
{
    let mut digits: Vec<u8> = Vec::new();
    digits.push(0);
    assert(digits@ =~= seq![0u8]);
    Coordinate { value: Number { negative: false, digits }, decimals: 6, unit: Unit::Millimeters }
}

fn default_aperture_value() -> (a: Aperture)
    ensures
        a@ == default_aperture(),
{
    let width = vec!['1', '.', '5'];
    let height = vec!['1', '.', '5'];
    assert(width@ =~= seq!['1', '.', '5']);
    assert(height@ =~= seq!['1', '.', '5']);
    Aperture { shape: ApertureShape::Circle, width, height, unit: Unit::Millimeters }
}

impl CncState {
    /// The state before any line is read.
    pub fn new() -> (s: Self)
        ensures
            s@ == initial_state(),
            s@.wf(),
    {
        let s = CncState {
            current_x: origin_coordinate(),
            current_y: origin_coordinate(),
            format_decimals: 6,
            unit: Unit::Millimeters,
            apertures: HashMap::new(),
            current_aperture: 0,
            current_d_code: 2,
            traces: Vec::new(),
            pins: Vec::new(),
        };
        assert(s@.apertures =~= Map::empty());
        assert(s@.traces =~= Seq::empty());
        assert(s@.pins =~= Seq::empty());
        s
    }

    /// The coordinate that a number read now stands for: the number, with the
    /// current decimal places and unit.
    pub fn parse_coordinate(&self, raw_val: Number) -> (c: Coordinate)
        ensures
            c@ == self@.coordinate(raw_val@),
    {
        Coordinate { value: raw_val, decimals: self.format_decimals, unit: self.unit }
    }

    /// A copy of the selected aperture, or the 1.5 mm circle where it is not defined.
    pub fn current_aperture(&self) -> (a: Aperture)
        ensures
            a@ == self@.active_aperture(),
    {
        match self.apertures.get(&self.current_aperture) {
            Some(a) => a.duplicate(),
            None => default_aperture_value(),
        }
    }
}

impl Default for CncState {
    fn default() -> (s: Self)
        ensures
            s@ == initial_state(),
    {
        CncState::new()
    }
}

} // verus!
