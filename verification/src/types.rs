use vstd::prelude::*;
use crate::numbers::is_float_literal;

verus! {

/// The shape of a standard Gerber aperture.
#[derive(Clone, Copy, Debug, PartialEq, Eq, Structural)]
pub enum ApertureShape {
    Circle,
    Rectangle,
    Obround,
}

/// The unit that a Gerber file declares with `%MOMM` or `%MOIN`.
#[derive(Clone, Copy, Debug, PartialEq, Eq, Structural)]
pub enum Unit {
    Millimeters,
    Inches,
}

/// A signed decimal integer exactly as a coordinate word wrote it:
/// a sign and a non-empty sequence of decimal digit values (0 to 9).
#[derive(Debug)]
pub struct Number {
    pub negative: bool,
    pub digits: Vec<u8>,
}

pub struct NumberModel {
    pub negative: bool,
    pub digits: Seq<u8>,
}

impl View for Number {
    type V = NumberModel;

    open spec fn view(&self) -> NumberModel {
        NumberModel { negative: self.negative, digits: self.digits@ }
    }
}

/// The value of a sequence of decimal digits, most significant first.
pub open spec fn digits_value(ds: Seq<u8>) -> nat
    decreases ds.len(),
{
    if ds.len() == 0 {
        0
    } else {
        digits_value(ds.drop_last()) * 10 + ds.last() as nat
    }
}

impl NumberModel {
    pub open spec fn wf(self) -> bool {
        &&& self.digits.len() > 0
        &&& forall|i: int| 0 <= i < self.digits.len() ==> #[trigger] self.digits[i] <= 9
    }

    pub open spec fn value(self) -> int {
        if self.negative {
            -digits_value(self.digits)
        } else {
            digits_value(self.digits) as int
        }
    }
}

/// A coordinate as a Gerber line gave it: the integer of its word, with the
/// number of decimal places (`%FSLAX..`) and the unit in effect when it was read.
/// Its length in millimetres is `value / 10^decimals`, times 25.4 for inches.
#[derive(Debug)]
pub struct Coordinate {
    pub value: Number,
    pub decimals: u8,
    pub unit: Unit,
}

pub struct CoordinateModel {
    pub value: NumberModel,
    pub decimals: u8,
    pub unit: Unit,
}

impl View for Coordinate {
    type V = CoordinateModel;

    open spec fn view(&self) -> CoordinateModel {
        CoordinateModel { value: self.value@, decimals: self.decimals, unit: self.unit }
    }
}

impl CoordinateModel {
    pub open spec fn wf(self) -> bool {
        self.value.wf() && self.decimals <= 9
    }
}

/// An aperture: its shape and its two sizes, each kept as the decimal text of
/// the definition (a literal that `str::parse::<f64>` accepts), in `unit`.
#[derive(Debug)]
pub struct Aperture {
    pub shape: ApertureShape,
    pub width: Vec<char>,
    pub height: Vec<char>,
    pub unit: Unit,
}

pub struct ApertureModel {
    pub shape: ApertureShape,
    pub width: Seq<char>,
    pub height: Seq<char>,
    pub unit: Unit,
}

impl View for Aperture {
    type V = ApertureModel;

    open spec fn view(&self) -> ApertureModel {
        ApertureModel {
            shape: self.shape,
            width: self.width@,
            height: self.height@,
            unit: self.unit,
        }
    }
}

impl ApertureModel {
    pub open spec fn wf(self) -> bool {
        is_float_literal(self.width) && is_float_literal(self.height)
    }
}

/// A flash (D03): a pad of the current aperture at a position.
#[derive(Debug)]
pub struct SolderPad {
    pub x: Coordinate,
    pub y: Coordinate,
    pub aperture: Aperture,
}

pub struct PadModel {
    pub x: CoordinateModel,
    pub y: CoordinateModel,
    pub aperture: ApertureModel,
}

impl View for SolderPad {
    type V = PadModel;

    open spec fn view(&self) -> PadModel {
        PadModel { x: self.x@, y: self.y@, aperture: self.aperture@ }
    }
}

/// A stroke (D01) from one position to another, drawn with an aperture; the
/// stroke is as thick as the larger of the aperture's two sizes.
#[derive(Debug)]
pub struct LineSegment {
    pub start_x: Coordinate,
    pub start_y: Coordinate,
    pub end_x: Coordinate,
    pub end_y: Coordinate,
    pub aperture: Aperture,
}

pub struct SegmentModel {
    pub start_x: CoordinateModel,
    pub start_y: CoordinateModel,
    pub end_x: CoordinateModel,
    pub end_y: CoordinateModel,
    pub aperture: ApertureModel,
}

impl View for LineSegment {
    type V = SegmentModel;

    open spec fn view(&self) -> SegmentModel {
        SegmentModel {
            start_x: self.start_x@,
            start_y: self.start_y@,
            end_x: self.end_x@,
            end_y: self.end_y@,
            aperture: self.aperture@,
        }
    }
}

/// A copy of a character vector.
pub fn copy_chars(v: &Vec<char>) -> (r: Vec<char>)
    ensures
        r@ == v@,
{
    let mut r: Vec<char> = Vec::new();
    let mut i: usize = 0;
    while i < v.len()
        invariant
            i <= v.len(),
            r@ == v@.take(i as int),
        decreases v.len() - i,
    {
        r.push(v[i]);
        i = i + 1;
        assert(r@ =~= v@.take(i as int));
    }
    assert(v@.take(v.len() as int) =~= v@);
    r
}

impl Number {
    /// A copy of the number.
    pub fn duplicate(&self) -> (r: Number)
        ensures
            r@ == self@,
    {
        let mut digits: Vec<u8> = Vec::new();
        let mut i: usize = 0;
        while i < self.digits.len()
            invariant
                i <= self.digits.len(),
                digits@ == self.digits@.take(i as int),
            decreases self.digits.len() - i,
        {
            digits.push(self.digits[i]);
            i = i + 1;
            assert(digits@ =~= self.digits@.take(i as int));
        }
        assert(self.digits@.take(self.digits.len() as int) =~= self.digits@);
        Number { negative: self.negative, digits }
    }
}

impl Coordinate {
    /// A copy of the coordinate.
    pub fn duplicate(&self) -> (r: Coordinate)
        ensures
            r@ == self@,
    {
        Coordinate { value: self.value.duplicate(), decimals: self.decimals, unit: self.unit }
    }
}

impl Aperture {
    /// A copy of the aperture.
    pub fn duplicate(&self) -> (r: Aperture)
        ensures
            r@ == self@,
    {
        Aperture {
            shape: self.shape,
            width: copy_chars(&self.width),
            height: copy_chars(&self.height),
            unit: self.unit,
        }
    }
}

} // verus!
