//! Reading Gerber lines into a `CncState`.
use vstd::prelude::*;
use crate::numbers::{
    digits_to_i32, extract_coordinates, float_literal, is_float_literal, number_as_i32,
    number_to_i32, parse_i32_digits, word_value,
};
use crate::state::{CncState, StateModel};
use crate::text::{
    chars_of, char_is_digit, char_is_letter, copy_range, digit_value, find_char, has_prefix,
    is_digit, is_letter, lemma_position_of_either, position, starts_with, trim, trim_bounds,
    trimmed, upper_chars, upper_text, byte_len, char_index_at_byte, char_index_of_byte,
    has_boundary, lemma_byte_len_increasing,
};
use crate::types::{
    Aperture, ApertureModel, ApertureShape, LineSegment, PadModel, SegmentModel, SolderPad, Unit,
};

verus! {

broadcast use vstd::std_specs::hash::group_hash_axioms;

// ---------------------------------------------------------------------------
// Aperture definitions: `%ADD<code><shape>,<width>[X<height>]*%`
// ---------------------------------------------------------------------------

/// The decimal digits of `s`, in order.
pub open spec fn keep_digits(s: Seq<char>) -> Seq<char>
    decreases s.len(),
{
    if s.len() == 0 {
        s
    } else if is_digit(s.last()) {
        keep_digits(s.drop_last()).push(s.last())
    } else {
        keep_digits(s.drop_last())
    }
}

/// The first ASCII letter of `s`.
pub open spec fn first_letter(s: Seq<char>) -> Option<char>
    decreases s.len(),
{
    if s.len() == 0 {
        None
    } else if is_letter(s[0]) {
        Some(s[0])
    } else {
        first_letter(s.drop_first())
    }
}

/// The shape that a template letter names: `C`, `R` or `O`, in either case.
pub open spec fn shape_of(letter: Option<char>) -> Option<ApertureShape> {
    match letter {
        Some(c) => if c == 'C' || c == 'c' {
            Some(ApertureShape::Circle)
        } else if c == 'R' || c == 'r' {
            Some(ApertureShape::Rectangle)
        } else if c == 'O' || c == 'o' {
            Some(ApertureShape::Obround)
        } else {
            None
        },
        None => None,
    }
}

/// The width and height texts of the parameters `W[XH[X...]]`: the trimmed
/// parts before the first `X` and between the first and second `X`; the height
/// is the width where there is no `X`.
pub open spec fn size_texts(params: Seq<char>) -> (Seq<char>, Seq<char>) {
    match position(params, 'X') {
        None => (trim(params), trim(params)),
        Some(i) => {
            let rest = params.skip(i + 1);
            let h = match position(rest, 'X') {
                None => rest,
                Some(j) => rest.take(j),
            };
            (trim(params.take(i)), trim(h))
        },
    }
}

/// The aperture that the text before the comma (`prefix`, such as `10C`) and the
/// upper-cased parameters define: its number is the digits of the prefix, its
/// shape the first letter of the prefix; both sizes must be float literals and
/// the number must fit in `i32`.
pub open spec fn aperture_of_fields(prefix: Seq<char>, params: Seq<char>, unit: Unit) -> Option<
    (i32, ApertureModel),
> {
    match shape_of(first_letter(prefix)) {
        None => None,
        Some(shape) => {
            let (w, h) = size_texts(params);
            match parse_i32_digits(keep_digits(prefix)) {
                Some(code) => if is_float_literal(w) && is_float_literal(h) {
                    Some((code, ApertureModel { shape, width: w, height: h, unit }))
                } else {
                    None
                },
                None => None,
            }
        },
    }
}

/// The aperture that a `%ADD` line defines, if any. The prefix runs from byte 4
/// (the character after `%ADD`) to the first comma; the parameters run from the
/// comma to the first `*` (or the end) and are upper-cased before they are read.
pub open spec fn aperture_definition(line: Seq<char>, unit: Unit) -> Option<(i32, ApertureModel)> {
    match position(line, ',') {
        None => None,
        Some(comma) => {
            let star = match position(line, '*') {
                Some(s) => s,
                None => line.len() as int,
            };
            if star > comma {
                aperture_of_fields(
                    line.subrange(char_index_of_byte(line, 4), comma),
                    upper_text(line.subrange(comma + 1, star)),
                    unit,
                )
            } else {
                None
            }
        },
    }
}

/// The state after a `%ADD` line: the aperture it defines replaces any earlier
/// one of that number.
pub open spec fn define_aperture(st: StateModel, line: Seq<char>) -> StateModel {
    match aperture_definition(line, st.unit) {
        Some((code, a)) => StateModel { apertures: st.apertures.insert(code, a), ..st },
        None => st,
    }
}

fn digits_of(s: &Vec<char>) -> (r: Vec<char>)
    ensures
        r@ == keep_digits(s@),
        crate::text::all_digits(r@),
{
    let mut r: Vec<char> = Vec::new();
    let mut i: usize = 0;
    while i < s.len()
        invariant
            i <= s.len(),
            r@ == keep_digits(s@.take(i as int)),
            crate::text::all_digits(r@),
        decreases s.len() - i,
    {
        assert(s@.take(i + 1).drop_last() =~= s@.take(i as int));
        if char_is_digit(s[i]) {
            r.push(s[i]);
        }
        i = i + 1;
    }
    assert(s@.take(s.len() as int) =~= s@);
    r
}

fn first_letter_of(s: &Vec<char>) -> (r: Option<char>)
    ensures
        r == first_letter(s@),
{
    assert(s@.skip(0) =~= s@);
    let mut i: usize = 0;
    while i < s.len()
        invariant
            i <= s.len(),
            first_letter(s@) == first_letter(s@.skip(i as int)),
        decreases s.len() - i,
    {
        assert(s@.skip(i as int)[0] == s@[i as int]);
        if char_is_letter(s[i]) {
            return Some(s[i]);
        }
        assert(s@.skip(i as int).drop_first() =~= s@.skip(i + 1));
        i = i + 1;
    }
    None
}

fn shape_for(letter: Option<char>) -> (r: Option<ApertureShape>)
    ensures
        r == shape_of(letter),
{
    match letter {
        Some(c) => if c == 'C' || c == 'c' {
            Some(ApertureShape::Circle)
        } else if c == 'R' || c == 'r' {
            Some(ApertureShape::Rectangle)
        } else if c == 'O' || c == 'o' {
            Some(ApertureShape::Obround)
        } else {
            None
        },
        None => None,
    }
}

fn sizes_of(params: &Vec<char>) -> (r: (Vec<char>, Vec<char>))
    ensures
        (r.0@, r.1@) == size_texts(params@),
{
    let n = params.len();
    assert(params@.subrange(0, n as int) =~= params@);
    match find_char(params, 0, n, 'X') {
        None => {
            let w = trimmed(params);
            let h = trimmed(params);
            (w, h)
        },
        Some(i) => {
            let ghost rest = params@.skip(i + 1);
            assert(params@.subrange(i + 1, n as int) =~= rest);
            let (a, b) = trim_bounds(params, 0, i);
            assert(params@.subrange(0, i as int) =~= params@.take(i as int));
            let w = copy_range(params, a, b);
            let end = match find_char(params, i + 1, n, 'X') {
                None => n,
                Some(j) => {
                    assert(rest.take(j - (i + 1)) =~= params@.subrange(i + 1, j as int));
                    j
                },
            };
            let (c, d) = trim_bounds(params, i + 1, end);
            let h = copy_range(params, c, d);
            (w, h)
        },
    }
}

/// The aperture defined by the text before the comma of a `%ADD` line and its
/// parameters, already upper-cased.
pub fn aperture_from_fields(prefix: &Vec<char>, params: &Vec<char>, unit: Unit) -> (r: Option<
    (i32, Aperture),
>)
    ensures
        match r {
            Some((code, a)) => aperture_of_fields(prefix@, params@, unit) == Some((code, a@)),
            None => aperture_of_fields(prefix@, params@, unit) is None,
        },
{
    let shape = match shape_for(first_letter_of(prefix)) {
        Some(shape) => shape,
        None => return None,
    };
    let (width, height) = sizes_of(params);
    let code_text = digits_of(prefix);
    match digits_to_i32(&code_text) {
        Some(code) => {
            if float_literal(&width) && float_literal(&height) {
                Some((code, Aperture { shape, width, height, unit }))
            } else {
                None
            }
        },
        None => None,
    }
}

/// The text `%ADD`.
pub open spec fn add_tag() -> Seq<char> {
    seq!['%', 'A', 'D', 'D']
}

proof fn lemma_add_line_has_boundary(line: Seq<char>)
    requires
        starts_with(line, add_tag()),
    ensures
        position(line, ',') matches Some(c) ==> has_boundary(line.take(c), 4),
{
    lemma_position_of_either(line, ',', ',');
    assert(line.take(4)[0] == line[0]);
    assert(line.take(4)[1] == line[1]);
    assert(line.take(4)[2] == line[2]);
    assert(line.take(4)[3] == line[3]);
    match position(line, ',') {
        Some(c) => {
            let p = line.take(c);
            assert(p.take(4) =~= add_tag());
            reveal_with_fuel(byte_len, 5);
            assert(add_tag().drop_last() =~= seq!['%', 'A', 'D']);
            assert(seq!['%', 'A', 'D'].drop_last() =~= seq!['%', 'A']);
            assert(seq!['%', 'A'].drop_last() =~= seq!['%']);
            assert(seq!['%'].drop_last() =~= Seq::<char>::empty());
            assert(byte_len(p.take(4)) == 4);
        },
        None => {},
    }
}

/// Reads an aperture definition line (`%ADD...`) and records the aperture that
/// it defines, replacing any earlier aperture of that number; a line that
/// defines none changes nothing. Where the line has a comma, byte 4 must be a
/// character boundary before it (as it is after `%ADD`).
pub fn parse_aperture_definition(line: &Vec<char>, state: &mut CncState)
    requires
        position(line@, ',') matches Some(c) ==> has_boundary(line@.take(c), 4),
    ensures
        final(state)@ == define_aperture(old(state)@, line@),
{
    let n = line.len();
    assert(line@.subrange(0, n as int) =~= line@);
    let comma = match find_char(line, 0, n, ',') {
        Some(c) => c,
        None => return ,
    };
    proof {
        let w = choose|k: int|
            0 <= k <= line@.take(comma as int).len() && byte_len(
                #[trigger] line@.take(comma as int).take(k),
            ) == 4;
        assert(line@.take(comma as int).take(w) =~= line@.take(w));
        assert(has_boundary(line@, 4));
    }
    let start = char_index_at_byte(line, 4);
    proof {
        let w = choose|k: int|
            0 <= k <= line@.take(comma as int).len() && byte_len(
                #[trigger] line@.take(comma as int).take(k),
            ) == 4;
        assert(line@.take(comma as int).take(w) =~= line@.take(w));
        if start > w {
            lemma_byte_len_increasing(line@, w, start as int);
        }
    }
    let star = match find_char(line, 0, n, '*') {
        Some(s) => s,
        None => n,
    };
    if star > comma {
        let prefix = copy_range(line, start, comma);
        let raw_params = copy_range(line, comma + 1, star);
        let params = upper_chars(&raw_params);
        match aperture_from_fields(&prefix, &params, state.unit) {
            Some((code, a)) => {
                let ghost old_apertures = state.apertures@;
                let ghost av = a@;
                state.apertures.insert(code, a);
                assert(state.apertures@.map_values(|a: Aperture| a@) =~= old_apertures.map_values(
                    |a: Aperture| a@,
                ).insert(code, av));
            },
            None => {},
        }
    }
}

// ---------------------------------------------------------------------------
// Lines
// ---------------------------------------------------------------------------

/// The state after a line that is not a command: the coordinate words it
/// holds move the current position (an axis without a word keeps its value); a
/// `D` word of 10 or more selects that aperture and draws nothing; a smaller
/// `D` word becomes the mode and the line is carried out, as is a line with no
/// `D` word but a coordinate. Carrying out in mode 1 adds a stroke from the old
/// position to the new one, in mode 3 a pad at the new position, both with the
/// selected aperture; any other mode only moves.
pub open spec fn motion(st: StateModel, line: Seq<char>) -> StateModel {
    let wx = word_value(line, 'X');
    let wy = word_value(line, 'Y');
    let wd = word_value(line, 'D');
    let x = match wx {
        Some(n) => st.coordinate(n),
        None => st.x,
    };
    let y = match wy {
        Some(n) => st.coordinate(n),
        None => st.y,
    };
    let selects = wd is Some && number_to_i32(wd->0) >= 10;
    let aperture = if selects {
        number_to_i32(wd->0)
    } else {
        st.current_aperture
    };
    let mode = if wd is Some && !selects {
        number_to_i32(wd->0)
    } else {
        st.current_d_code
    };
    let carry_out = if wd is Some {
        !selects
    } else {
        wx is Some || wy is Some
    };
    let moved = StateModel { x, y, current_aperture: aperture, current_d_code: mode, ..st };
    if carry_out && mode == 1 {
        StateModel {
            traces: st.traces.push(
                SegmentModel {
                    start_x: st.x,
                    start_y: st.y,
                    end_x: x,
                    end_y: y,
                    aperture: moved.active_aperture(),
                },
            ),
            ..moved
        }
    } else if carry_out && mode == 3 {
        StateModel {
            pins: st.pins.push(PadModel { x, y, aperture: moved.active_aperture() }),
            ..moved
        }
    } else {
        moved
    }
}

pub open spec fn g04_tag() -> Seq<char> {
    seq!['G', '0', '4']
}

pub open spec fn format_tag() -> Seq<char> {
    seq!['%', 'F', 'S', 'L', 'A', 'X']
}

pub open spec fn millimeters_tag() -> Seq<char> {
    seq!['%', 'M', 'O', 'M', 'M']
}

pub open spec fn inches_tag() -> Seq<char> {
    seq!['%', 'M', 'O', 'I', 'N']
}

/// What one line of a Gerber file does to the state. The line is trimmed; an
/// empty line or a comment (`G04`) does nothing; `%FSLAX` sets the decimal
/// places to the digit at position 7 (if it is one); `%MOMM` and `%MOIN` set
/// the unit; `%ADD` defines an aperture; any other `%` line does nothing; every
/// other line is a motion.
pub open spec fn step(st: StateModel, raw: Seq<char>) -> StateModel {
    let line = trim(raw);
    if line.len() == 0 || starts_with(line, g04_tag()) {
        st
    } else if starts_with(line, format_tag()) {
        if line.len() > 7 && is_digit(line[7]) {
            StateModel { format_decimals: digit_value(line[7]), ..st }
        } else {
            st
        }
    } else if starts_with(line, millimeters_tag()) {
        StateModel { unit: Unit::Millimeters, ..st }
    } else if starts_with(line, inches_tag()) {
        StateModel { unit: Unit::Inches, ..st }
    } else if starts_with(line, add_tag()) {
        define_aperture(st, line)
    } else if line[0] == '%' {
        st
    } else {
        motion(st, line)
    }
}

/// The state after the lines, one after the other.
pub open spec fn run(st: StateModel, lines: Seq<Seq<char>>) -> StateModel
    decreases lines.len(),
{
    if lines.len() == 0 {
        st
    } else {
        step(run(st, lines.drop_last()), lines.last())
    }
}

fn process_motion(line: &Vec<char>, state: &mut CncState)
    ensures
        final(state)@ == motion(old(state)@, line@),
{
    let ghost st = state@;
    let has_x = extract_coordinates(line, 'X');
    let has_y = extract_coordinates(line, 'Y');
    let d_val = extract_coordinates(line, 'D');
    let x_given = has_x.is_some();
    let y_given = has_y.is_some();
    let old_x = state.current_x.duplicate();
    let old_y = state.current_y.duplicate();
    match has_x {
        Some(raw_x) => {
            state.current_x = state.parse_coordinate(raw_x);
        },
        None => {},
    }
    match has_y {
        Some(raw_y) => {
            state.current_y = state.parse_coordinate(raw_y);
        },
        None => {},
    }
    let mut should_execute = false;
    match d_val {
        Some(dv) => {
            let d_code = number_as_i32(&dv);
            if d_code >= 10 {
                state.current_aperture = d_code;
            } else {
                state.current_d_code = d_code;
                should_execute = true;
            }
        },
        None => {
            if x_given || y_given {
                should_execute = true;
            }
        },
    }
    let ghost moved = state@;
    assert(moved == StateModel {
        x: moved.x,
        y: moved.y,
        current_aperture: moved.current_aperture,
        current_d_code: moved.current_d_code,
        ..st
    });
    if should_execute {
        if state.current_d_code == 1 {
            let aperture = state.current_aperture();
            let end_x = state.current_x.duplicate();
            let end_y = state.current_y.duplicate();
            let segment = LineSegment { start_x: old_x, start_y: old_y, end_x, end_y, aperture };
            let ghost sv = segment@;
            state.traces.push(segment);
            assert(state@.traces =~= moved.traces.push(sv));
        } else if state.current_d_code == 3 {
            let aperture = state.current_aperture();
            let x = state.current_x.duplicate();
            let y = state.current_y.duplicate();
            let pad = SolderPad { x, y, aperture };
            let ghost pv = pad@;
            state.pins.push(pad);
            assert(state@.pins =~= moved.pins.push(pv));
        }
    }
}

/// Carries out one line of a Gerber file.
pub fn process_line(state: &mut CncState, line: &str)
    ensures
        final(state)@ == step(old(state)@, line@),
{
    let chars = chars_of(line);
    let text = trimmed(&chars);
    let g04 = vec!['G', '0', '4'];
    let format = vec!['%', 'F', 'S', 'L', 'A', 'X'];
    let mm = vec!['%', 'M', 'O', 'M', 'M'];
    let inch = vec!['%', 'M', 'O', 'I', 'N'];
    let add = vec!['%', 'A', 'D', 'D'];
    assert(g04@ =~= g04_tag());
    assert(format@ =~= format_tag());
    assert(mm@ =~= millimeters_tag());
    assert(inch@ =~= inches_tag());
    assert(add@ =~= add_tag());
    if text.len() == 0 || has_prefix(&text, &g04) {
        return ;
    }
    if has_prefix(&text, &format) {
        if text.len() > 7 && char_is_digit(text[7]) {
            let d = (text[7] as u32 - '0' as u32) as u8;
            state.format_decimals = d;
        }
        return ;
    }
    if has_prefix(&text, &mm) {
        state.unit = Unit::Millimeters;
        return ;
    }
    if has_prefix(&text, &inch) {
        state.unit = Unit::Inches;
        return ;
    }
    if has_prefix(&text, &add) {
        proof {
            lemma_add_line_has_boundary(text@);
        }
        parse_aperture_definition(&text, state);
        return ;
    }
    if text[0] == '%' {
        return ;
    }
    process_motion(&text, state);
}

/// Reads the lines of a Gerber file, one after the other, into `state`.
pub fn parse_gerber(lines: &Vec<String>, state: &mut CncState)
    ensures
        final(state)@ == run(old(state)@, lines@.map_values(|l: String| l@)),
{
    let ghost texts = lines@.map_values(|l: String| l@);
    let ghost start = state@;
    let mut i: usize = 0;
    while i < lines.len()
        invariant
            i <= lines.len(),
            texts == lines@.map_values(|l: String| l@),
            state@ == run(start, texts.take(i as int)),
        decreases lines.len() - i,
    {
        assert(texts.take(i + 1).drop_last() =~= texts.take(i as int));
        process_line(state, lines[i].as_str());
        i = i + 1;
    }
    assert(texts.take(lines.len() as int) =~= texts);
}

} // verus!
