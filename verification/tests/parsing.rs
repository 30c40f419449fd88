use gtrace_core::numbers::{extract_coordinates, float_literal, number_as_i32};
use gtrace_core::parser::{aperture_from_fields, parse_aperture_definition, parse_gerber, process_line};
use gtrace_core::state::CncState;
use gtrace_core::text::is_png_path;
use gtrace_core::types::{Aperture, ApertureShape, Coordinate, Number, Unit};

fn chars(s: &str) -> Vec<char> {
    s.chars().collect()
}

fn text(v: &[char]) -> String {
    v.iter().collect()
}

fn number(negative: bool, digits: &[u8]) -> Number {
    Number { negative, digits: digits.to_vec() }
}

fn same_number(n: &Number, negative: bool, digits: &[u8]) -> bool {
    n.negative == negative && n.digits == digits.to_vec()
}

fn same_coordinate(c: &Coordinate, negative: bool, digits: &[u8], decimals: u8, unit: Unit) -> bool {
    same_number(&c.value, negative, digits) && c.decimals == decimals && c.unit == unit
}

fn same_aperture(a: &Aperture, shape: ApertureShape, width: &str, height: &str, unit: Unit) -> bool {
    a.shape == shape && text(&a.width) == width && text(&a.height) == height && a.unit == unit
}

fn run_lines(lines: &[&str]) -> CncState {
    let mut state = CncState::new();
    let owned: Vec<String> = lines.iter().map(|l| l.to_string()).collect();
    parse_gerber(&owned, &mut state);
    state
}

#[test]
fn new_state_starts_at_origin_in_millimetres() {
    let s = CncState::new();
    assert!(same_coordinate(&s.current_x, false, &[0], 6, Unit::Millimeters));
    assert!(same_coordinate(&s.current_y, false, &[0], 6, Unit::Millimeters));
    assert_eq!(s.format_decimals, 6);
    assert_eq!(s.unit, Unit::Millimeters);
    assert!(s.apertures.is_empty());
    assert_eq!(s.current_aperture, 0);
    assert_eq!(s.current_d_code, 2);
    assert!(s.traces.is_empty());
    assert!(s.pins.is_empty());
}

#[test]
fn default_state_is_new_state() {
    let s = CncState::default();
    assert_eq!(s.format_decimals, 6);
    assert_eq!(s.current_d_code, 2);
    assert!(same_coordinate(&s.current_x, false, &[0], 6, Unit::Millimeters));
}

#[test]
fn extract_reads_signed_words() {
    let line = chars("X123Y-45D01*");
    assert!(same_number(&extract_coordinates(&line, 'X').unwrap(), false, &[1, 2, 3]));
    assert!(same_number(&extract_coordinates(&line, 'Y').unwrap(), true, &[4, 5]));
    assert!(same_number(&extract_coordinates(&line, 'D').unwrap(), false, &[0, 1]));
    assert!(same_number(&extract_coordinates(&chars("X+7*"), 'X').unwrap(), false, &[7]));
    assert!(same_number(&extract_coordinates(&chars("X-0*"), 'X').unwrap(), true, &[0]));
}

#[test]
fn extract_uses_first_letter_only() {
    let line = chars("X1X2*");
    assert!(same_number(&extract_coordinates(&line, 'X').unwrap(), false, &[1]));
    let line = chars("XAX2*");
    assert!(extract_coordinates(&line, 'X').is_none());
}

#[test]
fn extract_rejects_malformed_words() {
    assert!(extract_coordinates(&chars("X*"), 'X').is_none());
    assert!(extract_coordinates(&chars("X--1*"), 'X').is_none());
    assert!(extract_coordinates(&chars("X+*"), 'X').is_none());
    assert!(extract_coordinates(&chars("X12-3*"), 'X').is_none());
    assert!(extract_coordinates(&chars("G01*"), 'X').is_none());
    assert!(extract_coordinates(&chars(""), 'X').is_none());
}

#[test]
fn d_codes_saturate_like_a_float_cast() {
    assert_eq!(number_as_i32(&number(false, &[0, 7])), 7);
    assert_eq!(number_as_i32(&number(true, &[0])), 0);
    assert_eq!(number_as_i32(&number(true, &[1, 2])), -12);
    assert_eq!(number_as_i32(&number(false, &[2, 1, 4, 7, 4, 8, 3, 6, 4, 7])), i32::MAX);
    assert_eq!(number_as_i32(&number(false, &[2, 1, 4, 7, 4, 8, 3, 6, 4, 8])), i32::MAX);
    assert_eq!(number_as_i32(&number(true, &[2, 1, 4, 7, 4, 8, 3, 6, 4, 8])), i32::MIN);
    assert_eq!(number_as_i32(&number(true, &[9, 9, 9, 9, 9, 9, 9, 9, 9, 9, 9, 9, 9])), i32::MIN);
    assert_eq!(number_as_i32(&number(false, &[9, 9, 9, 9, 9, 9, 9, 9, 9, 9, 9, 9, 9])), i32::MAX);
}

#[test]
fn float_literals_follow_the_std_grammar() {
    for ok in ["0.254", "1.", ".5", "1e3", "1E-3", "+2", "-0.5e+7", "inf", "-Infinity", "NaN", "INF", "007"] {
        assert!(float_literal(&chars(ok)), "{}", ok);
        assert!(ok.parse::<f64>().is_ok(), "{}", ok);
    }
    for bad in ["", ".", "e5", "1e", "1.2.3", "0x10", " 1", "1 ", "+", "--1", "1e+", "infin", "na"] {
        assert!(!float_literal(&chars(bad)), "{}", bad);
        assert!(bad.parse::<f64>().is_err(), "{}", bad);
    }
}

#[test]
fn aperture_definitions_of_each_shape() {
    let mut s = CncState::new();
    parse_aperture_definition(&chars("%ADD10C,0.254*%"), &mut s);
    parse_aperture_definition(&chars("%ADD11R,1.2X0.8*%"), &mut s);
    parse_aperture_definition(&chars("%ADD12O,1.5X0.9*%"), &mut s);
    assert_eq!(s.apertures.len(), 3);
    assert!(same_aperture(&s.apertures[&10], ApertureShape::Circle, "0.254", "0.254", Unit::Millimeters));
    assert!(same_aperture(&s.apertures[&11], ApertureShape::Rectangle, "1.2", "0.8", Unit::Millimeters));
    assert!(same_aperture(&s.apertures[&12], ApertureShape::Obround, "1.5", "0.9", Unit::Millimeters));
}

#[test]
fn aperture_parameters_are_upper_cased_before_splitting() {
    let mut s = CncState::new();
    parse_aperture_definition(&chars("%ADD13r,0.5x0.3*%"), &mut s);
    assert!(same_aperture(&s.apertures[&13], ApertureShape::Rectangle, "0.5", "0.3", Unit::Millimeters));
    parse_aperture_definition(&chars("%ADD14c,inf*%"), &mut s);
    assert!(same_aperture(&s.apertures[&14], ApertureShape::Circle, "INF", "INF", Unit::Millimeters));
}

#[test]
fn aperture_sizes_are_trimmed_and_extra_parts_ignored() {
    let mut s = CncState::new();
    parse_aperture_definition(&chars("%ADD17C, 0.5 X 0.25 X 9*%"), &mut s);
    assert!(same_aperture(&s.apertures[&17], ApertureShape::Circle, "0.5", "0.25", Unit::Millimeters));
}

#[test]
fn aperture_definitions_that_define_nothing() {
    let mut s = CncState::new();
    parse_aperture_definition(&chars("%ADD14P,1*%"), &mut s);
    parse_aperture_definition(&chars("%ADD15C1*%"), &mut s);
    parse_aperture_definition(&chars("%ADD*15C,1"), &mut s);
    parse_aperture_definition(&chars("%ADD16C,abc*%"), &mut s);
    parse_aperture_definition(&chars("%ADD99999999999C,1*%"), &mut s);
    parse_aperture_definition(&chars("%ADDC,1*%"), &mut s);
    parse_aperture_definition(&chars("%ADD18R,1X*%"), &mut s);
    assert!(s.apertures.is_empty());
}

#[test]
fn aperture_from_fields_reads_prefix_and_sizes() {
    let (code, a) = aperture_from_fields(&chars("0021R"), &chars("2X3"), Unit::Inches).unwrap();
    assert_eq!(code, 21);
    assert!(same_aperture(&a, ApertureShape::Rectangle, "2", "3", Unit::Inches));
    assert!(aperture_from_fields(&chars("21"), &chars("2X3"), Unit::Inches).is_none());
    assert!(aperture_from_fields(&chars("R"), &chars("2X3"), Unit::Inches).is_none());
    assert!(aperture_from_fields(&chars("21R"), &chars("2x3"), Unit::Inches).is_none());
}

#[test]
fn a_later_definition_replaces_an_earlier_one() {
    let s = run_lines(&["%MOIN*%", "%ADD10C,0.01*%", "%MOMM*%", "%ADD10R,2X1*%"]);
    assert_eq!(s.apertures.len(), 1);
    assert!(same_aperture(&s.apertures[&10], ApertureShape::Rectangle, "2", "1", Unit::Millimeters));
}

#[test]
fn definitions_keep_the_unit_in_effect() {
    let s = run_lines(&["%MOIN*%", "%ADD10C,0.01*%"]);
    assert!(same_aperture(&s.apertures[&10], ApertureShape::Circle, "0.01", "0.01", Unit::Inches));
}

#[test]
fn format_and_unit_commands() {
    let mut s = CncState::new();
    process_line(&mut s, "%FSLAX24Y24*%");
    assert_eq!(s.format_decimals, 4);
    process_line(&mut s, "%FSLAX2*%");
    assert_eq!(s.format_decimals, 4);
    process_line(&mut s, "  %FSLAX39Y39*%  ");
    assert_eq!(s.format_decimals, 9);
    process_line(&mut s, "%MOIN*%");
    assert_eq!(s.unit, Unit::Inches);
    process_line(&mut s, "%MOMM*%");
    assert_eq!(s.unit, Unit::Millimeters);
}

#[test]
fn coordinates_carry_the_format_and_unit_of_their_reading() {
    let s = run_lines(&["%FSLAX24Y24*%", "%MOIN*%", "X15000Y-250D02*"]);
    assert!(same_coordinate(&s.current_x, false, &[1, 5, 0, 0, 0], 4, Unit::Inches));
    assert!(same_coordinate(&s.current_y, true, &[2, 5, 0], 4, Unit::Inches));
    let c = s.parse_coordinate(number(false, &[4, 2]));
    assert!(same_coordinate(&c, false, &[4, 2], 4, Unit::Inches));
}

#[test]
fn comments_blank_lines_and_other_commands_change_nothing() {
    let s = run_lines(&["G04 a comment X100D01*", "   ", "", "%LPD*%", "%IPPOS*%"]);
    assert!(same_coordinate(&s.current_x, false, &[0], 6, Unit::Millimeters));
    assert_eq!(s.current_d_code, 2);
    assert!(s.traces.is_empty());
    assert!(s.pins.is_empty());
}

#[test]
fn moves_strokes_and_flashes() {
    let s = run_lines(&[
        "%ADD10C,0.3*%",
        "X100Y200D02*",
        "X300D01*",
        "D10*",
        "X1Y1D03*",
    ]);
    assert_eq!(s.traces.len(), 1);
    let t = &s.traces[0];
    assert!(same_coordinate(&t.start_x, false, &[1, 0, 0], 6, Unit::Millimeters));
    assert!(same_coordinate(&t.start_y, false, &[2, 0, 0], 6, Unit::Millimeters));
    assert!(same_coordinate(&t.end_x, false, &[3, 0, 0], 6, Unit::Millimeters));
    assert!(same_coordinate(&t.end_y, false, &[2, 0, 0], 6, Unit::Millimeters));
    assert!(same_aperture(&t.aperture, ApertureShape::Circle, "1.5", "1.5", Unit::Millimeters));
    assert_eq!(s.pins.len(), 1);
    let p = &s.pins[0];
    assert!(same_coordinate(&p.x, false, &[1], 6, Unit::Millimeters));
    assert!(same_coordinate(&p.y, false, &[1], 6, Unit::Millimeters));
    assert!(same_aperture(&p.aperture, ApertureShape::Circle, "0.3", "0.3", Unit::Millimeters));
    assert_eq!(s.current_aperture, 10);
    assert_eq!(s.current_d_code, 3);
}

#[test]
fn the_mode_stays_in_effect_for_coordinate_only_lines() {
    let s = run_lines(&["X0Y0D01*", "X5*", "Y7*", "D01*"]);
    assert_eq!(s.traces.len(), 4);
    assert!(same_coordinate(&s.traces[1].end_x, false, &[5], 6, Unit::Millimeters));
    assert!(same_coordinate(&s.traces[2].start_x, false, &[5], 6, Unit::Millimeters));
    assert!(same_coordinate(&s.traces[2].end_y, false, &[7], 6, Unit::Millimeters));
    assert!(same_coordinate(&s.traces[3].start_y, false, &[7], 6, Unit::Millimeters));
    assert!(same_coordinate(&s.traces[3].end_y, false, &[7], 6, Unit::Millimeters));
}

#[test]
fn other_modes_only_move() {
    let s = run_lines(&["X9D02*", "D05*", "X4*", "G01*"]);
    assert!(s.traces.is_empty());
    assert!(s.pins.is_empty());
    assert_eq!(s.current_d_code, 5);
    assert!(same_coordinate(&s.current_x, false, &[4], 6, Unit::Millimeters));
}

#[test]
fn current_aperture_falls_back_to_a_circle() {
    let mut s = CncState::new();
    let a = s.current_aperture();
    assert!(same_aperture(&a, ApertureShape::Circle, "1.5", "1.5", Unit::Millimeters));
    process_line(&mut s, "%ADD22R,1X2*%");
    process_line(&mut s, "D22*");
    let a = s.current_aperture();
    assert!(same_aperture(&a, ApertureShape::Rectangle, "1", "2", Unit::Millimeters));
}

#[test]
fn a_whole_file() {
    let s = run_lines(&[
        "G04 EasyEDA Gerber*",
        "%FSLAX45Y45*%",
        "%MOMM*%",
        "%ADD10C,0.254*%",
        "%ADD11R,1.6X1.6*%",
        "D10*",
        "X1000Y1000D02*",
        "X2000Y1000D01*",
        "X2000Y3000D01*",
        "D11*",
        "X1500Y1500D03*",
        "M02*",
    ]);
    assert_eq!(s.format_decimals, 5);
    assert_eq!(s.traces.len(), 2);
    assert_eq!(s.pins.len(), 1);
    assert!(same_coordinate(&s.traces[1].start_x, false, &[2, 0, 0, 0], 5, Unit::Millimeters));
    assert!(same_coordinate(&s.traces[1].end_y, false, &[3, 0, 0, 0], 5, Unit::Millimeters));
    assert!(same_aperture(&s.traces[0].aperture, ApertureShape::Circle, "0.254", "0.254", Unit::Millimeters));
    assert!(same_aperture(&s.pins[0].aperture, ApertureShape::Rectangle, "1.6", "1.6", Unit::Millimeters));
}

#[test]
fn upper_casing_follows_unicode_not_only_ascii() {
    let mut s = CncState::new();
    parse_aperture_definition(&chars("%ADD10C,\u{131}nf*%"), &mut s);
    assert!(same_aperture(&s.apertures[&10], ApertureShape::Circle, "INF", "INF", Unit::Millimeters));
}

#[test]
fn definition_prefix_starts_at_byte_four() {
    let mut s = CncState::new();
    parse_aperture_definition(&chars("XXXX11R,1X2*"), &mut s);
    assert!(same_aperture(&s.apertures[&11], ApertureShape::Rectangle, "1", "2", Unit::Millimeters));
    parse_aperture_definition(&chars("\u{e9}%A10C,1*%"), &mut s);
    assert!(same_aperture(&s.apertures[&10], ApertureShape::Circle, "1", "1", Unit::Millimeters));
    parse_aperture_definition(&chars("no comma here"), &mut s);
    assert_eq!(s.apertures.len(), 2);
}

#[test]
fn png_paths_are_recognised_in_any_case() {
    assert!(is_png_path("board.png"));
    assert!(is_png_path("C:\\Art\\LOGO.PNG"));
    assert!(is_png_path(".pNg"));
    assert!(!is_png_path("png"));
    assert!(!is_png_path("board.png.dxf"));
    assert!(!is_png_path("board.jpg"));
    assert!(!is_png_path(""));
    assert!(is_png_path("\u{c9}t\u{c9}.PNG"));
}
