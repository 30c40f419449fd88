use gtrace_core::parser::{parse_gerber, process_line};
use gtrace_core::state::CncState;
use gtrace_core::types::{ApertureShape, Unit};

fn lines(v: &[&str]) -> Vec<String> {
    v.iter().map(|l| l.to_string()).collect()
}

fn summary(s: &CncState) -> String {
    format!("{:?}", (
        &s.current_x, &s.current_y, s.format_decimals, s.unit, s.current_aperture,
        s.current_d_code, &s.traces, &s.pins, {
            let mut k: Vec<_> = s.apertures.iter().map(|(k, v)| format!("{}:{:?}", k, v)).collect();
            k.sort();
            k
        }
    ))
}

#[test]
fn law_reading_in_two_parts_equals_reading_at_once() {
    let a = lines(&["%FSLAX24Y24*%", "%ADD10C,0.2*%", "D10*", "X10Y10D02*"]);
    let b = lines(&["X20D01*", "%MOIN*%", "Y5D03*"]);
    let mut whole = CncState::new();
    let mut all = a.clone();
    all.extend(b.clone());
    parse_gerber(&all, &mut whole);
    let mut parts = CncState::new();
    parse_gerber(&a, &mut parts);
    parse_gerber(&b, &mut parts);
    assert_eq!(summary(&whole), summary(&parts));
}

#[test]
fn law_comments_change_nothing() {
    let mut s = CncState::new();
    parse_gerber(&lines(&["%ADD10C,0.2*%", "X1D01*"]), &mut s);
    let before = summary(&s);
    process_line(&mut s, "G04 X5Y5D01*");
    process_line(&mut s, " \t ");
    assert_eq!(before, summary(&s));
}

#[test]
fn law_one_line_adds_at_most_one_drawing_and_keeps_the_rest() {
    let mut s = CncState::new();
    parse_gerber(&lines(&["X1D01*", "X2D03*"]), &mut s);
    let (t, p) = (s.traces.len(), s.pins.len());
    let before = format!("{:?}{:?}", s.traces, s.pins);
    process_line(&mut s, "X3D01*");
    assert_eq!((s.traces.len(), s.pins.len()), (t + 1, p));
    assert!(format!("{:?}{:?}", s.traces, s.pins).len() > before.len());
    assert_eq!(format!("{:?}", &s.traces[..t]), format!("{:?}", {
        let mut q = CncState::new();
        parse_gerber(&lines(&["X1D01*", "X2D03*"]), &mut q);
        q.traces
    }));
}

#[test]
fn law_a_stroke_joins_the_old_and_new_positions() {
    let mut s = CncState::new();
    process_line(&mut s, "X7Y8D02*");
    let (x0, y0) = (format!("{:?}", s.current_x), format!("{:?}", s.current_y));
    process_line(&mut s, "X9D01*");
    let t = s.traces.last().unwrap();
    assert_eq!(format!("{:?}", t.start_x), x0);
    assert_eq!(format!("{:?}", t.start_y), y0);
    assert_eq!(format!("{:?}", t.end_x), format!("{:?}", s.current_x));
    assert_eq!(format!("{:?}", t.end_y), format!("{:?}", s.current_y));
}

#[test]
fn law_selecting_an_aperture_draws_nothing() {
    let mut s = CncState::new();
    process_line(&mut s, "X1D01*");
    process_line(&mut s, "X2D12*");
    assert_eq!(s.traces.len(), 1);
    assert_eq!(s.current_aperture, 12);
    assert_eq!(s.current_d_code, 1);
}

#[test]
fn law_a_defined_aperture_is_used_once_selected() {
    let mut s = CncState::new();
    process_line(&mut s, "%ADD30O,1X2*%");
    process_line(&mut s, "D30*");
    process_line(&mut s, "X1D03*");
    let a = &s.pins[0].aperture;
    assert_eq!(a.shape, ApertureShape::Obround);
    assert_eq!(a.width.iter().collect::<String>(), "1");
    assert_eq!(a.height.iter().collect::<String>(), "2");
    assert_eq!(a.unit, Unit::Millimeters);
}

#[test]
fn law_the_state_stays_well_formed() {
    let mut s = CncState::new();
    parse_gerber(&lines(&["%FSLAX59Y59*%", "X-0012Y+9D01*", "%ADD10C,1e3*%", "D10*", "D03*"]), &mut s);
    assert!(s.format_decimals <= 9);
    for t in &s.traces {
        for c in [&t.start_x, &t.start_y, &t.end_x, &t.end_y] {
            assert!(!c.value.digits.is_empty() && c.value.digits.iter().all(|d| *d <= 9));
            assert!(c.decimals <= 9);
        }
        assert!(t.aperture.width.iter().collect::<String>().parse::<f64>().is_ok());
    }
    for p in &s.pins {
        assert!(p.aperture.width.iter().collect::<String>().parse::<f64>().is_ok());
        assert!(p.aperture.height.iter().collect::<String>().parse::<f64>().is_ok());
    }
}

#[test]
fn law_reading_never_removes_an_aperture() {
    let mut s = CncState::new();
    parse_gerber(&lines(&["%ADD10C,0.2*%", "%ADD11R,1X1*%"]), &mut s);
    parse_gerber(&lines(&["%ADD10O,1X2*%", "%ADD12C,bad*%", "D10*", "X1D01*", "%MOIN*%"]), &mut s);
    assert!(s.apertures.contains_key(&10));
    assert!(s.apertures.contains_key(&11));
    assert_eq!(s.apertures[&10].shape, ApertureShape::Obround);
}
