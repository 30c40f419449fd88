//! Properties of reading Gerber lines that hold for every state and every line.
use vstd::prelude::*;
use crate::numbers::{is_float_literal, number_to_i32, parse_number, run_len, word_value};
use crate::parser::{
    add_tag, aperture_definition, define_aperture, g04_tag, motion, run, step,
};
use crate::state::{default_aperture, StateModel};
use crate::text::{
    all_digits, digit_value, digit_values, is_digit, position_of_either, starts_with, trim,
};
use crate::types::ApertureModel;

verus! {

/// Reading `a` and then `b` is reading `a` followed by `b`.
pub proof fn lemma_run_concat(st: StateModel, a: Seq<Seq<char>>, b: Seq<Seq<char>>)
    ensures
        run(st, a + b) == run(run(st, a), b),
    decreases b.len(),
{
    if b.len() == 0 {
        assert(a + b =~= a);
    } else {
        lemma_run_concat(st, a, b.drop_last());
        assert((a + b).drop_last() =~= a + b.drop_last());
        assert((a + b).last() == b.last());
    }
}

/// A blank line or a comment (`G04`) changes nothing.
pub proof fn lemma_comment_changes_nothing(st: StateModel, line: Seq<char>)
    requires
        trim(line).len() == 0 || starts_with(trim(line), g04_tag()),
    ensures
        step(st, line) == st,
{
}

/// A line adds at most one stroke or one pad, and keeps everything drawn before.
pub proof fn lemma_step_appends(st: StateModel, line: Seq<char>)
    ensures
        ({
            let n = step(st, line);
            ||| n.traces == st.traces && n.pins == st.pins
            ||| n.traces.drop_last() == st.traces && n.traces.len() == st.traces.len() + 1
                && n.pins == st.pins
            ||| n.pins.drop_last() == st.pins && n.pins.len() == st.pins.len() + 1 && n.traces
                == st.traces
        }),
{
    let n = step(st, line);
    if n.traces.len() == st.traces.len() + 1 {
        assert(n.traces.drop_last() =~= st.traces);
    }
    if n.pins.len() == st.pins.len() + 1 {
        assert(n.pins.drop_last() =~= st.pins);
    }
}

/// Reading more lines never removes a stroke or a pad: what was drawn stays a
/// prefix of what is drawn.
pub proof fn lemma_run_keeps_drawing(st: StateModel, lines: Seq<Seq<char>>)
    ensures
        run(st, lines).traces.len() >= st.traces.len(),
        run(st, lines).traces.take(st.traces.len() as int) == st.traces,
        run(st, lines).pins.len() >= st.pins.len(),
        run(st, lines).pins.take(st.pins.len() as int) == st.pins,
    decreases lines.len(),
{
    if lines.len() == 0 {
        assert(st.traces.take(st.traces.len() as int) =~= st.traces);
        assert(st.pins.take(st.pins.len() as int) =~= st.pins);
    } else {
        let prev = run(st, lines.drop_last());
        lemma_run_keeps_drawing(st, lines.drop_last());
        lemma_step_appends(prev, lines.last());
        let n = step(prev, lines.last());
        if n.traces.len() == prev.traces.len() + 1 {
            assert(n.traces.take(st.traces.len() as int) =~= prev.traces.take(
                st.traces.len() as int,
            ));
        }
        if n.pins.len() == prev.pins.len() + 1 {
            assert(n.pins.take(st.pins.len() as int) =~= prev.pins.take(st.pins.len() as int));
        }
    }
}

/// A stroke runs from the position before the line to the position after it,
/// with the aperture selected after it; a pad stands at the position after the
/// line, with that aperture.
pub proof fn lemma_stroke_joins_positions(st: StateModel, line: Seq<char>)
    ensures
        ({
            let n = step(st, line);
            &&& n.traces.len() > st.traces.len() ==> {
                &&& n.traces.last().start_x == st.x
                &&& n.traces.last().start_y == st.y
                &&& n.traces.last().end_x == n.x
                &&& n.traces.last().end_y == n.y
                &&& n.traces.last().aperture == n.active_aperture()
            }
            &&& n.pins.len() > st.pins.len() ==> {
                &&& n.pins.last().x == n.x
                &&& n.pins.last().y == n.y
                &&& n.pins.last().aperture == n.active_aperture()
            }
        }),
{
}

/// A `D` word of 10 or more selects that aperture and draws nothing.
pub proof fn lemma_select_draws_nothing(st: StateModel, line: Seq<char>)
    requires
        trim(line).len() > 0,
        trim(line)[0] != '%',
        !starts_with(trim(line), g04_tag()),
        word_value(trim(line), 'D') is Some,
        number_to_i32(word_value(trim(line), 'D')->0) >= 10,
    ensures
        step(st, line).current_aperture == number_to_i32(word_value(trim(line), 'D')->0),
        step(st, line).current_d_code == st.current_d_code,
        step(st, line).traces == st.traces,
        step(st, line).pins == st.pins,
{
    let t = trim(line);
    assert(!starts_with(t, crate::parser::format_tag())) by {
        if starts_with(t, crate::parser::format_tag()) {
            assert(t.take(6)[0] == t[0]);
        }
    }
    assert(!starts_with(t, crate::parser::millimeters_tag())) by {
        if starts_with(t, crate::parser::millimeters_tag()) {
            assert(t.take(5)[0] == t[0]);
        }
    }
    assert(!starts_with(t, crate::parser::inches_tag())) by {
        if starts_with(t, crate::parser::inches_tag()) {
            assert(t.take(5)[0] == t[0]);
        }
    }
    assert(!starts_with(t, add_tag())) by {
        if starts_with(t, add_tag()) {
            assert(t.take(4)[0] == t[0]);
        }
    }
}

/// An aperture that a `%ADD` line defines is the one used when its number is
/// selected, and the other apertures stay as they were.
pub proof fn lemma_defined_aperture_is_used(
    st: StateModel,
    line: Seq<char>,
    code: i32,
    a: ApertureModel,
)
    requires
        starts_with(trim(line), add_tag()),
        aperture_definition(trim(line), st.unit) == Some((code, a)),
    ensures
        step(st, line).apertures == st.apertures.insert(code, a),
        (StateModel { current_aperture: code, ..step(st, line) }).active_aperture() == a,
{
    let t = trim(line);
    assert(!starts_with(t, g04_tag())) by {
        assert(t.take(4)[0] == t[0]);
        assert(t.take(3)[0] == t[0]);
    }
    assert(t.take(4)[1] == t[1]);
    assert(!starts_with(t, crate::parser::format_tag())) by {
        if starts_with(t, crate::parser::format_tag()) {
            assert(t.take(6)[1] == t[1]);
        }
    }
    assert(!starts_with(t, crate::parser::millimeters_tag())) by {
        if starts_with(t, crate::parser::millimeters_tag()) {
            assert(t.take(5)[1] == t[1]);
        }
    }
    assert(!starts_with(t, crate::parser::inches_tag())) by {
        if starts_with(t, crate::parser::inches_tag()) {
            assert(t.take(5)[1] == t[1]);
        }
    }
}

proof fn lemma_default_aperture_wf()
    ensures
        default_aperture().wf(),
{
    let s = seq!['1', '.', '5'];
    reveal_with_fuel(position_of_either, 4);
    assert(s.take(1) =~= seq!['1']);
    assert(s.skip(2) =~= seq!['5']);
    assert(is_float_literal(s));
}

proof fn lemma_number_wf(t: Seq<char>)
    ensures
        parse_number(t) matches Some(n) ==> n.wf(),
{
    if t.len() > 1 && crate::text::is_sign(t[0]) && all_digits(t.drop_first()) {
        let d = t.drop_first();
        assert forall|i: int| 0 <= i < d.len() implies #[trigger] digit_values(d)[i] <= 9 by {
            assert(is_digit(d[i]));
        }
    } else if t.len() > 0 && all_digits(t) {
        assert forall|i: int| 0 <= i < t.len() implies #[trigger] digit_values(t)[i] <= 9 by {
            assert(is_digit(t[i]));
        }
    }
}

proof fn lemma_word_wf(line: Seq<char>, letter: char)
    ensures
        word_value(line, letter) matches Some(n) ==> n.wf(),
{
    match crate::text::position(line, letter) {
        Some(i) => {
            let rest = line.skip(i + 1);
            lemma_number_wf(rest.take(run_len(rest) as int));
        },
        None => {},
    }
}

proof fn lemma_active_aperture_wf(st: StateModel)
    requires
        st.wf(),
    ensures
        st.active_aperture().wf(),
{
    lemma_default_aperture_wf();
}

/// Every line keeps the state well formed: numbers of digits, at most nine
/// decimal places, sizes that are float literals.
pub proof fn lemma_step_keeps_wf(st: StateModel, line: Seq<char>)
    requires
        st.wf(),
    ensures
        step(st, line).wf(),
{
    let t = trim(line);
    let n = step(st, line);
    if t.len() > 7 && is_digit(t[7]) {
        assert(digit_value(t[7]) <= 9);
    }
    match aperture_definition(t, st.unit) {
        Some((code, a)) => {
            let d = define_aperture(st, t);
            assert forall|k: i32| #[trigger] d.apertures.contains_key(k) implies d.apertures[k].wf() by {
                if k != code {
                    assert(st.apertures.contains_key(k));
                }
            }
        },
        None => {},
    }
    lemma_word_wf(t, 'X');
    lemma_word_wf(t, 'Y');
    let m = motion(st, t);
    let moved = StateModel {
        x: m.x,
        y: m.y,
        current_aperture: m.current_aperture,
        current_d_code: m.current_d_code,
        ..st
    };
    lemma_active_aperture_wf(moved);
    if m.traces.len() > st.traces.len() {
        assert forall|i: int| 0 <= i < m.traces.len() implies #[trigger] m.traces[i].wf() by {
            if i < st.traces.len() {
                assert(m.traces[i] == st.traces[i]);
            }
        }
    }
    if m.pins.len() > st.pins.len() {
        assert forall|i: int| 0 <= i < m.pins.len() implies #[trigger] m.pins[i].wf() by {
            if i < st.pins.len() {
                assert(m.pins[i] == st.pins[i]);
            }
        }
    }
}

/// Reading any lines keeps the state well formed.
pub proof fn lemma_run_keeps_wf(st: StateModel, lines: Seq<Seq<char>>)
    requires
        st.wf(),
    ensures
        run(st, lines).wf(),
    decreases lines.len(),
{
    if lines.len() > 0 {
        lemma_run_keeps_wf(st, lines.drop_last());
        lemma_step_keeps_wf(run(st, lines.drop_last()), lines.last());
    }
}

/// A line never removes an aperture definition: every number defined before
/// stays defined (a later `%ADD` of the same number may replace its aperture).
pub proof fn lemma_step_keeps_apertures(st: StateModel, line: Seq<char>, code: i32)
    requires
        st.apertures.contains_key(code),
    ensures
        step(st, line).apertures.contains_key(code),
{
}

/// Reading any lines never removes an aperture definition.
pub proof fn lemma_run_keeps_apertures(st: StateModel, lines: Seq<Seq<char>>, code: i32)
    requires
        st.apertures.contains_key(code),
    ensures
        run(st, lines).apertures.contains_key(code),
    decreases lines.len(),
{
    if lines.len() > 0 {
        lemma_run_keeps_apertures(st, lines.drop_last(), code);
        lemma_step_keeps_apertures(run(st, lines.drop_last()), lines.last(), code);
    }
}

} // verus!
