//! What reading a line does, stated from the shape of the line itself: the
//! numbers of coordinate words, aperture definitions, format and unit
//! commands, and the modal drawing of coordinate lines.
use vstd::prelude::*;
use crate::numbers::{parse_number, run_len, word_value};
use crate::text::{
    all_digits, digit_values, is_coordinate_char, is_digit, is_sign, lemma_position_of_either,
    position,
};
use crate::parser::{
    add_tag, format_tag, g04_tag, inches_tag, millimeters_tag, step,
};
use crate::state::StateModel;
use crate::text::{starts_with, trim};
use crate::types::{
    digits_value, ApertureModel, ApertureShape, CoordinateModel, NumberModel, PadModel,
    SegmentModel, Unit,
};
use crate::numbers::{is_decimal, is_exponent, is_float_literal, is_mantissa, same_letter, spells};
use crate::parser::{aperture_definition, first_letter, keep_digits};
use crate::text::{
    all_ascii, byte_len, char_index_of_byte, is_white_space, lemma_byte_len_increasing,
    position_of_either, upper_text, ascii_upper,
};

verus! {

// ---------------------------------------------------------------------------
// Searching
// ---------------------------------------------------------------------------

/// The first occurrence of `c` is at `k` when `s[k] == c` and no earlier character is `c`.
pub proof fn lemma_position_at(s: Seq<char>, c: char, k: int)
    requires
        0 <= k < s.len(),
        s[k] == c,
        forall|j: int| 0 <= j < k ==> s[j] != c,
    ensures
        position(s, c) == Some(k),
{
    lemma_position_of_either(s, c, c);
    match position(s, c) {
        Some(p) => {
            if p < k {
                assert(s[p] == c);
            }
        },
        None => {
            assert(s[k] != c);
        },
    }
}

/// There is no occurrence of `c` in a text without `c`.
pub proof fn lemma_position_absent(s: Seq<char>, c: char)
    requires
        forall|j: int| 0 <= j < s.len() ==> s[j] != c,
    ensures
        position(s, c) is None,
{
    lemma_position_of_either(s, c, c);
    match position(s, c) {
        Some(p) => {
            assert(s[p] != c);
        },
        None => {},
    }
}

// ---------------------------------------------------------------------------
// Coordinate words
// ---------------------------------------------------------------------------

/// A run of coordinate characters ends where the first other character stands.
pub proof fn lemma_run_len_of(t: Seq<char>, b: Seq<char>)
    requires
        forall|i: int| 0 <= i < t.len() ==> is_coordinate_char(#[trigger] t[i]),
        b.len() == 0 || !is_coordinate_char(b[0]),
    ensures
        run_len(t + b) == t.len(),
    decreases t.len(),
{
    if t.len() == 0 {
        assert(t + b =~= b);
    } else {
        assert((t + b).drop_first() =~= t.drop_first() + b);
        assert((t + b)[0] == t[0]);
        lemma_run_len_of(t.drop_first(), b);
    }
}

/// Digits with an optional sign, of any length, are a number: the sign says
/// whether it is negative, the digits are its digits.
pub proof fn lemma_signed_digits_parse(sign: Option<char>, ds: Seq<char>)
    requires
        ds.len() > 0,
        all_digits(ds),
        sign matches Some(c) ==> c == '+' || c == '-',
    ensures
        parse_number(
            match sign {
                Some(c) => seq![c] + ds,
                None => ds,
            },
        ) == Some(
            NumberModel {
                negative: sign == Some('-'),
                digits: digit_values(ds),
            },
        ),
{
    match sign {
        Some(c) => {
            let t = seq![c] + ds;
            assert(t.drop_first() =~= ds);
            assert(t[0] == c);
        },
        None => {
            assert(!is_sign(ds[0])) by {
                assert(is_digit(ds[0]));
            }
        },
    }
}

/// A run of coordinate characters that is not an optional sign followed by
/// digits is no number.
pub proof fn lemma_malformed_word(t: Seq<char>)
    requires
        parse_number(t) is Some,
    ensures
        t.len() > 0,
        all_digits(t) || (is_sign(t[0]) && t.len() > 1 && all_digits(t.drop_first())),
{
}

/// The word after the first `letter` of a line: where the line is `a`, the
/// letter, an optional sign, digits (any number of them) and then anything
/// that does not continue the word, and `a` holds no `letter`, the word is the
/// signed number of those digits.
pub proof fn lemma_word_value_of(
    a: Seq<char>,
    letter: char,
    sign: Option<char>,
    ds: Seq<char>,
    b: Seq<char>,
)
    requires
        forall|i: int| 0 <= i < a.len() ==> a[i] != letter,
        ds.len() > 0,
        all_digits(ds),
        sign matches Some(c) ==> c == '+' || c == '-',
        b.len() == 0 || !is_coordinate_char(b[0]),
    ensures
        word_value(
            a + seq![letter] + (match sign {
                Some(c) => seq![c] + ds,
                None => ds,
            }) + b,
            letter,
        ) == Some(NumberModel { negative: sign == Some('-'), digits: digit_values(ds) }),
{
    let t = match sign {
        Some(c) => seq![c] + ds,
        None => ds,
    };
    let line = a + seq![letter] + t + b;
    assert forall|i: int| 0 <= i < t.len() implies is_coordinate_char(#[trigger] t[i]) by {
        match sign {
            Some(c) => {
                if i > 0 {
                    assert(t[i] == ds[i - 1]);
                }
            },
            None => {},
        }
    }
    assert(line[a.len() as int] == letter);
    lemma_position_at(line, letter, a.len() as int);
    let rest = line.skip(a.len() as int + 1);
    assert(rest =~= t + b);
    lemma_run_len_of(t, b);
    assert(rest.take(t.len() as int) =~= t);
    lemma_signed_digits_parse(sign, ds);
}

// ---------------------------------------------------------------------------
// Lines
// ---------------------------------------------------------------------------

/// A line that is neither blank, nor a comment, nor a `%` command.
pub open spec fn is_motion_line(line: Seq<char>) -> bool {
    let t = trim(line);
    t.len() > 0 && t[0] != '%' && !starts_with(t, g04_tag())
}

proof fn lemma_not_command(t: Seq<char>)
    requires
        t.len() > 0,
        t[0] != '%',
    ensures
        !starts_with(t, format_tag()),
        !starts_with(t, millimeters_tag()),
        !starts_with(t, inches_tag()),
        !starts_with(t, add_tag()),
{
    if starts_with(t, format_tag()) {
        assert(t.take(6)[0] == t[0]);
    }
    if starts_with(t, millimeters_tag()) {
        assert(t.take(5)[0] == t[0]);
    }
    if starts_with(t, inches_tag()) {
        assert(t.take(5)[0] == t[0]);
    }
    if starts_with(t, add_tag()) {
        assert(t.take(4)[0] == t[0]);
    }
}

/// A coordinate line moves each axis that has a word to that word's number,
/// read with the decimal places and the unit in effect; an axis without a word
/// stays where it was.
pub proof fn lemma_words_set_position(st: StateModel, line: Seq<char>)
    requires
        is_motion_line(line),
    ensures
        step(st, line).x == (match word_value(trim(line), 'X') {
            Some(n) => CoordinateModel { value: n, decimals: st.format_decimals, unit: st.unit },
            None => st.x,
        }),
        step(st, line).y == (match word_value(trim(line), 'Y') {
            Some(n) => CoordinateModel { value: n, decimals: st.format_decimals, unit: st.unit },
            None => st.y,
        }),
        step(st, line).format_decimals == st.format_decimals,
        step(st, line).unit == st.unit,
        step(st, line).apertures == st.apertures,
{
    lemma_not_command(trim(line));
}

/// A coordinate line without a `D` word repeats the mode in effect: in mode 1
/// it adds one stroke from the old position to the new one, in mode 3 one pad
/// at the new position, both with the selected aperture; in any other mode it
/// draws nothing. The mode and the selected aperture stay as they were.
pub proof fn lemma_coordinates_repeat_mode(st: StateModel, line: Seq<char>)
    requires
        is_motion_line(line),
        word_value(trim(line), 'D') is None,
        word_value(trim(line), 'X') is Some || word_value(trim(line), 'Y') is Some,
    ensures
        ({
            let n = step(st, line);
            &&& n.current_d_code == st.current_d_code
            &&& n.current_aperture == st.current_aperture
            &&& st.current_d_code == 1 ==> n.pins == st.pins && n.traces == st.traces.push(
                SegmentModel {
                    start_x: st.x,
                    start_y: st.y,
                    end_x: n.x,
                    end_y: n.y,
                    aperture: st.active_aperture(),
                },
            )
            &&& st.current_d_code == 3 ==> n.traces == st.traces && n.pins == st.pins.push(
                PadModel { x: n.x, y: n.y, aperture: st.active_aperture() },
            )
            &&& st.current_d_code != 1 && st.current_d_code != 3 ==> n.traces == st.traces
                && n.pins == st.pins
        }),
{
    lemma_not_command(trim(line));
}

/// A `D` word below 10 becomes the mode and the line is carried out in it: mode
/// 1 adds a stroke, mode 3 a pad, any other mode only moves.
pub proof fn lemma_d_word_sets_mode(st: StateModel, line: Seq<char>, d: NumberModel)
    requires
        is_motion_line(line),
        word_value(trim(line), 'D') == Some(d),
        d.value() < 10,
    ensures
        ({
            let n = step(st, line);
            let mode: i32 = if d.value() < i32::MIN { i32::MIN } else { d.value() as i32 };
            &&& n.current_d_code == mode
            &&& n.current_aperture == st.current_aperture
            &&& mode == 1 ==> n.pins == st.pins && n.traces == st.traces.push(
                SegmentModel {
                    start_x: st.x,
                    start_y: st.y,
                    end_x: n.x,
                    end_y: n.y,
                    aperture: st.active_aperture(),
                },
            )
            &&& mode == 3 ==> n.traces == st.traces && n.pins == st.pins.push(
                PadModel { x: n.x, y: n.y, aperture: st.active_aperture() },
            )
            &&& mode != 1 && mode != 3 ==> n.traces == st.traces && n.pins == st.pins
        }),
{
    lemma_not_command(trim(line));
}

/// A line with no `X`, `Y` or `D` word and no command changes nothing.
pub proof fn lemma_wordless_line_changes_nothing(st: StateModel, line: Seq<char>)
    requires
        is_motion_line(line),
        word_value(trim(line), 'X') is None,
        word_value(trim(line), 'Y') is None,
        word_value(trim(line), 'D') is None,
    ensures
        step(st, line) == st,
{
    lemma_not_command(trim(line));
}

/// A format line (`%FSLAX`) sets the decimal places to the digit at position 7
/// where there is one, and changes nothing else: not the unit, the position,
/// the apertures, the mode or the drawing.
pub proof fn lemma_format_line(st: StateModel, line: Seq<char>)
    requires
        starts_with(trim(line), format_tag()),
    ensures
        step(st, line) == (StateModel {
            format_decimals: if trim(line).len() > 7 && '0' <= trim(line)[7] && trim(line)[7]
                <= '9' {
                ((trim(line)[7] as u32) - 48) as u8
            } else {
                st.format_decimals
            },
            ..st
        }),
{
    let t = trim(line);
    assert(t.take(6)[0] == t[0]);
    assert(t.take(6)[1] == t[1]);
    assert(t.take(3)[0] == t[0]);
}

/// `%MOIN` sets the unit to inches and `%MOMM` to millimetres, and nothing else
/// changes.
pub proof fn lemma_unit_line(st: StateModel, line: Seq<char>)
    requires
        starts_with(trim(line), inches_tag()) || starts_with(trim(line), millimeters_tag()),
    ensures
        step(st, line) == (StateModel {
            unit: if starts_with(trim(line), inches_tag()) {
                Unit::Inches
            } else {
                Unit::Millimeters
            },
            ..st
        }),
{
    let t = trim(line);
    assert(t.take(5)[0] == t[0]);
    assert(t.take(5)[1] == t[1]);
    assert(t.take(5)[2] == t[2]);
    assert(t.take(5)[3] == t[3]);
    assert(t.take(3)[0] == t[0]);
    if starts_with(t, format_tag()) {
        assert(t.take(6)[2] == t[2]);
    }
    if starts_with(t, inches_tag()) && starts_with(t, millimeters_tag()) {
        assert(t.take(5)[3] == t[3]);
    }
}

// ---------------------------------------------------------------------------
// Aperture definitions
// ---------------------------------------------------------------------------

/// The characters that a float literal can hold: digits, `.`, signs, the
/// exponent marker and the letters of `inf`, `infinity` and `nan` in either case.
pub open spec fn is_float_char(c: char) -> bool {
    ||| is_digit(c)
    ||| c == '.'
    ||| is_sign(c)
    ||| c == 'e'
    ||| c == 'E'
    ||| same_letter(c, 'i')
    ||| same_letter(c, 'n')
    ||| same_letter(c, 'f')
    ||| same_letter(c, 't')
    ||| same_letter(c, 'y')
    ||| same_letter(c, 'a')
}

proof fn lemma_mantissa_chars(m: Seq<char>)
    requires
        is_mantissa(m),
    ensures
        forall|i: int| 0 <= i < m.len() ==> is_digit(#[trigger] m[i]) || m[i] == '.',
{
    lemma_position_of_either(m, '.', '.');
    match position(m, '.') {
        None => {},
        Some(p) => {
            assert forall|i: int| 0 <= i < m.len() implies is_digit(#[trigger] m[i]) || m[i]
                == '.' by {
                if i < p {
                    assert(m.take(p)[i] == m[i]);
                } else if i > p {
                    assert(m.skip(p + 1)[i - p - 1] == m[i]);
                }
            }
        },
    }
}

proof fn lemma_exponent_chars(t: Seq<char>)
    requires
        is_exponent(t),
    ensures
        forall|i: int| 0 <= i < t.len() ==> is_digit(#[trigger] t[i]) || is_sign(t[i]),
{
    if t.len() > 0 && is_sign(t[0]) {
        assert forall|i: int| 0 <= i < t.len() implies is_digit(#[trigger] t[i]) || is_sign(
            t[i],
        ) by {
            if i > 0 {
                assert(t.drop_first()[i - 1] == t[i]);
            }
        }
    }
}

proof fn lemma_spelled_chars(s: Seq<char>)
    requires
        spells(s, seq!['i', 'n', 'f']) || spells(s, seq!['i', 'n', 'f', 'i', 'n', 'i', 't', 'y'])
            || spells(s, seq!['n', 'a', 'n']),
    ensures
        forall|i: int| 0 <= i < s.len() ==> is_float_char(#[trigger] s[i]),
{
    let w1 = seq!['i', 'n', 'f'];
    let w2 = seq!['i', 'n', 'f', 'i', 'n', 'i', 't', 'y'];
    let w3 = seq!['n', 'a', 'n'];
    assert forall|i: int| 0 <= i < s.len() implies is_float_char(#[trigger] s[i]) by {
        if spells(s, w1) {
            assert(same_letter(s[i], w1[i]));
            assert(i == 0 || i == 1 || i == 2);
        } else if spells(s, w2) {
            assert(same_letter(s[i], w2[i]));
            assert(i == 0 || i == 1 || i == 2 || i == 3 || i == 4 || i == 5 || i == 6 || i == 7);
        } else {
            assert(same_letter(s[i], w3[i]));
            assert(i == 0 || i == 1 || i == 2);
        }
    }
}

/// Every character of a float literal is a float character.
pub proof fn lemma_float_literal_chars(s: Seq<char>)
    requires
        is_float_literal(s),
    ensures
        s.len() > 0,
        forall|i: int| 0 <= i < s.len() ==> is_float_char(#[trigger] s[i]),
{
    let signed = s.len() > 0 && is_sign(s[0]);
    let body = if signed {
        s.drop_first()
    } else {
        s
    };
    if spells(body, seq!['i', 'n', 'f']) || spells(body, seq!['i', 'n', 'f', 'i', 'n', 'i', 't', 'y'])
        || spells(body, seq!['n', 'a', 'n']) {
        lemma_spelled_chars(body);
    } else {
        lemma_position_of_either(body, 'e', 'E');
        match position_of_either(body, 'e', 'E') {
            None => {
                lemma_mantissa_chars(body);
            },
            Some(e) => {
                lemma_mantissa_chars(body.take(e));
                lemma_exponent_chars(body.skip(e + 1));
                assert forall|i: int| 0 <= i < body.len() implies is_float_char(
                    #[trigger] body[i],
                ) by {
                    if i < e {
                        assert(body.take(e)[i] == body[i]);
                    } else if i > e {
                        assert(body.skip(e + 1)[i - e - 1] == body[i]);
                    }
                }
                assert(body.len() > 0);
            },
        }
        if body.len() == 0 {
            assert(position_of_either(body, 'e', 'E') is None);
            assert(!is_mantissa(body)) by {
                lemma_position_of_either(body, '.', '.');
            }
        }
    }
    assert forall|i: int| 0 <= i < s.len() implies is_float_char(#[trigger] s[i]) by {
        if signed && i > 0 {
            assert(body[i - 1] == s[i]);
        } else if !signed {
            assert(body[i] == s[i]);
        }
    }
}

proof fn lemma_keep_digits_of_digits(d: Seq<char>)
    requires
        all_digits(d),
    ensures
        keep_digits(d) == d,
    decreases d.len(),
{
    if d.len() > 0 {
        assert(all_digits(d.drop_last())) by {
            assert forall|i: int| 0 <= i < d.drop_last().len() implies is_digit(
                #[trigger] d.drop_last()[i],
            ) by {
                assert(d.drop_last()[i] == d[i]);
            }
        }
        lemma_keep_digits_of_digits(d.drop_last());
        assert(is_digit(d.last()));
        assert(d.drop_last().push(d.last()) =~= d);
    }
}

proof fn lemma_first_letter_after_digits(d: Seq<char>, letter: char)
    requires
        all_digits(d),
        crate::text::is_letter(letter),
    ensures
        first_letter(d + seq![letter]) == Some(letter),
    decreases d.len(),
{
    let s = d + seq![letter];
    if d.len() == 0 {
        assert(s[0] == letter);
    } else {
        assert(s[0] == d[0]);
        assert(is_digit(d[0]));
        assert(s.drop_first() =~= d.drop_first() + seq![letter]);
        assert(all_digits(d.drop_first())) by {
            assert forall|i: int| 0 <= i < d.drop_first().len() implies is_digit(
                #[trigger] d.drop_first()[i],
            ) by {
                assert(d.drop_first()[i] == d[i + 1]);
            }
        }
        lemma_first_letter_after_digits(d.drop_first(), letter);
    }
}

proof fn lemma_trim_of_unspaced(s: Seq<char>)
    requires
        s.len() > 0,
        !is_white_space(s[0]),
        !is_white_space(s.last()),
    ensures
        trim(s) == s,
{
}

proof fn lemma_prefix_starts_at_byte_four(line: Seq<char>)
    requires
        line.len() >= 4,
        line.take(4) == add_tag(),
    ensures
        char_index_of_byte(line, 4) == 4,
{
    reveal_with_fuel(byte_len, 5);
    assert(add_tag().drop_last() =~= seq!['%', 'A', 'D']);
    assert(seq!['%', 'A', 'D'].drop_last() =~= seq!['%', 'A']);
    assert(seq!['%', 'A'].drop_last() =~= seq!['%']);
    assert(seq!['%'].drop_last() =~= Seq::<char>::empty());
    assert(byte_len(line.take(4)) == 4);
    let k = char_index_of_byte(line, 4);
    assert(0 <= k <= line.len() && byte_len(line.take(k)) == 4);
    if k < 4 {
        lemma_byte_len_increasing(line, k, 4);
    } else if k > 4 {
        lemma_byte_len_increasing(line, 4, k);
    }
}

/// Where the parts of a definition line `%ADD<d><letter>,<w>X<h>*%` stand.
proof fn lemma_definition_line_parts(d: Seq<char>, letter: char, w: Seq<char>, h: Seq<char>)
    requires
        all_digits(d),
        forall|i: int| 0 <= i < w.len() ==> is_float_char(#[trigger] w[i]),
        forall|i: int| 0 <= i < h.len() ==> is_float_char(#[trigger] h[i]),
        letter != ',' && letter != '*',
    ensures
        ({
            let line = add_tag() + d + seq![letter, ','] + w + seq!['X'] + h + seq!['*', '%'];
            let comma: int = 4 + d.len() as int + 1;
            let star: int = comma + 1 + w.len() + 1 + h.len();
            &&& position(line, ',') == Some(comma)
            &&& position(line, '*') == Some(star)
            &&& char_index_of_byte(line, 4) == 4
            &&& line.subrange(4, comma) == d + seq![letter]
            &&& line.subrange(comma + 1, star) == w + seq!['X'] + h
        }),
{
    let line = add_tag() + d + seq![letter, ','] + w + seq!['X'] + h + seq!['*', '%'];
    let nd = d.len() as int;
    let nw = w.len() as int;
    let nh = h.len() as int;
    let comma = 4 + nd + 1;
    let star = comma + 1 + nw + 1 + nh;
    assert(line.len() == star + 2);
    assert(line[comma] == ',');
    assert(line[star] == '*');
    assert forall|j: int| 0 <= j < comma implies line[j] != ',' by {
        if j < 4 {
            assert(line[j] == add_tag()[j]);
        } else if j < 4 + nd {
            assert(line[j] == d[j - 4]);
            assert(is_digit(d[j - 4]));
        } else {
            assert(line[j] == letter);
        }
    }
    lemma_position_at(line, ',', comma);
    assert forall|j: int| 0 <= j < star implies line[j] != '*' by {
        if j < 4 {
            assert(line[j] == add_tag()[j]);
        } else if j < 4 + nd {
            assert(line[j] == d[j - 4]);
            assert(is_digit(d[j - 4]));
        } else if j == 4 + nd {
            assert(line[j] == letter);
        } else if j == comma {
        } else if j < comma + 1 + nw {
            assert(line[j] == w[j - comma - 1]);
            assert(is_float_char(w[j - comma - 1]));
        } else if j == comma + 1 + nw {
            assert(line[j] == 'X');
        } else {
            assert(line[j] == h[j - comma - 2 - nw]);
            assert(is_float_char(h[j - comma - 2 - nw]));
        }
    }
    lemma_position_at(line, '*', star);
    assert(line.take(4) =~= add_tag());
    lemma_prefix_starts_at_byte_four(line);
    assert(line.subrange(4, comma) =~= d + seq![letter]);
    assert(line.subrange(comma + 1, star) =~= w + seq!['X'] + h);
}

/// Upper case leaves the parameters `<w>X<h>` as they are.
proof fn lemma_params_upper(w: Seq<char>, h: Seq<char>)
    requires
        forall|i: int| 0 <= i < w.len() ==> is_float_char(#[trigger] w[i]),
        forall|i: int| 0 <= i < h.len() ==> is_float_char(#[trigger] h[i]),
        forall|i: int| 0 <= i < w.len() ==> !('a' <= #[trigger] w[i] && w[i] <= 'z'),
        forall|i: int| 0 <= i < h.len() ==> !('a' <= #[trigger] h[i] && h[i] <= 'z'),
    ensures
        upper_text(w + seq!['X'] + h) == w + seq!['X'] + h,
{
    let params = w + seq!['X'] + h;
    let nw = w.len() as int;
    assert forall|i: int| 0 <= i < params.len() implies (#[trigger] params[i] as u32) < 128
        && !('a' <= params[i] && params[i] <= 'z') by {
        if i < nw {
            assert(params[i] == w[i]);
            assert(is_float_char(w[i]));
        } else if i > nw {
            assert(params[i] == h[i - nw - 1]);
            assert(is_float_char(h[i - nw - 1]));
        }
    }
    assert(all_ascii(params));
    assert(ascii_upper(params) =~= params);
}

/// The aperture that the fields `<d><letter>` and `<w>X<h>` define.
proof fn lemma_fields_define(d: Seq<char>, letter: char, w: Seq<char>, h: Seq<char>, unit: Unit)
    requires
        d.len() > 0,
        all_digits(d),
        digits_value(digit_values(d)) <= i32::MAX,
        letter == 'C' || letter == 'c' || letter == 'R' || letter == 'r' || letter == 'O'
            || letter == 'o',
        is_float_literal(w),
        is_float_literal(h),
    ensures
        crate::parser::aperture_of_fields(d + seq![letter], w + seq!['X'] + h, unit) == Some(
            (
                digits_value(digit_values(d)) as i32,
                ApertureModel {
                    shape: if letter == 'C' || letter == 'c' {
                        ApertureShape::Circle
                    } else if letter == 'R' || letter == 'r' {
                        ApertureShape::Rectangle
                    } else {
                        ApertureShape::Obround
                    },
                    width: w,
                    height: h,
                    unit,
                },
            ),
        ),
{
    lemma_float_literal_chars(w);
    lemma_float_literal_chars(h);
    let prefix = d + seq![letter];
    let params = w + seq!['X'] + h;
    let nw = w.len() as int;
    lemma_keep_digits_of_digits(d);
    assert(keep_digits(prefix) == d) by {
        assert(prefix.drop_last() =~= d);
        assert(prefix.last() == letter);
    }
    lemma_first_letter_after_digits(d, letter);
    assert forall|j: int| 0 <= j < nw implies params[j] != 'X' by {
        assert(params[j] == w[j]);
        assert(is_float_char(w[j]));
    }
    assert(params[nw] == 'X');
    lemma_position_at(params, 'X', nw);
    assert(params.skip(nw + 1) =~= h);
    assert(params.take(nw) =~= w);
    assert forall|j: int| 0 <= j < h.len() implies h[j] != 'X' by {
        assert(is_float_char(h[j]));
    }
    lemma_position_absent(h, 'X');
    assert(is_float_char(w[0]) && is_float_char(w.last()));
    assert(is_float_char(h[0]) && is_float_char(h.last()));
    lemma_trim_of_unspaced(w);
    lemma_trim_of_unspaced(h);
}

/// What a standard aperture definition defines. For a line
/// `%ADD<d><letter>,<w>X<h>*%` where `d` is a decimal number (of any length)
/// that fits in `i32`, `letter` is `C`, `R` or `O` in either case, and `w` and
/// `h` are float literals without lower-case ASCII letters, the line defines
/// aperture `d` with that shape, width `w` and height `h`, in the unit given.
pub proof fn lemma_aperture_definition_of(
    d: Seq<char>,
    letter: char,
    w: Seq<char>,
    h: Seq<char>,
    unit: Unit,
)
    requires
        d.len() > 0,
        all_digits(d),
        digits_value(digit_values(d)) <= i32::MAX,
        letter == 'C' || letter == 'c' || letter == 'R' || letter == 'r' || letter == 'O'
            || letter == 'o',
        is_float_literal(w),
        is_float_literal(h),
        forall|i: int| 0 <= i < w.len() ==> !('a' <= #[trigger] w[i] && w[i] <= 'z'),
        forall|i: int| 0 <= i < h.len() ==> !('a' <= #[trigger] h[i] && h[i] <= 'z'),
    ensures
        aperture_definition(
            add_tag() + d + seq![letter, ','] + w + seq!['X'] + h + seq!['*', '%'],
            unit,
        ) == Some(
            (
                digits_value(digit_values(d)) as i32,
                ApertureModel {
                    shape: if letter == 'C' || letter == 'c' {
                        ApertureShape::Circle
                    } else if letter == 'R' || letter == 'r' {
                        ApertureShape::Rectangle
                    } else {
                        ApertureShape::Obround
                    },
                    width: w,
                    height: h,
                    unit,
                },
            ),
        ),
{
    lemma_float_literal_chars(w);
    lemma_float_literal_chars(h);
    lemma_definition_line_parts(d, letter, w, h);
    lemma_params_upper(w, h);
    lemma_fields_define(d, letter, w, h, unit);
}

/// Reading such a definition line records that aperture under its number, in
/// the unit in effect, replacing any earlier one, and changes nothing else.
pub proof fn lemma_definition_line_defines(
    st: StateModel,
    d: Seq<char>,
    letter: char,
    w: Seq<char>,
    h: Seq<char>,
)
    requires
        d.len() > 0,
        all_digits(d),
        digits_value(digit_values(d)) <= i32::MAX,
        letter == 'C' || letter == 'c' || letter == 'R' || letter == 'r' || letter == 'O'
            || letter == 'o',
        is_float_literal(w),
        is_float_literal(h),
        forall|i: int| 0 <= i < w.len() ==> !('a' <= #[trigger] w[i] && w[i] <= 'z'),
        forall|i: int| 0 <= i < h.len() ==> !('a' <= #[trigger] h[i] && h[i] <= 'z'),
    ensures
        step(st, add_tag() + d + seq![letter, ','] + w + seq!['X'] + h + seq!['*', '%']) == (
        StateModel {
            apertures: st.apertures.insert(
                digits_value(digit_values(d)) as i32,
                ApertureModel {
                    shape: if letter == 'C' || letter == 'c' {
                        ApertureShape::Circle
                    } else if letter == 'R' || letter == 'r' {
                        ApertureShape::Rectangle
                    } else {
                        ApertureShape::Obround
                    },
                    width: w,
                    height: h,
                    unit: st.unit,
                },
            ),
            ..st
        }),
{
    let line = add_tag() + d + seq![letter, ','] + w + seq!['X'] + h + seq!['*', '%'];
    lemma_aperture_definition_of(d, letter, w, h, st.unit);
    assert(line[0] == '%');
    assert(line.last() == '%');
    lemma_trim_of_unspaced(line);
    assert(line.take(4) =~= add_tag());
    assert(line.take(3)[1] == line[1]);
    assert(line.take(4)[1] == line[1]);
    if starts_with(line, format_tag()) {
        assert(line.take(6)[1] == line[1]);
    }
    if starts_with(line, millimeters_tag()) {
        assert(line.take(5)[1] == line[1]);
    }
    if starts_with(line, inches_tag()) {
        assert(line.take(5)[1] == line[1]);
    }
}

// ---------------------------------------------------------------------------
// Numbers, defaults and the start
// ---------------------------------------------------------------------------

/// A `D` word is its integer where that fits in `i32`, and the nearest bound of
/// `i32` where it does not (as a float-to-integer cast makes it).
pub proof fn lemma_d_code_value(n: NumberModel)
    ensures
        i32::MIN <= n.value() <= i32::MAX ==> crate::numbers::number_to_i32(n) as int == n.value(),
        n.value() > i32::MAX ==> crate::numbers::number_to_i32(n) == i32::MAX,
        n.value() < i32::MIN ==> crate::numbers::number_to_i32(n) == i32::MIN,
{
}

/// The selected aperture is the defined one of the selected number, and a
/// 1.5 mm circle where that number is not defined.
pub proof fn lemma_active_aperture(st: StateModel)
    ensures
        st.apertures.contains_key(st.current_aperture) ==> st.active_aperture()
            == st.apertures[st.current_aperture],
        !st.apertures.contains_key(st.current_aperture) ==> st.active_aperture() == (ApertureModel {
            shape: ApertureShape::Circle,
            width: seq!['1', '.', '5'],
            height: seq!['1', '.', '5'],
            unit: Unit::Millimeters,
        }),
{
}

/// Before any line: position 0 read as millimetres with six decimal places,
/// six decimal places and millimetres in effect, no aperture, aperture 0 and
/// mode 2 (move) selected, nothing drawn.
pub proof fn lemma_initial_state()
    ensures
        ({
            let st = crate::state::initial_state();
            &&& st.x.value.value() == 0 && st.x.decimals == 6 && st.x.unit == Unit::Millimeters
            &&& st.y.value.value() == 0 && st.y.decimals == 6 && st.y.unit == Unit::Millimeters
            &&& st.format_decimals == 6
            &&& st.unit == Unit::Millimeters
            &&& st.apertures.dom().is_empty()
            &&& st.current_aperture == 0
            &&& st.current_d_code == 2
            &&& st.traces.len() == 0
            &&& st.pins.len() == 0
        }),
{
    let st = crate::state::initial_state();
    reveal_with_fuel(digits_value, 2);
    assert(seq![0u8].drop_last() =~= Seq::<u8>::empty());
    assert(st.apertures.dom() =~= Set::<i32>::empty());
}

/// Digits, with one `.` among them or none, and an optional exponent of `e` or
/// `E`, a sign and digits, are a float literal.
pub proof fn lemma_decimal_literal(a: Seq<char>, b: Seq<char>, dot: bool, exp: Option<Seq<char>>)
    requires
        all_digits(a),
        all_digits(b),
        dot ==> a.len() + b.len() > 0,
        !dot ==> a.len() > 0 && b.len() == 0,
        exp matches Some(x) ==> x.len() > 0 && all_digits(x),
    ensures
        is_float_literal(
            (if dot {
                a + seq!['.'] + b
            } else {
                a
            }) + match exp {
                Some(x) => seq!['e'] + x,
                None => Seq::<char>::empty(),
            },
        ),
{
    let m = if dot {
        a + seq!['.'] + b
    } else {
        a
    };
    let e: Seq<char> = match exp {
        Some(x) => seq!['e'] + x,
        None => Seq::<char>::empty(),
    };
    let s = m + e;
    assert forall|i: int| 0 <= i < m.len() implies m[i] != 'e' && m[i] != 'E' && !is_sign(m[i]) by {
        if dot {
            if i < a.len() {
                assert(m[i] == a[i]);
                assert(is_digit(a[i]));
            } else if i > a.len() {
                assert(m[i] == b[i - a.len() - 1]);
                assert(is_digit(b[i - a.len() - 1]));
            }
        } else {
            assert(is_digit(a[i]));
        }
    }
    assert(m.len() > 0);
    assert(s[0] == m[0]);
    assert(!is_sign(s[0]));
    // the mantissa
    if dot {
        assert forall|j: int| 0 <= j < a.len() implies m[j] != '.' by {
            assert(is_digit(a[j]));
        }
        lemma_position_at(m, '.', a.len() as int);
        assert(m.take(a.len() as int) =~= a);
        assert(m.skip(a.len() as int + 1) =~= b);
    } else {
        assert forall|j: int| 0 <= j < m.len() implies m[j] != '.' by {
            assert(is_digit(a[j]));
        }
        lemma_position_absent(m, '.');
    }
    assert(is_mantissa(m));
    // the exponent
    lemma_position_of_either(s, 'e', 'E');
    match exp {
        Some(x) => {
            assert(s[m.len() as int] == 'e');
            match position_of_either(s, 'e', 'E') {
                Some(p) => {
                    if p < m.len() {
                        assert(s[p] == m[p]);
                    }
                    if p > m.len() {
                        assert(s[m.len() as int] == 'e');
                    }
                },
                None => {
                    assert(s[m.len() as int] == 'e');
                },
            }
            assert(s.take(m.len() as int) =~= m);
            assert(s.skip(m.len() as int + 1) =~= x);
            assert(!is_sign(x[0])) by {
                assert(is_digit(x[0]));
            }
            assert(is_exponent(x));
        },
        None => {
            assert(s =~= m);
            match position_of_either(s, 'e', 'E') {
                Some(p) => {
                    assert(s[p] == m[p]);
                },
                None => {},
            }
        },
    }
    assert(is_decimal(s));
}

/// Trimming removes white space at both ends and nothing else.
pub proof fn lemma_trim_spaces(a: Seq<char>, s: Seq<char>, b: Seq<char>)
    requires
        forall|i: int| 0 <= i < a.len() ==> is_white_space(#[trigger] a[i]),
        forall|i: int| 0 <= i < b.len() ==> is_white_space(#[trigger] b[i]),
        s.len() > 0,
        !is_white_space(s[0]),
        !is_white_space(s.last()),
    ensures
        trim(a + s + b) == s,
    decreases a.len() + b.len(),
{
    if a.len() > 0 {
        assert((a + s + b)[0] == a[0]);
        assert((a + s + b).drop_first() =~= a.drop_first() + s + b);
        assert forall|i: int| 0 <= i < a.drop_first().len() implies is_white_space(
            #[trigger] a.drop_first()[i],
        ) by {
            assert(a.drop_first()[i] == a[i + 1]);
        }
        lemma_trim_spaces(a.drop_first(), s, b);
        assert(crate::text::trim_start(a + s + b) == crate::text::trim_start(
            a.drop_first() + s + b,
        ));
    } else if b.len() > 0 {
        assert(a + s + b =~= s + b);
        lemma_trim_end_spaces(s, b);
        assert(crate::text::trim_start(s + b) == s + b) by {
            assert((s + b)[0] == s[0]);
        }
    } else {
        assert(a + s + b =~= s);
    }
}

proof fn lemma_trim_end_spaces(s: Seq<char>, b: Seq<char>)
    requires
        forall|i: int| 0 <= i < b.len() ==> is_white_space(#[trigger] b[i]),
        s.len() > 0,
        !is_white_space(s.last()),
    ensures
        crate::text::trim_end(s + b) == s,
    decreases b.len(),
{
    if b.len() == 0 {
        assert(s + b =~= s);
    } else {
        assert((s + b).last() == b.last());
        assert((s + b).drop_last() =~= s + b.drop_last());
        assert forall|i: int| 0 <= i < b.drop_last().len() implies is_white_space(
            #[trigger] b.drop_last()[i],
        ) by {
            assert(b.drop_last()[i] == b[i]);
        }
        lemma_trim_end_spaces(s, b.drop_last());
    }
}

} // verus!
