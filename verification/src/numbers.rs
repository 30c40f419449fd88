//! The number syntaxes of a Gerber line: coordinate words (`X-1200`),
//! aperture numbers (`10`) and aperture sizes (`0.254`).
use vstd::prelude::*;
use crate::text::{
    all_digits, char_is_digit, digit_values, find_char, find_either, is_coordinate_char,
    is_digit, is_sign, position, position_of_either,
};
use crate::types::{digits_value, Number, NumberModel};

verus! {

// ---------------------------------------------------------------------------
// Integers
// ---------------------------------------------------------------------------

/// One past `i32::MAX`: the magnitude of `i32::MIN`.
pub open spec fn i32_bound() -> int {
    0x8000_0000
}

/// Clamps an integer into `i32`, as a float-to-`i32` cast does.
pub open spec fn saturate_i32(v: int) -> i32 {
    if v > i32::MAX {
        i32::MAX
    } else if v < i32::MIN {
        i32::MIN
    } else {
        v as i32
    }
}

proof fn lemma_digits_value_step(ds: Seq<u8>, i: int)
    requires
        0 <= i < ds.len(),
    ensures
        digits_value(ds.take(i + 1)) == digits_value(ds.take(i)) * 10 + ds[i],
{
    assert(ds.take(i + 1).drop_last() =~= ds.take(i));
}

/// The value of `ds`, exact up to `i32_bound()`, and above it wherever the value is.
fn saturating_value(ds: &Vec<u8>) -> (r: u64)
    ensures
        digits_value(ds@) <= i32_bound() ==> r == digits_value(ds@),
        digits_value(ds@) > i32_bound() ==> r > i32_bound(),
{
    let mut acc: u64 = 0;
    let mut i: usize = 0;
    while i < ds.len()
        invariant
            i <= ds.len(),
            digits_value(ds@.take(i as int)) <= i32_bound() ==> acc == digits_value(
                ds@.take(i as int),
            ),
            digits_value(ds@.take(i as int)) > i32_bound() ==> acc > i32_bound(),
            acc <= 10 * i32_bound() + 255,
        decreases ds.len() - i,
    {
        proof {
            lemma_digits_value_step(ds@, i as int);
        }
        if acc <= 0x8000_0000 {
            acc = acc * 10 + ds[i] as u64;
        }
        i = i + 1;
    }
    assert(ds@.take(ds.len() as int) =~= ds@);
    acc
}

/// `dv as i32` for the value `dv` of a coordinate word: the integer, saturated into `i32`.
pub open spec fn number_to_i32(n: NumberModel) -> i32 {
    saturate_i32(n.value())
}

/// The `i32` that a float-to-integer cast makes of the number.
pub fn number_as_i32(n: &Number) -> (r: i32)
    ensures
        r == number_to_i32(n@),
{
    let m = saturating_value(&n.digits);
    if n.negative {
        if m > 0x8000_0000 {
            i32::MIN
        } else if m == 0x8000_0000 {
            i32::MIN
        } else {
            let v = m as i32;
            -v
        }
    } else {
        if m > 0x7fff_ffff {
            i32::MAX
        } else {
            m as i32
        }
    }
}

/// The digit values of `s[lo..hi]`, which are all decimal digits.
fn digit_vec(s: &Vec<char>, lo: usize, hi: usize) -> (r: Vec<u8>)
    requires
        lo <= hi <= s.len(),
        all_digits(s@.subrange(lo as int, hi as int)),
    ensures
        r@ == digit_values(s@.subrange(lo as int, hi as int)),
        forall|i: int| 0 <= i < r@.len() ==> #[trigger] r@[i] <= 9,
{
    let mut r: Vec<u8> = Vec::new();
    let mut i = lo;
    while i < hi
        invariant
            lo <= i <= hi <= s.len(),
            all_digits(s@.subrange(lo as int, hi as int)),
            r@ == digit_values(s@.subrange(lo as int, i as int)),
            forall|j: int| 0 <= j < r@.len() ==> #[trigger] r@[j] <= 9,
        decreases hi - i,
    {
        assert(s@.subrange(lo as int, hi as int)[i - lo] == s@[i as int]);
        let c = s[i];
        let d = (c as u32 - '0' as u32) as u8;
        r.push(d);
        i = i + 1;
        assert(r@ =~= digit_values(s@.subrange(lo as int, i as int)));
    }
    r
}

/// `str::parse::<i32>` of a string of decimal digits: its value, when it fits.
pub open spec fn parse_i32_digits(s: Seq<char>) -> Option<i32> {
    if s.len() > 0 && digits_value(digit_values(s)) <= i32::MAX {
        Some(digits_value(digit_values(s)) as i32)
    } else {
        None
    }
}

/// Parses a string of decimal digits as an `i32`.
pub(crate) fn digits_to_i32(s: &Vec<char>) -> (r: Option<i32>)
    requires
        all_digits(s@),
    ensures
        r == parse_i32_digits(s@),
{
    assert(s@.subrange(0, s.len() as int) =~= s@);
    let ds = digit_vec(s, 0, s.len());
    let m = saturating_value(&ds);
    if s.len() > 0 && m <= 0x7fff_ffff {
        Some(m as i32)
    } else {
        None
    }
}

// ---------------------------------------------------------------------------
// Coordinate words
// ---------------------------------------------------------------------------

/// The length of the run of coordinate characters (`0-9`, `+`, `-`) that starts `s`.
pub open spec fn run_len(s: Seq<char>) -> nat
    decreases s.len(),
{
    if s.len() > 0 && is_coordinate_char(s[0]) {
        1 + run_len(s.drop_first())
    } else {
        0
    }
}

/// `str::parse::<f64>` of a run of coordinate characters succeeds exactly on an
/// optional sign followed by at least one digit; this is that number.
pub open spec fn parse_number(t: Seq<char>) -> Option<NumberModel> {
    if t.len() > 1 && is_sign(t[0]) && all_digits(t.drop_first()) {
        Some(NumberModel { negative: t[0] == '-', digits: digit_values(t.drop_first()) })
    } else if t.len() > 0 && all_digits(t) {
        Some(NumberModel { negative: false, digits: digit_values(t) })
    } else {
        None
    }
}

/// The number written right after the first occurrence of `letter` in `line`.
pub open spec fn word_value(line: Seq<char>, letter: char) -> Option<NumberModel> {
    match position(line, letter) {
        Some(i) => {
            let rest = line.skip(i + 1);
            parse_number(rest.take(run_len(rest) as int))
        },
        None => None,
    }
}

/// Whether all of `s[lo..hi]` are decimal digits.
pub fn all_digits_in(s: &Vec<char>, lo: usize, hi: usize) -> (r: bool)
    requires
        lo <= hi <= s.len(),
    ensures
        r == all_digits(s@.subrange(lo as int, hi as int)),
{
    let mut i = lo;
    while i < hi
        invariant
            lo <= i <= hi <= s.len(),
            forall|j: int| lo <= j < i ==> is_digit(#[trigger] s@[j]),
        decreases hi - i,
    {
        if !char_is_digit(s[i]) {
            assert(s@.subrange(lo as int, hi as int)[i - lo] == s@[i as int]);
            return false;
        }
        i = i + 1;
    }
    assert forall|j: int| 0 <= j < hi - lo implies is_digit(
        #[trigger] s@.subrange(lo as int, hi as int)[j],
    ) by {
        assert(s@.subrange(lo as int, hi as int)[j] == s@[lo + j]);
    }
    true
}

/// The number that `s[lo..hi]`, a run of coordinate characters, spells.
fn number_in(s: &Vec<char>, lo: usize, hi: usize) -> (r: Option<Number>)
    requires
        lo <= hi <= s.len(),
    ensures
        match r {
            Some(n) => parse_number(s@.subrange(lo as int, hi as int)) == Some(n@),
            None => parse_number(s@.subrange(lo as int, hi as int)) is None,
        },
{
    let ghost t = s@.subrange(lo as int, hi as int);
    if hi - lo > 1 && (s[lo] == '+' || s[lo] == '-') {
        assert(t[0] == s@[lo as int]);
        assert(t.drop_first() =~= s@.subrange(lo + 1, hi as int));
        if all_digits_in(s, lo + 1, hi) {
            let digits = digit_vec(s, lo + 1, hi);
            return Some(Number { negative: s[lo] == '-', digits });
        }
    }
    if hi > lo && all_digits_in(s, lo, hi) {
        proof {
            if t.len() > 1 && is_sign(t[0]) {
                assert(!is_digit(t[0]));
            }
        }
        let digits = digit_vec(s, lo, hi);
        return Some(Number { negative: false, digits });
    }
    proof {
        if t.len() > 1 && is_sign(t[0]) && all_digits(t.drop_first()) {
            assert(t[0] == s@[lo as int]);
            assert(t.drop_first() =~= s@.subrange(lo + 1, hi as int));
        }
    }
    None
}

/// The end of the run of coordinate characters that starts at `lo`.
fn run_end(s: &Vec<char>, lo: usize) -> (r: usize)
    requires
        lo <= s.len(),
    ensures
        lo <= r <= s.len(),
        r - lo == run_len(s@.skip(lo as int)),
{
    let mut j = lo;
    while j < s.len() && (char_is_digit(s[j]) || s[j] == '+' || s[j] == '-')
        invariant
            lo <= j <= s.len(),
            run_len(s@.skip(lo as int)) == (j - lo) + run_len(s@.skip(j as int)),
        decreases s.len() - j,
    {
        assert(s@.skip(j as int).drop_first() =~= s@.skip(j + 1));
        assert(s@.skip(j as int)[0] == s@[j as int]);
        j = j + 1;
    }
    proof {
        if j < s.len() {
            assert(s@.skip(j as int)[0] == s@[j as int]);
        }
    }
    j
}

/// The number written after the first `letter` of `line`, if it parses.
pub fn extract_coordinates(line: &Vec<char>, letter: char) -> (r: Option<Number>)
    ensures
        match r {
            Some(n) => word_value(line@, letter) == Some(n@),
            None => word_value(line@, letter) is None,
        },
{
    assert(line@.subrange(0, line.len() as int) =~= line@);
    match find_char(line, 0, line.len(), letter) {
        None => None,
        Some(i) => {
            let start = i + 1;
            let end = run_end(line, start);
            assert(line@.skip(start as int).take(end - start) =~= line@.subrange(
                start as int,
                end as int,
            ));
            number_in(line, start, end)
        },
    }
}

// ---------------------------------------------------------------------------
// Float literals (the sizes of aperture definitions)
// ---------------------------------------------------------------------------

/// `c` is `lower` or its ASCII capital (`lower` is a lower-case ASCII letter).
pub open spec fn same_letter(c: char, lower: char) -> bool {
    c == lower || (c as u32) + 32 == (lower as u32)
}

/// `s` spells `word` (given in lower case) with ASCII case ignored.
pub open spec fn spells(s: Seq<char>, word: Seq<char>) -> bool {
    s.len() == word.len() && forall|i: int| 0 <= i < s.len() ==> same_letter(s[i], word[i])
}

/// The digits after an exponent marker: an optional sign and at least one digit.
pub open spec fn is_exponent(t: Seq<char>) -> bool {
    let d = if t.len() > 0 && is_sign(t[0]) {
        t.drop_first()
    } else {
        t
    };
    d.len() > 0 && all_digits(d)
}

/// `Digit+ | Digit+ '.' Digit* | Digit* '.' Digit+`.
pub open spec fn is_mantissa(m: Seq<char>) -> bool {
    match position(m, '.') {
        None => m.len() > 0 && all_digits(m),
        Some(p) => all_digits(m.take(p)) && all_digits(m.skip(p + 1)) && m.len() > 1,
    }
}

/// A mantissa with an optional exponent (`e` or `E`, a sign, digits).
pub open spec fn is_decimal(s: Seq<char>) -> bool {
    match position_of_either(s, 'e', 'E') {
        None => is_mantissa(s),
        Some(e) => is_mantissa(s.take(e)) && is_exponent(s.skip(e + 1)),
    }
}

/// The grammar of `str::parse::<f64>`: an optional sign, then `inf`, `infinity`,
/// `nan` (any case) or a decimal number.
pub open spec fn is_float_literal(s: Seq<char>) -> bool {
    let body = if s.len() > 0 && is_sign(s[0]) {
        s.drop_first()
    } else {
        s
    };
    ||| spells(body, seq!['i', 'n', 'f'])
    ||| spells(body, seq!['i', 'n', 'f', 'i', 'n', 'i', 't', 'y'])
    ||| spells(body, seq!['n', 'a', 'n'])
    ||| is_decimal(body)
}

/// Whether `s[lo..hi]` spells `word` with ASCII case ignored.
fn spells_in(s: &Vec<char>, lo: usize, hi: usize, word: &Vec<char>) -> (r: bool)
    requires
        lo <= hi <= s.len(),
    ensures
        r == spells(s@.subrange(lo as int, hi as int), word@),
{
    let ghost t = s@.subrange(lo as int, hi as int);
    if hi - lo != word.len() {
        return false;
    }
    let mut i: usize = 0;
    while i < word.len()
        invariant
            i <= word.len() == hi - lo,
            lo <= hi <= s.len(),
            t == s@.subrange(lo as int, hi as int),
            forall|j: int| 0 <= j < i ==> same_letter(t[j], word@[j]),
        decreases word.len() - i,
    {
        let c = s[lo + i];
        let w = word[i];
        assert(t[i as int] == c);
        if !(c == w || ((w as u32) >= 32 && (c as u32) == (w as u32) - 32)) {
            return false;
        }
        i = i + 1;
    }
    true
}

fn exponent_in(s: &Vec<char>, lo: usize, hi: usize) -> (r: bool)
    requires
        lo <= hi <= s.len(),
    ensures
        r == is_exponent(s@.subrange(lo as int, hi as int)),
{
    let ghost t = s@.subrange(lo as int, hi as int);
    if hi > lo && (s[lo] == '+' || s[lo] == '-') {
        assert(t[0] == s@[lo as int]);
        assert(t.drop_first() =~= s@.subrange(lo + 1, hi as int));
        hi > lo + 1 && all_digits_in(s, lo + 1, hi)
    } else {
        proof {
            if t.len() > 0 {
                assert(t[0] == s@[lo as int]);
            }
        }
        hi > lo && all_digits_in(s, lo, hi)
    }
}

fn mantissa_in(s: &Vec<char>, lo: usize, hi: usize) -> (r: bool)
    requires
        lo <= hi <= s.len(),
    ensures
        r == is_mantissa(s@.subrange(lo as int, hi as int)),
{
    let ghost t = s@.subrange(lo as int, hi as int);
    match find_char(s, lo, hi, '.') {
        None => hi > lo && all_digits_in(s, lo, hi),
        Some(p) => {
            assert(t.take(p - lo) =~= s@.subrange(lo as int, p as int));
            assert(t.skip(p - lo + 1) =~= s@.subrange(p + 1, hi as int));
            all_digits_in(s, lo, p) && all_digits_in(s, p + 1, hi) && hi - lo > 1
        },
    }
}

fn decimal_in(s: &Vec<char>, lo: usize, hi: usize) -> (r: bool)
    requires
        lo <= hi <= s.len(),
    ensures
        r == is_decimal(s@.subrange(lo as int, hi as int)),
{
    let ghost t = s@.subrange(lo as int, hi as int);
    match find_either(s, lo, hi, 'e', 'E') {
        None => mantissa_in(s, lo, hi),
        Some(e) => {
            assert(t.take(e - lo) =~= s@.subrange(lo as int, e as int));
            assert(t.skip(e - lo + 1) =~= s@.subrange(e + 1, hi as int));
            mantissa_in(s, lo, e) && exponent_in(s, e + 1, hi)
        },
    }
}

/// Whether `str::parse::<f64>` accepts the text `s`.
pub fn float_literal(s: &Vec<char>) -> (r: bool)
    ensures
        r == is_float_literal(s@),
{
    let n = s.len();
    let lo: usize = if n > 0 && (s[0] == '+' || s[0] == '-') {
        1
    } else {
        0
    };
    assert(s@.subrange(lo as int, n as int) =~= (if s@.len() > 0 && is_sign(s@[0]) {
        s@.drop_first()
    } else {
        s@
    }));
    let inf = vec!['i', 'n', 'f'];
    let infinity = vec!['i', 'n', 'f', 'i', 'n', 'i', 't', 'y'];
    let nan = vec!['n', 'a', 'n'];
    assert(inf@ =~= seq!['i', 'n', 'f']);
    assert(infinity@ =~= seq!['i', 'n', 'f', 'i', 'n', 'i', 't', 'y']);
    assert(nan@ =~= seq!['n', 'a', 'n']);
    spells_in(s, lo, n, &inf) || spells_in(s, lo, n, &infinity) || spells_in(s, lo, n, &nan)
        || decimal_in(s, lo, n)
}

} // verus!
