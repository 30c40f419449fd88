//! Character-level text handling for Gerber lines: classes of characters,
//! searching, trimming and the number grammars that the parser relies on.
use vstd::prelude::*;

verus! {

// ---------------------------------------------------------------------------
// Character classes
// ---------------------------------------------------------------------------

/// `char::is_ascii_digit`.
pub open spec fn is_digit(c: char) -> bool {
    '0' <= c && c <= '9'
}

/// `char::is_ascii_alphabetic`.
pub open spec fn is_letter(c: char) -> bool {
    ('A' <= c && c <= 'Z') || ('a' <= c && c <= 'z')
}

pub open spec fn is_sign(c: char) -> bool {
    c == '+' || c == '-'
}

/// The characters that a coordinate word may hold after its letter.
pub open spec fn is_coordinate_char(c: char) -> bool {
    is_digit(c) || is_sign(c)
}

/// The Unicode `White_Space` property, which `str::trim` removes.
pub open spec fn is_white_space(c: char) -> bool {
    let u = c as u32;
    ||| 0x9 <= u <= 0xD
    ||| u == 0x20
    ||| u == 0x85
    ||| u == 0xA0
    ||| u == 0x1680
    ||| 0x2000 <= u <= 0x200A
    ||| u == 0x2028
    ||| u == 0x2029
    ||| u == 0x202F
    ||| u == 0x205F
    ||| u == 0x3000
}

pub fn char_is_digit(c: char) -> (r: bool)
    ensures
        r == is_digit(c),
{
    '0' <= c && c <= '9'
}

pub fn char_is_letter(c: char) -> (r: bool)
    ensures
        r == is_letter(c),
{
    ('A' <= c && c <= 'Z') || ('a' <= c && c <= 'z')
}

pub fn char_is_white_space(c: char) -> (r: bool)
    ensures
        r == is_white_space(c),
{
    let u = c as u32;
    (0x9 <= u && u <= 0xD) || u == 0x20 || u == 0x85 || u == 0xA0 || u == 0x1680 || (0x2000 <= u
        && u <= 0x200A) || u == 0x2028 || u == 0x2029 || u == 0x202F || u == 0x205F || u == 0x3000
}

/// The value of a decimal digit character.
pub open spec fn digit_value(c: char) -> u8 {
    ((c as u32) - ('0' as u32)) as u8
}

/// The digit values of a sequence of decimal digit characters.
pub open spec fn digit_values(s: Seq<char>) -> Seq<u8> {
    s.map_values(|c: char| digit_value(c))
}

pub open spec fn all_digits(s: Seq<char>) -> bool {
    forall|i: int| 0 <= i < s.len() ==> is_digit(#[trigger] s[i])
}

// ---------------------------------------------------------------------------
// Searching
// ---------------------------------------------------------------------------

/// The index of the first occurrence of `a` or `b` in `s` (`str::find`, counted in characters).
pub open spec fn position_of_either(s: Seq<char>, a: char, b: char) -> Option<int>
    decreases s.len(),
{
    if s.len() == 0 {
        None
    } else if s[0] == a || s[0] == b {
        Some(0)
    } else {
        match position_of_either(s.drop_first(), a, b) {
            Some(i) => Some(i + 1),
            None => None,
        }
    }
}

/// The index of the first occurrence of `c` in `s`.
pub open spec fn position(s: Seq<char>, c: char) -> Option<int> {
    position_of_either(s, c, c)
}

/// What `position_of_either` is: the first match, or none at all.
pub proof fn lemma_position_of_either(s: Seq<char>, a: char, b: char)
    ensures
        match position_of_either(s, a, b) {
            Some(i) => {
                &&& 0 <= i < s.len()
                &&& (s[i] == a || s[i] == b)
                &&& forall|j: int| 0 <= j < i ==> s[j] != a && s[j] != b
            },
            None => forall|j: int| 0 <= j < s.len() ==> s[j] != a && s[j] != b,
        },
    decreases s.len(),
{
    if s.len() > 0 {
        lemma_position_of_either(s.drop_first(), a, b);
        if !(s[0] == a || s[0] == b) {
            assert forall|j: int| 1 <= j < s.len() implies s[j] == s.drop_first()[j - 1] by {}
        }
    }
}

/// Finds the first index `k` in `lo..hi` with `s[k]` equal to `a` or `b`.
pub fn find_either(s: &Vec<char>, lo: usize, hi: usize, a: char, b: char) -> (r: Option<usize>)
    requires
        lo <= hi <= s.len(),
    ensures
        match r {
            Some(k) => lo <= k < hi && position_of_either(s@.subrange(lo as int, hi as int), a, b)
                == Some(k - lo),
            None => position_of_either(s@.subrange(lo as int, hi as int), a, b) is None,
        },
{
    let ghost sub = s@.subrange(lo as int, hi as int);
    proof {
        lemma_position_of_either(sub, a, b);
    }
    let mut i = lo;
    while i < hi
        invariant
            lo <= i <= hi <= s.len(),
            sub == s@.subrange(lo as int, hi as int),
            forall|j: int| lo <= j < i ==> s@[j] != a && s@[j] != b,
            match position_of_either(sub, a, b) {
                Some(p) => {
                    &&& 0 <= p < sub.len()
                    &&& (sub[p] == a || sub[p] == b)
                    &&& forall|j: int| 0 <= j < p ==> sub[j] != a && sub[j] != b
                },
                None => forall|j: int| 0 <= j < sub.len() ==> sub[j] != a && sub[j] != b,
            },
        decreases hi - i,
    {
        if s[i] == a || s[i] == b {
            proof {
                assert(sub[i - lo] == s@[i as int]);
                match position_of_either(sub, a, b) {
                    Some(p) => {
                        if p < i - lo {
                            assert(sub[p] == s@[lo + p]);
                        }
                    },
                    None => {},
                }
            }
            return Some(i);
        }
        i = i + 1;
    }
    proof {
        match position_of_either(sub, a, b) {
            Some(p) => {
                assert(sub[p] == s@[lo + p]);
            },
            None => {},
        }
    }
    None
}

/// Finds the first index `k` in `lo..hi` with `s[k] == c`.
pub fn find_char(s: &Vec<char>, lo: usize, hi: usize, c: char) -> (r: Option<usize>)
    requires
        lo <= hi <= s.len(),
    ensures
        match r {
            Some(k) => lo <= k < hi && position(s@.subrange(lo as int, hi as int), c) == Some(k - lo),
            None => position(s@.subrange(lo as int, hi as int), c) is None,
        },
{
    find_either(s, lo, hi, c, c)
}

// ---------------------------------------------------------------------------
// Copying and trimming
// ---------------------------------------------------------------------------

/// The characters of a string slice.
pub fn chars_of(s: &str) -> (v: Vec<char>)
    ensures
        v@ == s@,
{
    let mut v: Vec<char> = Vec::new();
    for c in it: s.chars()
        invariant
            v@ == it.seq().take(it.index() as int),
    {
        v.push(c);
    }
    v
}

/// A copy of `s[lo..hi]`.
pub fn copy_range(s: &Vec<char>, lo: usize, hi: usize) -> (r: Vec<char>)
    requires
        lo <= hi <= s.len(),
    ensures
        r@ == s@.subrange(lo as int, hi as int),
{
    let mut r: Vec<char> = Vec::new();
    let mut i = lo;
    while i < hi
        invariant
            lo <= i <= hi <= s.len(),
            r@ == s@.subrange(lo as int, i as int),
        decreases hi - i,
    {
        r.push(s[i]);
        i = i + 1;
        assert(r@ =~= s@.subrange(lo as int, i as int));
    }
    r
}

/// `str::trim_start`.
pub open spec fn trim_start(s: Seq<char>) -> Seq<char>
    decreases s.len(),
{
    if s.len() > 0 && is_white_space(s[0]) {
        trim_start(s.drop_first())
    } else {
        s
    }
}

/// `str::trim_end`.
pub open spec fn trim_end(s: Seq<char>) -> Seq<char>
    decreases s.len(),
{
    if s.len() > 0 && is_white_space(s.last()) {
        trim_end(s.drop_last())
    } else {
        s
    }
}

/// `str::trim`: the text without leading and trailing white space.
pub open spec fn trim(s: Seq<char>) -> Seq<char> {
    trim_end(trim_start(s))
}

/// The bounds of `trim(s[lo..hi])` within `s`.
pub fn trim_bounds(s: &Vec<char>, lo: usize, hi: usize) -> (r: (usize, usize))
    requires
        lo <= hi <= s.len(),
    ensures
        lo <= r.0 <= r.1 <= hi,
        s@.subrange(r.0 as int, r.1 as int) == trim(s@.subrange(lo as int, hi as int)),
{
    let mut a = lo;
    while a < hi && char_is_white_space(s[a])
        invariant
            lo <= a <= hi <= s.len(),
            trim_start(s@.subrange(lo as int, hi as int)) == trim_start(
                s@.subrange(a as int, hi as int),
            ),
        decreases hi - a,
    {
        assert(s@.subrange(a as int, hi as int).drop_first() =~= s@.subrange(a + 1, hi as int));
        a = a + 1;
    }
    let mut b = hi;
    while b > a && char_is_white_space(s[b - 1])
        invariant
            lo <= a <= b <= hi <= s.len(),
            trim(s@.subrange(lo as int, hi as int)) == trim_end(s@.subrange(a as int, b as int)),
        decreases b - a,
    {
        assert(s@.subrange(a as int, b as int).drop_last() =~= s@.subrange(a as int, b - 1));
        b = b - 1;
    }
    (a, b)
}

/// `trim` of a whole character vector, as a new vector.
pub fn trimmed(s: &Vec<char>) -> (r: Vec<char>)
    ensures
        r@ == trim(s@),
{
    let (a, b) = trim_bounds(s, 0, s.len());
    assert(s@.subrange(0, s.len() as int) =~= s@);
    copy_range(s, a, b)
}

pub open spec fn starts_with(s: Seq<char>, p: Seq<char>) -> bool {
    s.len() >= p.len() && s.take(p.len() as int) == p
}

/// `str::starts_with` for a pattern given as characters.
pub fn has_prefix(s: &Vec<char>, p: &Vec<char>) -> (r: bool)
    ensures
        r == starts_with(s@, p@),
{
    if s.len() < p.len() {
        return false;
    }
    let mut i: usize = 0;
    while i < p.len()
        invariant
            i <= p.len() <= s.len(),
            forall|j: int| 0 <= j < i ==> s@[j] == p@[j],
        decreases p.len() - i,
    {
        if s[i] != p[i] {
            assert(s@.take(p.len() as int)[i as int] != p@[i as int]);
            return false;
        }
        i = i + 1;
    }
    assert(s@.take(p.len() as int) =~= p@);
    true
}

// ---------------------------------------------------------------------------
// Upper case
// ---------------------------------------------------------------------------

/// What `str::to_uppercase` makes of a text (Unicode upper-case mapping, which
/// may change the length of the text).
pub uninterp spec fn uppercase(s: Seq<char>) -> Seq<char>;

/// Every character of `s` is ASCII.
pub open spec fn all_ascii(s: Seq<char>) -> bool {
    forall|i: int| 0 <= i < s.len() ==> (#[trigger] s[i] as u32) < 128
}

/// ASCII upper case: `a`..`z` become `A`..`Z`, every other character stays.
pub open spec fn ascii_upper(s: Seq<char>) -> Seq<char> {
    s.map_values(|c: char| if 'a' <= c && c <= 'z' { ((c as u32) - 32) as char } else { c })
}

/// Calls `str::to_uppercase` on the text of `s`.
///
/// Trusted: the result is the named upper-case mapping of `s`, and on an
/// all-ASCII text that mapping turns `a`..`z` into `A`..`Z` and keeps every
/// other character. Nothing is stated of the mapping of other characters.
#[verifier::external_body]
pub(crate) fn to_uppercase(s: &Vec<char>) -> (r: Vec<char>)
    ensures
        r@ == uppercase(s@),
        all_ascii(s@) ==> r@ == ascii_upper(s@),
{
    let text: String = s.iter().collect();
    text.to_uppercase().chars().collect()
}

/// Upper case as the parser sees it: ASCII upper case on an all-ASCII text,
/// and the Unicode mapping of `str::to_uppercase` on any other text (the two
/// agree on ASCII text).
pub open spec fn upper_text(s: Seq<char>) -> Seq<char> {
    if all_ascii(s) {
        ascii_upper(s)
    } else {
        uppercase(s)
    }
}

/// The upper-case text of `s` (`str::to_uppercase`).
pub fn upper_chars(s: &Vec<char>) -> (r: Vec<char>)
    ensures
        r@ == upper_text(s@),
{
    to_uppercase(s)
}

// ---------------------------------------------------------------------------
// Lower case and file names
// ---------------------------------------------------------------------------

/// What `str::to_lowercase` makes of a text (Unicode lower-case mapping).
pub uninterp spec fn lowercase(s: Seq<char>) -> Seq<char>;

/// ASCII lower case: `A`..`Z` become `a`..`z`, every other character stays.
pub open spec fn ascii_lower(s: Seq<char>) -> Seq<char> {
    s.map_values(|c: char| if 'A' <= c && c <= 'Z' { ((c as u32) + 32) as char } else { c })
}

/// Lower case: ASCII lower case on an all-ASCII text, the Unicode mapping of
/// `str::to_lowercase` on any other text.
pub open spec fn lower_text(s: Seq<char>) -> Seq<char> {
    if all_ascii(s) {
        ascii_lower(s)
    } else {
        lowercase(s)
    }
}

/// Calls `str::to_lowercase` on `s`.
///
/// Trusted: the result is the named lower-case mapping of `s`, and on an
/// all-ASCII text that mapping turns `A`..`Z` into `a`..`z` and keeps every
/// other character. Nothing is stated of the mapping of other characters.
#[verifier::external_body]
pub(crate) fn to_lowercase(s: &str) -> (r: Vec<char>)
    ensures
        r@ == lowercase(s@),
        all_ascii(s@) ==> r@ == ascii_lower(s@),
{
    s.to_lowercase().chars().collect()
}

pub open spec fn ends_with(s: Seq<char>, suffix: Seq<char>) -> bool {
    s.len() >= suffix.len() && s.skip(s.len() - suffix.len()) == suffix
}

/// The suffix `.png`.
pub open spec fn png_suffix() -> Seq<char> {
    seq!['.', 'p', 'n', 'g']
}

/// Whether a path names a PNG image: its lower-case text ends in `.png`.
pub fn is_png_path(path: &str) -> (r: bool)
    ensures
        r == ends_with(lower_text(path@), png_suffix()),
{
    let lower = to_lowercase(path);
    proof {
        if all_ascii(path@) {
            assert(lower@ == lower_text(path@));
        }
    }
    let n = lower.len();
    if n < 4 {
        return false;
    }
    let r = lower[n - 4] == '.' && lower[n - 3] == 'p' && lower[n - 2] == 'n' && lower[n - 1] == 'g';
    assert(r == (lower@.skip(n - 4) =~= png_suffix()));
    r
}

// ---------------------------------------------------------------------------
// UTF-8 lengths
// ---------------------------------------------------------------------------

/// The number of bytes of `c` in UTF-8 (`char::len_utf8`).
pub open spec fn utf8_len(c: char) -> nat {
    let u = c as u32;
    if u < 0x80 {
        1
    } else if u < 0x800 {
        2
    } else if u < 0x10000 {
        3
    } else {
        4
    }
}

/// The number of bytes of `s` in UTF-8 (`str::len`).
pub open spec fn byte_len(s: Seq<char>) -> nat
    decreases s.len(),
{
    if s.len() == 0 {
        0
    } else {
        byte_len(s.drop_last()) + utf8_len(s.last())
    }
}

/// `s` has a character boundary at byte `b`: some prefix of `s` is `b` bytes long.
pub open spec fn has_boundary(s: Seq<char>, b: nat) -> bool {
    exists|k: int| 0 <= k <= s.len() && byte_len(#[trigger] s.take(k)) == b
}

/// The number of characters before byte `b` of `s`, where `b` is a boundary.
pub open spec fn char_index_of_byte(s: Seq<char>, b: nat) -> int {
    choose|k: int| 0 <= k <= s.len() && byte_len(#[trigger] s.take(k)) == b
}

/// Longer prefixes have more bytes.
pub proof fn lemma_byte_len_increasing(s: Seq<char>, i: int, j: int)
    requires
        0 <= i < j <= s.len(),
    ensures
        byte_len(s.take(i)) < byte_len(s.take(j)),
    decreases j - i,
{
    assert(s.take(j).drop_last() =~= s.take(j - 1));
    if i < j - 1 {
        lemma_byte_len_increasing(s, i, j - 1);
    }
}

/// The characters of `s` before byte `b`, where `b` is a boundary of `s`.
pub fn char_index_at_byte(s: &Vec<char>, b: usize) -> (k: usize)
    requires
        has_boundary(s@, b as nat),
    ensures
        k == char_index_of_byte(s@, b as nat),
        k <= s.len(),
        byte_len(s@.take(k as int)) == b,
{
    let ghost target = char_index_of_byte(s@, b as nat);
    proof {
        assert(0 <= target <= s@.len() && byte_len(s@.take(target)) == b);
        assert(s@.take(0) =~= Seq::<char>::empty());
    }
    let mut k: usize = 0;
    let mut bytes: usize = 0;
    while bytes < b
        invariant
            0 <= k <= target <= s@.len(),
            s@.len() == s.len(),
            0 <= target,
            byte_len(s@.take(target)) == b,
            bytes == byte_len(s@.take(k as int)),
        decreases target - k,
    {
        proof {
            if k == target {
                assert(bytes == b);
            }
            assert(k < target);
            assert(s@.take(k + 1).drop_last() =~= s@.take(k as int));
            if k + 1 < target {
                lemma_byte_len_increasing(s@, k + 1, target);
            }
        }
        let c = s[k];
        let u = c as u32;
        let len: usize = if u < 0x80 {
            1
        } else if u < 0x800 {
            2
        } else if u < 0x10000 {
            3
        } else {
            4
        };
        bytes = bytes + len;
        k = k + 1;
    }
    proof {
        if k < target {
            lemma_byte_len_increasing(s@, k as int, target);
        }
    }
    k
}

} // verus!
