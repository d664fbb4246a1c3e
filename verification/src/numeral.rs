//! Verified decimal-numeral logic shared by every width.
//!
//! Values cross the decimal boundary as plain decimal strings: an optional
//! minus sign, one or more integer digits, and optionally a dot followed by
//! one or more fraction digits. This module renders an unsigned integer to
//! its canonical digit string, parses digit strings back, and classifies an
//! arbitrary plain decimal string against a width's upper bound.

use crate::ParseIntError;
use vstd::prelude::*;
use vstd::string::*;

verus! {

/// An ASCII decimal digit.
pub open spec fn is_digit(c: char) -> bool {
    '0' <= c && c <= '9'
}

/// Numeric value of one digit character.
pub open spec fn digit_val(c: char) -> nat {
    (c as int - '0' as int) as nat
}

/// The digit character for `d < 10`.
pub open spec fn digit_char(d: nat) -> char {
    if d == 0 {
        '0'
    } else if d == 1 {
        '1'
    } else if d == 2 {
        '2'
    } else if d == 3 {
        '3'
    } else if d == 4 {
        '4'
    } else if d == 5 {
        '5'
    } else if d == 6 {
        '6'
    } else if d == 7 {
        '7'
    } else if d == 8 {
        '8'
    } else {
        '9'
    }
}

/// Every character of `s` is a decimal digit.
pub open spec fn all_digits(s: Seq<char>) -> bool {
    forall|i: int| 0 <= i < s.len() ==> is_digit(#[trigger] s[i])
}

/// Value of a digit string read in base 10, most significant digit first.
pub open spec fn digits_val(s: Seq<char>) -> nat
    decreases s.len(),
{
    if s.len() == 0 {
        0
    } else {
        digits_val(s.drop_last()) * 10 + digit_val(s.last())
    }
}

/// Canonical base-10 rendering of `n`: no sign, no leading zeros beyond the
/// single digit of zero itself.
pub open spec fn chars_of(n: nat) -> Seq<char>
    decreases n,
{
    if n < 10 {
        seq![digit_char(n)]
    } else {
        chars_of(n / 10).push(digit_char(n % 10))
    }
}

/// The canonical rendering reads back to the value it was made from, and
/// carries no leading zero beyond the single digit of zero itself.
pub proof fn lemma_chars_of_val(n: nat)
    ensures
        chars_of(n).len() >= 1,
        all_digits(chars_of(n)),
        digits_val(chars_of(n)) == n,
        n >= 1 ==> chars_of(n)[0] != '0',
    decreases n,
{
    if n < 10 {
        let s = chars_of(n);
        assert(s == seq![digit_char(n)]);
        assert(s.len() == 1);
        assert(s.last() == digit_char(n));
        assert(s.drop_last() =~= Seq::<char>::empty());
        assert(digits_val(Seq::<char>::empty()) == 0);
        assert(digits_val(s) == digits_val(s.drop_last()) * 10 + digit_val(s.last()));
    } else {
        lemma_chars_of_val(n / 10);
        let p = chars_of(n / 10);
        let s = chars_of(n);
        assert(s == p.push(digit_char(n % 10)));
        assert(s.drop_last() =~= p);
        assert(s.last() == digit_char(n % 10));
        assert(digits_val(s) == (n / 10) * 10 + n % 10);
        assert((n / 10) * 10 + n % 10 == n) by (nonlinear_arith);
        assert(forall|i: int|
            0 <= i < s.len() ==> is_digit(#[trigger] s[i]) == if i < p.len() {
                is_digit(p[i])
            } else {
                is_digit(digit_char(n % 10))
            });
    }
}

/// Index of the first dot in `s`, if any.
pub open spec fn dot_pos(s: Seq<char>) -> Option<int>
    decreases s.len(),
{
    if s.len() == 0 {
        None
    } else if s[0] == '.' {
        Some(0)
    } else {
        match dot_pos(s.drop_first()) {
            Some(p) => Some(p + 1),
            None => None,
        }
    }
}

/// Whether `s` starts with a minus sign.
pub open spec fn has_minus(s: Seq<char>) -> bool {
    s.len() > 0 && s[0] == '-'
}

/// `s` with a leading minus sign removed.
pub open spec fn strip_minus(s: Seq<char>) -> Seq<char> {
    if has_minus(s) {
        s.drop_first()
    } else {
        s
    }
}

/// The integer digits of an unsigned decimal body.
pub open spec fn int_part(body: Seq<char>) -> Seq<char> {
    match dot_pos(body) {
        Some(p) => body.take(p),
        None => body,
    }
}

/// The fraction digits of an unsigned decimal body, empty when there is no dot.
pub open spec fn frac_part(body: Seq<char>) -> Seq<char> {
    match dot_pos(body) {
        Some(p) => body.skip(p + 1),
        None => Seq::empty(),
    }
}

/// An unsigned decimal body in plain positional notation: one or more integer
/// digits, optionally followed by a dot and one or more fraction digits.
pub open spec fn well_shaped_body(body: Seq<char>) -> bool {
    match dot_pos(body) {
        None => body.len() >= 1 && all_digits(body),
        Some(p) => 1 <= p && p + 1 < body.len() && all_digits(body.take(p)) && all_digits(
            body.skip(p + 1),
        ),
    }
}

/// A plain decimal string: an optional minus sign followed by a well-shaped
/// unsigned body.
pub open spec fn shaped_plain_dec(s: Seq<char>) -> bool {
    well_shaped_body(strip_minus(s))
}

/// Every fraction digit is zero, so the string denotes an integer.
pub open spec fn all_zero(s: Seq<char>) -> bool {
    forall|i: int| 0 <= i < s.len() ==> #[trigger] s[i] == '0'
}

/// Outcome of holding a plain decimal string against a width's upper bound.
#[derive(Debug, Clone, Copy, PartialEq, Eq, Structural)]
pub enum Classified {
    /// The string denotes a value with a nonzero fractional component.
    Fractional,
    /// The string is not a plain decimal numeral, or denotes a value
    /// outside `[0, max]`.
    Invalid,
    /// The string denotes exactly this integer value, which is in range.
    Value(u128),
}

/// Classification of an arbitrary string against an upper bound: the value it
/// denotes must be integral and lie in `[0, max]`.
pub open spec fn classify_spec(s: Seq<char>, max: u128) -> Classified {
    let body = strip_minus(s);
    if !well_shaped_body(body) {
        Classified::Invalid
    } else if !all_zero(frac_part(body)) {
        Classified::Fractional
    } else if has_minus(s) && digits_val(int_part(body)) > 0 {
        Classified::Invalid
    } else if digits_val(int_part(body)) > max {
        Classified::Invalid
    } else {
        Classified::Value(digits_val(int_part(body)) as u128)
    }
}

/// One-character string slice for a digit value.
fn digit_str(d: u128) -> (r: &'static str)
    requires
        d < 10,
    ensures
        r@ =~= seq![digit_char(d as nat)],
{
    proof {
        reveal_strlit("0");
        reveal_strlit("1");
        reveal_strlit("2");
        reveal_strlit("3");
        reveal_strlit("4");
        reveal_strlit("5");
        reveal_strlit("6");
        reveal_strlit("7");
        reveal_strlit("8");
        reveal_strlit("9");
    }
    if d == 0 {
        "0"
    } else if d == 1 {
        "1"
    } else if d == 2 {
        "2"
    } else if d == 3 {
        "3"
    } else if d == 4 {
        "4"
    } else if d == 5 {
        "5"
    } else if d == 6 {
        "6"
    } else if d == 7 {
        "7"
    } else if d == 8 {
        "8"
    } else {
        "9"
    }
}

/// Render `n` as its canonical base-10 digit string.
pub fn render_u128(n: u128) -> (r: String)
    ensures
        r@ == chars_of(n as nat),
    decreases n,
{
    if n < 10 {
        String::from_str(digit_str(n))
    } else {
        let mut s = render_u128(n / 10);
        s.append(digit_str(n % 10));
        proof {
            assert(s@ =~= chars_of((n / 10) as nat).push(digit_char((n % 10) as nat)));
        }
        s
    }
}

/// Reading more digits can only grow the value.
proof fn lemma_digits_val_take_le(s: Seq<char>, i: int, j: int)
    requires
        0 <= i <= j <= s.len(),
    ensures
        digits_val(s.take(i)) <= digits_val(s.take(j)),
    decreases j - i,
{
    if i < j {
        lemma_digits_val_take_le(s, i, j - 1);
        let t = s.take(j);
        assert(t.drop_last() =~= s.take(j - 1));
        assert(digits_val(t) == digits_val(s.take(j - 1)) * 10 + digit_val(t.last()));
        assert(digits_val(s.take(j - 1)) * 10 >= digits_val(s.take(j - 1)));
    }
}

/// If no character of `s` is a dot, `dot_pos` finds none.
proof fn lemma_dot_pos_none(s: Seq<char>)
    requires
        forall|i: int| 0 <= i < s.len() ==> s[i] != '.',
    ensures
        dot_pos(s) is None,
    decreases s.len(),
{
    if s.len() > 0 {
        assert forall|i: int| 0 <= i < s.drop_first().len() implies s.drop_first()[i] != '.' by {
            assert(s.drop_first()[i] == s[i + 1]);
        }
        lemma_dot_pos_none(s.drop_first());
    }
}

/// `dot_pos` finds exactly the first dot.
proof fn lemma_dot_pos_some(s: Seq<char>, p: int)
    requires
        0 <= p < s.len(),
        s[p] == '.',
        forall|i: int| 0 <= i < p ==> s[i] != '.',
    ensures
        dot_pos(s) == Some(p),
    decreases s.len(),
{
    if p == 0 {
    } else {
        assert(s[0] != '.');
        let t = s.drop_first();
        assert(t[p - 1] == s[p]);
        assert forall|i: int| 0 <= i < p - 1 implies t[i] != '.' by {
            assert(t[i] == s[i + 1]);
        }
        lemma_dot_pos_some(t, p - 1);
    }
}

/// Decide whether every character in `s[from..to]` is a decimal digit.
fn scan_digits(s: &str, from: usize, to: usize) -> (b: bool)
    requires
        from <= to <= s@.len(),
    ensures
        b == all_digits(s@.subrange(from as int, to as int)),
{
    let ghost t = s@.subrange(from as int, to as int);
    let mut i: usize = from;
    while i < to
        invariant
            from <= i <= to <= s@.len(),
            t == s@.subrange(from as int, to as int),
            forall|j: int| from <= j < i ==> is_digit(#[trigger] s@[j]),
        decreases to - i,
    {
        let c = s.get_char(i);
        if !('0' <= c && c <= '9') {
            proof {
                assert(t[i - from] == s@[i as int]);
                assert(!is_digit(t[i - from]));
            }
            return false;
        }
        i += 1;
    }
    proof {
        assert forall|k: int| 0 <= k < t.len() implies is_digit(#[trigger] t[k]) by {
            assert(t[k] == s@[from + k]);
        }
    }
    true
}

/// Decide whether every character in `s[from..to]` is the digit zero.
fn scan_zeros(s: &str, from: usize, to: usize) -> (b: bool)
    requires
        from <= to <= s@.len(),
    ensures
        b == all_zero(s@.subrange(from as int, to as int)),
{
    let ghost t = s@.subrange(from as int, to as int);
    let mut i: usize = from;
    while i < to
        invariant
            from <= i <= to <= s@.len(),
            t == s@.subrange(from as int, to as int),
            forall|j: int| from <= j < i ==> #[trigger] s@[j] == '0',
        decreases to - i,
    {
        let c = s.get_char(i);
        if c != '0' {
            proof {
                assert(t[i - from] == s@[i as int]);
            }
            return false;
        }
        i += 1;
    }
    proof {
        assert forall|k: int| 0 <= k < t.len() implies #[trigger] t[k] == '0' by {
            assert(t[k] == s@[from + k]);
        }
    }
    true
}

/// Find the first dot at or after `start`, as `dot_pos` of the suffix sees it.
fn find_dot(s: &str, start: usize) -> (r: Option<usize>)
    requires
        start <= s@.len(),
    ensures
        ({
            let body = s@.skip(start as int);
            match r {
                Some(p) => start <= p < s@.len() && dot_pos(body) == Some(p - start as int),
                None => dot_pos(body) is None,
            }
        }),
{
    let ghost body = s@.skip(start as int);
    let len = s.unicode_len();
    let mut i: usize = start;
    while i < len
        invariant
            start <= i <= len == s@.len(),
            body == s@.skip(start as int),
            forall|j: int| start <= j < i ==> s@[j] != '.',
        decreases len - i,
    {
        let c = s.get_char(i);
        if c == '.' {
            proof {
                assert(body[i - start] == s@[i as int]);
                assert forall|k: int| 0 <= k < i - start implies body[k] != '.' by {
                    assert(body[k] == s@[start + k]);
                }
                lemma_dot_pos_some(body, i - start);
            }
            return Some(i);
        }
        i += 1;
    }
    proof {
        assert forall|k: int| 0 <= k < body.len() implies body[k] != '.' by {
            assert(body[k] == s@[start + k]);
        }
        lemma_dot_pos_none(body);
    }
    None
}

/// Base-10 value of the digits in `s[from..to]`, or `None` when it exceeds
/// the `u128` range.
fn digits_chunk_val(s: &str, from: usize, to: usize) -> (r: Option<u128>)
    requires
        from <= to <= s@.len(),
        all_digits(s@.subrange(from as int, to as int)),
    ensures
        ({
            let t = s@.subrange(from as int, to as int);
            match r {
                Some(v) => v as nat == digits_val(t),
                None => digits_val(t) > u128::MAX,
            }
        }),
{
    let ghost t = s@.subrange(from as int, to as int);
    let mut acc: u128 = 0;
    let mut i: usize = from;
    while i < to
        invariant
            from <= i <= to <= s@.len(),
            t == s@.subrange(from as int, to as int),
            all_digits(t),
            acc as nat == digits_val(t.take(i - from)),
        decreases to - i,
    {
        let c = s.get_char(i);
        proof {
            assert(t[i - from] == s@[i as int]);
            assert(is_digit(t[i - from]));
        }
        let d: u128 = (c as u32 - 48) as u128;
        let ghost stepped = t.take(i + 1 - from);
        proof {
            assert(stepped.drop_last() =~= t.take(i - from));
            assert(stepped.last() == t[i - from]);
            assert(digit_val(c) == d as nat);
            assert(digits_val(stepped) == digits_val(t.take(i - from)) * 10 + d as nat);
        }
        let grown = match acc.checked_mul(10) {
            Some(m) => m.checked_add(d),
            None => None,
        };
        match grown {
            Some(v) => {
                acc = v;
            },
            None => {
                proof {
                    assert(digits_val(stepped) > u128::MAX);
                    lemma_digits_val_take_le(t, i + 1 - from, t.len() as int);
                    assert(t.take(t.len() as int) =~= t);
                }
                return None;
            },
        }
        i += 1;
    }
    proof {
        assert(t.take(t.len() as int) =~= t);
    }
    Some(acc)
}

/// Hold a string against `max`: exactly `classify_spec` of its characters.
pub fn classify_dec_str(s: &str, max: u128) -> (r: Classified)
    ensures
        r == classify_spec(s@, max),
{
    let len = s.unicode_len();
    let neg = if len > 0 {
        s.get_char(0) == '-'
    } else {
        false
    };
    let start: usize = if neg {
        1
    } else {
        0
    };
    let ghost body = strip_minus(s@);
    proof {
        assert(neg == has_minus(s@));
        assert(body =~= s@.skip(start as int));
    }
    let dot = find_dot(s, start);
    let int_end = match dot {
        Some(p) => p,
        None => len,
    };
    proof {
        match dot {
            Some(p) => {
                assert(dot_pos(body) == Some(p - start as int));
                assert(int_part(body) =~= s@.subrange(start as int, int_end as int));
                assert(frac_part(body) =~= s@.subrange(int_end + 1, len as int));
            },
            None => {
                assert(dot_pos(body) is None);
                assert(int_part(body) =~= s@.subrange(start as int, int_end as int));
                assert(frac_part(body) =~= Seq::<char>::empty());
            },
        }
    }
    if int_end == start {
        // the integer part is empty: not a plain decimal numeral
        assert(!well_shaped_body(body));
        return Classified::Invalid;
    }
    if !scan_digits(s, start, int_end) {
        assert(!well_shaped_body(body));
        return Classified::Invalid;
    }
    match dot {
        Some(p) => {
            if p + 1 >= len {
                // the dot has no fraction digits after it
                assert(!well_shaped_body(body));
                return Classified::Invalid;
            }
            if !scan_digits(s, p + 1, len) {
                assert(!well_shaped_body(body));
                return Classified::Invalid;
            }
            assert(well_shaped_body(body));
            if !scan_zeros(s, p + 1, len) {
                return Classified::Fractional;
            }
        },
        None => {
            assert(well_shaped_body(body));
        },
    }
    assert(all_zero(frac_part(body)));
    match digits_chunk_val(s, start, int_end) {
        None => {
            // the integer part alone exceeds even the u128 range
            assert(digits_val(int_part(body)) > max);
            Classified::Invalid
        },
        Some(v) => {
            if neg && v > 0 {
                Classified::Invalid
            } else if v > max {
                Classified::Invalid
            } else {
                Classified::Value(v)
            }
        },
    }
}

/// What parsing a string as an unsigned integer bounded by `max` yields:
/// an optional plus sign, then one or more digits denoting a value in range.
pub open spec fn parse_uint_spec(s: Seq<char>, max: u128) -> Result<u128, ParseIntError> {
    if s.len() == 0 {
        Err(ParseIntError::Empty)
    } else {
        let body = if s[0] == '+' {
            s.drop_first()
        } else {
            s
        };
        if body.len() == 0 || !all_digits(body) {
            Err(ParseIntError::InvalidDigit)
        } else if digits_val(body) > max {
            Err(ParseIntError::PosOverflow)
        } else {
            Ok(digits_val(body) as u128)
        }
    }
}

/// Parse a string as an unsigned integer bounded by `max`: exactly
/// `parse_uint_spec` of its characters.
pub fn parse_uint_str(s: &str, max: u128) -> (r: Result<u128, ParseIntError>)
    ensures
        r == parse_uint_spec(s@, max),
{
    let len = s.unicode_len();
    if len == 0 {
        return Err(ParseIntError::Empty);
    }
    let start: usize = if s.get_char(0) == '+' {
        1
    } else {
        0
    };
    let ghost body = if s@[0] == '+' {
        s@.drop_first()
    } else {
        s@
    };
    proof {
        assert(body =~= s@.subrange(start as int, len as int));
    }
    if start == len {
        return Err(ParseIntError::InvalidDigit);
    }
    if !scan_digits(s, start, len) {
        return Err(ParseIntError::InvalidDigit);
    }
    match digits_chunk_val(s, start, len) {
        None => Err(ParseIntError::PosOverflow),
        Some(v) => {
            if v > max {
                Err(ParseIntError::PosOverflow)
            } else {
                Ok(v)
            }
        },
    }
}

/// Classifying the canonical rendering of an in-range value recovers exactly
/// that value: the decimal round trip loses nothing.
pub proof fn lemma_classify_chars_of(n: u128, max: u128)
    requires
        n <= max,
    ensures
        classify_spec(chars_of(n as nat), max) == Classified::Value(n),
{
    lemma_chars_of_val(n as nat);
    let s = chars_of(n as nat);
    assert(is_digit(s[0]));
    assert(!has_minus(s));
    assert(strip_minus(s) == s);
    assert forall|i: int| 0 <= i < s.len() implies s[i] != '.' by {
        assert(is_digit(s[i]));
    }
    lemma_dot_pos_none(s);
    assert(well_shaped_body(s));
    assert(frac_part(s) =~= Seq::<char>::empty());
    assert(int_part(s) == s);
}

/// Parsing the canonical rendering of an in-range value recovers exactly
/// that value: the string round trip loses nothing.
pub proof fn lemma_parse_chars_of(n: u128, max: u128)
    requires
        n <= max,
    ensures
        parse_uint_spec(chars_of(n as nat), max) == Ok::<u128, ParseIntError>(n),
{
    lemma_chars_of_val(n as nat);
    let s = chars_of(n as nat);
    assert(is_digit(s[0]));
    assert(s[0] != '+');
}

/// A plain decimal string whose fraction digits are not all zero denotes a
/// non-integral value and is rejected as `Fractional`, whatever the bound.
pub proof fn lemma_classify_rejects_fractional(s: Seq<char>, max: u128)
    requires
        shaped_plain_dec(s),
        !all_zero(frac_part(strip_minus(s))),
    ensures
        classify_spec(s, max) == Classified::Fractional,
{
}

/// A plain decimal string denoting an integral value below zero or above
/// `max` is rejected as `Invalid`.
pub proof fn lemma_classify_rejects_out_of_range(s: Seq<char>, max: u128)
    requires
        shaped_plain_dec(s),
        all_zero(frac_part(strip_minus(s))),
        (has_minus(s) && digits_val(int_part(strip_minus(s))) > 0) || digits_val(
            int_part(strip_minus(s)),
        ) > max,
    ensures
        classify_spec(s, max) == Classified::Invalid,
{
}

/// A plain decimal string denoting an integral value within `[0, max]` is
/// accepted with exactly that value.
pub proof fn lemma_classify_accepts_in_range(s: Seq<char>, max: u128)
    requires
        shaped_plain_dec(s),
        all_zero(frac_part(strip_minus(s))),
        !(has_minus(s) && digits_val(int_part(strip_minus(s))) > 0),
        digits_val(int_part(strip_minus(s))) <= max,
    ensures
        classify_spec(s, max) == Classified::Value(digits_val(int_part(strip_minus(s))) as u128),
{
}

} // verus!