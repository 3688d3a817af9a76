//! Non-negative fixed-point decimals with twelve fractional digits.
//!
//! Prices and sizes arrive as decimal text. They are held as a whole number
//! of units, one unit being `10^-12`, so that comparisons and the threshold
//! rules are exact.

use vstd::prelude::*;
use vstd::string::is_ascii_spec_bytes;
use vstd::utf8::is_ascii_chars;

verus! {

/// Number of units in one.
pub const SCALE: u128 = 1_000_000_000_000;

/// Largest number of units a [`Decimal`] holds: `10^16` as a value.
pub const MAX_UNITS: u128 = 10_000_000_000_000_000_000_000_000_000;

/// Largest whole part, `MAX_UNITS / SCALE`.
pub const MAX_WHOLE: u128 = 10_000_000_000_000_000;

/// Units in `10^-10`, the quantity below which a size or a price change
/// counts as nothing.
pub const EPSILON_UNITS: u128 = 100;

/// Denominator of the ratios that the threshold rules use (parts per million).
pub const RATIO_ONE: u32 = 1_000_000;

/// Most digits accepted behind the decimal point.
pub const FRACTION_DIGITS: usize = 12;

/// Whether `c` is one of `0` to `9`.
pub open spec fn is_digit(c: char) -> bool {
    '0' <= c && c <= '9'
}

/// The number that the digit `c` stands for.
pub open spec fn digit_value(c: char) -> nat {
    (c as u32 - '0' as u32) as nat
}

/// Whether every character of `s` is a digit.
pub open spec fn all_digits(s: Seq<char>) -> bool {
    forall|i: int| 0 <= i < s.len() ==> is_digit(#[trigger] s[i])
}

/// The number that a run of decimal digits writes.
pub open spec fn digits_value(s: Seq<char>) -> nat
    decreases s.len(),
{
    if s.len() == 0 {
        0
    } else {
        digits_value(s.drop_last()) * 10 + digit_value(s.last())
    }
}

/// `10^n`.
pub open spec fn pow10(n: nat) -> nat
    decreases n,
{
    if n == 0 {
        1
    } else {
        10 * pow10((n - 1) as nat)
    }
}

/// Index of the first `.` in `s`, or the length of `s` where it has none.
pub open spec fn point_index(s: Seq<char>) -> int {
    match s.index_of_first('.') {
        Some(i) => i,
        None => s.len() as int,
    }
}

/// What stands before the decimal point.
pub open spec fn whole_part(s: Seq<char>) -> Seq<char> {
    s.subrange(0, point_index(s))
}

/// What stands behind the decimal point; empty where there is no point.
pub open spec fn fraction_part(s: Seq<char>) -> Seq<char> {
    if point_index(s) < s.len() {
        s.subrange(point_index(s) + 1, s.len() as int)
    } else {
        Seq::empty()
    }
}

/// Units that the text `s` denotes, if it is a decimal numeral.
///
/// A numeral is one or more digits, optionally followed by a point and one
/// to twelve digits; its value is at most `10^16`. Signs, exponents and blank
/// space are not part of it.
pub open spec fn decimal_units(s: Seq<char>) -> Option<nat> {
    let whole = whole_part(s);
    let fraction = fraction_part(s);
    let units = digits_value(whole) * SCALE as nat + digits_value(fraction) * pow10(
        (FRACTION_DIGITS - fraction.len()) as nat,
    );
    if whole.len() > 0 && all_digits(whole) && all_digits(fraction) && (point_index(s) < s.len()
        ==> fraction.len() > 0) && fraction.len() <= FRACTION_DIGITS && units <= MAX_UNITS {
        Some(units)
    } else {
        None
    }
}

/// `floor(units * ratio / 10^6)`: a quantity scaled by a ratio given in parts
/// per million.
pub open spec fn scaled_units(units: nat, ratio: nat) -> nat {
    (units * ratio) / (RATIO_ONE as nat)
}

/// Whether two quantities lie more than `10^-10` apart.
pub open spec fn differs(a: nat, b: nat) -> bool {
    a > b + EPSILON_UNITS || b > a + EPSILON_UNITS
}

/// Twelve fractional digits make one.
proof fn lemma_pow10_twelve()
    ensures
        pow10(12) == SCALE,
{
    reveal_with_fuel(pow10, 13);
}

/// The first point of `s` stands at `i` when nothing before `i` is a point and
/// `s` ends at `i` or has a point there.
proof fn lemma_point_index(s: Seq<char>, i: int)
    requires
        0 <= i <= s.len(),
        forall|j: int| 0 <= j < i ==> s[j] != '.',
        i < s.len() ==> s[i] == '.',
    ensures
        point_index(s) == i,
{
    s.index_of_first_ensures('.');
}

/// A character that is neither a digit nor a point spoils the numeral.
proof fn lemma_stray_char(s: Seq<char>, i: int)
    requires
        0 <= i < s.len(),
        !is_digit(s[i]),
        s[i] != '.',
    ensures
        decimal_units(s) is None,
{
    s.index_of_first_ensures('.');
    let p = point_index(s);
    if i < p {
        assert(whole_part(s)[i] == s[i]);
    } else {
        assert(fraction_part(s)[i - p - 1] == s[i]);
    }
}

/// A prefix of a run of digits writes no more than the whole run.
proof fn lemma_digits_prefix(s: Seq<char>, j: int)
    requires
        0 <= j <= s.len(),
    ensures
        digits_value(s.subrange(0, j)) <= digits_value(s),
    decreases s.len(),
{
    if j == s.len() {
        assert(s.subrange(0, j) =~= s);
    } else {
        lemma_digits_prefix(s.drop_last(), j);
        assert(s.drop_last().subrange(0, j) =~= s.subrange(0, j));
    }
}

/// Once the digits before the point write more than `10^16`, the numeral is
/// out of range.
proof fn lemma_whole_too_large(s: Seq<char>, j: int)
    requires
        0 <= j <= s.len(),
        forall|k: int| 0 <= k < j ==> s[k] != '.',
        digits_value(s.subrange(0, j)) > MAX_WHOLE,
    ensures
        decimal_units(s) is None,
{
    s.index_of_first_ensures('.');
    let whole = whole_part(s);
    assert(j <= point_index(s));
    lemma_digits_prefix(whole, j);
    assert(whole.subrange(0, j) =~= s.subrange(0, j));
    assert(digits_value(whole) * SCALE > MAX_UNITS) by (nonlinear_arith)
        requires
            digits_value(whole) > MAX_WHOLE,
            SCALE == 1_000_000_000_000,
            MAX_WHOLE == 10_000_000_000_000_000,
            MAX_UNITS == 10_000_000_000_000_000_000_000_000_000,
    ;
}

/// A text with a character outside ASCII is no numeral.
proof fn lemma_not_ascii(s: Seq<char>)
    requires
        !is_ascii_chars(s),
    ensures
        decimal_units(s) is None,
{
    let i = choose|i: int| 0 <= i < s.len() && !('\0' <= #[trigger] s[i] <= '\u{7f}');
    lemma_stray_char(s, i);
}

/// A non-negative decimal of at most `10^16`, in units of `10^-12`.
#[derive(Clone, Copy, Debug, PartialEq, Eq, Structural)]
pub struct Decimal {
    units: u128,
}

impl View for Decimal {
    type V = nat;

    closed spec fn view(&self) -> nat {
        self.units as nat
    }
}

impl Decimal {
    #[verifier::type_invariant]
    closed spec fn in_range(self) -> bool {
        self.units <= MAX_UNITS
    }

    /// The decimal of `units` units, if that is within range.
    pub fn from_units(units: u128) -> (r: Option<Decimal>)
        ensures
            units <= MAX_UNITS ==> r is Some && r->0@ == units,
            units > MAX_UNITS ==> r is None,
    {
        if units <= MAX_UNITS {
            Some(Decimal { units })
        } else {
            None
        }
    }

    /// Reads a decimal numeral.
    pub fn parse(text: &str) -> (r: Option<Decimal>)
        ensures
            match r {
                Some(d) => decimal_units(text@) == Some(d@),
                None => decimal_units(text@) is None,
            },
    {
        let ghost s = text@;
        if !text.is_ascii() {
            proof {
                lemma_not_ascii(s);
            }
            return None;
        }
        let bytes = text.as_bytes();
        let n: usize = bytes.len();
        proof {
            is_ascii_spec_bytes(text);
            lemma_pow10_twelve();
        }
        let mut i: usize = 0;
        let mut whole: u128 = 0;
        while i < n && bytes[i] != 46u8
            invariant
                s == text@,
                i <= n,
                n == s.len(),
                bytes@.len() == n,
                is_ascii_chars(s),
                forall|j: int| 0 <= j < n ==> bytes@[j] == s[j] as u8,
                forall|j: int| 0 <= j < i ==> is_digit(s[j]),
                whole == digits_value(s.subrange(0, i as int)),
                whole <= MAX_WHOLE,
            decreases n - i,
        {
            let b: u8 = bytes[i];
            if b < 48u8 || b > 57u8 {
                proof {
                    lemma_stray_char(s, i as int);
                }
                return None;
            }
            let next: u128 = whole * 10 + ((b - 48u8) as u128);
            proof {
                assert(s.subrange(0, i + 1).drop_last() =~= s.subrange(0, i as int));
                assert(s.subrange(0, i + 1).last() == s[i as int]);
            }
            if next > MAX_WHOLE {
                proof {
                    lemma_whole_too_large(s, i + 1);
                }
                return None;
            }
            whole = next;
            i += 1;
        }
        proof {
            lemma_point_index(s, i as int);
            assert(whole_part(s) =~= s.subrange(0, i as int));
        }
        if i == 0 {
            return None;
        }
        if i == n {
            proof {
                assert(fraction_part(s) =~= Seq::<char>::empty());
            }
            return Some(Decimal { units: whole * SCALE });
        }
        let start: usize = i + 1;
        if start == n {
            return None;
        }
        let ghost fraction = fraction_part(s);
        assert(fraction =~= s.subrange(start as int, n as int));
        let mut k: usize = start;
        let mut part: u128 = 0;
        let mut weight: u128 = SCALE;
        while k < n
            invariant
                s == text@,
                start <= k <= n,
                n == s.len(),
                bytes@.len() == n,
                is_ascii_chars(s),
                forall|j: int| 0 <= j < n ==> bytes@[j] == s[j] as u8,
                fraction == s.subrange(start as int, n as int),
                fraction == fraction_part(s),
                k - start <= FRACTION_DIGITS,
                forall|j: int| start <= j < k ==> is_digit(s[j]),
                weight == pow10((FRACTION_DIGITS - (k - start)) as nat),
                part == digits_value(s.subrange(start as int, k as int)) * weight,
                part + weight <= SCALE,
            decreases n - k,
        {
            let b: u8 = bytes[k];
            if b < 48u8 || b > 57u8 {
                proof {
                    assert(fraction[k - start] == s[k as int]);
                }
                return None;
            }
            if k - start == FRACTION_DIGITS {
                return None;
            }
            let digit: u128 = (b - 48u8) as u128;
            let ghost before = digits_value(s.subrange(start as int, k as int));
            let lighter: u128 = weight / 10;
            proof {
                assert(weight == 10 * lighter);
                assert(s.subrange(start as int, k + 1).drop_last() =~= s.subrange(
                    start as int,
                    k as int,
                ));
                assert(s.subrange(start as int, k + 1).last() == s[k as int]);
                assert((before * 10 + digit) * lighter == before * weight + digit * lighter
                    && digit * lighter + lighter <= weight) by (nonlinear_arith)
                    requires
                        weight == 10 * lighter,
                        digit <= 9,
                ;
            }
            part = part + digit * lighter;
            weight = lighter;
            k += 1;
        }
        proof {
            assert(forall|j: int| 0 <= j < fraction.len() ==> fraction[j] == s[start + j]);
        }
        let units: u128 = whole * SCALE + part;
        if units > MAX_UNITS {
            return None;
        }
        Some(Decimal { units })
    }

    /// Zero.
    pub fn zero() -> (r: Decimal)
        ensures
            r@ == 0,
    {
        Decimal { units: 0 }
    }

    /// The number of units held.
    pub fn units(&self) -> (r: u128)
        ensures
            r == self@,
            r <= MAX_UNITS,
    {
        proof {
            use_type_invariant(self);
        }
        self.units
    }

    /// Two decimals with the same number of units are the same decimal.
    pub proof fn lemma_view_is_injective(a: Decimal, b: Decimal)
        ensures
            a@ == b@ <==> a == b,
    {
    }

    /// This decimal scaled by `ratio` parts per million, rounded down.
    pub fn scaled(&self, ratio: u32) -> (r: Decimal)
        requires
            ratio <= RATIO_ONE,
        ensures
            r@ == scaled_units(self@, ratio as nat),
    {
        proof {
            use_type_invariant(self);
        }
        let wide: u128 = self.units;
        assert(wide * ratio <= MAX_UNITS * RATIO_ONE) by (nonlinear_arith)
            requires
                wide <= MAX_UNITS,
                ratio <= RATIO_ONE,
        ;
        let product: u128 = wide * (ratio as u128);
        let units: u128 = product / (RATIO_ONE as u128);
        assert(units <= MAX_UNITS) by (nonlinear_arith)
            requires
                units == product / (RATIO_ONE as u128),
                product <= MAX_UNITS * RATIO_ONE,
        ;
        Decimal { units }
    }

    /// Whether this decimal is below `10^-10`.
    pub fn is_negligible(&self) -> (r: bool)
        ensures
            r == (self@ < EPSILON_UNITS),
    {
        self.units < EPSILON_UNITS
    }

    /// Whether this decimal and `other` lie more than `10^-10` apart.
    pub fn differs_from(&self, other: &Decimal) -> (r: bool)
        ensures
            r == differs(self@, other@),
    {
        proof {
            use_type_invariant(self);
            use_type_invariant(other);
        }
        self.units > other.units + EPSILON_UNITS || other.units > self.units + EPSILON_UNITS
    }
}

} // verus!
