//! Fixed-point decimal quantities.
//!
//! Money is held as a whole number of cents (scale 2); a percentage target is
//! held as a whole number of basis points, hundredths of a percent (scale 2).
//! Input text is parsed by `rust_decimal` into a mantissa and a scale, and a
//! verified rescaling turns that pair into units, rejecting anything that the
//! fixed scale cannot hold exactly.

use vstd::prelude::*;

verus! {

/// Largest amount, in cents, that one asset class may hold.
pub const MAX_AMOUNT_UNITS: i64 = 100_000_000_000_000;

/// One hundred percent, in basis points.
pub const MAX_TARGET_BP: i64 = 10_000;

/// Why a numeric entry was rejected.
#[derive(Debug, Clone, Copy, PartialEq, Eq, Structural)]
pub enum ParseError {
    /// The text is not a decimal number.
    NotANumber,
    /// The number has more fractional digits than the fixed scale holds.
    TooPrecise,
    /// The number is negative or above the allowed maximum.
    OutOfRange,
}

pub open spec fn pow10(n: nat) -> int
    decreases n,
{
    if n == 0 {
        1
    } else {
        10 * pow10((n - 1) as nat)
    }
}

pub proof fn lemma_pow10_positive(n: nat)
    ensures
        pow10(n) >= 1,
    decreases n,
{
    if n > 0 {
        lemma_pow10_positive((n - 1) as nat);
    }
}

/// What `rust_decimal` parses a string as: mantissa and scale, with the value
/// being mantissa / 10^scale; `None` when the text is not a number.
pub uninterp spec fn spec_parse_decimal(s: Seq<char>) -> Option<(i128, u32)>;

/// Relies on rust_decimal's `Decimal::from_str`, `Decimal::mantissa` and
/// `Decimal::scale`: parsing depends on the characters alone, the mantissa
/// fits in 96 bits, and the scale is at most 28.
#[verifier::external_body]
fn parse_decimal_parts(s: &str) -> (r: Option<(i128, u32)>)
    ensures
        r == spec_parse_decimal(s@),
        r matches Some(p) ==> -0x1000000000000000000000000i128 < p.0
            < 0x1000000000000000000000000i128 && p.1 <= 28,
{
    match <rust_decimal::Decimal as core::str::FromStr>::from_str(s) {
        Ok(d) => Some((d.mantissa(), d.scale())),
        Err(_) => None,
    }
}

/// The scale-2 units that `m / 10^sc` denotes, when that is a whole number of
/// units; `None` when the value needs a finer scale.
pub open spec fn exact_units(m: int, sc: nat) -> Option<int> {
    if (m * 100) % pow10(sc) == 0 {
        Some((m * 100) / pow10(sc))
    } else {
        None
    }
}

/// What parsing a bounded nonnegative fixed-point entry must return: the
/// units when the text denotes a whole number of scale-2 units in
/// `[0, max]`, and otherwise the error that names the first failing check.
pub open spec fn spec_parse_units(s: Seq<char>, max: int) -> Result<int, ParseError> {
    match spec_parse_decimal(s) {
        Option::None => Result::Err(ParseError::NotANumber),
        Option::Some(p) => {
            if p.0 < 0 {
                Result::Err(ParseError::OutOfRange)
            } else {
                match exact_units(p.0 as int, p.1 as nat) {
                    Option::None => Result::Err(ParseError::TooPrecise),
                    Option::Some(u) => {
                        if u > max {
                            Result::Err(ParseError::OutOfRange)
                        } else {
                            Result::Ok(u)
                        }
                    },
                }
            }
        },
    }
}

pub proof fn lemma_pow10_increases(a: nat, b: nat)
    requires
        a <= b,
    ensures
        pow10(a) <= pow10(b),
    decreases b,
{
    lemma_pow10_positive(a);
    if a < b {
        lemma_pow10_increases(a, (b - 1) as nat);
        lemma_pow10_positive((b - 1) as nat);
    }
}

proof fn lemma_pow10_28_value()
    ensures
        pow10(28) == 10_000_000_000_000_000_000_000_000_000int,
{
    reveal_with_fuel(pow10, 29);
}

fn pow10_i128(n: u32) -> (r: i128)
    requires
        n <= 28,
    ensures
        r == pow10(n as nat),
        r >= 1,
    decreases n,
{
    proof {
        lemma_pow10_positive(n as nat);
        lemma_pow10_increases(n as nat, 28);
        lemma_pow10_28_value();
    }
    if n == 0 {
        1
    } else {
        10 * pow10_i128(n - 1)
    }
}

fn units_from_parts(m: i128, sc: u32, max: i64) -> (r: Result<i64, ParseError>)
    requires
        -0x1000000000000000000000000i128 < m < 0x1000000000000000000000000i128,
        sc <= 28,
        0 <= max,
    ensures
        (r matches Ok(u) ==> {
            &&& m >= 0
            &&& exact_units(m as int, sc as nat) == Option::Some(u as int)
            &&& 0 <= u <= max
        }),
        (r matches Err(e) ==> e == ParseError::OutOfRange || e == ParseError::TooPrecise),
        (m < 0 ==> r == Result::<i64, ParseError>::Err(ParseError::OutOfRange)),
        (m >= 0 ==> (match exact_units(m as int, sc as nat) {
            Option::None => r == Result::<i64, ParseError>::Err(ParseError::TooPrecise),
            Option::Some(u) => (if u > max {
                r == Result::<i64, ParseError>::Err(ParseError::OutOfRange)
            } else {
                r == Result::<i64, ParseError>::Ok(u as i64)
            }),
        })),
{
    if m < 0 {
        return Err(ParseError::OutOfRange);
    }
    let scaled: i128 = m * 100;
    let divisor: i128 = pow10_i128(sc);
    if scaled % divisor != 0 {
        return Err(ParseError::TooPrecise);
    }
    let units: i128 = scaled / divisor;
    proof {
        lemma_pow10_positive(sc as nat);
        vstd::arithmetic::div_mod::lemma_div_is_ordered_by_denominator(scaled as int, 1, divisor as int);
        vstd::arithmetic::div_mod::lemma_div_pos_is_pos(scaled as int, divisor as int);
    }
    if units > max as i128 {
        return Err(ParseError::OutOfRange);
    }
    Ok(units as i64)
}

/// Parse a dollar amount: a nonnegative decimal number with at most two
/// fractional digits, no greater than `MAX_AMOUNT_UNITS` cents.
pub fn parse_money(s: &str) -> (r: Result<i64, ParseError>)
    ensures
        (r matches Ok(u) ==> 0 <= u <= MAX_AMOUNT_UNITS && spec_parse_units(
            s@,
            MAX_AMOUNT_UNITS as int,
        ) == Result::<int, ParseError>::Ok(u as int)),
        (r matches Err(e) ==> spec_parse_units(s@, MAX_AMOUNT_UNITS as int) == Result::<
            int,
            ParseError,
        >::Err(e)),
{
    match parse_decimal_parts(s) {
        None => Err(ParseError::NotANumber),
        Some((m, sc)) => units_from_parts(m, sc, MAX_AMOUNT_UNITS),
    }
}

/// Parse a percentage target: a nonnegative decimal number of percent with at
/// most two fractional digits, no greater than 100.
pub fn parse_percent(s: &str) -> (r: Result<i64, ParseError>)
    ensures
        (r matches Ok(u) ==> 0 <= u <= MAX_TARGET_BP && spec_parse_units(
            s@,
            MAX_TARGET_BP as int,
        ) == Result::<int, ParseError>::Ok(u as int)),
        (r matches Err(e) ==> spec_parse_units(s@, MAX_TARGET_BP as int) == Result::<
            int,
            ParseError,
        >::Err(e)),
{
    match parse_decimal_parts(s) {
        None => Err(ParseError::NotANumber),
        Some((m, sc)) => units_from_parts(m, sc, MAX_TARGET_BP),
    }
}

pub open spec fn digit_char(d: nat) -> char {
    if d == 0 {
        '0'
    } else if d == 1 {
        '1'
    } else if d == 2 {
        '2'
    } else if d == 3 {
        '3'
    } else if d == 4 {
        '4'
    } else if d == 5 {
        '5'
    } else if d == 6 {
        '6'
    } else if d == 7 {
        '7'
    } else if d == 8 {
        '8'
    } else {
        '9'
    }
}

/// The decimal digits of `n`, most significant first, with no leading zero
/// except for `n == 0` itself.
pub open spec fn spec_digits(n: nat) -> Seq<char>
    decreases n,
{
    if n < 10 {
        seq![digit_char(n)]
    } else {
        spec_digits(n / 10).push(digit_char(n % 10))
    }
}

/// A scale-2 quantity rendered with a decimal point and exactly two
/// fractional digits, as in `1234` -> `12.34`.
pub open spec fn spec_fixed2(units: nat) -> Seq<char> {
    spec_digits(units / 100) + seq!['.', digit_char((units / 10) % 10), digit_char(units % 10)]
}

fn digit_str(d: u128) -> (r: &'static str)
    requires
        d < 10,
    ensures
        r@ == seq![digit_char(d as nat)],
{
    proof {
        reveal_strlit("0");
        reveal_strlit("1");
        reveal_strlit("2");
        reveal_strlit("3");
        reveal_strlit("4");
        reveal_strlit("5");
        reveal_strlit("6");
        reveal_strlit("7");
        reveal_strlit("8");
        reveal_strlit("9");
    }
    let r: &'static str = match d {
        0 => "0",
        1 => "1",
        2 => "2",
        3 => "3",
        4 => "4",
        5 => "5",
        6 => "6",
        7 => "7",
        8 => "8",
        _ => "9",
    };
    proof {
        assert(r@ =~= seq![digit_char(d as nat)]);
    }
    r
}

/// Render a nonnegative whole number in decimal.
pub fn format_digits(n: u128) -> (r: String)
    ensures
        r@ == spec_digits(n as nat),
    decreases n,
{
    if n < 10 {
        let r: String = digit_str(n).to_owned();
        proof {
            assert(r@ =~= spec_digits(n as nat));
        }
        r
    } else {
        let mut s: String = format_digits(n / 10);
        s.append(digit_str(n % 10));
        proof {
            assert(s@ =~= spec_digits(n as nat));
        }
        s
    }
}

/// Render a scale-2 quantity with exactly two fractional digits.
pub fn format_fixed2(units: i128) -> (r: String)
    requires
        0 <= units,
    ensures
        r@ == spec_fixed2(units as nat),
{
    let mut s: String = format_digits((units / 100) as u128);
    proof {
        reveal_strlit(".");
    }
    s.append(".");
    s.append(digit_str(((units / 10) % 10) as u128));
    s.append(digit_str((units % 10) as u128));
    proof {
        assert(s@ =~= spec_fixed2(units as nat));
    }
    s
}

} // verus!
