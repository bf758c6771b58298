use std::str::FromStr;
use crate::text::{append_digits, append_fixed_digits, decimal_digits, fixed_digits};
use vstd::arithmetic::power::{lemma_pow0, lemma_pow_increases, pow};
use vstd::prelude::*;
use vstd::string::*;

verus! {

/// Largest number of digits a decimal may have behind the point.
pub const MAX_SCALE: u32 = 28;

/// Largest mantissa a decimal may have, 2^96 - 1; the smallest is its negative.
pub const MAX_MANTISSA: i128 = 0xFFFF_FFFF_FFFF_FFFF_FFFF_FFFF;

/// What a decimal holds: the number `mantissa / 10^scale`, written with `scale` digits behind
/// the point.
pub struct DecimalView {
    pub mantissa: int,
    pub scale: nat,
}

impl DecimalView {
    /// Whether a decimal can hold this mantissa and scale.
    pub open spec fn in_range(self) -> bool {
        -MAX_MANTISSA <= self.mantissa <= MAX_MANTISSA && self.scale <= MAX_SCALE
    }

    /// Whether the number is above zero.
    pub open spec fn is_positive(self) -> bool {
        self.mantissa > 0
    }

    /// Whether the two stand for the same number, however many digits each is written with.
    pub open spec fn same_number(self, other: DecimalView) -> bool {
        self.mantissa * pow(10, other.scale) == other.mantissa * pow(10, self.scale)
    }
}

/// A decimal number that keeps the digits it was written with: 1.20 and 1.2 are the same
/// number and print differently.
#[derive(Debug, Clone, Copy, Eq)]
pub struct Decimal {
    mantissa: i128,
    scale: u32,
}

impl View for Decimal {
    type V = DecimalView;

    closed spec fn view(&self) -> DecimalView {
        DecimalView { mantissa: self.mantissa as int, scale: self.scale as nat }
    }
}

/// What `rust_decimal::Decimal::from_str` makes of `text`: the mantissa and the scale of the
/// decimal it returns, or `None` where it returns an error.
pub uninterp spec fn parsed_decimal(text: Seq<char>) -> Option<(i128, u32)>;

/// A decimal as it is printed: a minus sign where it is below zero, the digits before the
/// point, and where the scale is not zero the point and `scale` digits behind it.
pub open spec fn printed_decimal(mantissa: int, scale: nat) -> Seq<char> {
    let size = if mantissa < 0 {
        -mantissa
    } else {
        mantissa
    };
    let sign = if mantissa < 0 {
        seq!['-']
    } else {
        Seq::empty()
    };
    if scale == 0 {
        sign + decimal_digits(size as nat)
    } else {
        sign + decimal_digits((size / pow(10, scale)) as nat) + seq!['.'] + fixed_digits(
            (size % pow(10, scale)) as nat,
            scale,
        )
    }
}

/// Ten to the power of `exponent`.
fn power_of_ten(exponent: u32) -> (power: u128)
    requires
        exponent <= MAX_SCALE,
    ensures
        power == pow(10, exponent as nat),
        power > 0,
{
    let mut power: u128 = 1;
    let mut done: u32 = 0;
    proof {
        lemma_pow0(10);
    }
    while done < exponent
        invariant
            done <= exponent <= MAX_SCALE,
            power == pow(10, done as nat),
            power > 0,
        decreases exponent - done,
    {
        proof {
            lemma_pow_increases(10, (done + 1) as nat, 28);
            assert(pow(10, 28) == 10000000000000000000000000000int) by {
                reveal_with_fuel(pow, 29);
            }
            reveal(pow);
            assert(pow(10, (done + 1) as nat) == 10 * pow(10, done as nat));
        }
        power = power * 10;
        done = done + 1;
    }
    power
}

/// Calls `rust_decimal::Decimal::from_str` and takes the decimal it returns apart with
/// `mantissa` and `scale`. The outcome depends on the text alone and is given the name
/// `parsed_decimal`.
#[verifier::external_body]
fn decimal_from_str(text: &str) -> (parts: Option<(i128, u32)>)
    ensures
        parts == parsed_decimal(text@),
{
    match rust_decimal::Decimal::from_str(text) {
        Ok(number) => Some((number.mantissa(), number.scale())),
        Err(_) => None,
    }
}

/// Builds the two `rust_decimal::Decimal`s with `from_i128_with_scale` and compares them with
/// `==`, which holds of two decimals exactly when they are the same number, whatever their
/// scales.
#[verifier::external_body]
fn decimal_eq(left: i128, left_scale: u32, right: i128, right_scale: u32) -> (same: bool)
    requires
        -MAX_MANTISSA <= left <= MAX_MANTISSA,
        left_scale <= MAX_SCALE,
        -MAX_MANTISSA <= right <= MAX_MANTISSA,
        right_scale <= MAX_SCALE,
    ensures
        same == (left * pow(10, right_scale as nat) == right * pow(10, left_scale as nat)),
{
    rust_decimal::Decimal::from_i128_with_scale(left, left_scale)
        == rust_decimal::Decimal::from_i128_with_scale(right, right_scale)
}

impl Decimal {
    #[verifier::type_invariant]
    spec fn is_in_range(self) -> bool {
        -MAX_MANTISSA <= self.mantissa <= MAX_MANTISSA && self.scale <= MAX_SCALE
    }

    /// The decimal `num / 10^scale`.
    pub fn new(num: i64, scale: u32) -> (number: Decimal)
        requires
            scale <= MAX_SCALE,
        ensures
            number@ == (DecimalView { mantissa: num as int, scale: scale as nat }),
    {
        Decimal { mantissa: num as i128, scale }
    }

    /// The decimal `mantissa / 10^scale`, if a decimal can hold it.
    pub fn from_parts(mantissa: i128, scale: u32) -> (number: Option<Decimal>)
        ensures
            number is Some <==> (DecimalView {
                mantissa: mantissa as int,
                scale: scale as nat,
            }).in_range(),
            number matches Some(d) ==> d@ == (DecimalView {
                mantissa: mantissa as int,
                scale: scale as nat,
            }),
    {
        if mantissa < -MAX_MANTISSA || mantissa > MAX_MANTISSA || scale > MAX_SCALE {
            None
        } else {
            Some(Decimal { mantissa, scale })
        }
    }

    /// The decimal that a parser's answer stands for: none where it found none, and none
    /// where no decimal can hold what it names.
    pub open spec fn of_parts(parts: Option<(i128, u32)>) -> Option<DecimalView> {
        match parts {
            Some((mantissa, scale)) => {
                let view = DecimalView { mantissa: mantissa as int, scale: scale as nat };
                if view.in_range() {
                    Some(view)
                } else {
                    None
                }
            },
            None => None,
        }
    }

    /// The decimal written in `text`.
    pub fn from_str(text: &str) -> (number: Option<Decimal>)
        ensures
            number is Some <==> Decimal::of_parts(parsed_decimal(text@)) is Some,
            number matches Some(d) ==> Some(d@) == Decimal::of_parts(parsed_decimal(text@)),
    {
        match decimal_from_str(text) {
            Some((mantissa, scale)) => Decimal::from_parts(mantissa, scale),
            None => None,
        }
    }

    pub fn mantissa(&self) -> (mantissa: i128)
        ensures
            mantissa == self@.mantissa,
            -MAX_MANTISSA <= mantissa <= MAX_MANTISSA,
    {
        proof {
            use_type_invariant(self);
        }
        self.mantissa
    }

    pub fn scale(&self) -> (scale: u32)
        ensures
            scale == self@.scale,
            scale <= MAX_SCALE,
    {
        proof {
            use_type_invariant(self);
        }
        self.scale
    }

    /// Whether the number is above zero.
    pub fn is_positive(&self) -> (positive: bool)
        ensures
            positive == self@.is_positive(),
    {
        self.mantissa > 0
    }

    /// The number as text, with all the digits it was written with.
    pub fn to_string(&self) -> (text: String)
        ensures
            text@ == printed_decimal(self@.mantissa, self@.scale),
    {
        proof {
            use_type_invariant(self);
            reveal_strlit("-");
            reveal_strlit(".");
        }
        let mut text = String::new();
        let size: u128 = if self.mantissa < 0 {
            text.append("-");
            (-self.mantissa) as u128
        } else {
            self.mantissa as u128
        };
        if self.scale == 0 {
            append_digits(&mut text, size);
        } else {
            let unit: u128 = power_of_ten(self.scale);
            append_digits(&mut text, size / unit);
            text.append(".");
            append_fixed_digits(&mut text, size % unit, self.scale);
        }
        assert(text@ =~= printed_decimal(self.mantissa as int, self.scale as nat));
        text
    }
}

impl PartialEq for Decimal {
    fn eq(&self, other: &Decimal) -> (same: bool) {
        proof {
            use_type_invariant(self);
            use_type_invariant(other);
        }
        decimal_eq(self.mantissa, self.scale, other.mantissa, other.scale)
    }
}

impl vstd::std_specs::cmp::PartialEqSpecImpl for Decimal {
    open spec fn obeys_eq_spec() -> bool {
        true
    }

    open spec fn eq_spec(&self, other: &Decimal) -> bool {
        self@.same_number(other@)
    }
}

} // verus!
