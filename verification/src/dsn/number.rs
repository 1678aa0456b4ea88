use vstd::arithmetic::power::pow;
use vstd::prelude::*;

verus! {

/// The largest magnitude of a decimal's mantissa: 96 bits.
pub const MAX_MANTISSA: i128 = 0xFFFF_FFFF_FFFF_FFFF_FFFF_FFFF;

/// The largest scale of a decimal.
pub const MAX_SCALE: u32 = 28;

/// A decimal number as a DSN file writes it: `mantissa / 10^scale`.
#[derive(PartialEq, Eq, Structural, Debug, Default, Copy, Clone)]
pub struct DsnNumber {
    pub mantissa: i128,
    pub scale: u32,
}

impl DsnNumber {
    /// The mantissa fits in 96 bits and the scale is at most 28, as in every
    /// decimal that `rust_decimal` holds.
    pub open spec fn wf(&self) -> bool {
        &&& -MAX_MANTISSA <= self.mantissa <= MAX_MANTISSA
        &&& self.scale <= MAX_SCALE
    }

    /// Zero.
    pub fn zero() -> (r: Self)
        ensures
            r == (DsnNumber { mantissa: 0, scale: 0 }),
            r.wf(),
    {
        DsnNumber { mantissa: 0, scale: 0 }
    }
}

/// Whether the value of `a` is below that of `b`: both are brought to a
/// common denominator.
pub open spec fn decimal_less(a: DsnNumber, b: DsnNumber) -> bool {
    a.mantissa * pow(10, b.scale as nat) < b.mantissa * pow(10, a.scale as nat)
}

/// The smaller of two numbers; `a` if they are equal.
pub open spec fn spec_min(a: DsnNumber, b: DsnNumber) -> DsnNumber {
    if decimal_less(b, a) {
        b
    } else {
        a
    }
}

/// The larger of two numbers; `a` if they are equal.
pub open spec fn spec_max(a: DsnNumber, b: DsnNumber) -> DsnNumber {
    if decimal_less(a, b) {
        b
    } else {
        a
    }
}

/// Declares `rust_decimal::Error` to Verus so that the parsing wrapper can
/// return it.
#[verifier::external_type_specification]
#[verifier::external_body]
pub struct ExDecimalError(rust_decimal::Error);

/// The mantissa and scale of the decimal that `rust_decimal::Decimal::from_str`
/// reads from a text; none if it refuses the text.
pub uninterp spec fn decimal_parse(s: Seq<char>) -> Option<(i128, u32)>;

/// Calls `<rust_decimal::Decimal as FromStr>::from_str` and takes the
/// mantissa and scale of the result. The contract names the result; of it,
/// it claims only what every `Decimal` satisfies: a 96-bit mantissa and a
/// scale of at most 28.
#[verifier::external_body]
pub(crate) fn parse_decimal(s: &str) -> (r: Result<(i128, u32), rust_decimal::Error>)
    ensures
        match r {
            Ok(v) => decimal_parse(s@) == Some(v) && -MAX_MANTISSA <= v.0 <= MAX_MANTISSA && v.1
                <= MAX_SCALE,
            Err(_) => decimal_parse(s@) is None,
        },
{
    match <rust_decimal::Decimal as std::str::FromStr>::from_str(s) {
        Ok(d) => Ok((d.mantissa(), d.scale())),
        Err(e) => Err(e),
    }
}

/// Builds the two decimals with `rust_decimal::Decimal::from_i128_with_scale`
/// and compares them with `<`, which orders decimals by value.
#[verifier::external_body]
pub(crate) fn decimal_lt(a: DsnNumber, b: DsnNumber) -> (r: bool)
    requires
        a.wf(),
        b.wf(),
    ensures
        r == decimal_less(a, b),
{
    rust_decimal::Decimal::from_i128_with_scale(a.mantissa, a.scale)
        < rust_decimal::Decimal::from_i128_with_scale(b.mantissa, b.scale)
}

/// The smaller of two numbers; `a` if they are equal.
pub fn number_min(a: DsnNumber, b: DsnNumber) -> (r: DsnNumber)
    requires
        a.wf(),
        b.wf(),
    ensures
        r == spec_min(a, b),
{
    if decimal_lt(b, a) {
        b
    } else {
        a
    }
}

/// The larger of two numbers; `a` if they are equal.
pub fn number_max(a: DsnNumber, b: DsnNumber) -> (r: DsnNumber)
    requires
        a.wf(),
        b.wf(),
    ensures
        r == spec_max(a, b),
{
    if decimal_lt(a, b) {
        b
    } else {
        a
    }
}

} // verus!
