use vstd::prelude::*;
use crate::table::Duplicate;

verus! {

/// A JSON number, held as JSON parsers hold one: a non-negative integer, a
/// negative integer, or a binary floating-point value `mantissa * 2^exponent`.
#[derive(Debug, PartialEq, Eq)]
pub enum Number {
    PosInt(u64),
    NegInt(i64),
    Float { mantissa: i64, exponent: i32 },
}

/// A JSON value as the graph's settings, configurations and control points
/// carry it. Arrays and objects are carried whole, as their JSON text.
#[derive(Debug, PartialEq, Eq)]
pub enum JsonValue {
    Null,
    Bool(bool),
    Number(Number),
    Text(String),
    Compound(String),
}

impl View for Number {
    type V = Number;

    open spec fn view(&self) -> Number {
        *self
    }
}

impl View for JsonValue {
    type V = JsonValue;

    open spec fn view(&self) -> JsonValue {
        *self
    }
}

impl Clone for Number {
    fn clone(&self) -> (r: Self)
        ensures
            r == *self,
    {
        match self {
            Number::PosInt(u) => Number::PosInt(*u),
            Number::NegInt(i) => Number::NegInt(*i),
            Number::Float { mantissa, exponent } => Number::Float {
                mantissa: *mantissa,
                exponent: *exponent,
            },
        }
    }
}

impl Clone for JsonValue {
    fn clone(&self) -> (r: Self)
        ensures
            r == *self,
    {
        match self {
            JsonValue::Null => JsonValue::Null,
            JsonValue::Bool(b) => JsonValue::Bool(*b),
            JsonValue::Number(n) => JsonValue::Number(n.clone()),
            JsonValue::Text(s) => JsonValue::Text(s.clone()),
            JsonValue::Compound(s) => JsonValue::Compound(s.clone()),
        }
    }
}

impl Duplicate for JsonValue {
    fn duplicate(&self) -> (r: Self) {
        self.clone()
    }
}

impl Number {
    /// The integer this number holds, when it is an integer that fits in `i64`.
    pub open spec fn spec_as_i64(self) -> Option<i64> {
        match self {
            Number::PosInt(u) => if u <= i64::MAX {
                Some(u as i64)
            } else {
                None
            },
            Number::NegInt(i) => Some(i),
            Number::Float { .. } => None,
        }
    }

    pub fn as_i64(&self) -> (r: Option<i64>)
        ensures
            r == self.spec_as_i64(),
    {
        match self {
            Number::PosInt(u) => if *u <= i64::MAX as u64 {
                Some(*u as i64)
            } else {
                None
            },
            Number::NegInt(i) => Some(*i),
            Number::Float { .. } => None,
        }
    }

    pub fn from_i64(i: i64) -> (n: Number)
        ensures
            n == (if i >= 0 {
                Number::PosInt(i as u64)
            } else {
                Number::NegInt(i)
            }),
            n.spec_as_i64() == Some(i),
    {
        if i >= 0 {
            Number::PosInt(i as u64)
        } else {
            Number::NegInt(i)
        }
    }
}

impl JsonValue {
    pub open spec fn spec_is_number(self) -> bool {
        self is Number
    }

    pub open spec fn spec_is_string(self) -> bool {
        self is Text
    }

    pub fn is_number(&self) -> (b: bool)
        ensures
            b == self.spec_is_number(),
    {
        match self {
            JsonValue::Number(_) => true,
            _ => false,
        }
    }

    pub fn is_string(&self) -> (b: bool)
        ensures
            b == self.spec_is_string(),
    {
        match self {
            JsonValue::Text(_) => true,
            _ => false,
        }
    }

    /// The integer this value holds, when it is an integer number that fits in `i64`.
    pub open spec fn spec_as_i64(self) -> Option<i64> {
        match self {
            JsonValue::Number(n) => n.spec_as_i64(),
            _ => None,
        }
    }

    pub fn as_i64(&self) -> (r: Option<i64>)
        ensures
            r == self.spec_as_i64(),
    {
        match self {
            JsonValue::Number(n) => n.as_i64(),
            _ => None,
        }
    }

    /// The value of an integer literal.
    pub fn integer(i: i64) -> (v: JsonValue)
        ensures
            v == JsonValue::Number(
                if i >= 0 {
                    Number::PosInt(i as u64)
                } else {
                    Number::NegInt(i)
                },
            ),
    {
        JsonValue::Number(Number::from_i64(i))
    }

    /// The value `1.0`.
    pub fn one_point_zero() -> (v: JsonValue)
        ensures
            v == JsonValue::Number(Number::Float { mantissa: 1, exponent: 0 }),
    {
        JsonValue::Number(Number::Float { mantissa: 1, exponent: 0 })
    }
}

} // verus!

verus! {

/// `x` clamped to the range of `i64`.
pub open spec fn saturate_i64(x: int) -> i64 {
    if x > i64::MAX {
        i64::MAX
    } else if x < i64::MIN {
        i64::MIN
    } else {
        x as i64
    }
}

/// `mantissa * 2^exponent`, rounded toward zero.
pub open spec fn float_trunc(mantissa: i64, exponent: i32) -> int {
    if exponent >= 0 {
        mantissa * vstd::arithmetic::power2::pow2(exponent as nat)
    } else if mantissa >= 0 {
        (mantissa as int) / (vstd::arithmetic::power2::pow2((-exponent) as nat) as int)
    } else {
        -((-(mantissa as int)) / (vstd::arithmetic::power2::pow2((-exponent) as nat) as int))
    }
}

impl Number {
    /// The number as an `i64` the way Rust converts a JSON number read as a
    /// float: rounded toward zero and clamped to the range of `i64`.
    pub open spec fn spec_trunc_i64(self) -> i64 {
        match self {
            Number::PosInt(u) => saturate_i64(u as int),
            Number::NegInt(i) => i,
            Number::Float { mantissa, exponent } => saturate_i64(float_trunc(mantissa, exponent)),
        }
    }

    pub fn trunc_i64(&self) -> (r: i64)
        ensures
            r == self.spec_trunc_i64(),
    {
        match self {
            Number::PosInt(u) => if *u <= i64::MAX as u64 {
                *u as i64
            } else {
                i64::MAX
            },
            Number::NegInt(i) => *i,
            Number::Float { mantissa, exponent } => float_trunc_i64(*mantissa, *exponent),
        }
    }
}

fn float_trunc_i64(m: i64, e: i32) -> (r: i64)
    ensures
        r == saturate_i64(float_trunc(m, e)),
{
    let neg = m < 0;
    let mag0: u128 = if neg {
        (0i128 - m as i128) as u128
    } else {
        m as u128
    };
    assert(mag0 <= 0x8000_0000_0000_0000);
    if e >= 0 {
        let n: u32 = e as u32;
        let mut mag: u128 = mag0;
        let mut k: u32 = 0;
        proof {
            vstd::arithmetic::power2::lemma2_to64();
            assert(mag0 * vstd::arithmetic::power2::pow2(0) == mag0);
        }
        while k < n && mag <= 0x1_0000_0000_0000_0000
            invariant
                k <= n,
                mag == mag0 * vstd::arithmetic::power2::pow2(k as nat),
            decreases n - k,
        {
            proof {
                vstd::arithmetic::power2::lemma_pow2_unfold((k + 1) as nat);
                assert(mag0 * vstd::arithmetic::power2::pow2((k + 1) as nat) == mag0 * (2
                    * vstd::arithmetic::power2::pow2(k as nat))) by (nonlinear_arith)
                    requires
                        vstd::arithmetic::power2::pow2((k + 1) as nat) == 2 * vstd::arithmetic::power2::pow2(
                            k as nat,
                        ),
                ;
                assert(mag0 * (2 * vstd::arithmetic::power2::pow2(k as nat)) == 2 * (mag0
                    * vstd::arithmetic::power2::pow2(k as nat))) by (nonlinear_arith);
            }
            mag = mag * 2;
            k = k + 1;
        }
        if k < n {
            proof {
                vstd::arithmetic::power2::lemma_pow2_strictly_increases(k as nat, n as nat);
                assert(mag0 * vstd::arithmetic::power2::pow2(n as nat) >= mag0 * vstd::arithmetic::power2::pow2(
                    k as nat,
                )) by (nonlinear_arith)
                    requires
                        vstd::arithmetic::power2::pow2(n as nat) > vstd::arithmetic::power2::pow2(k as nat),
                        mag0 >= 0,
                ;
                if neg {
                    assert(m * vstd::arithmetic::power2::pow2(n as nat) == -(mag0 * vstd::arithmetic::power2::pow2(
                        n as nat,
                    ))) by (nonlinear_arith)
                        requires
                            mag0 == -m,
                    ;
                } else {
                    assert(m * vstd::arithmetic::power2::pow2(n as nat) == mag0 * vstd::arithmetic::power2::pow2(
                        n as nat,
                    ));
                }
            }
            return if neg {
                i64::MIN
            } else {
                i64::MAX
            };
        }
        proof {
            if neg {
                assert(m * vstd::arithmetic::power2::pow2(n as nat) == -(mag0 * vstd::arithmetic::power2::pow2(
                    n as nat,
                ))) by (nonlinear_arith)
                    requires
                        mag0 == -m,
                ;
            } else {
                assert(m * vstd::arithmetic::power2::pow2(n as nat) == mag0 * vstd::arithmetic::power2::pow2(
                    n as nat,
                ));
            }
        }
        if neg {
            if mag > 0x8000_0000_0000_0000 {
                i64::MIN
            } else {
                (0i128 - mag as i128) as i64
            }
        } else {
            if mag > 0x7fff_ffff_ffff_ffff {
                i64::MAX
            } else {
                mag as i64
            }
        }
    } else {
        let n: u32 = (0i64 - e as i64) as u32;
        let mut mag: u128 = mag0;
        let mut k: u32 = 0;
        proof {
            vstd::arithmetic::power2::lemma2_to64();
            assert(vstd::arithmetic::power2::pow2(0) == 1);
            assert((mag0 as int) / 1 == mag0);
        }
        while k < n && mag > 0
            invariant
                k <= n,
                mag == (mag0 as int) / (vstd::arithmetic::power2::pow2(k as nat) as int),
            decreases n - k,
        {
            proof {
                vstd::arithmetic::power2::lemma_pow2_unfold((k + 1) as nat);
                vstd::arithmetic::power2::lemma_pow2_pos(k as nat);
                vstd::arithmetic::div_mod::lemma_div_denominator(
                    mag0 as int,
                    vstd::arithmetic::power2::pow2(k as nat) as int,
                    2,
                );
                assert(vstd::arithmetic::power2::pow2(k as nat) * 2 == vstd::arithmetic::power2::pow2(
                    (k + 1) as nat,
                ));
            }
            mag = mag / 2;
            k = k + 1;
        }
        proof {
            vstd::arithmetic::power2::lemma_pow2_pos(k as nat);
            vstd::arithmetic::power2::lemma_pow2_pos(n as nat);
            if k < n {
                vstd::arithmetic::power2::lemma_pow2_strictly_increases(k as nat, n as nat);
                vstd::arithmetic::div_mod::lemma_div_is_ordered_by_denominator(
                    mag0 as int,
                    vstd::arithmetic::power2::pow2(k as nat) as int,
                    vstd::arithmetic::power2::pow2(n as nat) as int,
                );
            }
            assert((mag0 as int) / (vstd::arithmetic::power2::pow2(n as nat) as int) == mag);
            vstd::arithmetic::div_mod::lemma_div_is_ordered_by_denominator(
                mag0 as int,
                1,
                vstd::arithmetic::power2::pow2(n as nat) as int,
            );
        }
        if neg {
            (0i128 - mag as i128) as i64
        } else {
            mag as i64
        }
    }
}

/// `x` clamped to the range of `u64`.
pub open spec fn saturate_u64(x: int) -> u64 {
    if x > u64::MAX {
        u64::MAX
    } else if x < 0 {
        0
    } else {
        x as u64
    }
}

impl Number {
    /// The number as a `u64` the way Rust reads a JSON number as one: a
    /// non-negative integer as it is, a non-negative float rounded toward zero
    /// and clamped to the range of `u64`; nothing for a negative number.
    pub open spec fn spec_trunc_u64(self) -> Option<u64> {
        match self {
            Number::PosInt(u) => Some(u),
            Number::NegInt(_) => None,
            Number::Float { mantissa, exponent } => if mantissa >= 0 {
                Some(saturate_u64(float_trunc(mantissa, exponent)))
            } else {
                None
            },
        }
    }

    pub fn trunc_u64(&self) -> (r: Option<u64>)
        ensures
            r == self.spec_trunc_u64(),
    {
        match self {
            Number::PosInt(u) => Some(*u),
            Number::NegInt(_) => None,
            Number::Float { mantissa, exponent } => if *mantissa >= 0 {
                Some(float_trunc_u64(*mantissa, *exponent))
            } else {
                None
            },
        }
    }
}

fn float_trunc_u64(m: i64, e: i32) -> (r: u64)
    requires
        m >= 0,
    ensures
        r == saturate_u64(float_trunc(m, e)),
{
    let mag0: u128 = m as u128;
    if e >= 0 {
        let n: u32 = e as u32;
        let mut mag: u128 = mag0;
        let mut k: u32 = 0;
        proof {
            vstd::arithmetic::power2::lemma2_to64();
            assert(mag0 * vstd::arithmetic::power2::pow2(0) == mag0);
        }
        while k < n && mag <= 0x1_0000_0000_0000_0000
            invariant
                k <= n,
                mag0 == m,
                mag == mag0 * vstd::arithmetic::power2::pow2(k as nat),
            decreases n - k,
        {
            proof {
                vstd::arithmetic::power2::lemma_pow2_unfold((k + 1) as nat);
                assert(mag0 * vstd::arithmetic::power2::pow2((k + 1) as nat) == mag0 * (2
                    * vstd::arithmetic::power2::pow2(k as nat))) by (nonlinear_arith)
                    requires
                        vstd::arithmetic::power2::pow2((k + 1) as nat) == 2 * vstd::arithmetic::power2::pow2(
                            k as nat,
                        ),
                ;
                assert(mag0 * (2 * vstd::arithmetic::power2::pow2(k as nat)) == 2 * (mag0
                    * vstd::arithmetic::power2::pow2(k as nat))) by (nonlinear_arith);
            }
            mag = mag * 2;
            k = k + 1;
        }
        if k < n {
            proof {
                vstd::arithmetic::power2::lemma_pow2_strictly_increases(k as nat, n as nat);
                assert(mag0 * vstd::arithmetic::power2::pow2(n as nat) >= mag0 * vstd::arithmetic::power2::pow2(
                    k as nat,
                )) by (nonlinear_arith)
                    requires
                        vstd::arithmetic::power2::pow2(n as nat) > vstd::arithmetic::power2::pow2(k as nat),
                        mag0 >= 0,
                ;
            }
            return u64::MAX;
        }
        if mag > 0xffff_ffff_ffff_ffff {
            u64::MAX
        } else {
            mag as u64
        }
    } else {
        let n: u32 = (0i64 - e as i64) as u32;
        let mut mag: u128 = mag0;
        let mut k: u32 = 0;
        proof {
            vstd::arithmetic::power2::lemma2_to64();
            assert(vstd::arithmetic::power2::pow2(0) == 1);
            assert((mag0 as int) / 1 == mag0);
        }
        while k < n && mag > 0
            invariant
                k <= n,
                mag0 == m,
                mag == (mag0 as int) / (vstd::arithmetic::power2::pow2(k as nat) as int),
            decreases n - k,
        {
            proof {
                vstd::arithmetic::power2::lemma_pow2_unfold((k + 1) as nat);
                vstd::arithmetic::power2::lemma_pow2_pos(k as nat);
                vstd::arithmetic::div_mod::lemma_div_denominator(
                    mag0 as int,
                    vstd::arithmetic::power2::pow2(k as nat) as int,
                    2,
                );
                assert(vstd::arithmetic::power2::pow2(k as nat) * 2 == vstd::arithmetic::power2::pow2(
                    (k + 1) as nat,
                ));
            }
            mag = mag / 2;
            k = k + 1;
        }
        proof {
            vstd::arithmetic::power2::lemma_pow2_pos(k as nat);
            vstd::arithmetic::power2::lemma_pow2_pos(n as nat);
            if k < n {
                vstd::arithmetic::power2::lemma_pow2_strictly_increases(k as nat, n as nat);
                vstd::arithmetic::div_mod::lemma_div_is_ordered_by_denominator(
                    mag0 as int,
                    vstd::arithmetic::power2::pow2(k as nat) as int,
                    vstd::arithmetic::power2::pow2(n as nat) as int,
                );
            }
            assert((mag0 as int) / (vstd::arithmetic::power2::pow2(n as nat) as int) == mag);
            vstd::arithmetic::div_mod::lemma_div_is_ordered_by_denominator(
                mag0 as int,
                1,
                vstd::arithmetic::power2::pow2(n as nat) as int,
            );
        }
        mag as u64
    }
}

} // verus!
