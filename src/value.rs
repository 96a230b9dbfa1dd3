use vstd::arithmetic::power2::{
    lemma2_to64, lemma2_to64_rest, lemma_pow2_pos, lemma_pow2_strictly_increases, lemma_pow2_unfold,
    pow2,
};
use vstd::bits::{lemma_u64_shl_is_mul, lemma_u64_shr_is_div};
use vstd::prelude::*;

verus! {

/// Bit of the sign in a binary64 encoding.
pub const SIGN_BIT: u64 = 0x8000_0000_0000_0000;

/// Every bit but the sign.
pub const MAGNITUDE_BITS: u64 = 0x7FFF_FFFF_FFFF_FFFF;

/// Encoding of positive infinity: all exponent bits set, no fraction.
pub const INFINITY_BITS: u64 = 0x7FF0_0000_0000_0000;

/// The fraction field of a binary64 encoding.
pub const FRACTION_BITS: u64 = 0x000F_FFFF_FFFF_FFFF;

/// The implicit leading one of a normal number.
pub const HIDDEN_BIT: u64 = 0x0010_0000_0000_0000;

/// Encoding of -1.0.
pub const MINUS_ONE_BITS: u64 = 0xBFF0_0000_0000_0000;

/// Smallest integer from which not every integer is exactly representable.
pub const EXACT_LIMIT: u64 = 0x0020_0000_0000_0000;

/// A stack value: a double-precision number, carried as its binary64 encoding.
/// All arithmetic on it happens outside the library; the library reads it only
/// through the conversions and comparisons below.
#[derive(Clone, Copy, Debug, PartialEq, Eq)]
pub struct Value {
    pub bits: u64,
}

pub open spec fn magnitude(v: Value) -> u64 {
    v.bits & MAGNITUDE_BITS
}

pub open spec fn is_negative(v: Value) -> bool {
    (v.bits & SIGN_BIT) != 0
}

pub open spec fn is_nan(v: Value) -> bool {
    magnitude(v) > INFINITY_BITS
}

/// Either zero, positive or negative.
pub open spec fn is_zero(v: Value) -> bool {
    magnitude(v) == 0
}

/// For values that are not NaN, the encoding's magnitude is monotone in the
/// number, so a signed magnitude orders them as the numbers are ordered, and
/// gives both zeros the same place.
pub open spec fn order_key(v: Value) -> int {
    if is_negative(v) {
        -(magnitude(v) as int)
    } else {
        magnitude(v) as int
    }
}

/// Numeric equality: NaN equals nothing, and the two zeros are equal.
pub open spec fn num_eq(a: Value, b: Value) -> bool {
    !is_nan(a) && !is_nan(b) && order_key(a) == order_key(b)
}

/// Numeric order: false whenever a NaN takes part.
pub open spec fn num_lt(a: Value, b: Value) -> bool {
    !is_nan(a) && !is_nan(b) && order_key(a) < order_key(b)
}

pub open spec fn exponent(v: Value) -> u64 {
    (v.bits >> 52u64) & 0x7FF
}

pub open spec fn significand(v: Value) -> u64 {
    (v.bits & FRACTION_BITS) | HIDDEN_BIT
}

/// The integer part of a finite value in [1, 2^64), exponent in [1023, 1087).
pub open spec fn integer_part(v: Value) -> u64 {
    if exponent(v) >= 1075 {
        significand(v) << ((exponent(v) - 1075) as u64)
    } else {
        significand(v) >> ((1075 - exponent(v)) as u64)
    }
}

/// Conversion to an unsigned integer type whose largest value is `max`:
/// truncated toward zero and saturated at both ends, NaN giving zero, as an
/// `as` cast of a double does.
pub open spec fn truncated(v: Value, max: u64) -> u64 {
    if is_nan(v) || is_negative(v) || exponent(v) < 1023 {
        0
    } else if exponent(v) >= 1087 {
        max
    } else if integer_part(v) > max {
        max
    } else {
        integer_part(v)
    }
}

/// The value with its sign cleared.
pub open spec fn abs(v: Value) -> Value {
    Value { bits: v.bits & MAGNITUDE_BITS }
}

/// Finite, with a magnitude below 2^64.
pub open spec fn magnitude_fits(v: Value) -> bool {
    exponent(v) < 1087
}

/// The value truncated toward zero, for a value whose magnitude fits.
pub open spec fn truncated_integer(v: Value) -> int {
    let m = truncated(abs(v), u64::MAX) as int;
    if is_negative(v) {
        -m
    } else {
        m
    }
}

/// The value times 100, truncated toward zero and saturated at `u64::MAX`;
/// zero for NaN and for negative values. A normal value is its significand
/// times 2^(exponent - 1075), so the product is computed exactly.
pub open spec fn hundredfold(v: Value) -> u64 {
    if is_nan(v) || is_negative(v) {
        0
    } else if exponent(v) >= 1087 {
        u64::MAX
    } else if exponent(v) >= 1075 {
        let p = (significand(v) as nat) * 100 * pow2((exponent(v) - 1075) as nat);
        if p > u64::MAX {
            u64::MAX
        } else {
            p as u64
        }
    } else {
        ((significand(v) as nat) * 100 / pow2((1075 - exponent(v)) as nat)) as u64
    }
}

/// Position of the highest set bit of `m`, counting from `k`, capped at 52.
pub open spec fn top_bit(m: u64, k: u64) -> u64
    decreases 52 - k,
{
    if m > 1 && k < 52 {
        top_bit(m / 2, (k + 1) as u64)
    } else {
        k
    }
}

/// The binary64 encoding of a natural number below 2^53, which is exact.
pub open spec fn encode_nat(n: u64) -> u64 {
    if n == 0 {
        0
    } else {
        let k = top_bit(n, 0);
        (((1023 + k) as u64) << 52u64) | ((n << ((52 - k) as u64)) & FRACTION_BITS)
    }
}

pub proof fn lemma_top_bit_bound(m: u64, k: u64)
    requires
        k <= 52,
    ensures
        k <= top_bit(m, k) <= 52,
    decreases 52 - k,
{
    if m > 1 && k < 52 {
        lemma_top_bit_bound(m / 2, (k + 1) as u64);
    }
}

proof fn lemma_top_bit_brackets(m: u64, k: u64)
    requires
        1 <= m,
        k <= 52,
        m < pow2((53 - k) as nat),
    ensures
        k <= top_bit(m, k) <= 52,
        pow2((top_bit(m, k) - k) as nat) <= m < pow2((top_bit(m, k) - k + 1) as nat),
    decreases 52 - k,
{
    lemma_top_bit_bound(m, k);
    lemma_pow2_unfold((53 - k) as nat);
    if m > 1 && k < 52 {
        lemma_top_bit_brackets(m / 2, (k + 1) as u64);
        let t = top_bit(m, k);
        lemma_pow2_unfold((t - k) as nat);
        lemma_pow2_unfold((t - k + 1) as nat);
    } else {
        lemma2_to64();
    }
}

proof fn lemma_encode_fields(n: u64, k: u64)
    requires
        k <= 52,
        (1u64 << k) <= n,
        n < (1u64 << ((k + 1) as u64)),
    ensures
        ({
            let b = (((1023 + k) as u64) << 52u64) | ((n << ((52 - k) as u64)) & FRACTION_BITS);
            &&& (b & SIGN_BIT) == 0
            &&& (b & MAGNITUDE_BITS) == b
            &&& b < INFINITY_BITS
            &&& ((b >> 52u64) & 0x7FF) == ((1023 + k) as u64)
            &&& (((b & FRACTION_BITS) | HIDDEN_BIT) >> ((52 - k) as u64)) == n
        }),
{
    assert({
        let b = (((1023 + k) as u64) << 52u64) | ((n << ((52 - k) as u64)) & FRACTION_BITS);
        &&& (b & SIGN_BIT) == 0
        &&& (b & MAGNITUDE_BITS) == b
        &&& b < INFINITY_BITS
        &&& ((b >> 52u64) & 0x7FF) == ((1023 + k) as u64)
        &&& (((b & FRACTION_BITS) | HIDDEN_BIT) >> ((52 - k) as u64)) == n
    }) by (bit_vector)
        requires
            k <= 52,
            (1u64 << k) <= n,
            n < (1u64 << ((k + 1) as u64)),
    ;
}

/// The encoding of a natural number below 2^53 reads back as that number:
/// it is the exact double of the number.
pub proof fn lemma_encode_exact(n: u64, max: u64)
    requires
        n < EXACT_LIMIT,
        n <= max,
    ensures
        truncated(Value { bits: encode_nat(n) }, max) == n,
{
    let v = Value { bits: encode_nat(n) };
    if n == 0 {
        assert((0u64 >> 52u64) & 0x7FF == 0) by (bit_vector);
    } else {
        lemma2_to64();
        lemma2_to64_rest();
        assert(n < pow2(53));
        lemma_top_bit_brackets(n, 0);
        let k = top_bit(n, 0);
        assert(pow2(k as nat) <= n < pow2((k + 1) as nat));
        lemma_u64_shl_is_mul(1, k);
        lemma_u64_shl_is_mul(1, (k + 1) as u64);
        assert((1u64 << k) <= n);
        assert(n < (1u64 << ((k + 1) as u64)));
        lemma_encode_fields(n, k);
        assert(v.bits == (((1023 + k) as u64) << 52u64) | ((n << ((52 - k) as u64)) & FRACTION_BITS));
        assert(!is_nan(v));
        assert(!is_negative(v));
        assert(exponent(v) == 1023 + k);
        let sg = significand(v);
        assert(sg << 0u64 == sg) by (bit_vector);
        assert(sg >> 0u64 == sg) by (bit_vector);
        assert(sg >> ((52 - k) as u64) == n);
        if k == 52 {
            assert(sg == n);
        } else {
            assert(((1075 - exponent(v)) as u64) == ((52 - k) as u64));
        }
        assert(integer_part(v) == n);
    }
}

impl Value {
    /// The value of a natural number below 2^53, exactly.
    pub fn from_u64(n: u64) -> (r: Value)
        requires
            n < EXACT_LIMIT,
        ensures
            r.bits == encode_nat(n),
    {
        if n == 0 {
            return Value { bits: 0 };
        }
        let mut m: u64 = n;
        let mut k: u64 = 0;
        proof {
            lemma_top_bit_bound(n, 0);
        }
        while m > 1 && k < 52
            invariant
                k <= 52,
                top_bit(m, k) == top_bit(n, 0),
            decreases 52 - k,
        {
            m = m / 2;
            k = k + 1;
        }
        Value { bits: ((1023 + k) << 52u64) | ((n << (52 - k)) & FRACTION_BITS) }
    }

    pub fn minus_one() -> (r: Value)
        ensures
            r.bits == MINUS_ONE_BITS,
    {
        Value { bits: MINUS_ONE_BITS }
    }

    pub fn is_zero(&self) -> (r: bool)
        ensures
            r == is_zero(*self),
    {
        (self.bits & MAGNITUDE_BITS) == 0
    }

    fn is_nan(&self) -> (r: bool)
        ensures
            r == is_nan(*self),
    {
        (self.bits & MAGNITUDE_BITS) > INFINITY_BITS
    }

    fn order_key(&self) -> (r: i128)
        ensures
            r == order_key(*self),
    {
        let m = (self.bits & MAGNITUDE_BITS) as i128;
        if (self.bits & SIGN_BIT) != 0 {
            -m
        } else {
            m
        }
    }

    /// Numeric equality, as `==` on doubles.
    pub fn num_eq(&self, o: &Value) -> (r: bool)
        ensures
            r == num_eq(*self, *o),
    {
        !self.is_nan() && !o.is_nan() && self.order_key() == o.order_key()
    }

    /// Numeric order, as `<` on doubles.
    pub fn num_lt(&self, o: &Value) -> (r: bool)
        ensures
            r == num_lt(*self, *o),
    {
        !self.is_nan() && !o.is_nan() && self.order_key() < o.order_key()
    }

    /// Truncating, saturating conversion to an unsigned type of largest value `max`.
    pub fn truncate_to(&self, max: u64) -> (r: u64)
        ensures
            r == truncated(*self, max),
    {
        let e = (self.bits >> 52u64) & 0x7FF;
        if self.is_nan() || (self.bits & SIGN_BIT) != 0 || e < 1023 {
            return 0;
        }
        if e >= 1087 {
            return max;
        }
        let sig = (self.bits & FRACTION_BITS) | HIDDEN_BIT;
        let t = if e >= 1075 {
            sig << (e - 1075)
        } else {
            sig >> (1075 - e)
        };
        if t > max {
            max
        } else {
            t
        }
    }

    /// As `v as u8`.
    pub fn to_u8(&self) -> (r: u8)
        ensures
            r == truncated(*self, 0xFF),
    {
        let t = self.truncate_to(0xFF);
        t as u8
    }

    /// As `v as u32`.
    pub fn to_u32(&self) -> (r: u32)
        ensures
            r == truncated(*self, 0xFFFF_FFFF),
    {
        let t = self.truncate_to(0xFFFF_FFFF);
        t as u32
    }

    /// As `v as u64`.
    pub fn to_u64(&self) -> (r: u64)
        ensures
            r == truncated(*self, u64::MAX),
    {
        self.truncate_to(u64::MAX)
    }

    /// As `v as usize`.
    pub fn to_usize(&self) -> (r: usize)
        ensures
            r == truncated(*self, usize::MAX as u64),
    {
        let t = self.truncate_to(usize::MAX as u64);
        t as usize
    }

    /// The exponent field of the encoding.
    pub fn exponent_field(&self) -> (r: u64)
        ensures
            r == exponent(*self),
    {
        (self.bits >> 52u64) & 0x7FF
    }

    /// The value truncated toward zero, when its magnitude is below 2^64.
    pub fn to_integer(&self) -> (r: Option<i128>)
        ensures
            r is Some <==> magnitude_fits(*self),
            r matches Some(n) ==> n == truncated_integer(*self),
    {
        if self.exponent_field() >= 1087 {
            return None;
        }
        let m = (Value { bits: self.bits & MAGNITUDE_BITS }).to_u64();
        if (self.bits & SIGN_BIT) != 0 {
            Some(-(m as i128))
        } else {
            Some(m as i128)
        }
    }

    /// The value times 100, as `S` asks for a pause in milliseconds.
    pub fn hundredfold(&self) -> (r: u64)
        ensures
            r == hundredfold(*self),
    {
        if self.is_nan() || (self.bits & SIGN_BIT) != 0 {
            return 0;
        }
        let e = self.exponent_field();
        if e >= 1087 {
            return u64::MAX;
        }
        let bits = self.bits;
        let sig = (bits & FRACTION_BITS) | HIDDEN_BIT;
        assert(sig <= 0x1F_FFFF_FFFF_FFFF) by (bit_vector)
            requires
                sig == (bits & FRACTION_BITS) | HIDDEN_BIT,
        ;
        let t = sig * 100;
        proof {
            lemma2_to64();
            lemma2_to64_rest();
        }
        if e >= 1075 {
            let sh = e - 1075;
            proof {
                lemma_u64_shr_is_div(u64::MAX, sh);
                lemma_pow2_pos(sh as nat);
                let q = pow2(sh as nat) as int;
                let m = u64::MAX as int;
                let ti = t as int;
                assert(ti > m / q <==> ti * q > m) by (nonlinear_arith)
                    requires
                        q > 0,
                        ti >= 0,
                        m >= 0,
                ;
            }
            if t > (u64::MAX >> sh) {
                u64::MAX
            } else {
                proof {
                    lemma_u64_shl_is_mul(t, sh);
                }
                t << sh
            }
        } else if 1075 - e >= 64 {
            proof {
                lemma_pow2_strictly_increases(61, (1075 - e) as nat);
                let q = pow2((1075 - e) as nat) as int;
                let ti = t as int;
                assert(ti < q);
                assert(ti / q == 0) by (nonlinear_arith)
                    requires
                        0 <= ti < q,
                ;
            }
            0
        } else {
            proof {
                lemma_u64_shr_is_div(t, (1075 - e) as u64);
            }
            t >> (1075 - e)
        }
    }
}

} // verus!
