//! Real-valued metrics held exactly: a signed count of millionths, or one of
//! three markers for values that are not finite numbers.

use vstd::prelude::*;
use vstd::arithmetic::power2::{
    lemma2_to64, lemma2_to64_rest, lemma_pow2_adds, lemma_pow2_strictly_increases,
    lemma_pow2_unfold, pow2,
};
use crate::text::{digits, padded_digits, push_padded, push_u128};

verus! {

/// A real-valued metric.
#[derive(Clone, Copy, PartialEq, Eq, Structural, Debug)]
pub enum Decimal {
    /// A finite number, as a count of millionths.
    Finite(i64),
    /// Not a number.
    NaN,
    /// Above every finite number.
    PosInfinity,
    /// Below every finite number.
    NegInfinity,
}

/// Ten to the power `n`.
pub open spec fn pow10(n: nat) -> nat
    decreases n,
{
    if n == 0 {
        1
    } else {
        10 * pow10((n - 1) as nat)
    }
}

/// `n / d` rounded to the nearest natural number, a tie going to the even one.
pub open spec fn round_half_even(n: nat, d: nat) -> nat {
    let q = n / d;
    let r = n % d;
    if 2 * r > d || (2 * r == d && q % 2 == 1) {
        q + 1
    } else {
        q
    }
}

/// Rounding gives the nearest natural number: it is off by half a unit at
/// most, and where it is off by exactly half a unit it is even.
pub proof fn rounding_is_nearest(n: nat, d: nat)
    requires
        d > 0,
    ensures
        2 * abs(n - round_half_even(n, d) * d) <= d,
        2 * abs(n - round_half_even(n, d) * d) == d ==> round_half_even(n, d) % 2 == 0,
{
    let q = n / d;
    let r = n % d;
    assert(n == q * d + r && 0 <= r < d) by (nonlinear_arith)
        requires
            q == n / d,
            r == n % d,
            d > 0,
    ;
    assert((q + 1) * d == q * d + d) by (nonlinear_arith);
    if 2 * r == d && q % 2 == 1 {
        assert((q + 1) % 2 == 0);
    }
}

/// The absolute value of an integer.
pub open spec fn abs(v: int) -> nat {
    if v < 0 {
        (-v) as nat
    } else {
        v as nat
    }
}

/// The number with the given sign and magnitude in millionths, or the
/// infinity of that sign when the magnitude is out of range.
pub open spec fn signed(negative: bool, magnitude: nat) -> Decimal {
    if negative {
        if magnitude <= 0x8000_0000_0000_0000 {
            Decimal::Finite((-(magnitude as int)) as i64)
        } else {
            Decimal::NegInfinity
        }
    } else {
        if magnitude < 0x8000_0000_0000_0000 {
            Decimal::Finite(magnitude as i64)
        } else {
            Decimal::PosInfinity
        }
    }
}

/// `num / den` as a percentage; zero when `den` is zero.
pub open spec fn percent_of(num: nat, den: nat) -> Decimal {
    if den == 0 {
        Decimal::Finite(0)
    } else {
        signed(false, round_half_even(num * 100_000_000, den))
    }
}

/// The sum of the finite values, in millionths.
pub open spec fn sum_millionths(values: Seq<Decimal>) -> int
    decreases values.len(),
{
    if values.len() == 0 {
        0
    } else {
        sum_millionths(values.drop_last()) + match values.last() {
            Decimal::Finite(v) => v as int,
            _ => 0,
        }
    }
}

/// The arithmetic mean. It is not a number when there are no values, when one
/// of them is not a number, or when both infinities occur; an infinity when
/// only that one occurs; else the sum over the count, rounded to the nearest
/// millionth with a tie going to the even one.
pub open spec fn mean_of(values: Seq<Decimal>) -> Decimal {
    if values.len() == 0 || values.contains(Decimal::NaN) || (values.contains(
        Decimal::PosInfinity,
    ) && values.contains(Decimal::NegInfinity)) {
        Decimal::NaN
    } else if values.contains(Decimal::PosInfinity) {
        Decimal::PosInfinity
    } else if values.contains(Decimal::NegInfinity) {
        Decimal::NegInfinity
    } else {
        let total = sum_millionths(values);
        signed(total < 0, round_half_even(abs(total), values.len()))
    }
}

/// The digits of a magnitude in millionths, rounded to `places` decimals.
pub open spec fn fixed_magnitude(magnitude: nat, places: nat) -> Seq<char>
    recommends
        places <= 6,
{
    let scaled = round_half_even(magnitude, pow10((6 - places) as nat));
    let whole = digits(scaled / pow10(places));
    if places == 0 {
        whole
    } else {
        whole + seq!['.'] + padded_digits(scaled % pow10(places), places)
    }
}

/// A value in fixed notation with `places` decimals. A negative number keeps
/// its sign even where it rounds to zero.
pub open spec fn fixed_text(value: Decimal, places: nat) -> Seq<char>
    recommends
        places <= 6,
{
    match value {
        Decimal::Finite(v) => if v < 0 {
            seq!['-'] + fixed_magnitude(abs(v as int), places)
        } else {
            fixed_magnitude(abs(v as int), places)
        },
        Decimal::NaN => seq!['N', 'a', 'N'],
        Decimal::PosInfinity => seq!['i', 'n', 'f'],
        Decimal::NegInfinity => seq!['-', 'i', 'n', 'f'],
    }
}

/// `n / unit` in fixed notation with `places` decimals, rounded to the
/// nearest with a tie going to the even digit.
pub open spec fn ratio_text(n: nat, unit: nat, places: nat) -> Seq<char>
    recommends
        unit > 0,
        places <= 6,
{
    let scaled = round_half_even(n * pow10(places), unit);
    let whole = digits(scaled / pow10(places));
    if places == 0 {
        whole
    } else {
        whole + seq!['.'] + padded_digits(scaled % pow10(places), places)
    }
}

/// The number `m` times two to the power `e`, in millionths: exact where `e`
/// is not negative, else rounded to the nearest millionth with a tie going
/// to the even one.
pub open spec fn scaled_millionths(m: nat, e: int) -> nat {
    if e >= 0 {
        m * 1_000_000 * pow2(e as nat)
    } else {
        round_half_even(m * 1_000_000, pow2((-e) as nat))
    }
}

/// The value that stands for the binary floating-point number of double
/// precision with the given bit pattern: its exact value rounded to the
/// nearest millionth, an infinity where that is out of range, and the
/// markers for what is not finite.
pub open spec fn binary64_value(bits: u64) -> Decimal {
    let negative = bits >= 0x8000_0000_0000_0000;
    let exponent = (bits / 0x10_0000_0000_0000) % 2048;
    let fraction = bits % 0x10_0000_0000_0000;
    if exponent == 2047 {
        if fraction != 0 {
            Decimal::NaN
        } else if negative {
            Decimal::NegInfinity
        } else {
            Decimal::PosInfinity
        }
    } else if exponent == 0 {
        signed(negative, scaled_millionths(fraction as nat, -1074))
    } else {
        signed(
            negative,
            scaled_millionths((fraction + 0x10_0000_0000_0000) as nat, exponent - 1075),
        )
    }
}

/// The value that stands for the binary floating-point number of single
/// precision with the given bit pattern.
pub open spec fn binary32_value(bits: u32) -> Decimal {
    let negative = bits >= 0x8000_0000;
    let exponent = (bits / 0x80_0000) % 256;
    let fraction = bits % 0x80_0000;
    if exponent == 255 {
        if fraction != 0 {
            Decimal::NaN
        } else if negative {
            Decimal::NegInfinity
        } else {
            Decimal::PosInfinity
        }
    } else if exponent == 0 {
        signed(negative, scaled_millionths(fraction as nat, -149))
    } else {
        signed(negative, scaled_millionths((fraction + 0x80_0000) as nat, exponent - 150))
    }
}

/// An integer by which values are ordered: what is not a number comes below
/// negative infinity, which comes below every finite number.
pub open spec fn order_key(value: Decimal) -> int {
    match value {
        Decimal::Finite(v) => v as int,
        Decimal::NaN => i64::MIN - 2,
        Decimal::PosInfinity => i64::MAX + 1,
        Decimal::NegInfinity => i64::MIN - 1,
    }
}

/// Ten to the power `n`.
pub(crate) fn ten_to(n: u8) -> (r: u64)
    requires
        n <= 6,
    ensures
        r == pow10(n as nat),
        1 <= r <= 1_000_000,
{
    proof {
        reveal_with_fuel(pow10, 8);
    }
    if n == 0 {
        1
    } else if n == 1 {
        10
    } else if n == 2 {
        100
    } else if n == 3 {
        1_000
    } else if n == 4 {
        10_000
    } else if n == 5 {
        100_000
    } else {
        1_000_000
    }
}

/// `n / d` rounded to the nearest, a tie going to the even one.
pub(crate) fn divide_half_even(n: u128, d: u128) -> (r: u128)
    requires
        d > 0,
    ensures
        r == round_half_even(n as nat, d as nat),
{
    let q: u128 = n / d;
    let rest: u128 = n % d;
    if rest > d - rest || (rest == d - rest && q % 2 == 1) {
        proof {
            assert(q < n || d == 1) by (nonlinear_arith)
                requires
                    q == n / d,
                    rest == n % d,
                    rest > 0,
                    d > 0,
            ;
        }
        q + 1
    } else {
        q
    }
}

/// Two to the power 75.
proof fn two_to_75()
    ensures
        pow2(75) == 0x800_0000_0000_0000_0000,
{
    lemma2_to64();
    lemma2_to64_rest();
    lemma_pow2_adds(64, 11);
}

/// Two to the power `k`.
pub(crate) fn two_to(k: u32) -> (d: u128)
    requires
        k < 75,
    ensures
        d == pow2(k as nat),
        d >= 1,
{
    let mut d: u128 = 1;
    let mut i: u32 = 0;
    proof {
        lemma2_to64();
    }
    while i < k
        invariant
            i <= k,
            k < 75,
            d == pow2(i as nat),
            d >= 1,
        decreases k - i,
    {
        proof {
            lemma_pow2_unfold((i + 1) as nat);
            lemma_pow2_strictly_increases(i as nat, 75);
            two_to_75();
        }
        d = d * 2;
        i += 1;
    }
    d
}

/// The number `m` times two to the power `e` with the given sign.
pub(crate) fn from_scaled(negative: bool, m: u64, e: i32) -> (r: Decimal)
    requires
        m < 0x20_0000_0000_0000,
    ensures
        r == signed(negative, scaled_millionths(m as nat, e as int)),
{
    let n: u128 = (m as u128) * 1_000_000;
    if e >= 0 {
        let steps: u32 = e as u32;
        let mut value: u128 = n;
        let mut i: u32 = 0;
        proof {
            lemma2_to64();
        }
        while i < steps && value < 0x1_0000_0000_0000_0000
            invariant
                i <= steps,
                value == n * pow2(i as nat),
            decreases steps - i,
        {
            proof {
                lemma_pow2_unfold((i + 1) as nat);
                assert(n * (2 * pow2(i as nat)) == 2 * (n * pow2(i as nat))) by (nonlinear_arith);
            }
            value = value * 2;
            i += 1;
        }
        proof {
            if i < steps {
                lemma_pow2_strictly_increases(i as nat, steps as nat);
                assert(n * pow2(steps as nat) >= n * pow2(i as nat)) by (nonlinear_arith)
                    requires
                        pow2(steps as nat) > pow2(i as nat),
                        n >= 0,
                ;
            }
        }
        if i < steps {
            Decimal::from_parts(negative, 0x1_0000_0000_0000_0000)
        } else {
            Decimal::from_parts(negative, value)
        }
    } else {
        let k: u32 = (-(e as i64)) as u32;
        if k >= 75 {
            proof {
                two_to_75();
                if k > 75 {
                    lemma_pow2_strictly_increases(75, k as nat);
                }
                let d = pow2(k as nat);
                let size = n as nat;
                assert(size / d == 0 && size % d == size) by (nonlinear_arith)
                    requires
                        0 <= size < d,
                ;
            }
            Decimal::from_parts(negative, 0)
        } else {
            Decimal::from_parts(negative, divide_half_even(n, two_to(k)))
        }
    }
}

/// The magnitude of a signed count.
pub fn magnitude(v: i64) -> (m: u64)
    ensures
        m == abs(v as int),
{
    if v >= 0 {
        v as u64
    } else if v == i64::MIN {
        0x8000_0000_0000_0000u64
    } else {
        (-v) as u64
    }
}

/// Appends `n / unit` in fixed notation with `places` decimals.
pub(crate) fn push_ratio(out: &mut Vec<char>, n: u64, unit: u64, places: u8)
    requires
        unit > 0,
        places <= 6,
    ensures
        final(out)@ == old(out)@ + ratio_text(n as nat, unit as nat, places as nat),
{
    let base: u64 = ten_to(places);
    proof {
        assert(n * base <= 0xffff_ffff_ffff_ffff * 1_000_000) by (nonlinear_arith)
            requires
                n <= 0xffff_ffff_ffff_ffff,
                base <= 1_000_000,
        ;
    }
    let scaled: u128 = divide_half_even((n as u128) * (base as u128), unit as u128);
    push_u128(out, scaled / (base as u128));
    if places > 0 {
        out.push('.');
        push_padded(out, (scaled % (base as u128)) as u64, places as usize);
    }
    proof {
        assert(out@ =~= old(out)@ + ratio_text(n as nat, unit as nat, places as nat));
    }
}

impl Decimal {
    /// The value that stands for the binary floating-point number of double
    /// precision with the given bit pattern.
    pub fn from_binary64(bits: u64) -> (r: Decimal)
        ensures
            r == binary64_value(bits),
    {
        let negative = bits >= 0x8000_0000_0000_0000;
        let exponent: u64 = (bits / 0x10_0000_0000_0000) % 2048;
        let fraction: u64 = bits % 0x10_0000_0000_0000;
        if exponent == 2047 {
            if fraction != 0 {
                Decimal::NaN
            } else if negative {
                Decimal::NegInfinity
            } else {
                Decimal::PosInfinity
            }
        } else if exponent == 0 {
            from_scaled(negative, fraction, -1074)
        } else {
            from_scaled(negative, fraction + 0x10_0000_0000_0000, (exponent as i32) - 1075)
        }
    }

    /// The value that stands for the binary floating-point number of single
    /// precision with the given bit pattern.
    pub fn from_binary32(bits: u32) -> (r: Decimal)
        ensures
            r == binary32_value(bits),
    {
        let negative = bits >= 0x8000_0000;
        let exponent: u32 = (bits / 0x80_0000) % 256;
        let fraction: u32 = bits % 0x80_0000;
        if exponent == 255 {
            if fraction != 0 {
                Decimal::NaN
            } else if negative {
                Decimal::NegInfinity
            } else {
                Decimal::PosInfinity
            }
        } else if exponent == 0 {
            from_scaled(negative, fraction as u64, -149)
        } else {
            from_scaled(negative, (fraction + 0x80_0000) as u64, (exponent as i32) - 150)
        }
    }

    /// Whether this is a finite number.
    pub fn is_finite(&self) -> (r: bool)
        ensures
            r == (*self matches Decimal::Finite(_)),
    {
        match self {
            Decimal::Finite(_) => true,
            _ => false,
        }
    }

    /// The number with the given sign and magnitude, in millionths.
    pub fn from_parts(negative: bool, magnitude: u128) -> (r: Decimal)
        ensures
            r == signed(negative, magnitude as nat),
    {
        if negative {
            if magnitude < 0x8000_0000_0000_0000 {
                Decimal::Finite(-(magnitude as i64))
            } else if magnitude == 0x8000_0000_0000_0000 {
                Decimal::Finite(i64::MIN)
            } else {
                Decimal::NegInfinity
            }
        } else {
            if magnitude < 0x8000_0000_0000_0000 {
                Decimal::Finite(magnitude as i64)
            } else {
                Decimal::PosInfinity
            }
        }
    }

    /// `num / den` as a percentage; zero when `den` is zero.
    pub fn percent(num: u64, den: u64) -> (r: Decimal)
        ensures
            r == percent_of(num as nat, den as nat),
    {
        if den == 0 {
            Decimal::Finite(0)
        } else {
            let scaled: u128 = (num as u128) * 100_000_000;
            Decimal::from_parts(false, divide_half_even(scaled, den as u128))
        }
    }

    /// The arithmetic mean of the values.
    pub fn mean(values: &Vec<Decimal>) -> (r: Decimal)
        ensures
            r == mean_of(values@),
    {
        let mut has_nan = false;
        let mut has_pos = false;
        let mut has_neg = false;
        let mut total: i128 = 0;
        let mut i: usize = 0;
        while i < values.len()
            invariant
                i <= values.len(),
                has_nan == values@.take(i as int).contains(Decimal::NaN),
                has_pos == values@.take(i as int).contains(Decimal::PosInfinity),
                has_neg == values@.take(i as int).contains(Decimal::NegInfinity),
                total == sum_millionths(values@.take(i as int)),
                -(i * 0x8000_0000_0000_0000) <= total <= i * 0x8000_0000_0000_0000,
            decreases values.len() - i,
        {
            proof {
                let before = values@.take(i as int);
                let after = values@.take(i + 1);
                assert(after.drop_last() =~= before);
                assert(after.last() == values@[i as int]);
                assert(after =~= before.push(values@[i as int]));
                assert forall|d: Decimal| after.contains(d) == (before.contains(d) || d
                    == values@[i as int]) by {
                    if before.contains(d) {
                        let k = choose|k: int| 0 <= k < before.len() && before[k] == d;
                        assert(after[k] == d);
                    }
                    if d == values@[i as int] {
                        assert(after[i as int] == d);
                    }
                }
            }
            match values[i] {
                Decimal::Finite(v) => {
                    total = total + (v as i128);
                },
                Decimal::NaN => {
                    has_nan = true;
                },
                Decimal::PosInfinity => {
                    has_pos = true;
                },
                Decimal::NegInfinity => {
                    has_neg = true;
                },
            }
            i += 1;
        }
        proof {
            assert(values@.take(values.len() as int) =~= values@);
        }
        if values.len() == 0 || has_nan || (has_pos && has_neg) {
            Decimal::NaN
        } else if has_pos {
            Decimal::PosInfinity
        } else if has_neg {
            Decimal::NegInfinity
        } else {
            let size: u128 = if total < 0 {
                (-total) as u128
            } else {
                total as u128
            };
            Decimal::from_parts(total < 0, divide_half_even(size, values.len() as u128))
        }
    }

    /// The integer by which values are ordered.
    pub fn key(&self) -> (k: i128)
        ensures
            k == order_key(*self),
    {
        match self {
            Decimal::Finite(v) => *v as i128,
            Decimal::NaN => (i64::MIN as i128) - 2,
            Decimal::PosInfinity => (i64::MAX as i128) + 1,
            Decimal::NegInfinity => (i64::MIN as i128) - 1,
        }
    }

    /// The value in fixed notation with `places` decimals, of which there
    /// are six at most; none for more.
    pub fn to_fixed(&self, places: u8) -> (r: Option<String>)
        ensures
            match r {
                Some(text) => places <= 6 && text@ == fixed_text(*self, places as nat),
                None => places > 6,
            },
    {
        if places <= 6 {
            let mut out: Vec<char> = Vec::new();
            self.push_fixed(&mut out, places);
            proof {
                assert(out@ =~= fixed_text(*self, places as nat));
            }
            Some(crate::text::to_text(&out))
        } else {
            None
        }
    }

    /// Appends the value in fixed notation with `places` decimals.
    pub(crate) fn push_fixed(&self, out: &mut Vec<char>, places: u8)
        requires
            places <= 6,
        ensures
            final(out)@ == old(out)@ + fixed_text(*self, places as nat),
    {
        match self {
            Decimal::Finite(v) => {
                if *v < 0 {
                    out.push('-');
                }
                let ghost start = out@;
                let unit: u64 = ten_to(6 - places);
                let scaled: u128 = divide_half_even(magnitude(*v) as u128, unit as u128);
                let base: u64 = ten_to(places);
                push_u128(out, scaled / (base as u128));
                if places > 0 {
                    out.push('.');
                    push_padded(out, (scaled % (base as u128)) as u64, places as usize);
                }
                proof {
                    let body = fixed_magnitude(abs(*v as int), places as nat);
                    assert(out@ =~= start + body);
                    if *v < 0 {
                        assert(old(out)@.push('-') + body =~= old(out)@ + (seq!['-'] + body));
                    }
                }
            },
            Decimal::NaN => {
                out.push('N');
                out.push('a');
                out.push('N');
                proof {
                    assert(out@ =~= old(out)@ + seq!['N', 'a', 'N']);
                }
            },
            Decimal::PosInfinity => {
                out.push('i');
                out.push('n');
                out.push('f');
                proof {
                    assert(out@ =~= old(out)@ + seq!['i', 'n', 'f']);
                }
            },
            Decimal::NegInfinity => {
                out.push('-');
                out.push('i');
                out.push('n');
                out.push('f');
                proof {
                    assert(out@ =~= old(out)@ + seq!['-', 'i', 'n', 'f']);
                }
            },
        }
    }
}

} // verus!
