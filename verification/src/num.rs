//! Decimal readings and the vendor-defect normalizer.
//!
//! Raw sensor readings arrive as JSON numbers.  They are held exactly as
//! scaled integers: a value is `mant / 10^scale`.  Some vendors report
//! hundredths as whole integers (2134 meaning 21.34), so readings whose
//! magnitude exceeds one hundred are divided by one hundred before they
//! are projected as temperature or humidity gauges.

use vstd::prelude::*;

verus! {

/// Largest `scale` a decoded reading may carry.
pub const MAX_SCALE_IN: u32 = 15;

/// Largest `scale` any reading may carry (normalization adds two).
pub const MAX_SCALE: u32 = 17;

/// A decimal number with value `mant / 10^scale`.
#[derive(Clone, Copy, Debug, PartialEq, Eq, Structural)]
pub struct Num {
    pub mant: i64,
    pub scale: u32,
}

/// `10^k`.
pub open spec fn pow10(k: nat) -> int
    decreases k,
{
    if k == 0 {
        1
    } else {
        10 * pow10((k - 1) as nat)
    }
}

proof fn lemma_pow10_positive(k: nat)
    ensures
        pow10(k) >= 1,
    decreases k,
{
    if k > 0 {
        lemma_pow10_positive((k - 1) as nat);
    }
}

proof fn lemma_pow10_monotonic(j: nat, k: nat)
    requires
        j <= k,
    ensures
        pow10(j) <= pow10(k),
    decreases k,
{
    if j < k {
        lemma_pow10_monotonic(j, (k - 1) as nat);
        lemma_pow10_positive((k - 1) as nat);
    }
}

/// `10^k` as a machine word; `10^18` still fits in a `u64`.
pub fn pow10_u64(k: u32) -> (r: u64)
    requires
        k <= 18,
    ensures
        r == pow10(k as nat),
{
    let mut r: u64 = 1;
    let mut i: u32 = 0;
    while i < k
        invariant
            i <= k <= 18,
            r == pow10(i as nat),
        decreases k - i,
    {
        proof {
            lemma_pow10_monotonic((i + 1) as nat, k as nat);
            lemma_pow10_monotonic(k as nat, 18);
            lemma_pow10_18();
        }
        r = r * 10;
        i = i + 1;
    }
    r
}

proof fn lemma_pow10_18()
    ensures
        pow10(18) == 0x0de0_b6b3_a764_0000,
{
    reveal_with_fuel(pow10, 19);
}

impl Num {
    /// Every reading the engine handles satisfies this: the scale is small
    /// enough for `10^scale` arithmetic in 64 bits, and the mantissa is not
    /// the one `i64` whose magnitude has no `i64` negation.
    pub open spec fn wf(self) -> bool {
        self.scale <= MAX_SCALE && self.mant != i64::MIN
    }

    /// The magnitude of the mantissa, as a mathematical integer.
    pub open spec fn abs_mant(self) -> int {
        if self.mant < 0 {
            -(self.mant as int)
        } else {
            self.mant as int
        }
    }

    /// Whether the magnitude of the value exceeds one hundred.
    pub open spec fn spec_abs_gt_100(self) -> bool {
        self.abs_mant() > 100 * pow10(self.scale as nat)
    }

    /// What normalization yields: the value divided by one hundred when its
    /// magnitude exceeds one hundred, the value itself otherwise.
    pub open spec fn spec_normalize(self) -> Num {
        if self.spec_abs_gt_100() {
            Num { mant: self.mant, scale: (self.scale + 2) as u32 }
        } else {
            self
        }
    }

    /// Whether `|self| > 100`.
    pub fn abs_exceeds_100(&self) -> (r: bool)
        requires
            self.wf(),
        ensures
            r == self.spec_abs_gt_100(),
    {
        let mag: u64 = if self.mant < 0 {
            (-(self.mant)) as u64
        } else {
            self.mant as u64
        };
        proof {
            lemma_pow10_monotonic(self.scale as nat, 17);
            lemma_pow10_positive(self.scale as nat);
            assert(pow10(17) == 0x0163_4578_5d8a_0000) by {
                reveal_with_fuel(pow10, 18);
            }
        }
        let threshold: u64 = 100 * pow10_u64(self.scale);
        mag > threshold
    }

    /// Correct the vendor scaling defect: a reading whose magnitude exceeds
    /// one hundred is divided by one hundred (exactly, by raising the scale);
    /// any other reading is returned unchanged.
    pub fn normalize(&self) -> (r: Num)
        requires
            self.wf(),
            self.scale <= MAX_SCALE_IN,
        ensures
            r == self.spec_normalize(),
            r.wf(),
    {
        if self.abs_exceeds_100() {
            Num { mant: self.mant, scale: self.scale + 2 }
        } else {
            *self
        }
    }
}

/// The decimal digits of `n`, most significant first.
pub open spec fn digits_of(n: nat) -> Seq<u8>
    decreases n,
{
    if n < 10 {
        seq![(48 + n) as u8]
    } else {
        digits_of(n / 10) + seq![(48 + n % 10) as u8]
    }
}

/// Exactly `w` decimal digits of `n`, zero-padded on the left.
pub open spec fn pad_digits(n: nat, w: nat) -> Seq<u8>
    decreases w,
{
    if w == 0 {
        Seq::empty()
    } else {
        pad_digits(n / 10, (w - 1) as nat) + seq![(48 + n % 10) as u8]
    }
}

/// Drop trailing zero fraction digits: divide the mantissa by ten and lower
/// the scale while the scale is positive and the mantissa ends in zero.
pub open spec fn strip_zeros(m: nat, s: nat) -> (nat, nat)
    decreases s,
{
    if s > 0 && m % 10 == 0 {
        strip_zeros(m / 10, (s - 1) as nat)
    } else {
        (m, s)
    }
}

/// The canonical decimal text of the magnitude `m / 10^s`: trailing zero
/// fraction digits are dropped, and a fraction, when one remains, follows
/// a `.` after the (possibly zero) integer part.
pub open spec fn spec_render_mag(m: nat, s: nat) -> Seq<u8> {
    let (m2, s2) = strip_zeros(m, s);
    if s2 == 0 {
        digits_of(m2)
    } else {
        digits_of(m2 / pow10(s2) as nat) + seq![46u8] + pad_digits(m2 % pow10(s2) as nat, s2)
    }
}

/// The canonical decimal text of a reading: a `-` sign for negative values,
/// then the magnitude.
pub open spec fn spec_render(v: Num) -> Seq<u8> {
    if v.mant < 0 {
        seq![45u8] + spec_render_mag((-(v.mant as int)) as nat, v.scale as nat)
    } else {
        spec_render_mag(v.mant as nat, v.scale as nat)
    }
}

/// Append the decimal digits of `n` to `out`.
fn push_digits(n: u64, out: &mut Vec<u8>)
    ensures
        final(out)@ == old(out)@ + digits_of(n as nat),
    decreases n,
{
    if n < 10 {
        out.push(48 + n as u8);
        assert(final(out)@ =~= old(out)@ + digits_of(n as nat));
    } else {
        push_digits(n / 10, out);
        out.push(48 + (n % 10) as u8);
        assert(final(out)@ =~= old(out)@ + digits_of(n as nat));
    }
}

/// Append exactly `w` zero-padded decimal digits of `n` to `out`.
fn push_pad(n: u64, w: u32, out: &mut Vec<u8>)
    requires
        w <= 18,
        n < pow10(w as nat),
    ensures
        final(out)@ == old(out)@ + pad_digits(n as nat, w as nat),
    decreases w,
{
    if w > 0 {
        proof {
            lemma_pow10_positive((w - 1) as nat);
            assert(pow10(w as nat) == 10 * pow10((w - 1) as nat));
            assert(n as int / 10 < pow10((w - 1) as nat)) by (nonlinear_arith)
                requires
                    n < 10 * pow10((w - 1) as nat),
                    pow10((w - 1) as nat) >= 1,
            ;
        }
        push_pad(n / 10, w - 1, out);
        out.push(48 + (n % 10) as u8);
        assert(final(out)@ =~= old(out)@ + pad_digits(n as nat, w as nat));
    }
}

impl Num {
    /// Render the reading as canonical decimal text.
    pub fn to_text(&self) -> (r: Vec<u8>)
        requires
            self.wf(),
        ensures
            r@ == spec_render(*self),
    {
        let mut out: Vec<u8> = Vec::new();
        let mut m: u64;
        if self.mant < 0 {
            out.push(45);
            m = (-(self.mant)) as u64;
        } else {
            m = self.mant as u64;
        }
        let ghost m0: nat = m as nat;
        let ghost s0: nat = self.scale as nat;
        let mut s: u32 = self.scale;
        while s > 0 && m % 10 == 0
            invariant
                s <= MAX_SCALE,
                strip_zeros(m as nat, s as nat) == strip_zeros(m0, s0),
            decreases s,
        {
            m = m / 10;
            s = s - 1;
        }
        assert(strip_zeros(m as nat, s as nat) == (m as nat, s as nat));
        if s == 0 {
            push_digits(m, &mut out);
        } else {
            let p = pow10_u64(s);
            proof {
                lemma_pow10_positive(s as nat);
            }
            push_digits(m / p, &mut out);
            out.push(46);
            push_pad(m % p, s, &mut out);
        }
        proof {
            if self.mant < 0 {
                assert(out@ =~= seq![45u8] + spec_render_mag(m0, s0));
            } else {
                assert(out@ =~= spec_render_mag(m0, s0));
            }
        }
        out
    }
}

/// Law: for every reading `v`, if `|v| > 100` then `normalize(v)` equals
/// `v / 100` as a rational number — cross-multiplied, the numerator of the
/// normalized value times one hundred times the old denominator equals the
/// old numerator times the new denominator — and otherwise `normalize(v)`
/// is exactly `v`.
pub proof fn lemma_normalize_law(v: Num)
    requires
        v.wf(),
        v.scale <= MAX_SCALE_IN,
    ensures
        v.spec_abs_gt_100() ==> v.spec_normalize().mant * (100 * pow10(v.scale as nat)) == v.mant
            * pow10(v.spec_normalize().scale as nat),
        !v.spec_abs_gt_100() ==> v.spec_normalize() == v,
{
    if v.spec_abs_gt_100() {
        let n = v.spec_normalize();
        assert(pow10(n.scale as nat) == 100 * pow10(v.scale as nat)) by {
            reveal_with_fuel(pow10, 3);
            assert(pow10((v.scale + 2) as nat) == 10 * pow10((v.scale + 1) as nat));
            assert(pow10((v.scale + 1) as nat) == 10 * pow10(v.scale as nat));
        }
    }
}

} // verus!
