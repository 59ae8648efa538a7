use vstd::prelude::*;
use vstd::arithmetic::power::{pow, lemma_pow_positive, lemma_pow_adds, lemma_pow1, lemma_pow0};
use vstd::arithmetic::div_mod::{lemma_fundamental_div_mod, lemma_mod_multiples_basic};

verus! {

/// An exact decimal number: the value `mantissa / 10^scale`. This is the
/// representation the reference builder uses for JSON numbers; the two
/// conversions that fill it in are done by an exact-decimal library.
#[derive(Debug, Clone, Copy, PartialEq, Eq, Structural)]
pub struct JNumber {
    pub mantissa: i128,
    pub scale: u32,
}

/// `10^e`.
pub open spec fn pow10(e: nat) -> int {
    pow(10, e)
}

/// `m1 / 10^s1` and `m2 / 10^s2` are the same number.
pub open spec fn same_decimal(m1: int, s1: nat, m2: int, s2: nat) -> bool {
    m1 * pow10(s2) == m2 * pow10(s1)
}

impl JNumber {
    /// The numeric value of `self`, compared exactly: no rounding, no
    /// floating point.
    pub open spec fn same_value(self, other: JNumber) -> bool {
        same_decimal(self.mantissa as int, self.scale as nat, other.mantissa as int, other.scale as nat)
    }

    pub fn new(mantissa: i128, scale: u32) -> (r: JNumber)
        ensures
            r == (JNumber { mantissa, scale }),
    {
        JNumber { mantissa, scale }
    }

    /// Exact numeric equality: `12.340` equals `12.34`, whatever the
    /// scales, and `-0` equals `0`.
    pub fn num_eq(&self, other: &JNumber) -> (b: bool)
        ensures
            b == self.same_value(*other),
    {
        let (nega, maga) = abs_parts(self.mantissa);
        let (negb, magb) = abs_parts(other.mantissa);
        let (ma, sa) = normalize(maga, self.scale);
        let (mb, sb) = normalize(magb, other.scale);
        proof {
            lemma_signed_cross(
                self.mantissa as int,
                self.scale as nat,
                other.mantissa as int,
                other.scale as nat,
                nega,
                maga as int,
                negb,
                magb as int,
            );
            if ma == mb && sa == sb {
                lemma_cross_symm(magb as int, other.scale as nat, mb as int, sb as nat);
                lemma_cross_trans(
                    maga as int,
                    self.scale as nat,
                    ma as int,
                    sa as nat,
                    magb as int,
                    other.scale as nat,
                );
            } else {
                if same_decimal(maga as int, self.scale as nat, magb as int, other.scale as nat) {
                    lemma_cross_symm(maga as int, self.scale as nat, ma as int, sa as nat);
                    lemma_cross_trans(
                        ma as int,
                        sa as nat,
                        maga as int,
                        self.scale as nat,
                        magb as int,
                        other.scale as nat,
                    );
                    lemma_cross_trans(
                        ma as int,
                        sa as nat,
                        magb as int,
                        other.scale as nat,
                        mb as int,
                        sb as nat,
                    );
                    lemma_norm_unique(ma as int, sa as nat, mb as int, sb as nat);
                }
            }
        }
        ma == mb && sa == sb && (nega == negb || ma == 0)
    }
}

/// Sign and magnitude of a mantissa.
fn abs_parts(m: i128) -> (r: (bool, u128))
    ensures
        m as int == if r.0 {
            -(r.1 as int)
        } else {
            r.1 as int
        },
        r.0 ==> m < 0,
{
    if m >= 0 {
        (false, m as u128)
    } else {
        (true, (-(m + 1)) as u128 + 1)
    }
}

/// Strip trailing zero digits: the canonical form of a magnitude and
/// scale, the same number with the smallest scale.
fn normalize(mag: u128, scale: u32) -> (r: (u128, u32))
    ensures
        same_decimal(mag as int, scale as nat, r.0 as int, r.1 as nat),
        r.1 == 0 || r.0 % 10 != 0,
        r.0 == 0 <==> mag == 0,
{
    let mut mg = mag;
    let mut sc = scale;
    while sc > 0 && mg % 10 == 0
        invariant
            same_decimal(mag as int, scale as nat, mg as int, sc as nat),
            mg == 0 <==> mag == 0,
        decreases sc,
    {
        proof {
            lemma_norm_step(mg as int, sc as nat);
            lemma_cross_trans(
                mag as int,
                scale as nat,
                mg as int,
                sc as nat,
                mg as int / 10,
                (sc - 1) as nat,
            );
            lemma_fundamental_div_mod(mg as int, 10);
        }
        mg = mg / 10;
        sc = sc - 1;
    }
    (mg, sc)
}

/// Dividing out one trailing zero digit keeps the number.
proof fn lemma_norm_step(m: int, s: nat)
    requires
        s >= 1,
        m % 10 == 0,
    ensures
        same_decimal(m, s, m / 10, (s - 1) as nat),
{
    lemma_fundamental_div_mod(m, 10);
    lemma_pow1(10);
    lemma_pow_adds(10, (s - 1) as nat, 1);
    assert(pow10(s) == pow10((s - 1) as nat) * 10);
    assert(m * pow10((s - 1) as nat) == (m / 10) * pow10(s)) by (nonlinear_arith)
        requires
            m == 10 * (m / 10),
            pow10(s) == pow10((s - 1) as nat) * 10,
    ;
}

proof fn lemma_cross_symm(m1: int, s1: nat, m2: int, s2: nat)
    requires
        same_decimal(m1, s1, m2, s2),
    ensures
        same_decimal(m2, s2, m1, s1),
{
}

/// Being the same number is transitive.
proof fn lemma_cross_trans(m1: int, s1: nat, m2: int, s2: nat, m3: int, s3: nat)
    requires
        same_decimal(m1, s1, m2, s2),
        same_decimal(m2, s2, m3, s3),
    ensures
        same_decimal(m1, s1, m3, s3),
{
    lemma_pow_positive(10, s1);
    lemma_pow_positive(10, s2);
    lemma_pow_positive(10, s3);
    assert(m1 * pow10(s3) == m3 * pow10(s1)) by (nonlinear_arith)
        requires
            m1 * pow10(s2) == m2 * pow10(s1),
            m2 * pow10(s3) == m3 * pow10(s2),
            pow10(s1) > 0,
            pow10(s2) > 0,
            pow10(s3) > 0,
    ;
}

/// A number in canonical form is written in exactly one way: equal
/// numbers have equal mantissas and scales.
proof fn lemma_norm_unique(m1: int, s1: nat, m2: int, s2: nat)
    requires
        same_decimal(m1, s1, m2, s2),
        m1 >= 0,
        m2 >= 0,
        s1 == 0 || m1 % 10 != 0,
        s2 == 0 || m2 % 10 != 0,
    ensures
        m1 == m2,
        s1 == s2,
{
    if s1 <= s2 {
        lemma_norm_unique_ordered(m1, s1, m2, s2);
    } else {
        lemma_cross_symm(m1, s1, m2, s2);
        lemma_norm_unique_ordered(m2, s2, m1, s1);
    }
}

proof fn lemma_norm_unique_ordered(m1: int, s1: nat, m2: int, s2: nat)
    requires
        same_decimal(m1, s1, m2, s2),
        m1 >= 0,
        m2 >= 0,
        s1 <= s2,
        s2 == 0 || m2 % 10 != 0,
    ensures
        m1 == m2,
        s1 == s2,
{
    let d = (s2 - s1) as nat;
    lemma_pow_positive(10, s1);
    lemma_pow_positive(10, d);
    lemma_pow_adds(10, s1, d);
    assert(m2 == m1 * pow10(d)) by (nonlinear_arith)
        requires
            m1 * pow10(s2) == m2 * pow10(s1),
            pow10(s2) == pow10(s1) * pow10(d),
            pow10(s1) > 0,
    ;
    if d > 0 {
        let pd1 = pow10((d - 1) as nat);
        lemma_pow1(10);
        lemma_pow_adds(10, (d - 1) as nat, 1);
        assert(pow10(d) == pd1 * 10);
        assert(m2 == (m1 * pd1) * 10) by (nonlinear_arith)
            requires
                m2 == m1 * (pd1 * 10),
        ;
        lemma_mod_multiples_basic(m1 * pd1, 10);
        assert(m2 % 10 == 0);
    } else {
        lemma_pow0(10);
        assert(pow10(d) == 1);
        assert(m2 == m1) by (nonlinear_arith)
            requires
                m2 == m1 * pow10(d),
                pow10(d) == 1,
        ;
    }
}

/// Numeric equality of signed mantissas comes down to equality of the
/// magnitudes and compatibility of the signs.
proof fn lemma_signed_cross(
    sm1: int,
    s1: nat,
    sm2: int,
    s2: nat,
    neg1: bool,
    mag1: int,
    neg2: bool,
    mag2: int,
)
    requires
        sm1 == if neg1 {
            -mag1
        } else {
            mag1
        },
        sm2 == if neg2 {
            -mag2
        } else {
            mag2
        },
        mag1 >= 0,
        mag2 >= 0,
    ensures
        same_decimal(sm1, s1, sm2, s2) <==> (same_decimal(mag1, s1, mag2, s2) && (neg1 == neg2
            || (mag1 == 0 && mag2 == 0))),
{
    lemma_pow_positive(10, s1);
    lemma_pow_positive(10, s2);
    assert((sm1 * pow10(s2) == sm2 * pow10(s1)) <==> ((mag1 * pow10(s2) == mag2 * pow10(s1)) && (
    neg1 == neg2 || (mag1 == 0 && mag2 == 0)))) by (nonlinear_arith)
        requires
            sm1 == if neg1 {
                -mag1
            } else {
                mag1
            },
            sm2 == if neg2 {
                -mag2
            } else {
                mag2
            },
            mag1 >= 0,
            mag2 >= 0,
            pow10(s1) > 0,
            pow10(s2) > 0,
    ;
}

/// What `rust_decimal`'s exact conversion makes of a literal: the
/// mantissa and scale of `Decimal::from_str_exact` on these characters,
/// or nothing where that conversion fails. The result depends on the
/// characters alone.
pub uninterp spec fn decimal_exact_of(s: Seq<char>) -> Option<(i128, u32)>;

/// What `rust_decimal`'s scientific-notation conversion makes of a
/// literal: the mantissa and scale of `Decimal::from_scientific` on
/// these characters, or nothing where that conversion fails. The result
/// depends on the characters alone.
pub uninterp spec fn decimal_sci_of(s: Seq<char>) -> Option<(i128, u32)>;

/// Relies on rust_decimal's `Decimal::from_str_exact` (exact parse of a
/// plain decimal literal, an error on anything else or on under- or
/// overflow) and on `Decimal::mantissa` and `Decimal::scale`, which read
/// the two halves of the representation back out.
#[verifier::external_body]
pub fn decimal_from_str_exact(num: &str) -> (r: Option<JNumber>)
    ensures
        match r {
            Some(n) => decimal_exact_of(num@) == Some((n.mantissa, n.scale)),
            None => decimal_exact_of(num@) is None,
        },
{
    match rust_decimal::Decimal::from_str_exact(num) {
        Ok(d) => Some(JNumber { mantissa: d.mantissa(), scale: d.scale() }),
        Err(_) => None,
    }
}

/// Relies on rust_decimal's `Decimal::from_scientific` (parse of a
/// scientific-notation literal `<base>e<exponent>`, an error on anything
/// else or out of range) and on `Decimal::mantissa` and `Decimal::scale`.
#[verifier::external_body]
pub fn decimal_from_scientific(num: &str) -> (r: Option<JNumber>)
    ensures
        match r {
            Some(n) => decimal_sci_of(num@) == Some((n.mantissa, n.scale)),
            None => decimal_sci_of(num@) is None,
        },
{
    match rust_decimal::Decimal::from_scientific(num) {
        Ok(d) => Some(JNumber { mantissa: d.mantissa(), scale: d.scale() }),
        Err(_) => None,
    }
}

} // verus!
