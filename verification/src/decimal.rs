//! Exact base-10 numbers for monetary amounts.
//!
//! A [`Decimal`] stands for `mantissa / 10^scale`.  The representation is
//! kept canonical (no trailing fraction zeros, zero has scale 0), so two
//! `Decimal` values are structurally equal exactly when they denote the same
//! number.  Precision is capped at 18 fraction digits and an `i64` mantissa,
//! which is ample for the amounts the exchange's wire format carries.

use vstd::prelude::*;

verus! {

use crate::digits::{
    all_digits, digits_of, digits_val, is_digit, padded_digits, pow10,
};
use crate::digits::{
    lemma_digits_val_prefix_le, lemma_pow10_increases, pow10_u64, push_digits,
    push_padded_digits,
};
use vstd::string::*;

/// An exact decimal number: `mantissa * 10^(-scale)`, in canonical form.
#[derive(Clone, Copy, Debug, PartialEq, Eq, Structural)]
pub struct Decimal {
    mantissa: i64,
    scale: u32,
}

/// Magnitude of an integer.
pub open spec fn abs_int(m: int) -> nat {
    if m < 0 {
        (-m) as nat
    } else {
        m as nat
    }
}

/// Canonical form of a mantissa/scale pair: trailing zeros of the fraction
/// are dropped, and zero always has scale 0.
pub open spec fn canon_pair(m: int, s: nat) -> (int, nat)
    decreases s,
{
    if m == 0 {
        (0, 0)
    } else if s > 0 && m % 10 == 0 {
        canon_pair(m / 10, (s - 1) as nat)
    } else {
        (m, s)
    }
}

/// The canonical decimal value denoting `m / 10^s` (meaningful when the
/// canonical mantissa fits an `i64` and the canonical scale fits a `u32`).
pub closed spec fn canonical(m: int, s: nat) -> Decimal {
    Decimal { mantissa: canon_pair(m, s).0 as i64, scale: canon_pair(m, s).1 as u32 }
}

/// The texts `Decimal::parse` accepts: a decimal literal whose digits fit
/// an `i64` mantissa, with at most 18 fraction digits.
pub open spec fn spec_parse_ok(s: Seq<char>) -> bool {
    &&& is_decimal_literal(s)
    &&& digits_val(raw_digits(s)) <= i64::MAX
    &&& raw_scale(s) <= 18
}

impl Decimal {
    /// The numerator of the represented number, as stored.
    pub closed spec fn mantissa64(self) -> i64 {
        self.mantissa
    }

    /// The stored number of fraction digits.
    pub closed spec fn scale32(self) -> u32 {
        self.scale
    }

    /// The numerator of the represented number.
    pub open spec fn mantissa(self) -> int {
        self.mantissa64() as int
    }

    /// The power of ten the mantissa is divided by.
    pub open spec fn scale(self) -> nat {
        self.scale32() as nat
    }

    /// The represented value as an integer, when the scale is zero.
    pub fn as_int(&self) -> (r: Option<i64>)
        ensures
            r == if self.scale() == 0 {
                Some(self.mantissa64())
            } else {
                None::<i64>
            },
    {
        if self.scale == 0 {
            Some(self.mantissa)
        } else {
            None
        }
    }

    #[verifier::type_invariant]
    closed spec fn type_inv(self) -> bool {
        self.is_canonical()
    }

    /// Canonical form: at most 18 fraction digits, no trailing fraction
    /// zeros, and zero is represented with scale 0.  Every constructor
    /// establishes this.
    pub open spec fn is_canonical(self) -> bool {
        &&& self.scale() <= 18
        &&& (self.mantissa() == 0 ==> self.scale() == 0)
        &&& (self.scale() > 0 ==> self.mantissa() % 10 != 0)
    }

    /// Builds the canonical decimal for `mantissa / 10^scale`.
    pub fn new(mantissa: i64, scale: u32) -> (r: Decimal)
        requires
            scale <= 18,
        ensures
            (r.mantissa(), r.scale()) == canon_pair(mantissa as int, scale as nat),
            r == canonical(mantissa as int, scale as nat),
            r.is_canonical(),
    {
        let neg = mantissa < 0;
        let mut mag: u64 = if mantissa == i64::MIN {
            9223372036854775808u64
        } else if neg {
            (-mantissa) as u64
        } else {
            mantissa as u64
        };
        let mut s: u32 = scale;
        proof {
            lemma_canon_pair_signed(mantissa as int, mag, s as nat);
        }
        while mag != 0 && s > 0 && mag % 10 == 0
            invariant
                mag <= 9223372036854775808u64,
                !neg ==> mag <= i64::MAX as u64,
                s <= scale,
                neg ==> canon_pair(-(mag as int), s as nat) == canon_pair(
                    mantissa as int,
                    scale as nat,
                ),
                !neg ==> canon_pair(mag as int, s as nat) == canon_pair(
                    mantissa as int,
                    scale as nat,
                ),
            decreases s,
        {
            proof {
                lemma_canon_pair_step(mag, s as nat, neg);
            }
            mag = mag / 10;
            s = s - 1;
        }
        if mag == 0 {
            s = 0;
        }
        let m: i64 = if neg {
            if mag == 9223372036854775808u64 {
                i64::MIN
            } else {
                -(mag as i64)
            }
        } else {
            mag as i64
        };
        proof {
            if s > 0 && neg {
                lemma_neg_mod10(mag);
            }
            lemma_canon_pair_fixed(m as int, s as nat);
        }
        Decimal { mantissa: m, scale: s }
    }

    /// Parses a decimal literal (`-?[0-9]+(\.[0-9]+)?`, no exponent) into
    /// its canonical exact value.  Returns `None` exactly when the text is
    /// not such a literal, its digits overflow an `i64` mantissa, or it has
    /// more than 18 fraction digits.
    pub fn parse(s: &str) -> (r: Option<Decimal>)
        ensures
            r == if spec_parse_ok(s@) {
                Some(canonical(raw_mantissa(s@), raw_scale(s@)))
            } else {
                None::<Decimal>
            },
            r matches Some(d) ==> (d.mantissa(), d.scale()) == canon_pair(
                raw_mantissa(s@),
                raw_scale(s@),
            ) && d.is_canonical(),
    {
        let n = s.unicode_len();
        let neg = if n > 0 {
            s.get_char(0) == '-'
        } else {
            false
        };
        let start: usize = if neg {
            1
        } else {
            0
        };
        let ghost u = unsigned_part(s@);
        proof {
            assert(u =~= s@.subrange(start as int, n as int));
        }
        let mut i = start;
        let mut mag: u128 = 0;
        while i < n && digit_at(s, i)
            invariant
                n == s@.len(),
                start <= i <= n,
                neg == is_neg(s@),
                start == if is_neg(s@) { 1int } else { 0int },
                u == unsigned_part(s@),
                u =~= s@.subrange(start as int, n as int),
                mag <= i64::MAX as u128,
                all_digits(s@.subrange(start as int, i as int)),
                mag as int == digits_val(s@.subrange(start as int, i as int)),
            decreases n - i,
        {
            let c = s.get_char(i);
            let d = (c as u32 - 48) as u128;
            let ghost prev = s@.subrange(start as int, i as int);
            mag = mag * 10 + d;
            i = i + 1;
            proof {
                let cur = s@.subrange(start as int, i as int);
                assert(cur.drop_last() =~= prev);
                assert(cur.last() == s@[i - 1]);
                assert(all_digits(cur));
                assert(mag as int == digits_val(cur));
            }
            if mag > i64::MAX as u128 {
                proof {
                    if is_decimal_literal(s@) {
                        let k = (i - start) as int;
                        assert(unsigned_part(s@).subrange(0, k) =~= s@.subrange(
                            start as int,
                            i as int,
                        ));
                        lemma_parse_overflow(s@, k);
                    }
                }
                return None;
            }
        }
        if i == start {
            proof {
                if is_decimal_literal(s@) {
                    lemma_dot_pos_spec(u);
                    if start < n {
                        assert(u[0] == int_digits(u)[0]);
                        assert(is_digit(s@[start as int]));
                    }
                }
            }
            return None;
        }
        if i == n {
            proof {
                lemma_no_dot(u);
                assert(int_digits(u) =~= u);
                assert(frac_digits(u) =~= Seq::<char>::empty());
                assert(raw_digits(s@) =~= u);
                assert(is_decimal_literal(s@));
            }
            let m64: i64 = mag as i64;
            let m: i64 = if neg {
                -m64
            } else {
                m64
            };
            return Some(Decimal::new(m, 0));
        }
        let c = s.get_char(i);
        if c != '.' {
            proof {
                if is_decimal_literal(s@) {
                    let p = dot_pos(u);
                    let k = (i - start) as int;
                    lemma_dot_pos_spec(u);
                    lemma_literal_chars(s@);
                    assert(u[k] == s@[i as int]);
                    if k < p {
                        assert(is_digit(u[k]));
                    } else if k == p {
                        assert(u[p] == '.');
                    } else {
                        assert(is_digit(u[p]));
                    }
                }
            }
            return None;
        }
        let dot = i;
        i = i + 1;
        let fs = i;
        while i < n && digit_at(s, i)
            invariant
                n == s@.len(),
                start < dot,
                dot < fs <= i <= n,
                fs == dot + 1,
                neg == is_neg(s@),
                start == if is_neg(s@) { 1int } else { 0int },
                u == unsigned_part(s@),
                u =~= s@.subrange(start as int, n as int),
                s@[dot as int] == '.',
                all_digits(s@.subrange(start as int, dot as int)),
                all_digits(s@.subrange(fs as int, i as int)),
                mag <= i64::MAX as u128,
                mag as int == digits_val(
                    s@.subrange(start as int, dot as int) + s@.subrange(fs as int, i as int),
                ),
            decreases n - i,
        {
            let c2 = s.get_char(i);
            let d = (c2 as u32 - 48) as u128;
            let ghost a = s@.subrange(start as int, dot as int);
            let ghost prev = s@.subrange(fs as int, i as int);
            mag = mag * 10 + d;
            i = i + 1;
            proof {
                let cur = s@.subrange(fs as int, i as int);
                assert((a + cur).drop_last() =~= a + prev);
                assert((a + cur).last() == s@[i - 1]);
                assert(all_digits(cur));
                assert(mag as int == digits_val(a + cur));
            }
            if mag > i64::MAX as u128 {
                proof {
                    if is_decimal_literal(s@) {
                        let pd = (dot - start) as int;
                        let k = (i - start) as int;
                        assert(u.subrange(0, pd) =~= s@.subrange(start as int, dot as int));
                        assert(u.subrange(pd + 1, k) =~= s@.subrange(fs as int, i as int));
                        lemma_parse_overflow_frac(s@, pd, k);
                        assert(u.subrange(0, pd) + u.subrange(pd + 1, k) =~= s@.subrange(
                            start as int,
                            dot as int,
                        ) + s@.subrange(fs as int, i as int));
                    }
                }
                return None;
            }
        }
        if i == fs {
            proof {
                if is_decimal_literal(s@) {
                    let p = dot_pos(u);
                    lemma_dot_pos_of_split(u, (dot - start) as int);
                    assert(p == dot - start);
                    if fs == n {
                        assert(p == u.len() - 1);
                    } else {
                        assert(u[p + 1] == frac_digits(u)[0]);
                        assert(is_digit(s@[fs as int]));
                    }
                }
            }
            return None;
        }
        if i < n {
            proof {
                if is_decimal_literal(s@) {
                    let p = dot_pos(u);
                    lemma_dot_pos_of_split(u, (dot - start) as int);
                    let k = (i - start) as int;
                    assert(u[k] == frac_digits(u)[k - p - 1]);
                    assert(is_digit(s@[i as int]));
                }
            }
            return None;
        }
        proof {
            lemma_dot_pos_of_split(u, (dot - start) as int);
            let p = dot_pos(u);
            assert(int_digits(u) =~= s@.subrange(start as int, dot as int));
            assert(frac_digits(u) =~= s@.subrange(fs as int, n as int));
            assert(is_decimal_literal(s@));
            assert(raw_digits(s@) =~= s@.subrange(start as int, dot as int) + s@.subrange(
                fs as int,
                n as int,
            ));
        }
        let width = i - fs;
        if width > 18 {
            return None;
        }
        let m64: i64 = mag as i64;
        let m: i64 = if neg {
            -m64
        } else {
            m64
        };
        Some(Decimal::new(m, width as u32))
    }

    /// The decimal denoting the integer `n`.
    pub fn from_int(n: i64) -> (r: Decimal)
        ensures
            r.mantissa() == n,
            r.scale() == 0,
            r.is_canonical(),
    {
        Decimal { mantissa: n, scale: 0 }
    }

    /// Renders the canonical decimal text: sign, integer digits, and — when
    /// the scale is positive — a dot followed by exactly `scale` fraction
    /// digits.
    pub fn to_string(&self) -> (r: String)
        ensures
            r@ == spec_decimal_str(self.mantissa(), self.scale()),
    {
        proof {
            use_type_invariant(*self);
        }
        let mut out = String::new();
        if self.mantissa < 0 {
            proof {
                reveal_strlit("-");
            }
            out.append("-");
        }
        let mag = mag_of(self.mantissa);
        if self.scale == 0 {
            push_digits(mag, &mut out);
            proof {
                assert(out@ =~= spec_decimal_str(self.mantissa(), self.scale()));
            }
        } else {
            let p = pow10_u64(self.scale);
            push_digits(mag / p, &mut out);
            proof {
                reveal_strlit(".");
            }
            out.append(".");
            push_padded_digits(mag % p, self.scale, &mut out);
            proof {
                assert(out@ =~= spec_decimal_str(self.mantissa(), self.scale()));
            }
        }
        out
    }

    /// The represented value times `10^digits`, when that is an integer in
    /// `i64` range; `None` when the scale exceeds `digits` (the value would
    /// not scale to an integer) or the result overflows.
    pub fn scaled(&self, digits: u32) -> (r: Option<i64>)
        ensures
            match r {
                Some(v) => self.scale() <= digits && v as int == self.mantissa() * pow10(
                    (digits - self.scale()) as nat,
                ),
                None => {
                    ||| self.scale() > digits
                    ||| self.mantissa() * pow10((digits - self.scale()) as nat) > i64::MAX
                    ||| self.mantissa() * pow10((digits - self.scale()) as nat) < i64::MIN
                },
            },
    {
        proof {
            use_type_invariant(*self);
        }
        if digits < self.scale {
            return None;
        }
        let e = digits - self.scale;
        if self.mantissa == 0 {
            return Some(0);
        }
        if e > 18 {
            proof {
                lemma_pow10_huge(self.mantissa as int, e as nat);
            }
            return None;
        }
        let p = pow10_u64(e);
        proof {
            lemma_pow10_increases(e as nat, 18);
            assert(pow10(18) == 1000000000000000000) by {
                reveal_with_fuel(pow10, 20);
            }
            lemma_scaled_product_bounds(self.mantissa as int, p as int);
        }
        let prod: i128 = (self.mantissa as i128) * (p as i128);
        if prod > i64::MAX as i128 || prod < i64::MIN as i128 {
            return None;
        }
        Some(prod as i64)
    }
}

/// Renders `n` as a signed decimal integer string.
pub fn int_string(n: i64) -> (r: String)
    ensures
        r@ == spec_decimal_str(n as int, 0),
{
    let mut out = String::new();
    if n < 0 {
        proof {
            reveal_strlit("-");
        }
        out.append("-");
    }
    let mag = mag_of(n);
    push_digits(mag, &mut out);
    proof {
        assert(out@ =~= spec_decimal_str(n as int, 0));
    }
    out
}

/// The magnitude of `m` as a `u64`.
fn mag_of(m: i64) -> (r: u64)
    ensures
        r as int == abs_int(m as int),
{
    if m == i64::MIN {
        9223372036854775808u64
    } else if m < 0 {
        (-m) as u64
    } else {
        m as u64
    }
}

/// The canonical decimal text for `m / 10^scale`.
pub open spec fn spec_decimal_str(m: int, scale: nat) -> Seq<char> {
    let sign: Seq<char> = if m < 0 {
        seq!['-']
    } else {
        Seq::empty()
    };
    let mag = abs_int(m);
    if scale == 0 {
        sign + digits_of(mag)
    } else {
        sign + digits_of(mag / (pow10(scale) as nat)) + seq!['.'] + padded_digits(
            mag % (pow10(scale) as nat),
            scale,
        )
    }
}

/// Decimal round-trip: the canonical text of a canonical decimal is a
/// decimal literal that parses back to exactly the same value — same
/// mantissa, same scale, nothing rounded.  (The one `i64` mantissa the
/// text cannot carry back is `i64::MIN`, whose magnitude itself overflows
/// the parser's mantissa bound.)
pub proof fn lemma_decimal_round_trip(d: Decimal)
    requires
        d.is_canonical(),
        d.mantissa() != i64::MIN,
    ensures
        is_decimal_literal(spec_decimal_str(d.mantissa(), d.scale())),
        digits_val(raw_digits(spec_decimal_str(d.mantissa(), d.scale()))) <= i64::MAX,
        raw_scale(spec_decimal_str(d.mantissa(), d.scale())) == d.scale(),
        raw_mantissa(spec_decimal_str(d.mantissa(), d.scale())) == d.mantissa(),
        canon_pair(
            raw_mantissa(spec_decimal_str(d.mantissa(), d.scale())),
            raw_scale(spec_decimal_str(d.mantissa(), d.scale())),
        ) == (d.mantissa(), d.scale()),
{
    let m = d.mantissa();
    let sc = d.scale();
    let mag = abs_int(m);
    let s = spec_decimal_str(m, sc);
    assert(('-') as u32 == 45);
    if sc == 0 {
        let ds = digits_of(mag);
        crate::digits::lemma_digits_of_val(mag);
        if m < 0 {
            assert(s == seq!['-'] + ds);
            assert(s[0] == '-');
            assert(is_neg(s));
            assert(unsigned_part(s) =~= ds);
        } else {
            assert(s == Seq::<char>::empty() + ds);
            assert(s =~= ds);
            assert(!is_neg(s)) by {
                if is_neg(s) {
                    assert(is_digit(ds[0]));
                }
            }
            assert(unsigned_part(s) == s);
        }
        let u = unsigned_part(s);
        assert(u =~= ds);
        lemma_no_dot(u);
        assert(int_digits(u) =~= u);
        assert(frac_digits(u) =~= Seq::<char>::empty());
        assert(is_decimal_literal(s));
        assert(raw_digits(s) =~= u);
        assert(digits_val(raw_digits(s)) == mag);
        lemma_canon_pair_fixed(m, 0);
    } else {
        let p = pow10(sc);
        crate::digits::lemma_pow10_pos(sc);
        let ipn = mag / (p as nat);
        let fpn = mag % (p as nat);
        let ids = digits_of(ipn);
        let fds = padded_digits(fpn, sc);
        crate::digits::lemma_digits_of_val(ipn);
        crate::digits::lemma_padded_digits_val(fpn, sc);
        let body = ids + seq!['.'] + fds;
        if m < 0 {
            assert(s == seq!['-'] + ids + seq!['.'] + fds);
            assert(s[0] == '-');
            assert(is_neg(s));
            assert(unsigned_part(s) =~= body);
        } else {
            assert(s == Seq::<char>::empty() + ids + seq!['.'] + fds);
            assert(s =~= body);
            assert(!is_neg(s)) by {
                if is_neg(s) {
                    assert(body[0] == ids[0]);
                    assert(is_digit(ids[0]));
                }
            }
            assert(unsigned_part(s) == s);
        }
        let u = unsigned_part(s);
        assert(u =~= body);
        assert forall|j: int| 0 <= j < ids.len() implies is_digit(#[trigger] u[j]) by {
            assert(u[j] == ids[j]);
        }
        assert(u[ids.len() as int] == '.');
        lemma_dot_pos_of_split(u, ids.len() as int);
        let pd = dot_pos(u);
        assert(pd == ids.len());
        assert(int_digits(u) =~= ids);
        assert(frac_digits(u) =~= fds);
        assert(is_decimal_literal(s));
        let raw = raw_digits(s);
        assert(raw == ids + fds);
        crate::digits::lemma_digits_val_append(ids, fds);
        assert(fpn as int % p == fpn) by {
            vstd::arithmetic::div_mod::lemma_mod_bound(mag as int, p);
            vstd::arithmetic::div_mod::lemma_small_mod(fpn, p as nat);
        }
        assert(digits_val(raw) == ipn * p + fpn);
        assert(mag == ipn * p + fpn) by {
            vstd::arithmetic::div_mod::lemma_fundamental_div_mod(mag as int, p);
            vstd::arithmetic::mul::lemma_mul_is_commutative(p, ipn as int);
        }
        assert(digits_val(raw) == mag);
        assert(raw_scale(s) == sc);
        assert(raw_mantissa(s) == m);
        lemma_canon_pair_fixed(m, sc);
    }
}

/// With more than 18 zeros appended, any nonzero mantissa leaves `i64`
/// range.
proof fn lemma_pow10_huge(m: int, e: nat)
    requires
        m != 0,
        e > 18,
    ensures
        m * pow10(e) > i64::MAX || m * pow10(e) < i64::MIN,
{
    lemma_pow10_increases(19, e);
    assert(pow10(19) == 10000000000000000000) by {
        reveal_with_fuel(pow10, 21);
    }
    if m > 0 {
        vstd::arithmetic::mul::lemma_mul_inequality(1, m, pow10(e));
        vstd::arithmetic::mul::lemma_mul_is_commutative(m, pow10(e));
    } else {
        vstd::arithmetic::mul::lemma_mul_inequality(m, -1, pow10(e));
        vstd::arithmetic::mul::lemma_mul_is_commutative(m, pow10(e));
    }
}

/// The product of an `i64` mantissa and a power of ten up to `10^18` stays
/// inside `i128` range.
proof fn lemma_scaled_product_bounds(m: int, p: int)
    requires
        -0x8000_0000_0000_0000 <= m <= 0x7fff_ffff_ffff_ffff,
        1 <= p <= 1000000000000000000,
    ensures
        m * p <= 0x8000_0000_0000_0000 * 1000000000000000000,
        m * p >= -(0x8000_0000_0000_0000 * 1000000000000000000),
{
    if m >= 0 {
        vstd::arithmetic::mul::lemma_mul_upper_bound(m, 0x8000_0000_0000_0000, p, 1000000000000000000);
        vstd::arithmetic::mul::lemma_mul_inequality(0, m, p);
    } else {
        vstd::arithmetic::mul::lemma_mul_upper_bound(
            -m,
            0x8000_0000_0000_0000,
            p,
            1000000000000000000,
        );
        vstd::arithmetic::mul::lemma_mul_unary_negation(m, p);
        vstd::arithmetic::mul::lemma_mul_inequality(0, -m, p);
    }
}

/// The text carries a leading minus sign.
pub open spec fn is_neg(s: Seq<char>) -> bool {
    s.len() > 0 && s[0] == '-'
}

/// The text with any leading minus sign removed.
pub open spec fn unsigned_part(s: Seq<char>) -> Seq<char> {
    if is_neg(s) {
        s.subrange(1, s.len() as int)
    } else {
        s
    }
}

/// Index of the first `'.'` in `s`, or `s.len()` if there is none.
pub open spec fn dot_pos(s: Seq<char>) -> int
    decreases s.len(),
{
    if s.len() == 0 {
        0
    } else if s[0] == '.' {
        0
    } else {
        1 + dot_pos(s.subrange(1, s.len() as int))
    }
}

/// The digits before the dot of an unsigned decimal text.
pub open spec fn int_digits(u: Seq<char>) -> Seq<char> {
    u.subrange(0, dot_pos(u))
}

/// The digits after the dot of an unsigned decimal text (empty if no dot).
pub open spec fn frac_digits(u: Seq<char>) -> Seq<char> {
    if dot_pos(u) == u.len() {
        Seq::empty()
    } else {
        u.subrange(dot_pos(u) + 1, u.len() as int)
    }
}

/// `s` matches `-?[0-9]+(\.[0-9]+)?`: an optional sign, at least one
/// integer digit, and an optional dot followed by at least one digit.
pub open spec fn is_decimal_literal(s: Seq<char>) -> bool {
    let u = unsigned_part(s);
    let p = dot_pos(u);
    &&& p >= 1
    &&& (p == u.len() || p + 2 <= u.len())
    &&& all_digits(int_digits(u))
    &&& all_digits(frac_digits(u))
}

/// All digits of the text run together, as one unsigned number.
pub open spec fn raw_digits(s: Seq<char>) -> Seq<char> {
    int_digits(unsigned_part(s)) + frac_digits(unsigned_part(s))
}

/// The signed mantissa the text spells out, before canonicalisation.
pub open spec fn raw_mantissa(s: Seq<char>) -> int {
    if is_neg(s) {
        -digits_val(raw_digits(s))
    } else {
        digits_val(raw_digits(s))
    }
}

/// How many fraction digits the text spells out.
pub open spec fn raw_scale(s: Seq<char>) -> nat {
    frac_digits(unsigned_part(s)).len()
}

/// What `dot_pos` returns: the first dot, or the length.
proof fn lemma_dot_pos_spec(u: Seq<char>)
    ensures
        0 <= dot_pos(u) <= u.len(),
        dot_pos(u) < u.len() ==> u[dot_pos(u)] == '.',
        forall|j: int| 0 <= j < dot_pos(u) ==> u[j] != '.',
    decreases u.len(),
{
    if u.len() > 0 && u[0] != '.' {
        let t = u.subrange(1, u.len() as int);
        lemma_dot_pos_spec(t);
        assert forall|j: int| 0 <= j < dot_pos(u) implies u[j] != '.' by {
            if j > 0 {
                assert(u[j] == t[j - 1]);
            }
        }
    }
}

/// Is the `i`-th character of `s` an ASCII digit?
fn digit_at(s: &str, i: usize) -> (b: bool)
    requires
        i < s@.len(),
    ensures
        b == is_digit(s@[i as int]),
{
    let c = s.get_char(i);
    let v = c as u32;
    48 <= v && v <= 57
}

/// A string of digits holds no dot.
proof fn lemma_no_dot(u: Seq<char>)
    requires
        all_digits(u),
    ensures
        dot_pos(u) == u.len(),
{
    lemma_dot_pos_spec(u);
    if dot_pos(u) < u.len() {
        assert(is_digit(u[dot_pos(u)]));
        assert(u[dot_pos(u)] == '.');
        assert(('.') as u32 == 46);
        assert(false);
    }
}

/// When digits fill everything before index `k`, and `k` holds the dot (or
/// is the end), `dot_pos` is `k`.
proof fn lemma_dot_pos_of_split(u: Seq<char>, k: int)
    requires
        0 <= k <= u.len(),
        forall|j: int| 0 <= j < k ==> is_digit(#[trigger] u[j]),
        k < u.len() ==> u[k] == '.',
    ensures
        dot_pos(u) == if k < u.len() {
            k
        } else {
            u.len() as int
        },
{
    lemma_dot_pos_spec(u);
    let p = dot_pos(u);
    assert(('.') as u32 == 46);
    if p < k {
        assert(is_digit(u[p]));
        assert(u[p] == '.');
        assert(false);
    }
    if k < u.len() && p > k {
        assert(u[k] != '.');
        assert(false);
    }
}

/// In a decimal literal, every position of the unsigned part except the
/// dot's holds a digit.
proof fn lemma_literal_chars(s: Seq<char>)
    requires
        is_decimal_literal(s),
    ensures
        forall|j: int|
            0 <= j < unsigned_part(s).len() && j != dot_pos(unsigned_part(s)) ==> is_digit(
                #[trigger] unsigned_part(s)[j],
            ),
{
    let u = unsigned_part(s);
    let p = dot_pos(u);
    lemma_dot_pos_spec(u);
    assert forall|j: int| 0 <= j < u.len() && j != p implies is_digit(u[j]) by {
        if j < p {
            assert(u[j] == int_digits(u)[j]);
            assert(is_digit(int_digits(u)[j]));
        } else {
            assert(u[j] == frac_digits(u)[j - p - 1]);
            assert(is_digit(frac_digits(u)[j - p - 1]));
        }
    }
}

/// Digits already scanned bound the value of the whole literal from below
/// (integer-part stage).
proof fn lemma_parse_overflow(s: Seq<char>, k: int)
    requires
        is_decimal_literal(s),
        0 < k <= unsigned_part(s).len(),
        all_digits(unsigned_part(s).subrange(0, k)),
    ensures
        digits_val(raw_digits(s)) >= digits_val(unsigned_part(s).subrange(0, k)),
{
    let u = unsigned_part(s);
    let p = dot_pos(u);
    lemma_dot_pos_spec(u);
    assert(('.') as u32 == 46);
    if p < k {
        assert(is_digit(u.subrange(0, k)[p]));
        assert(u[p] == '.');
        assert(false);
    }
    let acc = u.subrange(0, k);
    let tail = u.subrange(k, p) + frac_digits(u);
    assert(raw_digits(s) =~= acc + tail);
    assert forall|j: int| 0 <= j < tail.len() implies is_digit(#[trigger] tail[j]) by {
        if j < p - k {
            assert(tail[j] == int_digits(u)[k + j]);
            assert(is_digit(int_digits(u)[k + j]));
        } else {
            assert(tail[j] == frac_digits(u)[j - (p - k)]);
            assert(is_digit(frac_digits(u)[j - (p - k)]));
        }
    }
    lemma_digits_val_prefix_le(acc, tail);
}

/// Digits already scanned bound the value of the whole literal from below
/// (fraction-part stage).  `pd` is the dot's index in the unsigned part,
/// `k` the scan position.
proof fn lemma_parse_overflow_frac(s: Seq<char>, pd: int, k: int)
    requires
        is_decimal_literal(s),
        0 < pd,
        pd + 1 < k <= unsigned_part(s).len(),
        unsigned_part(s)[pd] == '.',
        all_digits(unsigned_part(s).subrange(0, pd)),
    ensures
        digits_val(raw_digits(s)) >= digits_val(
            unsigned_part(s).subrange(0, pd) + unsigned_part(s).subrange(pd + 1, k),
        ),
{
    let u = unsigned_part(s);
    assert forall|j: int| 0 <= j < pd implies is_digit(#[trigger] u[j]) by {
        assert(u[j] == u.subrange(0, pd)[j]);
    }
    lemma_dot_pos_of_split(u, pd);
    let a = u.subrange(0, pd);
    let cf = u.subrange(pd + 1, k);
    let rest = u.subrange(k, u.len() as int);
    assert(int_digits(u) =~= a);
    assert(frac_digits(u) =~= cf + rest);
    assert(raw_digits(s) =~= (a + cf) + rest);
    assert forall|j: int| 0 <= j < (a + cf).len() implies is_digit(#[trigger] (a + cf)[j]) by {
        if j >= pd {
            assert((a + cf)[j] == frac_digits(u)[j - pd]);
            assert(is_digit(frac_digits(u)[j - pd]));
        }
    }
    assert forall|j: int| 0 <= j < rest.len() implies is_digit(#[trigger] rest[j]) by {
        assert(rest[j] == frac_digits(u)[k - pd - 1 + j]);
        assert(is_digit(frac_digits(u)[k - pd - 1 + j]));
    }
    lemma_digits_val_prefix_le(a + cf, rest);
}

/// `canon_pair` agrees on a signed mantissa and its magnitude.
proof fn lemma_canon_pair_signed(m: int, mag: u64, s: nat)
    requires
        m < 0 ==> mag == -m,
        m >= 0 ==> mag == m,
    ensures
        m < 0 ==> canon_pair(-(mag as int), s) == canon_pair(m, s),
        m >= 0 ==> canon_pair(mag as int, s) == canon_pair(m, s),
{
}

/// One canonicalisation step, on the magnitude.
proof fn lemma_canon_pair_step(mag: u64, s: nat, neg: bool)
    requires
        mag != 0,
        s > 0,
        mag % 10 == 0,
    ensures
        canon_pair(mag as int, s) == canon_pair((mag / 10) as int, (s - 1) as nat),
        canon_pair(-(mag as int), s) == canon_pair(-((mag / 10) as int), (s - 1) as nat),
{
    let m: int = mag as int;
    assert(m % 10 == 0);
    assert(m / 10 == (mag / 10) as int);
    assert((-m) % 10 == 0) by {
        assert(m == 10 * (m / 10));
        assert(-m == 10 * (-(m / 10)) + 0);
        vstd::arithmetic::div_mod::lemma_fundamental_div_mod_converse(-m, 10, -(m / 10), 0);
    }
    assert((-m) / 10 == -(m / 10)) by {
        assert(-m == 10 * (-(m / 10)) + 0);
        vstd::arithmetic::div_mod::lemma_fundamental_div_mod_converse(-m, 10, -(m / 10), 0);
    }
}

/// Negating a number keeps (in)divisibility by ten.
proof fn lemma_neg_mod10(mag: u64)
    requires
        mag % 10 != 0,
    ensures
        (-(mag as int)) % 10 != 0,
{
    let q = mag as int / 10;
    let r = mag as int % 10;
    assert(mag as int == 10 * q + r);
    assert(-(mag as int) == 10 * (-q - 1) + (10 - r));
    vstd::arithmetic::div_mod::lemma_fundamental_div_mod_converse(
        -(mag as int),
        10,
        -q - 1,
        10 - r,
    );
}

/// A pair whose mantissa is not divisible by ten (or whose scale is zero,
/// or whose mantissa is zero with scale zero) is its own canonical form.
proof fn lemma_canon_pair_fixed(m: int, s: nat)
    requires
        m == 0 ==> s == 0,
        s > 0 ==> m % 10 != 0,
    ensures
        canon_pair(m, s) == (m, s),
{
}

} // verus!
