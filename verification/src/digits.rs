//! Decimal digit strings: what a run of ASCII digits denotes, and how a
//! number is written out.  Shared by the parsing and formatting sides of
//! [`crate::decimal`].

use vstd::prelude::*;

verus! {

use vstd::string::*;

/// `10^n`.
pub open spec fn pow10(n: nat) -> int
    decreases n,
{
    if n == 0 {
        1
    } else {
        10 * pow10((n - 1) as nat)
    }
}

/// `c` is an ASCII decimal digit.
pub open spec fn is_digit(c: char) -> bool {
    48 <= c as u32 <= 57
}

/// The numeric value of a digit character.
pub open spec fn digit_val(c: char) -> int {
    c as u32 - 48
}

/// The digit character for `d` (meaningful for `0 <= d <= 9`).
pub open spec fn digit_char(d: int) -> char {
    if d == 0 {
        '0'
    } else if d == 1 {
        '1'
    } else if d == 2 {
        '2'
    } else if d == 3 {
        '3'
    } else if d == 4 {
        '4'
    } else if d == 5 {
        '5'
    } else if d == 6 {
        '6'
    } else if d == 7 {
        '7'
    } else if d == 8 {
        '8'
    } else {
        '9'
    }
}

/// Every character of `s` is a decimal digit.
pub open spec fn all_digits(s: Seq<char>) -> bool {
    forall|i: int| 0 <= i < s.len() ==> is_digit(#[trigger] s[i])
}

/// The number a digit string denotes, most significant digit first.
pub open spec fn digits_val(s: Seq<char>) -> int
    decreases s.len(),
{
    if s.len() == 0 {
        0
    } else {
        digits_val(s.drop_last()) * 10 + digit_val(s.last())
    }
}

/// The shortest digit string for `n` (so `digits_of(0)` is `"0"`).
pub open spec fn digits_of(n: nat) -> Seq<char>
    decreases n,
{
    if n < 10 {
        seq![digit_char(n as int)]
    } else {
        digits_of(n / 10) + seq![digit_char((n % 10) as int)]
    }
}

/// `n` written with exactly `w` digits, zero-padded on the left.
pub open spec fn padded_digits(n: nat, w: nat) -> Seq<char>
    decreases w,
{
    if w == 0 {
        Seq::empty()
    } else {
        padded_digits(n / 10, (w - 1) as nat) + seq![digit_char((n % 10) as int)]
    }
}

pub proof fn lemma_pow10_pos(n: nat)
    ensures
        pow10(n) >= 1,
    decreases n,
{
    if n > 0 {
        lemma_pow10_pos((n - 1) as nat);
    }
}

pub proof fn lemma_digits_val_nonneg(s: Seq<char>)
    requires
        all_digits(s),
    ensures
        digits_val(s) >= 0,
    decreases s.len(),
{
    if s.len() > 0 {
        assert(all_digits(s.drop_last()));
        lemma_digits_val_nonneg(s.drop_last());
    }
}

/// Concatenation shifts the prefix left by the suffix's width.
pub proof fn lemma_digits_val_append(a: Seq<char>, b: Seq<char>)
    ensures
        digits_val(a + b) == digits_val(a) * pow10(b.len()) + digits_val(b),
    decreases b.len(),
{
    if b.len() == 0 {
        assert(a + b =~= a);
    } else {
        let b0 = b.drop_last();
        assert((a + b).drop_last() =~= a + b0);
        assert((a + b).last() == b.last());
        lemma_digits_val_append(a, b0);
        assert((digits_val(a) * pow10(b0.len())) * 10 == digits_val(a) * (pow10(b0.len()) * 10))
            by {
            vstd::arithmetic::mul::lemma_mul_is_associative(
                digits_val(a),
                pow10(b0.len()),
                10,
            );
        }
        assert(pow10(b.len()) == 10 * pow10(b0.len()));
        vstd::arithmetic::mul::lemma_mul_is_commutative(pow10(b0.len()), 10);
        assert(digits_val(a + b) == (digits_val(a) * pow10(b0.len()) + digits_val(b0)) * 10
            + digit_val(b.last()));
        vstd::arithmetic::mul::lemma_mul_is_distributive_add_other_way(
            10,
            digits_val(a) * pow10(b0.len()),
            digits_val(b0),
        );
    }
}

pub proof fn lemma_pow10_increases(a: nat, b: nat)
    requires
        a <= b,
    ensures
        pow10(a) <= pow10(b),
    decreases b,
{
    if a < b {
        lemma_pow10_increases(a, (b - 1) as nat);
        lemma_pow10_pos((b - 1) as nat);
    }
}

/// A digit string is worth at least any of its prefixes.
pub proof fn lemma_digits_val_prefix_le(a: Seq<char>, b: Seq<char>)
    requires
        all_digits(a),
        all_digits(b),
    ensures
        digits_val(a) <= digits_val(a + b),
{
    lemma_digits_val_append(a, b);
    lemma_digits_val_nonneg(a);
    lemma_digits_val_nonneg(b);
    lemma_pow10_pos(b.len());
    vstd::arithmetic::mul::lemma_mul_inequality(1, pow10(b.len()), digits_val(a));
    vstd::arithmetic::mul::lemma_mul_is_commutative(digits_val(a), pow10(b.len()));
}

/// The digit characters really are digits, with their own values.
pub proof fn lemma_digit_char(d: int)
    requires
        0 <= d <= 9,
    ensures
        is_digit(digit_char(d)),
        digit_val(digit_char(d)) == d,
        digit_char(d) != '.',
        digit_char(d) != '-',
{
}

/// `digits_of` spells its number: all digits, at least one, worth `n`.
pub proof fn lemma_digits_of_val(n: nat)
    ensures
        all_digits(digits_of(n)),
        digits_of(n).len() >= 1,
        digits_val(digits_of(n)) == n,
    decreases n,
{
    if n < 10 {
        lemma_digit_char(n as int);
        let s = digits_of(n);
        assert(s.drop_last() =~= Seq::<char>::empty());
        assert(s.last() == digit_char(n as int));
        assert(digits_val(s) == digits_val(s.drop_last()) * 10 + digit_val(s.last()));
        assert(digits_val(s.drop_last()) == 0);
        assert(digits_val(s) == n);
    } else {
        lemma_digits_of_val(n / 10);
        lemma_digit_char((n % 10) as int);
        let a = digits_of(n / 10);
        let s = digits_of(n);
        assert(s.drop_last() =~= a);
        assert(s.last() == digit_char((n % 10) as int));
        assert(digits_val(s) == digits_val(a) * 10 + (n % 10));
        vstd::arithmetic::div_mod::lemma_fundamental_div_mod(n as int, 10);
        assert forall|i: int| 0 <= i < s.len() implies is_digit(#[trigger] s[i]) by {
            if i < a.len() {
                assert(s[i] == a[i]);
            }
        }
    }
}

/// `padded_digits` spells `n` modulo `10^w` in exactly `w` digits.
pub proof fn lemma_padded_digits_val(n: nat, w: nat)
    ensures
        all_digits(padded_digits(n, w)),
        padded_digits(n, w).len() == w,
        digits_val(padded_digits(n, w)) == n as int % pow10(w),
    decreases w,
{
    lemma_pow10_pos(w);
    if w == 0 {
        assert(n as int % 1 == 0) by {
            vstd::arithmetic::div_mod::lemma_mod_bound(n as int, 1);
        }
    } else {
        lemma_padded_digits_val(n / 10, (w - 1) as nat);
        lemma_digit_char((n % 10) as int);
        let p = pow10((w - 1) as nat);
        lemma_pow10_pos((w - 1) as nat);
        let a = padded_digits(n / 10, (w - 1) as nat);
        let s = padded_digits(n, w);
        assert(s.drop_last() =~= a);
        assert(s.last() == digit_char((n % 10) as int));
        assert(digits_val(s) == digits_val(a) * 10 + (n % 10));
        assert forall|i: int| 0 <= i < s.len() implies is_digit(#[trigger] s[i]) by {
            if i < a.len() {
                assert(s[i] == a[i]);
            }
        }
        let q = n as int / 10;
        let r = n as int % 10;
        vstd::arithmetic::div_mod::lemma_fundamental_div_mod(n as int, 10);
        vstd::arithmetic::div_mod::lemma_fundamental_div_mod(q, p);
        vstd::arithmetic::div_mod::lemma_mod_bound(q, p);
        assert(10 * (p * (q / p)) == (10 * p) * (q / p)) by {
            vstd::arithmetic::mul::lemma_mul_is_associative(10, p, q / p);
        }
        assert(n as int == (10 * p) * (q / p) + (10 * (q % p) + r));
        assert(10 * (q % p) <= 10 * (p - 1)) by {
            vstd::arithmetic::mul::lemma_mul_inequality(q % p, p - 1, 10);
            vstd::arithmetic::mul::lemma_mul_is_commutative(q % p, 10);
            vstd::arithmetic::mul::lemma_mul_is_commutative(p - 1, 10);
        }
        vstd::arithmetic::div_mod::lemma_fundamental_div_mod_converse(
            n as int,
            10 * p,
            q / p,
            10 * (q % p) + r,
        );
        assert(pow10(w) == 10 * p);
        assert(digits_val(s) == (q % p) * 10 + r);
        vstd::arithmetic::mul::lemma_mul_is_commutative(q % p, 10);
    }
}

/// The single-character string for digit `d`.
fn digit_str(d: u64) -> (r: &'static str)
    requires
        d < 10,
    ensures
        r@ =~= seq![digit_char(d as int)],
{
    if d == 0 {
        proof {
            reveal_strlit("0");
        }
        "0"
    } else if d == 1 {
        proof {
            reveal_strlit("1");
        }
        "1"
    } else if d == 2 {
        proof {
            reveal_strlit("2");
        }
        "2"
    } else if d == 3 {
        proof {
            reveal_strlit("3");
        }
        "3"
    } else if d == 4 {
        proof {
            reveal_strlit("4");
        }
        "4"
    } else if d == 5 {
        proof {
            reveal_strlit("5");
        }
        "5"
    } else if d == 6 {
        proof {
            reveal_strlit("6");
        }
        "6"
    } else if d == 7 {
        proof {
            reveal_strlit("7");
        }
        "7"
    } else if d == 8 {
        proof {
            reveal_strlit("8");
        }
        "8"
    } else {
        proof {
            reveal_strlit("9");
        }
        "9"
    }
}

/// Appends `n`'s shortest decimal spelling to `out`.
pub fn push_digits(n: u64, out: &mut String)
    ensures
        final(out)@ == old(out)@ + digits_of(n as nat),
    decreases n,
{
    if n < 10 {
        out.append(digit_str(n));
    } else {
        push_digits(n / 10, out);
        out.append(digit_str(n % 10));
        proof {
            assert((old(out)@ + digits_of((n / 10) as nat)) + seq![
                digit_char((n % 10) as int),
            ] =~= old(out)@ + digits_of(n as nat));
        }
    }
}

/// Appends `n` as exactly `w` digits, zero-padded on the left, to `out`.
pub fn push_padded_digits(n: u64, w: u32, out: &mut String)
    ensures
        final(out)@ == old(out)@ + padded_digits(n as nat, w as nat),
    decreases w,
{
    if w == 0 {
        proof {
            assert(old(out)@ + padded_digits(n as nat, 0) =~= old(out)@);
        }
    } else {
        push_padded_digits(n / 10, w - 1, out);
        out.append(digit_str(n % 10));
        proof {
            assert((old(out)@ + padded_digits((n / 10) as nat, (w - 1) as nat)) + seq![
                digit_char((n % 10) as int),
            ] =~= old(out)@ + padded_digits(n as nat, w as nat));
        }
    }
}

/// `10^e` as a machine integer.
pub fn pow10_u64(e: u32) -> (r: u64)
    requires
        e <= 19,
    ensures
        r as int == pow10(e as nat),
        r >= 1,
{
    proof {
        reveal_with_fuel(pow10, 21);
    }
    if e == 0 {
        1
    } else if e == 1 {
        10
    } else if e == 2 {
        100
    } else if e == 3 {
        1000
    } else if e == 4 {
        10000
    } else if e == 5 {
        100000
    } else if e == 6 {
        1000000
    } else if e == 7 {
        10000000
    } else if e == 8 {
        100000000
    } else if e == 9 {
        1000000000
    } else if e == 10 {
        10000000000
    } else if e == 11 {
        100000000000
    } else if e == 12 {
        1000000000000
    } else if e == 13 {
        10000000000000
    } else if e == 14 {
        100000000000000
    } else if e == 15 {
        1000000000000000
    } else if e == 16 {
        10000000000000000
    } else if e == 17 {
        100000000000000000
    } else if e == 18 {
        1000000000000000000
    } else {
        10000000000000000000
    }
}

} // verus!
