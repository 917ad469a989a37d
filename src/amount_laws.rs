//! Reading back the text of an amount gives the same amount.
use vstd::arithmetic::div_mod::lemma_mod_breakdown;
use vstd::prelude::*;

use crate::calculations::{all_digits, amount_text, digit_char, digits_text, digits_value, digits_without_point, fraction_len, has_point, is_digit, is_mantissa, padded_digits, pow10, strip_zeros, unsigned_part};
use crate::amount::{amount_value, lemma_pow10_add};
use crate::fixed::abs;

verus! {

proof fn lemma_digit_char(d: int)
    requires
        0 <= d < 10,
    ensures
        is_digit(digit_char(d)),
        digit_char(d) as int - '0' as int == d,
{
}

/// Digits without a point read the same with or without it ignored.
proof fn lemma_no_point(s: Seq<char>)
    requires
        all_digits(s),
    ensures
        digits_without_point(s) == digits_value(s),
        !has_point(s),
        fraction_len(s) == 0,
    decreases s.len(),
{
    if s.len() > 0 {
        assert(all_digits(s.drop_last())) by {
            assert forall|i: int| 0 <= i < s.drop_last().len() implies is_digit(#[trigger] s.drop_last()[i]) by {
                assert(s.drop_last()[i] == s[i]);
            }
        }
        assert(is_digit(s[s.len() - 1]));
        lemma_no_point(s.drop_last());
    }
}

/// The decimal text of `n` holds digits only and reads as `n`.
proof fn lemma_digits_text(n: nat)
    ensures
        all_digits(digits_text(n)),
        digits_text(n).len() >= 1,
        digits_value(digits_text(n)) == n,
    decreases n,
{
    let t = digits_text(n);
    if n < 10 {
        lemma_digit_char(n as int);
        assert(t.drop_last() =~= Seq::<char>::empty());
        assert(digits_value(t.drop_last()) == 0);
        assert(t.last() == digit_char(n as int));
    } else {
        lemma_digits_text(n / 10);
        lemma_digit_char((n % 10) as int);
        assert(t.drop_last() =~= digits_text(n / 10));
        assert(t.last() == digit_char((n % 10) as int));
        assert forall|i: int| 0 <= i < t.len() implies is_digit(#[trigger] t[i]) by {
            if i < t.len() - 1 {
                assert(t[i] == digits_text(n / 10)[i]);
            }
        }
        assert(n == (n / 10) * 10 + n % 10);
    }
}

/// The last `width` digits of `n` hold digits only and read as
/// `n % 10^width`.
proof fn lemma_padded(n: nat, width: nat)
    ensures
        all_digits(padded_digits(n, width)),
        padded_digits(n, width).len() == width,
        digits_value(padded_digits(n, width)) == (n as int) % pow10(width),
    decreases width,
{
    let t = padded_digits(n, width);
    if width > 0 {
        let w1 = (width - 1) as nat;
        lemma_padded(n / 10, w1);
        lemma_digit_char((n % 10) as int);
        lemma_pow10_add(w1, 0);
        assert(t.drop_last() =~= padded_digits(n / 10, w1));
        assert forall|i: int| 0 <= i < t.len() implies is_digit(#[trigger] t[i]) by {
            if i < t.len() - 1 {
                assert(t[i] == padded_digits(n / 10, w1)[i]);
            }
        }
        lemma_mod_breakdown(n as int, 10, pow10(w1));
        assert(pow10(width) == 10 * pow10(w1));
    }
}

/// Stripping trailing zeros divides the value by a power of ten and keeps
/// a prefix of digits.
proof fn lemma_strip(s: Seq<char>)
    requires
        all_digits(s),
    ensures
        strip_zeros(s).len() <= s.len(),
        all_digits(strip_zeros(s)),
        digits_value(strip_zeros(s)) * pow10((s.len() - strip_zeros(s).len()) as nat) == digits_value(s),
    decreases s.len(),
{
    if s.len() > 0 && s.last() == '0' {
        let d = s.drop_last();
        assert(all_digits(d)) by {
            assert forall|i: int| 0 <= i < d.len() implies is_digit(#[trigger] d[i]) by {
                assert(d[i] == s[i]);
            }
        }
        lemma_strip(d);
        let k = (d.len() - strip_zeros(d).len()) as nat;
        let v = digits_value(strip_zeros(d));
        assert(pow10(k + 1) == 10 * pow10(k));
        assert(v * (10 * pow10(k)) == (v * pow10(k)) * 10) by (nonlinear_arith);
    } else {
        assert(pow10(0) == 1);
    }
}

/// A point with digits on both sides.
proof fn lemma_point_between(a: Seq<char>, b: Seq<char>)
    requires
        all_digits(a),
        all_digits(b),
    ensures
        fraction_len(a + seq!['.'] + b) == b.len(),
        digits_without_point(a + seq!['.'] + b) == digits_value(a) * pow10(b.len()) + digits_value(b),
        has_point(a + seq!['.'] + b),
    decreases b.len(),
{
    let s = a + seq!['.'] + b;
    if b.len() == 0 {
        assert(s.drop_last() =~= a);
        lemma_no_point(a);
        assert(s.last() == '.');
    } else {
        let b1 = b.drop_last();
        assert(all_digits(b1)) by {
            assert forall|i: int| 0 <= i < b1.len() implies is_digit(#[trigger] b1[i]) by {
                assert(b1[i] == b[i]);
            }
        }
        lemma_point_between(a, b1);
        assert(s.drop_last() =~= a + seq!['.'] + b1);
        assert(s.last() == b.last());
        assert(is_digit(b[b.len() - 1]));
        let p = pow10(b1.len());
        assert(pow10(b.len()) == 10 * p);
        let va = digits_value(a);
        assert((va * p + digits_value(b1)) * 10 == va * (10 * p) + digits_value(b1) * 10) by (nonlinear_arith);
    }
}

/// Reading back the text of any amount gives the amount: the text that
/// `amount_to_text` writes is read by `parse_amount` as the same value.
pub proof fn lemma_amount_text_round_trip(x: i64)
    ensures
        amount_value(amount_text(x as int)) == Some(x),
{
    let a = abs(x as int);
    let w = (a / 1_000_000) as nat;
    let f = a % 1_000_000;
    let whole = digits_text(w);
    lemma_digits_text(w);
    let text = amount_text(x as int);
    let body = if f == 0 {
        whole
    } else {
        whole + seq!['.'] + strip_zeros(padded_digits(f as nat, 6))
    };
    if x < 0 {
        assert(text =~= seq!['-'] + body);
        assert(unsigned_part(text) =~= body);
    } else {
        assert(text == body);
        assert(body[0] == whole[0]);
        assert(is_digit(whole[0]));
        assert(unsigned_part(text) == body);
    }
    assert(is_digit(body[0]));
    if f == 0 {
        lemma_no_point(whole);
        assert(is_mantissa(body));
        assert(pow10(6) == 1_000_000) by {
            reveal_with_fuel(pow10, 7);
        }
        assert(digits_without_point(body) * pow10(6) == a);
    } else {
        let padded = padded_digits(f as nat, 6);
        let frac = strip_zeros(padded);
        lemma_padded(f as nat, 6);
        lemma_strip(padded);
        lemma_point_between(whole, frac);
        let l = frac.len();
        let k = (6 - l) as nat;
        assert(pow10(6) == 1_000_000) by {
            reveal_with_fuel(pow10, 7);
        }
        lemma_pow10_add(l, k);
        assert(l + k == 6);
        assert(f % 1_000_000 == f);
        assert forall|i: int| 0 <= i < body.len() implies is_digit(#[trigger] body[i]) || body[i] == '.' by {
            if i < whole.len() {
                assert(body[i] == whole[i]);
            } else if i > whole.len() {
                assert(body[i] == frac[i - whole.len() - 1]);
            }
        }
        assert forall|i: int, j: int|
            0 <= i < body.len() && 0 <= j < body.len() && #[trigger] body[i] == '.' && #[trigger] body[j] == '.' implies i == j by {
            if i < whole.len() {
                assert(body[i] == whole[i]);
            } else if i > whole.len() {
                assert(body[i] == frac[i - whole.len() - 1]);
            }
            if j < whole.len() {
                assert(body[j] == whole[j]);
            } else if j > whole.len() {
                assert(body[j] == frac[j - whole.len() - 1]);
            }
        }
        assert(is_mantissa(body));
        let vf = digits_value(frac);
        let pl = pow10(l);
        let pk = pow10(k);
        assert((w * pl + vf) * pk == w * (pl * pk) + vf * pk) by (nonlinear_arith);
        assert(digits_without_point(body) * pow10(k) == a);
    }
}

} // verus!
