//! Amounts written as text: a sign, a decimal number and an optional
//! exponent, read exactly into millionths.
use vstd::arithmetic::div_mod::{lemma_basic_div, lemma_div_multiples_vanish, lemma_fundamental_div_mod, lemma_mod_multiples_basic, lemma_small_mod};
use vstd::arithmetic::mul::lemma_mul_equality_converse;
use vstd::prelude::*;

use crate::calculations::{
    chars_of, digits_value, digits_without_point, exponent_mark_at, fraction_len, has_point, integer_at,
    integer_value, is_digit, is_exponent_mark, is_mantissa, mantissa_at, pow10, unsigned_part,
};

verus! {

/// Beyond this magnitude an exponent is only known to be large: no amount
/// with a nonzero digit can have it.
pub const EXPONENT_CAP: i128 = 100_000_000_000_000_000_000;

/// `k` is the position of the first exponent mark of `s`.
pub open spec fn is_first_mark(s: Seq<char>, k: int) -> bool {
    &&& 0 <= k < s.len()
    &&& is_exponent_mark(s[k])
    &&& forall|j: int| 0 <= j < k ==> !is_exponent_mark(#[trigger] s[j])
}

/// The position of the first exponent mark (`e` or `E`) of `s`, if any.
pub open spec fn exponent_index(s: Seq<char>) -> Option<int> {
    if exists|k: int| is_first_mark(s, k) {
        Some(choose|k: int| is_first_mark(s, k))
    } else {
        None
    }
}

/// The part of `s` before its exponent.
pub open spec fn mantissa_of(s: Seq<char>) -> Seq<char> {
    match exponent_index(s) {
        Some(k) => s.take(k),
        None => s,
    }
}

/// The exponent of `s`: the signed integer after the mark, zero without a
/// mark, `None` where what follows the mark is no integer.
pub open spec fn exponent_of(s: Seq<char>) -> Option<int> {
    match exponent_index(s) {
        Some(k) => integer_value(s.skip(k + 1)),
        None => Some(0),
    }
}

/// `d * 10^power`, where that is an integer.
pub open spec fn scaled(d: int, power: int) -> Option<int> {
    if power >= 0 {
        Some(d * pow10(power as nat))
    } else if d % pow10((-power) as nat) == 0 {
        Some(d / pow10((-power) as nat))
    } else {
        None
    }
}

/// The amount that `s` writes, in millionths: an optional sign, digits
/// with at most one decimal point (at least one digit), then optionally
/// `e` or `E` and a signed integer exponent. `s` writes an amount where its
/// value is a whole number of millionths that fits an `i64`: `"19.99"` is
/// `19_990_000`, `"1e3"` is `1_000_000_000`, `"2.5E-6"` is none.
pub open spec fn amount_value(s: Seq<char>) -> Option<i64> {
    let body = unsigned_part(s);
    let m = mantissa_of(body);
    match exponent_of(body) {
        Some(e) => if is_mantissa(m) {
            match scaled(digits_without_point(m), 6 - fraction_len(m) + e) {
                Some(mag) => {
                    let v = if s.len() > 0 && s[0] == '-' {
                        -mag
                    } else {
                        mag
                    };
                    if i64::MIN <= v <= i64::MAX {
                        Some(v as i64)
                    } else {
                        None
                    }
                },
                None => None,
            }
        } else {
            None
        },
        None => None,
    }
}

/// The amount `s` writes, or zero where it writes none.
pub open spec fn amount_or_zero(s: Seq<char>) -> i64 {
    match amount_value(s) {
        Some(v) => v,
        None => 0,
    }
}

/// Powers of ten multiply by adding exponents.
pub proof fn lemma_pow10_add(a: nat, b: nat)
    ensures
        pow10(a + b) == pow10(a) * pow10(b),
        pow10(a) > 0,
    decreases a,
{
    if a > 0 {
        lemma_pow10_add((a - 1) as nat, b);
        assert(pow10(a + b) == 10 * pow10((a - 1 + b) as nat));
        assert(10 * (pow10((a - 1) as nat) * pow10(b)) == (10 * pow10((a - 1) as nat)) * pow10(b)) by (nonlinear_arith);
        assert(10 * pow10((a - 1) as nat) > 0) by (nonlinear_arith)
            requires
                pow10((a - 1) as nat) > 0,
        ;
    }
}

proof fn lemma_pow10_19(n: nat)
    requires
        n <= 19,
    ensures
        0 < pow10(n) <= 10_000_000_000_000_000_000,
{
    lemma_pow10_add(n, (19 - n) as nat);
    lemma_pow10_add((19 - n) as nat, 0);
    reveal_with_fuel(pow10, 20);
    assert(pow10(n) * pow10((19 - n) as nat) >= pow10(n)) by (nonlinear_arith)
        requires
            pow10(n) > 0,
            pow10((19 - n) as nat) >= 1,
    ;
}

/// At least 10^20 from twenty on.
proof fn lemma_pow10_large(n: nat)
    requires
        n >= 20,
    ensures
        pow10(n) >= 100_000_000_000_000_000_000,
{
    lemma_pow10_add(20, (n - 20) as nat);
    lemma_pow10_add((n - 20) as nat, 0);
    reveal_with_fuel(pow10, 21);
    assert(pow10(20) * pow10((n - 20) as nat) >= pow10(20)) by (nonlinear_arith)
        requires
            pow10((n - 20) as nat) >= 1,
            pow10(20) > 0,
    ;
}

/// Digits followed by enough zeros are scaled exactly.
proof fn lemma_scaled_whole(s: int, z: nat, shift: int)
    requires
        s >= 0,
        shift + z >= 0,
    ensures
        scaled(s * pow10(z), shift) == Some(s * pow10((shift + z) as nat)),
{
    let p = (shift + z) as nat;
    if shift >= 0 {
        lemma_pow10_add(z, shift as nat);
        assert(s * pow10(z) * pow10(shift as nat) == s * (pow10(z) * pow10(shift as nat))) by (nonlinear_arith);
    } else {
        let k = (-shift) as nat;
        lemma_pow10_add(p, k);
        lemma_pow10_add(k, 0);
        assert(p + k == z);
        let x = s * pow10(p);
        assert(s * pow10(z) == x * pow10(k)) by (nonlinear_arith)
            requires
                pow10(z) == pow10(p) * pow10(k),
                x == s * pow10(p),
        ;
        lemma_mod_multiples_basic(x, pow10(k));
        lemma_div_multiples_vanish(x, pow10(k));
        assert(x * pow10(k) == pow10(k) * x) by (nonlinear_arith);
    }
}

/// Zero is scaled to zero.
proof fn lemma_scaled_zero(z: nat, shift: int)
    ensures
        scaled(0 * pow10(z), shift) == Some(0int),
{
    assert(0 * pow10(z) == 0);
    if shift < 0 {
        let k = (-shift) as nat;
        lemma_pow10_add(k, 0);
        lemma_small_mod(0, pow10(k) as nat);
        lemma_basic_div(0, pow10(k));
    } else {
        assert(0 * pow10(shift as nat) == 0);
    }
}

/// Digits that do not end in zero, followed by too few zeros, are no
/// whole number once scaled.
proof fn lemma_scaled_none(s: int, z: nat, shift: int)
    requires
        s > 0,
        s % 10 != 0,
        shift + z < 0,
    ensures
        scaled(s * pow10(z), shift) is None,
{
    let k = (-shift) as nat;
    let rest = (k - z - 1) as nat;
    lemma_pow10_add(z, (k - z) as nat);
    lemma_pow10_add((k - z) as nat, 0);
    lemma_pow10_add(rest, 0);
    assert(z + (k - z) == k);
    let d = s * pow10(z);
    lemma_pow10_add(k, 0);
    if d % pow10(k) == 0 {
        lemma_fundamental_div_mod(d, pow10(k));
        let q = d / pow10(k);
        let pz = pow10(z);
        let pr = pow10(rest);
        assert(pow10((k - z) as nat) == 10 * pr);
        assert(pz * s == pz * (q * 10 * pr)) by (nonlinear_arith)
            requires
                d == s * pz,
                d == pow10(k) * q + 0,
                pow10(k) == pz * pow10((k - z) as nat),
                pow10((k - z) as nat) == 10 * pr,
        ;
        lemma_mul_equality_converse(pz, s, q * 10 * pr);
        lemma_mod_multiples_basic(q * pr, 10);
        assert(q * 10 * pr == q * pr * 10) by (nonlinear_arith);
    }
}

/// Reading further digits never lowers the value read so far.
proof fn lemma_digits_prefix(s: Seq<char>, k: int)
    requires
        0 <= k <= s.len(),
        forall|i: int| 0 <= i < s.len() ==> is_digit(#[trigger] s[i]) || s[i] == '.',
    ensures
        0 <= digits_without_point(s.take(k)) <= digits_without_point(s),
    decreases s.len(),
{
    if s.len() > 0 {
        let t = s.drop_last();
        assert forall|i: int| 0 <= i < t.len() implies is_digit(#[trigger] t[i]) || t[i] == '.' by {
            assert(t[i] == s[i]);
        }
        if k == s.len() {
            assert(s.take(k) =~= s);
            lemma_digits_prefix(t, k - 1);
            assert(t.take(k - 1) =~= t);
        } else {
            lemma_digits_prefix(t, k);
            assert(t.take(k) =~= s.take(k));
        }
    }
}

/// The exponent written in `v[lo..hi]`, or `None` where it is no signed
/// integer; an exponent beyond `EXPONENT_CAP` is given as the cap.
fn exponent_at(v: &Vec<char>, lo: usize, hi: usize) -> (r: Option<i128>)
    requires
        lo <= hi <= v@.len(),
    ensures
        match integer_value(v@.subrange(lo as int, hi as int)) {
            None => r is None,
            Some(x) => r is Some && (r->0 == x || (x >= EXPONENT_CAP && r->0 == EXPONENT_CAP) || (x
                <= -EXPONENT_CAP && r->0 == -EXPONENT_CAP)),
        },
        r is Some ==> -EXPONENT_CAP <= r->0 <= EXPONENT_CAP,
{
    if !integer_at(v, lo, hi) {
        return None;
    }
    let ghost sub = v@.subrange(lo as int, hi as int);
    let negative = lo < hi && v[lo] == '-';
    let start = if lo < hi && (v[lo] == '+' || v[lo] == '-') {
        lo + 1
    } else {
        lo
    };
    proof {
        assert(unsigned_part(sub) =~= v@.subrange(start as int, hi as int));
        assert forall|k: int| start <= k < hi implies is_digit(#[trigger] v@[k]) by {
            assert(unsigned_part(sub)[k - start] == v@[k]);
        }
        assert(v@.subrange(start as int, start as int) =~= Seq::<char>::empty());
    }
    let mut acc: i128 = 0;
    let mut i: usize = start;
    while i < hi
        invariant
            start <= i <= hi <= v@.len(),
            forall|k: int| start <= k < hi ==> is_digit(#[trigger] v@[k]),
            (acc < EXPONENT_CAP && acc == digits_value(v@.subrange(start as int, i as int))) || (acc
                == EXPONENT_CAP && digits_value(v@.subrange(start as int, i as int)) >= EXPONENT_CAP),
            0 <= acc <= EXPONENT_CAP,
        decreases hi - i,
    {
        let c = v[i];
        proof {
            assert(v@.subrange(start as int, i + 1).drop_last() =~= v@.subrange(start as int, i as int));
            assert(v@.subrange(start as int, i + 1).last() == c);
            assert(is_digit(v@[i as int]));
        }
        if acc < EXPONENT_CAP {
            let t = acc * 10 + (c as u32 - '0' as u32) as i128;
            acc = if t >= EXPONENT_CAP {
                EXPONENT_CAP
            } else {
                t
            };
        }
        i = i + 1;
    }
    if negative {
        Some(-acc)
    } else {
        Some(acc)
    }
}

/// The end of the significant digits of `v[lo..hi]`: after it come only
/// zeros and points.
fn significant_end(v: &Vec<char>, lo: usize, hi: usize) -> (t: usize)
    requires
        lo <= hi <= v@.len(),
        forall|j: int| lo <= j < hi ==> is_digit(#[trigger] v@[j]) || v@[j] == '.',
    ensures
        lo <= t <= hi,
        t > lo ==> is_digit(v@[t - 1]) && v@[t - 1] != '0',
        forall|j: int| t <= j < hi ==> #[trigger] v@[j] == '0' || v@[j] == '.',
{
    let mut t = lo;
    let mut i = lo;
    while i < hi
        invariant
            lo <= t <= i <= hi <= v@.len(),
            forall|j: int| lo <= j < hi ==> is_digit(#[trigger] v@[j]) || v@[j] == '.',
            t > lo ==> is_digit(v@[t - 1]) && v@[t - 1] != '0',
            forall|j: int| t <= j < i ==> #[trigger] v@[j] == '0' || v@[j] == '.',
        decreases hi - i,
    {
        if v[i] != '0' && v[i] != '.' {
            t = i + 1;
        }
        i = i + 1;
    }
    t
}

/// The parts of the mantissa `v[lo..hi]` whose significant digits end at
/// `t`: their value `s` (exact unless `big`, which tells that it exceeds
/// 10^19), the number of zeros after them, and the number of digits after
/// the point.
fn mantissa_parts(v: &Vec<char>, lo: usize, hi: usize, t: usize) -> (r: (i128, bool, usize, usize))
    requires
        lo <= t <= hi <= v@.len(),
        forall|j: int| lo <= j < hi ==> is_digit(#[trigger] v@[j]) || v@[j] == '.',
        t > lo ==> is_digit(v@[t - 1]) && v@[t - 1] != '0',
        forall|j: int| t <= j < hi ==> #[trigger] v@[j] == '0' || v@[j] == '.',
    ensures
        ({
            let s = digits_without_point(v@.subrange(lo as int, t as int));
            let (sig, big, zeros, frac) = r;
            &&& digits_without_point(v@.subrange(lo as int, hi as int)) == s * pow10(zeros as nat)
            &&& frac == fraction_len(v@.subrange(lo as int, hi as int))
            &&& s >= 0
            &&& s == 0 || s % 10 != 0
            &&& big ==> s > 10_000_000_000_000_000_000
            &&& !big ==> sig == s && sig <= 10_000_000_000_000_000_000
        }),
{
    let ghost mut exact: int = 0;
    let mut sig: i128 = 0;
    let mut big = false;
    let mut zeros: usize = 0;
    let mut frac: usize = 0;
    let mut seen_point = false;
    let mut i = lo;
    proof {
        assert(v@.subrange(lo as int, lo as int) =~= Seq::<char>::empty());
    }
    while i < hi
        invariant
            lo <= i <= hi <= v@.len(),
            lo <= t <= hi,
            forall|j: int| lo <= j < hi ==> is_digit(#[trigger] v@[j]) || v@[j] == '.',
            forall|j: int| t <= j < hi ==> #[trigger] v@[j] == '0' || v@[j] == '.',
            t > lo ==> is_digit(v@[t - 1]) && v@[t - 1] != '0',
            seen_point == has_point(v@.subrange(lo as int, i as int)),
            frac == fraction_len(v@.subrange(lo as int, i as int)),
            frac <= i - lo,
            zeros <= i - lo,
            exact >= 0,
            i <= t ==> zeros == 0 && exact == digits_without_point(v@.subrange(lo as int, i as int)),
            i >= t ==> exact == digits_without_point(v@.subrange(lo as int, t as int))
                && digits_without_point(v@.subrange(lo as int, i as int)) == exact * pow10(zeros as nat),
            big ==> exact > 10_000_000_000_000_000_000,
            !big ==> sig == exact && sig <= 10_000_000_000_000_000_000,
        decreases hi - i,
    {
        let c = v[i];
        let ghost before = v@.subrange(lo as int, i as int);
        proof {
            assert(v@.subrange(lo as int, i + 1).drop_last() =~= before);
            assert(v@.subrange(lo as int, i + 1).last() == c);
            assert(pow10(0) == 1);
        }
        if c == '.' {
            seen_point = true;
            frac = 0;
        } else {
            if seen_point {
                frac = frac + 1;
            }
            if i < t {
                let d = (c as u32 - '0' as u32) as i128;
                proof {
                    exact = exact * 10 + d;
                }
                if !big {
                    let next = sig * 10 + d;
                    if next > 10_000_000_000_000_000_000 {
                        big = true;
                    } else {
                        sig = next;
                    }
                }
            } else {
                proof {
                    let p = pow10(zeros as nat);
                    assert(pow10((zeros + 1) as nat) == 10 * p);
                    assert(exact * p * 10 == exact * (10 * p)) by (nonlinear_arith);
                }
                zeros = zeros + 1;
            }
        }
        i = i + 1;
    }
    proof {
        if t > lo {
            let sig_digits = v@.subrange(lo as int, t as int);
            assert(sig_digits.drop_last() =~= v@.subrange(lo as int, t - 1));
            assert(sig_digits.last() == v@[t - 1]);
            let head = digits_without_point(v@.subrange(lo as int, t - 1));
            lemma_digits_prefix(v@.subrange(lo as int, hi as int), t - 1 - lo);
            assert(v@.subrange(lo as int, hi as int).take(t - 1 - lo) =~= v@.subrange(lo as int, t - 1));
            assert((head * 10 + (v@[t - 1] as int - '0' as int)) % 10 == v@[t - 1] as int - '0' as int);
        } else {
            assert(v@.subrange(lo as int, t as int) =~= Seq::<char>::empty());
        }
    }
    (sig, big, zeros, frac)
}

/// `sig * 10^p` for a small power.
fn times_pow10(sig: i128, p: usize) -> (r: i128)
    requires
        0 <= sig <= 10_000_000_000_000_000_000,
        p <= 19,
    ensures
        r == sig * pow10(p as nat),
{
    let mut r = sig;
    let mut i: usize = 0;
    while i < p
        invariant
            0 <= i <= p <= 19,
            0 <= sig <= 10_000_000_000_000_000_000,
            r == sig * pow10(i as nat),
        decreases p - i,
    {
        proof {
            lemma_pow10_19((i + 1) as nat);
            let q = pow10(i as nat);
            assert(pow10((i + 1) as nat) == 10 * q);
            assert(sig * q * 10 == sig * (10 * q)) by (nonlinear_arith);
            assert(0 <= sig * (10 * q) <= 10_000_000_000_000_000_000 * 10_000_000_000_000_000_000) by (nonlinear_arith)
                requires
                    0 <= sig <= 10_000_000_000_000_000_000,
                    0 < 10 * q <= 10_000_000_000_000_000_000,
            ;
        }
        r = r * 10;
        i = i + 1;
    }
    r
}

/// The exponent mark that `exponent_mark_at` finds is the first one.
proof fn lemma_first_mark(body: Seq<char>, k: Option<int>)
    requires
        match k {
            None => forall|j: int| 0 <= j < body.len() ==> !is_exponent_mark(#[trigger] body[j]),
            Some(k) => is_first_mark(body, k),
        },
    ensures
        exponent_index(body) == k,
{
    match k {
        None => {},
        Some(k) => {
            let k2 = choose|k2: int| is_first_mark(body, k2);
            assert(is_first_mark(body, k2));
            if k2 < k {
                assert(!is_exponent_mark(body[k2]));
            } else if k2 > k {
                assert(!is_exponent_mark(body[k]));
            }
        },
    }
}

/// What the mark that `exponent_mark_at` finds tells of `v[lo..n]`.
proof fn lemma_mark_split(v: Seq<char>, lo: int, n: int, mark: Option<usize>)
    requires
        0 <= lo <= n <= v.len(),
        match mark {
            None => forall|k: int| lo <= k < n ==> !is_exponent_mark(#[trigger] v[k]),
            Some(k) => lo <= k < n && is_exponent_mark(v[k as int]) && forall|j: int|
                lo <= j < k ==> !is_exponent_mark(#[trigger] v[j]),
        },
    ensures
        ({
            let body = v.subrange(lo, n);
            match mark {
                Some(k) => mantissa_of(body) == v.subrange(lo, k as int) && exponent_of(body) == integer_value(
                    v.subrange(k + 1, n),
                ),
                None => mantissa_of(body) == body && exponent_of(body) == Some(0int),
            }
        }),
{
    let body = v.subrange(lo, n);
    match mark {
        Some(k) => {
            assert forall|j: int| 0 <= j < k - lo implies !is_exponent_mark(#[trigger] body[j]) by {
                assert(body[j] == v[lo + j]);
            }
            assert(body[k - lo] == v[k as int]);
            lemma_first_mark(body, Some(k - lo));
            assert(body.take(k - lo) =~= v.subrange(lo, k as int));
            assert(body.skip(k - lo + 1) =~= v.subrange(k + 1, n));
        },
        None => {
            assert forall|j: int| 0 <= j < body.len() implies !is_exponent_mark(#[trigger] body[j]) by {
                assert(body[j] == v[lo + j]);
            }
            lemma_first_mark(body, None);
        },
    }
}

/// The amount that `input` writes, in millionths, or `None` where it
/// writes none: see `amount_value`.
pub fn parse_amount(input: &str) -> (r: Option<i64>)
    ensures
        r == amount_value(input@),
{
    let v = chars_of(input);
    let n = v.len();
    let negative = n > 0 && v[0] == '-';
    let lo: usize = if n > 0 && (v[0] == '+' || v[0] == '-') {
        1
    } else {
        0
    };
    let ghost body = v@.subrange(lo as int, n as int);
    proof {
        assert(unsigned_part(input@) =~= body);
    }
    let mark = exponent_mark_at(&v, lo, n);
    let hi: usize = match mark {
        Some(k) => k,
        None => n,
    };
    proof {
        lemma_mark_split(v@, lo as int, n as int, mark);
    }
    let ghost m = v@.subrange(lo as int, hi as int);
    let e: i128 = match mark {
        Some(k) => match exponent_at(&v, k + 1, n) {
            Some(x) => x,
            None => {
                return None;
            },
        },
        None => 0,
    };
    if !mantissa_at(&v, lo, hi) {
        return None;
    }
    proof {
        assert forall|j: int| lo <= j < hi implies is_digit(#[trigger] v@[j]) || v@[j] == '.' by {
            assert(m[j - lo] == v@[j]);
        }
    }
    let t = significant_end(&v, lo, hi);
    let (sig, big, zeros, frac) = mantissa_parts(&v, lo, hi, t);
    let ghost s = digits_without_point(v@.subrange(lo as int, t as int));
    let ghost et: int = exponent_of(body)->0;
    let ghost shift: int = 6 - fraction_len(m) + et;
    proof {
        assert(mantissa_of(body) == m);
        assert(et == e || (et >= EXPONENT_CAP && e == EXPONENT_CAP) || (et <= -EXPONENT_CAP && e == -EXPONENT_CAP));
    }
    if !big && sig == 0 {
        proof {
            lemma_scaled_zero(zeros as nat, shift);
        }
        return Some(0);
    }
    let p: i128 = 6 - frac as i128 + e + zeros as i128;
    proof {
        assert(s > 0);
        if shift + zeros < 0 {
            lemma_scaled_none(s, zeros as nat, shift);
        } else {
            lemma_scaled_whole(s, zeros as nat, shift);
            let big_p = (shift + zeros) as nat;
            lemma_pow10_add(big_p, 0);
            assert(s * pow10(big_p) >= s && s * pow10(big_p) >= pow10(big_p)) by (nonlinear_arith)
                requires
                    s >= 1,
                    pow10(big_p) >= 1,
            ;
            if big_p >= 20 {
                lemma_pow10_large(big_p);
            }
        }
    }
    if big || p < 0 || p > 19 {
        return None;
    }
    let mag = times_pow10(sig, p as usize);
    let value = if negative {
        -mag
    } else {
        mag
    };
    if value < i64::MIN as i128 || value > i64::MAX as i128 {
        None
    } else {
        Some(value as i64)
    }
}

/// Tells whether `input` writes an amount: see `amount_value`.
pub fn validate_amount(input: &str) -> (r: bool)
    ensures
        r == (amount_value(input@) is Some),
{
    parse_amount(input).is_some()
}

} // verus!
