//! Prices that grow by a tenth with each level, rounded to whole units.
//!
//! `base · 1.1^n` is computed exactly: `base · 11^n` is held as decimal
//! digits, and dividing by `10^n` is reading the digits above position `n`.

use vstd::prelude::*;
use vstd::arithmetic::power::*;
use vstd::arithmetic::div_mod::*;

verus! {

/// Largest price that a machine integer of the ledger can hold.
pub const PRICE_LIMIT: i64 = 9223372036854775807;

/// Bound at which digit reading stops counting; above ten times `PRICE_LIMIT`.
const READ_CAP: u128 = 100000000000000000000;

/// Value of a sequence of decimal digits, least significant first.
pub open spec fn digits_value(d: Seq<u8>) -> int
    decreases d.len(),
{
    if d.len() == 0 {
        0
    } else {
        d[0] + 10 * digits_value(d.drop_first())
    }
}

pub open spec fn is_decimal(d: Seq<u8>) -> bool {
    forall|i: int| 0 <= i < d.len() ==> #[trigger] d[i] < 10
}

/// `base · 1.1^n` rounded to the nearest integer, a half rounded up.
pub open spec fn grown_price(base: int, n: nat) -> int {
    (2 * base * pow(11, n) + pow(10, n)) / (2 * pow(10, n))
}

/// `grown_price`, held at `PRICE_LIMIT` where it goes beyond.
pub open spec fn capped_price(base: int, n: nat) -> int {
    if grown_price(base, n) > PRICE_LIMIT {
        PRICE_LIMIT as int
    } else {
        grown_price(base, n)
    }
}

pub open spec fn min_int(a: int, b: int) -> int {
    if a <= b {
        a
    } else {
        b
    }
}

proof fn lemma_value_concat(s: Seq<u8>, t: Seq<u8>)
    ensures
        digits_value(s + t) == digits_value(s) + pow(10, s.len()) * digits_value(t),
    decreases s.len(),
{
    reveal(pow);
    if s.len() == 0 {
        assert(s + t =~= t);
        lemma_pow0(10);
    } else {
        let s1 = s.drop_first();
        assert((s + t).drop_first() =~= s1 + t);
        lemma_value_concat(s1, t);
        let p = pow(10, s1.len());
        assert(pow(10, s.len()) == 10 * p);
        let a = digits_value(s1);
        let v = digits_value(t);
        assert(10 * (a + p * v) == 10 * a + (10 * p) * v) by (nonlinear_arith);
    }
}

proof fn lemma_value_push(s: Seq<u8>, x: u8)
    ensures
        digits_value(s.push(x)) == digits_value(s) + pow(10, s.len()) * x,
{
    let one = seq![x];
    assert(s.push(x) =~= s + one);
    lemma_value_concat(s, one);
    assert(one[0] == x);
    assert(one.drop_first() =~= Seq::<u8>::empty());
    assert(digits_value(one.drop_first()) == 0);
}

proof fn lemma_value_bound(s: Seq<u8>)
    requires
        is_decimal(s),
    ensures
        0 <= digits_value(s) < pow(10, s.len()),
    decreases s.len(),
{
    reveal(pow);
    if s.len() == 0 {
        lemma_pow0(10);
    } else {
        let s1 = s.drop_first();
        assert(is_decimal(s1)) by {
            assert forall|i: int| 0 <= i < s1.len() implies #[trigger] s1[i] < 10 by {
                assert(s1[i] == s[i + 1]);
            }
        }
        lemma_value_bound(s1);
        let p = pow(10, s1.len());
        let a = digits_value(s1);
        assert(s[0] < 10);
        assert(pow(10, s.len()) == 10 * p);
        assert(s[0] + 10 * a < 10 * p) by (nonlinear_arith)
            requires
                s[0] < 10,
                a < p,
                0 <= a,
        ;
    }
}

/// The digits above position `k` hold the value divided by `10^k`.
proof fn lemma_value_split(s: Seq<u8>, k: nat)
    requires
        is_decimal(s),
        k <= s.len(),
    ensures
        digits_value(s) / pow(10, k) == digits_value(s.subrange(k as int, s.len() as int)),
        digits_value(s) % pow(10, k) == digits_value(s.take(k as int)),
{
    let lo = s.take(k as int);
    let hi = s.subrange(k as int, s.len() as int);
    assert(s =~= lo + hi);
    lemma_value_concat(lo, hi);
    assert(is_decimal(lo)) by {
        assert forall|i: int| 0 <= i < lo.len() implies #[trigger] lo[i] < 10 by {
            assert(lo[i] == s[i]);
        }
    }
    lemma_value_bound(lo);
    lemma_pow_positive(10, k);
    assert(lo.len() == k);
    assert(digits_value(s) == digits_value(hi) * pow(10, k) + digits_value(lo)) by (nonlinear_arith)
        requires
            digits_value(s) == digits_value(lo) + pow(10, k) * digits_value(hi),
    ;
    lemma_fundamental_div_mod_converse(
        digits_value(s),
        pow(10, k),
        digits_value(hi),
        digits_value(lo),
    );
}

/// Above the last digit there is nothing left.
proof fn lemma_value_split_past_end(s: Seq<u8>, k: nat)
    requires
        is_decimal(s),
        s.len() <= k,
    ensures
        digits_value(s) / pow(10, k) == 0,
{
    lemma_value_bound(s);
    lemma_pow_increases(10, s.len(), k);
    lemma_pow_positive(10, k);
    lemma_fundamental_div_mod_converse(digits_value(s), pow(10, k), 0, digits_value(s));
}

/// The whole part of `base · 1.1^n` does not fall as `n` grows.
proof fn lemma_whole_part_grows(base: int, k: nat, n: nat)
    requires
        0 <= base,
        k <= n,
    ensures
        (base * pow(11, k)) / pow(10, k) <= (base * pow(11, n)) / pow(10, n),
    decreases n - k,
{
    reveal(pow);
    if k < n {
        let m = (n - 1) as nat;
        lemma_whole_part_grows(base, k, m);
        let x = base * pow(11, m);
        let d = pow(10, m);
        lemma_pow_positive(11, m);
        lemma_pow_positive(10, m);
        assert(0 <= x) by (nonlinear_arith)
            requires
                0 <= base,
                0 < pow(11, m),
                x == base * pow(11, m),
        ;
        assert(pow(11, n) == 11 * pow(11, m));
        assert(pow(10, n) == 10 * pow(10, m));
        assert(base * pow(11, n) == 11 * x) by (nonlinear_arith)
            requires
                pow(11, n) == 11 * pow(11, m),
                x == base * pow(11, m),
        ;
        lemma_div_denominator(10 * x, 10, d);
        lemma_div_multiples_vanish(x, 10);
        assert((10 * x) / (10 * d) == x / d);
        lemma_div_is_ordered(10 * x, 11 * x, 10 * d);
    }
}

/// Rounding to the nearest never gives less than the whole part.
proof fn lemma_rounded_at_least_whole(base: int, n: nat)
    requires
        0 <= base,
    ensures
        (base * pow(11, n)) / pow(10, n) <= grown_price(base, n),
{
    let x = base * pow(11, n);
    let d = pow(10, n);
    lemma_pow_positive(11, n);
    lemma_pow_positive(10, n);
    assert(0 <= x) by (nonlinear_arith)
        requires
            0 <= base,
            0 < pow(11, n),
            x == base * pow(11, n),
    ;
    assert(2 * base * pow(11, n) == 2 * x) by (nonlinear_arith)
        requires
            x == base * pow(11, n),
    ;
    lemma_div_denominator(2 * x, 2, d);
    lemma_div_multiples_vanish(x, 2);
    lemma_div_is_ordered(2 * x, 2 * x + d, 2 * d);
}

/// Rounding `x / 10^n` to the nearest is adding five to `x / 10^(n-1)` and
/// dropping the last digit.
proof fn lemma_rounded_from_digits(base: int, n: nat)
    requires
        0 <= base,
        1 <= n,
    ensures
        grown_price(base, n) == ((base * pow(11, n)) / pow(10, (n - 1) as nat) + 5) / 10,
{
    reveal(pow);
    let x = base * pow(11, n);
    let e = pow(10, (n - 1) as nat);
    lemma_pow_positive(11, n);
    lemma_pow_positive(10, (n - 1) as nat);
    assert(pow(10, n) == 10 * e);
    assert(0 <= x) by (nonlinear_arith)
        requires
            0 <= base,
            0 < pow(11, n),
            x == base * pow(11, n),
    ;
    assert(2 * base * pow(11, n) == 2 * x) by (nonlinear_arith)
        requires
            x == base * pow(11, n),
    ;
    let y = x + 5 * e;
    assert(2 * x + 10 * e == 2 * y);
    assert(2 * (10 * e) == (2 * e) * 10) by (nonlinear_arith);
    lemma_div_denominator(2 * y, 2 * e, 10);
    lemma_div_denominator(2 * y, 2, e);
    lemma_div_multiples_vanish(y, 2);
    lemma_hoist_over_denominator(x, 5, e as nat);
}

proof fn lemma_eleven_pow_exceeds_ten_pow(n: nat)
    ensures
        pow(10, n) <= pow(11, n),
    decreases n,
{
    reveal(pow);
    if n > 0 {
        lemma_eleven_pow_exceeds_ten_pow((n - 1) as nat);
        lemma_pow_positive(10, (n - 1) as nat);
    }
}

/// Each level adds a tenth: for a base of ten or more the rounded price
/// rises by at least one unit per level.
proof fn lemma_grown_price_rises(base: int, n: nat)
    requires
        10 <= base,
    ensures
        grown_price(base, n) + 1 <= grown_price(base, n + 1),
{
    reveal(pow);
    let x = base * pow(11, n);
    let d = pow(10, n);
    lemma_pow_positive(10, n);
    lemma_eleven_pow_exceeds_ten_pow(n);
    assert(pow(11, n + 1) == 11 * pow(11, n));
    assert(pow(10, n + 1) == 10 * d);
    assert(10 * d <= x) by (nonlinear_arith)
        requires
            10 <= base,
            d <= pow(11, n),
            0 < d,
            x == base * pow(11, n),
    ;
    assert(2 * base * pow(11, n) == 2 * x) by (nonlinear_arith)
        requires
            x == base * pow(11, n),
    ;
    assert(2 * base * pow(11, n + 1) == 22 * x) by (nonlinear_arith)
        requires
            x == base * pow(11, n),
            pow(11, n + 1) == 11 * pow(11, n),
    ;
    // scale the fraction of level n by ten
    lemma_div_denominator(10 * (2 * x + d), 10, 2 * d);
    lemma_div_multiples_vanish(2 * x + d, 10);
    assert(10 * (2 * d) == 2 * (10 * d));
    assert(grown_price(base, n) == (20 * x + 10 * d) / (20 * d));
    assert(grown_price(base, n + 1) == (22 * x + 10 * d) / (20 * d));
    lemma_div_plus_one(20 * x + 10 * d, 20 * d);
    lemma_div_is_ordered(20 * d + (20 * x + 10 * d), 22 * x + 10 * d, 20 * d);
}

/// The capped price never falls from one level to the next, and rises
/// strictly while it is below `PRICE_LIMIT`, for a base of ten or more.
pub proof fn lemma_capped_price_rises(base: int, n: nat)
    requires
        10 <= base,
    ensures
        capped_price(base, n) <= capped_price(base, n + 1),
        capped_price(base, n) < PRICE_LIMIT ==> capped_price(base, n) < capped_price(base, n + 1),
{
    lemma_grown_price_rises(base, n);
}

proof fn lemma_value_nonneg(s: Seq<u8>)
    ensures
        0 <= digits_value(s),
    decreases s.len(),
{
    if s.len() > 0 {
        lemma_value_nonneg(s.drop_first());
    }
}

/// Writes the digits of `m` above those already in `d`.
fn push_number(d: &mut Vec<u8>, m: u64)
    requires
        is_decimal(old(d)@),
    ensures
        is_decimal(final(d)@),
        digits_value(final(d)@) == digits_value(old(d)@) + pow(10, old(d)@.len()) * m,
{
    let mut rest: u64 = m;
    while rest > 0
        invariant
            is_decimal(d@),
            digits_value(d@) + pow(10, d@.len()) * rest == digits_value(old(d)@) + pow(
                10,
                old(d)@.len(),
            ) * m,
        decreases rest,
    {
        let digit: u8 = (rest % 10) as u8;
        let ghost before = d@;
        proof {
            lemma_value_push(before, digit);
            reveal(pow);
            lemma_fundamental_div_mod(rest as int, 10);
        }
        d.push(digit);
        proof {
            assert(is_decimal(d@)) by {
                assert forall|i: int| 0 <= i < d@.len() implies #[trigger] d@[i] < 10 by {
                    if i < before.len() {
                        assert(d@[i] == before[i]);
                    }
                }
            }
            let p = pow(10, before.len());
            assert(pow(10, d@.len()) == 10 * p);
            assert(p * digit + (10 * p) * (rest / 10) == p * rest) by (nonlinear_arith)
                requires
                    rest == 10 * (rest / 10) + rest % 10,
                    digit == rest % 10,
            ;
        }
        rest = rest / 10;
    }
}

/// Digits of eleven times the number that `d` holds.
fn times_eleven(d: &Vec<u8>) -> (r: Vec<u8>)
    requires
        is_decimal(d@),
    ensures
        is_decimal(r@),
        digits_value(r@) == 11 * digits_value(d@),
{
    let mut r: Vec<u8> = Vec::new();
    let mut carry: u8 = 0;
    let mut i: usize = 0;
    proof {
        reveal(pow);
        assert(d@.take(0) =~= Seq::<u8>::empty());
    }
    while i < d.len()
        invariant
            i <= d@.len(),
            r@.len() == i,
            is_decimal(r@),
            is_decimal(d@),
            carry <= 10,
            digits_value(r@) + pow(10, i as nat) * carry == 11 * digits_value(d@.take(i as int)),
        decreases d@.len() - i,
    {
        let x: u8 = d[i];
        assert(x < 10);
        let t: u8 = x * 11 + carry;
        let digit: u8 = t % 10;
        let ghost before = r@;
        proof {
            lemma_value_push(before, digit);
            lemma_value_push(d@.take(i as int), x);
            assert(d@.take(i as int).push(x) =~= d@.take(i + 1));
            reveal(pow);
            lemma_fundamental_div_mod(t as int, 10);
        }
        r.push(digit);
        proof {
            assert(is_decimal(r@)) by {
                assert forall|j: int| 0 <= j < r@.len() implies #[trigger] r@[j] < 10 by {
                    if j < before.len() {
                        assert(r@[j] == before[j]);
                    }
                }
            }
            let p = pow(10, i as nat);
            assert(pow(10, (i + 1) as nat) == 10 * p);
            let a = digits_value(before);
            let b = digits_value(d@.take(i as int));
            assert(a + p * digit + (10 * p) * (t / 10) == 11 * (b + p * x)) by (nonlinear_arith)
                requires
                    t == 10 * (t / 10) + t % 10,
                    digit == t % 10,
                    t == x * 11 + carry,
                    a + p * carry == 11 * b,
            ;
        }
        carry = t / 10;
        i += 1;
    }
    assert(d@.take(d@.len() as int) =~= d@);
    push_number(&mut r, carry as u64);
    r
}

/// The number that `d` holds divided by `10^k`, or `cap` if that is more.
fn high_digits(d: &Vec<u8>, k: usize, cap: u128) -> (h: u128)
    requires
        is_decimal(d@),
        0 < cap <= READ_CAP,
    ensures
        h == min_int(digits_value(d@) / pow(10, k as nat), cap as int),
{
    if k >= d.len() {
        proof {
            lemma_value_split_past_end(d@, k as nat);
        }
        return 0;
    }
    let mut acc: u128 = 0;
    let mut j: usize = d.len();
    assert(d@.subrange(d@.len() as int, d@.len() as int) =~= Seq::<u8>::empty());
    while j > k
        invariant
            k <= j <= d@.len(),
            is_decimal(d@),
            0 < cap <= READ_CAP,
            acc == min_int(digits_value(d@.subrange(j as int, d@.len() as int)), cap as int),
        decreases j,
    {
        j -= 1;
        let ghost above = d@.subrange(j + 1, d@.len() as int);
        proof {
            let here = d@.subrange(j as int, d@.len() as int);
            assert(here.drop_first() =~= above);
            assert(here[0] == d@[j as int]);
            lemma_value_nonneg(above);
        }
        if acc >= cap {
            acc = cap;
        } else {
            let t: u128 = acc * 10 + d[j] as u128;
            acc = if t > cap {
                cap
            } else {
                t
            };
        }
    }
    proof {
        lemma_value_split(d@, k as nat);
    }
    acc
}

/// `base · 1.1^n` rounded to the nearest whole unit, a half rounded up, and
/// held at `PRICE_LIMIT`.
pub fn price_after_growth(base: u64, n: u32) -> (p: i64)
    ensures
        p == capped_price(base as int, n as nat),
        0 <= p,
{
    let mut d: Vec<u8> = Vec::new();
    assert(is_decimal(d@));
    push_number(&mut d, base);
    proof {
        reveal(pow);
        assert(digits_value(Seq::<u8>::empty()) == 0);
    }
    let mut k: u32 = 0;
    while k < n
        invariant
            k <= n,
            is_decimal(d@),
            digits_value(d@) == base * pow(11, k as nat),
        decreases n - k,
    {
        let whole = high_digits(&d, k as usize, READ_CAP);
        if whole > PRICE_LIMIT as u128 {
            proof {
                lemma_whole_part_grows(base as int, k as nat, n as nat);
                lemma_rounded_at_least_whole(base as int, n as nat);
            }
            return PRICE_LIMIT;
        }
        d = times_eleven(&d);
        proof {
            reveal(pow);
            let q = pow(11, k as nat);
            assert(pow(11, (k + 1) as nat) == 11 * q);
            assert(11 * (base * q) == base * (11 * q)) by (nonlinear_arith);
        }
        k += 1;
    }
    if n == 0 {
        proof {
            lemma_pow0(11);
            lemma_pow0(10);
            assert(2 * (base as int) * pow(11, 0) == 2 * (base as int));
            assert((2 * (base as int) + 1) / 2 == base as int);
            assert(grown_price(base as int, 0) == base as int);
        }
        if base > PRICE_LIMIT as u64 {
            return PRICE_LIMIT;
        } else {
            return base as i64;
        }
    }
    let f = high_digits(&d, (n - 1) as usize, READ_CAP);
    proof {
        lemma_rounded_from_digits(base as int, n as nat);
        lemma_pow_positive(10, (n - 1) as nat);
        lemma_value_nonneg(d@);
        lemma_div_pos_is_pos(digits_value(d@), pow(10, (n - 1) as nat));
    }
    if f >= READ_CAP {
        proof {
            let whole = digits_value(d@) / pow(10, (n - 1) as nat);
            lemma_div_is_ordered(READ_CAP as int + 5, whole + 5, 10);
        }
        return PRICE_LIMIT;
    }
    let q: u128 = (f + 5) / 10;
    if q > PRICE_LIMIT as u128 {
        PRICE_LIMIT
    } else {
        q as i64
    }
}

} // verus!
