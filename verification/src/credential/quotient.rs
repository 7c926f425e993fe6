//! Capacity use as the rounded quotient of in-flight requests over the
//! concurrency limit: the double-precision value nearest to the exact ratio
//! (round half to even), held as an exact integer so that it orders and
//! compares the way the rounded value does.

use vstd::prelude::*;

verus! {

/// 2 to the power `k`.
pub open spec fn two_pow(k: nat) -> nat
    decreases k,
{
    if k == 0 {
        1
    } else {
        2 * two_pow((k - 1) as nat)
    }
}

/// The smallest mantissa a normal double carries: 2^52.
pub const MANTISSA_LOW: u128 = 0x10_0000_0000_0000;

/// The fixed scale of a quotient key: 2^84.
pub const KEY_SCALE: u128 = 0x10_0000_0000_0000_0000_0000;

/// Doubles `n` (counting the doublings in `k`) until `n / b` reaches 2^52,
/// at most 84 times: afterwards `n / b` is the 53-bit integer part of the
/// mantissa and the value is that mantissa over 2^k.
pub open spec fn normalized(n: nat, b: nat, k: nat) -> (nat, nat)
    decreases 84 - k,
{
    if k >= 84 || n / b >= MANTISSA_LOW {
        (n, k)
    } else {
        normalized(2 * n, b, k + 1)
    }
}

/// `a / b` rounded to the nearest double (a tie goes to the even mantissa),
/// times 2^84. For `a, b` below 2^32 and `b > 0` the rounded value is a
/// normal double of at least 2^-32, so this product is an integer and
/// two keys compare exactly as the two rounded values do.
pub open spec fn quotient_key(a: nat, b: nat) -> nat {
    let (n, k) = normalized(a, b, 0);
    let q = n / b;
    let r = n % b;
    let m = if 2 * r > b || (2 * r == b && q % 2 == 1) {
        q + 1
    } else {
        q
    };
    m * two_pow((84 - k) as nat)
}

proof fn lemma_two_pow_pos(k: nat)
    ensures
        two_pow(k) >= 1,
    decreases k,
{
    if k > 0 {
        lemma_two_pow_pos((k - 1) as nat);
    }
}

proof fn lemma_two_pow_le(i: nat, j: nat)
    requires
        i <= j,
    ensures
        1 <= two_pow(i) <= two_pow(j),
    decreases j,
{
    lemma_two_pow_pos(i);
    if j > i {
        lemma_two_pow_le(i, (j - 1) as nat);
    }
}

proof fn lemma_two_pow_add(i: nat, j: nat)
    ensures
        two_pow(i + j) == two_pow(i) * two_pow(j),
    decreases i,
{
    if i > 0 {
        lemma_two_pow_add((i - 1) as nat, j);
        let x = two_pow((i - 1) as nat);
        let y = two_pow(j);
        assert(two_pow(i) == 2 * x);
        assert(two_pow(i + j) == 2 * two_pow(((i - 1) + j) as nat));
        assert(two_pow(((i - 1) + j) as nat) == x * y);
        assert(2 * (x * y) == (2 * x) * y) by (nonlinear_arith);
        assert(two_pow(i + j) == two_pow(i) * y);
    } else {
        assert(two_pow(i) == 1);
        assert(two_pow(i + j) == two_pow(j));
    }
}

proof fn lemma_key_scale()
    ensures
        two_pow(84) == KEY_SCALE,
{
    reveal_with_fuel(two_pow, 22);
    assert(two_pow(21) == 0x20_0000nat);
    lemma_two_pow_add(21, 21);
    assert(two_pow(42) == 0x400_0000_0000nat);
    lemma_two_pow_add(42, 42);
    assert(two_pow(84) == 0x400_0000_0000nat * 0x400_0000_0000nat);
    assert(0x400_0000_0000nat * 0x400_0000_0000nat == 0x10_0000_0000_0000_0000_0000nat) by (nonlinear_arith);
}

/// The quotient key of `a / b`, computed with 128-bit integers.
pub fn rounded_quotient_key(a: u32, b: u32) -> (r: u128)
    requires
        b > 0,
    ensures
        r == quotient_key(a as nat, b as nat),
{
    let bb = b as u128;
    let mut n: u128 = a as u128;
    let mut p: u128 = 1;
    let mut k: u32 = 0;
    proof {
        lemma_key_scale();
    }
    while k < 84 && n / bb < MANTISSA_LOW
        invariant
            bb == b as u128,
            bb > 0,
            k <= 84,
            p == two_pow(k as nat),
            two_pow(84) == KEY_SCALE,
            n < 0x1_0000_0000 * p,
            n < 0x20_0000_0000_0000 * bb || (k == 0 && n == a),
            a == 0 ==> n == 0,
            normalized(a as nat, b as nat, 0) == normalized(n as nat, b as nat, k as nat),
        decreases 84 - k,
    {
        proof {
            lemma_two_pow_le((k + 1) as nat, 84);
            assert(two_pow((k + 1) as nat) == 2 * two_pow(k as nat));
            assert(n < MANTISSA_LOW * bb) by (nonlinear_arith)
                requires
                    n / bb < MANTISSA_LOW,
                    bb > 0,
            ;
        }
        n = n * 2;
        p = p * 2;
        k = k + 1;
    }
    proof {
        lemma_two_pow_le(k as nat, 84);
        assert(normalized(n as nat, b as nat, k as nat) == (n as nat, k as nat));
    }
    let q = n / bb;
    let rem = n % bb;
    assert(q < 0x20_0000_0000_0000) by (nonlinear_arith)
        requires
            n < 0x20_0000_0000_0000 * bb || n < 0x1_0000_0000,
            bb > 0,
            q == n / bb,
    ;
    assert(rem < bb) by (nonlinear_arith)
        requires
            bb > 0,
            rem == n % bb,
    ;
    let m = if 2 * rem > bb || (2 * rem == bb && q % 2 == 1) {
        q + 1
    } else {
        q
    };
    let scale = KEY_SCALE / p;
    proof {
        lemma_two_pow_add(k as nat, (84 - k) as nat);
        let s = two_pow((84 - k) as nat);
        assert(scale == s) by (nonlinear_arith)
            requires
                p * s == KEY_SCALE,
                p > 0,
                scale == KEY_SCALE / p,
        ;
        if a == 0 {
            assert(q == 0 && rem == 0) by (nonlinear_arith)
                requires
                    n == 0,
                    bb > 0,
                    q == n / bb,
                    rem == n % bb,
            ;
            assert(m == 0);
        } else if k == 84 {
            assert(two_pow(0) == 1);
            assert(scale == 1);
        } else {
            assert(n >= MANTISSA_LOW) by (nonlinear_arith)
                requires
                    n / bb >= MANTISSA_LOW,
                    bb > 0,
            ;
            assert(scale < 0x1_0000_0000_0000_0000) by (nonlinear_arith)
                requires
                    p * scale == KEY_SCALE,
                    n < 0x1_0000_0000 * p,
                    n >= MANTISSA_LOW,
            ;
        }
        assert(m * scale <= 0x20_0000_0000_0000 * 0x1_0000_0000_0000_0000) by (nonlinear_arith)
            requires
                m <= 0x20_0000_0000_0000,
                m == 0 || scale == 1 || scale < 0x1_0000_0000_0000_0000,
        ;
    }
    m * scale
}

} // verus!
