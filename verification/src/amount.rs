//! Scaling of token amounts by powers of ten.

use vstd::prelude::*;

verus! {

/// `10^n` as a mathematical integer.
pub open spec fn pow10(n: nat) -> int
    decreases n,
{
    if n == 0 {
        1
    } else {
        10 * pow10((n - 1) as nat)
    }
}

/// Powers of ten are positive.
pub proof fn lemma_pow10_positive(n: nat)
    ensures
        pow10(n) >= 1,
    decreases n,
{
    if n > 0 {
        lemma_pow10_positive((n - 1) as nat);
    }
}

/// A product that leaves the range of `i128` does not come back into it when
/// multiplied by a further power of ten.
proof fn lemma_stays_out_of_range(x: int, n: nat)
    requires
        x > i128::MAX || x < i128::MIN,
    ensures
        x * pow10(n) > i128::MAX || x * pow10(n) < i128::MIN,
{
    lemma_pow10_positive(n);
    let p = pow10(n);
    if x > 0 {
        assert(x * p >= x) by (nonlinear_arith)
            requires
                x > 0,
                p >= 1,
        ;
    } else {
        assert(x * p <= x) by (nonlinear_arith)
            requires
                x < 0,
                p >= 1,
        ;
    }
}

/// `base · 10^decimals`, or `None` where that product does not fit in `i128`.
pub fn mul_pow10_i128(base: i128, decimals: u32) -> (r: Option<i128>)
    ensures
        match r {
            Some(x) => x == base * pow10(decimals as nat),
            None => base * pow10(decimals as nat) > i128::MAX || base * pow10(decimals as nat)
                < i128::MIN,
        },
{
    let mut x: i128 = base;
    let mut i: u32 = 0;
    assert(base * pow10(0) == base);
    while i < decimals
        invariant
            i <= decimals,
            x == base * pow10(i as nat),
        decreases decimals - i,
    {
        let ghost rest: nat = (decimals - i - 1) as nat;
        proof {
            lemma_pow10_split(base as int, i as nat, rest);
        }
        match x.checked_mul(10) {
            Some(y) => {
                x = y;
            },
            None => {
                proof {
                    lemma_stays_out_of_range(x * 10, rest);
                }
                return None;
            },
        }
        i += 1;
        assert(x == base * pow10(i as nat)) by {
            lemma_pow10_split(base as int, (i - 1) as nat, 0);
        }
    }
    Some(x)
}

/// `base · 10^(done + 1 + rest)` is `base · 10^done · 10 · 10^rest`.
proof fn lemma_pow10_split(base: int, done: nat, rest: nat)
    ensures
        base * pow10(done + 1 + rest) == (base * pow10(done) * 10) * pow10(rest),
        base * pow10(done + 1) == base * pow10(done) * 10,
    decreases rest,
{
    assert(pow10(done + 1) == 10 * pow10(done));
    assert(base * pow10(done + 1) == base * pow10(done) * 10) by (nonlinear_arith)
        requires
            pow10(done + 1) == 10 * pow10(done),
    ;
    if rest == 0 {
        assert(pow10(0) == 1);
        assert((base * pow10(done) * 10) * pow10(0) == base * pow10(done) * 10) by (nonlinear_arith)
            requires
                pow10(0) == 1,
        ;
    } else {
        lemma_pow10_split(base, done, (rest - 1) as nat);
        let a = base * pow10(done) * 10;
        let q = pow10((rest - 1) as nat);
        assert(pow10(rest) == 10 * q);
        assert(pow10(done + 1 + rest) == 10 * pow10((done + 1 + rest - 1) as nat));
        assert(base * pow10(done + 1 + rest) == a * pow10(rest)) by (nonlinear_arith)
            requires
                pow10(rest) == 10 * q,
                pow10(done + 1 + rest) == 10 * pow10((done + rest) as nat),
                base * pow10((done + rest) as nat) == a * q,
        ;
    }
}

} // verus!
