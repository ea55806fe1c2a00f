//! Two's-complement arithmetic on `i32`, stated over mathematical integers.
use vstd::prelude::*;
use vstd::arithmetic::div_mod::{lemma_fundamental_div_mod, lemma_mod_multiples_vanish, lemma_mod_bound};

verus! {

/// The number of distinct `i32` values.
pub open spec fn modulus() -> int {
    0x1_0000_0000
}

/// The `i32` value that `x` wraps around to.
pub open spec fn wrap_i32(x: int) -> int {
    let m = x % modulus();
    if m > i32::MAX {
        m - modulus()
    } else {
        m
    }
}

/// Two integers that differ by a multiple of the modulus wrap to the same value.
pub proof fn lemma_wrap_shift(x: int, q: int)
    ensures
        wrap_i32(x + modulus() * q) == wrap_i32(x),
{
    lemma_mod_multiples_vanish(q, x, modulus());
    assert(modulus() * q + x == x + modulus() * q);
}

/// A wrapped value lies in the range of `i32` and differs from `x` by a multiple of the modulus.
pub proof fn lemma_wrap_facts(x: int) -> (q: int)
    ensures
        i32::MIN <= wrap_i32(x) <= i32::MAX,
        wrap_i32(x) == x + modulus() * q,
{
    lemma_fundamental_div_mod(x, modulus());
    lemma_mod_bound(x, modulus());
    let q = x / modulus();
    if x % modulus() > i32::MAX {
        assert(wrap_i32(x) == x + modulus() * (-q - 1)) by (nonlinear_arith)
            requires
                x == modulus() * q + x % modulus(),
                wrap_i32(x) == x % modulus() - modulus(),
                modulus() == 0x1_0000_0000int;
        -q - 1
    } else {
        assert(wrap_i32(x) == x + modulus() * (-q)) by (nonlinear_arith)
            requires
                x == modulus() * q + x % modulus(),
                wrap_i32(x) == x % modulus(),
                modulus() == 0x1_0000_0000int;
        -q
    }
}

/// Wrapping after each addition gives what wrapping once at the end gives.
pub proof fn lemma_wrap_add(x: int, y: int)
    ensures
        wrap_i32(wrap_i32(x) + wrap_i32(y)) == wrap_i32(x + y),
{
    let qx = lemma_wrap_facts(x);
    let qy = lemma_wrap_facts(y);
    assert(wrap_i32(x) + wrap_i32(y) == (x + y) + modulus() * (qx + qy)) by (nonlinear_arith)
        requires
            wrap_i32(x) == x + modulus() * qx,
            wrap_i32(y) == y + modulus() * qy;
    lemma_wrap_shift(x + y, qx + qy);
}

/// A value already in the range of `i32` wraps to itself.
pub proof fn lemma_wrap_in_range(x: int)
    requires
        i32::MIN <= x <= i32::MAX,
    ensures
        wrap_i32(x) == x,
{
    if x >= 0 {
        vstd::arithmetic::div_mod::lemma_small_mod(x as nat, modulus() as nat);
    } else {
        lemma_mod_multiples_vanish(1, x, modulus());
        vstd::arithmetic::div_mod::lemma_small_mod((x + modulus()) as nat, modulus() as nat);
    }
}

/// `wrapping_add` on `i32`, as a wrap of the exact sum.
pub proof fn lemma_wrapping_add(x: i32, y: i32)
    ensures
        x.wrapping_add(y) as int == wrap_i32(x + y),
{
    if x + y > i32::MAX {
        lemma_wrap_in_range(x + y - modulus());
        lemma_wrap_shift(x + y, -1);
    } else if x + y < i32::MIN {
        lemma_wrap_in_range(x + y + modulus());
        lemma_wrap_shift(x + y, 1);
    } else {
        lemma_wrap_in_range(x + y);
    }
}

/// `wrapping_mul` on `i32`, as a wrap of the exact product.
pub proof fn lemma_wrapping_mul(x: i32, y: i32)
    ensures
        x.wrapping_mul(y) as int == wrap_i32(x * y),
{
    let p = x * y;
    lemma_mod_bound(p, modulus());
}

} // verus!
