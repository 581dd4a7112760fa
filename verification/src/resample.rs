use vstd::prelude::*;

verus! {

/// Greatest common divisor, by Euclid's algorithm.
pub open spec fn gcd_spec(a: nat, b: nat) -> nat
    decreases b,
{
    if b == 0 {
        a
    } else {
        gcd_spec(b, a % b)
    }
}

/// The greatest common divisor of two sample rates.
pub fn gcd(a: u32, b: u32) -> (r: u32)
    ensures
        r == gcd_spec(a as nat, b as nat),
{
    let mut x: u32 = a;
    let mut y: u32 = b;
    while y != 0
        invariant
            gcd_spec(x as nat, y as nat) == gcd_spec(a as nat, b as nat),
        decreases y,
    {
        x %= y;
        let t: u32 = x;
        x = y;
        y = t;
    }
    x
}

proof fn lemma_divides_combination(x: nat, y: nat, q: nat, d: nat)
    requires
        d > 0,
        x % d == 0,
        y % d == 0,
    ensures
        (q * x + y) % d == 0,
{
    let kx = x / d;
    let ky = y / d;
    assert(x == kx * d) by (nonlinear_arith)
        requires d > 0, x % d == 0, kx == x / d;
    assert(y == ky * d) by (nonlinear_arith)
        requires d > 0, y % d == 0, ky == y / d;
    assert((q * x + y) == (q * kx + ky) * d) by (nonlinear_arith)
        requires x == kx * d, y == ky * d;
    vstd::arithmetic::div_mod::lemma_mod_multiples_basic((q * kx + ky) as int, d as int);
}

proof fn lemma_divides_remainder(a: nat, b: nat, d: nat)
    requires
        d > 0,
        b > 0,
        a % d == 0,
        b % d == 0,
    ensures
        (a % b) % d == 0,
{
    let q = a / b;
    let r = a % b;
    assert(a == q * b + r) by (nonlinear_arith)
        requires b > 0, q == a / b, r == a % b;
    let ka = a / d;
    let kb = b / d;
    assert(a == ka * d) by (nonlinear_arith)
        requires d > 0, a % d == 0, ka == a / d;
    assert(b == kb * d) by (nonlinear_arith)
        requires d > 0, b % d == 0, kb == b / d;
    assert(r == (ka - q * kb) * d) by (nonlinear_arith)
        requires a == q * b + r, a == ka * d, b == kb * d;
    assert(ka - q * kb >= 0) by (nonlinear_arith)
        requires r == (ka - q * kb) * d, d > 0, r >= 0;
    vstd::arithmetic::div_mod::lemma_mod_multiples_basic((ka - q * kb) as int, d as int);
}

/// Where one of the two numbers is not zero, their greatest common divisor is positive,
/// divides both, and every positive common divisor of the two divides it.
pub proof fn lemma_gcd(a: nat, b: nat)
    requires
        a > 0 || b > 0,
    ensures
        gcd_spec(a, b) > 0,
        a % gcd_spec(a, b) == 0,
        b % gcd_spec(a, b) == 0,
        forall|d: nat| d > 0 && a % d == 0 && b % d == 0 ==> #[trigger] (gcd_spec(a, b) % d) == 0,
    decreases b,
{
    if b == 0 {
        vstd::arithmetic::div_mod::lemma_mod_self_0(a as int);
        vstd::arithmetic::div_mod::lemma_mod_multiples_basic(0, a as int);
    } else {
        let r = a % b;
        assert(r < b) by (nonlinear_arith)
            requires b > 0, r == a % b;
        lemma_gcd(b, r);
        let g = gcd_spec(b, r);
        let q = a / b;
        assert(a == q * b + r) by (nonlinear_arith)
            requires b > 0, q == a / b, r == a % b;
        lemma_divides_combination(b, r, q, g);
        assert forall|d: nat| d > 0 && a % d == 0 && b % d == 0 implies #[trigger] (gcd_spec(
            a,
            b,
        ) % d) == 0 by {
            lemma_divides_remainder(a, b, d);
        }
    }
}

} // verus!
