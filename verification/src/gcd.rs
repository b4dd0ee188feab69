use vstd::prelude::*;

verus! {

/// Whether `d` divides `n`: zero divides zero only.
pub open spec fn divides(d: nat, n: nat) -> bool {
    if d == 0 {
        n == 0
    } else {
        n % d == 0
    }
}

/// Whether `g` is the greatest common divisor of `a` and `b`: it divides
/// both, and every number that divides both divides it. Of 0 and 0 it is 0.
pub open spec fn is_gcd(a: nat, b: nat, g: nat) -> bool {
    &&& divides(g, a)
    &&& divides(g, b)
    &&& forall|d: nat| divides(d, a) && divides(d, b) ==> #[trigger] divides(d, g)
}

/// The greatest common divisor of `a` and `b`.
pub fn gcd(a: u64, b: u64) -> (g: u64)
    ensures
        is_gcd(a as nat, b as nat, g as nat),
    decreases b,
{
    if b == 0 {
        a
    } else {
        let g = gcd(b, a % b);
        proof {
            lemma_gcd_step(a as nat, b as nat, g as nat);
        }
        g
    }
}

/// Two numbers have one greatest common divisor only.
pub proof fn lemma_gcd_unique(a: nat, b: nat, g: nat, h: nat)
    requires
        is_gcd(a, b, g),
        is_gcd(a, b, h),
    ensures
        g == h,
{
    assert(divides(g, h));
    assert(divides(h, g));
    lemma_divide_each_other(g, h);
}

/// Two numbers that divide each other are equal.
pub proof fn lemma_divide_each_other(g: nat, h: nat)
    requires
        divides(g, h),
        divides(h, g),
    ensures
        g == h,
{
    if g != 0 && h != 0 {
        if g < h {
            vstd::arithmetic::div_mod::lemma_small_mod(g, h);
        }
        if h < g {
            vstd::arithmetic::div_mod::lemma_small_mod(h, g);
        }
    }
}

/// A number divides `a` and `b` if and only if it divides `b` and the
/// remainder of `a` by `b`, so both pairs have the same greatest common
/// divisor.
pub proof fn lemma_gcd_step(a: nat, b: nat, g: nat)
    requires
        b > 0,
        is_gcd(b, a % b, g),
    ensures
        is_gcd(a, b, g),
{
    assert forall|d: nat| divides(d, b) implies (divides(d, a) <==> divides(d, a % b)) by {
        lemma_divides_remainder(d, a, b);
    }
    assert(divides(g, a));
    assert forall|d: nat| divides(d, a) && divides(d, b) implies #[trigger] divides(d, g) by {
        assert(divides(d, a % b));
    }
}

/// Where `d` divides `b`, it divides `a` if and only if it divides the
/// remainder of `a` by `b`.
pub proof fn lemma_divides_remainder(d: nat, a: nat, b: nat)
    requires
        b > 0,
        divides(d, b),
    ensures
        divides(d, a) <==> divides(d, a % b),
{
    let (a, b, d) = (a as int, b as int, d as int);
    let q = a / b;
    let r = a % b;
    let k = b / d;
    assert(a == b * q + r) by {
        vstd::arithmetic::div_mod::lemma_fundamental_div_mod(a, b);
    }
    assert(b == d * k) by {
        vstd::arithmetic::div_mod::lemma_fundamental_div_mod(b, d);
    }
    assert(b * q == d * (k * q)) by (nonlinear_arith)
        requires
            b == d * k,
    ;
    assert((d * (k * q) + r) % d == r % d) by {
        vstd::arithmetic::div_mod::lemma_mod_multiples_vanish(k * q, r, d);
    }
}

} // verus!
