use vstd::prelude::*;

verus! {

/// Quotient and remainder of `a` by `b`.
pub fn divrem(a: u32, b: u32) -> (r: (u32, u32))
    requires
        b != 0,
    ensures
        r.0 == a / b,
        r.1 == a % b,
        a == r.0 * b + r.1,
        r.1 < b,
{
    let q = a / b;
    let m = a % b;
    proof {
        vstd::arithmetic::div_mod::lemma_fundamental_div_mod(a as int, b as int);
    }
    (q, m)
}

} // verus!
