use vstd::prelude::*;
use vstd::arithmetic::div_mod::{
    lemma_mod_bound, lemma_mod_equivalence, lemma_mod_multiples_vanish, lemma_small_mod,
};

verus! {

/// Euclidean remainder of `a` by a positive modulus `m`: the unique value in
/// `[0, m)` congruent to `a`. Spec-level `%` is already Euclidean, so this is
/// just a named form of it for use in coordinate contracts.
pub open spec fn wrap_coord(a: int, m: int) -> int
    recommends
        m > 0,
{
    a % m
}

pub proof fn lemma_wrap_bounds(a: int, m: int)
    requires
        0 < m,
    ensures
        0 <= wrap_coord(a, m) < m,
{
    lemma_mod_bound(a, m);
}

pub proof fn lemma_wrap_identity(a: int, m: int)
    requires
        0 < m,
        0 <= a < m,
    ensures
        wrap_coord(a, m) == a,
{
    lemma_small_mod(a as nat, m as nat);
}

/// Adding any multiple of the modulus leaves the wrapped coordinate unchanged.
pub proof fn lemma_wrap_multiples_vanish(a: int, k: int, m: int)
    requires
        0 < m,
    ensures
        wrap_coord(a + k * m, m) == wrap_coord(a, m),
{
    lemma_mod_multiples_vanish(k, a, m);
    assert(m * k == k * m) by (nonlinear_arith);
}

/// Wrapping is idempotent: a coordinate already in `[0, m)` is fixed.
pub proof fn lemma_wrap_idempotent(a: int, m: int)
    requires
        0 < m,
    ensures
        wrap_coord(wrap_coord(a, m), m) == wrap_coord(a, m),
{
    lemma_wrap_bounds(a, m);
    lemma_wrap_identity(wrap_coord(a, m), m);
}

/// With a modulus of at least 2, stepping a coordinate by one changes its
/// wrapped value.
pub proof fn lemma_wrap_step_changes(a: int, m: int)
    requires
        2 <= m,
    ensures
        wrap_coord(a + 1, m) != wrap_coord(a, m),
        wrap_coord(a - 1, m) != wrap_coord(a, m),
{
    lemma_mod_equivalence(a + 1, a, m);
    lemma_small_mod(1nat, m as nat);
    lemma_mod_equivalence(a - 1, a, m);
    lemma_mod_multiples_vanish(1, -1, m);
    lemma_small_mod((m - 1) as nat, m as nat);
}

/// Wrapping at the edges: one step left of position 0 lands on the last
/// position `m - 1`, and one step past the last position lands back on 0.
pub proof fn lemma_wrap_edges(m: int)
    requires
        0 < m,
    ensures
        wrap_coord(-1, m) == m - 1,
        wrap_coord(m, m) == 0,
{
    lemma_mod_multiples_vanish(1, -1, m);
    lemma_small_mod((m - 1) as nat, m as nat);
    lemma_mod_multiples_vanish(1, 0, m);
    lemma_small_mod(0nat, m as nat);
}

/// Wraps an arbitrary (possibly negative or out-of-range) coordinate into
/// `[0, m)` by the Euclidean rule.
pub fn wrap(x: i64, m: i64) -> (r: i64)
    requires
        0 < m,
    ensures
        r == wrap_coord(x as int, m as int),
        0 <= r < m,
{
    proof {
        lemma_wrap_bounds(x as int, m as int);
    }
    match x.checked_rem_euclid(m) {
        Some(r) => r,
        None => 0,
    }
}

} // verus!
