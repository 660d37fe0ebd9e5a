//! The algebra that the protocol relies on, as a hypothesis.
//!
//! Nothing here is assumed of a provider. That a set of elements forms a
//! group under the provider's operations is a predicate, [`is_group`], and
//! every lemma of this module has it as a premise.

use crate::group::{order, Group};
use vstd::arithmetic::div_mod::{lemma_fundamental_div_mod, lemma_small_mod};
use vstd::prelude::*;

verus! {

/// The elements with the encodings in `elements` form a commutative group
/// under `C::sum`, with neutral element `zero`; `C::product` multiplies an
/// element by a natural number, by repeated addition; and the order of every
/// element divides the order of the scalar field.
#[verifier::opaque]
pub open spec fn is_group<C: Group>(elements: Set<Seq<u8>>, zero: Seq<u8>) -> bool {
    &&& order::<C>() > 0
    &&& elements.contains(zero)
    &&& forall|x: Seq<u8>, y: Seq<u8>|
        #![trigger C::sum(x, y)]
        elements.contains(x) && elements.contains(y) ==> elements.contains(C::sum(x, y))
            && C::sum(x, y) == C::sum(y, x)
    &&& forall|x: Seq<u8>, y: Seq<u8>, z: Seq<u8>|
        #![trigger C::sum(C::sum(x, y), z)]
        elements.contains(x) && elements.contains(y) && elements.contains(z) ==> C::sum(
            C::sum(x, y),
            z,
        ) == C::sum(x, C::sum(y, z))
    &&& forall|x: Seq<u8>| #![trigger C::sum(x, zero)] elements.contains(x) ==> C::sum(x, zero) == x
    &&& forall|x: Seq<u8>, k: nat|
        #![trigger C::product(x, k)]
        elements.contains(x) ==> elements.contains(C::product(x, k))
    &&& forall|x: Seq<u8>|
        #![trigger C::product(x, 0)]
        elements.contains(x) ==> C::product(x, 0) == zero
    &&& forall|x: Seq<u8>, k: nat|
        #![trigger C::sum(C::product(x, k), x)]
        elements.contains(x) ==> C::sum(C::product(x, k), x) == C::product(x, k + 1)
    &&& forall|x: Seq<u8>|
        #![trigger C::product(x, order::<C>())]
        elements.contains(x) ==> C::product(x, order::<C>()) == zero
}

/// The sum of two elements is an element, whichever comes first.
pub proof fn lemma_sum<C: Group>(elements: Set<Seq<u8>>, zero: Seq<u8>, x: Seq<u8>, y: Seq<u8>)
    requires
        is_group::<C>(elements, zero),
        elements.contains(x),
        elements.contains(y),
    ensures
        elements.contains(C::sum(x, y)),
        C::sum(x, y) == C::sum(y, x),
{
    reveal(is_group);
}

/// `(x + y) + z == x + (y + z)`.
pub proof fn lemma_associative<C: Group>(
    elements: Set<Seq<u8>>,
    zero: Seq<u8>,
    x: Seq<u8>,
    y: Seq<u8>,
    z: Seq<u8>,
)
    requires
        is_group::<C>(elements, zero),
        elements.contains(x),
        elements.contains(y),
        elements.contains(z),
    ensures
        C::sum(C::sum(x, y), z) == C::sum(x, C::sum(y, z)),
{
    reveal(is_group);
}

/// What holds of the neutral element: `x + 0 == 0 + x == x`, `x*0 == 0` and
/// `x*n == 0`, where `n` is the order of the scalar field.
pub proof fn lemma_zero<C: Group>(elements: Set<Seq<u8>>, zero: Seq<u8>, x: Seq<u8>)
    requires
        is_group::<C>(elements, zero),
        elements.contains(x),
    ensures
        order::<C>() > 0,
        elements.contains(zero),
        C::sum(x, zero) == x,
        C::sum(zero, x) == x,
        C::product(x, 0) == zero,
        C::product(x, order::<C>()) == zero,
{
    reveal(is_group);
    assert(C::sum(x, zero) == x);
    assert(C::sum(x, zero) == C::sum(zero, x));
}

/// A multiple of an element is an element, and `x*(k + 1) == x*k + x`.
pub proof fn lemma_product<C: Group>(elements: Set<Seq<u8>>, zero: Seq<u8>, x: Seq<u8>, k: nat)
    requires
        is_group::<C>(elements, zero),
        elements.contains(x),
    ensures
        elements.contains(C::product(x, k)),
        C::product(x, k + 1) == C::sum(C::product(x, k), x),
{
    reveal(is_group);
    assert(C::sum(C::product(x, k), x) == C::product(x, k + 1));
}

/// `(a + b) + (c + d) == (a + c) + (b + d)`.
pub proof fn lemma_interchange<C: Group>(
    elements: Set<Seq<u8>>,
    zero: Seq<u8>,
    a: Seq<u8>,
    b: Seq<u8>,
    c: Seq<u8>,
    d: Seq<u8>,
)
    requires
        is_group::<C>(elements, zero),
        elements.contains(a),
        elements.contains(b),
        elements.contains(c),
        elements.contains(d),
    ensures
        C::sum(C::sum(a, b), C::sum(c, d)) == C::sum(C::sum(a, c), C::sum(b, d)),
{
    lemma_sum::<C>(elements, zero, c, d);
    lemma_sum::<C>(elements, zero, b, d);
    lemma_sum::<C>(elements, zero, b, c);
    lemma_associative::<C>(elements, zero, a, b, C::sum(c, d));
    lemma_associative::<C>(elements, zero, b, c, d);
    lemma_associative::<C>(elements, zero, c, b, d);
    lemma_associative::<C>(elements, zero, a, c, C::sum(b, d));
}

/// `x*(a + b) == x*a + x*b`.
pub proof fn lemma_product_of_sum_of_scalars<C: Group>(
    elements: Set<Seq<u8>>,
    zero: Seq<u8>,
    x: Seq<u8>,
    a: nat,
    b: nat,
)
    requires
        is_group::<C>(elements, zero),
        elements.contains(x),
    ensures
        C::product(x, a + b) == C::sum(C::product(x, a), C::product(x, b)),
    decreases b,
{
    lemma_product::<C>(elements, zero, x, a);
    if b == 0 {
        lemma_zero::<C>(elements, zero, x);
        lemma_zero::<C>(elements, zero, C::product(x, a));
    } else {
        let b1 = (b - 1) as nat;
        lemma_product_of_sum_of_scalars::<C>(elements, zero, x, a, b1);
        lemma_product::<C>(elements, zero, x, a + b1);
        lemma_product::<C>(elements, zero, x, b1);
        lemma_associative::<C>(elements, zero, C::product(x, a), C::product(x, b1), x);
        assert(a + b1 + 1 == a + b);
        assert(b1 + 1 == b);
    }
}

/// `(x + y)*k == x*k + y*k`.
pub proof fn lemma_product_of_sum_of_elements<C: Group>(
    elements: Set<Seq<u8>>,
    zero: Seq<u8>,
    x: Seq<u8>,
    y: Seq<u8>,
    k: nat,
)
    requires
        is_group::<C>(elements, zero),
        elements.contains(x),
        elements.contains(y),
    ensures
        C::product(C::sum(x, y), k) == C::sum(C::product(x, k), C::product(y, k)),
    decreases k,
{
    lemma_sum::<C>(elements, zero, x, y);
    if k == 0 {
        lemma_zero::<C>(elements, zero, x);
        lemma_zero::<C>(elements, zero, y);
        lemma_zero::<C>(elements, zero, C::sum(x, y));
        lemma_zero::<C>(elements, zero, zero);
    } else {
        let k1 = (k - 1) as nat;
        lemma_product_of_sum_of_elements::<C>(elements, zero, x, y, k1);
        lemma_product::<C>(elements, zero, C::sum(x, y), k1);
        lemma_product::<C>(elements, zero, x, k1);
        lemma_product::<C>(elements, zero, y, k1);
        lemma_interchange::<C>(elements, zero, C::product(x, k1), C::product(y, k1), x, y);
        assert(k1 + 1 == k);
    }
}

/// `(x*a)*b == x*(a*b)`.
pub proof fn lemma_product_of_product<C: Group>(
    elements: Set<Seq<u8>>,
    zero: Seq<u8>,
    x: Seq<u8>,
    a: nat,
    b: nat,
)
    requires
        is_group::<C>(elements, zero),
        elements.contains(x),
    ensures
        C::product(C::product(x, a), b) == C::product(x, a * b),
    decreases b,
{
    lemma_product::<C>(elements, zero, x, a);
    if b == 0 {
        lemma_zero::<C>(elements, zero, x);
        lemma_zero::<C>(elements, zero, C::product(x, a));
        assert(a * 0 == 0);
    } else {
        let b1 = (b - 1) as nat;
        lemma_product_of_product::<C>(elements, zero, x, a, b1);
        lemma_product::<C>(elements, zero, C::product(x, a), b1);
        lemma_product_of_sum_of_scalars::<C>(elements, zero, x, a * b1, a);
        assert(b1 + 1 == b);
        assert(a * b1 + a == a * b) by (nonlinear_arith)
            requires
                b1 + 1 == b,
        ;
    }
}

/// `x*(q*n) == 0`, where `n` is the order of the scalar field.
pub proof fn lemma_product_by_multiple_of_order<C: Group>(
    elements: Set<Seq<u8>>,
    zero: Seq<u8>,
    x: Seq<u8>,
    q: nat,
)
    requires
        is_group::<C>(elements, zero),
        elements.contains(x),
    ensures
        C::product(x, q * order::<C>()) == zero,
    decreases q,
{
    let n = order::<C>();
    lemma_zero::<C>(elements, zero, x);
    if q == 0 {
        assert(0 * n == 0);
    } else {
        let q1 = (q - 1) as nat;
        lemma_product_by_multiple_of_order::<C>(elements, zero, x, q1);
        lemma_product_of_sum_of_scalars::<C>(elements, zero, x, q1 * n, n);
        lemma_zero::<C>(elements, zero, zero);
        assert(q1 * n + n == q * n) by (nonlinear_arith)
            requires
                q1 + 1 == q,
        ;
    }
}

/// `x*m == x*(m mod n)`, where `n` is the order of the scalar field.
pub proof fn lemma_product_by_residue<C: Group>(
    elements: Set<Seq<u8>>,
    zero: Seq<u8>,
    x: Seq<u8>,
    m: nat,
)
    requires
        is_group::<C>(elements, zero),
        elements.contains(x),
    ensures
        C::product(x, m % order::<C>()) == C::product(x, m),
{
    let n = order::<C>();
    lemma_zero::<C>(elements, zero, x);
    let q = m / n;
    let rest = m % n;
    lemma_fundamental_div_mod(m as int, n as int);
    assert(q * n == n * q) by (nonlinear_arith);
    assert(m == q * n + rest);
    lemma_product_by_multiple_of_order::<C>(elements, zero, x, q);
    lemma_product_of_sum_of_scalars::<C>(elements, zero, x, q * n, rest);
    lemma_product::<C>(elements, zero, x, rest);
    lemma_zero::<C>(elements, zero, C::product(x, rest));
}

/// `x*((k + (e*s) mod n) mod n) == x*k + (x*s)*e`: what the response does to
/// a base.
pub proof fn lemma_response<C: Group>(
    elements: Set<Seq<u8>>,
    zero: Seq<u8>,
    x: Seq<u8>,
    s: nat,
    k: nat,
    e: nat,
)
    requires
        is_group::<C>(elements, zero),
        elements.contains(x),
    ensures
        C::product(x, (k + (e * s) % order::<C>()) % order::<C>()) == C::sum(
            C::product(x, k),
            C::product(C::product(x, s), e),
        ),
{
    let n = order::<C>();
    let es = (e * s) % n;
    lemma_product_by_residue::<C>(elements, zero, x, k + es);
    lemma_product_of_sum_of_scalars::<C>(elements, zero, x, k, es);
    lemma_product_by_residue::<C>(elements, zero, x, e * s);
    lemma_product_of_product::<C>(elements, zero, x, s, e);
    assert(s * e == e * s) by (nonlinear_arith);
}

/// The element `x` has the full order of the scalar field: no smaller
/// multiple of it is the neutral element. In a group of prime order this
/// holds of every element but the neutral one.
pub open spec fn has_full_order<C: Group>(x: Seq<u8>, zero: Seq<u8>) -> bool {
    forall|m: nat| #![trigger C::product(x, m)] C::product(x, m) == zero ==> m % order::<C>() == 0
}

/// `x*1 == x`.
pub proof fn lemma_product_by_one<C: Group>(elements: Set<Seq<u8>>, zero: Seq<u8>, x: Seq<u8>)
    requires
        is_group::<C>(elements, zero),
        elements.contains(x),
    ensures
        C::product(x, 1) == x,
{
    lemma_zero::<C>(elements, zero, x);
    lemma_product::<C>(elements, zero, x, 0);
}

/// Cancellation: `x + y == x + z` only if `y == z`.
pub proof fn lemma_cancel<C: Group>(
    elements: Set<Seq<u8>>,
    zero: Seq<u8>,
    x: Seq<u8>,
    y: Seq<u8>,
    z: Seq<u8>,
)
    requires
        is_group::<C>(elements, zero),
        elements.contains(x),
        elements.contains(y),
        elements.contains(z),
        C::sum(x, y) == C::sum(x, z),
    ensures
        y == z,
{
    lemma_zero::<C>(elements, zero, x);
    lemma_zero::<C>(elements, zero, y);
    lemma_zero::<C>(elements, zero, z);
    // the inverse of x is x*(n - 1)
    let n1 = (order::<C>() - 1) as nat;
    let minus_x = C::product(x, n1);
    lemma_product::<C>(elements, zero, x, n1);
    assert(n1 + 1 == order::<C>());
    assert(C::sum(minus_x, x) == zero);
    lemma_associative::<C>(elements, zero, minus_x, x, y);
    lemma_associative::<C>(elements, zero, minus_x, x, z);
}

/// An element of full order tells residues apart: `x*a == x*b` only if `a`
/// and `b` are congruent modulo the order of the scalar field.
pub proof fn lemma_full_order_separates<C: Group>(
    elements: Set<Seq<u8>>,
    zero: Seq<u8>,
    x: Seq<u8>,
    a: nat,
    b: nat,
)
    requires
        is_group::<C>(elements, zero),
        elements.contains(x),
        has_full_order::<C>(x, zero),
        C::product(x, a) == C::product(x, b),
    ensures
        a % order::<C>() == b % order::<C>(),
{
    let n = order::<C>();
    lemma_zero::<C>(elements, zero, x);
    let ra = a % n;
    let rb = b % n;
    lemma_product_by_residue::<C>(elements, zero, x, a);
    lemma_product_by_residue::<C>(elements, zero, x, b);
    if ra != rb {
        let low = if ra < rb { ra } else { rb };
        let d = if ra < rb { (rb - ra) as nat } else { (ra - rb) as nat };
        lemma_product_of_sum_of_scalars::<C>(elements, zero, x, low, d);
        lemma_product::<C>(elements, zero, x, low);
        lemma_product::<C>(elements, zero, x, d);
        lemma_zero::<C>(elements, zero, C::product(x, low));
        lemma_cancel::<C>(elements, zero, C::product(x, low), C::product(x, d), zero);
        assert(C::product(x, d) == zero);
        assert(d % n == 0);
        lemma_small_mod(d, n);
        assert(false);
    }
}

} // verus!
