//! Arithmetic modulo the group order.
use crate::scalar::group_order;
use vstd::arithmetic::div_mod::{
    lemma_add_mod_noop, lemma_fundamental_div_mod, lemma_mod_equivalence,
    lemma_mod_multiples_basic, lemma_mod_pos_bound, lemma_mul_mod_noop_general, lemma_small_mod,
};
use vstd::prelude::*;

verus! {

/// The sum of two numbers modulo the group order.
pub open spec fn add_mod(a: nat, b: nat) -> nat {
    (a + b) % group_order()
}

/// The product of two numbers modulo the group order.
pub open spec fn mul_mod(a: nat, b: nat) -> nat {
    (a * b) % group_order()
}

/// A sum modulo the group order does not change when its terms are reduced.
pub proof fn lemma_add_mod_reduce(a: nat, b: nat)
    ensures
        add_mod(a % group_order(), b) == add_mod(a, b),
        add_mod(a, b % group_order()) == add_mod(a, b),
        add_mod(a % group_order(), b % group_order()) == add_mod(a, b),
        add_mod(a, b) < group_order(),
{
    let n = group_order() as int;
    lemma_add_mod_noop(a as int, b as int, n);
    lemma_add_mod_noop((a % group_order()) as int, b as int, n);
    lemma_add_mod_noop(a as int, (b % group_order()) as int, n);
    lemma_mod_pos_bound(a as int, n);
    lemma_mod_pos_bound(b as int, n);
    lemma_small_mod(a % group_order(), group_order());
    lemma_small_mod(b % group_order(), group_order());
    lemma_mod_pos_bound(a as int + b as int, n);
}

/// A product modulo the group order does not change when its factors are
/// reduced.
pub proof fn lemma_mul_mod_reduce(a: nat, b: nat)
    ensures
        mul_mod(a % group_order(), b) == mul_mod(a, b),
        mul_mod(a, b % group_order()) == mul_mod(a, b),
        mul_mod(a % group_order(), b % group_order()) == mul_mod(a, b),
        mul_mod(a, b) < group_order(),
        mul_mod(a, b) == mul_mod(b, a),
{
    let n = group_order() as int;
    lemma_mul_mod_noop_general(a as int, b as int, n);
    assert(a * b >= 0) by (nonlinear_arith);
    lemma_mod_pos_bound(a as int * b as int, n);
    assert(a * b == b * a) by (nonlinear_arith);
}

/// Multiplication modulo the group order distributes over addition.
pub proof fn lemma_mul_mod_distributes(a: nat, b: nat, c: nat)
    ensures
        mul_mod(add_mod(a, b), c) == add_mod(mul_mod(a, c), mul_mod(b, c)),
        mul_mod(c, add_mod(a, b)) == add_mod(mul_mod(c, a), mul_mod(c, b)),
{
    lemma_mul_mod_reduce(a + b, c);
    lemma_add_mod_reduce(a * c, b * c);
    assert((a + b) * c == a * c + b * c) by (nonlinear_arith);
    lemma_mul_mod_reduce(c, a + b);
    lemma_mul_mod_reduce(c, a);
    lemma_mul_mod_reduce(c, b);
    lemma_mul_mod_reduce(a, c);
    lemma_mul_mod_reduce(b, c);
}

/// Multiplication modulo the group order is associative.
pub proof fn lemma_mul_mod_associates(a: nat, b: nat, c: nat)
    ensures
        mul_mod(mul_mod(a, b), c) == mul_mod(a, mul_mod(b, c)),
{
    lemma_mul_mod_reduce(a * b, c);
    lemma_mul_mod_reduce(a, b * c);
    assert((a * b) * c == a * (b * c)) by (nonlinear_arith);
}

/// Addition modulo the group order is associative and commutative.
pub proof fn lemma_add_mod_associates(a: nat, b: nat, c: nat)
    ensures
        add_mod(add_mod(a, b), c) == add_mod(a, add_mod(b, c)),
        add_mod(a, b) == add_mod(b, a),
{
    lemma_add_mod_reduce(a + b, c);
    lemma_add_mod_reduce(a, b + c);
}

/// Whether a number is prime: above one, and divided by no number between
/// one and itself.
pub open spec fn is_prime(p: nat) -> bool {
    p > 1 && forall|d: nat| 1 < d < p ==> #[trigger] (p % d) != 0
}

/// Where the group order is prime, the product of two numbers below it that
/// are not zero is not zero modulo it.
pub proof fn lemma_prime_order_has_no_zero_divisors(x: nat, y: nat)
    requires
        is_prime(group_order()),
        0 < x < group_order(),
        0 < y < group_order(),
    ensures
        mul_mod(x, y) != 0,
    decreases x,
{
    let n = group_order();
    if mul_mod(x, y) == 0 {
        if x == 1 {
            assert(x * y == y) by (nonlinear_arith)
                requires
                    x == 1,
            ;
            lemma_small_mod(y, n);
        } else {
            // The remainder of the order by `x` is below `x`, is not zero, and
            // its product with `y` is a multiple of the order as well.
            let r = n % x;
            let q = n / x;
            assert(r != 0);
            lemma_fundamental_div_mod(n as int, x as int);
            lemma_mod_pos_bound(n as int, x as int);
            let k = (x * y) / n;
            lemma_fundamental_div_mod((x * y) as int, n as int);
            assert(x * y == n * k);
            assert(r * y == n * (y - q * k)) by (nonlinear_arith)
                requires
                    n == x * q + r,
                    x * y == n * k,
            ;
            lemma_mod_multiples_basic(y - q * k, n as int);
            assert(n * (y - q * k) == (y - q * k) * n) by (nonlinear_arith);
            assert(mul_mod(r, y) == 0);
            lemma_prime_order_has_no_zero_divisors(r, y);
        }
    }
}

/// Where the group order is prime, a product modulo it with a factor that is
/// not zero tells the other factor.
pub proof fn lemma_prime_order_cancels(x: nat, y: nat, k: nat)
    requires
        is_prime(group_order()),
        x < group_order(),
        y < group_order(),
        0 < k < group_order(),
        mul_mod(x, k) == mul_mod(y, k),
    ensures
        x == y,
{
    if x > y {
        lemma_no_multiple_between(x, y, k);
    } else if y > x {
        lemma_no_multiple_between(y, x, k);
    }
}

/// Where the group order is prime, two different numbers below it do not give
/// one product modulo it with a factor that is not zero.
proof fn lemma_no_multiple_between(x: nat, y: nat, k: nat)
    requires
        is_prime(group_order()),
        y < x < group_order(),
        0 < k < group_order(),
    ensures
        mul_mod(x, k) != mul_mod(y, k),
{
    let d = (x - y) as nat;
    lemma_mod_equivalence((x * k) as int, (y * k) as int, group_order() as int);
    assert(x * k - y * k == d * k) by (nonlinear_arith)
        requires
            d == x - y,
    ;
    lemma_prime_order_has_no_zero_divisors(d, k);
}

} // verus!
