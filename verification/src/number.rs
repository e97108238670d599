//! Numbers below 2^256, and arithmetic modulo the prime of the field over which
//! the curves of `rabe` are defined.
use vstd::prelude::*;

verus! {

/// The prime of the field.
pub open spec fn field_prime() -> int {
    0x30644e72e131a029b85045b68181585d97816a916871ca8d3c208c16d87cfd47int
}

/// The order of the groups, also a prime.
pub open spec fn group_order() -> int {
    0x30644e72e131a029b85045b68181585d2833e84879b9709143e1f593f0000001int
}

/// A number in two halves.
#[derive(Clone, Copy, Debug, PartialEq, Eq, Structural)]
pub struct Number {
    pub hi: u128,
    pub lo: u128,
}

impl Number {
    pub open spec fn value(self) -> int {
        self.hi * 0x1_0000_0000_0000_0000_0000_0000_0000_0000int + self.lo
    }

    /// The number is below the prime of the field.
    pub open spec fn in_field(self) -> bool {
        self.value() < field_prime()
    }
}

/// The prime of the field as a number.
pub fn field_prime_number() -> (n: Number)
    ensures
        n.value() == field_prime(),
{
    Number {
        hi: 0x30644e72e131a029b85045b68181585du128,
        lo: 0x97816a916871ca8d3c208c16d87cfd47u128,
    }
}

/// The order of the groups as a number.
pub fn group_order_number() -> (n: Number)
    ensures
        n.value() == group_order(),
{
    Number {
        hi: 0x30644e72e131a029b85045b68181585du128,
        lo: 0x2833e84879b9709143e1f593f0000001u128,
    }
}

/// Whether `a` is less than `b`.
pub fn is_less(a: &Number, b: &Number) -> (less: bool)
    ensures
        less == (a.value() < b.value()),
{
    a.hi < b.hi || (a.hi == b.hi && a.lo < b.lo)
}

/// `a` less `b`.
fn difference(a: &Number, b: &Number) -> (n: Number)
    requires
        b.value() <= a.value(),
    ensures
        n.value() == a.value() - b.value(),
{
    if a.lo < b.lo {
        Number { hi: a.hi - b.hi - 1, lo: (u128::MAX - b.lo) + a.lo + 1 }
    } else {
        Number { hi: a.hi - b.hi, lo: a.lo - b.lo }
    }
}

/// The sum of `a` and `b` in the field.
pub fn field_sum(a: &Number, b: &Number) -> (n: Number)
    requires
        a.in_field(),
        b.in_field(),
    ensures
        n.value() == (a.value() + b.value()) % field_prime(),
        n.in_field(),
{
    let over = a.lo > u128::MAX - b.lo;
    let sum = if over {
        Number { hi: a.hi + b.hi + 1, lo: a.lo - (u128::MAX - b.lo) - 1 }
    } else {
        Number { hi: a.hi + b.hi, lo: a.lo + b.lo }
    };
    assert(sum.value() == a.value() + b.value());
    let prime = field_prime_number();
    if is_less(&sum, &prime) {
        sum
    } else {
        difference(&sum, &prime)
    }
}

/// `a` less `b` in the field.
pub fn field_difference(a: &Number, b: &Number) -> (n: Number)
    requires
        a.in_field(),
        b.in_field(),
    ensures
        n.value() == (a.value() - b.value()) % field_prime(),
        n.in_field(),
{
    if is_less(a, b) {
        let gap = difference(b, a);
        difference(&field_prime_number(), &gap)
    } else {
        difference(a, b)
    }
}

/// The product of `a` and `b` in the field.
pub fn field_product(a: &Number, b: &Number) -> (n: Number)
    requires
        a.in_field(),
    ensures
        n.value() == (a.value() * b.value()) % field_prime(),
        n.in_field(),
    decreases b.value(),
{
    if b.hi == 0 && b.lo == 0 {
        assert(a.value() * b.value() == 0) by (nonlinear_arith)
            requires
                b.value() == 0,
        ;
        return Number { hi: 0, lo: 0 };
    }
    let carry: u128 = if b.hi % 2 == 1 {
        0x8000_0000_0000_0000_0000_0000_0000_0000u128
    } else {
        0
    };
    let half = Number { hi: b.hi / 2, lo: b.lo / 2 + carry };
    let ghost odd: int = (b.lo % 2) as int;
    assert(b.value() == 2 * half.value() + odd);
    let part = field_product(a, &half);
    let twice = field_sum(&part, &part);
    let ghost product = a.value() * b.value();
    let ghost h = a.value() * half.value();
    proof {
        vstd::arithmetic::div_mod::lemma_add_mod_noop(h, h, field_prime());
        assert(twice.value() == (2 * h) % field_prime());
        if odd == 1 {
            assert(product == 2 * h + a.value()) by (nonlinear_arith)
                requires
                    b.value() == 2 * half.value() + 1,
                    h == a.value() * half.value(),
                    product == a.value() * b.value(),
            ;
            vstd::arithmetic::div_mod::lemma_add_mod_noop(2 * h, a.value(), field_prime());
            vstd::arithmetic::div_mod::lemma_small_mod(a.value() as nat, field_prime() as nat);
        } else {
            assert(product == 2 * h) by (nonlinear_arith)
                requires
                    b.value() == 2 * half.value(),
                    h == a.value() * half.value(),
                    product == a.value() * b.value(),
            ;
        }
    }
    if b.lo % 2 == 1 {
        field_sum(&twice, a)
    } else {
        twice
    }
}

} // verus!
