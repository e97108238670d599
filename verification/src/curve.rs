//! The elements of the groups of `rabe`, as the bytes in which it hands them out.
//!
//! An element is a point of a curve in three coordinates `x`, `y`, `z`: it stands
//! for the point `(x / z^2, y / z^3)`, or for the neutral element where `z` is
//! zero. A coordinate is a number of the field, 32 bytes long, in the first
//! group, and a pair of such numbers in the second. The bytes hold a number times
//! 2^256 in the field, as four words with the lowest first, each with its highest
//! byte first.
use crate::number::{
    field_difference, field_prime_number, field_product, field_sum, is_less, Number,
};
use vstd::prelude::*;

verus! {

/// The word of eight bytes at `at`, highest byte first.
pub open spec fn word(b: Seq<u8>, at: int) -> int {
    b[at] * 0x100_0000_0000_0000 + b[at + 1] * 0x1_0000_0000_0000 + b[at + 2] * 0x100_0000_0000
        + b[at + 3] * 0x1_0000_0000 + b[at + 4] * 0x100_0000 + b[at + 5] * 0x1_0000 + b[at + 6]
        * 0x100 + b[at + 7]
}

/// The number of four words at `at`, lowest word first.
pub open spec fn stored(b: Seq<u8>, at: int) -> int {
    word(b, at) + word(b, at + 8) * 0x1_0000_0000_0000_0000int + word(b, at + 16)
        * 0x1_0000_0000_0000_0000_0000_0000_0000_0000int + word(b, at + 24)
        * 0x1_0000_0000_0000_0000_0000_0000_0000_0000_0000_0000_0000_0000int
}

/// The `k`-th of the numbers that the bytes hold one after the other.
pub open spec fn nth(b: Seq<u8>, k: int) -> int {
    stored(b, 32 * k)
}

/// The inverse of 2^256 in the field.
pub open spec fn unscale() -> int {
    0x2e67157159e5c639cf63e9cfb74492d9eb2022850278edf8ed84884a014afa37int
}

/// The number of the field that the bytes at `at` hold.
pub open spec fn held(b: Seq<u8>, at: int) -> int {
    product(stored(b, at), unscale())
}

/// The pair of numbers of the field that the bytes at `at` hold.
pub open spec fn held_pair(b: Seq<u8>, at: int) -> (int, int) {
    (held(b, at), held(b, at + 32))
}

/// The bytes hold whole numbers, each below the prime of the field.
pub open spec fn in_range(b: Seq<u8>) -> bool {
    &&& b.len() % 32 == 0
    &&& forall|k: int|
        0 <= k < b.len() / 32 ==> #[trigger] nth(b, k) < crate::number::field_prime()
}

/// The product in the field.
pub open spec fn product(a: int, b: int) -> int {
    (a * b) % crate::number::field_prime()
}

/// The sum in the field.
pub open spec fn total(a: int, b: int) -> int {
    (a + b) % crate::number::field_prime()
}

/// The product of pairs, in the field with a square root of -1.
pub open spec fn pair_product(a: (int, int), b: (int, int)) -> (int, int) {
    let (a0, a1) = a;
    let (b0, b1) = b;
    (
        (a0 * b0 - a1 * b1) % crate::number::field_prime(),
        (a0 * b1 + a1 * b0) % crate::number::field_prime(),
    )
}

/// The sum of pairs.
pub open spec fn pair_total(a: (int, int), b: (int, int)) -> (int, int) {
    let (a0, a1) = a;
    let (b0, b1) = b;
    (total(a0, b0), total(a1, b1))
}

/// `y^2 == x^3 + 3 z^6` in the field.
pub open spec fn on_first_curve(x: int, y: int, z: int) -> bool {
    let cube = product(z, product(z, z));
    product(y, y) == total(product(x, product(x, x)), product(3, product(cube, cube)))
}

/// The constant of the second curve: 3 divided by 9 plus the square root of -1.
pub open spec fn second_constant() -> (int, int) {
    (
        0x2b149d40ceb8aaae81be18991be06ac3b5b4c5e559dbefa33267e6dc24a138e5int,
        0x9713b03af0fed4cd2cafadeed8fdf4a74fa084e52d1852e4a2bd0685c315d2int,
    )
}

/// `y^2 == x^3 + c z^6` for the constant `c` of the second curve.
pub open spec fn on_second_curve(x: (int, int), y: (int, int), z: (int, int)) -> bool {
    let cube = pair_product(z, pair_product(z, z));
    pair_product(y, y) == pair_total(
        pair_product(x, pair_product(x, x)),
        pair_product(second_constant(), pair_product(cube, cube)),
    )
}

/// The bytes are those of an element of the first group, whose order is that of
/// its curve.
pub open spec fn first_group_element(b: Seq<u8>) -> bool {
    &&& b.len() == 96
    &&& in_range(b)
    &&& stored(b, 64) == 0 || on_first_curve(held(b, 0), held(b, 32), held(b, 64))
}

/// The bytes are those of a point of the second curve.
pub open spec fn second_curve_point(b: Seq<u8>) -> bool {
    &&& b.len() == 192
    &&& in_range(b)
    &&& (stored(b, 128) == 0 && stored(b, 160) == 0) || on_second_curve(
        held_pair(b, 0),
        held_pair(b, 64),
        held_pair(b, 128),
    )
}

/// The bytes are those of a scalar that has an inverse: not zero, and below the
/// order of the groups.
pub open spec fn invertible_scalar(b: Seq<u8>) -> bool {
    b.len() == 32 && 0 < stored(b, 0) < crate::number::group_order()
}

fn word_at(b: &Vec<u8>, at: usize) -> (w: u128)
    requires
        at + 8 <= b.len(),
    ensures
        w == word(b@, at as int),
        w < 0x1_0000_0000_0000_0000u128,
{
    (b[at] as u128) * 0x100_0000_0000_0000 + (b[at + 1] as u128) * 0x1_0000_0000_0000
        + (b[at + 2] as u128) * 0x100_0000_0000 + (b[at + 3] as u128) * 0x1_0000_0000
        + (b[at + 4] as u128) * 0x100_0000 + (b[at + 5] as u128) * 0x1_0000
        + (b[at + 6] as u128) * 0x100 + (b[at + 7] as u128)
}

fn stored_at(b: &Vec<u8>, at: usize) -> (n: Number)
    requires
        at + 32 <= b.len(),
    ensures
        n.value() == stored(b@, at as int),
{
    Number {
        hi: word_at(b, at + 16) + word_at(b, at + 24) * 0x1_0000_0000_0000_0000u128,
        lo: word_at(b, at) + word_at(b, at + 8) * 0x1_0000_0000_0000_0000u128,
    }
}

/// Whether the bytes hold whole numbers, each below the prime of the field.
pub fn is_in_range(b: &Vec<u8>) -> (ok: bool)
    ensures
        ok == in_range(b@),
{
    if b.len() % 32 != 0 {
        return false;
    }
    let prime = field_prime_number();
    let mut k: usize = 0;
    while k < b.len() / 32
        invariant
            b@.len() % 32 == 0,
            k <= b.len() / 32,
            prime.value() == crate::number::field_prime(),
            forall|j: int|
                0 <= j < k ==> #[trigger] nth(b@, j) < crate::number::field_prime(),
        decreases b.len() / 32 - k,
    {
        let n = stored_at(b, 32 * k);
        if !is_less(&n, &prime) {
            assert(!(nth(b@, k as int) < crate::number::field_prime()));
            return false;
        }
        k = k + 1;
    }
    true
}

fn held_at(b: &Vec<u8>, at: usize) -> (n: Number)
    requires
        at + 32 <= b.len(),
        stored(b@, at as int) < crate::number::field_prime(),
    ensures
        n.value() == held(b@, at as int),
        n.in_field(),
{
    let inverse = Number {
        hi: 0x2e67157159e5c639cf63e9cfb74492d9u128,
        lo: 0xeb2022850278edf8ed84884a014afa37u128,
    };
    field_product(&stored_at(b, at), &inverse)
}

/// A pair of numbers of the field.
#[derive(Clone, Copy)]
struct Pair {
    re: Number,
    im: Number,
}

impl Pair {
    spec fn value(self) -> (int, int) {
        (self.re.value(), self.im.value())
    }

    spec fn in_field(self) -> bool {
        self.re.in_field() && self.im.in_field()
    }
}

fn pair_at(b: &Vec<u8>, at: usize) -> (n: Pair)
    requires
        at + 64 <= b.len(),
        stored(b@, at as int) < crate::number::field_prime(),
        stored(b@, at + 32) < crate::number::field_prime(),
    ensures
        n.value() == held_pair(b@, at as int),
        n.in_field(),
{
    Pair { re: held_at(b, at), im: held_at(b, at + 32) }
}

fn multiply(a: &Pair, b: &Pair) -> (n: Pair)
    requires
        a.in_field(),
        b.in_field(),
    ensures
        n.value() == pair_product(a.value(), b.value()),
        n.in_field(),
{
    let rr = field_product(&a.re, &b.re);
    let ii = field_product(&a.im, &b.im);
    let ri = field_product(&a.re, &b.im);
    let ir = field_product(&a.im, &b.re);
    proof {
        let p = crate::number::field_prime();
        vstd::arithmetic::div_mod::lemma_sub_mod_noop(
            a.re.value() * b.re.value(),
            a.im.value() * b.im.value(),
            p,
        );
        vstd::arithmetic::div_mod::lemma_add_mod_noop(
            a.re.value() * b.im.value(),
            a.im.value() * b.re.value(),
            p,
        );
    }
    Pair { re: field_difference(&rr, &ii), im: field_sum(&ri, &ir) }
}

/// Whether the bytes are those of an element of the first group.
pub fn is_first_group_element(b: &Vec<u8>) -> (ok: bool)
    ensures
        ok == first_group_element(b@),
{
    if b.len() != 96 || !is_in_range(b) {
        return false;
    }
    proof {
        lemma_coordinates(b@);
    }
    let last = stored_at(b, 64);
    if last.hi == 0 && last.lo == 0 {
        return true;
    }
    let x = held_at(b, 0);
    let y = held_at(b, 32);
    let z = held_at(b, 64);
    let cube = field_product(&z, &field_product(&z, &z));
    let left = field_product(&y, &y);
    let right = field_sum(
        &field_product(&x, &field_product(&x, &x)),
        &field_product(&Number { hi: 0, lo: 3 }, &field_product(&cube, &cube)),
    );
    left.hi == right.hi && left.lo == right.lo
}

/// Whether the bytes are those of a point of the second curve.
pub fn is_second_curve_point(b: &Vec<u8>) -> (ok: bool)
    ensures
        ok == second_curve_point(b@),
{
    if b.len() != 192 || !is_in_range(b) {
        return false;
    }
    proof {
        lemma_coordinates(b@);
    }
    let re = stored_at(b, 128);
    let im = stored_at(b, 160);
    if re.hi == 0 && re.lo == 0 && im.hi == 0 && im.lo == 0 {
        return true;
    }
    let x = pair_at(b, 0);
    let y = pair_at(b, 64);
    let z = pair_at(b, 128);
    let constant = Pair {
        re: Number {
            hi: 0x2b149d40ceb8aaae81be18991be06ac3u128,
            lo: 0xb5b4c5e559dbefa33267e6dc24a138e5u128,
        },
        im: Number {
            hi: 0x9713b03af0fed4cd2cafadeed8fdf4u128,
            lo: 0xa74fa084e52d1852e4a2bd0685c315d2u128,
        },
    };
    let cube = multiply(&z, &multiply(&z, &z));
    let left = multiply(&y, &y);
    let first = multiply(&x, &multiply(&x, &x));
    let second = multiply(&constant, &multiply(&cube, &cube));
    let right = Pair {
        re: field_sum(&first.re, &second.re),
        im: field_sum(&first.im, &second.im),
    };
    left.re.hi == right.re.hi && left.re.lo == right.re.lo && left.im.hi == right.im.hi
        && left.im.lo == right.im.lo
}

/// Whether the bytes are those of a scalar that has an inverse.
pub fn is_invertible_scalar(b: &Vec<u8>) -> (ok: bool)
    ensures
        ok == invertible_scalar(b@),
{
    if b.len() != 32 {
        return false;
    }
    let n = stored_at(b, 0);
    (n.hi != 0 || n.lo != 0) && is_less(&n, &crate::number::group_order_number())
}

/// The first numbers of bytes that are in range are below the prime.
proof fn lemma_coordinates(b: Seq<u8>)
    requires
        in_range(b),
    ensures
        b.len() >= 96 ==> {
            &&& stored(b, 0) < crate::number::field_prime()
            &&& stored(b, 32) < crate::number::field_prime()
            &&& stored(b, 64) < crate::number::field_prime()
        },
        b.len() >= 192 ==> {
            &&& stored(b, 96) < crate::number::field_prime()
            &&& stored(b, 128) < crate::number::field_prime()
            &&& stored(b, 160) < crate::number::field_prime()
        },
{
    assert(nth(b, 0) == stored(b, 0));
    assert(nth(b, 1) == stored(b, 32));
    assert(nth(b, 2) == stored(b, 64));
    assert(nth(b, 3) == stored(b, 96));
    assert(nth(b, 4) == stored(b, 128));
    assert(nth(b, 5) == stored(b, 160));
}

/// `unscale` undoes the factor with which numbers are stored.
pub proof fn law_unscale_undoes_the_factor()
    ensures
        product(
            unscale(),
            0x1_0000_0000_0000_0000_0000_0000_0000_0000_0000_0000_0000_0000_0000_0000_0000_0000int,
        ) == 1,
{
}

} // verus!
