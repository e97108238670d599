//! What the elements of the groups are, and that keys and ciphertexts are judged by
//! their elements alone.
use crate::abe::{
    check_opening, is_issuing_public_key, is_sealing_public_key, is_second_group_element,
    is_usable_master_key, Frame, MasterKey, PublicKey, SecretKey,
};
use crate::curve::{
    is_first_group_element, is_in_range, is_invertible_scalar, is_second_curve_point,
};
use crate::messages::Fault;
use crate::number::{field_difference, field_product, field_sum, is_less, Number};
use crate::policy::{Policy, Visit};
use vstd::prelude::*;

verus! {

/// The prime of the field and the order of the groups are those of the curve of
/// Barreto and Naehrig with this parameter.
pub proof fn law_primes()
    ensures
        ({
            let u = 4965661367192848881int;
            let u2 = u * u;
            let u3 = u2 * u;
            let u4 = u3 * u;
            &&& crate::number::field_prime() == 36 * u4 + 36 * u3 + 24 * u2 + 6 * u + 1
            &&& crate::number::group_order() == 36 * u4 + 36 * u3 + 18 * u2 + 6 * u + 1
        }),
{
}

/// Numbers in two halves are compared, and are added, subtracted and multiplied in
/// the field, as the numbers they stand for.
pub proof fn law_arithmetic(
    a: &Number,
    b: &Number,
    less: bool,
    sum: Number,
    gap: Number,
    product: Number,
)
    requires
        a.value() < crate::number::field_prime(),
        b.value() < crate::number::field_prime(),
        call_ensures(is_less, (a, b), less),
        call_ensures(field_sum, (a, b), sum),
        call_ensures(field_difference, (a, b), gap),
        call_ensures(field_product, (a, b), product),
    ensures
        a.value() == a.hi * 340282366920938463463374607431768211456int + a.lo,
        less <==> a.hi < b.hi || (a.hi == b.hi && a.lo < b.lo),
        sum.value() == (a.value() + b.value()) % crate::number::field_prime(),
        gap.value() == (a.value() - b.value()) % crate::number::field_prime(),
        product.value() == (a.value() * b.value()) % crate::number::field_prime(),
{
}

/// A stored number is four words, the lowest first, of eight bytes, the highest
/// first.
pub proof fn law_stored_numbers(b: Seq<u8>, at: int)
    ensures
        crate::curve::word(b, at) == ((((((b[at] * 256 + b[at + 1]) * 256 + b[at + 2]) * 256 + b[at
            + 3]) * 256 + b[at + 4]) * 256 + b[at + 5]) * 256 + b[at + 6]) * 256 + b[at + 7],
        crate::curve::stored(b, at) == crate::curve::word(b, at) + 18446744073709551616int * (
        crate::curve::word(b, at + 8) + 18446744073709551616int * (crate::curve::word(b, at + 16)
            + 18446744073709551616int * crate::curve::word(b, at + 24))),
{
}

/// The number that is held at a place is the one in the field that gives the stored
/// one when it is multiplied by 2^256.
pub proof fn law_held_numbers(b: Seq<u8>, at: int)
    ensures
        0 <= crate::curve::held(b, at) < crate::number::field_prime(),
        (crate::curve::held(b, at)
            * 0x1_0000_0000_0000_0000_0000_0000_0000_0000_0000_0000_0000_0000_0000_0000_0000_0000int)
            % crate::number::field_prime() == crate::curve::stored(b, at)
            % crate::number::field_prime(),
        crate::curve::held_pair(b, at) == (
            crate::curve::held(b, at),
            crate::curve::held(b, at + 32),
        ),
{
    let p = crate::number::field_prime();
    let r = 0x1_0000_0000_0000_0000_0000_0000_0000_0000_0000_0000_0000_0000_0000_0000_0000_0000int;
    let s = crate::curve::stored(b, at);
    let u = crate::curve::unscale();
    crate::curve::law_unscale_undoes_the_factor();
    vstd::arithmetic::div_mod::lemma_mul_mod_noop_left(s * u, r, p);
    assert((s * u) * r == s * (u * r)) by (nonlinear_arith);
    vstd::arithmetic::div_mod::lemma_mul_mod_noop_right(s, u * r, p);
}

/// Bytes are in range where they hold whole numbers of 32 bytes, and each number is
/// below the prime.
pub proof fn law_in_range(b: Seq<u8>, k: int)
    ensures
        crate::curve::nth(b, k) == crate::curve::stored(b, 32 * k),
        crate::curve::in_range(b) <==> b.len() % 32 == 0 && forall|i: int|
            0 <= i < b.len() / 32 ==> #[trigger] crate::curve::nth(b, i)
                < crate::number::field_prime(),
{
}

proof fn lemma_product(a: int, b: int)
    ensures
        crate::curve::product(a, crate::curve::product(b, b)) == (a * (b * b))
            % crate::number::field_prime(),
{
    vstd::arithmetic::div_mod::lemma_mul_mod_noop_right(a, b * b, crate::number::field_prime());
}

/// The points of the first curve are those with `y^2 = x^3 + 3 z^6` in the field.
pub proof fn law_first_curve(x: int, y: int, z: int)
    ensures
        crate::curve::on_first_curve(x, y, z) <==> (y * y) % crate::number::field_prime() == (x * (x
            * x) + 3 * ((z * (z * z)) * (z * (z * z)))) % crate::number::field_prime(),
{
    let p = crate::number::field_prime();
    let c = z * (z * z);
    lemma_product(x, x);
    lemma_product(z, z);
    let cube = crate::curve::product(z, crate::curve::product(z, z));
    assert(cube == c % p);
    vstd::arithmetic::div_mod::lemma_mul_mod_noop(c, c, p);
    assert(crate::curve::product(cube, cube) == (c * c) % p);
    vstd::arithmetic::div_mod::lemma_mul_mod_noop_right(3, c * c, p);
    vstd::arithmetic::div_mod::lemma_add_mod_noop(x * (x * x), 3 * (c * c), p);
}

/// The element of the first group is a point of its curve, or the neutral element.
pub proof fn law_first_group(b: Seq<u8>)
    ensures
        crate::curve::first_group_element(b) <==> {
            let x = crate::curve::held(b, 0);
            let y = crate::curve::held(b, 32);
            let z = crate::curve::held(b, 64);
            &&& b.len() == 96
            &&& crate::curve::stored(b, 0) < crate::number::field_prime()
            &&& crate::curve::stored(b, 32) < crate::number::field_prime()
            &&& crate::curve::stored(b, 64) < crate::number::field_prime()
            &&& crate::curve::stored(b, 64) == 0 || (y * y) % crate::number::field_prime() == (x * (
            x * x) + 3 * ((z * (z * z)) * (z * (z * z)))) % crate::number::field_prime()
        },
{
    law_in_range(b, 0);
    law_first_curve(crate::curve::held(b, 0), crate::curve::held(b, 32), crate::curve::held(b, 64));
    if b.len() == 96 {
        assert(crate::curve::nth(b, 0) == crate::curve::stored(b, 0));
        assert(crate::curve::nth(b, 1) == crate::curve::stored(b, 32));
        assert(crate::curve::nth(b, 2) == crate::curve::stored(b, 64));
    }
}

/// The field of pairs: pairs are added place by place, and multiplied as numbers with
/// a square root of -1.
pub proof fn law_pairs(a: int, b: int, c: int, d: int)
    ensures
        crate::curve::pair_total((a, b), (c, d)) == (
            (a + c) % crate::number::field_prime(),
            (b + d) % crate::number::field_prime(),
        ),
        crate::curve::pair_product((a, b), (c, d)) == (
            (a * c - b * d) % crate::number::field_prime(),
            (a * d + b * c) % crate::number::field_prime(),
        ),
{
}

/// The constant of the second curve gives 3 when it is multiplied by 9 plus the
/// square root of -1.
pub proof fn law_second_constant()
    ensures
        crate::curve::pair_product((9, 1), crate::curve::second_constant()) == (3int, 0int),
{
}

/// A point of the second curve is one with `y^2 = x^3 + c z^6` in the field of pairs
/// for the constant `c`, or the neutral element.
pub proof fn law_second_curve(b: Seq<u8>)
    ensures
        crate::curve::second_curve_point(b) <==> {
            let x = crate::curve::held_pair(b, 0);
            let y = crate::curve::held_pair(b, 64);
            let z = crate::curve::held_pair(b, 128);
            let cube = crate::curve::pair_product(z, crate::curve::pair_product(z, z));
            &&& b.len() == 192
            &&& forall|k: int|
                0 <= k < 6 ==> #[trigger] crate::curve::nth(b, k) < crate::number::field_prime()
            &&& (crate::curve::stored(b, 128) == 0 && crate::curve::stored(b, 160) == 0)
                || crate::curve::pair_product(y, y) == crate::curve::pair_total(
                crate::curve::pair_product(x, crate::curve::pair_product(x, x)),
                crate::curve::pair_product(
                    crate::curve::second_constant(),
                    crate::curve::pair_product(cube, cube),
                ),
            )
        },
{
    law_in_range(b, 0);
}

/// A scalar has an inverse where it is not zero and below the order of the groups.
pub proof fn law_invertible_scalars(b: Seq<u8>)
    ensures
        crate::curve::invertible_scalar(b) <==> b.len() == 32 && 0 < crate::curve::stored(b, 0)
            < crate::number::group_order(),
{
}

/// A text holds an element of the second group where what it holds is a point of the
/// curve, and the order of the group less one takes it to its negative.
pub proof fn law_second_group(text: Seq<char>)
    ensures
        crate::abe::second_group_element(text) <==> {
            &&& crate::abe::second_group_bytes(text) matches Some(bytes)
            &&& crate::curve::second_curve_point(bytes)
            &&& crate::abe::second_group_product(
                text,
                "21888242871839275222246405745257275088548364400416034343698204186575808495616"@,
            ) matches Some(product)
            &&& crate::abe::second_group_negative(text) matches Some(negative)
            &&& crate::abe::second_group_equal(product, negative) == Some(true)
        },
{
}

/// What belongs to an attribute is sound where its two elements are elements of the
/// groups, whatever the attribute is called.
pub proof fn law_soundness_is_of_the_elements(
    a: Seq<char>,
    b: Seq<char>,
    first: Seq<u8>,
    second: Seq<char>,
)
    ensures
        crate::abe::sound_component((a, first, second)) == crate::abe::sound_component(
            (b, first, second),
        ),
        crate::abe::sound_component((a, first, second)) <==> crate::curve::first_group_element(
            first,
        ) && crate::abe::second_group_element(second),
{
}

/// Keys and ciphertexts are sound where each of their elements is.
pub proof fn law_soundness_of_all(
    text: Seq<char>,
    point: Seq<u8>,
    third: Seq<u8>,
    components: Seq<(Seq<char>, Seq<u8>, Seq<char>)>,
)
    ensures
        crate::abe::sound_components(components) <==> forall|i: int|
            0 <= i < components.len() ==> crate::curve::first_group_element(
                (#[trigger] components[i]).1,
            ) && crate::abe::second_group_element(components[i].2),
        crate::abe::sound_elements((point, third, components)) <==> {
            &&& crate::curve::first_group_element(point)
            &&& crate::curve::in_range(third)
            &&& crate::abe::sound_components(components)
        },
        crate::abe::sound_secret_key(text) <==> (crate::abe::secret_key_elements(
            text,
        ) matches Some((root, parts)) && crate::abe::second_group_element(root)
            && crate::abe::sound_components(parts)),
{
    if forall|i: int|
        0 <= i < components.len() ==> crate::curve::first_group_element(
            (#[trigger] components[i]).1,
        ) && crate::abe::second_group_element(components[i].2) {
        assert forall|i: int| 0 <= i < components.len() implies crate::abe::sound_component(
            #[trigger] components[i],
        ) by {
        }
    }
    if crate::abe::sound_components(components) {
        assert forall|i: int| 0 <= i < components.len() implies crate::curve::first_group_element(
            (#[trigger] components[i]).1,
        ) && crate::abe::second_group_element(components[i].2) by {
            assert(crate::abe::sound_component(components[i]));
        }
    }
}

/// What the functions that judge elements and keys say.
pub proof fn law_judgements(
    bytes: &Vec<u8>,
    in_range: bool,
    first: bool,
    second: bool,
    scalar: bool,
    text: &str,
    member: bool,
    public_key: &PublicKey,
    issuing: bool,
    sealing: bool,
    master_key: &MasterKey,
    usable: bool,
)
    requires
        call_ensures(is_in_range, (bytes,), in_range),
        call_ensures(is_first_group_element, (bytes,), first),
        call_ensures(is_second_curve_point, (bytes,), second),
        call_ensures(is_invertible_scalar, (bytes,), scalar),
        call_ensures(is_second_group_element, (text,), member),
        call_ensures(is_issuing_public_key, (public_key,), issuing),
        call_ensures(is_sealing_public_key, (public_key,), sealing),
        call_ensures(is_usable_master_key, (master_key,), usable),
    ensures
        in_range == crate::curve::in_range(bytes@),
        first == crate::curve::first_group_element(bytes@),
        second == crate::curve::second_curve_point(bytes@),
        scalar == crate::curve::invertible_scalar(bytes@),
        member == crate::abe::second_group_element(text@),
        issuing <==> crate::curve::in_range(public_key.issuing@),
        sealing <==> crate::curve::in_range(public_key.issuing@) && crate::curve::in_range(
            public_key.sealing@,
        ),
        usable <==> crate::curve::invertible_scalar(master_key.scalar@) && crate::curve::in_range(
            master_key.element@,
        ),
{
}

/// The elements of a key or a ciphertext are its own, in their order, each under its
/// own name.
pub proof fn law_elements_are_their_own(key: SecretKey, frame: Frame, i: int)
    ensures
        key.elements().0 == key.root@,
        key.elements().1.len() == key.components@.len(),
        0 <= i < key.components@.len() ==> key.elements().1[i] == (
            key.components[i].name@,
            key.components[i].first@,
            key.components[i].second@,
        ),
        frame.parts() == (frame.policy@, frame.json, frame.length as nat),
        frame.elements().0 == frame.point@,
        frame.elements().1 == frame.third@,
        frame.elements().2.len() == frame.components@.len(),
        0 <= i < frame.components@.len() ==> frame.elements().2[i] == (
            frame.components[i].name@,
            frame.components[i].first@,
            frame.components[i].second@,
        ),
{
}

/// What keys must hold for `rabe` to compute with them.
pub proof fn law_usable_keys(text: Seq<char>)
    ensures
        crate::abe::issuing_public_key(text) <==> crate::abe::printed_public_key(text) is Some
            && crate::curve::in_range(crate::abe::public_key_numbers(text).0),
        crate::abe::sealing_public_key(text) <==> crate::abe::printed_public_key(text) is Some
            && crate::curve::in_range(crate::abe::public_key_numbers(text).0)
            && crate::curve::in_range(crate::abe::public_key_numbers(text).1),
        crate::abe::usable_master_key(text) <==> crate::abe::printed_master_key(text) is Some
            && crate::curve::invertible_scalar(crate::abe::master_key_numbers(text).0)
            && crate::curve::in_range(crate::abe::master_key_numbers(text).1),
{
}

/// The component at `i` is the first of its name.
pub open spec fn first_of_its_name(
    components: Seq<(Seq<char>, Seq<u8>, Seq<char>)>,
    i: int,
) -> bool {
    &&& 0 <= i < components.len()
    &&& forall|k: int| 0 <= k < i ==> (#[trigger] components[k]).0 != components[i].0
}

proof fn lemma_component_of(components: Seq<(Seq<char>, Seq<u8>, Seq<char>)>, i: int)
    requires
        first_of_its_name(components, i),
    ensures
        crate::abe::component_of(components, components[i].0) == Some(components[i]),
    decreases components.len(),
{
    let rest = components.skip(1);
    assert(crate::abe::names_of(components)[0] == components[0].0);
    if i > 0 {
        assert(components[0].0 != components[i].0);
        assert(rest[i - 1] == components[i]);
        assert forall|k: int| 0 <= k < i - 1 implies (#[trigger] rest[k]).0 != rest[i - 1].0 by {
            assert(rest[k] == components[k + 1]);
        }
        lemma_component_of(rest, i - 1);
    }
}

/// A ciphertext and a key are handed to `rabe` only where the policy can be read,
/// and, where the attributes of the key meet it, only where the search for them does
/// not get stuck, there is a whole nonce, and what is paired are elements of the
/// groups: those that belong to no attribute, and those that belong to an attribute
/// that is found, the first of that name.
pub proof fn law_only_elements_are_paired(
    key: &SecretKey,
    frame: &Frame,
    outcome: Result<(), Fault>,
    policy: Policy,
    held: Seq<Seq<char>>,
    i: int,
    j: int,
)
    requires
        call_ensures(check_opening, (key, frame), outcome),
        outcome is Ok,
        held.len() == key.components@.len(),
        forall|k: int| 0 <= k < held.len() ==> #[trigger] held[k] == key.components[k].name@,
        crate::policy_grammar::written_in(frame.policy@, policy, false),
        policy.met_by(held),
        first_of_its_name(frame.components.deep_view(), i),
        first_of_its_name(key.components.deep_view(), j),
    ensures
        frame.json,
        frame.length >= 16,
        crate::abe::second_group_element(key.root@),
        crate::curve::first_group_element(frame.point@),
        crate::curve::in_range(frame.third@),
        policy.visit(held) matches Visit::Found(used) && {
            &&& used.contains(frame.components[i].name@) ==> crate::curve::first_group_element(
                frame.components[i].first@,
            ) && crate::abe::second_group_element(frame.components[i].second@)
            &&& used.contains(key.components[j].name@) && key.components[j].name@
                == frame.components[i].name@ ==> crate::curve::first_group_element(
                key.components[j].first@,
            ) && crate::abe::second_group_element(key.components[j].second@)
        },
{
    let components = key.components.deep_view();
    let sealed_for = frame.components.deep_view();
    assert(crate::abe::names_of(components) =~= held) by {
        assert forall|k: int| 0 <= k < held.len() implies crate::abe::names_of(components)[k]
            == held[k] by {
            assert(components[k].0 == key.components[k].name@);
        }
    }
    crate::policy_grammar::law_policies_are_read_as_written(frame.policy@);
    assert(crate::policy_text::policy_of(frame.policy@) == Some(policy));
    lemma_component_of(sealed_for, i);
    lemma_component_of(components, j);
    assert(sealed_for[i] == frame.components[i].deep_view());
    assert(components[j] == key.components[j].deep_view());
    let used = policy.visit(held)->Found_0;
    if used.contains(frame.components[i].name@) {
        let k = used.index_of(frame.components[i].name@);
        assert(crate::abe::sound_at(sealed_for, used[k]));
    }
    if used.contains(key.components[j].name@) && key.components[j].name@
        == frame.components[i].name@ {
        let k = used.index_of(key.components[j].name@);
        assert(crate::abe::component_of(sealed_for, used[k]) is Some);
        assert(crate::abe::sound_at(components, used[k]));
    }
}

} // verus!
