//! The BSW scheme of `rabe`: attribute-based encryption, with keys and
//! ciphertexts as JSON text.
//!
//! `rabe` computes on the numbers that `serde` reads from such a text, and does
//! not test them. On numbers that are no elements of its groups it may panic or
//! not come to an end. So the wrappers hand the numbers out as bytes, and what
//! computes on them is called only once they are known to be sound: in the range
//! of the field, or elements of the groups, as far as the computation needs it.
use crate::curve::{
    is_first_group_element, is_in_range, is_invertible_scalar, is_second_curve_point,
};
use crate::messages::Fault;
use crate::policy::{Policy, Visit};
use crate::policy_text::{read_policy, Visited};
use vstd::prelude::*;

verus! {

/// The longest plaintext that the cipher inside the scheme takes, in bytes.
pub const MAX_PLAINTEXT: u64 = 0x10_0000_0000;

/// The bytes of nonce and tag that come with every encrypted plaintext.
pub const OVERHEAD: usize = 32;

/// The bytes of nonce without which `rabe` cannot open a ciphertext.
pub const NONCE: usize = 16;

/// The compact JSON text of the public key that `text` holds, if it holds one.
pub uninterp spec fn printed_public_key(text: Seq<char>) -> Option<Seq<char>>;

/// The bytes of elements of the public key that `text` holds: of those that keys
/// are issued with, and of those that only encryption needs.
pub uninterp spec fn public_key_numbers(text: Seq<char>) -> (Seq<u8>, Seq<u8>);

/// The compact JSON text of the master key that `text` holds, if it holds one.
pub uninterp spec fn printed_master_key(text: Seq<char>) -> Option<Seq<char>>;

/// The bytes of the scalar and of the element of the master key that `text` holds.
pub uninterp spec fn master_key_numbers(text: Seq<char>) -> (Seq<u8>, Seq<u8>);

/// Of the secret key that `text` holds, if it holds one: the JSON text of the
/// element that belongs to no attribute, and for each attribute its name, the bytes
/// of its element of the first group and the JSON text of that of the second.
pub uninterp spec fn secret_key_elements(text: Seq<char>) -> Option<
    (Seq<char>, Seq<(Seq<char>, Seq<u8>, Seq<char>)>),
>;

/// The bytes of the element of the second group that `text` holds, if it holds
/// one.
pub uninterp spec fn second_group_bytes(text: Seq<char>) -> Option<Seq<u8>>;

/// The JSON text of the element of the second group that `text` holds, times the
/// number that `scalar` writes in decimal, if they hold one.
pub uninterp spec fn second_group_product(text: Seq<char>, scalar: Seq<char>) -> Option<Seq<char>>;

/// The JSON text of the negative of the element of the second group that `text`
/// holds, if it holds one.
pub uninterp spec fn second_group_negative(text: Seq<char>) -> Option<Seq<char>>;

/// The two elements of the second group that the texts hold are equal, if they
/// hold one each.
pub uninterp spec fn second_group_equal(a: Seq<char>, b: Seq<char>) -> Option<bool>;

/// The public key and the master key are of one setup.
pub uninterp spec fn matching_keys(public_key: Seq<char>, master_key: Seq<char>) -> bool;

/// `secret_key` is a key that can come of the two keys for the attributes.
pub uninterp spec fn issued_key(
    public_key: Seq<char>,
    master_key: Seq<char>,
    attributes: Seq<Seq<char>>,
    secret_key: Seq<char>,
) -> bool;

/// Of the ciphertext that `text` holds, if it holds one: its policy, whether
/// that is in the JSON policy language, and the bytes of its encrypted plaintext.
pub uninterp spec fn ciphertext_parts(text: Seq<char>) -> Option<(Seq<char>, bool, nat)>;

/// Of the ciphertext that `text` holds: the bytes of the elements of the first and
/// third group that belong to no attribute, and for each attribute its name, the
/// bytes of its element of the first group and the JSON text of that of the second.
pub uninterp spec fn ciphertext_elements(text: Seq<char>) -> (
    Seq<u8>,
    Seq<u8>,
    Seq<(Seq<char>, Seq<u8>, Seq<char>)>,
);

/// What the secret key makes of the ciphertext, if it opens it.
pub uninterp spec fn opened(secret_key: Seq<char>, ciphertext: Seq<char>) -> Option<Seq<u8>>;

/// `text` holds a public key that keys can be issued with: what `rabe` reads of it
/// for that is in the range of the field.
pub open spec fn issuing_public_key(text: Seq<char>) -> bool {
    let (issuing, _) = public_key_numbers(text);
    printed_public_key(text) is Some && crate::curve::in_range(issuing)
}

/// `text` holds a public key that can be encrypted with: what `rabe` reads of it
/// for that is in the range of the field.
pub open spec fn sealing_public_key(text: Seq<char>) -> bool {
    let (_, sealing) = public_key_numbers(text);
    issuing_public_key(text) && crate::curve::in_range(sealing)
}

/// The numbers are those of a master key that keys can be issued with: a scalar
/// with an inverse, and an element in the range of the field.
pub open spec fn usable_numbers(numbers: (Seq<u8>, Seq<u8>)) -> bool {
    let (scalar, element) = numbers;
    crate::curve::invertible_scalar(scalar) && crate::curve::in_range(element)
}

/// `text` holds a master key that keys can be issued with.
pub open spec fn usable_master_key(text: Seq<char>) -> bool {
    printed_master_key(text) is Some && usable_numbers(master_key_numbers(text))
}

/// The order of the group takes the element that `text` holds to the neutral one:
/// the order less one, times the element, is its negative.
pub open spec fn of_group_order(text: Seq<char>) -> bool {
    &&& second_group_product(text, "21888242871839275222246405745257275088548364400416034343698204186575808495616"@) matches Some(product)
    &&& second_group_negative(text) matches Some(negative)
    &&& second_group_equal(product, negative) == Some(true)
}

/// `text` holds an element of the second group: a point of its curve, of the
/// order of the group.
pub open spec fn second_group_element(text: Seq<char>) -> bool {
    &&& second_group_bytes(text) matches Some(bytes) && crate::curve::second_curve_point(bytes)
    &&& of_group_order(text)
}

/// The elements that belong to an attribute are elements of the groups.
pub open spec fn sound_component(component: (Seq<char>, Seq<u8>, Seq<char>)) -> bool {
    let (_, first, second) = component;
    crate::curve::first_group_element(first) && second_group_element(second)
}

/// The elements that belong to attributes are elements of the groups.
pub open spec fn sound_components(components: Seq<(Seq<char>, Seq<u8>, Seq<char>)>) -> bool {
    forall|i: int| 0 <= i < components.len() ==> sound_component(#[trigger] components[i])
}

/// The names of the attributes.
pub open spec fn names_of(components: Seq<(Seq<char>, Seq<u8>, Seq<char>)>) -> Seq<Seq<char>> {
    Seq::new(
        components.len(),
        |i: int|
            {
                let (name, _, _) = components[i];
                name
            },
    )
}

/// What belongs to the attribute of that name, the first of them.
pub open spec fn component_of(
    components: Seq<(Seq<char>, Seq<u8>, Seq<char>)>,
    name: Seq<char>,
) -> Option<(Seq<char>, Seq<u8>, Seq<char>)>
    decreases components.len(),
{
    if components.len() == 0 {
        None
    } else if names_of(components)[0] == name {
        Some(components[0])
    } else {
        component_of(components.skip(1), name)
    }
}

/// What belongs to the attribute of that name, if anything does, are elements of
/// the groups.
pub open spec fn sound_at(
    components: Seq<(Seq<char>, Seq<u8>, Seq<char>)>,
    name: Seq<char>,
) -> bool {
    component_of(components, name) matches Some(component) ==> sound_component(component)
}

/// What `rabe` reads of a secret key to open a ciphertext with the attributes
/// `used` are elements of the groups.
pub open spec fn sound_key_for(
    key: (Seq<char>, Seq<(Seq<char>, Seq<u8>, Seq<char>)>),
    sealed_for: Seq<(Seq<char>, Seq<u8>, Seq<char>)>,
    used: Seq<Seq<char>>,
) -> bool {
    let (root, components) = key;
    &&& second_group_element(root)
    &&& forall|i: int|
        0 <= i < used.len() && component_of(sealed_for, used[i]) is Some ==> sound_at(
            components,
            #[trigger] used[i],
        )
}

/// What `rabe` reads of a ciphertext to open it with the attributes `used` are
/// elements of the groups, or numbers in the range of the field for the third.
pub open spec fn sound_ciphertext_for(
    elements: (Seq<u8>, Seq<u8>, Seq<(Seq<char>, Seq<u8>, Seq<char>)>),
    used: Seq<Seq<char>>,
) -> bool {
    let (point, third, components) = elements;
    &&& crate::curve::first_group_element(point)
    &&& crate::curve::in_range(third)
    &&& forall|i: int| 0 <= i < used.len() ==> sound_at(components, #[trigger] used[i])
}

/// `text` holds a secret key made of elements of the groups.
pub open spec fn sound_secret_key(text: Seq<char>) -> bool {
    secret_key_elements(text) matches Some((root, components)) && second_group_element(root)
        && sound_components(components)
}

/// The elements of a ciphertext are all elements of the groups, or numbers in the
/// range of the field for the third.
pub open spec fn sound_elements(
    elements: (Seq<u8>, Seq<u8>, Seq<(Seq<char>, Seq<u8>, Seq<char>)>),
) -> bool {
    let (point, third, components) = elements;
    &&& crate::curve::first_group_element(point)
    &&& crate::curve::in_range(third)
    &&& sound_components(components)
}

/// No attribute that is held is named twice.
pub open spec fn held_once(names: Seq<Seq<char>>, attributes: Seq<Seq<char>>) -> bool {
    forall|i: int, j: int|
        0 <= i < j < names.len() && attributes.contains(names[i]) ==> #[trigger] names[i]
            != #[trigger] names[j]
}

/// `ciphertext` holds `plaintext` for those who meet `policy`: a key that was
/// issued for attributes which do not meet it opens nothing, and a key that was
/// issued for attributes which do opens the plaintext, where the policy names
/// none of these attributes twice and looking for them in it does not get stuck.
/// Under a public key that came of a setup, the ciphertext is made of elements of
/// the groups.
pub open spec fn sealed(
    public_key: Seq<char>,
    policy: Policy,
    plaintext: Seq<u8>,
    ciphertext: Seq<char>,
) -> bool {
    &&& ciphertext_parts(ciphertext) == Some(
        (policy.rendered(), true, plaintext.len() + OVERHEAD as nat),
    )
    &&& forall|master_key: Seq<char>| #[trigger]
        matching_keys(public_key, master_key) ==> {
            let (point, third, components) = ciphertext_elements(ciphertext);
            &&& crate::curve::first_group_element(point)
            &&& crate::curve::in_range(third)
            &&& forall|i: int|
                0 <= i < components.len() ==> crate::curve::first_group_element(
                    (#[trigger] components[i]).1,
                ) && second_group_element(components[i].2)
        }
    &&& forall|master_key: Seq<char>, attributes: Seq<Seq<char>>, secret_key: Seq<char>| #[trigger]
        issued_key(public_key, master_key, attributes, secret_key) ==> {
            &&& !policy.met_by(attributes) ==> opened(secret_key, ciphertext) is None
            &&& {
                &&& matching_keys(public_key, master_key)
                &&& policy.met_by(attributes)
                &&& policy.visit(attributes) is Found
                &&& held_once(policy.names(), attributes)
            } ==> opened(secret_key, ciphertext) == Some(plaintext)
        }
}

/// A public key and a master key as JSON text.
pub struct KeyPair {
    pub public_key: String,
    pub master_key: String,
}

/// A public key as compact JSON text, and the bytes of its elements: of those that
/// keys are issued with, and of those that only encryption needs.
pub struct PublicKey {
    pub text: String,
    pub issuing: Vec<u8>,
    pub sealing: Vec<u8>,
}

/// A master key as compact JSON text, and the bytes of its scalar and its element.
pub struct MasterKey {
    pub text: String,
    pub scalar: Vec<u8>,
    pub element: Vec<u8>,
}

/// What belongs to an attribute in a secret key or a ciphertext: the name, the
/// bytes of an element of the first group and the JSON text of one of the second.
pub struct Component {
    pub name: String,
    pub first: Vec<u8>,
    pub second: String,
}

impl DeepView for Component {
    type V = (Seq<char>, Seq<u8>, Seq<char>);

    open spec fn deep_view(&self) -> (Seq<char>, Seq<u8>, Seq<char>) {
        (self.name@, self.first@, self.second@)
    }
}

/// The elements of a secret key: the JSON text of the one that belongs to no
/// attribute, and what belongs to each attribute.
pub struct SecretKey {
    pub root: String,
    pub components: Vec<Component>,
}

impl SecretKey {
    pub open spec fn elements(self) -> (Seq<char>, Seq<(Seq<char>, Seq<u8>, Seq<char>)>) {
        (self.root@, self.components.deep_view())
    }
}

/// Whether a ciphertext of these parts and elements can be given to `rabe`
/// together with a secret key of those elements, and if not, whose fault it is. A
/// ciphertext must have a policy in the JSON policy language. Where the attributes
/// of the key meet it, `rabe` goes on: looking for them must not get stuck, there
/// must be a whole nonce, and what it then reads must be sound.
pub open spec fn opening(
    key: (Seq<char>, Seq<(Seq<char>, Seq<u8>, Seq<char>)>),
    parts: (Seq<char>, bool, nat),
    elements: (Seq<u8>, Seq<u8>, Seq<(Seq<char>, Seq<u8>, Seq<char>)>),
) -> Result<(), Fault> {
    let (policy, json, length) = parts;
    let (_, held) = key;
    let (_, _, sealed_for) = elements;
    if !json {
        Err(Fault::UnopenableCiphertext)
    } else {
        match crate::policy_text::policy_of(policy) {
            None => Err(Fault::UnopenableCiphertext),
            Some(p) => if !p.met_by(names_of(held)) {
                Ok(())
            } else {
                match p.visit(names_of(held)) {
                    Visit::Found(used) => if length < NONCE {
                        Err(Fault::UnopenableCiphertext)
                    } else if !sound_key_for(key, sealed_for, used) {
                        Err(Fault::UnsoundKey)
                    } else if !sound_ciphertext_for(elements, used) {
                        Err(Fault::UnopenableCiphertext)
                    } else {
                        Ok(())
                    },
                    _ => Err(Fault::UnopenableCiphertext),
                }
            },
        }
    }
}

/// The two texts hold a secret key and a ciphertext that can be given to `rabe` to
/// open.
pub open spec fn openable(secret_key: Seq<char>, ciphertext: Seq<char>) -> bool {
    &&& secret_key_elements(secret_key) matches Some(key)
    &&& ciphertext_parts(ciphertext) matches Some(parts)
    &&& opening(key, parts, ciphertext_elements(ciphertext)) is Ok
}

/// `text` holds a ciphertext with a policy nested deeper than `rabe` parses for
/// sure.
pub open spec fn towering(text: Seq<char>) -> bool {
    &&& ciphertext_parts(text) matches Some((policy, _, _))
    &&& crate::policy_text::policy_of(policy) matches Some(p)
    &&& p.height() > crate::policy_text::SURE_HEIGHT
}

/// The policy of a ciphertext, whether it is in the JSON policy language, the
/// bytes of the encrypted plaintext, and the elements of the ciphertext: the bytes
/// of those of the first and third group that belong to no attribute, and what
/// belongs to each attribute.
pub struct Frame {
    pub policy: String,
    pub json: bool,
    pub length: usize,
    pub point: Vec<u8>,
    pub third: Vec<u8>,
    pub components: Vec<Component>,
}

impl Frame {
    pub open spec fn parts(self) -> (Seq<char>, bool, nat) {
        (self.policy@, self.json, self.length as nat)
    }

    pub open spec fn elements(self) -> (
        Seq<u8>,
        Seq<u8>,
        Seq<(Seq<char>, Seq<u8>, Seq<char>)>,
    ) {
        (self.point@, self.third@, self.components.deep_view())
    }
}

/// `bsw::setup`, whose two keys `serde_json::to_string_pretty` writes: a public
/// key and a master key of one setup. Which ones depends on chance.
#[verifier::external_body]
pub(crate) fn generate_keys() -> (keys: KeyPair)
    ensures
        matching_keys(keys.public_key@, keys.master_key@),
        printed_public_key(keys.public_key@) is Some,
        crate::curve::in_range(public_key_numbers(keys.public_key@).0),
        crate::curve::in_range(public_key_numbers(keys.public_key@).1),
        printed_master_key(keys.master_key@) is Some,
        crate::curve::invertible_scalar(master_key_numbers(keys.master_key@).0),
        crate::curve::in_range(master_key_numbers(keys.master_key@).1),
{
    let (public_key, master_key) = rabe::schemes::bsw::setup();
    KeyPair {
        public_key: serde_json::to_string_pretty(&public_key).unwrap(),
        master_key: serde_json::to_string_pretty(&master_key).unwrap(),
    }
}

/// `serde_json::from_str` and `serde_json::to_string` on a public key, and
/// `into_bytes` of `rabe_bn` on its elements: the same key in compact form, which
/// is again the text of that key, with its numbers, or nothing where the text
/// holds none. The numbers of a key that came of a setup are in the range of the
/// field.
#[verifier::external_body]
pub(crate) fn print_public_key(text: &str) -> (printed: Option<PublicKey>)
    ensures
        printed is Some <==> printed_public_key(text@) is Some,
        printed matches Some(p) ==> {
            &&& printed_public_key(text@) == Some(p.text@)
            &&& public_key_numbers(text@) == (p.issuing@, p.sealing@)
            &&& printed_public_key(p.text@) == Some(p.text@)
            &&& public_key_numbers(p.text@) == (p.issuing@, p.sealing@)
        },
        printed matches Some(p) ==> forall|master_key: Seq<char>| #[trigger]
            matching_keys(text@, master_key) ==> matching_keys(p.text@, master_key)
                && crate::curve::in_range(p.issuing@) && crate::curve::in_range(p.sealing@),
{
    let key = serde_json::from_str::<rabe::schemes::bsw::CpAbePublicKey>(text).ok()?;
    let g1 = rabe_bn::Group::into_bytes(&key._g1);
    let g2 = rabe_bn::Group::into_bytes(&key._g2);
    let h = rabe_bn::Group::into_bytes(&key._h);
    Some(PublicKey {
        text: serde_json::to_string(&key).unwrap(),
        issuing: [g1, g2].concat(),
        sealing: [h, key._e_gg_alpha.into_bytes()].concat(),
    })
}

/// `serde_json::from_str` and `serde_json::to_string` on a master key, and
/// `into_bytes` of `rabe_bn` on its scalar and its element: the same key in
/// compact form, which is again the text of that key, with its numbers, or
/// nothing where the text holds none.
#[verifier::external_body]
pub(crate) fn print_master_key(text: &str) -> (printed: Option<MasterKey>)
    ensures
        printed is Some <==> printed_master_key(text@) is Some,
        printed matches Some(p) ==> {
            &&& printed_master_key(text@) == Some(p.text@)
            &&& master_key_numbers(text@) == (p.scalar@, p.element@)
            &&& printed_master_key(p.text@) == Some(p.text@)
            &&& master_key_numbers(p.text@) == (p.scalar@, p.element@)
        },
        printed matches Some(p) ==> forall|public_key: Seq<char>| #[trigger]
            matching_keys(public_key, text@) ==> matching_keys(public_key, p.text@),
{
    let key = serde_json::from_str::<rabe::schemes::bsw::CpAbeMasterKey>(text).ok()?;
    let scalar = key._beta.into_bytes();
    let element = rabe_bn::Group::into_bytes(&key._g2_alpha);
    Some(MasterKey { text: serde_json::to_string(&key).unwrap(), scalar, element })
}

/// `serde_json::from_str` on a secret key, with `into_bytes` of `rabe_bn` on its
/// elements of the first group and `serde_json::to_string` on those of the second:
/// its elements, or nothing where the text holds no secret key.
#[verifier::external_body]
pub(crate) fn secret_key_of(text: &str) -> (key: Option<SecretKey>)
    ensures
        key is Some <==> secret_key_elements(text@) is Some,
        key matches Some(k) ==> secret_key_elements(text@) == Some(k.elements()),
{
    let key = serde_json::from_str::<rabe::schemes::bsw::CpAbeSecretKey>(text).ok()?;
    let components = key._d_j.into_iter().map(|part| Component {
        first: rabe_bn::Group::into_bytes(&part._g1),
        second: serde_json::to_string(&part._g2).unwrap(),
        name: part._str,
    });
    Some(SecretKey {
        root: serde_json::to_string(&key._d).unwrap(),
        components: components.collect(),
    })
}

/// `serde_json::from_str` on an element of the second group, and `into_bytes` of
/// `rabe_bn` on it: its bytes, or nothing where the text holds none.
#[verifier::external_body]
pub(crate) fn bytes_of_second_group(text: &str) -> (bytes: Option<Vec<u8>>)
    ensures
        bytes is Some <==> second_group_bytes(text@) is Some,
        bytes matches Some(b) ==> second_group_bytes(text@) == Some(b@),
{
    let element = serde_json::from_str::<rabe_bn::G2>(text).ok()?;
    Some(rabe_bn::Group::into_bytes(&element))
}

/// `*` of `rabe_bn` on an element of the second group that `serde_json` reads and
/// a scalar that `Fr::from_str` reads: the product as `serde_json` writes it, or
/// nothing where one of the texts cannot be read. The numbers of the element must
/// be in the range of the field, and those of the product are.
#[verifier::external_body]
fn multiply_in_second_group(text: &str, scalar: &str) -> (product: Option<String>)
    requires
        second_group_bytes(text@) matches Some(b) && crate::curve::in_range(b),
    ensures
        product.deep_view() == second_group_product(text@, scalar@),
        product matches Some(p) ==> (second_group_bytes(p@) matches Some(b)
            && crate::curve::in_range(b)),
{
    let element = serde_json::from_str::<rabe_bn::G2>(text).ok()?;
    let factor = rabe_bn::Fr::from_str(scalar)?;
    Some(serde_json::to_string(&(element * factor)).unwrap())
}

/// `-` of `rabe_bn` on an element of the second group that `serde_json` reads: the
/// negative as `serde_json` writes it, or nothing where the text holds none. The
/// numbers of the element must be in the range of the field, and those of the
/// negative are.
#[verifier::external_body]
fn negate_in_second_group(text: &str) -> (negative: Option<String>)
    requires
        second_group_bytes(text@) matches Some(b) && crate::curve::in_range(b),
    ensures
        negative.deep_view() == second_group_negative(text@),
        negative matches Some(n) ==> (second_group_bytes(n@) matches Some(b)
            && crate::curve::in_range(b)),
{
    let element = serde_json::from_str::<rabe_bn::G2>(text).ok()?;
    Some(serde_json::to_string(&(-element)).unwrap())
}

/// `==` of `rabe_bn` on two elements of the second group that `serde_json` reads,
/// or nothing where one of the texts holds none. The numbers of the elements must
/// be in the range of the field.
#[verifier::external_body]
fn compare_in_second_group(a: &str, b: &str) -> (equal: Option<bool>)
    requires
        second_group_bytes(a@) matches Some(x) && crate::curve::in_range(x),
        second_group_bytes(b@) matches Some(y) && crate::curve::in_range(y),
    ensures
        equal == second_group_equal(a@, b@),
{
    let left = serde_json::from_str::<rabe_bn::G2>(a).ok()?;
    let right = serde_json::from_str::<rabe_bn::G2>(b).ok()?;
    Some(left == right)
}

/// `bsw::keygen`, on keys that `serde_json` reads and for a key that it writes:
/// some secret key for the attributes, or nothing where there are none. It
/// divides by the scalar of the master key, and multiplies elements of both keys.
/// Which key it is depends on chance. It names the attributes in their order, and
/// from keys of one setup it is made of elements of the groups.
#[verifier::external_body]
pub(crate) fn issue_key(public_key: &str, master_key: &str, attributes: &Vec<String>) -> (issued:
    Option<String>)
    requires
        issuing_public_key(public_key@),
        usable_master_key(master_key@),
    ensures
        issued is Some <==> attributes@.len() > 0,
        issued matches Some(secret_key) ==> issued_key(
            public_key@,
            master_key@,
            attributes.deep_view(),
            secret_key@,
        ),
        issued matches Some(secret_key) ==> (secret_key_elements(secret_key@) matches Some(
            (_, components),
        ) && names_of(components) == attributes.deep_view()),
        issued matches Some(secret_key) ==> (matching_keys(public_key@, master_key@) ==> (
        secret_key_elements(secret_key@) matches Some((root, components)) && second_group_element(
            root,
        ) && forall|i: int|
            0 <= i < components.len() ==> crate::curve::first_group_element(
                (#[trigger] components[i]).1,
            ) && second_group_element(components[i].2))),
{
    let pk = serde_json::from_str::<rabe::schemes::bsw::CpAbePublicKey>(public_key).ok()?;
    let mk = serde_json::from_str::<rabe::schemes::bsw::CpAbeMasterKey>(master_key).ok()?;
    let secret_key = rabe::schemes::bsw::keygen(&pk, &mk, attributes)?;
    Some(serde_json::to_string(&secret_key).unwrap())
}

/// `bsw::encrypt`, on a key that `serde_json` reads and for a ciphertext that
/// `serde_json::to_string_pretty` writes: some ciphertext that holds the
/// plaintext for those who meet the policy, or nothing where the policy is nested
/// so deep that its parser gives up. `policy` is a policy as `rabe` itself writes
/// it, of limited height: the parser panics on some other texts, and the cipher on
/// a plaintext that is too long. Which ciphertext it is depends on chance.
#[verifier::external_body]
pub(crate) fn seal(public_key: &str, policy: &String, plaintext: &Vec<u8>) -> (ciphertext: Option<
    String,
>)
    requires
        sealing_public_key(public_key@),
        exists|p: Policy|
            p.plain() && p.height() <= crate::policy_text::MAX_HEIGHT && #[trigger] p.rendered()
                == policy@,
        plaintext@.len() <= MAX_PLAINTEXT,
    ensures
        forall|p: Policy|
            p.plain() && p.height() <= crate::policy_text::SURE_HEIGHT && #[trigger] p.rendered()
                == policy@ ==> ciphertext is Some,
        ciphertext matches Some(ct) ==> forall|p: Policy|
            p.plain() && #[trigger] p.rendered() == policy@ ==> sealed(
                public_key@,
                p,
                plaintext@,
                ct@,
            ),
{
    let pk = serde_json::from_str::<rabe::schemes::bsw::CpAbePublicKey>(public_key).ok()?;
    let language = rabe::utils::policy::pest::PolicyLanguage::JsonPolicy;
    let ct = rabe::schemes::bsw::encrypt(&pk, policy, plaintext, language).ok()?;
    Some(serde_json::to_string_pretty(&ct).unwrap())
}

/// `serde_json::from_str` on a ciphertext, and its fields: the policy, its
/// language, the length of the encrypted plaintext, and the elements, of the first
/// and third group by `into_bytes` of `rabe_bn`, of the second by
/// `serde_json::to_string`; or nothing where the text holds no ciphertext.
#[verifier::external_body]
pub(crate) fn frame_of(text: &str) -> (frame: Option<Frame>)
    ensures
        frame is Some <==> ciphertext_parts(text@) is Some,
        frame matches Some(f) ==> ciphertext_parts(text@) == Some(f.parts()),
        frame matches Some(f) ==> ciphertext_elements(text@) == f.elements(),
{
    let ct = serde_json::from_str::<rabe::schemes::bsw::CpAbeCiphertext>(text).ok()?;
    let components = ct._c_y.into_iter().map(|part| Component {
        first: rabe_bn::Group::into_bytes(&part._g1),
        second: serde_json::to_string(&part._g2).unwrap(),
        name: part._str,
    });
    let json = matches!(ct._policy.1, rabe::utils::policy::pest::PolicyLanguage::JsonPolicy);
    let point = rabe_bn::Group::into_bytes(&ct._c);
    let (third, length) = (ct._c_p.into_bytes(), ct._ct.len());
    let components = components.collect();
    Some(Frame { policy: ct._policy.0, json, length, point, third, components })
}

/// `bsw::decrypt`, on a key and a ciphertext that `serde_json` reads: the
/// plaintext, or nothing where the key does not open the ciphertext, or where the
/// policy is nested so deep that the parser gives up. Where the attributes of the
/// key meet the policy, it pairs their elements with those of the ciphertext, and
/// panics on a ciphertext without a whole nonce, and on conjunctions and
/// disjunctions of fewer than two parts that it comes across.
#[verifier::external_body]
pub(crate) fn open_sealed(secret_key: &str, ciphertext: &str) -> (plaintext: Option<Vec<u8>>)
    requires
        openable(secret_key@, ciphertext@),
    ensures
        plaintext matches Some(p) ==> opened(secret_key@, ciphertext@) == Some(p@),
        plaintext is None ==> opened(secret_key@, ciphertext@) is None || towering(ciphertext@),
{
    let sk = serde_json::from_str::<rabe::schemes::bsw::CpAbeSecretKey>(secret_key).ok()?;
    let ct = serde_json::from_str::<rabe::schemes::bsw::CpAbeCiphertext>(ciphertext).ok()?;
    rabe::schemes::bsw::decrypt(&sk, &ct).ok()
}

/// `rabe` can answer nothing when it is to encrypt the plaintext.
pub closed spec fn seal_may_fail(
    public_key: Seq<char>,
    policy: Seq<char>,
    plaintext: Seq<u8>,
) -> bool {
    exists|key: &str, text: &String, bytes: &Vec<u8>|
        {
            &&& #[trigger] call_ensures(seal, (key, text, bytes), None::<String>)
            &&& key@ == public_key
            &&& text@ == policy
            &&& bytes@ == plaintext
        }
}

/// `rabe` can answer nothing when it is to open the ciphertext.
pub closed spec fn open_may_fail(secret_key: Seq<char>, ciphertext: Seq<char>) -> bool {
    exists|key: &str, ct: &str|
        {
            &&& #[trigger] call_ensures(open_sealed, (key, ct), None::<Vec<u8>>)
            &&& key@ == secret_key
            &&& ct@ == ciphertext
        }
}

/// Encrypts by `rabe`, or says that it answered nothing.
pub(crate) fn sealed_by_rabe(public_key: &str, policy: &String, plaintext: &Vec<u8>) -> (ciphertext:
    Option<String>)
    requires
        sealing_public_key(public_key@),
        exists|p: Policy|
            p.plain() && p.height() <= crate::policy_text::MAX_HEIGHT && #[trigger] p.rendered()
                == policy@,
        plaintext@.len() <= MAX_PLAINTEXT,
    ensures
        forall|p: Policy|
            p.plain() && p.height() <= crate::policy_text::SURE_HEIGHT && #[trigger] p.rendered()
                == policy@ ==> ciphertext is Some,
        ciphertext matches Some(ct) ==> forall|p: Policy|
            p.plain() && #[trigger] p.rendered() == policy@ ==> sealed(
                public_key@,
                p,
                plaintext@,
                ct@,
            ),
        ciphertext is None ==> seal_may_fail(public_key@, policy@, plaintext@),
{
    seal(public_key, policy, plaintext)
}

/// Opens by `rabe`, or says that it answered nothing.
pub(crate) fn opened_by_rabe(secret_key: &str, ciphertext: &str) -> (plaintext: Option<Vec<u8>>)
    requires
        openable(secret_key@, ciphertext@),
    ensures
        plaintext matches Some(p) ==> opened(secret_key@, ciphertext@) == Some(p@),
        plaintext is None ==> opened(secret_key@, ciphertext@) is None || towering(ciphertext@),
        plaintext is None ==> open_may_fail(secret_key@, ciphertext@),
{
    open_sealed(secret_key, ciphertext)
}

/// What `rabe` can fail at is what its function can answer nothing to.
proof fn law_only_rabe_fails(public_key: Seq<char>, policy: Seq<char>, plaintext: Seq<u8>)
    ensures
        seal_may_fail(public_key, policy, plaintext) ==> exists|
            key: &str,
            text: &String,
            bytes: &Vec<u8>,
        |
            {
                &&& #[trigger] call_ensures(seal, (key, text, bytes), None::<String>)
                &&& key@ == public_key
                &&& text@ == policy
                &&& bytes@ == plaintext
            },
        forall|secret_key: Seq<char>, ciphertext: Seq<char>| #[trigger]
            open_may_fail(secret_key, ciphertext) ==> exists|key: &str, ct: &str|
                {
                    &&& #[trigger] call_ensures(open_sealed, (key, ct), None::<Vec<u8>>)
                    &&& key@ == secret_key
                    &&& ct@ == ciphertext
                },
{
}

/// Whether keys can be issued with a public key.
pub fn is_issuing_public_key(key: &PublicKey) -> (sound: bool)
    ensures
        sound == crate::curve::in_range(key.issuing@),
{
    is_in_range(&key.issuing)
}

/// Whether a public key can be encrypted with.
pub fn is_sealing_public_key(key: &PublicKey) -> (sound: bool)
    ensures
        sound == (crate::curve::in_range(key.issuing@) && crate::curve::in_range(key.sealing@)),
{
    is_in_range(&key.issuing) && is_in_range(&key.sealing)
}

/// Whether keys can be issued with a master key.
pub fn is_usable_master_key(key: &MasterKey) -> (usable: bool)
    ensures
        usable == usable_numbers((key.scalar@, key.element@)),
{
    is_invertible_scalar(&key.scalar) && is_in_range(&key.element)
}

/// Whether the order of the group takes the element that a text holds, with its
/// numbers in the range of the field, to the neutral one.
fn has_group_order(text: &str) -> (holds: bool)
    requires
        second_group_bytes(text@) matches Some(b) && crate::curve::in_range(b),
    ensures
        holds == of_group_order(text@),
{
    let product = multiply_in_second_group(text, "21888242871839275222246405745257275088548364400416034343698204186575808495616");
    let negative = negate_in_second_group(text);
    match (product, negative) {
        (Some(p), Some(n)) => match compare_in_second_group(p.as_str(), n.as_str()) {
            None => false,
            Some(equal) => equal,
        },
        _ => false,
    }
}

/// Whether a text holds an element of the second group.
pub fn is_second_group_element(text: &str) -> (holds: bool)
    ensures
        holds == second_group_element(text@),
{
    match bytes_of_second_group(text) {
        None => false,
        Some(bytes) => is_second_curve_point(&bytes) && has_group_order(text),
    }
}

/// The place of what belongs to the attribute of that name, the first of them.
fn place_of(components: &Vec<Component>, name: &String) -> (place: Option<usize>)
    ensures
        match place {
            None => component_of(components.deep_view(), name@) is None,
            Some(i) => i < components@.len() && component_of(components.deep_view(), name@)
                == Some(components[i as int].deep_view()),
        },
{
    let ghost all = components.deep_view();
    let mut i: usize = 0;
    assert(all.skip(0) =~= all);
    while i < components.len()
        invariant
            i <= components@.len(),
            all == components.deep_view(),
            component_of(all.skip(i as int), name@) == component_of(all, name@),
        decreases components@.len() - i,
    {
        let ghost rest = all.skip(i as int);
        assert(rest[0] == components[i as int].deep_view());
        assert(names_of(rest)[0] == components[i as int].name@);
        if components[i].name == *name {
            return Some(i);
        }
        assert(rest.skip(1) =~= all.skip(i + 1));
        i = i + 1;
    }
    assert(all.skip(i as int).len() == 0);
    None
}

/// Whether what belongs to the attribute of that name, if anything does, are
/// elements of the groups.
fn is_sound_at(components: &Vec<Component>, name: &String) -> (sound: bool)
    ensures
        sound == sound_at(components.deep_view(), name@),
{
    match place_of(components, name) {
        None => true,
        Some(i) => is_first_group_element(&components[i].first) && is_second_group_element(
            components[i].second.as_str(),
        ),
    }
}

/// Whether what `rabe` reads of a secret key to open a ciphertext with the
/// attributes `used` are elements of the groups.
fn is_sound_key_for(key: &SecretKey, sealed_for: &Vec<Component>, used: &Vec<String>) -> (sound:
    bool)
    ensures
        sound == sound_key_for(key.elements(), sealed_for.deep_view(), used.deep_view()),
{
    if !is_second_group_element(key.root.as_str()) {
        return false;
    }
    let mut i: usize = 0;
    while i < used.len()
        invariant
            i <= used@.len(),
            forall|j: int|
                0 <= j < i && component_of(sealed_for.deep_view(), used.deep_view()[j]) is Some
                    ==> sound_at(key.components.deep_view(), #[trigger] used.deep_view()[j]),
        decreases used@.len() - i,
    {
        assert(used.deep_view()[i as int] == used[i as int]@);
        if place_of(sealed_for, &used[i]).is_some() && !is_sound_at(&key.components, &used[i]) {
            return false;
        }
        i = i + 1;
    }
    true
}

/// Whether what `rabe` reads of a ciphertext to open it with the attributes `used`
/// are elements of the groups.
fn is_sound_ciphertext_for(frame: &Frame, used: &Vec<String>) -> (sound: bool)
    ensures
        sound == sound_ciphertext_for(frame.elements(), used.deep_view()),
{
    if !is_first_group_element(&frame.point) || !is_in_range(&frame.third) {
        return false;
    }
    let mut i: usize = 0;
    while i < used.len()
        invariant
            i <= used@.len(),
            forall|j: int|
                0 <= j < i ==> sound_at(
                    frame.components.deep_view(),
                    #[trigger] used.deep_view()[j],
                ),
        decreases used@.len() - i,
    {
        assert(used.deep_view()[i as int] == used[i as int]@);
        if !is_sound_at(&frame.components, &used[i]) {
            return false;
        }
        i = i + 1;
    }
    true
}

/// The names of the attributes.
fn held_names(components: &Vec<Component>) -> (names: Vec<String>)
    ensures
        names.deep_view() == names_of(components.deep_view()),
{
    let mut names: Vec<String> = Vec::new();
    let mut i: usize = 0;
    while i < components.len()
        invariant
            i <= components@.len(),
            names@.len() == i,
            forall|j: int|
                0 <= j < i ==> #[trigger] names.deep_view()[j] == names_of(
                    components.deep_view(),
                )[j],
        decreases components@.len() - i,
    {
        let ghost before = names.deep_view();
        names.push(components[i].name.clone());
        assert(names.deep_view() =~= before.push(components[i as int].name@));
        i = i + 1;
    }
    assert(names.deep_view() =~= names_of(components.deep_view()));
    names
}

/// Whether a ciphertext can be given to the scheme together with a secret key, and
/// if not, whose fault it is.
pub fn check_opening(key: &SecretKey, frame: &Frame) -> (outcome: Result<(), Fault>)
    ensures
        outcome == opening(key.elements(), frame.parts(), frame.elements()),
{
    if !frame.json {
        return Err(Fault::UnopenableCiphertext);
    }
    let held = held_names(&key.components);
    let reading = match read_policy(frame.policy.as_str(), &held) {
        None => return Err(Fault::UnopenableCiphertext),
        Some(reading) => reading,
    };
    if !reading.met {
        return Ok(());
    }
    match reading.visited {
        Visited::Found(used) => if frame.length < NONCE {
            Err(Fault::UnopenableCiphertext)
        } else if !is_sound_key_for(key, &frame.components, &used) {
            Err(Fault::UnsoundKey)
        } else if !is_sound_ciphertext_for(frame, &used) {
            Err(Fault::UnopenableCiphertext)
        } else {
            Ok(())
        },
        _ => Err(Fault::UnopenableCiphertext),
    }
}

/// Among elements that are all sound, those that belong to one attribute are.
pub proof fn lemma_sound_at(components: Seq<(Seq<char>, Seq<u8>, Seq<char>)>, name: Seq<char>)
    requires
        sound_components(components),
    ensures
        sound_at(components, name),
    decreases components.len(),
{
    if components.len() > 0 {
        let rest = components.skip(1);
        assert forall|i: int| 0 <= i < rest.len() implies sound_component(#[trigger] rest[i]) by {
            assert(rest[i] == components[i + 1]);
        }
        lemma_sound_at(rest, name);
    }
}

} // verus!
