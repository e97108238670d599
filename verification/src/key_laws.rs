//! What the keys are for: what key generation, encryption and decryption do, stated
//! of the functions themselves.
use crate::abe::KeyPair;
use crate::api::{decrypt, encrypt};
use crate::keys::{get_mk, get_pk, init_abe_setup, is_initialized, keygen, KeyError};
use crate::messages::{Fault, KeyGenMsg};
use crate::policy::Policy;
use vstd::prelude::*;

verus! {

/// The server is set up where both files are there.
pub proof fn law_initialized(mk: bool, pk: bool, initialized: bool)
    requires
        call_ensures(is_initialized, (mk, pk), initialized),
    ensures
        initialized <==> mk && pk,
{
}

/// The text holds a public key that keys can be issued with, and a text holds a
/// master key with which they can: numbers in the range of the field, and a scalar
/// with an inverse.
pub open spec fn can_issue(public_key: Seq<char>, master_key: Seq<char>) -> bool {
    &&& crate::abe::printed_public_key(public_key) is Some
    &&& crate::abe::printed_master_key(master_key) is Some
    &&& crate::curve::in_range(crate::abe::public_key_numbers(public_key).0)
    &&& crate::curve::invertible_scalar(crate::abe::master_key_numbers(master_key).0)
    &&& crate::curve::in_range(crate::abe::master_key_numbers(master_key).1)
}

/// The keys of a server are of one setup, and keys can be issued with them.
pub proof fn law_keys_of_a_server(keys: KeyPair)
    requires
        call_ensures(init_abe_setup, (), keys),
    ensures
        crate::abe::matching_keys(keys.public_key@, keys.master_key@),
        can_issue(keys.public_key@, keys.master_key@),
{
}

/// The key in a file is given in compact form. It is missing where the file is, and
/// where it holds none.
pub proof fn law_keys_in_files(
    file: Result<String, String>,
    public_key: Result<String, KeyError>,
    master_key: Result<crate::abe::MasterKey, KeyError>,
)
    requires
        call_ensures(get_pk, (file,), public_key),
        call_ensures(get_mk, (file,), master_key),
    ensures
        file matches Err(reason) ==> {
            &&& public_key matches Err(KeyError::Unavailable(e)) && e@ == reason@
            &&& master_key matches Err(KeyError::Unavailable(f)) && f@ == reason@
        },
        file matches Ok(text) ==> {
            &&& match crate::abe::printed_public_key(text@) {
                Some(printed) => public_key matches Ok(k) && k@ == printed,
                None => public_key matches Err(KeyError::Malformed),
            }
            &&& match crate::abe::printed_master_key(text@) {
                Some(printed) => master_key matches Ok(k) && k.text@ == printed,
                None => master_key matches Err(KeyError::Malformed),
            }
        },
{
}

/// Key generation gives material for every list of at least one attribute, whatever
/// the attributes are called, and for no list without one: the public key, the
/// master key, and a key that was issued for just these attributes, in their order.
/// Whether it does so rests on nothing but the two keys and whether there are
/// attributes.
pub proof fn law_keygen(
    param: &KeyGenMsg,
    master_key: &str,
    public_key: &str,
    outcome: Result<Vec<String>, Fault>,
)
    requires
        call_ensures(keygen, (param, master_key, public_key), outcome),
    ensures
        outcome is Ok <==> can_issue(public_key@, master_key@) && param.attributes@.len() > 0,
        outcome matches Ok(material) ==> {
            &&& material@.len() == 3
            &&& crate::abe::printed_public_key(public_key@) == Some(material[0]@)
            &&& crate::abe::printed_master_key(master_key@) == Some(material[1]@)
            &&& crate::abe::issued_key(
                material[0]@,
                material[1]@,
                param.attributes.deep_view(),
                material[2]@,
            )
            &&& crate::abe::secret_key_elements(material[2]@) matches Some((_, components))
                && components.len() == param.attributes@.len() && forall|i: int|
                0 <= i < components.len() ==> (#[trigger] components[i]).0
                    == param.attributes[i]@
            &&& crate::abe::matching_keys(public_key@, master_key@) ==> crate::abe::matching_keys(
                material[0]@,
                material[1]@,
            )
        },
        outcome matches Err(fault) ==> fault == if can_issue(public_key@, master_key@) {
            Fault::NoAttributes
        } else if crate::abe::printed_public_key(public_key@) is Some
            && crate::abe::printed_master_key(master_key@) is Some {
            Fault::UnsoundKey
        } else {
            Fault::MalformedKey
        },
{
    if let Ok(material) = outcome {
        let list = material.deep_view();
        assert(list[0] == material[0]@ && list[1] == material[1]@ && list[2] == material[2]@);
        let (root, components) = crate::abe::secret_key_elements(material[2]@)->0;
        assert forall|i: int| 0 <= i < components.len() implies (#[trigger] components[i]).0
            == param.attributes[i]@ by {
            assert(crate::abe::names_of(components)[i] == param.attributes.deep_view()[i]);
        }
    }
}

/// No attribute that is held is among the names twice.
pub open spec fn no_held_twice(names: Seq<Seq<char>>, held: Seq<Seq<char>>) -> bool {
    forall|i: int, j: int|
        0 <= i < names.len() && 0 <= j < names.len() && held.contains(#[trigger] names[i])
            && names[i] == #[trigger] names[j] ==> i == j
}

/// What is encrypted for a policy with the keys of a server can be decrypted with
/// every key that the server issued for attributes that meet the policy, and with
/// no other. So a text that asks for all of several parts is opened to nobody who
/// lacks one of them. Encryption works for every policy that a client can write
/// down and that is nested at most 29 deep, and for deeper ones up to 64 unless
/// `rabe` gives up on them, and for every text of up to 2^36 bytes. Left open is what
/// comes out where an attribute that is held is named twice; where the search for
/// attributes gets stuck, nothing comes out.
pub proof fn law_encrypt_and_decrypt(
    keys: KeyPair,
    master_key: &str,
    public_key: &str,
    sender: &KeyGenMsg,
    sender_material: Vec<String>,
    sender_text: &str,
    receiver: &KeyGenMsg,
    receiver_material: Vec<String>,
    receiver_text: &str,
    policy_text: &str,
    policy: Policy,
    plaintext: &str,
    sealed: Result<String, Fault>,
    ct: &str,
    opened: Result<String, Fault>,
)
    requires
        call_ensures(init_abe_setup, (), keys),
        master_key@ == keys.master_key@,
        public_key@ == keys.public_key@,
        call_ensures(keygen, (sender, master_key, public_key), Ok(sender_material)),
        call_ensures(keygen, (receiver, master_key, public_key), Ok(receiver_material)),
        crate::json::parsed_strings(sender_text@) == Some(sender_material.deep_view()),
        crate::json::parsed_strings(receiver_text@) == Some(receiver_material.deep_view()),
        crate::policy_grammar::written_in(policy_text@, policy, false),
        vstd::utf8::encode_utf8(plaintext@).len() <= 0x10_0000_0000,
        call_ensures(encrypt, (sender_text, policy_text, plaintext), sealed),
        sealed matches Ok(c) ==> ct@ == c@,
        call_ensures(decrypt, (receiver_text, ct), opened),
    ensures
        policy.height() <= 29 ==> sealed is Ok,
        sealed matches Err(fault) ==> fault == Fault::PolicyNotParsed
            && crate::abe::seal_may_fail(
            sender_material[0]@,
            policy.rendered(),
            vstd::utf8::encode_utf8(plaintext@),
        ),
        sealed is Ok && !policy.met_by(receiver.attributes.deep_view()) ==> opened == Err::<
            String,
            Fault,
        >(Fault::NotOpened),
        sealed is Ok && policy.met_by(receiver.attributes.deep_view()) && policy.visit(
            receiver.attributes.deep_view(),
        ) is Stuck ==> opened is Err,
        sealed is Ok && policy.met_by(receiver.attributes.deep_view()) && !(policy.visit(
            receiver.attributes.deep_view(),
        ) is Stuck) && no_held_twice(policy.names(), receiver.attributes.deep_view()) ==> {
            ||| opened matches Ok(text) && text@ == plaintext@
            ||| {
                &&& policy.height() > 29
                &&& opened == Err::<String, Fault>(Fault::NotOpened)
                &&& crate::abe::open_may_fail(receiver_material[2]@, ct@)
            }
        },
{
    let held = receiver.attributes.deep_view();
    let bytes = vstd::utf8::encode_utf8(plaintext@);
    let sent = sender_material.deep_view();
    let material = receiver_material.deep_view();
    assert(sent[0] == sender_material[0]@);
    assert(material[0] == receiver_material[0]@ && material[1] == receiver_material[1]@
        && material[2] == receiver_material[2]@);
    law_keygen(sender, master_key, public_key, Ok(sender_material));
    law_keygen(receiver, master_key, public_key, Ok(receiver_material));
    crate::policy_grammar::law_policies_are_read_as_written(policy_text@);
    assert(crate::policy_text::policy_of(policy_text@) == Some(policy));
    if let Ok(c) = sealed {
        assert(crate::abe::sealed(sent[0], policy, bytes, ct@));
        assert(crate::abe::issued_key(sent[0], material[1], held, material[2]));
        crate::policy_laws::law_rendering_keeps_the_policy(policy_text@);
        crate::policy_laws::law_attributes_are_found_where_the_policy_is_met(policy, held);
        let (root, components) = crate::abe::secret_key_elements(material[2])->0;
        let (point, third, sealed_for) = crate::abe::ciphertext_elements(ct@);
        assert forall|name: Seq<char>| #[trigger] crate::abe::sound_at(components, name) by {
            crate::abe::lemma_sound_at(components, name);
        }
        assert forall|name: Seq<char>| #[trigger] crate::abe::sound_at(sealed_for, name) by {
            crate::abe::lemma_sound_at(sealed_for, name);
        }
        assert(no_held_twice(policy.names(), held) ==> crate::abe::held_once(
            policy.names(),
            held,
        ));
        vstd::utf8::encode_utf8_valid_utf8(plaintext@);
        vstd::utf8::encode_utf8_decode_utf8(plaintext@);
    }
}

/// The text that bytes encode, if they encode one.
pub open spec fn as_text(bytes: Option<Seq<u8>>) -> Result<Seq<char>, Fault> {
    match bytes {
        None => Err(Fault::NotOpened),
        Some(b) => if vstd::utf8::valid_utf8(b) {
            Ok(vstd::utf8::decode_utf8(b))
        } else {
            Err(Fault::NotText)
        },
    }
}

/// A ciphertext made of elements of the groups, with a whole nonce and a policy that
/// can be read, wherever it comes from, is opened with a secret key made of elements
/// of the groups whose attributes meet the policy: to what `rabe` makes of it, if
/// that is text, and else to nothing. What the attributes are called plays no part,
/// but for who meets the policy. Only where the policy is nested deeper than 29 may
/// it stay closed, if `rabe` does not open it.
pub proof fn law_decrypt_what_is_sound(
    key_material: Seq<char>,
    material: Seq<Seq<char>>,
    root: Seq<char>,
    components: Seq<(Seq<char>, Seq<u8>, Seq<char>)>,
    held: Seq<Seq<char>>,
    ct: Seq<char>,
    policy_text: Seq<char>,
    length: nat,
    policy: Policy,
    point: Seq<u8>,
    third: Seq<u8>,
    sealed_for: Seq<(Seq<char>, Seq<u8>, Seq<char>)>,
    outcome: Result<Seq<char>, Fault>,
)
    requires
        crate::api::decrypted(key_material, ct, outcome),
        crate::json::parsed_strings(key_material) == Some(material),
        material.len() >= 3,
        crate::abe::secret_key_elements(material[2]) == Some((root, components)),
        held.len() == components.len(),
        forall|i: int| 0 <= i < held.len() ==> #[trigger] held[i] == components[i].0,
        crate::abe::ciphertext_parts(ct) == Some((policy_text, true, length)),
        crate::abe::ciphertext_elements(ct) == (point, third, sealed_for),
        crate::policy_grammar::written_in(policy_text, policy, false),
    ensures
        ({
            ||| !policy.met_by(held)
            ||| {
                &&& !(policy.visit(held) is Stuck)
                &&& length >= 16
                &&& crate::abe::second_group_element(root)
                &&& forall|i: int|
                    0 <= i < components.len() ==> crate::curve::first_group_element(
                        (#[trigger] components[i]).1,
                    ) && crate::abe::second_group_element(components[i].2)
                &&& crate::curve::first_group_element(point)
                &&& crate::curve::in_range(third)
                &&& forall|i: int|
                    0 <= i < sealed_for.len() ==> crate::curve::first_group_element(
                        (#[trigger] sealed_for[i]).1,
                    ) && crate::abe::second_group_element(sealed_for[i].2)
            }
        }) ==> {
            ||| outcome == as_text(crate::abe::opened(material[2], ct))
            ||| {
                &&& policy.height() > 29
                &&& crate::abe::open_may_fail(material[2], ct)
                &&& outcome == Err::<Seq<char>, Fault>(Fault::NotOpened)
            }
        },
{
    assert(crate::abe::names_of(components) =~= held);
    crate::policy_grammar::law_policies_are_read_as_written(policy_text);
    assert(crate::policy_text::policy_of(policy_text) == Some(policy));
    crate::policy_laws::law_attributes_are_found_where_the_policy_is_met(policy, held);
    if crate::abe::sound_components(components) && crate::abe::sound_components(sealed_for) {
        assert forall|name: Seq<char>| #[trigger] crate::abe::sound_at(components, name) by {
            crate::abe::lemma_sound_at(components, name);
        }
        assert forall|name: Seq<char>| #[trigger] crate::abe::sound_at(sealed_for, name) by {
            crate::abe::lemma_sound_at(sealed_for, name);
        }
    }
}

/// What decryption gives is the text of what `rabe` makes of the ciphertext with the
/// third entry of the key material, and nothing else.
pub proof fn law_decrypt_gives_what_is_opened(
    key_material: Seq<char>,
    ct: Seq<char>,
    outcome: Result<Seq<char>, Fault>,
)
    requires
        crate::api::decrypted(key_material, ct, outcome),
    ensures
        outcome matches Ok(text) ==> {
            &&& crate::json::parsed_strings(key_material) matches Some(material)
            &&& material.len() >= 3
            &&& as_text(crate::abe::opened(material[2], ct)) == Ok::<Seq<char>, Fault>(text)
        },
        crate::abe::ciphertext_parts(ct) is None ==> outcome == Err::<Seq<char>, Fault>(
            Fault::MalformedCiphertext,
        ),
        crate::abe::ciphertext_parts(ct) is Some && !(crate::json::parsed_strings(
            key_material,
        ) matches Some(material) && material.len() >= 3) ==> outcome == Err::<Seq<char>, Fault>(
            Fault::MalformedKeyMaterial,
        ),
{
}

/// Encryption is for the policy that is written in the text, with the first entry of
/// the key material: the ciphertext carries that policy as `rabe` writes it, and the
/// plaintext. It works for every text of up to 2^36 bytes, every policy that can be
/// read, and every key whose numbers are in the range of the field, unless the
/// policy is nested deeper than 29 and `rabe` gives up on it. A text that writes no
/// policy down is refused.
pub proof fn law_encrypt(
    key_material: Seq<char>,
    policy_text: Seq<char>,
    plaintext: Seq<char>,
    outcome: Result<Seq<char>, Fault>,
    policy: Policy,
)
    requires
        crate::api::encrypted(key_material, policy_text, plaintext, outcome),
    ensures
        outcome is Ok ==> exists|p: Policy| #[trigger]
            crate::policy_grammar::written_in(policy_text, p, false),
        outcome matches Ok(ct) ==> crate::policy_grammar::written_in(policy_text, policy, false)
            ==> {
            &&& crate::abe::ciphertext_parts(ct) matches Some((text, json, length))
            &&& json
            &&& crate::policy_grammar::written_in(text, policy, true)
            &&& length == vstd::utf8::encode_utf8(plaintext).len() + 32
        },
        (crate::json::parsed_strings(key_material) matches Some(material) && material.len() > 0
            && crate::abe::printed_public_key(material[0]) is Some && crate::curve::in_range(
            crate::abe::public_key_numbers(material[0]).0,
        ) && crate::curve::in_range(crate::abe::public_key_numbers(material[0]).1)
            && crate::policy_grammar::written_in(policy_text, policy, false)
            && vstd::utf8::encode_utf8(plaintext).len() <= 0x10_0000_0000) ==> {
            ||| outcome is Ok
            ||| {
                &&& policy.height() > 29
                &&& outcome == Err::<Seq<char>, Fault>(Fault::PolicyNotParsed)
                &&& crate::abe::seal_may_fail(
                    crate::json::parsed_strings(key_material)->0[0],
                    policy.rendered(),
                    vstd::utf8::encode_utf8(plaintext),
                )
            }
        },
{
    crate::policy_grammar::law_policies_are_read_as_written(policy_text);
    if let Some(p) = crate::policy_text::policy_of(policy_text) {
        assert(crate::policy_grammar::written_in(policy_text, p, false));
        crate::policy_laws::lemma_node_shape(policy_text, 0, 64);
        crate::policy_printing::law_rendered_policies_are_native(p);
    }
}

/// Why encryption refuses: for want of key material, of a policy in the text, of
/// room for the plaintext, of a public key, or of numbers in the range of the field in
/// it, in that order.
pub proof fn law_encrypt_refusals(
    key_material: Seq<char>,
    policy_text: Seq<char>,
    plaintext: Seq<char>,
    outcome: Result<Seq<char>, Fault>,
)
    requires
        crate::api::encrypted(key_material, policy_text, plaintext, outcome),
    ensures
        match crate::json::parsed_strings(key_material) {
            None => outcome == Err::<Seq<char>, Fault>(Fault::MalformedKeyMaterial),
            Some(material) => if material.len() == 0 {
                outcome == Err::<Seq<char>, Fault>(Fault::MalformedKeyMaterial)
            } else if !(exists|p: Policy| #[trigger]
                crate::policy_grammar::written_in(policy_text, p, false)) {
                outcome == Err::<Seq<char>, Fault>(Fault::UnreadablePolicy)
            } else if vstd::utf8::encode_utf8(plaintext).len() > 0x10_0000_0000 {
                outcome == Err::<Seq<char>, Fault>(Fault::PlaintextTooLong)
            } else if crate::abe::printed_public_key(material[0]) is None {
                outcome == Err::<Seq<char>, Fault>(Fault::MalformedKey)
            } else if !(crate::curve::in_range(crate::abe::public_key_numbers(material[0]).0)
                && crate::curve::in_range(crate::abe::public_key_numbers(material[0]).1)) {
                outcome == Err::<Seq<char>, Fault>(Fault::UnsoundKey)
            } else {
                outcome is Ok || outcome == Err::<Seq<char>, Fault>(Fault::PolicyNotParsed)
            },
        },
{
    crate::policy_grammar::law_policies_are_read_as_written(policy_text);
    if let Some(p) = crate::policy_text::policy_of(policy_text) {
        assert(crate::policy_grammar::written_in(policy_text, p, false));
    }
}

/// Why decryption refuses, once there is key material: for want of a secret key in it,
/// for a policy that is in another language or cannot be read, and, where the
/// attributes meet the policy, for a search that gets stuck and for want of a nonce.
pub proof fn law_decrypt_refusals(
    key_material: Seq<char>,
    material: Seq<Seq<char>>,
    ct: Seq<char>,
    policy_text: Seq<char>,
    json: bool,
    length: nat,
    outcome: Result<Seq<char>, Fault>,
)
    requires
        crate::api::decrypted(key_material, ct, outcome),
        crate::json::parsed_strings(key_material) == Some(material),
        material.len() >= 3,
        crate::abe::ciphertext_parts(ct) == Some((policy_text, json, length)),
    ensures
        match crate::abe::secret_key_elements(material[2]) {
            None => outcome == Err::<Seq<char>, Fault>(Fault::MalformedKey),
            Some((_, components)) => {
                let held = Seq::new(components.len(), |i: int| components[i].0);
                &&& !json || !(exists|p: Policy| #[trigger]
                    crate::policy_grammar::written_in(policy_text, p, false)) ==> outcome == Err::<
                    Seq<char>,
                    Fault,
                >(Fault::UnopenableCiphertext)
                &&& forall|p: Policy| #[trigger]
                    crate::policy_grammar::written_in(policy_text, p, false) && p.met_by(held) && (
                    p.visit(held) is Stuck || length < 16) ==> outcome == Err::<Seq<char>, Fault>(
                        Fault::UnopenableCiphertext,
                    )
            },
        },
{
    crate::policy_grammar::law_policies_are_read_as_written(policy_text);
    if let Some((_, components)) = crate::abe::secret_key_elements(material[2]) {
        let held = Seq::new(components.len(), |i: int| components[i].0);
        assert(crate::abe::names_of(components) =~= held);
        if let Some(p) = crate::policy_text::policy_of(policy_text) {
            assert(crate::policy_grammar::written_in(policy_text, p, false));
            crate::policy_laws::law_attributes_are_found_where_the_policy_is_met(p, held);
        }
    }
}

/// The functions that encrypt and decrypt do what these laws speak of.
pub proof fn law_encrypting_and_decrypting(
    key_material: &str,
    policy: &str,
    plaintext: &str,
    sealed: Result<String, Fault>,
    ct: &str,
    opened: Result<String, Fault>,
)
    requires
        call_ensures(encrypt, (key_material, policy, plaintext), sealed),
        call_ensures(decrypt, (key_material, ct), opened),
    ensures
        sealed matches Ok(c) ==> crate::api::encrypted(
            key_material@,
            policy@,
            plaintext@,
            Ok(c@),
        ),
        sealed matches Err(fault) ==> crate::api::encrypted(
            key_material@,
            policy@,
            plaintext@,
            Err(fault),
        ),
        opened matches Ok(text) ==> crate::api::decrypted(key_material@, ct@, Ok(text@)),
        opened matches Err(fault) ==> crate::api::decrypted(key_material@, ct@, Err(fault)),
{
}

} // verus!
