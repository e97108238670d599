//! The keys of the server: the two files with the keys of its setup, and the
//! key material of a session.
use crate::abe::{
    generate_keys, is_issuing_public_key, is_usable_master_key, issue_key, print_master_key,
    print_public_key, KeyPair, MasterKey,
};
use crate::messages::{Fault, KeyGenMsg};
use vstd::prelude::*;

verus! {

/// The file with the master key.
pub const MK_FILE: &'static str = "abe-mk";

/// The file with the public key.
pub const PK_FILE: &'static str = "abe-pk";

/// Why there is no key to be had from a file.
#[derive(Debug, PartialEq)]
pub enum KeyError {
    /// The file could not be read, for the reason given.
    Unavailable(String),
    /// The file holds no key.
    Malformed,
}

/// The server has been set up: both key files are there.
pub fn is_initialized(mk: bool, pk: bool) -> (initialized: bool)
    ensures
        initialized == (pk && mk),
{
    pk && mk
}

/// Generates the keys of the server, to be written to the two files.
pub fn init_abe_setup() -> (keys: KeyPair)
    ensures
        crate::abe::matching_keys(keys.public_key@, keys.master_key@),
        crate::abe::sealing_public_key(keys.public_key@),
        crate::abe::usable_master_key(keys.master_key@),
{
    generate_keys()
}

/// The master key in the file that was read. It belongs to the public keys to
/// which the text of the file belongs.
pub fn get_mk(file: Result<String, String>) -> (key: Result<MasterKey, KeyError>)
    ensures
        match file {
            Err(reason) => key matches Err(KeyError::Unavailable(e)) && e@ == reason@,
            Ok(text) => match crate::abe::printed_master_key(text@) {
                None => key matches Err(KeyError::Malformed),
                Some(printed) => {
                    &&& key matches Ok(k)
                    &&& k.text@ == printed
                    &&& crate::abe::printed_master_key(printed) == Some(printed)
                    &&& crate::abe::master_key_numbers(printed)
                        == crate::abe::master_key_numbers(text@)
                    &&& crate::abe::master_key_numbers(text@) == (k.scalar@, k.element@)
                    &&& forall|public_key: Seq<char>| #[trigger]
                        crate::abe::matching_keys(public_key, text@) ==> crate::abe::matching_keys(
                            public_key,
                            k.text@,
                        )
                },
            },
        },
{
    match file {
        Err(reason) => Err(KeyError::Unavailable(reason)),
        Ok(text) => match print_master_key(text.as_str()) {
            None => Err(KeyError::Malformed),
            Some(key) => Ok(key),
        },
    }
}

/// The public key in the file that was read. It belongs to the master keys to
/// which the text of the file belongs.
pub fn get_pk(file: Result<String, String>) -> (key: Result<String, KeyError>)
    ensures
        match file {
            Err(reason) => key matches Err(KeyError::Unavailable(e)) && e@ == reason@,
            Ok(text) => match crate::abe::printed_public_key(text@) {
                None => key matches Err(KeyError::Malformed),
                Some(printed) => {
                    &&& key matches Ok(k)
                    &&& k@ == printed
                    &&& crate::abe::printed_public_key(printed) == Some(printed)
                    &&& forall|master_key: Seq<char>| #[trigger]
                        crate::abe::matching_keys(text@, master_key) ==> crate::abe::matching_keys(
                            k@,
                            master_key,
                        )
                },
            },
        },
{
    match file {
        Err(reason) => Err(KeyError::Unavailable(reason)),
        Ok(text) => match print_public_key(text.as_str()) {
            None => Err(KeyError::Malformed),
            Some(key) => Ok(key.text),
        },
    }
}

/// `material` is key material for the attributes under the two keys: the public
/// key, the master key and a secret key that was issued for the attributes and
/// names them. Where the two keys are of one setup, the public key can be encrypted
/// and the secret key decrypted with.
pub open spec fn key_material(
    public_key: Seq<char>,
    master_key: Seq<char>,
    attributes: Seq<Seq<char>>,
    material: Seq<Seq<char>>,
) -> bool {
    &&& material.len() == 3
    &&& material[0] == public_key
    &&& material[1] == master_key
    &&& crate::abe::issued_key(public_key, master_key, attributes, material[2])
    &&& crate::abe::printed_public_key(public_key) == Some(public_key)
    &&& crate::abe::secret_key_elements(material[2]) matches Some((_, components))
        && crate::abe::names_of(components) == attributes
    &&& crate::abe::matching_keys(public_key, master_key) ==> crate::abe::sound_secret_key(
        material[2],
    )
}

/// What comes of key generation for the attributes, with the master key and the
/// public key in the two texts. Where these are of one setup, so are the keys in
/// the material.
pub open spec fn generated(
    attributes: Seq<Seq<char>>,
    master_key: Seq<char>,
    public_key: Seq<char>,
    outcome: Result<Seq<Seq<char>>, Fault>,
) -> bool {
    match (
        crate::abe::printed_master_key(master_key),
        crate::abe::printed_public_key(public_key),
    ) {
        (Some(mk), Some(pk)) => if !crate::abe::usable_master_key(master_key)
            || !crate::abe::issuing_public_key(public_key) {
            outcome == Err::<Seq<Seq<char>>, Fault>(Fault::UnsoundKey)
        } else if attributes.len() == 0 {
            outcome == Err::<Seq<Seq<char>>, Fault>(Fault::NoAttributes)
        } else {
            &&& outcome matches Ok(material)
            &&& key_material(pk, mk, attributes, material)
            &&& crate::abe::matching_keys(public_key, master_key) ==> crate::abe::matching_keys(
                pk,
                mk,
            ) && crate::abe::sealing_public_key(pk)
        },
        _ => outcome == Err::<Seq<Seq<char>>, Fault>(Fault::MalformedKey),
    }
}

/// A list of texts or a fault, by its view.
pub open spec fn list_view(outcome: Result<Vec<String>, Fault>) -> Result<Seq<Seq<char>>, Fault> {
    match outcome {
        Ok(list) => Ok(list.deep_view()),
        Err(fault) => Err(fault),
    }
}

/// Generates key material for the attributes asked for: the public key, the
/// master key and a new secret key. Whatever scheme is asked for, it is `bsw`.
pub fn keygen(param: &KeyGenMsg, master_key: &str, public_key: &str) -> (material: Result<
    Vec<String>,
    Fault,
>)
    ensures
        generated(
            param.attributes.deep_view(),
            master_key@,
            public_key@,
            list_view(material),
        ),
{
    let msk = match print_master_key(master_key) {
        None => return Err(Fault::MalformedKey),
        Some(key) => key,
    };
    let pk = match print_public_key(public_key) {
        None => return Err(Fault::MalformedKey),
        Some(key) => key,
    };
    if !is_usable_master_key(&msk) || !is_issuing_public_key(&pk) {
        return Err(Fault::UnsoundKey);
    }
    match issue_key(pk.text.as_str(), msk.text.as_str(), &param.attributes) {
        None => Err(Fault::NoAttributes),
        Some(secret_key) => {
            let material = vec![pk.text, msk.text, secret_key];
            assert(material.deep_view() =~= seq![pk.text@, msk.text@, secret_key@]);
            Ok(material)
        },
    }
}

} // verus!
