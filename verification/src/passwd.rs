//! Salted password hashes.
use vstd::prelude::*;

verus! {

/// The BLAKE2b hash of `data` under `key`, `size` bytes long.
pub uninterp spec fn blake2b_hash(size: nat, key: Seq<u8>, data: Seq<u8>) -> Seq<u8>;

/// `blake2_rfc::blake2b::blake2b`: the hash of `data` under `key`, of the size
/// asked for. The hash is between one and 64 bytes long and the key no longer
/// than 64 bytes: the function refuses anything else by a panic.
#[verifier::external_body]
fn blake2b(size: usize, key: &[u8], data: &[u8]) -> (hash: Vec<u8>)
    requires
        1 <= size <= 64,
        key@.len() <= 64,
    ensures
        hash@ == blake2b_hash(size as nat, key@, data@),
        hash@.len() == size,
{
    blake2_rfc::blake2b::blake2b(size, key, data).as_bytes().to_vec()
}

/// The bytes that are hashed for a password: the password and the salt in
/// decimal behind it, in UTF-8.
pub open spec fn salted(plain_password: Seq<char>, salt: int) -> Seq<u8> {
    vstd::utf8::encode_utf8(plain_password + crate::text::signed_decimal(salt))
}

/// The salted hash of a password, to be stored in place of the password.
pub fn to_db_passwd(plain_password: String, salt: i32) -> (hash: Vec<u8>)
    ensures
        hash@ == blake2b_hash(64, Seq::empty(), salted(plain_password@, salt as int)),
        hash@.len() == 64,
{
    let digits = crate::text::signed_decimal_text(salt);
    let salted_pwd = plain_password.concat(digits.as_str());
    let no_key: [u8; 0] = [];
    assert(no_key@ =~= Seq::<u8>::empty());
    blake2b(64, no_key.as_slice(), salted_pwd.as_str().as_bytes())
}

} // verus!
