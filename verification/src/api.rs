//! What the calls of the REST interface compute, once what they need is there.
use crate::abe::{
    check_opening, frame_of, is_sealing_public_key, opened_by_rabe, print_public_key,
    sealed_by_rabe, secret_key_of, MAX_PLAINTEXT,
};
use crate::json::parse_strings;
use crate::keys::get_pk;
use crate::messages::{AccessTokenResponse, Fault, TokenRequest};
use crate::policy_text::read_policy;
use crate::protocol::Response;
use crate::random::generate_api_key;
use crate::schema::{NewUser, User};
use crate::text::utf8_text;
use vstd::prelude::*;

verus! {

/// The seconds for which an access token is good.
pub const EXPIRES_IN: u32 = 30758400;

/// The salt of every user.
pub const SALT: i32 = 1234;

/// The access token of a user.
pub open spec fn token_of(user: crate::schema::UserView) -> crate::messages::AccessTokenResponseOf<
    Seq<char>,
> {
    crate::messages::AccessTokenResponseOf {
        access_token: user.api_key,
        token_type: "bearer"@,
        expires_in: EXPIRES_IN,
    }
}

/// Logs a user in: the token of the user of that name, where the password is
/// theirs.
pub fn login(user: &TokenRequest, db_user: User) -> (token: Result<AccessTokenResponse, String>)
    ensures
        match token {
            Ok(t) => user.password@ == db_user.password@ && t@ == token_of(db_user@),
            Err(reason) => user.password@ != db_user.password@ && reason@ == "Invalid"@,
        },
{
    if user.password == db_user.password {
        let token_response = AccessTokenResponse {
            access_token: db_user.api_key,
            token_type: "bearer".to_owned(),
            expires_in: EXPIRES_IN,
        };
        return Ok(token_response);
    }
    Err("Invalid".to_owned())
}

/// The user to be added for a message, with the API key that was drawn.
pub fn user_to_add(user: &crate::messages::User, api_key: String) -> (new_user: NewUser)
    ensures
        new_user@ == (crate::schema::NewUserOf {
            username: user.username@,
            password: user.password@,
            salt: SALT,
            api_key: api_key@,
        }),
{
    NewUser {
        username: user.username.clone(),
        password: user.password.clone(),
        salt: SALT,
        api_key,
    }
}

/// The user to be added for a message, with a new API key.
pub fn add_user(user: &crate::messages::User) -> (new_user: NewUser)
    ensures
        new_user@ == (crate::schema::NewUserOf {
            username: user.username@,
            password: user.password@,
            salt: SALT,
            api_key: new_user.api_key@,
        }),
        crate::random::uuid_text(new_user.api_key@),
        crate::random::key_drawn(new_user.api_key@),
{
    user_to_add(user, generate_api_key())
}

/// The answer to a call for the public key, by what its file holds.
pub open spec fn public_key_response(
    file: Result<Seq<char>, Seq<char>>,
) -> crate::protocol::ResponseView {
    match file {
        Err(_) => crate::protocol::ResponseOf::BadRequest("Failure"@),
        Ok(text) => match crate::abe::printed_public_key(text) {
            None => crate::protocol::ResponseOf::BadRequest("Failure"@),
            Some(printed) => crate::protocol::ResponseOf::Text(printed),
        },
    }
}

/// Sends the public key of the server. It is a bad request while there is none.
pub fn pk(file: Result<String, String>) -> (response: Response)
    ensures
        response@ == public_key_response(crate::protocol::file_view(file)),
{
    match get_pk(file) {
        Ok(key) => Response::Text(key),
        Err(_) => Response::BadRequest("Failure".to_owned()),
    }
}

/// A text or a fault, by its view.
pub open spec fn text_view(outcome: Result<String, Fault>) -> Result<Seq<char>, Fault> {
    match outcome {
        Ok(text) => Ok(text@),
        Err(fault) => Err(fault),
    }
}

/// The entry at `index` of the key material, if the material was a list and has it.
pub open spec fn entry_of(material: Option<Seq<Seq<char>>>, index: int) -> Result<
    Seq<char>,
    Fault,
> {
    match material {
        None => Err(Fault::MalformedKeyMaterial),
        Some(list) => if 0 <= index < list.len() {
            Ok(list[index])
        } else {
            Err(Fault::MalformedKeyMaterial)
        },
    }
}

/// The entry at `index` of the key material that was read.
pub fn material_entry(material: &Option<Vec<String>>, index: usize) -> (entry: Result<
    String,
    Fault,
>)
    ensures
        text_view(entry) == entry_of(material.deep_view(), index as int),
{
    match material {
        None => Err(Fault::MalformedKeyMaterial),
        Some(list) => if index < list.len() {
            Ok(list[index].clone())
        } else {
            Err(Fault::MalformedKeyMaterial)
        },
    }
}

/// What can come of encrypting `plaintext` for those who meet the policy in
/// `policy`, with the public key in `public_key`. Only a policy that is nested very
/// deep may not be parsed, where `rabe` does not.
pub open spec fn encrypted_with(
    public_key: Seq<char>,
    policy: Seq<char>,
    plaintext: Seq<char>,
    outcome: Result<Seq<char>, Fault>,
) -> bool {
    let bytes = vstd::utf8::encode_utf8(plaintext);
    match crate::policy_text::policy_of(policy) {
        None => outcome == Err::<Seq<char>, Fault>(Fault::UnreadablePolicy),
        Some(p) => if bytes.len() > MAX_PLAINTEXT {
            outcome == Err::<Seq<char>, Fault>(Fault::PlaintextTooLong)
        } else if crate::abe::printed_public_key(public_key) is None {
            outcome == Err::<Seq<char>, Fault>(Fault::MalformedKey)
        } else if !crate::abe::sealing_public_key(public_key) {
            outcome == Err::<Seq<char>, Fault>(Fault::UnsoundKey)
        } else {
            match outcome {
                Ok(ct) => crate::abe::sealed(public_key, p, bytes, ct),
                Err(fault) => {
                    &&& p.height() > crate::policy_text::SURE_HEIGHT
                    &&& fault == Fault::PolicyNotParsed
                    &&& crate::abe::seal_may_fail(public_key, p.rendered(), bytes)
                },
            }
        },
    }
}

/// Encrypts a text with a public key, for those who meet a policy.
pub fn encrypt_with(public_key: &str, policy: &str, plaintext: &str) -> (ct: Result<String, Fault>)
    ensures
        encrypted_with(public_key@, policy@, plaintext@, text_view(ct)),
{
    let nobody: Vec<String> = Vec::new();
    let reading = match read_policy(policy, &nobody) {
        None => return Err(Fault::UnreadablePolicy),
        Some(r) => r,
    };
    let bytes = vstd::slice::slice_to_vec(plaintext.as_bytes());
    if bytes.len() as u64 > MAX_PLAINTEXT {
        return Err(Fault::PlaintextTooLong);
    }
    match print_public_key(public_key) {
        None => return Err(Fault::MalformedKey),
        Some(key) => if !is_sealing_public_key(&key) {
            return Err(Fault::UnsoundKey);
        },
    }
    let ghost p = crate::policy_text::policy_of(policy@)->0;
    proof {
        crate::policy_laws::lemma_node_shape(policy@, 0, crate::policy_text::MAX_HEIGHT as nat);
    }
    assert(p.rendered() == reading.text@);
    match sealed_by_rabe(public_key, &reading.text, &bytes) {
        None => Err(Fault::PolicyNotParsed),
        Some(ct) => Ok(ct),
    }
}

/// What comes of encrypting `plaintext` in a session with that key material: the
/// public key is the first entry of the material.
pub open spec fn encrypted(
    key_material: Seq<char>,
    policy: Seq<char>,
    plaintext: Seq<char>,
    outcome: Result<Seq<char>, Fault>,
) -> bool {
    match entry_of(crate::json::parsed_strings(key_material), 0) {
        Err(fault) => outcome == Err::<Seq<char>, Fault>(fault),
        Ok(public_key) => encrypted_with(public_key, policy, plaintext, outcome),
    }
}

/// Encrypts a text in a session, for those who meet a policy.
pub fn encrypt(key_material: &str, policy: &str, plaintext: &str) -> (ct: Result<String, Fault>)
    ensures
        encrypted(key_material@, policy@, plaintext@, text_view(ct)),
{
    let material = parse_strings(key_material);
    match material_entry(&material, 0) {
        Err(fault) => Err(fault),
        Ok(public_key) => encrypt_with(public_key.as_str(), policy, plaintext),
    }
}

/// The text of a plaintext that was opened.
pub open spec fn text_of(plaintext: Option<Seq<u8>>) -> Result<Seq<char>, Fault> {
    match plaintext {
        None => Err(Fault::NotOpened),
        Some(bytes) => if vstd::utf8::valid_utf8(bytes) {
            Ok(vstd::utf8::decode_utf8(bytes))
        } else {
            Err(Fault::NotText)
        },
    }
}

/// The text of the plaintext, where there is one and it is UTF-8.
pub fn plaintext_text(plaintext: &Option<Vec<u8>>) -> (text: Result<String, Fault>)
    ensures
        text_view(text) == text_of(plaintext.deep_view()),
{
    match plaintext {
        None => Err(Fault::NotOpened),
        Some(bytes) => {
            assert(bytes.deep_view() =~= bytes@);
            match utf8_text(bytes) {
                None => Err(Fault::NotText),
                Some(text) => Ok(text),
            }
        },
    }
}

/// What can come of decrypting `ct` with the secret key in `secret_key`. Only a
/// ciphertext whose policy is nested very deep may stay closed though the key opens
/// it, where `rabe` does not open it.
pub open spec fn decrypted_with(
    secret_key: Seq<char>,
    ct: Seq<char>,
    outcome: Result<Seq<char>, Fault>,
) -> bool {
    match (crate::abe::ciphertext_parts(ct), crate::abe::secret_key_elements(secret_key)) {
        (None, _) => outcome == Err::<Seq<char>, Fault>(Fault::MalformedCiphertext),
        (_, None) => outcome == Err::<Seq<char>, Fault>(Fault::MalformedKey),
        (Some(parts), Some(key)) => match crate::abe::opening(
            key,
            parts,
            crate::abe::ciphertext_elements(ct),
        ) {
            Err(fault) => outcome == Err::<Seq<char>, Fault>(fault),
            Ok(_) => {
                ||| outcome == text_of(crate::abe::opened(secret_key, ct))
                ||| {
                    &&& crate::abe::towering(ct)
                    &&& crate::abe::open_may_fail(secret_key, ct)
                    &&& outcome == Err::<Seq<char>, Fault>(Fault::NotOpened)
                }
            },
        },
    }
}

/// Decrypts a ciphertext with a secret key.
pub fn decrypt_with(secret_key: &str, ct: &str) -> (text: Result<String, Fault>)
    ensures
        decrypted_with(secret_key@, ct@, text_view(text)),
{
    let frame = match frame_of(ct) {
        None => return Err(Fault::MalformedCiphertext),
        Some(f) => f,
    };
    let key = match secret_key_of(secret_key) {
        None => return Err(Fault::MalformedKey),
        Some(k) => k,
    };
    match check_opening(&key, &frame) {
        Err(fault) => Err(fault),
        Ok(_) => {
            let plaintext = opened_by_rabe(secret_key, ct);
            assert(plaintext matches Some(p) ==> p.deep_view() =~= p@);
            plaintext_text(&plaintext)
        },
    }
}

/// What can come of decrypting `ct` in a session with that key material: the
/// secret key is the third entry of the material.
pub open spec fn decrypted(
    key_material: Seq<char>,
    ct: Seq<char>,
    outcome: Result<Seq<char>, Fault>,
) -> bool {
    if crate::abe::ciphertext_parts(ct) is None {
        outcome == Err::<Seq<char>, Fault>(Fault::MalformedCiphertext)
    } else {
        match entry_of(crate::json::parsed_strings(key_material), 2) {
            Err(fault) => outcome == Err::<Seq<char>, Fault>(fault),
            Ok(secret_key) => decrypted_with(secret_key, ct, outcome),
        }
    }
}

/// Decrypts a ciphertext in a session.
pub fn decrypt(key_material: &str, ct: &str) -> (text: Result<String, Fault>)
    ensures
        decrypted(key_material@, ct@, text_view(text)),
{
    if !is_ciphertext(ct) {
        return Err(Fault::MalformedCiphertext);
    }
    let material = parse_strings(key_material);
    match material_entry(&material, 2) {
        Err(fault) => Err(fault),
        Ok(secret_key) => decrypt_with(secret_key.as_str(), ct),
    }
}

/// Whether a text is a ciphertext.
pub fn is_ciphertext(ct: &str) -> (holds: bool)
    ensures
        holds == (crate::abe::ciphertext_parts(ct@) is Some),
{
    frame_of(ct).is_some()
}

} // verus!
