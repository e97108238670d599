use abe_server::abe::{
    check_opening, is_issuing_public_key, is_sealing_public_key, is_second_group_element,
    is_usable_master_key, Component, Frame, PublicKey, SecretKey,
};
use abe_server::api::{
    add_user, decrypt, decrypt_with, encrypt, encrypt_with, is_ciphertext, login, material_entry,
    pk, plaintext_text, user_to_add, EXPIRES_IN,
};
use abe_server::curve::{is_first_group_element, is_in_range, is_second_curve_point};
use abe_server::number::{
    field_difference, field_prime_number, field_product, field_sum, is_less, Number,
};
use abe_server::auth::{from_request, is_valid, key_to_validate, ApiKey};
use abe_server::database::{
    db_add_user, db_create_session, db_get_session_by_id, db_get_session_by_user_scheme,
    db_get_user, db_get_user_of_apikey, db_insert_session, db_session_created, db_user_added,
    is_known_scheme,
};
use abe_server::keys::{
    get_mk, get_pk, init_abe_setup, is_initialized, keygen, KeyError, MK_FILE, PK_FILE,
};
use abe_server::messages::{Fault, KeyGenMsg, TokenRequest};
use abe_server::passwd::to_db_passwd;
use abe_server::policy_text::{MAX_HEIGHT, SURE_HEIGHT};
use abe_server::protocol::{Query, Response, Status};
use abe_server::random::{
    drawn_session_id, generate_api_key, generate_session_id, session_id,
};
use abe_server::schema::{NewSession, NewUser, User};
use abe_server::text::{
    characters, decimal_text, signed_decimal_text, stands_at, starts_with, without_word,
};
use rabe::schemes::bsw;
use rabe::utils::policy::pest::PolicyLanguage;

fn texts(list: &[&str]) -> Vec<String> {
    list.iter().map(|text| text.to_string()).collect()
}

fn some_user() -> User {
    User {
        id: 7,
        username: "bla".to_string(),
        password: "blubb".to_string(),
        salt: 1234,
        api_key: "apikey".to_string(),
    }
}

fn hex(bytes: &[u8]) -> String {
    bytes.iter().map(|byte| format!("{:02x}", byte)).collect()
}

fn material_for(attributes: &[&str]) -> String {
    let keys = init_abe_setup();
    let param = KeyGenMsg { attributes: texts(attributes), scheme: "bsw".to_string() };
    let material = keygen(&param, &keys.master_key, &keys.public_key).unwrap();
    serde_json::to_string(&material).unwrap()
}

#[test]
fn words_are_taken_out_from_left_to_right() {
    assert_eq!(without_word("Bearer abc", "Bearer "), "abc");
    assert_eq!(without_word("aBearer bBearer c", "Bearer "), "abc");
    assert_eq!(without_word("BeaBearer rer x", "Bearer "), "Bearer x");
    assert_eq!(without_word("aaaa", "aa"), "");
    assert_eq!(without_word("aaa", "aa"), "a");
    assert_eq!(without_word("abc", ""), "abc");
    assert_eq!(without_word("", "abc"), "");
    assert_eq!(without_word("\u{e9}Bearer \u{1f600}", "Bearer "), "\u{e9}\u{1f600}");
}

#[test]
fn words_stand_where_they_stand() {
    assert!(starts_with("Bearer x", "Bearer "));
    assert!(!starts_with("bearer x", "Bearer "));
    assert!(!starts_with("Bear", "Bearer "));
    assert!(starts_with("x", ""));
    let text = characters("abcab");
    assert_eq!(text, vec!['a', 'b', 'c', 'a', 'b']);
    assert!(stands_at(&text, 3, &characters("ab")));
    assert!(!stands_at(&text, 4, &characters("ab")));
    assert!(!stands_at(&text, 2, &characters("ab")));
}

#[test]
fn numbers_are_written_in_decimal() {
    assert_eq!(decimal_text(0), "0");
    assert_eq!(decimal_text(10), "10");
    assert_eq!(decimal_text(u64::MAX), "18446744073709551615");
    assert_eq!(signed_decimal_text(0), "0");
    assert_eq!(signed_decimal_text(1234), "1234");
    assert_eq!(signed_decimal_text(-7), "-7");
    assert_eq!(signed_decimal_text(i32::MIN), "-2147483648");
}

#[test]
fn api_keys_are_random_uuids() {
    let key = generate_api_key();
    let uuid = uuid::Uuid::parse_str(&key).unwrap();
    assert_eq!(uuid.get_version_num(), 4);
    assert_eq!(uuid.to_string(), key);
    assert_ne!(key, generate_api_key());
}

#[test]
fn session_identifiers_are_numbers() {
    assert_eq!(session_id(0), "0");
    assert_eq!(session_id(9876543210), "9876543210");
    assert_eq!(drawn_session_id(None), None);
    assert_eq!(drawn_session_id(Some(42)), Some("42".to_string()));
    let drawn = generate_session_id().unwrap();
    let number: u64 = drawn.parse().unwrap();
    assert_eq!(session_id(number), drawn);
}

#[test]
fn passwords_are_hashed_with_their_salt() {
    assert_eq!(
        hex(&to_db_passwd("secret".to_string(), 1234)),
        "c5fdecd2dceb0e0710f49ad69684f1e323a1bf55b87922e5665aaba391cbe4ff66d479d6aaa379f659d0c193b25abcfa72a0874a7c32b6849c95292f8fc00ce4"
    );
    assert_eq!(
        hex(&to_db_passwd("secret".to_string(), -5)),
        "0d52909dc6ddbfecc7bec99f69260ac435ae23663522a9782f323d96156da9a60d5a2a3a4a6eeec4c267faeb71a7714de17def22d414fb5349dfb357036138b4"
    );
    assert_eq!(
        hex(&to_db_passwd(String::new(), 0)),
        "e9f11462495399c0b8d0d8ec7128df9c0d7269cda23531a352b174bd29c3b6318a55d3508cb70dad9aaa590185ba0fef4fab46febd46874a103739c10d60ebc7"
    );
}

#[test]
fn requests_present_exactly_one_key() {
    assert_eq!(from_request(&texts(&[])), Err(Status::BadRequest));
    assert_eq!(from_request(&texts(&["Bearer k"])), Ok(ApiKey("Bearer k".to_string())));
    assert_eq!(from_request(&texts(&["a", "b"])), Err(Status::BadRequest));
}

#[test]
fn presented_keys_are_looked_up_bare() {
    assert_eq!(key_to_validate("abc"), "abc");
    assert_eq!(key_to_validate("Bearer abc"), "abc");
    assert_eq!(key_to_validate("Bearer aBearer bc"), "abc");
    assert_eq!(key_to_validate("aBearer bc"), "aBearer bc");
    assert!(is_valid(&Some(some_user())));
    assert!(!is_valid(&None));
}

#[test]
fn a_generated_key_is_the_same_behind_bearer() {
    let key = generate_api_key();
    let led = "Bearer ".to_owned() + &key;
    assert_eq!(key_to_validate(&key), key);
    assert_eq!(key_to_validate(&led), key);
    assert_eq!(db_get_user_of_apikey(&key), Query::UserByApiKey(key.clone()));
    assert_eq!(db_get_user_of_apikey(&led), Query::UserByApiKey(key));
}

#[test]
fn queries_say_what_is_looked_for() {
    assert_eq!(db_get_user("bla"), Query::UserByName("bla".to_string()));
    assert_eq!(db_get_user_of_apikey("aBearer b"), Query::UserByApiKey("ab".to_string()));
    assert_eq!(
        db_get_session_by_id(&some_user(), "42"),
        Query::SessionById { user_id: 7, session_id: "42".to_string() }
    );
    assert_eq!(
        db_get_session_by_user_scheme(some_user().id, "bsw"),
        Query::SessionByScheme { user_id: 7, scheme: "bsw".to_string() }
    );
}

#[test]
fn users_are_added_under_new_names_only() {
    let new_user = NewUser {
        username: "bla".to_string(),
        password: "blubb".to_string(),
        salt: 1234,
        api_key: "apikey".to_string(),
    };
    assert_eq!(db_add_user(&None, "bla", "blubb", 1234, "apikey"), Ok(Query::InsertUser(new_user)));
    assert_eq!(
        db_add_user(&Some(some_user()), "bla", "blubb", 1234, "apikey"),
        Err("User already exists".to_string())
    );
    assert_eq!(db_user_added(Some(1)), Ok(1));
    assert_eq!(db_user_added(None), Err("Could not insert user".to_string()));
}

#[test]
fn sessions_are_created_for_known_schemes_only() {
    assert!(is_known_scheme("bsw"));
    assert!(!is_known_scheme("BSW"));
    assert!(!is_known_scheme(""));
    assert_eq!(db_create_session("bla", "bsw"), Ok(Query::UserByName("bla".to_string())));
    assert_eq!(db_create_session("bla", "lsw"), Err("Invalid scheme".to_string()));
    assert_eq!(
        db_insert_session(&some_user(), "bsw", "42", &texts(&["a", "b\"c"])),
        Query::InsertSession(NewSession {
            user_id: 7,
            is_initialized: false,
            scheme: "bsw".to_string(),
            session_id: "42".to_string(),
            key_material: r#"["a","b\"c"]"#.to_string(),
        })
    );
    assert_eq!(db_session_created("42".to_string(), Some(1)), Ok("42".to_string()));
    assert_eq!(
        db_session_created("42".to_string(), None),
        Err("Could not insert into sessions".to_string())
    );
}

#[test]
fn tokens_are_for_the_right_password() {
    let mut request = TokenRequest {
        grant_type: "password".to_string(),
        username: "bla".to_string(),
        password: "blubb".to_string(),
    };
    let token = login(&request, some_user()).unwrap();
    assert_eq!(token.access_token, "apikey");
    assert_eq!(token.token_type, "bearer");
    assert_eq!(token.expires_in, 60 * 60 * 24 * 356);
    assert_eq!(token.expires_in, EXPIRES_IN);
    request.password = "blub".to_string();
    assert_eq!(login(&request, some_user()), Err("Invalid".to_string()));
}

#[test]
fn users_to_add_have_the_fixed_salt() {
    let message = abe_server::messages::User {
        username: "admin".to_string(),
        password: "pw".to_string(),
    };
    let user = user_to_add(&message, "key".to_string());
    assert_eq!(user.username, "admin");
    assert_eq!(user.password, "pw");
    assert_eq!(user.salt, 1234);
    assert_eq!(user.api_key, "key");
    let drawn = add_user(&message);
    assert_eq!(drawn.username, "admin");
    assert_eq!(drawn.salt, 1234);
    assert!(uuid::Uuid::parse_str(&drawn.api_key).is_ok());
}

#[test]
fn servers_are_initialized_by_both_files() {
    assert!(is_initialized(true, true));
    assert!(!is_initialized(true, false));
    assert!(!is_initialized(false, true));
    assert!(!is_initialized(false, false));
    assert_eq!(MK_FILE, "abe-mk");
    assert_eq!(PK_FILE, "abe-pk");
}

#[test]
fn keys_are_read_from_files() {
    let keys = init_abe_setup();
    let mk: bsw::CpAbeMasterKey = serde_json::from_str(&keys.master_key).unwrap();
    let public: bsw::CpAbePublicKey = serde_json::from_str(&keys.public_key).unwrap();

    let read = get_mk(Ok(keys.master_key.clone())).unwrap();
    assert_eq!(read.text, serde_json::to_string(&mk).unwrap());
    assert_ne!(read.text, keys.master_key);
    assert_eq!(read.scalar, mk._beta.into_bytes());
    assert_eq!(read.element, rabe_bn::Group::into_bytes(&mk._g2_alpha));
    assert!(is_usable_master_key(&read));
    assert!(matches!(get_mk(Err("gone".to_string())), Err(KeyError::Unavailable(e)) if e == "gone"));
    assert!(matches!(get_mk(Ok("{}".to_string())), Err(KeyError::Malformed)));

    let printed = serde_json::to_string(&public).unwrap();
    assert_ne!(printed, keys.public_key);
    assert_eq!(get_pk(Ok(keys.public_key.clone())), Ok(printed.clone()));
    assert_eq!(get_pk(Ok(printed.clone())), Ok(printed.clone()));
    assert_eq!(get_pk(Err("gone".to_string())), Err(KeyError::Unavailable("gone".to_string())));
    assert_eq!(get_pk(Ok("nonsense".to_string())), Err(KeyError::Malformed));

    assert_eq!(pk(Ok(keys.public_key)), Response::Text(printed));
    assert_eq!(pk(Err("gone".to_string())), Response::BadRequest("Failure".to_string()));
    assert_eq!(pk(Ok("nonsense".to_string())), Response::BadRequest("Failure".to_string()));
    assert_eq!(pk(Ok(String::new())), Response::BadRequest("Failure".to_string()));
}

#[test]
fn key_material_has_three_entries() {
    let keys = init_abe_setup();
    let param =
        KeyGenMsg { attributes: texts(&["attribute_1", "b"]), scheme: "anything".to_string() };
    let material = keygen(&param, &keys.master_key, &keys.public_key).unwrap();
    assert_eq!(material.len(), 3);
    assert_eq!(get_pk(Ok(keys.public_key.clone())), Ok(material[0].clone()));
    assert_eq!(get_mk(Ok(keys.master_key.clone())).unwrap().text, material[1]);
    let secret: bsw::CpAbeSecretKey = serde_json::from_str(&material[2]).unwrap();
    let held: Vec<String> = secret._d_j.iter().map(|part| part._str.clone()).collect();
    assert_eq!(held, texts(&["attribute_1", "b"]));

    let nobody = KeyGenMsg { attributes: texts(&[]), scheme: "bsw".to_string() };
    assert_eq!(keygen(&nobody, &keys.master_key, &keys.public_key), Err(Fault::NoAttributes));
    assert_eq!(keygen(&param, "{}", &keys.public_key), Err(Fault::MalformedKey));
    assert_eq!(keygen(&param, &keys.master_key, "{}"), Err(Fault::MalformedKey));
    assert_eq!(keygen(&param, &keys.public_key, &keys.master_key), Err(Fault::MalformedKey));
}

/// The value at a path of a JSON text, replaced.
fn with_value(text: &str, path: &[&str], value: serde_json::Value) -> String {
    let mut whole: serde_json::Value = serde_json::from_str(text).unwrap();
    let mut place = &mut whole;
    for step in path {
        place = match step.parse::<usize>() {
            Ok(index) => &mut place[index],
            Err(_) => &mut place[*step],
        };
    }
    *place = value;
    serde_json::to_string(&whole).unwrap()
}

fn limbs(words: [u64; 4]) -> serde_json::Value {
    serde_json::to_value(words).unwrap()
}

const PRIME: [u64; 4] =
    [0x3c208c16d87cfd47, 0x97816a916871ca8d, 0xb85045b68181585d, 0x30644e72e131a029];

const ORDER: [u64; 4] =
    [0x43e1f593f0000001, 0x2833e84879b97091, 0xb85045b68181585d, 0x30644e72e131a029];

#[test]
fn no_key_comes_of_a_scalar_without_inverse() {
    let keys = init_abe_setup();
    let param = KeyGenMsg { attributes: texts(&["a"]), scheme: "bsw".to_string() };
    for scalar in [[0, 0, 0, 0], ORDER, PRIME, [u64::MAX; 4]] {
        let unusable = with_value(&keys.master_key, &["_beta"], limbs(scalar));
        assert!(!is_usable_master_key(&get_mk(Ok(unusable.clone())).unwrap()));
        assert_eq!(keygen(&param, &unusable, &keys.public_key), Err(Fault::UnsoundKey));
    }
    let last = [ORDER[0] - 1, ORDER[1], ORDER[2], ORDER[3]];
    let usable = with_value(&keys.master_key, &["_beta"], limbs(last));
    assert!(keygen(&param, &usable, &keys.public_key).is_ok());
}

#[test]
fn keys_out_of_range_are_not_used() {
    let keys = init_abe_setup();
    let param = KeyGenMsg { attributes: texts(&["a"]), scheme: "bsw".to_string() };
    let master = with_value(&keys.master_key, &["_g2_alpha", "y", "c1"], limbs(PRIME));
    assert_eq!(keygen(&param, &master, &keys.public_key), Err(Fault::UnsoundKey));
    let generator = with_value(&keys.public_key, &["_g1", "x"], limbs([u64::MAX; 4]));
    assert_eq!(keygen(&param, &keys.master_key, &generator), Err(Fault::UnsoundKey));
    assert_eq!(encrypt_with(&generator, r#"{"ATT": "a"}"#, "x"), Err(Fault::UnsoundKey));
    // What is not read does not matter.
    let public = with_value(&keys.public_key, &["_h", "x"], limbs([u64::MAX; 4]));
    assert!(keygen(&param, &keys.master_key, &public).is_ok());
    assert_eq!(encrypt_with(&public, r#"{"ATT": "a"}"#, "x"), Err(Fault::UnsoundKey));
    let spare = with_value(&keys.public_key, &["_f", "x", "c0"], limbs([u64::MAX; 4]));
    assert!(keygen(&param, &keys.master_key, &spare).is_ok());
    assert!(encrypt_with(&spare, r#"{"ATT": "a"}"#, "x").is_ok());
    let key = |issuing: usize, sealing: usize| PublicKey {
        text: String::new(),
        issuing: vec![0; issuing],
        sealing: vec![0; sealing],
    };
    assert!(is_issuing_public_key(&key(64, 65)));
    assert!(!is_issuing_public_key(&key(65, 64)));
    assert!(is_sealing_public_key(&key(64, 64)));
    assert!(!is_sealing_public_key(&key(64, 65)));
}

#[test]
fn elements_are_points_of_the_right_order() {
    let keys = init_abe_setup();
    let public: bsw::CpAbePublicKey = serde_json::from_str(&keys.public_key).unwrap();
    let element = serde_json::to_string(&public._g2).unwrap();
    assert!(is_second_group_element(&element));
    assert!(!is_second_group_element("{}"));
    assert!(!is_second_group_element(&with_value(&element, &["z", "c0"], limbs(PRIME))));
    assert!(!is_second_group_element(&with_value(&element, &["x", "c0"], limbs([5, 0, 0, 0]))));
    // A point of the curve that is not in the group.
    let stranger = r#"{"x": {"c0": [15230403791020821917, 754611498739239741, 7381016538464732716, 1011752739694698287], "c1": [0, 0, 0, 0]}, "y": {"c0": [16697579673407122998, 10190911379757367234, 7691815758149534111, 1531302467566633360], "c1": [8986723424549501793, 8291589481395011849, 4462149920703425939, 521402290981934555]}, "z": {"c0": [15230403791020821917, 754611498739239741, 7381016538464732716, 1011752739694698287], "c1": [0, 0, 0, 0]}}"#;
    let read: rabe_bn::G2 = serde_json::from_str(stranger).unwrap();
    let bytes = rabe_bn::Group::into_bytes(&read);
    assert!(is_second_curve_point(&bytes));
    assert!(!is_second_group_element(stranger));
    // The neutral element is in the group.
    let neutral = serde_json::to_string(&(public._g2 - public._g2)).unwrap();
    assert!(is_second_group_element(&neutral));

    let mut first = rabe_bn::Group::into_bytes(&public._g1);
    assert_eq!(first.len(), 96);
    assert!(is_first_group_element(&first));
    assert!(is_first_group_element(&rabe_bn::Group::into_bytes(&(public._g1 - public._g1))));
    first[7] ^= 1;
    assert!(!is_first_group_element(&first));
    assert!(!is_first_group_element(&vec![0; 64]));
    assert!(is_in_range(&bytes));
}

#[test]
fn the_field_is_calculated_in_right() {
    let number = |hi: u128, lo: u128| Number { hi, lo };
    let prime = field_prime_number();
    let last = number(prime.hi, prime.lo - 1);
    let one = number(0, 1);
    assert_eq!(field_sum(&last, &one), number(0, 0));
    assert_eq!(field_sum(&last, &last), number(prime.hi, prime.lo - 2));
    assert_eq!(field_difference(&number(0, 0), &one), last);
    assert_eq!(field_difference(&number(0, 5), &number(0, 3)), number(0, 2));
    assert_eq!(field_product(&last, &last), one);
    assert_eq!(field_product(&number(0, 1 << 127), &number(0, 4)), number(2, 0));
    assert_eq!(field_product(&last, &number(0, 0)), number(0, 0));
    assert!(is_less(&last, &prime));
    assert!(!is_less(&prime, &prime));
}

#[test]
fn material_entries_are_where_they_are() {
    let material = Some(texts(&["a", "b"]));
    assert_eq!(material_entry(&material, 0), Ok("a".to_string()));
    assert_eq!(material_entry(&material, 1), Ok("b".to_string()));
    assert_eq!(material_entry(&material, 2), Err(Fault::MalformedKeyMaterial));
    assert_eq!(material_entry(&None, 0), Err(Fault::MalformedKeyMaterial));
}

#[test]
fn plaintexts_must_be_text() {
    assert_eq!(plaintext_text(&Some("h\u{e9}".as_bytes().to_vec())), Ok("h\u{e9}".to_string()));
    assert_eq!(plaintext_text(&Some(vec![])), Ok(String::new()));
    assert_eq!(plaintext_text(&Some(vec![0xff])), Err(Fault::NotText));
    assert_eq!(plaintext_text(&Some(vec![0xc3])), Err(Fault::NotText));
    assert_eq!(plaintext_text(&None), Err(Fault::NotOpened));
}

#[test]
fn only_what_is_read_must_be_sound() {
    let keys = init_abe_setup();
    let public: bsw::CpAbePublicKey = serde_json::from_str(&keys.public_key).unwrap();
    let first = rabe_bn::Group::into_bytes(&public._g1);
    let second = serde_json::to_string(&public._g2).unwrap();
    let sound = |name: &str| Component {
        name: name.to_string(),
        first: first.clone(),
        second: second.clone(),
    };
    let broken =
        |name: &str| Component { name: name.to_string(), first: vec![], second: String::new() };
    let key = |components: Vec<Component>| SecretKey { root: second.clone(), components };
    let frame = |policy: &str, components: Vec<Component>| Frame {
        policy: policy.to_string(),
        json: true,
        length: 16,
        point: first.clone(),
        third: vec![0; 384],
        components,
    };
    let or = r#"{"name": "or", "children": [{"name": "a"}, {"name": "b"}]}"#;
    let and = r#"{"name": "and", "children": [{"name": "a"}, {"name": "b"}]}"#;
    let single = r#"{"name": "and", "children": [{"name": "a"}]}"#;
    let later = r#"{"name": "or", "children": [{"name": "a"}, {"name": "and", "children": []}]}"#;
    let refused = Err(Fault::UnopenableCiphertext);
    let a = || key(vec![sound("a")]);
    let both = || key(vec![sound("a"), sound("b")]);

    assert_eq!(check_opening(&a(), &frame(or, vec![sound("a"), broken("b")])), Ok(()));
    assert_eq!(check_opening(&both(), &frame(or, vec![sound("a"), broken("b")])), Ok(()));
    assert_eq!(check_opening(&a(), &frame(or, vec![broken("a"), sound("b")])), refused);
    assert_eq!(check_opening(&both(), &frame(and, vec![sound("a"), broken("b")])), refused);
    assert_eq!(check_opening(&both(), &frame(and, vec![sound("a"), sound("b")])), Ok(()));
    assert_eq!(check_opening(&both(), &frame(and, vec![sound("a")])), Ok(()));
    // Only the first of a name is read.
    let twice = vec![sound("a"), broken("a"), sound("b")];
    assert_eq!(check_opening(&both(), &frame(and, twice)), Ok(()));
    // Nothing is read where the policy is not met.
    assert_eq!(check_opening(&a(), &frame(and, vec![broken("a"), broken("b")])), Ok(()));
    assert_eq!(check_opening(&key(vec![broken("c")]), &frame(or, vec![broken("a")])), Ok(()));

    let mixed = key(vec![broken("a"), sound("b")]);
    assert_eq!(check_opening(&mixed, &frame(or, vec![sound("a")])), Err(Fault::UnsoundKey));
    assert_eq!(check_opening(&mixed, &frame(or, vec![])), Ok(()));
    let rootless = SecretKey { root: "{}".to_string(), components: vec![sound("a")] };
    assert_eq!(check_opening(&rootless, &frame(or, vec![])), Err(Fault::UnsoundKey));

    assert_eq!(check_opening(&a(), &frame(single, vec![sound("a")])), refused);
    assert_eq!(check_opening(&a(), &frame(later, vec![sound("a")])), Ok(()));
    assert_eq!(check_opening(&a(), &frame("a and b", vec![])), refused);
    let mut other = frame(or, vec![sound("a")]);
    other.length = 15;
    assert_eq!(check_opening(&a(), &other), refused);
    other = frame(or, vec![sound("a")]);
    other.json = false;
    assert_eq!(check_opening(&a(), &other), refused);
    other = frame(or, vec![sound("a")]);
    other.point = vec![0; 95];
    assert_eq!(check_opening(&a(), &other), refused);
    other = frame(or, vec![sound("a")]);
    other.third = vec![0xff; 384];
    assert_eq!(check_opening(&a(), &other), refused);
}

#[test]
fn encryption_says_what_it_lacks() {
    let policy = r#"{"ATT": "a"}"#;
    let material = material_for(&["a"]);
    assert_eq!(encrypt("no list", policy, "x"), Err(Fault::MalformedKeyMaterial));
    assert_eq!(encrypt("[]", policy, "x"), Err(Fault::MalformedKeyMaterial));
    assert_eq!(encrypt(r#"["no key"]"#, policy, "x"), Err(Fault::MalformedKey));
    assert_eq!(encrypt(&material, "a", "x"), Err(Fault::UnreadablePolicy));
    assert_eq!(encrypt_with("no key", policy, "x"), Err(Fault::MalformedKey));
    let ct = encrypt(&material, policy, "x").unwrap();
    assert!(is_ciphertext(&ct));
    let parsed: bsw::CpAbeCiphertext = serde_json::from_str(&ct).unwrap();
    assert_eq!(parsed._policy.0, r#"{"name": "a"}"#);
    assert!(matches!(parsed._policy.1, PolicyLanguage::JsonPolicy));
    assert_eq!(parsed._ct.len(), 1 + 32);
}

#[test]
fn decryption_says_what_it_lacks() {
    let material = material_for(&["a"]);
    let ct = encrypt(&material, r#"{"ATT": "a"}"#, "x").unwrap();
    assert_eq!(decrypt(&material, &ct), Ok("x".to_string()));
    assert!(!is_ciphertext("{}"));
    assert_eq!(decrypt(&material, "{}"), Err(Fault::MalformedCiphertext));
    assert_eq!(decrypt("no list", &ct), Err(Fault::MalformedKeyMaterial));
    assert_eq!(decrypt(r#"["a","b"]"#, &ct), Err(Fault::MalformedKeyMaterial));
    assert_eq!(decrypt(r#"["a","b","no key"]"#, &ct), Err(Fault::MalformedKey));
    let single = encrypt(&material, r#"{"AND": [{"ATT": "a"}]}"#, "x").unwrap();
    assert_eq!(decrypt(&material, &single), Err(Fault::UnopenableCiphertext));
    let other = encrypt(&material, r#"{"ATT": "b"}"#, "x").unwrap();
    assert_eq!(decrypt(&material, &other), Err(Fault::NotOpened));
}

#[test]
fn bytes_that_are_no_text_are_not_sent() {
    let material = material_for(&["a"]);
    let entries: Vec<String> = serde_json::from_str(&material).unwrap();
    let public: bsw::CpAbePublicKey = serde_json::from_str(&entries[0]).unwrap();
    let policy = r#"{"name": "a"}"#.to_string();
    let sealed =
        bsw::encrypt(&public, &policy, &vec![0xff, 0xfe], PolicyLanguage::JsonPolicy).unwrap();
    let ct = serde_json::to_string(&sealed).unwrap();
    assert_eq!(decrypt(&material, &ct), Err(Fault::NotText));
}

#[test]
fn empty_and_foreign_texts_come_back() {
    let material = material_for(&["a", "b"]);
    let policy = r#"{"OR": [{"ATT": "x"}, {"AND": [{"ATT": "b"}, {"ATT": "a"}]}]}"#;
    for text in ["", "\u{1f600} \u{e9}\n", "Encrypt me"] {
        let ct = encrypt(&material, policy, text).unwrap();
        assert_eq!(decrypt(&material, &ct), Ok(text.to_string()));
    }
}

#[test]
fn unsound_ciphertexts_are_not_opened() {
    let material = material_for(&["a"]);
    let ct = encrypt(&material, r#"{"ATT": "a"}"#, "x").unwrap();
    let refused = Err(Fault::UnopenableCiphertext);
    let endless = with_value(&ct, &["_c", "z"], limbs(PRIME));
    assert_eq!(decrypt(&material, &endless), refused);
    let zero = limbs([0, 0, 0, 0]);
    let mut flat = ct.clone();
    for coordinate in ["x", "y"] {
        for part in ["c0", "c1"] {
            flat = with_value(&flat, &["_c_y", "0", "_g2", coordinate, part], zero.clone());
        }
    }
    assert_eq!(decrypt(&material, &flat), refused);
    let off = with_value(&ct, &["_c_y", "0", "_g1", "x"], limbs([1, 2, 3, 4]));
    assert_eq!(decrypt(&material, &off), refused);
    assert_eq!(decrypt(&material, &ct), Ok("x".to_string()));
    assert_eq!(decrypt(&material_for(&["b"]), &endless), Err(Fault::NotOpened));
    let or = encrypt(&material, r#"{"OR": [{"ATT": "a"}, {"ATT": "b"}]}"#, "x").unwrap();
    let unread = with_value(&or, &["_c_y", "1", "_g1", "z"], limbs(PRIME));
    assert_eq!(decrypt(&material, &unread), Ok("x".to_string()));
}

#[test]
fn unsound_secret_keys_are_not_used() {
    let material = material_for(&["a"]);
    let entries: Vec<String> = serde_json::from_str(&material).unwrap();
    let ct = encrypt(&material, r#"{"ATT": "a"}"#, "x").unwrap();
    assert_eq!(decrypt_with(&entries[2], &ct), Ok("x".to_string()));
    let endless = with_value(&entries[2], &["_d", "z", "c0"], limbs(PRIME));
    assert_eq!(decrypt_with(&endless, &ct), Err(Fault::UnsoundKey));
    let off = with_value(&entries[2], &["_d_j", "0", "_g1", "y"], limbs([0, 0, 0, 0]));
    assert_eq!(decrypt_with(&off, &ct), Err(Fault::UnsoundKey));
    assert_eq!(decrypt_with("no key", &ct), Err(Fault::MalformedKey));
}

#[test]
fn policies_of_a_sure_height_are_opened() {
    let names: Vec<String> = (0..SURE_HEIGHT).map(|i| format!("a{}", i)).collect();
    let mut policy = format!("{{\"ATT\": \"{}\"}}", names[0]);
    for name in &names[1..] {
        policy = format!("{{\"AND\": [{{\"ATT\": \"{}\"}}, {}]}}", name, policy);
    }
    let held: Vec<&str> = names.iter().map(|name| name.as_str()).collect();
    let material = material_for(&held);
    let ct = encrypt(&material, &policy, "deep").unwrap();
    assert_eq!(decrypt(&material, &ct), Ok("deep".to_string()));
    assert_eq!(decrypt(&material_for(&held[1..]), &ct), Err(Fault::NotOpened));
}

#[test]
fn taller_policies_are_opened_or_not_parsed() {
    let mut policy = r#"{"ATT": "a"}"#.to_string();
    for _ in 1..MAX_HEIGHT {
        policy = format!("{{\"OR\": [{{\"ATT\": \"b\"}}, {}]}}", policy);
    }
    let material = material_for(&["a"]);
    match encrypt(&material, &policy, "deep") {
        Ok(ct) => assert!(matches!(
            decrypt(&material, &ct).as_deref(),
            Ok("deep") | Err(Fault::NotOpened)
        )),
        Err(fault) => assert_eq!(fault, Fault::PolicyNotParsed),
    }
    let taller = format!("{{\"OR\": [{{\"ATT\": \"b\"}}, {}]}}", policy);
    assert_eq!(encrypt(&material, &taller, "deep"), Err(Fault::UnreadablePolicy));
}

#[test]
fn narrow_parts_that_are_not_visited_do_no_harm() {
    let material = material_for(&["a"]);
    let policy = r#"{"OR": [{"ATT": "a"}, {"AND": [{"ATT": "b"}]}]}"#;
    let ct = encrypt(&material, policy, "x").unwrap();
    assert_eq!(decrypt(&material, &ct), Ok("x".to_string()));
}

#[test]
fn names_that_are_not_held_may_stand_twice() {
    let policy = r#"{"OR": [{"ATT": "c"}, {"AND": [{"ATT": "a"}, {"ATT": "b"}]}, {"AND": [{"ATT": "a"}, {"ATT": "d"}]}]}"#;
    let material = material_for(&["c"]);
    let ct = encrypt(&material, policy, "for c").unwrap();
    assert_eq!(decrypt(&material, &ct), Ok("for c".to_string()));
}

#[test]
fn names_with_escapes_are_taken_as_they_stand() {
    let material = material_for(&[r#"a\"b"#, r"\u00e9"]);
    let policy = r#"{"AND": [{"ATT": "a\"b"}, {"ATT": "\u00e9"}]}"#;
    let ct = encrypt(&material, policy, "x").unwrap();
    assert_eq!(decrypt(&material, &ct), Ok("x".to_string()));
}
