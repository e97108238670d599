use abe_server::database::{
    db_add_user, db_create_session, db_get_user, db_insert_session, db_session_created,
    db_user_added,
};
use abe_server::keys::{init_abe_setup, keygen};
use abe_server::messages::{
    AccessTokenResponse, DecMessage, EncMessage, Fault, KeyGenMsg, ListAttrMsg, SetupMsg,
    TokenRequest, User,
};
use abe_server::protocol::{
    Call, Errand, GuardedCall, KeyFile, Query, Reply, Request, Response, Status, Step, Task,
};
use abe_server::random::generate_session_id;
use abe_server::schema;
use abe_server::server::{begin, resume, store_session};

/// A database and two key files in memory.
struct World {
    users: Vec<schema::User>,
    sessions: Vec<schema::Session>,
    master_file: Result<String, String>,
    public_file: Result<String, String>,
    inserts: bool,
    queries: usize,
}

impl World {
    fn new() -> World {
        let keys = init_abe_setup();
        World {
            users: Vec::new(),
            sessions: Vec::new(),
            master_file: Ok(keys.master_key),
            public_file: Ok(keys.public_key),
            inserts: true,
            queries: 0,
        }
    }

    fn ask(&mut self, query: Query) -> Reply {
        self.queries += 1;
        match query {
            Query::UserByName(name) => {
                Reply::User(self.users.iter().find(|user| user.username == name).cloned())
            }
            Query::UserByApiKey(key) => {
                Reply::User(self.users.iter().find(|user| user.api_key == key).cloned())
            }
            Query::SessionById { user_id, session_id } => Reply::Session(
                self.sessions
                    .iter()
                    .find(|session| session.user_id == user_id && session.session_id == session_id)
                    .cloned(),
            ),
            Query::SessionByScheme { user_id, scheme } => Reply::Session(
                self.sessions
                    .iter()
                    .find(|session| session.user_id == user_id && session.scheme == scheme)
                    .cloned(),
            ),
            Query::InsertUser(user) => {
                if !self.inserts {
                    return Reply::Inserted(None);
                }
                self.users.push(schema::User {
                    id: self.users.len() as i32 + 1,
                    username: user.username,
                    password: user.password,
                    salt: user.salt,
                    api_key: user.api_key,
                });
                Reply::Inserted(Some(1))
            }
            Query::InsertSession(session) => {
                if !self.inserts {
                    return Reply::Inserted(None);
                }
                self.sessions.push(schema::Session {
                    id: self.sessions.len() as i32 + 1,
                    user_id: session.user_id,
                    is_initialized: session.is_initialized,
                    scheme: session.scheme,
                    session_id: session.session_id,
                    key_material: session.key_material,
                });
                Reply::Inserted(Some(1))
            }
            Query::ReadFile(KeyFile::Master) => Reply::File(self.master_file.clone()),
            Query::ReadFile(KeyFile::Public) => Reply::File(self.public_file.clone()),
        }
    }

    fn dispatch(&mut self, request: Request) -> Response {
        self.queries = 0;
        let mut step = begin(request);
        loop {
            match step {
                Step::Done(response) => return response,
                Step::Ask(query, task) => {
                    let reply = self.ask(query);
                    step = resume(task, reply);
                }
            }
        }
    }

    fn open(&mut self, call: Call) -> Response {
        self.dispatch(Request { authorization: vec![], call })
    }

    fn guarded(&mut self, key: &str, call: GuardedCall) -> Response {
        let authorization = vec![key.to_string()];
        self.dispatch(Request { authorization, call: Call::Guarded(call) })
    }

    fn add(&mut self, username: &str, password: &str) -> Response {
        self.open(Call::AddUser(User {
            username: username.to_string(),
            password: password.to_string(),
        }))
    }

    fn log_in(&mut self, username: &str, password: &str) -> Response {
        self.open(Call::Login(TokenRequest {
            grant_type: "password".to_string(),
            username: username.to_string(),
            password: password.to_string(),
        }))
    }

    fn token(&mut self, username: &str, password: &str) -> AccessTokenResponse {
        match self.log_in(username, password) {
            Response::Token(token) => token,
            other => panic!("{:?}", other),
        }
    }

    fn registered(&mut self, username: &str) -> String {
        assert_eq!(self.add(username, "pw"), Response::Accepted);
        self.token(username, "pw").access_token
    }

    fn setup(&mut self, key: &str, scheme: &str, attributes: &[&str]) -> Response {
        self.guarded(key, GuardedCall::Setup(setup_msg(scheme, attributes)))
    }

    fn session(&mut self, key: &str, attributes: &[&str]) -> String {
        text(self.setup(key, "bsw", attributes))
    }

    fn encrypt(&mut self, key: &str, id: &str, policy: &str, plaintext: &str) -> Response {
        self.guarded(
            key,
            GuardedCall::Encrypt(EncMessage {
                plaintext: plaintext.to_string(),
                policy: policy.to_string(),
                session_id: id.to_string(),
            }),
        )
    }

    fn decrypt(&mut self, key: &str, id: &str, ct: &str) -> Response {
        self.guarded(
            key,
            GuardedCall::Decrypt(DecMessage { ct: ct.to_string(), session_id: id.to_string() }),
        )
    }

    fn list(&mut self, key: &str, id: &str) -> Response {
        self.guarded(key, GuardedCall::ListAttrs(ListAttrMsg { session_id: id.to_string() }))
    }
}

fn setup_msg(scheme: &str, attributes: &[&str]) -> SetupMsg {
    SetupMsg {
        scheme: scheme.to_string(),
        attributes: attributes.iter().map(|name| name.to_string()).collect(),
    }
}

fn text(response: Response) -> String {
    match response {
        Response::Text(text) => text,
        other => panic!("{:?}", other),
    }
}

fn json(response: Response) -> String {
    match response {
        Response::Json(text) => text,
        other => panic!("{:?}", other),
    }
}

#[test]
fn test_login_succ() {
    let mut client = World::new();
    let response_add = client.open(Call::AddUser(User {
        username: String::from("admin"),
        password: String::from("admin"),
    }));
    assert_eq!(response_add, Response::Accepted);

    let response = client.open(Call::Login(TokenRequest {
        grant_type: "password".to_string(),
        username: "admin".to_string(),
        password: "admin".to_string(),
    }));
    // Panics if API key is not in valid UUID format
    match response {
        Response::Token(access_token) => {
            uuid::Uuid::parse_str(access_token.access_token.as_str()).unwrap();
        }
        other => panic!("{:?}", other),
    }
}

#[test]
fn test_db_user() {
    let mut con = World::new();

    // Write user into db
    let user: String = "bla".to_string();
    let passwd: String = "blubb".to_string();
    let api_key: String = "apikey".to_string();
    let salt: i32 = 1234;
    let existing = match con.ask(db_get_user(&user)) {
        Reply::User(found) => found,
        other => panic!("{:?}", other),
    };
    let query = db_add_user(&existing, &user, &passwd, salt, &api_key).unwrap();
    let result: usize = match con.ask(query) {
        Reply::Inserted(inserted) => db_user_added(inserted).unwrap(),
        other => panic!("{:?}", other),
    };
    assert!(result > 0);

    // Check that it is there
    match con.ask(db_get_user(&user)) {
        Reply::User(Some(u)) => {
            assert_eq!(u.username, user);
            assert_eq!(u.password, passwd);
            assert_eq!(u.api_key, api_key);
        }
        other => panic!("{:?}", other),
    }
}

#[test]
fn test_db_session() {
    let mut con = World::new();

    // Create a user
    let user: String = "bla".to_string();
    let passwd: String = "blubb".to_string();
    let api_key: String = "apikey".to_string();
    let salt: i32 = 1234;
    let query = db_add_user(&None, &user, &passwd, salt, &api_key).expect("Failure adding user");
    con.ask(query);

    // Setup of a new session. Create keys
    let parms = KeyGenMsg {
        attributes: vec!["attribute_1".to_string(), "attribute_2".to_string()],
        scheme: "bsw".to_string(),
    };
    let master_file = con.master_file.clone().unwrap();
    let public_file = con.public_file.clone().unwrap();
    let key_material: Vec<String> = keygen(&parms, &master_file, &public_file).unwrap();

    let scheme: String = "bsw".to_string();
    let query = db_create_session(&user, &scheme).expect("Could not create session");
    let owner = match con.ask(query) {
        Reply::User(Some(owner)) => owner,
        other => panic!("{:?}", other),
    };
    let drawn = generate_session_id().unwrap();
    let inserted = match con.ask(db_insert_session(&owner, &scheme, &drawn, &key_material)) {
        Reply::Inserted(inserted) => inserted,
        other => panic!("{:?}", other),
    };
    let session_id: String =
        db_session_created(drawn, inserted).expect("Could not create session");
    assert_eq!(con.sessions[0].session_id, session_id);
    assert_eq!(con.sessions[0].user_id, owner.id);
}

#[test]
fn test_setup() {
    let mut client = World::new();
    assert_eq!(client.add("admin", "admin"), Response::Accepted);
    let access_token = client.token("admin", "admin");
    let response =
        client.setup(&access_token.access_token, "bsw", &["attribute_1", "attribute_2"]);
    assert!(matches!(response, Response::Text(_)));
}

#[test]
fn test_encrypt_decrypt() {
    let mut client = World::new();
    assert_eq!(client.add("admin", "admin"), Response::Accepted);
    let access_token = client.token("admin", "admin");
    let bearer = "Bearer ".to_owned() + &access_token.access_token;

    // Set up scheme
    let session_id = text(client.setup(&bearer, "bsw", &["attribute_1", "attribute_2"]));
    let pk = text(client.guarded(&bearer, GuardedCall::Pk));
    assert!(serde_json::from_str::<rabe::schemes::bsw::CpAbePublicKey>(&pk).is_ok());

    // Encrypt some text for a policy
    let policy: String =
        String::from(r#"{"AND": [{"ATT": "attribute_1"}, {"ATT": "attribute_2"}]}"#);
    let ct = json(client.encrypt(&bearer, &session_id, &policy, "Encrypt me"));

    // Decrypt again
    let pt = json(client.decrypt(&bearer, &session_id, &ct));
    assert_eq!(pt.trim(), "Encrypt me");
}

#[test]
fn logging_in_gives_the_stored_key() {
    let mut world = World::new();
    let key = world.registered("alice");
    assert_eq!(world.users[0].api_key, key);
    assert_eq!(world.users[0].salt, 1234);
    let token = world.token("alice", "pw");
    assert_eq!(token.access_token, key);
    assert_eq!(token.token_type, "bearer");
    assert_eq!(token.expires_in, 30758400);
    assert_eq!(world.queries, 1);
}

#[test]
fn logging_in_takes_the_right_password() {
    let mut world = World::new();
    world.registered("alice");
    assert_eq!(world.log_in("alice", "wrong"), Response::BadRequest("Invalid".to_string()));
    assert_eq!(world.log_in("bob", "pw"), Response::Failed(Fault::NoSuchUser));
    assert_eq!(world.users.len(), 1);
}

#[test]
fn names_are_given_once() {
    let mut world = World::new();
    world.registered("alice");
    let before = world.users.clone();
    assert_eq!(
        world.add("alice", "other"),
        Response::BadRequest("Failure adding userpk failure: User already exists".to_string())
    );
    assert_eq!(world.users, before);
    assert!(matches!(world.log_in("alice", "pw"), Response::Token(_)));
}

#[test]
fn users_that_cannot_be_stored_are_reported() {
    let mut world = World::new();
    world.inserts = false;
    assert_eq!(
        world.add("alice", "pw"),
        Response::BadRequest("Failure adding userpk failure: Could not insert user".to_string())
    );
    assert!(world.users.is_empty());
}

#[test]
fn guarded_calls_need_one_valid_key() {
    let mut world = World::new();
    let key = world.registered("alice");
    let request = |keys: Vec<String>| Request {
        authorization: keys,
        call: Call::Guarded(GuardedCall::Setup(setup_msg("bsw", &["a"]))),
    };
    assert_eq!(world.dispatch(request(vec![])), Response::Refused(Status::BadRequest));
    assert_eq!(
        world.dispatch(request(vec![key.clone(), key.clone()])),
        Response::Refused(Status::BadRequest)
    );
    assert_eq!(
        world.dispatch(request(vec!["nobody".to_string()])),
        Response::Refused(Status::Unauthorized)
    );
    assert_eq!(
        world.dispatch(request(vec![String::new()])),
        Response::Refused(Status::Unauthorized)
    );
    assert!(world.sessions.is_empty());
    assert!(matches!(world.dispatch(request(vec![key])), Response::Text(_)));
}

#[test]
fn keys_are_presented_with_or_without_bearer() {
    let mut world = World::new();
    let key = world.registered("alice");
    let bearer = "Bearer ".to_owned() + &key;
    let id = world.session(&key, &["a"]);
    assert_eq!(world.setup(&bearer, "bsw", &["b"]), Response::Text(id));
    assert_eq!(
        world.guarded(&("bearer ".to_owned() + &key), GuardedCall::Pk),
        Response::Refused(Status::Unauthorized)
    );
}

#[test]
fn a_key_with_bearer_inside_has_no_owner() {
    let mut world = World::new();
    world.registered("alice");
    world.users[0].api_key = "xBearer y".to_string();
    assert!(matches!(world.guarded("xBearer y", GuardedCall::Pk), Response::Text(_)));
    assert_eq!(world.list("xBearer y", "1"), Response::Failed(Fault::NoSuchUser));
    assert_eq!(world.setup("xBearer y", "bsw", &["a"]), Response::Failed(Fault::NoSuchUser));
}

#[test]
fn setting_up_twice_gives_one_session() {
    let mut world = World::new();
    let key = world.registered("alice");
    let id = world.session(&key, &["a"]);
    assert_eq!(world.queries, 8);
    let before = world.sessions.clone();
    assert_eq!(world.session(&key, &["b", "c"]), id);
    assert_eq!(world.sessions, before);
    let session = &world.sessions[0];
    assert_eq!(session.scheme, "bsw");
    assert_eq!(session.user_id, world.users[0].id);
    assert!(!session.is_initialized);
    assert_eq!(session.session_id, id);
    assert!(id.parse::<u64>().is_ok());
}

#[test]
fn every_scheme_gives_the_one_session() {
    let mut world = World::new();
    let key = world.registered("alice");
    let bearer = "Bearer ".to_owned() + &key;
    let first = text(world.setup(&key, "lsw", &["a"]));
    assert_eq!(world.queries, 9);
    assert_eq!(text(world.setup(&key, "lsw", &["b"])), first);
    assert_eq!(text(world.setup(&bearer, "lsw", &["a"])), first);
    assert_eq!(text(world.setup(&key, "bsw", &["a"])), first);
    assert_eq!(world.sessions.len(), 1);
    assert_eq!(world.sessions[0].scheme, "bsw");
    let other = world.registered("bob");
    assert_ne!(text(world.setup(&other, "lsw", &["a"])), first);
    assert_eq!(world.sessions.len(), 2);
}

#[test]
fn a_session_under_the_scheme_asked_for_comes_first() {
    let mut world = World::new();
    let key = world.registered("alice");
    let user_id = world.users[0].id;
    world.sessions.push(schema::Session {
        id: 1,
        user_id,
        is_initialized: true,
        scheme: "ac17".to_string(),
        session_id: "17".to_string(),
        key_material: "[]".to_string(),
    });
    let before = world.sessions.clone();
    let master_file = world.master_file.clone();
    world.master_file = Err("entity not found".to_string());
    assert_eq!(world.setup(&key, "ac17", &[]), Response::Text("17".to_string()));
    assert_eq!(world.sessions, before);
    world.master_file = master_file;
    assert_eq!(world.setup(&key, "ac17", &["a"]), Response::Text("17".to_string()));
    assert_eq!(world.sessions, before);
    let own = text(world.setup(&key, "bsw", &["a"]));
    assert_ne!(own, "17");
    assert_eq!(world.sessions.len(), 2);
    assert_eq!(world.setup(&key, "bsw", &["a"]), Response::Text(own.clone()));
    assert_eq!(world.setup(&key, "lsw", &["a"]), Response::Text(own));
    assert_eq!(world.setup(&key, "ac17", &["a"]), Response::Text("17".to_string()));
    assert_eq!(world.sessions.len(), 2);
}

#[test]
fn setting_up_says_which_key_is_missing() {
    let mut world = World::new();
    let key = world.registered("alice");
    let master_file = world.master_file.clone();
    world.master_file = Err("entity not found".to_string());
    assert_eq!(
        world.setup(&key, "bsw", &["a"]),
        Response::BadRequest(
            "Failure to create keys msk failure: entity not found".to_string()
        )
    );
    world.master_file = Ok("nonsense".to_string());
    assert_eq!(world.setup(&key, "bsw", &["a"]), Response::Failed(Fault::MalformedKey));
    world.master_file = master_file;
    world.public_file = Err("entity not found".to_string());
    assert_eq!(
        world.setup(&key, "bsw", &["a"]),
        Response::BadRequest("Failure to create keys pk failure: entity not found".to_string())
    );
    assert_eq!(
        world.guarded(&key, GuardedCall::Pk),
        Response::BadRequest("Failure".to_string())
    );
    world.public_file = Ok("nonsense".to_string());
    assert_eq!(world.setup(&key, "bsw", &["a"]), Response::Failed(Fault::MalformedKey));
    assert_eq!(
        world.guarded(&key, GuardedCall::Pk),
        Response::BadRequest("Failure".to_string())
    );
    assert!(world.sessions.is_empty());
}

#[test]
fn setting_up_needs_attributes_and_room() {
    let mut world = World::new();
    let key = world.registered("alice");
    assert_eq!(world.setup(&key, "bsw", &[]), Response::Failed(Fault::NoAttributes));
    world.inserts = false;
    assert_eq!(world.setup(&key, "bsw", &["a"]), Response::Failed(Fault::SessionNotStored));
    assert!(world.sessions.is_empty());
}

#[test]
fn listing_gives_the_key_material() {
    let mut world = World::new();
    let key = world.registered("alice");
    let id = world.session(&key, &["a", "b"]);
    let listed = text(world.list(&key, &id));
    assert_eq!(listed, world.sessions[0].key_material);
    let material: Vec<String> = serde_json::from_str(&listed).unwrap();
    assert_eq!(material.len(), 3);
    assert_eq!(world.guarded(&key, GuardedCall::Pk), Response::Text(material[0].clone()));
}

#[test]
fn sessions_belong_to_their_users() {
    let mut world = World::new();
    let alice = world.registered("alice");
    let bob = world.registered("bob");
    let id = world.session(&alice, &["a"]);
    let ct = json(world.encrypt(&alice, &id, r#"{"ATT": "a"}"#, "x"));
    assert_eq!(world.list(&bob, &id), Response::Failed(Fault::NoSuchSession));
    assert_eq!(world.decrypt(&bob, &id, &ct), Response::Failed(Fault::NoSuchSession));
    assert_eq!(
        world.encrypt(&bob, &id, r#"{"ATT": "a"}"#, "x"),
        Response::Failed(Fault::NoSuchSession)
    );
    assert_eq!(world.decrypt(&bob, &id, "{}"), Response::Failed(Fault::MalformedCiphertext));
    assert_eq!(world.decrypt(&alice, &id, &ct), Response::Json("x".to_string()));
}

#[test]
fn attributes_decide_who_decrypts() {
    let mut world = World::new();
    let alice = world.registered("alice");
    let bob = world.registered("bob");
    let carol = world.registered("carol");
    let from = world.session(&alice, &["z"]);
    let to_bob = world.session(&bob, &["a", "b"]);
    let to_carol = world.session(&carol, &["a", "c"]);
    let policy = r#"{"AND": [{"ATT": "a"}, {"OR": [{"ATT": "b"}, {"ATT": "d"}]}]}"#;
    let ct = json(world.encrypt(&alice, &from, policy, "for bob"));
    assert_eq!(world.decrypt(&bob, &to_bob, &ct), Response::Json("for bob".to_string()));
    assert_eq!(world.decrypt(&carol, &to_carol, &ct), Response::Failed(Fault::NotOpened));
    assert_eq!(world.decrypt(&alice, &from, &ct), Response::Failed(Fault::NotOpened));
}

#[test]
fn narrow_policies_are_opened_by_nobody() {
    let mut world = World::new();
    let key = world.registered("alice");
    let id = world.session(&key, &["a"]);
    let ct = json(world.encrypt(&key, &id, r#"{"OR": [{"ATT": "a"}]}"#, "x"));
    assert_eq!(world.decrypt(&key, &id, &ct), Response::Failed(Fault::UnopenableCiphertext));
    assert_eq!(
        world.encrypt(&key, &id, "nonsense", "x"),
        Response::Failed(Fault::UnreadablePolicy)
    );
}

#[test]
fn key_material_must_be_a_list_of_keys() {
    let mut world = World::new();
    let key = world.registered("alice");
    let id = world.session(&key, &["a"]);
    let policy = r#"{"ATT": "a"}"#;
    let ct = json(world.encrypt(&key, &id, policy, "x"));
    world.sessions[0].key_material = "nonsense".to_string();
    assert_eq!(
        world.encrypt(&key, &id, policy, "x"),
        Response::Failed(Fault::MalformedKeyMaterial)
    );
    assert_eq!(world.decrypt(&key, &id, &ct), Response::Failed(Fault::MalformedKeyMaterial));
    assert_eq!(world.list(&key, &id), Response::Text("nonsense".to_string()));
}

#[test]
fn only_two_calls_change_anything() {
    let mut world = World::new();
    let key = world.registered("alice");
    let id = world.session(&key, &["a"]);
    let users = world.users.clone();
    let sessions = world.sessions.clone();
    let ct = json(world.encrypt(&key, &id, r#"{"ATT": "a"}"#, "x"));
    world.decrypt(&key, &id, &ct);
    world.list(&key, &id);
    world.guarded(&key, GuardedCall::Pk);
    world.log_in("alice", "pw");
    assert_eq!(world.users, users);
    assert_eq!(world.sessions, sessions);
    world.registered("bob");
    assert_eq!(world.users[..1], users[..]);
    assert_eq!(world.users.len(), 2);
    assert_ne!(world.users[0].api_key, world.users[1].api_key);
}

#[test]
fn replies_must_fit_the_query() {
    let unexpected = Step::Done(Response::Failed(Fault::UnexpectedReply));
    assert_eq!(resume(Task::UserAdded, Reply::User(None)), unexpected);
    assert_eq!(resume(Task::Pk, Reply::Inserted(Some(1))), unexpected);
    assert_eq!(resume(Task::Session(Errand::ListAttrs), Reply::User(None)), unexpected);
    let guard = Task::Guard { key: "k".to_string(), call: GuardedCall::Pk };
    assert_eq!(resume(guard, Reply::File(Ok(String::new()))), unexpected);
}

#[test]
fn users_that_vanish_are_missed() {
    let missed = Step::Done(Response::Failed(Fault::NoSuchUser));
    let owner = Task::Owner { session_id: "1".to_string(), errand: Errand::ListAttrs };
    assert_eq!(resume(owner, Reply::User(None)), missed);
    let setup_owner =
        Task::SetupOwner { username: "u".to_string(), msg: setup_msg("bsw", &["a"]) };
    assert_eq!(resume(setup_owner, Reply::User(None)), missed);
    assert_eq!(resume(Task::SetupCreate { material: vec![] }, Reply::User(None)), missed);
}

#[test]
fn sessions_are_stored_under_the_drawn_identifier() {
    let owner = schema::User {
        id: 3,
        username: "u".to_string(),
        password: "p".to_string(),
        salt: 1234,
        api_key: "k".to_string(),
    };
    let material = vec!["a".to_string(), "b".to_string(), "c".to_string()];
    assert_eq!(
        store_session(material.clone(), owner.clone(), Some("17".to_string())),
        Step::Ask(
            Query::InsertSession(schema::NewSession {
                user_id: 3,
                is_initialized: false,
                scheme: "bsw".to_string(),
                session_id: "17".to_string(),
                key_material: r#"["a","b","c"]"#.to_string(),
            }),
            Task::SetupStored { session_id: "17".to_string() },
        )
    );
    assert_eq!(
        store_session(material, owner, None),
        Step::Done(Response::Failed(Fault::NoRandomness))
    );
}
