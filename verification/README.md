# abe_server

A REST server for attribute-based encryption, with its logic verified in Verus.

Users are added, log in for an API key and set up sessions. A session holds a
public key, the master key and a secret key for the attributes it was set up
with. In a session, a text is encrypted for a policy such as

    {"AND": [{"ATT": "attribute_1"}, {"ATT": "attribute_2"}]}

and a ciphertext is decrypted if the attributes of the session meet its policy.

## Layout

- `src/server.rs`: what the server does next, from a request to its response, as
  queries that it asks and replies that it is given.
- `src/api.rs`, `src/auth.rs`, `src/database.rs`, `src/keys.rs`: the pieces that
  it is made of.
- `src/policy.rs`, `src/policy_text.rs`, `src/policy_laws.rs`: policies, how they
  are read, and that they are written as they were read.
- `src/number.rs`, `src/curve.rs`: the numbers and the points that keys and
  ciphertexts are made of, and how they are told from others.
- `src/abe.rs`, `src/json.rs`, `src/passwd.rs`, `src/random.rs`: what comes from
  `rabe`, `rabe-bn`, `serde_json`, `blake2-rfc`, `uuid` and `rand`, with what is
  believed of it.
- `src/store.rs`, `src/laws.rs`, `src/session_laws.rs`: what requests do to the
  database, and what is proved of it.
- `app/`: the routes, the database and the key files.

## Running

`DATABASE_URL` names a MySQL database with these tables:

    CREATE TABLE users (
        id INTEGER PRIMARY KEY AUTO_INCREMENT,
        username VARCHAR(255) NOT NULL,
        password VARCHAR(255) NOT NULL,
        salt INTEGER NOT NULL,
        api_key VARCHAR(255) NOT NULL
    );
    CREATE TABLE sessions (
        id INTEGER PRIMARY KEY AUTO_INCREMENT,
        user_id INTEGER NOT NULL,
        is_initialized BOOLEAN NOT NULL,
        scheme VARCHAR(255) NOT NULL,
        session_id VARCHAR(255) NOT NULL,
        key_material TEXT NOT NULL
    );

The laws take a database that compares texts character by character, so its
collation should be a binary one. The keys of the server are made at the first
start, in `abe-mk` and `abe-pk`.
