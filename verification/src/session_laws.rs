//! What holds of sessions: how they come to be, who can use them, and what is
//! encrypted and decrypted in them.
use crate::messages::{DecMessageOf, EncMessageOf, Fault, ListAttrMsgOf, SetupMsgOf};
use crate::policy::Policy;
use crate::protocol::{
    CallOf, ErrandOf, ErrandView, GuardedCallOf, GuardedCallView, KeyFile, QueryOf, ReplyOf,
    RequestView, ResponseOf, ResponseView, StepOf, TaskOf,
};
use crate::schema::{SessionView, UserView};
use crate::store::{Store, MAX_QUERIES};
use vstd::prelude::*;

verus! {

/// `key` is the API key of the user as it can come with a request.
pub open spec fn presents(key: Seq<char>, user: UserView) -> bool {
    &&& crate::auth::presented_key(key) == user.api_key
    &&& crate::auth::bare_key(key) == user.api_key
}

/// A user whose API key was generated can present it alone or behind the word
/// `Bearer`.
pub proof fn law_generated_keys_can_be_presented(user: UserView)
    requires
        crate::random::uuid_text(user.api_key),
    ensures
        presents(user.api_key, user),
        presents("Bearer "@ + user.api_key, user),
{
    crate::auth::law_generated_keys_are_bare(user.api_key);
    crate::auth::law_bearer_makes_no_difference(user.api_key);
}

/// A guarded call with the key of a user is not refused.
pub proof fn law_presented_keys_admit(
    before: Store,
    key: Seq<char>,
    user: UserView,
    call: GuardedCallView,
    after: Store,
    response: ResponseView,
)
    requires
        before.users.contains(user),
        presents(key, user),
        crate::store::handled(before, crate::laws::guarded(key, call), after, response),
    ensures
        !(response is Refused),
{
    let i = choose|i: int| 0 <= i < before.users.len() && before.users[i] == user;
    assert(before.users[i].api_key == user.api_key);
    crate::laws::law_refused(before, seq![key], call, after, response);
}

/// The run of a guarded call with the key of a user, once it is let in.
proof fn lemma_let_in(
    before: Store,
    key: Seq<char>,
    user: UserView,
    call: GuardedCallView,
    after: Store,
    response: ResponseView,
)
    requires
        before.users.contains(user),
        presents(key, user),
        crate::store::handled(before, crate::laws::guarded(key, call), after, response),
    ensures
        crate::store::runs(
            before,
            crate::server::admitted(key, call),
            after,
            response,
            (MAX_QUERIES - 1) as nat,
        ),
{
    let i = choose|i: int| 0 <= i < before.users.len() && before.users[i] == user;
    assert(before.users[i].api_key == user.api_key);
    crate::laws::lemma_guard(before, seq![key], call, after, response);
}

/// An errand changes nothing. It is done in the session of the user, or fails
/// where the user has no such session.
proof fn lemma_errand(
    before: Store,
    key: Seq<char>,
    user: UserView,
    session_id: Seq<char>,
    errand: ErrandView,
    after: Store,
    response: ResponseView,
)
    requires
        before.sole_owner(user),
        presents(key, user),
        crate::store::runs(
            before,
            crate::server::ask(
                QueryOf::UserByApiKey(crate::auth::bare_key(key)),
                TaskOf::Owner { session_id, errand },
            ),
            after,
            response,
            (MAX_QUERIES - 1) as nat,
        ),
    ensures
        after == before,
        forall|session: SessionView| #[trigger]
            before.sole_session(session) && session.user_id == user.id && session.session_id
                == session_id ==> crate::server::errand_done(errand, session, response),
        !before.has_session_id(user.id, session_id) ==> response == ResponseOf::<
            Seq<char>,
        >::Failed(Fault::NoSuchSession),
{
    let turn = crate::laws::lemma_turn(
        before,
        QueryOf::UserByApiKey(crate::auth::bare_key(key)),
        TaskOf::Owner { session_id, errand },
        after,
        response,
        (MAX_QUERIES - 1) as nat,
    );
    let turn2 = crate::laws::lemma_turn(
        before,
        QueryOf::SessionById { user_id: user.id, session_id },
        TaskOf::Session(errand),
        after,
        response,
        (MAX_QUERIES - 2) as nat,
    );
}

/// Listing a session of one's own gives its key material, and changes nothing.
pub proof fn law_list_attrs(
    before: Store,
    key: Seq<char>,
    user: UserView,
    session: SessionView,
    after: Store,
    response: ResponseView,
)
    requires
        before.sole_owner(user),
        presents(key, user),
        before.sole_session(session),
        session.user_id == user.id,
        crate::store::handled(
            before,
            crate::laws::guarded(
                key,
                GuardedCallOf::ListAttrs((ListAttrMsgOf { session_id: session.session_id })),
            ),
            after,
            response,
        ),
    ensures
        after == before,
        response == ResponseOf::Text(session.key_material),
{
    let call = GuardedCallOf::ListAttrs((ListAttrMsgOf { session_id: session.session_id }));
    lemma_let_in(before, key, user, call, after, response);
    lemma_errand(before, key, user, session.session_id, ErrandOf::ListAttrs, after, response);
}

/// The session identifier in a call that uses a session.
pub open spec fn session_used(call: GuardedCallView) -> Option<Seq<char>> {
    match call {
        GuardedCallOf::Encrypt(msg) => Some(msg.session_id),
        GuardedCallOf::Decrypt(msg) => Some(msg.session_id),
        GuardedCallOf::ListAttrs(msg) => Some(msg.session_id),
        _ => None,
    }
}

/// Nobody can use a session of somebody else: a call with the identifier of a
/// session that the user does not have fails, whoever has it, and changes
/// nothing.
pub proof fn law_sessions_are_private(
    before: Store,
    key: Seq<char>,
    user: UserView,
    call: GuardedCallView,
    after: Store,
    response: ResponseView,
)
    requires
        before.sole_owner(user),
        presents(key, user),
        session_used(call) matches Some(session_id) && !before.has_session_id(
            user.id,
            session_id,
        ),
        crate::store::handled(before, crate::laws::guarded(key, call), after, response),
    ensures
        after == before,
        response == ResponseOf::<Seq<char>>::Failed(
            if call matches GuardedCallOf::Decrypt(msg) && crate::abe::ciphertext_parts(
                msg.ct,
            ) is None {
                Fault::MalformedCiphertext
            } else {
                Fault::NoSuchSession
            },
        ),
{
    lemma_let_in(before, key, user, call, after, response);
    match call {
        GuardedCallOf::Encrypt(msg) => {
            lemma_errand(
                before,
                key,
                user,
                msg.session_id,
                ErrandOf::Encrypt(msg),
                after,
                response,
            );
        },
        GuardedCallOf::Decrypt(msg) => {
            if crate::abe::ciphertext_parts(msg.ct) is Some {
                lemma_errand(
                    before,
                    key,
                    user,
                    msg.session_id,
                    ErrandOf::Decrypt(msg),
                    after,
                    response,
                );
            }
        },
        GuardedCallOf::ListAttrs(msg) => {
            lemma_errand(
                before,
                key,
                user,
                msg.session_id,
                ErrandOf::ListAttrs,
                after,
                response,
            );
        },
        _ => {},
    }
}

/// `session` is a session for the user with keys for the attributes, made of the
/// keys in the two files.
pub open spec fn new_session(
    store: Store,
    user: UserView,
    attributes: Seq<Seq<char>>,
    session: SessionView,
) -> bool {
    &&& session.user_id == user.id
    &&& !session.is_initialized
    &&& session.scheme == "bsw"@
    &&& exists|number: u64|
        session.session_id == #[trigger] crate::text::decimal(number as nat)
            && crate::random::number_drawn(Some(number))
    &&& crate::json::parsed_strings(session.key_material) matches Some(material)
        && holds_keys(store, attributes, material)
}

/// `material` holds the keys in the two files, and a secret key that was issued
/// under them for the attributes.
pub open spec fn holds_keys(
    store: Store,
    attributes: Seq<Seq<char>>,
    material: Seq<Seq<char>>,
) -> bool {
    &&& store.public_file matches Ok(public_text)
    &&& store.master_file matches Ok(master_text)
    &&& crate::abe::printed_public_key(public_text) matches Some(public_key)
    &&& crate::abe::printed_master_key(master_text) matches Some(master_key)
    &&& crate::keys::key_material(public_key, master_key, attributes, material)
    &&& crate::abe::matching_keys(public_text, master_text) ==> crate::abe::matching_keys(
        public_key,
        master_key,
    ) && crate::abe::sealing_public_key(public_key)
}

/// Why a set-up fails for the attributes, by what is in the two files.
pub open spec fn setup_failure(store: Store, attributes: Seq<Seq<char>>) -> Option<ResponseView> {
    match store.master_file {
        Err(reason) => Some(
            ResponseOf::BadRequest("Failure to create keys msk failure: "@ + reason),
        ),
        Ok(master_text) => match crate::abe::printed_master_key(master_text) {
            None => Some(ResponseOf::Failed(Fault::MalformedKey)),
            Some(_) => match store.public_file {
                Err(reason) => Some(
                    ResponseOf::BadRequest("Failure to create keys pk failure: "@ + reason),
                ),
                Ok(public_text) => if crate::abe::printed_public_key(public_text) is None {
                    Some(ResponseOf::Failed(Fault::MalformedKey))
                } else if !crate::abe::usable_master_key(master_text)
                    || !crate::abe::issuing_public_key(public_text) {
                    Some(ResponseOf::Failed(Fault::UnsoundKey))
                } else if attributes.len() == 0 {
                    Some(ResponseOf::Failed(Fault::NoAttributes))
                } else {
                    None
                },
            },
        },
    }
}

/// With the files of a server that was initialized, a set-up for any attributes
/// at all does not fail for want of keys.
pub proof fn law_initialized_servers_set_up(
    store: Store,
    public_key: Seq<char>,
    master_key: Seq<char>,
    attributes: Seq<Seq<char>>,
)
    requires
        crate::abe::issuing_public_key(public_key),
        crate::abe::usable_master_key(master_key),
        store.public_file == Ok::<Seq<char>, Seq<char>>(public_key),
        store.master_file == Ok::<Seq<char>, Seq<char>>(master_key),
        attributes.len() > 0,
    ensures
        setup_failure(store, attributes) is None,
{
}

/// The response is the identifier of a session of the user under the scheme.
pub open spec fn names_session(
    store: Store,
    user_id: i32,
    scheme: Seq<char>,
    response: ResponseView,
) -> bool {
    exists|i: int|
        {
            &&& 0 <= i < store.sessions.len()
            &&& (#[trigger] store.sessions[i]).user_id == user_id
            &&& store.sessions[i].scheme == scheme
            &&& response == ResponseOf::Text(store.sessions[i].session_id)
        }
}

/// Setting up gives the identifier of a session that the user has under the scheme
/// that is asked for, and changes nothing, where there is one, whatever the
/// attributes and the key files are. Else it does the same for a session under
/// `bsw`. Else it adds one session under `bsw` for the user, with keys for the
/// attributes, and gives its identifier, or says why it does not and changes
/// nothing. Nobody gets a second session under one scheme.
pub proof fn law_setup(
    before: Store,
    key: Seq<char>,
    user: UserView,
    msg: SetupMsgOf<Seq<char>, Seq<Seq<char>>>,
    after: Store,
    response: ResponseView,
)
    requires
        before.well_formed(),
        before.sole_owner(user),
        presents(key, user),
        crate::store::handled(
            before,
            crate::laws::guarded(key, GuardedCallOf::Setup(msg)),
            after,
            response,
        ),
    ensures
        before.has_session(user.id, msg.scheme) ==> after == before && names_session(
            before,
            user.id,
            msg.scheme,
            response,
        ),
        !before.has_session(user.id, msg.scheme) && before.has_session(user.id, "bsw"@) ==> after
            == before && names_session(before, user.id, "bsw"@, response),
        !before.has_session(user.id, msg.scheme) && !before.has_session(user.id, "bsw"@)
            ==> match setup_failure(before, msg.attributes) {
            Some(failure) => after == before && response == failure,
            None => {
                ||| after == before && crate::random::number_drawn(None) && response
                    == ResponseOf::<Seq<char>>::Failed(Fault::NoRandomness)
                ||| after == before && response == ResponseOf::<Seq<char>>::Failed(
                    Fault::SessionNotStored,
                )
                ||| {
                    &&& after.sessions.len() == before.sessions.len() + 1
                    &&& after == before.with_session(after.sessions.last())
                    &&& new_session(before, user, msg.attributes, after.sessions.last())
                    &&& response == ResponseOf::Text(after.sessions.last().session_id)
                }
            },
        },
        after.well_formed(),
        before.one_session_per_scheme() ==> after.one_session_per_scheme(),
{
    lemma_let_in(before, key, user, GuardedCallOf::Setup(msg), after, response);
    lemma_setup(before, key, user, msg, after, response);
}

/// The run of a set-up that was let in.
proof fn lemma_setup(
    before: Store,
    key: Seq<char>,
    user: UserView,
    msg: SetupMsgOf<Seq<char>, Seq<Seq<char>>>,
    after: Store,
    response: ResponseView,
)
    requires
        before.well_formed(),
        before.sole_owner(user),
        crate::auth::bare_key(key) == user.api_key,
        crate::store::runs(
            before,
            crate::server::admitted(key, GuardedCallOf::Setup(msg)),
            after,
            response,
            (MAX_QUERIES - 1) as nat,
        ),
    ensures
        before.has_session(user.id, msg.scheme) ==> after == before && names_session(
            before,
            user.id,
            msg.scheme,
            response,
        ),
        !before.has_session(user.id, msg.scheme) && before.has_session(user.id, "bsw"@) ==> after
            == before && names_session(before, user.id, "bsw"@, response),
        !before.has_session(user.id, msg.scheme) && !before.has_session(user.id, "bsw"@)
            ==> match setup_failure(before, msg.attributes) {
            Some(failure) => after == before && response == failure,
            None => {
                ||| after == before && crate::random::number_drawn(None) && response
                    == ResponseOf::<Seq<char>>::Failed(Fault::NoRandomness)
                ||| after == before && response == ResponseOf::<Seq<char>>::Failed(
                    Fault::SessionNotStored,
                )
                ||| {
                    &&& after.sessions.len() == before.sessions.len() + 1
                    &&& after == before.with_session(after.sessions.last())
                    &&& new_session(before, user, msg.attributes, after.sessions.last())
                    &&& response == ResponseOf::Text(after.sessions.last().session_id)
                }
            },
        },
        after.well_formed(),
        before.one_session_per_scheme() ==> after.one_session_per_scheme(),
{
    let owner = QueryOf::UserByApiKey(crate::auth::bare_key(key));
    let turn1 = crate::laws::lemma_turn(
        before,
        owner,
        TaskOf::SetupUser { key, msg },
        after,
        response,
        (MAX_QUERIES - 1) as nat,
    );
    let username = user.username;
    let turn2 = crate::laws::lemma_turn(
        before,
        owner,
        TaskOf::SetupOwner { username, msg },
        after,
        response,
        (MAX_QUERIES - 2) as nat,
    );
    let turn3 = crate::laws::lemma_turn(
        before,
        QueryOf::SessionByScheme { user_id: user.id, scheme: msg.scheme },
        TaskOf::SetupAsked { username, user_id: user.id, msg },
        after,
        response,
        (MAX_QUERIES - 3) as nat,
    );
    if let ReplyOf::Session(Some(session)) = turn3.reply {
        lemma_names_session(before, session);
    } else if msg.scheme == "bsw"@ {
        lemma_new_session(
            before,
            user,
            msg.attributes,
            after,
            response,
            (MAX_QUERIES - 4) as nat,
        );
    } else {
        let turn4 = crate::laws::lemma_turn(
            before,
            QueryOf::SessionByScheme { user_id: user.id, scheme: "bsw"@ },
            TaskOf::SetupSession { username, attributes: msg.attributes },
            after,
            response,
            (MAX_QUERIES - 4) as nat,
        );
        if let ReplyOf::Session(Some(session)) = turn4.reply {
            lemma_names_session(before, session);
        } else {
            lemma_new_session(
                before,
                user,
                msg.attributes,
                after,
                response,
                (MAX_QUERIES - 5) as nat,
            );
        }
    }
    if before.one_session_per_scheme() && after != before {
        lemma_still_one(before, after.sessions.last());
    }
}

/// The identifier of a session names it.
proof fn lemma_names_session(store: Store, session: SessionView)
    requires
        store.sessions.contains(session),
    ensures
        store.has_session(session.user_id, session.scheme),
        names_session(
            store,
            session.user_id,
            session.scheme,
            ResponseOf::Text(session.session_id),
        ),
{
    let i = choose|i: int| 0 <= i < store.sessions.len() && store.sessions[i] == session;
    assert(store.sessions[i].user_id == session.user_id);
}

/// A session of a user who has none under its scheme leaves everybody with one
/// session per scheme.
proof fn lemma_still_one(before: Store, session: SessionView)
    requires
        before.one_session_per_scheme(),
        !before.has_session(session.user_id, session.scheme),
    ensures
        before.with_session(session).one_session_per_scheme(),
{
    let after = before.with_session(session);
    assert forall|i: int, j: int|
        0 <= i < j < after.sessions.len() && after.sessions[i].user_id
            == after.sessions[j].user_id implies (#[trigger] after.sessions[i]).scheme != (
    #[trigger] after.sessions[j]).scheme by {
        assert(after.sessions[i] == before.sessions[i]);
    }
}

/// Whatever is requested, nobody gets a second session under one scheme, where no
/// two users have one API key.
pub proof fn law_one_session_per_scheme(
    before: Store,
    request: RequestView,
    after: Store,
    response: ResponseView,
)
    requires
        before.well_formed(),
        before.distinct_keys(),
        before.one_session_per_scheme(),
        crate::store::handled(before, request, after, response),
    ensures
        after.one_session_per_scheme(),
{
    crate::laws::law_what_requests_change(before, request, after, response);
    if let CallOf::Guarded(GuardedCallOf::Setup(msg)) = request.call {
        let call = GuardedCallOf::Setup(msg);
        if request.authorization.len() == 1 {
            let key = request.authorization[0];
            crate::laws::lemma_guard(before, request.authorization, call, after, response);
            if before.has_key(crate::auth::presented_key(key)) {
                let turn = crate::laws::lemma_turn(
                    before,
                    QueryOf::UserByApiKey(crate::auth::bare_key(key)),
                    TaskOf::SetupUser { key, msg },
                    after,
                    response,
                    (MAX_QUERIES - 1) as nat,
                );
                if let ReplyOf::User(Some(user)) = turn.reply {
                    assert(before.sole_owner(user));
                    lemma_setup(before, key, user, msg, after, response);
                }
            }
        } else {
            crate::laws::law_refused(before, request.authorization, call, after, response);
        }
    }
}

/// What a set-up does once it is known that there is no session yet.
proof fn lemma_new_session(
    before: Store,
    user: UserView,
    attributes: Seq<Seq<char>>,
    after: Store,
    response: ResponseView,
    queries: nat,
)
    requires
        before.well_formed(),
        before.users.contains(user),
        crate::store::runs(
            before,
            crate::server::ask(
                QueryOf::ReadFile(KeyFile::Master),
                TaskOf::SetupMaster { username: user.username, attributes },
            ),
            after,
            response,
            queries,
        ),
    ensures
        match setup_failure(before, attributes) {
            Some(failure) => after == before && response == failure,
            None => {
                ||| after == before && crate::random::number_drawn(None) && response
                    == ResponseOf::<Seq<char>>::Failed(Fault::NoRandomness)
                ||| after == before && response == ResponseOf::<Seq<char>>::Failed(
                    Fault::SessionNotStored,
                )
                ||| {
                    &&& after.sessions.len() == before.sessions.len() + 1
                    &&& after == before.with_session(after.sessions.last())
                    &&& new_session(before, user, attributes, after.sessions.last())
                    &&& response == ResponseOf::Text(after.sessions.last().session_id)
                }
            },
        },
        after.well_formed(),
{
    let username = user.username;
    let turn4 = crate::laws::lemma_turn(
        before,
        QueryOf::ReadFile(KeyFile::Master),
        TaskOf::SetupMaster { username, attributes },
        after,
        response,
        queries,
    );
    if let StepOf::Ask(query5, task5) = turn4.step {
        let turn5 = crate::laws::lemma_turn(
            before,
            query5,
            task5,
            after,
            response,
            (queries - 1) as nat,
        );
        if let StepOf::Ask(query6, task6) = turn5.step {
            let turn6 = crate::laws::lemma_turn(
                before,
                query6,
                task6,
                after,
                response,
                (queries - 2) as nat,
            );
            assert(turn6.reply == ReplyOf::<Seq<char>>::User(Some(user)));
            if let StepOf::Ask(query7, task7) = turn6.step {
                let turn7 = crate::laws::lemma_turn(
                    before,
                    query7,
                    task7,
                    after,
                    response,
                    (queries - 3) as nat,
                );
            }
        }
    }
}

/// The scheme under which a set-up that asks for `scheme` gives a session.
pub open spec fn scheme_given(store: Store, user_id: i32, scheme: Seq<char>) -> Seq<char> {
    if store.has_session(user_id, scheme) {
        scheme
    } else {
        "bsw"@
    }
}

/// Setting up again gives the same session as the first time, and changes
/// nothing, whatever attributes are asked for and in whatever form the key is
/// presented, if the same scheme is asked for, or another that comes to the same.
pub proof fn law_setup_is_idempotent(
    before: Store,
    user: UserView,
    key: Seq<char>,
    msg: SetupMsgOf<Seq<char>, Seq<Seq<char>>>,
    middle: Store,
    id: Seq<char>,
    again_key: Seq<char>,
    again: SetupMsgOf<Seq<char>, Seq<Seq<char>>>,
    after: Store,
    response: ResponseView,
)
    requires
        before.well_formed(),
        before.one_session_per_scheme(),
        before.sole_owner(user),
        presents(key, user),
        presents(again_key, user),
        scheme_given(before, user.id, msg.scheme) == scheme_given(before, user.id, again.scheme),
        crate::store::handled(
            before,
            crate::laws::guarded(key, GuardedCallOf::Setup(msg)),
            middle,
            ResponseOf::Text(id),
        ),
        crate::store::handled(
            middle,
            crate::laws::guarded(again_key, GuardedCallOf::Setup(again)),
            after,
            response,
        ),
    ensures
        after == middle,
        response == ResponseOf::Text(id),
{
    law_setup(before, key, user, msg, middle, ResponseOf::Text(id));
    let given = scheme_given(before, user.id, msg.scheme);
    if middle != before {
        lemma_names_session(middle, middle.sessions.last());
        if again.scheme != "bsw"@ {
            lemma_one_more(before, middle, user.id, again.scheme);
        }
    }
    assert(names_session(middle, user.id, given, ResponseOf::Text(id)));
    let i = choose|i: int|
        {
            &&& 0 <= i < middle.sessions.len()
            &&& (#[trigger] middle.sessions[i]).user_id == user.id
            &&& middle.sessions[i].scheme == given
            &&& ResponseOf::Text(id) == ResponseOf::Text(middle.sessions[i].session_id)
        };
    assert(middle.has_session(user.id, given));
    law_setup(middle, again_key, user, again, after, response);
    assert(names_session(middle, user.id, given, response));
    let k = choose|k: int|
        {
            &&& 0 <= k < middle.sessions.len()
            &&& (#[trigger] middle.sessions[k]).user_id == user.id
            &&& middle.sessions[k].scheme == given
            &&& response == ResponseOf::Text(middle.sessions[k].session_id)
        };
    assert(i == k);
}

/// One more session gives the user a session under no other scheme than its own.
proof fn lemma_one_more(before: Store, after: Store, user_id: i32, scheme: Seq<char>)
    requires
        after.sessions.len() == before.sessions.len() + 1,
        after == before.with_session(after.sessions.last()),
        !before.has_session(user_id, scheme),
        after.sessions.last().scheme != scheme,
    ensures
        !after.has_session(user_id, scheme),
{
    if after.has_session(user_id, scheme) {
        let i = choose|i: int|
            0 <= i < after.sessions.len() && (#[trigger] after.sessions[i]).user_id == user_id
                && after.sessions[i].scheme == scheme;
        assert(before.sessions[i] == after.sessions[i]);
    }
}

/// A key names the same session with and without the word `Bearer`: setting up
/// with it in its other form gives the session of the first set-up, and changes
/// nothing.
pub proof fn law_setup_with_and_without_bearer(
    before: Store,
    user: UserView,
    msg: SetupMsgOf<Seq<char>, Seq<Seq<char>>>,
    middle: Store,
    id: Seq<char>,
    after: Store,
    response: ResponseView,
)
    requires
        before.well_formed(),
        before.one_session_per_scheme(),
        before.sole_owner(user),
        !crate::text::occurs("Bearer "@, user.api_key),
        crate::store::handled(
            before,
            crate::laws::guarded(user.api_key, GuardedCallOf::Setup(msg)),
            middle,
            ResponseOf::Text(id),
        ),
        crate::store::handled(
            middle,
            crate::laws::guarded("Bearer "@ + user.api_key, GuardedCallOf::Setup(msg)),
            after,
            response,
        ),
    ensures
        after == middle,
        response == ResponseOf::Text(id),
{
    crate::auth::law_bearer_makes_no_difference(user.api_key);
    law_setup_is_idempotent(
        before,
        user,
        user.api_key,
        msg,
        middle,
        id,
        "Bearer "@ + user.api_key,
        msg,
        after,
        response,
    );
}

/// Encrypting in a session of one's own changes nothing, and gives a ciphertext
/// for the policy under the public key of the session, or fails.
pub proof fn law_encrypt(
    before: Store,
    key: Seq<char>,
    user: UserView,
    session: SessionView,
    msg: EncMessageOf<Seq<char>>,
    after: Store,
    response: ResponseView,
)
    requires
        before.sole_owner(user),
        presents(key, user),
        before.sole_session(session),
        session.user_id == user.id,
        session.session_id == msg.session_id,
        crate::store::handled(
            before,
            crate::laws::guarded(key, GuardedCallOf::Encrypt(msg)),
            after,
            response,
        ),
    ensures
        after == before,
        crate::server::errand_done(ErrandOf::Encrypt(msg), session, response),
{
    lemma_let_in(before, key, user, GuardedCallOf::Encrypt(msg), after, response);
    lemma_errand(before, key, user, msg.session_id, ErrandOf::Encrypt(msg), after, response);
}

/// The keys in the two files are of one setup.
pub open spec fn keys_match(store: Store) -> bool {
    &&& store.public_file matches Ok(public_text)
    &&& store.master_file matches Ok(master_text)
    &&& crate::abe::matching_keys(public_text, master_text)
}

/// Encrypting works in a session that was set up, for every policy that can be
/// read and is not nested too deep, and every text that is not too long.
pub proof fn law_encrypting_works(
    before: Store,
    key: Seq<char>,
    user: UserView,
    attributes: Seq<Seq<char>>,
    session: SessionView,
    msg: EncMessageOf<Seq<char>>,
    after: Store,
    response: ResponseView,
)
    requires
        before.sole_owner(user),
        presents(key, user),
        before.sole_session(session),
        new_session(before, user, attributes, session),
        session.session_id == msg.session_id,
        keys_match(before),
        crate::policy_text::policy_of(msg.policy) matches Some(policy) && policy.height()
            <= crate::policy_text::SURE_HEIGHT,
        vstd::utf8::encode_utf8(msg.plaintext).len() <= crate::abe::MAX_PLAINTEXT,
        crate::store::handled(
            before,
            crate::laws::guarded(key, GuardedCallOf::Encrypt(msg)),
            after,
            response,
        ),
    ensures
        after == before,
        response matches ResponseOf::Json(ct) && crate::abe::ciphertext_parts(ct) is Some,
{
    law_encrypt(before, key, user, session, msg, after, response);
}

/// Decrypting in a session of one's own changes nothing, and gives what the
/// secret key of the session makes of the ciphertext.
pub proof fn law_decrypt(
    before: Store,
    key: Seq<char>,
    user: UserView,
    session: SessionView,
    msg: DecMessageOf<Seq<char>>,
    after: Store,
    response: ResponseView,
)
    requires
        before.sole_owner(user),
        presents(key, user),
        before.sole_session(session),
        session.user_id == user.id,
        session.session_id == msg.session_id,
        crate::store::handled(
            before,
            crate::laws::guarded(key, GuardedCallOf::Decrypt(msg)),
            after,
            response,
        ),
    ensures
        after == before,
        crate::server::errand_done(ErrandOf::Decrypt(msg), session, response),
{
    lemma_let_in(before, key, user, GuardedCallOf::Decrypt(msg), after, response);
    if crate::abe::ciphertext_parts(msg.ct) is Some {
        lemma_errand(before, key, user, msg.session_id, ErrandOf::Decrypt(msg), after, response);
    }
}

/// What a holder of the attributes gets of a text that was encrypted for the
/// policy: nothing, if the attributes do not meet it, and else the text. Two things
/// come between. Where `rabe` comes across a conjunction or disjunction of fewer
/// than two parts, the ciphertext is refused. Where the policy is nested very deep,
/// it may stay closed. And nothing is said of what comes out where the policy is
/// met but names one of the attributes twice: `rabe` counts such an attribute twice.
pub open spec fn delivered(
    policy: Policy,
    attributes: Seq<Seq<char>>,
    plaintext: Seq<char>,
    response: ResponseView,
) -> bool {
    if !policy.met_by(attributes) {
        response == ResponseOf::<Seq<char>>::Failed(Fault::NotOpened)
    } else if policy.visit(attributes) is Stuck {
        response == ResponseOf::<Seq<char>>::Failed(Fault::UnopenableCiphertext)
    } else {
        crate::abe::held_once(policy.names(), attributes) ==> {
            ||| response == ResponseOf::Json(plaintext)
            ||| policy.height() > crate::policy_text::SURE_HEIGHT && response == ResponseOf::<
                Seq<char>,
            >::Failed(Fault::NotOpened)
        }
    }
}

/// What one user encrypts for a policy, another can decrypt if the attributes for
/// which their session was set up meet the policy, and else cannot.
pub proof fn law_decryption_undoes_encryption(
    before: Store,
    sender_key: Seq<char>,
    sender: UserView,
    sender_attributes: Seq<Seq<char>>,
    sender_session: SessionView,
    msg: EncMessageOf<Seq<char>>,
    middle: Store,
    ct: Seq<char>,
    key: Seq<char>,
    user: UserView,
    session: SessionView,
    attributes: Seq<Seq<char>>,
    after: Store,
    response: ResponseView,
)
    requires
        before.sole_owner(sender),
        presents(sender_key, sender),
        before.sole_session(sender_session),
        new_session(before, sender, sender_attributes, sender_session),
        sender_session.session_id == msg.session_id,
        before.sole_owner(user),
        presents(key, user),
        before.sole_session(session),
        new_session(before, user, attributes, session),
        keys_match(before),
        crate::store::handled(
            before,
            crate::laws::guarded(sender_key, GuardedCallOf::Encrypt(msg)),
            middle,
            ResponseOf::Json(ct),
        ),
        crate::store::handled(
            middle,
            crate::laws::guarded(
                key,
                GuardedCallOf::Decrypt((DecMessageOf { ct, session_id: session.session_id })),
            ),
            after,
            response,
        ),
    ensures
        after == before,
        crate::policy_text::policy_of(msg.policy) matches Some(policy) && delivered(
            policy,
            attributes,
            msg.plaintext,
            response,
        ),
{
    law_encrypt(
        before,
        sender_key,
        sender,
        sender_session,
        msg,
        middle,
        ResponseOf::Json(ct),
    );
    let dec = DecMessageOf { ct, session_id: session.session_id };
    law_decrypt(before, key, user, session, dec, after, response);
    let policy = crate::policy_text::policy_of(msg.policy)->0;
    let bytes = vstd::utf8::encode_utf8(msg.plaintext);
    let sent = crate::json::parsed_strings(sender_session.key_material)->0;
    let material = crate::json::parsed_strings(session.key_material)->0;
    assert(crate::abe::sealed(sent[0], policy, bytes, ct));
    assert(crate::abe::issued_key(sent[0], material[1], attributes, material[2]));
    crate::policy_laws::law_rendering_keeps_the_policy(msg.policy);
    crate::policy_laws::law_attributes_are_found_where_the_policy_is_met(policy, attributes);
    let (root, components) = crate::abe::secret_key_elements(material[2])->0;
    let (point, third, sealed_for) = crate::abe::ciphertext_elements(ct);
    assert forall|name: Seq<char>| #[trigger] crate::abe::sound_at(components, name) by {
        crate::abe::lemma_sound_at(components, name);
    }
    assert forall|name: Seq<char>| #[trigger] crate::abe::sound_at(sealed_for, name) by {
        crate::abe::lemma_sound_at(sealed_for, name);
    }
    vstd::utf8::encode_utf8_valid_utf8(msg.plaintext);
    vstd::utf8::encode_utf8_decode_utf8(msg.plaintext);
}

/// Who sets up a session can encrypt in it, for every policy that can be read and
/// is not nested too deep, and every text that is not too long, and decrypt the
/// ciphertext again if their attributes meet the policy.
pub proof fn law_set_up_encrypt_decrypt(
    before: Store,
    key: Seq<char>,
    user: UserView,
    setup: SetupMsgOf<Seq<char>, Seq<Seq<char>>>,
    ready: Store,
    id: Seq<char>,
    msg: EncMessageOf<Seq<char>>,
    policy: Policy,
    middle: Store,
    encrypted: ResponseView,
    after: Store,
    response: ResponseView,
)
    requires
        before.well_formed(),
        before.sole_owner(user),
        presents(key, user),
        keys_match(before),
        !before.has_session(user.id, setup.scheme),
        !before.has_session(user.id, "bsw"@),
        !before.has_session_id(user.id, id),
        msg.session_id == id,
        crate::policy_text::policy_of(msg.policy) == Some(policy),
        policy.height() <= crate::policy_text::SURE_HEIGHT,
        vstd::utf8::encode_utf8(msg.plaintext).len() <= crate::abe::MAX_PLAINTEXT,
        crate::store::handled(
            before,
            crate::laws::guarded(key, GuardedCallOf::Setup(setup)),
            ready,
            ResponseOf::Text(id),
        ),
        crate::store::handled(
            ready,
            crate::laws::guarded(key, GuardedCallOf::Encrypt(msg)),
            middle,
            encrypted,
        ),
        encrypted matches ResponseOf::Json(ct) ==> crate::store::handled(
            middle,
            crate::laws::guarded(
                key,
                GuardedCallOf::Decrypt((DecMessageOf { ct, session_id: id })),
            ),
            after,
            response,
        ),
    ensures
        encrypted is Json,
        after == ready,
        delivered(policy, setup.attributes, msg.plaintext, response),
{
    law_setup(before, key, user, setup, ready, ResponseOf::Text(id));
    let session = ready.sessions.last();
    lemma_last_is_sole(before, ready, user, session);
    law_encrypting_works(
        ready,
        key,
        user,
        setup.attributes,
        session,
        msg,
        middle,
        encrypted,
    );
    let ct = encrypted->Json_0;
    law_decryption_undoes_encryption(
        ready,
        key,
        user,
        setup.attributes,
        session,
        msg,
        middle,
        ct,
        key,
        user,
        session,
        setup.attributes,
        after,
        response,
    );
}

/// A session with an identifier that its user had not had yet is the only one
/// with it.
proof fn lemma_last_is_sole(before: Store, after: Store, user: UserView, session: SessionView)
    requires
        after == before.with_session(session),
        session.user_id == user.id,
        !before.has_session_id(user.id, session.session_id),
    ensures
        after.sole_session(session),
{
    assert(after.sessions[after.sessions.len() - 1] == session);
    assert forall|i: int|
        0 <= i < after.sessions.len() && (#[trigger] after.sessions[i]).user_id == session.user_id
            && after.sessions[i].session_id == session.session_id implies after.sessions[i]
        == session by {
        if i < before.sessions.len() {
            assert(before.sessions[i] == after.sessions[i]);
        }
    }
}

/// The public key that the server sends is the first entry of the key material
/// of every session that was set up with the same files. Sending it changes
/// nothing.
pub proof fn law_pk(
    before: Store,
    key: Seq<char>,
    user: UserView,
    after: Store,
    response: ResponseView,
)
    requires
        before.users.contains(user),
        presents(key, user),
        crate::store::handled(
            before,
            crate::laws::guarded(key, GuardedCallOf::Pk),
            after,
            response,
        ),
    ensures
        after == before,
        response == crate::api::public_key_response(before.public_file),
        forall|attributes: Seq<Seq<char>>, material: Seq<Seq<char>>| #[trigger]
            holds_keys(before, attributes, material) ==> response == ResponseOf::Text(material[0]),
{
    lemma_let_in(before, key, user, GuardedCallOf::Pk, after, response);
    let turn = crate::laws::lemma_turn(
        before,
        QueryOf::ReadFile(KeyFile::Public),
        TaskOf::Pk,
        after,
        response,
        (MAX_QUERIES - 1) as nat,
    );
}

} // verus!
