//! What holds of the server as a whole, over one request and over several.
use crate::messages::{Fault, TokenRequestOf};
use crate::protocol::{
    CallOf, GuardedCallOf, GuardedCallView, QueryOf, QueryView, ReplyView, RequestOf, RequestView,
    ResponseOf, ResponseView, Status, StepOf, StepView, TaskOf, TaskView,
};
use crate::schema::UserView;
use crate::store::{Store, Turn, MAX_QUERIES};
use vstd::prelude::*;

verus! {

/// The most queries that the work on a task still takes.
pub open spec fn remaining(task: TaskView) -> nat {
    match task {
        TaskOf::Login(_) => 1,
        TaskOf::AddUser(_) => 2,
        TaskOf::UserAdded => 1,
        TaskOf::Guard { .. } => 9,
        TaskOf::Pk => 1,
        TaskOf::Owner { .. } => 2,
        TaskOf::Session(_) => 1,
        TaskOf::SetupUser { .. } => 8,
        TaskOf::SetupOwner { .. } => 7,
        TaskOf::SetupAsked { .. } => 6,
        TaskOf::SetupSession { .. } => 5,
        TaskOf::SetupMaster { .. } => 4,
        TaskOf::SetupPublic { .. } => 3,
        TaskOf::SetupCreate { .. } => 2,
        TaskOf::SetupStored { .. } => 1,
    }
}

/// Every request is answered after a limited number of queries: each reply,
/// whatever it is, brings the work closer to its end.
pub proof fn law_every_request_ends(task: TaskView, reply: ReplyView, step: StepView)
    requires
        crate::server::resumed(task, reply, step),
    ensures
        step matches StepOf::Ask(_, next) ==> remaining(next) < remaining(task),
        remaining(task) <= MAX_QUERIES,
{
}

/// A request with one `Authorization` header, for a guarded call.
pub open spec fn guarded(key: Seq<char>, call: GuardedCallView) -> RequestView {
    RequestOf { authorization: seq![key], call: CallOf::Guarded(call) }
}

/// The turn that a run takes at a query.
pub proof fn lemma_turn(
    before: Store,
    query: QueryView,
    task: TaskView,
    after: Store,
    response: ResponseView,
    queries: nat,
) -> (turn: Turn)
    requires
        crate::store::runs(before, crate::server::ask(query, task), after, response, queries),
    ensures
        queries > 0,
        crate::store::answers(before, query, turn.reply, turn.store),
        crate::server::resumed(task, turn.reply, turn.step),
        crate::store::runs(turn.store, turn.step, after, response, (queries - 1) as nat),
{
    choose|turn: Turn|
        {
            &&& #[trigger] crate::store::answers(before, query, turn.reply, turn.store)
            &&& crate::server::resumed(task, turn.reply, turn.step)
            &&& crate::store::runs(
                turn.store,
                turn.step,
                after,
                response,
                (queries - 1) as nat,
            )
        }
}

/// Logging in changes nothing. A user of that name gets their token where the
/// password is theirs, and is turned away where it is not.
pub proof fn law_login(
    before: Store,
    authorization: Seq<Seq<char>>,
    msg: TokenRequestOf<Seq<char>>,
    after: Store,
    response: ResponseView,
    user: UserView,
)
    requires
        before.well_formed(),
        crate::store::handled(
            before,
            (RequestOf { authorization, call: CallOf::Login(msg) }),
            after,
            response,
        ),
        before.users.contains(user),
        user.username == msg.username,
    ensures
        after == before,
        response == (if msg.password == user.password {
            ResponseOf::Token(crate::api::token_of(user))
        } else {
            ResponseOf::BadRequest("Invalid"@)
        }),
{
    let turn = lemma_turn(
        before,
        QueryOf::UserByName(msg.username),
        TaskOf::Login(msg),
        after,
        response,
        MAX_QUERIES as nat,
    );
}

/// Logging in under a name that no user has fails and changes nothing.
pub proof fn law_login_of_nobody(
    before: Store,
    authorization: Seq<Seq<char>>,
    msg: TokenRequestOf<Seq<char>>,
    after: Store,
    response: ResponseView,
)
    requires
        crate::store::handled(
            before,
            (RequestOf { authorization, call: CallOf::Login(msg) }),
            after,
            response,
        ),
        !before.has_name(msg.username),
    ensures
        after == before,
        response == ResponseOf::<Seq<char>>::Failed(Fault::NoSuchUser),
{
    let turn = lemma_turn(
        before,
        QueryOf::UserByName(msg.username),
        TaskOf::Login(msg),
        after,
        response,
        MAX_QUERIES as nat,
    );
}

/// `row` is a row for the user in the message, with a generated API key.
pub open spec fn row_for(msg: crate::messages::UserOf<Seq<char>>, row: UserView) -> bool {
    &&& row.username == msg.username
    &&& row.password == msg.password
    &&& row.salt == crate::api::SALT
    &&& crate::random::uuid_text(row.api_key)
    &&& crate::random::key_drawn(row.api_key)
}

/// Adding a user either adds one row for them, at the end, or says why it does
/// not and changes nothing. A name that is taken is refused.
pub proof fn law_add_user(
    before: Store,
    authorization: Seq<Seq<char>>,
    msg: crate::messages::UserOf<Seq<char>>,
    after: Store,
    response: ResponseView,
)
    requires
        crate::store::handled(
            before,
            (RequestOf { authorization, call: CallOf::AddUser(msg) }),
            after,
            response,
        ),
    ensures
        before.has_name(msg.username) ==> after == before && response == ResponseOf::BadRequest(
            "Failure adding userpk failure: "@ + "User already exists"@,
        ),
        !before.has_name(msg.username) ==> {
            ||| after == before && response == ResponseOf::BadRequest(
                "Failure adding userpk failure: "@ + "Could not insert user"@,
            )
            ||| {
                &&& response == ResponseOf::<Seq<char>>::Accepted
                &&& after.users.len() == before.users.len() + 1
                &&& after == before.with_user(after.users.last())
                &&& row_for(msg, after.users.last())
            }
        },
        before.well_formed() ==> after.well_formed(),
{
    let request = RequestOf { authorization, call: CallOf::AddUser(msg) };
    let step = choose|step: StepView| #[trigger]
        crate::server::begun(request, step) && crate::store::runs(
            before,
            step,
            after,
            response,
            MAX_QUERIES as nat,
        );
    if let StepOf::Ask(query, task) = step {
        let turn = lemma_turn(before, query, task, after, response, MAX_QUERIES as nat);
        if let StepOf::Ask(query2, task2) = turn.step {
            let turn2 = lemma_turn(
                turn.store,
                query2,
                task2,
                after,
                response,
                (MAX_QUERIES - 1) as nat,
            );
        }
    }
}

/// A user who was added can log in with the name and the password they were
/// added with, gets a generated API key, and nobody gets in with another password.
pub proof fn law_added_users_can_log_in(
    before: Store,
    authorization: Seq<Seq<char>>,
    msg: crate::messages::UserOf<Seq<char>>,
    middle: Store,
    request: TokenRequestOf<Seq<char>>,
    after: Store,
    response: ResponseView,
)
    requires
        before.well_formed(),
        crate::store::handled(
            before,
            (RequestOf { authorization, call: CallOf::AddUser(msg) }),
            middle,
            ResponseOf::Accepted,
        ),
        crate::store::handled(
            middle,
            (RequestOf { authorization, call: CallOf::Login(request) }),
            after,
            response,
        ),
        request.username == msg.username,
    ensures
        after == middle,
        request.password == msg.password ==> {
            &&& response matches ResponseOf::Token(token)
            &&& crate::random::uuid_text(token.access_token)
            &&& token.token_type == "bearer"@
            &&& token.expires_in == crate::api::EXPIRES_IN
            &&& middle.has_key(token.access_token)
        },
        request.password != msg.password ==> response == ResponseOf::BadRequest("Invalid"@),
{
    law_add_user(before, authorization, msg, middle, ResponseOf::Accepted);
    let user = middle.users.last();
    assert(middle.users[middle.users.len() - 1] == user);
    law_login(middle, authorization, request, after, response, user);
}

/// A guarded call without a key, or with more than one, is refused as a bad
/// request, and one whose key no user has as unauthorized. Neither changes
/// anything.
pub proof fn law_refused(
    before: Store,
    authorization: Seq<Seq<char>>,
    call: GuardedCallView,
    after: Store,
    response: ResponseView,
)
    requires
        crate::store::handled(
            before,
            (RequestOf { authorization, call: CallOf::Guarded(call) }),
            after,
            response,
        ),
    ensures
        authorization.len() != 1 ==> after == before && response == ResponseOf::<
            Seq<char>,
        >::Refused(Status::BadRequest),
        authorization.len() == 1 && !before.has_key(
            crate::auth::presented_key(authorization[0]),
        ) ==> after == before && response == ResponseOf::<Seq<char>>::Refused(Status::Unauthorized),
        authorization.len() == 1 && before.has_key(crate::auth::presented_key(authorization[0]))
            ==> !(response is Refused),
{
    if authorization.len() == 1 {
        lemma_guard(before, authorization, call, after, response);
        if before.has_key(crate::auth::presented_key(authorization[0])) {
            lemma_not_refused(
                before,
                crate::server::admitted(authorization[0], call),
                after,
                response,
                (MAX_QUERIES - 1) as nat,
            );
        }
    }
}

/// A guarded call with a key that some user has goes on as an admitted one.
pub proof fn lemma_guard(
    before: Store,
    authorization: Seq<Seq<char>>,
    call: GuardedCallView,
    after: Store,
    response: ResponseView,
)
    requires
        crate::store::handled(
            before,
            (RequestOf { authorization, call: CallOf::Guarded(call) }),
            after,
            response,
        ),
        authorization.len() == 1,
    ensures
        before.has_key(crate::auth::presented_key(authorization[0])) ==> crate::store::runs(
            before,
            crate::server::admitted(authorization[0], call),
            after,
            response,
            (MAX_QUERIES - 1) as nat,
        ),
        !before.has_key(crate::auth::presented_key(authorization[0])) ==> after == before
            && response == ResponseOf::<Seq<char>>::Refused(Status::Unauthorized),
{
    let key = authorization[0];
    let turn = lemma_turn(
        before,
        QueryOf::UserByApiKey(crate::auth::presented_key(key)),
        TaskOf::Guard { key, call },
        after,
        response,
        MAX_QUERIES as nat,
    );
}

/// A task behind the guard.
spec fn inside(step: StepView) -> bool {
    match step {
        StepOf::Ask(_, task) => !(task is Guard),
        StepOf::Done(response) => !(response is Refused),
    }
}

/// What runs behind the guard is not refused.
proof fn lemma_not_refused(
    before: Store,
    step: StepView,
    after: Store,
    response: ResponseView,
    queries: nat,
)
    requires
        crate::store::runs(before, step, after, response, queries),
        inside(step),
    ensures
        !(response is Refused),
    decreases queries,
{
    if let StepOf::Ask(query, task) = step {
        let turn = lemma_turn(before, query, task, after, response, queries);
        assert(inside(turn.step));
        lemma_not_refused(turn.store, turn.step, after, response, (queries - 1) as nat);
    }
}

/// The step neither adds rows nor leads to one that does.
spec fn only_reads(step: StepView) -> bool {
    match step {
        StepOf::Done(_) => true,
        StepOf::Ask(query, task) => {
            &&& !(query is InsertUser)
            &&& !(query is InsertSession)
            &&& match task {
                TaskOf::Login(_) => true,
                TaskOf::Guard { call, .. } => !(call is Setup),
                TaskOf::Pk => true,
                TaskOf::Owner { .. } => true,
                TaskOf::Session(_) => true,
                _ => false,
            }
        },
    }
}

/// A run from a step that only reads changes nothing.
proof fn lemma_only_reads(
    before: Store,
    step: StepView,
    after: Store,
    response: ResponseView,
    queries: nat,
)
    requires
        crate::store::runs(before, step, after, response, queries),
        only_reads(step),
    ensures
        after == before,
    decreases queries,
{
    if let StepOf::Ask(query, task) = step {
        let turn = lemma_turn(before, query, task, after, response, queries);
        lemma_only_reads(turn.store, turn.step, after, response, (queries - 1) as nat);
    }
}

/// The step belongs to a set-up that has not added its session yet.
spec fn sets_up(step: StepView) -> bool {
    match step {
        StepOf::Done(_) => true,
        StepOf::Ask(query, task) => match task {
            TaskOf::Guard { call, .. } => call is Setup && query is UserByApiKey,
            TaskOf::SetupUser { .. } => query is UserByApiKey,
            TaskOf::SetupOwner { .. } => query is UserByApiKey,
            TaskOf::SetupAsked { .. } => query is SessionByScheme,
            TaskOf::SetupSession { .. } => query is SessionByScheme,
            TaskOf::SetupMaster { .. } => query is ReadFile,
            TaskOf::SetupPublic { .. } => query is ReadFile,
            TaskOf::SetupCreate { .. } => query is UserByName,
            TaskOf::SetupStored { .. } => query is InsertSession,
            _ => false,
        },
    }
}

/// A run of a set-up adds one session at most, and nothing else.
proof fn lemma_sets_up(
    before: Store,
    step: StepView,
    after: Store,
    response: ResponseView,
    queries: nat,
)
    requires
        crate::store::runs(before, step, after, response, queries),
        sets_up(step),
    ensures
        after == before || (after.sessions.len() == before.sessions.len() + 1 && after
            == before.with_session(after.sessions.last())),
        before.well_formed() ==> after.well_formed(),
    decreases queries,
{
    if let StepOf::Ask(query, task) = step {
        let turn = lemma_turn(before, query, task, after, response, queries);
        if !(task is SetupStored) {
            lemma_sets_up(turn.store, turn.step, after, response, (queries - 1) as nat);
        }
    }
}

/// Only a call to add a user adds users, one at most, and only a call to set up
/// adds sessions, one at most. No other call changes anything, no row is changed
/// or lost, and the key files stay as they are.
pub proof fn law_what_requests_change(
    before: Store,
    request: RequestView,
    after: Store,
    response: ResponseView,
)
    requires
        crate::store::handled(before, request, after, response),
    ensures
        after == before || match request.call {
            CallOf::AddUser(_) => after.users.len() == before.users.len() + 1 && after
                == before.with_user(after.users.last()),
            CallOf::Guarded(GuardedCallOf::Setup(_)) => after.sessions.len()
                == before.sessions.len() + 1 && after == before.with_session(after.sessions.last()),
            _ => false,
        },
        before.well_formed() ==> after.well_formed(),
{
    let step = choose|step: StepView| #[trigger]
        crate::server::begun(request, step) && crate::store::runs(
            before,
            step,
            after,
            response,
            MAX_QUERIES as nat,
        );
    match request.call {
        CallOf::AddUser(msg) => {
            law_add_user(before, request.authorization, msg, after, response);
        },
        CallOf::Guarded(GuardedCallOf::Setup(_)) => {
            lemma_sets_up(before, step, after, response, MAX_QUERIES as nat);
        },
        _ => {
            lemma_only_reads(before, step, after, response, MAX_QUERIES as nat);
        },
    }
}

} // verus!
