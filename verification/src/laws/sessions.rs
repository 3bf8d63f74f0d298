//! Sessions and logins: what a login yields, how long it lasts, and how it
//! ends.

use vstd::prelude::*;
use crate::client::{reading, session_removal};
use crate::error::Error;
use crate::keys::{key_of, lemma_key_injective, Entity};
use crate::laws::takes_hash;
use crate::laws::users::registered;
use crate::machine::{
    planned, run, session_issue, OperationView, OutcomeView, ProgressView, Run, SESSION_SECONDS,
};
use crate::model::{Store, Value};
use crate::models::{field, password_matches, UserView};
use crate::ops::login;
use crate::protocol::{record_of, CommandView, Text};

verus! {

/// The progress of looking up the user of the session under `session_key`.
pub open spec fn session_lookup(session_key: Text) -> ProgressView {
    reading(CommandView::GetField { key: session_key, field: "user_id"@ })
}

/// A revoked session is gone: after `delete_session`, looking the session up
/// finds nothing, whatever the store held and whoever the user is.
pub proof fn law_revoked_session_is_not_found(store: Store, session_key: Text, user_id: Text)
    ensures
        ({
            let revoked = run(
                store,
                planned(session_removal(session_key, user_id), OutcomeView::Flag(true)),
            );
            &&& revoked.result == Ok::<OutcomeView, Error>(OutcomeView::Flag(true))
            &&& run(revoked.store, session_lookup(session_key)).result == Err::<
                OutcomeView,
                Error,
            >(Error::NotFound)
        }),
{
    reveal_with_fuel(run, 4);
    let steps = session_removal(session_key, user_id);
    assert(steps.drop_first() =~= seq![CommandView::Delete { key: session_key }]);
    assert(steps.drop_first().drop_first() =~= Seq::<CommandView>::empty());
}

/// Whether the session under `session_key` is bound to `user_id`.
pub open spec fn session_bound(store: Store, session_key: Text, user_id: Text) -> bool {
    &&& store.value(session_key) matches Some(Value::Hash(record))
    &&& field(record, "user_id"@) == Some(user_id)
}

/// Whether a login of the user `id` can end well with `token` at hand: the
/// user holds a session that is bound to them, or holds none and `token` can
/// take one.
pub open spec fn session_ready(store: Store, id: Text, token: Text) -> bool {
    match store.value(key_of(Entity::Session, id)) {
        None => token != id && takes_hash(store, key_of(Entity::Session, token)),
        Some(Value::Text(existing)) => session_bound(
            store,
            key_of(Entity::Session, existing),
            id,
        ),
        Some(_) => false,
    }
}

/// The token of the session that a login of the user `id` ends with: the one
/// the user holds, else `token`.
pub open spec fn session_token(store: Store, id: Text, token: Text) -> Text {
    match store.value(key_of(Entity::Session, id)) {
        Some(Value::Text(existing)) => existing,
        _ => token,
    }
}

/// A session that was issued lives for eight hours and no longer.
///
/// Until then the session resolves to its user and the user's pointer leads
/// to the token; from then on both are gone, with nothing swept. The token
/// must differ from the user id, and its key must not hold a text or a set.
pub proof fn law_session_lives_eight_hours(
    store: Store,
    user_id: Text,
    token: Text,
    seconds: nat,
)
    requires
        token != user_id,
        takes_hash(store, key_of(Entity::Session, token)),
    ensures
        ({
            let issued = run(
                store,
                planned(
                    session_issue(user_id, token),
                    OutcomeView::Text(key_of(Entity::Session, token)),
                ),
            );
            let later = issued.store.elapse(seconds);
            &&& issued.result == Ok::<OutcomeView, Error>(
                OutcomeView::Text(key_of(Entity::Session, token)),
            )
            &&& seconds < SESSION_SECONDS ==> {
                &&& session_bound(later, key_of(Entity::Session, token), user_id)
                &&& later.value(key_of(Entity::Session, user_id)) == Some(Value::Text(token))
                &&& run(later, session_lookup(key_of(Entity::Session, token))).result == Ok::<
                    OutcomeView,
                    Error,
                >(OutcomeView::Text(user_id))
            }
            &&& seconds >= SESSION_SECONDS ==> {
                &&& later.value(key_of(Entity::Session, token)) is None
                &&& later.value(key_of(Entity::Session, user_id)) is None
                &&& run(later, session_lookup(key_of(Entity::Session, token))).result == Err::<
                    OutcomeView,
                    Error,
                >(Error::NotFound)
            }
        }),
{
    reveal_with_fuel(run, 6);
    reveal_with_fuel(record_of, 2);
    lemma_key_injective(Entity::Session, token, Entity::Session, user_id);
    let steps = session_issue(user_id, token);
    let pointer = key_of(Entity::Session, user_id);
    let session = key_of(Entity::Session, token);
    let fields = seq![("user_id"@, user_id)];
    assert(steps.drop_first() =~= seq![
        CommandView::Expire { key: pointer, seconds: SESSION_SECONDS as int },
        CommandView::PutFields { key: session, fields },
        CommandView::Expire { key: session, seconds: SESSION_SECONDS as int },
    ]);
    assert(steps.drop_first().drop_first() =~= seq![
        CommandView::PutFields { key: session, fields },
        CommandView::Expire { key: session, seconds: SESSION_SECONDS as int },
    ]);
    assert(steps.drop_first().drop_first().drop_first() =~= seq![
        CommandView::Expire { key: session, seconds: SESSION_SECONDS as int },
    ]);
    assert(steps.drop_first().drop_first().drop_first().drop_first() =~= Seq::<
        CommandView,
    >::empty());
    assert(fields.drop_last() =~= Seq::<(Text, Text)>::empty());
    assert(record_of(fields) =~= Map::<Text, Text>::empty().insert("user_id"@, user_id));
}

/// The store after a session for `user_id` was issued under `token`.
#[verifier::opaque]
pub open spec fn issued(store: Store, user_id: Text, token: Text) -> Store {
    let steps = session_issue(user_id, token);
    store.after(steps[0]).after(steps[1]).after(steps[2]).after(steps[3])
}

/// Issuing a session ends well and leaves `issued` behind.
proof fn lemma_issue_runs(store: Store, user_id: Text, token: Text, outcome: OutcomeView)
    requires
        token != user_id,
        takes_hash(store, key_of(Entity::Session, token)),
    ensures
        run(store, planned(session_issue(user_id, token), outcome)) == (Run {
            result: Ok(outcome),
            store: issued(store, user_id, token),
        }),
{
    reveal(issued);
    reveal_with_fuel(run, 6);
    lemma_key_injective(Entity::Session, token, Entity::Session, user_id);
    let steps = session_issue(user_id, token);
    assert(steps.drop_first() =~= seq![steps[1], steps[2], steps[3]]);
    assert(steps.drop_first().drop_first() =~= seq![steps[2], steps[3]]);
    assert(steps.drop_first().drop_first().drop_first() =~= seq![steps[3]]);
    assert(steps.drop_first().drop_first().drop_first().drop_first() =~= Seq::<
        CommandView,
    >::empty());
}

/// What issuing a session leaves behind: the session is bound to the user,
/// the user's pointer leads to the token, and every other key is as it was.
proof fn lemma_issued_holds(store: Store, user_id: Text, token: Text)
    requires
        token != user_id,
        takes_hash(store, key_of(Entity::Session, token)),
    ensures
        ({
            let after = issued(store, user_id, token);
            &&& after.now == store.now
            &&& session_bound(after, key_of(Entity::Session, token), user_id)
            &&& after.value(key_of(Entity::Session, user_id)) == Some(Value::Text(token))
            &&& forall|key: Text|
                key != key_of(Entity::Session, token) && key != key_of(Entity::Session, user_id)
                    ==> #[trigger] after.value(key) == store.value(key)
            &&& forall|key: Text|
                key != key_of(Entity::Session, token) && key != key_of(Entity::Session, user_id)
                    ==> after.slots.contains_key(key) == store.slots.contains_key(key)
                    && #[trigger] after.slots[key] == store.slots[key]
            &&& after.slots.contains_key(key_of(Entity::Session, user_id))
            &&& after.slots[key_of(Entity::Session, user_id)].deadline == Some(
                (store.now + SESSION_SECONDS) as nat,
            )
            &&& after.slots[key_of(Entity::Session, token)].deadline == Some(
                (store.now + SESSION_SECONDS) as nat,
            )
        }),
{
    reveal(issued);
    reveal_with_fuel(record_of, 2);
    lemma_key_injective(Entity::Session, token, Entity::Session, user_id);
    let fields = seq![("user_id"@, user_id)];
    assert(fields.drop_last() =~= Seq::<(Text, Text)>::empty());
    assert(record_of(fields) =~= Map::<Text, Text>::empty().insert("user_id"@, user_id));
}

/// What a login does, step by step, where the user is registered and the
/// password matches.
proof fn lemma_login_runs(
    store: Store,
    email: Text,
    password: Text,
    id: Text,
    user: UserView,
    token: Text,
)
    requires
        registered(store, email, id, user),
        password_matches(password, user.password),
        session_ready(store, id, token),
    ensures
        run(store, login(email, password, token)) == (Run {
            result: Ok(
                OutcomeView::Text(key_of(Entity::Session, session_token(store, id, token))),
            ),
            store: if store.value(key_of(Entity::Session, id)) is None {
                issued(store, id, token)
            } else {
                store
            },
        }),
{
    reveal_with_fuel(run, 4);
    if store.value(key_of(Entity::Session, id)) is None {
        lemma_issue_runs(store, id, token, OutcomeView::Text(key_of(Entity::Session, token)));
    }
}

/// With valid credentials a login yields a session, and the session resolves
/// to the user who logged in.
///
/// The user must be registered and the sessions must be in order: the user
/// holds one that is bound to them, or holds none and `token` is free to
/// take one. Valid credentials are a password that matches the stored hash.
pub proof fn law_login_yields_session(
    store: Store,
    email: Text,
    password: Text,
    id: Text,
    user: UserView,
    token: Text,
)
    requires
        registered(store, email, id, user),
        session_ready(store, id, token),
    ensures
        password_matches(password, user.password) ==> ({
            let logged_in = run(store, login(email, password, token));
            let session_key = key_of(Entity::Session, session_token(store, id, token));
            &&& logged_in.result == Ok::<OutcomeView, Error>(OutcomeView::Text(session_key))
            &&& run(logged_in.store, session_lookup(session_key)).result == Ok::<
                OutcomeView,
                Error,
            >(OutcomeView::Text(id))
            &&& store.value(key_of(Entity::Session, id)) is Some ==> logged_in.store == store
        }),
{
    if password_matches(password, user.password) {
        lemma_login_runs(store, email, password, id, user, token);
        reveal_with_fuel(run, 2);
        if store.value(key_of(Entity::Session, id)) is None {
            law_session_lives_eight_hours(store, id, token, 0);
            lemma_issue_runs(store, id, token, OutcomeView::Text(key_of(Entity::Session, token)));
            assert(issued(store, id, token).elapse(0) == issued(store, id, token));
        }
    }
}

/// A wrong password is refused as such, and a login that fails writes
/// nothing: no session is issued.
pub proof fn law_login_rejects_wrong_password(
    store: Store,
    email: Text,
    password: Text,
    id: Text,
    user: UserView,
    token: Text,
)
    requires
        registered(store, email, id, user),
    ensures
        !password_matches(password, user.password) ==> run(store, login(email, password, token))
            == (Run { result: Err(Error::InvalidCredentials), store }),
{
    reveal_with_fuel(run, 3);
}

/// A login under an email that is not registered finds no one, and writes
/// nothing.
pub proof fn law_login_unknown_email(store: Store, email: Text, password: Text, token: Text)
    requires
        store.value(key_of(Entity::User, email)) is None,
    ensures
        run(store, login(email, password, token)) == (Run { result: Err(Error::NotFound), store }),
{
    reveal_with_fuel(run, 2);
}

/// Whether the session that a login of the user `id` ends with is still
/// there `seconds` later: one that the user held has not expired by then,
/// and one that was issued is less than eight hours old.
pub open spec fn session_outlasts(store: Store, id: Text, seconds: nat) -> bool {
    match store.value(key_of(Entity::Session, id)) {
        None => seconds < SESSION_SECONDS,
        Some(_) => store.elapse(seconds).live(key_of(Entity::Session, id)),
    }
}

/// Two logins of one user within the lifetime of the session end with the
/// same session, whatever token the second has at hand.
///
/// The user must be registered at both times, and the requirements of
/// `law_login_yields_session` must hold at the first.
pub proof fn law_login_twice_same_session(
    store: Store,
    email: Text,
    password: Text,
    id: Text,
    user: UserView,
    first_token: Text,
    second_token: Text,
    seconds: nat,
)
    requires
        registered(store, email, id, user),
        registered(store.elapse(seconds), email, id, user),
        session_ready(store, id, first_token),
        session_outlasts(store, id, seconds),
    ensures
        password_matches(password, user.password) ==> ({
            let first = run(store, login(email, password, first_token));
            let second = run(first.store.elapse(seconds), login(email, password, second_token));
            &&& first.result is Ok
            &&& second.result == first.result
        }),
{
    if password_matches(password, user.password) {
        lemma_login_runs(store, email, password, id, user, first_token);
        if store.value(key_of(Entity::Session, id)) is None {
            lemma_issued_holds(store, id, first_token);
        }
        let first = run(store, login(email, password, first_token));
        let later = first.store.elapse(seconds);
        lemma_key_injective(Entity::Session, id, Entity::User, email);
        lemma_key_injective(Entity::Session, id, Entity::User, id);
        lemma_key_injective(Entity::Session, first_token, Entity::User, email);
        lemma_key_injective(Entity::Session, first_token, Entity::User, id);
        lemma_key_injective(Entity::Session, first_token, Entity::Session, id);
        assert(registered(later, email, id, user));
        assert(later.value(key_of(Entity::Session, id)) == Some(
            Value::Text(session_token(store, id, first_token)),
        ));
        reveal_with_fuel(run, 4);
    }
}

/// The progress of loading the user of the session under `session_key`.
pub open spec fn session_data(session_key: Text) -> ProgressView {
    ProgressView::Send {
        command: CommandView::GetField { key: session_key, field: "user_id"@ },
        then: OperationView::SessionOwner,
    }
}

/// The session that a login yields gives back the user who logged in, with
/// every field of the record.
pub proof fn law_session_data_is_user(
    store: Store,
    email: Text,
    password: Text,
    id: Text,
    user: UserView,
    token: Text,
)
    requires
        registered(store, email, id, user),
        session_ready(store, id, token),
    ensures
        password_matches(password, user.password) ==> ({
            let logged_in = run(store, login(email, password, token));
            let session_key = key_of(Entity::Session, session_token(store, id, token));
            run(logged_in.store, session_data(session_key)).result == Ok::<OutcomeView, Error>(
                OutcomeView::Account(user),
            )
        }),
{
    if password_matches(password, user.password) {
        lemma_login_runs(store, email, password, id, user, token);
        let logged_in = run(store, login(email, password, token));
        let session_key = key_of(Entity::Session, session_token(store, id, token));
        if store.value(key_of(Entity::Session, id)) is None {
            lemma_issued_holds(store, id, token);
            lemma_key_injective(Entity::Session, id, Entity::User, id);
            lemma_key_injective(Entity::Session, token, Entity::User, id);
        }
        assert(session_bound(logged_in.store, session_key, id));
        assert(logged_in.store.value(key_of(Entity::User, id)) == store.value(
            key_of(Entity::User, id),
        ));
        assert(run(logged_in.store, session_data(session_key)).result == Ok::<OutcomeView, Error>(
            OutcomeView::Account(user),
        )) by {
            reveal_with_fuel(run, 3);
        }
    }
}

} // verus!
