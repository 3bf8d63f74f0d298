//! Sessions: time-limited credentials that bind a token to a user.
//!
//! A session is two keys. The record `session:<token>` holds the user's id;
//! the pointer `session:<user_id>` holds the token, so that a second login
//! finds the session of the first. Both expire together; the store sees to
//! that, nothing here sweeps.

use vstd::prelude::*;
use vstd::string::*;
use crate::ids::{is_id, random_id};
use crate::keys::{key, key_of, Entity};
use crate::machine::{
    issue_session, plan, planned, session_issue, Operation, OperationView, Outcome, OutcomeView,
    Progress, ProgressView,
};
use crate::protocol::{commands, Command, CommandView, Text};

verus! {

/// The progress of one read whose text is the result.
pub open spec fn reading(command: CommandView) -> ProgressView {
    ProgressView::Send { command, then: OperationView::Reading }
}

/// The commands that revoke a session: the user's pointer goes first, then
/// the session record.
pub open spec fn session_removal(session_key: Text, user_id: Text) -> Seq<CommandView> {
    seq![
        CommandView::Delete { key: key_of(Entity::Session, user_id) },
        CommandView::Delete { key: session_key },
    ]
}

/// Issues a session for `user_id` under a token drawn here. The result is
/// the key of the session record, `session:<token>`.
pub fn generate_session_token(user_id: String) -> (progress: Progress)
    ensures
        exists|token: Text|
            is_id(token) && progress@ == planned(
                session_issue(user_id@, token),
                OutcomeView::Text(key_of(Entity::Session, token)),
            ),
{
    let token = random_id();
    let progress = issue_session(user_id.as_str(), token.as_str());
    proof {
        assert(is_id(token@) && progress@ == planned(
            session_issue(user_id@, token@),
            OutcomeView::Text(key_of(Entity::Session, token@)),
        ));
    }
    progress
}

/// Finds the user id that the session record under `session_key` is bound
/// to. Fails with `NotFound` where the session has expired, was revoked or
/// never existed.
pub fn lookup_session(session_key: String) -> (progress: Progress)
    ensures
        progress@ == reading(CommandView::GetField { key: session_key@, field: "user_id"@ }),
{
    Progress::Send {
        command: Command::GetField { key: session_key, field: String::from_str("user_id") },
        then: Operation::Reading,
    }
}

/// Finds the token of the session that `user_id` holds. Fails with
/// `NotFound` where the user holds none.
pub fn existing_session(user_id: String) -> (progress: Progress)
    ensures
        progress@ == reading(CommandView::Get { key: key_of(Entity::Session, user_id@) }),
{
    Progress::Send {
        command: Command::Get { key: key(Entity::Session, user_id.as_str()) },
        then: Operation::Reading,
    }
}

/// Loads the user that the session record under `session_key` is bound to:
/// the session gives the user's id, the id gives the record.
pub fn get_user_session_data(session_key: String) -> (progress: Progress)
    ensures
        progress@ == (ProgressView::Send {
            command: CommandView::GetField { key: session_key@, field: "user_id"@ },
            then: OperationView::SessionOwner,
        }),
{
    Progress::Send {
        command: Command::GetField { key: session_key, field: String::from_str("user_id") },
        then: Operation::SessionOwner,
    }
}

/// Finds the id of the user registered under `email`. Fails with `NotFound`
/// where there is none.
pub fn get_user_id(email: String) -> (progress: Progress)
    ensures
        progress@ == reading(CommandView::Get { key: key_of(Entity::User, email@) }),
{
    Progress::Send {
        command: Command::Get { key: key(Entity::User, email.as_str()) },
        then: Operation::Reading,
    }
}

/// Revokes the session under `session_key` and the pointer of `user_id` to
/// it. Keys that are already gone are no error; the result is `true`.
pub fn delete_session(session_key: String, user_id: String) -> (progress: Progress)
    ensures
        progress@ == planned(session_removal(session_key@, user_id@), OutcomeView::Flag(true)),
{
    let mut steps: Vec<Command> = Vec::new();
    steps.push(Command::Delete { key: key(Entity::Session, user_id.as_str()) });
    steps.push(Command::Delete { key: session_key });
    proof {
        assert(commands(steps@) =~= session_removal(session_key@, user_id@));
    }
    plan(steps, Outcome::Flag(true))
}

} // verus!
