//! Operations as protocols.
//!
//! An operation never talks to the store itself. It hands out the next
//! command, waits to be resumed with the reply, and in the end yields a
//! result. The first failed round trip ends it: nothing is retried and
//! nothing already written is taken back.

use vstd::prelude::*;
use vstd::string::*;
use crate::error::Error;
use crate::keys::{key, key_of, Entity};
use crate::model::Store;
use crate::models::{password_matches, User, UserView};
use crate::protocol::{commands, texts, Command, CommandView, Reply, ReplyView, Text};

verus! {

/// How long a session lives, in seconds: eight hours.
pub const SESSION_SECONDS: i64 = 28800;

/// What an operation yields when it succeeds.
#[derive(Clone, Debug, PartialEq, Eq)]
pub enum Outcome {
    /// A key, an id or a note's content.
    Text(String),
    /// The names of the children of one parent, in the store's order.
    Names(Vec<String>),
    /// A decoded user record.
    Account(User),
    /// Whether the operation took effect.
    Flag(bool),
    /// Nothing beyond success.
    Nothing,
}

/// An outcome as the contracts see it.
pub enum OutcomeView {
    Text(Text),
    Names(Seq<Text>),
    Account(UserView),
    Flag(bool),
    Nothing,
}

impl View for Outcome {
    type V = OutcomeView;

    open spec fn view(&self) -> OutcomeView {
        match *self {
            Outcome::Text(t) => OutcomeView::Text(t@),
            Outcome::Names(n) => OutcomeView::Names(texts(n@)),
            Outcome::Account(u) => OutcomeView::Account(u@),
            Outcome::Flag(b) => OutcomeView::Flag(b),
            Outcome::Nothing => OutcomeView::Nothing,
        }
    }
}

/// The result of an operation as the contracts see it.
pub open spec fn result_view(r: Result<Outcome, Error>) -> Result<OutcomeView, Error> {
    match r {
        Ok(o) => Ok(o@),
        Err(e) => Err(e),
    }
}

/// An operation that waits for the reply to the command it last handed out.
#[derive(Clone, Debug, PartialEq, Eq)]
pub enum Operation {
    /// A write is in flight; `rest` follows it, then `outcome` is the result.
    Writing { rest: Vec<Command>, outcome: Outcome },
    /// A read is in flight whose text is the result.
    Reading,
    /// The members of a parent's set are being read, to list their names.
    ListingMembers { entity: Entity },
    /// The name of `ids[names.len()]` is being read.
    ListingNames { entity: Entity, ids: Vec<String>, names: Vec<String> },
    /// The user id of a session is being read, to load that user.
    SessionOwner,
    /// A user record is being read; the decoded user is the result.
    LoadingUser,
    /// Login: the user id for an email is being read.
    AuthResolving { password: String, token: String },
    /// Login: the user record is being read, to check the password.
    AuthLoading { user_id: String, password: String, token: String },
    /// Login: the user's session pointer is being read. A session found is
    /// the result; else one is issued under `token`.
    AuthSession { user_id: String, token: String },
}

/// A waiting operation as the contracts see it.
pub enum OperationView {
    Writing { rest: Seq<CommandView>, outcome: OutcomeView },
    Reading,
    ListingMembers { entity: Entity },
    ListingNames { entity: Entity, ids: Seq<Text>, names: Seq<Text> },
    SessionOwner,
    LoadingUser,
    AuthResolving { password: Text, token: Text },
    AuthLoading { user_id: Text, password: Text, token: Text },
    AuthSession { user_id: Text, token: Text },
}

impl View for Operation {
    type V = OperationView;

    open spec fn view(&self) -> OperationView {
        match *self {
            Operation::Writing { rest, outcome } => OperationView::Writing {
                rest: commands(rest@),
                outcome: outcome@,
            },
            Operation::Reading => OperationView::Reading,
            Operation::ListingMembers { entity } => OperationView::ListingMembers { entity },
            Operation::ListingNames { entity, ids, names } => OperationView::ListingNames {
                entity,
                ids: texts(ids@),
                names: texts(names@),
            },
            Operation::SessionOwner => OperationView::SessionOwner,
            Operation::LoadingUser => OperationView::LoadingUser,
            Operation::AuthResolving { password, token } => OperationView::AuthResolving {
                password: password@,
                token: token@,
            },
            Operation::AuthLoading { user_id, password, token } => OperationView::AuthLoading {
                user_id: user_id@,
                password: password@,
                token: token@,
            },
            Operation::AuthSession { user_id, token } => OperationView::AuthSession {
                user_id: user_id@,
                token: token@,
            },
        }
    }
}

/// Where an operation stands: it has a command for the store, or it is over.
#[derive(Debug, PartialEq, Eq)]
pub enum Progress {
    /// Send `command`, then resume `then` with the reply.
    Send { command: Command, then: Operation },
    /// The operation is over, with this result.
    Done(Result<Outcome, Error>),
}

/// A progress as the contracts see it.
pub enum ProgressView {
    Send { command: CommandView, then: OperationView },
    Done(Result<OutcomeView, Error>),
}

impl View for Progress {
    type V = ProgressView;

    open spec fn view(&self) -> ProgressView {
        match *self {
            Progress::Send { command, then } => ProgressView::Send {
                command: command@,
                then: then@,
            },
            Progress::Done(r) => ProgressView::Done(result_view(r)),
        }
    }
}

/// The error that ends an operation when `reply` is not one it can use: the
/// store was not reached, or it refused, or it answered out of turn.
pub open spec fn failure(reply: ReplyView) -> Error {
    match reply {
        ReplyView::Unreachable => Error::Connection,
        _ => Error::Store,
    }
}

/// The progress of sending `commands` one after another and then yielding
/// `outcome`.
pub open spec fn planned(commands: Seq<CommandView>, outcome: OutcomeView) -> ProgressView {
    if commands.len() == 0 {
        ProgressView::Done(Ok(outcome))
    } else {
        ProgressView::Send {
            command: commands.first(),
            then: OperationView::Writing { rest: commands.drop_first(), outcome },
        }
    }
}

/// The progress of listing the names of `ids` once `names` are known: read
/// the next name, or yield them all.
pub open spec fn listing(entity: Entity, ids: Seq<Text>, names: Seq<Text>) -> ProgressView {
    if names.len() < ids.len() {
        ProgressView::Send {
            command: CommandView::GetField {
                key: key_of(entity, ids[names.len() as int]),
                field: "name"@,
            },
            then: OperationView::ListingNames { entity, ids, names },
        }
    } else {
        ProgressView::Done(Ok(OutcomeView::Names(names)))
    }
}

/// The commands that issue a session for `user_id` under `token`: the
/// pointer from the user to the token, then the session record, each with
/// the same time to live.
pub open spec fn session_issue(user_id: Text, token: Text) -> Seq<CommandView> {
    seq![
        CommandView::Put { key: key_of(Entity::Session, user_id), value: token },
        CommandView::Expire {
            key: key_of(Entity::Session, user_id),
            seconds: SESSION_SECONDS as int,
        },
        CommandView::PutFields {
            key: key_of(Entity::Session, token),
            fields: seq![("user_id"@, user_id)],
        },
        CommandView::Expire {
            key: key_of(Entity::Session, token),
            seconds: SESSION_SECONDS as int,
        },
    ]
}

impl OperationView {
    /// Where the operation stands once `reply` has come.
    pub open spec fn resumed(self, reply: ReplyView) -> ProgressView {
        match self {
            OperationView::Writing { rest, outcome } => match reply {
                ReplyView::Done => planned(rest, outcome),
                _ => ProgressView::Done(Err(failure(reply))),
            },
            OperationView::Reading => match reply {
                ReplyView::Text(Some(text)) => ProgressView::Done(Ok(OutcomeView::Text(text))),
                ReplyView::Text(None) => ProgressView::Done(Err(Error::NotFound)),
                _ => ProgressView::Done(Err(failure(reply))),
            },
            OperationView::ListingMembers { entity } => match reply {
                ReplyView::Members(ids) => listing(entity, ids, Seq::empty()),
                _ => ProgressView::Done(Err(failure(reply))),
            },
            OperationView::ListingNames { entity, ids, names } => match reply {
                ReplyView::Text(Some(name)) => listing(entity, ids, names.push(name)),
                _ => ProgressView::Done(Err(failure(reply))),
            },
            OperationView::SessionOwner => match reply {
                ReplyView::Text(Some(user_id)) => ProgressView::Send {
                    command: CommandView::GetFields { key: key_of(Entity::User, user_id) },
                    then: OperationView::LoadingUser,
                },
                ReplyView::Text(None) => ProgressView::Done(Err(Error::NotFound)),
                _ => ProgressView::Done(Err(failure(reply))),
            },
            OperationView::LoadingUser => match reply {
                ReplyView::Fields(record) => match UserView::decode(record) {
                    Some(user) => ProgressView::Done(Ok(OutcomeView::Account(user))),
                    None => ProgressView::Done(Err(Error::MissingField)),
                },
                _ => ProgressView::Done(Err(failure(reply))),
            },
            OperationView::AuthResolving { password, token } => match reply {
                ReplyView::Text(Some(user_id)) => ProgressView::Send {
                    command: CommandView::GetFields { key: key_of(Entity::User, user_id) },
                    then: OperationView::AuthLoading { user_id, password, token },
                },
                ReplyView::Text(None) => ProgressView::Done(Err(Error::NotFound)),
                _ => ProgressView::Done(Err(failure(reply))),
            },
            OperationView::AuthLoading { user_id, password, token } => match reply {
                ReplyView::Fields(record) => match UserView::decode(record) {
                    Some(user) => if password_matches(password, user.password) {
                        ProgressView::Send {
                            command: CommandView::Get { key: key_of(Entity::Session, user_id) },
                            then: OperationView::AuthSession { user_id, token },
                        }
                    } else {
                        ProgressView::Done(Err(Error::InvalidCredentials))
                    },
                    None => ProgressView::Done(Err(Error::MissingField)),
                },
                _ => ProgressView::Done(Err(failure(reply))),
            },
            OperationView::AuthSession { user_id, token } => match reply {
                ReplyView::Text(Some(existing)) => ProgressView::Done(
                    Ok(OutcomeView::Text(key_of(Entity::Session, existing))),
                ),
                ReplyView::Text(None) => planned(
                    session_issue(user_id, token),
                    OutcomeView::Text(key_of(Entity::Session, token)),
                ),
                _ => ProgressView::Done(Err(failure(reply))),
            },
        }
    }

    /// How many kinds of reply the operation still waits for after this one.
    pub open spec fn phase(self) -> nat {
        match self {
            OperationView::AuthResolving { .. } => 3,
            OperationView::AuthLoading { .. } => 2,
            OperationView::AuthSession { .. } => 1,
            OperationView::SessionOwner => 1,
            OperationView::ListingMembers { .. } => 1,
            _ => 0,
        }
    }

    /// How many commands of the current kind follow the one in flight.
    pub open spec fn pending(self) -> nat {
        match self {
            OperationView::Writing { rest, .. } => rest.len(),
            OperationView::ListingNames { ids, names, .. } => if names.len() < ids.len() {
                (ids.len() - names.len()) as nat
            } else {
                0
            },
            _ => 0,
        }
    }
}

impl ProgressView {
    /// See `OperationView::phase`; zero once the operation is over.
    pub open spec fn phase(self) -> nat {
        match self {
            ProgressView::Send { then, .. } => then.phase(),
            ProgressView::Done(_) => 0,
        }
    }

    /// The commands of the current kind still to be answered.
    pub open spec fn pending(self) -> nat {
        match self {
            ProgressView::Send { then, .. } => then.pending() + 1,
            ProgressView::Done(_) => 0,
        }
    }
}

/// Every reply brings an operation nearer its end.
pub proof fn lemma_resumed_decreases(operation: OperationView, reply: ReplyView)
    ensures
        ({
            let next = operation.resumed(reply);
            next.phase() < operation.phase() || (next.phase() == operation.phase()
                && next.pending() <= operation.pending())
        }),
{
    match operation {
        OperationView::Writing { rest, outcome } => {
            if rest.len() > 0 {
                assert(rest.drop_first().len() == rest.len() - 1);
            }
        },
        _ => {},
    }
}

/// What an operation, driven to its end against a store, yields and leaves
/// behind.
pub struct Run {
    pub result: Result<OutcomeView, Error>,
    pub store: Store,
}

/// Drives `progress` to its end against `store`: each command is applied to
/// the store, and the store's reply resumes the operation.
pub open spec fn run(store: Store, progress: ProgressView) -> Run
    decreases progress.phase(), progress.pending(),
    via run_terminates
{
    match progress {
        ProgressView::Done(result) => Run { result, store },
        ProgressView::Send { command, then } => run(
            store.after(command),
            then.resumed(store.reply(command)),
        ),
    }
}

#[via_fn]
proof fn run_terminates(store: Store, progress: ProgressView) {
    match progress {
        ProgressView::Done(_) => {},
        ProgressView::Send { command, then } => {
            lemma_resumed_decreases(then, store.reply(command));
        },
    }
}

/// The error for a reply that the operation cannot use.
fn reply_failure(reply: &Reply) -> (e: Error)
    ensures
        e == failure(reply@),
{
    match reply {
        Reply::Unreachable => Error::Connection,
        _ => Error::Store,
    }
}

/// Starts sending `commands` in order, to yield `outcome` after the last.
pub fn plan(commands: Vec<Command>, outcome: Outcome) -> (progress: Progress)
    ensures
        progress@ == planned(crate::protocol::commands(commands@), outcome@),
{
    let mut rest = commands;
    if rest.len() == 0 {
        Progress::Done(Ok(outcome))
    } else {
        let ghost all = rest@;
        let first = rest.remove(0);
        proof {
            assert(crate::protocol::commands(rest@) =~= crate::protocol::commands(
                all,
            ).drop_first());
        }
        Progress::Send { command: first, then: Operation::Writing { rest, outcome } }
    }
}

/// Reads the next name of a listing, or yields the names once each id has
/// one.
fn list_next(entity: Entity, ids: Vec<String>, names: Vec<String>) -> (progress: Progress)
    ensures
        progress@ == listing(entity, texts(ids@), texts(names@)),
{
    if names.len() < ids.len() {
        let command = Command::GetField {
            key: key(entity, ids[names.len()].as_str()),
            field: String::from_str("name"),
        };
        Progress::Send { command, then: Operation::ListingNames { entity, ids, names } }
    } else {
        Progress::Done(Ok(Outcome::Names(names)))
    }
}

/// The commands that issue a session for `user_id` under `token`.
fn issue_commands(user_id: &str, token: &str) -> (r: Vec<Command>)
    ensures
        crate::protocol::commands(r@) == session_issue(user_id@, token@),
{
    let mut fields: Vec<(String, String)> = Vec::new();
    fields.push((String::from_str("user_id"), String::from_str(user_id)));
    let mut r: Vec<Command> = Vec::new();
    r.push(Command::Put { key: key(Entity::Session, user_id), value: String::from_str(token) });
    r.push(Command::Expire { key: key(Entity::Session, user_id), seconds: SESSION_SECONDS });
    r.push(Command::PutFields { key: key(Entity::Session, token), fields });
    r.push(Command::Expire { key: key(Entity::Session, token), seconds: SESSION_SECONDS });
    proof {
        assert(crate::protocol::pairs(fields@) =~= seq![("user_id"@, user_id@)]);
        assert(crate::protocol::commands(r@) =~= session_issue(user_id@, token@));
    }
    r
}

/// Starts issuing a session for `user_id` under `token`. The session's key
/// is the result.
pub fn issue_session(user_id: &str, token: &str) -> (progress: Progress)
    ensures
        progress@ == planned(
            session_issue(user_id@, token@),
            OutcomeView::Text(key_of(Entity::Session, token@)),
        ),
{
    plan(issue_commands(user_id, token), Outcome::Text(key(Entity::Session, token)))
}

impl Operation {
    /// Resumes the operation with the store's reply to the command it last
    /// handed out.
    pub fn resume(self, reply: Reply) -> (next: Progress)
        ensures
            next@ == self@.resumed(reply@),
    {
        match self {
            Operation::Writing { rest, outcome } => match reply {
                Reply::Done => plan(rest, outcome),
                other => Progress::Done(Err(reply_failure(&other))),
            },
            Operation::Reading => match reply {
                Reply::Text(Some(text)) => Progress::Done(Ok(Outcome::Text(text))),
                Reply::Text(None) => Progress::Done(Err(Error::NotFound)),
                other => Progress::Done(Err(reply_failure(&other))),
            },
            Operation::ListingMembers { entity } => match reply {
                Reply::Members(ids) => {
                    let names: Vec<String> = Vec::new();
                    proof {
                        assert(texts(names@) =~= Seq::<Text>::empty());
                    }
                    list_next(entity, ids, names)
                },
                other => Progress::Done(Err(reply_failure(&other))),
            },
            Operation::ListingNames { entity, ids, names } => match reply {
                Reply::Text(Some(name)) => {
                    let mut names = names;
                    let ghost before = names@;
                    let ghost added = name@;
                    names.push(name);
                    proof {
                        assert(texts(names@) =~= texts(before).push(added));
                    }
                    list_next(entity, ids, names)
                },
                other => Progress::Done(Err(reply_failure(&other))),
            },
            Operation::SessionOwner => match reply {
                Reply::Text(Some(user_id)) => Progress::Send {
                    command: Command::GetFields { key: key(Entity::User, user_id.as_str()) },
                    then: Operation::LoadingUser,
                },
                Reply::Text(None) => Progress::Done(Err(Error::NotFound)),
                other => Progress::Done(Err(reply_failure(&other))),
            },
            Operation::LoadingUser => match reply {
                Reply::Fields(fields) => match User::from_record(&fields) {
                    Ok(user) => Progress::Done(Ok(Outcome::Account(user))),
                    Err(e) => Progress::Done(Err(e)),
                },
                other => Progress::Done(Err(reply_failure(&other))),
            },
            Operation::AuthResolving { password, token } => match reply {
                Reply::Text(Some(user_id)) => Progress::Send {
                    command: Command::GetFields { key: key(Entity::User, user_id.as_str()) },
                    then: Operation::AuthLoading { user_id, password, token },
                },
                Reply::Text(None) => Progress::Done(Err(Error::NotFound)),
                other => Progress::Done(Err(reply_failure(&other))),
            },
            Operation::AuthLoading { user_id, password, token } => match reply {
                Reply::Fields(fields) => match User::from_record(&fields) {
                    Ok(user) => {
                        if user.verify_password(password.as_str()) {
                            Progress::Send {
                                command: Command::Get {
                                    key: key(Entity::Session, user_id.as_str()),
                                },
                                then: Operation::AuthSession { user_id, token },
                            }
                        } else {
                            Progress::Done(Err(Error::InvalidCredentials))
                        }
                    },
                    Err(e) => Progress::Done(Err(e)),
                },
                other => Progress::Done(Err(reply_failure(&other))),
            },
            Operation::AuthSession { user_id, token } => match reply {
                Reply::Text(Some(existing)) => Progress::Done(
                    Ok(Outcome::Text(key(Entity::Session, existing.as_str()))),
                ),
                Reply::Text(None) => issue_session(user_id.as_str(), token.as_str()),
                other => Progress::Done(Err(reply_failure(&other))),
            },
        }
    }
}

} // verus!
