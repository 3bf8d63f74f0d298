use notes_store::client::{
    delete_session, existing_session, generate_session_token, get_user_id,
    get_user_session_data, lookup_session,
};
use notes_store::error::Error;
use notes_store::keys::Entity;
use notes_store::machine::{issue_session, plan, Operation, Outcome, Progress, SESSION_SECONDS};
use notes_store::models::User;
use notes_store::ops::{
    create_note_with_id, create_user_with_id, create_vault, create_vault_with_id,
    delete_notebook, get_notebooks, get_note_id, get_user_with_token, read_note, save_note,
};
use notes_store::protocol::{Command, Reply};

fn s(text: &str) -> String {
    text.to_string()
}

fn script(mut progress: Progress) -> (Vec<Command>, Result<Outcome, Error>) {
    let mut sent = Vec::new();
    loop {
        match progress {
            Progress::Done(result) => return (sent, result),
            Progress::Send { command, then } => {
                sent.push(command);
                progress = then.resume(Reply::Done);
            }
        }
    }
}

fn is_id(id: &str) -> bool {
    id.chars().count() == 36
        && id.chars().enumerate().all(|(i, c)| match i {
            8 | 13 | 18 | 23 => c == '-',
            _ => c.is_ascii_digit() || ('a'..='f').contains(&c),
        })
}

#[test]
fn session_lives_eight_hours() {
    assert_eq!(SESSION_SECONDS, 28800);
    assert_eq!(SESSION_SECONDS, 8 * 60 * 60);
}

#[test]
fn an_empty_plan_is_over_at_once() {
    assert_eq!(plan(vec![], Outcome::Nothing), Progress::Done(Ok(Outcome::Nothing)));
}

#[test]
fn a_plan_sends_its_commands_in_order() {
    let commands = vec![
        Command::Delete { key: s("a") },
        Command::Delete { key: s("b") },
        Command::Delete { key: s("c") },
    ];
    let (sent, result) = script(plan(commands.clone(), Outcome::Flag(false)));
    assert_eq!(sent, commands);
    assert_eq!(result, Ok(Outcome::Flag(false)));
}

#[test]
fn a_refused_write_ends_the_plan_with_what_was_sent() {
    let commands = vec![Command::Delete { key: s("a") }, Command::Delete { key: s("b") }];
    match plan(commands, Outcome::Nothing) {
        Progress::Send { command, then } => {
            assert_eq!(command, Command::Delete { key: s("a") });
            assert_eq!(then.resume(Reply::Refused), Progress::Done(Err(Error::Store)));
        }
        other => panic!("{:?}", other),
    }
}

#[test]
fn an_unreachable_store_is_a_connection_error_in_every_state() {
    let states = vec![
        Operation::Writing { rest: vec![Command::Delete { key: s("a") }], outcome: Outcome::Nothing },
        Operation::Reading,
        Operation::ListingMembers { entity: Entity::Vault },
        Operation::ListingNames { entity: Entity::Vault, ids: vec![s("a")], names: vec![] },
        Operation::SessionOwner,
        Operation::LoadingUser,
        Operation::AuthResolving { password: s("p"), token: s("t") },
        Operation::AuthLoading { user_id: s("u"), password: s("p"), token: s("t") },
        Operation::AuthSession { user_id: s("u"), token: s("t") },
    ];
    for state in states {
        assert_eq!(
            state.clone().resume(Reply::Unreachable),
            Progress::Done(Err(Error::Connection))
        );
        assert_eq!(state.resume(Reply::Refused), Progress::Done(Err(Error::Store)));
    }
}

#[test]
fn a_reply_out_of_turn_is_a_store_error() {
    assert_eq!(
        Operation::Reading.resume(Reply::Members(vec![])),
        Progress::Done(Err(Error::Store))
    );
    assert_eq!(Operation::Reading.resume(Reply::Done), Progress::Done(Err(Error::Store)));
    let writing = Operation::Writing { rest: vec![], outcome: Outcome::Nothing };
    assert_eq!(writing.resume(Reply::Text(None)), Progress::Done(Err(Error::Store)));
    assert_eq!(
        Operation::LoadingUser.resume(Reply::Text(Some(s("x")))),
        Progress::Done(Err(Error::Store))
    );
    let listing = Operation::ListingMembers { entity: Entity::Note };
    assert_eq!(listing.resume(Reply::Fields(vec![])), Progress::Done(Err(Error::Store)));
}

#[test]
fn a_read_yields_the_text_or_not_found() {
    assert_eq!(
        Operation::Reading.resume(Reply::Text(Some(s("v")))),
        Progress::Done(Ok(Outcome::Text(s("v"))))
    );
    assert_eq!(
        Operation::Reading.resume(Reply::Text(None)),
        Progress::Done(Err(Error::NotFound))
    );
}

#[test]
fn issue_session_writes_pointer_then_record_with_expiry() {
    let (sent, result) = script(issue_session("U1", "T1"));
    assert_eq!(
        sent,
        vec![
            Command::Put { key: s("session:U1"), value: s("T1") },
            Command::Expire { key: s("session:U1"), seconds: 28800 },
            Command::PutFields { key: s("session:T1"), fields: vec![(s("user_id"), s("U1"))] },
            Command::Expire { key: s("session:T1"), seconds: 28800 },
        ]
    );
    assert_eq!(result, Ok(Outcome::Text(s("session:T1"))));
}

#[test]
fn generate_session_token_draws_a_fresh_token() {
    let (sent, result) = script(generate_session_token(s("U1")));
    let token = match &sent[0] {
        Command::Put { key, value } => {
            assert_eq!(key, "session:U1");
            value.clone()
        }
        other => panic!("{:?}", other),
    };
    assert!(is_id(&token));
    assert_ne!(token, "U1");
    assert_eq!(script(issue_session("U1", &token)), (sent, result));
    let (again, _) = script(generate_session_token(s("U1")));
    assert_ne!(again[0], Command::Put { key: s("session:U1"), value: token });
}

#[test]
fn session_reads_take_the_session_key_as_it_is() {
    let read = Command::GetField { key: s("session:T1"), field: s("user_id") };
    assert_eq!(
        lookup_session(s("session:T1")),
        Progress::Send { command: read.clone(), then: Operation::Reading }
    );
    assert_eq!(
        get_user_session_data(s("session:T1")),
        Progress::Send { command: read, then: Operation::SessionOwner }
    );
    assert_eq!(
        existing_session(s("U1")),
        Progress::Send { command: Command::Get { key: s("session:U1") }, then: Operation::Reading }
    );
}

#[test]
fn get_user_id_reads_the_email_index() {
    assert_eq!(
        get_user_id(s("ada@x.com")),
        Progress::Send { command: Command::Get { key: s("user:ada@x.com") }, then: Operation::Reading }
    );
}

#[test]
fn delete_session_removes_pointer_then_record() {
    let (sent, result) = script(delete_session(s("session:T1"), s("U1")));
    assert_eq!(
        sent,
        vec![Command::Delete { key: s("session:U1") }, Command::Delete { key: s("session:T1") }]
    );
    assert_eq!(result, Ok(Outcome::Flag(true)));
}

#[test]
fn create_user_writes_index_then_record() {
    let (sent, result) = script(create_user_with_id(s("Ada"), s("ada@x.com"), s("hash"), s("U1")));
    assert_eq!(
        sent,
        vec![
            Command::Put { key: s("user:ada@x.com"), value: s("U1") },
            Command::PutFields {
                key: s("user:U1"),
                fields: vec![
                    (s("forename"), s("Ada")),
                    (s("email"), s("ada@x.com")),
                    (s("password"), s("hash")),
                ],
            },
        ]
    );
    assert_eq!(result, Ok(Outcome::Text(s("user:U1"))));
}

#[test]
fn create_vault_writes_index_record_and_membership() {
    let (sent, result) = script(create_vault_with_id(s("Work"), s("U1"), s("V1")));
    assert_eq!(
        sent,
        vec![
            Command::Put { key: s("vault:Work"), value: s("V1") },
            Command::PutFields {
                key: s("vault:V1"),
                fields: vec![(s("name"), s("Work")), (s("user_id"), s("U1"))],
            },
            Command::AddMember { key: s("vault:U1"), member: s("V1") },
        ]
    );
    assert_eq!(result, Ok(Outcome::Text(s("vault:V1"))));
}

#[test]
fn create_vault_draws_a_fresh_id() {
    let (sent, result) = script(create_vault(s("Work"), s("U1")));
    let id = match &sent[0] {
        Command::Put { key, value } => {
            assert_eq!(key, "vault:Work");
            value.clone()
        }
        other => panic!("{:?}", other),
    };
    assert!(is_id(&id));
    assert_eq!(script(create_vault_with_id(s("Work"), s("U1"), id)), (sent, result));
}

#[test]
fn create_note_starts_with_empty_content() {
    let (sent, result) = script(create_note_with_id(s("todo"), s("N1"), s("X1")));
    assert_eq!(
        sent[1],
        Command::PutFields {
            key: s("note:X1"),
            fields: vec![
                (s("name"), s("todo")),
                (s("notebook_id"), s("N1")),
                (s("content"), s("")),
            ],
        }
    );
    assert_eq!(sent[2], Command::AddMember { key: s("note:N1"), member: s("X1") });
    assert_eq!(result, Ok(Outcome::Text(s("note:X1"))));
}

#[test]
fn delete_removes_record_index_and_membership_in_that_order() {
    let (sent, result) = script(delete_notebook(s("N1"), s("Ideas"), s("V1")));
    assert_eq!(
        sent,
        vec![
            Command::Delete { key: s("notebook:N1") },
            Command::Delete { key: s("notebook:Ideas") },
            Command::RemoveMember { key: s("notebook:V1"), member: s("N1") },
        ]
    );
    assert_eq!(result, Ok(Outcome::Nothing));
}

#[test]
fn listing_reads_the_set_then_each_name() {
    let progress = get_notebooks(s("V1"));
    let then = match progress {
        Progress::Send { command, then } => {
            assert_eq!(command, Command::GetMembers { key: s("notebook:V1") });
            then
        }
        other => panic!("{:?}", other),
    };
    let then = match then.resume(Reply::Members(vec![s("b"), s("a")])) {
        Progress::Send { command, then } => {
            assert_eq!(command, Command::GetField { key: s("notebook:b"), field: s("name") });
            then
        }
        other => panic!("{:?}", other),
    };
    let then = match then.resume(Reply::Text(Some(s("second")))) {
        Progress::Send { command, then } => {
            assert_eq!(command, Command::GetField { key: s("notebook:a"), field: s("name") });
            then
        }
        other => panic!("{:?}", other),
    };
    assert_eq!(
        then.resume(Reply::Text(Some(s("first")))),
        Progress::Done(Ok(Outcome::Names(vec![s("second"), s("first")])))
    );
}

#[test]
fn listing_an_empty_set_yields_no_names() {
    let listing = Operation::ListingMembers { entity: Entity::Vault };
    assert_eq!(
        listing.resume(Reply::Members(vec![])),
        Progress::Done(Ok(Outcome::Names(vec![])))
    );
}

#[test]
fn a_vanished_member_fails_the_whole_listing() {
    let listing = Operation::ListingNames {
        entity: Entity::Vault,
        ids: vec![s("a"), s("b")],
        names: vec![s("first")],
    };
    assert_eq!(listing.resume(Reply::Text(None)), Progress::Done(Err(Error::Store)));
}

#[test]
fn note_reads_and_writes_the_content_field() {
    assert_eq!(
        read_note(s("X1")),
        Progress::Send {
            command: Command::GetField { key: s("note:X1"), field: s("content") },
            then: Operation::Reading
        }
    );
    let (sent, result) = script(save_note(s("X1"), s("buy milk")));
    assert_eq!(
        sent,
        vec![Command::PutFields { key: s("note:X1"), fields: vec![(s("content"), s("buy milk"))] }]
    );
    assert_eq!(result, Ok(Outcome::Text(s("buy milk"))));
    assert_eq!(
        get_note_id(s("todo")),
        Progress::Send { command: Command::Get { key: s("note:todo") }, then: Operation::Reading }
    );
}

#[test]
fn session_owner_leads_to_the_user_record() {
    assert_eq!(
        Operation::SessionOwner.resume(Reply::Text(Some(s("U1")))),
        Progress::Send { command: Command::GetFields { key: s("user:U1") }, then: Operation::LoadingUser }
    );
    assert_eq!(
        Operation::SessionOwner.resume(Reply::Text(None)),
        Progress::Done(Err(Error::NotFound))
    );
}

#[test]
fn loading_a_user_decodes_or_reports_the_missing_field() {
    let user = User::assign(s("Ada"), s("ada@x.com"), s("hash"));
    assert_eq!(
        Operation::LoadingUser.resume(Reply::Fields(user.to_record())),
        Progress::Done(Ok(Outcome::Account(user)))
    );
    assert_eq!(
        Operation::LoadingUser.resume(Reply::Fields(vec![(s("email"), s("ada@x.com"))])),
        Progress::Done(Err(Error::MissingField))
    );
    assert_eq!(
        Operation::LoadingUser.resume(Reply::Fields(vec![])),
        Progress::Done(Err(Error::MissingField))
    );
}

#[test]
fn login_walks_from_email_to_session() {
    let hash = bcrypt::hash("secret", 4).unwrap();
    let user = User::assign(s("Ada"), s("ada@x.com"), hash);
    let then = match get_user_with_token(s("ada@x.com"), s("secret"), s("T1")) {
        Progress::Send { command, then } => {
            assert_eq!(command, Command::Get { key: s("user:ada@x.com") });
            then
        }
        other => panic!("{:?}", other),
    };
    let then = match then.resume(Reply::Text(Some(s("U1")))) {
        Progress::Send { command, then } => {
            assert_eq!(command, Command::GetFields { key: s("user:U1") });
            then
        }
        other => panic!("{:?}", other),
    };
    let then = match then.resume(Reply::Fields(user.to_record())) {
        Progress::Send { command, then } => {
            assert_eq!(command, Command::Get { key: s("session:U1") });
            then
        }
        other => panic!("{:?}", other),
    };
    assert_eq!(
        then.clone().resume(Reply::Text(Some(s("T0")))),
        Progress::Done(Ok(Outcome::Text(s("session:T0"))))
    );
    assert_eq!(script(then.resume(Reply::Text(None))), script(issue_session("U1", "T1")));
}

#[test]
fn login_fails_with_the_error_of_the_step() {
    let hash = bcrypt::hash("secret", 4).unwrap();
    let user = User::assign(s("Ada"), s("ada@x.com"), hash);
    let resolving = Operation::AuthResolving { password: s("wrong"), token: s("T1") };
    assert_eq!(resolving.resume(Reply::Text(None)), Progress::Done(Err(Error::NotFound)));
    let loading = Operation::AuthLoading { user_id: s("U1"), password: s("wrong"), token: s("T1") };
    assert_eq!(
        loading.clone().resume(Reply::Fields(user.to_record())),
        Progress::Done(Err(Error::InvalidCredentials))
    );
    assert_eq!(
        loading.clone().resume(Reply::Fields(vec![(s("password"), s("x"))])),
        Progress::Done(Err(Error::MissingField))
    );
    let broken = User::assign(s("Ada"), s("ada@x.com"), s("wrong"));
    assert_eq!(
        loading.resume(Reply::Fields(broken.to_record())),
        Progress::Done(Err(Error::InvalidCredentials))
    );
}
