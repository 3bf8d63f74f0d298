use notes_store::client::{
    delete_session, existing_session, generate_session_token, get_user_id,
    get_user_session_data, lookup_session,
};
use notes_store::error::Error;
use notes_store::machine::{issue_session, Outcome, Progress};
use notes_store::memory::MemoryStore;
use notes_store::ops::{
    add_user, create_note, create_notebook, create_user, create_user_with_id, create_vault,
    create_vault_with_id, delete_note, delete_notebook, delete_vault, get_note_id, get_notebook_id,
    get_notebooks, get_notes, get_user, get_user_with_token, get_vault_id, get_vaults, read_note,
    save_note,
};
use notes_store::protocol::{Command, Reply};

fn s(text: &str) -> String {
    text.to_string()
}

fn text(store: &mut MemoryStore, progress: Progress) -> String {
    match store.run(progress) {
        Ok(Outcome::Text(text)) => text,
        other => panic!("{:?}", other),
    }
}

fn names(store: &mut MemoryStore, progress: Progress) -> Vec<String> {
    match store.run(progress) {
        Ok(Outcome::Names(names)) => names,
        other => panic!("{:?}", other),
    }
}

fn bare(key: &str, prefix: &str) -> String {
    key.strip_prefix(prefix).unwrap().to_string()
}

fn quick_hash(password: &str) -> String {
    bcrypt::hash(password, 4).unwrap()
}

#[test]
fn ada_registers_logs_in_and_is_refused_with_a_wrong_password() {
    let mut store = MemoryStore::new();
    let user_key = text(&mut store, add_user(s("Ada"), s("ada@x.com"), s("secret")));
    assert!(user_key.starts_with("user:"));
    let token = text(&mut store, get_user(s("ada@x.com"), s("secret")));
    assert!(token.starts_with("session:"));
    match store.run(get_user_session_data(token)) {
        Ok(Outcome::Account(user)) => {
            assert_eq!(user.get_forename(), "Ada");
            assert_eq!(user.get_email(), "ada@x.com");
            assert_ne!(user.get_password(), "secret");
        }
        other => panic!("{:?}", other),
    }
    assert_eq!(
        store.run(get_user(s("ada@x.com"), s("wrong"))),
        Err(Error::InvalidCredentials)
    );
}

#[test]
fn a_note_in_a_notebook_in_a_vault_keeps_what_was_written() {
    let mut store = MemoryStore::new();
    let vault_key = text(&mut store, create_vault(s("Work"), s("U1")));
    let vault_id = bare(&vault_key, "vault:");
    let notebook_key = text(&mut store, create_notebook(s("Ideas"), vault_id.clone()));
    let notebook_id = bare(&notebook_key, "notebook:");
    let note_key = text(&mut store, create_note(s("todo"), notebook_id.clone()));
    let note_id = bare(&note_key, "note:");
    assert_eq!(text(&mut store, read_note(note_id.clone())), "");
    assert_eq!(text(&mut store, save_note(note_id.clone(), s("buy milk"))), "buy milk");
    assert_eq!(text(&mut store, read_note(note_id.clone())), "buy milk");
    assert_eq!(names(&mut store, get_vaults(s("U1"))), vec![s("Work")]);
    assert_eq!(names(&mut store, get_notebooks(vault_id)), vec![s("Ideas")]);
    assert_eq!(names(&mut store, get_notes(notebook_id)), vec![s("todo")]);
    assert_eq!(text(&mut store, get_note_id(s("todo"))), note_id);
}

#[test]
fn the_ids_also_work_as_returned_with_their_prefix() {
    let mut store = MemoryStore::new();
    let vault_key = text(&mut store, create_vault(s("Work"), s("U1")));
    let notebook_key = text(&mut store, create_notebook(s("Ideas"), vault_key.clone()));
    text(&mut store, create_note(s("todo"), notebook_key.clone()));
    assert_eq!(names(&mut store, get_notebooks(vault_key)), vec![s("Ideas")]);
    assert_eq!(names(&mut store, get_notes(notebook_key)), vec![s("todo")]);
}

#[test]
fn a_created_user_resolves_and_decodes() {
    let mut store = MemoryStore::new();
    let key = text(&mut store, create_user(s("Ada"), s("ada@x.com"), s("hash")));
    let id = text(&mut store, get_user_id(s("ada@x.com")));
    assert_eq!(key, format!("user:{}", id));
    assert_eq!(id.chars().count(), 36);
    match store.execute(Command::GetFields { key }) {
        Reply::Fields(fields) => {
            let user = notes_store::models::User::from_record(&fields).unwrap();
            assert_eq!(user.get_forename(), "Ada");
            assert_eq!(user.get_email(), "ada@x.com");
            assert_eq!(user.get_password(), "hash");
        }
        other => panic!("{:?}", other),
    }
}

#[test]
fn an_unknown_email_is_not_found() {
    let mut store = MemoryStore::new();
    assert_eq!(store.run(get_user_id(s("ada@x.com"))), Err(Error::NotFound));
    assert_eq!(store.run(get_user(s("ada@x.com"), s("secret"))), Err(Error::NotFound));
}

#[test]
fn a_login_resolves_to_the_user_who_logged_in() {
    let mut store = MemoryStore::new();
    text(&mut store, create_user_with_id(s("Ada"), s("ada@x.com"), quick_hash("secret"), s("U1")));
    text(&mut store, create_user_with_id(s("Bob"), s("bob@x.com"), quick_hash("hunter2"), s("U2")));
    let ada = text(&mut store, get_user_with_token(s("ada@x.com"), s("secret"), s("T1")));
    let bob = text(&mut store, get_user_with_token(s("bob@x.com"), s("hunter2"), s("T2")));
    assert_eq!(ada, "session:T1");
    assert_eq!(bob, "session:T2");
    assert_eq!(text(&mut store, lookup_session(ada)), "U1");
    assert_eq!(text(&mut store, lookup_session(bob)), "U2");
    assert_eq!(text(&mut store, existing_session(s("U1"))), "T1");
}

#[test]
fn a_second_login_within_eight_hours_finds_the_first_session() {
    let mut store = MemoryStore::new();
    text(&mut store, create_user_with_id(s("Ada"), s("ada@x.com"), quick_hash("secret"), s("U1")));
    let first = text(&mut store, get_user_with_token(s("ada@x.com"), s("secret"), s("T1")));
    assert!(store.advance(28799));
    let second = text(&mut store, get_user_with_token(s("ada@x.com"), s("secret"), s("T2")));
    assert_eq!(first, "session:T1");
    assert_eq!(second, first);
    assert_eq!(store.run(lookup_session(s("session:T2"))), Err(Error::NotFound));
}

#[test]
fn a_login_after_eight_hours_issues_a_new_session() {
    let mut store = MemoryStore::new();
    text(&mut store, create_user_with_id(s("Ada"), s("ada@x.com"), quick_hash("secret"), s("U1")));
    text(&mut store, get_user_with_token(s("ada@x.com"), s("secret"), s("T1")));
    assert!(store.advance(28800));
    assert_eq!(store.run(lookup_session(s("session:T1"))), Err(Error::NotFound));
    assert_eq!(store.run(existing_session(s("U1"))), Err(Error::NotFound));
    let second = text(&mut store, get_user_with_token(s("ada@x.com"), s("secret"), s("T2")));
    assert_eq!(second, "session:T2");
    assert_eq!(text(&mut store, lookup_session(second)), "U1");
}

#[test]
fn two_logins_with_drawn_tokens_share_one_session() {
    let mut store = MemoryStore::new();
    text(&mut store, create_user(s("Ada"), s("ada@x.com"), quick_hash("secret")));
    let first = text(&mut store, get_user(s("ada@x.com"), s("secret")));
    let second = text(&mut store, get_user(s("ada@x.com"), s("secret")));
    assert_eq!(first, second);
    assert_eq!(first.chars().count(), "session:".len() + 36);
}

#[test]
fn an_issued_session_resolves_until_it_expires() {
    let mut store = MemoryStore::new();
    let key = text(&mut store, generate_session_token(s("U1")));
    assert_eq!(text(&mut store, lookup_session(key.clone())), "U1");
    assert_eq!(format!("session:{}", text(&mut store, existing_session(s("U1")))), key);
    assert!(store.advance(28800));
    assert_eq!(store.run(lookup_session(key)), Err(Error::NotFound));
}

#[test]
fn a_revoked_session_is_not_found() {
    let mut store = MemoryStore::new();
    let key = text(&mut store, issue_session("U1", "T1"));
    assert_eq!(text(&mut store, lookup_session(key.clone())), "U1");
    assert_eq!(store.run(delete_session(key.clone(), s("U1"))), Ok(Outcome::Flag(true)));
    assert_eq!(store.run(lookup_session(key.clone())), Err(Error::NotFound));
    assert_eq!(store.run(existing_session(s("U1"))), Err(Error::NotFound));
    assert_eq!(store.run(delete_session(key, s("U1"))), Ok(Outcome::Flag(true)));
}

#[test]
fn a_login_after_logout_issues_a_new_session() {
    let mut store = MemoryStore::new();
    text(&mut store, create_user_with_id(s("Ada"), s("ada@x.com"), quick_hash("secret"), s("U1")));
    let first = text(&mut store, get_user_with_token(s("ada@x.com"), s("secret"), s("T1")));
    store.run(delete_session(first, s("U1"))).unwrap();
    let second = text(&mut store, get_user_with_token(s("ada@x.com"), s("secret"), s("T2")));
    assert_eq!(second, "session:T2");
}

#[test]
fn session_data_of_a_user_whose_record_is_gone_is_a_missing_field() {
    let mut store = MemoryStore::new();
    text(&mut store, issue_session("U1", "T1"));
    assert_eq!(store.run(get_user_session_data(s("session:T1"))), Err(Error::MissingField));
    assert_eq!(store.run(get_user_session_data(s("session:T9"))), Err(Error::NotFound));
}

#[test]
fn a_created_vault_is_listed_once_and_gone_after_delete() {
    let mut store = MemoryStore::new();
    text(&mut store, create_vault_with_id(s("Home"), s("U1"), s("V0")));
    assert_eq!(names(&mut store, get_vaults(s("U1"))), vec![s("Home")]);
    text(&mut store, create_vault_with_id(s("Work"), s("U1"), s("V1")));
    let listed = names(&mut store, get_vaults(s("U1")));
    assert_eq!(listed.iter().filter(|n| *n == "Work").count(), 1);
    assert_eq!(listed, vec![s("Home"), s("Work")]);
    assert_eq!(text(&mut store, get_vault_id(s("Work"))), "V1");
    assert_eq!(store.run(delete_vault(s("V1"), s("Work"), s("U1"))), Ok(Outcome::Nothing));
    assert_eq!(names(&mut store, get_vaults(s("U1"))), vec![s("Home")]);
    assert_eq!(store.run(get_vault_id(s("Work"))), Err(Error::NotFound));
    assert_eq!(store.execute(Command::GetFields { key: s("vault:V1") }), Reply::Fields(vec![]));
}

#[test]
fn deleting_the_only_child_leaves_an_empty_listing() {
    let mut store = MemoryStore::new();
    text(&mut store, create_notebook(s("Ideas"), s("V1")));
    let id = text(&mut store, get_notebook_id(s("Ideas")));
    store.run(delete_notebook(id, s("Ideas"), s("V1"))).unwrap();
    assert_eq!(names(&mut store, get_notebooks(s("V1"))), Vec::<String>::new());
    assert_eq!(store.run(delete_note(s("X9"), s("none"), s("N9"))), Ok(Outcome::Nothing));
}

#[test]
fn listings_of_different_parents_and_kinds_are_apart() {
    let mut store = MemoryStore::new();
    text(&mut store, create_vault_with_id(s("Work"), s("U1"), s("V1")));
    text(&mut store, create_vault_with_id(s("Play"), s("U2"), s("V2")));
    assert_eq!(names(&mut store, get_vaults(s("U1"))), vec![s("Work")]);
    assert_eq!(names(&mut store, get_vaults(s("U2"))), vec![s("Play")]);
    assert_eq!(names(&mut store, get_vaults(s("U3"))), Vec::<String>::new());
    assert_eq!(names(&mut store, get_notebooks(s("U1"))), Vec::<String>::new());
    assert_eq!(store.run(get_notebook_id(s("Work"))), Err(Error::NotFound));
}

#[test]
fn the_second_vault_of_a_name_takes_the_name_over() {
    let mut store = MemoryStore::new();
    text(&mut store, create_vault_with_id(s("Personal"), s("U1"), s("V1")));
    assert_eq!(text(&mut store, get_vault_id(s("Personal"))), "V1");
    assert_eq!(
        store.run(create_vault_with_id(s("Personal"), s("U1"), s("V2"))),
        Ok(Outcome::Text(s("vault:V2")))
    );
    assert_eq!(text(&mut store, get_vault_id(s("Personal"))), "V2");
    assert_eq!(
        names(&mut store, get_vaults(s("U1"))),
        vec![s("Personal"), s("Personal")]
    );
}

#[test]
fn a_name_that_is_a_siblings_id_breaks_the_listing() {
    let mut store = MemoryStore::new();
    text(&mut store, create_vault_with_id(s("Work"), s("U1"), s("V1")));
    text(&mut store, create_vault_with_id(s("V1"), s("U1"), s("V2")));
    assert_eq!(store.run(get_vaults(s("U1"))), Err(Error::Store));
}

#[test]
fn a_name_that_is_its_own_id_fails_the_creation_half_way() {
    let mut store = MemoryStore::new();
    assert_eq!(
        store.run(create_vault_with_id(s("V1"), s("U1"), s("V1"))),
        Err(Error::Store)
    );
    assert_eq!(text(&mut store, get_vault_id(s("V1"))), "V1");
    assert_eq!(names(&mut store, get_vaults(s("U1"))), Vec::<String>::new());
}

#[test]
fn a_member_whose_record_is_gone_fails_the_listing() {
    let mut store = MemoryStore::new();
    text(&mut store, create_vault_with_id(s("Work"), s("U1"), s("V1")));
    text(&mut store, create_vault_with_id(s("Home"), s("U1"), s("V2")));
    store.execute(Command::Delete { key: s("vault:V1") });
    assert_eq!(store.run(get_vaults(s("U1"))), Err(Error::Store));
}

#[test]
fn a_note_is_overwritten_whole() {
    let mut store = MemoryStore::new();
    text(&mut store, notes_store::ops::create_note_with_id(s("todo"), s("N1"), s("X1")));
    text(&mut store, save_note(s("X1"), s("buy milk and bread")));
    text(&mut store, save_note(s("X1"), s("tea")));
    assert_eq!(text(&mut store, read_note(s("X1"))), "tea");
    assert_eq!(names(&mut store, get_notes(s("N1"))), vec![s("todo")]);
    assert_eq!(store.run(read_note(s("X2"))), Err(Error::NotFound));
}

#[test]
fn a_failed_write_leaves_the_earlier_ones_in_place() {
    let mut store = MemoryStore::new();
    store.execute(Command::Put { key: s("notebook:V1"), value: s("in the way") });
    assert_eq!(
        store.run(notes_store::ops::create_notebook_with_id(s("Ideas"), s("V1"), s("N1"))),
        Err(Error::Store)
    );
    assert_eq!(text(&mut store, get_notebook_id(s("Ideas"))), "N1");
    assert_eq!(
        store.execute(Command::GetField { key: s("notebook:N1"), field: s("name") }),
        Reply::Text(Some(s("Ideas")))
    );
    assert_eq!(
        store.execute(Command::Get { key: s("notebook:V1") }),
        Reply::Text(Some(s("in the way")))
    );
}
