//! Users, vaults, notebooks and notes: creating, listing, resolving and
//! deleting them.
//!
//! Each record is three keys of one kind: the hash `"{kind}:{id}"` with the
//! record's fields, the text `"{kind}:{name}"` that leads from its natural
//! key to its id, and its id in the set `"{kind}:{parent_id}"` of its
//! parent. Users have no parent and are found by email.
//!
//! Nothing is checked before a write. A second record under a natural key
//! takes the lookup over from the first.

use vstd::prelude::*;
use vstd::string::*;
use crate::client::reading;
use crate::error::Error;
use crate::ids::{is_id, random_id};
use crate::keys::{key, key_of, Entity};
use crate::machine::{
    plan, planned, Operation, OperationView, Outcome, OutcomeView, Progress, ProgressView,
};
use crate::models::{hash_password, password_matches, User, UserView};
use crate::protocol::{commands, pairs, Command, CommandView, Text};

verus! {

/// The commands that register a user under `id`: the lookup from the email
/// first, then the record.
pub open spec fn user_creation(user: UserView, id: Text) -> Seq<CommandView> {
    seq![
        CommandView::Put { key: key_of(Entity::User, user.email), value: id },
        CommandView::PutFields { key: key_of(Entity::User, id), fields: user.fields() },
    ]
}

/// The field in which a record of this kind names its parent.
pub open spec fn parent_field(entity: Entity) -> Text {
    match entity {
        Entity::Vault => "user_id"@,
        Entity::Notebook => "vault_id"@,
        Entity::Note => "notebook_id"@,
        _ => "parent_id"@,
    }
}

/// The fields of a new record: its name and its parent, and for a note its
/// content, which starts empty.
pub open spec fn child_fields(entity: Entity, name: Text, parent_id: Text) -> Seq<(Text, Text)> {
    if entity == Entity::Note {
        seq![("name"@, name), (parent_field(entity), parent_id), ("content"@, Seq::empty())]
    } else {
        seq![("name"@, name), (parent_field(entity), parent_id)]
    }
}

/// The commands that create a record under `id`: the lookup from its name,
/// the record, and its membership in the parent's set.
pub open spec fn child_creation(entity: Entity, name: Text, parent_id: Text, id: Text) -> Seq<
    CommandView,
> {
    seq![
        CommandView::Put { key: key_of(entity, name), value: id },
        CommandView::PutFields {
            key: key_of(entity, id),
            fields: child_fields(entity, name, parent_id),
        },
        CommandView::AddMember { key: key_of(entity, parent_id), member: id },
    ]
}

/// The commands that delete a record: the record, the lookup from its name,
/// and its membership in the parent's set, in that order.
pub open spec fn child_removal(entity: Entity, id: Text, name: Text, parent_id: Text) -> Seq<
    CommandView,
> {
    seq![
        CommandView::Delete { key: key_of(entity, id) },
        CommandView::Delete { key: key_of(entity, name) },
        CommandView::RemoveMember { key: key_of(entity, parent_id), member: id },
    ]
}

/// The progress of listing the names of the children of `parent_id`.
pub open spec fn children_listing(entity: Entity, parent_id: Text) -> ProgressView {
    ProgressView::Send {
        command: CommandView::GetMembers { key: key_of(entity, parent_id) },
        then: OperationView::ListingMembers { entity },
    }
}

/// The progress of logging in with a token at hand for a new session.
pub open spec fn login(email: Text, password: Text, token: Text) -> ProgressView {
    ProgressView::Send {
        command: CommandView::Get { key: key_of(Entity::User, email) },
        then: OperationView::AuthResolving { password, token },
    }
}

/// The name of the field in which a record of this kind names its parent.
fn parent_field_name(entity: Entity) -> (name: String)
    ensures
        name@ == parent_field(entity),
{
    match entity {
        Entity::Vault => String::from_str("user_id"),
        Entity::Notebook => String::from_str("vault_id"),
        Entity::Note => String::from_str("notebook_id"),
        _ => String::from_str("parent_id"),
    }
}

/// Starts creating a record of kind `entity` under `id`.
fn create_child(entity: Entity, name: String, parent_id: String, id: String) -> (progress: Progress)
    ensures
        progress@ == planned(
            child_creation(entity, name@, parent_id@, id@),
            OutcomeView::Text(key_of(entity, id@)),
        ),
{
    let name_key = key(entity, name.as_str());
    let id_key = key(entity, id.as_str());
    let set_key = key(entity, parent_id.as_str());
    let outcome = Outcome::Text(key(entity, id.as_str()));
    let mut fields: Vec<(String, String)> = Vec::new();
    fields.push((String::from_str("name"), name));
    fields.push((parent_field_name(entity), parent_id));
    match entity {
        Entity::Note => {
            fields.push((String::from_str("content"), String::new()));
        },
        _ => {},
    }
    proof {
        assert(pairs(fields@) =~= child_fields(entity, name@, parent_id@));
    }
    let mut steps: Vec<Command> = Vec::new();
    steps.push(Command::Put { key: name_key, value: id.clone() });
    steps.push(Command::PutFields { key: id_key, fields });
    steps.push(Command::AddMember { key: set_key, member: id });
    proof {
        assert(commands(steps@) =~= child_creation(entity, name@, parent_id@, id@));
    }
    plan(steps, outcome)
}

/// Starts listing the names of the children of `parent_id`.
fn list_children(entity: Entity, parent_id: String) -> (progress: Progress)
    ensures
        progress@ == children_listing(entity, parent_id@),
{
    Progress::Send {
        command: Command::GetMembers { key: key(entity, parent_id.as_str()) },
        then: Operation::ListingMembers { entity },
    }
}

/// Starts resolving a name to the id of the record that last took it.
fn child_id(entity: Entity, name: String) -> (progress: Progress)
    ensures
        progress@ == reading(CommandView::Get { key: key_of(entity, name@) }),
{
    Progress::Send {
        command: Command::Get { key: key(entity, name.as_str()) },
        then: Operation::Reading,
    }
}

/// Starts deleting a record of kind `entity`.
fn delete_child(entity: Entity, id: String, name: String, parent_id: String) -> (progress:
    Progress)
    ensures
        progress@ == planned(
            child_removal(entity, id@, name@, parent_id@),
            OutcomeView::Nothing,
        ),
{
    let mut steps: Vec<Command> = Vec::new();
    steps.push(Command::Delete { key: key(entity, id.as_str()) });
    steps.push(Command::Delete { key: key(entity, name.as_str()) });
    steps.push(Command::RemoveMember { key: key(entity, parent_id.as_str()), member: id });
    proof {
        assert(commands(steps@) =~= child_removal(entity, id@, name@, parent_id@));
    }
    plan(steps, Outcome::Nothing)
}

/// Registers a user under the given id. `password` is stored as it comes:
/// it is to be a hash already. The result is the record's key,
/// `user:<id>`.
pub fn create_user_with_id(forename: String, email: String, password: String, id: String) -> (progress:
    Progress)
    ensures
        progress@ == planned(
            user_creation(
                UserView { forename: forename@, email: email@, password: password@ },
                id@,
            ),
            OutcomeView::Text(key_of(Entity::User, id@)),
        ),
{
    let email_key = key(Entity::User, email.as_str());
    let id_key = key(Entity::User, id.as_str());
    let outcome = Outcome::Text(key(Entity::User, id.as_str()));
    let user = User::assign(forename, email, password);
    let mut steps: Vec<Command> = Vec::new();
    steps.push(Command::Put { key: email_key, value: id });
    steps.push(Command::PutFields { key: id_key, fields: user.to_record() });
    proof {
        assert(commands(steps@) =~= user_creation(user@, id@));
    }
    plan(steps, outcome)
}

/// Registers a user under an id drawn here, as every other id is: no
/// counter is kept. `password` is stored as it comes: it is to be a hash
/// already. The result is the record's key, `user:<id>`.
pub fn create_user(forename: String, email: String, password: String) -> (progress: Progress)
    ensures
        exists|id: Text|
            is_id(id) && progress@ == planned(
                user_creation(
                    UserView { forename: forename@, email: email@, password: password@ },
                    id,
                ),
                OutcomeView::Text(key_of(Entity::User, id)),
            ),
{
    let id = random_id();
    let ghost user = UserView { forename: forename@, email: email@, password: password@ };
    let ghost chosen = id@;
    let progress = create_user_with_id(forename, email, password, id);
    proof {
        assert(is_id(chosen) && progress@ == planned(
            user_creation(user, chosen),
            OutcomeView::Text(key_of(Entity::User, chosen)),
        ));
    }
    progress
}

/// Registers a user with a password in clear: the password is hashed, and
/// only the hash is sent to the store. Where hashing fails the operation is
/// over before its first command.
pub fn add_user(forename: String, email: String, password: String) -> (progress: Progress)
    ensures
        progress@ == ProgressView::Done(Err(Error::Hashing)) || exists|hash: Text, id: Text|
            #![auto]
            password_matches(password@, hash) && is_id(id) && progress@ == planned(
                user_creation(UserView { forename: forename@, email: email@, password: hash }, id),
                OutcomeView::Text(key_of(Entity::User, id)),
            ),
{
    match hash_password(password.as_str()) {
        Err(e) => Progress::Done(Err(e)),
        Ok(hash) => {
            let id = random_id();
            let ghost user = UserView { forename: forename@, email: email@, password: hash@ };
            let ghost chosen = id@;
            let ghost hashed = hash@;
            let progress = create_user_with_id(forename, email, hash, id);
            proof {
                assert(password_matches(password@, hashed) && is_id(chosen) && progress@
                    == planned(
                    user_creation(
                        UserView { forename: forename@, email: email@, password: hashed },
                        chosen,
                    ),
                    OutcomeView::Text(key_of(Entity::User, chosen)),
                ));
            }
            progress
        },
    }
}

/// Logs in, with `token` at hand should a session have to be issued.
///
/// The email leads to the user's id, the id to the record, and the record's
/// hash decides on the password. A session that the user still holds is
/// returned; else one is issued under `token`. Either way the result is the
/// key of the session record, `session:<token>`.
pub fn get_user_with_token(email: String, password: String, token: String) -> (progress:
    Progress)
    ensures
        progress@ == login(email@, password@, token@),
{
    Progress::Send {
        command: Command::Get { key: key(Entity::User, email.as_str()) },
        then: Operation::AuthResolving { password, token },
    }
}

/// Logs in. The token for a new session is drawn here, whether or not it
/// comes to be used.
pub fn get_user(email: String, password: String) -> (progress: Progress)
    ensures
        exists|token: Text| is_id(token) && progress@ == login(email@, password@, token),
{
    let token = random_id();
    let ghost chosen = token@;
    let progress = get_user_with_token(email, password, token);
    proof {
        assert(is_id(chosen) && progress@ == login(email@, password@, chosen));
    }
    progress
}

/// Creates a vault named `name` for `user_id`, under the given id. The
/// result is the record's key, `vault:<id>`.
pub fn create_vault_with_id(name: String, user_id: String, id: String) -> (progress: Progress)
    ensures
        progress@ == planned(
            child_creation(Entity::Vault, name@, user_id@, id@),
            OutcomeView::Text(key_of(Entity::Vault, id@)),
        ),
{
    create_child(Entity::Vault, name, user_id, id)
}

/// Creates a vault named `name` for `user_id`, under an id drawn here.
pub fn create_vault(name: String, user_id: String) -> (progress: Progress)
    ensures
        exists|id: Text|
            is_id(id) && progress@ == planned(
                child_creation(Entity::Vault, name@, user_id@, id),
                OutcomeView::Text(key_of(Entity::Vault, id)),
            ),
{
    let id = random_id();
    let ghost chosen = id@;
    let progress = create_child(Entity::Vault, name, user_id, id);
    proof {
        assert(is_id(chosen) && progress@ == planned(
            child_creation(Entity::Vault, name@, user_id@, chosen),
            OutcomeView::Text(key_of(Entity::Vault, chosen)),
        ));
    }
    progress
}

/// Lists the names of the vaults of `user_id`, in the store's order. A
/// vault whose record is gone fails the whole listing.
pub fn get_vaults(user_id: String) -> (progress: Progress)
    ensures
        progress@ == children_listing(Entity::Vault, user_id@),
{
    list_children(Entity::Vault, user_id)
}

/// Finds the id of the vault that last took `name`.
pub fn get_vault_id(name: String) -> (progress: Progress)
    ensures
        progress@ == reading(CommandView::Get { key: key_of(Entity::Vault, name@) }),
{
    child_id(Entity::Vault, name)
}

/// Deletes a vault: its record, the lookup from its name, and its
/// membership among the vaults of `user_id`.
pub fn delete_vault(vault_id: String, vault_name: String, user_id: String) -> (progress: Progress)
    ensures
        progress@ == planned(
            child_removal(Entity::Vault, vault_id@, vault_name@, user_id@),
            OutcomeView::Nothing,
        ),
{
    delete_child(Entity::Vault, vault_id, vault_name, user_id)
}

/// Creates a notebook named `name` in `vault_id`, under the given id. The
/// result is the record's key, `notebook:<id>`.
pub fn create_notebook_with_id(name: String, vault_id: String, id: String) -> (progress:
    Progress)
    ensures
        progress@ == planned(
            child_creation(Entity::Notebook, name@, vault_id@, id@),
            OutcomeView::Text(key_of(Entity::Notebook, id@)),
        ),
{
    create_child(Entity::Notebook, name, vault_id, id)
}

/// Creates a notebook named `name` in `vault_id`, under an id drawn here.
pub fn create_notebook(name: String, vault_id: String) -> (progress: Progress)
    ensures
        exists|id: Text|
            is_id(id) && progress@ == planned(
                child_creation(Entity::Notebook, name@, vault_id@, id),
                OutcomeView::Text(key_of(Entity::Notebook, id)),
            ),
{
    let id = random_id();
    let ghost chosen = id@;
    let progress = create_child(Entity::Notebook, name, vault_id, id);
    proof {
        assert(is_id(chosen) && progress@ == planned(
            child_creation(Entity::Notebook, name@, vault_id@, chosen),
            OutcomeView::Text(key_of(Entity::Notebook, chosen)),
        ));
    }
    progress
}

/// Lists the names of the notebooks of `vault_id`, in the store's order.
pub fn get_notebooks(vault_id: String) -> (progress: Progress)
    ensures
        progress@ == children_listing(Entity::Notebook, vault_id@),
{
    list_children(Entity::Notebook, vault_id)
}

/// Finds the id of the notebook that last took `name`.
pub fn get_notebook_id(name: String) -> (progress: Progress)
    ensures
        progress@ == reading(CommandView::Get { key: key_of(Entity::Notebook, name@) }),
{
    child_id(Entity::Notebook, name)
}

/// Deletes a notebook: its record, the lookup from its name, and its
/// membership among the notebooks of `vault_id`.
pub fn delete_notebook(notebook_id: String, notebook_name: String, vault_id: String) -> (progress:
    Progress)
    ensures
        progress@ == planned(
            child_removal(Entity::Notebook, notebook_id@, notebook_name@, vault_id@),
            OutcomeView::Nothing,
        ),
{
    delete_child(Entity::Notebook, notebook_id, notebook_name, vault_id)
}

/// Creates a note named `name` in `notebook_id`, under the given id. Its
/// content starts empty. The result is the record's key, `note:<id>`.
pub fn create_note_with_id(name: String, notebook_id: String, id: String) -> (progress: Progress)
    ensures
        progress@ == planned(
            child_creation(Entity::Note, name@, notebook_id@, id@),
            OutcomeView::Text(key_of(Entity::Note, id@)),
        ),
{
    create_child(Entity::Note, name, notebook_id, id)
}

/// Creates a note named `name` in `notebook_id`, under an id drawn here.
pub fn create_note(name: String, notebook_id: String) -> (progress: Progress)
    ensures
        exists|id: Text|
            is_id(id) && progress@ == planned(
                child_creation(Entity::Note, name@, notebook_id@, id),
                OutcomeView::Text(key_of(Entity::Note, id)),
            ),
{
    let id = random_id();
    let ghost chosen = id@;
    let progress = create_child(Entity::Note, name, notebook_id, id);
    proof {
        assert(is_id(chosen) && progress@ == planned(
            child_creation(Entity::Note, name@, notebook_id@, chosen),
            OutcomeView::Text(key_of(Entity::Note, chosen)),
        ));
    }
    progress
}

/// Lists the names of the notes of `notebook_id`, in the store's order.
pub fn get_notes(notebook_id: String) -> (progress: Progress)
    ensures
        progress@ == children_listing(Entity::Note, notebook_id@),
{
    list_children(Entity::Note, notebook_id)
}

/// Finds the id of the note that last took `name`.
pub fn get_note_id(name: String) -> (progress: Progress)
    ensures
        progress@ == reading(CommandView::Get { key: key_of(Entity::Note, name@) }),
{
    child_id(Entity::Note, name)
}

/// Reads the content of the note `id`. Fails with `NotFound` where the note
/// does not exist.
pub fn read_note(id: String) -> (progress: Progress)
    ensures
        progress@ == reading(
            CommandView::GetField { key: key_of(Entity::Note, id@), field: "content"@ },
        ),
{
    Progress::Send {
        command: Command::GetField {
            key: key(Entity::Note, id.as_str()),
            field: String::from_str("content"),
        },
        then: Operation::Reading,
    }
}

/// The commands that write a note's content: the one field, whole.
pub open spec fn note_write(id: Text, content: Text) -> Seq<CommandView> {
    seq![
        CommandView::PutFields {
            key: key_of(Entity::Note, id),
            fields: seq![("content"@, content)],
        },
    ]
}

/// Writes `content` as the content of the note `id`, over what was there.
/// The result is the content as written.
pub fn save_note(id: String, content: String) -> (progress: Progress)
    ensures
        progress@ == planned(note_write(id@, content@), OutcomeView::Text(content@)),
{
    let mut fields: Vec<(String, String)> = Vec::new();
    fields.push((String::from_str("content"), content.clone()));
    proof {
        assert(pairs(fields@) =~= seq![("content"@, content@)]);
    }
    let mut steps: Vec<Command> = Vec::new();
    steps.push(Command::PutFields { key: key(Entity::Note, id.as_str()), fields });
    proof {
        assert(commands(steps@) =~= note_write(id@, content@));
    }
    plan(steps, Outcome::Text(content))
}

/// Deletes a note: its record, the lookup from its name, and its membership
/// among the notes of `notebook_id`.
pub fn delete_note(note_id: String, note_name: String, notebook_id: String) -> (progress: Progress)
    ensures
        progress@ == planned(
            child_removal(Entity::Note, note_id@, note_name@, notebook_id@),
            OutcomeView::Nothing,
        ),
{
    delete_child(Entity::Note, note_id, note_name, notebook_id)
}

} // verus!
