//! Registration: a user that was created is found again, whole.

use vstd::prelude::*;
use crate::client::reading;
use crate::error::Error;
use crate::keys::{key_of, lemma_key_injective, Entity};
use crate::laws::takes_hash;
use crate::machine::{planned, run, OperationView, OutcomeView, ProgressView};
use crate::model::{Store, Value};
use crate::models::UserView;
use crate::ops::user_creation;
use crate::protocol::{record_of, CommandView, Text};

verus! {

/// The progress of loading and decoding the record of the user `id`.
pub open spec fn user_load(id: Text) -> ProgressView {
    ProgressView::Send {
        command: CommandView::GetFields { key: key_of(Entity::User, id) },
        then: OperationView::LoadingUser,
    }
}

/// What is encoded decodes to the same user: the fields of a user, written
/// to a free key or over a record that was there, read back as that user.
pub proof fn law_user_record_reads_back(user: UserView, base: Map<Text, Text>)
    ensures
        UserView::decode(record_of(user.fields())) == Some(user),
        UserView::decode(base.union_prefer_right(record_of(user.fields()))) == Some(user),
{
    reveal_strlit("forename");
    reveal_strlit("email");
    reveal_strlit("password");
    reveal_with_fuel(record_of, 4);
    let fields = user.fields();
    assert("forename"@[0] == 'f' && "password"@[0] == 'p');
    assert("forename"@ != "email"@ && "forename"@ != "password"@ && "email"@ != "password"@);
    assert(fields.drop_last() =~= seq![("forename"@, user.forename), ("email"@, user.email)]);
    assert(fields.drop_last().drop_last() =~= seq![("forename"@, user.forename)]);
    assert(fields.drop_last().drop_last().drop_last() =~= Seq::<(Text, Text)>::empty());
}

/// A user that was created is found: the email resolves to the id, and the
/// record under the id decodes to the user, with no field missing.
///
/// The id must differ from the email, and its key must not hold a text or a
/// set. An id drawn afresh meets both unless the email reads as that id.
pub proof fn law_created_user_is_found(store: Store, user: UserView, id: Text)
    requires
        id != user.email,
        takes_hash(store, key_of(Entity::User, id)),
    ensures
        ({
            let created = run(
                store,
                planned(user_creation(user, id), OutcomeView::Text(key_of(Entity::User, id))),
            );
            &&& created.result == Ok::<OutcomeView, Error>(
                OutcomeView::Text(key_of(Entity::User, id)),
            )
            &&& run(
                created.store,
                reading(CommandView::Get { key: key_of(Entity::User, user.email) }),
            ).result == Ok::<OutcomeView, Error>(OutcomeView::Text(id))
            &&& run(created.store, user_load(id)).result == Ok::<OutcomeView, Error>(
                OutcomeView::Account(user),
            )
        }),
{
    reveal_with_fuel(run, 4);
    lemma_key_injective(Entity::User, id, Entity::User, user.email);
    let steps = user_creation(user, id);
    assert(steps.drop_first() =~= seq![
        CommandView::PutFields { key: key_of(Entity::User, id), fields: user.fields() },
    ]);
    assert(steps.drop_first().drop_first() =~= Seq::<CommandView>::empty());
    assert(user.fields().len() == 3);
    let base = match store.value(key_of(Entity::User, id)) {
        Some(Value::Hash(record)) => record,
        _ => Map::empty(),
    };
    law_user_record_reads_back(user, base);
}

/// Whether `email` is registered in `store` under `id`, with a record that
/// decodes to `user`.
pub open spec fn registered(store: Store, email: Text, id: Text, user: UserView) -> bool {
    &&& store.value(key_of(Entity::User, email)) == Some(Value::Text(id))
    &&& store.value(key_of(Entity::User, id)) matches Some(Value::Hash(record))
    &&& UserView::decode(record) == Some(user)
}

} // verus!
