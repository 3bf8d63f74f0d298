//! Vaults, notebooks and notes: the record, the lookup from its name and the
//! membership in its parent's set stay in step.

use vstd::prelude::*;
use crate::client::reading;
use crate::error::Error;
use crate::keys::{key_of, lemma_key_injective, Entity};
use crate::laws::{takes_hash, takes_members};
use crate::machine::{listing, planned, run, OutcomeView, ProgressView, Run};
use crate::model::{with_member, without, Store, Value};
use crate::models::field;
use crate::ops::{
    child_creation, child_fields, child_removal, children_listing, note_write, parent_field,
};
use crate::protocol::{record_of, CommandView, ReplyView, Text};

verus! {

/// The members of the set under `key`; none where the key holds no set.
pub open spec fn members_of(store: Store, key: Text) -> Seq<Text> {
    match store.value(key) {
        Some(Value::Members(members)) => members,
        _ => Seq::empty(),
    }
}

/// The name that the record `id` shows, if the store hands it out.
pub open spec fn name_of(store: Store, entity: Entity, id: Text) -> Option<Text> {
    match store.reply(CommandView::GetField { key: key_of(entity, id), field: "name"@ }) {
        ReplyView::Text(Some(name)) => Some(name),
        _ => None,
    }
}

/// A listing reads one name after another and changes nothing. It ends well
/// exactly when every record still shows a name, with the names in the
/// order of the ids.
proof fn lemma_listing_runs(store: Store, entity: Entity, ids: Seq<Text>, names: Seq<Text>)
    requires
        names.len() <= ids.len(),
    ensures
        run(store, listing(entity, ids, names)).store == store,
        match run(store, listing(entity, ids, names)).result {
            Ok(OutcomeView::Names(all)) => {
                &&& all.len() == ids.len()
                &&& forall|i: int| 0 <= i < names.len() ==> all[i] == names[i]
                &&& forall|i: int|
                    names.len() <= i < ids.len() ==> name_of(store, entity, ids[i]) == Some(
                        #[trigger] all[i],
                    )
            },
            Ok(_) => false,
            Err(_) => exists|i: int|
                names.len() <= i < ids.len() && #[trigger] name_of(store, entity, ids[i])
                    is None,
        },
    decreases ids.len() - names.len(),
{
    reveal_with_fuel(run, 2);
    if names.len() < ids.len() {
        let id = ids[names.len() as int];
        match name_of(store, entity, id) {
            Some(name) => {
                lemma_listing_runs(store, entity, ids, names.push(name));
                let rest = run(store, listing(entity, ids, names.push(name)));
                assert(run(store, listing(entity, ids, names)) == rest);
                match rest.result {
                    Ok(OutcomeView::Names(all)) => {
                        assert(all[names.len() as int] == names.push(name)[names.len() as int]);
                        assert forall|i: int| 0 <= i < names.len() implies all[i] == names[i] by {
                            assert(names.push(name)[i] == names[i]);
                        }
                    },
                    _ => {},
                }
            },
            None => {
                assert(run(store, listing(entity, ids, names)).result is Err);
            },
        }
    }
}

/// Listing the children of a parent reads the parent's set and then the
/// name of each member.
proof fn lemma_children_listing_runs(store: Store, entity: Entity, parent_id: Text)
    ensures
        run(store, children_listing(entity, parent_id)).store == store,
        match run(store, children_listing(entity, parent_id)).result {
            Ok(OutcomeView::Names(all)) => {
                let ids = members_of(store, key_of(entity, parent_id));
                &&& takes_members(store, key_of(entity, parent_id))
                &&& all.len() == ids.len()
                &&& forall|i: int|
                    0 <= i < ids.len() ==> name_of(store, entity, ids[i]) == Some(
                        #[trigger] all[i],
                    )
            },
            Ok(_) => false,
            Err(_) => !takes_members(store, key_of(entity, parent_id)) || exists|i: int|
                0 <= i < members_of(store, key_of(entity, parent_id)).len() && #[trigger] name_of(
                    store,
                    entity,
                    members_of(store, key_of(entity, parent_id))[i],
                ) is None,
        },
{
    reveal_with_fuel(run, 2);
    if takes_members(store, key_of(entity, parent_id)) {
        lemma_listing_runs(
            store,
            entity,
            members_of(store, key_of(entity, parent_id)),
            Seq::empty(),
        );
    }
}

/// The store after the record `id` was created.
#[verifier::opaque]
pub open spec fn created(store: Store, entity: Entity, name: Text, parent_id: Text, id: Text) -> Store {
    let steps = child_creation(entity, name, parent_id, id);
    store.after(steps[0]).after(steps[1]).after(steps[2])
}

/// The store after the record `id` was deleted.
#[verifier::opaque]
pub open spec fn removed(store: Store, entity: Entity, id: Text, name: Text, parent_id: Text) -> Store {
    let steps = child_removal(entity, id, name, parent_id);
    store.after(steps[0]).after(steps[1]).after(steps[2])
}

/// The name of a new record can be read back from its fields.
proof fn lemma_child_fields_name(entity: Entity, name: Text, parent_id: Text, base: Map<Text, Text>)
    ensures
        field(record_of(child_fields(entity, name, parent_id)), "name"@) == Some(name),
        field(
            base.union_prefer_right(record_of(child_fields(entity, name, parent_id))),
            "name"@,
        ) == Some(name),
        child_fields(entity, name, parent_id).len() > 0,
{
    reveal_strlit("name");
    reveal_strlit("user_id");
    reveal_strlit("vault_id");
    reveal_strlit("notebook_id");
    reveal_strlit("parent_id");
    reveal_strlit("content");
    reveal_with_fuel(record_of, 4);
    let fields = child_fields(entity, name, parent_id);
    assert("name"@.len() == 4);
    assert("name"@ != "user_id"@ && "name"@ != "vault_id"@ && "name"@ != "notebook_id"@ && "name"@
        != "parent_id"@ && "name"@ != "content"@);
    if entity == Entity::Note {
        assert(fields.drop_last() =~= seq![("name"@, name), (parent_field(entity), parent_id)]);
        assert(fields.drop_last().drop_last() =~= seq![("name"@, name)]);
        assert(fields.drop_last().drop_last().drop_last() =~= Seq::<(Text, Text)>::empty());
    } else {
        assert(fields.drop_last() =~= seq![("name"@, name)]);
        assert(fields.drop_last().drop_last() =~= Seq::<(Text, Text)>::empty());
    }
}

/// Creating a record ends well where its three keys differ and can take
/// what is written to them. It leaves `created` behind: the name leads to
/// the id, the record shows the name, the id has joined the parent's set,
/// and every other key is as it was.
proof fn lemma_creation_runs(
    store: Store,
    entity: Entity,
    name: Text,
    parent_id: Text,
    id: Text,
    outcome: OutcomeView,
)
    requires
        name != id,
        name != parent_id,
        id != parent_id,
        takes_hash(store, key_of(entity, id)),
        takes_members(store, key_of(entity, parent_id)),
    ensures
        run(store, planned(child_creation(entity, name, parent_id, id), outcome)) == (Run {
            result: Ok(outcome),
            store: created(store, entity, name, parent_id, id),
        }),
        ({
            let after = created(store, entity, name, parent_id, id);
            &&& after.now == store.now
            &&& after.value(key_of(entity, name)) == Some(Value::Text(id))
            &&& name_of(after, entity, id) == Some(name)
            &&& after.value(key_of(entity, parent_id)) == Some(
                Value::Members(with_member(members_of(store, key_of(entity, parent_id)), id)),
            )
            &&& forall|key: Text|
                key != key_of(entity, name) && key != key_of(entity, id) && key != key_of(
                    entity,
                    parent_id,
                ) ==> #[trigger] after.value(key) == store.value(key)
        }),
{
    reveal(created);
    reveal_with_fuel(run, 5);
    lemma_key_injective(entity, name, entity, id);
    lemma_key_injective(entity, name, entity, parent_id);
    lemma_key_injective(entity, id, entity, parent_id);
    let steps = child_creation(entity, name, parent_id, id);
    assert(steps.drop_first() =~= seq![steps[1], steps[2]]);
    assert(steps.drop_first().drop_first() =~= seq![steps[2]]);
    assert(steps.drop_first().drop_first().drop_first() =~= Seq::<CommandView>::empty());
    let base = match store.value(key_of(entity, id)) {
        Some(Value::Hash(record)) => record,
        _ => Map::empty(),
    };
    lemma_child_fields_name(entity, name, parent_id, base);
    let ids = members_of(store, key_of(entity, parent_id));
    if store.value(key_of(entity, parent_id)) is None {
        assert(with_member(ids, id) =~= seq![id]);
    }
}

/// Removing a value that is not there changes nothing.
proof fn lemma_without_absent(members: Seq<Text>, member: Text)
    requires
        !members.contains(member),
    ensures
        without(members, member) == members,
    decreases members.len(),
{
    if members.len() > 0 {
        assert(members.last() == members[members.len() - 1]);
        assert forall|i: int| 0 <= i < members.drop_last().len() implies members.drop_last()[i]
            != member by {
            assert(members.drop_last()[i] == members[i]);
        }
        lemma_without_absent(members.drop_last(), member);
        assert(members.drop_last().push(members.last()) =~= members);
    }
}

/// What was removed from a set is in it no more.
proof fn lemma_without_excludes(members: Seq<Text>, member: Text)
    ensures
        !without(members, member).contains(member),
    decreases members.len(),
{
    if members.len() > 0 {
        lemma_without_excludes(members.drop_last(), member);
        let rest = without(members.drop_last(), member);
        if members.last() != member {
            assert forall|i: int| 0 <= i < rest.push(members.last()).len() implies rest.push(
                members.last(),
            )[i] != member by {
                if i < rest.len() {
                    assert(rest[i] == rest.push(members.last())[i]);
                    assert(rest.contains(rest[i]));
                }
            }
        }
    }
}

/// Deleting a record ends well where the parent's key can hold a set, and
/// leaves `removed` behind.
proof fn lemma_removal_runs(
    store: Store,
    entity: Entity,
    id: Text,
    name: Text,
    parent_id: Text,
    outcome: OutcomeView,
)
    requires
        takes_members(store, key_of(entity, parent_id)),
    ensures
        run(store, planned(child_removal(entity, id, name, parent_id), outcome)) == (Run {
            result: Ok(outcome),
            store: removed(store, entity, id, name, parent_id),
        }),
        forall|key: Text|
            key != key_of(entity, name) && key != key_of(entity, id) && key != key_of(
                entity,
                parent_id,
            ) ==> #[trigger] removed(store, entity, id, name, parent_id).value(key)
                == store.value(key),
{
    reveal(removed);
    reveal_with_fuel(run, 5);
    let steps = child_removal(entity, id, name, parent_id);
    assert(steps.drop_first() =~= seq![steps[1], steps[2]]);
    assert(steps.drop_first().drop_first() =~= seq![steps[2]]);
    assert(steps.drop_first().drop_first().drop_first() =~= Seq::<CommandView>::empty());
}

/// The progress of resolving a name to an id.
pub open spec fn resolving(entity: Entity, name: Text) -> ProgressView {
    reading(CommandView::Get { key: key_of(entity, name) })
}

/// A record that was deleted is gone: its key is free, its name resolves to
/// nothing, and its id is no member of the parent's set. This holds of every
/// store in which the parent's key can hold a set.
pub proof fn law_deleted_child_is_gone(
    store: Store,
    entity: Entity,
    id: Text,
    name: Text,
    parent_id: Text,
)
    requires
        takes_members(store, key_of(entity, parent_id)),
    ensures
        ({
            let deleted = run(
                store,
                planned(child_removal(entity, id, name, parent_id), OutcomeView::Nothing),
            );
            &&& deleted.result == Ok::<OutcomeView, Error>(OutcomeView::Nothing)
            &&& deleted.store.value(key_of(entity, id)) is None
            &&& run(deleted.store, resolving(entity, name)).result == Err::<OutcomeView, Error>(
                Error::NotFound,
            )
            &&& !members_of(deleted.store, key_of(entity, parent_id)).contains(id)
        }),
{
    reveal(removed);
    lemma_removal_runs(store, entity, id, name, parent_id, OutcomeView::Nothing);
    reveal_with_fuel(run, 2);
    let before = removed(store, entity, id, name, parent_id);
    let steps = child_removal(entity, id, name, parent_id);
    let second = store.after(steps[0]).after(steps[1]);
    lemma_without_excludes(members_of(second, key_of(entity, parent_id)), id);
    assert(!Seq::<Text>::empty().contains(id));
}

/// What the law of listing asks of a store before a record is created in
/// it: the listing of the parent's children ends well with `before`, the id
/// is free, the three keys of the record differ, and the name is not the id
/// of a sibling.
pub open spec fn ready_for_child(
    store: Store,
    entity: Entity,
    name: Text,
    parent_id: Text,
    id: Text,
    before: Seq<Text>,
) -> bool {
    &&& run(store, children_listing(entity, parent_id)).result == Ok::<OutcomeView, Error>(
        OutcomeView::Names(before),
    )
    &&& store.value(key_of(entity, id)) is None
    &&& name != id
    &&& name != parent_id
    &&& id != parent_id
    &&& !members_of(store, key_of(entity, parent_id)).contains(name)
}

/// Where the listing ends well, the siblings' records are hashes, so a free
/// id is none of them and the parent's id is none of them either.
proof fn lemma_siblings_differ(
    store: Store,
    entity: Entity,
    name: Text,
    parent_id: Text,
    id: Text,
    before: Seq<Text>,
)
    requires
        ready_for_child(store, entity, name, parent_id, id, before),
    ensures
        takes_members(store, key_of(entity, parent_id)),
        before.len() == members_of(store, key_of(entity, parent_id)).len(),
        forall|i: int|
            0 <= i < before.len() ==> {
                let sibling = #[trigger] members_of(store, key_of(entity, parent_id))[i];
                &&& name_of(store, entity, sibling) == Some(before[i])
                &&& sibling != id
                &&& sibling != name
                &&& sibling != parent_id
                &&& key_of(entity, sibling) != key_of(entity, id)
                &&& key_of(entity, sibling) != key_of(entity, name)
                &&& key_of(entity, sibling) != key_of(entity, parent_id)
            },
        !members_of(store, key_of(entity, parent_id)).contains(id),
{
    lemma_children_listing_runs(store, entity, parent_id);
    let ids = members_of(store, key_of(entity, parent_id));
    assert forall|i: int| 0 <= i < before.len() implies ({
        let sibling = #[trigger] ids[i];
        &&& name_of(store, entity, sibling) == Some(before[i])
        &&& sibling != id
        &&& sibling != name
        &&& sibling != parent_id
        &&& key_of(entity, sibling) != key_of(entity, id)
        &&& key_of(entity, sibling) != key_of(entity, name)
        &&& key_of(entity, sibling) != key_of(entity, parent_id)
    }) by {
        let sibling = ids[i];
        assert(name_of(store, entity, sibling) == Some(before[i]));
        assert(ids.contains(sibling));
        lemma_key_injective(entity, sibling, entity, id);
        lemma_key_injective(entity, sibling, entity, name);
        lemma_key_injective(entity, sibling, entity, parent_id);
    }
}

/// A record that was created is listed and found.
///
/// Its id has joined the set of its parent, in which it was not before, and
/// no other set. The listing of the parent's children is the listing from
/// before with the new name at its end (the model lists members oldest
/// first), so the new name occurs once more than before: exactly once where
/// it is new to the parent. The name resolves to the new id, and the record
/// under the id shows the name.
pub proof fn law_created_child_is_listed(
    store: Store,
    entity: Entity,
    name: Text,
    parent_id: Text,
    id: Text,
    before: Seq<Text>,
)
    requires
        ready_for_child(store, entity, name, parent_id, id, before),
    ensures
        ({
            let made = run(
                store,
                planned(
                    child_creation(entity, name, parent_id, id),
                    OutcomeView::Text(key_of(entity, id)),
                ),
            );
            let after = before.push(name);
            &&& made.result == Ok::<OutcomeView, Error>(OutcomeView::Text(key_of(entity, id)))
            &&& made.store == created(store, entity, name, parent_id, id)
            &&& run(made.store, children_listing(entity, parent_id)).result == Ok::<
                OutcomeView,
                Error,
            >(OutcomeView::Names(after))
            &&& run(made.store, resolving(entity, name)).result == Ok::<OutcomeView, Error>(
                OutcomeView::Text(id),
            )
            &&& name_of(made.store, entity, id) == Some(name)
            &&& !members_of(store, key_of(entity, parent_id)).contains(id)
            &&& members_of(made.store, key_of(entity, parent_id)) == members_of(
                store,
                key_of(entity, parent_id),
            ).push(id)
            &&& after.to_multiset().count(name) == before.to_multiset().count(name) + 1
            &&& !before.contains(name) ==> after.to_multiset().count(name) == 1
        }),
{
    broadcast use vstd::seq_lib::group_to_multiset_ensures;

    lemma_siblings_differ(store, entity, name, parent_id, id, before);
    lemma_creation_runs(
        store,
        entity,
        name,
        parent_id,
        id,
        OutcomeView::Text(key_of(entity, id)),
    );
    let made = created(store, entity, name, parent_id, id);
    let ids = members_of(store, key_of(entity, parent_id));
    let grown = members_of(made, key_of(entity, parent_id));
    assert(grown == ids.push(id));
    lemma_children_listing_runs(made, entity, parent_id);
    assert forall|i: int| 0 <= i < grown.len() implies name_of(made, entity, #[trigger] grown[i])
        == Some(before.push(name)[i]) by {
        if i < ids.len() {
            let sibling = ids[i];
            assert(made.value(key_of(entity, sibling)) == store.value(key_of(entity, sibling)));
        }
    }
    match run(made, children_listing(entity, parent_id)).result {
        Ok(OutcomeView::Names(all)) => {
            assert(all =~= before.push(name));
        },
        _ => {},
    }
    reveal_with_fuel(run, 2);
    if !before.contains(name) {
        assert(before.to_multiset().count(name) == 0);
    }
}

/// A record that was created and then deleted leaves the listing as it was
/// before, and its name resolves to nothing.
pub proof fn law_created_then_deleted_child_is_unlisted(
    store: Store,
    entity: Entity,
    name: Text,
    parent_id: Text,
    id: Text,
    before: Seq<Text>,
)
    requires
        ready_for_child(store, entity, name, parent_id, id, before),
    ensures
        ({
            let made = created(store, entity, name, parent_id, id);
            let deleted = run(
                made,
                planned(child_removal(entity, id, name, parent_id), OutcomeView::Nothing),
            );
            &&& deleted.result == Ok::<OutcomeView, Error>(OutcomeView::Nothing)
            &&& run(deleted.store, children_listing(entity, parent_id)).result == Ok::<
                OutcomeView,
                Error,
            >(OutcomeView::Names(before))
            &&& run(deleted.store, resolving(entity, name)).result == Err::<OutcomeView, Error>(
                Error::NotFound,
            )
        }),
{
    reveal(removed);
    lemma_siblings_differ(store, entity, name, parent_id, id, before);
    lemma_creation_runs(store, entity, name, parent_id, id, OutcomeView::Nothing);
    let made = created(store, entity, name, parent_id, id);
    law_deleted_child_is_gone(made, entity, id, name, parent_id);
    lemma_removal_runs(made, entity, id, name, parent_id, OutcomeView::Nothing);
    let gone = removed(made, entity, id, name, parent_id);
    let ids = members_of(store, key_of(entity, parent_id));
    lemma_key_injective(entity, name, entity, id);
    lemma_key_injective(entity, name, entity, parent_id);
    lemma_key_injective(entity, id, entity, parent_id);
    assert(ids.push(id).drop_last() =~= ids);
    lemma_without_absent(ids, id);
    assert(without(ids.push(id), id) == ids);
    assert(members_of(gone, key_of(entity, parent_id)) == ids);
    lemma_children_listing_runs(gone, entity, parent_id);
    assert forall|i: int| 0 <= i < ids.len() implies name_of(gone, entity, #[trigger] ids[i])
        == Some(before[i]) by {
        let sibling = ids[i];
        assert(gone.value(key_of(entity, sibling)) == made.value(key_of(entity, sibling)));
        assert(made.value(key_of(entity, sibling)) == store.value(key_of(entity, sibling)));
    }
    match run(gone, children_listing(entity, parent_id)).result {
        Ok(OutcomeView::Names(all)) => {
            assert(all =~= before);
        },
        _ => {},
    }
}

/// A name leads to the record that took it last.
///
/// Two records created under one name both exist afterwards; the second
/// creation is not refused, and the name resolves to the second id. The
/// name must read as neither id nor parent, no id as a parent, and the keys
/// must be able to take what is written to them.
pub proof fn law_latest_child_takes_name(
    store: Store,
    entity: Entity,
    name: Text,
    first_parent: Text,
    first_id: Text,
    second_parent: Text,
    second_id: Text,
)
    requires
        name != first_id,
        name != second_id,
        name != first_parent,
        name != second_parent,
        first_id != first_parent,
        first_id != second_parent,
        second_id != first_parent,
        second_id != second_parent,
        takes_hash(store, key_of(entity, first_id)),
        takes_hash(store, key_of(entity, second_id)),
        takes_members(store, key_of(entity, first_parent)),
        takes_members(store, key_of(entity, second_parent)),
    ensures
        ({
            let first = run(
                store,
                planned(
                    child_creation(entity, name, first_parent, first_id),
                    OutcomeView::Text(key_of(entity, first_id)),
                ),
            );
            let second = run(
                first.store,
                planned(
                    child_creation(entity, name, second_parent, second_id),
                    OutcomeView::Text(key_of(entity, second_id)),
                ),
            );
            &&& first.result == Ok::<OutcomeView, Error>(
                OutcomeView::Text(key_of(entity, first_id)),
            )
            &&& run(first.store, resolving(entity, name)).result == Ok::<OutcomeView, Error>(
                OutcomeView::Text(first_id),
            )
            &&& second.result == Ok::<OutcomeView, Error>(
                OutcomeView::Text(key_of(entity, second_id)),
            )
            &&& run(second.store, resolving(entity, name)).result == Ok::<OutcomeView, Error>(
                OutcomeView::Text(second_id),
            )
            &&& name_of(second.store, entity, second_id) == Some(name)
            &&& first_id != second_id ==> name_of(second.store, entity, first_id) == Some(name)
        }),
{
    reveal_with_fuel(run, 2);
    lemma_creation_runs(
        store,
        entity,
        name,
        first_parent,
        first_id,
        OutcomeView::Text(key_of(entity, first_id)),
    );
    let first = created(store, entity, name, first_parent, first_id);
    lemma_key_injective(entity, second_id, entity, name);
    lemma_key_injective(entity, second_id, entity, first_id);
    lemma_key_injective(entity, second_id, entity, first_parent);
    lemma_key_injective(entity, second_parent, entity, name);
    lemma_key_injective(entity, second_parent, entity, first_id);
    lemma_key_injective(entity, second_parent, entity, first_parent);
    lemma_key_injective(entity, first_id, entity, name);
    assert(takes_hash(first, key_of(entity, second_id)));
    assert(takes_members(first, key_of(entity, second_parent)));
    lemma_creation_runs(
        first,
        entity,
        name,
        second_parent,
        second_id,
        OutcomeView::Text(key_of(entity, second_id)),
    );
    let second = created(first, entity, name, second_parent, second_id);
    if first_id != second_id {
        assert(second.value(key_of(entity, first_id)) == first.value(key_of(entity, first_id)));
    }
}

/// A note gives back what was last written to it, whole; one that was never
/// written to is empty.
pub proof fn law_note_keeps_last_write(
    store: Store,
    name: Text,
    notebook_id: Text,
    id: Text,
    first: Text,
    second: Text,
)
    requires
        name != id,
        name != notebook_id,
        id != notebook_id,
        store.value(key_of(Entity::Note, id)) is None,
        takes_members(store, key_of(Entity::Note, notebook_id)),
    ensures
        ({
            let reads = reading(
                CommandView::GetField { key: key_of(Entity::Note, id), field: "content"@ },
            );
            let made = run(
                store,
                planned(
                    child_creation(Entity::Note, name, notebook_id, id),
                    OutcomeView::Text(key_of(Entity::Note, id)),
                ),
            );
            let once = run(made.store, planned(note_write(id, first), OutcomeView::Text(first)));
            let twice = run(
                once.store,
                planned(note_write(id, second), OutcomeView::Text(second)),
            );
            &&& run(made.store, reads).result == Ok::<OutcomeView, Error>(
                OutcomeView::Text(Seq::empty()),
            )
            &&& once.result == Ok::<OutcomeView, Error>(OutcomeView::Text(first))
            &&& run(once.store, reads).result == Ok::<OutcomeView, Error>(
                OutcomeView::Text(first),
            )
            &&& twice.result == Ok::<OutcomeView, Error>(OutcomeView::Text(second))
            &&& run(twice.store, reads).result == Ok::<OutcomeView, Error>(
                OutcomeView::Text(second),
            )
            &&& name_of(twice.store, Entity::Note, id) == Some(name)
        }),
{
    reveal(created);
    reveal_strlit("name");
    reveal_strlit("notebook_id");
    reveal_strlit("content");
    reveal_with_fuel(run, 5);
    reveal_with_fuel(record_of, 4);
    lemma_key_injective(Entity::Note, name, Entity::Note, id);
    lemma_key_injective(Entity::Note, name, Entity::Note, notebook_id);
    lemma_key_injective(Entity::Note, id, Entity::Note, notebook_id);
    let steps = child_creation(Entity::Note, name, notebook_id, id);
    assert(steps.drop_first() =~= seq![steps[1], steps[2]]);
    assert(steps.drop_first().drop_first() =~= seq![steps[2]]);
    assert(steps.drop_first().drop_first().drop_first() =~= Seq::<CommandView>::empty());
    let fields = child_fields(Entity::Note, name, notebook_id);
    assert("name"@[0] == 'n' && "content"@[0] == 'c' && "notebook_id"@[0] == 'n');
    assert("name"@.len() == 4 && "notebook_id"@.len() == 11);
    assert("name"@ != "content"@ && "notebook_id"@ != "content"@ && "name"@ != "notebook_id"@);
    assert(fields.drop_last() =~= seq![("name"@, name), ("notebook_id"@, notebook_id)]);
    assert(fields.drop_last().drop_last() =~= seq![("name"@, name)]);
    assert(fields.drop_last().drop_last().drop_last() =~= Seq::<(Text, Text)>::empty());
    assert(note_write(id, first).drop_first() =~= Seq::<CommandView>::empty());
    assert(note_write(id, second).drop_first() =~= Seq::<CommandView>::empty());
    assert(seq![("content"@, first)].drop_last() =~= Seq::<(Text, Text)>::empty());
    assert(seq![("content"@, second)].drop_last() =~= Seq::<(Text, Text)>::empty());
}

} // verus!
