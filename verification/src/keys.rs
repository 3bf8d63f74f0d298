//! The key schema: how entities, lookup indexes and membership sets are named
//! in the store.

use vstd::prelude::*;
use vstd::string::*;

verus! {

/// The kinds of record the store holds. Each kind owns one key prefix.
#[derive(Clone, Copy, Debug, PartialEq, Eq, Structural)]
pub enum Entity {
    User,
    Session,
    Vault,
    Notebook,
    Note,
}

impl Entity {
    /// The prefix shared by every key of this kind, colon included.
    pub open spec fn prefix(self) -> Seq<char> {
        match self {
            Entity::User => "user:"@,
            Entity::Session => "session:"@,
            Entity::Vault => "vault:"@,
            Entity::Notebook => "notebook:"@,
            Entity::Note => "note:"@,
        }
    }

    /// The prefix as a string slice.
    pub fn prefix_str(self) -> (p: &'static str)
        ensures
            p@ == self.prefix(),
    {
        match self {
            Entity::User => "user:",
            Entity::Session => "session:",
            Entity::Vault => "vault:",
            Entity::Notebook => "notebook:",
            Entity::Note => "note:",
        }
    }
}

/// The key `"{entity}:{name}"`.
///
/// Primary records, lookup indexes and membership sets of one kind all use
/// this form: `name` is the record's id, its natural key (a name or an email)
/// or its parent's id. Nothing in a key tells the three apart.
pub open spec fn key_of(entity: Entity, name: Seq<char>) -> Seq<char> {
    entity.prefix() + name
}

/// Builds the key `"{entity}:{name}"`.
pub fn key(entity: Entity, name: &str) -> (k: String)
    ensures
        k@ == key_of(entity, name@),
{
    String::from_str(entity.prefix_str()).concat(name)
}

/// Two keys are equal only if they are of the same kind and carry the same
/// name: kinds never share a key, and within a kind the name decides.
pub proof fn lemma_key_injective(e1: Entity, n1: Seq<char>, e2: Entity, n2: Seq<char>)
    ensures
        key_of(e1, n1) == key_of(e2, n2) <==> e1 == e2 && n1 == n2,
{
    reveal_strlit("user:");
    reveal_strlit("session:");
    reveal_strlit("vault:");
    reveal_strlit("notebook:");
    reveal_strlit("note:");
    let k1 = key_of(e1, n1);
    let k2 = key_of(e2, n2);
    if k1 == k2 {
        assert(k1[0] == k2[0]);
        assert(k1[4] == k2[4]);
        assert(e1 == e2);
        let p = e1.prefix();
        assert(n1 =~= k1.subrange(p.len() as int, k1.len() as int));
        assert(n2 =~= k2.subrange(p.len() as int, k2.len() as int));
    }
}

/// The name can be read back from a key.
pub proof fn lemma_key_strips(entity: Entity, name: Seq<char>)
    ensures
        key_of(entity, name).len() == entity.prefix().len() + name.len(),
        key_of(entity, name).subrange(
            entity.prefix().len() as int,
            key_of(entity, name).len() as int,
        ) == name,
{
    let k = key_of(entity, name);
    assert(k.subrange(entity.prefix().len() as int, k.len() as int) =~= name);
}

} // verus!
