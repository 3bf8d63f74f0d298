use notes_store::keys::{key, Entity};

#[test]
fn keys_join_prefix_and_name() {
    assert_eq!(key(Entity::User, "ada@x.com"), "user:ada@x.com");
    assert_eq!(key(Entity::Session, "t"), "session:t");
    assert_eq!(key(Entity::Vault, "Work"), "vault:Work");
    assert_eq!(key(Entity::Notebook, "Ideas"), "notebook:Ideas");
    assert_eq!(key(Entity::Note, "todo"), "note:todo");
}

#[test]
fn key_of_empty_name_is_the_prefix() {
    assert_eq!(key(Entity::Note, ""), "note:");
    assert_eq!(Entity::Notebook.prefix_str(), "notebook:");
}

#[test]
fn keys_of_different_kinds_differ() {
    let kinds = [
        Entity::User,
        Entity::Session,
        Entity::Vault,
        Entity::Notebook,
        Entity::Note,
    ];
    for a in kinds {
        for b in kinds {
            if a != b {
                assert_ne!(key(a, "x"), key(b, "x"));
                assert_ne!(key(a, "book:x"), key(b, "x"));
            }
        }
    }
}

#[test]
fn keys_of_one_kind_differ_with_the_name() {
    assert_ne!(key(Entity::Vault, "a"), key(Entity::Vault, "b"));
    assert_eq!(key(Entity::Vault, "a"), key(Entity::Vault, "a"));
}

#[test]
fn key_keeps_non_ascii_names() {
    assert_eq!(key(Entity::Vault, "Büro ✓"), "vault:Büro ✓");
}
