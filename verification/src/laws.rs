//! What holds of the operations when they are driven, one at a time, against
//! a store that behaves as the model says.
//!
//! Nothing in the store spans two keys, and nothing here pretends otherwise:
//! the laws speak of an operation that runs from its first command to its
//! last with no other in between.
//!
//! Keys of one kind share a namespace: a record's id, its natural key and
//! its parent's id all follow the same prefix. The laws therefore ask that
//! these differ where it matters; a name or an email that reads as an id in
//! use is the one input they leave out.

pub mod plans;
pub mod records;
pub mod sessions;
pub mod users;

use vstd::prelude::*;
use crate::model::{Store, Value};
use crate::protocol::Text;

verus! {

/// Whether a hash can be written under `key`: the key is free or holds one.
pub open spec fn takes_hash(store: Store, key: Text) -> bool {
    match store.value(key) {
        None => true,
        Some(Value::Hash(_)) => true,
        Some(_) => false,
    }
}

/// Whether a member can be added under `key`: the key is free or holds a set.
pub open spec fn takes_members(store: Store, key: Text) -> bool {
    match store.value(key) {
        None => true,
        Some(Value::Members(_)) => true,
        Some(_) => false,
    }
}

} // verus!
