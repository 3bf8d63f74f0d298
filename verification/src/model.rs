//! The store as the contracts see it: what each key holds, when it expires,
//! and what each command does.
//!
//! The store keeps one value per key, whatever its kind. A text may be
//! written over anything; a hash or a set is only ever changed in place, and
//! a command of the wrong kind for the key is refused. A key with a deadline
//! is gone once the clock reaches it.

use vstd::prelude::*;
use crate::protocol::{record_of, CommandView, ReplyView, Text};

verus! {

/// What a key holds.
pub enum Value {
    /// A single text.
    Text(Text),
    /// A record of named fields.
    Hash(Map<Text, Text>),
    /// A set, listed in the order in which its members came.
    Members(Seq<Text>),
}

/// A value and the moment at which it expires, if it does.
pub struct Slot {
    pub value: Value,
    pub deadline: Option<nat>,
}

/// The whole store: its slots and its clock, in seconds.
pub struct Store {
    pub slots: Map<Text, Slot>,
    pub now: nat,
}

/// `members` without `member`.
pub open spec fn without(members: Seq<Text>, member: Text) -> Seq<Text>
    decreases members.len(),
{
    if members.len() == 0 {
        members
    } else if members.last() == member {
        without(members.drop_last(), member)
    } else {
        without(members.drop_last(), member).push(members.last())
    }
}

/// `members` with `member` added, unless it is one already.
pub open spec fn with_member(members: Seq<Text>, member: Text) -> Seq<Text> {
    if members.contains(member) {
        members
    } else {
        members.push(member)
    }
}

impl Store {
    /// A store that holds nothing, at time zero.
    pub open spec fn empty() -> Store {
        Store { slots: Map::empty(), now: 0 }
    }

    /// Whether `key` holds a value that has not expired.
    pub open spec fn live(self, key: Text) -> bool {
        self.slots.contains_key(key) && match self.slots[key].deadline {
            Some(deadline) => self.now < deadline,
            None => true,
        }
    }

    /// What `key` holds, if it is live.
    pub open spec fn value(self, key: Text) -> Option<Value> {
        if self.live(key) {
            Some(self.slots[key].value)
        } else {
            None
        }
    }

    /// The deadline to keep when the value under `key` is changed in place.
    pub open spec fn deadline(self, key: Text) -> Option<nat> {
        if self.live(key) {
            self.slots[key].deadline
        } else {
            None
        }
    }

    /// The store with `value` under `key` and the given deadline.
    pub open spec fn with_slot(self, key: Text, value: Value, deadline: Option<nat>) -> Store {
        Store { slots: self.slots.insert(key, Slot { value, deadline }), ..self }
    }

    /// The store without `key`.
    pub open spec fn without_key(self, key: Text) -> Store {
        Store { slots: self.slots.remove(key), ..self }
    }

    /// The store `seconds` later.
    pub open spec fn elapse(self, seconds: nat) -> Store {
        Store { now: self.now + seconds, ..self }
    }

    /// The store after a command.
    pub open spec fn after(self, command: CommandView) -> Store {
        match command {
            CommandView::Put { key, value } => self.with_slot(key, Value::Text(value), None),
            CommandView::Expire { key, seconds } => {
                if !self.live(key) {
                    self
                } else if seconds <= 0 {
                    self.without_key(key)
                } else {
                    self.with_slot(
                        key,
                        self.slots[key].value,
                        Some((self.now + seconds) as nat),
                    )
                }
            },
            CommandView::PutFields { key, fields } => {
                if fields.len() == 0 {
                    self
                } else {
                    match self.value(key) {
                        None => self.with_slot(key, Value::Hash(record_of(fields)), None),
                        Some(Value::Hash(record)) => self.with_slot(
                            key,
                            Value::Hash(record.union_prefer_right(record_of(fields))),
                            self.deadline(key),
                        ),
                        Some(_) => self,
                    }
                }
            },
            CommandView::AddMember { key, member } => {
                match self.value(key) {
                    None => self.with_slot(key, Value::Members(seq![member]), None),
                    Some(Value::Members(members)) => self.with_slot(
                        key,
                        Value::Members(with_member(members, member)),
                        self.deadline(key),
                    ),
                    Some(_) => self,
                }
            },
            CommandView::RemoveMember { key, member } => {
                match self.value(key) {
                    Some(Value::Members(members)) => {
                        if without(members, member).len() == 0 {
                            self.without_key(key)
                        } else {
                            self.with_slot(
                                key,
                                Value::Members(without(members, member)),
                                self.deadline(key),
                            )
                        }
                    },
                    _ => self,
                }
            },
            CommandView::Delete { key } => self.without_key(key),
            CommandView::Get { .. } => self,
            CommandView::GetField { .. } => self,
            CommandView::GetFields { .. } => self,
            CommandView::GetMembers { .. } => self,
        }
    }

    /// The store's reply to a command.
    pub open spec fn reply(self, command: CommandView) -> ReplyView {
        match command {
            CommandView::Put { .. } => ReplyView::Done,
            CommandView::Expire { .. } => ReplyView::Done,
            CommandView::PutFields { key, fields } => {
                if fields.len() == 0 {
                    ReplyView::Refused
                } else {
                    match self.value(key) {
                        None => ReplyView::Done,
                        Some(Value::Hash(_)) => ReplyView::Done,
                        Some(_) => ReplyView::Refused,
                    }
                }
            },
            CommandView::AddMember { key, .. } => {
                match self.value(key) {
                    None => ReplyView::Done,
                    Some(Value::Members(_)) => ReplyView::Done,
                    Some(_) => ReplyView::Refused,
                }
            },
            CommandView::RemoveMember { key, .. } => {
                match self.value(key) {
                    None => ReplyView::Done,
                    Some(Value::Members(_)) => ReplyView::Done,
                    Some(_) => ReplyView::Refused,
                }
            },
            CommandView::Delete { .. } => ReplyView::Done,
            CommandView::Get { key } => {
                match self.value(key) {
                    None => ReplyView::Text(None),
                    Some(Value::Text(text)) => ReplyView::Text(Some(text)),
                    Some(_) => ReplyView::Refused,
                }
            },
            CommandView::GetField { key, field } => {
                match self.value(key) {
                    None => ReplyView::Text(None),
                    Some(Value::Hash(record)) => {
                        if record.contains_key(field) {
                            ReplyView::Text(Some(record[field]))
                        } else {
                            ReplyView::Text(None)
                        }
                    },
                    Some(_) => ReplyView::Refused,
                }
            },
            CommandView::GetFields { key } => {
                match self.value(key) {
                    None => ReplyView::Fields(Map::empty()),
                    Some(Value::Hash(record)) => ReplyView::Fields(record),
                    Some(_) => ReplyView::Refused,
                }
            },
            CommandView::GetMembers { key } => {
                match self.value(key) {
                    None => ReplyView::Members(Seq::empty()),
                    Some(Value::Members(members)) => ReplyView::Members(members),
                    Some(_) => ReplyView::Refused,
                }
            },
        }
    }
}

} // verus!
