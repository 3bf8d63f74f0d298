//! A store held in memory.
//!
//! It answers every command as the model says a store does, so an operation
//! can be driven to its end without a server: to try the layer out, and to
//! hold the laws of this crate against running code.

use vstd::prelude::*;
use vstd::hash_map::StringHashMap;
use crate::error::Error;
use crate::machine::{
    lemma_resumed_decreases, result_view, run, Outcome, Progress,
};
use crate::model::{with_member, without, Slot, Store, Value};
use crate::models::find_field;
use crate::protocol::{lemma_record_push, pairs, record_of, texts, Command, Reply, Text};

verus! {

/// What a key holds.
enum Entry {
    Text(String),
    Hash(Vec<(String, String)>),
    Members(Vec<String>),
}

impl Entry {
    spec fn value(self) -> Value {
        match self {
            Entry::Text(text) => Value::Text(text@),
            Entry::Hash(fields) => Value::Hash(record_of(pairs(fields@))),
            Entry::Members(members) => Value::Members(texts(members@)),
        }
    }
}

/// An entry and the second at which it expires, if it does.
struct Cell {
    entry: Entry,
    deadline: Option<u128>,
}

impl Cell {
    spec fn slot(self) -> Slot {
        Slot {
            value: self.entry.value(),
            deadline: match self.deadline {
                Some(deadline) => Some(deadline as nat),
                None => None,
            },
        }
    }
}

/// A store in memory, with a clock that moves only when told to.
pub struct MemoryStore {
    cells: StringHashMap<Cell>,
    now: u64,
}

impl View for MemoryStore {
    type V = Store;

    closed spec fn view(&self) -> Store {
        Store { slots: self.cells@.map_values(|cell: Cell| cell.slot()), now: self.now as nat }
    }
}

/// A copy of a list of strings.
fn copy_texts(list: &Vec<String>) -> (copy: Vec<String>)
    ensures
        texts(copy@) == texts(list@),
{
    let mut copy: Vec<String> = Vec::new();
    let mut i: usize = 0;
    while i < list.len()
        invariant
            i <= list.len(),
            texts(copy@) == texts(list@.take(i as int)),
        decreases list.len() - i,
    {
        proof {
            assert(list@.take(i + 1) =~= list@.take(i as int).push(list@[i as int]));
            assert(texts(list@.take(i as int).push(list@[i as int])) =~= texts(
                list@.take(i as int),
            ).push(list@[i as int]@));
            assert(texts(copy@.push(list@[i as int])) =~= texts(copy@).push(list@[i as int]@));
        }
        let item = list[i].clone();
        proof {
            assert(texts(copy@.push(item)) =~= texts(copy@).push(item@));
        }
        copy.push(item);
        i = i + 1;
    }
    proof {
        assert(list@.take(list.len() as int) =~= list@);
    }
    copy
}

/// Whether `member` is in `list`.
fn has_member(list: &Vec<String>, member: &String) -> (found: bool)
    ensures
        found == texts(list@).contains(member@),
{
    let mut i: usize = 0;
    while i < list.len()
        invariant
            i <= list.len(),
            forall|j: int| 0 <= j < i ==> texts(list@)[j] != member@,
        decreases list.len() - i,
    {
        if list[i] == *member {
            proof {
                assert(texts(list@)[i as int] == member@);
            }
            return true;
        }
        i = i + 1;
    }
    false
}

/// A copy of `list` without `member`.
fn copy_without(list: &Vec<String>, member: &String) -> (copy: Vec<String>)
    ensures
        texts(copy@) == without(texts(list@), member@),
{
    let mut copy: Vec<String> = Vec::new();
    let mut i: usize = 0;
    proof {
        assert(texts(list@.take(0)) =~= Seq::<Text>::empty());
        assert(texts(copy@) =~= Seq::<Text>::empty());
    }
    while i < list.len()
        invariant
            i <= list.len(),
            texts(copy@) == without(texts(list@.take(i as int)), member@),
        decreases list.len() - i,
    {
        proof {
            let longer = texts(list@.take(i + 1));
            assert(longer.drop_last() =~= texts(list@.take(i as int)));
            assert(longer.last() == list@[i as int]@);
        }
        if !(list[i] == *member) {
            let item = list[i].clone();
            proof {
                assert(texts(copy@.push(item)) =~= texts(copy@).push(item@));
            }
            copy.push(item);
        }
        i = i + 1;
    }
    proof {
        assert(list@.take(list.len() as int) =~= list@);
    }
    copy
}

/// A copy of `fields` in which `name` has the value `value` and occurs once.
fn copy_with_field(fields: &Vec<(String, String)>, name: &String, value: &String) -> (copy: Vec<
    (String, String),
>)
    ensures
        record_of(pairs(copy@)) == record_of(pairs(fields@)).insert(name@, value@),
{
    let mut copy: Vec<(String, String)> = Vec::new();
    let mut i: usize = 0;
    proof {
        assert(pairs(fields@.take(0)) =~= Seq::<(Text, Text)>::empty());
        assert(pairs(copy@) =~= Seq::<(Text, Text)>::empty());
        assert(record_of(pairs(copy@)) =~= record_of(pairs(fields@.take(0))).remove(name@));
    }
    while i < fields.len()
        invariant
            i <= fields.len(),
            record_of(pairs(copy@)) == record_of(pairs(fields@.take(i as int))).remove(name@),
        decreases fields.len() - i,
    {
        let ghost shorter = pairs(fields@.take(i as int));
        let ghost next = fields@[i as int];
        proof {
            assert(pairs(fields@.take(i + 1)) =~= shorter.push((next.0@, next.1@)));
            lemma_record_push(shorter, next.0@, next.1@);
        }
        if fields[i].0 == *name {
            proof {
                assert(record_of(shorter).insert(next.0@, next.1@).remove(name@) =~= record_of(
                    shorter,
                ).remove(name@));
            }
        } else {
            let pair = (fields[i].0.clone(), fields[i].1.clone());
            proof {
                assert(pairs(copy@.push(pair)) =~= pairs(copy@).push((pair.0@, pair.1@)));
                lemma_record_push(pairs(copy@), pair.0@, pair.1@);
                assert(record_of(shorter).insert(next.0@, next.1@).remove(name@) =~= record_of(
                    shorter,
                ).remove(name@).insert(next.0@, next.1@));
            }
            copy.push(pair);
        }
        i = i + 1;
    }
    let pair = (name.clone(), value.clone());
    proof {
        assert(fields@.take(fields.len() as int) =~= fields@);
        assert(pairs(copy@.push(pair)) =~= pairs(copy@).push((pair.0@, pair.1@)));
        lemma_record_push(pairs(copy@), pair.0@, pair.1@);
        assert(record_of(pairs(fields@)).remove(name@).insert(name@, value@) =~= record_of(
            pairs(fields@),
        ).insert(name@, value@));
    }
    copy.push(pair);
    copy
}

/// A copy of a list of fields.
fn copy_fields(fields: &Vec<(String, String)>) -> (copy: Vec<(String, String)>)
    ensures
        pairs(copy@) == pairs(fields@),
{
    let mut copy: Vec<(String, String)> = Vec::new();
    let mut i: usize = 0;
    proof {
        assert(pairs(copy@) =~= pairs(fields@.take(0)));
    }
    while i < fields.len()
        invariant
            i <= fields.len(),
            pairs(copy@) == pairs(fields@.take(i as int)),
        decreases fields.len() - i,
    {
        let pair = (fields[i].0.clone(), fields[i].1.clone());
        proof {
            assert(fields@.take(i + 1) =~= fields@.take(i as int).push(fields@[i as int]));
            assert(pairs(copy@.push(pair)) =~= pairs(copy@).push((pair.0@, pair.1@)));
            assert(pairs(fields@.take(i as int).push(fields@[i as int])) =~= pairs(
                fields@.take(i as int),
            ).push((pair.0@, pair.1@)));
        }
        copy.push(pair);
        i = i + 1;
    }
    proof {
        assert(fields@.take(fields.len() as int) =~= fields@);
    }
    copy
}

/// A copy of `base` with every field of `fields` written into it, later
/// ones over earlier ones.
fn merge_fields(base: &Vec<(String, String)>, fields: &Vec<(String, String)>) -> (merged: Vec<
    (String, String),
>)
    ensures
        record_of(pairs(merged@)) == record_of(pairs(base@)).union_prefer_right(
            record_of(pairs(fields@)),
        ),
{
    let mut merged = copy_fields(base);
    proof {
        assert(pairs(fields@.take(0)) =~= Seq::<(Text, Text)>::empty());
        assert(record_of(pairs(merged@)) =~= record_of(pairs(base@)).union_prefer_right(
            record_of(pairs(fields@.take(0))),
        ));
    }
    let mut j: usize = 0;
    while j < fields.len()
        invariant
            j <= fields.len(),
            record_of(pairs(merged@)) == record_of(pairs(base@)).union_prefer_right(
                record_of(pairs(fields@.take(j as int))),
            ),
        decreases fields.len() - j,
    {
        let ghost shorter = pairs(fields@.take(j as int));
        let ghost next = fields@[j as int];
        proof {
            assert(pairs(fields@.take(j + 1)) =~= shorter.push((next.0@, next.1@)));
            lemma_record_push(shorter, next.0@, next.1@);
            assert(record_of(pairs(base@)).union_prefer_right(record_of(shorter)).insert(
                next.0@,
                next.1@,
            ) =~= record_of(pairs(base@)).union_prefer_right(
                record_of(shorter).insert(next.0@, next.1@),
            ));
        }
        merged = copy_with_field(&merged, &fields[j].0, &fields[j].1);
        j = j + 1;
    }
    proof {
        assert(fields@.take(fields.len() as int) =~= fields@);
    }
    merged
}

impl MemoryStore {
    /// A store that holds nothing, at time zero.
    pub fn new() -> (store: Self)
        ensures
            store@ == Store::empty(),
    {
        let store = MemoryStore { cells: StringHashMap::new(), now: 0 };
        proof {
            assert(store@.slots =~= Store::empty().slots);
        }
        store
    }

    /// Moves the clock on by `seconds`. Where the clock cannot count that
    /// far, it stays and the answer is `false`.
    pub fn advance(&mut self, seconds: u64) -> (moved: bool)
        ensures
            moved == (old(self)@.now + seconds <= u64::MAX),
            moved ==> final(self)@ == old(self)@.elapse(seconds as nat),
            !moved ==> final(self)@ == old(self)@,
    {
        if seconds <= u64::MAX - self.now {
            self.now = self.now + seconds;
            true
        } else {
            false
        }
    }

    /// The cell under `key`, if the key is live.
    fn live_cell(&self, key: &str) -> (found: Option<&Cell>)
        ensures
            match found {
                Some(cell) => self@.live(key@) && cell.slot() == self@.slots[key@],
                None => !self@.live(key@),
            },
    {
        match self.cells.get(key) {
            None => None,
            Some(cell) => {
                let live = match cell.deadline {
                    Some(deadline) => (self.now as u128) < deadline,
                    None => true,
                };
                if live {
                    Some(cell)
                } else {
                    None
                }
            },
        }
    }

    /// Puts `cell` under `key`.
    fn put(&mut self, key: String, cell: Cell)
        ensures
            final(self)@ == old(self)@.with_slot(key@, cell.slot().value, cell.slot().deadline),
    {
        self.cells.insert(key, cell);
        proof {
            assert(self@.slots =~= old(self)@.slots.insert(key@, cell.slot()));
        }
    }

    /// Removes `key`.
    fn drop_key(&mut self, key: &str)
        ensures
            final(self)@ == old(self)@.without_key(key@),
    {
        self.cells.remove(key);
        proof {
            assert(self@.slots =~= old(self)@.slots.remove(key@));
        }
    }

    /// Carries out one command and answers it.
    pub fn execute(&mut self, command: Command) -> (reply: Reply)
        ensures
            final(self)@ == old(self)@.after(command@),
            reply@ == old(self)@.reply(command@),
    {
        match command {
            Command::Put { key, value } => {
                self.put(key, Cell { entry: Entry::Text(value), deadline: None });
                Reply::Done
            },
            Command::Expire { key, seconds } => {
                let kept: Option<Entry> = match self.live_cell(key.as_str()) {
                    None => None,
                    Some(cell) => Some(
                        match &cell.entry {
                            Entry::Text(text) => Entry::Text(text.clone()),
                            Entry::Hash(fields) => Entry::Hash(copy_fields(fields)),
                            Entry::Members(members) => Entry::Members(copy_texts(members)),
                        },
                    ),
                };
                match kept {
                    None => {},
                    Some(entry) => {
                        if seconds <= 0 {
                            self.drop_key(key.as_str());
                        } else {
                            let deadline: u128 = self.now as u128 + seconds as u128;
                            self.put(key, Cell { entry, deadline: Some(deadline) });
                        }
                    },
                }
                Reply::Done
            },
            Command::PutFields { key, fields } => {
                if fields.len() == 0 {
                    proof {
                        assert(pairs(fields@).len() == 0);
                    }
                    return Reply::Refused;
                }
                proof {
                    assert(pairs(fields@).len() == fields@.len());
                }
                let merged: Option<Cell> = match self.live_cell(key.as_str()) {
                    None => {
                        let empty: Vec<(String, String)> = Vec::new();
                        proof {
                            assert(pairs(empty@) =~= Seq::<(Text, Text)>::empty());
                            assert(record_of(pairs(empty@)).union_prefer_right(
                                record_of(pairs(fields@)),
                            ) =~= record_of(pairs(fields@)));
                        }
                        Some(
                            Cell {
                                entry: Entry::Hash(merge_fields(&empty, &fields)),
                                deadline: None,
                            },
                        )
                    },
                    Some(cell) => match &cell.entry {
                        Entry::Hash(base) => Some(
                            Cell {
                                entry: Entry::Hash(merge_fields(base, &fields)),
                                deadline: cell.deadline,
                            },
                        ),
                        _ => None,
                    },
                };
                match merged {
                    Some(cell) => {
                        self.put(key, cell);
                        Reply::Done
                    },
                    None => Reply::Refused,
                }
            },
            Command::AddMember { key, member } => {
                let grown: Option<Cell> = match self.live_cell(key.as_str()) {
                    None => {
                        let mut members: Vec<String> = Vec::new();
                        members.push(member);
                        proof {
                            assert(texts(members@) =~= seq![member@]);
                        }
                        Some(Cell { entry: Entry::Members(members), deadline: None })
                    },
                    Some(cell) => match &cell.entry {
                        Entry::Members(members) => {
                            let mut grown = copy_texts(members);
                            if !has_member(members, &member) {
                                proof {
                                    assert(texts(grown@.push(member)) =~= texts(grown@).push(
                                        member@,
                                    ));
                                }
                                grown.push(member);
                            }
                            Some(Cell { entry: Entry::Members(grown), deadline: cell.deadline })
                        },
                        _ => None,
                    },
                };
                match grown {
                    Some(cell) => {
                        self.put(key, cell);
                        Reply::Done
                    },
                    None => Reply::Refused,
                }
            },
            Command::RemoveMember { key, member } => {
                let shrunk: Option<Option<Cell>> = match self.live_cell(key.as_str()) {
                    None => Some(None),
                    Some(cell) => match &cell.entry {
                        Entry::Members(members) => Some(
                            Some(
                                Cell {
                                    entry: Entry::Members(copy_without(members, &member)),
                                    deadline: cell.deadline,
                                },
                            ),
                        ),
                        _ => None,
                    },
                };
                match shrunk {
                    None => Reply::Refused,
                    Some(None) => Reply::Done,
                    Some(Some(cell)) => {
                        let emptied = match &cell.entry {
                            Entry::Members(members) => members.len() == 0,
                            _ => false,
                        };
                        proof {
                            assert(emptied == (without(
                                old(self)@.value(key@)->Some_0->Members_0,
                                member@,
                            ).len() == 0));
                        }
                        if emptied {
                            self.drop_key(key.as_str());
                        } else {
                            self.put(key, cell);
                        }
                        Reply::Done
                    },
                }
            },
            Command::Delete { key } => {
                self.drop_key(key.as_str());
                Reply::Done
            },
            Command::Get { key } => match self.live_cell(key.as_str()) {
                None => Reply::Text(None),
                Some(cell) => match &cell.entry {
                    Entry::Text(text) => Reply::Text(Some(text.clone())),
                    _ => Reply::Refused,
                },
            },
            Command::GetField { key, field } => match self.live_cell(key.as_str()) {
                None => Reply::Text(None),
                Some(cell) => match &cell.entry {
                    Entry::Hash(fields) => Reply::Text(find_field(fields, field.as_str())),
                    _ => Reply::Refused,
                },
            },
            Command::GetFields { key } => match self.live_cell(key.as_str()) {
                None => {
                    let empty: Vec<(String, String)> = Vec::new();
                    proof {
                        assert(pairs(empty@) =~= Seq::<(Text, Text)>::empty());
                    }
                    Reply::Fields(empty)
                },
                Some(cell) => match &cell.entry {
                    Entry::Hash(fields) => Reply::Fields(copy_fields(fields)),
                    _ => Reply::Refused,
                },
            },
            Command::GetMembers { key } => match self.live_cell(key.as_str()) {
                None => {
                    let empty: Vec<String> = Vec::new();
                    proof {
                        assert(texts(empty@) =~= Seq::<Text>::empty());
                    }
                    Reply::Members(empty)
                },
                Some(cell) => match &cell.entry {
                    Entry::Members(members) => Reply::Members(copy_texts(members)),
                    _ => Reply::Refused,
                },
            },
        }
    }

    /// Drives an operation to its end against this store.
    pub fn run(&mut self, progress: Progress) -> (result: Result<Outcome, Error>)
        ensures
            result_view(result) == run(old(self)@, progress@).result,
            final(self)@ == run(old(self)@, progress@).store,
    {
        let ghost start = self@;
        let ghost whole = progress@;
        let mut current = progress;
        loop
            invariant
                start == old(self)@,
                whole == progress@,
                run(self@, current@) == run(start, whole),
            decreases current@.phase(), current@.pending(),
        {
            match current {
                Progress::Done(result) => {
                    return result;
                },
                Progress::Send { command, then } => {
                    proof {
                        lemma_resumed_decreases(then@, self@.reply(command@));
                    }
                    let reply = self.execute(command);
                    current = then.resume(reply);
                },
            }
        }
    }
}

} // verus!
