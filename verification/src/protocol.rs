//! What travels between an operation and the store: commands one way,
//! replies the other.

use vstd::prelude::*;

verus! {

/// A text as the contracts see it.
pub type Text = Seq<char>;

/// The texts held by a sequence of strings.
pub open spec fn texts(v: Seq<String>) -> Seq<Text> {
    v.map_values(|s: String| s@)
}

/// The name and value texts held by a sequence of string pairs.
pub open spec fn pairs(v: Seq<(String, String)>) -> Seq<(Text, Text)> {
    v.map_values(|p: (String, String)| (p.0@, p.1@))
}

/// The record that a list of fields describes. Where a name occurs twice the
/// later value counts.
pub open spec fn record_of(fields: Seq<(Text, Text)>) -> Map<Text, Text>
    decreases fields.len(),
{
    if fields.len() == 0 {
        Map::empty()
    } else {
        record_of(fields.drop_last()).insert(fields.last().0, fields.last().1)
    }
}

/// One command for the store. Each is a single round trip.
#[derive(Clone, Debug, PartialEq, Eq)]
pub enum Command {
    /// Write a text under `key`, replacing whatever the key held.
    Put { key: String, value: String },
    /// Let `key` expire `seconds` from now.
    Expire { key: String, seconds: i64 },
    /// Write `fields` into the hash under `key`.
    PutFields { key: String, fields: Vec<(String, String)> },
    /// Add `member` to the set under `key`.
    AddMember { key: String, member: String },
    /// Remove `member` from the set under `key`.
    RemoveMember { key: String, member: String },
    /// Remove `key` and what it holds.
    Delete { key: String },
    /// Read the text under `key`.
    Get { key: String },
    /// Read one field of the hash under `key`.
    GetField { key: String, field: String },
    /// Read every field of the hash under `key`.
    GetFields { key: String },
    /// Read the members of the set under `key`.
    GetMembers { key: String },
}

/// A command as the contracts see it.
pub enum CommandView {
    Put { key: Text, value: Text },
    Expire { key: Text, seconds: int },
    PutFields { key: Text, fields: Seq<(Text, Text)> },
    AddMember { key: Text, member: Text },
    RemoveMember { key: Text, member: Text },
    Delete { key: Text },
    Get { key: Text },
    GetField { key: Text, field: Text },
    GetFields { key: Text },
    GetMembers { key: Text },
}

impl View for Command {
    type V = CommandView;

    open spec fn view(&self) -> CommandView {
        match *self {
            Command::Put { key, value } => CommandView::Put { key: key@, value: value@ },
            Command::Expire { key, seconds } => CommandView::Expire {
                key: key@,
                seconds: seconds as int,
            },
            Command::PutFields { key, fields } => CommandView::PutFields {
                key: key@,
                fields: pairs(fields@),
            },
            Command::AddMember { key, member } => CommandView::AddMember {
                key: key@,
                member: member@,
            },
            Command::RemoveMember { key, member } => CommandView::RemoveMember {
                key: key@,
                member: member@,
            },
            Command::Delete { key } => CommandView::Delete { key: key@ },
            Command::Get { key } => CommandView::Get { key: key@ },
            Command::GetField { key, field } => CommandView::GetField {
                key: key@,
                field: field@,
            },
            Command::GetFields { key } => CommandView::GetFields { key: key@ },
            Command::GetMembers { key } => CommandView::GetMembers { key: key@ },
        }
    }
}

/// The commands held by a sequence, as the contracts see them.
pub open spec fn commands(v: Seq<Command>) -> Seq<CommandView> {
    v.map_values(|c: Command| c@)
}

/// The store's answer to one command.
#[derive(Clone, Debug, PartialEq, Eq)]
pub enum Reply {
    /// A write was carried out.
    Done,
    /// The text that was read, or `None` where the key or field is absent.
    Text(Option<String>),
    /// The fields of a hash; none where the key is absent.
    Fields(Vec<(String, String)>),
    /// The members of a set, in the store's order; none where the key is
    /// absent.
    Members(Vec<String>),
    /// The store answered with an error.
    Refused,
    /// The store could not be reached.
    Unreachable,
}

/// A reply as the contracts see it. The fields of a hash are seen as the
/// record they describe.
pub enum ReplyView {
    Done,
    Text(Option<Text>),
    Fields(Map<Text, Text>),
    Members(Seq<Text>),
    Refused,
    Unreachable,
}

/// The text held by an optional string.
pub open spec fn text_of(s: Option<String>) -> Option<Text> {
    match s {
        Some(s) => Some(s@),
        None => None,
    }
}

impl View for Reply {
    type V = ReplyView;

    open spec fn view(&self) -> ReplyView {
        match *self {
            Reply::Done => ReplyView::Done,
            Reply::Text(t) => ReplyView::Text(text_of(t)),
            Reply::Fields(f) => ReplyView::Fields(record_of(pairs(f@))),
            Reply::Members(m) => ReplyView::Members(texts(m@)),
            Reply::Refused => ReplyView::Refused,
            Reply::Unreachable => ReplyView::Unreachable,
        }
    }
}

/// Appending a field to a list writes it into the record.
pub proof fn lemma_record_push(fields: Seq<(Text, Text)>, name: Text, value: Text)
    ensures
        record_of(fields.push((name, value))) == record_of(fields).insert(name, value),
{
    assert(fields.push((name, value)).drop_last() =~= fields);
}

} // verus!
