//! The user record and its encoding as a hash of the store.

use vstd::prelude::*;
use vstd::string::*;
use crate::error::Error;
use crate::protocol::{pairs, record_of, Text};

verus! {

/// The error type of the `bcrypt` crate, carried but never inspected.
#[verifier::external_type_specification]
#[verifier::external_body]
pub struct ExBcryptError(bcrypt::BcryptError);

/// What `bcrypt::verify` returns for a password and a stored hash: whether
/// they match, or `None` where it reports an error (the hash is not a bcrypt
/// hash).
pub uninterp spec fn bcrypt_verify(password: Seq<char>, hash: Seq<char>) -> Option<bool>;

/// Checks a password against a stored hash.
///
/// Calls `bcrypt::verify`, which recomputes the hash from the password with
/// the salt and cost found in `hash` and compares. The outcome depends on
/// the two texts alone, so it is given the name `bcrypt_verify`; nothing more
/// is claimed of it.
#[verifier::external_body]
fn check_hash(password: &str, hash: &str) -> (r: Result<bool, bcrypt::BcryptError>)
    ensures
        r matches Ok(b) ==> bcrypt_verify(password@, hash@) == Some(b),
        r is Err ==> bcrypt_verify(password@, hash@) is None,
{
    bcrypt::verify(password, hash)
}

/// Hashes a password for storage.
///
/// Calls `bcrypt::hash` at the crate's default cost. The salt is random, so
/// the hash itself is not determined. Claimed of every hash that comes back:
/// it is 60 characters long, and `bcrypt::verify` accepts the password it was
/// made from.
#[verifier::external_body]
fn make_hash(password: &str) -> (r: Result<String, bcrypt::BcryptError>)
    ensures
        r matches Ok(h) ==> h@.len() == 60 && bcrypt_verify(password@, h@) == Some(true),
{
    bcrypt::hash(password, bcrypt::DEFAULT_COST)
}

/// Whether `password` is the one that `hash` was made from. A text that is
/// no hash matches nothing.
pub open spec fn password_matches(password: Text, hash: Text) -> bool {
    bcrypt_verify(password, hash) == Some(true)
}

/// Hashes `password`. The result never holds the password itself: it is a
/// hash that `password` matches.
pub fn hash_password(password: &str) -> (r: Result<String, Error>)
    ensures
        match r {
            Ok(h) => h@.len() == 60 && password_matches(password@, h@),
            Err(e) => e == Error::Hashing,
        },
{
    match make_hash(password) {
        Ok(h) => Ok(h),
        Err(_) => Err(Error::Hashing),
    }
}

/// A registered user. The password is held as a hash.
#[derive(Clone, Debug, PartialEq, Eq)]
pub struct User {
    forename: String,
    email: String,
    password: String,
}

/// A user as the contracts see it.
pub struct UserView {
    pub forename: Text,
    pub email: Text,
    pub password: Text,
}

impl View for User {
    type V = UserView;

    closed spec fn view(&self) -> UserView {
        UserView { forename: self.forename@, email: self.email@, password: self.password@ }
    }
}

/// The value of a field of a record, if the record has it.
pub open spec fn field(record: Map<Text, Text>, name: Text) -> Option<Text> {
    if record.contains_key(name) {
        Some(record[name])
    } else {
        None
    }
}

impl UserView {
    /// The fields written to the store for this user, in the order in which
    /// they are sent.
    pub open spec fn fields(self) -> Seq<(Text, Text)> {
        seq![
            ("forename"@, self.forename),
            ("email"@, self.email),
            ("password"@, self.password),
        ]
    }

    /// The user that a record describes, if the record has all three fields.
    pub open spec fn decode(record: Map<Text, Text>) -> Option<UserView> {
        if record.contains_key("forename"@) && record.contains_key("email"@)
            && record.contains_key("password"@) {
            Some(
                UserView {
                    forename: record["forename"@],
                    email: record["email"@],
                    password: record["password"@],
                },
            )
        } else {
            None
        }
    }
}

/// Finds the value of the field `name` in a list of fields. Where the name
/// occurs twice the later value counts.
pub fn find_field(fields: &Vec<(String, String)>, name: &str) -> (found: Option<String>)
    ensures
        crate::protocol::text_of(found) == field(record_of(pairs(fields@)), name@),
{
    let wanted = String::from_str(name);
    let mut found: Option<String> = None;
    let mut i: usize = 0;
    while i < fields.len()
        invariant
            i <= fields.len(),
            wanted@ == name@,
            crate::protocol::text_of(found) == field(
                record_of(pairs(fields@.take(i as int))),
                name@,
            ),
        decreases fields.len() - i,
    {
        proof {
            let before = fields@.take(i as int);
            let next = fields@[i as int];
            assert(fields@.take(i + 1) =~= before.push(next));
            assert(pairs(before.push(next)) =~= pairs(before).push((next.0@, next.1@)));
            crate::protocol::lemma_record_push(pairs(before), next.0@, next.1@);
        }
        if fields[i].0 == wanted {
            found = Some(fields[i].1.clone());
        }
        i = i + 1;
    }
    proof {
        assert(fields@.take(fields.len() as int) =~= fields@);
    }
    found
}

impl User {
    /// A user with the given forename, email and password hash.
    pub fn assign(forename: String, email: String, password: String) -> (user: Self)
        ensures
            user@ == (UserView { forename: forename@, email: email@, password: password@ }),
    {
        Self { forename, email, password }
    }

    /// The user's email.
    pub fn get_email(&self) -> (email: &str)
        ensures
            email@ == self@.email,
    {
        self.email.as_str()
    }

    /// The user's forename.
    pub fn get_forename(&self) -> (forename: &str)
        ensures
            forename@ == self@.forename,
    {
        self.forename.as_str()
    }

    /// The stored hash of the user's password.
    pub fn get_password(&self) -> (password: &str)
        ensures
            password@ == self@.password,
    {
        self.password.as_str()
    }

    /// Whether `password` is this user's password. A stored hash that is
    /// malformed gives `false`, as a wrong password does.
    pub fn verify_password(&self, password: &str) -> (matches: bool)
        ensures
            matches == password_matches(password@, self@.password),
    {
        match check_hash(password, self.password.as_str()) {
            Ok(matches) => matches,
            Err(_) => false,
        }
    }

    /// The fields to write to the store for this user.
    pub fn to_record(&self) -> (fields: Vec<(String, String)>)
        ensures
            pairs(fields@) == self@.fields(),
    {
        let mut fields: Vec<(String, String)> = Vec::new();
        fields.push((String::from_str("forename"), self.forename.clone()));
        fields.push((String::from_str("email"), self.email.clone()));
        fields.push((String::from_str("password"), self.password.clone()));
        proof {
            assert(pairs(fields@) =~= self@.fields());
        }
        fields
    }

    /// The user that a list of fields describes. Fails with `MissingField`
    /// exactly when one of the three fields is absent; nothing is defaulted.
    pub fn from_record(fields: &Vec<(String, String)>) -> (user: Result<User, Error>)
        ensures
            match user {
                Ok(u) => UserView::decode(record_of(pairs(fields@))) == Some(u@),
                Err(e) => e == Error::MissingField && UserView::decode(
                    record_of(pairs(fields@)),
                ) is None,
            },
    {
        let forename = find_field(fields, "forename");
        let email = find_field(fields, "email");
        let password = find_field(fields, "password");
        match (forename, email, password) {
            (Some(forename), Some(email), Some(password)) => Ok(
                User::assign(forename, email, password),
            ),
            _ => Err(Error::MissingField),
        }
    }
}

} // verus!
