//! The value domain of the cache: records handed back to callers, and the
//! request/event shapes used by the collaborators around the engine.
//!
//! Two reserved records exist in the `UserData` space: the empty sentinel
//! (both fields absent), standing for "the source confirmed there is no such
//! row", and the error sentinel (identity `-1`, payload absent), standing for
//! "the load attempt failed". Inside the engine these conditions are carried
//! by the tagged [`Outcome`] type; they are flattened to the sentinels only
//! when a record leaves the engine.

use vstd::prelude::*;

verus! {

/// The cached domain object: an identity and a payload, each possibly absent.
#[derive(Debug, PartialEq)]
pub struct UserData {
    pub id: Option<i32>,
    pub name: Option<String>,
}

/// The record meaning "looked up; the source confirmed no such row".
pub open spec fn spec_empty_data() -> UserData {
    UserData { id: None, name: None }
}

/// The record meaning "the load attempt failed".
pub open spec fn spec_error_data() -> UserData {
    UserData { id: Some(-1i32), name: None }
}

/// Builds the empty sentinel record.
pub fn empty_data() -> (r: UserData)
    ensures
        r == spec_empty_data(),
{
    UserData { id: None, name: None }
}

/// Builds the error sentinel record.
pub fn error_data() -> (r: UserData)
    ensures
        r == spec_error_data(),
{
    UserData { id: Some(-1), name: None }
}

impl Clone for UserData {
    fn clone(&self) -> (r: UserData)
        ensures
            r == *self,
    {
        let name = match &self.name {
            Some(s) => Some(s.clone()),
            None => None,
        };
        UserData { id: self.id, name }
    }
}

/// What one load attempt settled to, carried as a tagged value inside the
/// engine so that a failed load can never be mistaken for real data.
#[derive(Debug, PartialEq)]
pub enum Outcome {
    /// The source returned this row.
    Value(UserData),
    /// The source confirmed the key has no row; cached durably.
    Empty,
    /// The load failed; purged from the cache as soon as it is read.
    Error,
}

impl Outcome {
    /// The record a caller receives for this outcome.
    pub open spec fn spec_record(self) -> UserData {
        match self {
            Outcome::Value(u) => u,
            Outcome::Empty => spec_empty_data(),
            Outcome::Error => spec_error_data(),
        }
    }

    /// Flattens the outcome to the record handed out at the engine boundary.
    pub fn to_record(&self) -> (r: UserData)
        ensures
            r == self.spec_record(),
    {
        match self {
            Outcome::Value(u) => u.clone(),
            Outcome::Empty => empty_data(),
            Outcome::Error => error_data(),
        }
    }

    /// True exactly on the error outcome.
    pub fn is_error(&self) -> (r: bool)
        ensures
            r == (*self is Error),
    {
        match self {
            Outcome::Error => true,
            _ => false,
        }
    }
}

impl Clone for Outcome {
    fn clone(&self) -> (r: Outcome)
        ensures
            r == *self,
    {
        match self {
            Outcome::Value(u) => Outcome::Value(u.clone()),
            Outcome::Empty => Outcome::Empty,
            Outcome::Error => Outcome::Error,
        }
    }
}

/// The body of a batch lookup request: the keys to fetch.
#[derive(Debug, PartialEq)]
pub struct GetCacheByListKeyRequest {
    pub keys: Vec<i32>,
}

/// One keyed result of a lookup, as handed to the response marshaling layer.
#[derive(Debug, PartialEq)]
pub struct KeyValue {
    pub key: i32,
    pub value: Option<UserData>,
}

/// An invalidation event consumed from the external messaging collaborator:
/// a key identity that may be absent.
#[derive(Debug, PartialEq)]
pub struct InvalidCache {
    pub id: Option<i32>,
}

} // verus!
