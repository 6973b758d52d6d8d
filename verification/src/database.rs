//! What the document store reports, and what the service makes of it.
//!
//! The library never talks to the store. It is handed what the store
//! answered and says what that amounts to. A room is checked against the
//! events it was loaded with: whoever loads, changes and saves a room has to
//! see to it that nobody else does so in between.

use std::convert::From;
use vstd::prelude::*;
use vstd::std_specs::convert::FromSpecImpl;

verus! {

/// The error of mongodb, `mongodb::error::Error`: carried along as it is,
/// with nothing said of what it holds.
#[verifier::external_type_specification]
#[verifier::external_body]
pub struct ExStoreError(mongodb::error::Error);

/// The error of bson's serializer, `bson::ser::Error`: carried along as it
/// is, with nothing said of what it holds.
#[verifier::external_type_specification]
#[verifier::external_body]
pub struct ExEncodingError(bson::ser::Error);

/// The name of the database.
pub const DATABASE: &'static str = "helper:Paper";

/// The collection of the users.
pub const USERS: &'static str = "users";

/// The collection of the rooms.
pub const ROOMS: &'static str = "rooms";

/// The collection of the displays.
pub const EPAPERS: &'static str = "epapers";

/// The collection of the layouts.
pub const LAYOUTS: &'static str = "layouts";

/// The fields that admit each value once, each with its collection: users go
/// by their user name, rooms, layouts and displays by their name.
pub fn unique_indices() -> (r: Vec<(&'static str, &'static str)>)
    ensures
        r@.len() == 4,
        r@[0].0@ == USERS@ && r@[0].1@ == "username"@,
        r@[1].0@ == ROOMS@ && r@[1].1@ == "name"@,
        r@[2].0@ == LAYOUTS@ && r@[2].1@ == "name"@,
        r@[3].0@ == EPAPERS@ && r@[3].1@ == "name"@,
{
    let mut indices: Vec<(&'static str, &'static str)> = Vec::new();
    indices.push((USERS, "username"));
    indices.push((ROOMS, "name"));
    indices.push((LAYOUTS, "name"));
    indices.push((EPAPERS, "name"));
    indices
}

/// What can go wrong between the service and the store.
#[derive(Debug)]
pub enum DatabaseError {
    /// The store failed.
    MongoDB(mongodb::error::Error),
    /// A document could not be written out.
    Bson(bson::ser::Error),
    /// An update changed nothing.
    NoUpdate,
    /// There is no such document.
    NotFound,
    /// A document of that name or identifier is there already.
    AlreadyInDB,
}

impl From<mongodb::error::Error> for DatabaseError {
    fn from(error: mongodb::error::Error) -> (r: DatabaseError) {
        DatabaseError::MongoDB(error)
    }
}

impl FromSpecImpl<mongodb::error::Error> for DatabaseError {
    open spec fn obeys_from_spec() -> bool {
        true
    }

    open spec fn from_spec(error: mongodb::error::Error) -> DatabaseError {
        DatabaseError::MongoDB(error)
    }
}

impl From<bson::ser::Error> for DatabaseError {
    fn from(error: bson::ser::Error) -> (r: DatabaseError) {
        DatabaseError::Bson(error)
    }
}

impl FromSpecImpl<bson::ser::Error> for DatabaseError {
    open spec fn obeys_from_spec() -> bool {
        true
    }

    open spec fn from_spec(error: bson::ser::Error) -> DatabaseError {
        DatabaseError::Bson(error)
    }
}

/// What an update amounts to that changed `modified_count` documents: it
/// went through if it changed one, and is an error if it changed none.
pub fn updated(modified_count: u64) -> (r: Result<(), DatabaseError>)
    ensures
        r == if modified_count > 0 {
            Ok::<(), DatabaseError>(())
        } else {
            Err::<(), DatabaseError>(DatabaseError::NoUpdate)
        },
{
    if modified_count > 0 {
        Ok(())
    } else {
        Err(DatabaseError::NoUpdate)
    }
}

/// The document that a lookup found, or the report that there is none.
pub fn fetched<T>(found: Option<T>) -> (r: Result<T, DatabaseError>)
    ensures
        r == match found {
            Some(document) => Ok::<T, DatabaseError>(document),
            None => Err::<T, DatabaseError>(DatabaseError::NotFound),
        },
{
    match found {
        Some(document) => Ok(document),
        None => Err(DatabaseError::NotFound),
    }
}

/// Whether a document counts as stored: one of its name is there, or one of
/// its identifier.
pub fn isindb(name_found: bool, id_found: bool) -> (r: bool)
    ensures
        r == (name_found || id_found),
{
    name_found || id_found
}

/// Whether a document may be inserted: not when it counts as stored already.
pub fn insertable(in_db: bool) -> (r: Result<(), DatabaseError>)
    ensures
        r == if in_db {
            Err::<(), DatabaseError>(DatabaseError::AlreadyInDB)
        } else {
            Ok::<(), DatabaseError>(())
        },
{
    if in_db {
        Err(DatabaseError::AlreadyInDB)
    } else {
        Ok(())
    }
}

} // verus!
