//! The HTTP status that each operation's outcome is answered with.
use vstd::prelude::*;
use crate::record::User;
use crate::store::AccessError;

verus! {

/// Created.
pub const CREATED: u16 = 201;
/// OK.
pub const OK: u16 = 200;
/// No Content.
pub const NO_CONTENT: u16 = 204;
/// Not Found.
pub const NOT_FOUND: u16 = 404;
/// Internal Server Error.
pub const SERVER_ERROR: u16 = 500;

/// A create answers 201 with the record, or 500 where the store failed.
pub fn create_status(r: &Result<User, AccessError>) -> (s: u16)
    ensures
        r is Ok ==> s == CREATED,
        r is Err ==> s == SERVER_ERROR,
{
    match r {
        Ok(_) => CREATED,
        Err(_) => SERVER_ERROR,
    }
}

/// A read answers 200 with the record, 404 where none is stored, or 500
/// where the stored value does not decode or the store failed.
pub fn read_status(r: &Result<User, AccessError>) -> (s: u16)
    ensures
        r is Ok ==> s == OK,
        r matches Err(AccessError::NotFound) ==> s == NOT_FOUND,
        r matches Err(AccessError::Decode) ==> s == SERVER_ERROR,
        r matches Err(AccessError::Engine(_)) ==> s == SERVER_ERROR,
{
    match r {
        Ok(_) => OK,
        Err(AccessError::NotFound) => NOT_FOUND,
        Err(_) => SERVER_ERROR,
    }
}

/// An update answers 200 with the record, 404 where a strict update found
/// nothing to replace, or 500 where the store failed.
pub fn update_status(r: &Result<User, AccessError>) -> (s: u16)
    ensures
        r is Ok ==> s == OK,
        r matches Err(AccessError::NotFound) ==> s == NOT_FOUND,
        r matches Err(AccessError::Decode) ==> s == SERVER_ERROR,
        r matches Err(AccessError::Engine(_)) ==> s == SERVER_ERROR,
{
    read_status(r)
}

/// A delete answers 204 where a record was removed, 404 where there was none,
/// or 500 where the store failed.
pub fn delete_status(r: &Result<bool, AccessError>) -> (s: u16)
    ensures
        r matches Ok(true) ==> s == NO_CONTENT,
        r matches Ok(false) ==> s == NOT_FOUND,
        r is Err ==> s == SERVER_ERROR,
{
    match r {
        Ok(true) => NO_CONTENT,
        Ok(false) => NOT_FOUND,
        Err(_) => SERVER_ERROR,
    }
}

} // verus!
