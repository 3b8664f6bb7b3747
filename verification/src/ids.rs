//! Parsing of UUID strings (through the `uuid` crate).
use vstd::prelude::*;

use crate::error::{Conflict, DbError};

verus! {

/// What `uuid::Uuid::parse_str` gives for `s`, as the UUID's 128-bit value.
pub uninterp spec fn uuid_parse(s: Seq<char>) -> Option<u128>;

/// `uuid::Uuid::parse_str(s)`, taken as a `u128`.
///
/// Trusted: the result is the named parse of `s`.
#[verifier::external_body]
fn uuid_parse_str(s: &str) -> (r: Option<u128>)
    ensures
        r == uuid_parse(s@),
{
    match uuid::Uuid::parse_str(s) {
        Ok(u) => Some(u.as_u128()),
        Err(_) => None,
    }
}

/// `r` is the outcome of parsing `s` as a UUID.
pub open spec fn uuid_parsed(s: Seq<char>, r: Result<u128, DbError>) -> bool {
    match uuid_parse(s) {
        Some(u) => r == Ok::<u128, DbError>(u),
        None => r matches Err(e) && e matches DbError::Conflict(Conflict::InvalidUuid(x)) && x@ == s,
    }
}

/// An optional UUID string is absent or parses.
pub open spec fn opt_uuid_ok(s: Option<&str>) -> bool {
    match s {
        None => true,
        Some(x) => uuid_parse(x@) is Some,
    }
}

/// Parses a UUID, refusing malformed input with a conflict that names it.
pub fn parse_uuid(s: &str) -> (r: Result<u128, DbError>)
    ensures
        uuid_parsed(s@, r),
{
    match uuid_parse_str(s) {
        Some(u) => Ok(u),
        None => Err(DbError::Conflict(Conflict::InvalidUuid(String::from_str(s)))),
    }
}

/// Parses an optional UUID.
pub fn parse_opt_uuid(s: Option<&str>) -> (r: Result<Option<u128>, DbError>)
    ensures
        s is None ==> r == Ok::<Option<u128>, DbError>(None),
        s matches Some(x) ==> match uuid_parse(x@) {
            Some(u) => r == Ok::<Option<u128>, DbError>(Some(u)),
            None => r matches Err(e) && e matches DbError::Conflict(Conflict::InvalidUuid(y)) && y@
                == x@,
        },
        r is Ok <==> opt_uuid_ok(s),
{
    match s {
        None => Ok(None),
        Some(v) => match parse_uuid(v) {
            Ok(u) => Ok(Some(u)),
            Err(e) => Err(e),
        },
    }
}

/// `uuid::Uuid::new_v4()`, taken as a `u128`.
///
/// Trusted: nothing is stated of the value, which is random.
#[verifier::external_body]
pub(crate) fn new_uuid() -> u128 {
    uuid::Uuid::new_v4().as_u128()
}

} // verus!
