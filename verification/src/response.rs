//! Status codes and plain replies of the service.
use vstd::prelude::*;
use crate::text::owned;

verus! {

/// The HTTP statuses that the service answers with.
#[derive(PartialEq, Eq, Structural, Clone, Copy, Debug)]
pub enum HttpStatus {
    Success,
    Created,
    BadRequest,
    NotFound,
    Conflict,
    FailedDependency,
    NotImplemented,
}

/// The numeric code of a status.
pub open spec fn status_code(s: HttpStatus) -> u16 {
    match s {
        HttpStatus::Success => 200,
        HttpStatus::Created => 201,
        HttpStatus::BadRequest => 400,
        HttpStatus::NotFound => 404,
        HttpStatus::Conflict => 409,
        HttpStatus::FailedDependency => 424,
        HttpStatus::NotImplemented => 501,
    }
}

impl HttpStatus {
    /// The numeric code of this status.
    pub fn code(&self) -> (c: u16)
        ensures
            c == status_code(*self),
    {
        match self {
            HttpStatus::Success => 200,
            HttpStatus::Created => 201,
            HttpStatus::BadRequest => 400,
            HttpStatus::NotFound => 404,
            HttpStatus::Conflict => 409,
            HttpStatus::FailedDependency => 424,
            HttpStatus::NotImplemented => 501,
        }
    }
}

/// A reply made of a status and a text.
pub struct Reply {
    pub status: HttpStatus,
    pub message: String,
}

/// Whether `r` has status `s` and text `m`.
pub open spec fn is_reply(r: Reply, s: HttpStatus, m: Seq<char>) -> bool {
    r.status == s && r.message@ == m
}

/// A reply with status `status` and text `message`.
pub fn reply(status: HttpStatus, message: &str) -> (r: Reply)
    ensures
        is_reply(r, status, message@),
{
    Reply { status, message: owned(message) }
}

/// The answer to a request that the service could not process (status 422
/// of the web framework), turned into a bad request.
pub fn redirect_422_to_400() -> (r: Reply)
    ensures
        is_reply(r, HttpStatus::BadRequest, "Error processing data"@),
{
    reply(HttpStatus::BadRequest, "Error processing data")
}

/// The answer to a listing request whose fields are missing or malformed.
pub fn packages_list_400() -> (r: Reply)
    ensures
        is_reply(
            r,
            HttpStatus::BadRequest,
            "There is missing field(s) in the PackageQuery/AuthenticationToken/offset or it is formed improperly."@,
        ),
{
    reply(
        HttpStatus::BadRequest,
        "There is missing field(s) in the PackageQuery/AuthenticationToken/offset or it is formed improperly.",
    )
}

/// The answer to an authentication request, which the service does not offer.
pub fn authenticate() -> (r: Reply)
    ensures
        is_reply(r, HttpStatus::NotImplemented, "Not implemented"@),
{
    reply(HttpStatus::NotImplemented, "Not implemented")
}

} // verus!
