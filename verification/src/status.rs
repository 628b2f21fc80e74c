//! HTTP status values: a closed set of codes, each with a reason phrase.

use vstd::prelude::*;

verus! {

/// An HTTP status. The set is closed; each variant carries a fixed numeric
/// code and reason phrase on the wire.
#[derive(Clone, Copy, PartialEq, Eq, Structural, Debug)]
pub enum Status {
    OK,
    BadRequest,
    NotFound,
    InternalServerError,
}

impl Status {
    /// The numeric code of this status.
    pub open spec fn spec_code(self) -> int {
        match self {
            Status::OK => 200,
            Status::BadRequest => 400,
            Status::NotFound => 404,
            Status::InternalServerError => 500,
        }
    }

    /// The numeric code of this status.
    pub fn code(&self) -> (c: u16)
        ensures
            c as int == self.spec_code(),
    {
        match self {
            Status::OK => 200,
            Status::BadRequest => 400,
            Status::NotFound => 404,
            Status::InternalServerError => 500,
        }
    }

    /// The reason phrase of this status.
    pub open spec fn spec_reason(self) -> Seq<char> {
        match self {
            Status::OK => "OK"@,
            Status::BadRequest => "Bad Request"@,
            Status::NotFound => "Not Found"@,
            Status::InternalServerError => "Internal Server"@,
        }
    }

    /// The reason phrase of this status.
    pub fn reason(&self) -> (r: &'static str)
        ensures
            r@ == self.spec_reason(),
    {
        match self {
            Status::OK => "OK",
            Status::BadRequest => "Bad Request",
            Status::NotFound => "Not Found",
            Status::InternalServerError => "Internal Server",
        }
    }
}

impl Default for Status {
    /// A status starts out as `OK`.
    fn default() -> (s: Self)
        ensures
            s == Status::OK,
    {
        Status::OK
    }
}

impl From<Status> for i32 {
    fn from(val: Status) -> (c: i32) {
        val.code() as i32
    }
}

impl vstd::std_specs::convert::FromSpecImpl<Status> for i32 {
    open spec fn obeys_from_spec() -> bool {
        true
    }

    open spec fn from_spec(val: Status) -> i32 {
        val.spec_code() as i32
    }
}

} // verus!
