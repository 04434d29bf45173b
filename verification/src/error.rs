//! Error kinds, and the translation of native status codes into them.

use vstd::prelude::*;

verus! {

/// The status code with which the object layer reports success.
pub const STATUS_OK: i32 = 0;

/// The status code with which the object layer reports that it refused a call.
pub const STATUS_REFUSED: i32 = -2;

/// What can go wrong at the boundary between a handle and the object behind it.
#[derive(Debug, Clone, Copy, PartialEq, Eq, Structural)]
pub enum Error {
    /// Building a composite failed. The children were not taken over.
    ConstructionError,
    /// An operation on a valid handle failed. The handle is as it was.
    OperationError,
    /// The object behind a generic handle is not of the requested variant.
    BadCast,
}

/// The side of the boundary on which a status code was produced.
#[derive(Debug, Clone, Copy, PartialEq, Eq, Structural)]
pub enum Boundary {
    /// A call that builds a new object.
    Construction,
    /// A call on an object that already exists.
    Operation,
}

/// The error kind that stands for a failure at the given boundary.
pub open spec fn failure_at(at: Boundary) -> Error {
    match at {
        Boundary::Construction => Error::ConstructionError,
        Boundary::Operation => Error::OperationError,
    }
}

/// What a status code means at the given boundary: zero is success, every
/// other code is the one error kind of that boundary.
pub open spec fn translated(code: i32, at: Boundary) -> Result<(), Error> {
    if code == STATUS_OK {
        Ok(())
    } else {
        Err(failure_at(at))
    }
}

/// Turns a status code into a result. No code is dropped: each one is either
/// success or exactly one error kind.
pub fn translate(code: i32, at: Boundary) -> (r: Result<(), Error>)
    ensures
        r == translated(code, at),
{
    if code == STATUS_OK {
        Ok(())
    } else {
        match at {
            Boundary::Construction => Err(Error::ConstructionError),
            Boundary::Operation => Err(Error::OperationError),
        }
    }
}

/// The error kind for a status code that reports a failure.
pub fn failure(code: i32, at: Boundary) -> (e: Error)
    requires
        code != STATUS_OK,
    ensures
        translated(code, at) == Err::<(), Error>(e),
        e == failure_at(at),
{
    match at {
        Boundary::Construction => Error::ConstructionError,
        Boundary::Operation => Error::OperationError,
    }
}

} // verus!
