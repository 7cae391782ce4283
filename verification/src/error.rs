use vstd::prelude::*;

verus! {

/// What can go wrong in the engine. Every fallible operation of the crate
/// returns one of these and never panics.
#[derive(Clone, Copy, Debug, PartialEq, Eq, Structural)]
pub enum Error {
    /// The element type met is not one the operation is defined for, or no
    /// cast rule leads from the source to the target.
    TypeMismatch,
    /// An index or a window reaches past the end of a container.
    OutOfBounds { idx: usize, len: usize },
    /// The payload was needed for the caller alone but another handle still
    /// refers to it.
    SharedOwnership,
    /// A symbol names a column that the context does not bind.
    MissingBinding,
    /// Arrays whose dimensions do not fit were to be joined.
    ShapeMismatch,
    /// The operation is not defined for this kind of data.
    UnsupportedOperation,
    /// A transform stands first in a chain, with nothing selected before it.
    NoInput,
    /// The chain is empty, so there is nothing to return.
    NoData,
    /// An integer result does not fit the element type it must be stored in.
    Overflow,
}

impl Error {
    /// A short description for the user.
    pub fn message(&self) -> (r: &'static str)
        ensures
            r@ == Self::spec_message(*self),
    {
        match self {
            Error::TypeMismatch => "element type does not match",
            Error::OutOfBounds { .. } => "index out of bounds",
            Error::SharedOwnership => "data is shared, cannot consume",
            Error::MissingBinding => "no such column in the context",
            Error::ShapeMismatch => "concat array error",
            Error::UnsupportedOperation => "operation not supported for this data",
            Error::NoInput => "should select something to map as first",
            Error::NoData => "no data to return",
            Error::Overflow => "integer overflow",
        }
    }

    pub open spec fn spec_message(e: Error) -> Seq<char> {
        match e {
            Error::TypeMismatch => "element type does not match"@,
            Error::OutOfBounds { .. } => "index out of bounds"@,
            Error::SharedOwnership => "data is shared, cannot consume"@,
            Error::MissingBinding => "no such column in the context"@,
            Error::ShapeMismatch => "concat array error"@,
            Error::UnsupportedOperation => "operation not supported for this data"@,
            Error::NoInput => "should select something to map as first"@,
            Error::NoData => "no data to return"@,
            Error::Overflow => "integer overflow"@,
        }
    }
}

} // verus!
