use vstd::prelude::*;

use crate::error::Error;

verus! {

/// The tag of an element type. Each element type of the engine has exactly
/// one tag; tags are compared for equality only.
///
/// Floating-point elements are held by their IEEE-754 bit patterns, points in
/// time by their count in the unit that the tag names.
#[derive(Clone, Copy, Debug, PartialEq, Eq, Structural, Hash)]
pub enum DataType {
    Bool,
    F32,
    F64,
    I32,
    I64,
    U8,
    U64,
    Usize,
    String,
    OptBool,
    OptF32,
    OptF64,
    OptI32,
    OptI64,
    OptUsize,
    VecUsize,
    DateTimeMs,
    DateTimeUs,
    DateTimeNs,
    TimeDelta,
}

impl DataType {
    /// An integer tag: a plain integer type or an optional one.
    pub open spec fn spec_is_int(self) -> bool {
        matches!(
            self,
            DataType::I32 | DataType::I64 | DataType::U8 | DataType::U64 | DataType::Usize
                | DataType::OptI32 | DataType::OptI64 | DataType::OptUsize
        )
    }

    /// A floating-point tag.
    pub open spec fn spec_is_float(self) -> bool {
        matches!(self, DataType::F32 | DataType::F64 | DataType::OptF32 | DataType::OptF64)
    }

    /// A boolean tag.
    pub open spec fn spec_is_bool(self) -> bool {
        matches!(self, DataType::Bool | DataType::OptBool)
    }

    /// The numeric group without the booleans.
    pub open spec fn spec_is_pure_numeric(self) -> bool {
        self.spec_is_int() || self.spec_is_float()
    }

    /// The numeric group: integers, floats and booleans.
    pub open spec fn spec_is_numeric(self) -> bool {
        self.spec_is_pure_numeric() || self.spec_is_bool()
    }

    /// A tag whose elements may be absent.
    pub open spec fn spec_is_opt(self) -> bool {
        matches!(
            self,
            DataType::OptBool | DataType::OptF32 | DataType::OptF64 | DataType::OptI32
                | DataType::OptI64 | DataType::OptUsize
        )
    }

    /// A tag of a point in time or of a span of time.
    pub open spec fn spec_is_time(self) -> bool {
        matches!(
            self,
            DataType::DateTimeMs | DataType::DateTimeUs | DataType::DateTimeNs
                | DataType::TimeDelta
        )
    }

    /// A tag of a point in time.
    pub open spec fn spec_is_datetime(self) -> bool {
        matches!(self, DataType::DateTimeMs | DataType::DateTimeUs | DataType::DateTimeNs)
    }

    #[verifier::when_used_as_spec(spec_is_datetime)]
    pub fn is_datetime(self) -> (r: bool)
        ensures
            r == self.spec_is_datetime(),
    {
        matches!(self, DataType::DateTimeMs | DataType::DateTimeUs | DataType::DateTimeNs)
    }

    /// The tag that two values share; `TypeMismatch` where their tags
    /// differ. An operation that walks two containers side by side asks for
    /// this before it starts.
    pub fn matched(self, other: DataType) -> (r: Result<DataType, Error>)
        ensures
            match r {
                Ok(t) => self == other && t == self,
                Err(e) => self != other && e == Error::TypeMismatch,
            },
    {
        if self == other {
            Ok(self)
        } else {
            Err(Error::TypeMismatch)
        }
    }

    /// The tag that three values share; `TypeMismatch` where their tags
    /// differ.
    pub fn matched3(self, second: DataType, third: DataType) -> (r: Result<DataType, Error>)
        ensures
            match r {
                Ok(t) => self == second && self == third && t == self,
                Err(e) => (self != second || self != third) && e == Error::TypeMismatch,
            },
    {
        if self == second && self == third {
            Ok(self)
        } else {
            Err(Error::TypeMismatch)
        }
    }

    #[verifier::when_used_as_spec(spec_is_int)]
    pub fn is_int(self) -> (r: bool)
        ensures
            r == self.spec_is_int(),
    {
        matches!(
            self,
            DataType::I32 | DataType::I64 | DataType::U8 | DataType::U64 | DataType::Usize
                | DataType::OptI32 | DataType::OptI64 | DataType::OptUsize
        )
    }

    #[verifier::when_used_as_spec(spec_is_float)]
    pub fn is_float(self) -> (r: bool)
        ensures
            r == self.spec_is_float(),
    {
        matches!(self, DataType::F32 | DataType::F64 | DataType::OptF32 | DataType::OptF64)
    }

    #[verifier::when_used_as_spec(spec_is_bool)]
    pub fn is_bool(self) -> (r: bool)
        ensures
            r == self.spec_is_bool(),
    {
        matches!(self, DataType::Bool | DataType::OptBool)
    }

    #[verifier::when_used_as_spec(spec_is_pure_numeric)]
    pub fn is_pure_numeric(self) -> (r: bool)
        ensures
            r == self.spec_is_pure_numeric(),
    {
        self.is_int() || self.is_float()
    }

    #[verifier::when_used_as_spec(spec_is_numeric)]
    pub fn is_numeric(self) -> (r: bool)
        ensures
            r == self.spec_is_numeric(),
    {
        self.is_pure_numeric() || self.is_bool()
    }

    #[verifier::when_used_as_spec(spec_is_opt)]
    pub fn is_opt(self) -> (r: bool)
        ensures
            r == self.spec_is_opt(),
    {
        matches!(
            self,
            DataType::OptBool | DataType::OptF32 | DataType::OptF64 | DataType::OptI32
                | DataType::OptI64 | DataType::OptUsize
        )
    }

    #[verifier::when_used_as_spec(spec_is_time)]
    pub fn is_time(self) -> (r: bool)
        ensures
            r == self.spec_is_time(),
    {
        matches!(
            self,
            DataType::DateTimeMs | DataType::DateTimeUs | DataType::DateTimeNs
                | DataType::TimeDelta
        )
    }
}

/// The tag of a value, read from the value itself.
pub trait GetDtype {
    spec fn spec_dtype(&self) -> DataType;

    fn dtype(&self) -> (r: DataType)
        ensures
            r == self.spec_dtype(),
    ;
}

} // verus!
