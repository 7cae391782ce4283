//! The Rust types that an element can be handed over as.
use vstd::prelude::*;

use crate::dtype::DataType;
use crate::error::Error;
use crate::scalar::Scalar;
use crate::scalar::Value;

verus! {

/// A Rust type that stands for one element type: it knows its tag and goes
/// into and out of a [`Scalar`] without loss.
pub trait Dtype: Sized {
    /// The tag of the element type.
    spec fn spec_type() -> DataType;

    /// The value that an element holds.
    spec fn value(self) -> Value;

    fn type_() -> (r: DataType)
        ensures
            r == Self::spec_type(),
    ;

    /// Wraps the element with its tag.
    fn wrap(self) -> (r: Scalar)
        ensures
            r@ == self.value(),
            r@.dtype() == Self::spec_type(),
    ;

    /// Takes the element out of a scalar of this type; a scalar of another
    /// type gives `TypeMismatch`.
    fn take(s: Scalar) -> (r: Result<Self, Error>)
        ensures
            match r {
                Ok(v) => v.value() == s@ && s@.dtype() == Self::spec_type(),
                Err(e) => s@.dtype() != Self::spec_type() && e == Error::TypeMismatch,
            },
    ;
}

impl Dtype for bool {
    open spec fn spec_type() -> DataType {
        DataType::Bool
    }

    open spec fn value(self) -> Value {
        Value::Bool(self)
    }

    fn type_() -> (r: DataType) {
        DataType::Bool
    }

    fn wrap(self) -> (r: Scalar) {
        Scalar::Bool(self)
    }

    fn take(s: Scalar) -> (r: Result<Self, Error>) {
        match s {
            Scalar::Bool(v) => Ok(v),
            _ => Err(Error::TypeMismatch),
        }
    }
}

impl Dtype for i32 {
    open spec fn spec_type() -> DataType {
        DataType::I32
    }

    open spec fn value(self) -> Value {
        Value::I32(self)
    }

    fn type_() -> (r: DataType) {
        DataType::I32
    }

    fn wrap(self) -> (r: Scalar) {
        Scalar::I32(self)
    }

    fn take(s: Scalar) -> (r: Result<Self, Error>) {
        match s {
            Scalar::I32(v) => Ok(v),
            _ => Err(Error::TypeMismatch),
        }
    }
}

impl Dtype for i64 {
    open spec fn spec_type() -> DataType {
        DataType::I64
    }

    open spec fn value(self) -> Value {
        Value::I64(self)
    }

    fn type_() -> (r: DataType) {
        DataType::I64
    }

    fn wrap(self) -> (r: Scalar) {
        Scalar::I64(self)
    }

    fn take(s: Scalar) -> (r: Result<Self, Error>) {
        match s {
            Scalar::I64(v) => Ok(v),
            _ => Err(Error::TypeMismatch),
        }
    }
}

impl Dtype for u8 {
    open spec fn spec_type() -> DataType {
        DataType::U8
    }

    open spec fn value(self) -> Value {
        Value::U8(self)
    }

    fn type_() -> (r: DataType) {
        DataType::U8
    }

    fn wrap(self) -> (r: Scalar) {
        Scalar::U8(self)
    }

    fn take(s: Scalar) -> (r: Result<Self, Error>) {
        match s {
            Scalar::U8(v) => Ok(v),
            _ => Err(Error::TypeMismatch),
        }
    }
}

impl Dtype for u64 {
    open spec fn spec_type() -> DataType {
        DataType::U64
    }

    open spec fn value(self) -> Value {
        Value::U64(self)
    }

    fn type_() -> (r: DataType) {
        DataType::U64
    }

    fn wrap(self) -> (r: Scalar) {
        Scalar::U64(self)
    }

    fn take(s: Scalar) -> (r: Result<Self, Error>) {
        match s {
            Scalar::U64(v) => Ok(v),
            _ => Err(Error::TypeMismatch),
        }
    }
}

impl Dtype for usize {
    open spec fn spec_type() -> DataType {
        DataType::Usize
    }

    open spec fn value(self) -> Value {
        Value::Usize(self)
    }

    fn type_() -> (r: DataType) {
        DataType::Usize
    }

    fn wrap(self) -> (r: Scalar) {
        Scalar::Usize(self)
    }

    fn take(s: Scalar) -> (r: Result<Self, Error>) {
        match s {
            Scalar::Usize(v) => Ok(v),
            _ => Err(Error::TypeMismatch),
        }
    }
}

impl Dtype for String {
    open spec fn spec_type() -> DataType {
        DataType::String
    }

    open spec fn value(self) -> Value {
        Value::String(self@)
    }

    fn type_() -> (r: DataType) {
        DataType::String
    }

    fn wrap(self) -> (r: Scalar) {
        Scalar::String(self)
    }

    fn take(s: Scalar) -> (r: Result<Self, Error>) {
        match s {
            Scalar::String(v) => Ok(v),
            _ => Err(Error::TypeMismatch),
        }
    }
}

impl Dtype for Option<bool> {
    open spec fn spec_type() -> DataType {
        DataType::OptBool
    }

    open spec fn value(self) -> Value {
        Value::OptBool(self)
    }

    fn type_() -> (r: DataType) {
        DataType::OptBool
    }

    fn wrap(self) -> (r: Scalar) {
        Scalar::OptBool(self)
    }

    fn take(s: Scalar) -> (r: Result<Self, Error>) {
        match s {
            Scalar::OptBool(v) => Ok(v),
            _ => Err(Error::TypeMismatch),
        }
    }
}

impl Dtype for Option<i32> {
    open spec fn spec_type() -> DataType {
        DataType::OptI32
    }

    open spec fn value(self) -> Value {
        Value::OptI32(self)
    }

    fn type_() -> (r: DataType) {
        DataType::OptI32
    }

    fn wrap(self) -> (r: Scalar) {
        Scalar::OptI32(self)
    }

    fn take(s: Scalar) -> (r: Result<Self, Error>) {
        match s {
            Scalar::OptI32(v) => Ok(v),
            _ => Err(Error::TypeMismatch),
        }
    }
}

impl Dtype for Option<i64> {
    open spec fn spec_type() -> DataType {
        DataType::OptI64
    }

    open spec fn value(self) -> Value {
        Value::OptI64(self)
    }

    fn type_() -> (r: DataType) {
        DataType::OptI64
    }

    fn wrap(self) -> (r: Scalar) {
        Scalar::OptI64(self)
    }

    fn take(s: Scalar) -> (r: Result<Self, Error>) {
        match s {
            Scalar::OptI64(v) => Ok(v),
            _ => Err(Error::TypeMismatch),
        }
    }
}

impl Dtype for Option<usize> {
    open spec fn spec_type() -> DataType {
        DataType::OptUsize
    }

    open spec fn value(self) -> Value {
        Value::OptUsize(self)
    }

    fn type_() -> (r: DataType) {
        DataType::OptUsize
    }

    fn wrap(self) -> (r: Scalar) {
        Scalar::OptUsize(self)
    }

    fn take(s: Scalar) -> (r: Result<Self, Error>) {
        match s {
            Scalar::OptUsize(v) => Ok(v),
            _ => Err(Error::TypeMismatch),
        }
    }
}

impl Dtype for Vec<usize> {
    open spec fn spec_type() -> DataType {
        DataType::VecUsize
    }

    open spec fn value(self) -> Value {
        Value::VecUsize(self@)
    }

    fn type_() -> (r: DataType) {
        DataType::VecUsize
    }

    fn wrap(self) -> (r: Scalar) {
        Scalar::VecUsize(self)
    }

    fn take(s: Scalar) -> (r: Result<Self, Error>) {
        match s {
            Scalar::VecUsize(v) => Ok(v),
            _ => Err(Error::TypeMismatch),
        }
    }
}

/// The values of a sequence of typed elements.
pub open spec fn typed_values<T: Dtype>(s: Seq<T>) -> Seq<Value> {
    s.map_values(|x: T| x.value())
}

} // verus!
