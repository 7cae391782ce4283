//! One value of one element type.
use vstd::prelude::*;

use crate::dtype::DataType;
use crate::dtype::GetDtype;
use crate::error::Error;

verus! {

/// A span of time: whole months and a remainder in seconds and nanoseconds.
#[derive(Clone, Copy, Debug, PartialEq, Eq, Structural)]
pub struct TimeDelta {
    pub months: i32,
    pub secs: i64,
    pub nanos: i32,
}

/// One value of exactly one element type. A float is held by its bit
/// pattern, a point in time by its count in the unit of its tag.
#[derive(Debug)]
pub enum Scalar {
    Bool(bool),
    F32(u32),
    F64(u64),
    I32(i32),
    I64(i64),
    U8(u8),
    U64(u64),
    Usize(usize),
    String(String),
    OptBool(Option<bool>),
    OptF32(Option<u32>),
    OptF64(Option<u64>),
    OptI32(Option<i32>),
    OptI64(Option<i64>),
    OptUsize(Option<usize>),
    VecUsize(Vec<usize>),
    DateTimeMs(i64),
    DateTimeUs(i64),
    DateTimeNs(i64),
    TimeDelta(TimeDelta),
}

/// What a [`Scalar`] holds, as a mathematical value.
pub enum Value {
    Bool(bool),
    F32(u32),
    F64(u64),
    I32(i32),
    I64(i64),
    U8(u8),
    U64(u64),
    Usize(usize),
    String(Seq<char>),
    OptBool(Option<bool>),
    OptF32(Option<u32>),
    OptF64(Option<u64>),
    OptI32(Option<i32>),
    OptI64(Option<i64>),
    OptUsize(Option<usize>),
    VecUsize(Seq<usize>),
    DateTimeMs(i64),
    DateTimeUs(i64),
    DateTimeNs(i64),
    TimeDelta(TimeDelta),
}

impl Value {
    /// The tag of the element type that the value belongs to.
    pub open spec fn dtype(self) -> DataType {
        match self {
            Value::Bool(_) => DataType::Bool,
            Value::F32(_) => DataType::F32,
            Value::F64(_) => DataType::F64,
            Value::I32(_) => DataType::I32,
            Value::I64(_) => DataType::I64,
            Value::U8(_) => DataType::U8,
            Value::U64(_) => DataType::U64,
            Value::Usize(_) => DataType::Usize,
            Value::String(_) => DataType::String,
            Value::OptBool(_) => DataType::OptBool,
            Value::OptF32(_) => DataType::OptF32,
            Value::OptF64(_) => DataType::OptF64,
            Value::OptI32(_) => DataType::OptI32,
            Value::OptI64(_) => DataType::OptI64,
            Value::OptUsize(_) => DataType::OptUsize,
            Value::VecUsize(_) => DataType::VecUsize,
            Value::DateTimeMs(_) => DataType::DateTimeMs,
            Value::DateTimeUs(_) => DataType::DateTimeUs,
            Value::DateTimeNs(_) => DataType::DateTimeNs,
            Value::TimeDelta(_) => DataType::TimeDelta,
        }
    }
}

/// Every value of `s` belongs to the element type `dtype`.
pub open spec fn all_of(s: Seq<Value>, dtype: DataType) -> bool {
    forall|i: int| 0 <= i < s.len() ==> (#[trigger] s[i]).dtype() == dtype
}

/// The values that the elements of `s` hold.
pub open spec fn values_of(s: Seq<Scalar>) -> Seq<Value> {
    s.map_values(|x: Scalar| x@)
}

/// `values_of` keeps the length and takes the value of each element.
pub proof fn lemma_values_of(s: Seq<Scalar>)
    ensures
        values_of(s).len() == s.len(),
        forall|k: int| 0 <= k < s.len() ==> #[trigger] values_of(s)[k] == s[k]@,
{
}

impl View for Scalar {
    type V = Value;

    open spec fn view(&self) -> Value {
        match self {
            Scalar::Bool(v) => Value::Bool(*v),
            Scalar::F32(v) => Value::F32(*v),
            Scalar::F64(v) => Value::F64(*v),
            Scalar::I32(v) => Value::I32(*v),
            Scalar::I64(v) => Value::I64(*v),
            Scalar::U8(v) => Value::U8(*v),
            Scalar::U64(v) => Value::U64(*v),
            Scalar::Usize(v) => Value::Usize(*v),
            Scalar::String(v) => Value::String(v@),
            Scalar::OptBool(v) => Value::OptBool(*v),
            Scalar::OptF32(v) => Value::OptF32(*v),
            Scalar::OptF64(v) => Value::OptF64(*v),
            Scalar::OptI32(v) => Value::OptI32(*v),
            Scalar::OptI64(v) => Value::OptI64(*v),
            Scalar::OptUsize(v) => Value::OptUsize(*v),
            Scalar::VecUsize(v) => Value::VecUsize(v@),
            Scalar::DateTimeMs(v) => Value::DateTimeMs(*v),
            Scalar::DateTimeUs(v) => Value::DateTimeUs(*v),
            Scalar::DateTimeNs(v) => Value::DateTimeNs(*v),
            Scalar::TimeDelta(v) => Value::TimeDelta(*v),
        }
    }
}

impl GetDtype for Scalar {
    open spec fn spec_dtype(&self) -> DataType {
        self@.dtype()
    }

    fn dtype(&self) -> (r: DataType) {
        assert(self.spec_dtype() == self@.dtype());
        match self {
            Scalar::Bool(_) => DataType::Bool,
            Scalar::F32(_) => DataType::F32,
            Scalar::F64(_) => DataType::F64,
            Scalar::I32(_) => DataType::I32,
            Scalar::I64(_) => DataType::I64,
            Scalar::U8(_) => DataType::U8,
            Scalar::U64(_) => DataType::U64,
            Scalar::Usize(_) => DataType::Usize,
            Scalar::String(_) => DataType::String,
            Scalar::OptBool(_) => DataType::OptBool,
            Scalar::OptF32(_) => DataType::OptF32,
            Scalar::OptF64(_) => DataType::OptF64,
            Scalar::OptI32(_) => DataType::OptI32,
            Scalar::OptI64(_) => DataType::OptI64,
            Scalar::OptUsize(_) => DataType::OptUsize,
            Scalar::VecUsize(_) => DataType::VecUsize,
            Scalar::DateTimeMs(_) => DataType::DateTimeMs,
            Scalar::DateTimeUs(_) => DataType::DateTimeUs,
            Scalar::DateTimeNs(_) => DataType::DateTimeNs,
            Scalar::TimeDelta(_) => DataType::TimeDelta,
        }
    }
}

/// A copy of a vector of indices.
fn copy_indices(v: &Vec<usize>) -> (r: Vec<usize>)
    ensures
        r@ == v@,
{
    let mut out: Vec<usize> = Vec::with_capacity(v.len());
    let mut i: usize = 0;
    while i < v.len()
        invariant
            i <= v.len(),
            out@ == v@.subrange(0, i as int),
        decreases v.len() - i,
    {
        out.push(v[i]);
        assert(out@ =~= v@.subrange(0, i + 1));
        i += 1;
    }
    assert(v@.subrange(0, v.len() as int) =~= v@);
    out
}

impl Clone for Scalar {
    fn clone(&self) -> (r: Self)
        ensures
            r@ == self@,
    {
        self.clone_inner()
    }
}

impl Scalar {
    /// A full copy, whatever it costs.
    pub fn clone_inner(&self) -> (r: Scalar)
        ensures
            r@ == self@,
    {
        match self {
            Scalar::Bool(v) => Scalar::Bool(*v),
            Scalar::F32(v) => Scalar::F32(*v),
            Scalar::F64(v) => Scalar::F64(*v),
            Scalar::I32(v) => Scalar::I32(*v),
            Scalar::I64(v) => Scalar::I64(*v),
            Scalar::U8(v) => Scalar::U8(*v),
            Scalar::U64(v) => Scalar::U64(*v),
            Scalar::Usize(v) => Scalar::Usize(*v),
            Scalar::String(v) => Scalar::String(v.clone()),
            Scalar::OptBool(v) => Scalar::OptBool(*v),
            Scalar::OptF32(v) => Scalar::OptF32(*v),
            Scalar::OptF64(v) => Scalar::OptF64(*v),
            Scalar::OptI32(v) => Scalar::OptI32(*v),
            Scalar::OptI64(v) => Scalar::OptI64(*v),
            Scalar::OptUsize(v) => Scalar::OptUsize(*v),
            Scalar::VecUsize(v) => Scalar::VecUsize(copy_indices(v)),
            Scalar::DateTimeMs(v) => Scalar::DateTimeMs(*v),
            Scalar::DateTimeUs(v) => Scalar::DateTimeUs(*v),
            Scalar::DateTimeNs(v) => Scalar::DateTimeNs(*v),
            Scalar::TimeDelta(v) => Scalar::TimeDelta(*v),
        }
    }

    /// Whether a copy of an element of this type is cheap: it is for every
    /// type but the vector of indices.
    pub open spec fn cheap(v: Value) -> bool {
        !(v is VecUsize)
    }

    /// A copy where copying is cheap, `None` for a vector of indices.
    pub fn cheap_clone(&self) -> (r: Option<Scalar>)
        ensures
            match r {
                Some(s) => Self::cheap(self@) && s@ == self@,
                None => !Self::cheap(self@),
            },
    {
        match self {
            Scalar::VecUsize(_) => None,
            _ => Some(self.clone_inner()),
        }
    }

    /// The boolean held, `TypeMismatch` for any other type.
    pub fn bool(self) -> (r: Result<bool, Error>)
        ensures
            match r {
                Ok(v) => self@ == Value::Bool(v),
                Err(e) => !(self@ is Bool) && e == Error::TypeMismatch,
            },
    {
        match self {
            Scalar::Bool(v) => Ok(v),
            _ => Err(Error::TypeMismatch),
        }
    }

    /// The 32-bit integer held, `TypeMismatch` for any other type.
    pub fn i32(self) -> (r: Result<i32, Error>)
        ensures
            match r {
                Ok(v) => self@ == Value::I32(v),
                Err(e) => !(self@ is I32) && e == Error::TypeMismatch,
            },
    {
        match self {
            Scalar::I32(v) => Ok(v),
            _ => Err(Error::TypeMismatch),
        }
    }

    /// The 64-bit integer held, `TypeMismatch` for any other type.
    pub fn i64(self) -> (r: Result<i64, Error>)
        ensures
            match r {
                Ok(v) => self@ == Value::I64(v),
                Err(e) => !(self@ is I64) && e == Error::TypeMismatch,
            },
    {
        match self {
            Scalar::I64(v) => Ok(v),
            _ => Err(Error::TypeMismatch),
        }
    }

    /// The byte held, `TypeMismatch` for any other type.
    pub fn u8(self) -> (r: Result<u8, Error>)
        ensures
            match r {
                Ok(v) => self@ == Value::U8(v),
                Err(e) => !(self@ is U8) && e == Error::TypeMismatch,
            },
    {
        match self {
            Scalar::U8(v) => Ok(v),
            _ => Err(Error::TypeMismatch),
        }
    }

    /// The unsigned 64-bit integer held, `TypeMismatch` for any other type.
    pub fn u64(self) -> (r: Result<u64, Error>)
        ensures
            match r {
                Ok(v) => self@ == Value::U64(v),
                Err(e) => !(self@ is U64) && e == Error::TypeMismatch,
            },
    {
        match self {
            Scalar::U64(v) => Ok(v),
            _ => Err(Error::TypeMismatch),
        }
    }

    /// The index held, `TypeMismatch` for any other type.
    pub fn usize(self) -> (r: Result<usize, Error>)
        ensures
            match r {
                Ok(v) => self@ == Value::Usize(v),
                Err(e) => !(self@ is Usize) && e == Error::TypeMismatch,
            },
    {
        match self {
            Scalar::Usize(v) => Ok(v),
            _ => Err(Error::TypeMismatch),
        }
    }

    /// The string held, `TypeMismatch` for any other type.
    pub fn string(self) -> (r: Result<String, Error>)
        ensures
            match r {
                Ok(v) => self@ == Value::String(v@),
                Err(e) => !(self@ is String) && e == Error::TypeMismatch,
            },
    {
        match self {
            Scalar::String(v) => Ok(v),
            _ => Err(Error::TypeMismatch),
        }
    }

    /// The optional boolean held, `TypeMismatch` for any other type.
    pub fn opt_bool(self) -> (r: Result<Option<bool>, Error>)
        ensures
            match r {
                Ok(v) => self@ == Value::OptBool(v),
                Err(e) => !(self@ is OptBool) && e == Error::TypeMismatch,
            },
    {
        match self {
            Scalar::OptBool(v) => Ok(v),
            _ => Err(Error::TypeMismatch),
        }
    }

    /// The optional 32-bit integer held, `TypeMismatch` for any other type.
    pub fn opt_i32(self) -> (r: Result<Option<i32>, Error>)
        ensures
            match r {
                Ok(v) => self@ == Value::OptI32(v),
                Err(e) => !(self@ is OptI32) && e == Error::TypeMismatch,
            },
    {
        match self {
            Scalar::OptI32(v) => Ok(v),
            _ => Err(Error::TypeMismatch),
        }
    }

    /// The optional 64-bit integer held, `TypeMismatch` for any other type.
    pub fn opt_i64(self) -> (r: Result<Option<i64>, Error>)
        ensures
            match r {
                Ok(v) => self@ == Value::OptI64(v),
                Err(e) => !(self@ is OptI64) && e == Error::TypeMismatch,
            },
    {
        match self {
            Scalar::OptI64(v) => Ok(v),
            _ => Err(Error::TypeMismatch),
        }
    }

    /// The optional index held, `TypeMismatch` for any other type.
    pub fn opt_usize(self) -> (r: Result<Option<usize>, Error>)
        ensures
            match r {
                Ok(v) => self@ == Value::OptUsize(v),
                Err(e) => !(self@ is OptUsize) && e == Error::TypeMismatch,
            },
    {
        match self {
            Scalar::OptUsize(v) => Ok(v),
            _ => Err(Error::TypeMismatch),
        }
    }

    /// The vector of indices held, `TypeMismatch` for any other type.
    pub fn vec_usize(self) -> (r: Result<Vec<usize>, Error>)
        ensures
            match r {
                Ok(v) => self@ == Value::VecUsize(v@),
                Err(e) => !(self@ is VecUsize) && e == Error::TypeMismatch,
            },
    {
        match self {
            Scalar::VecUsize(v) => Ok(v),
            _ => Err(Error::TypeMismatch),
        }
    }

    /// The span of time held, `TypeMismatch` for any other type.
    pub fn timedelta(self) -> (r: Result<TimeDelta, Error>)
        ensures
            match r {
                Ok(v) => self@ == Value::TimeDelta(v),
                Err(e) => !(self@ is TimeDelta) && e == Error::TypeMismatch,
            },
    {
        match self {
            Scalar::TimeDelta(v) => Ok(v),
            _ => Err(Error::TypeMismatch),
        }
    }
}

} // verus!
