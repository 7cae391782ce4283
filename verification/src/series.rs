//! The column of a dataframe: a named run of elements, each of which may be
//! absent.
use vstd::prelude::*;

use crate::array::DynArray;
use crate::dtype::DataType;
use crate::dtype::GetDtype;
use crate::error::Error;
use crate::scalar::all_of;
use crate::scalar::lemma_values_of;
use crate::scalar::values_of;
use crate::scalar::Scalar;
use crate::scalar::Value;
use crate::trust_iter::DynTrustIter;
use crate::vec::DynVec;

verus! {

/// Whether the bits are those of a 32-bit float that is not a number.
pub open spec fn nan32(bits: u32) -> bool {
    bits & 0x7fff_ffffu32 > 0x7f80_0000u32
}

/// Whether the bits are those of a 64-bit float that is not a number.
pub open spec fn nan64(bits: u64) -> bool {
    bits & 0x7fff_ffff_ffff_ffffu64 > 0x7ff0_0000_0000_0000u64
}

/// The element type of the column that holds elements of type `dtype`: the
/// optional type of booleans, of 32-bit and 64-bit integers and of 32-bit
/// and 64-bit floats. `None` for an element type that no column holds.
pub open spec fn column_type(dtype: DataType) -> Option<DataType> {
    match dtype {
        DataType::Bool | DataType::OptBool => Some(DataType::OptBool),
        DataType::I32 | DataType::OptI32 => Some(DataType::OptI32),
        DataType::I64 | DataType::OptI64 => Some(DataType::OptI64),
        DataType::F32 | DataType::OptF32 => Some(DataType::OptF32),
        DataType::F64 | DataType::OptF64 => Some(DataType::OptF64),
        _ => None,
    }
}

/// The element as a column holds it: present where it is plain, except that
/// a float that is not a number is absent.
pub open spec fn column_value(v: Value) -> Value {
    match v {
        Value::Bool(x) => Value::OptBool(Some(x)),
        Value::I32(x) => Value::OptI32(Some(x)),
        Value::I64(x) => Value::OptI64(Some(x)),
        Value::F32(x) => Value::OptF32(
            if nan32(x) {
                None
            } else {
                Some(x)
            },
        ),
        Value::F64(x) => Value::OptF64(
            if nan64(x) {
                None
            } else {
                Some(x)
            },
        ),
        _ => v,
    }
}

/// The values as a column holds them.
pub open spec fn column_values(s: Seq<Value>) -> Seq<Value> {
    s.map_values(|v: Value| column_value(v))
}

/// The plain element under a present element of a column, `None` for an
/// absent one and for an element that no column holds.
pub open spec fn present_value(v: Value) -> Option<Value> {
    match v {
        Value::OptBool(Some(x)) => Some(Value::Bool(x)),
        Value::OptI32(Some(x)) => Some(Value::I32(x)),
        Value::OptI64(Some(x)) => Some(Value::I64(x)),
        Value::OptF32(Some(x)) => Some(Value::F32(x)),
        Value::OptF64(Some(x)) => Some(Value::F64(x)),
        _ => None,
    }
}

impl DataType {
    /// The element type as a column holds it; see [`column_type`].
    pub fn as_column(self) -> (r: Option<DataType>)
        ensures
            r == column_type(self),
    {
        match self {
            DataType::Bool | DataType::OptBool => Some(DataType::OptBool),
            DataType::I32 | DataType::OptI32 => Some(DataType::OptI32),
            DataType::I64 | DataType::OptI64 => Some(DataType::OptI64),
            DataType::F32 | DataType::OptF32 => Some(DataType::OptF32),
            DataType::F64 | DataType::OptF64 => Some(DataType::OptF64),
            _ => None,
        }
    }
}

impl Scalar {
    /// The element as a column holds it; see [`column_value`].
    pub fn into_column_value(self) -> (r: Scalar)
        ensures
            r@ == column_value(self@),
            column_type(self@.dtype()) matches Some(t) ==> r@.dtype() == t,
    {
        match self {
            Scalar::Bool(x) => Scalar::OptBool(Some(x)),
            Scalar::I32(x) => Scalar::OptI32(Some(x)),
            Scalar::I64(x) => Scalar::OptI64(Some(x)),
            Scalar::F32(x) => Scalar::OptF32(
                if x & 0x7fff_ffffu32 > 0x7f80_0000u32 {
                    None
                } else {
                    Some(x)
                },
            ),
            Scalar::F64(x) => Scalar::OptF64(
                if x & 0x7fff_ffff_ffff_ffffu64 > 0x7ff0_0000_0000_0000u64 {
                    None
                } else {
                    Some(x)
                },
            ),
            other => other,
        }
    }

    /// The plain element under a present element of a column; see
    /// [`present_value`].
    pub fn into_present(self) -> (r: Option<Scalar>)
        ensures
            match r {
                Some(s) => present_value(self@) == Some(s@),
                None => present_value(self@) is None,
            },
    {
        match self {
            Scalar::OptBool(Some(x)) => Some(Scalar::Bool(x)),
            Scalar::OptI32(Some(x)) => Some(Scalar::I32(x)),
            Scalar::OptI64(Some(x)) => Some(Scalar::I64(x)),
            Scalar::OptF32(Some(x)) => Some(Scalar::F32(x)),
            Scalar::OptF64(Some(x)) => Some(Scalar::F64(x)),
            _ => None,
        }
    }
}

/// The values of a column have the type of the column.
pub proof fn lemma_column_values(s: Seq<Value>, dtype: DataType)
    requires
        all_of(s, dtype),
        column_type(dtype) is Some,
    ensures
        all_of(column_values(s), column_type(dtype).unwrap()),
        column_values(s).len() == s.len(),
{
    assert forall|i: int| 0 <= i < column_values(s).len() implies (#[trigger] column_values(
        s,
    )[i]).dtype() == column_type(dtype).unwrap() by {
        assert(s[i].dtype() == dtype);
    }
}

/// The values of a column are as a column holds them already.
pub proof fn lemma_column_values_fixed(s: Seq<Value>, dtype: DataType)
    requires
        all_of(s, dtype),
        column_type(dtype) == Some(dtype),
    ensures
        column_values(s) == s,
{
    assert forall|i: int| 0 <= i < s.len() implies column_value(#[trigger] s[i]) == s[i] by {
        assert(s[i].dtype() == dtype);
    }
    assert(column_values(s) =~= s);
}

/// The elements as a column holds them.
fn column_items(items: Vec<Scalar>) -> (r: Vec<Scalar>)
    ensures
        values_of(r@) == column_values(values_of(items@)),
{
    let ghost orig = items@;
    let mut rest = items;
    let n = rest.len();
    // Elements are moved out from the back and put in order at the end.
    let mut rev: Vec<Scalar> = Vec::with_capacity(n);
    while rest.len() > 0
        invariant
            rest@.len() + rev@.len() == orig.len(),
            forall|k: int| 0 <= k < rest@.len() ==> #[trigger] rest@[k] == orig[k],
            forall|k: int|
                0 <= k < rev@.len() ==> (#[trigger] rev@[k])@ == column_value(
                    orig[orig.len() - 1 - k]@,
                ),
        decreases rest.len(),
    {
        let x = rest.pop().unwrap();
        rev.push(x.into_column_value());
    }
    let mut out: Vec<Scalar> = Vec::with_capacity(n);
    while rev.len() > 0
        invariant
            out@.len() + rev@.len() == orig.len(),
            forall|k: int|
                0 <= k < rev@.len() ==> (#[trigger] rev@[k])@ == column_value(
                    orig[orig.len() - 1 - k]@,
                ),
            forall|k: int| 0 <= k < out@.len() ==> (#[trigger] out@[k])@ == column_value(orig[k]@),
        decreases rev.len(),
    {
        let y = rev.pop().unwrap();
        out.push(y);
    }
    proof {
        lemma_values_of(orig);
        lemma_values_of(out@);
        assert(values_of(out@) =~= column_values(values_of(orig)));
    }
    out
}

/// One column of a dataframe: a name and a run of elements of one optional
/// element type.
pub struct Series {
    name: String,
    column: DynVec<'static>,
}

impl GetDtype for Series {
    closed spec fn spec_dtype(&self) -> DataType {
        self.column.spec_dtype()
    }

    fn dtype(&self) -> (r: DataType) {
        self.column.dtype()
    }
}

impl Series {
    /// The element type is one that a column holds.
    #[verifier::type_invariant]
    spec fn well_typed(self) -> bool {
        column_type(self.column.spec_dtype()) == Some(self.column.spec_dtype())
    }

    /// The values held, in order.
    pub closed spec fn values(&self) -> Seq<Value> {
        self.column.values()
    }

    /// The name of the column.
    pub closed spec fn spec_name(&self) -> Seq<char> {
        self.name@
    }

    /// The column called `name` over the elements of `column`, taken as a
    /// column holds them. `TypeMismatch` for an element type that no column
    /// holds.
    pub fn new(name: &str, column: DynVec<'_>) -> (r: Result<Series, Error>)
        ensures
            match r {
                Ok(s) => column_type(column.spec_dtype()) == Some(s.spec_dtype()) && s.values()
                    == column_values(column.values()) && s.spec_name() == name@,
                Err(e) => column_type(column.spec_dtype()) is None && e == Error::TypeMismatch,
            },
    {
        let (dtype, items) = column.into_parts();
        match dtype.as_column() {
            Some(t) => {
                let out = column_items(items);
                proof {
                    lemma_column_values(column.values(), dtype);
                }
                Ok(Series { name: name.to_owned(), column: DynVec::from_parts(t, out) })
            },
            None => Err(Error::TypeMismatch),
        }
    }

    /// Brings to light what holds of every column: its element type is one
    /// that a column holds, and every element has it.
    pub(crate) fn typed(&self)
        ensures
            column_type(self.spec_dtype()) == Some(self.spec_dtype()),
            all_of(self.values(), self.spec_dtype()),
    {
        proof {
            use_type_invariant(self);
        }
        self.column.typed();
    }

    /// The elements of the column as a slice.
    pub(crate) fn as_slice(&self) -> (r: &[Scalar])
        ensures
            values_of(r@) == self.values(),
            all_of(self.values(), self.spec_dtype()),
    {
        self.column.as_slice()
    }

    /// The name of the column.
    pub fn name(&self) -> (r: &str)
        ensures
            r@ == self.spec_name(),
    {
        self.name.as_str()
    }

    /// The column under another name.
    pub fn with_name(self, name: &str) -> (r: Series)
        ensures
            r.spec_name() == name@,
            r.values() == self.values(),
            r.spec_dtype() == self.spec_dtype(),
    {
        proof {
            use_type_invariant(&self);
        }
        Series { name: name.to_owned(), column: self.column }
    }

    /// The number of elements.
    pub fn len(&self) -> (r: usize)
        ensures
            r == self.values().len(),
    {
        self.column.len()
    }

    pub fn is_empty(&self) -> (r: bool)
        ensures
            r == (self.values().len() == 0),
    {
        self.column.len() == 0
    }

    /// A copy of the element at `index`; `OutOfBounds` where there is none.
    pub fn get(&self, index: usize) -> (r: Result<Scalar, Error>)
        ensures
            match r {
                Ok(s) => index < self.values().len() && s@ == self.values()[index as int],
                Err(e) => index >= self.values().len() && e == (Error::OutOfBounds {
                    idx: index,
                    len: self.values().len() as usize,
                }),
            },
    {
        self.column.get(index)
    }

    /// A lazy iterator that borrows the column and yields copies of its
    /// elements.
    pub fn titer(&self) -> (r: Result<DynTrustIter<'_>, Error>)
        ensures
            r matches Ok(it) && it.values() == self.values() && it.spec_dtype()
                == self.spec_dtype(),
    {
        self.column.titer()
    }

    /// The elements of the column as a flat sequence.
    pub fn into_column(self) -> (r: DynVec<'static>)
        ensures
            r.values() == self.values(),
            r.spec_dtype() == self.spec_dtype(),
    {
        self.column
    }

    /// A full copy of the column.
    pub fn clone_inner(&self) -> (r: Series)
        ensures
            r.values() == self.values(),
            r.spec_dtype() == self.spec_dtype(),
            r.spec_name() == self.spec_name(),
    {
        proof {
            use_type_invariant(self);
        }
        Series { name: self.name.clone(), column: self.column.clone_inner() }
    }

    /// The column called `name` over a copy of elements that are as a
    /// column holds them.
    pub(crate) fn from_window(name: &str, dtype: DataType, items: &[Scalar]) -> (r: Series)
        requires
            column_type(dtype) == Some(dtype),
            all_of(values_of(items@), dtype),
        ensures
            r.values() == values_of(items@),
            r.spec_dtype() == dtype,
            r.spec_name() == name@,
    {
        let copy = crate::vec::copy_items(items);
        Series { name: name.to_owned(), column: DynVec::from_parts(dtype, copy) }
    }
}

impl<'a> DynVec<'a> {
    /// The sequence as an unnamed column; see [`Series::new`].
    pub fn into_series(self) -> (r: Result<Series, Error>)
        ensures
            match r {
                Ok(s) => column_type(self.spec_dtype()) == Some(s.spec_dtype()) && s.values()
                    == column_values(self.values()) && s.spec_name() == Seq::<char>::empty(),
                Err(e) => column_type(self.spec_dtype()) is None && e == Error::TypeMismatch,
            },
    {
        let r = Series::new("", self);
        proof {
            reveal_strlit("");
            assert(""@ =~= Seq::<char>::empty());
        }
        r
    }

    /// A copy of the sequence as an unnamed column; see [`Series::new`].
    pub fn to_series(&self) -> (r: Result<Series, Error>)
        ensures
            match r {
                Ok(s) => column_type(self.spec_dtype()) == Some(s.spec_dtype()) && s.values()
                    == column_values(self.values()) && s.spec_name() == Seq::<char>::empty(),
                Err(e) => column_type(self.spec_dtype()) is None && e == Error::TypeMismatch,
            },
    {
        self.view().into_series()
    }
}

impl<'a> DynTrustIter<'a> {
    /// Runs the iterator into an unnamed column; see [`Series::new`].
    pub fn collect_series(self) -> (r: Result<Series, Error>)
        ensures
            match r {
                Ok(s) => column_type(self.spec_dtype()) == Some(s.spec_dtype()) && s.values()
                    == column_values(self.values()) && s.spec_name() == Seq::<char>::empty(),
                Err(e) => column_type(self.spec_dtype()) is None && e == Error::TypeMismatch,
            },
    {
        match self.collect_vec() {
            Ok(v) => v.into_series(),
            Err(e) => {
                proof {
                    assert(false);
                }
                Err(e)
            },
        }
    }
}

impl<'a> DynArray<'a> {
    /// A copy of an array of at most one axis as an unnamed column; see
    /// [`Series::new`]. More axes give `ShapeMismatch`.
    pub fn to_series(&self) -> (r: Result<Series, Error>)
        ensures
            match r {
                Ok(s) => self.shape().len() <= 1 && column_type(self.spec_dtype()) == Some(
                    s.spec_dtype(),
                ) && s.values() == column_values(self.values()) && s.spec_name() == Seq::<
                    char,
                >::empty(),
                Err(e) => if self.shape().len() > 1 {
                    e == Error::ShapeMismatch
                } else {
                    column_type(self.spec_dtype()) is None && e == Error::TypeMismatch
                },
            },
    {
        if self.ndim() > 1 {
            return Err(Error::ShapeMismatch);
        }
        self.to_flat().into_series()
    }

    /// An array of at most one axis as an unnamed column; see
    /// [`Series::new`]. More axes give `ShapeMismatch`.
    pub fn into_series(self) -> (r: Result<Series, Error>)
        ensures
            match r {
                Ok(s) => self.shape().len() <= 1 && column_type(self.spec_dtype()) == Some(
                    s.spec_dtype(),
                ) && s.values() == column_values(self.values()) && s.spec_name() == Seq::<
                    char,
                >::empty(),
                Err(e) => if self.shape().len() > 1 {
                    e == Error::ShapeMismatch
                } else {
                    column_type(self.spec_dtype()) is None && e == Error::TypeMismatch
                },
            },
    {
        self.to_series()
    }
}

} // verus!
