//! The flat sequence: one contiguous run of elements of one type.
use std::borrow::Cow;
use vstd::prelude::*;

use crate::bridge::iter_from_slice;
use crate::bridge::iter_from_vec;
use crate::bridge::slice_get;
use crate::dtype::DataType;
use crate::dtype::GetDtype;
use crate::element::typed_values;
use crate::element::Dtype;
use crate::error::Error;
use crate::scalar::all_of;
use crate::scalar::lemma_values_of;
use crate::scalar::values_of;
use crate::scalar::Scalar;
use crate::scalar::Value;
use crate::trust_iter::DynTrustIter;

verus! {

/// Whether every element of `items` has the tag `dtype`.
pub(crate) fn tags_match(items: &[Scalar], dtype: DataType) -> (r: bool)
    ensures
        r == all_of(values_of(items@), dtype),
{
    proof {
        lemma_values_of(items@);
    }
    let mut i: usize = 0;
    while i < items.len()
        invariant
            i <= items.len(),
            forall|k: int| 0 <= k < i ==> (#[trigger] items@[k])@.dtype() == dtype,
            values_of(items@).len() == items@.len(),
            forall|k: int| 0 <= k < items@.len() ==> #[trigger] values_of(items@)[k] == items@[k]@,
        decreases items.len() - i,
    {
        if items[i].dtype() != dtype {
            assert(values_of(items@)[i as int].dtype() != dtype);
            return false;
        }
        i += 1;
    }
    assert forall|k: int| 0 <= k < values_of(items@).len() implies (#[trigger] values_of(
        items@,
    )[k]).dtype() == dtype by {
        assert(items@[k]@.dtype() == dtype);
    }
    true
}

/// A full copy of a run of elements.
pub(crate) fn copy_items(items: &[Scalar]) -> (r: Vec<Scalar>)
    ensures
        values_of(r@) == values_of(items@),
{
    let mut out: Vec<Scalar> = Vec::with_capacity(items.len());
    let mut i: usize = 0;
    while i < items.len()
        invariant
            i <= items.len(),
            out@.len() == i,
            forall|k: int| 0 <= k < i ==> (#[trigger] out@[k])@ == items@[k]@,
        decreases items.len() - i,
    {
        out.push(items[i].clone_inner());
        i += 1;
    }
    assert(values_of(out@) =~= values_of(items@));
    out
}

/// Wraps each typed element with its tag.
pub(crate) fn wrap_all<T: Dtype>(v: Vec<T>) -> (r: Vec<Scalar>)
    ensures
        values_of(r@) == typed_values(v@),
        all_of(values_of(r@), T::spec_type()),
{
    let ghost orig = v@;
    let mut v = v;
    let mut out: Vec<Scalar> = Vec::with_capacity(v.len());
    // Elements are moved out from the back, so the result is built reversed
    // and turned round afterwards.
    let mut rev: Vec<Scalar> = Vec::with_capacity(v.len());
    while v.len() > 0
        invariant
            v@ == orig.subrange(0, v@.len() as int),
            v@.len() + rev@.len() == orig.len(),
            forall|k: int|
                0 <= k < rev@.len() ==> (#[trigger] rev@[k])@ == orig[orig.len() - 1 - k].value(),
            forall|k: int| 0 <= k < rev@.len() ==> (#[trigger] rev@[k])@.dtype() == T::spec_type(),
        decreases v.len(),
    {
        let ghost before = v@;
        let x = v.pop().unwrap();
        assert(x == orig[before.len() - 1]);
        assert(v@ =~= orig.subrange(0, v@.len() as int));
        rev.push(x.wrap());
    }
    while rev.len() > 0
        invariant
            out@.len() + rev@.len() == orig.len(),
            forall|k: int|
                0 <= k < rev@.len() ==> (#[trigger] rev@[k])@ == orig[orig.len() - 1 - k].value(),
            forall|k: int| 0 <= k < rev@.len() ==> (#[trigger] rev@[k])@.dtype() == T::spec_type(),
            forall|k: int| 0 <= k < out@.len() ==> (#[trigger] out@[k])@ == orig[k].value(),
            forall|k: int| 0 <= k < out@.len() ==> (#[trigger] out@[k])@.dtype() == T::spec_type(),
        decreases rev.len(),
    {
        let s = rev.pop().unwrap();
        out.push(s);
    }
    assert(values_of(out@) =~= typed_values(orig));
    out
}

/// Takes the typed element out of each scalar; fails with `TypeMismatch`
/// where one is of another type.
pub(crate) fn take_all<T: Dtype>(items: &[Scalar]) -> (r: Result<Vec<T>, Error>)
    ensures
        match r {
            Ok(v) => typed_values(v@) == values_of(items@) && all_of(
                values_of(items@),
                T::spec_type(),
            ),
            Err(e) => !all_of(values_of(items@), T::spec_type()) && e == Error::TypeMismatch,
        },
{
    let mut out: Vec<T> = Vec::with_capacity(items.len());
    let mut i: usize = 0;
    while i < items.len()
        invariant
            i <= items.len(),
            out@.len() == i,
            forall|k: int| 0 <= k < i ==> (#[trigger] out@[k]).value() == items@[k]@,
            forall|k: int| 0 <= k < i ==> (#[trigger] items@[k])@.dtype() == T::spec_type(),
        decreases items.len() - i,
    {
        match T::take(items[i].clone_inner()) {
            Ok(x) => out.push(x),
            Err(_) => {
                assert(values_of(items@)[i as int] == items@[i as int]@);
                return Err(Error::TypeMismatch);
            },
        }
        i += 1;
    }
    assert(typed_values(out@) =~= values_of(items@));
    assert forall|k: int| 0 <= k < values_of(items@).len() implies (#[trigger] values_of(
        items@,
    )[k]).dtype() == T::spec_type() by {
        assert(values_of(items@)[k] == items@[k]@);
    }
    Ok(out)
}

/// A flat sequence of elements of one type, which either owns its elements
/// or borrows them read-only from another owner.
pub struct DynVec<'a> {
    dtype: DataType,
    items: Cow<'a, [Scalar]>,
}

impl<'a> GetDtype for DynVec<'a> {
    closed spec fn spec_dtype(&self) -> DataType {
        self.dtype
    }

    fn dtype(&self) -> (r: DataType) {
        self.dtype
    }
}

impl Default for DynVec<'_> {
    /// The empty sequence of 64-bit floats, owned.
    fn default() -> (r: Self)
        ensures
            r.values() == Seq::<Value>::empty(),
            r.spec_dtype() == DataType::F64,
            r.is_owned(),
    {
        let items: Vec<Scalar> = Vec::new();
        assert(values_of(items@) =~= Seq::<Value>::empty());
        DynVec { dtype: DataType::F64, items: Cow::Owned(items) }
    }
}

impl<'a> DynVec<'a> {
    /// Every element has the tag of the sequence.
    #[verifier::type_invariant]
    spec fn well_typed(self) -> bool {
        all_of(values_of(self.items@), self.dtype)
    }

    /// The values held, in order.
    pub closed spec fn values(&self) -> Seq<Value> {
        values_of(self.items@)
    }

    /// Whether the sequence owns its elements.
    pub closed spec fn is_owned(&self) -> bool {
        self.items is Owned
    }

    /// An owned sequence of type `dtype` over `items`; `TypeMismatch` where
    /// an element is of another type.
    pub fn new(dtype: DataType, items: Vec<Scalar>) -> (r: Result<DynVec<'a>, Error>)
        ensures
            match r {
                Ok(v) => all_of(values_of(items@), dtype) && v.values() == values_of(items@)
                    && v.spec_dtype() == dtype && v.is_owned(),
                Err(e) => !all_of(values_of(items@), dtype) && e == Error::TypeMismatch,
            },
    {
        if tags_match(items.as_slice(), dtype) {
            Ok(DynVec { dtype, items: Cow::Owned(items) })
        } else {
            Err(Error::TypeMismatch)
        }
    }

    /// A sequence of type `dtype` that borrows `items`; `TypeMismatch` where
    /// an element is of another type.
    pub fn borrowed(dtype: DataType, items: &'a [Scalar]) -> (r: Result<DynVec<'a>, Error>)
        ensures
            match r {
                Ok(v) => all_of(values_of(items@), dtype) && v.values() == values_of(items@)
                    && v.spec_dtype() == dtype && !v.is_owned(),
                Err(e) => !all_of(values_of(items@), dtype) && e == Error::TypeMismatch,
            },
    {
        if tags_match(items, dtype) {
            Ok(DynVec { dtype, items: Cow::Borrowed(items) })
        } else {
            Err(Error::TypeMismatch)
        }
    }

    /// An owned sequence over typed elements, of their type.
    pub fn from_vec<T: Dtype>(v: Vec<T>) -> (r: DynVec<'a>)
        ensures
            r.values() == typed_values(v@),
            r.spec_dtype() == T::spec_type(),
            r.is_owned(),
    {
        let items = wrap_all(v);
        DynVec { dtype: T::type_(), items: Cow::Owned(items) }
    }

    /// Brings to light that every element has the tag of the sequence.
    pub(crate) fn typed(&self)
        ensures
            all_of(self.values(), self.spec_dtype()),
    {
        proof {
            use_type_invariant(self);
        }
    }

    /// The elements as a slice, wherever they live.
    pub(crate) fn as_slice(&self) -> (r: &[Scalar])
        ensures
            values_of(r@) == self.values(),
            all_of(self.values(), self.spec_dtype()),
    {
        proof {
            use_type_invariant(self);
        }
        match &self.items {
            Cow::Borrowed(s) => s,
            Cow::Owned(v) => v.as_slice(),
        }
    }

    /// The sequence taken apart into its type and its elements, copied
    /// where they were borrowed.
    pub(crate) fn into_parts(self) -> (r: (DataType, Vec<Scalar>))
        ensures
            r.0 == self.spec_dtype(),
            values_of(r.1@) == self.values(),
            all_of(self.values(), self.spec_dtype()),
    {
        proof {
            use_type_invariant(&self);
        }
        let dtype = self.dtype;
        let items = match self.items {
            Cow::Owned(v) => v,
            Cow::Borrowed(s) => copy_items(s),
        };
        (dtype, items)
    }

    /// An owned sequence of type `dtype` over elements known to be of it.
    pub(crate) fn from_parts(dtype: DataType, items: Vec<Scalar>) -> (r: DynVec<'a>)
        requires
            all_of(values_of(items@), dtype),
        ensures
            r.values() == values_of(items@),
            r.spec_dtype() == dtype,
            r.is_owned(),
    {
        DynVec { dtype, items: Cow::Owned(items) }
    }

    /// A sequence of type `dtype` that borrows elements known to be of it.
    pub(crate) fn borrowed_parts(dtype: DataType, items: &'a [Scalar]) -> (r: DynVec<'a>)
        requires
            all_of(values_of(items@), dtype),
        ensures
            r.values() == values_of(items@),
            r.spec_dtype() == dtype,
            !r.is_owned(),
    {
        DynVec { dtype, items: Cow::Borrowed(items) }
    }

    /// The number of elements.
    pub fn len(&self) -> (r: usize)
        ensures
            r == self.values().len(),
    {
        self.as_slice().len()
    }

    pub fn is_empty(&self) -> (r: bool)
        ensures
            r == (self.values().len() == 0),
    {
        self.len() == 0
    }

    /// A copy of the element at `index`; `OutOfBounds` where there is none.
    pub fn get(&self, index: usize) -> (r: Result<Scalar, Error>)
        ensures
            match r {
                Ok(s) => index < self.values().len() && s@ == self.values()[index as int] && s@.dtype()
                    == self.spec_dtype(),
                Err(e) => index >= self.values().len() && e == (Error::OutOfBounds {
                    idx: index,
                    len: self.values().len() as usize,
                }),
            },
    {
        let s = self.as_slice();
        match slice_get(s, index) {
            Ok(v) => {
                assert(values_of(s@)[index as int] == s@[index as int]@);
                Ok(v)
            },
            Err(_) => Err(Error::OutOfBounds { idx: index, len: s.len() }),
        }
    }

    /// A read-only borrowed sequence over the same elements.
    pub fn view(&self) -> (r: DynVec<'_>)
        ensures
            r.values() == self.values(),
            r.spec_dtype() == self.spec_dtype(),
            !r.is_owned(),
    {
        let s = self.as_slice();
        DynVec { dtype: self.dtype, items: Cow::Borrowed(s) }
    }

    /// The sequence as its own owner: unchanged where it owns its elements,
    /// a copy where it borrowed them.
    pub fn into_owned<'b>(self) -> (r: DynVec<'b>)
        ensures
            r.values() == self.values(),
            r.spec_dtype() == self.spec_dtype(),
            r.is_owned(),
    {
        let (dtype, items) = self.into_parts();
        DynVec { dtype, items: Cow::Owned(items) }
    }

    /// A full copy that owns its elements.
    pub fn clone_inner<'b>(&self) -> (r: DynVec<'b>)
        ensures
            r.values() == self.values(),
            r.spec_dtype() == self.spec_dtype(),
            r.is_owned(),
    {
        let items = copy_items(self.as_slice());
        DynVec { dtype: self.dtype, items: Cow::Owned(items) }
    }

    /// A lazy iterator that borrows the sequence and yields copies of its
    /// elements.
    pub fn titer(&self) -> (r: Result<DynTrustIter<'_>, Error>)
        ensures
            r matches Ok(it) && it.values() == self.values() && it.spec_dtype() == self.spec_dtype(),
    {
        let s = self.as_slice();
        let n = s.len();
        proof {
            lemma_values_of(s@);
        }
        Ok(DynTrustIter::from_parts(self.dtype, iter_from_slice(s)))
    }

    /// A lazy iterator that consumes the sequence: it yields the elements
    /// themselves where they were owned, copies where they were borrowed.
    pub fn into_titer(self) -> (r: Result<DynTrustIter<'a>, Error>)
        ensures
            r matches Ok(it) && it.values() == self.values() && it.spec_dtype() == self.spec_dtype(),
    {
        proof {
            use_type_invariant(&self);
        }
        let dtype = self.dtype;
        proof {
            lemma_values_of(self.items@);
        }
        match self.items {
            Cow::Owned(v) => {
                let n = v.len();
                Ok(DynTrustIter::from_parts(dtype, iter_from_vec(v)))
            },
            Cow::Borrowed(s) => {
                let n = s.len();
                Ok(DynTrustIter::from_parts(dtype, iter_from_slice(s)))
            },
        }
    }

    /// The elements as typed values; `TypeMismatch` where the sequence is
    /// not of type `T`.
    pub fn to_typed<T: Dtype>(&self) -> (r: Result<Vec<T>, Error>)
        ensures
            match r {
                Ok(v) => typed_values(v@) == self.values(),
                Err(e) => self.spec_dtype() != T::spec_type() && e == Error::TypeMismatch,
            },
            self.spec_dtype() == T::spec_type() ==> r is Ok,
    {
        if self.dtype != T::type_() {
            return Err(Error::TypeMismatch);
        }
        let s = self.as_slice();
        match take_all::<T>(s) {
            Ok(v) => Ok(v),
            Err(e) => {
                proof {
                    assert(false);
                }
                Err(e)
            },
        }
    }

    /// The elements of a sequence of 32-bit integers.
    pub fn i32(self) -> (r: Result<Vec<i32>, Error>)
        ensures
            match r {
                Ok(v) => typed_values(v@) == self.values(),
                Err(e) => self.spec_dtype() != DataType::I32 && e == Error::TypeMismatch,
            },
            self.spec_dtype() == DataType::I32 ==> r is Ok,
    {
        self.to_typed::<i32>()
    }

    /// The elements of a sequence of 64-bit integers.
    pub fn i64(self) -> (r: Result<Vec<i64>, Error>)
        ensures
            match r {
                Ok(v) => typed_values(v@) == self.values(),
                Err(e) => self.spec_dtype() != DataType::I64 && e == Error::TypeMismatch,
            },
            self.spec_dtype() == DataType::I64 ==> r is Ok,
    {
        self.to_typed::<i64>()
    }

    /// The elements of a sequence of booleans.
    pub fn bool(self) -> (r: Result<Vec<bool>, Error>)
        ensures
            match r {
                Ok(v) => typed_values(v@) == self.values(),
                Err(e) => self.spec_dtype() != DataType::Bool && e == Error::TypeMismatch,
            },
            self.spec_dtype() == DataType::Bool ==> r is Ok,
    {
        self.to_typed::<bool>()
    }

    /// The elements of a sequence of indices.
    pub fn usize(self) -> (r: Result<Vec<usize>, Error>)
        ensures
            match r {
                Ok(v) => typed_values(v@) == self.values(),
                Err(e) => self.spec_dtype() != DataType::Usize && e == Error::TypeMismatch,
            },
            self.spec_dtype() == DataType::Usize ==> r is Ok,
    {
        self.to_typed::<usize>()
    }

    /// The elements of a sequence of strings.
    pub fn string(self) -> (r: Result<Vec<String>, Error>)
        ensures
            match r {
                Ok(v) => typed_values(v@) == self.values(),
                Err(e) => self.spec_dtype() != DataType::String && e == Error::TypeMismatch,
            },
            self.spec_dtype() == DataType::String ==> r is Ok,
    {
        self.to_typed::<String>()
    }
}

} // verus!
