//! The n-dimensional array: elements of one type laid out along any number
//! of axes.
use vstd::prelude::*;

use crate::bridge::iter_collect;
use crate::bridge::nd_borrows;
use crate::bridge::nd_from_shape_vec;
use crate::bridge::nd_from_vec;
use crate::bridge::nd_get;
use crate::bridge::nd_into_iter;
use crate::bridge::nd_into_owned;
use crate::bridge::nd_is_view;
use crate::bridge::nd_iter;
use crate::bridge::nd_len;
use crate::bridge::nd_ndim;
use crate::bridge::nd_shape;
use crate::bridge::nd_shape_vec;
use crate::bridge::nd_to_owned;
use crate::bridge::nd_values;
use crate::bridge::nd_view;
pub use crate::bridge::ArbArray;
use crate::dtype::DataType;
use crate::dtype::GetDtype;
use crate::error::Error;
use crate::scalar::all_of;
use crate::scalar::lemma_values_of;
use crate::scalar::values_of;
use crate::scalar::Scalar;
use crate::scalar::Value;
use crate::trust_iter::DynTrustIter;
use crate::vec::tags_match;
use crate::vec::DynVec;

verus! {

/// The number of elements that an array of shape `shape` holds: the product
/// of its axis lengths, 1 for no axis.
pub open spec fn shape_size(shape: Seq<usize>) -> nat
    decreases shape.len(),
{
    if shape.len() == 0 {
        1
    } else {
        shape_size(shape.drop_last()) * (shape.last() as nat)
    }
}

/// The product of the axis lengths of `shape` that are not 0.
pub open spec fn nonzero_size(shape: Seq<usize>) -> nat
    decreases shape.len(),
{
    if shape.len() == 0 {
        1
    } else if shape.last() == 0 {
        nonzero_size(shape.drop_last())
    } else {
        nonzero_size(shape.drop_last()) * (shape.last() as nat)
    }
}

/// An n-dimensional array of elements of one type, which owns its elements
/// or is a read-only view of elements that another array owns.
pub struct DynArray<'a> {
    dtype: DataType,
    arr: ArbArray<'a>,
}

impl<'a> GetDtype for DynArray<'a> {
    closed spec fn spec_dtype(&self) -> DataType {
        self.dtype
    }

    fn dtype(&self) -> (r: DataType) {
        self.dtype
    }
}

impl<'a> DynArray<'a> {
    /// Every element has the tag of the array.
    #[verifier::type_invariant]
    spec fn well_typed(self) -> bool {
        all_of(nd_values(self.arr), self.dtype)
    }

    /// The values held, in logical order: the last axis runs fastest.
    pub closed spec fn values(&self) -> Seq<Value> {
        nd_values(self.arr)
    }

    /// The length of each axis.
    pub closed spec fn shape(&self) -> Seq<usize> {
        nd_shape(self.arr)
    }

    /// Whether the array is a view of elements that another array owns.
    pub closed spec fn is_view(&self) -> bool {
        nd_is_view(self.arr)
    }

    pub(crate) fn from_parts(dtype: DataType, arr: ArbArray<'a>) -> (r: DynArray<'a>)
        requires
            all_of(nd_values(arr), dtype),
        ensures
            r.values() == nd_values(arr),
            r.shape() == nd_shape(arr),
            r.is_view() == nd_is_view(arr),
            r.spec_dtype() == dtype,
    {
        DynArray { dtype, arr }
    }

    /// The owned array of type `dtype` and shape `shape` over `items`, taken
    /// in logical order. It fails with `TypeMismatch` where an element is of
    /// another type, and with `ShapeMismatch` where the shape does not hold
    /// exactly the elements given or is too large for the machine.
    pub fn from_shape_vec(dtype: DataType, shape: Vec<usize>, items: Vec<Scalar>) -> (r: Result<
        DynArray<'a>,
        Error,
    >)
        ensures
            match r {
                Ok(a) => a.values() == values_of(items@) && a.shape() == shape@ && a.spec_dtype()
                    == dtype && !a.is_view(),
                Err(e) => if !all_of(values_of(items@), dtype) {
                    e == Error::TypeMismatch
                } else {
                    e == Error::ShapeMismatch
                },
            },
            r is Ok <==> all_of(values_of(items@), dtype) && shape_size(shape@) == items@.len()
                && nonzero_size(shape@) <= isize::MAX,
    {
        if !tags_match(items.as_slice(), dtype) {
            return Err(Error::TypeMismatch);
        }
        match nd_from_shape_vec(&shape, items) {
            Some(arr) => Ok(DynArray { dtype, arr }),
            None => Err(Error::ShapeMismatch),
        }
    }

    /// The owned array of one axis over the elements of a flat sequence.
    pub fn from_vec(vec: DynVec<'_>) -> (r: Result<DynArray<'a>, Error>)
        ensures
            r matches Ok(a) && a.values() == vec.values() && a.shape() == seq![
                vec.values().len() as usize,
            ] && a.spec_dtype() == vec.spec_dtype() && !a.is_view(),
    {
        let (dtype, items) = vec.into_parts();
        proof {
            lemma_values_of(items@);
        }
        Ok(DynArray { dtype, arr: nd_from_vec(items) })
    }

    /// Brings to light that every element has the tag of the array.
    pub(crate) fn typed(&self)
        ensures
            all_of(self.values(), self.spec_dtype()),
    {
        proof {
            use_type_invariant(self);
        }
    }

    /// The array without its tag.
    pub(crate) fn into_arr(self) -> (r: ArbArray<'a>)
        ensures
            nd_values(r) == self.values(),
            nd_shape(r) == self.shape(),
            all_of(self.values(), self.spec_dtype()),
    {
        proof {
            use_type_invariant(&self);
        }
        self.arr
    }

    /// The array taken apart into its type and its elements in logical
    /// order.
    pub(crate) fn into_parts(self) -> (r: (DataType, Vec<Scalar>))
        ensures
            r.0 == self.spec_dtype(),
            values_of(r.1@) == self.values(),
            all_of(self.values(), self.spec_dtype()),
    {
        proof {
            use_type_invariant(&self);
        }
        let dtype = self.dtype;
        let n = self.len();
        let items = iter_collect(nd_into_iter(self.arr));
        (dtype, items)
    }

    /// The number of elements.
    pub fn len(&self) -> (r: usize)
        ensures
            r == self.values().len(),
    {
        nd_len(&self.arr)
    }

    pub fn is_empty(&self) -> (r: bool)
        ensures
            r == (self.values().len() == 0),
    {
        self.len() == 0
    }

    /// The number of axes.
    pub fn ndim(&self) -> (r: usize)
        ensures
            r == self.shape().len(),
    {
        nd_ndim(&self.arr)
    }

    /// The length of each axis. An array holds as many elements as its
    /// shape says.
    pub fn dims(&self) -> (r: Vec<usize>)
        ensures
            r@ == self.shape(),
            shape_size(r@) == self.values().len(),
            nonzero_size(r@) <= isize::MAX,
    {
        nd_shape_vec(&self.arr)
    }

    /// Whether the array is a view of elements that another array owns.
    pub fn borrows(&self) -> (r: bool)
        ensures
            r == self.is_view(),
    {
        nd_borrows(&self.arr)
    }

    /// A copy of the element at `index` of an array of one axis;
    /// `OutOfBounds` where there is none, and for every index where the
    /// array has another number of axes.
    pub fn get(&self, index: usize) -> (r: Result<Scalar, Error>)
        ensures
            match r {
                Ok(s) => self.shape().len() == 1 && index < self.values().len() && s@
                    == self.values()[index as int] && s@.dtype() == self.spec_dtype(),
                Err(e) => (self.shape().len() != 1 || index >= self.values().len()) && e == (
                Error::OutOfBounds { idx: index, len: self.values().len() as usize }),
            },
    {
        proof {
            use_type_invariant(self);
        }
        let len = self.len();
        if self.ndim() != 1 {
            return Err(Error::OutOfBounds { idx: index, len });
        }
        match nd_get(&self.arr, index) {
            Some(v) => Ok(v),
            None => Err(Error::OutOfBounds { idx: index, len }),
        }
    }

    /// A read-only view of the same elements.
    pub fn view(&self) -> (r: DynArray<'_>)
        ensures
            r.values() == self.values(),
            r.shape() == self.shape(),
            r.spec_dtype() == self.spec_dtype(),
            r.is_view(),
    {
        proof {
            use_type_invariant(self);
        }
        DynArray { dtype: self.dtype, arr: nd_view(&self.arr) }
    }

    /// The array as its own owner: unchanged where it owns its elements, a
    /// copy where it was a view.
    pub fn into_owned<'b>(self) -> (r: DynArray<'b>)
        ensures
            r.values() == self.values(),
            r.shape() == self.shape(),
            r.spec_dtype() == self.spec_dtype(),
            !r.is_view(),
    {
        proof {
            use_type_invariant(&self);
        }
        DynArray { dtype: self.dtype, arr: nd_into_owned(self.arr) }
    }

    /// A full copy that owns its elements.
    pub fn clone_inner<'b>(&self) -> (r: DynArray<'b>)
        ensures
            r.values() == self.values(),
            r.shape() == self.shape(),
            r.spec_dtype() == self.spec_dtype(),
            !r.is_view(),
    {
        proof {
            use_type_invariant(self);
        }
        DynArray { dtype: self.dtype, arr: nd_to_owned(&self.arr) }
    }

    /// A lazy iterator over copies of the elements of an array of at most
    /// one axis; an array without axes yields its one element. More axes
    /// give `ShapeMismatch`.
    pub fn titer(&self) -> (r: Result<DynTrustIter<'_>, Error>)
        ensures
            match r {
                Ok(it) => self.shape().len() <= 1 && it.values() == self.values()
                    && it.spec_dtype() == self.spec_dtype(),
                Err(e) => self.shape().len() > 1 && e == Error::ShapeMismatch,
            },
    {
        proof {
            use_type_invariant(self);
        }
        if self.ndim() > 1 {
            return Err(Error::ShapeMismatch);
        }
        let n = self.len();
        Ok(DynTrustIter::from_parts(self.dtype, nd_iter(&self.arr)))
    }

    /// A lazy iterator that consumes an array of at most one axis; an array
    /// without axes yields its one element. More axes give `ShapeMismatch`.
    pub fn into_titer(self) -> (r: Result<DynTrustIter<'a>, Error>)
        ensures
            match r {
                Ok(it) => self.shape().len() <= 1 && it.values() == self.values()
                    && it.spec_dtype() == self.spec_dtype(),
                Err(e) => self.shape().len() > 1 && e == Error::ShapeMismatch,
            },
    {
        proof {
            use_type_invariant(&self);
        }
        if self.ndim() > 1 {
            return Err(Error::ShapeMismatch);
        }
        let n = self.len();
        Ok(DynTrustIter::from_parts(self.dtype, nd_into_iter(self.arr)))
    }

    /// Whether the array may be handed to a host that keeps it beyond this
    /// call. An array that owns its elements may; a view may only together
    /// with the container that owns them, and without one the view is
    /// refused with `SharedOwnership`.
    pub fn export_guard(&self, has_container: bool) -> (r: Result<(), Error>)
        ensures
            match r {
                Ok(_) => !self.is_view() || has_container,
                Err(e) => self.is_view() && !has_container && e == Error::SharedOwnership,
            },
    {
        if self.borrows() && !has_container {
            Err(Error::SharedOwnership)
        } else {
            Ok(())
        }
    }

    /// A copy of the elements in logical order, whatever the number of
    /// axes: the last axis runs fastest.
    pub fn to_flat<'b>(&self) -> (r: DynVec<'b>)
        ensures
            r.values() == self.values(),
            r.spec_dtype() == self.spec_dtype(),
            r.is_owned(),
    {
        let (dtype, items) = self.clone_inner().into_parts();
        DynVec::from_parts(dtype, items)
    }

    /// The elements of an array of at most one axis as a flat sequence that
    /// owns them. More axes give `ShapeMismatch`: such an array cannot be
    /// flattened.
    pub fn into_vec_owned<'b>(self) -> (r: Result<DynVec<'b>, Error>)
        ensures
            match r {
                Ok(v) => self.shape().len() <= 1 && v.values() == self.values() && v.spec_dtype()
                    == self.spec_dtype() && v.is_owned(),
                Err(e) => self.shape().len() > 1 && e == Error::ShapeMismatch,
            },
    {
        match self.into_titer() {
            Ok(it) => it.collect_vec(),
            Err(e) => Err(e),
        }
    }

    /// The elements of an array of at most one axis as a flat sequence. More
    /// axes give `ShapeMismatch`: such an array cannot be flattened.
    pub fn into_vec(self) -> (r: Result<DynVec<'a>, Error>)
        ensures
            match r {
                Ok(v) => self.shape().len() <= 1 && v.values() == self.values() && v.spec_dtype()
                    == self.spec_dtype(),
                Err(e) => self.shape().len() > 1 && e == Error::ShapeMismatch,
            },
    {
        match self.into_titer() {
            Ok(it) => it.collect_vec(),
            Err(e) => Err(e),
        }
    }
}

impl<'a> DynVec<'a> {
    /// The owned array of one axis over the elements of the sequence.
    pub fn into_array(self) -> (r: Result<DynArray<'a>, Error>)
        ensures
            r matches Ok(a) && a.values() == self.values() && a.shape() == seq![
                self.values().len() as usize,
            ] && a.spec_dtype() == self.spec_dtype() && !a.is_view(),
    {
        DynArray::from_vec(self)
    }
}

impl<'a> DynTrustIter<'a> {
    /// Runs the iterator into an owned array of one axis.
    pub fn collect_array<'b>(self) -> (r: Result<DynArray<'b>, Error>)
        ensures
            r matches Ok(a) && a.values() == self.values() && a.shape() == seq![
                self.values().len() as usize,
            ] && a.spec_dtype() == self.spec_dtype() && !a.is_view(),
    {
        match self.collect_vec() {
            Ok(v) => DynArray::from_vec(v),
            Err(e) => Err(e),
        }
    }
}

} // verus!
