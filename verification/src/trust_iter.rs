//! The lazy iterator: a sequence of elements of one type that is produced on
//! demand and whose length is known beforehand.
use vstd::prelude::*;

use crate::bridge::iter_collect;
use crate::bridge::iter_empty;
use crate::bridge::iter_len;
use crate::bridge::iter_values;
use crate::bridge::TvIter;
use crate::dtype::DataType;
use crate::dtype::GetDtype;
use crate::error::Error;
use crate::scalar::all_of;
use crate::scalar::values_of;
use crate::scalar::Scalar;
use crate::scalar::Value;
use crate::vec::DynVec;

verus! {

/// A lazily produced sequence of elements of one type, of known length. It
/// can be walked once.
pub struct DynTrustIter<'a> {
    dtype: DataType,
    iter: TvIter<'a>,
}

impl<'a> GetDtype for DynTrustIter<'a> {
    closed spec fn spec_dtype(&self) -> DataType {
        self.dtype
    }

    fn dtype(&self) -> (r: DataType) {
        self.dtype
    }
}

impl Default for DynTrustIter<'_> {
    /// The empty iterator of booleans.
    fn default() -> (r: Self)
        ensures
            r.values() == Seq::<Value>::empty(),
            r.spec_dtype() == DataType::Bool,
    {
        DynTrustIter { dtype: DataType::Bool, iter: iter_empty() }
    }
}

impl<'a> DynTrustIter<'a> {
    /// Every element to come has the tag of the iterator, and their number
    /// fits the machine.
    #[verifier::type_invariant]
    spec fn well_typed(self) -> bool {
        &&& all_of(iter_values(self.iter), self.dtype)
        &&& iter_values(self.iter).len() <= usize::MAX
    }

    /// The values still to be produced, in order.
    pub closed spec fn values(&self) -> Seq<Value> {
        iter_values(self.iter)
    }

    pub(crate) fn from_parts(dtype: DataType, iter: TvIter<'a>) -> (r: DynTrustIter<'a>)
        requires
            all_of(iter_values(iter), dtype),
            iter_values(iter).len() <= usize::MAX,
        ensures
            r.values() == iter_values(iter),
            r.spec_dtype() == dtype,
    {
        DynTrustIter { dtype, iter }
    }

    /// Brings to light that every element has the tag of the iterator.
    pub(crate) fn typed(&self)
        ensures
            all_of(self.values(), self.spec_dtype()),
    {
        proof {
            use_type_invariant(self);
        }
    }

    /// The number of elements still to come.
    pub fn len(&self) -> (r: usize)
        ensures
            r == self.values().len(),
    {
        proof {
            use_type_invariant(self);
        }
        iter_len(&self.iter)
    }

    /// The iterator taken apart into its type and the lazy sequence itself.
    pub(crate) fn into_raw(self) -> (r: (DataType, TvIter<'a>))
        ensures
            r.0 == self.spec_dtype(),
            iter_values(r.1) == self.values(),
            all_of(self.values(), self.spec_dtype()),
            self.values().len() <= usize::MAX,
    {
        proof {
            use_type_invariant(&self);
        }
        (self.dtype, self.iter)
    }

    /// Runs the iterator into its type and its elements.
    pub(crate) fn into_parts(self) -> (r: (DataType, Vec<Scalar>))
        ensures
            r.0 == self.spec_dtype(),
            values_of(r.1@) == self.values(),
            all_of(self.values(), self.spec_dtype()),
    {
        proof {
            use_type_invariant(&self);
        }
        let dtype = self.dtype;
        let items = iter_collect(self.iter);
        (dtype, items)
    }

    /// Runs the iterator into an owned flat sequence of the same type.
    pub fn collect_vec<'b>(self) -> (r: Result<DynVec<'b>, Error>)
        ensures
            r matches Ok(v) && v.values() == self.values() && v.spec_dtype() == self.spec_dtype() && v.is_owned(),
    {
        let (dtype, items) = self.into_parts();
        Ok(DynVec::from_parts(dtype, items))
    }
}

} // verus!
