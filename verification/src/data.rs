//! The one currency that passes between the nodes of an expression.
use std::sync::Arc;
use vstd::prelude::*;

use crate::array::DynArray;
use crate::backend::Backend;
use crate::bridge::arc_share;
use crate::bridge::arc_try_unwrap;
use crate::bridge::iter_once;
use crate::dtype::DataType;
use crate::dtype::GetDtype;
use crate::error::Error;
use crate::scalar::all_of;
use crate::scalar::lemma_values_of;
use crate::scalar::Scalar;
use crate::scalar::Value;
use crate::series::column_type;
use crate::series::column_values;
use crate::series::lemma_column_values_fixed;
use crate::series::present_value;
use crate::series::Series;
use crate::trust_iter::DynTrustIter;
use crate::vec::DynVec;

verus! {

/// A shared handle to one payload: a lazy iterator, a scalar, a flat
/// sequence, an array or a column of a dataframe. Cloning a handle shares
/// the payload; an operation that consumes the payload needs the handle to
/// be the only one.
pub enum Data<'a> {
    TrustIter(Arc<DynTrustIter<'a>>),
    Scalar(Arc<Scalar>),
    Vec(Arc<DynVec<'a>>),
    Array(Arc<DynArray<'a>>),
    Series(Arc<Series>),
}

/// The shapes that a payload can take.
#[derive(Clone, Copy, Debug, PartialEq, Eq, Structural)]
pub enum Kind {
    TrustIter,
    Scalar,
    Vec,
    Array,
    Series,
}

/// What a payload holds, apart from who owns it and what it is called: its
/// kind, its element type, its values in order and the length of each of
/// its axes. A scalar has no axis; a sequence, an iterator and a column
/// have one.
pub struct Content {
    pub kind: Kind,
    pub dtype: DataType,
    pub values: Seq<Value>,
    pub shape: Seq<usize>,
}

/// The content of a scalar that holds `v`.
pub open spec fn scalar_content(v: Value) -> Content {
    Content { kind: Kind::Scalar, dtype: v.dtype(), values: seq![v], shape: Seq::empty() }
}

/// The content of a payload of one axis.
pub open spec fn flat_content(kind: Kind, dtype: DataType, values: Seq<Value>) -> Content {
    Content { kind, dtype, values, shape: seq![values.len() as usize] }
}

/// The content of a flat result in the representation of `backend`: a
/// sequence for `Vec`, an array of one axis for `Numpy` and `Pandas`, a
/// column for `Polars`. A column takes the values as a column holds them;
/// an element type that no column holds gives `TypeMismatch`.
pub open spec fn backend_content(backend: Backend, dtype: DataType, values: Seq<Value>) -> Result<
    Content,
    Error,
> {
    match backend {
        Backend::Vec => Ok(flat_content(Kind::Vec, dtype, values)),
        Backend::Polars => match column_type(dtype) {
            Some(t) => Ok(flat_content(Kind::Series, t, column_values(values))),
            None => Err(Error::TypeMismatch),
        },
        _ => Ok(flat_content(Kind::Array, dtype, values)),
    }
}

impl Default for Data<'_> {
    /// The empty flat sequence of 64-bit floats.
    fn default() -> (r: Self)
        ensures
            r is Vec,
            r.values() == Seq::<Value>::empty(),
            r.spec_dtype() == DataType::F64,
    {
        Data::Vec(Arc::new(DynVec::default()))
    }
}

impl Clone for Data<'_> {
    /// One more handle to the same payload.
    fn clone(&self) -> (r: Self)
        ensures
            r == *self,
    {
        match self {
            Data::TrustIter(a) => Data::TrustIter(arc_share(a)),
            Data::Scalar(a) => Data::Scalar(arc_share(a)),
            Data::Vec(a) => Data::Vec(arc_share(a)),
            Data::Array(a) => Data::Array(arc_share(a)),
            Data::Series(a) => Data::Series(arc_share(a)),
        }
    }
}

impl<'a> GetDtype for Data<'a> {
    open spec fn spec_dtype(&self) -> DataType {
        match self {
            Data::TrustIter(a) => a.spec_dtype(),
            Data::Scalar(a) => a@.dtype(),
            Data::Vec(a) => a.spec_dtype(),
            Data::Array(a) => a.spec_dtype(),
            Data::Series(a) => a.spec_dtype(),
        }
    }

    fn dtype(&self) -> (r: DataType) {
        match self {
            Data::TrustIter(a) => a.dtype(),
            Data::Scalar(a) => a.dtype(),
            Data::Vec(a) => a.dtype(),
            Data::Array(a) => a.dtype(),
            Data::Series(a) => a.dtype(),
        }
    }
}

/// What becomes of a payload that was asked for alone: the payload where the
/// handle was the only one, `SharedOwnership` where it was not.
pub fn sole<T>(unwrapped: Result<T, Arc<T>>) -> (r: Result<T, Error>)
    ensures
        match unwrapped {
            Ok(t) => r == Ok::<T, Error>(t),
            Err(_) => r == Err::<T, Error>(Error::SharedOwnership),
        },
{
    match unwrapped {
        Ok(t) => Ok(t),
        Err(_) => Err(Error::SharedOwnership),
    }
}

impl<'a> Data<'a> {
    /// The values of the payload in order: the one value of a scalar, the
    /// elements of a sequence, an array or a column, the elements that an
    /// iterator has still to produce.
    pub open spec fn values(&self) -> Seq<Value> {
        match self {
            Data::TrustIter(a) => a.values(),
            Data::Scalar(a) => seq![a@],
            Data::Vec(a) => a.values(),
            Data::Array(a) => a.values(),
            Data::Series(a) => a.values(),
        }
    }

    /// The number of axes of the payload: none for a scalar, those of an
    /// array, one for anything else.
    pub open spec fn rank(&self) -> nat {
        match self {
            Data::Scalar(_) => 0,
            Data::Array(a) => a.shape().len(),
            _ => 1,
        }
    }

    /// The kind of the payload.
    pub open spec fn kind(&self) -> Kind {
        match self {
            Data::TrustIter(_) => Kind::TrustIter,
            Data::Scalar(_) => Kind::Scalar,
            Data::Vec(_) => Kind::Vec,
            Data::Array(_) => Kind::Array,
            Data::Series(_) => Kind::Series,
        }
    }

    /// The length of each axis of the payload.
    pub open spec fn shape(&self) -> Seq<usize> {
        match self {
            Data::Scalar(_) => Seq::empty(),
            Data::Array(a) => a.shape(),
            _ => seq![self.values().len() as usize],
        }
    }

    /// What the payload holds, apart from who owns it and what it is
    /// called.
    pub open spec fn content(&self) -> Content {
        Content {
            kind: self.kind(),
            dtype: self.spec_dtype(),
            values: self.values(),
            shape: self.shape(),
        }
    }

    /// The name of the payload: that of a column, none for anything else.
    pub open spec fn spec_name(&self) -> Option<Seq<char>> {
        match self {
            Data::Series(a) => Some(a.spec_name()),
            _ => None,
        }
    }

    /// A handle to a new scalar payload.
    pub fn from_scalar(s: Scalar) -> (r: Data<'a>)
        ensures
            r matches Data::Scalar(a) && *a == s,
    {
        Data::Scalar(Arc::new(s))
    }

    /// A handle to a new flat sequence payload.
    pub fn from_vec(v: DynVec<'a>) -> (r: Data<'a>)
        ensures
            r matches Data::Vec(a) && *a == v,
    {
        Data::Vec(Arc::new(v))
    }

    /// A handle to a new array payload.
    pub fn from_array(v: DynArray<'a>) -> (r: Data<'a>)
        ensures
            r matches Data::Array(a) && *a == v,
    {
        Data::Array(Arc::new(v))
    }

    /// A handle to a new lazy iterator payload.
    pub fn from_titer(v: DynTrustIter<'a>) -> (r: Data<'a>)
        ensures
            r matches Data::TrustIter(a) && *a == v,
    {
        Data::TrustIter(Arc::new(v))
    }

    /// A handle to a new column payload.
    pub fn from_series(v: Series) -> (r: Data<'a>)
        ensures
            r matches Data::Series(a) && *a == v,
    {
        Data::Series(Arc::new(v))
    }

    pub fn is_trust_iter(&self) -> (r: bool)
        ensures
            r == (self is TrustIter),
    {
        matches!(self, Data::TrustIter(_))
    }

    pub fn is_scalar(&self) -> (r: bool)
        ensures
            r == (self is Scalar),
    {
        matches!(self, Data::Scalar(_))
    }

    pub fn is_vec(&self) -> (r: bool)
        ensures
            r == (self is Vec),
    {
        matches!(self, Data::Vec(_))
    }

    pub fn is_array(&self) -> (r: bool)
        ensures
            r == (self is Array),
    {
        matches!(self, Data::Array(_))
    }

    pub fn is_series(&self) -> (r: bool)
        ensures
            r == (self is Series),
    {
        matches!(self, Data::Series(_))
    }

    /// Whether the payload is a column of a dataframe.
    pub fn is_pl(&self) -> (r: bool)
        ensures
            r == (self is Series),
    {
        matches!(self, Data::Series(_))
    }

    /// The backend that the payload belongs to: arrays to `Numpy`, columns
    /// to `Polars`, all else to `Vec`.
    pub fn backend(&self) -> (r: Backend)
        ensures
            r == match self {
                Data::Array(_) => Backend::Numpy,
                Data::Series(_) => Backend::Polars,
                _ => Backend::Vec,
            },
    {
        match self {
            Data::Array(_) => Backend::Numpy,
            Data::Series(_) => Backend::Polars,
            _ => Backend::Vec,
        }
    }

    /// Names the payload. Only a column carries a name: it is handed back
    /// under the new one, holding what it held. Anything else, and
    /// everything where no name is given, is returned as it is.
    pub fn alias(self, name: Option<&str>) -> (r: Self)
        ensures
            r.content() == self.content(),
            match (self, name) {
                (Data::Series(_), Some(n)) => r.spec_name() == Some(n@),
                _ => r == self,
            },
    {
        match (self, name) {
            (Data::Series(a), Some(n)) => {
                let s = match arc_try_unwrap(a) {
                    Ok(s) => s,
                    Err(shared) => shared.clone_inner(),
                };
                Data::from_series(s.with_name(n))
            },
            (other, _) => other,
        }
    }

    /// The number of axes of the payload.
    pub fn ndim(&self) -> (r: usize)
        ensures
            r == self.rank(),
            r == self.shape().len(),
    {
        match self {
            Data::Scalar(_) => {
                assert(self.shape().len() == 0);
                0
            },
            Data::Array(a) => a.ndim(),
            _ => {
                assert(self.shape().len() == 1);
                1
            },
        }
    }

    /// Brings to light that every value has the element type of the
    /// payload.
    pub(crate) fn typed(&self)
        ensures
            all_of(self.values(), self.spec_dtype()),
            self is Series ==> column_type(self.spec_dtype()) == Some(self.spec_dtype()),
    {
        match self {
            Data::TrustIter(a) => a.typed(),
            Data::Scalar(_) => {},
            Data::Vec(a) => a.typed(),
            Data::Array(a) => a.typed(),
            Data::Series(a) => a.typed(),
        }
    }

    /// The number of values of the payload.
    pub fn len(&self) -> (r: usize)
        ensures
            r == self.values().len(),
    {
        match self {
            Data::TrustIter(a) => a.len(),
            Data::Scalar(_) => 1,
            Data::Vec(a) => a.len(),
            Data::Array(a) => a.len(),
            Data::Series(a) => a.len(),
        }
    }

    pub fn is_empty(&self) -> (r: bool)
        ensures
            r == (self.values().len() == 0),
    {
        self.len() == 0
    }

    /// The scalar that a payload of one value gives: the value itself, or
    /// for a column the plain element under its one element, which must be
    /// present.
    pub open spec fn single(&self) -> Option<Value> {
        if self.values().len() != 1 {
            None
        } else if self is Series {
            present_value(self.values()[0])
        } else {
            Some(self.values()[0])
        }
    }

    /// Takes one scalar out of the payload, consuming the handle. A
    /// sequence, an array or a column gives a copy of its element where it
    /// has exactly one, which in a column must be present. A handle to a
    /// scalar gives the scalar where it was the only handle and a copy
    /// where it was not, unless the scalar is a vector of indices, which is
    /// not copied. A handle to an iterator is run where it was the only one
    /// and gives its element where it had exactly one. What gives no scalar
    /// is handed back; an iterator that was run comes back as the flat
    /// sequence of what it produced.
    pub fn try_into_scalar(self) -> (r: Result<Scalar, Data<'a>>)
        ensures
            match r {
                Ok(s) => self.single() == Some(s@),
                Err(d) => d.values() == self.values() && d.spec_dtype() == self.spec_dtype()
                    && match self {
                    Data::TrustIter(_) => d == self || (d is Vec && self.values().len() != 1),
                    Data::Scalar(a) => d == self && !Scalar::cheap(a@),
                    _ => d == self && self.single() is None,
                },
            },
            (self is Vec || self is Array || self is Series) && self.single() is Some ==> r is Ok,
            self matches Data::Scalar(a) && Scalar::cheap(a@) ==> r is Ok,
    {
        match self {
            Data::TrustIter(iter) => match arc_try_unwrap(iter) {
                Ok(it) => {
                    let (dtype, mut items) = it.into_parts();
                    proof {
                        lemma_values_of(items@);
                    }
                    if items.len() == 1 {
                        let s = items.pop().unwrap();
                        Ok(s)
                    } else {
                        Err(Data::from_vec(DynVec::from_parts(dtype, items)))
                    }
                },
                Err(iter) => Err(Data::TrustIter(iter)),
            },
            Data::Scalar(scalar) => match arc_try_unwrap(scalar) {
                Ok(s) => Ok(s),
                Err(shared) => match shared.cheap_clone() {
                    Some(s) => Ok(s),
                    None => Err(Data::Scalar(shared)),
                },
            },
            Data::Vec(vec) => {
                if vec.len() == 1 {
                    match vec.get(0) {
                        Ok(s) => Ok(s),
                        Err(_) => {
                            proof {
                                assert(false);
                            }
                            Err(Data::Vec(vec))
                        },
                    }
                } else {
                    Err(Data::Vec(vec))
                }
            },
            Data::Array(array) => {
                if array.len() == 1 {
                    let (_, mut items) = array.clone_inner().into_parts();
                    proof {
                        lemma_values_of(items@);
                    }
                    let s = items.pop().unwrap();
                    Ok(s)
                } else {
                    Err(Data::Array(array))
                }
            },
            Data::Series(series) => {
                if series.len() == 1 {
                    match series.get(0) {
                        Ok(s) => match s.into_present() {
                            Some(p) => Ok(p),
                            None => Err(Data::Series(series)),
                        },
                        Err(_) => {
                            proof {
                                assert(false);
                            }
                            Err(Data::Series(series))
                        },
                    }
                } else {
                    Err(Data::Series(series))
                }
            },
        }
    }

    /// Takes one scalar out of the payload, consuming the handle. A payload
    /// that does not hold exactly one value gives `ShapeMismatch`; a column
    /// whose one element is absent gives `TypeMismatch`; a shared handle to
    /// an iterator, or to a scalar that is a vector of indices, gives
    /// `SharedOwnership`.
    pub fn into_scalar(self) -> (r: Result<Scalar, Error>)
        ensures
            match r {
                Ok(s) => self.single() == Some(s@),
                Err(e) => if self.values().len() != 1 {
                    e == Error::ShapeMismatch
                } else {
                    match self {
                        Data::TrustIter(_) => e == Error::SharedOwnership,
                        Data::Scalar(a) => !Scalar::cheap(a@) && e == Error::SharedOwnership,
                        Data::Series(_) => self.single() is None && e == Error::TypeMismatch,
                        _ => false,
                    }
                },
            },
            (self is Vec || self is Array || self is Series) && self.single() is Some ==> r is Ok,
            self matches Data::Scalar(a) && Scalar::cheap(a@) ==> r is Ok,
    {
        match self.try_into_scalar() {
            Ok(s) => Ok(s),
            Err(d) => {
                if d.len() != 1 {
                    Err(Error::ShapeMismatch)
                } else if d.is_series() {
                    Err(Error::TypeMismatch)
                } else {
                    Err(Error::SharedOwnership)
                }
            },
        }
    }

    /// The values that the payload is walked as through a reference: the
    /// indices of a scalar that holds a vector of indices, the values of
    /// anything else.
    pub open spec fn walked(&self) -> Seq<Value> {
        match self {
            Data::Scalar(a) => Scalar::iter_values_of(a@),
            _ => self.values(),
        }
    }

    /// The element type of the iterator that the payload is walked as
    /// through a reference.
    pub open spec fn walked_type(&self) -> DataType {
        match self {
            Data::Scalar(a) => Scalar::iter_type_of(a@),
            _ => self.spec_dtype(),
        }
    }

    /// A lazy iterator over the payload that leaves the handle in place. An
    /// iterator cannot be walked through a reference, so a handle to one
    /// gives `UnsupportedOperation`; an array of more than one axis gives
    /// `ShapeMismatch`. A scalar that holds a vector of indices yields its
    /// indices.
    pub fn try_titer(&self) -> (r: Result<DynTrustIter<'_>, Error>)
        ensures
            match r {
                Ok(it) => !(self is TrustIter) && self.rank() <= 1 && it.values() == self.walked()
                    && it.spec_dtype() == self.walked_type(),
                Err(e) => if self is TrustIter {
                    e == Error::UnsupportedOperation
                } else {
                    self.rank() > 1 && e == Error::ShapeMismatch
                },
            },
    {
        match self {
            Data::TrustIter(_) => Err(Error::UnsupportedOperation),
            Data::Vec(vec) => vec.titer(),
            Data::Scalar(scalar) => scalar.titer(),
            Data::Array(array) => array.titer(),
            Data::Series(series) => series.titer(),
        }
    }

    /// Turns the payload into a lazy iterator, consuming the handle. An
    /// iterator consumes its source, so only the one handle to a payload
    /// may ask for it: a scalar, a sequence, an iterator and an array of at
    /// most one axis are then walked themselves. A handle that is not the
    /// only one, a column, and an array of more axes are handed back.
    pub fn try_into_iter(self) -> (r: Result<DynTrustIter<'a>, Data<'a>>)
        ensures
            match r {
                Ok(it) => it.values() == self.values() && it.spec_dtype() == self.spec_dtype()
                    && self.rank() <= 1 && !(self is Series),
                Err(d) => d == self,
            },
            self is Series || self.rank() > 1 ==> r is Err,
    {
        match self {
            Data::TrustIter(iter) => match arc_try_unwrap(iter) {
                Ok(it) => Ok(it),
                Err(iter) => Err(Data::TrustIter(iter)),
            },
            Data::Vec(vec) => match arc_try_unwrap(vec) {
                Ok(v) => match v.into_titer() {
                    Ok(it) => Ok(it),
                    Err(_) => {
                        proof {
                            assert(false);
                        }
                        Err(Data::default())
                    },
                },
                Err(shared) => Err(Data::Vec(shared)),
            },
            Data::Scalar(scalar) => match arc_try_unwrap(scalar) {
                Ok(s) => Ok(s.into_titer()),
                Err(shared) => Err(Data::Scalar(shared)),
            },
            Data::Array(array) => {
                if array.ndim() <= 1 {
                    match arc_try_unwrap(array) {
                        Ok(a) => match a.into_titer() {
                            Ok(it) => Ok(it),
                            Err(_) => {
                                proof {
                                    assert(false);
                                }
                                Err(Data::default())
                            },
                        },
                        Err(shared) => Err(Data::Array(shared)),
                    }
                } else {
                    Err(Data::Array(array))
                }
            },
            Data::Series(series) => Err(Data::Series(series)),
        }
    }

    /// Turns the payload into a lazy iterator, consuming the handle. A
    /// column gives `UnsupportedOperation`, an array of more than one axis
    /// `ShapeMismatch`. Anything else is walked where the handle is the
    /// only one to its payload; a handle that is not gives
    /// `SharedOwnership`.
    pub fn into_titer(self) -> (r: Result<DynTrustIter<'a>, Error>)
        ensures
            match r {
                Ok(it) => it.values() == self.values() && it.spec_dtype() == self.spec_dtype()
                    && self.rank() <= 1 && !(self is Series),
                Err(e) => e == if self is Series {
                    Error::UnsupportedOperation
                } else if self.rank() > 1 {
                    Error::ShapeMismatch
                } else {
                    Error::SharedOwnership
                },
            },
            self is Series || self.rank() > 1 ==> r is Err,
    {
        match self {
            Data::Series(_) => Err(Error::UnsupportedOperation),
            Data::TrustIter(iter) => sole(arc_try_unwrap(iter)),
            Data::Scalar(scalar) => match sole(arc_try_unwrap(scalar)) {
                Ok(s) => Ok(s.into_titer()),
                Err(e) => Err(e),
            },
            Data::Vec(vec) => match sole(arc_try_unwrap(vec)) {
                Ok(v) => v.into_titer(),
                Err(e) => Err(e),
            },
            Data::Array(array) => {
                if array.ndim() > 1 {
                    return Err(Error::ShapeMismatch);
                }
                match sole(arc_try_unwrap(array)) {
                    Ok(a) => a.into_titer(),
                    Err(e) => Err(e),
                }
            },
        }
    }

    /// Takes the payload out as a flat sequence. It needs the handle to be
    /// the only one and fails with `SharedOwnership` where it is not. A
    /// scalar and a column give `UnsupportedOperation`, an array of more
    /// than one axis `ShapeMismatch`.
    pub fn into_vec(self) -> (r: Result<DynVec<'a>, Error>)
        ensures
            match r {
                Ok(v) => v.values() == self.values() && v.spec_dtype() == self.spec_dtype()
                    && !(self is Scalar) && !(self is Series) && self.rank() <= 1,
                Err(e) => if self is Scalar || self is Series {
                    e == Error::UnsupportedOperation
                } else {
                    e == Error::SharedOwnership || (self.rank() > 1 && e == Error::ShapeMismatch)
                },
            },
    {
        match self {
            Data::Vec(vec) => sole(arc_try_unwrap(vec)),
            Data::TrustIter(iter) => match sole(arc_try_unwrap(iter)) {
                Ok(it) => it.collect_vec(),
                Err(e) => Err(e),
            },
            Data::Array(array) => match sole(arc_try_unwrap(array)) {
                Ok(a) => a.into_vec(),
                Err(e) => Err(e),
            },
            _ => Err(Error::UnsupportedOperation),
        }
    }

    /// Takes the payload out as an array. A handle to an array always gives
    /// it: the array itself where the handle was the only one, an owned copy
    /// where it was not. Any other payload goes through `into_vec` and
    /// becomes an array of one axis.
    pub fn into_array(self) -> (r: Result<DynArray<'a>, Error>)
        ensures
            match r {
                Ok(a) => a.values() == self.values() && a.spec_dtype() == self.spec_dtype()
                    && !(self is Scalar) && !(self is Series) && match self {
                    Data::Array(old) => a.shape() == old.shape(),
                    _ => a.shape() == seq![self.values().len() as usize],
                },
                Err(e) => !(self is Array) && if self is Scalar || self is Series {
                    e == Error::UnsupportedOperation
                } else {
                    e == Error::SharedOwnership
                },
            },
            self is Array ==> r is Ok,
    {
        match self {
            Data::Array(array) => match arc_try_unwrap(array) {
                Ok(a) => Ok(a),
                Err(shared) => Ok(shared.clone_inner()),
            },
            other => match other.into_vec() {
                Ok(v) => DynArray::from_vec(v),
                Err(e) => Err(e),
            },
        }
    }

    /// Takes the payload out as a column. A column is handed out itself
    /// where the handle was the only one and copied where it was not. A
    /// sequence and an array of at most one axis become an unnamed column of
    /// their elements as a column holds them; an iterator does where the
    /// handle to it was the only one. A scalar gives `UnsupportedOperation`,
    /// an array of more axes `ShapeMismatch`, an element type that no column
    /// holds `TypeMismatch`.
    pub fn into_series(self) -> (r: Result<Series, Error>)
        ensures
            match r {
                Ok(s) => column_type(self.spec_dtype()) == Some(s.spec_dtype()) && s.values()
                    == column_values(self.values()) && !(self is Scalar) && self.rank() <= 1
                    && (self matches Data::Series(old) ==> s.spec_name() == old.spec_name()),
                Err(e) => !(self is Series) && if self is Scalar {
                    e == Error::UnsupportedOperation
                } else if self.rank() > 1 {
                    e == Error::ShapeMismatch
                } else {
                    (self is TrustIter && e == Error::SharedOwnership) || (column_type(
                        self.spec_dtype(),
                    ) is None && e == Error::TypeMismatch)
                },
            },
            self is Series ==> r is Ok,
    {
        match self {
            Data::Series(series) => {
                series.typed();
                proof {
                    lemma_column_values_fixed(series.values(), series.spec_dtype());
                }
                match arc_try_unwrap(series) {
                    Ok(s) => Ok(s),
                    Err(shared) => Ok(shared.clone_inner()),
                }
            },
            Data::TrustIter(iter) => match sole(arc_try_unwrap(iter)) {
                Ok(it) => it.collect_series(),
                Err(e) => Err(e),
            },
            Data::Vec(vec) => match arc_try_unwrap(vec) {
                Ok(v) => v.into_series(),
                Err(shared) => shared.to_series(),
            },
            Data::Array(array) => {
                if array.ndim() > 1 {
                    return Err(Error::ShapeMismatch);
                }
                array.to_flat().into_series()
            },
            Data::Scalar(_) => Err(Error::UnsupportedOperation),
        }
    }

    /// Materialises a lazy iterator for `backend`, for `Vec`, the flat
    /// default, where none is named; see [`backend_content`]. A column that
    /// it becomes has the empty name. Any other payload passes through
    /// unchanged. The iterator must not be shared: a shared one gives
    /// `SharedOwnership`.
    pub fn into_result(self, backend: Option<Backend>) -> (r: Result<Self, Error>)
        ensures
            match r {
                Ok(d) => if self is TrustIter {
                    backend_content(
                        match backend {
                            Some(b) => b,
                            None => Backend::Vec,
                        },
                        self.spec_dtype(),
                        self.values(),
                    ) == Ok::<Content, Error>(d.content())
                } else {
                    d == self
                },
                Err(e) => self is TrustIter && (e == Error::SharedOwnership || backend_content(
                    match backend {
                        Some(b) => b,
                        None => Backend::Vec,
                    },
                    self.spec_dtype(),
                    self.values(),
                ) == Err::<Content, Error>(e)),
            },
            !(self is TrustIter) ==> r is Ok,
            self is TrustIter ==> (r matches Ok(d) ==> (d is Series ==> d.spec_name() == Some(
                Seq::<char>::empty(),
            ))),
    {
        match self {
            Data::TrustIter(iter) => {
                let backend = match backend {
                    Some(b) => b,
                    None => Backend::Vec,
                };
                match sole(arc_try_unwrap(iter)) {
                    Ok(it) => it.collect(backend),
                    Err(e) => Err(e),
                }
            },
            other => Ok(other),
        }
    }

    /// Cuts every tie to borrowed storage: the result owns its payload. An
    /// iterator is run for `backend`, for `Vec` where none is named; it
    /// must not be shared and its elements must be of a type that the
    /// backend holds, or it is handed back untouched. Every other payload
    /// is kept where the handle was the only one and it owned its storage,
    /// and copied otherwise.
    pub fn into_owned<'b>(self, backend: Option<Backend>) -> (r: Result<Data<'b>, Self>)
        ensures
            match r {
                Ok(d) => match self {
                    Data::TrustIter(_) => backend_content(
                        match backend {
                            Some(b) => b,
                            None => Backend::Vec,
                        },
                        self.spec_dtype(),
                        self.values(),
                    ) == Ok::<Content, Error>(d.content()),
                    _ => d.content() == self.content() && d.spec_name() == self.spec_name(),
                },
                Err(d) => d == self && self is TrustIter,
            },
            r matches Ok(Data::Vec(v)) ==> v.is_owned(),
            r matches Ok(Data::Array(a)) ==> !a.is_view(),
            !(self is TrustIter) ==> r is Ok,
    {
        match self {
            Data::TrustIter(iter) => {
                let backend = match backend {
                    Some(b) => b,
                    None => Backend::Vec,
                };
                if matches!(backend, Backend::Polars) && iter.dtype().as_column().is_none() {
                    return Err(Data::TrustIter(iter));
                }
                match arc_try_unwrap(iter) {
                    Ok(it) => match it.collect(backend) {
                        Ok(d) => Ok(d),
                        Err(_) => {
                            proof {
                                assert(false);
                            }
                            Ok(Data::default())
                        },
                    },
                    Err(iter) => Err(Data::TrustIter(iter)),
                }
            },
            Data::Vec(vec) => match arc_try_unwrap(vec) {
                Ok(v) => Ok(Data::from_vec(v.into_owned())),
                Err(shared) => Ok(Data::from_vec(shared.clone_inner())),
            },
            Data::Scalar(scalar) => match arc_try_unwrap(scalar) {
                Ok(s) => Ok(Data::from_scalar(s)),
                Err(shared) => Ok(Data::from_scalar(shared.clone_inner())),
            },
            Data::Array(array) => match arc_try_unwrap(array) {
                Ok(a) => Ok(Data::from_array(a.into_owned())),
                Err(shared) => Ok(Data::from_array(shared.clone_inner())),
            },
            Data::Series(series) => Ok(Data::Series(series)),
        }
    }
}

impl Scalar {
    /// The values that a borrowed scalar is walked as: the indices of a
    /// vector of indices, the one value of anything else.
    pub open spec fn iter_values_of(v: Value) -> Seq<Value> {
        match v {
            Value::VecUsize(s) => s.map_values(|x: usize| Value::Usize(x)),
            _ => seq![v],
        }
    }

    /// The element type of the iterator that a borrowed scalar is walked as.
    pub open spec fn iter_type_of(v: Value) -> DataType {
        match v {
            Value::VecUsize(_) => DataType::Usize,
            _ => v.dtype(),
        }
    }

    /// A lazy iterator over a borrowed scalar. A vector of indices is walked
    /// index by index; any other scalar yields a copy of itself.
    pub fn titer(&self) -> (r: Result<DynTrustIter<'_>, Error>)
        ensures
            r matches Ok(it) && it.values() == Self::iter_values_of(self@) && it.spec_dtype()
                == Self::iter_type_of(self@),
    {
        match self {
            Scalar::VecUsize(v) => {
                let mut items: Vec<usize> = Vec::with_capacity(v.len());
                let mut i: usize = 0;
                while i < v.len()
                    invariant
                        i <= v.len(),
                        items@ == v@.subrange(0, i as int),
                    decreases v.len() - i,
                {
                    items.push(v[i]);
                    assert(items@ =~= v@.subrange(0, i + 1));
                    i += 1;
                }
                assert(v@.subrange(0, v.len() as int) =~= v@);
                let vec = DynVec::from_vec(items);
                assert(vec.values() =~= Self::iter_values_of(self@));
                match vec.into_titer() {
                    Ok(it) => Ok(it),
                    Err(e) => Err(e),
                }
            },
            _ => Ok(self.clone_inner().into_titer()),
        }
    }

    /// A lazy iterator that yields the scalar once.
    pub fn into_titer<'a>(self) -> (r: DynTrustIter<'a>)
        ensures
            r.values() == seq![self@],
            r.spec_dtype() == self@.dtype(),
    {
        let dtype = self.dtype();
        DynTrustIter::from_parts(dtype, iter_once(self))
    }
}

impl<'a> DynTrustIter<'a> {
    /// Runs the iterator into the representation of `backend`; see
    /// [`backend_content`]. What comes out owns its elements.
    pub fn collect<'b>(self, backend: Backend) -> (r: Result<Data<'b>, Error>)
        ensures
            match backend_content(backend, self.spec_dtype(), self.values()) {
                Ok(c) => r matches Ok(d) && d.content() == c,
                Err(e) => r == Err::<Data<'b>, Error>(e),
            },
            r matches Ok(Data::Vec(v)) ==> v.is_owned(),
            r matches Ok(Data::Array(a)) ==> !a.is_view(),
            r matches Ok(d) ==> d.spec_name() == if backend == Backend::Polars {
                Some(Seq::<char>::empty())
            } else {
                None
            },
    {
        match backend {
            Backend::Vec => match self.collect_vec() {
                Ok(v) => Ok(Data::from_vec(v)),
                Err(e) => Err(e),
            },
            Backend::Polars => match self.collect_series() {
                Ok(s) => Ok(Data::from_series(s)),
                Err(e) => Err(e),
            },
            _ => match self.collect_array() {
                Ok(a) => Ok(Data::from_array(a)),
                Err(e) => Err(e),
            },
        }
    }
}

impl<'a> DynVec<'a> {
    /// The sequence in the representation of `backend`: itself for `Vec`;
    /// otherwise see [`backend_content`].
    pub fn into_backend(self, backend: Backend) -> (r: Result<Data<'a>, Error>)
        ensures
            match backend_content(backend, self.spec_dtype(), self.values()) {
                Ok(c) => r matches Ok(d) && d.content() == c,
                Err(e) => r == Err::<Data<'a>, Error>(e),
            },
            backend == Backend::Vec ==> (r matches Ok(Data::Vec(v)) && *v == self),
            r matches Ok(Data::Array(a)) ==> !a.is_view(),
    {
        match backend {
            Backend::Vec => Ok(Data::from_vec(self)),
            Backend::Polars => match self.into_series() {
                Ok(s) => Ok(Data::from_series(s)),
                Err(e) => Err(e),
            },
            _ => match self.into_array() {
                Ok(a) => Ok(Data::from_array(a)),
                Err(e) => Err(e),
            },
        }
    }
}

} // verus!
