//! A payload ready to be consumed. What is done to it is decided by its
//! content alone, so every operation on it has one outcome.
use std::sync::Arc;
use vstd::prelude::*;

use crate::array::DynArray;
use crate::backend::Backend;
use crate::bridge::arc_try_unwrap;
use crate::data::backend_content;
use crate::data::Content;
use crate::data::Data;
use crate::data::Kind;
use crate::dtype::DataType;
use crate::dtype::GetDtype;
use crate::error::Error;
use crate::scalar::all_of;
use crate::scalar::lemma_values_of;
use crate::scalar::Scalar;
use crate::scalar::Value;
use crate::series::column_type;
use crate::series::present_value;
use crate::series::Series;
use crate::trust_iter::DynTrustIter;
use crate::vec::DynVec;

verus! {

/// A payload that can be consumed: a lazy iterator, a scalar, a flat
/// sequence or an array that nobody else holds, or a column of a
/// dataframe, which is only ever read and so stays shared.
pub enum Payload<'a> {
    TrustIter(DynTrustIter<'a>),
    Scalar(Scalar),
    Vec(DynVec<'a>),
    Array(DynArray<'a>),
    Series(Arc<Series>),
}

/// What an operation on a payload gave is what it means: a result has the
/// content meant and a failure is the failure meant.
pub open spec fn exactly(r: Result<Payload<'_>, Error>, meant: Result<Content, Error>) -> bool {
    match r {
        Ok(p) => meant == Ok::<Content, Error>(p.content()),
        Err(e) => meant == Err::<Content, Error>(e),
    }
}

/// What an operation on a payload gave agrees with what it means: a result
/// has the content meant, and a failure is the failure meant or
/// `SharedOwnership`, which the meaning does not decide because it depends
/// on how many handles to a lazy iterator exist.
pub open spec fn agreeing(r: Result<Payload<'_>, Error>, meant: Result<Content, Error>) -> bool {
    match r {
        Ok(p) => meant == Ok::<Content, Error>(p.content()),
        Err(e) => meant == Err::<Content, Error>(e) || e == Error::SharedOwnership,
    }
}

/// What an operation on a handle gave is what it means: a result has the
/// content meant and a failure is the failure meant.
pub open spec fn exact(r: Result<Data<'_>, Error>, meant: Result<Content, Error>) -> bool {
    match r {
        Ok(d) => meant == Ok::<Content, Error>(d.content()),
        Err(e) => meant == Err::<Content, Error>(e),
    }
}

/// What materialising means: a lazy iterator becomes flat data in the
/// representation of `backend`, of `Vec`, the flat default, where none is
/// named; anything else stays as it is.
pub open spec fn sem_into_result(c: Content, backend: Option<Backend>) -> Result<Content, Error> {
    if c.kind == Kind::TrustIter {
        backend_content(
            match backend {
                Some(b) => b,
                None => Backend::Vec,
            },
            c.dtype,
            c.values,
        )
    } else {
        Ok(c)
    }
}

/// What cutting loose from borrowed storage means for the content: what
/// materialising means. A lazy iterator becomes flat data in the
/// representation of `backend`, of `Vec` where none is named; anything
/// else keeps its content.
pub open spec fn sem_into_owned(c: Content, backend: Option<Backend>) -> Result<Content, Error> {
    sem_into_result(c, backend)
}

/// The one value of a content that holds exactly one, `ShapeMismatch` for
/// any other. A column gives the plain element under its one element, and
/// `TypeMismatch` where that is absent.
pub open spec fn sem_scalar(c: Content) -> Result<Value, Error> {
    if c.values.len() != 1 {
        Err(Error::ShapeMismatch)
    } else if c.kind == Kind::Series {
        match present_value(c.values[0]) {
            Some(v) => Ok(v),
            None => Err(Error::TypeMismatch),
        }
    } else {
        Ok(c.values[0])
    }
}

/// What turning into a lazy iterator means for a content: its values in
/// order. A column cannot be consumed and gives `UnsupportedOperation`,
/// more than one axis gives `ShapeMismatch`.
pub open spec fn sem_into_titer(c: Content) -> Result<Seq<Value>, Error> {
    if c.kind == Kind::Series {
        Err(Error::UnsupportedOperation)
    } else if c.shape.len() > 1 {
        Err(Error::ShapeMismatch)
    } else {
        Ok(c.values)
    }
}

impl<'a> GetDtype for Payload<'a> {
    open spec fn spec_dtype(&self) -> DataType {
        match self {
            Payload::TrustIter(a) => a.spec_dtype(),
            Payload::Scalar(a) => a@.dtype(),
            Payload::Vec(a) => a.spec_dtype(),
            Payload::Array(a) => a.spec_dtype(),
            Payload::Series(a) => a.spec_dtype(),
        }
    }

    fn dtype(&self) -> (r: DataType) {
        match self {
            Payload::TrustIter(a) => a.dtype(),
            Payload::Scalar(a) => a.dtype(),
            Payload::Vec(a) => a.dtype(),
            Payload::Array(a) => a.dtype(),
            Payload::Series(a) => a.dtype(),
        }
    }
}

impl<'a> Payload<'a> {
    /// The values of the payload in order.
    pub open spec fn values(&self) -> Seq<Value> {
        match self {
            Payload::TrustIter(a) => a.values(),
            Payload::Scalar(a) => seq![a@],
            Payload::Vec(a) => a.values(),
            Payload::Array(a) => a.values(),
            Payload::Series(a) => a.values(),
        }
    }

    /// The kind of the payload.
    pub open spec fn kind(&self) -> Kind {
        match self {
            Payload::TrustIter(_) => Kind::TrustIter,
            Payload::Scalar(_) => Kind::Scalar,
            Payload::Vec(_) => Kind::Vec,
            Payload::Array(_) => Kind::Array,
            Payload::Series(_) => Kind::Series,
        }
    }

    /// The length of each axis of the payload.
    pub open spec fn shape(&self) -> Seq<usize> {
        match self {
            Payload::Scalar(_) => Seq::empty(),
            Payload::Array(a) => a.shape(),
            _ => seq![self.values().len() as usize],
        }
    }

    /// What the payload holds, apart from what it is called.
    pub open spec fn content(&self) -> Content {
        Content {
            kind: self.kind(),
            dtype: self.spec_dtype(),
            values: self.values(),
            shape: self.shape(),
        }
    }

    /// The name of the payload: that of a column, none for anything else.
    pub open spec fn spec_name(&self) -> Option<Seq<char>> {
        match self {
            Payload::Series(a) => Some(a.spec_name()),
            _ => None,
        }
    }

    /// Brings to light that every value has the element type of the
    /// payload.
    pub(crate) fn typed(&self)
        ensures
            all_of(self.values(), self.spec_dtype()),
            self is Series ==> column_type(self.spec_dtype()) == Some(self.spec_dtype()),
    {
        match self {
            Payload::TrustIter(a) => a.typed(),
            Payload::Scalar(_) => {},
            Payload::Vec(a) => a.typed(),
            Payload::Array(a) => a.typed(),
            Payload::Series(a) => a.typed(),
        }
    }

    /// The number of axes of the payload.
    pub fn ndim(&self) -> (r: usize)
        ensures
            r == self.shape().len(),
    {
        match self {
            Payload::Scalar(_) => {
                assert(self.shape().len() == 0);
                0
            },
            Payload::Array(a) => a.ndim(),
            _ => {
                assert(self.shape().len() == 1);
                1
            },
        }
    }

    /// A handle to the payload: the first and only one.
    pub fn into_data(self) -> (r: Data<'a>)
        ensures
            r.content() == self.content(),
            r.spec_name() == self.spec_name(),
            r is TrustIter <==> self is TrustIter,
    {
        match self {
            Payload::TrustIter(a) => Data::from_titer(a),
            Payload::Scalar(a) => Data::from_scalar(a),
            Payload::Vec(a) => Data::from_vec(a),
            Payload::Array(a) => Data::from_array(a),
            Payload::Series(a) => Data::Series(a),
        }
    }

    /// The payload under a name. Only a column carries a name: it is handed
    /// back under the new one, holding what it held. Anything else, and
    /// everything where no name is given, is returned as it is.
    pub fn alias(self, name: Option<&str>) -> (r: Self)
        ensures
            r.content() == self.content(),
            match (self, name) {
                (Payload::Series(_), Some(n)) => r.spec_name() == Some(n@),
                _ => r == self,
            },
    {
        match (self, name) {
            (Payload::Series(a), Some(n)) => {
                let s = match arc_try_unwrap(a) {
                    Ok(s) => s,
                    Err(shared) => shared.clone_inner(),
                };
                Payload::Series(Arc::new(s.with_name(n)))
            },
            (other, _) => other,
        }
    }

    /// The payload as a lazy iterator; see [`sem_into_titer`].
    pub fn into_titer(self) -> (r: Result<DynTrustIter<'a>, Error>)
        ensures
            match r {
                Ok(it) => sem_into_titer(self.content()) == Ok::<Seq<Value>, Error>(it.values())
                    && it.spec_dtype() == self.spec_dtype(),
                Err(e) => sem_into_titer(self.content()) == Err::<Seq<Value>, Error>(e),
            },
    {
        match self {
            Payload::TrustIter(it) => Ok(it),
            Payload::Scalar(s) => Ok(s.into_titer()),
            Payload::Vec(v) => v.into_titer(),
            Payload::Array(a) => a.into_titer(),
            Payload::Series(_) => Err(Error::UnsupportedOperation),
        }
    }

    /// The payload as an array: an array itself, a sequence or an iterator
    /// as an array of one axis. A scalar and a column are no arrays and
    /// give `UnsupportedOperation`.
    pub fn into_array(self) -> (r: Result<DynArray<'a>, Error>)
        ensures
            match r {
                Ok(a) => a.values() == self.values() && a.spec_dtype() == self.spec_dtype()
                    && !(self is Scalar) && !(self is Series) && a.shape() == if self is Array {
                    self.shape()
                } else {
                    seq![self.values().len() as usize]
                },
                Err(e) => (self is Scalar || self is Series) && e == Error::UnsupportedOperation,
            },
    {
        match self {
            Payload::Array(a) => Ok(a),
            Payload::Vec(v) => DynArray::from_vec(v),
            Payload::TrustIter(it) => it.collect_array(),
            _ => Err(Error::UnsupportedOperation),
        }
    }

    /// The one scalar of the payload; see [`sem_scalar`].
    pub fn into_scalar(self) -> (r: Result<Scalar, Error>)
        ensures
            match r {
                Ok(s) => sem_scalar(self.content()) == Ok::<Value, Error>(s@),
                Err(e) => sem_scalar(self.content()) == Err::<Value, Error>(e),
            },
    {
        match self {
            Payload::Scalar(s) => Ok(s),
            Payload::Series(series) => {
                if series.len() != 1 {
                    return Err(Error::ShapeMismatch);
                }
                match series.get(0) {
                    Ok(s) => match s.into_present() {
                        Some(p) => Ok(p),
                        None => Err(Error::TypeMismatch),
                    },
                    Err(e) => {
                        proof {
                            assert(false);
                        }
                        Err(e)
                    },
                }
            },
            Payload::Vec(v) => {
                if v.len() != 1 {
                    return Err(Error::ShapeMismatch);
                }
                match v.get(0) {
                    Ok(s) => Ok(s),
                    Err(e) => {
                        proof {
                            assert(false);
                        }
                        Err(e)
                    },
                }
            },
            Payload::TrustIter(it) => {
                let (_, mut items) = it.into_parts();
                proof {
                    lemma_values_of(items@);
                }
                if items.len() != 1 {
                    return Err(Error::ShapeMismatch);
                }
                Ok(items.pop().unwrap())
            },
            Payload::Array(a) => {
                let (_, mut items) = a.into_parts();
                proof {
                    lemma_values_of(items@);
                }
                if items.len() != 1 {
                    return Err(Error::ShapeMismatch);
                }
                Ok(items.pop().unwrap())
            },
        }
    }

    /// A flat sequence in the representation of `backend`; see
    /// [`backend_content`].
    pub fn flat(v: DynVec<'a>, backend: Backend) -> (r: Result<Payload<'a>, Error>)
        ensures
            exactly(r, backend_content(backend, v.spec_dtype(), v.values())),
            r matches Ok(Payload::Array(a)) ==> !a.is_view(),
            r matches Ok(Payload::Vec(w)) ==> w.is_owned() == v.is_owned(),
            r matches Ok(p) ==> p.spec_name() == if backend == Backend::Polars {
                Some(Seq::<char>::empty())
            } else {
                None
            },
    {
        match backend {
            Backend::Vec => Ok(Payload::Vec(v)),
            Backend::Polars => match v.into_series() {
                Ok(s) => Ok(Payload::Series(Arc::new(s))),
                Err(e) => Err(e),
            },
            _ => match v.into_array() {
                Ok(a) => Ok(Payload::Array(a)),
                Err(e) => Err(e),
            },
        }
    }

    /// Materialises a lazy iterator for `backend`; see [`sem_into_result`].
    /// A column that it becomes has the empty name.
    pub fn into_result(self, backend: Option<Backend>) -> (r: Result<Payload<'a>, Error>)
        ensures
            exactly(r, sem_into_result(self.content(), backend)),
            !(self is TrustIter) ==> r == Ok::<Payload<'a>, Error>(self),
            r matches Ok(p) ==> !(p is TrustIter),
            self is TrustIter ==> (r matches Ok(p) ==> (p is Series ==> p.spec_name() == Some(
                Seq::<char>::empty(),
            ))),
    {
        match self {
            Payload::TrustIter(it) => {
                let chosen = match backend {
                    Some(b) => b,
                    None => Backend::Vec,
                };
                it.collect_payload(chosen)
            },
            other => Ok(other),
        }
    }

    /// Cuts every tie to borrowed storage; see [`sem_into_owned`]. What
    /// comes out owns its storage.
    pub fn into_owned<'b>(self, backend: Option<Backend>) -> (r: Result<Payload<'b>, Error>)
        ensures
            exactly(r, sem_into_owned(self.content(), backend)),
            r matches Ok(Payload::Vec(v)) ==> v.is_owned(),
            r matches Ok(Payload::Array(a)) ==> !a.is_view(),
            !(self is TrustIter) ==> (r matches Ok(p) && p.spec_name() == self.spec_name()),
    {
        match self {
            Payload::TrustIter(it) => {
                let chosen = match backend {
                    Some(b) => b,
                    None => Backend::Vec,
                };
                it.collect_payload(chosen)
            },
            Payload::Vec(v) => Ok(Payload::Vec(v.into_owned())),
            Payload::Scalar(s) => Ok(Payload::Scalar(s)),
            Payload::Array(a) => Ok(Payload::Array(a.into_owned())),
            Payload::Series(s) => Ok(Payload::Series(s)),
        }
    }
}

impl<'a> DynTrustIter<'a> {
    /// Runs the iterator into the representation of `backend`; see
    /// [`backend_content`]. What comes out owns its elements.
    pub fn collect_payload<'b>(self, backend: Backend) -> (r: Result<Payload<'b>, Error>)
        ensures
            exactly(r, backend_content(backend, self.spec_dtype(), self.values())),
            r matches Ok(Payload::Vec(v)) ==> v.is_owned(),
            r matches Ok(Payload::Array(a)) ==> !a.is_view(),
            r matches Ok(p) ==> !(p is TrustIter) && p.spec_name() == if backend
                == Backend::Polars {
                Some(Seq::<char>::empty())
            } else {
                None
            },
    {
        match self.collect_vec() {
            Ok(v) => Payload::flat(v, backend),
            Err(e) => {
                proof {
                    assert(false);
                }
                Err(e)
            },
        }
    }
}

impl<'a> Data<'a> {
    /// Takes the payload out of the handle. A scalar, a sequence and an
    /// array always come out: the payload itself where the handle was the
    /// only one, a copy of it where it was not. A column comes out as it is
    /// held. An iterator cannot be copied, so a shared handle to one gives
    /// `SharedOwnership`.
    pub fn detach(self) -> (r: Result<Payload<'a>, Error>)
        ensures
            match r {
                Ok(p) => p.content() == self.content() && p.spec_name() == self.spec_name(),
                Err(e) => self is TrustIter && e == Error::SharedOwnership,
            },
            !(self is TrustIter) ==> r is Ok,
    {
        match self {
            Data::TrustIter(a) => match arc_try_unwrap(a) {
                Ok(it) => Ok(Payload::TrustIter(it)),
                Err(_) => Err(Error::SharedOwnership),
            },
            Data::Scalar(a) => match arc_try_unwrap(a) {
                Ok(s) => Ok(Payload::Scalar(s)),
                Err(shared) => Ok(Payload::Scalar(shared.clone_inner())),
            },
            Data::Vec(a) => match arc_try_unwrap(a) {
                Ok(v) => Ok(Payload::Vec(v)),
                Err(shared) => Ok(Payload::Vec(shared.clone_inner())),
            },
            Data::Array(a) => match arc_try_unwrap(a) {
                Ok(v) => Ok(Payload::Array(v)),
                Err(shared) => Ok(Payload::Array(shared.clone_inner())),
            },
            Data::Series(a) => Ok(Payload::Series(a)),
        }
    }
}

} // verus!
