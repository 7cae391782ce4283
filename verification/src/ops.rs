//! The transforms that a node applies to the data handed down the chain, and
//! what each of them means for the content of the data.
use vstd::prelude::*;

use crate::array::DynArray;
use crate::backend::Backend;
use crate::bridge::nd_from_shape_vec;
use crate::data::backend_content;
use crate::data::flat_content;
use crate::data::scalar_content;
use crate::data::Content;
use crate::data::Data;
use crate::data::Kind;
use crate::dtype::DataType;
use crate::dtype::GetDtype;
use crate::error::Error;
use crate::kernels::abs_all;
use crate::kernels::abs_items;
use crate::kernels::abs_seq;
use crate::kernels::int_value;
use crate::kernels::number_type;
use crate::kernels::sum_fits;
use crate::kernels::sum_upto;
use crate::payload::exact;
use crate::payload::exactly;
use crate::payload::Payload;
use crate::scalar::lemma_values_of;
use crate::scalar::values_of;
use crate::trust_iter::DynTrustIter;

verus! {

/// What an operation gave agrees with what it means: a result has the
/// content meant, and a failure is the failure meant or `SharedOwnership`,
/// which the meaning does not decide because it depends on how many handles
/// to a payload exist.
pub open spec fn agrees(r: Result<Data<'_>, Error>, meant: Result<Content, Error>) -> bool {
    match r {
        Ok(d) => meant == Ok::<Content, Error>(d.content()),
        Err(e) => meant == Err::<Content, Error>(e) || e == Error::SharedOwnership,
    }
}

/// The sum of a payload of at most one axis: a scalar of the plain integer
/// type under the element type, holding the sum of the present numbers.
/// More axes give `ShapeMismatch`, an element type without a kernel the
/// error of [`DataType::no_kernel`], a sum that leaves the range of the type
/// on the way `Overflow`.
pub open spec fn sem_sum(c: Content) -> Result<Content, Error> {
    if c.shape.len() > 1 {
        Err(Error::ShapeMismatch)
    } else {
        match number_type(c.dtype) {
            None => Err(c.dtype.no_kernel()),
            Some(t) => if sum_fits(c.values, t) {
                Ok(scalar_content(int_value(t, sum_upto(c.values, c.values.len() as int))))
            } else {
                Err(Error::Overflow)
            },
        }
    }
}

/// The absolute values of a payload: a lazy iterator for a payload of at
/// most one axis, an array of the same shape for one of more; a column is
/// walked as it stands and the result materialised for `backend`. With
/// `plain` the element type must be a plain integer type with a kernel or a
/// plain float type; without it an optional one will do and absent
/// elements stay absent. Any other element type gives `TypeMismatch`, an
/// absolute value that does not fit its type `Overflow`.
pub open spec fn sem_abs(c: Content, plain: bool, backend: Backend) -> Result<Content, Error> {
    let defined = if plain {
        c.dtype.spec_has_abs()
    } else {
        c.dtype.spec_has_vabs()
    };
    if !defined {
        Err(Error::TypeMismatch)
    } else if !abs_all(c.values) {
        Err(Error::Overflow)
    } else if c.kind == Kind::Series {
        backend_content(backend, c.dtype, abs_seq(c.values))
    } else if c.shape.len() > 1 {
        Ok(Content { kind: Kind::Array, dtype: c.dtype, values: abs_seq(c.values), shape: c.shape })
    } else {
        Ok(flat_content(Kind::TrustIter, c.dtype, abs_seq(c.values)))
    }
}

impl<'a> DynArray<'a> {
    /// The array of the absolute values, in the same shape; see
    /// [`sem_abs`] for `plain` and for the failures.
    pub fn abs_elems(self, plain: bool) -> (r: Result<DynArray<'a>, Error>)
        ensures
            match r {
                Ok(a) => (if plain {
                    self.spec_dtype().spec_has_abs()
                } else {
                    self.spec_dtype().spec_has_vabs()
                }) && abs_all(self.values()) && a.values() == abs_seq(self.values()) && a.shape()
                    == self.shape() && a.spec_dtype() == self.spec_dtype(),
                Err(e) => if (if plain {
                    self.spec_dtype().spec_has_abs()
                } else {
                    self.spec_dtype().spec_has_vabs()
                }) {
                    !abs_all(self.values()) && e == Error::Overflow
                } else {
                    e == Error::TypeMismatch
                },
            },
    {
        let dtype = self.dtype();
        let defined = if plain {
            dtype.has_abs()
        } else {
            dtype.has_vabs()
        };
        if !defined {
            return Err(Error::TypeMismatch);
        }
        let shape = self.dims();
        let (_, items) = self.into_parts();
        let ghost before = items@;
        match abs_items(items) {
            Some(v) => {
                proof {
                    lemma_values_of(v@);
                    lemma_values_of(before);
                    assert forall|i: int| 0 <= i < values_of(v@).len() implies (
                    #[trigger] values_of(v@)[i]).dtype() == dtype by {
                        assert(v@[i]@.dtype() == before[i]@.dtype());
                        assert(values_of(before)[i].dtype() == dtype);
                    }
                }
                match nd_from_shape_vec(&shape, v) {
                    Some(arr) => Ok(DynArray::from_parts(dtype, arr)),
                    None => {
                        proof {
                            assert(false);
                        }
                        Err(Error::ShapeMismatch)
                    },
                }
            },
            None => Err(Error::Overflow),
        }
    }
}

/// The sum of a payload: see [`sem_sum`].
pub fn sum_of<'a, 'b>(p: Payload<'a>) -> (r: Result<Payload<'b>, Error>)
    ensures
        exactly(r, sem_sum(p.content())),
        r matches Ok(q) ==> q is Scalar,
{
    let walked = match &p {
        Payload::Series(series) => series.titer(),
        _ => p.into_titer(),
    };
    match walked {
        Ok(it) => match it.vsum() {
            Ok(s) => Ok(Payload::Scalar(s)),
            Err(e) => Err(e),
        },
        Err(e) => Err(e),
    }
}

/// The absolute values of a payload: see [`sem_abs`].
pub fn abs_of<'a>(p: Payload<'a>, backend: Backend, plain: bool) -> (r: Result<Payload<'a>, Error>)
    ensures
        exactly(r, sem_abs(p.content(), plain, backend)),
        r matches Ok(q) ==> q.spec_name() == if q is Series {
            Some(Seq::<char>::empty())
        } else {
            None
        },
{
    match p {
        Payload::Series(series) => match series.titer() {
            Ok(it) => {
                let out = if plain {
                    it.abs()
                } else {
                    it.vabs()
                };
                match out {
                    Ok(it) => it.collect_payload(backend),
                    Err(e) => Err(e),
                }
            },
            Err(e) => Err(e),
        },
        Payload::Array(array) => {
            if array.ndim() > 1 {
                match array.abs_elems(plain) {
                    Ok(a) => Ok(Payload::Array(a)),
                    Err(e) => Err(e),
                }
            } else {
                match array.into_titer() {
                    Ok(it) => abs_iter(it, plain),
                    Err(e) => Err(e),
                }
            }
        },
        other => match other.into_titer() {
            Ok(it) => abs_iter(it, plain),
            Err(e) => Err(e),
        },
    }
}

fn abs_iter<'a>(it: DynTrustIter<'a>, plain: bool) -> (r: Result<Payload<'a>, Error>)
    ensures
        exactly(
            r,
            sem_abs(flat_content(Kind::TrustIter, it.spec_dtype(), it.values()), plain, Backend::Vec),
        ),
        r matches Ok(q) ==> q is TrustIter,
{
    let out = if plain {
        it.abs()
    } else {
        it.vabs()
    };
    match out {
        Ok(it) => Ok(Payload::TrustIter(it)),
        Err(e) => Err(e),
    }
}

/// The sum node: see [`sem_sum`]. The result is exactly what the sum means
/// unless the handle holds a lazy iterator, which only its one owner may
/// run.
pub fn sum<'a>(data: Data<'a>, backend: Backend) -> (r: Result<Data<'a>, Error>)
    ensures
        agrees(r, sem_sum(data.content())),
        !(data is TrustIter) ==> exact(r, sem_sum(data.content())),
{
    match data.detach() {
        Ok(p) => match sum_of(p) {
            Ok(q) => Ok(q.into_data()),
            Err(e) => Err(e),
        },
        Err(e) => Err(e),
    }
}

/// The absolute-value nodes: see [`sem_abs`]. The result is exactly what
/// they mean unless the handle holds a lazy iterator, which only its one
/// owner may run.
pub fn abs<'a>(data: Data<'a>, backend: Backend, plain: bool) -> (r: Result<Data<'a>, Error>)
    ensures
        agrees(r, sem_abs(data.content(), plain, backend)),
        !(data is TrustIter) ==> exact(r, sem_abs(data.content(), plain, backend)),
{
    match data.detach() {
        Ok(p) => match abs_of(p, backend, plain) {
            Ok(q) => Ok(q.into_data()),
            Err(e) => Err(e),
        },
        Err(e) => Err(e),
    }
}

} // verus!
