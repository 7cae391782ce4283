//! The calls that leave the verified code: into `tevec` and into the parts of
//! the standard library that have no specification. Verus takes the contract
//! of each on trust; each says which function it stands for.
use std::sync::Arc;
use tevec::export::ndarray::concatenate;
use tevec::export::ndarray::Array1;
use tevec::export::ndarray::ArrayD;
use tevec::export::ndarray::ArrayView1;
use tevec::export::ndarray::Axis;
use tevec::export::ndarray::CowArray;
use tevec::export::ndarray::Ix1;
use tevec::export::ndarray::IxDyn;
use tevec::prelude::AggValidBasic;
use tevec::prelude::Cast;
use tevec::prelude::IsNone;
use tevec::prelude::MapBasic;
use tevec::prelude::Number;
use tevec::prelude::Zero;
use tevec::prelude::CollectTrustedToVec;
use tevec::prelude::TError;
use tevec::prelude::TIter;
use tevec::prelude::ToTrustIter;
use tevec::prelude::TrustedLen;
use tevec::prelude::Vec1View;
use vstd::prelude::*;

use crate::array::nonzero_size;
use crate::array::shape_size;
use crate::join::joined_shape;
use crate::join::joined_values;
use crate::join::off_axis_equal;
use crate::join::same_rank;
use crate::join::axis_total;
use crate::backend::Backend;
use crate::cast::NumLike;
use crate::data::Kind;
use crate::dtype::DataType;
use crate::error::Error;
use crate::expr::eval_window;
use crate::expr::eval_window_array;
use crate::expr::sem_window;
use crate::expr::window_start;
use crate::expr::Expr;
use crate::payload::exactly;
use crate::payload::Payload;
use crate::data::flat_content;
use crate::scalar::all_of;
use crate::series::column_type;
use crate::cast::known_text;
use crate::element::Dtype;
use crate::kernels::shift_values;
use crate::kernels::typed_sum;
use crate::kernels::IntElem;
use crate::scalar::values_of;
use crate::scalar::Scalar;
use crate::scalar::Value;

verus! {

/// `Arc::try_unwrap`: hands the value out when this is the only handle and
/// the handle back when it is not. Which of the two happens depends on how
/// many handles exist, which the contract leaves open.
#[verifier::external_body]
pub(crate) fn arc_try_unwrap<T>(this: Arc<T>) -> (r: Result<T, Arc<T>>)
    ensures
        match r {
            Ok(t) => t == *this,
            Err(a) => a == this,
        },
{
    Arc::try_unwrap(this)
}

/// `Arc::clone`: one more handle to the same value.
#[verifier::external_body]
pub(crate) fn arc_share<T>(this: &Arc<T>) -> (r: Arc<T>)
    ensures
        r == *this,
{
    Arc::clone(this)
}

/// `tevec`'s `Cast::<i64>::cast` on a boolean or an integer: the Rust
/// conversion `as i64`, with `false` as 0 and `true` as 1.
#[verifier::external_body]
pub(crate) fn cast_to_i64<T: NumLike + Cast<i64>>(v: T) -> (r: i64)
    ensures
        r == v.as_i64(),
{
    v.cast()
}

/// `tevec`'s `Cast::cast` from `i64` to a boolean or an integer: the Rust
/// conversion `as`. To `bool` it panics unless the value, taken `as i32`, is 0
/// or 1, so those values are asked for.
#[verifier::external_body]
pub(crate) fn cast_from_i64<U: NumLike>(x: i64) -> (r: U) where i64: Cast<U>
    requires
        U::takes(x),
    ensures
        r == U::of_i64(x),
{
    x.cast()
}

/// The text that `tevec`'s cast to `String` gives for a boolean or an
/// integer, plain or optional.
pub uninterp spec fn text_of(v: Value) -> Seq<char>;

/// `tevec`'s `Cast::<String>::cast` on a boolean or an integer, plain or
/// optional: the text that stands for it. For a plain element that is what
/// `to_string` gives, so `true` and `false` for a boolean; an absent
/// optional gives `None`.
#[verifier::external_body]
pub(crate) fn cast_to_text<T: Dtype + Cast<String>>(v: T) -> (r: String)
    ensures
        r@ == text_of(v.value()),
        known_text(v.value()) matches Some(t) ==> r@ == t,
{
    v.cast()
}

/// `tevec`'s `AggValidBasic::vsum` on integers: their sum, or nothing where
/// there are none. It adds from the left with `+`, which must not leave the
/// range of the type on the way, so every sum of the first elements is
/// asked to fit.
#[verifier::external_body]
pub(crate) fn tv_vsum<T: IntElem + IsNone<Inner = T> + Zero>(v: Vec<T>) -> (r: Option<T>)
    requires
        forall|k: int| 0 <= k <= v@.len() ==> T::fits(#[trigger] typed_sum(v@, k)),
    ensures
        r == if v@.len() == 0 {
            None
        } else {
            Some(T::make(typed_sum(v@, v@.len() as int)))
        },
{
    v.vsum()
}

/// `tevec`'s `Number::abs` on an integer: the absolute value, the number
/// itself for an unsigned type. The absolute value is asked to fit the type.
#[verifier::external_body]
pub(crate) fn num_abs<T: IntElem + Number>(x: T) -> (r: T)
    requires
        T::fits(vstd::math::abs(x.num()) as int),
    ensures
        r == T::make(vstd::math::abs(x.num()) as int),
{
    Number::abs(x)
}

/// `tevec`'s `MapBasic::shift`, boxed: the sequence moved `n` places to the
/// back, or `-n` places to the front where `n` is negative, with `value` in
/// the places left free; the length stays. It subtracts the distance from
/// the length, so the distance is asked not to exceed it.
#[verifier::external_body]
pub(crate) fn iter_shift<'a>(it: TvIter<'a>, n: i32, value: Scalar) -> (r: TvIter<'a>)
    requires
        iter_values(it).len() <= usize::MAX,
        -(iter_values(it).len() as int) <= n <= iter_values(it).len(),
    ensures
        iter_values(r) == shift_values(iter_values(it), n as int, value@),
{
    TvIter { inner: it.inner.shift(n, value) }
}

/// The error type of `tevec`. Nothing is read from it.
#[verifier::external_type_specification]
#[verifier::external_body]
pub struct ExTError(TError);

/// `tevec`'s `Vec1View::get` on a slice: a copy of the element at `index`,
/// an error where `index` is not below the length.
#[verifier::external_body]
pub(crate) fn slice_get(s: &[Scalar], index: usize) -> (r: Result<Scalar, TError>)
    ensures
        match r {
            Ok(v) => index < s@.len() && v@ == s@[index as int]@,
            Err(_) => index >= s@.len(),
        },
{
    Vec1View::get(s, index)
}

/// A lazy sequence of elements of known length: a boxed `TrustedLen`
/// iterator of `tevec`, which Verus cannot look into.
#[verifier::external_body]
pub struct TvIter<'a> {
    inner: Box<dyn TrustedLen<Item = Scalar> + 'a>,
}

/// The values that a lazy sequence yields, in order, from where it stands.
pub uninterp spec fn iter_values(it: TvIter<'_>) -> Seq<Value>;

/// `Vec::into_iter`, boxed: yields the elements of the vector in order.
#[verifier::external_body]
pub(crate) fn iter_from_vec<'a>(v: Vec<Scalar>) -> (r: TvIter<'a>)
    ensures
        iter_values(r) == values_of(v@),
{
    TvIter { inner: Box::new(v.into_iter()) }
}

/// `tevec`'s `TIter::titer` on a slice, boxed: yields a copy of each element
/// of the slice in order.
#[verifier::external_body]
pub(crate) fn iter_from_slice<'a>(s: &'a [Scalar]) -> (r: TvIter<'a>)
    ensures
        iter_values(r) == values_of(s@),
{
    TvIter { inner: Box::new(s.titer()) }
}

/// `std::iter::once`, boxed: yields the one element.
#[verifier::external_body]
pub(crate) fn iter_once<'a>(s: Scalar) -> (r: TvIter<'a>)
    ensures
        iter_values(r) == seq![s@],
{
    TvIter { inner: Box::new(std::iter::once(s)) }
}

/// `std::iter::empty` with `tevec`'s `ToTrustIter::to_trust`, boxed: yields
/// nothing.
#[verifier::external_body]
pub(crate) fn iter_empty<'a>() -> (r: TvIter<'a>)
    ensures
        iter_values(r) == Seq::<Value>::empty(),
{
    TvIter { inner: Box::new(std::iter::empty().to_trust(0)) }
}

/// `tevec`'s `TrustedLen::len`: the number of elements still to come. It
/// reads the upper bound of `size_hint`, which a chain loses when the count
/// overflows, so the count is asked to fit.
#[verifier::external_body]
pub(crate) fn iter_len(it: &TvIter<'_>) -> (r: usize)
    requires
        iter_values(*it).len() <= usize::MAX,
    ensures
        r == iter_values(*it).len(),
{
    it.inner.len()
}

/// `tevec`'s `CollectTrustedToVec::collect_trusted_to_vec`: the elements that
/// the sequence yields, in order. It reserves room by `TrustedLen::len`.
#[verifier::external_body]
pub(crate) fn iter_collect(it: TvIter<'_>) -> (r: Vec<Scalar>)
    requires
        iter_values(it).len() <= usize::MAX,
    ensures
        values_of(r@) == iter_values(it),
{
    it.inner.collect_trusted_to_vec()
}

/// `Iterator::chain`, boxed: what `a` yields, then what `b` yields.
#[verifier::external_body]
pub(crate) fn iter_chain<'a>(a: TvIter<'a>, b: TvIter<'a>) -> (r: TvIter<'a>)
    ensures
        iter_values(r) == iter_values(a) + iter_values(b),
{
    TvIter { inner: Box::new(a.inner.chain(b.inner)) }
}

/// `ToTrustIter::to_trust` of `tevec` on `ArrayBase::into_iter` of `ndarray`,
/// boxed: yields the elements of the array in logical order. A borrowed array
/// is copied first by `ArrayBase::into_owned`.
#[verifier::external_body]
pub(crate) fn nd_into_iter<'a>(a: ArbArray<'a>) -> (r: TvIter<'a>)
    ensures
        iter_values(r) == nd_values(a),
{
    let len = a.inner.len();
    TvIter { inner: Box::new(a.inner.into_owned().into_iter().to_trust(len)) }
}

/// `ArrayBase::iter` of `ndarray` with `Iterator::cloned`, boxed: yields a
/// copy of each element of the array in logical order.
#[verifier::external_body]
pub(crate) fn nd_iter<'b>(a: &'b ArbArray<'_>) -> (r: TvIter<'b>)
    ensures
        iter_values(r) == nd_values(*a),
{
    TvIter { inner: Box::new(a.inner.iter().cloned()) }
}

/// An n-dimensional array of elements: a `CowArray` of `ndarray` with a
/// dynamic number of axes, which owns its elements or is a read-only view of
/// elements that another array owns. Verus cannot look into it.
#[verifier::external_body]
pub struct ArbArray<'a> {
    inner: CowArray<'a, Scalar, IxDyn>,
}

/// The values of the elements of an array in logical order: the last axis
/// runs fastest.
pub uninterp spec fn nd_values(a: ArbArray<'_>) -> Seq<Value>;

/// The length of each axis of an array.
pub uninterp spec fn nd_shape(a: ArbArray<'_>) -> Seq<usize>;

/// Whether an array is a view of elements that another array owns.
pub uninterp spec fn nd_is_view(a: ArbArray<'_>) -> bool;

/// `Array1::from_vec` and `ArrayBase::into_dyn` of `ndarray`: the owned array
/// of one axis over the elements of the vector.
#[verifier::external_body]
pub(crate) fn nd_from_vec<'a>(v: Vec<Scalar>) -> (r: ArbArray<'a>)
    ensures
        nd_values(r) == values_of(v@),
        nd_shape(r) == seq![v@.len() as usize],
        !nd_is_view(r),
{
    ArbArray { inner: CowArray::from(Array1::from_vec(v).into_dyn()) }
}

/// `ArrayBase::from_shape_vec` of `ndarray` with a dynamic shape: the owned
/// array of that shape over the elements of the vector, in logical order. It
/// is refused exactly where the shape does not hold as many elements as the
/// vector has, or where the product of its nonzero axis lengths is over
/// `isize::MAX`.
#[verifier::external_body]
pub(crate) fn nd_from_shape_vec<'a>(shape: &Vec<usize>, v: Vec<Scalar>) -> (r: Option<ArbArray<'a>>)
    ensures
        match r {
            Some(a) => shape_size(shape@) == v@.len() && nonzero_size(shape@) <= isize::MAX
                && nd_values(a) == values_of(v@) && nd_shape(a) == shape@ && !nd_is_view(a),
            None => !(shape_size(shape@) == v@.len() && nonzero_size(shape@) <= isize::MAX),
        },
{
    ArrayD::from_shape_vec(IxDyn(shape.as_slice()), v).ok().map(|a| ArbArray { inner: CowArray::from(a) })
}

/// `ArrayBase::len` of `ndarray`: the number of elements.
#[verifier::external_body]
pub(crate) fn nd_len(a: &ArbArray<'_>) -> (r: usize)
    ensures
        r == nd_values(*a).len(),
{
    a.inner.len()
}

/// `ArrayBase::ndim` of `ndarray`: the number of axes.
#[verifier::external_body]
pub(crate) fn nd_ndim(a: &ArbArray<'_>) -> (r: usize)
    ensures
        r == nd_shape(*a).len(),
{
    a.inner.ndim()
}

/// `ArrayBase::shape` of `ndarray`, copied: the length of each axis. Every
/// array of `ndarray` holds as many elements as its shape says, and the
/// product of its nonzero axis lengths is at most `isize::MAX`.
#[verifier::external_body]
pub(crate) fn nd_shape_vec(a: &ArbArray<'_>) -> (r: Vec<usize>)
    ensures
        r@ == nd_shape(*a),
        shape_size(r@) == nd_values(*a).len(),
        nonzero_size(r@) <= isize::MAX,
{
    a.inner.shape().to_vec()
}

/// `CowArray::is_view` of `ndarray`.
#[verifier::external_body]
pub(crate) fn nd_borrows(a: &ArbArray<'_>) -> (r: bool)
    ensures
        r == nd_is_view(*a),
{
    a.inner.is_view()
}

/// `ArrayBase::get` of `ndarray` with one index, copied: the element at
/// `index` of an array of one axis, nothing where `index` is not below its
/// length. With another number of axes the call may panic, so one axis is
/// asked for.
#[verifier::external_body]
pub(crate) fn nd_get(a: &ArbArray<'_>, index: usize) -> (r: Option<Scalar>)
    requires
        nd_shape(*a).len() == 1,
    ensures
        match r {
            Some(v) => index < nd_values(*a).len() && v@ == nd_values(*a)[index as int],
            None => index >= nd_values(*a).len(),
        },
{
    a.inner.get(index).cloned()
}

/// `ArrayBase::view` of `ndarray`: a view of the same elements and shape.
#[verifier::external_body]
pub(crate) fn nd_view<'b>(a: &'b ArbArray<'_>) -> (r: ArbArray<'b>)
    ensures
        nd_values(r) == nd_values(*a),
        nd_shape(r) == nd_shape(*a),
        nd_is_view(r),
{
    ArbArray { inner: CowArray::from(a.inner.view()) }
}

/// `ArrayBase::into_owned` of `ndarray`: the array itself where it owns its
/// elements, an owned copy of the same shape where it is a view.
#[verifier::external_body]
pub(crate) fn nd_into_owned<'b>(a: ArbArray<'_>) -> (r: ArbArray<'b>)
    ensures
        nd_values(r) == nd_values(a),
        nd_shape(r) == nd_shape(a),
        !nd_is_view(r),
{
    ArbArray { inner: CowArray::from(a.inner.into_owned()) }
}

/// `ArrayBase::to_owned` of `ndarray`: an owned copy of the same shape.
#[verifier::external_body]
pub(crate) fn nd_to_owned<'b>(a: &ArbArray<'_>) -> (r: ArbArray<'b>)
    ensures
        nd_values(r) == nd_values(*a),
        nd_shape(r) == nd_shape(*a),
        !nd_is_view(r),
{
    ArbArray { inner: CowArray::from(a.inner.to_owned()) }
}

/// The shapes of the arrays of `parts`.
pub open spec fn shapes_of(parts: Seq<ArbArray<'_>>) -> Seq<Seq<usize>> {
    Seq::new(parts.len(), |i: int| nd_shape(parts[i]))
}

/// The values of the arrays of `parts`.
pub open spec fn values_in(parts: Seq<ArbArray<'_>>) -> Seq<Seq<Value>> {
    Seq::new(parts.len(), |i: int| nd_values(parts[i]))
}

/// `concatenate` of `ndarray` on views of the arrays: one owned array that
/// joins them along `axis`. It is refused exactly where two arrays differ
/// in the length of another axis, or where the product of the nonzero axis
/// lengths of the result is over `isize::MAX`. The result holds the
/// arrays one behind the other along `axis`, as `joined_values` says in
/// logical order. The call may panic where there is no array, where `axis`
/// is not an axis of each array, or where the lengths along `axis` add up
/// to more than `usize::MAX`, so none of that is admitted.
#[verifier::external_body]
pub(crate) fn nd_concat<'b>(axis: usize, parts: &Vec<ArbArray<'_>>) -> (r: Option<ArbArray<'b>>)
    requires
        parts@.len() >= 1,
        same_rank(shapes_of(parts@)),
        axis < shapes_of(parts@)[0].len(),
        axis_total(shapes_of(parts@), axis as int, parts@.len() as int) <= usize::MAX,
    ensures
        match r {
            Some(a) => off_axis_equal(shapes_of(parts@), axis as int) && nonzero_size(
                joined_shape(shapes_of(parts@), axis as int),
            ) <= isize::MAX && nd_shape(a) == joined_shape(shapes_of(parts@), axis as int)
                && nd_values(a) == joined_values(axis as int, shapes_of(parts@), values_in(parts@))
                && !nd_is_view(a),
            None => !(off_axis_equal(shapes_of(parts@), axis as int) && nonzero_size(
                joined_shape(shapes_of(parts@), axis as int),
            ) <= isize::MAX),
        },
{
    let views: Vec<_> = parts.iter().map(|p| p.inner.view()).collect();
    concatenate(Axis(axis), &views).ok().map(|a| ArbArray { inner: CowArray::from(a) })
}

/// `tevec`'s `Vec1View::rolling_custom_iter` on a slice, collected: for
/// each position the trailing window of up to `window` elements that ends
/// there is handed to the evaluation of `expr`, as a flat sequence or as a
/// column called `name`, and the answers come back in order. It subtracts
/// 1 from `window`, so a window of at least one element is asked for.
#[verifier::external_body]
pub(crate) fn roll_slices<'b>(
    items: &[Scalar],
    window: usize,
    expr: &Expr,
    dtype: DataType,
    backend: Backend,
    kind: Kind,
    name: &str,
) -> (r: Vec<Result<Payload<'b>, Error>>)
    requires
        window >= 1,
        all_of(values_of(items@), dtype),
        kind == Kind::Vec || (kind == Kind::Series && column_type(dtype) == Some(dtype)),
    ensures
        r@.len() == items@.len(),
        forall|i: int|
            0 <= i < r@.len() ==> exactly(
                #[trigger] r@[i],
                sem_window(
                    *expr,
                    flat_content(
                        kind,
                        dtype,
                        values_of(items@).subrange(window_start(i, window as int), i + 1),
                    ),
                    backend,
                ),
            ),
{
    let each = |w| eval_window(expr, w, dtype, backend, kind, name);
    items.rolling_custom_iter(window, each).collect_trusted_to_vec()
}

/// `tevec`'s `Vec1View::rolling_custom_iter` on a view of an array of one
/// axis, collected: as `roll_slices`, with each window handed on as a view
/// of the array. The array is taken as one of one axis by
/// `into_dimensionality`, so one axis is asked for.
#[verifier::external_body]
pub(crate) fn roll_array<'b>(
    arr: &ArbArray<'_>,
    window: usize,
    expr: &Expr,
    dtype: DataType,
    backend: Backend,
) -> (r: Vec<Result<Payload<'b>, Error>>)
    requires
        window >= 1,
        nd_shape(*arr).len() == 1,
        all_of(nd_values(*arr), dtype),
    ensures
        r@.len() == nd_values(*arr).len(),
        forall|i: int|
            0 <= i < r@.len() ==> exactly(
                #[trigger] r@[i],
                sem_window(
                    *expr,
                    flat_content(
                        Kind::Array,
                        dtype,
                        nd_values(*arr).subrange(window_start(i, window as int), i + 1),
                    ),
                    backend,
                ),
            ),
{
    let lane = arr.inner.view().into_dimensionality::<Ix1>().unwrap();
    let each = |w: ArrayView1<'_, Scalar>| {
        eval_window_array(expr, ArbArray { inner: CowArray::from(w.into_dyn()) }, dtype, backend)
    };
    lane.rolling_custom_iter(window, each).collect_trusted_to_vec()
}

} // verus!
