//! Joining payloads end to end, with every part cast to the element type of
//! the first.
use vstd::prelude::*;

use crate::array::DynArray;
use crate::array::nonzero_size;
use crate::array::shape_size;
use crate::backend::Backend;
use crate::bridge::nd_concat;
use crate::bridge::ArbArray;
use crate::cast::cast_seq;
use crate::cast::castable_all;
use crate::cast::lemma_cast_seq_lands;
use crate::data::Content;
use crate::data::Data;
use crate::data::Kind;
use crate::dtype::DataType;
use crate::dtype::GetDtype;
use crate::error::Error;
use crate::lanes::axis_stride;
use crate::lanes::lemma_size_split;
use crate::ops::agrees;
use crate::payload::exact;
use crate::payload::exactly;
use crate::payload::Payload;
use crate::data::backend_content;
use crate::data::flat_content;
use crate::scalar::all_of;
use crate::scalar::Value;
use crate::series::column_type;
use crate::series::Series;
use crate::trust_iter::DynTrustIter;
use crate::vec::DynVec;

verus! {

/// The sequences of `parts`, one after the other.
pub open spec fn flatten(parts: Seq<Seq<Value>>) -> Seq<Value>
    decreases parts.len(),
{
    if parts.len() == 0 {
        Seq::empty()
    } else {
        flatten(parts.drop_last()) + parts.last()
    }
}

/// Whether all shapes have as many axes as the first.
pub open spec fn same_rank(shapes: Seq<Seq<usize>>) -> bool {
    forall|i: int| 0 <= i < shapes.len() ==> (#[trigger] shapes[i]).len() == shapes[0].len()
}

/// Whether all shapes agree with the first in the length of every axis but
/// `axis`.
pub open spec fn off_axis_equal(shapes: Seq<Seq<usize>>, axis: int) -> bool {
    forall|i: int, ax: int|
        0 <= i < shapes.len() && 0 <= ax < shapes[0].len() && ax != axis ==> (
        #[trigger] shapes[i])[ax] == #[trigger] shapes[0][ax]
}

/// The sum of the lengths along `axis` of the first `k` shapes.
pub open spec fn axis_total(shapes: Seq<Seq<usize>>, axis: int, k: int) -> nat
    decreases k,
{
    if k <= 0 {
        0
    } else {
        axis_total(shapes, axis, k - 1) + shapes[k - 1][axis] as nat
    }
}

/// The shape of the join along `axis`: that of the first array, with the
/// lengths along `axis` added up.
pub open spec fn joined_shape(shapes: Seq<Seq<usize>>, axis: int) -> Seq<usize> {
    shapes[0].update(axis, axis_total(shapes, axis, shapes.len() as int) as usize)
}

/// The part that position `at` along the joined axis falls into, among the
/// first `k` parts: the last of them that begins at or before `at`.
pub open spec fn part_at(shapes: Seq<Seq<usize>>, axis: int, at: int, k: int) -> int
    decreases k,
{
    if k <= 1 {
        0
    } else if at >= axis_total(shapes, axis, k - 1) {
        k - 1
    } else {
        part_at(shapes, axis, at, k - 1)
    }
}

/// The values, in logical order, of the join along `axis` of arrays with
/// the given shapes and values. The element at position `at` along the
/// axis comes from the part that `at` falls into, from the position in it
/// that lies as far behind the beginning of the part as `at` does; its
/// positions along the other axes stay.
pub open spec fn joined_values(axis: int, shapes: Seq<Seq<usize>>, values: Seq<Seq<Value>>) -> Seq<
    Value,
> {
    let stride = axis_stride(shapes[0], axis) as int;
    let total = axis_total(shapes, axis, shapes.len() as int) as int;
    Seq::new(
        shape_size(joined_shape(shapes, axis)),
        |i: int|
            {
                let at = (i / stride) % total;
                let lane = i / (stride * total);
                let p = part_at(shapes, axis, at, shapes.len() as int);
                let len = shapes[p][axis] as int;
                let from = at - axis_total(shapes, axis, p);
                values[p][(lane * len + from) * stride + i % stride]
            },
    )
}

/// Where in which part the element at position `i` of a join comes from:
/// the part and the position in its values, as [`joined_values`] has them.
pub open spec fn joined_source(axis: int, shapes: Seq<Seq<usize>>, i: int) -> (int, int) {
    let stride = axis_stride(shapes[0], axis) as int;
    let total = axis_total(shapes, axis, shapes.len() as int) as int;
    let at = (i / stride) % total;
    let lane = i / (stride * total);
    let p = part_at(shapes, axis, at, shapes.len() as int);
    let len = shapes[p][axis] as int;
    let from = at - axis_total(shapes, axis, p);
    (p, (lane * len + from) * stride + i % stride)
}

/// A position along the joined axis lies in the part that it falls into.
pub proof fn lemma_part_at(shapes: Seq<Seq<usize>>, axis: int, at: int, k: int)
    requires
        1 <= k,
        0 <= at < axis_total(shapes, axis, k),
    ensures
        0 <= part_at(shapes, axis, at, k) < k,
        axis_total(shapes, axis, part_at(shapes, axis, at, k)) <= at < axis_total(
            shapes,
            axis,
            part_at(shapes, axis, at, k) + 1,
        ),
    decreases k,
{
    if k <= 1 {
        assert(axis_total(shapes, axis, 0) == 0);
    } else if at >= axis_total(shapes, axis, k - 1) {
    } else {
        lemma_part_at(shapes, axis, at, k - 1);
    }
}

/// Every element of a join comes from a part that there is, and from a
/// position that the part has.
pub proof fn lemma_joined_source(axis: int, shapes: Seq<Seq<usize>>, i: int)
    requires
        shapes.len() >= 1,
        same_rank(shapes),
        0 <= axis < shapes[0].len(),
        axis_total(shapes, axis, shapes.len() as int) <= usize::MAX,
        off_axis_equal(shapes, axis),
        0 <= i < shape_size(joined_shape(shapes, axis)),
    ensures
        0 <= joined_source(axis, shapes, i).0 < shapes.len(),
        0 <= joined_source(axis, shapes, i).1 < shape_size(
            shapes[joined_source(axis, shapes, i).0],
        ),
{
    let n = shapes.len() as int;
    let first = shapes[0];
    let joined = joined_shape(shapes, axis);
    let stride = axis_stride(first, axis) as int;
    let total = axis_total(shapes, axis, n) as int;
    let lanes = shape_size(first.take(axis)) as int;
    assert(joined.take(axis) =~= first.take(axis));
    assert(joined.subrange(axis + 1, joined.len() as int) =~= first.subrange(
        axis + 1,
        first.len() as int,
    ));
    lemma_size_split(joined, axis);
    assert(shape_size(joined) == lanes * total * stride);
    assert(stride > 0 && total > 0 && lanes > 0) by (nonlinear_arith)
        requires
            0 <= i < lanes * total * stride,
            stride >= 0,
            total >= 0,
            lanes >= 0,
    ;
    let at = (i / stride) % total;
    let lane = i / (stride * total);
    assert(stride * total > 0) by (nonlinear_arith)
        requires
            stride > 0,
            total > 0,
    ;
    assert(i < (stride * total) * lanes) by (nonlinear_arith)
        requires
            i < lanes * total * stride,
    ;
    vstd::arithmetic::div_mod::lemma_multiply_divide_lt(i, stride * total, lanes);
    vstd::arithmetic::div_mod::lemma_div_pos_is_pos(i, stride * total);
    vstd::arithmetic::div_mod::lemma_div_pos_is_pos(i, stride);
    vstd::arithmetic::div_mod::lemma_mod_pos_bound(i / stride, total);
    vstd::arithmetic::div_mod::lemma_mod_pos_bound(i, stride);
    lemma_part_at(shapes, axis, at, n);
    let p = part_at(shapes, axis, at, n);
    let part = shapes[p];
    let len = part[axis] as int;
    let from = at - axis_total(shapes, axis, p);
    assert(axis_total(shapes, axis, p + 1) == axis_total(shapes, axis, p) + len);
    assert(part.len() == first.len());
    assert(part.take(axis) =~= first.take(axis)) by {
        assert forall|ax: int| 0 <= ax < axis implies part[ax] == first[ax] by {
            assert(shapes[p][ax] == shapes[0][ax]);
        }
    }
    assert(part.subrange(axis + 1, part.len() as int) =~= first.subrange(
        axis + 1,
        first.len() as int,
    )) by {
        assert forall|ax: int| axis < ax < first.len() implies part[ax] == first[ax] by {
            assert(shapes[p][ax] == shapes[0][ax]);
        }
    }
    lemma_size_split(part, axis);
    assert(shape_size(part) == lanes * len * stride);
    let r = i % stride;
    assert(0 <= (lane * len + from) * stride + r < lanes * len * stride) by (nonlinear_arith)
        requires
            0 <= lane < lanes,
            0 <= from < len,
            0 <= r < stride,
    ;
}

/// Where every part holds elements of one type, so does the join.
pub proof fn lemma_joined_typed(
    axis: int,
    shapes: Seq<Seq<usize>>,
    values: Seq<Seq<Value>>,
    to: DataType,
)
    requires
        shapes.len() >= 1,
        values.len() == shapes.len(),
        same_rank(shapes),
        0 <= axis < shapes[0].len(),
        axis_total(shapes, axis, shapes.len() as int) <= usize::MAX,
        off_axis_equal(shapes, axis),
        forall|p: int| 0 <= p < shapes.len() ==> (#[trigger] values[p]).len() == shape_size(shapes[p]),
        forall|p: int| 0 <= p < values.len() ==> all_of(#[trigger] values[p], to),
    ensures
        all_of(joined_values(axis, shapes, values), to),
{
    let result = joined_values(axis, shapes, values);
    assert forall|j: int| 0 <= j < result.len() implies (#[trigger] result[j]).dtype() == to by {
        lemma_joined_source(axis, shapes, j);
        let p = joined_source(axis, shapes, j).0;
        let m = joined_source(axis, shapes, j).1;
        assert(values[p].len() == shape_size(shapes[p]));
        assert(all_of(values[p], to));
        assert(result[j] == values[p][m]);
    }
}

/// Along the first axis, the first `k` parts one after the other hold at
/// every position the element of the part that the position falls into.
proof fn lemma_flatten_first_axis(shapes: Seq<Seq<usize>>, values: Seq<Seq<Value>>, stride: int, k: int)
    requires
        0 <= k <= shapes.len(),
        values.len() == shapes.len(),
        stride > 0,
        forall|p: int|
            0 <= p < shapes.len() ==> (#[trigger] values[p]).len() == (shapes[p][0] as int) * stride,
    ensures
        flatten(values.take(k)).len() == axis_total(shapes, 0, k) * stride,
        forall|i: int|
            0 <= i < axis_total(shapes, 0, k) * stride ==> #[trigger] flatten(values.take(k))[i]
                == values[part_at(shapes, 0, i / stride, k)][i - axis_total(
                shapes,
                0,
                part_at(shapes, 0, i / stride, k),
            ) * stride],
    decreases k,
{
    if k == 0 {
        assert(values.take(0) =~= Seq::<Seq<Value>>::empty());
        assert(axis_total(shapes, 0, 0) * stride == 0) by (nonlinear_arith)
            requires
                axis_total(shapes, 0, 0) == 0,
        ;
    } else {
        lemma_flatten_first_axis(shapes, values, stride, k - 1);
        let before = axis_total(shapes, 0, k - 1) as int;
        let len = shapes[k - 1][0] as int;
        assert(values.take(k).drop_last() =~= values.take(k - 1));
        assert(values.take(k).last() == values[k - 1]);
        assert(flatten(values.take(k)) == flatten(values.take(k - 1)) + values[k - 1]);
        assert((before + len) * stride == before * stride + len * stride) by (nonlinear_arith);
        assert forall|i: int| 0 <= i < axis_total(shapes, 0, k) * stride implies #[trigger] flatten(
            values.take(k),
        )[i] == values[part_at(shapes, 0, i / stride, k)][i - axis_total(
            shapes,
            0,
            part_at(shapes, 0, i / stride, k),
        ) * stride] by {
            if i < before * stride {
                vstd::arithmetic::div_mod::lemma_multiply_divide_lt(i, stride, before);
                assert(i / stride < before);
                if k == 1 {
                    assert(before == 0);
                    assert(before * stride == 0) by (nonlinear_arith)
                        requires
                            before == 0,
                    ;
                }
                assert(part_at(shapes, 0, i / stride, k) == part_at(shapes, 0, i / stride, k - 1));
                assert(flatten(values.take(k))[i] == flatten(values.take(k - 1))[i]);
            } else {
                assert(i / stride >= before) by (nonlinear_arith)
                    requires
                        i >= before * stride,
                        stride > 0,
                ;
                assert(part_at(shapes, 0, i / stride, k) == k - 1);
                assert(flatten(values.take(k))[i] == values[k - 1][i - before * stride]);
            }
        }
    }
}

/// Along the first axis a join holds its parts one after the other, whole.
pub proof fn lemma_joined_first_axis(shapes: Seq<Seq<usize>>, values: Seq<Seq<Value>>)
    requires
        shapes.len() >= 1,
        values.len() == shapes.len(),
        same_rank(shapes),
        shapes[0].len() >= 1,
        axis_total(shapes, 0, shapes.len() as int) <= usize::MAX,
        off_axis_equal(shapes, 0),
        forall|p: int| 0 <= p < shapes.len() ==> (#[trigger] values[p]).len() == shape_size(shapes[p]),
    ensures
        joined_values(0, shapes, values) == flatten(values),
{
    let n = shapes.len() as int;
    let first = shapes[0];
    let joined = joined_shape(shapes, 0);
    let stride = axis_stride(first, 0) as int;
    let total = axis_total(shapes, 0, n) as int;
    let result = joined_values(0, shapes, values);
    assert(values.take(n) =~= values);
    assert(shape_size(first.take(0)) == 1);
    assert(joined.take(0) =~= first.take(0));
    assert(joined.subrange(1, joined.len() as int) =~= first.subrange(1, first.len() as int));
    lemma_size_split(joined, 0);
    assert(shape_size(joined) == total * stride) by (nonlinear_arith)
        requires
            shape_size(joined) == 1 * (total as nat) * (stride as nat),
            total >= 0,
            stride >= 0,
    ;
    if stride == 0 {
        assert(total * stride == 0) by (nonlinear_arith)
            requires
                stride == 0,
        ;
        assert forall|p: int| 0 <= p < n implies (#[trigger] values[p]).len() == 0 by {
            lemma_part_size(shapes, p, stride);
            assert((shapes[p][0] as int) * stride == 0) by (nonlinear_arith)
                requires
                    stride == 0,
            ;
        }
        lemma_flatten_empty(values, n);
        assert(result =~= flatten(values));
    } else {
        assert forall|p: int| 0 <= p < n implies (#[trigger] values[p]).len() == (
        shapes[p][0] as int) * stride by {
            lemma_part_size(shapes, p, stride);
        }
        lemma_flatten_first_axis(shapes, values, stride, n);
        assert(result.len() == flatten(values).len());
        assert forall|i: int| 0 <= i < result.len() implies result[i] == flatten(values)[i] by {
            vstd::arithmetic::div_mod::lemma_multiply_divide_lt(i, stride, total);
            vstd::arithmetic::div_mod::lemma_div_pos_is_pos(i, stride);
            let at = i / stride;
            assert(total > 0) by (nonlinear_arith)
                requires
                    0 <= i < total * stride,
                    stride > 0,
            ;
            vstd::arithmetic::div_mod::lemma_small_mod(at as nat, total as nat);
            assert(i < stride * total) by (nonlinear_arith)
                requires
                    i < total * stride,
            ;
            assert(stride * total > 0) by (nonlinear_arith)
                requires
                    stride > 0,
                    total > 0,
            ;
            vstd::arithmetic::div_mod::lemma_basic_div(i, stride * total);
            vstd::arithmetic::div_mod::lemma_fundamental_div_mod(i, stride);
            let p = part_at(shapes, 0, at, n);
            let len = shapes[p][0] as int;
            let from = at - axis_total(shapes, 0, p);
            assert((0 * len + from) * stride + i % stride == i - axis_total(shapes, 0, p) * stride)
                by (nonlinear_arith)
                requires
                    i == stride * at + i % stride,
                    from == at - axis_total(shapes, 0, p),
            ;
            assert(flatten(values.take(n))[i] == values[p][i - axis_total(shapes, 0, p) * stride]);
        }
        assert(result =~= flatten(values));
    }
}

/// The size of a part of a join along the first axis: its length along the
/// axis times the stride that all parts share.
proof fn lemma_part_size(shapes: Seq<Seq<usize>>, p: int, stride: int)
    requires
        0 <= p < shapes.len(),
        same_rank(shapes),
        shapes[0].len() >= 1,
        off_axis_equal(shapes, 0),
        stride == axis_stride(shapes[0], 0),
    ensures
        shape_size(shapes[p]) == (shapes[p][0] as int) * stride,
{
    let part = shapes[p];
    let first = shapes[0];
    assert(part.len() == first.len());
    assert(part.subrange(1, part.len() as int) =~= first.subrange(1, first.len() as int)) by {
        assert forall|ax: int| 0 < ax < first.len() implies part[ax] == first[ax] by {
            assert(shapes[p][ax] == shapes[0][ax]);
        }
    }
    assert(shape_size(part.take(0)) == 1);
    lemma_size_split(part, 0);
    assert(shape_size(part) == (part[0] as int) * stride) by (nonlinear_arith)
        requires
            shape_size(part) == 1 * (part[0] as nat) * (stride as nat),
            stride >= 0,
    ;
}

/// Parts that hold nothing, one after the other, hold nothing.
proof fn lemma_flatten_empty(values: Seq<Seq<Value>>, k: int)
    requires
        0 <= k <= values.len(),
        forall|p: int| 0 <= p < values.len() ==> (#[trigger] values[p]).len() == 0,
    ensures
        flatten(values.take(k)).len() == 0,
    decreases k,
{
    if k == 0 {
        assert(values.take(0) =~= Seq::<Seq<Value>>::empty());
    } else {
        lemma_flatten_empty(values, k - 1);
        assert(values.take(k).drop_last() =~= values.take(k - 1));
        assert(values.take(k).last() == values[k - 1]);
    }
}

/// The values of the first `k` parts, each cast to the type `to` and put
/// one after the other. A column cannot be consumed and gives
/// `UnsupportedOperation`, a part of more than one axis `ShapeMismatch`, a
/// part with a value that cannot be cast `TypeMismatch`; the first part
/// that fails decides.
pub open spec fn flat_join(cs: Seq<Content>, k: int, to: DataType) -> Result<Seq<Value>, Error>
    decreases k,
{
    if k <= 0 {
        Ok(Seq::empty())
    } else {
        match flat_join(cs, k - 1, to) {
            Err(e) => Err(e),
            Ok(prev) => {
                let c = cs[k - 1];
                if c.kind == Kind::Series {
                    Err(Error::UnsupportedOperation)
                } else if c.shape.len() > 1 {
                    Err(Error::ShapeMismatch)
                } else if !castable_all(c.values, to) {
                    Err(Error::TypeMismatch)
                } else {
                    Ok(prev + cast_seq(c.values, to))
                }
            },
        }
    }
}

/// The shape that a part has as an array: its own where it is one, one axis
/// of its length where it is a sequence or an iterator.
pub open spec fn array_shape(c: Content) -> Seq<usize> {
    if c.kind == Kind::Array {
        c.shape
    } else {
        seq![c.values.len() as usize]
    }
}

/// The first `k` parts as arrays of element type `to`: their shapes and
/// their cast values. A scalar and a column cannot be an array and give
/// `UnsupportedOperation`, a part with a value that cannot be cast
/// `TypeMismatch`; the first part that fails decides.
pub open spec fn array_parts(cs: Seq<Content>, k: int, to: DataType) -> Result<
    (Seq<Seq<usize>>, Seq<Seq<Value>>),
    Error,
>
    decreases k,
{
    if k <= 0 {
        Ok((Seq::empty(), Seq::empty()))
    } else {
        match array_parts(cs, k - 1, to) {
            Err(e) => Err(e),
            Ok(prev) => {
                let c = cs[k - 1];
                if c.kind == Kind::Scalar || c.kind == Kind::Series {
                    Err(Error::UnsupportedOperation)
                } else if !castable_all(c.values, to) {
                    Err(Error::TypeMismatch)
                } else {
                    Ok((prev.0.push(array_shape(c)), prev.1.push(cast_seq(c.values, to))))
                }
            },
        }
    }
}

/// The values of the first `k` columns, each cast to the type `to` and put
/// one after the other. A part that is no column gives
/// `UnsupportedOperation`, a column with a value that cannot be cast
/// `TypeMismatch`; the first part that fails decides.
pub open spec fn series_join(cs: Seq<Content>, k: int, to: DataType) -> Result<Seq<Value>, Error>
    decreases k,
{
    if k <= 0 {
        Ok(Seq::empty())
    } else {
        match series_join(cs, k - 1, to) {
            Err(e) => Err(e),
            Ok(prev) => {
                let c = cs[k - 1];
                if c.kind != Kind::Series {
                    Err(Error::UnsupportedOperation)
                } else if !castable_all(c.values, to) {
                    Err(Error::TypeMismatch)
                } else {
                    Ok(prev + cast_seq(c.values, to))
                }
            },
        }
    }
}

/// Whether arrays of these shapes can be joined along `axis`: they have the
/// same number of axes, `axis` is one of them, they agree in every other
/// axis, and the result is not too large for the machine.
pub open spec fn joinable(shapes: Seq<Seq<usize>>, axis: int) -> bool {
    &&& shapes.len() >= 1
    &&& same_rank(shapes)
    &&& 0 <= axis < shapes[0].len()
    &&& axis_total(shapes, axis, shapes.len() as int) <= usize::MAX
    &&& off_axis_equal(shapes, axis)
    &&& nonzero_size(joined_shape(shapes, axis)) <= isize::MAX
}

/// What joining means. No part gives the empty sequence of 64-bit floats,
/// one part gives that part as it is. Otherwise the element type of the
/// first part is the type of the result and every part is cast to it. Where
/// the first part is a column, all parts must be columns and the result is
/// the column of their elements. Where it is anything else of at most one
/// axis, the parts are put one after the other and the result is flat, in
/// the representation of `backend`. Where it has more axes, the parts are
/// joined as arrays along `axis`, the first axis where none is named, and
/// arrays that do not fit give `ShapeMismatch`.
pub open spec fn sem_concat(cs: Seq<Content>, axis: Option<usize>, backend: Backend) -> Result<
    Content,
    Error,
> {
    if cs.len() == 0 {
        Ok(flat_content(Kind::Vec, DataType::F64, Seq::empty()))
    } else if cs.len() == 1 {
        Ok(cs[0])
    } else {
        let to = cs[0].dtype;
        if cs[0].kind == Kind::Series {
            match series_join(cs, cs.len() as int, to) {
                Ok(values) => Ok(flat_content(Kind::Series, to, values)),
                Err(e) => Err(e),
            }
        } else if cs[0].shape.len() <= 1 {
            match flat_join(cs, cs.len() as int, to) {
                Ok(values) => backend_content(backend, to, values),
                Err(e) => Err(e),
            }
        } else {
            let along = match axis {
                Some(a) => a,
                None => 0usize,
            };
            match array_parts(cs, cs.len() as int, to) {
                Err(e) => Err(e),
                Ok(parts) => if joinable(parts.0, along as int) {
                    Ok(
                        Content {
                            kind: Kind::Array,
                            dtype: to,
                            values: joined_values(along as int, parts.0, parts.1),
                            shape: joined_shape(parts.0, along as int),
                        },
                    )
                } else {
                    Err(Error::ShapeMismatch)
                },
            }
        }
    }
}

/// The elements of `v` in reverse order, so that `pop` hands them out from
/// the front.
pub(crate) fn reversed<T>(v: Vec<T>) -> (r: Vec<T>)
    ensures
        r@.len() == v@.len(),
        forall|i: int| 0 <= i < r@.len() ==> #[trigger] r@[i] == v@[v@.len() - 1 - i],
{
    let mut rest = v;
    let mut out: Vec<T> = Vec::with_capacity(rest.len());
    while rest.len() > 0
        invariant
            rest@.len() + out@.len() == v@.len(),
            forall|i: int| 0 <= i < rest@.len() ==> #[trigger] rest@[i] == v@[i],
            forall|i: int| 0 <= i < out@.len() ==> #[trigger] out@[i] == v@[v@.len() - 1 - i],
        decreases rest.len(),
    {
        let x = rest.pop().unwrap();
        out.push(x);
    }
    out
}

/// The contents of a list of lazy iterators.
pub open spec fn iter_contents(is: Seq<DynTrustIter<'_>>) -> Seq<Content> {
    Seq::new(is.len(), |i: int| flat_content(Kind::TrustIter, is[i].spec_dtype(), is[i].values()))
}

/// The contents of a list of handles.
pub open spec fn contents(es: Seq<Data<'_>>) -> Seq<Content> {
    Seq::new(es.len(), |i: int| es[i].content())
}

/// The contents of a list of payloads.
pub open spec fn payload_contents(ps: Seq<Payload<'_>>) -> Seq<Content> {
    Seq::new(ps.len(), |i: int| ps[i].content())
}

/// Whether one of the handles holds a lazy iterator.
pub open spec fn any_iterator(es: Seq<Data<'_>>) -> bool {
    exists|i: int| 0 <= i < es.len() && #[trigger] es[i] is TrustIter
}

/// Once `flat_join` has failed it stays failed.
proof fn lemma_flat_join_fails(cs: Seq<Content>, k: int, n: int, to: DataType)
    requires
        0 <= k <= n,
        flat_join(cs, k, to) is Err,
    ensures
        flat_join(cs, n, to) == flat_join(cs, k, to),
    decreases n - k,
{
    if k < n {
        lemma_flat_join_fails(cs, k, n - 1, to);
    }
}

/// Joins lazy iterators into one owned flat sequence of the element type of
/// the first, casting every element of the others to it. No iterator gives
/// the empty sequence of 64-bit floats. `size_hint` says how many iterators
/// of the length of the first to make room for; it does not change the
/// result.
pub fn concat_iter<'a, 'b>(is: Vec<DynTrustIter<'a>>, size_hint: Option<usize>) -> (r: Result<
    DynVec<'b>,
    Error,
>)
    ensures
        match r {
            Ok(v) => if is@.len() == 0 {
                v.values() == Seq::<Value>::empty() && v.spec_dtype() == DataType::F64
            } else {
                flat_join(iter_contents(is@), is@.len() as int, is@[0].spec_dtype()) == Ok::<
                    Seq<Value>,
                    Error,
                >(v.values()) && v.spec_dtype() == is@[0].spec_dtype()
            },
            Err(e) => is@.len() > 0 && flat_join(
                iter_contents(is@),
                is@.len() as int,
                is@[0].spec_dtype(),
            ) == Err::<Seq<Value>, Error>(e),
        },
{
    let n = is.len();
    if n == 0 {
        return Ok(DynVec::default());
    }
    let ghost cs = iter_contents(is@);
    let to = is[0].dtype();
    let mut rest = reversed(is);
    let mut out: Vec<crate::scalar::Scalar> = Vec::new();
    assert(crate::scalar::values_of(out@) =~= Seq::<Value>::empty());
    let mut k: usize = 0;
    while k < n
        invariant
            k <= n,
            n == is@.len(),
            cs == iter_contents(is@),
            to == is@[0].spec_dtype(),
            rest@.len() == n - k,
            forall|i: int| 0 <= i < rest@.len() ==> #[trigger] rest@[i] == is@[n - 1 - i],
            flat_join(cs, k as int, to) == Ok::<Seq<Value>, Error>(crate::scalar::values_of(out@)),
            all_of(crate::scalar::values_of(out@), to),
        decreases n - k,
    {
        let it = rest.pop().unwrap();
        assert(it == is@[k as int]);
        let ghost vals = it.values();
        let (_, items) = it.into_parts();
        match crate::cast::cast_items(items, to) {
            Ok(mut v) => {
                proof {
                    lemma_cast_seq_lands(vals, to);
                    crate::scalar::lemma_values_of(v@);
                    crate::scalar::lemma_values_of(out@);
                    crate::scalar::lemma_values_of(out@ + v@);
                    assert(crate::scalar::values_of(out@ + v@) =~= crate::scalar::values_of(out@)
                        + cast_seq(vals, to));
                    assert(cs[k as int].shape.len() == 1);
                }
                out.append(&mut v);
            },
            Err(e) => {
                proof {
                    assert(cs[k as int].shape.len() == 1);
                    assert(flat_join(cs, k + 1, to) == Err::<Seq<Value>, Error>(e));
                    lemma_flat_join_fails(cs, k + 1, n as int, to);
                }
                return Err(e);
            },
        }
        k += 1;
    }
    Ok(DynVec::from_parts(to, out))
}

/// Once `array_parts` has failed it stays failed.
proof fn lemma_array_parts_fails(cs: Seq<Content>, k: int, n: int, to: DataType)
    requires
        0 <= k <= n,
        array_parts(cs, k, to) is Err,
    ensures
        array_parts(cs, n, to) == array_parts(cs, k, to),
    decreases n - k,
{
    if k < n {
        lemma_array_parts_fails(cs, k, n - 1, to);
    }
}

/// The flat join of payloads: what `flat_join` says, as an owned sequence.
fn join_flat<'a, 'b>(es: Vec<Payload<'a>>, to: DataType) -> (r: Result<DynVec<'b>, Error>)
    ensures
        match r {
            Ok(v) => flat_join(payload_contents(es@), es@.len() as int, to) == Ok::<Seq<Value>, Error>(
                v.values(),
            ) && v.spec_dtype() == to,
            Err(e) => flat_join(payload_contents(es@), es@.len() as int, to) == Err::<
                Seq<Value>,
                Error,
            >(e),
        },
{
    let n = es.len();
    let ghost cs = payload_contents(es@);
    let mut rest = reversed(es);
    let mut out: Vec<crate::scalar::Scalar> = Vec::new();
    assert(crate::scalar::values_of(out@) =~= Seq::<Value>::empty());
    let mut k: usize = 0;
    while k < n
        invariant
            k <= n,
            n == es@.len(),
            cs == payload_contents(es@),
            rest@.len() == n - k,
            forall|i: int| 0 <= i < rest@.len() ==> #[trigger] rest@[i] == es@[n - 1 - i],
            flat_join(cs, k as int, to) == Ok::<Seq<Value>, Error>(crate::scalar::values_of(out@)),
            all_of(crate::scalar::values_of(out@), to),
        decreases n - k,
    {
        let d = rest.pop().unwrap();
        assert(d == es@[k as int]);
        assert(cs[k as int] == d.content());
        let ghost vals = d.values();
        let it = match d.into_titer() {
            Ok(it) => it,
            Err(e) => {
                proof {
                    assert(flat_join(cs, k + 1, to) == Err::<Seq<Value>, Error>(e));
                    lemma_flat_join_fails(cs, k + 1, n as int, to);
                }
                return Err(e);
            },
        };
        let (_, items) = it.into_parts();
        match crate::cast::cast_items(items, to) {
            Ok(mut v) => {
                proof {
                    lemma_cast_seq_lands(vals, to);
                    crate::scalar::lemma_values_of(v@);
                    crate::scalar::lemma_values_of(out@);
                    crate::scalar::lemma_values_of(out@ + v@);
                    assert(crate::scalar::values_of(out@ + v@) =~= crate::scalar::values_of(out@)
                        + cast_seq(vals, to));
                }
                out.append(&mut v);
            },
            Err(e) => {
                proof {
                    assert(flat_join(cs, k + 1, to) == Err::<Seq<Value>, Error>(e));
                    lemma_flat_join_fails(cs, k + 1, n as int, to);
                }
                return Err(e);
            },
        }
        k += 1;
    }
    Ok(DynVec::from_parts(to, out))
}

/// Once `series_join` has failed it stays failed.
proof fn lemma_series_join_fails(cs: Seq<Content>, k: int, n: int, to: DataType)
    requires
        0 <= k <= n,
        series_join(cs, k, to) is Err,
    ensures
        series_join(cs, n, to) == series_join(cs, k, to),
    decreases n - k,
{
    if k < n {
        lemma_series_join_fails(cs, k, n - 1, to);
    }
}

/// The join of columns: what `series_join` says, as a column that carries
/// the name of the first.
fn join_series(es: Vec<Payload<'_>>, to: DataType) -> (r: Result<Series, Error>)
    requires
        es@.len() >= 1,
        es@[0] is Series,
        column_type(to) == Some(to),
    ensures
        match r {
            Ok(s) => series_join(payload_contents(es@), es@.len() as int, to) == Ok::<Seq<Value>, Error>(
                s.values(),
            ) && s.spec_dtype() == to && es@[0].spec_name() == Some(s.spec_name()),
            Err(e) => series_join(payload_contents(es@), es@.len() as int, to) == Err::<
                Seq<Value>,
                Error,
            >(e),
        },
{
    let n = es.len();
    let ghost cs = payload_contents(es@);
    let name = match &es[0] {
        Payload::Series(s) => s.name().to_owned(),
        _ => String::new(),
    };
    let mut out: Vec<crate::scalar::Scalar> = Vec::new();
    assert(crate::scalar::values_of(out@) =~= Seq::<Value>::empty());
    let mut k: usize = 0;
    while k < n
        invariant
            k <= n,
            n == es@.len(),
            cs == payload_contents(es@),
            series_join(cs, k as int, to) == Ok::<Seq<Value>, Error>(
                crate::scalar::values_of(out@),
            ),
            all_of(crate::scalar::values_of(out@), to),
        decreases n - k,
    {
        assert(cs[k as int] == es@[k as int].content());
        let items = match &es[k] {
            Payload::Series(s) => crate::vec::copy_items(s.as_slice()),
            _ => {
                proof {
                    assert(series_join(cs, k + 1, to) == Err::<Seq<Value>, Error>(
                        Error::UnsupportedOperation,
                    ));
                    lemma_series_join_fails(cs, k + 1, n as int, to);
                }
                return Err(Error::UnsupportedOperation);
            },
        };
        let ghost vals = crate::scalar::values_of(items@);
        match crate::cast::cast_items(items, to) {
            Ok(mut v) => {
                proof {
                    lemma_cast_seq_lands(vals, to);
                    crate::scalar::lemma_values_of(v@);
                    crate::scalar::lemma_values_of(out@);
                    crate::scalar::lemma_values_of(out@ + v@);
                    assert(crate::scalar::values_of(out@ + v@) =~= crate::scalar::values_of(out@)
                        + cast_seq(vals, to));
                }
                out.append(&mut v);
            },
            Err(e) => {
                proof {
                    assert(series_join(cs, k + 1, to) == Err::<Seq<Value>, Error>(e));
                    lemma_series_join_fails(cs, k + 1, n as int, to);
                }
                return Err(e);
            },
        }
        k += 1;
    }
    Ok(Series::from_window(name.as_str(), to, out.as_slice()))
}

/// The payloads as arrays of element type `to`: what `array_parts` says.
fn arrays_of<'a>(es: Vec<Payload<'a>>, to: DataType) -> (r: Result<Vec<ArbArray<'a>>, Error>)
    ensures
        match r {
            Ok(arrs) => array_parts(payload_contents(es@), es@.len() as int, to) == Ok::<
                (Seq<Seq<usize>>, Seq<Seq<Value>>),
                Error,
            >((crate::bridge::shapes_of(arrs@), crate::bridge::values_in(arrs@))) && arrs@.len()
                == es@.len() && forall|i: int|
                0 <= i < arrs@.len() ==> all_of(#[trigger] crate::bridge::nd_values(arrs@[i]), to),
            Err(e) => array_parts(payload_contents(es@), es@.len() as int, to) == Err::<
                (Seq<Seq<usize>>, Seq<Seq<Value>>),
                Error,
            >(e),
        },
{
    let n = es.len();
    let ghost cs = payload_contents(es@);
    let mut rest = reversed(es);
    let mut arrs: Vec<ArbArray<'a>> = Vec::new();
    assert(crate::bridge::shapes_of(arrs@) =~= Seq::<Seq<usize>>::empty());
    assert(crate::bridge::values_in(arrs@) =~= Seq::<Seq<Value>>::empty());
    let mut k: usize = 0;
    while k < n
        invariant
            k <= n,
            n == es@.len(),
            cs == payload_contents(es@),
            rest@.len() == n - k,
            arrs@.len() == k,
            forall|i: int| 0 <= i < rest@.len() ==> #[trigger] rest@[i] == es@[n - 1 - i],
            array_parts(cs, k as int, to) == Ok::<(Seq<Seq<usize>>, Seq<Seq<Value>>), Error>(
                (crate::bridge::shapes_of(arrs@), crate::bridge::values_in(arrs@)),
            ),
            forall|i: int|
                0 <= i < arrs@.len() ==> all_of(#[trigger] crate::bridge::nd_values(arrs@[i]), to),
        decreases n - k,
    {
        let d = rest.pop().unwrap();
        assert(d == es@[k as int]);
        assert(cs[k as int] == d.content());
        let ghost vals = d.values();
        let a = match d.into_array() {
            Ok(a) => a,
            Err(e) => {
                proof {
                    assert(array_parts(cs, k + 1, to) == Err::<
                        (Seq<Seq<usize>>, Seq<Seq<Value>>),
                        Error,
                    >(e));
                    lemma_array_parts_fails(cs, k + 1, n as int, to);
                }
                return Err(e);
            },
        };
        match a.cast_into(to) {
            Ok(c) => {
                let ghost before = arrs@;
                let arb = c.into_arr();
                arrs.push(arb);
                proof {
                    assert(crate::bridge::shapes_of(arrs@) =~= crate::bridge::shapes_of(
                        before,
                    ).push(array_shape(cs[k as int])));
                    assert(crate::bridge::values_in(arrs@) =~= crate::bridge::values_in(
                        before,
                    ).push(cast_seq(vals, to)));
                    assert forall|i: int| 0 <= i < arrs@.len() implies all_of(
                        #[trigger] crate::bridge::nd_values(arrs@[i]),
                        to,
                    ) by {
                        if i < before.len() {
                            assert(arrs@[i] == before[i]);
                        }
                    }
                }
            },
            Err(e) => {
                proof {
                    assert(array_parts(cs, k + 1, to) == Err::<
                        (Seq<Seq<usize>>, Seq<Seq<Value>>),
                        Error,
                    >(e));
                    lemma_array_parts_fails(cs, k + 1, n as int, to);
                }
                return Err(e);
            },
        }
        k += 1;
    }
    Ok(arrs)
}

/// Whether arrays may be handed to the join along `axis`: they have the
/// same number of axes, `axis` is one of them, and their lengths along it
/// add up within the machine's range.
fn may_join(arrs: &Vec<ArbArray<'_>>, axis: usize) -> (r: bool)
    requires
        arrs@.len() >= 1,
    ensures
        r == (same_rank(crate::bridge::shapes_of(arrs@)) && axis < crate::bridge::shapes_of(
            arrs@,
        )[0].len() && axis_total(
            crate::bridge::shapes_of(arrs@),
            axis as int,
            arrs@.len() as int,
        ) <= usize::MAX),
        r ==> forall|j: int|
            0 <= j < arrs@.len() ==> (#[trigger] crate::bridge::values_in(arrs@)[j]).len()
                == shape_size(crate::bridge::shapes_of(arrs@)[j]),
{
    let ghost shapes = crate::bridge::shapes_of(arrs@);
    let rank = crate::bridge::nd_ndim(&arrs[0]);
    if axis >= rank {
        return false;
    }
    let mut total: usize = 0;
    let mut i: usize = 0;
    while i < arrs.len()
        invariant
            i <= arrs@.len(),
            shapes == crate::bridge::shapes_of(arrs@),
            rank == shapes[0].len(),
            axis < rank,
            forall|j: int| 0 <= j < i ==> (#[trigger] shapes[j]).len() == rank,
            forall|j: int|
                0 <= j < i ==> (#[trigger] crate::bridge::values_in(arrs@)[j]).len() == shape_size(
                    shapes[j],
                ),
            total == axis_total(shapes, axis as int, i as int),
        decreases arrs.len() - i,
    {
        let dims = crate::bridge::nd_shape_vec(&arrs[i]);
        assert(dims@ == shapes[i as int]);
        if dims.len() != rank {
            return false;
        }
        match total.checked_add(dims[axis]) {
            Some(t) => {
                total = t;
            },
            None => {
                proof {
                    lemma_axis_total_grows(shapes, axis as int, i + 1, arrs@.len() as int);
                }
                return false;
            },
        }
        i += 1;
    }
    true
}

/// The lengths along an axis only add up.
proof fn lemma_axis_total_grows(shapes: Seq<Seq<usize>>, axis: int, k: int, n: int)
    requires
        0 <= k <= n,
    ensures
        axis_total(shapes, axis, k) <= axis_total(shapes, axis, n),
    decreases n - k,
{
    if k < n {
        lemma_axis_total_grows(shapes, axis, k, n - 1);
    }
}

/// Joins payloads end to end; see [`sem_concat`] for what that means. A
/// column that comes out carries the name of the first part.
pub fn join<'a>(ps: Vec<Payload<'a>>, axis: Option<usize>, backend: Backend) -> (r: Result<
    Payload<'a>,
    Error,
>)
    ensures
        exactly(r, sem_concat(payload_contents(ps@), axis, backend)),
        ps@.len() <= 1 ==> r is Ok,
        ps@.len() >= 1 && ps@[0] is Series ==> (r matches Ok(p) ==> p.spec_name()
            == ps@[0].spec_name()),
{
    let n = ps.len();
    if n == 0 {
        return Ok(Payload::Vec(DynVec::default()));
    }
    if n == 1 {
        let mut ps = ps;
        let ghost before = ps@;
        let p = ps.pop().unwrap();
        assert(p == before[0]);
        return Ok(p);
    }
    let to = ps[0].dtype();
    let ghost cs = payload_contents(ps@);
    assert(cs[0] == ps@[0].content());
    if let Payload::Series(_) = &ps[0] {
        ps[0].typed();
        match join_series(ps, to) {
            Ok(s) => Ok(Payload::Series(std::sync::Arc::new(s))),
            Err(e) => Err(e),
        }
    } else if ps[0].ndim() <= 1 {
        match join_flat(ps, to) {
            Ok(v) => Payload::flat(v, backend),
            Err(e) => Err(e),
        }
    } else {
        let along = match axis {
            Some(a) => a,
            None => 0,
        };
        match arrays_of(ps, to) {
            Err(e) => Err(e),
            Ok(arrs) => {
                if !may_join(&arrs, along) {
                    return Err(Error::ShapeMismatch);
                }
                match nd_concat(along, &arrs) {
                    Some(joined) => {
                        proof {
                            let parts = crate::bridge::values_in(arrs@);
                            assert forall|p: int| 0 <= p < parts.len() implies all_of(
                                #[trigger] parts[p],
                                to,
                            ) by {
                                assert(all_of(crate::bridge::nd_values(arrs@[p]), to));
                            }
                            lemma_joined_typed(
                                along as int,
                                crate::bridge::shapes_of(arrs@),
                                parts,
                                to,
                            );
                        }
                        Ok(Payload::Array(DynArray::from_parts(to, joined)))
                    },
                    None => Err(Error::ShapeMismatch),
                }
            },
        }
    }
}

/// Takes the payload out of every handle, in order. A shared handle to a
/// lazy iterator gives `SharedOwnership`.
pub fn detach_all<'a>(es: Vec<Data<'a>>) -> (r: Result<Vec<Payload<'a>>, Error>)
    ensures
        match r {
            Ok(ps) => payload_contents(ps@) == contents(es@) && ps@.len() == es@.len() && forall|
                i: int,
            |
                0 <= i < ps@.len() ==> (#[trigger] ps@[i]).spec_name() == es@[i].spec_name(),
            Err(e) => e == Error::SharedOwnership && any_iterator(es@),
        },
{
    let n = es.len();
    let mut rest = reversed(es);
    let mut out: Vec<Payload<'a>> = Vec::with_capacity(n);
    let mut k: usize = 0;
    while k < n
        invariant
            k <= n,
            n == es@.len(),
            rest@.len() == n - k,
            out@.len() == k,
            forall|i: int| 0 <= i < rest@.len() ==> #[trigger] rest@[i] == es@[n - 1 - i],
            forall|i: int|
                0 <= i < k ==> (#[trigger] out@[i]).content() == es@[i].content() && out@[i].spec_name()
                    == es@[i].spec_name(),
        decreases n - k,
    {
        let d = rest.pop().unwrap();
        assert(d == es@[k as int]);
        match d.detach() {
            Ok(p) => {
                out.push(p);
            },
            Err(e) => {
                return Err(e);
            },
        }
        k += 1;
    }
    assert(payload_contents(out@) =~= contents(es@));
    Ok(out)
}

/// Joins the payloads of handles end to end; see [`sem_concat`] for what that
/// means. The result is exactly that unless one of several handles holds a
/// lazy iterator, which only its one owner may run: a shared one gives
/// `SharedOwnership`.
pub fn concat<'a>(es: Vec<Data<'a>>, axis: Option<usize>, backend: Backend) -> (r: Result<
    Data<'a>,
    Error,
>)
    ensures
        agrees(r, sem_concat(contents(es@), axis, backend)),
        es@.len() <= 1 || !any_iterator(es@) ==> exact(r, sem_concat(contents(es@), axis, backend)),
        es@.len() <= 1 ==> r is Ok,
{
    let n = es.len();
    if n == 0 {
        return Ok(Data::default());
    }
    if n == 1 {
        let mut es = es;
        let ghost before = es@;
        let d = es.pop().unwrap();
        assert(d == before[0]);
        return Ok(d);
    }
    match detach_all(es) {
        Ok(ps) => match join(ps, axis, backend) {
            Ok(p) => Ok(p.into_data()),
            Err(e) => Err(e),
        },
        Err(e) => Err(e),
    }
}

} // verus!
