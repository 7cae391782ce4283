//! Shifting an array of any number of axes along one of them.
use vstd::arithmetic::div_mod::lemma_fundamental_div_mod;
use vstd::prelude::*;

use crate::array::shape_size;
use crate::array::DynArray;
use crate::bridge::nd_from_shape_vec;
use crate::dtype::GetDtype;
use crate::error::Error;
use crate::scalar::lemma_values_of;
use crate::scalar::values_of;
use crate::scalar::Scalar;
use crate::scalar::Value;

verus! {

/// How far apart in logical order two elements lie that are neighbours
/// along `axis`: the product of the lengths of the axes behind it.
pub open spec fn axis_stride(shape: Seq<usize>, axis: int) -> nat {
    shape_size(shape.subrange(axis + 1, shape.len() as int))
}

/// The values of an array of shape `shape`, moved `n` places to the back
/// along `axis`, or `-n` places to the front where `n` is negative, with
/// `fill` in the places left free. The element at position `p` along the
/// axis comes from position `p - n` of the same lane.
pub open spec fn shift_along(
    values: Seq<Value>,
    shape: Seq<usize>,
    axis: int,
    n: int,
    fill: Value,
) -> Seq<Value> {
    let stride = axis_stride(shape, axis) as int;
    let len = shape[axis] as int;
    Seq::new(
        values.len(),
        |i: int|
            {
                let p = (i / stride) % len;
                if 0 <= p - n < len {
                    values[i - n * stride]
                } else {
                    fill
                }
            },
    )
}

/// The size of two shapes put together is the product of their sizes.
proof fn lemma_size_concat(a: Seq<usize>, b: Seq<usize>)
    ensures
        shape_size(a + b) == shape_size(a) * shape_size(b),
    decreases b.len(),
{
    if b.len() == 0 {
        assert(a + b =~= a);
        assert(shape_size(b) == 1);
    } else {
        assert((a + b).drop_last() =~= a + b.drop_last());
        assert((a + b).last() == b.last());
        lemma_size_concat(a, b.drop_last());
        let x = shape_size(a);
        let y = shape_size(b.drop_last());
        let z = b.last() as nat;
        assert(shape_size(a + b) == shape_size(a + b.drop_last()) * z);
        assert(shape_size(b) == y * z);
        assert((x * y) * z == x * (y * z)) by (nonlinear_arith);
    }
}

/// The size of a shape is the product of the sizes before an axis, the
/// length of the axis, and the stride of the axis.
pub proof fn lemma_size_split(shape: Seq<usize>, axis: int)
    requires
        0 <= axis < shape.len(),
    ensures
        shape_size(shape) == shape_size(shape.take(axis)) * (shape[axis] as nat) * axis_stride(
            shape,
            axis,
        ),
{
    let head = shape.take(axis);
    let one = seq![shape[axis]];
    let tail = shape.subrange(axis + 1, shape.len() as int);
    assert(shape =~= (head + one) + tail);
    lemma_size_concat(head + one, tail);
    lemma_size_concat(head, one);
    assert(one.drop_last() =~= Seq::<usize>::empty());
    assert(shape_size(one) == shape[axis] as nat) by {
        assert(shape_size(one.drop_last()) == 1);
        assert(one.last() == shape[axis]);
    }
}

/// In a shape that holds something, the product of the lengths from behind
/// `axis` up to `k` does not exceed the size of the shape.
proof fn lemma_partial_stride(shape: Seq<usize>, axis: int, k: int)
    requires
        0 <= axis < k <= shape.len(),
        shape_size(shape) > 0,
    ensures
        shape_size(shape.subrange(axis + 1, k)) <= shape_size(shape),
        shape_size(shape.subrange(axis + 1, k)) >= 1,
{
    let head = shape.take(axis + 1);
    let mid = shape.subrange(axis + 1, k);
    let tail = shape.subrange(k, shape.len() as int);
    assert(shape =~= (head + mid) + tail);
    lemma_size_concat(head + mid, tail);
    lemma_size_concat(head, mid);
    let h = shape_size(head);
    let m = shape_size(mid);
    let t = shape_size(tail);
    assert(h * m * t > 0 ==> m >= 1 && m <= h * m * t) by (nonlinear_arith);
}

/// Where in logical order the source of a shifted element lies. With `s` the
/// stride of the axis, `l` its length and `o * l * s` elements in all, the
/// element at `i` stands at position `p` of its lane; a source `m` places
/// before it exists where `p >= m`, one `m` places behind it where
/// `p + m < l`, and both lie within the array.
proof fn lemma_source(i: int, s: int, l: int, o: int, m: int)
    requires
        s >= 1,
        l >= 1,
        o >= 0,
        0 <= i < o * l * s,
        m >= 0,
    ensures
        0 <= (i / s) % l < l,
        (i / s) % l >= m ==> 0 <= i - m * s < o * l * s,
        (i / s) % l + m < l ==> 0 <= i + m * s < o * l * s,
{
    let q = i / s;
    let r = i % s;
    lemma_fundamental_div_mod(i, s);
    assert(0 <= r < s);
    assert(q >= 0) by (nonlinear_arith)
        requires
            i == s * q + r,
            0 <= r < s,
            s >= 1,
            i >= 0,
    ;
    assert(q < o * l) by (nonlinear_arith)
        requires
            i == s * q + r,
            0 <= r < s,
            s >= 1,
            i < o * l * s,
    ;
    let p = q % l;
    let w = q / l;
    lemma_fundamental_div_mod(q, l);
    assert(0 <= p < l);
    assert(w < o) by (nonlinear_arith)
        requires
            q == l * w + p,
            0 <= p < l,
            l >= 1,
            q < o * l,
    ;
    if p >= m {
        assert(0 <= i - m * s) by (nonlinear_arith)
            requires
                i == s * q + r,
                0 <= r,
                s >= 1,
                q == l * w + p,
                p >= m,
                m >= 0,
                w * l >= 0,
        ;
        assert(w * l >= 0) by (nonlinear_arith)
            requires
                q == l * w + p,
                q >= 0,
                0 <= p < l,
                l >= 1,
        ;
        assert(m * s >= 0) by (nonlinear_arith)
            requires
                m >= 0,
                s >= 1,
        ;
    }
    if p + m < l {
        assert(i + m * s < o * l * s) by (nonlinear_arith)
            requires
                i == s * q + r,
                0 <= r < s,
                s >= 1,
                q == l * w + p,
                p + m < l,
                w < o,
                l >= 1,
        ;
        assert(m * s >= 0) by (nonlinear_arith)
            requires
                m >= 0,
                s >= 1,
        ;
    }
}

impl<'a> DynArray<'a> {
    /// The array shifted `n` places to the back along `axis`, or `-n`
    /// places to the front where `n` is negative, with `fill` in the places
    /// left free; the shape stays. `TypeMismatch` where `fill` is not of the
    /// element type of the array, `ShapeMismatch` where the array has no
    /// such axis.
    pub fn shift_axis(self, axis: usize, n: i32, fill: Scalar) -> (r: Result<DynArray<'a>, Error>)
        ensures
            match r {
                Ok(a) => fill@.dtype() == self.spec_dtype() && axis < self.shape().len()
                    && a.values() == shift_along(
                    self.values(),
                    self.shape(),
                    axis as int,
                    n as int,
                    fill@,
                ) && a.shape() == self.shape() && a.spec_dtype() == self.spec_dtype(),
                Err(e) => if fill@.dtype() != self.spec_dtype() {
                    e == Error::TypeMismatch
                } else {
                    axis >= self.shape().len() && e == Error::ShapeMismatch
                },
            },
    {
        if fill.dtype() != self.dtype() {
            return Err(Error::TypeMismatch);
        }
        let dims = self.dims();
        if axis >= dims.len() {
            return Err(Error::ShapeMismatch);
        }
        let total = self.len();
        let ghost shape = self.shape();
        let ghost values = self.values();
        let ghost meant = shift_along(values, shape, axis as int, n as int, fill@);
        if total == 0 {
            assert(meant =~= values);
            return Ok(self);
        }
        let mut stride: usize = 1;
        let mut k: usize = axis + 1;
        assert(shape.subrange(axis + 1, axis + 1) =~= Seq::<usize>::empty());
        while k < dims.len()
            invariant
                axis < k <= dims@.len(),
                dims@ == shape,
                shape_size(shape) == total,
                total > 0,
                stride == shape_size(shape.subrange(axis + 1, k as int)),
            decreases dims.len() - k,
        {
            proof {
                lemma_partial_stride(shape, axis as int, k + 1);
                assert(shape.subrange(axis + 1, k + 1).drop_last() =~= shape.subrange(
                    axis + 1,
                    k as int,
                ));
            }
            stride = stride * dims[k];
            k += 1;
        }
        let lane = dims[axis];
        let ghost outer = shape_size(shape.take(axis as int)) as int;
        proof {
            lemma_size_split(shape, axis as int);
            lemma_partial_stride(shape, axis as int, shape.len() as int);
            assert(total == outer * (lane as int) * (stride as int));
            assert(lane >= 1) by (nonlinear_arith)
                requires
                    total == outer * (lane as int) * (stride as int),
                    total > 0,
                    lane >= 0,
            ;
        }
        let wide: i64 = n as i64;
        let back = wide >= 0;
        let m: usize = if back {
            wide as usize
        } else {
            (-wide) as usize
        };
        let dtype = self.dtype();
        let (_, items) = self.into_parts();
        proof {
            lemma_values_of(items@);
            assert forall|j: int| 0 <= j < total implies (#[trigger] items@[j])@.dtype()
                == dtype by {
                assert(values[j].dtype() == dtype);
            }
        }
        let mut out: Vec<Scalar> = Vec::with_capacity(total);
        let mut i: usize = 0;
        while i < total
            invariant
                i <= total,
                axis < shape.len(),
                total == items@.len(),
                total == outer * (lane as int) * (stride as int),
                outer >= 0,
                lane >= 1,
                stride >= 1,
                stride == axis_stride(shape, axis as int),
                lane == shape[axis as int],
                values == values_of(items@),
                values.len() == total,
                forall|j: int| 0 <= j < total ==> #[trigger] values[j] == items@[j]@,
                forall|j: int| 0 <= j < total ==> (#[trigger] items@[j])@.dtype() == dtype,
                fill@.dtype() == dtype,
                m == if n >= 0 {
                    n as int
                } else {
                    -(n as int)
                },
                back == (n >= 0),
                meant == shift_along(values, shape, axis as int, n as int, fill@),
                out@.len() == i,
                forall|j: int| 0 <= j < i ==> (#[trigger] out@[j])@ == meant[j],
                forall|j: int| 0 <= j < i ==> (#[trigger] out@[j])@.dtype() == dtype,
            decreases total - i,
        {
            proof {
                lemma_source(i as int, stride as int, lane as int, outer, m as int);
            }
            let p = (i / stride) % lane;
            assert(meant[i as int] == if 0 <= p - n < lane {
                values[i - n * stride]
            } else {
                fill@
            });
            let item = if back {
                if p >= m {
                    assert(m * stride <= i) by (nonlinear_arith)
                        requires
                            0 <= (i as int) - (m as int) * (stride as int),
                    ;
                    assert((m as int) * (stride as int) == (n as int) * (stride as int));
                    assert(values[i - n * stride] == items@[i - m * stride]@);
                    items[i - m * stride].clone_inner()
                } else {
                    fill.clone_inner()
                }
            } else {
                if m < lane - p {
                    assert(i + m * stride < total) by (nonlinear_arith)
                        requires
                            (i as int) + (m as int) * (stride as int) < total,
                    ;
                    assert((m as int) * (stride as int) == -((n as int) * (stride as int)))
                        by (nonlinear_arith)
                        requires
                            m as int == -(n as int),
                    ;
                    assert(values[i - n * stride] == items@[i + m * stride]@);
                    items[i + m * stride].clone_inner()
                } else {
                    fill.clone_inner()
                }
            };
            out.push(item);
            i += 1;
        }
        proof {
            lemma_values_of(out@);
            assert(values_of(out@) =~= meant);
        }
        match nd_from_shape_vec(&dims, out) {
            Some(arr) => Ok(DynArray::from_parts(dtype, arr)),
            None => {
                proof {
                    assert(false);
                }
                Err(Error::ShapeMismatch)
            },
        }
    }
}

} // verus!
