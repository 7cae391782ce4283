//! The numeric kernels that the nodes of an expression dispatch to: the sum,
//! the absolute value and the shift. The arithmetic on integers is
//! `tevec`'s; what stands here is the choice of kernel by element type and
//! the conditions under which a kernel may run. The absolute value of a
//! float is taken on its bit pattern, by clearing the sign.
use vstd::prelude::*;

use crate::bridge::iter_from_vec;
use crate::bridge::iter_shift;
use crate::bridge::num_abs;
use crate::bridge::tv_vsum;
use crate::cast::cast_value;
use crate::cast::lemma_cast_lands;
use crate::dtype::DataType;
use crate::dtype::GetDtype;
use crate::element::Dtype;
use crate::error::Error;
use crate::scalar::lemma_values_of;
use crate::scalar::values_of;
use crate::scalar::Scalar;
use crate::scalar::Value;
use crate::series::nan32;
use crate::series::nan64;
use crate::trust_iter::DynTrustIter;

verus! {

/// The plain integer type under an element type that the numeric kernels
/// are defined for: the type itself for a plain one, the type of the present
/// values for an optional one. `None` for every other element type.
pub open spec fn number_type(dtype: DataType) -> Option<DataType> {
    match dtype {
        DataType::I32 | DataType::OptI32 => Some(DataType::I32),
        DataType::I64 | DataType::OptI64 => Some(DataType::I64),
        DataType::U64 => Some(DataType::U64),
        DataType::Usize | DataType::OptUsize => Some(DataType::Usize),
        _ => None,
    }
}

/// Whether the integer `x` is in the range of the plain integer type `t`.
pub open spec fn fits_type(t: DataType, x: int) -> bool {
    match t {
        DataType::I32 => i32::MIN <= x <= i32::MAX,
        DataType::I64 => i64::MIN <= x <= i64::MAX,
        DataType::U64 => 0 <= x <= u64::MAX,
        DataType::Usize => 0 <= x <= usize::MAX,
        _ => false,
    }
}

/// The element of the plain integer type `t` that holds `x`.
pub open spec fn int_value(t: DataType, x: int) -> Value {
    match t {
        DataType::I32 => Value::I32(x as i32),
        DataType::U64 => Value::U64(x as u64),
        DataType::Usize => Value::Usize(x as usize),
        _ => Value::I64(x as i64),
    }
}

/// The number that an element of a kernel type holds, `None` for an absent
/// optional and for every other element.
pub open spec fn int_of(v: Value) -> Option<int> {
    match v {
        Value::I32(x) => Some(x as int),
        Value::I64(x) => Some(x as int),
        Value::U64(x) => Some(x as int),
        Value::Usize(x) => Some(x as int),
        Value::OptI32(Some(x)) => Some(x as int),
        Value::OptI64(Some(x)) => Some(x as int),
        Value::OptUsize(Some(x)) => Some(x as int),
        _ => None,
    }
}

/// The sum of the numbers among the first `k` values of `s`.
pub open spec fn sum_upto(s: Seq<Value>, k: int) -> int
    decreases k,
{
    if k <= 0 {
        0
    } else {
        sum_upto(s, k - 1) + match int_of(s[k - 1]) {
            Some(x) => x,
            None => 0,
        }
    }
}

/// Adding the values of `s` from the left never leaves the range of the
/// plain integer type `t`.
pub open spec fn sum_fits(s: Seq<Value>, t: DataType) -> bool {
    forall|k: int| 0 <= k <= s.len() ==> fits_type(t, #[trigger] sum_upto(s, k))
}

/// The sum of the first `k` of the typed integers `s`.
pub open spec fn typed_sum<T: IntElem>(s: Seq<T>, k: int) -> int
    decreases k,
{
    if k <= 0 {
        0
    } else {
        typed_sum(s, k - 1) + s[k - 1].num()
    }
}

/// The sequence `s` moved `n` places to the back, or `-n` places to the
/// front where `n` is negative, with `fill` in the places left free.
pub open spec fn shift_values(s: Seq<Value>, n: int, fill: Value) -> Seq<Value> {
    Seq::new(
        s.len(),
        |i: int|
            if 0 <= i - n < s.len() {
                s[i - n]
            } else {
                fill
            },
    )
}

/// A plain integer element type that the numeric kernels run on.
pub trait IntElem: Dtype + Copy {
    /// The number held.
    spec fn num(self) -> int;

    /// Whether `x` is in the range of the type.
    spec fn fits(x: int) -> bool;

    /// The element that holds `x`.
    spec fn make(x: int) -> Self;

    /// The type is a kernel type, and its elements and numbers go together.
    proof fn lemma_kernel_type(x: int)
        ensures
            number_type(Self::spec_type()) == Some(Self::spec_type()),
            Self::fits(x) == fits_type(Self::spec_type(), x),
            Self::fits(x) ==> Self::make(x).value() == int_value(Self::spec_type(), x),
            Self::fits(x) ==> Self::make(x).num() == x,
    ;

    /// The number held, widened.
    fn widen(self) -> (r: i128)
        ensures
            r == self.num(),
            Self::fits(self.num()),
    ;

    /// Whether `x` is in the range of the type.
    fn in_range(x: i128) -> (r: bool)
        ensures
            r == Self::fits(x as int),
    ;

    /// The present number that a scalar of this type, or of its optional
    /// type, holds.
    fn read(s: &Scalar) -> (r: Option<Self>)
        ensures
            number_type(s@.dtype()) == Some(Self::spec_type()) ==> match r {
                Some(x) => int_of(s@) == Some(x.num()),
                None => int_of(s@) is None,
            },
    ;

    /// The element that holds 0.
    fn zero() -> (r: Self)
        ensures
            r.value() == int_value(Self::spec_type(), 0),
    ;
}

impl IntElem for i32 {
    open spec fn num(self) -> int {
        self as int
    }

    open spec fn fits(x: int) -> bool {
        i32::MIN <= x <= i32::MAX
    }

    open spec fn make(x: int) -> i32 {
        x as i32
    }

    proof fn lemma_kernel_type(x: int) {
    }

    fn widen(self) -> (r: i128) {
        self as i128
    }

    fn in_range(x: i128) -> (r: bool) {
        -2147483648 <= x && x <= 2147483647
    }

    fn read(s: &Scalar) -> (r: Option<Self>) {
        match s {
            Scalar::I32(x) => Some(*x),
            Scalar::OptI32(Some(x)) => Some(*x),
            _ => None,
        }
    }

    fn zero() -> (r: Self) {
        0
    }
}

impl IntElem for i64 {
    open spec fn num(self) -> int {
        self as int
    }

    open spec fn fits(x: int) -> bool {
        i64::MIN <= x <= i64::MAX
    }

    open spec fn make(x: int) -> i64 {
        x as i64
    }

    proof fn lemma_kernel_type(x: int) {
    }

    fn widen(self) -> (r: i128) {
        self as i128
    }

    fn in_range(x: i128) -> (r: bool) {
        -9223372036854775808 <= x && x <= 9223372036854775807
    }

    fn read(s: &Scalar) -> (r: Option<Self>) {
        match s {
            Scalar::I64(x) => Some(*x),
            Scalar::OptI64(Some(x)) => Some(*x),
            _ => None,
        }
    }

    fn zero() -> (r: Self) {
        0
    }
}

impl IntElem for u64 {
    open spec fn num(self) -> int {
        self as int
    }

    open spec fn fits(x: int) -> bool {
        0 <= x <= u64::MAX
    }

    open spec fn make(x: int) -> u64 {
        x as u64
    }

    proof fn lemma_kernel_type(x: int) {
    }

    fn widen(self) -> (r: i128) {
        self as i128
    }

    fn in_range(x: i128) -> (r: bool) {
        0 <= x && x <= 18446744073709551615
    }

    fn read(s: &Scalar) -> (r: Option<Self>) {
        match s {
            Scalar::U64(x) => Some(*x),
            _ => None,
        }
    }

    fn zero() -> (r: Self) {
        0
    }
}

impl IntElem for usize {
    open spec fn num(self) -> int {
        self as int
    }

    open spec fn fits(x: int) -> bool {
        0 <= x <= usize::MAX
    }

    open spec fn make(x: int) -> usize {
        x as usize
    }

    proof fn lemma_kernel_type(x: int) {
    }

    fn widen(self) -> (r: i128) {
        self as i128
    }

    fn in_range(x: i128) -> (r: bool) {
        0 <= x && x <= usize::MAX as i128
    }

    fn read(s: &Scalar) -> (r: Option<Self>) {
        match s {
            Scalar::Usize(x) => Some(*x),
            Scalar::OptUsize(Some(x)) => Some(*x),
            _ => None,
        }
    }

    fn zero() -> (r: Self) {
        0
    }
}

/// The present numbers of `items`, in order, provided that adding them from
/// the left never leaves the range of `T`; `Overflow` where it does.
fn gather<T: IntElem>(items: &[Scalar]) -> (r: Result<Vec<T>, Error>)
    requires
        forall|i: int|
            0 <= i < items@.len() ==> number_type((#[trigger] items@[i])@.dtype()) == Some(
                T::spec_type(),
            ),
    ensures
        match r {
            Ok(v) => {
                &&& sum_fits(values_of(items@), T::spec_type())
                &&& typed_sum(v@, v@.len() as int) == sum_upto(
                    values_of(items@),
                    items@.len() as int,
                )
                &&& forall|k: int| 0 <= k <= v@.len() ==> T::fits(#[trigger] typed_sum(v@, k))
            },
            Err(e) => !sum_fits(values_of(items@), T::spec_type()) && e == Error::Overflow,
        },
{
    let ghost vals = values_of(items@);
    proof {
        lemma_values_of(items@);
        T::lemma_kernel_type(0);
    }
    let mut out: Vec<T> = Vec::new();
    let mut acc: i128 = 0;
    let mut i: usize = 0;
    while i < items.len()
        invariant
            i <= items.len(),
            vals == values_of(items@),
            vals.len() == items@.len(),
            forall|k: int| 0 <= k < items@.len() ==> #[trigger] vals[k] == items@[k]@,
            forall|k: int|
                0 <= k < items@.len() ==> number_type((#[trigger] items@[k])@.dtype()) == Some(
                    T::spec_type(),
                ),
            acc == sum_upto(vals, i as int),
            acc == typed_sum(out@, out@.len() as int),
            T::fits(acc as int),
            forall|k: int| 0 <= k <= i ==> fits_type(T::spec_type(), #[trigger] sum_upto(vals, k)),
            forall|k: int| 0 <= k <= out@.len() ==> T::fits(#[trigger] typed_sum(out@, k)),
        decreases items.len() - i,
    {
        match T::read(&items[i]) {
            Some(x) => {
                let w = x.widen();
                proof {
                    T::lemma_kernel_type(w as int);
                    T::lemma_kernel_type(acc as int);
                    T::lemma_kernel_type(acc + w);
                }
                let next = acc + w;
                if !T::in_range(next) {
                    assert(sum_upto(vals, i + 1) == next);
                    assert(!sum_fits(vals, T::spec_type()));
                    return Err(Error::Overflow);
                }
                let ghost before = out@;
                out.push(x);
                proof {
                    assert(sum_upto(vals, i + 1) == next);
                    lemma_typed_sum_push(before, x, before.len() as int);
                    assert forall|k: int| 0 <= k <= out@.len() implies T::fits(
                        #[trigger] typed_sum(out@, k),
                    ) by {
                        if k <= before.len() {
                            lemma_typed_sum_push(before, x, k);
                        }
                    }
                }
                acc = next;
            },
            None => {
                assert(sum_upto(vals, i + 1) == acc);
            },
        }
        proof {
            T::lemma_kernel_type(acc as int);
        }
        i += 1;
    }
    Ok(out)
}

/// A sum over the first elements of a sequence is not changed by an element
/// pushed behind them.
proof fn lemma_typed_sum_push<T: IntElem>(s: Seq<T>, x: T, k: int)
    requires
        0 <= k <= s.len(),
    ensures
        typed_sum(s.push(x), k) == typed_sum(s, k),
        k == s.len() ==> typed_sum(s.push(x), k + 1) == typed_sum(s, k) + x.num(),
    decreases k,
{
    if k > 0 {
        lemma_typed_sum_push(s, x, k - 1);
        assert(s.push(x)[k - 1] == s[k - 1]);
    }
    if k == s.len() {
        assert(s.push(x)[k] == x);
    }
}

/// What the sum kernel makes of the answer of the aggregation.
fn sum_scalar<T: IntElem>(answer: Option<T>) -> (r: Scalar)
    ensures
        r@ == match answer {
            Some(x) => x.value(),
            None => int_value(T::spec_type(), 0),
        },
{
    match answer {
        Some(x) => x.wrap(),
        None => T::zero().wrap(),
    }
}

/// The bits of a 32-bit float with the sign cleared.
pub open spec fn unsigned32(bits: u32) -> u32 {
    bits & 0x7fff_ffffu32
}

/// The bits of a 64-bit float with the sign cleared.
pub open spec fn unsigned64(bits: u64) -> u64 {
    bits & 0x7fff_ffff_ffff_ffffu64
}

/// The absolute value of an element of a kernel type or of a float type:
/// the number's absolute value in a plain element, the same in a present
/// optional, absent for an absent one. A float has its sign cleared; a
/// present optional float that is not a number becomes absent. `None` where
/// the absolute value of an integer does not fit its type, and for an
/// element of any other type.
pub open spec fn abs_value(v: Value) -> Option<Value> {
    match v {
        Value::F32(x) => Some(Value::F32(unsigned32(x))),
        Value::F64(x) => Some(Value::F64(unsigned64(x))),
        Value::OptF32(Some(x)) => Some(
            Value::OptF32(
                if nan32(x) {
                    None
                } else {
                    Some(unsigned32(x))
                },
            ),
        ),
        Value::OptF64(Some(x)) => Some(
            Value::OptF64(
                if nan64(x) {
                    None
                } else {
                    Some(unsigned64(x))
                },
            ),
        ),
        Value::OptF32(None) | Value::OptF64(None) => Some(v),
        Value::I32(x) => if x == i32::MIN {
            None
        } else {
            Some(Value::I32(vstd::math::abs(x as int) as i32))
        },
        Value::I64(x) => if x == i64::MIN {
            None
        } else {
            Some(Value::I64(vstd::math::abs(x as int) as i64))
        },
        Value::U64(x) => Some(v),
        Value::Usize(x) => Some(v),
        Value::OptI32(Some(x)) => if x == i32::MIN {
            None
        } else {
            Some(Value::OptI32(Some(vstd::math::abs(x as int) as i32)))
        },
        Value::OptI64(Some(x)) => if x == i64::MIN {
            None
        } else {
            Some(Value::OptI64(Some(vstd::math::abs(x as int) as i64)))
        },
        Value::OptUsize(Some(x)) => Some(v),
        Value::OptI32(None) | Value::OptI64(None) | Value::OptUsize(None) => Some(v),
        _ => None,
    }
}

/// Whether every value of `s` has an absolute value.
pub open spec fn abs_all(s: Seq<Value>) -> bool {
    forall|i: int| 0 <= i < s.len() ==> (#[trigger] abs_value(s[i])) is Some
}

/// The absolute values of the values of `s`.
pub open spec fn abs_seq(s: Seq<Value>) -> Seq<Value> {
    s.map_values(|v: Value| abs_value(v).unwrap())
}

/// The absolute value of one element.
fn abs_scalar(s: Scalar) -> (r: Option<Scalar>)
    ensures
        match r {
            Some(a) => abs_value(s@) == Some(a@) && a@.dtype() == s@.dtype(),
            None => abs_value(s@) is None,
        },
{
    match s {
        Scalar::F32(x) => Some(Scalar::F32(x & 0x7fff_ffffu32)),
        Scalar::F64(x) => Some(Scalar::F64(x & 0x7fff_ffff_ffff_ffffu64)),
        Scalar::OptF32(Some(x)) => Some(
            Scalar::OptF32(
                if x & 0x7fff_ffffu32 > 0x7f80_0000u32 {
                    None
                } else {
                    Some(x & 0x7fff_ffffu32)
                },
            ),
        ),
        Scalar::OptF64(Some(x)) => Some(
            Scalar::OptF64(
                if x & 0x7fff_ffff_ffff_ffffu64 > 0x7ff0_0000_0000_0000u64 {
                    None
                } else {
                    Some(x & 0x7fff_ffff_ffff_ffffu64)
                },
            ),
        ),
        Scalar::OptF32(None) => Some(Scalar::OptF32(None)),
        Scalar::OptF64(None) => Some(Scalar::OptF64(None)),
        Scalar::I32(x) => if x == i32::MIN {
            None
        } else {
            Some(Scalar::I32(num_abs(x)))
        },
        Scalar::I64(x) => if x == i64::MIN {
            None
        } else {
            Some(Scalar::I64(num_abs(x)))
        },
        Scalar::U64(x) => Some(Scalar::U64(num_abs(x))),
        Scalar::Usize(x) => Some(Scalar::Usize(num_abs(x))),
        Scalar::OptI32(Some(x)) => if x == i32::MIN {
            None
        } else {
            Some(Scalar::OptI32(Some(num_abs(x))))
        },
        Scalar::OptI64(Some(x)) => if x == i64::MIN {
            None
        } else {
            Some(Scalar::OptI64(Some(num_abs(x))))
        },
        Scalar::OptUsize(Some(x)) => Some(Scalar::OptUsize(Some(num_abs(x)))),
        Scalar::OptI32(None) => Some(Scalar::OptI32(None)),
        Scalar::OptI64(None) => Some(Scalar::OptI64(None)),
        Scalar::OptUsize(None) => Some(Scalar::OptUsize(None)),
        _ => None,
    }
}

/// The absolute value of every element; `None` where one has none.
pub(crate) fn abs_items(items: Vec<Scalar>) -> (r: Option<Vec<Scalar>>)
    ensures
        match r {
            Some(v) => abs_all(values_of(items@)) && values_of(v@) == abs_seq(values_of(items@))
                && forall|i: int|
                0 <= i < v@.len() ==> (#[trigger] v@[i])@.dtype() == items@[i]@.dtype(),
            None => !abs_all(values_of(items@)),
        },
{
    let ghost orig = items@;
    proof {
        lemma_values_of(items@);
    }
    let mut rest = items;
    let n = rest.len();
    // Elements are moved out from the back and put in order at the end.
    let mut rev: Vec<Scalar> = Vec::with_capacity(n);
    while rest.len() > 0
        invariant
            orig == items@,
            values_of(orig).len() == orig.len(),
            forall|k: int| 0 <= k < orig.len() ==> #[trigger] values_of(orig)[k] == orig[k]@,
            rest@.len() + rev@.len() == orig.len(),
            forall|k: int| 0 <= k < rest@.len() ==> (#[trigger] rest@[k])@ == orig[k]@,
            forall|k: int|
                0 <= k < rev@.len() ==> abs_value(orig[orig.len() - 1 - k]@) == Some(
                    (#[trigger] rev@[k])@,
                ),
            forall|k: int|
                0 <= k < rev@.len() ==> (#[trigger] rev@[k])@.dtype() == orig[orig.len() - 1
                    - k]@.dtype(),
        decreases rest.len(),
    {
        let ghost before = rest@;
        let x = rest.pop().unwrap();
        assert(x == before[before.len() - 1]);
        match abs_scalar(x) {
            Some(y) => rev.push(y),
            None => {
                let ghost at = rest@.len() as int;
                assert(abs_value(values_of(orig)[at]) is None);
                return None;
            },
        }
    }
    let mut out: Vec<Scalar> = Vec::with_capacity(n);
    while rev.len() > 0
        invariant
            out@.len() + rev@.len() == orig.len(),
            forall|k: int|
                0 <= k < rev@.len() ==> abs_value(orig[orig.len() - 1 - k]@) == Some(
                    (#[trigger] rev@[k])@,
                ),
            forall|k: int|
                0 <= k < rev@.len() ==> (#[trigger] rev@[k])@.dtype() == orig[orig.len() - 1
                    - k]@.dtype(),
            forall|k: int|
                0 <= k < out@.len() ==> abs_value(orig[k]@) == Some((#[trigger] out@[k])@),
            forall|k: int| 0 <= k < out@.len() ==> (#[trigger] out@[k])@.dtype() == orig[k]@.dtype(),
        decreases rev.len(),
    {
        let y = rev.pop().unwrap();
        out.push(y);
    }
    proof {
        lemma_values_of(orig);
        assert forall|i: int| 0 <= i < values_of(orig).len() implies (#[trigger] abs_value(
            values_of(orig)[i],
        )) is Some by {
            assert(abs_value(orig[i]@) == Some(out@[i]@));
        }
        assert(values_of(out@) =~= abs_seq(values_of(orig)));
    }
    Some(out)
}

impl DataType {
    /// A type that the absolute value without absent elements is defined
    /// for: a plain integer type with a kernel, or a plain float type.
    pub open spec fn spec_has_abs(self) -> bool {
        number_type(self) == Some(self) || self == DataType::F32 || self == DataType::F64
    }

    #[verifier::when_used_as_spec(spec_has_abs)]
    pub fn has_abs(self) -> (r: bool)
        ensures
            r == self.spec_has_abs(),
    {
        matches!(
            self,
            DataType::I32 | DataType::I64 | DataType::U64 | DataType::Usize | DataType::F32
                | DataType::F64
        )
    }

    /// A type that the absolute value with absent elements is defined for:
    /// an integer type with a kernel or a float type, plain or optional.
    pub open spec fn spec_has_vabs(self) -> bool {
        number_type(self) is Some || self.spec_is_float()
    }

    #[verifier::when_used_as_spec(spec_has_vabs)]
    pub fn has_vabs(self) -> (r: bool)
        ensures
            r == self.spec_has_vabs(),
    {
        matches!(
            self,
            DataType::I32 | DataType::I64 | DataType::U64 | DataType::Usize | DataType::OptI32
                | DataType::OptI64 | DataType::OptUsize | DataType::F32 | DataType::F64
                | DataType::OptF32 | DataType::OptF64
        )
    }

    /// The error for an element type that a numeric kernel is not defined
    /// for: the sum of floats is left to the caller, anything else is a
    /// mismatch.
    pub open spec fn no_kernel(self) -> Error {
        if self.spec_is_float() {
            Error::UnsupportedOperation
        } else {
            Error::TypeMismatch
        }
    }

    pub(crate) fn kernel_error(self) -> (r: Error)
        ensures
            r == self.no_kernel(),
    {
        if self.is_float() {
            Error::UnsupportedOperation
        } else {
            Error::TypeMismatch
        }
    }
}

impl<'a> DynTrustIter<'a> {
    /// The sum of the present numbers of the iterator, as a scalar of the
    /// plain integer type under its element type; 0 where there is none. An
    /// element type without a sum kernel gives the error of
    /// [`DataType::no_kernel`]; a sum that leaves the range of the type on
    /// the way gives `Overflow`.
    pub fn vsum(self) -> (r: Result<Scalar, Error>)
        ensures
            match r {
                Ok(x) => number_type(self.spec_dtype()) matches Some(t) && sum_fits(
                    self.values(),
                    t,
                ) && x@ == int_value(t, sum_upto(self.values(), self.values().len() as int)),
                Err(e) => match number_type(self.spec_dtype()) {
                    Some(t) => !sum_fits(self.values(), t) && e == Error::Overflow,
                    None => e == self.spec_dtype().no_kernel(),
                },
            },
    {
        let (dtype, items) = self.into_parts();
        proof {
            lemma_values_of(items@);
            assert forall|i: int| 0 <= i < items@.len() implies (#[trigger] items@[i])@.dtype()
                == dtype by {
                assert(values_of(items@)[i].dtype() == dtype);
            }
        }
        match dtype {
            DataType::I32 | DataType::OptI32 => {
                proof {
                    i32::lemma_kernel_type(sum_upto(self.values(), self.values().len() as int));
                }
                match gather::<i32>(items.as_slice()) {
                    Ok(v) => Ok(sum_scalar(tv_vsum(v))),
                    Err(e) => Err(e),
                }
            },
            DataType::I64 | DataType::OptI64 => {
                proof {
                    i64::lemma_kernel_type(sum_upto(self.values(), self.values().len() as int));
                }
                match gather::<i64>(items.as_slice()) {
                    Ok(v) => Ok(sum_scalar(tv_vsum(v))),
                    Err(e) => Err(e),
                }
            },
            DataType::U64 => {
                proof {
                    u64::lemma_kernel_type(sum_upto(self.values(), self.values().len() as int));
                }
                match gather::<u64>(items.as_slice()) {
                    Ok(v) => Ok(sum_scalar(tv_vsum(v))),
                    Err(e) => Err(e),
                }
            },
            DataType::Usize | DataType::OptUsize => {
                proof {
                    usize::lemma_kernel_type(sum_upto(self.values(), self.values().len() as int));
                }
                match gather::<usize>(items.as_slice()) {
                    Ok(v) => Ok(sum_scalar(tv_vsum(v))),
                    Err(e) => Err(e),
                }
            },
            other => Err(other.kernel_error()),
        }
    }

    /// The iterator of the absolute values, for a plain integer type with a
    /// kernel or a plain float type. Another element type gives
    /// `TypeMismatch`; an absolute value that does not fit the type gives
    /// `Overflow`.
    pub fn abs(self) -> (r: Result<Self, Error>)
        ensures
            match r {
                Ok(it) => self.spec_dtype().spec_has_abs() && abs_all(self.values())
                    && it.values() == abs_seq(self.values()) && it.spec_dtype()
                    == self.spec_dtype(),
                Err(e) => if self.spec_dtype().spec_has_abs() {
                    !abs_all(self.values()) && e == Error::Overflow
                } else {
                    e == Error::TypeMismatch
                },
            },
    {
        if !self.dtype().has_abs() {
            return Err(Error::TypeMismatch);
        }
        self.abs_of_numbers()
    }

    /// The iterator of the absolute values, for an integer type with a
    /// kernel or a float type; absent elements stay absent. Another element
    /// type gives `TypeMismatch`; an absolute value that does not fit the
    /// type gives `Overflow`.
    pub fn vabs(self) -> (r: Result<Self, Error>)
        ensures
            match r {
                Ok(it) => self.spec_dtype().spec_has_vabs() && abs_all(self.values())
                    && it.values() == abs_seq(self.values()) && it.spec_dtype()
                    == self.spec_dtype(),
                Err(e) => if self.spec_dtype().spec_has_vabs() {
                    !abs_all(self.values()) && e == Error::Overflow
                } else {
                    e == Error::TypeMismatch
                },
            },
    {
        if !self.dtype().has_vabs() {
            return Err(Error::TypeMismatch);
        }
        self.abs_of_numbers()
    }

    fn abs_of_numbers(self) -> (r: Result<Self, Error>)
        requires
            self.spec_dtype().spec_has_vabs(),
        ensures
            match r {
                Ok(it) => abs_all(self.values()) && it.values() == abs_seq(self.values())
                    && it.spec_dtype() == self.spec_dtype(),
                Err(e) => !abs_all(self.values()) && e == Error::Overflow,
            },
    {
        let (dtype, items) = self.into_parts();
        let ghost before = items@;
        match abs_items(items) {
            Some(v) => {
                proof {
                    lemma_values_of(v@);
                    lemma_values_of(before);
                    assert forall|i: int| 0 <= i < values_of(v@).len() implies (
                    #[trigger] values_of(v@)[i]).dtype() == dtype by {
                        assert(v@[i]@.dtype() == before[i]@.dtype());
                        assert(values_of(before)[i].dtype() == dtype);
                    }
                }
                let n = v.len();
                Ok(DynTrustIter::from_parts(dtype, iter_from_vec(v)))
            },
            None => Err(Error::Overflow),
        }
    }
}

/// The absent element of an optional element type, `None` for a type
/// that has none.
pub open spec fn none_value(dtype: DataType) -> Option<Value> {
    match dtype {
        DataType::OptBool => Some(Value::OptBool(None)),
        DataType::OptF32 => Some(Value::OptF32(None)),
        DataType::OptF64 => Some(Value::OptF64(None)),
        DataType::OptI32 => Some(Value::OptI32(None)),
        DataType::OptI64 => Some(Value::OptI64(None)),
        DataType::OptUsize => Some(Value::OptUsize(None)),
        _ => None,
    }
}

/// The element that a shift of a sequence of type `dtype` puts in the
/// places left free: the value given, cast to the type, or the absent
/// element of the type where no value is given.
pub open spec fn fill_value(dtype: DataType, value: Option<Value>) -> Option<Value> {
    match value {
        Some(v) => cast_value(v, dtype),
        None => none_value(dtype),
    }
}

fn absent_of(dtype: DataType) -> (r: Option<Scalar>)
    ensures
        match r {
            Some(s) => none_value(dtype) == Some(s@) && s@.dtype() == dtype,
            None => none_value(dtype) is None,
        },
{
    match dtype {
        DataType::OptBool => Some(Scalar::OptBool(None)),
        DataType::OptF32 => Some(Scalar::OptF32(None)),
        DataType::OptF64 => Some(Scalar::OptF64(None)),
        DataType::OptI32 => Some(Scalar::OptI32(None)),
        DataType::OptI64 => Some(Scalar::OptI64(None)),
        DataType::OptUsize => Some(Scalar::OptUsize(None)),
        _ => None,
    }
}

/// The view of an optional scalar.
pub open spec fn opt_view(value: Option<Scalar>) -> Option<Value> {
    match value {
        Some(v) => Some(v@),
        None => None,
    }
}

/// The fill of a shift of data of type `dtype`; see [`fill_value`].
pub(crate) fn fill_for(dtype: DataType, value: Option<Scalar>) -> (r: Result<Scalar, Error>)
    ensures
        match r {
            Ok(f) => fill_value(dtype, opt_view(value)) == Some(f@) && f@.dtype() == dtype,
            Err(e) => fill_value(dtype, opt_view(value)) is None && e == Error::TypeMismatch,
        },
{
    match value {
        Some(v) => {
            proof {
                if cast_value(v@, dtype) is Some {
                    lemma_cast_lands(v@, dtype);
                }
            }
            v.cast_to(dtype)
        },
        None => match absent_of(dtype) {
            Some(f) => Ok(f),
            None => Err(Error::TypeMismatch),
        },
    }
}

/// `n` copies of `fill`.
fn repeat(fill: &Scalar, n: usize) -> (r: Vec<Scalar>)
    ensures
        r@.len() == n,
        forall|i: int| 0 <= i < n ==> (#[trigger] r@[i])@ == fill@,
{
    let mut out: Vec<Scalar> = Vec::with_capacity(n);
    let mut i: usize = 0;
    while i < n
        invariant
            i <= n,
            out@.len() == i,
            forall|k: int| 0 <= k < i ==> (#[trigger] out@[k])@ == fill@,
        decreases n - i,
    {
        out.push(fill.clone_inner());
        i += 1;
    }
    out
}

impl<'a> DynTrustIter<'a> {
    /// The iterator moved `n` places to the back, or `-n` places to the
    /// front where `n` is negative; the length stays. The places left free
    /// take `value` cast to the element type, or the absent element where no
    /// value is given. `TypeMismatch` where the value cannot be cast, or
    /// where none is given and the element type has no absent element.
    pub fn vshift(self, n: i32, value: Option<Scalar>) -> (r: Result<Self, Error>)
        ensures
            match r {
                Ok(it) => fill_value(self.spec_dtype(), opt_view(value)) matches Some(f)
                    && it.values() == shift_values(self.values(), n as int, f)
                    && it.spec_dtype() == self.spec_dtype(),
                Err(e) => fill_value(self.spec_dtype(), opt_view(value)) is None && e
                    == Error::TypeMismatch,
            },
    {
        let dtype = self.dtype();
        let fill = match fill_for(dtype, value) {
            Ok(f) => f,
            Err(e) => {
                return Err(e);
            },
        };
        let len = self.len();
        self.typed();
        let wide: i64 = n as i64;
        let distance: i64 = if wide < 0 {
            -wide
        } else {
            wide
        };
        if distance as u64 > len as u64 {
            let items = repeat(&fill, len);
            proof {
                lemma_values_of(items@);
                assert(values_of(items@) =~= shift_values(self.values(), n as int, fill@));
            }
            return Ok(DynTrustIter::from_parts(dtype, iter_from_vec(items)));
        }
        let ghost before = self.values();
        let ghost f = fill@;
        let (_, iter) = self.into_raw();
        let shifted = iter_shift(iter, n, fill);
        proof {
            assert forall|i: int| 0 <= i < shift_values(before, n as int, f).len() implies (
            #[trigger] shift_values(before, n as int, f)[i]).dtype() == dtype by {
                if 0 <= i - n < before.len() {
                    assert(before[i - n].dtype() == dtype);
                }
            }
        }
        Ok(DynTrustIter::from_parts(dtype, shifted))
    }
}

} // verus!
