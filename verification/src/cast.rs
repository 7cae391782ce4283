//! The rules by which an element of one type becomes an element of another.
use vstd::prelude::*;

use crate::array::DynArray;
use crate::bridge::cast_from_i64;
use crate::bridge::cast_to_i64;
use crate::bridge::cast_to_text;
use crate::bridge::text_of;
use crate::bridge::iter_chain;
use crate::bridge::iter_from_vec;
use crate::bridge::nd_from_shape_vec;
use crate::dtype::DataType;
use crate::dtype::GetDtype;
use crate::error::Error;
use crate::scalar::all_of;
use crate::scalar::lemma_values_of;
use crate::scalar::values_of;
use crate::scalar::Scalar;
use crate::scalar::Value;
use crate::trust_iter::DynTrustIter;
use crate::vec::DynVec;

verus! {

/// A boolean or an integer element type, seen through its conversion to and
/// from a signed 64-bit integer.
pub trait NumLike: Sized + Copy {
    /// The value converted to `i64`.
    spec fn as_i64(self) -> i64;

    /// The `i64` converted to this type.
    spec fn of_i64(x: i64) -> Self;

    /// Whether the conversion from `i64` is defined for `x`.
    spec fn takes(x: i64) -> bool;
}

impl NumLike for bool {
    open spec fn as_i64(self) -> i64 {
        if self { 1 } else { 0 }
    }

    open spec fn of_i64(x: i64) -> bool {
        x as i32 == 1
    }

    open spec fn takes(x: i64) -> bool {
        x as i32 == 0 || x as i32 == 1
    }
}

impl NumLike for u8 {
    open spec fn as_i64(self) -> i64 {
        self as i64
    }

    open spec fn of_i64(x: i64) -> u8 {
        x as u8
    }

    open spec fn takes(x: i64) -> bool {
        true
    }
}

impl NumLike for i32 {
    open spec fn as_i64(self) -> i64 {
        self as i64
    }

    open spec fn of_i64(x: i64) -> i32 {
        x as i32
    }

    open spec fn takes(x: i64) -> bool {
        true
    }
}

impl NumLike for i64 {
    open spec fn as_i64(self) -> i64 {
        self
    }

    open spec fn of_i64(x: i64) -> i64 {
        x
    }

    open spec fn takes(x: i64) -> bool {
        true
    }
}

impl NumLike for u64 {
    open spec fn as_i64(self) -> i64 {
        self as i64
    }

    open spec fn of_i64(x: i64) -> u64 {
        x as u64
    }

    open spec fn takes(x: i64) -> bool {
        true
    }
}

impl NumLike for usize {
    open spec fn as_i64(self) -> i64 {
        self as i64
    }

    open spec fn of_i64(x: i64) -> usize {
        x as usize
    }

    open spec fn takes(x: i64) -> bool {
        true
    }
}

/// What a boolean or integer element holds, carried as `i64`: `None` where
/// the element is of another kind, `Some(None)` where it is an absent optional.
pub open spec fn int_content(v: Value) -> Option<Option<i64>> {
    match v {
        Value::Bool(b) => Some(Some(b.as_i64())),
        Value::U8(x) => Some(Some(x.as_i64())),
        Value::I32(x) => Some(Some(x.as_i64())),
        Value::I64(x) => Some(Some(x.as_i64())),
        Value::U64(x) => Some(Some(x.as_i64())),
        Value::Usize(x) => Some(Some(x.as_i64())),
        Value::OptBool(o) => Some(
            match o {
                Some(b) => Some(b.as_i64()),
                None => None,
            },
        ),
        Value::OptI32(o) => Some(
            match o {
                Some(x) => Some(x.as_i64()),
                None => None,
            },
        ),
        Value::OptI64(o) => Some(
            match o {
                Some(x) => Some(x.as_i64()),
                None => None,
            },
        ),
        Value::OptUsize(o) => Some(
            match o {
                Some(x) => Some(x.as_i64()),
                None => None,
            },
        ),
        _ => None,
    }
}

/// The element of type `to` that a present boolean or integer `x` becomes,
/// `None` where it becomes none. Plain and optional targets take the
/// conversion `as`; a boolean target takes only 0 and 1; the vector target
/// wraps the one element.
pub open spec fn from_present(x: i64, to: DataType) -> Option<Value> {
    match to {
        DataType::Bool => if bool::takes(x) {
            Some(Value::Bool(bool::of_i64(x)))
        } else {
            None
        },
        DataType::U8 => Some(Value::U8(u8::of_i64(x))),
        DataType::I32 => Some(Value::I32(i32::of_i64(x))),
        DataType::I64 => Some(Value::I64(x)),
        DataType::U64 => Some(Value::U64(u64::of_i64(x))),
        DataType::Usize => Some(Value::Usize(usize::of_i64(x))),
        DataType::OptBool => if bool::takes(x) {
            Some(Value::OptBool(Some(bool::of_i64(x))))
        } else {
            None
        },
        DataType::OptI32 => Some(Value::OptI32(Some(i32::of_i64(x)))),
        DataType::OptI64 => Some(Value::OptI64(Some(x))),
        DataType::OptUsize => Some(Value::OptUsize(Some(usize::of_i64(x)))),
        DataType::VecUsize => Some(Value::VecUsize(seq![usize::of_i64(x)])),
        DataType::DateTimeMs => Some(Value::DateTimeMs(x)),
        DataType::DateTimeUs => Some(Value::DateTimeUs(x)),
        DataType::DateTimeNs => Some(Value::DateTimeNs(x)),
        _ => None,
    }
}

/// The element of type `to` that an absent element becomes: absent again in
/// an optional integer or boolean type, the point that is no time in a type
/// of points in time, nothing in any other.
pub open spec fn from_absent(to: DataType) -> Option<Value> {
    match to {
        DataType::OptBool => Some(Value::OptBool(None)),
        DataType::OptI32 => Some(Value::OptI32(None)),
        DataType::OptI64 => Some(Value::OptI64(None)),
        DataType::OptUsize => Some(Value::OptUsize(None)),
        DataType::DateTimeMs => Some(Value::DateTimeMs(i64::MIN)),
        DataType::DateTimeUs => Some(Value::DateTimeUs(i64::MIN)),
        DataType::DateTimeNs => Some(Value::DateTimeNs(i64::MIN)),
        _ => None,
    }
}

/// The count that a point in time holds, `None` for any other element. The
/// count `i64::MIN` stands for no time.
pub open spec fn time_content(v: Value) -> Option<i64> {
    match v {
        Value::DateTimeMs(t) => Some(t),
        Value::DateTimeUs(t) => Some(t),
        Value::DateTimeNs(t) => Some(t),
        _ => None,
    }
}

/// The cast rule. An element already of type `to` is itself. A boolean or an
/// integer, plain or optional, becomes the text that stands for it, and
/// goes through `i64` to a boolean, an integer or a one-element index
/// vector; an integer also becomes the point in time of that count, in the
/// unit that the target type names. A point in time becomes its count,
/// which is absent in an optional type where the point is no time; it does
/// not change its unit. Every other pair has no rule; text in particular
/// becomes nothing else, because not every text stands for a number.
pub open spec fn cast_value(v: Value, to: DataType) -> Option<Value> {
    if v.dtype() == to {
        Some(v)
    } else {
        match time_content(v) {
            Some(t) => if to.spec_is_datetime() {
                None
            } else if to.spec_is_opt() && t == i64::MIN {
                from_absent(to)
            } else {
                from_present(t, to)
            },
            None => match int_content(v) {
                Some(c) => if to == DataType::String {
                    Some(Value::String(text_of(v)))
                } else if to.spec_is_datetime() && v.dtype().spec_is_bool() {
                    None
                } else {
                    match c {
                        Some(x) => from_present(x, to),
                        None => from_absent(to),
                    }
                },
                None => None,
            },
        }
    }
}

/// A cast that succeeds lands in the type asked for.
pub proof fn lemma_cast_lands(v: Value, to: DataType)
    requires
        cast_value(v, to) is Some,
    ensures
        cast_value(v, to).unwrap().dtype() == to,
{
}

/// Casting to the type an element already has changes nothing.
pub proof fn lemma_cast_identity(v: Value)
    ensures
        cast_value(v, v.dtype()) == Some(v),
{
}

/// What `Scalar::int_content` computes, over the element itself.
fn content_of(s: &Scalar) -> (r: Option<Option<i64>>)
    ensures
        r == int_content(s@),
{
    match s {
        Scalar::Bool(b) => Some(Some(cast_to_i64(*b))),
        Scalar::U8(x) => Some(Some(cast_to_i64(*x))),
        Scalar::I32(x) => Some(Some(cast_to_i64(*x))),
        Scalar::I64(x) => Some(Some(cast_to_i64(*x))),
        Scalar::U64(x) => Some(Some(cast_to_i64(*x))),
        Scalar::Usize(x) => Some(Some(cast_to_i64(*x))),
        Scalar::OptBool(o) => Some(
            match o {
                Some(b) => Some(cast_to_i64(*b)),
                None => None,
            },
        ),
        Scalar::OptI32(o) => Some(
            match o {
                Some(x) => Some(cast_to_i64(*x)),
                None => None,
            },
        ),
        Scalar::OptI64(o) => Some(
            match o {
                Some(x) => Some(cast_to_i64(*x)),
                None => None,
            },
        ),
        Scalar::OptUsize(o) => Some(
            match o {
                Some(x) => Some(cast_to_i64(*x)),
                None => None,
            },
        ),
        _ => None,
    }
}

/// Whether `x`, taken `as i32`, is 0 or 1.
fn fits_bool(x: i64) -> (r: bool)
    ensures
        r == bool::takes(x),
{
    let low: i32 = #[verifier::truncate] (x as i32);
    low == 0 || low == 1
}

fn present_to(x: i64, to: DataType) -> (r: Option<Scalar>)
    ensures
        match r {
            Some(s) => from_present(x, to) == Some(s@),
            None => from_present(x, to) is None,
        },
{
    match to {
        DataType::Bool => if fits_bool(x) {
            Some(Scalar::Bool(cast_from_i64(x)))
        } else {
            None
        },
        DataType::U8 => Some(Scalar::U8(cast_from_i64(x))),
        DataType::I32 => Some(Scalar::I32(cast_from_i64(x))),
        DataType::I64 => Some(Scalar::I64(cast_from_i64(x))),
        DataType::U64 => Some(Scalar::U64(cast_from_i64(x))),
        DataType::Usize => Some(Scalar::Usize(cast_from_i64(x))),
        DataType::OptBool => if fits_bool(x) {
            Some(Scalar::OptBool(Some(cast_from_i64(x))))
        } else {
            None
        },
        DataType::OptI32 => Some(Scalar::OptI32(Some(cast_from_i64(x)))),
        DataType::OptI64 => Some(Scalar::OptI64(Some(cast_from_i64(x)))),
        DataType::OptUsize => Some(Scalar::OptUsize(Some(cast_from_i64(x)))),
        DataType::VecUsize => {
            let mut v: Vec<usize> = Vec::new();
            v.push(cast_from_i64(x));
            assert(v@ =~= seq![usize::of_i64(x)]);
            Some(Scalar::VecUsize(v))
        },
        DataType::DateTimeMs => Some(Scalar::DateTimeMs(x)),
        DataType::DateTimeUs => Some(Scalar::DateTimeUs(x)),
        DataType::DateTimeNs => Some(Scalar::DateTimeNs(x)),
        _ => None,
    }
}

fn absent_to(to: DataType) -> (r: Option<Scalar>)
    ensures
        match r {
            Some(s) => from_absent(to) == Some(s@),
            None => from_absent(to) is None,
        },
{
    match to {
        DataType::OptBool => Some(Scalar::OptBool(None)),
        DataType::OptI32 => Some(Scalar::OptI32(None)),
        DataType::OptI64 => Some(Scalar::OptI64(None)),
        DataType::OptUsize => Some(Scalar::OptUsize(None)),
        DataType::DateTimeMs => Some(Scalar::DateTimeMs(i64::MIN)),
        DataType::DateTimeUs => Some(Scalar::DateTimeUs(i64::MIN)),
        DataType::DateTimeNs => Some(Scalar::DateTimeNs(i64::MIN)),
        _ => None,
    }
}

fn time_of(s: &Scalar) -> (r: Option<i64>)
    ensures
        r == time_content(s@),
{
    match s {
        Scalar::DateTimeMs(t) => Some(*t),
        Scalar::DateTimeUs(t) => Some(*t),
        Scalar::DateTimeNs(t) => Some(*t),
        _ => None,
    }
}

/// The text of the elements whose text is the same for every number: the
/// booleans and the absent optionals.
pub open spec fn known_text(v: Value) -> Option<Seq<char>> {
    match v {
        Value::Bool(true) => Some("true"@),
        Value::Bool(false) => Some("false"@),
        Value::OptBool(None) => Some("None"@),
        Value::OptI32(None) => Some("None"@),
        Value::OptI64(None) => Some("None"@),
        Value::OptUsize(None) => Some("None"@),
        _ => None,
    }
}

/// The text that stands for a boolean or an integer, plain or optional.
fn as_text(s: Scalar) -> (r: Option<Scalar>)
    ensures
        match r {
            Some(t) => int_content(s@) is Some && t@ == Value::String(text_of(s@)),
            None => int_content(s@) is None,
        },
        known_text(s@) matches Some(t) ==> r matches Some(x) && x@ == Value::String(t),
{
    match s {
        Scalar::Bool(v) => Some(Scalar::String(cast_to_text(v))),
        Scalar::U8(v) => Some(Scalar::String(cast_to_text(v))),
        Scalar::I32(v) => Some(Scalar::String(cast_to_text(v))),
        Scalar::I64(v) => Some(Scalar::String(cast_to_text(v))),
        Scalar::U64(v) => Some(Scalar::String(cast_to_text(v))),
        Scalar::Usize(v) => Some(Scalar::String(cast_to_text(v))),
        Scalar::OptBool(v) => Some(Scalar::String(cast_to_text(v))),
        Scalar::OptI32(v) => Some(Scalar::String(cast_to_text(v))),
        Scalar::OptI64(v) => Some(Scalar::String(cast_to_text(v))),
        Scalar::OptUsize(v) => Some(Scalar::String(cast_to_text(v))),
        _ => None,
    }
}

impl Scalar {
    /// Casts the element to type `to` by the cast rule; where the rule gives
    /// nothing the cast fails with `TypeMismatch`. As text a boolean is
    /// `true` or `false` and an absent optional `None`.
    pub fn cast_to(self, to: DataType) -> (r: Result<Scalar, Error>)
        ensures
            match r {
                Ok(s) => cast_value(self@, to) == Some(s@),
                Err(e) => cast_value(self@, to) is None && e == Error::TypeMismatch,
            },
            to == DataType::String ==> (known_text(self@) matches Some(t) ==> r matches Ok(s)
                && s@ == Value::String(t)),
    {
        if self.dtype() == to {
            return Ok(self);
        }
        let out = match time_of(&self) {
            Some(t) => if to.is_datetime() {
                None
            } else if to.is_opt() && t == i64::MIN {
                absent_to(to)
            } else {
                present_to(t, to)
            },
            None => match content_of(&self) {
                Some(c) => if matches!(to, DataType::String) {
                    as_text(self)
                } else if to.is_datetime() && self.dtype().is_bool() {
                    None
                } else {
                    match c {
                        Some(x) => present_to(x, to),
                        None => absent_to(to),
                    }
                },
                None => None,
            },
        };
        match out {
            Some(s) => Ok(s),
            None => Err(Error::TypeMismatch),
        }
    }
}

/// Whether the cast rule gives an element of type `to` for every value of `s`.
pub open spec fn castable_all(s: Seq<Value>, to: DataType) -> bool {
    forall|i: int| 0 <= i < s.len() ==> (#[trigger] cast_value(s[i], to)) is Some
}

/// The values of `s`, each cast to type `to`.
pub open spec fn cast_seq(s: Seq<Value>, to: DataType) -> Seq<Value> {
    s.map_values(|v: Value| cast_value(v, to).unwrap())
}

/// Casting values to the type they all have changes nothing.
pub proof fn lemma_cast_seq_identity(s: Seq<Value>, dtype: DataType)
    requires
        all_of(s, dtype),
    ensures
        castable_all(s, dtype),
        cast_seq(s, dtype) == s,
{
    assert(cast_seq(s, dtype) =~= s);
}

/// The values of a cast all have the type cast to.
pub proof fn lemma_cast_seq_lands(s: Seq<Value>, to: DataType)
    requires
        castable_all(s, to),
    ensures
        all_of(cast_seq(s, to), to),
        cast_seq(s, to).len() == s.len(),
{
    assert forall|i: int| 0 <= i < cast_seq(s, to).len() implies (#[trigger] cast_seq(
        s,
        to,
    )[i]).dtype() == to by {
        lemma_cast_lands(s[i], to);
    }
}

/// Casts every element to type `to`; fails with `TypeMismatch` where the
/// rule gives nothing for one of them.
pub(crate) fn cast_items(items: Vec<Scalar>, to: DataType) -> (r: Result<Vec<Scalar>, Error>)
    ensures
        match r {
            Ok(v) => castable_all(values_of(items@), to) && values_of(v@) == cast_seq(
                values_of(items@),
                to,
            ),
            Err(e) => !castable_all(values_of(items@), to) && e == Error::TypeMismatch,
        },
{
    let ghost orig = values_of(items@);
    proof {
        lemma_values_of(items@);
    }
    let mut rest = items;
    let n = rest.len();
    // Elements are moved out from the back, cast, and put in order at the end.
    let mut rev: Vec<Scalar> = Vec::with_capacity(n);
    while rest.len() > 0
        invariant
            orig == values_of(items@),
            rest@.len() + rev@.len() == orig.len(),
            forall|k: int| 0 <= k < rest@.len() ==> (#[trigger] rest@[k])@ == orig[k],
            forall|k: int|
                0 <= k < rev@.len() ==> cast_value(orig[orig.len() - 1 - k], to) == Some(
                    (#[trigger] rev@[k])@,
                ),
        decreases rest.len(),
    {
        let ghost before = rest@;
        let x = rest.pop().unwrap();
        assert(x == before[before.len() - 1]);
        match x.cast_to(to) {
            Ok(y) => rev.push(y),
            Err(e) => {
                let ghost at = rest@.len() as int;
                assert(x@ == orig[at]);
                assert(cast_value(orig[at], to) is None);
                assert(!castable_all(orig, to));
                return Err(Error::TypeMismatch);
            },
        }
    }
    let mut out: Vec<Scalar> = Vec::with_capacity(n);
    while rev.len() > 0
        invariant
            out@.len() + rev@.len() == orig.len(),
            forall|k: int|
                0 <= k < rev@.len() ==> cast_value(orig[orig.len() - 1 - k], to) == Some(
                    (#[trigger] rev@[k])@,
                ),
            forall|k: int|
                0 <= k < out@.len() ==> cast_value(orig[k], to) == Some((#[trigger] out@[k])@),
        decreases rev.len(),
    {
        let y = rev.pop().unwrap();
        out.push(y);
    }
    assert forall|i: int| 0 <= i < orig.len() implies (#[trigger] cast_value(
        orig[i],
        to,
    )) is Some by {
        assert(cast_value(orig[i], to) == Some(out@[i]@));
    }
    assert(values_of(out@) =~= cast_seq(orig, to));
    Ok(out)
}

impl Scalar {
    /// The element cast to a 32-bit integer by the cast rule.
    pub fn cast_i32(self) -> (r: Result<i32, Error>)
        ensures
            match r {
                Ok(x) => cast_value(self@, DataType::I32) == Some(Value::I32(x)),
                Err(e) => cast_value(self@, DataType::I32) is None && e == Error::TypeMismatch,
            },
    {
        match self.cast_to(DataType::I32) {
            Ok(Scalar::I32(x)) => Ok(x),
            Ok(_) => {
                proof {
                    lemma_cast_lands(self@, DataType::I32);
                }
                Err(Error::TypeMismatch)
            },
            Err(e) => Err(e),
        }
    }

    /// The element cast to a 64-bit integer by the cast rule.
    pub fn cast_i64(self) -> (r: Result<i64, Error>)
        ensures
            match r {
                Ok(x) => cast_value(self@, DataType::I64) == Some(Value::I64(x)),
                Err(e) => cast_value(self@, DataType::I64) is None && e == Error::TypeMismatch,
            },
    {
        match self.cast_to(DataType::I64) {
            Ok(Scalar::I64(x)) => Ok(x),
            Ok(_) => {
                proof {
                    lemma_cast_lands(self@, DataType::I64);
                }
                Err(Error::TypeMismatch)
            },
            Err(e) => Err(e),
        }
    }

    /// The element cast to a boolean by the cast rule.
    pub fn cast_bool(self) -> (r: Result<bool, Error>)
        ensures
            match r {
                Ok(x) => cast_value(self@, DataType::Bool) == Some(Value::Bool(x)),
                Err(e) => cast_value(self@, DataType::Bool) is None && e == Error::TypeMismatch,
            },
    {
        match self.cast_to(DataType::Bool) {
            Ok(Scalar::Bool(x)) => Ok(x),
            Ok(_) => {
                proof {
                    lemma_cast_lands(self@, DataType::Bool);
                }
                Err(Error::TypeMismatch)
            },
            Err(e) => Err(e),
        }
    }

    /// The element cast to an index by the cast rule.
    pub fn cast_usize(self) -> (r: Result<usize, Error>)
        ensures
            match r {
                Ok(x) => cast_value(self@, DataType::Usize) == Some(Value::Usize(x)),
                Err(e) => cast_value(self@, DataType::Usize) is None && e == Error::TypeMismatch,
            },
    {
        match self.cast_to(DataType::Usize) {
            Ok(Scalar::Usize(x)) => Ok(x),
            Ok(_) => {
                proof {
                    lemma_cast_lands(self@, DataType::Usize);
                }
                Err(Error::TypeMismatch)
            },
            Err(e) => Err(e),
        }
    }

    /// The element cast to an optional index by the cast rule.
    pub fn cast_optusize(self) -> (r: Result<Option<usize>, Error>)
        ensures
            match r {
                Ok(x) => cast_value(self@, DataType::OptUsize) == Some(Value::OptUsize(x)),
                Err(e) => cast_value(self@, DataType::OptUsize) is None && e
                    == Error::TypeMismatch,
            },
    {
        match self.cast_to(DataType::OptUsize) {
            Ok(Scalar::OptUsize(x)) => Ok(x),
            Ok(_) => {
                proof {
                    lemma_cast_lands(self@, DataType::OptUsize);
                }
                Err(Error::TypeMismatch)
            },
            Err(e) => Err(e),
        }
    }
}

impl<'a> DynVec<'a> {
    /// The sequence with every element cast to type `to`. A sequence already
    /// of that type is handed back as it is; otherwise the result owns its
    /// elements. Fails with `TypeMismatch` where the rule gives nothing for
    /// an element.
    pub fn cast_into(self, to: DataType) -> (r: Result<DynVec<'a>, Error>)
        ensures
            match r {
                Ok(v) => castable_all(self.values(), to) && v.values() == cast_seq(
                    self.values(),
                    to,
                ) && v.spec_dtype() == to && (self.spec_dtype() == to ==> v.is_owned()
                    == self.is_owned()),
                Err(e) => !castable_all(self.values(), to) && e == Error::TypeMismatch,
            },
            self.spec_dtype() == to ==> (r matches Ok(v) && v.values() == self.values()),
    {
        if self.dtype() == to {
            self.typed();
            proof {
                lemma_cast_seq_identity(self.values(), to);
            }
            return Ok(self);
        }
        let (_, items) = self.into_parts();
        match cast_items(items, to) {
            Ok(v) => {
                proof {
                    lemma_cast_seq_lands(self.values(), to);
                }
                Ok(DynVec::from_parts(to, v))
            },
            Err(e) => Err(e),
        }
    }
}

/// Casting a lazy iterator to another element type.
pub trait TrustIterCast: Sized {
    /// The values still to come.
    spec fn pending(&self) -> Seq<Value>;

    /// The iterator with every element cast to type `to`; `TypeMismatch`
    /// where the rule gives nothing for an element.
    fn cast_to(self, to: DataType) -> (r: Result<Self, Error>)
        ensures
            match r {
                Ok(it) => castable_all(self.pending(), to) && it.pending() == cast_seq(
                    self.pending(),
                    to,
                ),
                Err(e) => !castable_all(self.pending(), to) && e == Error::TypeMismatch,
            },
    ;
}

impl<'a> TrustIterCast for DynTrustIter<'a> {
    open spec fn pending(&self) -> Seq<Value> {
        self.values()
    }

    fn cast_to(self, to: DataType) -> (r: Result<Self, Error>)
        ensures
            r matches Ok(it) ==> it.spec_dtype() == to,
            self.spec_dtype() == to ==> (r matches Ok(it) && it.values() == self.values()),
    {
        if self.dtype() == to {
            self.typed();
            proof {
                lemma_cast_seq_identity(self.values(), to);
            }
            return Ok(self);
        }
        let (_, items) = self.into_parts();
        match cast_items(items, to) {
            Ok(v) => {
                proof {
                    lemma_cast_seq_lands(self.values(), to);
                    lemma_values_of(v@);
                }
                let n = v.len();
                Ok(DynTrustIter::from_parts(to, iter_from_vec(v)))
            },
            Err(e) => Err(e),
        }
    }
}

impl<'a> DynArray<'a> {
    /// The array with every element cast to type `to`, in the same shape.
    /// An array already of that type is handed back as it is; otherwise the
    /// result owns its elements. Fails with `TypeMismatch` where the rule
    /// gives nothing for an element.
    pub fn cast_into(self, to: DataType) -> (r: Result<DynArray<'a>, Error>)
        ensures
            match r {
                Ok(a) => castable_all(self.values(), to) && a.values() == cast_seq(
                    self.values(),
                    to,
                ) && a.shape() == self.shape() && a.spec_dtype() == to && (self.spec_dtype()
                    == to ==> a.is_view() == self.is_view()),
                Err(e) => !castable_all(self.values(), to) && e == Error::TypeMismatch,
            },
            self.spec_dtype() == to ==> (r matches Ok(a) && a.values() == self.values()),
    {
        if self.dtype() == to {
            self.typed();
            proof {
                lemma_cast_seq_identity(self.values(), to);
            }
            return Ok(self);
        }
        let shape = self.dims();
        let (_, items) = self.into_parts();
        match cast_items(items, to) {
            Ok(v) => {
                proof {
                    lemma_cast_seq_lands(self.values(), to);
                    lemma_values_of(v@);
                    lemma_values_of(items@);
                }
                match nd_from_shape_vec(&shape, v) {
                    Some(arr) => Ok(DynArray::from_parts(to, arr)),
                    None => {
                        proof {
                            assert(false);
                        }
                        Err(Error::ShapeMismatch)
                    },
                }
            },
            Err(e) => Err(e),
        }
    }

    /// A cast copy of a borrowed array: every element cast to type `to`, in
    /// the same shape. Where the array is already of that type the result is
    /// a view of it.
    pub fn cast_as(&self, to: DataType) -> (r: Result<DynArray<'_>, Error>)
        ensures
            match r {
                Ok(a) => castable_all(self.values(), to) && a.values() == cast_seq(
                    self.values(),
                    to,
                ) && a.shape() == self.shape() && a.spec_dtype() == to && (self.spec_dtype()
                    == to ==> a.is_view()),
                Err(e) => !castable_all(self.values(), to) && e == Error::TypeMismatch,
            },
            self.spec_dtype() == to ==> (r matches Ok(a) && a.values() == self.values()),
    {
        self.view().cast_into(to)
    }
}

impl<'a> DynTrustIter<'a> {
    /// This iterator followed by `other`, every element of which is cast to
    /// the element type of this one. `TypeMismatch` where an element of
    /// `other` cannot be cast, `Overflow` where the two together are longer
    /// than the machine can count.
    pub fn chain(self, other: DynTrustIter<'a>) -> (r: Result<DynTrustIter<'a>, Error>)
        ensures
            match r {
                Ok(it) => castable_all(other.values(), self.spec_dtype()) && it.values()
                    == self.values() + cast_seq(other.values(), self.spec_dtype())
                    && it.spec_dtype() == self.spec_dtype(),
                Err(e) => if !castable_all(other.values(), self.spec_dtype()) {
                    e == Error::TypeMismatch
                } else {
                    e == Error::Overflow && self.values().len() + other.values().len()
                        > usize::MAX
                },
            },
    {
        let to = self.dtype();
        let tail = match other.cast_to(to) {
            Ok(t) => t,
            Err(e) => {
                return Err(e);
            },
        };
        let n = self.len();
        let m = tail.len();
        proof {
            lemma_cast_seq_lands(other.values(), to);
        }
        if m > usize::MAX - n {
            return Err(Error::Overflow);
        }
        let (_, head) = self.into_raw();
        let (_, rest) = tail.into_raw();
        let joined = iter_chain(head, rest);
        Ok(DynTrustIter::from_parts(to, joined))
    }
}

/// Taking a container as one of another element type without touching its
/// elements. That is sound only where the two types are the same, so the tag
/// is compared first and anything else is refused.
pub trait TransmuteDtype: Sized + GetDtype {
    /// The container itself where it is of type `to`, `TypeMismatch` where
    /// it is not.
    fn into_dtype(self, to: DataType) -> (r: Result<Self, Error>)
        ensures
            match r {
                Ok(same) => self.spec_dtype() == to && same == self,
                Err(e) => self.spec_dtype() != to && e == Error::TypeMismatch,
            },
    ;
}

impl<'a> TransmuteDtype for DynVec<'a> {
    fn into_dtype(self, to: DataType) -> (r: Result<Self, Error>) {
        if self.dtype() == to {
            Ok(self)
        } else {
            Err(Error::TypeMismatch)
        }
    }
}

impl<'a> TransmuteDtype for DynArray<'a> {
    fn into_dtype(self, to: DataType) -> (r: Result<Self, Error>) {
        if self.dtype() == to {
            Ok(self)
        } else {
            Err(Error::TypeMismatch)
        }
    }
}

impl<'a> TransmuteDtype for DynTrustIter<'a> {
    fn into_dtype(self, to: DataType) -> (r: Result<Self, Error>) {
        if self.dtype() == to {
            Ok(self)
        } else {
            Err(Error::TypeMismatch)
        }
    }
}

} // verus!
