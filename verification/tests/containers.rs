use tea_dyn::Backend;
use tea_dyn::Data;
use tea_dyn::DataType;
use tea_dyn::DynArray;
use tea_dyn::DynTrustIter;
use tea_dyn::DynVec;
use tea_dyn::Error;
use tea_dyn::GetDtype;
use tea_dyn::Scalar;
use tea_dyn::TransmuteDtype;
use tea_dyn::TrustIterCast;

fn ints(values: &[i32]) -> DynVec<'static> {
    DynVec::from_vec(values.to_vec())
}

fn matrix() -> DynArray<'static> {
    let items = (1..=6).map(Scalar::I64).collect();
    DynArray::from_shape_vec(DataType::I64, vec![2, 3], items).unwrap()
}

#[test]
fn vec_new_checks_every_tag() {
    let ok = DynVec::new(DataType::I32, vec![Scalar::I32(1), Scalar::I32(2)]);
    assert_eq!(ok.unwrap().i32().unwrap(), vec![1, 2]);
    let bad = DynVec::new(DataType::I32, vec![Scalar::I32(1), Scalar::I64(2)]);
    assert_eq!(bad.err(), Some(Error::TypeMismatch));
}

#[test]
fn vec_get_is_bounds_checked() {
    let v = ints(&[10, 20, 30]);
    assert_eq!(v.get(1).unwrap().i32().unwrap(), 20);
    assert_eq!(v.get(2).unwrap().i32().unwrap(), 30);
    assert_eq!(v.get(3).err(), Some(Error::OutOfBounds { idx: 3, len: 3 }));
    assert_eq!(v.len(), 3);
    assert!(!v.is_empty());
}

#[test]
fn vec_view_round_trip_keeps_every_value() {
    let strings = DynVec::from_vec(vec!["a".to_owned(), "bc".to_owned()]);
    let back = strings.view().into_owned();
    assert_eq!(back.dtype(), DataType::String);
    assert_eq!(back.string().unwrap(), vec!["a".to_owned(), "bc".to_owned()]);

    let opts = DynVec::from_vec(vec![Some(1i64), None, Some(-3)]);
    let back = opts.view().into_owned();
    assert_eq!(back.to_typed::<Option<i64>>().unwrap(), vec![Some(1), None, Some(-3)]);

    let bits = vec![Scalar::F64(1.5f64.to_bits()), Scalar::F64(f64::NAN.to_bits())];
    let floats = DynVec::new(DataType::F64, bits).unwrap();
    let back = floats.view().into_owned();
    assert_eq!(back.dtype(), DataType::F64);
    match back.get(0).unwrap() {
        Scalar::F64(b) => assert_eq!(f64::from_bits(b), 1.5),
        other => panic!("unexpected {:?}", other),
    }
    match back.get(1).unwrap() {
        Scalar::F64(b) => assert!(f64::from_bits(b).is_nan()),
        other => panic!("unexpected {:?}", other),
    }
}

#[test]
fn vec_borrowed_reads_the_slice() {
    let items = vec![Scalar::U8(7), Scalar::U8(9)];
    let v = DynVec::borrowed(DataType::U8, &items).unwrap();
    assert_eq!(v.to_typed::<u8>().unwrap(), vec![7, 9]);
    assert_eq!(v.clone_inner().to_typed::<u8>().unwrap(), vec![7, 9]);
    assert_eq!(DynVec::borrowed(DataType::I32, &items).err(), Some(Error::TypeMismatch));
}

#[test]
fn typed_access_refuses_another_type() {
    assert_eq!(ints(&[1]).i64().err(), Some(Error::TypeMismatch));
    assert_eq!(ints(&[1]).bool().err(), Some(Error::TypeMismatch));
    assert_eq!(ints(&[1]).usize().err(), Some(Error::TypeMismatch));
    assert_eq!(ints(&[1]).string().err(), Some(Error::TypeMismatch));
}

#[test]
fn default_vec_is_empty_float() {
    let v = DynVec::default();
    assert_eq!(v.len(), 0);
    assert!(v.is_empty());
    assert_eq!(v.dtype(), DataType::F64);
}

#[test]
fn iterators_yield_in_order() {
    let v = ints(&[3, 1, 2]);
    let borrowed = v.titer().unwrap();
    assert_eq!(borrowed.len(), 3);
    assert_eq!(borrowed.collect_vec().unwrap().i32().unwrap(), vec![3, 1, 2]);
    let consumed = v.into_titer().unwrap();
    assert_eq!(consumed.dtype(), DataType::I32);
    assert_eq!(consumed.collect_vec().unwrap().i32().unwrap(), vec![3, 1, 2]);
}

#[test]
fn default_iterator_is_empty_bool() {
    let it = DynTrustIter::default();
    assert_eq!(it.len(), 0);
    assert_eq!(it.dtype(), DataType::Bool);
    assert!(it.collect_vec().unwrap().is_empty());
}

#[test]
fn scalar_iterates_once() {
    let it = Scalar::I64(5).into_titer();
    assert_eq!(it.len(), 1);
    assert_eq!(it.collect_vec().unwrap().i64().unwrap(), vec![5]);
    let s = Scalar::String("x".to_owned());
    let it = s.titer().unwrap();
    assert_eq!(it.collect_vec().unwrap().string().unwrap(), vec!["x".to_owned()]);
}

#[test]
fn index_vector_scalar_is_walked_by_index() {
    let s = Scalar::VecUsize(vec![4, 5, 6]);
    let it = s.titer().unwrap();
    assert_eq!(it.dtype(), DataType::Usize);
    assert_eq!(it.collect_vec().unwrap().usize().unwrap(), vec![4, 5, 6]);
    let it = s.into_titer();
    assert_eq!(it.dtype(), DataType::VecUsize);
    assert_eq!(it.len(), 1);
}

#[test]
fn chain_casts_the_second_to_the_first() {
    let a = ints(&[1, 2]).into_titer().unwrap();
    let b = DynVec::from_vec(vec![3i64, (1i64 << 32) + 4]).into_titer().unwrap();
    let joined = a.chain(b).unwrap();
    assert_eq!(joined.dtype(), DataType::I32);
    assert_eq!(joined.len(), 4);
    assert_eq!(joined.collect_vec().unwrap().i32().unwrap(), vec![1, 2, 3, 4]);
    let a = ints(&[1]).into_titer().unwrap();
    let b = DynVec::from_vec(vec!["x".to_owned()]).into_titer().unwrap();
    assert_eq!(a.chain(b).err(), Some(Error::TypeMismatch));
}

#[test]
fn collect_follows_the_backend() {
    let d = ints(&[1, 2]).into_titer().unwrap().collect(Backend::Vec).unwrap();
    assert!(d.is_vec());
    let d = ints(&[1, 2]).into_titer().unwrap().collect(Backend::Numpy).unwrap();
    assert!(d.is_array());
    assert_eq!(d.into_vec().unwrap().i32().unwrap(), vec![1, 2]);
    let d = ints(&[1, 2]).into_titer().unwrap().collect(Backend::Pandas).unwrap();
    assert!(d.is_array());
    let d = ints(&[1, 2]).into_backend(Backend::Vec).unwrap();
    assert!(d.is_vec());
    let d = ints(&[1, 2]).into_backend(Backend::Numpy).unwrap();
    assert_eq!(d.backend(), Backend::Numpy);
}

#[test]
fn array_of_one_axis() {
    let a = DynArray::from_vec(ints(&[5, 6, 7])).unwrap();
    assert_eq!(a.len(), 3);
    assert_eq!(a.ndim(), 1);
    assert_eq!(a.dims(), vec![3]);
    assert!(!a.borrows());
    assert_eq!(a.get(2).unwrap().i32().unwrap(), 7);
    assert_eq!(a.get(3).err(), Some(Error::OutOfBounds { idx: 3, len: 3 }));
    let view = a.view();
    assert!(view.borrows());
    assert_eq!(view.get(0).unwrap().i32().unwrap(), 5);
    let owned = view.into_owned();
    assert!(!owned.borrows());
    assert_eq!(owned.dims(), vec![3]);
    assert_eq!(owned.into_vec().unwrap().i32().unwrap(), vec![5, 6, 7]);
    assert_eq!(a.clone_inner().into_vec_owned().unwrap().i32().unwrap(), vec![5, 6, 7]);
    assert_eq!(a.titer().unwrap().collect_vec().unwrap().i32().unwrap(), vec![5, 6, 7]);
    assert_eq!(a.into_titer().unwrap().collect_vec().unwrap().i32().unwrap(), vec![5, 6, 7]);
}

#[test]
fn array_of_two_axes() {
    let a = matrix();
    assert_eq!(a.len(), 6);
    assert_eq!(a.ndim(), 2);
    assert_eq!(a.dims(), vec![2, 3]);
    assert!(!a.is_empty());
    // one index does not reach into two axes
    assert_eq!(a.get(0).err(), Some(Error::OutOfBounds { idx: 0, len: 6 }));
    assert_eq!(a.titer().err(), Some(Error::ShapeMismatch));
    let back = a.view().into_owned();
    assert_eq!(back.dims(), vec![2, 3]);
    assert_eq!(back.to_flat().i64().unwrap(), vec![1, 2, 3, 4, 5, 6]);
    assert_eq!(back.clone_inner().into_vec().err(), Some(Error::ShapeMismatch));
    assert_eq!(back.into_titer().err(), Some(Error::ShapeMismatch));
    assert_eq!(a.into_vec_owned().err(), Some(Error::ShapeMismatch));
}

#[test]
fn array_without_axes_holds_one_element() {
    let a = DynArray::from_shape_vec(DataType::I32, vec![], vec![Scalar::I32(9)]).unwrap();
    assert_eq!(a.ndim(), 0);
    assert_eq!(a.len(), 1);
    assert_eq!(a.titer().unwrap().collect_vec().unwrap().i32().unwrap(), vec![9]);
    assert_eq!(a.into_vec().unwrap().i32().unwrap(), vec![9]);
}

#[test]
fn array_shape_must_hold_the_elements() {
    let items: Vec<Scalar> = (1..=6).map(Scalar::I64).collect();
    let r = DynArray::from_shape_vec(DataType::I64, vec![4, 2], items);
    assert_eq!(r.err(), Some(Error::ShapeMismatch));
    let r = DynArray::from_shape_vec(DataType::I32, vec![1], vec![Scalar::I64(1)]);
    assert_eq!(r.err(), Some(Error::TypeMismatch));
}

#[test]
fn cast_to_the_own_type_is_the_identity() {
    let v = ints(&[1, -2]).cast_into(DataType::I32).unwrap();
    assert_eq!(v.i32().unwrap(), vec![1, -2]);
    let a = matrix().cast_into(DataType::I64).unwrap();
    assert_eq!(a.dims(), vec![2, 3]);
    let it = ints(&[4]).into_titer().unwrap().cast_to(DataType::I32).unwrap();
    assert_eq!(it.collect_vec().unwrap().i32().unwrap(), vec![4]);
    let s = Scalar::String("s".to_owned()).cast_to(DataType::String).unwrap();
    assert_eq!(s.string().unwrap(), "s");
    let bits = Scalar::F32(2.5f32.to_bits()).cast_to(DataType::F32).unwrap();
    match bits {
        Scalar::F32(b) => assert_eq!(f32::from_bits(b), 2.5),
        other => panic!("unexpected {:?}", other),
    }
}

#[test]
fn cast_between_integers_is_the_conversion_as() {
    let wide = (1i64 << 32) + 5;
    assert_eq!(Scalar::I64(wide).cast_i32().unwrap(), 5);
    assert_eq!(Scalar::I64(-1).cast_to(DataType::U8).unwrap().u8().unwrap(), 255);
    assert_eq!(Scalar::I32(-1).cast_to(DataType::U64).unwrap().u64().unwrap(), u64::MAX);
    assert_eq!(Scalar::U64(u64::MAX).cast_i64().unwrap(), -1);
    assert_eq!(Scalar::U8(200).cast_usize().unwrap(), 200);
    assert_eq!(Scalar::Bool(true).cast_i32().unwrap(), 1);
    assert_eq!(Scalar::Bool(false).cast_i64().unwrap(), 0);
    assert_eq!(Scalar::I32(1).cast_bool().unwrap(), true);
    assert_eq!(Scalar::I32(0).cast_bool().unwrap(), false);
    assert_eq!(Scalar::I32(2).cast_bool().err(), Some(Error::TypeMismatch));
    assert_eq!(Scalar::I32(3).cast_optusize().unwrap(), Some(3));
    assert_eq!(Scalar::OptI64(None).cast_optusize().unwrap(), None);
    assert_eq!(Scalar::OptI64(None).cast_i32().err(), Some(Error::TypeMismatch));
    assert_eq!(Scalar::OptI32(Some(-7)).cast_i64().unwrap(), -7);
    assert_eq!(Scalar::String("1".to_owned()).cast_i32().err(), Some(Error::TypeMismatch));
    assert_eq!(Scalar::I32(4).cast_to(DataType::VecUsize).unwrap().vec_usize().unwrap(), vec![4]);
    assert_eq!(
        Scalar::VecUsize(vec![1]).cast_to(DataType::Usize).err(),
        Some(Error::TypeMismatch)
    );
}

#[test]
fn cast_containers_element_by_element() {
    let v = DynVec::from_vec(vec![1i64, (1i64 << 32) + 2]).cast_into(DataType::I32).unwrap();
    assert_eq!(v.dtype(), DataType::I32);
    assert_eq!(v.i32().unwrap(), vec![1, 2]);
    let a = matrix().cast_into(DataType::OptI32).unwrap();
    assert_eq!(a.dtype(), DataType::OptI32);
    assert_eq!(a.dims(), vec![2, 3]);
    assert_eq!(
        a.to_flat().to_typed::<Option<i32>>().unwrap(),
        vec![Some(1), Some(2), Some(3), Some(4), Some(5), Some(6)]
    );
    let m = matrix();
    let b = m.cast_as(DataType::I32).unwrap();
    assert_eq!(b.dtype(), DataType::I32);
    assert_eq!(b.len(), 6);
    let bad = DynVec::from_vec(vec!["x".to_owned()]).cast_into(DataType::I32);
    assert_eq!(bad.err(), Some(Error::TypeMismatch));
    let bad = ints(&[2]).cast_into(DataType::Bool);
    assert_eq!(bad.err(), Some(Error::TypeMismatch));
}

#[test]
fn reinterpretation_needs_the_same_tag() {
    let v = ints(&[1, 2]).into_dtype(DataType::I32).unwrap();
    assert_eq!(v.i32().unwrap(), vec![1, 2]);
    assert_eq!(ints(&[1]).into_dtype(DataType::I64).err(), Some(Error::TypeMismatch));
    assert_eq!(matrix().into_dtype(DataType::I32).err(), Some(Error::TypeMismatch));
    assert!(matrix().into_dtype(DataType::I64).is_ok());
    let it = ints(&[1]).into_titer().unwrap();
    assert_eq!(it.into_dtype(DataType::Bool).err(), Some(Error::TypeMismatch));
}

#[test]
fn scalar_accessors_and_copies() {
    assert_eq!(Scalar::Bool(true).bool().unwrap(), true);
    assert_eq!(Scalar::I32(1).bool().err(), Some(Error::TypeMismatch));
    assert_eq!(Scalar::OptBool(Some(false)).opt_bool().unwrap(), Some(false));
    assert_eq!(Scalar::OptI32(None).opt_i32().unwrap(), None);
    assert_eq!(Scalar::OptI64(Some(2)).opt_i64().unwrap(), Some(2));
    assert_eq!(Scalar::OptUsize(Some(2)).opt_usize().unwrap(), Some(2));
    assert_eq!(Scalar::Usize(3).usize().unwrap(), 3);
    assert_eq!(Scalar::U64(3).u64().unwrap(), 3);
    assert_eq!(Scalar::U8(3).u8().unwrap(), 3);
    let index = Scalar::VecUsize(vec![1, 2]);
    assert!(index.cheap_clone().is_none());
    assert_eq!(index.clone_inner().vec_usize().unwrap(), vec![1, 2]);
    assert_eq!(index.clone().vec_usize().unwrap(), vec![1, 2]);
    let text = Scalar::String("t".to_owned());
    assert_eq!(text.cheap_clone().unwrap().string().unwrap(), "t");
    assert_eq!(Scalar::DateTimeMs(5).dtype(), DataType::DateTimeMs);
    assert_eq!(Scalar::DateTimeMs(5).cheap_clone().unwrap().dtype(), DataType::DateTimeMs);
}

#[test]
fn data_knows_its_kind() {
    let d = Data::from_scalar(Scalar::I32(1));
    assert!(d.is_scalar());
    assert!(!d.is_pl());
    assert_eq!(d.len(), 1);
    assert_eq!(d.ndim(), 0);
    assert_eq!(d.dtype(), DataType::I32);
    assert_eq!(d.backend(), Backend::Vec);
    let d = Data::from_array(matrix());
    assert!(d.is_array());
    assert_eq!(d.ndim(), 2);
    assert_eq!(d.len(), 6);
    let d = Data::from_titer(ints(&[1, 2]).into_titer().unwrap());
    assert!(d.is_trust_iter());
    assert_eq!(d.len(), 2);
    let d = Data::default();
    assert!(d.is_vec());
    assert!(d.is_empty());
    assert_eq!(d.dtype(), DataType::F64);
}

#[test]
fn cast_to_a_point_in_time_takes_the_unit_of_the_target() {
    let t = Scalar::I32(1500).cast_to(DataType::DateTimeMs).unwrap();
    assert!(matches!(t, Scalar::DateTimeMs(1500)));
    let t = Scalar::U8(7).cast_to(DataType::DateTimeNs).unwrap();
    assert!(matches!(t, Scalar::DateTimeNs(7)));
    // an absent count is the point that is no time
    let t = Scalar::OptI64(None).cast_to(DataType::DateTimeUs).unwrap();
    assert!(matches!(t, Scalar::DateTimeUs(i64::MIN)));
    assert_eq!(Scalar::Bool(true).cast_to(DataType::DateTimeMs).err(), Some(Error::TypeMismatch));
    // back to its count
    assert_eq!(Scalar::DateTimeMs(1500).cast_i64().unwrap(), 1500);
    assert_eq!(Scalar::DateTimeMs((1i64 << 32) + 2).cast_i32().unwrap(), 2);
    let o = Scalar::DateTimeNs(i64::MIN).cast_to(DataType::OptI64).unwrap();
    assert_eq!(o.opt_i64().unwrap(), None);
    let o = Scalar::DateTimeNs(5).cast_to(DataType::OptI64).unwrap();
    assert_eq!(o.opt_i64().unwrap(), Some(5));
    assert_eq!(Scalar::DateTimeNs(i64::MIN).cast_i64().unwrap(), i64::MIN);
    // the unit is not changed by a cast
    assert_eq!(
        Scalar::DateTimeMs(1).cast_to(DataType::DateTimeUs).err(),
        Some(Error::TypeMismatch)
    );
    assert!(DataType::DateTimeMs.is_datetime());
    assert!(DataType::TimeDelta.is_time());
    assert!(!DataType::TimeDelta.is_datetime());
}

#[test]
fn tags_are_matched_before_walking_side_by_side() {
    assert_eq!(DataType::I32.matched(DataType::I32), Ok(DataType::I32));
    assert_eq!(DataType::I32.matched(DataType::I64), Err(Error::TypeMismatch));
    assert_eq!(DataType::Bool.matched3(DataType::Bool, DataType::Bool), Ok(DataType::Bool));
    assert_eq!(
        DataType::Bool.matched3(DataType::Bool, DataType::U8),
        Err(Error::TypeMismatch)
    );
    assert!(DataType::OptI32.is_numeric());
    assert!(DataType::Bool.is_numeric());
    assert!(!DataType::Bool.is_pure_numeric());
    assert!(DataType::F64.is_pure_numeric());
    assert!(DataType::OptF32.is_float());
    assert!(DataType::OptF32.is_opt());
    assert!(!DataType::String.is_numeric());
    assert!(DataType::U64.has_abs());
    assert!(!DataType::OptI32.has_abs());
    assert!(DataType::OptI32.has_vabs());
    assert!(!DataType::U8.has_vabs());
}

#[test]
fn numbers_and_booleans_cast_to_text() {
    let text = |s: Scalar| s.cast_to(DataType::String).unwrap().string().unwrap();
    assert_eq!(text(Scalar::I32(-5)), "-5");
    assert_eq!(text(Scalar::I64(i64::MIN)), "-9223372036854775808");
    assert_eq!(text(Scalar::U64(u64::MAX)), "18446744073709551615");
    assert_eq!(text(Scalar::U8(7)), "7");
    assert_eq!(text(Scalar::Usize(0)), "0");
    assert_eq!(text(Scalar::Bool(true)), "true");
    assert_eq!(text(Scalar::Bool(false)), "false");
    assert_eq!(text(Scalar::OptI32(Some(3))), "3");
    assert_eq!(text(Scalar::OptI32(None)), "None");
    assert_eq!(text(Scalar::OptI64(None)), "None");
    assert_eq!(text(Scalar::OptUsize(Some(9))), "9");
    assert_eq!(text(Scalar::OptBool(None)), "None");
    assert_eq!(text(Scalar::OptBool(Some(true))), "Some(true)");
    assert_eq!(text(Scalar::String("as it is".to_owned())), "as it is");
    // text becomes nothing else, and neither a float nor a point in time becomes text
    assert_eq!(
        Scalar::String("5".to_owned()).cast_to(DataType::I32).err(),
        Some(Error::TypeMismatch)
    );
    assert_eq!(
        Scalar::F64(1.5f64.to_bits()).cast_to(DataType::String).err(),
        Some(Error::TypeMismatch)
    );
    assert_eq!(Scalar::DateTimeMs(5).cast_to(DataType::String).err(), Some(Error::TypeMismatch));
    let v = DynVec::from_vec(vec![1i32, -2]).cast_into(DataType::String).unwrap();
    assert_eq!(v.string().unwrap(), vec!["1".to_owned(), "-2".to_owned()]);
}
