use tea_dyn::s;
use tea_dyn::Backend;
use tea_dyn::Context;
use tea_dyn::Data;
use tea_dyn::DataType;
use tea_dyn::DynArray;
use tea_dyn::DynVec;
use tea_dyn::Error;
use tea_dyn::Expr;
use tea_dyn::GetDtype;
use tea_dyn::Scalar;
use tea_dyn::Series;
use tea_dyn::Symbol;
use tea_dyn::lit;

fn column(name: &str, values: &[i32]) -> Series {
    Series::new(name, DynVec::from_vec(values.to_vec())).unwrap()
}

fn sel() -> Expr {
    s(Symbol::I32(0))
}

fn opt_i32(d: Data<'_>) -> Vec<Option<i32>> {
    let s = d.into_series().unwrap();
    s.into_column().to_typed::<Option<i32>>().unwrap()
}

#[test]
fn test_rolling_apply_pl() {
    let expr = sel().rolling(3).apply(sel().sum()).alias("sum");
    // rolling in series
    let v = column("a", &[1, 2, 3, 4, 5, 6, 7, 8, 9]);
    let ctx = Context::new(Data::from_series(v));
    let res = expr.eval(&ctx, Some(Backend::Vec)).unwrap().into_vec().unwrap().i32().unwrap();
    assert_eq!(res, vec![1, 3, 6, 9, 12, 15, 18, 21, 24]);
    // rolling in series and return series
    let v = column("a", &[1, 2, 3, 4, 5, 6, 7, 8, 9]);
    let ctx = Context::new(Data::from_series(v));
    let res = expr.eval(&ctx, Some(Backend::Polars)).unwrap().into_series().unwrap();
    assert_eq!(res.name(), "sum");
    assert_eq!(res.dtype(), DataType::OptI32);
    let expected: Vec<Option<i32>> =
        [1, 3, 6, 9, 12, 15, 18, 21, 24].into_iter().map(Some).collect();
    assert_eq!(res.into_column().to_typed::<Option<i32>>().unwrap(), expected);
}

#[test]
fn column_holds_every_element_as_optional() {
    let c = column("c", &[1, 2]);
    assert_eq!(c.name(), "c");
    assert_eq!(c.len(), 2);
    assert!(!c.is_empty());
    assert_eq!(c.dtype(), DataType::OptI32);
    assert_eq!(c.get(1).unwrap().opt_i32().unwrap(), Some(2));
    assert_eq!(c.get(2).err(), Some(Error::OutOfBounds { idx: 2, len: 2 }));
    let renamed = c.clone_inner().with_name("d");
    assert_eq!(renamed.name(), "d");
    assert_eq!(c.titer().unwrap().collect_vec().unwrap().len(), 2);
    let opts = Series::new("o", DynVec::from_vec(vec![Some(true), None])).unwrap();
    assert_eq!(opts.dtype(), DataType::OptBool);
    assert_eq!(opts.get(1).unwrap().opt_bool().unwrap(), None);
    let text = Series::new("t", DynVec::from_vec(vec!["x".to_owned()]));
    assert_eq!(text.err(), Some(Error::TypeMismatch));
}

#[test]
fn float_that_is_not_a_number_is_absent_in_a_column() {
    let bits = vec![
        Scalar::F64(1.5f64.to_bits()),
        Scalar::F64(f64::NAN.to_bits()),
        Scalar::F64(f64::INFINITY.to_bits()),
        Scalar::F64((-f64::NAN).to_bits()),
    ];
    let c = Series::new("f", DynVec::new(DataType::F64, bits).unwrap()).unwrap();
    assert_eq!(c.dtype(), DataType::OptF64);
    match c.get(0).unwrap() {
        Scalar::OptF64(Some(b)) => assert_eq!(f64::from_bits(b), 1.5),
        other => panic!("unexpected {:?}", other),
    }
    assert!(matches!(c.get(1).unwrap(), Scalar::OptF64(None)));
    match c.get(2).unwrap() {
        Scalar::OptF64(Some(b)) => assert_eq!(f64::from_bits(b), f64::INFINITY),
        other => panic!("unexpected {:?}", other),
    }
    assert!(matches!(c.get(3).unwrap(), Scalar::OptF64(None)));
    let bits = vec![Scalar::F32(f32::NAN.to_bits()), Scalar::F32(0.0f32.to_bits())];
    let c = Series::new("f", DynVec::new(DataType::F32, bits).unwrap()).unwrap();
    assert!(matches!(c.get(0).unwrap(), Scalar::OptF32(None)));
    assert!(matches!(c.get(1).unwrap(), Scalar::OptF32(Some(0))));
}

#[test]
fn column_is_never_consumed() {
    let d = Data::from_series(column("a", &[1, 2]));
    assert!(d.is_series());
    assert!(d.is_pl());
    assert_eq!(d.backend(), Backend::Polars);
    assert_eq!(d.len(), 2);
    assert_eq!(d.ndim(), 1);
    assert_eq!(d.dtype(), DataType::OptI32);
    assert_eq!(d.try_titer().unwrap().len(), 2);
    let d = match d.try_into_iter() {
        Err(d) => d,
        Ok(_) => panic!("a column was consumed"),
    };
    assert_eq!(d.clone().into_titer().err(), Some(Error::UnsupportedOperation));
    assert_eq!(d.clone().into_vec().err(), Some(Error::UnsupportedOperation));
    assert_eq!(d.clone().into_array().err(), Some(Error::UnsupportedOperation));
    let kept = d.clone().into_result(Some(Backend::Vec)).unwrap();
    assert!(kept.is_series());
    let owned = d.clone().into_owned(None).ok().unwrap();
    assert!(owned.is_series());
    assert_eq!(opt_i32(d), vec![Some(1), Some(2)]);
}

#[test]
fn scalar_out_of_a_column_is_plain() {
    let d = Data::from_series(column("a", &[7]));
    assert_eq!(d.into_scalar().unwrap().i32().unwrap(), 7);
    let d = Data::from_series(column("a", &[7, 8]));
    assert_eq!(d.into_scalar().err(), Some(Error::ShapeMismatch));
    let absent = Series::new("a", DynVec::from_vec(vec![None::<i64>])).unwrap();
    assert_eq!(Data::from_series(absent).into_scalar().err(), Some(Error::TypeMismatch));
}

#[test]
fn alias_names_only_columns() {
    let d = Data::from_series(column("a", &[1])).alias(Some("b"));
    assert_eq!(d.into_series().unwrap().name(), "b");
    let d = Data::from_series(column("a", &[1])).alias(None);
    assert_eq!(d.into_series().unwrap().name(), "a");
    let shared = Data::from_series(column("a", &[1]));
    let other = shared.clone();
    assert_eq!(shared.alias(Some("b")).into_series().unwrap().name(), "b");
    assert_eq!(other.into_series().unwrap().name(), "a");
}

#[test]
fn everything_flat_becomes_a_column() {
    let v = DynVec::from_vec(vec![true, false]);
    assert_eq!(v.to_series().unwrap().dtype(), DataType::OptBool);
    assert_eq!(v.into_series().unwrap().name(), "");
    let it = DynVec::from_vec(vec![1i64]).into_titer().unwrap();
    assert_eq!(it.collect_series().unwrap().dtype(), DataType::OptI64);
    let a = DynArray::from_vec(DynVec::from_vec(vec![1i32, 2])).unwrap();
    assert_eq!(a.to_series().unwrap().len(), 2);
    assert_eq!(a.into_series().unwrap().dtype(), DataType::OptI32);
    let items = (0..4).map(Scalar::I32).collect();
    let m = DynArray::from_shape_vec(DataType::I32, vec![2, 2], items).unwrap();
    assert_eq!(m.to_series().err(), Some(Error::ShapeMismatch));
    assert_eq!(Data::from_array(m).into_series().err(), Some(Error::ShapeMismatch));
    let d = Data::from_vec(DynVec::from_vec(vec![1i32]));
    let other = d.clone();
    assert_eq!(opt_i32(d), vec![Some(1)]);
    drop(other);
    let d = Data::from_scalar(Scalar::I32(1));
    assert_eq!(d.into_series().err(), Some(Error::UnsupportedOperation));
    let d = Data::from_vec(DynVec::from_vec(vec![1u64]));
    assert_eq!(d.into_series().err(), Some(Error::TypeMismatch));
    let d = DynVec::from_vec(vec![1i32]).into_backend(Backend::Polars).unwrap();
    assert!(d.is_series());
    let d = DynVec::from_vec(vec![1u8]).into_backend(Backend::Polars);
    assert_eq!(d.err(), Some(Error::TypeMismatch));
}

#[test]
fn iterator_is_materialised_as_a_column_for_the_dataframe_backend() {
    let ctx = Context::new(Data::from_vec(DynVec::from_vec(vec![-1, 2])));
    let d = sel().abs().eval(&ctx, Some(Backend::Polars)).unwrap();
    assert!(d.is_series());
    assert_eq!(opt_i32(d), vec![Some(1), Some(2)]);
    let text = Context::new(Data::from_vec(DynVec::from_vec(vec!["a".to_owned()])));
    let it = Data::from_titer(DynVec::from_vec(vec!["a".to_owned()]).into_titer().unwrap());
    assert_eq!(it.into_result(Some(Backend::Polars)).err(), Some(Error::TypeMismatch));
    let it = Data::from_titer(DynVec::from_vec(vec!["a".to_owned()]).into_titer().unwrap());
    assert!(it.into_owned(Some(Backend::Polars)).is_err());
    assert!(sel().eval(&text, Some(Backend::Polars)).unwrap().is_vec());
}

#[test]
fn kernels_walk_a_column_as_it_stands() {
    let ctx = Context::new(Data::from_series(column("a", &[-1, 2, -3])));
    let d = sel().sum().eval(&ctx, None).unwrap();
    assert_eq!(d.into_scalar().unwrap().i32().unwrap(), -2);
    let d = sel().vabs().eval(&ctx, Some(Backend::Vec)).unwrap();
    assert!(d.is_vec());
    let got = d.into_vec().unwrap().to_typed::<Option<i32>>().unwrap();
    assert_eq!(got, vec![Some(1), Some(2), Some(3)]);
    let d = sel().vabs().eval(&ctx, Some(Backend::Polars)).unwrap();
    assert_eq!(opt_i32(d), vec![Some(1), Some(2), Some(3)]);
    // the plain absolute value is not defined on optional elements
    assert_eq!(sel().abs().eval(&ctx, None).err(), Some(Error::TypeMismatch));
    let d = sel()
        .vshift(lit(Scalar::I32(1)), None, None, None)
        .eval(&ctx, Some(Backend::Polars))
        .unwrap();
    assert_eq!(opt_i32(d), vec![None, Some(-1), Some(2)]);
    // the column is still there
    assert_eq!(opt_i32(ctx.data[0].clone()), vec![Some(-1), Some(2), Some(-3)]);
}

#[test]
fn evaluation_names_the_column_that_comes_out() {
    let ctx = Context::new(Data::from_series(column("a", &[1, 2])));
    let d = sel().alias("renamed").eval(&ctx, None).unwrap();
    assert_eq!(d.into_series().unwrap().name(), "renamed");
    let d = sel().eval(&ctx, None).unwrap();
    assert_eq!(d.into_series().unwrap().name(), "a");
}

#[test]
fn rolling_over_a_column_hands_on_columns() {
    let ctx = Context::new(Data::from_series(column("a", &[1, 2, 3])));
    let d = sel().rolling(2).apply(sel()).eval(&ctx, Some(Backend::Polars)).unwrap();
    let s = d.into_series().unwrap();
    assert_eq!(s.name(), "a");
    let got = s.into_column().to_typed::<Option<i32>>().unwrap();
    assert_eq!(got, vec![Some(1), Some(1), Some(2), Some(2), Some(3)]);
}

#[test]
fn concat_of_columns_appends_and_casts_to_the_first() {
    let wide = Series::new("w", DynVec::from_vec(vec![Some((1i64 << 32) + 3), None])).unwrap();
    let parts = vec![Data::from_series(column("a", &[1, 2])), Data::from_series(wide)];
    let d = tea_dyn::join::concat(parts, None, Backend::Vec).unwrap();
    assert!(d.is_series());
    let s = d.into_series().unwrap();
    assert_eq!(s.name(), "a");
    assert_eq!(s.dtype(), DataType::OptI32);
    let got = s.into_column().to_typed::<Option<i32>>().unwrap();
    assert_eq!(got, vec![Some(1), Some(2), Some(3), None]);
    let parts = vec![
        Data::from_series(column("a", &[1])),
        Data::from_vec(DynVec::from_vec(vec![1i32])),
    ];
    let r = tea_dyn::join::concat(parts, None, Backend::Vec);
    assert_eq!(r.err(), Some(Error::UnsupportedOperation));
    let parts = vec![
        Data::from_vec(DynVec::from_vec(vec![1i32])),
        Data::from_series(column("a", &[1])),
    ];
    let r = tea_dyn::join::concat(parts, None, Backend::Vec);
    assert_eq!(r.err(), Some(Error::UnsupportedOperation));
    let parts = vec![
        Data::from_vec(DynVec::from_vec(vec![1i32])),
        Data::from_vec(DynVec::from_vec(vec![2i64])),
    ];
    let d = tea_dyn::join::concat(parts, None, Backend::Polars).unwrap();
    assert_eq!(opt_i32(d), vec![Some(1), Some(2)]);
}

#[test]
fn a_column_made_by_a_transform_has_the_empty_name() {
    let ctx = Context::new(Data::from_series(column("a", &[-1, 2])));
    let d = sel().vabs().eval(&ctx, Some(Backend::Polars)).unwrap();
    assert_eq!(d.into_series().unwrap().name(), "");
    let d = sel().vabs().alias("b").eval(&ctx, Some(Backend::Polars)).unwrap();
    assert_eq!(d.into_series().unwrap().name(), "b");
    let d = sel().vabs().to_func(&ctx, Some(Backend::Polars)).unwrap();
    assert_eq!(d.into_series().unwrap().name(), "");
    let d = sel().to_func(&ctx, None).unwrap();
    assert_eq!(d.into_series().unwrap().name(), "a");
}
