use tea_dyn::lit;
use tea_dyn::s;
use tea_dyn::Backend;
use tea_dyn::Context;
use tea_dyn::Data;
use tea_dyn::DataType;
use tea_dyn::DynArray;
use tea_dyn::DynVec;
use tea_dyn::Error;
use tea_dyn::GetDtype;
use tea_dyn::Scalar;
use tea_dyn::Symbol;

fn floats(values: &[f64]) -> DynVec<'static> {
    let items = values.iter().map(|v| Scalar::F64(v.to_bits())).collect();
    DynVec::new(DataType::F64, items).unwrap()
}

fn read_floats(v: &DynVec<'_>) -> Vec<f64> {
    (0..v.len())
        .map(|i| match v.get(i).unwrap() {
            Scalar::F64(bits) => f64::from_bits(bits),
            other => panic!("unexpected {:?}", other),
        })
        .collect()
}

#[test]
fn test_get_dtype() {
    let s = Scalar::F64(1.0f64.to_bits());
    assert_eq!(s.dtype(), DataType::F64);
}

#[test]
fn test_rolling_apply() {
    // rolling in vec
    let v = vec![1, 2, 3, 4, 5, 6, 7, 8, 9];
    let ctx = Context::new(Data::from_vec(DynVec::from_vec(v)));
    let res = s(Symbol::I32(0))
        .rolling(3)
        .apply(s(Symbol::I32(0)).sum())
        .eval(&ctx, Some(Backend::Vec))
        .unwrap()
        .into_vec()
        .unwrap()
        .i32()
        .unwrap();
    assert_eq!(res, vec![1, 3, 6, 9, 12, 15, 18, 21, 24]);
    // rolling in array
    let arr = DynArray::from_vec(DynVec::from_vec(vec![1, -2, 3, -4, 5, -6, 7, 8, 9])).unwrap();
    let ctx = Context::new(Data::from_array(arr));
    let res = s(Symbol::I32(0))
        .rolling(3)
        .apply(s(Symbol::I32(0)).abs().sum())
        .eval(&ctx, Some(Backend::Vec))
        .unwrap()
        .into_vec()
        .unwrap()
        .i32()
        .unwrap();
    assert_eq!(res, vec![1, 3, 6, 9, 12, 15, 18, 21, 24]);
}

#[test]
fn test_basic() {
    let ctx = Context {
        data: vec![
            Data::from_vec(floats(&[-1.0, 2.0, -3.0])),
            Data::from_titer(floats(&[2.]).into_titer().unwrap()),
            Data::from_scalar(Scalar::String("hello".to_owned())),
        ],
        backend: None,
        col_map: None,
    };
    // vec is still shared by context, so we will failed
    assert!(ctx.data[0].clone().into_vec().is_err());
    let res = s(Symbol::I32(0))
        .vabs()
        .abs()
        .eval(&ctx, Some(Backend::Vec))
        .unwrap()
        .into_vec()
        .unwrap();
    assert_eq!(res.dtype(), DataType::F64);
    assert_eq!(read_floats(&res), vec![1.0, 2.0, 3.0]);
    let res = s(Symbol::I32(2)).eval(&ctx, None).unwrap().into_scalar().unwrap().string().unwrap();
    assert_eq!(res.as_str(), "hello");
    // we cannot change context, so it should fail if the data is an iterator
    assert!(s(Symbol::I32(1)).abs().vabs().eval(&ctx, None).is_err());
}

#[test]
fn test_select_by_str() {
    let ctx = Context::new_from_data_column(
        vec![
            Data::from_vec(floats(&[-1.0, 2.0, -3.0])),
            Data::from_titer(floats(&[2.]).into_titer().unwrap()),
            Data::from_scalar(Scalar::String("hello".to_owned())),
        ],
        vec!["a".to_owned(), "b".to_owned(), "c".to_owned()],
    );
    let got = s(Symbol::from_name("c")).eval(&ctx, None).unwrap().into_scalar().unwrap();
    assert!(got.string().unwrap().as_str() == "hello");
}

#[test]
fn test_ndarray_backend() {
    let arr = DynArray::from_vec(floats(&[-1.0, 2.0, -3.0])).unwrap();
    let ctx = Context::new(Data::from_array(arr));
    let expr = s(Symbol::I32(0)).abs().abs();
    let res = expr.eval(&ctx, Some(Backend::Numpy)).unwrap();
    assert!(res.is_array());
    let res = res.into_vec().unwrap();
    assert_eq!(read_floats(&res), vec![1.0, 2.0, 3.0]);
}

#[test]
fn shared_vec_cannot_be_consumed_until_the_other_handle_is_dropped() {
    let data = Data::from_vec(DynVec::from_vec(vec![1i64, 2, 3]));
    let first = data.clone();
    let second = data.clone();
    drop(data);
    // two handles: neither may consume
    let second = match second.into_vec() {
        Err(e) => {
            assert_eq!(e, Error::SharedOwnership);
            first.clone()
        }
        Ok(_) => panic!("a shared sequence was consumed"),
    };
    drop(first);
    // one handle left
    assert_eq!(second.into_vec().unwrap().i64().unwrap(), vec![1, 2, 3]);
}

#[test]
fn literal_evaluates_to_its_scalar() {
    let ctx = Context::default();
    let got = lit(Scalar::I32(7)).eval(&ctx, None).unwrap().into_scalar().unwrap();
    assert_eq!(got.i32().unwrap(), 7);
}

#[test]
fn test_nd_expr() {
    let items = [1, -2, 3, 4, 5, -6, -7, 8, 9].into_iter().map(Scalar::I32).collect();
    let square = DynArray::from_shape_vec(DataType::I32, vec![3, 3], items).unwrap();
    let ctx = Context::new(Data::from_array(square));
    let expr = s(Symbol::I32(0)).abs().vshift(
        lit(Scalar::I32(1)),
        Some(lit(Scalar::I32(0))),
        None,
        None,
    );
    let res = expr.eval(&ctx, None).unwrap().into_array().unwrap();
    assert_eq!(res.dims(), vec![3, 3]);
    assert_eq!(res.to_flat().i32().unwrap(), vec![0, 0, 0, 1, 2, 3, 4, 5, 6]);
}

#[test]
fn shift_along_the_second_axis_moves_within_rows() {
    let items = (1..=6).map(Scalar::I32).collect();
    let a = DynArray::from_shape_vec(DataType::I32, vec![2, 3], items).unwrap();
    let back = a.clone_inner().shift_axis(1, 1, Scalar::I32(0)).unwrap();
    assert_eq!(back.to_flat().i32().unwrap(), vec![0, 1, 2, 0, 4, 5]);
    let front = a.clone_inner().shift_axis(1, -2, Scalar::I32(0)).unwrap();
    assert_eq!(front.to_flat().i32().unwrap(), vec![3, 0, 0, 6, 0, 0]);
    let rows = a.clone_inner().shift_axis(0, -1, Scalar::I32(7)).unwrap();
    assert_eq!(rows.to_flat().i32().unwrap(), vec![4, 5, 6, 7, 7, 7]);
    let far = a.clone_inner().shift_axis(0, 5, Scalar::I32(7)).unwrap();
    assert_eq!(far.to_flat().i32().unwrap(), vec![7, 7, 7, 7, 7, 7]);
    assert_eq!(a.shift_axis(2, 1, Scalar::I32(0)).err(), Some(Error::ShapeMismatch));
}

#[test]
fn shift_of_a_cube_along_its_middle_axis() {
    let items = (0..12).map(Scalar::I64).collect();
    let cube = DynArray::from_shape_vec(DataType::I64, vec![2, 3, 2], items).unwrap();
    let ctx = Context::new(Data::from_array(cube));
    let expr = s(Symbol::I32(0)).vshift(
        lit(Scalar::I32(1)),
        Some(lit(Scalar::I64(-1))),
        Some(1),
        None,
    );
    let res = expr.eval(&ctx, None).unwrap().into_array().unwrap();
    assert_eq!(res.dims(), vec![2, 3, 2]);
    assert_eq!(res.to_flat().i64().unwrap(), vec![-1, -1, 0, 1, 2, 3, -1, -1, 6, 7, 8, 9]);
    let expr = s(Symbol::I32(0)).vshift(
        lit(Scalar::I32(1)),
        Some(lit(Scalar::I64(-1))),
        Some(3),
        None,
    );
    assert_eq!(expr.eval(&ctx, None).err(), Some(Error::ShapeMismatch));
}

#[test]
fn without_a_backend_the_result_is_flat() {
    let ctx = Context::new(Data::from_vec(floats(&[-1.0, 2.0])));
    let d = s(Symbol::I32(0)).vabs().eval(&ctx, None).unwrap();
    assert!(d.is_vec());
    assert_eq!(read_floats(&d.into_vec().unwrap()), vec![1.0, 2.0]);
    // the backend of the context comes before the default
    let mut named = Context::new(Data::from_vec(floats(&[-1.0, 2.0])));
    named.backend = Some(Backend::Numpy);
    let d = s(Symbol::I32(0)).vabs().eval(&named, None).unwrap();
    assert!(d.is_array());
    // and the caller's before the context's
    let d = s(Symbol::I32(0)).vabs().eval(&named, Some(Backend::Vec)).unwrap();
    assert!(d.is_vec());
    assert_eq!(named.backend_for(None), Backend::Numpy);
    assert_eq!(ctx.backend_for(None), Backend::Vec);
    assert_eq!(ctx.backend_for(Some(Backend::Pandas)), Backend::Pandas);
}

#[test]
fn a_lazy_column_that_is_not_selected_does_no_harm() {
    let ctx = Context {
        data: vec![
            Data::from_vec(floats(&[-1.0, 2.0, -3.0])),
            Data::from_titer(floats(&[2.]).into_titer().unwrap()),
        ],
        backend: None,
        col_map: None,
    };
    let zero = lit(Scalar::F64(0.0f64.to_bits()));
    let e = s(Symbol::I32(0)).vabs().vshift(lit(Scalar::I32(1)), Some(zero), None, None);
    let d = e.eval(&ctx, None).unwrap().into_vec().unwrap();
    assert_eq!(read_floats(&d), vec![0.0, 1.0, 2.0]);
    // the lazy column itself belongs to the context
    assert_eq!(s(Symbol::I32(1)).vabs().eval(&ctx, None).err(), Some(Error::SharedOwnership));
    // and so does a shift whose distance is read from it
    let e = s(Symbol::I32(0)).vshift(s(Symbol::I32(1)), None, None, None);
    assert!(e.eval(&ctx, None).is_err());
}
