use tea_dyn::join::concat_iter;
use tea_dyn::s;
use tea_dyn::Backend;
use tea_dyn::Context;
use tea_dyn::Data;
use tea_dyn::DataType;
use tea_dyn::DynArray;
use tea_dyn::DynVec;
use tea_dyn::Error;
use tea_dyn::Expr;
use tea_dyn::GetDtype;
use tea_dyn::Scalar;
use tea_dyn::Symbol;

fn ints(values: &[i32]) -> Data<'static> {
    Data::from_vec(DynVec::from_vec(values.to_vec()))
}

fn sel() -> Expr {
    s(Symbol::I32(0))
}

fn lazy(values: &[i32]) -> Data<'static> {
    Data::from_titer(DynVec::from_vec(values.to_vec()).into_titer().unwrap())
}

fn matrix(rows: usize, start: i64) -> Data<'static> {
    let n = rows as i64 * 2;
    let items = (start..start + n).map(Scalar::I64).collect();
    Data::from_array(DynArray::from_shape_vec(DataType::I64, vec![rows, 2], items).unwrap())
}

#[test]
fn rolling_sum_uses_what_there_is_at_the_start() {
    let ctx = Context::new(ints(&[1, 2, 3, 4, 5, 6, 7, 8, 9]));
    let e = sel().rolling(3).apply(sel().sum());
    let got = e.eval(&ctx, Some(Backend::Vec)).unwrap().into_vec().unwrap().i32().unwrap();
    assert_eq!(got, vec![1, 3, 6, 9, 12, 15, 18, 21, 24]);
}

#[test]
fn rolling_with_map_before_aggregate() {
    let ctx = Context::new(ints(&[1, -2, 3, -4, 5, -6, 7, 8, 9]));
    let e = sel().rolling(3).apply(sel().abs().sum());
    let got = e.eval(&ctx, Some(Backend::Vec)).unwrap().into_vec().unwrap().i32().unwrap();
    assert_eq!(got, vec![1, 3, 6, 9, 12, 15, 18, 21, 24]);
}

#[test]
fn rolling_window_sizes() {
    let ctx = Context::new(ints(&[1, 2, 3, 4]));
    let run = |w: usize| {
        sel()
            .rolling(w)
            .apply(sel().sum())
            .eval(&ctx, Some(Backend::Vec))
            .unwrap()
            .into_vec()
            .unwrap()
            .i32()
            .unwrap()
    };
    assert_eq!(run(1), vec![1, 2, 3, 4]);
    assert_eq!(run(2), vec![1, 3, 5, 7]);
    assert_eq!(run(4), vec![1, 3, 6, 10]);
    assert_eq!(run(100), vec![1, 3, 6, 10]);
    let r = sel().rolling(0).apply(sel().sum()).eval(&ctx, None);
    assert_eq!(r.err(), Some(Error::OutOfBounds { idx: 0, len: 4 }));
}

#[test]
fn rolling_over_an_iterator_drains_it_first() {
    let e = sel().abs().rolling(2).apply(sel().sum());
    let ctx = Context::new(ints(&[-1, 2, -3]));
    let got = e.eval(&ctx, Some(Backend::Vec)).unwrap().into_vec().unwrap().i32().unwrap();
    assert_eq!(got, vec![1, 3, 5]);
    // an iterator that the context still holds cannot be drained
    let ctx = Context::new(lazy(&[1, 2]));
    let r = sel().rolling(2).apply(sel().sum()).eval(&ctx, None);
    assert_eq!(r.err(), Some(Error::SharedOwnership));
}

#[test]
fn rolling_is_not_for_scalars_nor_for_matrices() {
    let ctx = Context::new(Data::from_scalar(Scalar::I32(1)));
    let r = sel().rolling(2).apply(sel().sum()).eval(&ctx, None);
    assert_eq!(r.err(), Some(Error::UnsupportedOperation));
    let ctx = Context::new(matrix(2, 0));
    let r = sel().rolling(2).apply(sel().sum()).eval(&ctx, None);
    assert_eq!(r.err(), Some(Error::ShapeMismatch));
}

#[test]
fn rolling_over_nothing_gives_the_empty_default() {
    let ctx = Context::new(Data::from_vec(DynVec::from_vec(Vec::<i32>::new())));
    let d = sel().rolling(3).apply(sel().sum()).eval(&ctx, Some(Backend::Vec)).unwrap();
    assert!(d.is_vec());
    assert_eq!(d.len(), 0);
    assert_eq!(d.dtype(), DataType::F64);
}

#[test]
fn rolling_over_one_element_returns_its_result_directly() {
    let ctx = Context::new(ints(&[5]));
    let d = sel().rolling(3).apply(sel().sum()).eval(&ctx, Some(Backend::Vec)).unwrap();
    assert!(d.is_scalar());
    assert_eq!(d.into_scalar().unwrap().i32().unwrap(), 5);
}

#[test]
fn rolling_over_an_array_windows_are_arrays() {
    let arr = DynArray::from_vec(DynVec::from_vec(vec![1i64, 2, 3])).unwrap();
    let ctx = Context::new(Data::from_array(arr));
    // each window comes back whole, so the join puts them one after the other
    let e = sel().rolling(2).apply(sel());
    let d = e.eval(&ctx, Some(Backend::Numpy)).unwrap();
    assert!(d.is_array());
    assert_eq!(d.into_vec().unwrap().i64().unwrap(), vec![1, 1, 2, 2, 3]);
}

#[test]
fn rolling_fails_with_its_first_failing_window() {
    let ctx = Context::new(ints(&[i32::MAX, 1, 1]));
    let r = sel().rolling(2).apply(sel().sum()).eval(&ctx, None);
    assert_eq!(r.err(), Some(Error::Overflow));
}

#[test]
fn concat_of_nothing_is_the_empty_default() {
    for backend in [Backend::Vec, Backend::Numpy, Backend::Pandas] {
        let d = tea_dyn::join::concat(vec![], None, backend).unwrap();
        assert!(d.is_vec());
        assert_eq!(d.len(), 0);
        assert_eq!(d.dtype(), DataType::F64);
    }
    let v = concat_iter(vec![], Some(3)).unwrap();
    assert!(v.is_empty());
    assert_eq!(v.dtype(), DataType::F64);
}

#[test]
fn concat_of_one_part_is_that_part() {
    let d = tea_dyn::join::concat(vec![lazy(&[1, 2])], None, Backend::Numpy).unwrap();
    assert!(d.is_trust_iter());
    assert_eq!(d.into_vec().unwrap().i32().unwrap(), vec![1, 2]);
}

#[test]
fn concat_takes_the_leading_type_and_narrows_the_rest() {
    let wide = DynVec::from_vec(vec![3i64, (1i64 << 32) + 4]).into_titer().unwrap();
    let parts = vec![lazy(&[1, 2]), Data::from_titer(wide)];
    let d = tea_dyn::join::concat(parts, None, Backend::Vec).unwrap();
    assert_eq!(d.dtype(), DataType::I32);
    assert_eq!(d.into_vec().unwrap().i32().unwrap(), vec![1, 2, 3, 4]);
    let a = DynVec::from_vec(vec![3i64]).into_titer().unwrap();
    let b = DynVec::from_vec(vec![4i32, 5]).into_titer().unwrap();
    let v = concat_iter(vec![a, b], None).unwrap();
    assert_eq!(v.dtype(), DataType::I64);
    assert_eq!(v.i64().unwrap(), vec![3, 4, 5]);
}

#[test]
fn concat_mixes_kinds_of_at_most_one_axis() {
    let arr = DynArray::from_vec(DynVec::from_vec(vec![7i32])).unwrap();
    let parts = vec![
        ints(&[1]),
        Data::from_scalar(Scalar::I32(2)),
        lazy(&[3, 4]),
        Data::from_array(arr),
    ];
    let d = tea_dyn::join::concat(parts, None, Backend::Numpy).unwrap();
    assert!(d.is_array());
    assert_eq!(d.into_vec().unwrap().i32().unwrap(), vec![1, 2, 3, 4, 7]);
}

#[test]
fn concat_refuses_what_cannot_be_cast_or_flattened() {
    let text = Data::from_scalar(Scalar::String("x".to_owned()));
    let r = tea_dyn::join::concat(vec![ints(&[1]), text], None, Backend::Vec);
    assert_eq!(r.err(), Some(Error::TypeMismatch));
    let r = tea_dyn::join::concat(vec![ints(&[1]), matrix(1, 0)], None, Backend::Vec);
    assert_eq!(r.err(), Some(Error::ShapeMismatch));
    let shared = lazy(&[1]);
    let keep = shared.clone();
    let r = tea_dyn::join::concat(vec![ints(&[1]), shared], None, Backend::Vec);
    assert_eq!(r.err(), Some(Error::SharedOwnership));
    drop(keep);
}

#[test]
fn concat_of_matrices_along_the_first_axis() {
    for axis in [None, Some(0)] {
        let d = tea_dyn::join::concat(vec![matrix(1, 0), matrix(2, 10)], axis, Backend::Vec);
        let a = d.unwrap().into_array().unwrap();
        assert_eq!(a.dims(), vec![3, 2]);
        assert_eq!(a.dtype(), DataType::I64);
        assert_eq!(a.to_flat().i64().unwrap(), vec![0, 1, 10, 11, 12, 13]);
    }
}

#[test]
fn concat_of_matrices_along_the_second_axis() {
    let d = tea_dyn::join::concat(vec![matrix(2, 0), matrix(2, 10)], Some(1), Backend::Vec);
    let a = d.unwrap().into_array().unwrap();
    assert_eq!(a.dims(), vec![2, 4]);
    assert_eq!(a.to_flat().i64().unwrap(), vec![0, 1, 10, 11, 2, 3, 12, 13]);
}

#[test]
fn concat_array_error_on_shapes_that_do_not_fit() {
    let three_wide = {
        let items = (0..3).map(Scalar::I64).collect();
        Data::from_array(DynArray::from_shape_vec(DataType::I64, vec![1, 3], items).unwrap())
    };
    let r = tea_dyn::join::concat(vec![matrix(1, 0), three_wide], None, Backend::Vec);
    assert_eq!(r.err(), Some(Error::ShapeMismatch));
    assert_eq!(Error::ShapeMismatch.message(), "concat array error");
    // the axis must be one of the array
    let r = tea_dyn::join::concat(vec![matrix(1, 0), matrix(1, 0)], Some(2), Backend::Vec);
    assert_eq!(r.err(), Some(Error::ShapeMismatch));
    // a flat part has one axis, a matrix two
    let flat = Data::from_vec(DynVec::from_vec(vec![1i64]));
    let r = tea_dyn::join::concat(vec![matrix(1, 0), flat], None, Backend::Vec);
    assert_eq!(r.err(), Some(Error::ShapeMismatch));
    let one = Data::from_scalar(Scalar::I64(1));
    let r = tea_dyn::join::concat(vec![matrix(1, 0), one], None, Backend::Vec);
    assert_eq!(r.err(), Some(Error::UnsupportedOperation));
    let text = Data::from_vec(DynVec::from_vec(vec!["x".to_owned()]));
    let r = tea_dyn::join::concat(vec![matrix(1, 0), text], None, Backend::Vec);
    assert_eq!(r.err(), Some(Error::TypeMismatch));
}

fn block(shape: &[usize], start: i64) -> (Vec<usize>, Vec<i64>) {
    let size: usize = shape.iter().product();
    (shape.to_vec(), (start..start + size as i64).collect())
}

// the element at each position of a join, found by index arithmetic
fn joined_by_hand(axis: usize, parts: &[(Vec<usize>, Vec<i64>)]) -> Vec<i64> {
    let first = &parts[0].0;
    let stride: usize = first[axis + 1..].iter().product();
    let lanes: usize = first[..axis].iter().product();
    let total: usize = parts.iter().map(|p| p.0[axis]).sum();
    let mut out = Vec::new();
    for i in 0..lanes * total * stride {
        let at = (i / stride) % total;
        let lane = i / (stride * total);
        let mut p = 0;
        let mut begin = 0;
        for (k, part) in parts.iter().enumerate() {
            if begin <= at {
                p = k;
            }
            begin += part.0[axis];
        }
        let before: usize = parts[..p].iter().map(|q| q.0[axis]).sum();
        let len = parts[p].0[axis];
        out.push(parts[p].1[(lane * len + (at - before)) * stride + i % stride]);
    }
    out
}

fn joined_by_the_library(axis: usize, parts: &[(Vec<usize>, Vec<i64>)]) -> (Vec<usize>, Vec<i64>) {
    let es = parts
        .iter()
        .map(|(shape, values)| {
            let items = values.iter().map(|v| Scalar::I64(*v)).collect();
            Data::from_array(DynArray::from_shape_vec(DataType::I64, shape.clone(), items).unwrap())
        })
        .collect();
    let a = tea_dyn::join::concat(es, Some(axis), Backend::Numpy).unwrap().into_array().unwrap();
    (a.dims(), a.to_flat().i64().unwrap())
}

#[test]
fn join_along_any_axis_puts_the_parts_one_behind_the_other() {
    let parts = vec![block(&[2, 3], 0), block(&[2, 1], 100), block(&[2, 2], 200)];
    let (dims, got) = joined_by_the_library(1, &parts);
    assert_eq!(dims, vec![2, 6]);
    assert_eq!(got, vec![0, 1, 2, 100, 200, 201, 3, 4, 5, 101, 202, 203]);
    assert_eq!(got, joined_by_hand(1, &parts));
    let parts = vec![block(&[2, 3, 2], 0), block(&[2, 1, 2], 100), block(&[2, 0, 2], 0), block(&[2, 2, 2], 200)];
    let (dims, got) = joined_by_the_library(1, &parts);
    assert_eq!(dims, vec![2, 6, 2]);
    assert_eq!(got, joined_by_hand(1, &parts));
    let parts = vec![block(&[2, 2, 1], 0), block(&[2, 2, 3], 100)];
    let (dims, got) = joined_by_the_library(2, &parts);
    assert_eq!(dims, vec![2, 2, 4]);
    assert_eq!(got, vec![0, 100, 101, 102, 1, 103, 104, 105, 2, 106, 107, 108, 3, 109, 110, 111]);
    assert_eq!(got, joined_by_hand(2, &parts));
    let parts = vec![block(&[1, 2, 2], 0), block(&[3, 2, 2], 100)];
    let (dims, got) = joined_by_the_library(0, &parts);
    assert_eq!(dims, vec![4, 2, 2]);
    assert_eq!(got, joined_by_hand(0, &parts));
    let whole: Vec<i64> = parts.iter().flat_map(|p| p.1.clone()).collect();
    assert_eq!(got, whole);
}
