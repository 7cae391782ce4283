use tea_dyn::expr::BaseFunc;
use tea_dyn::expr::BaseNode;
use tea_dyn::expr::Held;
use tea_dyn::join::detach_all;
use tea_dyn::join::join;
use tea_dyn::ops::abs_of;
use tea_dyn::ops::sum_of;
use tea_dyn::Backend;
use tea_dyn::Context;
use tea_dyn::Data;
use tea_dyn::DataType;
use tea_dyn::DynArray;
use tea_dyn::DynVec;
use tea_dyn::Error;
use tea_dyn::Expr;
use tea_dyn::GetDtype;
use tea_dyn::Node;
use tea_dyn::Payload;
use tea_dyn::Scalar;
use tea_dyn::SelectNode;
use tea_dyn::Series;
use tea_dyn::Symbol;

fn ints(values: &[i32]) -> DynVec<'static> {
    DynVec::from_vec(values.to_vec())
}

fn flat(p: Payload<'_>) -> Vec<i32> {
    p.into_titer().unwrap().collect_vec().unwrap().i32().unwrap()
}

fn grid() -> DynArray<'static> {
    let items = (1..=6).map(Scalar::I64).collect();
    DynArray::from_shape_vec(DataType::I64, vec![2, 3], items).unwrap()
}

#[test]
fn detach_hands_out_the_payload_of_the_only_handle() {
    let p = Data::from_vec(ints(&[4, 5])).detach().unwrap();
    assert!(matches!(p, Payload::Vec(_)));
    assert_eq!(p.dtype(), DataType::I32);
    assert_eq!(flat(p), vec![4, 5]);
}

#[test]
fn detach_copies_what_is_shared() {
    let data = Data::from_vec(ints(&[1, 2, 3]));
    let other = data.clone();
    assert_eq!(flat(data.detach().unwrap()), vec![1, 2, 3]);
    assert_eq!(flat(other.detach().unwrap()), vec![1, 2, 3]);
    let data = Data::from_array(grid());
    let other = data.clone();
    let a = data.detach().unwrap().into_array().unwrap();
    assert_eq!(a.dims(), vec![2, 3]);
    assert_eq!(other.len(), 6);
    let data = Data::from_scalar(Scalar::VecUsize(vec![0, 2]));
    let other = data.clone();
    assert_eq!(data.detach().unwrap().into_scalar().unwrap().vec_usize().unwrap(), vec![0, 2]);
    assert!(other.is_scalar());
}

#[test]
fn detach_refuses_a_shared_iterator() {
    let data = Data::from_titer(ints(&[1, 2]).into_titer().unwrap());
    let other = data.clone();
    assert_eq!(data.detach().err(), Some(Error::SharedOwnership));
    assert_eq!(flat(other.detach().unwrap()), vec![1, 2]);
}

#[test]
fn detach_keeps_the_name_of_a_column() {
    let column = Series::new("price", DynVec::from_vec(vec![Some(1i32), None])).unwrap();
    let data = Data::from_series(column);
    let other = data.clone();
    let p = data.detach().unwrap();
    match &p {
        Payload::Series(s) => {
            assert_eq!(s.name(), "price");
            assert_eq!(s.len(), 2);
        },
        _ => panic!("a column came out as something else"),
    }
    let back = p.into_data();
    assert!(back.is_series());
    assert!(other.is_series());
}

#[test]
fn payload_turns_into_an_iterator_or_says_why_not() {
    assert_eq!(flat(Payload::Scalar(Scalar::I32(7))), vec![7]);
    assert_eq!(flat(Payload::Vec(ints(&[1, 2]))), vec![1, 2]);
    let p = Payload::Array(grid());
    assert_eq!(p.ndim(), 2);
    assert_eq!(p.into_titer().err(), Some(Error::ShapeMismatch));
    let column = Series::new("a", DynVec::from_vec(vec![Some(1i32)])).unwrap();
    let p = Data::from_series(column).detach().unwrap();
    assert_eq!(p.into_titer().err(), Some(Error::UnsupportedOperation));
}

#[test]
fn payload_gives_its_one_scalar() {
    assert_eq!(Payload::Vec(ints(&[9])).into_scalar().unwrap().i32(), Ok(9));
    assert_eq!(Payload::Vec(ints(&[9, 9])).into_scalar().err(), Some(Error::ShapeMismatch));
    assert_eq!(Payload::Vec(ints(&[])).into_scalar().err(), Some(Error::ShapeMismatch));
    let it = ints(&[3]).into_titer().unwrap();
    assert_eq!(Payload::TrustIter(it).into_scalar().unwrap().i32(), Ok(3));
    let one = DynArray::from_shape_vec(DataType::I64, vec![1, 1], vec![Scalar::I64(-4)]).unwrap();
    assert_eq!(Payload::Array(one).into_scalar().unwrap().i64(), Ok(-4));
    let present = Series::new("a", DynVec::from_vec(vec![Some(5i32)])).unwrap();
    assert_eq!(Data::from_series(present).detach().unwrap().into_scalar().unwrap().i32(), Ok(5));
    let absent = Series::new("a", DynVec::from_vec(vec![None::<i32>])).unwrap();
    assert_eq!(
        Data::from_series(absent).detach().unwrap().into_scalar().err(),
        Some(Error::TypeMismatch)
    );
}

#[test]
fn payload_materialises_only_an_iterator() {
    let it = ints(&[1, 2]).into_titer().unwrap();
    let p = Payload::TrustIter(it).into_result(None).unwrap();
    assert!(matches!(p, Payload::Vec(_)));
    assert_eq!(flat(p), vec![1, 2]);
    let it = ints(&[1, 2]).into_titer().unwrap();
    match Payload::TrustIter(it).into_result(Some(Backend::Numpy)).unwrap() {
        Payload::Array(a) => assert_eq!(a.dims(), vec![2]),
        _ => panic!("the array backend gives an array"),
    }
    let it = ints(&[1, 2]).into_titer().unwrap();
    assert!(matches!(Payload::TrustIter(it).into_result(Some(Backend::Vec)), Ok(Payload::Vec(_))));
    let it = ints(&[1, 2]).into_titer().unwrap();
    match Payload::TrustIter(it).into_result(Some(Backend::Polars)).unwrap() {
        Payload::Series(s) => {
            assert_eq!(s.dtype(), DataType::OptI32);
            assert_eq!(s.name(), "");
        },
        _ => panic!("the column backend gives a column"),
    }
    let it = DynVec::from_vec(vec![1u8]).into_titer().unwrap();
    assert_eq!(
        Payload::TrustIter(it).into_result(Some(Backend::Polars)).err(),
        Some(Error::TypeMismatch)
    );
    assert!(matches!(Payload::Vec(ints(&[1])).into_result(Some(Backend::Numpy)), Ok(Payload::Vec(_))));
}

#[test]
fn payload_cut_loose_owns_its_storage() {
    let backing = vec![Scalar::I32(1), Scalar::I32(2)];
    let owned = {
        let borrowed = DynVec::borrowed(DataType::I32, &backing).unwrap();
        Payload::Vec(borrowed).into_owned(None).unwrap()
    };
    drop(backing);
    assert_eq!(flat(owned), vec![1, 2]);
    let it = ints(&[1, 2]).into_titer().unwrap();
    assert!(matches!(Payload::TrustIter(it).into_owned(None), Ok(Payload::Vec(_))));
}

#[test]
fn payload_takes_a_name_only_as_a_column() {
    let column = Series::new("a", DynVec::from_vec(vec![Some(1i32)])).unwrap();
    let p = Data::from_series(column).detach().unwrap().alias(Some("b"));
    match &p {
        Payload::Series(s) => assert_eq!(s.name(), "b"),
        _ => panic!("a column came out as something else"),
    }
    let p = p.alias(None);
    match &p {
        Payload::Series(s) => assert_eq!(s.name(), "b"),
        _ => panic!("a column came out as something else"),
    }
    assert_eq!(flat(Payload::Vec(ints(&[1])).alias(Some("b"))), vec![1]);
}

#[test]
fn sum_and_abs_of_a_payload() {
    assert_eq!(sum_of(Payload::Vec(ints(&[1, -2, 4]))).unwrap().into_scalar().unwrap().i32(), Ok(3));
    assert_eq!(sum_of(Payload::Vec(ints(&[]))).unwrap().into_scalar().unwrap().i32(), Ok(0));
    assert_eq!(sum_of(Payload::Vec(ints(&[i32::MAX, 1]))).err(), Some(Error::Overflow));
    assert_eq!(sum_of(Payload::Array(grid())).err(), Some(Error::ShapeMismatch));
    let column = Series::new("a", DynVec::from_vec(vec![Some(2i64), None, Some(5)])).unwrap();
    let p = Data::from_series(column).detach().unwrap();
    assert_eq!(sum_of(p).unwrap().into_scalar().unwrap().i64(), Ok(7));
    assert_eq!(flat(abs_of(Payload::Vec(ints(&[1, -2])), Backend::Vec, true).unwrap()), vec![1, 2]);
    assert_eq!(
        abs_of(Payload::Vec(ints(&[i32::MIN])), Backend::Vec, true).err(),
        Some(Error::Overflow)
    );
    let a = abs_of(Payload::Array(grid()), Backend::Vec, true).unwrap().into_array().unwrap();
    assert_eq!(a.dims(), vec![2, 3]);
    let opt = DynVec::from_vec(vec![Some(-1i32), None]);
    assert_eq!(abs_of(Payload::Vec(opt), Backend::Vec, true).err(), Some(Error::TypeMismatch));
    let opt = DynVec::from_vec(vec![Some(-1i32), None]);
    let out = abs_of(Payload::Vec(opt), Backend::Vec, false).unwrap();
    assert_eq!(
        out.into_titer().unwrap().collect_vec().unwrap().to_typed::<Option<i32>>().unwrap(),
        vec![Some(1), None]
    );
}

#[test]
fn join_of_payloads() {
    let none = join(Vec::new(), None, Backend::Numpy).unwrap();
    assert_eq!(none.dtype(), DataType::F64);
    assert!(matches!(none, Payload::Vec(_)));
    let one = join(vec![Payload::Scalar(Scalar::I32(1))], Some(3), Backend::Numpy).unwrap();
    assert_eq!(one.into_scalar().unwrap().i32(), Ok(1));
    let parts = vec![
        Payload::Vec(ints(&[1, 2])),
        Payload::Scalar(Scalar::I64(3)),
        Payload::TrustIter(DynVec::from_vec(vec![true, false]).into_titer().unwrap()),
    ];
    let joined = join(parts, None, Backend::Vec).unwrap();
    assert!(matches!(joined, Payload::Vec(_)));
    assert_eq!(flat(joined), vec![1, 2, 3, 1, 0]);
    let parts = vec![Payload::Vec(ints(&[1])), Payload::Array(grid())];
    assert_eq!(join(parts, None, Backend::Vec).err(), Some(Error::ShapeMismatch));
    let parts = vec![Payload::Array(grid()), Payload::Array(grid())];
    let joined = join(parts, Some(1), Backend::Vec).unwrap().into_array().unwrap();
    assert_eq!(joined.dims(), vec![2, 6]);
    assert_eq!(
        joined.to_flat().i64().unwrap(),
        vec![1, 2, 3, 1, 2, 3, 4, 5, 6, 4, 5, 6]
    );
}

#[test]
fn detach_all_keeps_the_order_and_stops_at_a_shared_iterator() {
    let es = vec![Data::from_vec(ints(&[1])), Data::from_scalar(Scalar::I32(2))];
    let ps = detach_all(es).unwrap();
    assert_eq!(ps.len(), 2);
    let mut ps = ps;
    assert_eq!(ps.pop().unwrap().into_scalar().unwrap().i32(), Ok(2));
    assert_eq!(flat(ps.pop().unwrap()), vec![1]);
    let lazy = Data::from_titer(ints(&[1]).into_titer().unwrap());
    let other = lazy.clone();
    let es = vec![Data::from_vec(ints(&[1])), lazy];
    assert_eq!(detach_all(es).err(), Some(Error::SharedOwnership));
    assert!(other.is_trust_iter());
}

#[test]
fn node_applies_to_a_payload() {
    let node = BaseNode { name: "sum", func: BaseFunc::Sum };
    let out = node.apply_to(Payload::Vec(ints(&[1, 2, 3])), Backend::Vec).unwrap();
    assert_eq!(out.into_scalar().unwrap().i32(), Ok(6));
    let inner = Expr::new(Node::Select(SelectNode { symbol: Symbol::I32(0) })).sum();
    let node = BaseNode {
        name: "rolling",
        func: BaseFunc::RollingApply { window: 2, expr: inner },
    };
    let it = ints(&[1, 2, 3, 4]).into_titer().unwrap();
    let out = node.apply_to(Payload::TrustIter(it), Backend::Vec).unwrap();
    assert_eq!(flat(out), vec![1, 3, 5, 7]);
    assert_eq!(
        node.apply_to(Payload::Scalar(Scalar::I32(1)), Backend::Vec).err(),
        Some(Error::UnsupportedOperation)
    );
    assert_eq!(
        node.apply_to(Payload::Array(grid()), Backend::Vec).err(),
        Some(Error::ShapeMismatch)
    );
}

#[test]
fn held_is_a_handle_or_a_payload() {
    let shared = Data::from_vec(ints(&[1, 2]));
    let other = shared.clone();
    assert_eq!(flat(Held::Handle(shared).detach().unwrap()), vec![1, 2]);
    assert_eq!(other.len(), 2);
    assert_eq!(flat(Held::Owned(Payload::Vec(ints(&[3]))).detach().unwrap()), vec![3]);
    assert!(Held::Owned(Payload::Scalar(Scalar::I32(1))).into_data().is_scalar());
    let lazy = Data::from_titer(ints(&[1]).into_titer().unwrap());
    let other = lazy.clone();
    assert_eq!(Held::Handle(lazy).detach().err(), Some(Error::SharedOwnership));
    assert!(other.is_trust_iter());
}

#[test]
fn evaluation_without_iterators_repeats() {
    let ctx = Context::new(Data::from_vec(ints(&[3, -1, 4])));
    let expr = Expr::new(Node::Select(SelectNode { symbol: Symbol::I32(0) })).abs().rolling(2).apply(
        Expr::new(Node::Select(SelectNode { symbol: Symbol::I32(0) })).sum(),
    );
    let first = expr.eval(&ctx, Some(Backend::Vec)).unwrap().into_vec().unwrap().i32().unwrap();
    let second = expr.eval(&ctx, Some(Backend::Vec)).unwrap().into_vec().unwrap().i32().unwrap();
    assert_eq!(first, vec![3, 4, 5]);
    assert_eq!(first, second);
    let copy = expr.duplicate();
    let third = copy.eval(&ctx, Some(Backend::Vec)).unwrap().into_vec().unwrap().i32().unwrap();
    assert_eq!(first, third);
}
