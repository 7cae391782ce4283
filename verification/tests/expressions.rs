use tea_dyn::lit;
use tea_dyn::s;
use tea_dyn::Backend;
use tea_dyn::ColMap;
use tea_dyn::Context;
use tea_dyn::Data;
use tea_dyn::DataType;
use tea_dyn::DynArray;
use tea_dyn::DynVec;
use tea_dyn::Error;
use tea_dyn::Expr;
use tea_dyn::GetDtype;
use tea_dyn::Scalar;
use tea_dyn::Symbol;

fn ints(values: &[i32]) -> Data<'static> {
    Data::from_vec(DynVec::from_vec(values.to_vec()))
}

fn three() -> Context<'static> {
    Context::new_from_data_column(
        vec![ints(&[1, 2]), ints(&[3]), Data::from_scalar(Scalar::String("hello".to_owned()))],
        vec!["a".to_owned(), "b".to_owned(), "c".to_owned()],
    )
}

fn sel(i: i32) -> Expr {
    s(Symbol::I32(i))
}

#[test]
fn select_at_the_edges() {
    let ctx = three();
    assert_eq!(ctx.len(), 3);
    assert!(!ctx.is_empty());
    assert!(ctx.get(&Symbol::Usize(2)).is_ok());
    assert_eq!(ctx.get(&Symbol::Usize(3)).err(), Some(Error::OutOfBounds { idx: 3, len: 3 }));
    assert_eq!(ctx.get(&Symbol::I32(3)).err(), Some(Error::OutOfBounds { idx: 3, len: 3 }));
    assert_eq!(ctx.get(&Symbol::I32(-4)).err(), Some(Error::OutOfBounds { idx: 4, len: 3 }));
    let last = ctx.get(&Symbol::I32(-1)).unwrap().clone();
    assert_eq!(last.into_scalar().unwrap().string().unwrap(), "hello");
    let first = ctx.get(&Symbol::I32(-3)).unwrap().clone();
    assert_eq!(first.len(), 2);
    assert!(Context::default().get(&Symbol::I32(-1)).is_err());
    assert!(Context::default().get(&Symbol::Usize(0)).is_err());
}

#[test]
fn select_by_name_is_select_by_position() {
    let ctx = three();
    let by_name = s(Symbol::from_name("c")).eval(&ctx, None).unwrap();
    let by_position = s(Symbol::Usize(2)).eval(&ctx, None).unwrap();
    assert_eq!(
        by_name.into_scalar().unwrap().string().unwrap(),
        by_position.into_scalar().unwrap().string().unwrap()
    );
    let b = s(Symbol::from_name("b")).eval(&ctx, None).unwrap();
    assert_eq!(b.len(), 1);
}

#[test]
fn names_need_a_map_that_binds_them() {
    let ctx = three();
    let r = s(Symbol::from_name("zzz")).eval(&ctx, None);
    assert_eq!(r.err(), Some(Error::MissingBinding));
    let bare = Context::new(ints(&[1]));
    let r = s(Symbol::from_name("a")).eval(&bare, None);
    assert_eq!(r.err(), Some(Error::MissingBinding));
}

#[test]
fn a_repeated_name_means_its_last_column() {
    let ctx = Context::new_from_data_column(
        vec![ints(&[1]), ints(&[2, 3])],
        vec!["x".to_owned(), "x".to_owned()],
    );
    let d = s(Symbol::from_name("x")).eval(&ctx, None).unwrap();
    assert_eq!(d.len(), 2);
}

#[test]
fn column_map_replaces_and_finds() {
    let mut map = ColMap::new();
    assert_eq!(map.get("a"), None);
    map.insert("a".to_owned(), 1);
    map.insert("b".to_owned(), 2);
    map.insert("a".to_owned(), 5);
    assert_eq!(map.get("a"), Some(5));
    assert_eq!(map.get("b"), Some(2));
    assert_eq!(map.get("c"), None);
    let ctx = Context { data: vec![ints(&[1])], backend: None, col_map: Some(map) };
    // the map may point past the columns
    let r = ctx.get(&Symbol::from_name("a"));
    assert_eq!(r.err(), Some(Error::OutOfBounds { idx: 5, len: 1 }));
}

#[test]
fn symbols_carry_names() {
    assert_eq!(Symbol::from_name("n").name(), Some("n"));
    assert_eq!(Symbol::I32(1).name(), None);
    assert_eq!(Symbol::Usize(1).name(), None);
    assert_eq!(Symbol::from_name("n").clone().name(), Some("n"));
    let e = s(Symbol::from_name("col"));
    assert_eq!(e.name.as_deref(), Some("col"));
    let e = e.sum();
    assert_eq!(e.name.as_deref(), Some("col"));
    assert_eq!(sel(0).name, None);
    assert_eq!(sel(0).alias("x").name.as_deref(), Some("x"));
    assert_eq!(sel(0).nodes.len(), 1);
    assert_eq!(sel(0).abs().vabs().sum().nodes.len(), 4);
}

#[test]
fn empty_chain_has_no_data() {
    let ctx = three();
    let e = Expr { name: None, nodes: vec![] };
    assert_eq!(e.eval(&ctx, None).err(), Some(Error::NoData));
    assert_eq!(e.to_func(&ctx, None).err(), Some(Error::NoData));
}

#[test]
fn transform_needs_something_selected() {
    let ctx = three();
    let e = Expr { name: None, nodes: vec![] }.sum();
    assert_eq!(e.eval(&ctx, None).err(), Some(Error::NoInput));
    let e = Expr { name: None, nodes: vec![] }.vshift(lit(Scalar::I32(1)), None, None, None);
    assert_eq!(e.eval(&ctx, None).err(), Some(Error::NoInput));
}

#[test]
fn later_select_replaces_what_came_before() {
    let ctx = three();
    let e = sel(0).sum().chain(sel(1).nodes.into_iter().next().unwrap());
    let d = e.eval(&ctx, None).unwrap();
    assert_eq!(d.into_vec().err(), Some(Error::SharedOwnership));
}

#[test]
fn sum_of_a_column() {
    let ctx = Context::new(ints(&[1, 2, 3, -10]));
    let d = sel(0).sum().eval(&ctx, None).unwrap();
    assert!(d.is_scalar());
    assert_eq!(d.into_scalar().unwrap().i32().unwrap(), -4);
    let ctx = Context::new(Data::from_vec(DynVec::from_vec(vec![Some(5i64), None, Some(6)])));
    let d = sel(0).sum().eval(&ctx, None).unwrap();
    assert_eq!(d.into_scalar().unwrap().i64().unwrap(), 11);
    let ctx = Context::new(Data::from_vec(DynVec::from_vec(Vec::<u64>::new())));
    let d = sel(0).sum().eval(&ctx, None).unwrap();
    assert_eq!(d.into_scalar().unwrap().u64().unwrap(), 0);
    let ctx = Context::new(Data::from_vec(DynVec::from_vec(vec![None::<usize>, None])));
    let d = sel(0).sum().eval(&ctx, None).unwrap();
    assert_eq!(d.into_scalar().unwrap().usize().unwrap(), 0);
}

#[test]
fn sum_that_leaves_the_range_overflows() {
    let ctx = Context::new(ints(&[i32::MAX, 1, -5]));
    assert_eq!(sel(0).sum().eval(&ctx, None).err(), Some(Error::Overflow));
    let ctx = Context::new(ints(&[i32::MAX, -5, 1]));
    assert_eq!(
        sel(0).sum().eval(&ctx, None).unwrap().into_scalar().unwrap().i32().unwrap(),
        i32::MAX - 4
    );
}

#[test]
fn kernels_choose_by_element_type() {
    let text = Context::new(Data::from_vec(DynVec::from_vec(vec!["a".to_owned()])));
    assert_eq!(sel(0).sum().eval(&text, None).err(), Some(Error::TypeMismatch));
    assert_eq!(sel(0).abs().eval(&text, None).err(), Some(Error::TypeMismatch));
    let bits = vec![Scalar::F64(1.0f64.to_bits())];
    let floats = Context::new(Data::from_vec(DynVec::new(DataType::F64, bits).unwrap()));
    // the library has no sum of floats
    assert_eq!(sel(0).sum().eval(&floats, None).err(), Some(Error::UnsupportedOperation));
    assert!(sel(0).vabs().eval(&floats, None).is_ok());
    let opts = Context::new(Data::from_vec(DynVec::from_vec(vec![Some(-1i32), None])));
    // the plain absolute value is not defined on optional elements
    assert_eq!(sel(0).abs().eval(&opts, None).err(), Some(Error::TypeMismatch));
    let d = sel(0).vabs().eval(&opts, Some(Backend::Vec)).unwrap();
    assert_eq!(d.into_vec().unwrap().to_typed::<Option<i32>>().unwrap(), vec![Some(1), None]);
}

#[test]
fn absolute_values() {
    let ctx = Context::new(ints(&[-1, 2, -3]));
    let d = sel(0).abs().eval(&ctx, Some(Backend::Vec)).unwrap();
    assert_eq!(d.into_vec().unwrap().i32().unwrap(), vec![1, 2, 3]);
    let ctx = Context::new(ints(&[i32::MIN]));
    assert_eq!(sel(0).abs().eval(&ctx, None).err(), Some(Error::Overflow));
    let ctx = Context::new(Data::from_vec(DynVec::from_vec(vec![5u64, 0])));
    let d = sel(0).vabs().eval(&ctx, Some(Backend::Vec)).unwrap();
    assert_eq!(d.into_vec().unwrap().to_typed::<u64>().unwrap(), vec![5, 0]);
    let items = vec![-1, 2, -3, 4].into_iter().map(Scalar::I64).collect();
    let square = DynArray::from_shape_vec(DataType::I64, vec![2, 2], items).unwrap();
    let ctx = Context::new(Data::from_array(square));
    let d = sel(0).abs().eval(&ctx, None).unwrap();
    let a = d.into_array().unwrap();
    assert_eq!(a.dims(), vec![2, 2]);
    assert_eq!(a.to_flat().i64().unwrap(), vec![1, 2, 3, 4]);
}

#[test]
fn absolute_value_of_floats_clears_the_sign() {
    let values = [-1.5f64, 0.0, -0.0, f64::NEG_INFINITY, f64::NAN, -f64::NAN, f64::MIN];
    let bits = values.iter().map(|v| Scalar::F64(v.to_bits())).collect();
    let ctx = Context::new(Data::from_vec(DynVec::new(DataType::F64, bits).unwrap()));
    let out = sel(0).abs().eval(&ctx, Some(Backend::Vec)).unwrap().into_vec().unwrap();
    for (i, v) in values.iter().enumerate() {
        match out.get(i).unwrap() {
            Scalar::F64(b) => assert_eq!(b, v.abs().to_bits()),
            other => panic!("unexpected {:?}", other),
        }
    }
    let small = [Some(-2.5f32), None, Some(f32::NAN)];
    let bits = small.iter().map(|v| Scalar::OptF32(v.map(f32::to_bits))).collect();
    let ctx = Context::new(Data::from_vec(DynVec::new(DataType::OptF32, bits).unwrap()));
    let out = sel(0).vabs().eval(&ctx, Some(Backend::Vec)).unwrap().into_vec().unwrap();
    assert!(matches!(out.get(0).unwrap(), Scalar::OptF32(Some(b)) if f32::from_bits(b) == 2.5));
    assert!(matches!(out.get(1).unwrap(), Scalar::OptF32(None)));
    // a present float that is not a number comes out absent
    assert!(matches!(out.get(2).unwrap(), Scalar::OptF32(None)));
    assert_eq!(sel(0).abs().eval(&ctx, None).err(), Some(Error::TypeMismatch));
}

#[test]
fn backend_is_the_callers_then_the_contexts() {
    let mut ctx = Context::new(ints(&[-1, 2]));
    // neither names one: the flat default
    let d = sel(0).abs().eval(&ctx, None).unwrap();
    assert!(d.is_vec());
    let d = sel(0).abs().eval(&ctx, Some(Backend::Numpy)).unwrap();
    assert!(d.is_array());
    ctx.backend = Some(Backend::Numpy);
    let d = sel(0).abs().eval(&ctx, None).unwrap();
    assert!(d.is_array());
    let d = sel(0).abs().eval(&ctx, Some(Backend::Vec)).unwrap();
    assert!(d.is_vec());
    ctx.backend = Some(Backend::Vec);
    let d = sel(0).abs().eval(&ctx, Some(Backend::Pandas)).unwrap();
    assert!(d.is_array());
    let d = sel(0).abs().to_func(&ctx, None).unwrap();
    assert!(d.is_trust_iter());
}

#[test]
fn backend_aliases() {
    assert_eq!(Backend::from_alias("vec"), Some(Backend::Vec));
    assert_eq!(Backend::from_alias("list"), Some(Backend::Vec));
    assert_eq!(Backend::from_alias("numpy"), Some(Backend::Numpy));
    assert_eq!(Backend::from_alias("np"), Some(Backend::Numpy));
    assert_eq!(Backend::from_alias("pandas"), Some(Backend::Pandas));
    assert_eq!(Backend::from_alias("pd"), Some(Backend::Pandas));
    assert_eq!(Backend::from_alias("polars"), None);
    assert_eq!(Backend::default(), Backend::Vec);
    assert!(Backend::Numpy.is_array());
    assert!(!Backend::Vec.is_array());
}

#[test]
fn shift_moves_and_fills() {
    let ctx = Context::new(ints(&[1, 2, 3, 4, 5]));
    let run = |n: i32| {
        sel(0)
            .vshift(lit(Scalar::I32(n)), Some(lit(Scalar::I32(0))), None, None)
            .eval(&ctx, Some(Backend::Vec))
            .unwrap()
            .into_vec()
            .unwrap()
            .i32()
            .unwrap()
    };
    assert_eq!(run(2), vec![0, 0, 1, 2, 3]);
    assert_eq!(run(-2), vec![3, 4, 5, 0, 0]);
    assert_eq!(run(0), vec![1, 2, 3, 4, 5]);
    assert_eq!(run(5), vec![0, 0, 0, 0, 0]);
    assert_eq!(run(-7), vec![0, 0, 0, 0, 0]);
    assert_eq!(run(4), vec![0, 0, 0, 0, 1]);
}

#[test]
fn shift_fill_follows_the_element_type() {
    let ctx = Context::new(ints(&[1, 2]));
    // no fill, and plain integers have no absent element
    let e = sel(0).vshift(lit(Scalar::I32(1)), None, None, None);
    assert_eq!(e.eval(&ctx, None).err(), Some(Error::TypeMismatch));
    // the fill is cast to the element type
    let e = sel(0).vshift(lit(Scalar::I32(1)), Some(lit(Scalar::I64((1 << 32) + 9))), None, None);
    let got = e.eval(&ctx, Some(Backend::Vec)).unwrap().into_vec().unwrap().i32().unwrap();
    assert_eq!(got, vec![9, 1]);
    // the distance must be one 32-bit integer
    let e = sel(0).vshift(lit(Scalar::I64(1)), Some(lit(Scalar::I32(0))), None, None);
    assert_eq!(e.eval(&ctx, None).err(), Some(Error::TypeMismatch));
    let e = sel(0).vshift(sel(0), Some(lit(Scalar::I32(0))), None, None);
    assert_eq!(e.eval(&ctx, None).err(), Some(Error::ShapeMismatch));
    let opts = Context::new(Data::from_vec(DynVec::from_vec(vec![Some(1i32), Some(2)])));
    let e = sel(0).vshift(lit(Scalar::I32(-1)), None, None, None);
    let got = e.eval(&opts, Some(Backend::Vec)).unwrap().into_vec().unwrap();
    assert_eq!(got.to_typed::<Option<i32>>().unwrap(), vec![Some(2), None]);
}

#[test]
fn literal_nodes_copy_their_scalar() {
    let ctx = Context::default();
    let e = lit(Scalar::String("lit".to_owned()));
    assert_eq!(e.eval(&ctx, None).unwrap().into_scalar().unwrap().string().unwrap(), "lit");
    assert_eq!(e.eval(&ctx, None).unwrap().dtype(), DataType::String);
}

#[test]
fn a_copy_of_an_expression_evaluates_alike() {
    let ctx = Context::new(ints(&[-3, 1, -2, 5]));
    let e = sel(0)
        .abs()
        .rolling(2)
        .apply(sel(0).vshift(lit(Scalar::I32(1)), Some(lit(Scalar::I32(0))), None, None).sum())
        .alias("twice");
    let copy = e.duplicate();
    assert_eq!(copy.name.as_deref(), Some("twice"));
    assert_eq!(copy.nodes.len(), e.nodes.len());
    let a = e.eval(&ctx, Some(Backend::Vec)).unwrap().into_vec().unwrap().i32().unwrap();
    let b = copy.eval(&ctx, Some(Backend::Vec)).unwrap().into_vec().unwrap().i32().unwrap();
    assert_eq!(a, vec![0, 3, 1, 2]);
    assert_eq!(a, b);
}

#[test]
fn symbols_come_from_positions_and_names() {
    let ctx = three();
    let by_position = s(0.into()).eval(&ctx, None).unwrap();
    assert_eq!(by_position.len(), 2);
    let from_back: Symbol = (-1).into();
    assert!(matches!(from_back, Symbol::I32(-1)));
    let from_front: Symbol = 2usize.into();
    assert!(matches!(from_front, Symbol::Usize(2)));
    let named: Symbol = "b".to_owned().into();
    assert_eq!(named.name(), Some("b"));
    assert_eq!(s(named).eval(&ctx, None).unwrap().len(), 1);
}

#[test]
fn every_error_describes_itself() {
    let all = [
        Error::TypeMismatch,
        Error::OutOfBounds { idx: 1, len: 0 },
        Error::SharedOwnership,
        Error::MissingBinding,
        Error::ShapeMismatch,
        Error::UnsupportedOperation,
        Error::NoInput,
        Error::NoData,
        Error::Overflow,
    ];
    let mut seen = Vec::new();
    for e in all {
        let m = e.message();
        assert!(!m.is_empty());
        assert!(!seen.contains(&m));
        seen.push(m);
    }
    assert_eq!(Error::SharedOwnership.message(), "data is shared, cannot consume");
    assert_eq!(Error::NoData.message(), "no data to return");
}
