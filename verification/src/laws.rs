//! What holds of the containers, of the join and of the evaluation
//! whichever way they are used. A law about what a function returned speaks
//! of it through `call_ensures`: the relation between the arguments of a
//! call and its result. A law about what an evaluation means speaks of the
//! content that it is defined on.
use vstd::prelude::*;

use crate::array::DynArray;
use crate::backend::Backend;
use crate::context::Context;
use crate::context::Env;
use crate::context::Symbol;
use crate::data::Content;
use crate::expr::alike;
use crate::expr::chosen_backend;
use crate::expr::lemma_no_iterator_settles;
use crate::expr::no_iterator;
use crate::expr::node_settled;
use crate::expr::settled;
use crate::expr::node_alike;
use crate::expr::sem_eval;
use crate::expr::sem_func;
use crate::expr::sem_node;
use crate::expr::sem_run;
use crate::expr::sem_window;
use crate::expr::window_results;
use crate::expr::window_start;
use crate::expr::BaseFunc;
use crate::expr::CtxFunc;
use crate::expr::Expr;
use crate::expr::Node;
use crate::cast::cast_seq;
use crate::cast::cast_value;
use crate::cast::castable_all;
use crate::cast::lemma_cast_seq_identity;
use crate::cast::TrustIterCast;
use crate::data::Data;
use crate::data::Kind;
use crate::dtype::DataType;
use crate::dtype::GetDtype;
use crate::error::Error;
use crate::data::backend_content;
use crate::data::flat_content;
use crate::data::scalar_content;
use crate::expr::sem_rolling;
use crate::array::shape_size;
use crate::join::array_parts;
use crate::join::array_shape;
use crate::join::flat_join;
use crate::join::flatten;
use crate::join::joinable;
use crate::join::joined_shape;
use crate::join::lemma_joined_first_axis;
use crate::join::sem_concat;
use crate::kernels::abs_all;
use crate::kernels::abs_seq;
use crate::kernels::abs_value;
use crate::kernels::int_value;
use crate::kernels::number_type;
use crate::kernels::sum_fits;
use crate::kernels::sum_upto;
use crate::ops::sem_abs;
use crate::ops::sem_sum;
use crate::scalar::all_of;
use crate::scalar::Scalar;
use crate::scalar::Value;
use crate::series::column_type;
use crate::trust_iter::DynTrustIter;
use crate::vec::DynVec;

verus! {

/// A borrowed view of a flat sequence, made into an owner, holds what the
/// source holds: the same values of the same element type.
pub proof fn lemma_vec_view_round_trip(source: DynVec<'_>, view: DynVec<'_>, owned: DynVec<'_>)
    requires
        call_ensures(DynVec::view, (&source,), view),
        call_ensures(DynVec::into_owned, (view,), owned),
    ensures
        owned.values() == source.values(),
        owned.spec_dtype() == source.spec_dtype(),
        owned.is_owned(),
{
}

/// A view of an array, made into an owner, holds what the source holds:
/// the same values of the same element type in the same shape.
pub proof fn lemma_array_view_round_trip(
    source: DynArray<'_>,
    view: DynArray<'_>,
    owned: DynArray<'_>,
)
    requires
        call_ensures(DynArray::view, (&source,), view),
        call_ensures(DynArray::into_owned, (view,), owned),
    ensures
        owned.values() == source.values(),
        owned.shape() == source.shape(),
        owned.spec_dtype() == source.spec_dtype(),
        !owned.is_view(),
{
}

/// A full copy of a flat sequence holds what the source holds.
pub proof fn lemma_vec_copy(source: DynVec<'_>, copy: DynVec<'_>)
    requires
        call_ensures(DynVec::clone_inner, (&source,), copy),
    ensures
        copy.values() == source.values(),
        copy.spec_dtype() == source.spec_dtype(),
{
}

/// Casting a scalar to the element type it has gives the scalar back.
pub proof fn lemma_scalar_cast_identity(s: Scalar, r: Result<Scalar, Error>)
    requires
        call_ensures(Scalar::cast_to, (s, s@.dtype()), r),
    ensures
        r matches Ok(same) && same@ == s@,
{
}

/// Casting a flat sequence to the element type it has gives its values
/// back, in the storage it had.
pub proof fn lemma_vec_cast_identity(v: DynVec<'_>, r: Result<DynVec<'_>, Error>)
    requires
        call_ensures(DynVec::cast_into, (v, v.spec_dtype()), r),
    ensures
        r matches Ok(same) && same.values() == v.values() && same.spec_dtype() == v.spec_dtype()
            && same.is_owned() == v.is_owned(),
{
}

/// Casting an array to the element type it has gives its values back, in
/// the shape and storage it had.
pub proof fn lemma_array_cast_identity(a: DynArray<'_>, r: Result<DynArray<'_>, Error>)
    requires
        call_ensures(DynArray::cast_into, (a, a.spec_dtype()), r),
    ensures
        r matches Ok(same) && same.values() == a.values() && same.shape() == a.shape()
            && same.spec_dtype() == a.spec_dtype() && same.is_view() == a.is_view(),
{
}

/// Casting a lazy iterator to the element type it has gives its values
/// back.
pub proof fn lemma_iter_cast_identity(it: DynTrustIter<'_>, r: Result<DynTrustIter<'_>, Error>)
    requires
        call_ensures(<DynTrustIter<'_> as TrustIterCast>::cast_to, (it, it.spec_dtype()), r),
    ensures
        r matches Ok(same) && same.values() == it.values() && same.spec_dtype()
            == it.spec_dtype(),
{
}

/// Joining nothing gives the empty flat sequence of 64-bit floats, whatever
/// the axis and the backend.
pub proof fn lemma_concat_of_nothing(
    es: Vec<Data<'_>>,
    axis: Option<usize>,
    backend: Backend,
    r: Result<Data<'_>, Error>,
)
    requires
        es@.len() == 0,
        call_ensures(crate::join::concat, (es, axis, backend), r),
    ensures
        r matches Ok(d) && d.content() == flat_content(
            Kind::Vec,
            DataType::F64,
            Seq::<Value>::empty(),
        ),
{
}

/// Joining takes the element type of its first part, whatever the types of
/// the others; a column that comes out holds it as a column does.
pub proof fn lemma_concat_takes_leading_type(
    es: Vec<Data<'_>>,
    axis: Option<usize>,
    backend: Backend,
    r: Result<Data<'_>, Error>,
)
    requires
        es@.len() >= 1,
        call_ensures(crate::join::concat, (es, axis, backend), r),
    ensures
        r matches Ok(d) ==> d.spec_dtype() == es@[0].spec_dtype() || (backend == Backend::Polars
            && column_type(es@[0].spec_dtype()) == Some(d.spec_dtype())),
{
    assert(crate::join::contents(es@)[0] == es@[0].content());
}

/// Nodes that read alike make the same of what is handed to them.
proof fn lemma_alike_node(a: Node, b: Node, acc: Option<Content>, env: Env, backend: Backend)
    requires
        node_alike(a, b),
    ensures
        sem_node(a, acc, env, backend) == sem_node(b, acc, env, backend),
    decreases a, 0int,
{
    match (a, b) {
        (Node::Base(x), Node::Base(y)) => match (x.func, y.func) {
            (
                BaseFunc::RollingApply { window: wx, expr: ex },
                BaseFunc::RollingApply { window: wy, expr: ey },
            ) => {
                if acc is Some {
                    let c = acc.unwrap();
                    let kind = if c.kind == Kind::Array || c.kind == Kind::Series {
                        c.kind
                    } else {
                        Kind::Vec
                    };
                    lemma_alike_windows(
                        ex,
                        ey,
                        kind,
                        c.dtype,
                        c.values,
                        wx as int,
                        backend,
                        c.values.len() as int,
                    );
                }
            },
            _ => {},
        },
        (Node::Context(x), Node::Context(y)) => match (x.func, y.func) {
            (
                CtxFunc::Shift { n: nx, value: vx, axis: ax, par: px },
                CtxFunc::Shift { n: ny, value: vy, axis: ay, par: py },
            ) => {
                lemma_alike_eval(nx, ny, env, None);
                match (vx, vy) {
                    (Some(fx), Some(fy)) => {
                        lemma_alike_eval(fx, fy, env, None);
                    },
                    _ => {},
                }
            },
        },
        _ => {},
    }
}

/// Chains that read alike node for node make the same of nothing.
proof fn lemma_alike_run(a: Seq<Node>, b: Seq<Node>, k: int, env: Env, backend: Backend)
    requires
        a.len() == b.len(),
        forall|i: int| 0 <= i < a.len() ==> node_alike(#[trigger] a[i], b[i]),
    ensures
        sem_run(a, k, env, backend) == sem_run(b, k, env, backend),
    decreases a, k,
{
    if 0 < k <= a.len() {
        lemma_alike_run(a, b, k - 1, env, backend);
        match sem_run(a, k - 1, env, backend) {
            Ok(acc) => {
                lemma_alike_node(a[k - 1], b[k - 1], acc, env, backend);
            },
            Err(_) => {},
        }
    }
}

/// Expressions that read alike run to the same.
proof fn lemma_alike_func(a: Expr, b: Expr, env: Env, backend: Option<Backend>)
    requires
        alike(a, b),
    ensures
        sem_func(a, env, backend) == sem_func(b, env, backend),
    decreases a, 1int,
{
    let chosen = match backend {
        Some(x) => x,
        None => Backend::Vec,
    };
    lemma_alike_run(a.nodes@, b.nodes@, a.nodes@.len() as int, env, chosen);
}

/// Expressions that read alike give the same on every window.
proof fn lemma_alike_windows(
    a: Expr,
    b: Expr,
    kind: Kind,
    dtype: DataType,
    values: Seq<Value>,
    window: int,
    backend: Backend,
    k: int,
)
    requires
        alike(a, b),
    ensures
        window_results(a, kind, dtype, values, window, backend, k) == window_results(
            b,
            kind,
            dtype,
            values,
            window,
            backend,
            k,
        ),
    decreases a, 3int, k,
{
    if k > 0 {
        lemma_alike_windows(a, b, kind, dtype, values, window, backend, k - 1);
        let wc = flat_content(kind, dtype, values.subrange(window_start(k - 1, window), k));
        lemma_alike_func(a, b, Env::single(wc), Some(backend));
        assert(sem_window(a, wc, backend) == sem_window(b, wc, backend));
    }
}

/// Expressions that read alike mean the same: against every context and
/// for every backend they evaluate to the same content or fail alike. A
/// copy of an expression reads like the expression, so it means the same.
pub proof fn lemma_alike_eval(a: Expr, b: Expr, env: Env, backend: Option<Backend>)
    requires
        alike(a, b),
    ensures
        sem_eval(a, env, backend) == sem_eval(b, env, backend),
    decreases a, 2int,
{
    lemma_alike_func(a, b, env, Some(chosen_backend(env, backend)));
}

/// An expression that takes no lazy iterator out of the context can be
/// evaluated against it again and again: every evaluation gives the same
/// content or fails in the same way.
pub proof fn lemma_eval_repeats(
    expr: Expr,
    ctx: Context<'_>,
    backend: Option<Backend>,
    first: Result<Data<'_>, Error>,
    second: Result<Data<'_>, Error>,
)
    requires
        settled(expr, ctx.env()),
        call_ensures(Expr::eval, (&expr, &ctx, backend), first),
        call_ensures(Expr::eval, (&expr, &ctx, backend), second),
    ensures
        match (first, second) {
            (Ok(a), Ok(b)) => a.content() == b.content(),
            (Err(x), Err(y)) => x == y,
            _ => false,
        },
{
}

/// Against a context that holds no lazy iterator an expression and a copy
/// of it evaluate alike: to the same content or to the same failure.
pub proof fn lemma_copy_evaluates_alike(
    expr: Expr,
    copy: Expr,
    ctx: Context<'_>,
    backend: Option<Backend>,
    first: Result<Data<'_>, Error>,
    second: Result<Data<'_>, Error>,
)
    requires
        no_iterator(ctx.env()),
        call_ensures(Expr::duplicate, (&expr,), copy),
        call_ensures(Expr::eval, (&expr, &ctx, backend), first),
        call_ensures(Expr::eval, (&copy, &ctx, backend), second),
    ensures
        match (first, second) {
            (Ok(a), Ok(b)) => a.content() == b.content(),
            (Err(x), Err(y)) => x == y,
            _ => false,
        },
{
    lemma_no_iterator_settles(expr, ctx.env());
    lemma_no_iterator_settles(copy, ctx.env());
    lemma_alike_eval(expr, copy, ctx.env(), backend);
}

/// Whether `expr` is the chain that selects the first column and sums it.
pub open spec fn sums_first_column(expr: Expr) -> bool {
    expr.nodes@.len() == 2 && match (expr.nodes@[0], expr.nodes@[1]) {
        (Node::Select(n), Node::Base(b)) => n.symbol == Symbol::I32(0) && b.func is Sum,
        _ => false,
    }
}

/// The trailing window of up to `window` values that ends at position `i`.
pub open spec fn trailing(values: Seq<Value>, i: int, window: int) -> Seq<Value> {
    values.subrange(window_start(i, window), i + 1)
}

/// The sum of the numbers in the trailing window that ends at position `i`.
pub open spec fn trailing_sum(values: Seq<Value>, i: int, window: int) -> int {
    sum_upto(trailing(values, i, window), trailing(values, i, window).len() as int)
}

/// The sums of the first `k` trailing windows, as elements of the plain
/// integer type `t`.
pub open spec fn trailing_sums(values: Seq<Value>, t: DataType, window: int, k: int) -> Seq<Value> {
    Seq::new(k as nat, |i: int| int_value(t, trailing_sum(values, i, window)))
}

/// Summing the one column of a window gives the sum of the window as a
/// scalar, or `Overflow` where the sum leaves the range on the way.
proof fn lemma_window_sum(expr: Expr, dtype: DataType, t: DataType, vals: Seq<Value>, backend: Backend)
    requires
        sums_first_column(expr),
        number_type(dtype) == Some(t),
    ensures
        sem_window(expr, flat_content(Kind::Vec, dtype, vals), backend) == if sum_fits(vals, t) {
            Ok::<Content, Error>(scalar_content(int_value(t, sum_upto(vals, vals.len() as int))))
        } else {
            Err::<Content, Error>(Error::Overflow)
        },
{
    let wc = flat_content(Kind::Vec, dtype, vals);
    let env = Env::single(wc);
    let nodes = expr.nodes@;
    assert(env.resolve(Symbol::I32(0)) == Ok::<usize, Error>(0usize));
    assert(sem_run(nodes, 0, env, backend) == Ok::<Option<Content>, Error>(None));
    assert(sem_node(nodes[0], None, env, backend) == Ok::<Content, Error>(wc));
    assert(sem_run(nodes, 1, env, backend) == Ok::<Option<Content>, Error>(Some(wc)));
    assert(sem_node(nodes[1], Some(wc), env, backend) == sem_sum(wc));
    assert(sem_run(nodes, 2, env, backend) == match sem_sum(wc) {
        Ok(c) => Ok::<Option<Content>, Error>(Some(c)),
        Err(e) => Err::<Option<Content>, Error>(e),
    });
}

/// The results of summing on the first `k` trailing windows, where every
/// window sum stays in range: one scalar for each window.
proof fn lemma_window_sums(
    expr: Expr,
    dtype: DataType,
    t: DataType,
    values: Seq<Value>,
    window: int,
    backend: Backend,
    k: int,
)
    requires
        sums_first_column(expr),
        number_type(dtype) == Some(t),
        0 <= k <= values.len(),
        forall|i: int| 0 <= i < values.len() ==> sum_fits(#[trigger] trailing(values, i, window), t),
    ensures
        window_results(expr, Kind::Vec, dtype, values, window, backend, k) == Ok::<
            Seq<Content>,
            Error,
        >(Seq::new(k as nat, |i: int| scalar_content(int_value(t, trailing_sum(values, i, window))))),
    decreases k,
{
    let want = Seq::new(
        k as nat,
        |i: int| scalar_content(int_value(t, trailing_sum(values, i, window))),
    );
    if k > 0 {
        lemma_window_sums(expr, dtype, t, values, window, backend, k - 1);
        let prev = Seq::new(
            (k - 1) as nat,
            |i: int| scalar_content(int_value(t, trailing_sum(values, i, window))),
        );
        let vals = trailing(values, k - 1, window);
        lemma_window_sum(expr, dtype, t, vals, backend);
        assert(sum_fits(vals, t));
        assert(prev.push(scalar_content(int_value(t, trailing_sum(values, k - 1, window))))
            =~= want);
    } else {
        assert(want =~= Seq::<Content>::empty());
    }
}

/// Joining the scalars of the window sums flat gives the sums in order.
proof fn lemma_join_of_sums(cs: Seq<Content>, sums: Seq<Value>, t: DataType, k: int)
    requires
        number_type(t) == Some(t),
        0 <= k <= cs.len(),
        cs.len() == sums.len(),
        forall|i: int| 0 <= i < cs.len() ==> #[trigger] cs[i] == scalar_content(sums[i]),
        forall|i: int| 0 <= i < sums.len() ==> (#[trigger] sums[i]).dtype() == t,
    ensures
        flat_join(cs, k, t) == Ok::<Seq<Value>, Error>(sums.subrange(0, k)),
    decreases k,
{
    if k > 0 {
        lemma_join_of_sums(cs, sums, t, k - 1);
        let c = cs[k - 1];
        assert(c == scalar_content(sums[k - 1]));
        assert(c.values =~= seq![sums[k - 1]]);
        assert(all_of(c.values, t));
        lemma_cast_seq_identity(c.values, t);
        assert(sums.subrange(0, k - 1) + c.values =~= sums.subrange(0, k));
    } else {
        assert(sums.subrange(0, 0) =~= Seq::<Value>::empty());
    }
}

/// Rolling a sum over a flat sequence of integers gives, at every position,
/// the sum of the trailing window that ends there; the windows at the front
/// that are shorter than `window` hold what there is. The sums come as a
/// flat sequence where there are two or more; one position gives its sum
/// as a scalar and none gives the empty sequence of 64-bit floats, as
/// joining one part and no part does. This is stated for window sums that
/// stay in the range of the element type, and for the flat backend.
pub proof fn lemma_rolling_sum(
    expr: Expr,
    dtype: DataType,
    t: DataType,
    values: Seq<Value>,
    window: usize,
)
    requires
        sums_first_column(expr),
        number_type(dtype) == Some(t),
        window >= 1,
        forall|i: int|
            0 <= i < values.len() ==> sum_fits(#[trigger] trailing(values, i, window as int), t),
    ensures
        sem_rolling(flat_content(Kind::Vec, dtype, values), window, expr, Backend::Vec) == Ok::<
            Content,
            Error,
        >(
            if values.len() == 0 {
                flat_content(Kind::Vec, DataType::F64, Seq::<Value>::empty())
            } else if values.len() == 1 {
                scalar_content(int_value(t, trailing_sum(values, 0, window as int)))
            } else {
                flat_content(
                    Kind::Vec,
                    t,
                    trailing_sums(values, t, window as int, values.len() as int),
                )
            },
        ),
{
    let n = values.len() as int;
    let sums = trailing_sums(values, t, window as int, n);
    let rs = Seq::new(
        n as nat,
        |i: int| scalar_content(int_value(t, trailing_sum(values, i, window as int))),
    );
    lemma_window_sums(expr, dtype, t, values, window as int, Backend::Vec, n);
    if n >= 2 {
        lemma_join_of_sums(rs, sums, t, n);
        assert(sums.subrange(0, n) =~= sums);
        assert(rs[0].dtype == t);
        assert(rs[0].shape.len() == 0);
    }
}

/// Whether `expr` is the chain that selects the first column, takes the
/// absolute values and sums them.
pub open spec fn sums_magnitudes(expr: Expr) -> bool {
    expr.nodes@.len() == 3 && match (expr.nodes@[0], expr.nodes@[1], expr.nodes@[2]) {
        (Node::Select(n), Node::Base(a), Node::Base(b)) => n.symbol == Symbol::I32(0)
            && a.func is Abs && b.func is Sum,
        _ => false,
    }
}

/// On one window, the sum of the absolute values is the sum of the window
/// of absolute values.
proof fn lemma_window_magnitudes(
    mapped: Expr,
    summed: Expr,
    dtype: DataType,
    vals: Seq<Value>,
    backend: Backend,
)
    requires
        sums_magnitudes(mapped),
        sums_first_column(summed),
        number_type(dtype) == Some(dtype),
        abs_all(vals),
    ensures
        sem_window(mapped, flat_content(Kind::Vec, dtype, vals), backend) == sem_window(
            summed,
            flat_content(Kind::Vec, dtype, abs_seq(vals)),
            backend,
        ),
{
    let wc = flat_content(Kind::Vec, dtype, vals);
    let ac = flat_content(Kind::TrustIter, dtype, abs_seq(vals));
    let env = Env::single(wc);
    let nodes = mapped.nodes@;
    lemma_window_sum(summed, dtype, dtype, abs_seq(vals), backend);
    assert(env.resolve(Symbol::I32(0)) == Ok::<usize, Error>(0usize));
    assert(sem_run(nodes, 0, env, backend) == Ok::<Option<Content>, Error>(None));
    assert(sem_node(nodes[0], None, env, backend) == Ok::<Content, Error>(wc));
    assert(sem_run(nodes, 1, env, backend) == Ok::<Option<Content>, Error>(Some(wc)));
    assert(sem_abs(wc, true, backend) == Ok::<Content, Error>(ac));
    assert(sem_node(nodes[1], Some(wc), env, backend) == Ok::<Content, Error>(ac));
    assert(sem_run(nodes, 2, env, backend) == Ok::<Option<Content>, Error>(Some(ac)));
    assert(sem_node(nodes[2], Some(ac), env, backend) == sem_sum(ac));
    assert(sem_run(nodes, 3, env, backend) == match sem_sum(ac) {
        Ok(c) => Ok::<Option<Content>, Error>(Some(c)),
        Err(e) => Err::<Option<Content>, Error>(e),
    });
}

/// On the first `k` trailing windows, the sums of the absolute values are
/// the sums over the absolute values.
proof fn lemma_windows_magnitudes(
    mapped: Expr,
    summed: Expr,
    dtype: DataType,
    values: Seq<Value>,
    window: int,
    backend: Backend,
    k: int,
)
    requires
        sums_magnitudes(mapped),
        sums_first_column(summed),
        number_type(dtype) == Some(dtype),
        abs_all(values),
        window >= 1,
        0 <= k <= values.len(),
    ensures
        window_results(mapped, Kind::Vec, dtype, values, window, backend, k) == window_results(
            summed,
            Kind::Vec,
            dtype,
            abs_seq(values),
            window,
            backend,
            k,
        ),
    decreases k,
{
    if k > 0 {
        lemma_windows_magnitudes(mapped, summed, dtype, values, window, backend, k - 1);
        let vals = trailing(values, k - 1, window);
        assert forall|i: int| 0 <= i < vals.len() implies (#[trigger] abs_value(vals[i])) is Some by {
            assert(vals[i] == values[window_start(k - 1, window) + i]);
        }
        assert(abs_seq(vals) =~= trailing(abs_seq(values), k - 1, window));
        lemma_window_magnitudes(mapped, summed, dtype, vals, backend);
    }
}

/// Rolling the sum of the absolute values over a flat sequence of integers
/// gives what rolling the sum over their absolute values gives, where every
/// value has an absolute value in its type.
pub proof fn lemma_rolling_sum_of_magnitudes(
    mapped: Expr,
    summed: Expr,
    dtype: DataType,
    values: Seq<Value>,
    window: usize,
    backend: Backend,
)
    requires
        sums_magnitudes(mapped),
        sums_first_column(summed),
        number_type(dtype) == Some(dtype),
        abs_all(values),
    ensures
        sem_rolling(flat_content(Kind::Vec, dtype, values), window, mapped, backend)
            == sem_rolling(
            flat_content(Kind::Vec, dtype, abs_seq(values)),
            window,
            summed,
            backend,
        ),
{
    if window >= 1 {
        lemma_windows_magnitudes(
            mapped,
            summed,
            dtype,
            values,
            window as int,
            backend,
            values.len() as int,
        );
    }
}

/// Whether `outer` is the chain that selects the first column and rolls
/// `inner` over it with trailing windows of `window` elements.
pub open spec fn rolls_first_column(outer: Expr, window: usize, inner: Expr) -> bool {
    outer.nodes@.len() == 2 && match (outer.nodes@[0], outer.nodes@[1]) {
        (Node::Select(n), Node::Base(b)) => n.symbol == Symbol::I32(0) && b.func
            == (BaseFunc::RollingApply { window, expr: inner }),
        _ => false,
    }
}

/// Evaluating a rolling sum over the first column of a context, a flat
/// sequence of at least two integers, gives the flat sequence of the sums
/// of the trailing windows: it succeeds, and position `i` of the result
/// holds the sum of the up to `window` values that end at `i`, whatever
/// the other columns of the context hold. This is stated for window sums
/// that stay in the range of the element type, and for the flat backend.
pub proof fn lemma_rolling_sum_evaluates(
    outer: Expr,
    inner: Expr,
    window: usize,
    ctx: Context<'_>,
    dtype: DataType,
    t: DataType,
    values: Seq<Value>,
    r: Result<Data<'_>, Error>,
)
    requires
        rolls_first_column(outer, window, inner),
        sums_first_column(inner),
        window >= 1,
        ctx.env().columns.len() >= 1,
        ctx.env().columns[0] == flat_content(Kind::Vec, dtype, values),
        values.len() >= 2,
        number_type(dtype) == Some(t),
        forall|i: int|
            0 <= i < values.len() ==> sum_fits(#[trigger] trailing(values, i, window as int), t),
        call_ensures(Expr::eval, (&outer, &ctx, Some(Backend::Vec)), r),
    ensures
        r matches Ok(d) && d.content() == flat_content(
            Kind::Vec,
            t,
            trailing_sums(values, t, window as int, values.len() as int),
        ),
{
    let env = ctx.env();
    let c = flat_content(Kind::Vec, dtype, values);
    let nodes = outer.nodes@;
    lemma_rolling_sum(inner, dtype, t, values, window);
    assert(env.resolve(Symbol::I32(0)) == Ok::<usize, Error>(0usize));
    assert(settled(outer, env)) by {
        assert(node_settled(nodes[0], env));
        assert(node_settled(nodes[1], env));
    }
    assert(sem_run(nodes, 0, env, Backend::Vec) == Ok::<Option<Content>, Error>(None));
    assert(sem_node(nodes[0], None, env, Backend::Vec) == Ok::<Content, Error>(c));
    assert(sem_run(nodes, 1, env, Backend::Vec) == Ok::<Option<Content>, Error>(Some(c)));
    assert(sem_node(nodes[1], Some(c), env, Backend::Vec) == sem_rolling(
        c,
        window,
        inner,
        Backend::Vec,
    ));
    assert(sem_run(nodes, 2, env, Backend::Vec) is Ok);
    assert(chosen_backend(env, Some(Backend::Vec)) == Backend::Vec);
}

/// The kind of the windows that the rolling node cuts from a payload: an
/// array gives arrays and a column gives columns; a sequence and a drained
/// iterator give sequences.
pub open spec fn window_kind(c: Content) -> Kind {
    if c.kind == Kind::Array || c.kind == Kind::Series {
        c.kind
    } else {
        Kind::Vec
    }
}

/// The results on the first `k` trailing windows of an expression that
/// gives the scalar `outs[i]` on the window that ends at `i`.
proof fn lemma_windows_of_scalars(
    expr: Expr,
    kind: Kind,
    dtype: DataType,
    values: Seq<Value>,
    window: int,
    backend: Backend,
    outs: Seq<Value>,
    k: int,
)
    requires
        0 <= k <= values.len(),
        outs.len() == values.len(),
        forall|i: int|
            0 <= i < values.len() ==> sem_window(
                expr,
                flat_content(kind, dtype, #[trigger] trailing(values, i, window)),
                backend,
            ) == Ok::<Content, Error>(scalar_content(outs[i])),
    ensures
        window_results(expr, kind, dtype, values, window, backend, k) == Ok::<
            Seq<Content>,
            Error,
        >(Seq::new(k as nat, |i: int| scalar_content(outs[i]))),
    decreases k,
{
    let want = Seq::new(k as nat, |i: int| scalar_content(outs[i]));
    if k > 0 {
        lemma_windows_of_scalars(expr, kind, dtype, values, window, backend, outs, k - 1);
        let prev = Seq::new((k - 1) as nat, |i: int| scalar_content(outs[i]));
        let vals = trailing(values, k - 1, window);
        assert(sem_window(expr, flat_content(kind, dtype, vals), backend) == Ok::<Content, Error>(
            scalar_content(outs[k - 1]),
        ));
        assert(prev.push(scalar_content(outs[k - 1])) =~= want);
    } else {
        assert(want =~= Seq::<Content>::empty());
    }
}

/// Joining scalars flat gives their values in order, each cast to the type
/// joined for.
proof fn lemma_join_of_scalars(cs: Seq<Content>, outs: Seq<Value>, t: DataType, k: int)
    requires
        0 <= k <= cs.len(),
        cs.len() == outs.len(),
        forall|i: int| 0 <= i < cs.len() ==> #[trigger] cs[i] == scalar_content(outs[i]),
        castable_all(outs, t),
    ensures
        flat_join(cs, k, t) == Ok::<Seq<Value>, Error>(cast_seq(outs, t).subrange(0, k)),
    decreases k,
{
    if k > 0 {
        lemma_join_of_scalars(cs, outs, t, k - 1);
        let c = cs[k - 1];
        assert(c == scalar_content(outs[k - 1]));
        assert(c.values =~= seq![outs[k - 1]]);
        assert(cast_value(outs[k - 1], t) is Some);
        assert(castable_all(c.values, t));
        assert(cast_seq(outs, t).subrange(0, k - 1) + cast_seq(c.values, t) =~= cast_seq(
            outs,
            t,
        ).subrange(0, k));
    } else {
        assert(cast_seq(outs, t).subrange(0, 0) =~= Seq::<Value>::empty());
    }
}

/// Rolling over a payload of one axis and at least two positions an
/// expression that gives one scalar on every trailing window gives the
/// flat result, in the representation of the backend, that holds at every
/// position the scalar of the window that ends there, cast to the type of
/// the first of them. The windows at the front that are shorter than
/// `window` hold what there is and are no failure.
pub proof fn lemma_rolling_of_scalars(
    c: Content,
    window: usize,
    expr: Expr,
    backend: Backend,
    outs: Seq<Value>,
)
    requires
        c.kind != Kind::Scalar,
        c.shape.len() == 1,
        window >= 1,
        c.values.len() >= 2,
        outs.len() == c.values.len(),
        forall|i: int|
            0 <= i < c.values.len() ==> sem_window(
                expr,
                flat_content(
                    window_kind(c),
                    c.dtype,
                    #[trigger] trailing(c.values, i, window as int),
                ),
                backend,
            ) == Ok::<Content, Error>(scalar_content(outs[i])),
        castable_all(outs, outs[0].dtype()),
    ensures
        sem_rolling(c, window, expr, backend) == backend_content(
            backend,
            outs[0].dtype(),
            cast_seq(outs, outs[0].dtype()),
        ),
        cast_seq(outs, outs[0].dtype()).len() == c.values.len(),
{
    let n = c.values.len() as int;
    let t = outs[0].dtype();
    let rs = Seq::new(n as nat, |i: int| scalar_content(outs[i]));
    lemma_windows_of_scalars(expr, window_kind(c), c.dtype, c.values, window as int, backend, outs, n);
    lemma_join_of_scalars(rs, outs, t, n);
    assert(cast_seq(outs, t).subrange(0, n) =~= cast_seq(outs, t));
    assert(rs[0].dtype == t);
    assert(rs[0].shape.len() == 0);
}

/// Evaluating a rolling node over the first column of a context, a
/// sequence or an array of one axis and at least two positions, with an
/// expression that gives one scalar on every trailing window: the
/// evaluation succeeds, whatever the other columns of the context hold, and
/// gives the flat result that holds at every position the scalar of the
/// window that ends there, cast to the type of the first of them.
pub proof fn lemma_rolling_evaluates(
    outer: Expr,
    inner: Expr,
    window: usize,
    ctx: Context<'_>,
    backend: Backend,
    outs: Seq<Value>,
    r: Result<Data<'_>, Error>,
)
    requires
        rolls_first_column(outer, window, inner),
        window >= 1,
        ctx.env().columns.len() >= 1,
        ctx.env().columns[0].kind == Kind::Vec || ctx.env().columns[0].kind == Kind::Array,
        ctx.env().columns[0].shape.len() == 1,
        ctx.env().columns[0].values.len() >= 2,
        outs.len() == ctx.env().columns[0].values.len(),
        forall|i: int|
            0 <= i < outs.len() ==> sem_window(
                inner,
                flat_content(
                    ctx.env().columns[0].kind,
                    ctx.env().columns[0].dtype,
                    #[trigger] trailing(ctx.env().columns[0].values, i, window as int),
                ),
                backend,
            ) == Ok::<Content, Error>(scalar_content(outs[i])),
        castable_all(outs, outs[0].dtype()),
        backend != Backend::Polars,
        call_ensures(Expr::eval, (&outer, &ctx, Some(backend)), r),
    ensures
        r matches Ok(d) && d.spec_dtype() == outs[0].dtype() && d.values() == cast_seq(
            outs,
            outs[0].dtype(),
        ) && d.values().len() == outs.len() && d.content().kind == if backend == Backend::Vec {
            Kind::Vec
        } else {
            Kind::Array
        },
{
    let env = ctx.env();
    let c = env.columns[0];
    let nodes = outer.nodes@;
    lemma_rolling_of_scalars(c, window, inner, backend, outs);
    assert(env.resolve(Symbol::I32(0)) == Ok::<usize, Error>(0usize));
    assert(settled(outer, env)) by {
        assert(node_settled(nodes[0], env));
        assert(node_settled(nodes[1], env));
    }
    assert(sem_run(nodes, 0, env, backend) == Ok::<Option<Content>, Error>(None));
    assert(sem_node(nodes[0], None, env, backend) == Ok::<Content, Error>(c));
    assert(sem_run(nodes, 1, env, backend) == Ok::<Option<Content>, Error>(Some(c)));
    assert(sem_node(nodes[1], Some(c), env, backend) == sem_rolling(c, window, inner, backend));
    assert(sem_run(nodes, 2, env, backend) is Ok);
    assert(chosen_backend(env, Some(backend)) == backend);
}

/// Where neither the caller nor the context names a backend, an evaluation
/// means what it means for `Vec`, the flat default; where only the context
/// names one, what it means for that one.
pub proof fn lemma_default_backend(expr: Expr, env: Env)
    ensures
        sem_eval(expr, env, None) == sem_eval(
            expr,
            env,
            Some(
                match env.backend {
                    Some(b) => b,
                    None => Backend::Vec,
                },
            ),
        ),
{
}

/// The values of each of the first `k` parts, cast to the type `to`.
pub open spec fn cast_parts(cs: Seq<Content>, to: DataType, k: int) -> Seq<Seq<Value>> {
    Seq::new(k as nat, |i: int| cast_seq(cs[i].values, to))
}

/// Whether a part can go into a flat join for the type `to`: it is no
/// column, has at most one axis, and each of its values can be cast.
pub open spec fn flat_part(c: Content, to: DataType) -> bool {
    c.kind != Kind::Series && c.shape.len() <= 1 && castable_all(c.values, to)
}

/// The flat join of parts that can all go into it holds the values of the
/// parts in order, part after part, each cast to the type joined for.
pub proof fn lemma_flat_join(cs: Seq<Content>, to: DataType, k: int)
    requires
        0 <= k <= cs.len(),
        forall|i: int| 0 <= i < k ==> flat_part(#[trigger] cs[i], to),
    ensures
        flat_join(cs, k, to) == Ok::<Seq<Value>, Error>(flatten(cast_parts(cs, to, k))),
    decreases k,
{
    if k > 0 {
        lemma_flat_join(cs, to, k - 1);
        assert(flat_part(cs[k - 1], to));
        assert(cast_parts(cs, to, k).drop_last() =~= cast_parts(cs, to, k - 1));
        assert(cast_parts(cs, to, k).last() == cast_seq(cs[k - 1].values, to));
    } else {
        assert(cast_parts(cs, to, 0) =~= Seq::<Seq<Value>>::empty());
    }
}

/// Joining two or more parts of at most one axis, none of them a column,
/// gives the flat result, in the representation of the backend, of the
/// element type of the first part: the values of the parts in order, part
/// after part, each cast to that type.
pub proof fn lemma_concat_flat(cs: Seq<Content>, axis: Option<usize>, backend: Backend)
    requires
        cs.len() >= 2,
        forall|i: int| 0 <= i < cs.len() ==> flat_part(#[trigger] cs[i], cs[0].dtype),
    ensures
        sem_concat(cs, axis, backend) == backend_content(
            backend,
            cs[0].dtype,
            flatten(cast_parts(cs, cs[0].dtype, cs.len() as int)),
        ),
{
    lemma_flat_join(cs, cs[0].dtype, cs.len() as int);
    assert(flat_part(cs[0], cs[0].dtype));
}

/// Joining arrays of more than one axis along the first one gives the
/// array that holds them one after the other, whole, each cast to the
/// element type of the first.
pub proof fn lemma_concat_first_axis(cs: Seq<Content>, backend: Backend)
    requires
        cs.len() >= 2,
        cs[0].shape.len() > 1,
        forall|i: int|
            0 <= i < cs.len() ==> (#[trigger] cs[i]).kind == Kind::Array && castable_all(
                cs[i].values,
                cs[0].dtype,
            ) && cs[i].values.len() == shape_size(cs[i].shape),
        joinable(Seq::new(cs.len(), |i: int| cs[i].shape), 0),
    ensures
        sem_concat(cs, None, backend) matches Ok(c) && c.kind == Kind::Array && c.dtype
            == cs[0].dtype && c.values == flatten(cast_parts(cs, cs[0].dtype, cs.len() as int))
            && c.shape == joined_shape(Seq::new(cs.len(), |i: int| cs[i].shape), 0),
{
    let to = cs[0].dtype;
    let n = cs.len() as int;
    let shapes = Seq::new(cs.len(), |i: int| cs[i].shape);
    let values = cast_parts(cs, to, n);
    lemma_array_parts(cs, to, n);
    assert(shapes.take(n) =~= shapes);
    assert(Seq::new(n as nat, |i: int| array_shape(cs[i])) =~= shapes);
    assert forall|p: int| 0 <= p < shapes.len() implies (#[trigger] values[p]).len() == shape_size(
        shapes[p],
    ) by {
        assert(cs[p].kind == Kind::Array);
    }
    lemma_joined_first_axis(shapes, values);
}

/// The first `k` parts as arrays, where each is an array whose values can
/// be cast: their shapes and their cast values, in order.
proof fn lemma_array_parts(cs: Seq<Content>, to: DataType, k: int)
    requires
        0 <= k <= cs.len(),
        forall|i: int|
            0 <= i < cs.len() ==> (#[trigger] cs[i]).kind == Kind::Array && castable_all(
                cs[i].values,
                to,
            ),
    ensures
        array_parts(cs, k, to) == Ok::<(Seq<Seq<usize>>, Seq<Seq<Value>>), Error>(
            (Seq::new(k as nat, |i: int| array_shape(cs[i])), cast_parts(cs, to, k)),
        ),
    decreases k,
{
    if k > 0 {
        lemma_array_parts(cs, to, k - 1);
        assert(cs[k - 1].kind == Kind::Array);
        assert(Seq::new((k - 1) as nat, |i: int| array_shape(cs[i])).push(array_shape(cs[k - 1]))
            =~= Seq::new(k as nat, |i: int| array_shape(cs[i])));
        assert(cast_parts(cs, to, k - 1).push(cast_seq(cs[k - 1].values, to)) =~= cast_parts(
            cs,
            to,
            k,
        ));
    } else {
        assert(Seq::new(0 as nat, |i: int| array_shape(cs[i])) =~= Seq::<Seq<usize>>::empty());
        assert(cast_parts(cs, to, 0) =~= Seq::<Seq<Value>>::empty());
    }
}

} // verus!
