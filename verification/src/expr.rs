//! The expression: a chain of nodes, what evaluating it means, and the
//! evaluation itself.
use std::sync::Arc;
use vstd::prelude::*;

use crate::array::DynArray;
use crate::backend::Backend;
use crate::bridge::arc_share;
use crate::bridge::nd_shape;
use crate::bridge::nd_values;
use crate::bridge::roll_array;
use crate::bridge::roll_slices;
use crate::bridge::ArbArray;
use crate::context::Context;
use crate::context::Env;
use crate::context::Symbol;
use crate::data::Content;
use crate::data::Data;
use crate::data::Kind;
use crate::dtype::DataType;
use crate::dtype::GetDtype;
use crate::error::Error;
use crate::cast::lemma_cast_identity;
use crate::kernels::fill_for;
use crate::kernels::fill_value;
use crate::kernels::shift_values;
use crate::lanes::shift_along;
use crate::ops::abs_of;
use crate::ops::agrees;
use crate::ops::sum_of;
use crate::payload::agreeing;
use crate::payload::exact;
use crate::payload::exactly;
use crate::payload::Payload;
use crate::payload::sem_into_result;
use crate::payload::sem_scalar;
use crate::data::flat_content;
use crate::data::scalar_content;
use crate::ops::sem_abs;
use crate::ops::sem_sum;
use crate::data::backend_content;
use crate::join::join;
use crate::join::payload_contents;
use crate::join::reversed;
use crate::join::sem_concat;
use crate::scalar::all_of;
use crate::scalar::lemma_values_of;
use crate::scalar::values_of;
use crate::scalar::Scalar;
use crate::scalar::Value;
use crate::series::column_type;
use crate::series::Series;
use crate::vec::DynVec;

verus! {

/// A node that stands for a fixed scalar.
pub struct LitNode {
    pub value: Arc<Scalar>,
}

/// A node that picks a column of the context.
pub struct SelectNode {
    pub symbol: Symbol,
}

/// The transforms that need nothing but the data handed down the chain.
pub enum BaseFunc {
    /// The sum of the present numbers.
    Sum,
    /// The absolute value of every number.
    Abs,
    /// The absolute value of every present number.
    Vabs,
    /// `expr` evaluated on every trailing window of `window` elements, the
    /// results joined end to end.
    RollingApply { window: usize, expr: Expr },
}

/// A node that transforms the data handed down the chain.
pub struct BaseNode {
    pub name: &'static str,
    pub func: BaseFunc,
}

/// The transforms that also evaluate expressions of their own against the
/// context.
pub enum CtxFunc {
    /// The data moved by as many places as `n` evaluates to, the free
    /// places filled with what `value` evaluates to. `axis` and `par` are
    /// for arrays of more than one axis.
    Shift { n: Expr, value: Option<Expr>, axis: Option<usize>, par: Option<bool> },
}

/// A node that transforms the data handed down the chain with the help of
/// the context.
pub struct CtxNode {
    pub name: &'static str,
    pub func: CtxFunc,
}

/// One step of a chain.
pub enum Node {
    Lit(LitNode),
    Select(SelectNode),
    Base(BaseNode),
    Context(CtxNode),
}

/// A chain of nodes with an optional name for its result.
pub struct Expr {
    pub name: Option<String>,
    pub nodes: Vec<Node>,
}

impl Default for Expr {
    /// The expression without nodes and without a name.
    fn default() -> (r: Self)
        ensures
            r.nodes@.len() == 0,
            r.name is None,
    {
        Expr { name: None, nodes: Vec::new() }
    }
}

/// Where the trailing window that ends at position `i` begins: `window - 1`
/// places before `i`, or at the front where there are not that many.
pub open spec fn window_start(i: int, window: int) -> int {
    if i + 1 >= window {
        i + 1 - window
    } else {
        0
    }
}

/// What a node makes of the data `acc` handed to it. A select node gives
/// the column that its symbol resolves to, a literal node its scalar; both
/// drop what was handed to them. A transform needs data and gives `NoInput`
/// without.
pub open spec fn sem_node(node: Node, acc: Option<Content>, env: Env, backend: Backend) -> Result<
    Content,
    Error,
>
    decreases node, 0int,
{
    match node {
        Node::Select(n) => match env.resolve(n.symbol) {
            Ok(i) => Ok(env.columns[i as int]),
            Err(e) => Err(e),
        },
        Node::Lit(n) => Ok(scalar_content(n.value@)),
        Node::Base(b) => match acc {
            None => Err(Error::NoInput),
            Some(c) => sem_base(c, b.func, backend),
        },
        Node::Context(n) => match acc {
            None => Err(Error::NoInput),
            Some(c) => sem_shift(c, n.func, env, backend),
        },
    }
}

/// What a transform that needs only the data makes of it.
pub open spec fn sem_base(c: Content, func: BaseFunc, backend: Backend) -> Result<Content, Error>
    decreases func, 0int,
{
    match func {
        BaseFunc::Sum => sem_sum(c),
        BaseFunc::Abs => sem_abs(c, true, backend),
        BaseFunc::Vabs => sem_abs(c, false, backend),
        BaseFunc::RollingApply { window, expr } => sem_rolling(c, window, expr, backend),
    }
}

/// What the first `k` nodes of a chain make of nothing: the data that the
/// last of them hands on, or the first failure.
pub open spec fn sem_run(nodes: Seq<Node>, k: int, env: Env, backend: Backend) -> Result<
    Option<Content>,
    Error,
>
    decreases nodes, k,
{
    if k <= 0 || k > nodes.len() {
        Ok(None)
    } else {
        match sem_run(nodes, k - 1, env, backend) {
            Err(e) => Err(e),
            Ok(acc) => match sem_node(nodes[k - 1], acc, env, backend) {
                Ok(c) => Ok(Some(c)),
                Err(e) => Err(e),
            },
        }
    }
}

/// What running the chain of an expression means: the data that its last
/// node hands on, for the backend named or else the flat one; `NoData` for
/// an empty chain.
pub open spec fn sem_func(expr: Expr, env: Env, backend: Option<Backend>) -> Result<Content, Error>
    decreases expr, 1int,
{
    let b = match backend {
        Some(b) => b,
        None => Backend::Vec,
    };
    match sem_run(expr.nodes@, expr.nodes@.len() as int, env, b) {
        Ok(Some(c)) => Ok(c),
        Ok(None) => Err(Error::NoData),
        Err(e) => Err(e),
    }
}

/// The backend that an evaluation works and materialises for: the one the
/// caller names, else the one the context names, else `Vec`, the flat
/// default.
pub open spec fn chosen_backend(env: Env, backend: Option<Backend>) -> Backend {
    match backend {
        Some(b) => b,
        None => match env.backend {
            Some(b) => b,
            None => Backend::Vec,
        },
    }
}

/// What evaluating an expression means: its chain is run and the result
/// materialised for the backend chosen.
pub open spec fn sem_eval(expr: Expr, env: Env, backend: Option<Backend>) -> Result<Content, Error>
    decreases expr, 2int,
{
    match sem_func(expr, env, Some(chosen_backend(env, backend))) {
        Ok(c) => sem_into_result(c, Some(chosen_backend(env, backend))),
        Err(e) => Err(e),
    }
}

/// What the shift node means. `n` must evaluate to one 32-bit integer, the
/// distance; `value`, where given, to one value, the fill. A fill that
/// cannot be cast to the element type, or none where the type has no absent
/// element, gives `TypeMismatch`. Data of at most one axis becomes the lazy
/// iterator of its values moved by the distance; a column is walked as it
/// stands and the result materialised for the backend. An array of more
/// axes is
/// moved along `axis`, the first where none is named, every lane by itself;
/// an axis that the array does not have gives `ShapeMismatch`.
pub open spec fn sem_shift(c: Content, func: CtxFunc, env: Env, backend: Backend) -> Result<
    Content,
    Error,
>
    decreases func, 0int,
{
    match func {
        CtxFunc::Shift { n, value, axis, par } => match sem_distance(sem_eval(n, env, None)) {
            Err(e) => Err(e),
            Ok(distance) => match sem_fill(
                match value {
                    Some(v) => Some(sem_eval(v, env, None)),
                    None => None,
                },
            ) {
                Err(e) => Err(e),
                Ok(fill) => match fill_value(c.dtype, fill) {
                    None => Err(Error::TypeMismatch),
                    Some(f) => if c.kind == Kind::Series {
                        backend_content(
                            backend,
                            c.dtype,
                            shift_values(c.values, distance as int, f),
                        )
                    } else if c.shape.len() <= 1 {
                        Ok(
                            flat_content(
                                Kind::TrustIter,
                                c.dtype,
                                shift_values(c.values, distance as int, f),
                            ),
                        )
                    } else {
                        let along = match axis {
                            Some(a) => a,
                            None => 0usize,
                        };
                        if along >= c.shape.len() {
                            Err(Error::ShapeMismatch)
                        } else {
                            Ok(
                                Content {
                                    kind: Kind::Array,
                                    dtype: c.dtype,
                                    values: shift_along(
                                        c.values,
                                        c.shape,
                                        along as int,
                                        distance as int,
                                        f,
                                    ),
                                    shape: c.shape,
                                },
                            )
                        }
                    },
                },
            },
        },
    }
}

/// The distance of a shift, from what its expression evaluated to.
pub open spec fn sem_distance(evaluated: Result<Content, Error>) -> Result<i32, Error> {
    match evaluated {
        Err(e) => Err(e),
        Ok(c) => match sem_scalar(c) {
            Err(e) => Err(e),
            Ok(Value::I32(d)) => Ok(d),
            Ok(_) => Err(Error::TypeMismatch),
        },
    }
}

/// The fill of a shift, from what its expression evaluated to, where it has
/// one.
pub open spec fn sem_fill(evaluated: Option<Result<Content, Error>>) -> Result<
    Option<Value>,
    Error,
> {
    match evaluated {
        None => Ok(None),
        Some(Err(e)) => Err(e),
        Some(Ok(c)) => match sem_scalar(c) {
            Err(e) => Err(e),
            Ok(v) => Ok(Some(v)),
        },
    }
}

/// What evaluating `expr` on one window means: the chain is run against the
/// context of the one column `wc`, and the result is materialised for
/// `backend`.
pub open spec fn sem_window(expr: Expr, wc: Content, backend: Backend) -> Result<Content, Error>
    decreases expr, 2int,
{
    match sem_func(expr, Env::single(wc), Some(backend)) {
        Ok(c) => sem_into_result(c, Some(backend)),
        Err(e) => Err(e),
    }
}

/// The results of `expr` on the first `k` trailing windows of `values`, or
/// the failure of the first window that fails.
pub open spec fn window_results(
    expr: Expr,
    kind: Kind,
    dtype: DataType,
    values: Seq<Value>,
    window: int,
    backend: Backend,
    k: int,
) -> Result<Seq<Content>, Error>
    decreases expr, 3int, k,
{
    if k <= 0 {
        Ok(Seq::empty())
    } else {
        match window_results(expr, kind, dtype, values, window, backend, k - 1) {
            Err(e) => Err(e),
            Ok(prev) => match sem_window(
                expr,
                flat_content(kind, dtype, values.subrange(window_start(k - 1, window), k)),
                backend,
            ) {
                Ok(c) => Ok(prev.push(c)),
                Err(e) => Err(e),
            },
        }
    }
}

/// What the rolling node means. The data must have exactly one axis; a
/// scalar gives `UnsupportedOperation`, other shapes `ShapeMismatch`, and a
/// window of no elements `OutOfBounds`. `expr` is evaluated on the trailing
/// window that ends at each position, against a context whose one column
/// is that window: a sequence for a sequence or an iterator, an array for
/// an array, a column for a column. The first window that fails decides;
/// otherwise the results are joined.
pub open spec fn sem_rolling(c: Content, window: usize, expr: Expr, backend: Backend) -> Result<
    Content,
    Error,
>
    decreases expr, 4int,
{
    if c.kind == Kind::Scalar {
        Err(Error::UnsupportedOperation)
    } else if c.shape.len() != 1 {
        Err(Error::ShapeMismatch)
    } else if window == 0 {
        Err(Error::OutOfBounds { idx: 0, len: c.values.len() as usize })
    } else {
        match window_results(
            expr,
            if c.kind == Kind::Array || c.kind == Kind::Series {
                c.kind
            } else {
                Kind::Vec
            },
            c.dtype,
            c.values,
            window as int,
            backend,
            c.values.len() as int,
        ) {
            Err(e) => Err(e),
            Ok(rs) => sem_concat(rs, None, backend),
        }
    }
}

/// Two expressions read alike: the same name and, node for node, the same
/// steps with the same settings.
pub open spec fn alike(a: Expr, b: Expr) -> bool
    decreases a, 1int,
{
    &&& a.spec_name() == b.spec_name()
    &&& a.nodes@.len() == b.nodes@.len()
    &&& forall|i: int|
        0 <= i < a.nodes@.len() ==> node_alike(#[trigger] a.nodes@[i], b.nodes@[i])
}

/// Two nodes read alike.
pub open spec fn node_alike(a: Node, b: Node) -> bool
    decreases a, 0int,
{
    match (a, b) {
        (Node::Lit(x), Node::Lit(y)) => x.value@ == y.value@,
        (Node::Select(x), Node::Select(y)) => x.symbol.same(y.symbol),
        (Node::Base(x), Node::Base(y)) => x.name@ == y.name@ && match (x.func, y.func) {
            (BaseFunc::Sum, BaseFunc::Sum) => true,
            (BaseFunc::Abs, BaseFunc::Abs) => true,
            (BaseFunc::Vabs, BaseFunc::Vabs) => true,
            (
                BaseFunc::RollingApply { window: wx, expr: ex },
                BaseFunc::RollingApply { window: wy, expr: ey },
            ) => wx == wy && alike(ex, ey),
            _ => false,
        },
        (Node::Context(x), Node::Context(y)) => x.name@ == y.name@ && match (x.func, y.func) {
            (
                CtxFunc::Shift { n: nx, value: vx, axis: ax, par: px },
                CtxFunc::Shift { n: ny, value: vy, axis: ay, par: py },
            ) => alike(nx, ny) && ax == ay && px == py && match (vx, vy) {
                (Some(fx), Some(fy)) => alike(fx, fy),
                (None, None) => true,
                _ => false,
            },
        },
        _ => false,
    }
}

impl Node {
    /// A copy of the node. The scalar of a literal node is shared, not
    /// copied.
    pub fn duplicate(&self) -> (r: Node)
        ensures
            node_alike(*self, r),
        decreases self, 0int,
    {
        match self {
            Node::Lit(n) => Node::Lit(LitNode { value: arc_share(&n.value) }),
            Node::Select(n) => Node::Select(SelectNode { symbol: n.symbol.clone() }),
            Node::Base(n) => Node::Base(
                BaseNode {
                    name: n.name,
                    func: match &n.func {
                        BaseFunc::Sum => BaseFunc::Sum,
                        BaseFunc::Abs => BaseFunc::Abs,
                        BaseFunc::Vabs => BaseFunc::Vabs,
                        BaseFunc::RollingApply { window, expr } => BaseFunc::RollingApply {
                            window: *window,
                            expr: expr.duplicate(),
                        },
                    },
                },
            ),
            Node::Context(n) => Node::Context(
                CtxNode {
                    name: n.name,
                    func: match &n.func {
                        CtxFunc::Shift { n, value, axis, par } => CtxFunc::Shift {
                            n: n.duplicate(),
                            value: match value {
                                Some(v) => Some(v.duplicate()),
                                None => None,
                            },
                            axis: *axis,
                            par: *par,
                        },
                    },
                },
            ),
        }
    }
}

impl Expr {
    /// A copy of the expression.
    pub fn duplicate(&self) -> (r: Expr)
        ensures
            alike(*self, r),
        decreases self, 1int,
    {
        let name = match &self.name {
            Some(n) => Some(n.clone()),
            None => None,
        };
        let mut nodes: Vec<Node> = Vec::with_capacity(self.nodes.len());
        let mut i: usize = 0;
        while i < self.nodes.len()
            invariant
                i <= self.nodes@.len(),
                nodes@.len() == i,
                forall|k: int| 0 <= k < i ==> node_alike(#[trigger] self.nodes@[k], nodes@[k]),
            decreases self.nodes.len() - i,
        {
            nodes.push(self.nodes[i].duplicate());
            i += 1;
        }
        Expr { name, nodes }
    }
}

/// Whether a chain only selects and names literals, so that nothing in it
/// consumes a payload.
pub open spec fn plain(nodes: Seq<Node>) -> bool {
    forall|i: int| 0 <= i < nodes.len() ==> (#[trigger] nodes[i] is Select || nodes[i] is Lit)
}

impl LitNode {
    /// A fresh copy of the scalar, as data.
    pub fn eval<'a>(&self) -> (r: Result<Data<'a>, Error>)
        ensures
            r matches Ok(d) && d.content() == scalar_content(self.value@),
    {
        Ok(Data::from_scalar(self.value.clone_inner()))
    }
}

impl SelectNode {
    /// One more handle to the column that the symbol refers to.
    pub fn select<'b>(&self, ctx: &Context<'b>) -> (r: Result<Data<'b>, Error>)
        ensures
            match ctx.resolve(self.symbol) {
                Ok(i) => r == Ok::<Data<'b>, Error>(ctx.data@[i as int]),
                Err(e) => r == Err::<Data<'b>, Error>(e),
            },
    {
        match ctx.get(&self.symbol) {
            Ok(d) => Ok(d.clone()),
            Err(e) => Err(e),
        }
    }

    /// The name of the column, `None` for a position.
    pub fn name(&self) -> (r: Option<&str>)
        ensures
            match r {
                Some(n) => self.symbol.spec_name() == Some(n@),
                None => self.symbol.spec_name() is None,
            },
    {
        self.symbol.name()
    }
}

/// Once a window has failed, the windows as a whole have failed with it.
proof fn lemma_window_fails(
    expr: Expr,
    kind: Kind,
    dtype: DataType,
    values: Seq<Value>,
    window: int,
    backend: Backend,
    k: int,
    n: int,
)
    requires
        0 <= k <= n,
        window_results(expr, kind, dtype, values, window, backend, k) is Err,
    ensures
        window_results(expr, kind, dtype, values, window, backend, n) == window_results(
            expr,
            kind,
            dtype,
            values,
            window,
            backend,
            k,
        ),
    decreases n - k,
{
    if k < n {
        lemma_window_fails(expr, kind, dtype, values, window, backend, k, n - 1);
    }
}

/// Takes the window results in order: the payloads of all of them, or the
/// failure of the first that failed.
fn gather_windows<'b>(
    results: Vec<Result<Payload<'b>, Error>>,
    Ghost(expr): Ghost<Expr>,
    Ghost(kind): Ghost<Kind>,
    dtype: DataType,
    Ghost(values): Ghost<Seq<Value>>,
    window: usize,
    backend: Backend,
) -> (r: Result<Vec<Payload<'b>>, Error>)
    requires
        results@.len() == values.len(),
        forall|i: int|
            0 <= i < results@.len() ==> exactly(
                #[trigger] results@[i],
                sem_window(
                    expr,
                    flat_content(
                        kind,
                        dtype,
                        values.subrange(window_start(i, window as int), i + 1),
                    ),
                    backend,
                ),
            ),
    ensures
        match r {
            Ok(ps) => window_results(
                expr,
                kind,
                dtype,
                values,
                window as int,
                backend,
                values.len() as int,
            ) == Ok::<Seq<Content>, Error>(payload_contents(ps@)),
            Err(e) => window_results(
                expr,
                kind,
                dtype,
                values,
                window as int,
                backend,
                values.len() as int,
            ) == Err::<Seq<Content>, Error>(e),
        },
{
    let n = results.len();
    let mut rest = reversed(results);
    let mut out: Vec<Payload<'b>> = Vec::with_capacity(n);
    assert(payload_contents(out@) =~= Seq::<Content>::empty());
    let mut k: usize = 0;
    while k < n
        invariant
            k <= n,
            n == results@.len(),
            n == values.len(),
            rest@.len() == n - k,
            forall|i: int| 0 <= i < rest@.len() ==> #[trigger] rest@[i] == results@[n - 1 - i],
            forall|i: int|
                0 <= i < results@.len() ==> exactly(
                    #[trigger] results@[i],
                    sem_window(
                        expr,
                        flat_content(
                            kind,
                            dtype,
                            values.subrange(window_start(i, window as int), i + 1),
                        ),
                        backend,
                    ),
                ),
            window_results(expr, kind, dtype, values, window as int, backend, k as int) == Ok::<
                Seq<Content>,
                Error,
            >(payload_contents(out@)),
        decreases n - k,
    {
        let one = rest.pop().unwrap();
        assert(one == results@[k as int]);
        match one {
            Ok(p) => {
                let ghost before = out@;
                out.push(p);
                assert(payload_contents(out@) =~= payload_contents(before).push(p.content()));
            },
            Err(e) => {
                proof {
                    assert(window_results(
                        expr,
                        kind,
                        dtype,
                        values,
                        window as int,
                        backend,
                        k + 1,
                    ) == Err::<Seq<Content>, Error>(e));
                    lemma_window_fails(
                        expr,
                        kind,
                        dtype,
                        values,
                        window as int,
                        backend,
                        k + 1,
                        n as int,
                    );
                }
                return Err(e);
            },
        }
        k += 1;
    }
    Ok(out)
}

/// Evaluates `expr` on one window of a flat sequence or of a column: the
/// chain is run against the context of the one column `window`, which is a
/// column called `name` where `kind` says so and a flat sequence else, and
/// the result is materialised for `backend` and cut loose from the window.
pub(crate) fn eval_window<'b>(
    expr: &Expr,
    window: &[Scalar],
    dtype: DataType,
    backend: Backend,
    kind: Kind,
    name: &str,
) -> (r: Result<Payload<'b>, Error>)
    requires
        all_of(values_of(window@), dtype),
        kind == Kind::Vec || (kind == Kind::Series && column_type(dtype) == Some(dtype)),
    ensures
        exactly(r, sem_window(*expr, flat_content(kind, dtype, values_of(window@)), backend)),
{
    if matches!(kind, Kind::Series) {
        let column = Series::from_window(name, dtype, window);
        let ctx = Context::new(Data::from_series(column));
        let named = match &expr.name {
            Some(n) => Some(n.as_str()),
            None => None,
        };
        match settle(expr, &ctx, backend) {
            Ok(p) => Ok(p.alias(named)),
            Err(e) => Err(e),
        }
    } else {
        let ctx = Context::new(Data::from_vec(DynVec::borrowed_parts(dtype, window)));
        settle(expr, &ctx, backend)
    }
}

/// Evaluates `expr` on one window of an array of one axis; see
/// [`eval_window`].
pub(crate) fn eval_window_array<'b>(
    expr: &Expr,
    window: ArbArray<'_>,
    dtype: DataType,
    backend: Backend,
) -> (r: Result<Payload<'b>, Error>)
    requires
        all_of(nd_values(window), dtype),
        nd_shape(window) == seq![nd_values(window).len() as usize],
    ensures
        exactly(r, sem_window(*expr, flat_content(Kind::Array, dtype, nd_values(window)), backend)),
{
    let ctx = Context::new(Data::from_array(DynArray::from_parts(dtype, window)));
    settle(expr, &ctx, backend)
}

/// Runs `expr` against the context of one window, materialises the result
/// for `backend` and cuts it loose from the window.
fn settle<'b>(expr: &Expr, ctx: &Context<'_>, backend: Backend) -> (r: Result<Payload<'b>, Error>)
    requires
        ctx.env().columns.len() == 1,
        ctx.env().columns[0].kind != Kind::TrustIter,
        ctx.env().names is None,
        ctx.env().backend is None,
    ensures
        exactly(r, sem_window(*expr, ctx.env().columns[0], backend)),
{
    assert(ctx.env() == Env::single(ctx.env().columns[0])) by {
        assert(ctx.env().columns =~= seq![ctx.env().columns[0]]);
    }
    proof {
        assert(no_iterator(ctx.env()));
        lemma_no_iterator_settles(*expr, ctx.env());
    }
    let run = match expr.run(ctx, Some(backend)) {
        Ok(h) => h,
        Err(e) => {
            return Err(e);
        },
    };
    let taken = match run.detach() {
        Ok(p) => p,
        Err(e) => {
            proof {
                assert(false);
            }
            return Err(e);
        },
    };
    match taken.into_result(Some(backend)) {
        Ok(p) => p.into_owned(Some(backend)),
        Err(e) => Err(e),
    }
}

/// The rolling node on the elements of a flat sequence, or of the column
/// called `name` where `kind` says so.
fn roll_flat<'b>(
    items: &[Scalar],
    dtype: DataType,
    window: usize,
    expr: &Expr,
    backend: Backend,
    kind: Kind,
    name: &str,
) -> (r: Result<Payload<'b>, Error>)
    requires
        all_of(values_of(items@), dtype),
        kind == Kind::Vec || (kind == Kind::Series && column_type(dtype) == Some(dtype)),
    ensures
        exactly(
            r,
            sem_rolling(flat_content(kind, dtype, values_of(items@)), window, *expr, backend),
        ),
{
    let len = items.len();
    proof {
        lemma_values_of(items@);
    }
    if window == 0 {
        return Err(Error::OutOfBounds { idx: 0, len });
    }
    let results = roll_slices(items, window, expr, dtype, backend, kind, name);
    match gather_windows(
        results,
        Ghost(*expr),
        Ghost(kind),
        dtype,
        Ghost(values_of(items@)),
        window,
        backend,
    ) {
        Ok(ps) => join(ps, None, backend),
        Err(e) => Err(e),
    }
}

/// The rolling node on an array of one axis.
fn roll_arr<'b>(arr: DynArray<'_>, window: usize, expr: &Expr, backend: Backend) -> (r: Result<
    Payload<'b>,
    Error,
>)
    requires
        arr.shape().len() == 1,
    ensures
        exactly(
            r,
            sem_rolling(
                Content {
                    kind: Kind::Array,
                    dtype: arr.spec_dtype(),
                    values: arr.values(),
                    shape: arr.shape(),
                },
                window,
                *expr,
                backend,
            ),
        ),
{
    let len = arr.len();
    if window == 0 {
        return Err(Error::OutOfBounds { idx: 0, len });
    }
    let dtype = arr.dtype();
    let ghost values = arr.values();
    let raw = arr.into_arr();
    let results = roll_array(&raw, window, expr, dtype, backend);
    match gather_windows(
        results,
        Ghost(*expr),
        Ghost(Kind::Array),
        dtype,
        Ghost(values),
        window,
        backend,
    ) {
        Ok(ps) => join(ps, None, backend),
        Err(e) => Err(e),
    }
}

/// What is handed down a chain: a handle to a column of the context, which
/// the context holds as well, or a payload that a node made and nobody else
/// holds.
pub enum Held<'a> {
    Handle(Data<'a>),
    Owned(Payload<'a>),
}

impl<'a> Held<'a> {
    /// What is held, apart from what it is called.
    pub open spec fn content(&self) -> Content {
        match self {
            Held::Handle(d) => d.content(),
            Held::Owned(p) => p.content(),
        }
    }

    /// The name of what is held, where it has one.
    pub open spec fn spec_name(&self) -> Option<Seq<char>> {
        match self {
            Held::Handle(d) => d.spec_name(),
            Held::Owned(p) => p.spec_name(),
        }
    }

    /// Whether this is a handle to a lazy iterator, which only its one
    /// owner may run.
    pub open spec fn lazy(&self) -> bool {
        self matches Held::Handle(d) && d is TrustIter
    }

    /// The payload, ready to be consumed. Only a handle to a lazy iterator
    /// may refuse, with `SharedOwnership`.
    pub fn detach(self) -> (r: Result<Payload<'a>, Error>)
        ensures
            match r {
                Ok(p) => p.content() == self.content() && p.spec_name() == self.spec_name(),
                Err(e) => self.lazy() && e == Error::SharedOwnership,
            },
    {
        match self {
            Held::Handle(d) => d.detach(),
            Held::Owned(p) => Ok(p),
        }
    }

    /// A handle to what is held.
    pub fn into_data(self) -> (r: Data<'a>)
        ensures
            r.content() == self.content(),
            r.spec_name() == self.spec_name(),
    {
        match self {
            Held::Handle(d) => d,
            Held::Owned(p) => p.into_data(),
        }
    }
}

/// The content of what is handed down a chain, where anything is.
pub open spec fn held(h: Option<Held<'_>>) -> Option<Content> {
    match h {
        Some(x) => Some(x.content()),
        None => None,
    }
}

/// Whether `name` is the name under which a column comes out of a chain
/// whose last node is `last`, before the name of the expression is put on
/// it. A column of the context that the node selects keeps its name. A
/// column that the sum, the absolute value or the shift made, or that a
/// lazy iterator was materialised into, has the empty name. A rolling node
/// hands on the name that its expression gave on the first window, which is
/// left open here.
pub open spec fn chain_name(last: Node, ctx: Context<'_>, name: Option<Seq<char>>) -> bool {
    match last {
        Node::Select(n) => match ctx.resolve(n.symbol) {
            Ok(j) => name == if ctx.data@[j as int] is Series {
                ctx.data@[j as int].spec_name()
            } else {
                Some(Seq::<char>::empty())
            },
            Err(_) => true,
        },
        Node::Base(b) => b.func is RollingApply || name == Some(Seq::<char>::empty()),
        _ => name == Some(Seq::<char>::empty()),
    }
}

/// What the last node of a chain says of what the chain hands on: a select
/// node hands on the handle that the context holds, any other node a
/// payload of its own, which as a column has the name that [`chain_name`]
/// says.
pub open spec fn handed_by(last: Node, ctx: Context<'_>, h: Held<'_>) -> bool {
    match last {
        Node::Select(n) => match ctx.resolve(n.symbol) {
            Ok(j) => h matches Held::Handle(d) && d.content() == ctx.data@[j as int].content()
                && d.spec_name() == ctx.data@[j as int].spec_name(),
            Err(_) => true,
        },
        _ => h matches Held::Owned(p) && (p is Series ==> chain_name(last, ctx, p.spec_name())),
    }
}

/// Whether no column of the context is a lazy iterator. Every expression
/// is settled against such a context; see [`settled`].
pub open spec fn no_iterator(env: Env) -> bool {
    forall|i: int| 0 <= i < env.columns.len() ==> (#[trigger] env.columns[i]).kind != Kind::TrustIter
}

/// Whether evaluating `expr` against the context never takes a lazy
/// iterator out of the context: no select node of its chain, nor of an
/// expression that one of its shift nodes evaluates, resolves to a column
/// that is a lazy iterator. A lazy iterator can be run by its one owner
/// only and the context holds its columns, so the outcome of a settled
/// evaluation is decided by what it means. The expression of a rolling
/// node is evaluated against the windows, never against the context.
pub open spec fn settled(expr: Expr, env: Env) -> bool
    decreases expr, 1int,
{
    forall|i: int| 0 <= i < expr.nodes@.len() ==> node_settled(#[trigger] expr.nodes@[i], env)
}

/// Whether a node takes no lazy iterator out of the context; see
/// [`settled`].
pub open spec fn node_settled(node: Node, env: Env) -> bool
    decreases node, 0int,
{
    match node {
        Node::Select(n) => match env.resolve(n.symbol) {
            Ok(i) => env.columns[i as int].kind != Kind::TrustIter,
            Err(_) => true,
        },
        Node::Context(n) => shift_settled(n.func, env),
        _ => true,
    }
}

/// Whether the expressions of a shift node take no lazy iterator out of
/// the context; see [`settled`].
pub open spec fn shift_settled(func: CtxFunc, env: Env) -> bool
    decreases func, 0int,
{
    match func {
        CtxFunc::Shift { n, value, axis, par } => settled(n, env) && match value {
            Some(v) => settled(v, env),
            None => true,
        },
    }
}

/// Against a context without lazy iterators every expression is settled.
pub proof fn lemma_no_iterator_settles(expr: Expr, env: Env)
    requires
        no_iterator(env),
    ensures
        settled(expr, env),
    decreases expr, 1int,
{
    assert forall|i: int| 0 <= i < expr.nodes@.len() implies node_settled(
        #[trigger] expr.nodes@[i],
        env,
    ) by {
        match expr.nodes@[i] {
            Node::Context(n) => match n.func {
                CtxFunc::Shift { n: d, value, axis, par } => {
                    lemma_no_iterator_settles(d, env);
                    match value {
                        Some(v) => {
                            lemma_no_iterator_settles(v, env);
                        },
                        None => {},
                    }
                },
            },
            _ => {},
        }
    }
}

impl BaseNode {
    /// Applies the transform to a payload: see [`sem_base`]. A column that
    /// the sum or the absolute value makes has the empty name.
    pub fn apply_to<'a>(&self, p: Payload<'a>, backend: Backend) -> (r: Result<Payload<'a>, Error>)
        ensures
            exactly(r, sem_base(p.content(), self.func, backend)),
            !(self.func is RollingApply) ==> (r matches Ok(q) ==> (q is Series ==> q.spec_name()
                == Some(Seq::<char>::empty()))),
    {
        match &self.func {
            BaseFunc::Sum => sum_of(p),
            BaseFunc::Abs => match abs_of(p, backend, true) {
                Ok(q) => Ok(q),
                Err(e) => Err(e),
            },
            BaseFunc::Vabs => match abs_of(p, backend, false) {
                Ok(q) => Ok(q),
                Err(e) => Err(e),
            },
            BaseFunc::RollingApply { window, expr } => match p {
                Payload::Scalar(_) => Err(Error::UnsupportedOperation),
                Payload::Vec(vec) => roll_flat(
                    vec.as_slice(),
                    vec.dtype(),
                    *window,
                    expr,
                    backend,
                    Kind::Vec,
                    "",
                ),
                Payload::TrustIter(it) => match it.collect_vec() {
                    Ok(v) => roll_flat(
                        v.as_slice(),
                        v.dtype(),
                        *window,
                        expr,
                        backend,
                        Kind::Vec,
                        "",
                    ),
                    Err(e) => {
                        proof {
                            assert(false);
                        }
                        Err(e)
                    },
                },
                Payload::Series(series) => {
                    series.typed();
                    roll_flat(
                        series.as_slice(),
                        series.dtype(),
                        *window,
                        expr,
                        backend,
                        Kind::Series,
                        series.name(),
                    )
                },
                Payload::Array(array) => {
                    if array.ndim() != 1 {
                        Err(Error::ShapeMismatch)
                    } else {
                        roll_arr(array.view(), *window, expr, backend)
                    }
                },
            },
        }
    }

    /// Applies the transform to what is handed down a chain. A rolling
    /// node reads a sequence or an array through the handle to it; every
    /// other node, and the rolling node on anything else, takes the
    /// payload out first.
    fn apply_held<'a>(&self, h: Held<'a>, backend: Backend) -> (r: Result<Payload<'a>, Error>)
        ensures
            agreeing(r, sem_base(h.content(), self.func, backend)),
            !h.lazy() ==> exactly(r, sem_base(h.content(), self.func, backend)),
            !(self.func is RollingApply) ==> (r matches Ok(q) ==> (q is Series ==> q.spec_name()
                == Some(Seq::<char>::empty()))),
    {
        match h {
            Held::Owned(p) => self.apply_to(p, backend),
            Held::Handle(data) => {
                if let BaseFunc::RollingApply { window, expr } = &self.func {
                    if let Data::Vec(vec) = &data {
                        return roll_flat(
                            vec.as_slice(),
                            vec.dtype(),
                            *window,
                            expr,
                            backend,
                            Kind::Vec,
                            "",
                        );
                    }
                    if let Data::Array(array) = &data {
                        return if array.ndim() != 1 {
                            Err(Error::ShapeMismatch)
                        } else {
                            roll_arr(array.view(), *window, expr, backend)
                        };
                    }
                }
                match data.detach() {
                    Ok(p) => self.apply_to(p, backend),
                    Err(e) => Err(e),
                }
            },
        }
    }

    /// Applies the transform to the data handed down the chain: see
    /// [`sem_base`]. The outcome is exactly what the transform means unless
    /// the handle holds a lazy iterator, which only its one owner may run.
    pub fn apply<'a>(&self, data: Data<'a>, backend: Backend) -> (r: Result<Data<'a>, Error>)
        ensures
            agrees(r, sem_base(data.content(), self.func, backend)),
            !(data is TrustIter) ==> exact(r, sem_base(data.content(), self.func, backend)),
    {
        match self.apply_held(Held::Handle(data), backend) {
            Ok(p) => Ok(p.into_data()),
            Err(e) => Err(e),
        }
    }
}

impl CtxNode {
    /// Applies the transform to a payload, evaluating the expressions of
    /// the node against the context: see [`sem_shift`]. The outcome is
    /// exactly what the transform means where the expressions of the node
    /// take no lazy iterator out of the context.
    pub fn apply_to<'a>(&self, p: Payload<'a>, ctx: &Context<'_>, backend: Backend) -> (r: Result<
        Payload<'a>,
        Error,
    >)
        ensures
            agreeing(r, sem_shift(p.content(), self.func, ctx.env(), backend)),
            shift_settled(self.func, ctx.env()) ==> exactly(
                r,
                sem_shift(p.content(), self.func, ctx.env(), backend),
            ),
            r matches Ok(q) ==> (q is Series ==> q.spec_name() == Some(Seq::<char>::empty())),
        decreases self, 0int,
    {
        match &self.func {
            CtxFunc::Shift { n, value, axis, par } => {
                let distance = match n.evaluate(ctx, None) {
                    Ok(d) => match d.into_scalar() {
                        Ok(Scalar::I32(x)) => x,
                        Ok(_) => {
                            return Err(Error::TypeMismatch);
                        },
                        Err(e) => {
                            return Err(e);
                        },
                    },
                    Err(e) => {
                        return Err(e);
                    },
                };
                let fill = match value {
                    Some(v) => match v.evaluate(ctx, None) {
                        Ok(d) => match d.into_scalar() {
                            Ok(s) => Some(s),
                            Err(e) => {
                                return Err(e);
                            },
                        },
                        Err(e) => {
                            return Err(e);
                        },
                    },
                    None => None,
                };
                let filler = match fill_for(p.dtype(), fill) {
                    Ok(f) => f,
                    Err(e) => {
                        return Err(e);
                    },
                };
                if let Payload::Series(series) = &p {
                    match series.titer() {
                        Ok(it) => match it.vshift(distance, Some(filler)) {
                            Ok(shifted) => {
                                proof {
                                    lemma_cast_identity(filler@);
                                }
                                shifted.collect_payload(backend)
                            },
                            Err(e) => Err(e),
                        },
                        Err(e) => Err(e),
                    }
                } else if p.ndim() <= 1 {
                    match p.into_titer() {
                        Ok(it) => match it.vshift(distance, Some(filler)) {
                            Ok(shifted) => {
                                proof {
                                    lemma_cast_identity(filler@);
                                }
                                Ok(Payload::TrustIter(shifted))
                            },
                            Err(e) => Err(e),
                        },
                        Err(e) => Err(e),
                    }
                } else {
                    let along = match axis {
                        Some(a) => *a,
                        None => 0,
                    };
                    match p.into_array() {
                        Ok(a) => match a.shift_axis(along, distance, filler) {
                            Ok(shifted) => Ok(Payload::Array(shifted)),
                            Err(e) => Err(e),
                        },
                        Err(e) => Err(e),
                    }
                }
            },
        }
    }

    /// Applies the transform to the data handed down the chain, evaluating
    /// the expressions of the node against the context: see [`sem_shift`].
    /// The outcome is exactly what the transform means where the handle
    /// holds no lazy iterator and the expressions of the node take none out
    /// of the context.
    pub fn apply<'a>(&self, data: Data<'a>, ctx: &Context<'_>, backend: Backend) -> (r: Result<
        Data<'a>,
        Error,
    >)
        ensures
            agrees(r, sem_shift(data.content(), self.func, ctx.env(), backend)),
            !(data is TrustIter) && shift_settled(self.func, ctx.env()) ==> exact(
                r,
                sem_shift(data.content(), self.func, ctx.env(), backend),
            ),
    {
        match data.detach() {
            Ok(p) => match self.apply_to(p, ctx, backend) {
                Ok(q) => Ok(q.into_data()),
                Err(e) => Err(e),
            },
            Err(e) => Err(e),
        }
    }
}

impl<'a> Context<'a> {
    /// The backend that an evaluation against this context works and
    /// materialises for; see [`chosen_backend`].
    pub fn backend_for(&self, backend: Option<Backend>) -> (r: Backend)
        ensures
            r == chosen_backend(self.env(), backend),
    {
        match backend {
            Some(b) => b,
            None => match self.backend {
                Some(b) => b,
                None => Backend::default(),
            },
        }
    }
}

impl Expr {
    /// The name of the result, where the expression has one.
    pub open spec fn spec_name(&self) -> Option<Seq<char>> {
        match self.name {
            Some(n) => Some(n@),
            None => None,
        }
    }

    /// The expression of the one node `node`.
    pub fn new(node: Node) -> (r: Expr)
        ensures
            r.nodes@ == seq![node],
            r.spec_name() == match node {
                Node::Select(n) => n.symbol.spec_name(),
                _ => None,
            },
    {
        let expr = Expr { name: None, nodes: Vec::new() };
        let r = expr.chain(node);
        assert(r.nodes@ =~= seq![node]);
        r
    }

    /// Names the result.
    pub fn rename(&mut self, name: &str)
        ensures
            final(self).nodes == old(self).nodes,
            final(self).spec_name() == Some(name@),
    {
        self.name = Some(name.to_owned());
    }

    /// The expression with its result named.
    pub fn alias(self, name: &str) -> (r: Expr)
        ensures
            r.nodes == self.nodes,
            r.spec_name() == Some(name@),
    {
        let mut r = self;
        r.rename(name);
        r
    }

    /// The expression with `node` put behind its chain. A node that selects
    /// a column by name gives its name to the result.
    pub fn chain(self, node: Node) -> (r: Expr)
        ensures
            r.nodes@ == self.nodes@.push(node),
            r.spec_name() == match node {
                Node::Select(n) => match n.symbol.spec_name() {
                    Some(name) => Some(name),
                    None => self.spec_name(),
                },
                _ => self.spec_name(),
            },
    {
        let mut r = self;
        match &node {
            Node::Select(n) => match n.name() {
                Some(name) => {
                    r.rename(name);
                },
                None => {},
            },
            _ => {},
        }
        r.nodes.push(node);
        r
    }

    /// Runs the chain against a context: every node in order, each handed
    /// what the one before it gave.
    fn run<'b>(&self, ctx: &Context<'b>, backend: Option<Backend>) -> (r: Result<Held<'b>, Error>)
        ensures
            match r {
                Ok(h) => sem_func(*self, ctx.env(), backend) == Ok::<Content, Error>(h.content())
                    && (settled(*self, ctx.env()) ==> !h.lazy()) && self.nodes@.len() > 0
                    && handed_by(self.nodes@.last(), *ctx, h),
                Err(e) => sem_func(*self, ctx.env(), backend) == Err::<Content, Error>(e) || (e
                    == Error::SharedOwnership && !settled(*self, ctx.env()) && !plain(
                    self.nodes@,
                )),
            },
        decreases self, 1int,
    {
        let b = match backend {
            Some(b) => b,
            None => Backend::default(),
        };
        let mut data: Option<Held<'b>> = None;
        let mut i: usize = 0;
        while i < self.nodes.len()
            invariant
                i <= self.nodes@.len(),
                b == match backend {
                    Some(x) => x,
                    None => Backend::Vec,
                },
                sem_run(self.nodes@, i as int, ctx.env(), b) == Ok::<Option<Content>, Error>(
                    held(data),
                ),
                settled(*self, ctx.env()) ==> (data matches Some(h) ==> !h.lazy()),
                data is Some ==> i > 0 && handed_by(self.nodes@[i - 1], *ctx, data.unwrap()),
            decreases self.nodes.len() - i,
        {
            let ghost acc = held(data);
            let ghost meant = sem_node(self.nodes@[i as int], acc, ctx.env(), b);
            assert(settled(*self, ctx.env()) ==> node_settled(self.nodes@[i as int], ctx.env()));
            let step = match &self.nodes[i] {
                Node::Select(n) => {
                    assert(ctx.env().columns.len() == ctx.data@.len());
                    match n.select(ctx) {
                        Ok(d) => {
                            assert(ctx.env().columns[ctx.resolve(n.symbol).unwrap() as int]
                                == d.content());
                            Ok(Held::Handle(d))
                        },
                        Err(e) => Err(e),
                    }
                },
                Node::Lit(n) => Ok(Held::Owned(Payload::Scalar(n.value.clone_inner()))),
                Node::Base(n) => match data {
                    Some(h) => match n.apply_held(h, b) {
                        Ok(p) => Ok(Held::Owned(p)),
                        Err(e) => Err(e),
                    },
                    None => Err(Error::NoInput),
                },
                Node::Context(n) => match data {
                    Some(h) => {
                        match h.detach() {
                            Ok(p) => match n.apply_to(p, ctx, b) {
                                Ok(q) => Ok(Held::Owned(q)),
                                Err(e) => Err(e),
                            },
                            Err(e) => Err(e),
                        }
                    },
                    None => Err(Error::NoInput),
                },
            };
            assert(match step {
                Ok(h) => meant == Ok::<Content, Error>(h.content()) && (settled(
                    *self,
                    ctx.env(),
                ) ==> !h.lazy()) && handed_by(self.nodes@[i as int], *ctx, h),
                Err(e) => meant == Err::<Content, Error>(e) || (e == Error::SharedOwnership
                    && !settled(*self, ctx.env()) && !(self.nodes@[i as int] is Select
                    || self.nodes@[i as int] is Lit)),
            });
            match step {
                Ok(h) => {
                    data = Some(h);
                },
                Err(e) => {
                    proof {
                        if meant == Err::<Content, Error>(e) {
                            assert(sem_run(self.nodes@, i + 1, ctx.env(), b) == Err::<
                                Option<Content>,
                                Error,
                            >(e));
                            lemma_run_fails(
                                self.nodes@,
                                i + 1,
                                self.nodes@.len() as int,
                                ctx.env(),
                                b,
                            );
                        }
                    }
                    return Err(e);
                },
            }
            i += 1;
        }
        match data {
            Some(h) => Ok(h),
            None => Err(Error::NoData),
        }
    }

    /// Runs the chain against a context: every node in order, each handed
    /// what the one before it gave. `backend` is the one that the transforms
    /// work for, the flat one where none is named. The outcome is exactly
    /// what the chain means where the chain is settled against the context,
    /// that is where it takes no lazy iterator out of it, and where the
    /// chain only selects and names literals.
    pub fn to_func<'b>(&self, ctx: &Context<'b>, backend: Option<Backend>) -> (r: Result<
        Data<'b>,
        Error,
    >)
        ensures
            agrees(r, sem_func(*self, ctx.env(), backend)),
            settled(*self, ctx.env()) || plain(self.nodes@) ==> exact(
                r,
                sem_func(*self, ctx.env(), backend),
            ),
            r matches Ok(d) ==> (d is Series ==> chain_name(
                self.nodes@.last(),
                *ctx,
                d.spec_name(),
            )),
    {
        match self.run(ctx, backend) {
            Ok(h) => Ok(h.into_data()),
            Err(e) => Err(e),
        }
    }

    /// Evaluates the expression against a context and takes the payload of
    /// the result, materialised but not named.
    fn evaluate<'b>(&self, ctx: &Context<'b>, backend: Option<Backend>) -> (r: Result<
        Payload<'b>,
        Error,
    >)
        ensures
            agreeing(r, sem_eval(*self, ctx.env(), backend)),
            settled(*self, ctx.env()) ==> exactly(r, sem_eval(*self, ctx.env(), backend)),
        decreases self, 2int,
    {
        let chosen = Some(ctx.backend_for(backend));
        let run = match self.run(ctx, chosen) {
            Ok(h) => h,
            Err(e) => {
                return Err(e);
            },
        };
        match run.detach() {
            Ok(p) => p.into_result(chosen),
            Err(e) => Err(e),
        }
    }

    /// Evaluates the expression against a context and materialises the
    /// result: for `backend` where one is named, else for the backend of the
    /// context, else for `Vec`, the flat default. A column that
    /// comes out takes the name of the expression, where it has one, and
    /// keeps the name that the chain gave it where it has none; see
    /// [`chain_name`]. The
    /// outcome is exactly what the evaluation means where the expression is
    /// settled against the context, that is where it takes no lazy iterator
    /// out of it; a chain that only selects and names literals
    /// fails only where its meaning fails or where it selects a lazy
    /// iterator, which the context still holds.
    pub fn eval<'b>(&self, ctx: &Context<'b>, backend: Option<Backend>) -> (r: Result<
        Data<'b>,
        Error,
    >)
        ensures
            agrees(r, sem_eval(*self, ctx.env(), backend)),
            settled(*self, ctx.env()) ==> exact(r, sem_eval(*self, ctx.env(), backend)),
            r matches Ok(d) ==> (d is Series ==> match self.name {
                Some(n) => d.spec_name() == Some(n@),
                None => chain_name(self.nodes@.last(), *ctx, d.spec_name()),
            }),
            plain(self.nodes@) ==> match sem_func(
                *self,
                ctx.env(),
                Some(chosen_backend(ctx.env(), backend)),
            ) {
                Ok(c) => c.kind != Kind::TrustIter ==> r is Ok,
                Err(_) => true,
            },
    {
        let chosen = Some(ctx.backend_for(backend));
        let run = match self.run(ctx, chosen) {
            Ok(h) => h,
            Err(e) => {
                return Err(e);
            },
        };
        let named = match &self.name {
            Some(n) => Some(n.as_str()),
            None => None,
        };
        match run {
            Held::Handle(d) => match d.into_result(chosen) {
                Ok(d) => Ok(d.alias(named)),
                Err(e) => Err(e),
            },
            Held::Owned(p) => match p.into_result(chosen) {
                Ok(q) => Ok(q.into_data().alias(named)),
                Err(e) => Err(e),
            },
        }
    }

    /// The expression followed by the sum of the present numbers.
    pub fn sum(self) -> (r: Expr)
        ensures
            r.nodes@ == self.nodes@.push(Node::Base(BaseNode { name: "sum", func: BaseFunc::Sum })),
            r.spec_name() == self.spec_name(),
    {
        self.chain(Node::Base(BaseNode { name: "sum", func: BaseFunc::Sum }))
    }

    /// The expression followed by the absolute value of every number.
    pub fn abs(self) -> (r: Expr)
        ensures
            r.nodes@ == self.nodes@.push(Node::Base(BaseNode { name: "abs", func: BaseFunc::Abs })),
            r.spec_name() == self.spec_name(),
    {
        self.chain(Node::Base(BaseNode { name: "abs", func: BaseFunc::Abs }))
    }

    /// The expression followed by the absolute value of every present
    /// number.
    pub fn vabs(self) -> (r: Expr)
        ensures
            r.nodes@ == self.nodes@.push(
                Node::Base(BaseNode { name: "vabs", func: BaseFunc::Vabs }),
            ),
            r.spec_name() == self.spec_name(),
    {
        self.chain(Node::Base(BaseNode { name: "vabs", func: BaseFunc::Vabs }))
    }

    /// The expression followed by a shift by what `n` evaluates to, filled
    /// with what `value` evaluates to.
    pub fn vshift(self, n: Expr, value: Option<Expr>, axis: Option<usize>, par: Option<bool>) -> (r:
        Expr)
        ensures
            r.nodes@ == self.nodes@.push(
                Node::Context(
                    CtxNode { name: "shift", func: CtxFunc::Shift { n, value, axis, par } },
                ),
            ),
            r.spec_name() == self.spec_name(),
    {
        self.chain(
            Node::Context(CtxNode { name: "shift", func: CtxFunc::Shift { n, value, axis, par } }),
        )
    }

    /// Starts a rolling evaluation over trailing windows of `window`
    /// elements of what the expression gives.
    pub fn rolling(self, window: usize) -> (r: Rolling)
        ensures
            r.window == window,
            r.expr == self,
    {
        Rolling { window, expr: self }
    }
}

/// Once a chain has failed it stays failed.
proof fn lemma_run_fails(nodes: Seq<Node>, k: int, n: int, env: Env, backend: Backend)
    requires
        0 <= k <= n <= nodes.len(),
        sem_run(nodes, k, env, backend) is Err,
    ensures
        sem_run(nodes, n, env, backend) == sem_run(nodes, k, env, backend),
    decreases n - k,
{
    if k < n {
        lemma_run_fails(nodes, k, n - 1, env, backend);
    }
}

/// An expression and the size of the trailing windows to evaluate another
/// one on.
pub struct Rolling {
    pub window: usize,
    pub expr: Expr,
}

impl Rolling {
    /// The expression followed by the rolling node: `func` evaluated on
    /// every trailing window, the results joined.
    pub fn apply(self, func: Expr) -> (r: Expr)
        ensures
            r.nodes@ == self.expr.nodes@.push(
                Node::Base(
                    BaseNode {
                        name: "rolling_apply",
                        func: BaseFunc::RollingApply { window: self.window, expr: func },
                    },
                ),
            ),
            r.spec_name() == self.expr.spec_name(),
    {
        let window = self.window;
        self.expr.chain(
            Node::Base(
                BaseNode {
                    name: "rolling_apply",
                    func: BaseFunc::RollingApply { window, expr: func },
                },
            ),
        )
    }
}

/// The expression that selects the column `symbol` refers to.
pub fn s(symbol: Symbol) -> (r: Expr)
    ensures
        r.nodes@ == seq![Node::Select(SelectNode { symbol })],
        r.spec_name() == symbol.spec_name(),
{
    Expr::new(Node::Select(SelectNode { symbol }))
}

/// The expression that stands for the scalar `v`.
pub fn lit(v: Scalar) -> (r: Expr)
    ensures
        r.nodes@.len() == 1,
        r.nodes@[0] matches Node::Lit(n) && n.value@ == v@,
        r.spec_name() is None,
{
    Expr::new(Node::Lit(LitNode { value: Arc::new(v) }))
}

} // verus!
