//! The binding of columns to positions and names.
use vstd::prelude::*;
use vstd::std_specs::convert::FromSpecImpl;

use crate::backend::Backend;
use crate::data::Content;
use crate::data::Data;
use crate::error::Error;

verus! {

/// A reference to a column of a context: a position counted from the front,
/// a position that may be counted from the back, or a name.
#[derive(Debug)]
pub enum Symbol {
    I32(i32),
    Usize(usize),
    Str(String),
}

impl Clone for Symbol {
    fn clone(&self) -> (r: Self)
        ensures
            r.same(*self),
    {
        match self {
            Symbol::I32(i) => Symbol::I32(*i),
            Symbol::Usize(i) => Symbol::Usize(*i),
            Symbol::Str(s) => Symbol::Str(s.clone()),
        }
    }
}

impl From<i32> for Symbol {
    /// The position `i`, counted from the back where it is negative.
    fn from(i: i32) -> (r: Symbol) {
        Symbol::I32(i)
    }
}

impl FromSpecImpl<i32> for Symbol {
    open spec fn obeys_from_spec() -> bool {
        true
    }

    open spec fn from_spec(i: i32) -> Symbol {
        Symbol::I32(i)
    }
}

impl From<usize> for Symbol {
    /// The position `i` from the front.
    fn from(i: usize) -> (r: Symbol) {
        Symbol::Usize(i)
    }
}

impl FromSpecImpl<usize> for Symbol {
    open spec fn obeys_from_spec() -> bool {
        true
    }

    open spec fn from_spec(i: usize) -> Symbol {
        Symbol::Usize(i)
    }
}

impl From<String> for Symbol {
    /// The column called `name`.
    fn from(name: String) -> (r: Symbol) {
        Symbol::Str(name)
    }
}

impl FromSpecImpl<String> for Symbol {
    open spec fn obeys_from_spec() -> bool {
        true
    }

    open spec fn from_spec(name: String) -> Symbol {
        Symbol::Str(name)
    }
}

impl Symbol {
    /// Two symbols refer alike: the same position, or names that read the
    /// same.
    pub open spec fn same(self, other: Symbol) -> bool {
        match (self, other) {
            (Symbol::I32(a), Symbol::I32(b)) => a == b,
            (Symbol::Usize(a), Symbol::Usize(b)) => a == b,
            (Symbol::Str(a), Symbol::Str(b)) => a@ == b@,
            _ => false,
        }
    }

    /// The name that the symbol holds, where it holds one.
    pub open spec fn spec_name(self) -> Option<Seq<char>> {
        match self {
            Symbol::Str(s) => Some(s@),
            _ => None,
        }
    }

    /// The name of the column, `None` for a position.
    pub fn name(&self) -> (r: Option<&str>)
        ensures
            match r {
                Some(n) => self.spec_name() == Some(n@),
                None => self.spec_name() is None,
            },
    {
        match self {
            Symbol::Str(name) => Some(name.as_str()),
            _ => None,
        }
    }

    /// The symbol for the column called `name`.
    pub fn from_name(name: &str) -> (r: Symbol)
        ensures
            r.spec_name() == Some(name@),
    {
        Symbol::Str(name.to_owned())
    }
}

/// The names of columns and the position that each stands for. No name
/// occurs twice.
pub struct ColMap {
    entries: Vec<(String, usize)>,
}

impl View for ColMap {
    type V = Map<Seq<char>, usize>;

    /// The position bound to each name.
    closed spec fn view(&self) -> Map<Seq<char>, usize> {
        Map::new(
            |k: Seq<char>| Self::holds(self.entries@, k),
            |k: Seq<char>| self.entries@[Self::place(self.entries@, k)].1,
        )
    }
}

impl ColMap {
    #[verifier::type_invariant]
    spec fn distinct(self) -> bool {
        forall|i: int, j: int|
            0 <= i < j < self.entries@.len() ==> (#[trigger] self.entries@[i]).0@
                != (#[trigger] self.entries@[j]).0@
    }

    spec fn holds(entries: Seq<(String, usize)>, k: Seq<char>) -> bool {
        exists|i: int| 0 <= i < entries.len() && (#[trigger] entries[i]).0@ == k
    }

    spec fn place(entries: Seq<(String, usize)>, k: Seq<char>) -> int {
        choose|i: int| 0 <= i < entries.len() && (#[trigger] entries[i]).0@ == k
    }

    /// The map that binds nothing.
    pub fn new() -> (r: ColMap)
        ensures
            r@ == Map::<Seq<char>, usize>::empty(),
    {
        let r = ColMap { entries: Vec::new() };
        assert(r@ =~= Map::<Seq<char>, usize>::empty());
        r
    }

    /// Where in the entries `name` stands, if it does.
    fn find(&self, name: &str) -> (r: Option<usize>)
        ensures
            match r {
                Some(i) => i < self.entries@.len() && self.entries@[i as int].0@ == name@,
                None => !Self::holds(self.entries@, name@),
            },
    {
        let key = name.to_owned();
        let mut i: usize = 0;
        while i < self.entries.len()
            invariant
                i <= self.entries@.len(),
                key@ == name@,
                forall|k: int| 0 <= k < i ==> (#[trigger] self.entries@[k]).0@ != name@,
            decreases self.entries.len() - i,
        {
            if self.entries[i].0 == key {
                return Some(i);
            }
            i += 1;
        }
        None
    }

    /// The position bound to `name`, `None` where the name is not bound.
    pub fn get(&self, name: &str) -> (r: Option<usize>)
        ensures
            match r {
                Some(i) => self@.dom().contains(name@) && self@[name@] == i,
                None => !self@.dom().contains(name@),
            },
    {
        proof {
            use_type_invariant(self);
        }
        match self.find(name) {
            Some(i) => {
                assert(Self::holds(self.entries@, name@));
                assert(Self::place(self.entries@, name@) == i as int);
                Some(self.entries[i].1)
            },
            None => None,
        }
    }

    /// Binds `name` to `idx`; an earlier binding of the name is replaced.
    pub fn insert(&mut self, name: String, idx: usize)
        ensures
            final(self)@ == old(self)@.insert(name@, idx),
    {
        proof {
            use_type_invariant(&*self);
        }
        let ghost before = self.entries@;
        let mut entries: Vec<(String, usize)> = Vec::new();
        std::mem::swap(&mut entries, &mut self.entries);
        let found = {
            let probe = ColMap { entries };
            let at = probe.find(name.as_str());
            entries = probe.entries;
            at
        };
        match found {
            Some(i) => {
                entries.set(i, (name, idx));
            },
            None => {
                entries.push((name, idx));
            },
        }
        let ghost after = entries@;
        assert forall|i: int, j: int| 0 <= i < j < after.len() implies (#[trigger] after[i]).0@
            != (#[trigger] after[j]).0@ by {
            if i < before.len() && j < before.len() {
                assert(before[i].0@ != before[j].0@);
            }
        }
        self.entries = entries;
        assert(self@ =~= old(self)@.insert(name@, idx)) by {
            assert forall|k: Seq<char>| #[trigger] self@.dom().contains(k) <==> old(
                self,
            )@.insert(name@, idx).dom().contains(k) by {
                if Self::holds(after, k) {
                    let i = Self::place(after, k);
                    if k != name@ {
                        assert(before[i].0@ == k);
                    }
                }
                if k == name@ {
                    match found {
                        Some(i) => {
                            assert(after[i as int].0@ == k);
                        },
                        None => {
                            assert(after[after.len() - 1].0@ == k);
                        },
                    }
                } else if Self::holds(before, k) {
                    let i = Self::place(before, k);
                    assert(after[i].0@ == k);
                }
            }
            assert forall|k: Seq<char>| #[trigger] self@.dom().contains(k) implies self@[k] == old(
                self,
            )@.insert(name@, idx)[k] by {
                let i = Self::place(after, k);
                if k == name@ {
                    match found {
                        Some(p) => {
                            assert(after[p as int].0@ == k);
                            if i != p as int {
                                if i < p {
                                    assert(after[i].0@ != after[p as int].0@);
                                } else {
                                    assert(after[p as int].0@ != after[i].0@);
                                }
                            }
                        },
                        None => {
                            let p = after.len() - 1;
                            if i != p {
                                assert(after[i].0@ != after[p].0@);
                            }
                        },
                    }
                } else {
                    assert(before[i].0@ == k);
                    let q = Self::place(before, k);
                    if q != i {
                        if q < i {
                            assert(before[q].0@ != before[i].0@);
                        } else {
                            assert(before[i].0@ != before[q].0@);
                        }
                    }
                }
            }
        }
    }
}

/// The map that binds the first `n` names of `columns` to their positions; a
/// name that occurs again is bound to its last position.
pub open spec fn names_map(columns: Seq<String>, n: int) -> Map<Seq<char>, usize>
    decreases n,
{
    if n <= 0 {
        Map::empty()
    } else {
        names_map(columns, n - 1).insert(columns[n - 1]@, (n - 1) as usize)
    }
}

/// The map of a list of names binds each name to a position of the list at
/// which it stands.
proof fn lemma_names_map_wf(columns: Seq<String>, n: int)
    requires
        0 <= n <= columns.len(),
        n <= usize::MAX,
    ensures
        forall|k: Seq<char>| #[trigger]
            names_map(columns, n).dom().contains(k) ==> names_map(columns, n)[k] < n
                && columns[names_map(columns, n)[k] as int]@ == k,
    decreases n,
{
    if n > 0 {
        lemma_names_map_wf(columns, n - 1);
        assert forall|k: Seq<char>| #[trigger]
            names_map(columns, n).dom().contains(k) implies names_map(columns, n)[k] < n
            && columns[names_map(columns, n)[k] as int]@ == k by {
            if k != columns[n - 1]@ {
                assert(names_map(columns, n - 1).dom().contains(k));
            }
        }
    }
}

/// What an expression is evaluated against: columns in order, optionally
/// addressable by name, and the backend to materialise for where the caller
/// names none.
pub struct Context<'a> {
    pub data: Vec<Data<'a>>,
    pub backend: Option<Backend>,
    pub col_map: Option<ColMap>,
}

impl<'a> Default for Context<'a> {
    /// The context without columns.
    fn default() -> (r: Self)
        ensures
            r.data@.len() == 0,
            r.backend is None,
            r.col_map is None,
    {
        Context { data: Vec::new(), backend: None, col_map: None }
    }
}

/// The position that `idx` names among `len` columns, counted from the back
/// where it is negative. A position that is not there gives `OutOfBounds`,
/// which for a negative index reports its distance from the back.
pub open spec fn resolve_index(idx: int, len: nat) -> Result<usize, Error> {
    let at = if idx < 0 {
        len + idx
    } else {
        idx
    };
    if at < 0 {
        Err(Error::OutOfBounds { idx: (-idx) as usize, len: len as usize })
    } else if at >= len {
        Err(Error::OutOfBounds { idx: at as usize, len: len as usize })
    } else {
        Ok(at as usize)
    }
}

/// What a context binds, apart from who owns it: the content of each
/// column, the position that each name stands for, and the backend to
/// materialise for where the caller names none.
pub struct Env {
    pub columns: Seq<Content>,
    pub names: Option<Map<Seq<char>, usize>>,
    pub backend: Option<Backend>,
}

impl Env {
    /// The position that a symbol resolves to. A position from the front
    /// must be below the number of columns; a negative position counts from
    /// the back; a name needs a name map that binds it, and the position so
    /// bound must be there. A name without a map, or one the map does not
    /// bind, gives `MissingBinding`; a position that is not there gives
    /// `OutOfBounds`.
    pub open spec fn resolve(self, symbol: Symbol) -> Result<usize, Error> {
        match symbol {
            Symbol::Usize(i) => resolve_index(i as int, self.columns.len()),
            Symbol::I32(i) => resolve_index(i as int, self.columns.len()),
            Symbol::Str(name) => match self.names {
                Some(map) => if map.dom().contains(name@) {
                    resolve_index(map[name@] as int, self.columns.len())
                } else {
                    Err(Error::MissingBinding)
                },
                None => Err(Error::MissingBinding),
            },
        }
    }

    /// The environment of the one column `c`, without names.
    pub open spec fn single(c: Content) -> Env {
        Env { columns: seq![c], names: None, backend: None }
    }
}

impl<'a> Context<'a> {
    /// The position that a symbol resolves to in this context; see
    /// [`Env::resolve`].
    pub open spec fn resolve(&self, symbol: Symbol) -> Result<usize, Error> {
        self.env().resolve(symbol)
    }

    /// What the context binds, apart from who owns it.
    pub open spec fn env(&self) -> Env {
        Env {
            columns: self.data@.map_values(|d: Data<'a>| d.content()),
            names: match self.col_map {
                Some(map) => Some(map@),
                None => None,
            },
            backend: self.backend,
        }
    }

    /// The name map binds only positions that hold a column, and no two
    /// names to the same one.
    pub open spec fn wf(&self) -> bool {
        self.col_map matches Some(map) ==> {
            &&& forall|k: Seq<char>| #[trigger]
                map@.dom().contains(k) ==> map@[k] < self.data@.len()
            &&& forall|j: Seq<char>, k: Seq<char>|
                map@.dom().contains(j) && map@.dom().contains(k) && j != k ==> #[trigger] map@[j]
                    != #[trigger] map@[k]
        }
    }

    /// The context of the one column `d`, without names.
    pub fn new(d: Data<'a>) -> (r: Self)
        ensures
            r.data@ == seq![d],
            r.backend is None,
            r.col_map is None,
            r.wf(),
            r.env() == Env::single(d.content()),
    {
        let mut data = Vec::with_capacity(1);
        data.push(d);
        assert(data@ =~= seq![d]);
        let r = Context { data, backend: None, col_map: None };
        assert(r.env().columns =~= seq![d.content()]);
        r
    }

    /// The context of the columns `data`, the i-th of which is called
    /// `columns[i]`; a name that occurs again means its last column. Where
    /// there is a column for every name, the name map is well formed.
    pub fn new_from_data_column(data: Vec<Data<'a>>, columns: Vec<String>) -> (r: Self)
        ensures
            r.data == data,
            r.backend is None,
            r.col_map matches Some(map) && map@ == names_map(columns@, columns@.len() as int),
            columns@.len() <= data@.len() ==> r.wf(),
    {
        let ghost listed = columns@;
        let listed_len = columns.len();
        proof {
            lemma_names_map_wf(listed, listed.len() as int);
        }
        let mut col_map = ColMap::new();
        let mut columns = columns;
        let ghost names = columns@;
        let count = columns.len();
        let mut rest: Vec<String> = Vec::with_capacity(count);
        // Names are moved out from the back, then bound from the front.
        while columns.len() > 0
            invariant
                columns@.len() + rest@.len() == names.len(),
                forall|k: int| 0 <= k < columns@.len() ==> #[trigger] columns@[k] == names[k],
                forall|k: int|
                    0 <= k < rest@.len() ==> #[trigger] rest@[k] == names[names.len() - 1 - k],
            decreases columns.len(),
        {
            let c = columns.pop().unwrap();
            rest.push(c);
        }
        let mut i: usize = 0;
        while rest.len() > 0
            invariant
                names.len() <= usize::MAX,
                i + rest@.len() == names.len(),
                forall|k: int|
                    0 <= k < rest@.len() ==> #[trigger] rest@[k] == names[names.len() - 1 - k],
                col_map@ == names_map(names, i as int),
            decreases rest.len(),
        {
            let c = rest.pop().unwrap();
            assert(c == names[i as int]);
            col_map.insert(c, i);
            i += 1;
        }
        Context { data, backend: None, col_map: Some(col_map) }
    }

    /// The number of columns.
    pub fn len(&self) -> (r: usize)
        ensures
            r == self.data@.len(),
    {
        self.data.len()
    }

    pub fn is_empty(&self) -> (r: bool)
        ensures
            r == (self.data@.len() == 0),
    {
        self.data.len() == 0
    }

    /// The column at position `idx`.
    fn at(&self, idx: usize) -> (r: Result<&Data<'a>, Error>)
        ensures
            match resolve_index(idx as int, self.data@.len()) {
                Ok(i) => r == Ok::<&Data<'a>, Error>(&self.data@[i as int]),
                Err(e) => r == Err::<&Data<'a>, Error>(e),
            },
    {
        if idx < self.data.len() {
            Ok(&self.data[idx])
        } else {
            Err(Error::OutOfBounds { idx, len: self.data.len() })
        }
    }

    /// The column that `symbol` refers to.
    pub fn get(&self, symbol: &Symbol) -> (r: Result<&Data<'a>, Error>)
        ensures
            match self.resolve(*symbol) {
                Ok(i) => r == Ok::<&Data<'a>, Error>(&self.data@[i as int]),
                Err(e) => r == Err::<&Data<'a>, Error>(e),
            },
    {
        match symbol {
            Symbol::Usize(idx) => self.at(*idx),
            Symbol::I32(idx) => {
                let idx: i32 = *idx;
                if idx >= 0 {
                    self.at(idx as usize)
                } else {
                    let wide: i64 = idx as i64;
                    let back: usize = (-wide) as usize;
                    let len = self.data.len();
                    if back > len {
                        Err(Error::OutOfBounds { idx: back, len })
                    } else {
                        self.at(len - back)
                    }
                }
            },
            Symbol::Str(name) => match &self.col_map {
                Some(map) => match map.get(name.as_str()) {
                    Some(idx) => self.at(idx),
                    None => Err(Error::MissingBinding),
                },
                None => Err(Error::MissingBinding),
            },
        }
    }
}

/// In `names_map` over the first `n` names, a name is bound to the last
/// position below `n` at which it stands.
proof fn lemma_names_map(columns: Seq<String>, n: int, i: int)
    requires
        0 <= i < n <= columns.len(),
        forall|j: int| i < j < n ==> columns[j]@ != columns[i]@,
    ensures
        names_map(columns, n).dom().contains(columns[i]@),
        names_map(columns, n)[columns[i]@] == i as usize,
    decreases n,
{
    if i < n - 1 {
        lemma_names_map(columns, n - 1, i);
    }
}

/// Positions at the edge: in a context of N columns the position N-1 is
/// there, from the front and as -1 from the back, and the positions N and
/// -N-1 are out of bounds.
pub proof fn lemma_select_bounds(ctx: Context<'_>)
    ensures
        ctx.data@.len() >= 1 ==> ctx.resolve(Symbol::Usize((ctx.data@.len() - 1) as usize)) == Ok::<
            usize,
            Error,
        >((ctx.data@.len() - 1) as usize),
        ctx.data@.len() >= 1 ==> ctx.resolve(Symbol::I32(-1i32)) == Ok::<usize, Error>(
            (ctx.data@.len() - 1) as usize,
        ),
        ctx.data@.len() <= usize::MAX ==> ctx.resolve(Symbol::Usize(ctx.data@.len() as usize))
            matches Err(Error::OutOfBounds { .. }),
        ctx.data@.len() <= i32::MAX ==> ctx.resolve(Symbol::I32(ctx.data@.len() as i32))
            matches Err(Error::OutOfBounds { .. }),
        ctx.data@.len() <= i32::MAX ==> ctx.resolve(Symbol::I32((-ctx.data@.len() - 1) as i32))
            matches Err(Error::OutOfBounds { .. }),
{
}

/// A name resolves like its position: in a context whose name map was made
/// from the list `columns`, the name at position `i` resolves to what the
/// position `i` resolves to, where the name does not stand again further on.
pub proof fn lemma_name_resolves_like_position(ctx: Context<'_>, columns: Seq<String>, i: int)
    requires
        ctx.col_map matches Some(map) && map@ == names_map(columns, columns.len() as int),
        0 <= i < columns.len(),
        forall|j: int| i < j < columns.len() ==> columns[j]@ != columns[i]@,
    ensures
        ctx.resolve(Symbol::Str(columns[i])) == ctx.resolve(Symbol::Usize(i as usize)),
{
    lemma_names_map(columns, columns.len() as int, i);
}

} // verus!
