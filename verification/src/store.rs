//! The objects that run-time values refer to: scopes of variables, arrays and
//! functions, each with its mathematical content.
use vstd::prelude::*;
use crate::ast::{Stmt, StmtV, params_view};
use crate::runtime::{RuntimeValue, Type, TypeV, Val};
use crate::error::{CpcError, CpcResult, RuntimeErrorKind};
use crate::semantics::{EvalR, array_get, in_range, out_of_bounds};

verus! {

/// The index of a scope in the interpreter's store.
pub type ScopeRef = usize;

/// A scope: its own variables and the scope it is nested in.
#[derive(Debug)]
pub struct Scope {
    pub vars: Vec<(String, RuntimeValue)>,
    pub parent: Option<ScopeRef>,
}

/// The content of a scope: a map from names to values.
pub struct ScopeV {
    pub vars: Map<Seq<char>, Val>,
    pub parent: Option<ScopeRef>,
}

/// The map that a list of bindings stands for; a later binding of a name
/// hides an earlier one.
pub open spec fn vars_map(v: Seq<(String, RuntimeValue)>) -> Map<Seq<char>, Val>
    decreases v.len(),
{
    if v.len() == 0 {
        Map::empty()
    } else {
        vars_map(v.drop_last()).insert(v.last().0@, v.last().1@)
    }
}

impl View for Scope {
    type V = ScopeV;

    open spec fn view(&self) -> ScopeV {
        ScopeV { vars: vars_map(self.vars@), parent: self.parent }
    }
}

/// An array: its elements, indexed from `start` to `end`, and their type.
#[derive(Debug)]
pub struct ArrayObj {
    pub data: Vec<RuntimeValue>,
    pub start: usize,
    pub end: usize,
    pub ele_type: Type,
}

/// The content of an array.
pub struct ArrayV {
    pub data: Seq<Val>,
    pub start: usize,
    pub end: usize,
    pub ele_type: TypeV,
}

impl View for ArrayObj {
    type V = ArrayV;

    open spec fn view(&self) -> ArrayV {
        ArrayV {
            data: self.data@.map_values(|v: RuntimeValue| v@),
            start: self.start,
            end: self.end,
            ele_type: self.ele_type@,
        }
    }
}

/// A function: its parameters, its body, the scope it was declared in and
/// its declared result type.
#[derive(Debug)]
pub struct FuncObj {
    pub name: String,
    pub params: Vec<(String, Type)>,
    pub body: Stmt,
    pub closure: ScopeRef,
    pub return_type: Option<Type>,
}

/// The content of a function.
pub struct FuncV {
    pub name: Seq<char>,
    pub params: Seq<(Seq<char>, TypeV)>,
    pub body: StmtV,
    pub closure: ScopeRef,
    pub return_type: Option<TypeV>,
}

/// The content of an optional type.
pub open spec fn opt_type_view(t: Option<Type>) -> Option<TypeV> {
    match t {
        Some(t) => Some(t@),
        None => None,
    }
}

impl View for FuncObj {
    type V = FuncV;

    open spec fn view(&self) -> FuncV {
        FuncV {
            name: self.name@,
            params: params_view(self.params@),
            body: self.body@,
            closure: self.closure,
            return_type: opt_type_view(self.return_type),
        }
    }
}

/// A record: named fields and the name of its type.
#[derive(Debug)]
pub struct RecordObj {
    pub fields: Vec<(String, RuntimeValue)>,
    pub record_type: String,
}

/// A name that no binding after position `i` carries.
pub open spec fn last_binding(v: Seq<(String, RuntimeValue)>, i: int, k: Seq<char>) -> bool {
    &&& 0 <= i < v.len()
    &&& v[i].0@ == k
    &&& forall|j: int| i < j < v.len() ==> v[j].0@ != k
}

pub proof fn lemma_vars_map_absent(v: Seq<(String, RuntimeValue)>, k: Seq<char>)
    requires
        forall|j: int| 0 <= j < v.len() ==> v[j].0@ != k,
    ensures
        !vars_map(v).dom().contains(k),
    decreases v.len(),
{
    if v.len() > 0 {
        lemma_vars_map_absent(v.drop_last(), k);
    }
}

pub proof fn lemma_vars_map_found(v: Seq<(String, RuntimeValue)>, i: int, k: Seq<char>)
    requires
        last_binding(v, i, k),
    ensures
        vars_map(v).dom().contains(k),
        vars_map(v)[k] == v[i].1@,
    decreases v.len(),
{
    if i < v.len() - 1 {
        lemma_vars_map_found(v.drop_last(), i, k);
    }
}

pub proof fn lemma_vars_map_update(v: Seq<(String, RuntimeValue)>, i: int, p: (String, RuntimeValue))
    requires
        last_binding(v, i, p.0@),
    ensures
        vars_map(v.update(i, p)) =~= vars_map(v).insert(p.0@, p.1@),
    decreases v.len(),
{
    if i < v.len() - 1 {
        lemma_vars_map_update(v.drop_last(), i, p);
        assert(v.update(i, p).drop_last() =~= v.drop_last().update(i, p));
    } else {
        assert(v.update(i, p).drop_last() =~= v.drop_last());
    }
}

pub proof fn lemma_vars_map_push(v: Seq<(String, RuntimeValue)>, p: (String, RuntimeValue))
    ensures
        vars_map(v.push(p)) =~= vars_map(v).insert(p.0@, p.1@),
{
    assert(v.push(p).drop_last() =~= v);
}

/// The position of the binding of `name` that is in force in `vars`, if any.
pub fn find_binding(vars: &Vec<(String, RuntimeValue)>, name: &String) -> (r: Option<usize>)
    ensures
        match r {
            Some(i) => last_binding(vars@, i as int, name@),
            None => forall|j: int| 0 <= j < vars@.len() ==> vars@[j].0@ != name@,
        },
{
    let mut i: usize = vars.len();
    while i > 0
        invariant
            i <= vars@.len(),
            forall|j: int| i <= j < vars@.len() ==> vars@[j].0@ != name@,
        decreases i,
    {
        if vars[i - 1].0 == *name {
            return Some(i - 1);
        }
        i -= 1;
    }
    None
}

impl Scope {
    /// The value bound to `name` in this scope alone.
    pub fn lookup_here(&self, name: &String) -> (r: Option<RuntimeValue>)
        ensures
            r is Some <==> self@.vars.dom().contains(name@),
            r matches Some(v) ==> v@ == self@.vars[name@],
    {
        match find_binding(&self.vars, name) {
            Some(i) => {
                proof { lemma_vars_map_found(self.vars@, i as int, name@); }
                Some(self.vars[i].1.duplicate())
            },
            None => {
                proof { lemma_vars_map_absent(self.vars@, name@); }
                None
            },
        }
    }

    /// Binds `name` to `value` in this scope, replacing a binding it had.
    pub fn bind(&mut self, name: String, value: RuntimeValue)
        ensures
            final(self)@.vars == old(self)@.vars.insert(name@, value@),
            final(self)@.parent == old(self)@.parent,
    {
        let ghost k = name@;
        let ghost val = value@;
        match find_binding(&self.vars, &name) {
            Some(i) => {
                proof { lemma_vars_map_update(self.vars@, i as int, (name, value)); }
                self.vars.set(i, (name, value));
            },
            None => {
                proof { lemma_vars_map_push(self.vars@, (name, value)); }
                self.vars.push((name, value));
            },
        }
    }
}

impl ArrayObj {
    /// The element at position `index`, or the out-of-bounds error.
    pub fn get(&self, index: usize) -> (r: CpcResult<RuntimeValue>)
        requires
            in_range(self@, index) ==> index - self.start < self.data@.len(),
        ensures
            match array_get(self@, index) {
                EvalR::Value(v) => r matches Ok(x) && x@ == v,
                EvalR::Error(e) => r matches Err(x) && x@ == e,
                EvalR::Halted(_) => false,
            },
    {
        if index < self.start || index > self.end {
            Err(CpcError::Runtime {
                span: None,
                kind: RuntimeErrorKind::IndexOutOfBounds { index: index as i64, range: (self.start, self.end) },
            })
        } else {
            Ok(self.data[index - self.start].duplicate())
        }
    }

    /// Replaces the element at position `index` by `value`, or gives the
    /// out-of-bounds error and leaves the array as it was.
    pub fn set(&mut self, index: usize, value: RuntimeValue) -> (r: CpcResult<()>)
        requires
            in_range(old(self)@, index) ==> index - old(self).start < old(self).data@.len(),
        ensures
            in_range(old(self)@, index) ==> r is Ok && final(self)@ == (ArrayV {
                data: old(self)@.data.update(index - old(self).start, value@),
                ..old(self)@
            }),
            !in_range(old(self)@, index) ==> (r matches Err(e) && e@ == out_of_bounds(old(self)@, index))
                && final(self)@ == old(self)@,
    {
        if index < self.start || index > self.end {
            Err(CpcError::Runtime {
                span: None,
                kind: RuntimeErrorKind::IndexOutOfBounds { index: index as i64, range: (self.start, self.end) },
            })
        } else {
            let ghost before = self@;
            let ghost vv = value@;
            self.data.set(index - self.start, value);
            assert(self@.data =~= before.data.update(index - before.start, vv));
            Ok(())
        }
    }

    /// The first index of the array.
    pub fn start(&self) -> (r: usize)
        ensures
            r == self.start,
    {
        self.start
    }

    /// The last index of the array.
    pub fn end(&self) -> (r: usize)
        ensures
            r == self.end,
    {
        self.end
    }

    /// The number of elements the array holds.
    pub fn len(&self) -> (r: usize)
        ensures
            r == self@.data.len(),
    {
        self.data.len()
    }
}

impl FuncObj {
    /// A function with the given parts.
    pub fn new(name: String, params: Vec<(String, Type)>, body: Stmt, closure: ScopeRef, return_type: Option<Type>) -> (f: Self)
        ensures
            f@ == (FuncV {
                name: name@,
                params: params_view(params@),
                body: body@,
                closure,
                return_type: opt_type_view(return_type),
            }),
    {
        FuncObj { name, params, body, closure, return_type }
    }

    /// The function's name.
    pub fn name(&self) -> (r: &str)
        ensures
            r@ == self@.name,
    {
        self.name.as_str()
    }

    /// The function's parameters, each a name and a type.
    pub fn params(&self) -> (r: &Vec<(String, Type)>)
        ensures
            params_view(r@) == self@.params,
    {
        &self.params
    }

    /// The function's body.
    pub fn body(&self) -> (r: &Stmt)
        ensures
            r@ == self@.body,
    {
        &self.body
    }

    /// The scope the function was declared in.
    pub fn closure(&self) -> (r: ScopeRef)
        ensures
            r == self@.closure,
    {
        self.closure
    }

    /// The declared result type, if any.
    pub fn return_type(&self) -> (r: Option<&Type>)
        ensures
            match r {
                Some(t) => self@.return_type == Some(t@),
                None => self@.return_type is None,
            },
    {
        match &self.return_type {
            Some(t) => Some(t),
            None => None,
        }
    }
}

impl Scope {
    /// A scope with no variables, nested in no other.
    pub fn root() -> (s: Scope)
        ensures
            s@.vars == Map::<Seq<char>, Val>::empty(),
            s@.parent is None,
    {
        let s = Scope { vars: Vec::new(), parent: None };
        assert(s@.vars =~= Map::<Seq<char>, Val>::empty());
        s
    }

    /// A scope with no variables, nested in `parent`.
    pub fn child(parent: ScopeRef) -> (s: Scope)
        ensures
            s@.vars == Map::<Seq<char>, Val>::empty(),
            s@.parent == Some(parent),
    {
        let s = Scope { vars: Vec::new(), parent: Some(parent) };
        assert(s@.vars =~= Map::<Seq<char>, Val>::empty());
        s
    }
}

} // verus!
