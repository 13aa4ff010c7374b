//! The interpreter: its store of scopes, arrays and functions, and the
//! executable evaluator, proved to follow the meaning given in `semantics`.
use vstd::prelude::*;
use crate::store::{ArrayObj, ArrayV, FuncObj, FuncV, Scope, ScopeRef, ScopeV, opt_type_view};
use vstd::string::StringExecFns;
use crate::runtime::{RuntimeValue, Type, TypeV, Val, types_view, lemma_types_view};
use crate::error::{CpcError, ErrV, RuntimeErrorKind};
use crate::ast::{Span, Stmt, params_view, duplicate_params};
use crate::text::{int_text, int_to_string};
use crate::semantics::{
    IState, PieceV, FlowV, Halt, EvalR, ExecR, UnitR, enter, index_result, store_result, emit, render_depth, state_wf, lookup, find_scope, bind_in, define_var, assign_var, assign_at,
    push_scope, initial_state, type_of, array_size, default_value, default_fill, render, render_items,
    lemma_render_items_err, lemma_find_scope_valid,
};

verus! {

/// A piece of printed output: text, or a real number that is still to be
/// written in decimal.
#[derive(Debug)]
pub enum OutPiece {
    Text(String),
    Real(u64),
}

impl View for OutPiece {
    type V = PieceV;

    open spec fn view(&self) -> PieceV {
        match self {
            OutPiece::Text(s) => PieceV::Text(s@),
            OutPiece::Real(b) => PieceV::Real(*b),
        }
    }
}

/// The interpreter: a store of scopes, arrays and functions, the scope that
/// statements run in, and what the program has printed.
pub struct Interpreter {
    scopes: Vec<Scope>,
    arrays: Vec<ArrayObj>,
    funcs: Vec<FuncObj>,
    current_scope: ScopeRef,
    output: Vec<OutPiece>,
    pub debug: bool,
    pub show_time: bool,
}

impl View for Interpreter {
    type V = IState;

    closed spec fn view(&self) -> IState {
        IState {
            scopes: self.scopes@.map_values(|s: Scope| s@),
            arrays: self.arrays@.map_values(|a: ArrayObj| a@),
            funcs: self.funcs@.map_values(|f: FuncObj| f@),
            current: self.current_scope as nat,
            out: self.output@.map_values(|p: OutPiece| p@),
        }
    }
}

impl Interpreter {
    /// The interpreter's state is well formed.
    pub open spec fn wf(&self) -> bool {
        state_wf(self@)
    }

    /// The switches for debugging output and timing.
    pub closed spec fn flags(&self) -> (bool, bool) {
        (self.debug, self.show_time)
    }

    /// The value of `name` as the current scope sees it.
    pub(crate) fn lookup_var(&self, name: &String) -> (r: Option<RuntimeValue>)
        requires
            self.wf(),
        ensures
            r is Some <==> lookup(self@.scopes, self@.current as int, name@) is Some,
            r matches Some(v) ==> lookup(self@.scopes, self@.current as int, name@) == Some(v@),
    {
        self.lookup_from(self.current_scope, name)
    }

    /// The value of `name` as scope `start` sees it.
    pub(crate) fn lookup_from(&self, start: ScopeRef, name: &String) -> (r: Option<RuntimeValue>)
        requires
            self.wf(),
            start < self@.scopes.len(),
        ensures
            r is Some <==> lookup(self@.scopes, start as int, name@) is Some,
            r matches Some(v) ==> lookup(self@.scopes, start as int, name@) == Some(v@),
    {
        let mut id = start;
        loop
            invariant
                self.wf(),
                id < self.scopes@.len(),
                lookup(self@.scopes, id as int, name@) == lookup(self@.scopes, start as int, name@),
            decreases id,
        {
            let ghost sv = self@.scopes[id as int];
            assert(sv == self.scopes@[id as int]@);
            match self.scopes[id].lookup_here(name) {
                Some(v) => {
                    return Some(v);
                },
                None => {
                    assert(self@.scopes[id as int].parent == self.scopes@[id as int].parent);
                    match self.scopes[id].parent {
                        Some(p) => {
                            id = p;
                        },
                        None => {
                            return None;
                        },
                    }
                },
            }
        }
    }

    /// The scope that holds `name`, as scope `start` sees it.
    fn find_from(&self, start: ScopeRef, name: &String) -> (r: Option<ScopeRef>)
        requires
            self.wf(),
            start < self@.scopes.len(),
        ensures
            match r {
                Some(id) => find_scope(self@.scopes, start as int, name@) == Some(id as int),
                None => find_scope(self@.scopes, start as int, name@) is None,
            },
    {
        let mut id = start;
        loop
            invariant
                self.wf(),
                id < self.scopes@.len(),
                find_scope(self@.scopes, id as int, name@) == find_scope(self@.scopes, start as int, name@),
            decreases id,
        {
            let ghost sv = self@.scopes[id as int];
            assert(sv == self.scopes@[id as int]@);
            match self.scopes[id].lookup_here(name) {
                Some(_) => {
                    return Some(id);
                },
                None => {
                    assert(self@.scopes[id as int].parent == self.scopes@[id as int].parent);
                    match self.scopes[id].parent {
                        Some(p) => {
                            id = p;
                        },
                        None => {
                            return None;
                        },
                    }
                },
            }
        }
    }

    /// Binds `name` to `v` in scope `id`.
    pub(crate) fn bind_at(&mut self, id: ScopeRef, name: String, v: RuntimeValue)
        requires
            old(self).wf(),
            id < old(self)@.scopes.len(),
        ensures
            final(self).wf(),
            final(self)@ == bind_in(old(self)@, id as int, name@, v@),
            final(self)@.scopes.len() == old(self)@.scopes.len(),
            final(self).flags() == old(self).flags(),
    {
        let ghost s0 = self@;
        let ghost k = name@;
        let ghost val = v@;
        let mut sc = Scope { vars: Vec::new(), parent: None };
        std::mem::swap(&mut sc, &mut self.scopes[id]);
        sc.bind(name, v);
        self.scopes.set(id, sc);
        assert(self@.scopes =~= s0.scopes.update(id as int, ScopeV { vars: s0.scopes[id as int].vars.insert(k, val), parent: s0.scopes[id as int].parent }));
        assert(self@ == bind_in(s0, id as int, k, val));
    }

    /// Declares `name` with value `v` in the current scope.
    pub(crate) fn define_here(&mut self, name: String, v: RuntimeValue)
        requires
            old(self).wf(),
        ensures
            final(self).wf(),
            final(self)@ == define_var(old(self)@, name@, v@),
            final(self)@.scopes.len() == old(self)@.scopes.len(),
            final(self).flags() == old(self).flags(),
    {
        let id = self.current_scope;
        self.bind_at(id, name, v);
    }

    /// Gives `name` the value `v` where it is bound; false when it is bound nowhere.
    pub(crate) fn assign_here(&mut self, name: &String, v: RuntimeValue) -> (found: bool)
        requires
            old(self).wf(),
        ensures
            final(self).wf(),
            (final(self)@, found) == assign_var(old(self)@, name@, v@),
            final(self)@.scopes.len() == old(self)@.scopes.len(),
            final(self).flags() == old(self).flags(),
    {
        let start = self.current_scope;
        self.assign_from(start, name, v)
    }

    /// Gives `name` the value `v` in the scope that holds it as scope `start`
    /// sees it; false when no scope holds it.
    pub(crate) fn assign_from(&mut self, start: ScopeRef, name: &String, v: RuntimeValue) -> (found: bool)
        requires
            old(self).wf(),
            start < old(self)@.scopes.len(),
        ensures
            final(self).wf(),
            (final(self)@, found) == assign_at(old(self)@, start as int, name@, v@),
            final(self)@.scopes.len() == old(self)@.scopes.len(),
            final(self).flags() == old(self).flags(),
    {
        match self.find_from(start, name) {
            Some(id) => {
                proof { lemma_find_scope_valid(self@.scopes, start as int, name@); }
                self.bind_at(id, name.clone(), v);
                true
            },
            None => false,
        }
    }

    /// Adds an empty scope nested in `parent` and gives its index.
    pub(crate) fn push_child(&mut self, parent: ScopeRef) -> (id: ScopeRef)
        requires
            old(self).wf(),
            parent < old(self)@.scopes.len(),
        ensures
            final(self).wf(),
            final(self)@ == push_scope(old(self)@, parent),
            id == old(self)@.scopes.len(),
            final(self).flags() == old(self).flags(),
    {
        let ghost s0 = self@;
        let id = self.scopes.len();
        let sc = Scope::child(parent);
        self.scopes.push(sc);
        assert(self@.scopes =~= s0.scopes.push(ScopeV { vars: Map::empty(), parent: Some(parent) }));
        id
    }
}

/// The content of a list of output pieces.
pub open spec fn pieces_view(v: Seq<OutPiece>) -> Seq<PieceV> {
    v.map_values(|p: OutPiece| p@)
}

/// The content of a result that holds a value or an error.
pub open spec fn value_result(r: Result<RuntimeValue, CpcError>) -> Result<Val, ErrV> {
    match r {
        Ok(v) => Ok(v@),
        Err(e) => Err(e@),
    }
}

/// The content of a result that holds a type or a halt.
pub open spec fn type_result(r: Result<Type, Halt>) -> Result<TypeV, Halt> {
    match r {
        Ok(t) => Ok(t@),
        Err(h) => Err(h),
    }
}

/// The content of a result that holds output pieces or a halt.
pub open spec fn pieces_result(r: Result<Vec<OutPiece>, Halt>) -> Result<Seq<PieceV>, Halt> {
    match r {
        Ok(v) => Ok(pieces_view(v@)),
        Err(h) => Err(h),
    }
}

/// The types of a list of parameters.
fn param_types(params: &Vec<(String, Type)>) -> (r: Vec<Type>)
    ensures
        types_view(r@) == params_view(params@).map_values(|p: (Seq<char>, TypeV)| p.1),
{
    let mut ps: Vec<Type> = Vec::new();
    let mut i: usize = 0;
    while i < params.len()
        invariant
            i <= params@.len(),
            ps@.len() == i,
            forall|j: int| 0 <= j < i ==> (#[trigger] ps@[j])@ == params@[j].1@,
        decreases params.len() - i,
    {
        ps.push(params[i].1.duplicate());
        i += 1;
    }
    proof {
        lemma_types_view(ps@);
        let want = params_view(params@).map_values(|p: (Seq<char>, TypeV)| p.1);
        assert forall|j: int| 0 <= j < ps@.len() implies types_view(ps@)[j] == want[j] by {
            assert(types_view(ps@)[j] == ps@[j]@);
            assert(params_view(params@)[j] == (params@[j].0@, params@[j].1@));
        }
        assert(types_view(ps@) =~= want);
    }
    ps
}

pub(crate) fn copy_piece(p: &OutPiece) -> (r: OutPiece)
    ensures
        r@ == p@,
{
    match p {
        OutPiece::Text(t) => OutPiece::Text(t.clone()),
        OutPiece::Real(b) => OutPiece::Real(*b),
    }
}

pub(crate) fn text_piece(s: &str) -> (p: OutPiece)
    ensures
        p@ == PieceV::Text(s@),
{
    OutPiece::Text(String::from_str(s))
}

impl Interpreter {
    /// The type of a value.
    pub(crate) fn value_type(&self, v: &RuntimeValue) -> (r: Result<Type, Halt>)
        ensures
            type_result(r) == type_of(self@, v@),
    {
        match v {
            RuntimeValue::Int(_) => Ok(Type::Int),
            RuntimeValue::Float(_) => Ok(Type::Float),
            RuntimeValue::Str(_) => Ok(Type::Str),
            RuntimeValue::Bool(_) => Ok(Type::Bool),
            RuntimeValue::Null => Ok(Type::Null),
            RuntimeValue::Array(a) => {
                if *a < self.arrays.len() {
                    let arr = &self.arrays[*a];
                    let r = Ok(Type::Array(Box::new(arr.ele_type.duplicate()), arr.start, arr.end));
                    assert(self@.arrays[*a as int] == arr@);
                    assert(type_result(r) == type_of(self@, v@));
                    r
                } else {
                    Err(Halt::Dangling)
                }
            },
            RuntimeValue::Func(f) => {
                if *f < self.funcs.len() {
                    let fo = &self.funcs[*f];
                    let ps = param_types(&fo.params);
                    let rt = match &fo.return_type {
                        Some(t) => t.duplicate(),
                        None => Type::Null,
                    };
                    assert(self@.funcs[*f as int] == fo@);
                    let r = Ok(Type::Func(ps, Box::new(rt)));
                    assert(rt@ == match self@.funcs[*f as int].return_type { Some(t) => t, None => TypeV::Null });
                    assert(type_result(r) == type_of(self@, v@));
                    r
                } else {
                    Err(Halt::Dangling)
                }
            },
            RuntimeValue::Record(_) => Err(Halt::Dangling),
        }
    }

    /// The starting value of a variable of type `t`: zero, the empty string,
    /// `FALSE` or `NULL`; for an array type a new array in the store, its
    /// elements first; for other types the error that they have none.
    #[verifier::loop_isolation(false)]
    pub fn default_type_value(&mut self, t: &Type) -> (r: Result<RuntimeValue, CpcError>)
        requires
            old(self).wf(),
        ensures
            final(self).wf(),
            (final(self)@, value_result(r)) == default_value(old(self)@, t@),
            final(self)@.scopes == old(self)@.scopes,
            final(self)@.current == old(self)@.current,
            final(self).flags() == old(self).flags(),
        decreases t,
    {
        match t {
            Type::Int => Ok(RuntimeValue::Int(0)),
            Type::Float => Ok(RuntimeValue::Float(0)),
            Type::Str => Ok(RuntimeValue::Str(String::new())),
            Type::Bool => Ok(RuntimeValue::Bool(false)),
            Type::Null => Ok(RuntimeValue::Null),
            Type::Array(et, start, end) => {
                let start = *start;
                let end = *end;
                let n: usize = if end <= start {
                    1
                } else if end - start == usize::MAX {
                    usize::MAX
                } else {
                    end - start + 1
                };
                let ghost s0 = self@;
                let ghost etv = (**et)@;
                let mut data: Vec<RuntimeValue> = Vec::new();
                let mut k: usize = 0;
                assert(data@.map_values(|v: RuntimeValue| v@) =~= Seq::<Val>::empty());
                while k < n
                    invariant
                        self.wf(),
                        k <= n,
                        n == array_size(start, end),
                        etv == (**et)@,
                        default_fill(self@, etv, n - k, data@.map_values(|v: RuntimeValue| v@))
                            == default_fill(s0, etv, n as int, Seq::empty()),
                        self@.scopes == s0.scopes,
                        self@.current == s0.current,
                        self.debug == old(self).debug,
                        self.show_time == old(self).show_time,
                    decreases n - k,
                {
                    let ghost before = data@.map_values(|v: RuntimeValue| v@);
                    match self.default_type_value(et) {
                        Ok(v) => {
                            data.push(v);
                            assert(data@.map_values(|v: RuntimeValue| v@) =~= before.push(v@));
                        },
                        Err(e) => {
                            return Err(e);
                        },
                    }
                    k += 1;
                }
                let idx = self.arrays.len();
                let ghost s1 = self@;
                let ghost dv = data@.map_values(|v: RuntimeValue| v@);
                self.arrays.push(ArrayObj { data, start, end, ele_type: (**et).duplicate() });
                assert(self@.arrays =~= s1.arrays.push(ArrayV { data: dv, start, end, ele_type: etv }));
                Ok(RuntimeValue::Array(idx))
            },
            _ => Err(CpcError::Runtime { span: None, kind: RuntimeErrorKind::TypeWithoutDefaultValue(t.duplicate()) }),
        }
    }

    /// The printed form of a value, in pieces.
    pub(crate) fn render_value(&self, v: &RuntimeValue, depth: usize) -> (r: Result<Vec<OutPiece>, Halt>)
        ensures
            pieces_result(r) == render(self@, v@, depth as nat),
        decreases depth,
    {
        match v {
            RuntimeValue::Int(i) => {
                let mut r = Vec::new();
                r.push(OutPiece::Text(int_to_string(*i)));
                assert(pieces_view(r@) =~= seq![PieceV::Text(int_text(*i as int))]);
                Ok(r)
            },
            RuntimeValue::Float(b) => {
                let mut r = Vec::new();
                r.push(OutPiece::Real(*b));
                assert(pieces_view(r@) =~= seq![PieceV::Real(*b)]);
                Ok(r)
            },
            RuntimeValue::Str(x) => {
                let mut r = Vec::new();
                r.push(OutPiece::Text(x.clone()));
                assert(pieces_view(r@) =~= seq![PieceV::Text(x@)]);
                Ok(r)
            },
            RuntimeValue::Bool(b) => {
                let mut r = Vec::new();
                let p = if *b { text_piece("TRUE") } else { text_piece("FALSE") };
                r.push(p);
                assert(pieces_view(r@) =~= seq![PieceV::Text(if *b { "TRUE"@ } else { "FALSE"@ })]);
                Ok(r)
            },
            RuntimeValue::Null => {
                let mut r = Vec::new();
                r.push(text_piece("NULL"));
                assert(pieces_view(r@) =~= seq![PieceV::Text("NULL"@)]);
                Ok(r)
            },
            RuntimeValue::Func(f) => {
                if *f < self.funcs.len() {
                    let t = String::from_str("<function ").concat(self.funcs[*f].name.as_str()).concat(">");
                    let mut r = Vec::new();
                    r.push(OutPiece::Text(t));
                    assert(pieces_view(r@) =~= seq![PieceV::Text("<function "@ + self@.funcs[*f as int].name + ">"@)]);
                    Ok(r)
                } else {
                    Err(Halt::Dangling)
                }
            },
            RuntimeValue::Record(_) => Err(Halt::Panic),
            RuntimeValue::Array(a) => {
                if *a >= self.arrays.len() {
                    Err(Halt::Dangling)
                } else if depth == 0 {
                    Err(Halt::Panic)
                } else {
                    let arr = &self.arrays[*a];
                    let ghost data = self@.arrays[*a as int].data;
                    assert(data == arr.data@.map_values(|v: RuntimeValue| v@));
                    let mut acc: Vec<OutPiece> = Vec::new();
                    let mut i: usize = 0;
                    assert(pieces_view(acc@) =~= Seq::<PieceV>::empty());
                    while i < arr.data.len()
                        invariant
                            i <= arr.data@.len(),
                            data == arr.data@.map_values(|v: RuntimeValue| v@),
                            0 < depth,
                            v@ == Val::Array(*a),
                            (*a as int) < self@.arrays.len(),
                            data == self@.arrays[*a as int].data,
                            render_items(self@, data, i as int, (depth - 1) as nat) == Ok::<Seq<PieceV>, Halt>(pieces_view(acc@)),
                        decreases arr.data.len() - i,
                    {
                        let ghost prev = pieces_view(acc@);
                        match self.render_value(&arr.data[i], depth - 1) {
                            Ok(piece) => {
                                if i > 0 {
                                    acc.push(text_piece(", "));
                                }
                                let ghost mid = pieces_view(acc@);
                                let mut j: usize = 0;
                                while j < piece.len()
                                    invariant
                                        j <= piece@.len(),
                                        pieces_view(acc@) == mid + pieces_view(piece@).take(j as int),
                                    decreases piece.len() - j,
                                {
                                    let ghost a0 = pieces_view(acc@);
                                    acc.push(copy_piece(&piece[j]));
                                    j += 1;
                                    assert(pieces_view(acc@) =~= a0.push(piece@[j - 1]@));
                                    assert(pieces_view(piece@).take(j as int) =~= pieces_view(piece@).take(j - 1).push(piece@[j - 1]@));
                                    assert(pieces_view(acc@) =~= mid + pieces_view(piece@).take(j as int));
                                }
                                assert(pieces_view(piece@).take(piece@.len() as int) =~= pieces_view(piece@));
                                if i > 0 {
                                    assert(mid =~= prev + seq![PieceV::Text(", "@)]);
                                } else {
                                    assert(prev =~= Seq::<PieceV>::empty());
                                    assert(mid =~= Seq::<PieceV>::empty());
                                    assert(pieces_view(acc@) =~= pieces_view(piece@));
                                }
                            },
                            Err(h) => {
                                proof {
                                    assert(arr.data@[i as int]@ == data[i as int]);
                                    assert(render_items(self@, data, i + 1, (depth - 1) as nat) == Err::<Seq<PieceV>, Halt>(h));
                                    lemma_render_items_err(self@, data, i + 1, data.len() as int, (depth - 1) as nat);
                                }
                                return Err(h);
                            },
                        }
                        i += 1;
                    }
                    let mut r: Vec<OutPiece> = Vec::new();
                    r.push(text_piece("["));
                    let ghost items = pieces_view(acc@);
                    r.append(&mut acc);
                    r.push(text_piece("]"));
                    assert(pieces_view(r@) =~= seq![PieceV::Text("["@)] + items + seq![PieceV::Text("]"@)]);
                    Ok(r)
                }
            },
        }
    }
}

/// How the flow of control leaves a statement.
#[derive(Debug)]
pub enum Flow {
    Return(RuntimeValue),
    Break,
    Continue,
    Normal,
}

impl View for Flow {
    type V = FlowV;

    open spec fn view(&self) -> FlowV {
        match self {
            Flow::Return(v) => FlowV::Return(v@),
            Flow::Break => FlowV::Break,
            Flow::Continue => FlowV::Continue,
            Flow::Normal => FlowV::Normal,
        }
    }
}


/// What evaluating an expression gives: a value, an error, or a halt.
#[derive(Debug)]
pub enum EvalOut {
    Value(RuntimeValue),
    Error(CpcError),
    Halted(Halt),
}

impl View for EvalOut {
    type V = EvalR;

    open spec fn view(&self) -> EvalR {
        match self {
            EvalOut::Value(v) => EvalR::Value(v@),
            EvalOut::Error(e) => EvalR::Error(e@),
            EvalOut::Halted(h) => EvalR::Halted(*h),
        }
    }
}

/// What running a statement gives: a flow, or a halt.
#[derive(Debug)]
pub enum ExecOut {
    Flow(Flow),
    Halted(Halt),
}

impl View for ExecOut {
    type V = ExecR;

    open spec fn view(&self) -> ExecR {
        match self {
            ExecOut::Flow(f) => ExecR::Flow(f@),
            ExecOut::Halted(h) => ExecR::Halted(*h),
        }
    }
}

/// What an operation that yields nothing gives: success, an error, or a halt.
#[derive(Debug)]
pub enum UnitOut {
    Done,
    Error(CpcError),
    Halted(Halt),
}

impl View for UnitOut {
    type V = UnitR;

    open spec fn view(&self) -> UnitR {
        match self {
            UnitOut::Done => UnitR::Done,
            UnitOut::Error(e) => UnitR::Error(e@),
            UnitOut::Halted(h) => UnitR::Halted(*h),
        }
    }
}

impl Interpreter {
    /// The scope that statements run in.
    pub fn current(&self) -> (r: ScopeRef)
        ensures
            r == self@.current,
    {
        self.current_scope
    }

    /// Makes `id` the scope that statements run in.
    pub(crate) fn set_current(&mut self, id: ScopeRef)
        requires
            old(self).wf(),
            id < old(self)@.scopes.len(),
        ensures
            final(self).wf(),
            final(self)@ == enter(old(self)@, id as nat),
            final(self).flags() == old(self).flags(),
    {
        self.current_scope = id;
    }

    /// The number of functions in the store.
    pub(crate) fn func_count(&self) -> (n: usize)
        ensures
            n == self@.funcs.len(),
    {
        self.funcs.len()
    }

    /// Copies of the parameters and the body of function `f`, and the scope it
    /// was declared in.
    pub(crate) fn func_parts(&self, f: usize) -> (r: (Vec<(String, Type)>, Stmt, ScopeRef))
        requires
            f < self@.funcs.len(),
        ensures
            params_view(r.0@) == self@.funcs[f as int].params,
            r.1@ == self@.funcs[f as int].body,
            r.2 == self@.funcs[f as int].closure,
    {
        let fo = &self.funcs[f];
        assert(self@.funcs[f as int] == fo@);
        (duplicate_params(&fo.params), fo.body.duplicate(), fo.closure)
    }

    /// A new function in the store, declared in scope `closure`: the value
    /// that refers to it.
    pub fn new_function(
        &mut self,
        name: String,
        params: Vec<(String, Type)>,
        body: Stmt,
        closure: ScopeRef,
        return_type: Option<Type>,
    ) -> (f: RuntimeValue)
        requires
            old(self).wf(),
            closure < old(self)@.scopes.len(),
        ensures
            final(self).wf(),
            f == RuntimeValue::Func(old(self)@.funcs.len() as usize),
            final(self)@ == (IState {
                funcs: old(self)@.funcs.push(FuncV {
                    name: name@,
                    params: params_view(params@),
                    body: body@,
                    closure,
                    return_type: opt_type_view(return_type),
                }),
                ..old(self)@
            }),
            final(self).flags() == old(self).flags(),
    {
        let ghost s0 = self@;
        let ghost fv = FuncV {
            name: name@,
            params: params_view(params@),
            body: body@,
            closure,
            return_type: opt_type_view(return_type),
        };
        let f = self.funcs.len();
        let fo = FuncObj::new(name, params, body, closure, return_type);
        assert(fo@ == fv);
        self.funcs.push(fo);
        assert(self@.funcs =~= s0.funcs.push(fv));
        RuntimeValue::Func(f)
    }

    /// The value of `c[i]`.
    pub(crate) fn index_value(&self, c: &RuntimeValue, i: &RuntimeValue, span: Option<Span>) -> (r: EvalOut)
        ensures
            r@ == index_result(self@, c@, i@, span),
    {
        match (c, i) {
            (RuntimeValue::Array(a), RuntimeValue::Int(k)) => {
                if *a >= self.arrays.len() {
                    EvalOut::Halted(Halt::Dangling)
                } else {
                    let arr = &self.arrays[*a];
                    assert(self@.arrays[*a as int] == arr@);
                    let p = *k as usize;
                    if arr.start <= p && p <= arr.end && p - arr.start >= arr.data.len() {
                        EvalOut::Halted(Halt::Panic)
                    } else {
                        match arr.get(p) {
                            Ok(v) => EvalOut::Value(v),
                            Err(e) => EvalOut::Error(e),
                        }
                    }
                }
            },
            _ => {
                let msg = String::from_str("Invalid index operation");
                EvalOut::Error(CpcError::Runtime { span, kind: RuntimeErrorKind::Other(msg) })
            },
        }
    }

    /// Stores `v` in the target value `t` at the index value `i`.
    pub(crate) fn store_element(&mut self, t: &RuntimeValue, i: &RuntimeValue, v: RuntimeValue) -> (r: UnitOut)
        requires
            old(self).wf(),
        ensures
            final(self).wf(),
            (final(self)@, r@) == store_result(old(self)@, t@, i@, v@),
            final(self).flags() == old(self).flags(),
    {
        match i {
            RuntimeValue::Int(k) => match t {
                RuntimeValue::Array(a) => {
                    let a = *a;
                    if a >= self.arrays.len() {
                        UnitOut::Halted(Halt::Dangling)
                    } else {
                        let ghost s0 = self@;
                        let p = *k as usize;
                        assert(s0.arrays[a as int] == self.arrays@[a as int]@);
                        let start = self.arrays[a].start;
                        if start <= p && p <= self.arrays[a].end && p - start >= self.arrays[a].data.len() {
                            UnitOut::Halted(Halt::Panic)
                        } else {
                            let mut arr = ArrayObj { data: Vec::new(), start: 0, end: 0, ele_type: Type::Null };
                            std::mem::swap(&mut arr, &mut self.arrays[a]);
                            let ghost before = arr@;
                            let r = arr.set(p, v);
                            let ghost after = arr@;
                            self.arrays.set(a, arr);
                            match r {
                                Ok(()) => {
                                    assert(self@.arrays =~= s0.arrays.update(a as int, after));
                                    UnitOut::Done
                                },
                                Err(e) => {
                                    assert(self@.arrays =~= s0.arrays);
                                    UnitOut::Error(e)
                                },
                            }
                        }
                    }
                },
                _ => match self.value_type(t) {
                    Ok(ty) => UnitOut::Error(CpcError::Runtime { span: None, kind: RuntimeErrorKind::NotIndexable(ty) }),
                    Err(h) => UnitOut::Halted(h),
                },
            },
            _ => UnitOut::Error(CpcError::Runtime { span: None, kind: RuntimeErrorKind::InvalidIndex(i.duplicate()) }),
        }
    }

    /// Adds `p` to the printed output.
    pub(crate) fn emit_pieces(&mut self, p: Vec<OutPiece>)
        requires
            old(self).wf(),
        ensures
            final(self).wf(),
            final(self)@ == emit(old(self)@, pieces_view(p@)),
            final(self).flags() == old(self).flags(),
    {
        let ghost s0 = self@;
        let ghost pv = pieces_view(p@);
        let mut p = p;
        self.output.append(&mut p);
        assert(self@.out =~= s0.out + pv);
    }

    /// How deep arrays may nest in a printed value.
    pub(crate) fn depth_bound(&self) -> (d: usize)
        ensures
            d == render_depth(self@),
    {
        if self.arrays.len() < usize::MAX {
            self.arrays.len() + 1
        } else {
            self.arrays.len()
        }
    }
}

impl Interpreter {
    /// A new interpreter with one empty scope and nothing printed.
    pub fn new() -> (r: Self)
        ensures
            r.wf(),
            r@ == initial_state(),
            r.flags() == (false, false),
    {
        let mut scopes: Vec<Scope> = Vec::new();
        scopes.push(Scope::root());
        let r = Interpreter {
            scopes,
            arrays: Vec::new(),
            funcs: Vec::new(),
            current_scope: 0,
            output: Vec::new(),
            debug: false,
            show_time: false,
        };
        assert(r@.scopes =~= initial_state().scopes);
        assert(r@.arrays =~= initial_state().arrays);
        assert(r@.funcs =~= initial_state().funcs);
        assert(r@.out =~= initial_state().out);
        r
    }

    /// A new interpreter, as `new`, with debugging output switched on.
    pub fn debug() -> (r: Self)
        ensures
            r.wf(),
            r@ == initial_state(),
            r.flags() == (true, false),
    {
        let mut r = Self::new();
        r.debug = true;
        r
    }

    /// What the program has printed so far.
    pub fn output(&self) -> (r: &Vec<OutPiece>)
        ensures
            pieces_view(r@) == self@.out,
    {
        &self.output
    }

    /// Hands out what the program has printed so far and clears it.
    pub fn take_output(&mut self) -> (r: Vec<OutPiece>)
        requires
            old(self).wf(),
        ensures
            final(self).wf(),
            pieces_view(r@) == old(self)@.out,
            final(self)@ == (IState { out: Seq::empty(), ..old(self)@ }),
            final(self).flags() == old(self).flags(),
    {
        let mut r: Vec<OutPiece> = Vec::new();
        std::mem::swap(&mut r, &mut self.output);
        assert(self@.out =~= Seq::<PieceV>::empty());
        r
    }

    /// The array at index `a` of the store, if there is one.
    pub fn array(&self, a: usize) -> (r: Option<&ArrayObj>)
        ensures
            match r {
                Some(arr) => a < self@.arrays.len() && arr@ == self@.arrays[a as int],
                None => a >= self@.arrays.len(),
            },
    {
        if a < self.arrays.len() {
            Some(&self.arrays[a])
        } else {
            None
        }
    }

    /// The function at index `f` of the store, if there is one.
    pub fn function(&self, f: usize) -> (r: Option<&FuncObj>)
        ensures
            match r {
                Some(fo) => f < self@.funcs.len() && fo@ == self@.funcs[f as int],
                None => f >= self@.funcs.len(),
            },
    {
        if f < self.funcs.len() {
            Some(&self.funcs[f])
        } else {
            None
        }
    }

    /// Adds a new empty scope nested in `parent` and gives its index.
    pub fn child_scope(&mut self, parent: ScopeRef) -> (id: ScopeRef)
        requires
            old(self).wf(),
            parent < old(self)@.scopes.len(),
        ensures
            final(self).wf(),
            final(self)@ == push_scope(old(self)@, parent),
            id == old(self)@.scopes.len(),
            final(self).flags() == old(self).flags(),
    {
        self.push_child(parent)
    }

    /// Binds `name` to `value` in scope `scope`, replacing a binding it had there.
    pub fn define_in(&mut self, scope: ScopeRef, name: String, value: RuntimeValue)
        requires
            old(self).wf(),
            scope < old(self)@.scopes.len(),
        ensures
            final(self).wf(),
            final(self)@ == bind_in(old(self)@, scope as int, name@, value@),
            final(self).flags() == old(self).flags(),
    {
        self.bind_at(scope, name, value);
    }

    /// The value of `name` as scope `scope` sees it: bound there, or in the
    /// scopes it is nested in.
    pub fn get_in(&self, scope: ScopeRef, name: &String) -> (r: Option<RuntimeValue>)
        requires
            self.wf(),
            scope < self@.scopes.len(),
        ensures
            match r {
                Some(v) => lookup(self@.scopes, scope as int, name@) == Some(v@),
                None => lookup(self@.scopes, scope as int, name@) is None,
            },
    {
        self.lookup_from(scope, name)
    }

    /// Gives `name` the value `value` in the nearest scope, from `scope`
    /// outwards, that binds it; false, and nothing changed, when none does.
    pub fn set_in(&mut self, scope: ScopeRef, name: &String, value: RuntimeValue) -> (found: bool)
        requires
            old(self).wf(),
            scope < old(self)@.scopes.len(),
        ensures
            final(self).wf(),
            (final(self)@, found) == assign_at(old(self)@, scope as int, name@, value@),
            final(self).flags() == old(self).flags(),
    {
        self.assign_from(scope, name, value)
    }

    /// The printed form of a value, in pieces: arrays as `[a, b, c]`, and a
    /// halt where a record, or an array that holds itself, is met.
    pub fn value_pieces(&self, v: &RuntimeValue) -> (r: Result<Vec<OutPiece>, Halt>)
        ensures
            pieces_result(r) == render(self@, v@, render_depth(self@)),
    {
        let d = self.depth_bound();
        self.render_value(v, d)
    }
}


} // verus!
