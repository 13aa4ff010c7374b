//! The meaning of programs: the interpreter's state as a mathematical value,
//! and what each expression and statement does to it.
use vstd::prelude::*;
use crate::store::{ArrayV, FuncV, ScopeRef, ScopeV};
use crate::runtime::{TypeV, Val};
use crate::error::{ErrV, KindV};
use crate::ast::{ExprV, Op, Span, StmtV};
use crate::ops::{OpResult, spec_binary, spec_unary, truthy};
use crate::text::int_text;

verus! {
/// The content of a piece of output.
pub enum PieceV {
    Text(Seq<char>),
    Real(u64),
}

/// The content of the interpreter's state.
pub struct IState {
    pub scopes: Seq<ScopeV>,
    pub arrays: Seq<ArrayV>,
    pub funcs: Seq<FuncV>,
    pub current: nat,
    pub out: Seq<PieceV>,
}

/// A state is well formed when the current scope exists, every scope is nested
/// in an older one, and every function was declared in an existing scope.
pub open spec fn state_wf(s: IState) -> bool {
    &&& s.current < s.scopes.len()
    &&& forall|i: int|
        0 <= i < s.scopes.len() ==> ((#[trigger] s.scopes[i]).parent matches Some(p) ==> p < i)
    &&& forall|f: int| 0 <= f < s.funcs.len() ==> (#[trigger] s.funcs[f]).closure < s.scopes.len()
}

/// The value of `name` seen from scope `id`: its binding in `id`, or else in
/// the scopes that `id` is nested in.
pub open spec fn lookup(scopes: Seq<ScopeV>, id: int, name: Seq<char>) -> Option<Val>
    decreases id,
{
    if id < 0 || id >= scopes.len() {
        None
    } else if scopes[id].vars.dom().contains(name) {
        Some(scopes[id].vars[name])
    } else {
        match scopes[id].parent {
            Some(p) => if p < id {
                lookup(scopes, p as int, name)
            } else {
                None
            },
            None => None,
        }
    }
}

/// The scope, seen from scope `id`, that holds the binding of `name`.
pub open spec fn find_scope(scopes: Seq<ScopeV>, id: int, name: Seq<char>) -> Option<int>
    decreases id,
{
    if id < 0 || id >= scopes.len() {
        None
    } else if scopes[id].vars.dom().contains(name) {
        Some(id)
    } else {
        match scopes[id].parent {
            Some(p) => if p < id {
                find_scope(scopes, p as int, name)
            } else {
                None
            },
            None => None,
        }
    }
}

/// Binds `name` to `v` in scope `id`.
pub open spec fn bind_in(s: IState, id: int, name: Seq<char>, v: Val) -> IState {
    IState {
        scopes: s.scopes.update(id, ScopeV { vars: s.scopes[id].vars.insert(name, v), parent: s.scopes[id].parent }),
        ..s
    }
}

/// Declares `name` with value `v` in the current scope.
pub open spec fn define_var(s: IState, name: Seq<char>, v: Val) -> IState {
    bind_in(s, s.current as int, name, v)
}

/// Gives `name` the value `v` in the scope that holds it, as scope `start`
/// sees it; the flag tells whether some scope held it.
pub open spec fn assign_at(s: IState, start: int, name: Seq<char>, v: Val) -> (IState, bool) {
    match find_scope(s.scopes, start, name) {
        Some(id) => (bind_in(s, id, name, v), true),
        None => (s, false),
    }
}

/// Gives `name` the value `v` in the scope that holds it, as the current scope
/// sees it; the flag tells whether some scope held it.
pub open spec fn assign_var(s: IState, name: Seq<char>, v: Val) -> (IState, bool) {
    assign_at(s, s.current as int, name, v)
}

/// Adds a new empty scope nested in `parent`; its index is `s.scopes.len()`.
pub open spec fn push_scope(s: IState, parent: ScopeRef) -> IState {
    IState { scopes: s.scopes.push(ScopeV { vars: Map::empty(), parent: Some(parent) }), ..s }
}

/// The state of a new interpreter: one empty scope, which is current, and
/// nothing stored or printed.
pub open spec fn initial_state() -> IState {
    IState {
        scopes: seq![ScopeV { vars: Map::empty(), parent: None }],
        arrays: Seq::empty(),
        funcs: Seq::empty(),
        current: 0,
        out: Seq::empty(),
    }
}

/// Makes `id` the current scope.
pub open spec fn enter(s: IState, id: nat) -> IState {
    IState { current: id, ..s }
}

/// Why the verified evaluator stopped without a result: where Rust panics
/// (integer overflow, division by zero, a failed `unwrap`, an `unimplemented!`
/// case, unbounded recursion through a cyclic array); where the step budget ran
/// out (a loop or recursion that did not end); where a real-number sum,
/// difference, product or quotient, or the `/` of two integers, was asked for,
/// which the verified core does not compute; or where a value names an object this interpreter does not hold.
#[derive(Debug, Clone, Copy, PartialEq, Eq, Structural)]
pub enum Halt {
    Panic,
    OutOfFuel,
    Real,
    Dangling,
}

/// The type of a value, found from the store for arrays and functions.
pub open spec fn type_of(s: IState, v: Val) -> Result<TypeV, Halt> {
    match v {
        Val::Int(_) => Ok(TypeV::Int),
        Val::Float(_) => Ok(TypeV::Float),
        Val::Str(_) => Ok(TypeV::Str),
        Val::Bool(_) => Ok(TypeV::Bool),
        Val::Null => Ok(TypeV::Null),
        Val::Array(a) => if a < s.arrays.len() {
            Ok(TypeV::Array(Box::new(s.arrays[a as int].ele_type), s.arrays[a as int].start, s.arrays[a as int].end))
        } else {
            Err(Halt::Dangling)
        },
        Val::Func(f) => if f < s.funcs.len() {
            Ok(TypeV::Func(
                s.funcs[f as int].params.map_values(|p: (Seq<char>, TypeV)| p.1),
                Box::new(match s.funcs[f as int].return_type {
                    Some(t) => t,
                    None => TypeV::Null,
                }),
            ))
        } else {
            Err(Halt::Dangling)
        },
        Val::Record(_) => Err(Halt::Dangling),
    }
}

/// The number of elements of an array indexed from `start` to `end`:
/// `end.saturating_sub(start).saturating_add(1)`.
pub open spec fn array_size(start: usize, end: usize) -> nat {
    if end <= start {
        1
    } else if end - start == usize::MAX {
        usize::MAX as nat
    } else {
        (end - start + 1) as nat
    }
}

/// A run-time error with no position.
pub open spec fn rt_err(kind: KindV) -> ErrV {
    ErrV::Runtime { span: None, kind }
}

/// The value a variable of type `t` starts with. Arrays are made in the store,
/// their elements first; records and functions have no such value.
pub open spec fn default_value(s: IState, t: TypeV) -> (IState, Result<Val, ErrV>)
    decreases t, 0int,
{
    match t {
        TypeV::Int => (s, Ok(Val::Int(0))),
        TypeV::Float => (s, Ok(Val::Float(0))),
        TypeV::Str => (s, Ok(Val::Str(Seq::empty()))),
        TypeV::Bool => (s, Ok(Val::Bool(false))),
        TypeV::Null => (s, Ok(Val::Null)),
        TypeV::Array(et, start, end) => {
            let (s1, r) = default_fill(s, *et, array_size(start, end) as int, Seq::empty());
            match r {
                Ok(data) => (
                    IState { arrays: s1.arrays.push(ArrayV { data, start, end, ele_type: *et }), ..s1 },
                    Ok(Val::Array(s1.arrays.len() as usize)),
                ),
                Err(e) => (s1, Err(e)),
            }
        },
        _ => (s, Err(rt_err(KindV::TypeWithoutDefaultValue(t)))),
    }
}

/// `acc` followed by `n` more starting values of type `t`.
pub open spec fn default_fill(s: IState, t: TypeV, n: int, acc: Seq<Val>) -> (IState, Result<Seq<Val>, ErrV>)
    decreases t, n,
{
    if n <= 0 {
        (s, Ok(acc))
    } else {
        let (s1, r) = default_value(s, t);
        match r {
            Ok(v) => default_fill(s1, t, n - 1, acc.push(v)),
            Err(e) => (s1, Err(e)),
        }
    }
}

/// How deep arrays nest before the nesting must repeat an array.
pub open spec fn render_depth(s: IState) -> nat {
    if s.arrays.len() < usize::MAX {
        (s.arrays.len() + 1) as nat
    } else {
        s.arrays.len()
    }
}

/// The printed form of a value, `to_string` in pieces. Arrays print as
/// `[a, b, c]`; a record, or an array that contains itself, makes Rust panic.
pub open spec fn render(s: IState, v: Val, depth: nat) -> Result<Seq<PieceV>, Halt>
    decreases depth, 0int,
{
    match v {
        Val::Int(i) => Ok(seq![PieceV::Text(int_text(i as int))]),
        Val::Float(b) => Ok(seq![PieceV::Real(b)]),
        Val::Str(x) => Ok(seq![PieceV::Text(x)]),
        Val::Bool(b) => Ok(seq![PieceV::Text(if b { "TRUE"@ } else { "FALSE"@ })]),
        Val::Null => Ok(seq![PieceV::Text("NULL"@)]),
        Val::Func(f) => if f < s.funcs.len() {
            Ok(seq![PieceV::Text("<function "@ + s.funcs[f as int].name + ">"@)])
        } else {
            Err(Halt::Dangling)
        },
        Val::Record(_) => Err(Halt::Panic),
        Val::Array(a) => if a >= s.arrays.len() {
            Err(Halt::Dangling)
        } else if depth == 0 {
            Err(Halt::Panic)
        } else {
            match render_items(s, s.arrays[a as int].data, s.arrays[a as int].data.len() as int, (depth - 1) as nat) {
                Ok(items) => Ok(seq![PieceV::Text("["@)] + items + seq![PieceV::Text("]"@)]),
                Err(h) => Err(h),
            }
        },
    }
}

/// The printed forms of `data[..n]`, separated by `", "`.
pub open spec fn render_items(s: IState, data: Seq<Val>, n: int, depth: nat) -> Result<Seq<PieceV>, Halt>
    decreases depth, n,
{
    if n <= 0 || n > data.len() {
        Ok(Seq::empty())
    } else {
        match render_items(s, data, n - 1, depth) {
            Ok(prev) => match render(s, data[n - 1], depth) {
                Ok(last) => Ok(
                    if n > 1 {
                        prev + seq![PieceV::Text(", "@)] + last
                    } else {
                        last
                    },
                ),
                Err(h) => Err(h),
            },
            Err(h) => Err(h),
        }
    }
}

/// Once the printed forms of a prefix fail, those of every longer prefix fail the same way.
pub proof fn lemma_render_items_err(s: IState, data: Seq<Val>, k: int, m: int, depth: nat)
    requires
        0 < k <= m <= data.len(),
        render_items(s, data, k, depth) is Err,
    ensures
        render_items(s, data, m, depth) == render_items(s, data, k, depth),
    decreases m - k,
{
    if k < m {
        lemma_render_items_err(s, data, k, m - 1, depth);
    }
}

/// The content of a flow.
pub enum FlowV {
    Return(Val),
    Break,
    Continue,
    Normal,
}

/// What evaluating an expression gives: a value, an error, or a halt.
pub enum EvalR {
    Value(Val),
    Error(ErrV),
    Halted(Halt),
}

/// What running a statement gives: a flow, or a halt.
pub enum ExecR {
    Flow(FlowV),
    Halted(Halt),
}

/// What an operation that yields nothing gives: success, an error, or a halt.
pub enum UnitR {
    Done,
    Error(ErrV),
    Halted(Halt),
}

/// The size of an expression, a measure that decreases on its parts.
pub open spec fn expr_size(e: ExprV) -> nat
    decreases e, 0int,
{
    match e {
        ExprV::Literal { .. } => 1,
        ExprV::Binary { left, right, .. } => 1 + expr_size(*left) + expr_size(*right),
        ExprV::Unary { operand, .. } => 1 + expr_size(*operand),
        ExprV::Get { .. } => 1,
        ExprV::Index { target, index, .. } => 1 + expr_size(*target) + expr_size(*index),
        ExprV::Call { args, .. } => 1 + exprs_size_from(args, 0),
    }
}

/// The size of the expressions `s[i..]`.
pub open spec fn exprs_size_from(s: Seq<ExprV>, i: int) -> nat
    decreases s, s.len() - i,
{
    if i < 0 || i >= s.len() {
        0
    } else {
        1 + expr_size(s[i]) + exprs_size_from(s, i + 1)
    }
}

/// The size of a statement, a measure that decreases on its parts.
pub open spec fn stmt_size(st: StmtV) -> nat
    decreases st, 0int,
{
    match st {
        StmtV::Assign { value, .. } => 2 + expr_size(value),
        StmtV::Block { stmts } => 1 + stmts_size_from(stmts, 0),
        StmtV::Print { value } => 1 + exprs_size_from(value, 0),
        StmtV::If { condition, true_body, false_body } => 1 + expr_size(condition) + stmt_size(*true_body)
            + match false_body {
            Some(b) => stmt_size(*b),
            None => 0,
        },
        StmtV::For { start, end, body, .. } => 1 + expr_size(start) + expr_size(end) + stmt_size(*body),
        StmtV::Repeat { body, condition } => 1 + stmt_size(*body) + expr_size(condition),
        StmtV::While { condition, body } => 1 + expr_size(condition) + stmt_size(*body),
        StmtV::Expr { value } => 1 + expr_size(value),
        StmtV::IndexAssign { target, index, value } => 2 + expr_size(target) + expr_size(index) + expr_size(value),
        StmtV::Return { value } => 1 + match value {
            Some(e) => expr_size(e),
            None => 0,
        },
        _ => 1,
    }
}

/// The size of the statements `s[i..]`.
pub open spec fn stmts_size_from(s: Seq<StmtV>, i: int) -> nat
    decreases s, s.len() - i,
{
    if i < 0 || i >= s.len() {
        0
    } else {
        1 + stmt_size(s[i]) + stmts_size_from(s, i + 1)
    }
}

/// The error of an operator applied to values of the wrong types.
pub open spec fn op_error(s: IState, l: Val, op: Op, r: Val) -> EvalR {
    match type_of(s, l) {
        Ok(lt) => match type_of(s, r) {
            Ok(rt) => EvalR::Error(rt_err(KindV::InvalidOp { op, left: lt, right: rt })),
            Err(h) => EvalR::Halted(h),
        },
        Err(h) => EvalR::Halted(h),
    }
}

/// `l op r` as the interpreter reports it.
pub open spec fn binary_result(s: IState, l: Val, op: Op, r: Val) -> EvalR {
    match spec_binary(l, op, r) {
        OpResult::Value(v) => EvalR::Value(v),
        OpResult::Panic => EvalR::Halted(Halt::Panic),
        OpResult::Real => EvalR::Halted(Halt::Real),
        OpResult::Invalid => op_error(s, l, op, r),
    }
}

/// `op v` as the interpreter reports it.
pub open spec fn unary_result(s: IState, op: Op, v: Val) -> EvalR {
    match spec_unary(op, v) {
        OpResult::Value(x) => EvalR::Value(x),
        OpResult::Panic => EvalR::Halted(Halt::Panic),
        OpResult::Real => EvalR::Halted(Halt::Real),
        OpResult::Invalid => match type_of(s, v) {
            Ok(t) => EvalR::Error(rt_err(KindV::InvalidUnaryOp { op, operand: t })),
            Err(h) => EvalR::Halted(h),
        },
    }
}

/// Whether position `p` lies in the index range of array `a`.
pub open spec fn in_range(a: ArrayV, p: usize) -> bool {
    a.start <= p <= a.end
}

/// The error for a position outside the index range of array `a`.
pub open spec fn out_of_bounds(a: ArrayV, p: usize) -> ErrV {
    rt_err(KindV::IndexOutOfBounds { index: p as i64, range: (a.start, a.end) })
}

/// Element at position `p` of array `a`: the out-of-bounds error outside its
/// range, and a panic where the range reaches past the stored elements.
pub open spec fn array_get(a: ArrayV, p: usize) -> EvalR {
    if !in_range(a, p) {
        EvalR::Error(out_of_bounds(a, p))
    } else if p - a.start >= a.data.len() {
        EvalR::Halted(Halt::Panic)
    } else {
        EvalR::Value(a.data[p - a.start])
    }
}

/// `c[i]` as the interpreter reports it; an integer index `k` names the
/// position `k as usize`.
pub open spec fn index_result(s: IState, c: Val, i: Val, span: Option<Span>) -> EvalR {
    match (c, i) {
        (Val::Array(a), Val::Int(k)) => if a >= s.arrays.len() {
            EvalR::Halted(Halt::Dangling)
        } else {
            array_get(s.arrays[a as int], k as usize)
        },
        _ => EvalR::Error(ErrV::Runtime { span, kind: KindV::Other("Invalid index operation"@) }),
    }
}

/// Stores `v` in the target value `tv` at the index value `iv`: the index must
/// be an integer, then the target an array that has that position.
pub open spec fn store_result(s: IState, tv: Val, iv: Val, v: Val) -> (IState, UnitR) {
    match iv {
        Val::Int(k) => match tv {
            Val::Array(a) => if a >= s.arrays.len() {
                (s, UnitR::Halted(Halt::Dangling))
            } else {
                let arr = s.arrays[a as int];
                let p = k as usize;
                if !in_range(arr, p) {
                    (s, UnitR::Error(out_of_bounds(arr, p)))
                } else if p - arr.start >= arr.data.len() {
                    (s, UnitR::Halted(Halt::Panic))
                } else {
                    (
                        IState {
                            arrays: s.arrays.update(a as int, ArrayV { data: arr.data.update(p - arr.start, v), ..arr }),
                            ..s
                        },
                        UnitR::Done,
                    )
                }
            },
            _ => match type_of(s, tv) {
                Ok(t) => (s, UnitR::Error(rt_err(KindV::NotIndexable(t)))),
                Err(h) => (s, UnitR::Halted(h)),
            },
        },
        _ => (s, UnitR::Error(rt_err(KindV::InvalidIndex(iv)))),
    }
}

/// Binds each parameter of a function to its argument in scope `id`, in
/// order; an argument that failed to evaluate stops the binding (false).
pub open spec fn bind_args(s: IState, id: int, params: Seq<(Seq<char>, TypeV)>, vals: Seq<Option<Val>>, i: int) -> (IState, bool)
    decreases params.len() - i,
{
    if i < 0 || i >= params.len() || i >= vals.len() {
        (s, true)
    } else {
        match vals[i] {
            Some(v) => bind_args(bind_in(s, id, params[i].0, v), id, params, vals, i + 1),
            None => (s, false),
        }
    }
}

/// Adds `out` to the printed output.
pub open spec fn emit(s: IState, out: Seq<PieceV>) -> IState {
    IState { out: s.out + out, ..s }
}

/// The meaning of an expression: the state after it and what it gives.
/// `fuel` bounds how many loop turns and calls may nest.
pub open spec fn eval(s: IState, e: ExprV, fuel: nat) -> (IState, EvalR)
    decreases fuel, expr_size(e),
{
    match e {
        ExprV::Literal { value, .. } => (s, EvalR::Value(value)),
        ExprV::Binary { left, op, right, .. } => {
            let (s1, l) = eval(s, *left, fuel);
            match l {
                EvalR::Value(lv) => {
                    let (s2, r) = eval(s1, *right, fuel);
                    match r {
                        EvalR::Value(rv) => (s2, binary_result(s2, lv, op, rv)),
                        _ => (s2, r),
                    }
                },
                _ => (s1, l),
            }
        },
        ExprV::Unary { op, operand, .. } => {
            let (s1, r) = eval(s, *operand, fuel);
            match r {
                EvalR::Value(v) => (s1, unary_result(s1, op, v)),
                _ => (s1, r),
            }
        },
        ExprV::Get { name, .. } => match lookup(s.scopes, s.current as int, name) {
            Some(v) => (s, EvalR::Value(v)),
            None => (s, EvalR::Error(rt_err(KindV::UndefinedVariable(name)))),
        },
        ExprV::Index { target, index, span } => {
            let (s1, c) = eval(s, *target, fuel);
            match c {
                EvalR::Value(cv) => {
                    let (s2, i) = eval(s1, *index, fuel);
                    match i {
                        EvalR::Value(iv) => (s2, index_result(s2, cv, iv, span)),
                        _ => (s2, i),
                    }
                },
                _ => (s1, c),
            }
        },
        ExprV::Call { name, args, .. } => {
            let (s1, r) = eval_args(s, args, 0, fuel, Seq::empty());
            match r {
                Ok(vals) => invoke(s1, name, vals, fuel),
                Err(h) => (s1, EvalR::Halted(h)),
            }
        },
    }
}

/// Evaluates the arguments `args[i..]` in order, after the results `acc`
/// (`None` for an argument that gave an error).
pub open spec fn eval_args(s: IState, args: Seq<ExprV>, i: int, fuel: nat, acc: Seq<Option<Val>>) -> (IState, Result<Seq<Option<Val>>, Halt>)
    decreases fuel, exprs_size_from(args, i),
{
    if i < 0 || i >= args.len() {
        (s, Ok(acc))
    } else {
        let (s1, r) = eval(s, args[i], fuel);
        match r {
            EvalR::Value(v) => eval_args(s1, args, i + 1, fuel, acc.push(Some(v))),
            EvalR::Error(_) => eval_args(s1, args, i + 1, fuel, acc.push(None)),
            EvalR::Halted(h) => (s1, Err(h)),
        }
    }
}

/// Calls the function bound to `name` with the evaluated arguments. A name that
/// is not a function, a wrong number of arguments, an argument that gave an
/// error, or a body that ends without `RETURN` all give `NULL`.
pub open spec fn invoke(s: IState, name: Seq<char>, vals: Seq<Option<Val>>, fuel: nat) -> (IState, EvalR)
    decreases fuel, 0int,
{
    match lookup(s.scopes, s.current as int, name) {
        Some(Val::Func(f)) => if f >= s.funcs.len() {
            (s, EvalR::Halted(Halt::Dangling))
        } else {
            let fo = s.funcs[f as int];
            if vals.len() != fo.params.len() {
                (s, EvalR::Value(Val::Null))
            } else if fuel == 0 {
                (s, EvalR::Halted(Halt::OutOfFuel))
            } else {
                let child = s.scopes.len() as int;
                let (s2, bound) = bind_args(push_scope(s, fo.closure), child, fo.params, vals, 0);
                if !bound {
                    (s2, EvalR::Value(Val::Null))
                } else {
                    let (s3, r) = exec(enter(s2, child as nat), fo.body, (fuel - 1) as nat);
                    let s4 = enter(s3, s.current);
                    match r {
                        ExecR::Halted(h) => (s4, EvalR::Halted(h)),
                        ExecR::Flow(FlowV::Return(v)) => (s4, EvalR::Value(v)),
                        _ => (s4, EvalR::Value(Val::Null)),
                    }
                }
            }
        },
        _ => (s, EvalR::Value(Val::Null)),
    }
}

/// Evaluates `value` and gives it to the variable `name` where it is bound.
pub open spec fn set_var(s: IState, name: Seq<char>, value: ExprV, fuel: nat) -> (IState, UnitR)
    decreases fuel, expr_size(value) + 1,
{
    let (s1, r) = eval(s, value, fuel);
    match r {
        EvalR::Value(v) => {
            let (s2, found) = assign_var(s1, name, v);
            if found {
                (s2, UnitR::Done)
            } else {
                (s2, UnitR::Error(rt_err(KindV::AssignToUndefined(name))))
            }
        },
        EvalR::Error(e) => (s1, UnitR::Error(e)),
        EvalR::Halted(h) => (s1, UnitR::Halted(h)),
    }
}

/// Declares `name` in the current scope with the starting value of type `t`.
pub open spec fn declare(s: IState, name: Seq<char>, t: TypeV) -> (IState, UnitR) {
    let (s1, r) = default_value(s, t);
    match r {
        Ok(v) => (define_var(s1, name, v), UnitR::Done),
        Err(e) => (s1, UnitR::Error(e)),
    }
}

/// Prints the values of `exprs[i..]`, each followed by a space, then a line
/// break. An expression that gives an error stops the printing there.
pub open spec fn print_items(s: IState, exprs: Seq<ExprV>, i: int, fuel: nat) -> (IState, UnitR)
    decreases fuel, exprs_size_from(exprs, i),
{
    if i < 0 || i >= exprs.len() {
        (emit(s, seq![PieceV::Text("\n"@)]), UnitR::Done)
    } else {
        let (s1, r) = eval(s, exprs[i], fuel);
        match r {
            EvalR::Value(v) => match render(s1, v, render_depth(s1)) {
                Ok(p) => print_items(emit(s1, p + seq![PieceV::Text(" "@)]), exprs, i + 1, fuel),
                Err(h) => (s1, UnitR::Halted(h)),
            },
            EvalR::Error(e) => (s1, UnitR::Error(e)),
            EvalR::Halted(h) => (s1, UnitR::Halted(h)),
        }
    }
}

/// `target[index] <- value`: the value, the index and the target are
/// evaluated in that order.
pub open spec fn index_set(s: IState, target: ExprV, index: ExprV, value: ExprV, fuel: nat) -> (IState, UnitR)
    decreases fuel, expr_size(target) + expr_size(index) + expr_size(value) + 1,
{
    let (s1, vr) = eval(s, value, fuel);
    match vr {
        EvalR::Value(v) => {
            let (s2, ir) = eval(s1, index, fuel);
            match ir {
                EvalR::Value(iv) => {
                    let (s3, tr) = eval(s2, target, fuel);
                    match tr {
                        EvalR::Value(tv) => store_result(s3, tv, iv, v),
                        EvalR::Error(e) => (s3, UnitR::Error(e)),
                        EvalR::Halted(h) => (s3, UnitR::Halted(h)),
                    }
                },
                EvalR::Error(e) => (s2, UnitR::Error(e)),
                EvalR::Halted(h) => (s2, UnitR::Halted(h)),
            }
        },
        EvalR::Error(e) => (s1, UnitR::Error(e)),
        EvalR::Halted(h) => (s1, UnitR::Halted(h)),
    }
}

/// A statement whose own error is dropped: only a halt stops the program.
pub open spec fn quiet(r: UnitR) -> ExecR {
    match r {
        UnitR::Halted(h) => ExecR::Halted(h),
        _ => ExecR::Flow(FlowV::Normal),
    }
}

/// A condition: its value, or a halt (an error makes `unwrap` panic).
pub open spec fn condition(r: EvalR) -> Result<Val, Halt> {
    match r {
        EvalR::Value(v) => Ok(v),
        EvalR::Error(_) => Err(Halt::Panic),
        EvalR::Halted(h) => Err(h),
    }
}

/// The meaning of a statement: the state after it and how control leaves it.
pub open spec fn exec(s: IState, st: StmtV, fuel: nat) -> (IState, ExecR)
    decreases fuel, stmt_size(st),
{
    match st {
        StmtV::Assign { name, value } => {
            let (s1, r) = set_var(s, name, value, fuel);
            (s1, quiet(r))
        },
        StmtV::Block { stmts } => {
            let child = s.scopes.len();
            let (s1, r) = exec_block(enter(push_scope(s, s.current as usize), child), stmts, 0, fuel);
            (enter(s1, s.current), r)
        },
        StmtV::TypeDecl { .. } => (s, ExecR::Flow(FlowV::Normal)),
        StmtV::VarDecl { name, var_type } => {
            let (s1, r) = declare(s, name, var_type);
            (s1, quiet(r))
        },
        StmtV::Print { value } => {
            let (s1, r) = print_items(s, value, 0, fuel);
            (s1, quiet(r))
        },
        StmtV::If { condition: c, true_body, false_body } => {
            let (s1, r) = eval(s, c, fuel);
            match condition(r) {
                Ok(v) => if truthy(v) {
                    exec(s1, *true_body, fuel)
                } else {
                    match false_body {
                        Some(b) => exec(s1, *b, fuel),
                        None => (s1, ExecR::Flow(FlowV::Normal)),
                    }
                },
                Err(h) => (s1, ExecR::Halted(h)),
            }
        },
        StmtV::For { var_name, start, end, body } => {
            let (s1, r1) = eval(s, start, fuel);
            match condition(r1) {
                Ok(a) => {
                    let (s2, r2) = eval(s1, end, fuel);
                    match condition(r2) {
                        Ok(b) => match (a, b) {
                            (Val::Int(x), Val::Int(y)) => run_for(define_var(s2, var_name, Val::Int(0)), var_name, x as int, y as int, *body, fuel),
                            _ => (s2, ExecR::Flow(FlowV::Normal)),
                        },
                        Err(h) => (s2, ExecR::Halted(h)),
                    }
                },
                Err(h) => (s1, ExecR::Halted(h)),
            }
        },
        StmtV::Repeat { body, condition: c } => run_repeat(s, *body, c, fuel),
        StmtV::While { condition: c, body } => run_while(s, c, *body, fuel),
        StmtV::Expr { value } => {
            let (s1, r) = eval(s, value, fuel);
            match r {
                EvalR::Halted(h) => (s1, ExecR::Halted(h)),
                _ => (s1, ExecR::Flow(FlowV::Normal)),
            }
        },
        StmtV::IndexAssign { target, index, value } => {
            let (s1, r) = index_set(s, target, index, value, fuel);
            (s1, quiet(r))
        },
        StmtV::FuncDecl { name, params, return_type, body } => {
            let f = s.funcs.len();
            let s1 = IState {
                funcs: s.funcs.push(FuncV { name, params, body: *body, closure: s.current as usize, return_type }),
                ..s
            };
            (define_var(s1, name, Val::Func(f as usize)), ExecR::Flow(FlowV::Normal))
        },
        StmtV::Return { value } => match value {
            Some(e) => {
                let (s1, r) = eval(s, e, fuel);
                match r {
                    EvalR::Value(v) => (s1, ExecR::Flow(FlowV::Return(v))),
                    EvalR::Error(_) => (s1, ExecR::Flow(FlowV::Return(Val::Null))),
                    EvalR::Halted(h) => (s1, ExecR::Halted(h)),
                }
            },
            None => (s, ExecR::Flow(FlowV::Return(Val::Null))),
        },
        StmtV::Break => (s, ExecR::Flow(FlowV::Break)),
        StmtV::Continue => (s, ExecR::Flow(FlowV::Continue)),
    }
}

/// Runs `stmts[i..]` in order until one of them leaves other than normally.
pub open spec fn exec_block(s: IState, stmts: Seq<StmtV>, i: int, fuel: nat) -> (IState, ExecR)
    decreases fuel, stmts_size_from(stmts, i),
{
    if i < 0 || i >= stmts.len() {
        (s, ExecR::Flow(FlowV::Normal))
    } else {
        let (s1, r) = exec(s, stmts[i], fuel);
        match r {
            ExecR::Flow(FlowV::Normal) => exec_block(s1, stmts, i + 1, fuel),
            _ => (s1, r),
        }
    }
}

/// The turns of a `FOR` loop from `i` to `e`: each sets the variable, then runs
/// the body; `BREAK` ends the loop and `RETURN` leaves it.
pub open spec fn run_for(s: IState, var: Seq<char>, i: int, e: int, body: StmtV, fuel: nat) -> (IState, ExecR)
    decreases fuel, stmt_size(body),
{
    if i > e {
        (s, ExecR::Flow(FlowV::Normal))
    } else if fuel == 0 {
        (s, ExecR::Halted(Halt::OutOfFuel))
    } else {
        let s1 = assign_var(s, var, Val::Int(i as i64)).0;
        let (s2, r) = exec(s1, body, (fuel - 1) as nat);
        match r {
            ExecR::Halted(h) => (s2, r),
            ExecR::Flow(FlowV::Break) => (s2, ExecR::Flow(FlowV::Normal)),
            ExecR::Flow(FlowV::Return(v)) => (s2, r),
            _ => run_for(s2, var, i + 1, e, body, (fuel - 1) as nat),
        }
    }
}

/// The turns of a `WHILE` loop: the condition, then the body while it holds.
pub open spec fn run_while(s: IState, c: ExprV, body: StmtV, fuel: nat) -> (IState, ExecR)
    decreases fuel, expr_size(c) + stmt_size(body),
{
    if fuel == 0 {
        (s, ExecR::Halted(Halt::OutOfFuel))
    } else {
        let (s1, r) = eval(s, c, (fuel - 1) as nat);
        match condition(r) {
            Ok(v) => if !truthy(v) {
                (s1, ExecR::Flow(FlowV::Normal))
            } else {
                let (s2, f) = exec(s1, body, (fuel - 1) as nat);
                match f {
                    ExecR::Halted(h) => (s2, f),
                    ExecR::Flow(FlowV::Break) => (s2, ExecR::Flow(FlowV::Normal)),
                    ExecR::Flow(FlowV::Return(v)) => (s2, f),
                    _ => run_while(s2, c, body, (fuel - 1) as nat),
                }
            },
            Err(h) => (s1, ExecR::Halted(h)),
        }
    }
}

/// The turns of a `REPEAT` loop: the body, then the condition until it holds.
pub open spec fn run_repeat(s: IState, body: StmtV, c: ExprV, fuel: nat) -> (IState, ExecR)
    decreases fuel, expr_size(c) + stmt_size(body),
{
    if fuel == 0 {
        (s, ExecR::Halted(Halt::OutOfFuel))
    } else {
        let (s1, f) = exec(s, body, (fuel - 1) as nat);
        match f {
            ExecR::Halted(h) => (s1, f),
            ExecR::Flow(FlowV::Break) => (s1, ExecR::Flow(FlowV::Normal)),
            ExecR::Flow(FlowV::Return(v)) => (s1, f),
            _ => {
                let (s2, r) = eval(s1, c, (fuel - 1) as nat);
                match condition(r) {
                    Ok(v) => if truthy(v) {
                        (s2, ExecR::Flow(FlowV::Normal))
                    } else {
                        run_repeat(s2, body, c, (fuel - 1) as nat)
                    },
                    Err(h) => (s2, ExecR::Halted(h)),
                }
            },
        }
    }
}

/// The scope that holds a name is one of the scopes.
pub proof fn lemma_find_scope_valid(scopes: Seq<ScopeV>, id: int, name: Seq<char>)
    ensures
        find_scope(scopes, id, name) matches Some(j) ==> 0 <= j < scopes.len(),
    decreases id,
{
    if 0 <= id < scopes.len() && !scopes[id].vars.dom().contains(name) {
        if let Some(p) = scopes[id].parent {
            if p < id {
                lemma_find_scope_valid(scopes, p as int, name);
            }
        }
    }
}

} // verus!
