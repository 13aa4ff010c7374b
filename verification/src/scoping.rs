//! What running code leaves alone: the scope that is current when it starts
//! is current again when it ends, output is only ever added to, and a name is
//! only ever declared in the scope that is current, so that the declarations
//! of a block or of a called function stay inside it.
use vstd::prelude::*;
use crate::ast::{ExprV, StmtV};
use crate::runtime::{TypeV, Val};
use crate::store::ScopeV;
use crate::semantics::{
    IState, EvalR, UnitR, ExecR, FlowV, eval, eval_args, invoke, exec, exec_block, run_for, run_while,
    run_repeat, set_var, print_items, index_set, declare, default_value, default_fill, bind_in,
    bind_args, assign_at, assign_var, define_var, push_scope, enter, emit, store_result, find_scope,
    lookup, condition, expr_size, exprs_size_from, stmt_size, stmts_size_from, lemma_find_scope_valid,
};
use crate::ops::truthy;

verus! {

/// `s2` comes from `s` the way running code may change a state: the same scope
/// is current, no scope is gone, the output has only grown, and every scope
/// but the current one binds the same names as before.
pub open spec fn follows(s: IState, s2: IState) -> bool {
    &&& s2.current == s.current
    &&& s.scopes.len() <= s2.scopes.len()
    &&& s.out.len() <= s2.out.len()
    &&& s2.out.subrange(0, s.out.len() as int) == s.out
    &&& forall|i: int|
        0 <= i < s.scopes.len() && i != s.current ==> (#[trigger] s2.scopes[i]).vars.dom() == s.scopes[i].vars.dom()
}

/// Every scope that existed binds the same names as before.
pub open spec fn same_names(s: IState, s2: IState) -> bool {
    &&& s.scopes.len() <= s2.scopes.len()
    &&& forall|i: int| 0 <= i < s.scopes.len() ==> (#[trigger] s2.scopes[i]).vars.dom() == s.scopes[i].vars.dom()
}

proof fn lemma_follows_refl(s: IState)
    ensures
        follows(s, s),
{
    assert(s.out.subrange(0, s.out.len() as int) =~= s.out);
}

proof fn lemma_follows_trans(a: IState, b: IState, c: IState)
    requires
        follows(a, b),
        follows(b, c),
    ensures
        follows(a, c),
{
    assert forall|i: int| 0 <= i < a.scopes.len() && i != a.current implies (#[trigger] c.scopes[i]).vars.dom()
        == a.scopes[i].vars.dom() by {
        assert(c.scopes[i].vars.dom() == b.scopes[i].vars.dom());
    }
    assert(c.out.subrange(0, a.out.len() as int) =~= b.out.subrange(0, a.out.len() as int));
}

/// Binding a name in the current scope follows.
proof fn lemma_define_follows(s: IState, name: Seq<char>, v: Val)
    requires
        s.current < s.scopes.len(),
    ensures
        follows(s, define_var(s, name, v)),
{
    lemma_follows_refl(s);
}

/// Binding a name again where it is already bound keeps every scope's names.
proof fn lemma_rebind_same_names(s: IState, id: int, name: Seq<char>, v: Val)
    requires
        0 <= id < s.scopes.len(),
        s.scopes[id].vars.dom().contains(name),
    ensures
        forall|i: int| 0 <= i < s.scopes.len() ==> (#[trigger] bind_in(s, id, name, v).scopes[i]).vars.dom()
            == s.scopes[i].vars.dom(),
        bind_in(s, id, name, v).scopes.len() == s.scopes.len(),
{
    let s2 = bind_in(s, id, name, v);
    assert(s2.scopes[id].vars.dom() =~= s.scopes[id].vars.dom());
}

/// The scope that holds a name binds it.
proof fn lemma_find_scope_binds(scopes: Seq<ScopeV>, start: int, name: Seq<char>)
    ensures
        find_scope(scopes, start, name) matches Some(j) ==> 0 <= j < scopes.len() && scopes[j].vars.dom().contains(name),
    decreases start,
{
    if 0 <= start < scopes.len() && !scopes[start].vars.dom().contains(name) {
        if let Some(p) = scopes[start].parent {
            if p < start {
                lemma_find_scope_binds(scopes, p as int, name);
            }
        }
    }
}

/// Assigning a variable follows, and keeps the names of every scope.
proof fn lemma_assign_follows(s: IState, start: int, name: Seq<char>, v: Val)
    requires
        s.current < s.scopes.len(),
    ensures
        follows(s, assign_at(s, start, name, v).0),
        same_names(s, assign_at(s, start, name, v).0),
{
    lemma_follows_refl(s);
    lemma_find_scope_binds(s.scopes, start, name);
    if let Some(j) = find_scope(s.scopes, start, name) {
        lemma_rebind_same_names(s, j, name, v);
    }
}

/// Making a starting value follows: it touches no scope and no output.
proof fn lemma_default_value_follows(s: IState, t: TypeV)
    ensures
        default_value(s, t).0.scopes == s.scopes,
        default_value(s, t).0.current == s.current,
        default_value(s, t).0.out == s.out,
    decreases t, 0int,
{
    if let TypeV::Array(et, start, end) = t {
        lemma_default_fill_follows(s, *et, crate::semantics::array_size(start, end) as int, Seq::empty());
    }
}

proof fn lemma_default_fill_follows(s: IState, t: TypeV, n: int, acc: Seq<Val>)
    ensures
        default_fill(s, t, n, acc).0.scopes == s.scopes,
        default_fill(s, t, n, acc).0.current == s.current,
        default_fill(s, t, n, acc).0.out == s.out,
    decreases t, n,
{
    if n > 0 {
        lemma_default_value_follows(s, t);
        let (s1, r) = default_value(s, t);
        if let Ok(v) = r {
            lemma_default_fill_follows(s1, t, n - 1, acc.push(v));
        }
    }
}

/// Adding output follows.
proof fn lemma_emit_follows(s: IState, out: Seq<crate::semantics::PieceV>)
    ensures
        follows(s, emit(s, out)),
        same_names(s, emit(s, out)),
{
    assert(emit(s, out).out.subrange(0, s.out.len() as int) =~= s.out);
}

/// Binding the arguments of a call touches the new scope `id` alone.
pub proof fn lemma_bind_args_frame(s: IState, id: int, params: Seq<(Seq<char>, TypeV)>, vals: Seq<Option<Val>>, i: int)
    requires
        0 <= id < s.scopes.len(),
    ensures
        bind_args(s, id, params, vals, i).0.current == s.current,
        bind_args(s, id, params, vals, i).0.out == s.out,
        bind_args(s, id, params, vals, i).0.scopes.len() == s.scopes.len(),
        forall|j: int| 0 <= j < s.scopes.len() && j != id ==> #[trigger] bind_args(s, id, params, vals, i).0.scopes[j]
            == s.scopes[j],
        bind_args(s, id, params, vals, i).0.scopes[id].parent == s.scopes[id].parent,
    decreases params.len() - i,
{
    if !(i < 0 || i >= params.len() || i >= vals.len()) {
        if let Some(v) = vals[i] {
            lemma_bind_args_frame(bind_in(s, id, params[i].0, v), id, params, vals, i + 1);
        }
    }
}

/// Evaluating an expression follows.
pub proof fn lemma_eval_follows(s: IState, e: ExprV, fuel: nat)
    requires
        s.current < s.scopes.len(),
    ensures
        follows(s, eval(s, e, fuel).0),
    decreases fuel, expr_size(e),
{
    lemma_follows_refl(s);
    match e {
        ExprV::Binary { left, right, .. } => {
            lemma_eval_follows(s, *left, fuel);
            let (s1, l) = eval(s, *left, fuel);
            if l is Value {
                lemma_eval_follows(s1, *right, fuel);
                lemma_follows_trans(s, s1, eval(s1, *right, fuel).0);
            }
        },
        ExprV::Unary { operand, .. } => {
            lemma_eval_follows(s, *operand, fuel);
        },
        ExprV::Index { target, index, .. } => {
            lemma_eval_follows(s, *target, fuel);
            let (s1, c) = eval(s, *target, fuel);
            if c is Value {
                lemma_eval_follows(s1, *index, fuel);
                lemma_follows_trans(s, s1, eval(s1, *index, fuel).0);
            }
        },
        ExprV::Call { name, args, .. } => {
            lemma_eval_args_follows(s, args, 0, fuel, Seq::empty());
            let (s1, r) = eval_args(s, args, 0, fuel, Seq::empty());
            if let Ok(vals) = r {
                lemma_invoke_follows(s1, name, vals, fuel);
                lemma_follows_trans(s, s1, invoke(s1, name, vals, fuel).0);
            }
        },
        _ => {},
    }
}

/// Evaluating the arguments of a call follows.
pub proof fn lemma_eval_args_follows(s: IState, args: Seq<ExprV>, i: int, fuel: nat, acc: Seq<Option<Val>>)
    requires
        s.current < s.scopes.len(),
    ensures
        follows(s, eval_args(s, args, i, fuel, acc).0),
    decreases fuel, exprs_size_from(args, i),
{
    lemma_follows_refl(s);
    if !(i < 0 || i >= args.len()) {
        lemma_eval_follows(s, args[i], fuel);
        let (s1, r) = eval(s, args[i], fuel);
        match r {
            EvalR::Value(v) => {
                lemma_eval_args_follows(s1, args, i + 1, fuel, acc.push(Some(v)));
                lemma_follows_trans(s, s1, eval_args(s1, args, i + 1, fuel, acc.push(Some(v))).0);
            },
            EvalR::Error(_) => {
                lemma_eval_args_follows(s1, args, i + 1, fuel, acc.push(None));
                lemma_follows_trans(s, s1, eval_args(s1, args, i + 1, fuel, acc.push(None)).0);
            },
            EvalR::Halted(_) => {},
        }
    }
}

/// A call follows, and leaves the caller's scopes binding the same names,
/// the current one included: the callee's declarations stay in its own scope.
pub proof fn lemma_invoke_follows(s: IState, name: Seq<char>, vals: Seq<Option<Val>>, fuel: nat)
    requires
        s.current < s.scopes.len(),
    ensures
        follows(s, invoke(s, name, vals, fuel).0),
        same_names(s, invoke(s, name, vals, fuel).0),
    decreases fuel, 0int,
{
    lemma_follows_refl(s);
    if let Some(Val::Func(f)) = lookup(s.scopes, s.current as int, name) {
        if f < s.funcs.len() {
            let fo = s.funcs[f as int];
            if vals.len() == fo.params.len() && fuel > 0 {
                let child = s.scopes.len() as int;
                let t = push_scope(s, fo.closure);
                lemma_bind_args_frame(t, child, fo.params, vals, 0);
                let (s2, bound) = bind_args(t, child, fo.params, vals, 0);
                assert(s2.out.subrange(0, s.out.len() as int) =~= s.out);
                assert forall|i: int| 0 <= i < s.scopes.len() implies (#[trigger] s2.scopes[i]).vars.dom()
                    == s.scopes[i].vars.dom() by {
                    assert(s2.scopes[i] == t.scopes[i]);
                }
                if bound {
                    let e = enter(s2, child as nat);
                    lemma_exec_follows(e, fo.body, (fuel - 1) as nat);
                    let (s3, r) = exec(e, fo.body, (fuel - 1) as nat);
                    assert(s3.out.subrange(0, s.out.len() as int) =~= s3.out.subrange(0, e.out.len() as int));
                    assert forall|i: int| 0 <= i < s.scopes.len() implies (#[trigger] s3.scopes[i]).vars.dom()
                        == s.scopes[i].vars.dom() by {
                        assert(s3.scopes[i].vars.dom() == e.scopes[i].vars.dom());
                    }
                }
            }
        }
    }
}

/// Running a statement follows; a block keeps the names of every scope.
pub proof fn lemma_exec_follows(s: IState, st: StmtV, fuel: nat)
    requires
        s.current < s.scopes.len(),
    ensures
        follows(s, exec(s, st, fuel).0),
        st is Block ==> same_names(s, exec(s, st, fuel).0),
    decreases fuel, stmt_size(st),
{
    lemma_follows_refl(s);
    match st {
        StmtV::Assign { name, value } => {
            lemma_set_var_follows(s, name, value, fuel);
        },
        StmtV::Block { stmts } => {
            let child = s.scopes.len();
            let t = enter(push_scope(s, s.current as usize), child);
            lemma_exec_block_follows(t, stmts, 0, fuel);
            let (s1, r) = exec_block(t, stmts, 0, fuel);
            assert(s1.out.subrange(0, s.out.len() as int) =~= s.out);
            assert forall|i: int| 0 <= i < s.scopes.len() implies (#[trigger] s1.scopes[i]).vars.dom()
                == s.scopes[i].vars.dom() by {
                assert(s1.scopes[i].vars.dom() == t.scopes[i].vars.dom());
            }
        },
        StmtV::VarDecl { name, var_type } => {
            lemma_default_value_follows(s, var_type);
            let (s1, r) = default_value(s, var_type);
            lemma_follows_refl(s1);
            if let Ok(v) = r {
                lemma_define_follows(s1, name, v);
            }
        },
        StmtV::Print { value } => {
            lemma_print_items_follows(s, value, 0, fuel);
        },
        StmtV::If { condition: c, true_body, false_body } => {
            lemma_eval_follows(s, c, fuel);
            let (s1, r) = eval(s, c, fuel);
            if let Ok(v) = condition(r) {
                if truthy(v) {
                    lemma_exec_follows(s1, *true_body, fuel);
                    lemma_follows_trans(s, s1, exec(s1, *true_body, fuel).0);
                } else if let Some(b) = false_body {
                    lemma_exec_follows(s1, *b, fuel);
                    lemma_follows_trans(s, s1, exec(s1, *b, fuel).0);
                }
            }
        },
        StmtV::For { var_name, start, end, body } => {
            lemma_eval_follows(s, start, fuel);
            let (s1, r1) = eval(s, start, fuel);
            if let Ok(a) = condition(r1) {
                lemma_eval_follows(s1, end, fuel);
                lemma_follows_trans(s, s1, eval(s1, end, fuel).0);
                let (s2, r2) = eval(s1, end, fuel);
                if let Ok(b) = condition(r2) {
                    if let (Val::Int(x), Val::Int(y)) = (a, b) {
                        let s3 = define_var(s2, var_name, Val::Int(0));
                        lemma_define_follows(s2, var_name, Val::Int(0));
                        lemma_follows_trans(s, s2, s3);
                        lemma_run_for_follows(s3, var_name, x as int, y as int, *body, fuel);
                        lemma_follows_trans(s, s3, run_for(s3, var_name, x as int, y as int, *body, fuel).0);
                    }
                }
            }
        },
        StmtV::Repeat { body, condition: c } => {
            lemma_run_repeat_follows(s, *body, c, fuel);
        },
        StmtV::While { condition: c, body } => {
            lemma_run_while_follows(s, c, *body, fuel);
        },
        StmtV::Expr { value } => {
            lemma_eval_follows(s, value, fuel);
        },
        StmtV::IndexAssign { target, index, value } => {
            lemma_index_set_follows(s, target, index, value, fuel);
        },
        StmtV::FuncDecl { name, params, return_type, body } => {
            let f = s.funcs.len();
            let s1 = IState {
                funcs: s.funcs.push(crate::store::FuncV { name, params, body: *body, closure: s.current as usize, return_type }),
                ..s
            };
            lemma_define_follows(s1, name, Val::Func(f as usize));
            lemma_follows_refl(s1);
        },
        StmtV::Return { value } => {
            if let Some(e) = value {
                lemma_eval_follows(s, e, fuel);
            }
        },
        _ => {},
    }
}

/// A block follows, and leaves every scope that existed, the current one
/// included, binding the same names: its declarations stay inside it.
pub proof fn lemma_block_same_names(s: IState, stmts: Seq<StmtV>, fuel: nat)
    requires
        s.current < s.scopes.len(),
    ensures
        follows(s, exec(s, StmtV::Block { stmts }, fuel).0),
        same_names(s, exec(s, StmtV::Block { stmts }, fuel).0),
{
    lemma_exec_follows(s, StmtV::Block { stmts }, fuel);
}

/// Running the statements of a block follows.
pub proof fn lemma_exec_block_follows(s: IState, stmts: Seq<StmtV>, i: int, fuel: nat)
    requires
        s.current < s.scopes.len(),
    ensures
        follows(s, exec_block(s, stmts, i, fuel).0),
    decreases fuel, stmts_size_from(stmts, i),
{
    lemma_follows_refl(s);
    if !(i < 0 || i >= stmts.len()) {
        lemma_exec_follows(s, stmts[i], fuel);
        let (s1, r) = exec(s, stmts[i], fuel);
        if r == ExecR::Flow(FlowV::Normal) {
            lemma_exec_block_follows(s1, stmts, i + 1, fuel);
            lemma_follows_trans(s, s1, exec_block(s1, stmts, i + 1, fuel).0);
        }
    }
}

/// The turns of a `FOR` loop follow.
pub proof fn lemma_run_for_follows(s: IState, var: Seq<char>, i: int, e: int, body: StmtV, fuel: nat)
    requires
        s.current < s.scopes.len(),
    ensures
        follows(s, run_for(s, var, i, e, body, fuel).0),
    decreases fuel, stmt_size(body),
{
    lemma_follows_refl(s);
    if i <= e && fuel > 0 {
        lemma_assign_follows(s, s.current as int, var, Val::Int(i as i64));
        let s1 = assign_var(s, var, Val::Int(i as i64)).0;
        lemma_exec_follows(s1, body, (fuel - 1) as nat);
        lemma_follows_trans(s, s1, exec(s1, body, (fuel - 1) as nat).0);
        let (s2, r) = exec(s1, body, (fuel - 1) as nat);
        match r {
            ExecR::Halted(_) => {},
            ExecR::Flow(FlowV::Break) => {},
            ExecR::Flow(FlowV::Return(_)) => {},
            _ => {
                lemma_run_for_follows(s2, var, i + 1, e, body, (fuel - 1) as nat);
                lemma_follows_trans(s, s2, run_for(s2, var, i + 1, e, body, (fuel - 1) as nat).0);
            },
        }
    }
}

/// The turns of a `WHILE` loop follow.
pub proof fn lemma_run_while_follows(s: IState, c: ExprV, body: StmtV, fuel: nat)
    requires
        s.current < s.scopes.len(),
    ensures
        follows(s, run_while(s, c, body, fuel).0),
    decreases fuel, expr_size(c) + stmt_size(body),
{
    lemma_follows_refl(s);
    if fuel > 0 {
        lemma_eval_follows(s, c, (fuel - 1) as nat);
        let (s1, r) = eval(s, c, (fuel - 1) as nat);
        if let Ok(v) = condition(r) {
            if truthy(v) {
                lemma_exec_follows(s1, body, (fuel - 1) as nat);
                lemma_follows_trans(s, s1, exec(s1, body, (fuel - 1) as nat).0);
                let (s2, f) = exec(s1, body, (fuel - 1) as nat);
                match f {
                    ExecR::Halted(_) => {},
                    ExecR::Flow(FlowV::Break) => {},
                    ExecR::Flow(FlowV::Return(_)) => {},
                    _ => {
                        lemma_run_while_follows(s2, c, body, (fuel - 1) as nat);
                        lemma_follows_trans(s, s2, run_while(s2, c, body, (fuel - 1) as nat).0);
                    },
                }
            }
        }
    }
}

/// The turns of a `REPEAT` loop follow.
pub proof fn lemma_run_repeat_follows(s: IState, body: StmtV, c: ExprV, fuel: nat)
    requires
        s.current < s.scopes.len(),
    ensures
        follows(s, run_repeat(s, body, c, fuel).0),
    decreases fuel, expr_size(c) + stmt_size(body),
{
    lemma_follows_refl(s);
    if fuel > 0 {
        lemma_exec_follows(s, body, (fuel - 1) as nat);
        let (s1, f) = exec(s, body, (fuel - 1) as nat);
        match f {
            ExecR::Halted(_) => {},
            ExecR::Flow(FlowV::Break) => {},
            ExecR::Flow(FlowV::Return(_)) => {},
            _ => {
                lemma_eval_follows(s1, c, (fuel - 1) as nat);
                lemma_follows_trans(s, s1, eval(s1, c, (fuel - 1) as nat).0);
                let (s2, r) = eval(s1, c, (fuel - 1) as nat);
                if let Ok(v) = condition(r) {
                    if !truthy(v) {
                        lemma_run_repeat_follows(s2, body, c, (fuel - 1) as nat);
                        lemma_follows_trans(s, s2, run_repeat(s2, body, c, (fuel - 1) as nat).0);
                    }
                }
            },
        }
    }
}

/// An assignment statement follows.
pub proof fn lemma_set_var_follows(s: IState, name: Seq<char>, value: ExprV, fuel: nat)
    requires
        s.current < s.scopes.len(),
    ensures
        follows(s, set_var(s, name, value, fuel).0),
    decreases fuel, expr_size(value) + 1,
{
    lemma_eval_follows(s, value, fuel);
    let (s1, r) = eval(s, value, fuel);
    if let EvalR::Value(v) = r {
        lemma_assign_follows(s1, s1.current as int, name, v);
        lemma_follows_trans(s, s1, assign_var(s1, name, v).0);
    }
}

/// A print statement follows.
pub proof fn lemma_print_items_follows(s: IState, exprs: Seq<ExprV>, i: int, fuel: nat)
    requires
        s.current < s.scopes.len(),
    ensures
        follows(s, print_items(s, exprs, i, fuel).0),
    decreases fuel, exprs_size_from(exprs, i),
{
    if i < 0 || i >= exprs.len() {
        lemma_emit_follows(s, seq![crate::semantics::PieceV::Text("\n"@)]);
    } else {
        lemma_eval_follows(s, exprs[i], fuel);
        let (s1, r) = eval(s, exprs[i], fuel);
        if let EvalR::Value(v) = r {
            if let Ok(p) = crate::semantics::render(s1, v, crate::semantics::render_depth(s1)) {
                let s2 = emit(s1, p + seq![crate::semantics::PieceV::Text(" "@)]);
                lemma_emit_follows(s1, p + seq![crate::semantics::PieceV::Text(" "@)]);
                lemma_follows_trans(s, s1, s2);
                lemma_print_items_follows(s2, exprs, i + 1, fuel);
                lemma_follows_trans(s, s2, print_items(s2, exprs, i + 1, fuel).0);
            }
        }
    }
}

/// An element assignment follows.
pub proof fn lemma_index_set_follows(s: IState, target: ExprV, index: ExprV, value: ExprV, fuel: nat)
    requires
        s.current < s.scopes.len(),
    ensures
        follows(s, index_set(s, target, index, value, fuel).0),
    decreases fuel, expr_size(target) + expr_size(index) + expr_size(value) + 1,
{
    lemma_eval_follows(s, value, fuel);
    let (s1, vr) = eval(s, value, fuel);
    if let EvalR::Value(v) = vr {
        lemma_eval_follows(s1, index, fuel);
        lemma_follows_trans(s, s1, eval(s1, index, fuel).0);
        let (s2, ir) = eval(s1, index, fuel);
        if let EvalR::Value(iv) = ir {
            lemma_eval_follows(s2, target, fuel);
            lemma_follows_trans(s, s2, eval(s2, target, fuel).0);
            let (s3, tr) = eval(s2, target, fuel);
            if let EvalR::Value(tv) = tr {
                lemma_follows_refl(s3);
                lemma_follows_trans(s, s3, store_result(s3, tv, iv, v).0);
            }
        }
    }
}

/// Running a statement never changes which scope is current, never takes
/// back output, and declares names in the current scope alone: every other
/// scope binds the same names afterwards.
pub proof fn law_statement_frame(s: IState, st: StmtV, fuel: nat)
    requires
        s.current < s.scopes.len(),
    ensures
        exec(s, st, fuel).0.current == s.current,
        s.out.is_prefix_of(exec(s, st, fuel).0.out),
        forall|i: int| 0 <= i < s.scopes.len() && i != s.current
            ==> (#[trigger] exec(s, st, fuel).0.scopes[i]).vars.dom() == s.scopes[i].vars.dom(),
{
    lemma_exec_follows(s, st, fuel);
    let s2 = exec(s, st, fuel).0;
    assert(s.out.is_prefix_of(s2.out)) by {
        assert forall|i: int| 0 <= i < s.out.len() implies s.out[i] == s2.out[i] by {
            assert(s2.out.subrange(0, s.out.len() as int)[i] == s2.out[i]);
        }
    }
}

/// The declarations of a block stay inside it: afterwards every scope that
/// existed before, the current one included, binds the same names.
pub proof fn law_block_declarations_stay_inside(s: IState, stmts: Seq<StmtV>, fuel: nat)
    requires
        s.current < s.scopes.len(),
    ensures
        forall|i: int| 0 <= i < s.scopes.len()
            ==> (#[trigger] exec(s, StmtV::Block { stmts }, fuel).0.scopes[i]).vars.dom() == s.scopes[i].vars.dom(),
{
    lemma_block_same_names(s, stmts, fuel);
}

/// The declarations of a called function stay inside the call: evaluating an
/// expression leaves every scope that existed, the current one included,
/// binding the same names, and the same scope current.
pub proof fn law_call_declarations_stay_inside(s: IState, e: ExprV, fuel: nat)
    requires
        s.current < s.scopes.len(),
    ensures
        eval(s, e, fuel).0.current == s.current,
        forall|i: int| 0 <= i < s.scopes.len()
            ==> (#[trigger] eval(s, e, fuel).0.scopes[i]).vars.dom() == s.scopes[i].vars.dom(),
    decreases fuel, expr_size(e),
{
    lemma_expr_same_names(s, e, fuel);
}

/// Evaluating an expression keeps the names of every scope.
proof fn lemma_expr_same_names(s: IState, e: ExprV, fuel: nat)
    requires
        s.current < s.scopes.len(),
    ensures
        follows(s, eval(s, e, fuel).0),
        same_names(s, eval(s, e, fuel).0),
    decreases fuel, expr_size(e),
{
    lemma_eval_follows(s, e, fuel);
    match e {
        ExprV::Binary { left, right, .. } => {
            lemma_expr_same_names(s, *left, fuel);
            let (s1, l) = eval(s, *left, fuel);
            if l is Value {
                lemma_expr_same_names(s1, *right, fuel);
            }
        },
        ExprV::Unary { operand, .. } => {
            lemma_expr_same_names(s, *operand, fuel);
        },
        ExprV::Index { target, index, .. } => {
            lemma_expr_same_names(s, *target, fuel);
            let (s1, c) = eval(s, *target, fuel);
            if c is Value {
                lemma_expr_same_names(s1, *index, fuel);
            }
        },
        ExprV::Call { name, args, .. } => {
            lemma_args_same_names(s, args, 0, fuel, Seq::empty());
            let (s1, r) = eval_args(s, args, 0, fuel, Seq::empty());
            if let Ok(vals) = r {
                lemma_invoke_follows(s1, name, vals, fuel);
            }
        },
        _ => {},
    }
}

/// Evaluating arguments keeps the names of every scope.
proof fn lemma_args_same_names(s: IState, args: Seq<ExprV>, i: int, fuel: nat, acc: Seq<Option<Val>>)
    requires
        s.current < s.scopes.len(),
    ensures
        follows(s, eval_args(s, args, i, fuel, acc).0),
        same_names(s, eval_args(s, args, i, fuel, acc).0),
    decreases fuel, exprs_size_from(args, i),
{
    lemma_eval_args_follows(s, args, i, fuel, acc);
    if !(i < 0 || i >= args.len()) {
        lemma_expr_same_names(s, args[i], fuel);
        let (s1, r) = eval(s, args[i], fuel);
        match r {
            EvalR::Value(v) => {
                lemma_args_same_names(s1, args, i + 1, fuel, acc.push(Some(v)));
            },
            EvalR::Error(_) => {
                lemma_args_same_names(s1, args, i + 1, fuel, acc.push(None));
            },
            EvalR::Halted(_) => {},
        }
    }
}

/// Two lists of scopes that agree on the scopes up to `id` see the same
/// values from `id`.
proof fn lemma_lookup_prefix(a: Seq<ScopeV>, b: Seq<ScopeV>, id: int, name: Seq<char>)
    requires
        0 <= id < a.len(),
        id < b.len(),
        forall|i: int| 0 <= i <= id ==> a[i] == b[i],
    ensures
        lookup(a, id, name) == lookup(b, id, name),
    decreases id,
{
    if !a[id].vars.dom().contains(name) {
        if let Some(p) = a[id].parent {
            if p < id {
                lemma_lookup_prefix(a, b, p as int, name);
            }
        }
    }
}

/// Binding parameters other than `name` leaves `name` unbound in scope `id`.
proof fn lemma_bind_args_skips(s: IState, id: int, params: Seq<(Seq<char>, TypeV)>, vals: Seq<Option<Val>>, i: int, name: Seq<char>)
    requires
        0 <= id < s.scopes.len(),
        !s.scopes[id].vars.dom().contains(name),
        forall|j: int| 0 <= j < params.len() ==> params[j].0 != name,
    ensures
        !bind_args(s, id, params, vals, i).0.scopes[id].vars.dom().contains(name),
    decreases params.len() - i,
{
    if !(i < 0 || i >= params.len() || i >= vals.len()) {
        if let Some(v) = vals[i] {
            lemma_bind_args_skips(bind_in(s, id, params[i].0, v), id, params, vals, i + 1, name);
        }
    }
}

/// A called function sees the variables of the scope it was declared in:
/// seen from the new scope of a call, after its parameters are bound, a name
/// that is no parameter has the value that the declaring scope sees.
pub proof fn law_function_sees_its_declaring_scope(
    s: IState,
    closure: usize,
    params: Seq<(Seq<char>, TypeV)>,
    vals: Seq<Option<Val>>,
    name: Seq<char>,
)
    requires
        closure < s.scopes.len(),
        forall|j: int| 0 <= j < params.len() ==> params[j].0 != name,
    ensures
        lookup(
            bind_args(push_scope(s, closure), s.scopes.len() as int, params, vals, 0).0.scopes,
            s.scopes.len() as int,
            name,
        ) == lookup(s.scopes, closure as int, name),
{
    let child = s.scopes.len() as int;
    let t = push_scope(s, closure);
    lemma_bind_args_frame(t, child, params, vals, 0);
    lemma_bind_args_skips(t, child, params, vals, 0, name);
    let s2 = bind_args(t, child, params, vals, 0).0;
    assert(s2.scopes[child].parent == Some(closure));
    assert forall|i: int| 0 <= i <= closure implies s2.scopes[i] == s.scopes[i] by {
        assert(s2.scopes[i] == t.scopes[i]);
    }
    lemma_lookup_prefix(s2.scopes, s.scopes, closure as int, name);
}

/// A declared function sees itself: its declaring scope binds its name to it,
/// so that its body may call it.
pub proof fn law_declared_function_sees_itself(
    s: IState,
    name: Seq<char>,
    params: Seq<(Seq<char>, TypeV)>,
    return_type: Option<TypeV>,
    body: StmtV,
    fuel: nat,
)
    requires
        s.current < s.scopes.len(),
        s.scopes.len() <= usize::MAX,
    ensures
        ({
            let s2 = exec(s, StmtV::FuncDecl { name, params, return_type, body: Box::new(body) }, fuel).0;
            &&& s2.funcs.len() == s.funcs.len() + 1
            &&& s2.funcs[s.funcs.len() as int].closure == s.current
            &&& lookup(s2.scopes, s2.funcs[s.funcs.len() as int].closure as int, name) == Some(
                Val::Func(s.funcs.len() as usize),
            )
        }),
{
}

} // verus!
