//! The step budget only ever cuts a run short: a run that ends within a budget
//! ends the same way, in the same state, within any larger one.
use vstd::prelude::*;
use crate::ast::{ExprV, StmtV};
use crate::runtime::Val;
use crate::semantics::{
    IState, EvalR, UnitR, ExecR, FlowV, Halt, eval, eval_args, invoke, exec, exec_block, run_for, run_while,
    run_repeat, set_var, print_items, index_set, condition, define_var, assign_var, emit, render, render_depth,
    expr_size, exprs_size_from, stmt_size, stmts_size_from, lookup, push_scope, bind_args, enter,
};
use crate::ops::truthy;

verus! {

/// The run ran out of budget.
pub open spec fn ran_out(r: EvalR) -> bool {
    r == EvalR::Halted(Halt::OutOfFuel)
}

/// The statement ran out of budget.
pub open spec fn stmt_ran_out(r: ExecR) -> bool {
    r == ExecR::Halted(Halt::OutOfFuel)
}

/// The operation ran out of budget.
pub open spec fn unit_ran_out(r: UnitR) -> bool {
    r == UnitR::Halted(Halt::OutOfFuel)
}

/// An expression that does not run out of budget evaluates the same way with
/// any larger budget.
pub proof fn lemma_eval_budget(s: IState, e: ExprV, f1: nat, f2: nat)
    requires
        f1 <= f2,
        !ran_out(eval(s, e, f1).1),
    ensures
        eval(s, e, f2) == eval(s, e, f1),
    decreases f1, expr_size(e),
{
    match e {
        ExprV::Binary { left, right, .. } => {
            lemma_eval_budget(s, *left, f1, f2);
            let (s1, l) = eval(s, *left, f1);
            if l is Value {
                lemma_eval_budget(s1, *right, f1, f2);
            }
        },
        ExprV::Unary { operand, .. } => {
            lemma_eval_budget(s, *operand, f1, f2);
        },
        ExprV::Index { target, index, .. } => {
            lemma_eval_budget(s, *target, f1, f2);
            let (s1, c) = eval(s, *target, f1);
            if c is Value {
                lemma_eval_budget(s1, *index, f1, f2);
            }
        },
        ExprV::Call { name, args, .. } => {
            lemma_eval_args_budget(s, args, 0, f1, f2, Seq::empty());
            let (s1, r) = eval_args(s, args, 0, f1, Seq::empty());
            if let Ok(vals) = r {
                lemma_invoke_budget(s1, name, vals, f1, f2);
            }
        },
        _ => {},
    }
}

/// Arguments that do not run out of budget evaluate the same way with any
/// larger budget.
pub proof fn lemma_eval_args_budget(s: IState, args: Seq<ExprV>, i: int, f1: nat, f2: nat, acc: Seq<Option<Val>>)
    requires
        f1 <= f2,
        eval_args(s, args, i, f1, acc).1 != Err::<Seq<Option<Val>>, Halt>(Halt::OutOfFuel),
    ensures
        eval_args(s, args, i, f2, acc) == eval_args(s, args, i, f1, acc),
    decreases f1, exprs_size_from(args, i),
{
    if !(i < 0 || i >= args.len()) {
        lemma_eval_budget(s, args[i], f1, f2);
        let (s1, r) = eval(s, args[i], f1);
        match r {
            EvalR::Value(v) => {
                lemma_eval_args_budget(s1, args, i + 1, f1, f2, acc.push(Some(v)));
            },
            EvalR::Error(_) => {
                lemma_eval_args_budget(s1, args, i + 1, f1, f2, acc.push(None));
            },
            EvalR::Halted(_) => {},
        }
    }
}

/// A call that does not run out of budget gives the same with any larger budget.
pub proof fn lemma_invoke_budget(s: IState, name: Seq<char>, vals: Seq<Option<Val>>, f1: nat, f2: nat)
    requires
        f1 <= f2,
        !ran_out(invoke(s, name, vals, f1).1),
    ensures
        invoke(s, name, vals, f2) == invoke(s, name, vals, f1),
    decreases f1, 0int,
{
    if let Some(Val::Func(f)) = lookup(s.scopes, s.current as int, name) {
        if f < s.funcs.len() {
            let fo = s.funcs[f as int];
            if vals.len() == fo.params.len() && f1 > 0 {
                let child = s.scopes.len() as int;
                let (s2, bound) = bind_args(push_scope(s, fo.closure), child, fo.params, vals, 0);
                if bound {
                    lemma_exec_budget(enter(s2, child as nat), fo.body, (f1 - 1) as nat, (f2 - 1) as nat);
                }
            }
        }
    }
}

/// A statement that does not run out of budget runs the same way with any
/// larger budget.
pub proof fn lemma_exec_budget(s: IState, st: StmtV, f1: nat, f2: nat)
    requires
        f1 <= f2,
        !stmt_ran_out(exec(s, st, f1).1),
    ensures
        exec(s, st, f2) == exec(s, st, f1),
    decreases f1, stmt_size(st),
{
    match st {
        StmtV::Assign { name, value } => {
            lemma_set_var_budget(s, name, value, f1, f2);
        },
        StmtV::Block { stmts } => {
            let child = s.scopes.len();
            lemma_exec_block_budget(enter(push_scope(s, s.current as usize), child), stmts, 0, f1, f2);
        },
        StmtV::Print { value } => {
            lemma_print_items_budget(s, value, 0, f1, f2);
        },
        StmtV::If { condition: c, true_body, false_body } => {
            lemma_eval_budget(s, c, f1, f2);
            let (s1, r) = eval(s, c, f1);
            if let Ok(v) = condition(r) {
                if truthy(v) {
                    lemma_exec_budget(s1, *true_body, f1, f2);
                } else if let Some(b) = false_body {
                    lemma_exec_budget(s1, *b, f1, f2);
                }
            }
        },
        StmtV::For { var_name, start, end, body } => {
            lemma_eval_budget(s, start, f1, f2);
            let (s1, r1) = eval(s, start, f1);
            if let Ok(a) = condition(r1) {
                lemma_eval_budget(s1, end, f1, f2);
                let (s2, r2) = eval(s1, end, f1);
                if let Ok(b) = condition(r2) {
                    if let (Val::Int(x), Val::Int(y)) = (a, b) {
                        lemma_run_for_budget(define_var(s2, var_name, Val::Int(0)), var_name, x as int, y as int, *body, f1, f2);
                    }
                }
            }
        },
        StmtV::Repeat { body, condition: c } => {
            lemma_run_repeat_budget(s, *body, c, f1, f2);
        },
        StmtV::While { condition: c, body } => {
            lemma_run_while_budget(s, c, *body, f1, f2);
        },
        StmtV::Expr { value } => {
            lemma_eval_budget(s, value, f1, f2);
        },
        StmtV::IndexAssign { target, index, value } => {
            lemma_index_set_budget(s, target, index, value, f1, f2);
        },
        StmtV::Return { value } => {
            if let Some(e) = value {
                lemma_eval_budget(s, e, f1, f2);
            }
        },
        _ => {},
    }
}

/// The statements of a block run the same way with any larger budget.
pub proof fn lemma_exec_block_budget(s: IState, stmts: Seq<StmtV>, i: int, f1: nat, f2: nat)
    requires
        f1 <= f2,
        !stmt_ran_out(exec_block(s, stmts, i, f1).1),
    ensures
        exec_block(s, stmts, i, f2) == exec_block(s, stmts, i, f1),
    decreases f1, stmts_size_from(stmts, i),
{
    if !(i < 0 || i >= stmts.len()) {
        lemma_exec_budget(s, stmts[i], f1, f2);
        let (s1, r) = exec(s, stmts[i], f1);
        if r == ExecR::Flow(FlowV::Normal) {
            lemma_exec_block_budget(s1, stmts, i + 1, f1, f2);
        }
    }
}

/// The turns of a `FOR` loop run the same way with any larger budget.
pub proof fn lemma_run_for_budget(s: IState, var: Seq<char>, i: int, e: int, body: StmtV, f1: nat, f2: nat)
    requires
        f1 <= f2,
        !stmt_ran_out(run_for(s, var, i, e, body, f1).1),
    ensures
        run_for(s, var, i, e, body, f2) == run_for(s, var, i, e, body, f1),
    decreases f1, stmt_size(body),
{
    if i <= e {
        let s1 = assign_var(s, var, Val::Int(i as i64)).0;
        lemma_exec_budget(s1, body, (f1 - 1) as nat, (f2 - 1) as nat);
        let (s2, r) = exec(s1, body, (f1 - 1) as nat);
        match r {
            ExecR::Halted(_) => {},
            ExecR::Flow(FlowV::Break) => {},
            ExecR::Flow(FlowV::Return(_)) => {},
            _ => {
                lemma_run_for_budget(s2, var, i + 1, e, body, (f1 - 1) as nat, (f2 - 1) as nat);
            },
        }
    }
}

/// The turns of a `WHILE` loop run the same way with any larger budget.
pub proof fn lemma_run_while_budget(s: IState, c: ExprV, body: StmtV, f1: nat, f2: nat)
    requires
        f1 <= f2,
        !stmt_ran_out(run_while(s, c, body, f1).1),
    ensures
        run_while(s, c, body, f2) == run_while(s, c, body, f1),
    decreases f1, expr_size(c) + stmt_size(body),
{
    lemma_eval_budget(s, c, (f1 - 1) as nat, (f2 - 1) as nat);
    let (s1, r) = eval(s, c, (f1 - 1) as nat);
    if let Ok(v) = condition(r) {
        if truthy(v) {
            lemma_exec_budget(s1, body, (f1 - 1) as nat, (f2 - 1) as nat);
            let (s2, f) = exec(s1, body, (f1 - 1) as nat);
            match f {
                ExecR::Halted(_) => {},
                ExecR::Flow(FlowV::Break) => {},
                ExecR::Flow(FlowV::Return(_)) => {},
                _ => {
                    lemma_run_while_budget(s2, c, body, (f1 - 1) as nat, (f2 - 1) as nat);
                },
            }
        }
    }
}

/// The turns of a `REPEAT` loop run the same way with any larger budget.
pub proof fn lemma_run_repeat_budget(s: IState, body: StmtV, c: ExprV, f1: nat, f2: nat)
    requires
        f1 <= f2,
        !stmt_ran_out(run_repeat(s, body, c, f1).1),
    ensures
        run_repeat(s, body, c, f2) == run_repeat(s, body, c, f1),
    decreases f1, expr_size(c) + stmt_size(body),
{
    lemma_exec_budget(s, body, (f1 - 1) as nat, (f2 - 1) as nat);
    let (s1, f) = exec(s, body, (f1 - 1) as nat);
    match f {
        ExecR::Halted(_) => {},
        ExecR::Flow(FlowV::Break) => {},
        ExecR::Flow(FlowV::Return(_)) => {},
        _ => {
            lemma_eval_budget(s1, c, (f1 - 1) as nat, (f2 - 1) as nat);
            let (s2, r) = eval(s1, c, (f1 - 1) as nat);
            if let Ok(v) = condition(r) {
                if !truthy(v) {
                    lemma_run_repeat_budget(s2, body, c, (f1 - 1) as nat, (f2 - 1) as nat);
                }
            }
        },
    }
}

/// An assignment runs the same way with any larger budget.
pub proof fn lemma_set_var_budget(s: IState, name: Seq<char>, value: ExprV, f1: nat, f2: nat)
    requires
        f1 <= f2,
        !unit_ran_out(set_var(s, name, value, f1).1),
    ensures
        set_var(s, name, value, f2) == set_var(s, name, value, f1),
    decreases f1, expr_size(value) + 1,
{
    lemma_eval_budget(s, value, f1, f2);
}

/// A print statement runs the same way with any larger budget.
pub proof fn lemma_print_items_budget(s: IState, exprs: Seq<ExprV>, i: int, f1: nat, f2: nat)
    requires
        f1 <= f2,
        !unit_ran_out(print_items(s, exprs, i, f1).1),
    ensures
        print_items(s, exprs, i, f2) == print_items(s, exprs, i, f1),
    decreases f1, exprs_size_from(exprs, i),
{
    if !(i < 0 || i >= exprs.len()) {
        lemma_eval_budget(s, exprs[i], f1, f2);
        let (s1, r) = eval(s, exprs[i], f1);
        if let EvalR::Value(v) = r {
            if let Ok(p) = render(s1, v, render_depth(s1)) {
                let s2 = emit(s1, p + seq![crate::semantics::PieceV::Text(" "@)]);
                lemma_print_items_budget(s2, exprs, i + 1, f1, f2);
            }
        }
    }
}

/// An element assignment runs the same way with any larger budget.
pub proof fn lemma_index_set_budget(s: IState, target: ExprV, index: ExprV, value: ExprV, f1: nat, f2: nat)
    requires
        f1 <= f2,
        !unit_ran_out(index_set(s, target, index, value, f1).1),
    ensures
        index_set(s, target, index, value, f2) == index_set(s, target, index, value, f1),
    decreases f1, expr_size(target) + expr_size(index) + expr_size(value) + 1,
{
    lemma_eval_budget(s, value, f1, f2);
    let (s1, vr) = eval(s, value, f1);
    if vr is Value {
        lemma_eval_budget(s1, index, f1, f2);
        let (s2, ir) = eval(s1, index, f1);
        if ir is Value {
            lemma_eval_budget(s2, target, f1, f2);
        }
    }
}

/// A statement that ends within a budget ends the same way, in the same
/// state, within any larger budget: the budget only cuts runs short.
pub proof fn law_budget_only_cuts_short(s: IState, st: StmtV, f1: nat, f2: nat)
    requires
        f1 <= f2,
        exec(s, st, f1).1 != ExecR::Halted(Halt::OutOfFuel),
    ensures
        exec(s, st, f2) == exec(s, st, f1),
{
    lemma_exec_budget(s, st, f1, f2);
}

} // verus!
