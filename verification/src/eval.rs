//! The executable evaluator of expressions and statements, proved to follow
//! `semantics::eval` and `semantics::exec` for the step budget it is given.
use vstd::prelude::*;
use crate::ast::{Expr, ExprV, Op, Span, Stmt, StmtV, exprs_view, stmts_view, lemma_exprs_view, lemma_stmts_view, duplicate_params};
use crate::runtime::{RuntimeValue, Type, Val};
use crate::error::{CpcError, CpcResult, KindV, RuntimeErrorKind};
use crate::interpreter::{Interpreter, Flow, EvalOut, ExecOut, UnitOut, OutPiece, pieces_view, text_piece};
use crate::semantics::{
    IState, Halt, EvalR, ExecR, UnitR, FlowV, eval, eval_args, invoke, exec, exec_block, run_for, run_while,
    run_repeat, set_var, print_items, index_set, quiet, op_error, binary_result, unary_result,
    expr_size, exprs_size_from, stmt_size, stmts_size_from, render, render_depth, bind_args, lookup,
    rt_err, declare,
};
use crate::store::opt_type_view;
use crate::ast::params_view;
use crate::ops::{OpOutcome, apply_binary, apply_unary, value_truthy, truthy};

verus! {

/// The content of a list of argument results (`None` for one that failed).
pub open spec fn opt_vals(v: Seq<Option<RuntimeValue>>) -> Seq<Option<Val>> {
    v.map_values(|o: Option<RuntimeValue>| match o {
        Some(x) => Some(x@),
        None => None,
    })
}

/// An expression of a list is smaller than the list from any earlier position.
proof fn lemma_expr_in_list(s: Seq<ExprV>, j: int, i: int)
    requires
        0 <= j <= i < s.len(),
    ensures
        expr_size(s[i]) < exprs_size_from(s, j),
    decreases i - j,
{
    if j < i {
        lemma_expr_in_list(s, j + 1, i);
    }
}

/// A statement of a list is smaller than the list from any earlier position.
proof fn lemma_stmt_in_list(s: Seq<StmtV>, j: int, i: int)
    requires
        0 <= j <= i < s.len(),
    ensures
        stmt_size(s[i]) < stmts_size_from(s, j),
    decreases i - j,
{
    if j < i {
        lemma_stmt_in_list(s, j + 1, i);
    }
}

/// A call never gives an error: a failing callee gives `NULL`.
proof fn lemma_call_gives_no_error(s: IState, e: ExprV, fuel: nat)
    requires
        e is Call,
    ensures
        !(eval(s, e, fuel).1 is Error),
{
    if let ExprV::Call { name, args, .. } = e {
        let (s1, r) = eval_args(s, args, 0, fuel, Seq::empty());
        if let Ok(vals) = r {
            assert(!(invoke(s1, name, vals, fuel).1 is Error));
        }
    }
}

/// A statement's own error is dropped; a halt goes on.
fn quiet_out(r: UnitOut) -> (f: ExecOut)
    ensures
        f@ == quiet(r@),
{
    match r {
        UnitOut::Halted(h) => ExecOut::Halted(h),
        _ => ExecOut::Flow(Flow::Normal),
    }
}

fn dup_opt_type(t: &Option<Type>) -> (r: Option<Type>)
    ensures
        opt_type_view(r) == opt_type_view(*t),
{
    match t {
        Some(x) => Some(x.duplicate()),
        None => None,
    }
}

impl Interpreter {
    /// The error of `op` applied to values of the wrong types.
    fn op_error_out(&self, l: &RuntimeValue, op: Op, r: &RuntimeValue) -> (res: EvalOut)
        ensures
            res@ == op_error(self@, l@, op, r@),
    {
        match self.value_type(l) {
            Ok(lt) => match self.value_type(r) {
                Ok(rt) => EvalOut::Error(CpcError::Runtime {
                    span: None,
                    kind: RuntimeErrorKind::InvalidOp { op, left: lt, right: rt },
                }),
                Err(h) => EvalOut::Halted(h),
            },
            Err(h) => EvalOut::Halted(h),
        }
    }

    /// `l op r` as the interpreter reports it.
    pub(crate) fn binary_out(&self, l: &RuntimeValue, op: Op, r: &RuntimeValue) -> (res: EvalOut)
        ensures
            res@ == binary_result(self@, l@, op, r@),
    {
        match apply_binary(l, op, r) {
            OpOutcome::Value(v) => EvalOut::Value(v),
            OpOutcome::Panic => EvalOut::Halted(Halt::Panic),
            OpOutcome::Real => EvalOut::Halted(Halt::Real),
            OpOutcome::Invalid => self.op_error_out(l, op, r),
        }
    }

    /// `op v` as the interpreter reports it.
    pub(crate) fn unary_out(&self, op: Op, v: &RuntimeValue) -> (res: EvalOut)
        ensures
            res@ == unary_result(self@, op, v@),
    {
        match apply_unary(op, v) {
            OpOutcome::Value(x) => EvalOut::Value(x),
            OpOutcome::Panic => EvalOut::Halted(Halt::Panic),
            OpOutcome::Real => EvalOut::Halted(Halt::Real),
            OpOutcome::Invalid => match self.value_type(v) {
                Ok(t) => EvalOut::Error(CpcError::Runtime {
                    span: None,
                    kind: RuntimeErrorKind::InvalidUnaryOp { op, operand: t },
                }),
                Err(h) => EvalOut::Halted(h),
            },
        }
    }

    /// Evaluates `e` with a budget of `fuel` loop turns and calls, each nesting
    /// spending one; where the program would panic, run out of budget or add,
    /// subtract, multiply or divide real numbers, the result is a halt.
    pub fn try_evaluate(&mut self, e: &Expr, fuel: u64) -> (r: EvalOut)
        requires
            old(self).wf(),
        ensures
            final(self).wf(),
            (final(self)@, r@) == eval(old(self)@, e@, fuel as nat),
            old(self)@.scopes.len() <= final(self)@.scopes.len(),
            final(self).flags() == old(self).flags(),
        decreases fuel, expr_size(e@),
    {
        match e {
            Expr::Literal { value, .. } => EvalOut::Value(value.duplicate()),
            Expr::Binary { left, op, right, .. } => {
                let l = self.try_evaluate(left, fuel);
                match l {
                    EvalOut::Value(lv) => {
                        let r = self.try_evaluate(right, fuel);
                        match r {
                            EvalOut::Value(rv) => self.binary_out(&lv, *op, &rv),
                            _ => r,
                        }
                    },
                    _ => l,
                }
            },
            Expr::Unary { op, operand, .. } => {
                let r = self.try_evaluate(operand, fuel);
                match r {
                    EvalOut::Value(v) => self.unary_out(*op, &v),
                    _ => r,
                }
            },
            Expr::Get { name, .. } => match self.lookup_var(name) {
                Some(v) => EvalOut::Value(v),
                None => EvalOut::Error(CpcError::Runtime {
                    span: None,
                    kind: RuntimeErrorKind::UndefinedVariable(name.clone()),
                }),
            },
            Expr::Index { target, index, span } => {
                let c = self.try_evaluate(target, fuel);
                match c {
                    EvalOut::Value(cv) => {
                        let i = self.try_evaluate(index, fuel);
                        match i {
                            EvalOut::Value(iv) => self.index_value(&cv, &iv, *span),
                            _ => i,
                        }
                    },
                    _ => c,
                }
            },
            Expr::Call { name, args, .. } => {
                match self.eval_arguments(args, fuel) {
                    Ok(vals) => self.invoke_fn(name, &vals, fuel),
                    Err(h) => EvalOut::Halted(h),
                }
            },
        }
    }

    /// Evaluates the arguments of a call in order.
    #[verifier::loop_isolation(false)]
    fn eval_arguments(&mut self, args: &Vec<Expr>, fuel: u64) -> (r: Result<Vec<Option<RuntimeValue>>, Halt>)
        requires
            old(self).wf(),
        ensures
            final(self).wf(),
            (final(self)@, match r {
                Ok(v) => Ok(opt_vals(v@)),
                Err(h) => Err(h),
            }) == eval_args(old(self)@, exprs_view(args@), 0, fuel as nat, Seq::empty()),
            old(self)@.scopes.len() <= final(self)@.scopes.len(),
            final(self).flags() == old(self).flags(),
        decreases fuel, exprs_size_from(exprs_view(args@), 0),
    {
        let ghost s0 = self@;
        let ghost av = exprs_view(args@);
        proof {
            lemma_exprs_view(args@);
        }
        let mut vals: Vec<Option<RuntimeValue>> = Vec::new();
        assert(opt_vals(vals@) =~= Seq::<Option<Val>>::empty());
        let mut i: usize = 0;
        while i < args.len()
            invariant
                self.wf(),
                i <= args@.len(),
                av == exprs_view(args@),
                av.len() == args@.len(),
                forall|j: int| 0 <= j < args@.len() ==> av[j] == (#[trigger] args@[j])@,
                eval_args(self@, av, i as int, fuel as nat, opt_vals(vals@))
                    == eval_args(s0, av, 0, fuel as nat, Seq::empty()),
                s0.scopes.len() <= self@.scopes.len(),
                self.flags() == old(self).flags(),
            decreases args.len() - i,
        {
            proof {
                lemma_expr_in_list(av, 0, i as int);
            }
            let ghost before = opt_vals(vals@);
            let r = self.try_evaluate(&args[i], fuel);
            match r {
                EvalOut::Value(v) => {
                    let ghost vv = v@;
                    vals.push(Some(v));
                    assert(opt_vals(vals@) =~= before.push(Some(vv)));
                },
                EvalOut::Error(_) => {
                    vals.push(None);
                    assert(opt_vals(vals@) =~= before.push(None));
                },
                EvalOut::Halted(h) => {
                    return Err(h);
                },
            }
            i += 1;
        }
        Ok(vals)
    }

    /// Calls the function bound to `name` with the argument results `vals`.
    #[verifier::loop_isolation(false)]
    fn invoke_fn(&mut self, name: &String, vals: &Vec<Option<RuntimeValue>>, fuel: u64) -> (r: EvalOut)
        requires
            old(self).wf(),
        ensures
            final(self).wf(),
            (final(self)@, r@) == invoke(old(self)@, name@, opt_vals(vals@), fuel as nat),
            old(self)@.scopes.len() <= final(self)@.scopes.len(),
            final(self).flags() == old(self).flags(),
        decreases fuel, 0nat,
    {
        let ghost s0 = self@;
        match self.lookup_var(name) {
            Some(RuntimeValue::Func(f)) => {
                if f >= self.func_count() {
                    return EvalOut::Halted(Halt::Dangling);
                }
                let (params, body, closure) = self.func_parts(f);
                if vals.len() != params.len() {
                    return EvalOut::Value(RuntimeValue::Null);
                }
                if fuel == 0 {
                    return EvalOut::Halted(Halt::OutOfFuel);
                }
                let child = self.push_child(closure);
                let ghost pv = params_view(params@);
                let ghost vv = opt_vals(vals@);
                let ghost s1 = self@;
                let mut i: usize = 0;
                while i < params.len()
                    invariant
                        self.wf(),
                        i <= params@.len(),
                        params@.len() == vals@.len(),
                        pv == params_view(params@),
                        vv == opt_vals(vals@),
                        child < self@.scopes.len(),
                        child == s0.scopes.len(),
                        bind_args(self@, child as int, pv, vv, i as int) == bind_args(s1, child as int, pv, vv, 0),
                        s0.scopes.len() < self@.scopes.len(),
                        self@.current == s0.current,
                        self.flags() == old(self).flags(),
                    decreases params.len() - i,
                {
                    match &vals[i] {
                        Some(v) => {
                            self.bind_at(child, params[i].0.clone(), v.duplicate());
                        },
                        None => {
                            return EvalOut::Value(RuntimeValue::Null);
                        },
                    }
                    i += 1;
                }
                let saved = self.current();
                self.set_current(child);
                let r = self.try_execute(&body, fuel - 1);
                self.set_current(saved);
                match r {
                    ExecOut::Halted(h) => EvalOut::Halted(h),
                    ExecOut::Flow(Flow::Return(v)) => EvalOut::Value(v),
                    _ => EvalOut::Value(RuntimeValue::Null),
                }
            },
            _ => EvalOut::Value(RuntimeValue::Null),
        }
    }

    /// Runs `st` with a budget of `fuel` loop turns and calls, each nesting
    /// spending one; where the program would panic, run out of budget or add,
    /// subtract, multiply or divide real numbers, the result is a halt.
    pub fn try_execute(&mut self, st: &Stmt, fuel: u64) -> (r: ExecOut)
        requires
            old(self).wf(),
        ensures
            final(self).wf(),
            (final(self)@, r@) == exec(old(self)@, st@, fuel as nat),
            old(self)@.scopes.len() <= final(self)@.scopes.len(),
            final(self).flags() == old(self).flags(),
        decreases fuel, stmt_size(st@),
    {
        match st {
            Stmt::Assign { name, value, .. } => {
                let r = self.assign_value(name, value, fuel);
                quiet_out(r)
            },
            Stmt::Block { stmts, .. } => {
                let saved = self.current();
                let child = self.push_child(saved);
                self.set_current(child);
                let r = self.run_block(stmts, fuel);
                self.set_current(saved);
                r
            },
            Stmt::TypeDecl { .. } => ExecOut::Flow(Flow::Normal),
            Stmt::VarDecl { name, var_type, .. } => {
                match self.default_type_value(var_type) {
                    Ok(v) => {
                        self.define_here(name.clone(), v);
                    },
                    Err(_) => {},
                }
                ExecOut::Flow(Flow::Normal)
            },
            Stmt::Print { value, .. } => {
                let r = self.print_values(value, fuel);
                quiet_out(r)
            },
            Stmt::If { condition, true_body, false_body, .. } => {
                let c = self.try_evaluate(condition, fuel);
                match c {
                    EvalOut::Value(v) => {
                        if value_truthy(&v) {
                            self.try_execute(true_body, fuel)
                        } else {
                            match false_body {
                                Some(b) => self.try_execute(b, fuel),
                                None => ExecOut::Flow(Flow::Normal),
                            }
                        }
                    },
                    EvalOut::Error(_) => ExecOut::Halted(Halt::Panic),
                    EvalOut::Halted(h) => ExecOut::Halted(h),
                }
            },
            Stmt::For { var_name, start, end, body, .. } => {
                let a = self.try_evaluate(start, fuel);
                match a {
                    EvalOut::Value(av) => {
                        let b = self.try_evaluate(end, fuel);
                        match b {
                            EvalOut::Value(bv) => match (av, bv) {
                                (RuntimeValue::Int(x), RuntimeValue::Int(y)) => {
                                    self.define_here(var_name.clone(), RuntimeValue::Int(0));
                                    self.for_turns(var_name, x, y, body, fuel)
                                },
                                _ => ExecOut::Flow(Flow::Normal),
                            },
                            EvalOut::Error(_) => ExecOut::Halted(Halt::Panic),
                            EvalOut::Halted(h) => ExecOut::Halted(h),
                        }
                    },
                    EvalOut::Error(_) => ExecOut::Halted(Halt::Panic),
                    EvalOut::Halted(h) => ExecOut::Halted(h),
                }
            },
            Stmt::Repeat { body, condition, .. } => self.repeat_turns(body, condition, fuel),
            Stmt::While { condition, body, .. } => self.while_turns(condition, body, fuel),
            Stmt::Expr { value, .. } => {
                let r = self.try_evaluate(value, fuel);
                match r {
                    EvalOut::Halted(h) => ExecOut::Halted(h),
                    _ => ExecOut::Flow(Flow::Normal),
                }
            },
            Stmt::IndexAssign { target, index, value, .. } => {
                let r = self.assign_element(target, index, value, fuel);
                quiet_out(r)
            },
            Stmt::FuncDecl { name, params, return_type, body, .. } => {
                let here = self.current();
                let f = self.new_function(
                    name.clone(),
                    duplicate_params(params),
                    (**body).duplicate(),
                    here,
                    dup_opt_type(return_type),
                );
                self.define_here(name.clone(), f);
                ExecOut::Flow(Flow::Normal)
            },
            Stmt::Return { value, .. } => match value {
                Some(e) => {
                    let r = self.try_evaluate(e, fuel);
                    match r {
                        EvalOut::Value(v) => ExecOut::Flow(Flow::Return(v)),
                        EvalOut::Error(_) => ExecOut::Flow(Flow::Return(RuntimeValue::Null)),
                        EvalOut::Halted(h) => ExecOut::Halted(h),
                    }
                },
                None => ExecOut::Flow(Flow::Return(RuntimeValue::Null)),
            },
            Stmt::Break { .. } => ExecOut::Flow(Flow::Break),
            Stmt::Continue { .. } => ExecOut::Flow(Flow::Continue),
        }
    }

    /// Runs the statements of a block in order until one leaves other than normally.
    #[verifier::loop_isolation(false)]
    fn run_block(&mut self, stmts: &Vec<Stmt>, fuel: u64) -> (r: ExecOut)
        requires
            old(self).wf(),
        ensures
            final(self).wf(),
            (final(self)@, r@) == exec_block(old(self)@, stmts_view(stmts@), 0, fuel as nat),
            old(self)@.scopes.len() <= final(self)@.scopes.len(),
            final(self).flags() == old(self).flags(),
        decreases fuel, stmts_size_from(stmts_view(stmts@), 0),
    {
        let ghost s0 = self@;
        let ghost sv = stmts_view(stmts@);
        proof {
            lemma_stmts_view(stmts@);
        }
        let mut i: usize = 0;
        while i < stmts.len()
            invariant
                self.wf(),
                i <= stmts@.len(),
                sv == stmts_view(stmts@),
                sv.len() == stmts@.len(),
                forall|j: int| 0 <= j < stmts@.len() ==> sv[j] == (#[trigger] stmts@[j])@,
                exec_block(self@, sv, i as int, fuel as nat) == exec_block(s0, sv, 0, fuel as nat),
                s0.scopes.len() <= self@.scopes.len(),
                self.flags() == old(self).flags(),
            decreases stmts.len() - i,
        {
            proof {
                lemma_stmt_in_list(sv, 0, i as int);
            }
            let r = self.try_execute(&stmts[i], fuel);
            match r {
                ExecOut::Flow(Flow::Normal) => {},
                _ => {
                    return r;
                },
            }
            i += 1;
        }
        ExecOut::Flow(Flow::Normal)
    }

    /// The turns of a `FOR` loop from `x` to `y`.
    #[verifier::loop_isolation(false)]
    fn for_turns(&mut self, var: &String, x: i64, y: i64, body: &Stmt, fuel: u64) -> (r: ExecOut)
        requires
            old(self).wf(),
        ensures
            final(self).wf(),
            (final(self)@, r@) == run_for(old(self)@, var@, x as int, y as int, body@, fuel as nat),
            old(self)@.scopes.len() <= final(self)@.scopes.len(),
            final(self).flags() == old(self).flags(),
        decreases fuel, stmt_size(body@),
    {
        if x > y {
            return ExecOut::Flow(Flow::Normal);
        }
        let ghost s0 = self@;
        let mut i: i64 = x;
        let mut f: u64 = fuel;
        loop
            invariant
                self.wf(),
                x <= i <= y,
                f <= fuel,
                run_for(self@, var@, i as int, y as int, body@, f as nat)
                    == run_for(s0, var@, x as int, y as int, body@, fuel as nat),
                s0.scopes.len() <= self@.scopes.len(),
                self.flags() == old(self).flags(),
            decreases f,
        {
            if f == 0 {
                return ExecOut::Halted(Halt::OutOfFuel);
            }
            self.assign_here(var, RuntimeValue::Int(i));
            let r = self.try_execute(body, f - 1);
            f = f - 1;
            match r {
                ExecOut::Halted(h) => {
                    return ExecOut::Halted(h);
                },
                ExecOut::Flow(Flow::Break) => {
                    return ExecOut::Flow(Flow::Normal);
                },
                ExecOut::Flow(Flow::Return(v)) => {
                    return ExecOut::Flow(Flow::Return(v));
                },
                _ => {},
            }
            if i == y {
                assert(run_for(self@, var@, i + 1, y as int, body@, f as nat) == (self@, ExecR::Flow(FlowV::Normal)));
                return ExecOut::Flow(Flow::Normal);
            }
            i = i + 1;
        }
    }

    /// The turns of a `WHILE` loop.
    #[verifier::loop_isolation(false)]
    fn while_turns(&mut self, c: &Expr, body: &Stmt, fuel: u64) -> (r: ExecOut)
        requires
            old(self).wf(),
        ensures
            final(self).wf(),
            (final(self)@, r@) == run_while(old(self)@, c@, body@, fuel as nat),
            old(self)@.scopes.len() <= final(self)@.scopes.len(),
            final(self).flags() == old(self).flags(),
        decreases fuel, expr_size(c@) + stmt_size(body@),
    {
        let ghost s0 = self@;
        let mut f: u64 = fuel;
        loop
            invariant
                self.wf(),
                f <= fuel,
                run_while(self@, c@, body@, f as nat) == run_while(s0, c@, body@, fuel as nat),
                s0.scopes.len() <= self@.scopes.len(),
                self.flags() == old(self).flags(),
            decreases f,
        {
            if f == 0 {
                return ExecOut::Halted(Halt::OutOfFuel);
            }
            let cr = self.try_evaluate(c, f - 1);
            match cr {
                EvalOut::Value(v) => {
                    if !value_truthy(&v) {
                        return ExecOut::Flow(Flow::Normal);
                    }
                },
                EvalOut::Error(_) => {
                    return ExecOut::Halted(Halt::Panic);
                },
                EvalOut::Halted(h) => {
                    return ExecOut::Halted(h);
                },
            }
            let r = self.try_execute(body, f - 1);
            f = f - 1;
            match r {
                ExecOut::Halted(h) => {
                    return ExecOut::Halted(h);
                },
                ExecOut::Flow(Flow::Break) => {
                    return ExecOut::Flow(Flow::Normal);
                },
                ExecOut::Flow(Flow::Return(v)) => {
                    return ExecOut::Flow(Flow::Return(v));
                },
                _ => {},
            }
        }
    }

    /// The turns of a `REPEAT` loop.
    #[verifier::loop_isolation(false)]
    fn repeat_turns(&mut self, body: &Stmt, c: &Expr, fuel: u64) -> (r: ExecOut)
        requires
            old(self).wf(),
        ensures
            final(self).wf(),
            (final(self)@, r@) == run_repeat(old(self)@, body@, c@, fuel as nat),
            old(self)@.scopes.len() <= final(self)@.scopes.len(),
            final(self).flags() == old(self).flags(),
        decreases fuel, expr_size(c@) + stmt_size(body@),
    {
        let ghost s0 = self@;
        let mut f: u64 = fuel;
        loop
            invariant
                self.wf(),
                f <= fuel,
                run_repeat(self@, body@, c@, f as nat) == run_repeat(s0, body@, c@, fuel as nat),
                s0.scopes.len() <= self@.scopes.len(),
                self.flags() == old(self).flags(),
            decreases f,
        {
            if f == 0 {
                return ExecOut::Halted(Halt::OutOfFuel);
            }
            let r = self.try_execute(body, f - 1);
            match r {
                ExecOut::Halted(h) => {
                    return ExecOut::Halted(h);
                },
                ExecOut::Flow(Flow::Break) => {
                    return ExecOut::Flow(Flow::Normal);
                },
                ExecOut::Flow(Flow::Return(v)) => {
                    return ExecOut::Flow(Flow::Return(v));
                },
                _ => {},
            }
            let cr = self.try_evaluate(c, f - 1);
            f = f - 1;
            match cr {
                EvalOut::Value(v) => {
                    if value_truthy(&v) {
                        return ExecOut::Flow(Flow::Normal);
                    }
                },
                EvalOut::Error(_) => {
                    return ExecOut::Halted(Halt::Panic);
                },
                EvalOut::Halted(h) => {
                    return ExecOut::Halted(h);
                },
            }
        }
    }

    /// Evaluates `value` and gives it to the variable `name` where it is bound.
    fn assign_value(&mut self, name: &String, value: &Expr, fuel: u64) -> (r: UnitOut)
        requires
            old(self).wf(),
        ensures
            final(self).wf(),
            (final(self)@, r@) == set_var(old(self)@, name@, value@, fuel as nat),
            old(self)@.scopes.len() <= final(self)@.scopes.len(),
            final(self).flags() == old(self).flags(),
        decreases fuel, expr_size(value@) + 1,
    {
        let r = self.try_evaluate(value, fuel);
        match r {
            EvalOut::Value(v) => {
                if self.assign_here(name, v) {
                    UnitOut::Done
                } else {
                    UnitOut::Error(CpcError::Runtime {
                        span: None,
                        kind: RuntimeErrorKind::AssignToUndefined(name.clone()),
                    })
                }
            },
            EvalOut::Error(e) => UnitOut::Error(e),
            EvalOut::Halted(h) => UnitOut::Halted(h),
        }
    }

    /// Prints the values of `exprs`, each followed by a space, then a line break.
    #[verifier::loop_isolation(false)]
    fn print_values(&mut self, exprs: &Vec<Expr>, fuel: u64) -> (r: UnitOut)
        requires
            old(self).wf(),
        ensures
            final(self).wf(),
            (final(self)@, r@) == print_items(old(self)@, exprs_view(exprs@), 0, fuel as nat),
            old(self)@.scopes.len() <= final(self)@.scopes.len(),
            final(self).flags() == old(self).flags(),
        decreases fuel, exprs_size_from(exprs_view(exprs@), 0),
    {
        let ghost s0 = self@;
        let ghost ev = exprs_view(exprs@);
        proof {
            lemma_exprs_view(exprs@);
        }
        let mut i: usize = 0;
        while i < exprs.len()
            invariant
                self.wf(),
                i <= exprs@.len(),
                ev == exprs_view(exprs@),
                ev.len() == exprs@.len(),
                forall|j: int| 0 <= j < exprs@.len() ==> ev[j] == (#[trigger] exprs@[j])@,
                print_items(self@, ev, i as int, fuel as nat) == print_items(s0, ev, 0, fuel as nat),
                s0.scopes.len() <= self@.scopes.len(),
                self.flags() == old(self).flags(),
            decreases exprs.len() - i,
        {
            proof {
                lemma_expr_in_list(ev, 0, i as int);
            }
            let r = self.try_evaluate(&exprs[i], fuel);
            match r {
                EvalOut::Value(v) => {
                    let d = self.depth_bound();
                    match self.render_value(&v, d) {
                        Ok(p) => {
                            let ghost pv = pieces_view(p@);
                            let mut p = p;
                            p.push(text_piece(" "));
                            assert(pieces_view(p@) =~= pv + seq![crate::semantics::PieceV::Text(" "@)]);
                            self.emit_pieces(p);
                        },
                        Err(h) => {
                            return UnitOut::Halted(h);
                        },
                    }
                },
                EvalOut::Error(e) => {
                    return UnitOut::Error(e);
                },
                EvalOut::Halted(h) => {
                    return UnitOut::Halted(h);
                },
            }
            i += 1;
        }
        let mut nl: Vec<OutPiece> = Vec::new();
        nl.push(text_piece("\n"));
        assert(pieces_view(nl@) =~= seq![crate::semantics::PieceV::Text("\n"@)]);
        self.emit_pieces(nl);
        UnitOut::Done
    }

    /// `target[index] <- value`: the value, the index and the target are
    /// evaluated in that order, then the element is stored.
    fn assign_element(&mut self, target: &Expr, index: &Expr, value: &Expr, fuel: u64) -> (r: UnitOut)
        requires
            old(self).wf(),
        ensures
            final(self).wf(),
            (final(self)@, r@) == index_set(old(self)@, target@, index@, value@, fuel as nat),
            old(self)@.scopes.len() <= final(self)@.scopes.len(),
            final(self).flags() == old(self).flags(),
        decreases fuel, expr_size(target@) + expr_size(index@) + expr_size(value@) + 1,
    {
        let vr = self.try_evaluate(value, fuel);
        match vr {
            EvalOut::Value(v) => {
                let ir = self.try_evaluate(index, fuel);
                match ir {
                    EvalOut::Value(iv) => {
                        let tr = self.try_evaluate(target, fuel);
                        match tr {
                            EvalOut::Value(tv) => self.store_element(&tv, &iv, v),
                            EvalOut::Error(e) => UnitOut::Error(e),
                            EvalOut::Halted(h) => UnitOut::Halted(h),
                        }
                    },
                    EvalOut::Error(e) => UnitOut::Error(e),
                    EvalOut::Halted(h) => UnitOut::Halted(h),
                }
            },
            EvalOut::Error(e) => UnitOut::Error(e),
            EvalOut::Halted(h) => UnitOut::Halted(h),
        }
    }
}

/// The budget of loop turns and calls of the entry points that do not report
/// halts: as many as a `u64` counts.
pub const STEP_LIMIT: u64 = 0xffff_ffff_ffff_ffff;

/// The content of a result that holds a value or an error.
pub open spec fn eval_view(r: CpcResult<RuntimeValue>) -> EvalR {
    match r {
        Ok(v) => EvalR::Value(v@),
        Err(e) => EvalR::Error(e@),
    }
}

/// The content of a result that holds nothing or an error.
pub open spec fn unit_view(r: CpcResult<()>) -> UnitR {
    match r {
        Ok(_) => UnitR::Done,
        Err(e) => UnitR::Error(e@),
    }
}

impl Interpreter {
    /// The truth of a value in a condition: a true boolean, or a number other
    /// than zero; every other value is false.
    pub fn runtime2bool(&self, val: RuntimeValue) -> (r: bool)
        ensures
            r == truthy(val@),
    {
        value_truthy(&val)
    }

    /// The value of `expr`, or the error it gives.
    pub fn evaluate(&mut self, expr: Expr) -> (r: CpcResult<RuntimeValue>)
        requires
            old(self).wf(),
            !(eval(old(self)@, expr@, STEP_LIMIT as nat).1 is Halted),
        ensures
            final(self).wf(),
            (final(self)@, eval_view(r)) == eval(old(self)@, expr@, STEP_LIMIT as nat),
            final(self).flags() == old(self).flags(),
    {
        match self.try_evaluate(&expr, STEP_LIMIT) {
            EvalOut::Value(v) => Ok(v),
            EvalOut::Error(e) => Err(e),
            EvalOut::Halted(_) => vstd::pervasive::unreached(),
        }
    }

    /// `op value` for a prefix operator: the negation of a number, or the
    /// negation of a boolean; any other pairing is an error.
    pub fn unary_op(&self, op: Op, value: RuntimeValue) -> (r: CpcResult<RuntimeValue>)
        requires
            !(unary_result(self@, op, value@) is Halted),
        ensures
            eval_view(r) == unary_result(self@, op, value@),
    {
        match self.unary_out(op, &value) {
            EvalOut::Value(v) => Ok(v),
            EvalOut::Error(e) => Err(e),
            EvalOut::Halted(_) => vstd::pervasive::unreached(),
        }
    }

    /// `left op right` for an infix operator.
    pub fn binary_op(&self, left: RuntimeValue, op: Op, right: RuntimeValue) -> (r: CpcResult<RuntimeValue>)
        requires
            !(binary_result(self@, left@, op, right@) is Halted),
        ensures
            eval_view(r) == binary_result(self@, left@, op, right@),
    {
        match self.binary_out(&left, op, &right) {
            EvalOut::Value(v) => Ok(v),
            EvalOut::Error(e) => Err(e),
            EvalOut::Halted(_) => vstd::pervasive::unreached(),
        }
    }

    /// The value of the variable `name` as the current scope sees it, or the
    /// error that it is undefined.
    pub fn get(&mut self, name: String) -> (r: CpcResult<RuntimeValue>)
        requires
            old(self).wf(),
        ensures
            final(self)@ == old(self)@,
            final(self).wf(),
            eval_view(r) == match lookup(old(self)@.scopes, old(self)@.current as int, name@) {
                Some(v) => EvalR::Value(v),
                None => EvalR::Error(rt_err(KindV::UndefinedVariable(name@))),
            },
            final(self).flags() == old(self).flags(),
    {
        match self.lookup_var(&name) {
            Some(v) => Ok(v),
            None => Err(CpcError::Runtime { span: None, kind: RuntimeErrorKind::UndefinedVariable(name) }),
        }
    }

    /// Evaluates `value` and gives it to the variable `name` in the nearest
    /// scope that binds it; the error of the value, or that `name` is bound
    /// nowhere.
    pub fn set(&mut self, name: String, value: Expr) -> (r: CpcResult<()>)
        requires
            old(self).wf(),
            !(set_var(old(self)@, name@, value@, STEP_LIMIT as nat).1 is Halted),
        ensures
            final(self).wf(),
            (final(self)@, unit_view(r)) == set_var(old(self)@, name@, value@, STEP_LIMIT as nat),
            final(self).flags() == old(self).flags(),
    {
        match self.assign_value(&name, &value, STEP_LIMIT) {
            UnitOut::Done => Ok(()),
            UnitOut::Error(e) => Err(e),
            UnitOut::Halted(_) => vstd::pervasive::unreached(),
        }
    }

    /// Declares `name` in the current scope with the starting value of `var_type`.
    pub fn define(&mut self, name: String, var_type: Type) -> (r: CpcResult<()>)
        requires
            old(self).wf(),
        ensures
            final(self).wf(),
            (final(self)@, unit_view(r)) == declare(old(self)@, name@, var_type@),
            final(self).flags() == old(self).flags(),
    {
        match self.default_type_value(&var_type) {
            Ok(v) => {
                self.define_here(name, v);
                Ok(())
            },
            Err(e) => Err(e),
        }
    }

    /// Prints the values of `value`, each followed by a space, then a line break.
    pub fn print(&mut self, value: Vec<Expr>) -> (r: CpcResult<()>)
        requires
            old(self).wf(),
            !(print_items(old(self)@, exprs_view(value@), 0, STEP_LIMIT as nat).1 is Halted),
        ensures
            final(self).wf(),
            (final(self)@, unit_view(r)) == print_items(old(self)@, exprs_view(value@), 0, STEP_LIMIT as nat),
            final(self).flags() == old(self).flags(),
    {
        match self.print_values(&value, STEP_LIMIT) {
            UnitOut::Done => Ok(()),
            UnitOut::Error(e) => Err(e),
            UnitOut::Halted(_) => vstd::pervasive::unreached(),
        }
    }

    /// `target[index] <- value`.
    pub fn index_set(&mut self, target: Expr, index: Expr, value: Expr) -> (r: CpcResult<()>)
        requires
            old(self).wf(),
            !(index_set(old(self)@, target@, index@, value@, STEP_LIMIT as nat).1 is Halted),
        ensures
            final(self).wf(),
            (final(self)@, unit_view(r)) == index_set(old(self)@, target@, index@, value@, STEP_LIMIT as nat),
            final(self).flags() == old(self).flags(),
    {
        match self.assign_element(&target, &index, &value, STEP_LIMIT) {
            UnitOut::Done => Ok(()),
            UnitOut::Error(e) => Err(e),
            UnitOut::Halted(_) => vstd::pervasive::unreached(),
        }
    }

    /// Runs `stmt` and tells how control leaves it.
    pub fn execute(&mut self, stmt: Stmt) -> (r: Flow)
        requires
            old(self).wf(),
            !(exec(old(self)@, stmt@, STEP_LIMIT as nat).1 is Halted),
        ensures
            final(self).wf(),
            (final(self)@, ExecR::Flow(r@)) == exec(old(self)@, stmt@, STEP_LIMIT as nat),
            final(self).flags() == old(self).flags(),
    {
        match self.try_execute(&stmt, STEP_LIMIT) {
            ExecOut::Flow(f) => f,
            ExecOut::Halted(_) => vstd::pervasive::unreached(),
        }
    }

    /// `IF condition THEN true_body ELSE false_body ENDIF`.
    pub fn if_stmt(&mut self, condition: Expr, true_body: Box<Stmt>, false_body: Option<Box<Stmt>>) -> (r: Flow)
        requires
            old(self).wf(),
            !(exec(
                old(self)@,
                (Stmt::If { condition, true_body, false_body, span: None })@,
                STEP_LIMIT as nat,
            ).1 is Halted),
        ensures
            final(self).wf(),
            (final(self)@, ExecR::Flow(r@)) == exec(
                old(self)@,
                (Stmt::If { condition, true_body, false_body, span: None })@,
                STEP_LIMIT as nat,
            ),
            final(self).flags() == old(self).flags(),
    {
        self.execute(Stmt::If { condition, true_body, false_body, span: None })
    }

    /// `FOR var_name <- start TO end ... NEXT`.
    pub fn for_stmt(&mut self, var_name: String, start: Expr, end: Expr, body: Box<Stmt>, span: Option<Span>) -> (r: Flow)
        requires
            old(self).wf(),
            !(exec(
                old(self)@,
                (Stmt::For { var_name, start, end, body, span })@,
                STEP_LIMIT as nat,
            ).1 is Halted),
        ensures
            final(self).wf(),
            (final(self)@, ExecR::Flow(r@)) == exec(
                old(self)@,
                (Stmt::For { var_name, start, end, body, span })@,
                STEP_LIMIT as nat,
            ),
            final(self).flags() == old(self).flags(),
    {
        self.execute(Stmt::For { var_name, start, end, body, span })
    }

    /// `WHILE condition ... ENDWHILE`.
    pub fn while_stmt(&mut self, condition: Expr, body: Box<Stmt>) -> (r: Flow)
        requires
            old(self).wf(),
            !(exec(old(self)@, (Stmt::While { condition, body, span: None })@, STEP_LIMIT as nat).1 is Halted),
        ensures
            final(self).wf(),
            (final(self)@, ExecR::Flow(r@)) == exec(
                old(self)@,
                (Stmt::While { condition, body, span: None })@,
                STEP_LIMIT as nat,
            ),
            final(self).flags() == old(self).flags(),
    {
        self.execute(Stmt::While { condition, body, span: None })
    }

    /// `REPEAT ... UNTIL condition`.
    pub fn repeat_stmt(&mut self, body: Box<Stmt>, condition: Expr) -> (r: Flow)
        requires
            old(self).wf(),
            !(exec(old(self)@, (Stmt::Repeat { body, condition, span: None })@, STEP_LIMIT as nat).1 is Halted),
        ensures
            final(self).wf(),
            (final(self)@, ExecR::Flow(r@)) == exec(
                old(self)@,
                (Stmt::Repeat { body, condition, span: None })@,
                STEP_LIMIT as nat,
            ),
            final(self).flags() == old(self).flags(),
    {
        self.execute(Stmt::Repeat { body, condition, span: None })
    }

    /// Calls the function bound to `name` with the values of `args`. A name
    /// that is not a function, a wrong number of arguments, an argument that
    /// gives an error, or a body that ends without `RETURN` all give `NULL`.
    pub fn call_func(&mut self, name: String, args: Vec<Expr>) -> (r: RuntimeValue)
        requires
            old(self).wf(),
            !(eval(old(self)@, (Expr::Call { name, args, span: None })@, STEP_LIMIT as nat).1 is Halted),
        ensures
            final(self).wf(),
            (final(self)@, EvalR::Value(r@)) == eval(
                old(self)@,
                (Expr::Call { name, args, span: None })@,
                STEP_LIMIT as nat,
            ),
            final(self).flags() == old(self).flags(),
    {
        let call = Expr::Call { name, args, span: None };
        proof {
            lemma_call_gives_no_error(self@, call@, STEP_LIMIT as nat);
        }
        match self.try_evaluate(&call, STEP_LIMIT) {
            EvalOut::Value(v) => v,
            EvalOut::Error(_) => vstd::pervasive::unreached(),
            EvalOut::Halted(_) => vstd::pervasive::unreached(),
        }
    }
}

} // verus!
