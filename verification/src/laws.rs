//! What holds of the library across its operations: reading a variable after
//! it is declared or assigned, reading an element after it is stored, the
//! relations between the operators, and the shape of what the lexer gives.
use vstd::prelude::*;
use crate::ast::{ExprV, Op, StmtV};
use crate::config::ParseConfig;
use crate::runtime::{TypeV, Val};
use crate::store::{ArrayV, ScopeV};
use crate::semantics::{
    IState, EvalR, UnitR, ExecR, FlowV, lookup, find_scope, bind_in, assign_var, assign_at, define_var, default_value, default_fill,
    declare, store_result, index_result, lemma_find_scope_valid, eval, exec, exec_block, run_for, run_while, run_repeat,
    invoke, eval_args, binary_result, enter, push_scope, bind_args,
};
use crate::ops::{OpResult, spec_binary, spec_unary, trunc_div, trunc_rem, iabs, truthy, SIGN_BIT};
use crate::ast::Span;
use crate::text::{upper_of, lower_of, all_ascii, ascii_upper, is_digit};
use crate::token::{TokenKindV, TokenV, assoc, keyword_entries, operator_entries};
use crate::lexing::{
    Cursor, lex_all, next_token, word_kind, op_run, span_at, start_cursor, is_word_start, lemma_step_n,
    lemma_next_token_moves,
};
use crate::error::ErrV;

verus! {

/// Making the starting value of a type touches neither the scopes nor the
/// current scope.
pub proof fn lemma_default_value_keeps_scopes(s: IState, t: TypeV)
    ensures
        default_value(s, t).0.scopes == s.scopes,
        default_value(s, t).0.current == s.current,
    decreases t, 0int,
{
    if let TypeV::Array(et, start, end) = t {
        lemma_default_fill_keeps_scopes(s, *et, crate::semantics::array_size(start, end) as int, Seq::empty());
    }
}

/// Making starting values for an array touches neither the scopes nor the
/// current scope.
pub proof fn lemma_default_fill_keeps_scopes(s: IState, t: TypeV, n: int, acc: Seq<Val>)
    ensures
        default_fill(s, t, n, acc).0.scopes == s.scopes,
        default_fill(s, t, n, acc).0.current == s.current,
    decreases t, n,
{
    if n > 0 {
        lemma_default_value_keeps_scopes(s, t);
        let (s1, r) = default_value(s, t);
        if let Ok(v) = r {
            lemma_default_fill_keeps_scopes(s1, t, n - 1, acc.push(v));
        }
    }
}

/// A name bound in scope `id` is seen from `id` with its value.
pub proof fn lemma_lookup_bound_here(s: IState, id: int, name: Seq<char>, v: Val)
    requires
        0 <= id < s.scopes.len(),
    ensures
        lookup(bind_in(s, id, name, v).scopes, id, name) == Some(v),
{
}

/// Seen from `start`, a name has a value exactly where some scope on the way
/// out binds it, and binding it anew where it was found gives the new value.
pub proof fn lemma_lookup_after_assign(scopes: Seq<ScopeV>, start: int, name: Seq<char>, v: Val)
    ensures
        lookup(scopes, start, name) is Some <==> find_scope(scopes, start, name) is Some,
        find_scope(scopes, start, name) matches Some(j) ==> j <= start,
        find_scope(scopes, start, name) matches Some(j) ==> lookup(
            scopes.update(j, ScopeV { vars: scopes[j].vars.insert(name, v), parent: scopes[j].parent }),
            start,
            name,
        ) == Some(v),
    decreases start,
{
    lemma_find_scope_valid(scopes, start, name);
    if 0 <= start < scopes.len() && !scopes[start].vars.dom().contains(name) {
        if let Some(p) = scopes[start].parent {
            if p < start {
                lemma_lookup_after_assign(scopes, p as int, name, v);
                if let Some(j) = find_scope(scopes, start, name) {
                    let scopes2 = scopes.update(j, ScopeV { vars: scopes[j].vars.insert(name, v), parent: scopes[j].parent });
                    assert(scopes2[start] == scopes[start]);
                }
            }
        }
    }
}

/// A variable declared in the current scope is then seen there with the
/// starting value of its type; a type without one leaves the declaration
/// failed.
pub proof fn law_define_then_get(s: IState, name: Seq<char>, t: TypeV)
    requires
        s.current < s.scopes.len(),
    ensures
        match default_value(s, t).1 {
            Ok(v) => declare(s, name, t).1 == UnitR::Done
                && lookup(declare(s, name, t).0.scopes, s.current as int, name) == Some(v),
            Err(e) => declare(s, name, t).1 == UnitR::Error(e),
        },
{
    lemma_default_value_keeps_scopes(s, t);
    let (s1, r) = default_value(s, t);
    if let Ok(v) = r {
        lemma_lookup_bound_here(s1, s.current as int, name, v);
    }
}

/// Assigning a variable succeeds exactly when the current scope sees it, and
/// then the current scope sees the new value.
pub proof fn law_set_then_get(s: IState, name: Seq<char>, v: Val)
    ensures
        assign_var(s, name, v).1 <==> lookup(s.scopes, s.current as int, name) is Some,
        assign_var(s, name, v).1 ==> lookup(assign_var(s, name, v).0.scopes, s.current as int, name) == Some(v),
        !assign_var(s, name, v).1 ==> assign_var(s, name, v).0 == s,
{
    lemma_lookup_after_assign(s.scopes, s.current as int, name, v);
}

/// Assigning `name` as scope `start` sees it succeeds exactly when some scope
/// from `start` outwards binds `name`. Then the nearest such scope, and it
/// alone, now binds `name` to the new value, which `start` then sees; every
/// other binding, scope, array, function and output stays. Otherwise nothing
/// changes: an assignment never makes a binding.
pub proof fn law_assign_from_scope(s: IState, start: int, name: Seq<char>, v: Val)
    ensures
        assign_at(s, start, name, v).1 <==> lookup(s.scopes, start, name) is Some,
        assign_at(s, start, name, v).1 ==> lookup(assign_at(s, start, name, v).0.scopes, start, name) == Some(v),
        find_scope(s.scopes, start, name) matches Some(id) ==> {
            let t = assign_at(s, start, name, v).0;
            &&& s.scopes[id].vars.dom().contains(name)
            &&& lookup(s.scopes, start, name) == Some(s.scopes[id].vars[name])
            &&& t.scopes.len() == s.scopes.len()
            &&& t.scopes[id].vars == s.scopes[id].vars.insert(name, v)
            &&& t.scopes[id].parent == s.scopes[id].parent
            &&& forall|j: int| 0 <= j < s.scopes.len() && j != id ==> #[trigger] t.scopes[j] == s.scopes[j]
            &&& t.arrays == s.arrays && t.funcs == s.funcs && t.current == s.current && t.out == s.out
        },
        !assign_at(s, start, name, v).1 ==> assign_at(s, start, name, v).0 == s,
{
    lemma_lookup_after_assign(s.scopes, start, name, v);
    lemma_find_scope_binds(s.scopes, start, name);
}

/// The scope that `find_scope` gives lies in the store, binds the name, and
/// holds the value that `lookup` gives.
proof fn lemma_find_scope_binds(scopes: Seq<ScopeV>, start: int, name: Seq<char>)
    ensures
        find_scope(scopes, start, name) matches Some(id) ==> 0 <= id < scopes.len() && scopes[id].vars.dom().contains(
            name,
        ) && lookup(scopes, start, name) == Some(scopes[id].vars[name]),
    decreases start,
{
    if 0 <= start < scopes.len() && !scopes[start].vars.dom().contains(name) {
        if let Some(p) = scopes[start].parent {
            if p < start {
                lemma_find_scope_binds(scopes, p as int, name);
            }
        }
    }
}

/// An element stored into an array is then read back from the same index.
pub proof fn law_store_then_index(s: IState, a: usize, k: i64, v: Val, span: Option<Span>)
    ensures
        store_result(s, Val::Array(a), Val::Int(k), v).1 == UnitR::Done ==> index_result(
            store_result(s, Val::Array(a), Val::Int(k), v).0,
            Val::Array(a),
            Val::Int(k),
            span,
        ) == EvalR::Value(v),
{
}

/// Storing into an array leaves every other element, and every other array,
/// as it was.
pub proof fn law_store_keeps_others(s: IState, a: usize, k: i64, v: Val, b: usize, m: i64, span: Option<Span>)
    requires
        store_result(s, Val::Array(a), Val::Int(k), v).1 == UnitR::Done,
        b != a || (m as usize) != (k as usize),
    ensures
        index_result(store_result(s, Val::Array(a), Val::Int(k), v).0, Val::Array(b), Val::Int(m), span)
            == index_result(s, Val::Array(b), Val::Int(m), span),
{
}

/// `<>` answers the opposite of `=`, for values of every type.
pub proof fn law_neq_is_not_eq(l: Val, r: Val)
    ensures
        spec_binary(l, Op::Eq, r) matches OpResult::Value(Val::Bool(x))
            ==> spec_binary(l, Op::Neq, r) == OpResult::Value(Val::Bool(!x)),
        spec_binary(l, Op::Eq, r) is Invalid <==> spec_binary(l, Op::Neq, r) is Invalid,
{
}

/// `l > r` is `r < l`, and `l >= r` is `r <= l`, for numbers and strings
/// alike.
pub proof fn law_comparisons_converse(l: Val, r: Val)
    ensures
        (spec_binary(l, Op::Gt, r) is Value) ==> spec_binary(l, Op::Gt, r) == spec_binary(r, Op::Lt, l),
        (spec_binary(l, Op::Gte, r) is Value) ==> spec_binary(l, Op::Gte, r) == spec_binary(r, Op::Lte, l),
{
}

/// Integer `DIV` and `MOD` agree as Rust's `/` and `%` do: the quotient rounds toward zero
/// and the remainder takes the sign of the dividend.
pub proof fn law_div_mod(a: i64, b: i64)
    requires
        b != 0,
        !(a == i64::MIN && b == -1),
    ensures
        spec_binary(Val::Int(a), Op::FullDiv, Val::Int(b)) matches OpResult::Value(Val::Int(q))
            && spec_binary(Val::Int(a), Op::Mod, Val::Int(b)) matches OpResult::Value(Val::Int(m))
            && a == q * b + m
            && iabs(m as int) < iabs(b as int)
            && (m == 0 || (m < 0) == (a < 0)),
{
    let q = trunc_div(a as int, b as int);
    let m = trunc_rem(a as int, b as int);
    let x = iabs(a as int);
    let y = iabs(b as int);
    assert(y > 0);
    assert(0 <= x % y < y) by (nonlinear_arith)
        requires
            y > 0,
    ;
    assert(x == (x / y) * y + x % y) by (nonlinear_arith)
        requires
            y > 0,
    ;
    assert(0 <= x / y <= x) by (nonlinear_arith)
        requires
            y > 0,
            x >= 0,
    ;
    assert(m == (if a < 0 { -(x % y) } else { x % y })) by (nonlinear_arith)
        requires
            q == (if (a < 0) != (b < 0) { -(x / y) } else { x / y }),
            m == a - b * q,
            x == (if a < 0 { -a } else { a as int }),
            y == (if b < 0 { -b } else { b as int }),
            x == (x / y) * y + x % y,
    ;
    assert(i64::MIN <= q <= i64::MAX) by (nonlinear_arith)
        requires
            q == (if (a < 0) != (b < 0) { -(x / y) } else { x / y }),
            0 <= x / y <= x,
            x == (if a < 0 { -a } else { a as int }),
            !(a == i64::MIN && b == -1),
            y == (if b < 0 { -b } else { b as int }),
            y >= 1,
            x <= 0x8000_0000_0000_0000,
            x == (x / y) * y + x % y,
            0 <= x % y < y,
    ;
    assert(a == q * b + m) by (nonlinear_arith)
        requires
            m == a - b * q,
    ;
}

/// Negating a number twice gives it back.
pub proof fn law_neg_twice(v: Val)
    ensures
        spec_unary(Op::Neg, v) matches OpResult::Value(w) ==> (
            spec_unary(Op::Neg, w) matches OpResult::Value(x) && x == v),
{
    if let Val::Float(b) = v {
        assert((b ^ SIGN_BIT) ^ SIGN_BIT == b) by (bit_vector);
    }
}

/// A text that lexes without error gives tokens that end with `EOF`.
pub proof fn law_tokens_end_with_eof(input: Seq<char>, config: ParseConfig, p: Cursor)
    ensures
        lex_all(input, config, p) matches Ok(ts) ==> ts.len() > 0 && ts[ts.len() - 1].kind == TokenKindV::EOF,
    decreases input.len() - p.pos,
{
    if 0 <= p.pos < input.len() {
        lemma_next_token_moves(input, config, p);
        let (q, r) = next_token(input, config, p);
        if let Ok(t) = r {
            law_tokens_end_with_eof(input, config, q);
            if let Ok(ts) = lex_all(input, config, q) {
                assert((seq![t] + ts)[ts.len() as int] == ts[ts.len() - 1]);
            }
        }
    }
}

/// Keywords and word operators are read whatever their case: two names with
/// the same upper-case form, where that form is a keyword or an operator,
/// give the same token.
pub proof fn law_keywords_ignore_case(config: ParseConfig, w1: Seq<char>, w2: Seq<char>)
    requires
        upper_of(w1) == upper_of(w2),
        assoc(keyword_entries(config), upper_of(w1)) is Some || assoc(operator_entries(config), upper_of(w1)) is Some,
    ensures
        word_kind(config, w1) == word_kind(config, w2),
{
}

/// A name that is neither keyword nor operator keeps its spelling where the
/// dialect tells case apart, and is folded to lower case where it does not.
pub proof fn law_names_fold_case(config: ParseConfig, w: Seq<char>)
    requires
        assoc(keyword_entries(config), upper_of(w)) is None,
        assoc(operator_entries(config), upper_of(w)) is None,
    ensures
        word_kind(config, w) == TokenKindV::Identifier(if config.case_sensitive { w } else { lower_of(w) }),
{
}

/// `/` on two integers is ordinary division: its result is a real number,
/// which the core does not compute; `DIV` is the integer division.
pub proof fn law_int_slash_is_real_division(a: i64, b: i64)
    ensures
        spec_binary(Val::Int(a), Op::Div, Val::Int(b)) == OpResult::Real,
{
}

/// A binary expression evaluates its left operand first; where that gives no
/// value, that is the result and the right operand is not evaluated; else the
/// right operand is evaluated in the state the left one left, and where it
/// gives a value the operator is applied to the two values.
pub proof fn law_binary_left_first(s: IState, l: ExprV, op: Op, r: ExprV, span: Option<Span>, fuel: nat)
    ensures
        !(eval(s, l, fuel).1 is Value) ==> eval(
            s,
            ExprV::Binary { left: Box::new(l), op, right: Box::new(r), span },
            fuel,
        ) == eval(s, l, fuel),
        eval(s, l, fuel).1 matches EvalR::Value(lv) ==> ({
            let s1 = eval(s, l, fuel).0;
            let (s2, rr) = eval(s1, r, fuel);
            eval(s, ExprV::Binary { left: Box::new(l), op, right: Box::new(r), span }, fuel) == (
                s2,
                match rr {
                    EvalR::Value(rv) => binary_result(s2, lv, op, rv),
                    _ => rr,
                },
            )
        }),
{
}

/// A block stops at the first statement that leaves other than normally:
/// that statement's outcome is the block's, and the later ones do not run.
pub proof fn law_block_stops_at_first_exit(s: IState, stmts: Seq<StmtV>, i: int, fuel: nat)
    requires
        0 <= i < stmts.len(),
    ensures
        exec(s, stmts[i], fuel).1 != ExecR::Flow(FlowV::Normal) ==> exec_block(s, stmts, i, fuel) == exec(
            s,
            stmts[i],
            fuel,
        ),
        exec(s, stmts[i], fuel).1 == ExecR::Flow(FlowV::Normal) ==> exec_block(s, stmts, i, fuel) == exec_block(
            exec(s, stmts[i], fuel).0,
            stmts,
            i + 1,
            fuel,
        ),
{
}

/// A block runs its statements in a new scope nested in the current one, and
/// afterwards the scope that was current is current again, whatever flow ends
/// the block.
pub proof fn law_block_runs_in_child_scope(s: IState, stmts: Seq<StmtV>, fuel: nat)
    ensures
        exec(s, StmtV::Block { stmts }, fuel).1 == exec_block(
            enter(push_scope(s, s.current as usize), s.scopes.len()),
            stmts,
            0,
            fuel,
        ).1,
        exec(s, StmtV::Block { stmts }, fuel).0.current == s.current,
{
}

/// A call hands its caller a value, never a flow: a body that ends with
/// `RETURN v` gives `v`, one that ends with `BREAK`, `CONTINUE` or normally
/// gives `NULL`, and the caller's scope is current again afterwards.
pub proof fn law_call_flow_stays_inside(s: IState, name: Seq<char>, vals: Seq<Option<Val>>, fuel: nat)
    ensures
        invoke(s, name, vals, fuel).1 is Value || invoke(s, name, vals, fuel).1 is Halted,
        invoke(s, name, vals, fuel).0.current == s.current,
        lookup(s.scopes, s.current as int, name) matches Some(Val::Func(f)) ==> (
            f < s.funcs.len() && vals.len() == s.funcs[f as int].params.len() && fuel > 0 ==> ({
                let fo = s.funcs[f as int];
                let child = s.scopes.len() as int;
                let (s2, bound) = bind_args(push_scope(s, fo.closure), child, fo.params, vals, 0);
                bound ==> match exec(enter(s2, child as nat), fo.body, (fuel - 1) as nat).1 {
                    ExecR::Flow(FlowV::Return(v)) => invoke(s, name, vals, fuel).1 == EvalR::Value(v),
                    ExecR::Flow(_) => invoke(s, name, vals, fuel).1 == EvalR::Value(Val::Null),
                    ExecR::Halted(h) => invoke(s, name, vals, fuel).1 == EvalR::Halted(h),
                }
            })),
{
    if let Some(Val::Func(f)) = lookup(s.scopes, s.current as int, name) {
        if f < s.funcs.len() {
            let fo = s.funcs[f as int];
            crate::scoping::lemma_bind_args_frame(push_scope(s, fo.closure), s.scopes.len() as int, fo.params, vals, 0);
        }
    }
}

/// In a state whose current scope exists, a `FOR` loop whose bounds give the
/// integers `x` and `y` first declares its variable in the current scope,
/// where it is then seen, and runs its turns
/// from `x` to `y`; bounds that give other values run no turn.
pub proof fn law_for_declares_variable(
    s: IState,
    var_name: Seq<char>,
    start: ExprV,
    end: ExprV,
    body: StmtV,
    fuel: nat,
)
    requires
        s.current < s.scopes.len(),
    ensures
        eval(s, start, fuel).1 matches EvalR::Value(a) ==> ({
            let s1 = eval(s, start, fuel).0;
            let (s2, r2) = eval(s1, end, fuel);
            let st = StmtV::For { var_name, start, end, body: Box::new(body) };
            r2 matches EvalR::Value(b) ==> match (a, b) {
                (Val::Int(x), Val::Int(y)) => {
                    let s3 = define_var(s2, var_name, Val::Int(0));
                    &&& exec(s, st, fuel) == run_for(s3, var_name, x as int, y as int, body, fuel)
                    &&& lookup(s3.scopes, s3.current as int, var_name) is Some
                },
                _ => exec(s, st, fuel) == (s2, ExecR::Flow(FlowV::Normal)),
            }
        }),
{
    let s1 = eval(s, start, fuel).0;
    crate::scoping::lemma_eval_follows(s, start, fuel);
    crate::scoping::lemma_eval_follows(s1, end, fuel);
    let s2 = eval(s1, end, fuel).0;
    assert(define_var(s2, var_name, Val::Int(0)).scopes[s2.current as int].vars.dom().contains(var_name));
}

/// Binding arguments from position `i` on: where every argument from there
/// has a value, the binding succeeds and the scope binds the `k`-th
/// parameter to the `k`-th argument (the names being distinct), keeping every
/// other name as it was; where one has none, the binding fails.
proof fn lemma_bind_args_positions(
    s: IState,
    id: int,
    params: Seq<(Seq<char>, TypeV)>,
    vals: Seq<Option<Val>>,
    i: int,
)
    requires
        0 <= id < s.scopes.len(),
        0 <= i <= params.len(),
        vals.len() == params.len(),
        forall|a: int, b: int| 0 <= a < b < params.len() ==> params[a].0 != params[b].0,
    ensures
        bind_args(s, id, params, vals, i).1 <==> forall|k: int| i <= k < vals.len() ==> (#[trigger] vals[k]) is Some,
        bind_args(s, id, params, vals, i).1 ==> forall|k: int|
            i <= k < params.len() ==> bind_args(s, id, params, vals, i).0.scopes[id].vars.dom().contains(
                (#[trigger] params[k]).0,
            ) && bind_args(s, id, params, vals, i).0.scopes[id].vars[params[k].0] == vals[k]->Some_0,
        bind_args(s, id, params, vals, i).1 ==> forall|name: Seq<char>|
            (forall|k: int| i <= k < params.len() ==> (#[trigger] params[k]).0 != name) ==> (
            #[trigger] bind_args(s, id, params, vals, i).0.scopes[id].vars.dom().contains(name)
                == s.scopes[id].vars.dom().contains(name) && (s.scopes[id].vars.dom().contains(name)
                ==> bind_args(s, id, params, vals, i).0.scopes[id].vars[name] == s.scopes[id].vars[name])),
    decreases params.len() - i,
{
    if i < params.len() {
        match vals[i] {
            Some(v) => {
                let t = bind_in(s, id, params[i].0, v);
                lemma_bind_args_positions(t, id, params, vals, i + 1);
                let r = bind_args(t, id, params, vals, i + 1);
                if r.1 {
                    assert(forall|k: int| i + 1 <= k < params.len() ==> (#[trigger] params[k]).0 != params[i].0);
                    assert(t.scopes[id].vars.dom().contains(params[i].0));
                }
                assert forall|k: int| i <= k < vals.len() && k != i && (#[trigger] vals[k]) is Some implies i + 1
                    <= k by {}
            },
            None => {
                assert(!(vals[i] is Some));
            },
        }
    }
}

/// A call binds each parameter of the function to the argument at the same
/// place: when the arguments all have values, as many as the parameters, and
/// the parameter names are distinct, the new scope of the call binds the
/// `k`-th parameter to the `k`-th argument, and the binding fails where some
/// argument has no value.
pub proof fn law_arguments_bind_in_order(
    s: IState,
    id: int,
    params: Seq<(Seq<char>, TypeV)>,
    vals: Seq<Option<Val>>,
)
    requires
        0 <= id < s.scopes.len(),
        vals.len() == params.len(),
        forall|a: int, b: int| 0 <= a < b < params.len() ==> params[a].0 != params[b].0,
    ensures
        bind_args(s, id, params, vals, 0).1 <==> forall|k: int| 0 <= k < vals.len() ==> (#[trigger] vals[k]) is Some,
        bind_args(s, id, params, vals, 0).1 ==> forall|k: int|
            0 <= k < params.len() ==> bind_args(s, id, params, vals, 0).0.scopes[id].vars.dom().contains(
                (#[trigger] params[k]).0,
            ) && bind_args(s, id, params, vals, 0).0.scopes[id].vars[params[k].0] == vals[k]->Some_0,
{
    lemma_bind_args_positions(s, id, params, vals, 0);
}

/// A turn of a `WHILE` loop: the condition is evaluated; where it is false
/// the loop ends normally; where true the body runs, and a body that ends
/// normally or with `CONTINUE` goes on to the next test of the condition,
/// `BREAK` ends the loop normally, and `RETURN v` leaves it with `v`.
pub proof fn law_while_turn(s: IState, c: ExprV, body: StmtV, fuel: nat)
    ensures
        exec(s, StmtV::While { condition: c, body: Box::new(body) }, fuel) == run_while(s, c, body, fuel),
        fuel > 0 ==> ({
            let (s1, r) = eval(s, c, (fuel - 1) as nat);
            r matches EvalR::Value(v) ==> if !truthy(v) {
                run_while(s, c, body, fuel) == (s1, ExecR::Flow(FlowV::Normal))
            } else {
                let (s2, f) = exec(s1, body, (fuel - 1) as nat);
                &&& (f == ExecR::Flow(FlowV::Continue) || f == ExecR::Flow(FlowV::Normal)) ==> run_while(
                    s,
                    c,
                    body,
                    fuel,
                ) == run_while(s2, c, body, (fuel - 1) as nat)
                &&& f == ExecR::Flow(FlowV::Break) ==> run_while(s, c, body, fuel) == (
                    s2,
                    ExecR::Flow(FlowV::Normal),
                )
                &&& f matches ExecR::Flow(FlowV::Return(x)) ==> run_while(s, c, body, fuel) == (
                    s2,
                    ExecR::Flow(FlowV::Return(x)),
                )
            }
        }),
{
}

/// A turn of a `REPEAT` loop: the body runs first; `BREAK` ends the loop
/// normally and `RETURN v` leaves it with `v`; a body that ends normally or
/// with `CONTINUE` goes on to the condition, which ends the loop normally
/// where it is true and starts the next turn where it is false.
pub proof fn law_repeat_turn(s: IState, body: StmtV, c: ExprV, fuel: nat)
    ensures
        exec(s, StmtV::Repeat { body: Box::new(body), condition: c }, fuel) == run_repeat(s, body, c, fuel),
        fuel > 0 ==> ({
            let (s1, f) = exec(s, body, (fuel - 1) as nat);
            &&& f == ExecR::Flow(FlowV::Break) ==> run_repeat(s, body, c, fuel) == (s1, ExecR::Flow(FlowV::Normal))
            &&& f matches ExecR::Flow(FlowV::Return(x)) ==> run_repeat(s, body, c, fuel) == (
                s1,
                ExecR::Flow(FlowV::Return(x)),
            )
            &&& (f == ExecR::Flow(FlowV::Continue) || f == ExecR::Flow(FlowV::Normal)) ==> ({
                let (s2, r) = eval(s1, c, (fuel - 1) as nat);
                r matches EvalR::Value(v) ==> if truthy(v) {
                    run_repeat(s, body, c, fuel) == (s2, ExecR::Flow(FlowV::Normal))
                } else {
                    run_repeat(s, body, c, fuel) == run_repeat(s2, body, c, (fuel - 1) as nat)
                }
            })
        }),
{
}

/// A turn of a `FOR` loop from `i` to `e`: none when `i > e`; else the loop
/// variable is given `i` (and is then seen with that value where some scope
/// binds it) and the body runs; `CONTINUE` or a normal end goes on to `i + 1`,
/// `BREAK` ends the loop normally, and `RETURN v` leaves it with `v`.
pub proof fn law_for_turn(s: IState, var: Seq<char>, i: int, e: int, body: StmtV, fuel: nat)
    ensures
        i > e ==> run_for(s, var, i, e, body, fuel) == (s, ExecR::Flow(FlowV::Normal)),
        i <= e && fuel > 0 ==> ({
            let s1 = assign_var(s, var, Val::Int(i as i64)).0;
            let (s2, r) = exec(s1, body, (fuel - 1) as nat);
            &&& (lookup(s.scopes, s.current as int, var) is Some
                ==> lookup(s1.scopes, s.current as int, var) == Some(Val::Int(i as i64)))
            &&& (r == ExecR::Flow(FlowV::Continue) || r == ExecR::Flow(FlowV::Normal)
                ==> run_for(s, var, i, e, body, fuel) == run_for(s2, var, i + 1, e, body, (fuel - 1) as nat))
            &&& (r == ExecR::Flow(FlowV::Break) ==> run_for(s, var, i, e, body, fuel) == (
                s2,
                ExecR::Flow(FlowV::Normal),
            ))
            &&& (r matches ExecR::Flow(FlowV::Return(v)) ==> run_for(s, var, i, e, body, fuel) == (
                s2,
                ExecR::Flow(FlowV::Return(v)),
            ))
        }),
{
    law_set_then_get(s, var, Val::Int(i as i64));
}

} // verus!

verus! {

/// A word of upper-case ASCII letters, at least one.
pub open spec fn is_upper_word(w: Seq<char>) -> bool {
    &&& w.len() > 0
    &&& forall|i: int| 0 <= i < w.len() ==> 'A' <= #[trigger] w[i] <= 'Z'
}

/// Whether a character is an ASCII letter.
pub open spec fn is_ascii_letter(c: char) -> bool {
    ('a' <= c <= 'z') || ('A' <= c <= 'Z')
}

/// An upper-case ASCII word is ASCII and keeps its form under the upper-case
/// mapping.
proof fn lemma_upper_word_fixed(w: Seq<char>)
    requires
        is_upper_word(w),
    ensures
        all_ascii(w),
        w.map_values(|c: char| ascii_upper(c)) == w,
{
    assert forall|i: int| 0 <= i < w.len() implies (#[trigger] w[i] as u32) < 128 by {
        assert('A' <= w[i] <= 'Z');
    }
    assert(w.map_values(|c: char| ascii_upper(c)) =~= w);
}

/// A key found at some place of a table has an entry.
proof fn lemma_assoc_found<K>(t: Seq<(Seq<char>, K)>, j: int)
    requires
        0 <= j < t.len(),
    ensures
        assoc(t, t[j].0) is Some,
    decreases j,
{
    if j > 0 && t[0].0 != t[j].0 {
        assert(t.drop_first()[j - 1] == t[j]);
        lemma_assoc_found(t.drop_first(), j - 1);
    }
}

/// A key with an entry is at some place of the table.
proof fn lemma_assoc_place<K>(t: Seq<(Seq<char>, K)>, key: Seq<char>)
    ensures
        assoc(t, key) is Some ==> exists|j: int| 0 <= j < t.len() && t[j].0 == key,
    decreases t.len(),
{
    if t.len() > 0 && t[0].0 != key {
        lemma_assoc_place(t.drop_first(), key);
        if assoc(t, key) is Some {
            let j = choose|j: int| 0 <= j < t.drop_first().len() && t.drop_first()[j].0 == key;
            assert(t[j + 1].0 == key);
        }
    }
}

/// Every keyword is spelt with upper-case ASCII letters, so that it is its
/// own upper-case form, as the lexer looks it up by a name's upper-case form;
/// and none is also an operator, which the lexer would look up first.
pub proof fn law_keyword_keys(config: ParseConfig)
    ensures
        forall|k: int| 0 <= k < keyword_entries(config).len() ==> is_upper_word(
            (#[trigger] keyword_entries(config)[k]).0,
        ) && assoc(operator_entries(config), keyword_entries(config)[k].0) is None,
        forall|k: int| 0 <= k < keyword_entries(config).len() ==> all_ascii(
            (#[trigger] keyword_entries(config)[k]).0,
        ) && keyword_entries(config)[k].0.map_values(|c: char| ascii_upper(c)) == keyword_entries(config)[k].0,
{
    reveal_strlit("IF");
    reveal_strlit("THEN");
    reveal_strlit("ELSE");
    reveal_strlit("ENDIF");
    reveal_strlit("WHILE");
    reveal_strlit("REPEAT");
    reveal_strlit("UNTIL");
    reveal_strlit("ENDWHILE");
    reveal_strlit("FOR");
    reveal_strlit("TO");
    reveal_strlit("NEXT");
    reveal_strlit("STEP");
    reveal_strlit("FUNCTION");
    reveal_strlit("PROCEDURE");
    reveal_strlit("ENDFUNCTION");
    reveal_strlit("ENDPROCEDURE");
    reveal_strlit("DECLARE");
    reveal_strlit("CONSTANT");
    reveal_strlit("INPUT");
    reveal_strlit("OUTPUT");
    reveal_strlit("TRUE");
    reveal_strlit("FALSE");
    reveal_strlit("NULL");
    reveal_strlit("RETURN");
    reveal_strlit("CONTINUE");
    reveal_strlit("BREAK");
    reveal_strlit("←");
    reveal_strlit("<-");
    reveal_strlit("+");
    reveal_strlit("-");
    reveal_strlit("*");
    reveal_strlit("/");
    reveal_strlit("MOD");
    reveal_strlit("AND");
    reveal_strlit("OR");
    reveal_strlit("NOT");
    reveal_strlit("DIV");
    reveal_strlit("<>");
    reveal_strlit("<");
    reveal_strlit("<=");
    reveal_strlit(">");
    reveal_strlit(">=");
    reveal_strlit("&");
    reveal_strlit("(");
    reveal_strlit(")");
    reveal_strlit("[");
    reveal_strlit("]");
    reveal_strlit("{");
    reveal_strlit("}");
    reveal_strlit(",");
    reveal_strlit(";");
    reveal_strlit(":");
    reveal_strlit("=");
    reveal_strlit("==");
    let kws = keyword_entries(config);
    let ops = operator_entries(config);
    assert forall|k: int| 0 <= k < kws.len() implies is_upper_word((#[trigger] kws[k]).0)
        && assoc(ops, kws[k].0) is None by {
        lemma_assoc_place(ops, kws[k].0);
        if assoc(ops, kws[k].0) is Some {
            let j = choose|j: int| 0 <= j < ops.len() && ops[j].0 == kws[k].0;
            let w = kws[k].0;
            assert(is_upper_word(w));
            assert('A' <= ops[j].0[0] <= 'Z');
            assert(6 <= j <= 10);
            assert(w.len() == 2 || w.len() == 3);
            assert(w != "MOD"@ && w != "AND"@ && w != "OR"@ && w != "NOT"@ && w != "DIV"@);
            assert(ops[j].0 == "MOD"@ || ops[j].0 == "AND"@ || ops[j].0 == "OR"@ || ops[j].0 == "NOT"@
                || ops[j].0 == "DIV"@);
        }
    }
    assert forall|k: int| 0 <= k < kws.len() implies all_ascii((#[trigger] kws[k]).0)
        && kws[k].0.map_values(|c: char| ascii_upper(c)) == kws[k].0 by {
        lemma_upper_word_fixed(kws[k].0);
    }
}

/// The symbol operators can be read one character at a time: every shorter
/// start of a symbol operator is itself an operator. Operators that are words
/// are spelt in upper case, and both arrows assign.
pub proof fn law_operator_keys(config: ParseConfig)
    ensures
        assoc(operator_entries(config), "←"@) == Some(TokenKindV::Assign),
        assoc(operator_entries(config), "<-"@) == Some(TokenKindV::Assign),
        forall|j: int| 0 <= j < operator_entries(config).len() ==> {
            let key = (#[trigger] operator_entries(config)[j]).0;
            &&& key.len() > 0
            &&& is_ascii_letter(key[0]) ==> is_upper_word(key)
            &&& !is_ascii_letter(key[0]) ==> forall|n: int| 1 <= n < key.len()
                ==> assoc(operator_entries(config), key.subrange(0, n)) is Some
        },
{
    reveal_strlit("←");
    reveal_strlit("<-");
    reveal_strlit("+");
    reveal_strlit("-");
    reveal_strlit("*");
    reveal_strlit("/");
    reveal_strlit("MOD");
    reveal_strlit("AND");
    reveal_strlit("OR");
    reveal_strlit("NOT");
    reveal_strlit("DIV");
    reveal_strlit("<>");
    reveal_strlit("<");
    reveal_strlit("<=");
    reveal_strlit(">");
    reveal_strlit(">=");
    reveal_strlit("&");
    reveal_strlit("(");
    reveal_strlit(")");
    reveal_strlit("[");
    reveal_strlit("]");
    reveal_strlit("{");
    reveal_strlit("}");
    reveal_strlit(",");
    reveal_strlit(";");
    reveal_strlit(":");
    reveal_strlit("=");
    reveal_strlit("==");
    let ops = operator_entries(config);
    assert(ops[0].0 == "←"@);
    assert(ops[1].0 == "<-"@);
    assert(ops[0].0 != "<-"@);
    assert(ops.drop_first()[0] == ops[1]);
    assert(assoc(ops.drop_first(), "<-"@) == Some(TokenKindV::Assign));
    lemma_assoc_found(ops, 12);
    lemma_assoc_found(ops, 14);
    lemma_assoc_found(ops, 26);
    assert forall|j: int| 0 <= j < ops.len() implies {
        let key = (#[trigger] ops[j]).0;
        &&& key.len() > 0
        &&& is_ascii_letter(key[0]) ==> is_upper_word(key)
        &&& !is_ascii_letter(key[0]) ==> forall|n: int| 1 <= n < key.len()
            ==> assoc(ops, key.subrange(0, n)) is Some
    } by {
        let key = ops[j].0;
        assert forall|n: int| 1 <= n < key.len() && !is_ascii_letter(key[0]) implies assoc(
            ops,
            key.subrange(0, n),
        ) is Some by {
            if key[0] == '<' {
                assert(key.subrange(0, n) =~= ops[12].0);
            } else if key[0] == '>' {
                assert(key.subrange(0, n) =~= ops[14].0);
            } else {
                assert(key.subrange(0, n) =~= ops[26].0);
            }
        }
    }
}

/// A symbol operator starts with none of the characters that start another
/// kind of token, and is not a comment.
proof fn lemma_symbol_start(config: ParseConfig, j: int)
    requires
        0 <= j < operator_entries(config).len(),
        !is_ascii_letter(operator_entries(config)[j].0[0]),
    ensures
        ({
            let w = operator_entries(config)[j].0;
            let c = w[0];
            &&& w.len() > 0
            &&& !is_digit(c) && !is_word_start(c) && c != '"' && c != '\''
            &&& c != ' ' && c != '\t' && c != '\r' && c != '\n'
            &&& !(c == '/' && w.len() > 1 && w[1] == '/')
        }),
{
    reveal_strlit("←");
    reveal_strlit("<-");
    reveal_strlit("+");
    reveal_strlit("-");
    reveal_strlit("*");
    reveal_strlit("/");
    reveal_strlit("MOD");
    reveal_strlit("AND");
    reveal_strlit("OR");
    reveal_strlit("NOT");
    reveal_strlit("DIV");
    reveal_strlit("<>");
    reveal_strlit("<");
    reveal_strlit("<=");
    reveal_strlit(">");
    reveal_strlit(">=");
    reveal_strlit("&");
    reveal_strlit("(");
    reveal_strlit(")");
    reveal_strlit("[");
    reveal_strlit("]");
    reveal_strlit("{");
    reveal_strlit("}");
    reveal_strlit(",");
    reveal_strlit(";");
    reveal_strlit(":");
    reveal_strlit("=");
    reveal_strlit("==");
}

/// From `k` characters on, a run of operator text whose every longer start
/// is an operator is read to its end.
proof fn lemma_op_run_whole(w: Seq<char>, config: ParseConfig, k: int)
    requires
        0 <= k <= w.len(),
        forall|n: int| k < n <= w.len() ==> assoc(operator_entries(config), #[trigger] w.subrange(0, n)) is Some,
    ensures
        op_run(w, config, 0, k) == w.len(),
    decreases w.len() - k,
{
    if k < w.len() {
        assert(w.subrange(0, 0 + k + 1) == w.subrange(0, k + 1));
        lemma_op_run_whole(w, config, k + 1);
    }
}

/// A symbol operator written alone is read whole, as the token that the
/// table gives for it, and the lexer moves past it.
pub proof fn law_symbol_read_whole(config: ParseConfig, j: int)
    requires
        0 <= j < operator_entries(config).len(),
        !is_ascii_letter(operator_entries(config)[j].0[0]),
    ensures
        ({
            let t = operator_entries(config);
            let w = t[j].0;
            &&& assoc(t, w) is Some
            &&& next_token(w, config, start_cursor()).1 == Ok::<TokenV, ErrV>(
                TokenV { kind: assoc(t, w)->Some_0, span: span_at(start_cursor()) },
            )
            &&& next_token(w, config, start_cursor()).0.pos == w.len()
        }),
{
    let t = operator_entries(config);
    let w = t[j].0;
    law_operator_keys(config);
    lemma_symbol_start(config, j);
    lemma_assoc_found(t, j);
    assert(w.subrange(0, w.len() as int) =~= w);
    assert forall|n: int| 0 < n <= w.len() implies assoc(t, #[trigger] w.subrange(0, n)) is Some by {
        if n == w.len() {
            assert(w.subrange(0, n) =~= w);
        }
    }
    lemma_op_run_whole(w, config, 0);
    lemma_step_n(w, start_cursor(), w.len());
}

} // verus!
