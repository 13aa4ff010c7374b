//! What single statements and calls do, stated over what they are given:
//! the starting values of types, the choice of a branch, the jumps, calls of
//! names that are no function, printed text, and decimal numerals.
use vstd::prelude::*;
use crate::ast::{ExprV, Op, Span, StmtV};
use crate::runtime::{TypeV, Val};
use crate::store::ScopeV;
use crate::error::{ErrV, KindV};
use crate::ops::{OpResult, spec_binary, truthy};
use crate::semantics::{
    IState, EvalR, ExecR, UnitR, FlowV, PieceV, Halt, lookup, eval, exec, invoke, default_value, default_fill, array_size,
    print_items, eval_args, emit, set_var, store_result, render, render_items, render_depth, index_result, binary_result, unary_result,
};
use crate::config::ParseConfig;
use crate::token::{TokenKindV, TokenV};
use crate::lexing::{
    Cursor, lex_all, next_token, number_end, word_end, word_kind, is_word_start, is_word_char, span_at, start_cursor, step, step_n, string_body, comment_end, lemma_step_n,
    lemma_step_n_same_line, lemma_next_token_moves,
};
use crate::text::{nat_text, int_text, digits_value, digit_char, is_digit};

verus! {

/// The starting value of a type: `0` for integers, positive zero for reals,
/// the empty string, `FALSE` and `NULL`; none for records and functions,
/// which is an error. Nothing is stored for these.
pub proof fn law_starting_values(s: IState, name: Seq<char>, ps: Seq<TypeV>, r: Box<TypeV>)
    ensures
        default_value(s, TypeV::Int) == (s, Ok::<Val, ErrV>(Val::Int(0))),
        default_value(s, TypeV::Float) == (s, Ok::<Val, ErrV>(Val::Float(0))),
        default_value(s, TypeV::Str) == (s, Ok::<Val, ErrV>(Val::Str(Seq::empty()))),
        default_value(s, TypeV::Bool) == (s, Ok::<Val, ErrV>(Val::Bool(false))),
        default_value(s, TypeV::Null) == (s, Ok::<Val, ErrV>(Val::Null)),
        default_value(s, TypeV::Record(name)) == (s, Err::<Val, ErrV>(
            ErrV::Runtime { span: None, kind: KindV::TypeWithoutDefaultValue(TypeV::Record(name)) },
        )),
        default_value(s, TypeV::Func(ps, r)) == (s, Err::<Val, ErrV>(
            ErrV::Runtime { span: None, kind: KindV::TypeWithoutDefaultValue(TypeV::Func(ps, r)) },
        )),
{
}

/// Whether a type is one of the plain types, whose starting value stores
/// nothing.
pub open spec fn is_plain_type(t: TypeV) -> bool {
    t is Int || t is Float || t is Str || t is Bool || t is Null
}

/// Filling with the starting value of a plain type adds that many copies of
/// it and stores nothing.
proof fn lemma_fill_plain(s: IState, t: TypeV, n: int, acc: Seq<Val>)
    requires
        is_plain_type(t),
        n >= 0,
    ensures
        default_fill(s, t, n, acc).0 == s,
        default_fill(s, t, n, acc).1 matches Ok(data) && data.len() == acc.len() + n && data.subrange(
            0,
            acc.len() as int,
        ) == acc && forall|k: int| acc.len() <= k < data.len() ==> Ok::<Val, ErrV>(#[trigger] data[k])
            == default_value(s, t).1,
    decreases n,
{
    if n > 0 {
        let v = default_value(s, t).1->Ok_0;
        lemma_fill_plain(s, t, n - 1, acc.push(v));
        let data = default_fill(s, t, n, acc).1->Ok_0;
        let m = acc.len() as int;
        assert(data.subrange(0, m) =~= data.subrange(0, m + 1).subrange(0, m));
        assert(data[m] == data.subrange(0, m + 1)[m]);
    } else {
        assert(acc.subrange(0, acc.len() as int) =~= acc);
    }
}

/// An array of a plain type starts as a new array in the store, after every
/// array there was, with `start` and `end` as its bounds, the element type,
/// and one starting value of that type for each index from `start` to `end`
/// (at least one).
pub proof fn law_new_array(s: IState, et: TypeV, start: usize, end: usize)
    requires
        is_plain_type(et),
    ensures
        ({
            let (s1, r) = default_value(s, TypeV::Array(Box::new(et), start, end));
            &&& r == Ok::<Val, ErrV>(Val::Array(s.arrays.len() as usize))
            &&& s1.scopes == s.scopes && s1.funcs == s.funcs && s1.current == s.current && s1.out == s.out
            &&& s1.arrays.len() == s.arrays.len() + 1
            &&& s1.arrays.subrange(0, s.arrays.len() as int) == s.arrays
            &&& s1.arrays.last().start == start && s1.arrays.last().end == end && s1.arrays.last().ele_type == et
            &&& s1.arrays.last().data.len() == if end <= start {
                1
            } else if end - start + 1 > usize::MAX {
                usize::MAX as int
            } else {
                end - start + 1
            }
            &&& forall|k: int|
                0 <= k < s1.arrays.last().data.len() ==> Ok::<Val, ErrV>(#[trigger] s1.arrays.last().data[k])
                    == default_value(s, et).1
        }),
{
    lemma_fill_plain(s, et, array_size(start, end) as int, Seq::empty());
    let (s1, r) = default_value(s, TypeV::Array(Box::new(et), start, end));
    assert(s1.arrays.subrange(0, s.arrays.len() as int) =~= s.arrays);
}

/// Reading `arr[k]` for an integer `k` from zero to the largest machine word:
/// an index below the first
/// or above the last index of the array is an out-of-bounds error that names
/// the index and the range; the first index reads the first element, and
/// each index after it the next one.
pub proof fn law_index_reads_element(s: IState, a: usize, k: i64, span: Option<Span>)
    requires
        a < s.arrays.len(),
        0 <= k <= usize::MAX,
    ensures
        ({
            let arr = s.arrays[a as int];
            let r = index_result(s, Val::Array(a), Val::Int(k), span);
            &&& (k < arr.start || k > arr.end) ==> r == EvalR::Error(
                ErrV::Runtime { span: None, kind: KindV::IndexOutOfBounds { index: k, range: (arr.start, arr.end) } },
            )
            &&& (arr.start <= k <= arr.end && k - arr.start < arr.data.len()) ==> r == EvalR::Value(
                arr.data[k - arr.start],
            )
        }),
{
}

/// Reading a variable gives its value as the current scope sees it, and an
/// undefined-variable error where no scope on the way out binds it; the
/// state does not change.
pub proof fn law_read_variable(s: IState, name: Seq<char>, span: Option<Span>, fuel: nat)
    ensures
        lookup(s.scopes, s.current as int, name) matches Some(v) ==> eval(s, ExprV::Get { name, span }, fuel) == (
            s,
            EvalR::Value(v),
        ),
        lookup(s.scopes, s.current as int, name) is None ==> eval(s, ExprV::Get { name, span }, fuel) == (
            s,
            EvalR::Error(ErrV::Runtime { span: None, kind: KindV::UndefinedVariable(name) }),
        ),
{
}

/// An operator applied to values it does not take is an error that names
/// the operator and the types of the operands, left then right; a result
/// that is a value is handed on, an overflow stops the program, and a real
/// result stops it as real arithmetic.
pub proof fn law_operator_errors(s: IState, op: Op, i: i64, j: i64, x: Seq<char>, b: bool)
    ensures
        binary_result(s, Val::Int(i), op, Val::Str(x)) == EvalR::Error(
            ErrV::Runtime { span: None, kind: KindV::InvalidOp { op, left: TypeV::Int, right: TypeV::Str } },
        ),
        binary_result(s, Val::Str(x), op, Val::Bool(b)) == EvalR::Error(
            ErrV::Runtime { span: None, kind: KindV::InvalidOp { op, left: TypeV::Str, right: TypeV::Bool } },
        ),
        binary_result(s, Val::Null, op, Val::Int(i)) == EvalR::Error(
            ErrV::Runtime { span: None, kind: KindV::InvalidOp { op, left: TypeV::Null, right: TypeV::Int } },
        ),
        unary_result(s, Op::Not, Val::Int(i)) == EvalR::Error(
            ErrV::Runtime { span: None, kind: KindV::InvalidUnaryOp { op: Op::Not, operand: TypeV::Int } },
        ),
        unary_result(s, Op::Neg, Val::Str(x)) == EvalR::Error(
            ErrV::Runtime { span: None, kind: KindV::InvalidUnaryOp { op: Op::Neg, operand: TypeV::Str } },
        ),
        spec_binary(Val::Int(i), op, Val::Int(j)) matches OpResult::Value(v) ==> binary_result(
            s,
            Val::Int(i),
            op,
            Val::Int(j),
        ) == EvalR::Value(v),
        spec_binary(Val::Int(i), op, Val::Int(j)) is Panic ==> binary_result(s, Val::Int(i), op, Val::Int(j))
            == EvalR::Halted(Halt::Panic),
        binary_result(s, Val::Int(i), Op::Div, Val::Int(j)) == EvalR::Halted(Halt::Real),
{
}

/// A scope's own binding of a name hides the bindings of the scopes around
/// it; a name it does not bind is seen as its parent sees it.
pub proof fn law_nearest_binding_wins(scopes: Seq<ScopeV>, id: int, name: Seq<char>, p: usize)
    requires
        0 <= id < scopes.len(),
    ensures
        scopes[id].vars.dom().contains(name) ==> lookup(scopes, id, name) == Some(scopes[id].vars[name]),
        !scopes[id].vars.dom().contains(name) && scopes[id].parent == Some(p) && p < id ==> lookup(scopes, id, name)
            == lookup(scopes, p as int, name),
        !scopes[id].vars.dom().contains(name) && scopes[id].parent is None ==> lookup(scopes, id, name) is None,
{
}

/// Assigning evaluates the value first; a name that no scope binds is an
/// error that names it, and an assignment to a bound name succeeds.
pub proof fn law_assign_statement(s: IState, name: Seq<char>, v: Val, span: Option<Span>, fuel: nat)
    ensures
        ({
            let e = ExprV::Literal { value: v, span };
            &&& lookup(s.scopes, s.current as int, name) is None ==> set_var(s, name, e, fuel) == (
                s,
                UnitR::Error(ErrV::Runtime { span: None, kind: KindV::AssignToUndefined(name) }),
            )
            &&& lookup(s.scopes, s.current as int, name) is Some ==> set_var(s, name, e, fuel).1 == UnitR::Done
                && lookup(set_var(s, name, e, fuel).0.scopes, s.current as int, name) == Some(v)
        }),
{
    crate::laws::law_set_then_get(s, name, v);
}

/// Storing into a value: an index that is not an integer is an invalid-index
/// error that holds the index; a target that is not an array is an error that
/// names its type; nothing changes in either case.
pub proof fn law_store_errors(s: IState, i: i64, x: Seq<char>, v: Val)
    ensures
        store_result(s, Val::Int(i), Val::Str(x), v) == (
            s,
            UnitR::Error(ErrV::Runtime { span: None, kind: KindV::InvalidIndex(Val::Str(x)) }),
        ),
        store_result(s, Val::Str(x), Val::Int(i), v) == (
            s,
            UnitR::Error(ErrV::Runtime { span: None, kind: KindV::NotIndexable(TypeV::Str) }),
        ),
        store_result(s, Val::Int(i), Val::Int(i), v) == (
            s,
            UnitR::Error(ErrV::Runtime { span: None, kind: KindV::NotIndexable(TypeV::Int) }),
        ),
{
}

/// An `IF` evaluates its condition once: a true condition runs the first
/// branch, a false one the `ELSE` branch or nothing; a condition that fails
/// with an error stops the program.
pub proof fn law_if_chooses_branch(s: IState, c: ExprV, t: StmtV, f: Option<Box<StmtV>>, fuel: nat)
    ensures
        ({
            let (s1, r) = eval(s, c, fuel);
            let st = StmtV::If { condition: c, true_body: Box::new(t), false_body: f };
            &&& r matches EvalR::Value(v) ==> (if truthy(v) {
                exec(s, st, fuel) == exec(s1, t, fuel)
            } else {
                exec(s, st, fuel) == match f {
                    Some(b) => exec(s1, *b, fuel),
                    None => (s1, ExecR::Flow(FlowV::Normal)),
                }
            })
            &&& r is Error ==> exec(s, st, fuel) == (s1, ExecR::Halted(Halt::Panic))
        }),
{
}

/// `RETURN e` leaves with the value of `e` (with `NULL` where `e` fails with
/// an error, and where there is no `e`); `BREAK` and `CONTINUE` leave with
/// their own flow and change nothing.
pub proof fn law_jumps(s: IState, e: ExprV, fuel: nat)
    ensures
        eval(s, e, fuel).1 matches EvalR::Value(v) ==> exec(s, StmtV::Return { value: Some(e) }, fuel) == (
            eval(s, e, fuel).0,
            ExecR::Flow(FlowV::Return(v)),
        ),
        eval(s, e, fuel).1 is Error ==> exec(s, StmtV::Return { value: Some(e) }, fuel) == (
            eval(s, e, fuel).0,
            ExecR::Flow(FlowV::Return(Val::Null)),
        ),
        exec(s, StmtV::Return { value: None }, fuel) == (s, ExecR::Flow(FlowV::Return(Val::Null))),
        exec(s, StmtV::Break, fuel) == (s, ExecR::Flow(FlowV::Break)),
        exec(s, StmtV::Continue, fuel) == (s, ExecR::Flow(FlowV::Continue)),
{
}

/// The value that a literal expression writes.
pub open spec fn literal_value(e: ExprV) -> Val {
    match e {
        ExprV::Literal { value, .. } => value,
        _ => Val::Null,
    }
}

/// The arguments of a call are evaluated in order, each giving the value at
/// its own place: for literal arguments the `k`-th result is the `k`-th
/// literal's value, and nothing else changes.
pub proof fn law_arguments_in_order(s: IState, args: Seq<ExprV>, fuel: nat)
    requires
        forall|k: int| 0 <= k < args.len() ==> (#[trigger] args[k]) is Literal,
    ensures
        eval_args(s, args, 0, fuel, Seq::empty()).0 == s,
        eval_args(s, args, 0, fuel, Seq::empty()).1 matches Ok(vals) && vals.len() == args.len() && forall|k: int|
            0 <= k < args.len() ==> vals[k] == Some(literal_value(#[trigger] args[k])),
{
    lemma_literal_args(s, args, 0, fuel, Seq::empty());
}

proof fn lemma_literal_args(s: IState, args: Seq<ExprV>, i: int, fuel: nat, acc: Seq<Option<Val>>)
    requires
        0 <= i <= args.len(),
        acc.len() == i,
        forall|k: int| 0 <= k < args.len() ==> (#[trigger] args[k]) is Literal,
    ensures
        eval_args(s, args, i, fuel, acc).0 == s,
        eval_args(s, args, i, fuel, acc).1 matches Ok(vals) && vals.len() == args.len() && vals.subrange(0, i)
            == acc && forall|k: int| i <= k < args.len() ==> vals[k] == Some(literal_value(#[trigger] args[k])),
    decreases args.len() - i,
{
    if i < args.len() {
        let v = literal_value(args[i]);
        assert(eval(s, args[i], fuel) == (s, EvalR::Value(v)));
        lemma_literal_args(s, args, i + 1, fuel, acc.push(Some(v)));
        let vals = eval_args(s, args, i, fuel, acc).1->Ok_0;
        assert(vals.subrange(0, i) =~= vals.subrange(0, i + 1).subrange(0, i));
        assert(vals[i] == vals.subrange(0, i + 1)[i]);
    } else {
        assert(acc.subrange(0, i) =~= acc);
    }
}

/// Calling a name that is not bound to a function gives `NULL` and changes
/// nothing; so does calling a function with a number of arguments other
/// than its number of parameters.
pub proof fn law_call_without_match(s: IState, name: Seq<char>, vals: Seq<Option<Val>>, fuel: nat)
    ensures
        !(lookup(s.scopes, s.current as int, name) matches Some(Val::Func(_))) ==> invoke(s, name, vals, fuel) == (
            s,
            EvalR::Value(Val::Null),
        ),
        lookup(s.scopes, s.current as int, name) matches Some(Val::Func(f)) ==> (f < s.funcs.len() && vals.len()
            != s.funcs[f as int].params.len() ==> invoke(s, name, vals, fuel) == (s, EvalR::Value(Val::Null))),
{
}

/// Printing one plain value writes its text, a space, and a line break:
/// an integer in decimal, a string as it is, `TRUE` or `FALSE`, and `NULL`.
pub proof fn law_print_plain(s: IState, i: i64, x: Seq<char>, b: bool, fuel: nat)
    ensures
        exec(s, StmtV::Print { value: seq![ExprV::Literal { value: Val::Int(i), span: None }] }, fuel).0.out
            == s.out + seq![PieceV::Text(int_text(i as int)), PieceV::Text(" "@), PieceV::Text("\n"@)],
        exec(s, StmtV::Print { value: seq![ExprV::Literal { value: Val::Str(x), span: None }] }, fuel).0.out
            == s.out + seq![PieceV::Text(x), PieceV::Text(" "@), PieceV::Text("\n"@)],
        exec(s, StmtV::Print { value: seq![ExprV::Literal { value: Val::Bool(b), span: None }] }, fuel).0.out
            == s.out + seq![PieceV::Text(if b { "TRUE"@ } else { "FALSE"@ }), PieceV::Text(" "@), PieceV::Text("\n"@)],
        exec(s, StmtV::Print { value: seq![ExprV::Literal { value: Val::Null, span: None }] }, fuel).0.out
            == s.out + seq![PieceV::Text("NULL"@), PieceV::Text(" "@), PieceV::Text("\n"@)],
{
    lemma_print_one(s, Val::Int(i), seq![PieceV::Text(int_text(i as int))], fuel);
    lemma_print_one(s, Val::Str(x), seq![PieceV::Text(x)], fuel);
    let bt: Seq<char> = if b { "TRUE"@ } else { "FALSE"@ };
    lemma_print_one(s, Val::Bool(b), seq![PieceV::Text(bt)], fuel);
    lemma_print_one(s, Val::Null, seq![PieceV::Text("NULL"@)], fuel);
}

proof fn lemma_print_one(s: IState, v: Val, p: Seq<PieceV>, fuel: nat)
    requires
        render(s, v, render_depth(s)) == Ok::<Seq<PieceV>, Halt>(p),
    ensures
        exec(s, StmtV::Print { value: seq![ExprV::Literal { value: v, span: None }] }, fuel).0.out == s.out + p
            + seq![PieceV::Text(" "@), PieceV::Text("\n"@)],
{
    let e = seq![ExprV::Literal { value: v, span: None }];
    let s1 = emit(s, p + seq![PieceV::Text(" "@)]);
    assert(eval(s, e[0], fuel) == (s, EvalR::Value(v)));
    assert(print_items(s, e, 0, fuel) == print_items(s1, e, 1, fuel));
    assert(print_items(s1, e, 1, fuel) == (emit(s1, seq![PieceV::Text("\n"@)]), UnitR::Done));
    assert(s.out + (p + seq![PieceV::Text(" "@)]) + seq![PieceV::Text("\n"@)] =~= s.out + p + seq![
        PieceV::Text(" "@),
        PieceV::Text("\n"@),
    ]);
}

/// An array prints as its elements, in order, separated by `", "` and
/// between square brackets.
pub proof fn law_print_array(s: IState, a: usize, depth: nat, i: i64, j: i64)
    requires
        a < s.arrays.len(),
        depth > 0,
    ensures
        s.arrays[a as int].data == seq![Val::Int(i)] ==> render(s, Val::Array(a), depth) == Ok::<Seq<PieceV>, Halt>(
            seq![PieceV::Text("["@), PieceV::Text(int_text(i as int)), PieceV::Text("]"@)],
        ),
        s.arrays[a as int].data == seq![Val::Int(i), Val::Int(j)] ==> render(s, Val::Array(a), depth) == Ok::<
            Seq<PieceV>,
            Halt,
        >(
            seq![
                PieceV::Text("["@),
                PieceV::Text(int_text(i as int)),
                PieceV::Text(", "@),
                PieceV::Text(int_text(j as int)),
                PieceV::Text("]"@),
            ],
        ),
{
    let data = s.arrays[a as int].data;
    let d = (depth - 1) as nat;
    if data == seq![Val::Int(i)] {
        assert(render_items(s, data, 0, d) == Ok::<Seq<PieceV>, Halt>(Seq::empty()));
        assert(data[0] == Val::Int(i));
        assert(render(s, data[0], d) == Ok::<Seq<PieceV>, Halt>(seq![PieceV::Text(int_text(i as int))]));
        assert(render_items(s, data, 1, d) == Ok::<Seq<PieceV>, Halt>(seq![PieceV::Text(int_text(i as int))]));
        assert(seq![PieceV::Text("["@)] + seq![PieceV::Text(int_text(i as int))] + seq![PieceV::Text("]"@)] =~= seq![
            PieceV::Text("["@),
            PieceV::Text(int_text(i as int)),
            PieceV::Text("]"@),
        ]);
    }
    if data == seq![Val::Int(i), Val::Int(j)] {
        assert(render_items(s, data, 0, d) == Ok::<Seq<PieceV>, Halt>(Seq::empty()));
        assert(data[0] == Val::Int(i));
        assert(render(s, data[0], d) == Ok::<Seq<PieceV>, Halt>(seq![PieceV::Text(int_text(i as int))]));
        assert(render_items(s, data, 1, d) == Ok::<Seq<PieceV>, Halt>(seq![PieceV::Text(int_text(i as int))]));
        let two = seq![PieceV::Text(int_text(i as int))] + seq![PieceV::Text(", "@)] + seq![
            PieceV::Text(int_text(j as int)),
        ];
        assert(data[1] == Val::Int(j));
        assert(render(s, data[1], d) == Ok::<Seq<PieceV>, Halt>(seq![PieceV::Text(int_text(j as int))]));
        assert(render_items(s, data, 2, d) == Ok::<Seq<PieceV>, Halt>(two));
        assert(seq![PieceV::Text("["@)] + two + seq![PieceV::Text("]"@)] =~= seq![
            PieceV::Text("["@),
            PieceV::Text(int_text(i as int)),
            PieceV::Text(", "@),
            PieceV::Text(int_text(j as int)),
            PieceV::Text("]"@),
        ]);
    }
}

/// The decimal form of a natural number is a non-empty run of digits, with
/// no leading zero save for zero itself, and reads back as the number; the
/// form of a negative integer is `-` before that of its magnitude.
pub proof fn law_decimal_text(n: nat, i: int)
    ensures
        nat_text(n).len() > 0,
        forall|k: int| 0 <= k < nat_text(n).len() ==> is_digit(#[trigger] nat_text(n)[k]),
        n > 0 ==> nat_text(n)[0] != '0',
        digits_value(nat_text(n)) == n,
        i < 0 ==> int_text(i) == seq!['-'] + nat_text((-i) as nat),
        i >= 0 ==> int_text(i) == nat_text(i as nat),
{
    lemma_nat_text(n);
}

/// The decimal form of a number that fits in 64 bits is read back by the
/// lexer as that integer, at the start of the text, followed by the end.
pub proof fn law_numeral_reads_back(n: nat, config: ParseConfig)
    requires
        n <= i64::MAX,
    ensures
        lex_all(nat_text(n), config, start_cursor()) == Ok::<Seq<TokenV>, ErrV>(
            seq![
                TokenV { kind: TokenKindV::Int(n as i64), span: span_at(start_cursor()) },
                TokenV {
                    kind: TokenKindV::EOF,
                    span: span_at(Cursor { pos: nat_text(n).len() as int, line: 1, col: nat_text(n).len() + 1int }),
                },
            ],
        ),
{
    let input = nat_text(n);
    let p = start_cursor();
    lemma_nat_text(n);
    lemma_digits_run(input, 0);
    assert(input.subrange(0, input.len() as int) =~= input);
    assert(!input.contains('.')) by {
        if input.contains('.') {
            let k = choose|k: int| 0 <= k < input.len() && input[k] == '.';
            assert(is_digit(input[k]));
        }
    }
    assert forall|i: int| 0 <= i < input.len() implies input[i] != '\n' by {
        assert(is_digit(input[i]));
    }
    lemma_step_n_same_line(input, p, input.len());
    let q = Cursor { pos: input.len() as int, line: 1, col: input.len() + 1int };
    assert(is_digit(input[0]));
    assert(next_token(input, config, p) == (q, Ok::<TokenV, ErrV>(TokenV { kind: TokenKindV::Int(n as i64), span: span_at(p) })));
    lemma_next_token_moves(input, config, p);
    let t = TokenV { kind: TokenKindV::Int(n as i64), span: span_at(p) };
    let e = TokenV { kind: TokenKindV::EOF, span: span_at(q) };
    assert(lex_all(input, config, q) == Ok::<Seq<TokenV>, ErrV>(seq![e]));
    assert(lex_all(input, config, p) == Ok::<Seq<TokenV>, ErrV>(seq![t] + seq![e]));
    assert(seq![t] + seq![e] =~= seq![t, e]);
}

/// How a character is written inside a string literal: a backslash, a
/// double quote, a line break, a tab, a carriage return and the zero
/// character by their escapes, every other character as it is.
pub open spec fn escape_of(c: char) -> Seq<char> {
    if c == '\\' {
        seq!['\\', '\\']
    } else if c == '"' {
        seq!['\\', '"']
    } else if c == '\n' {
        seq!['\\', 'n']
    } else if c == '\t' {
        seq!['\\', 't']
    } else if c == '\r' {
        seq!['\\', 'r']
    } else if c == '\0' {
        seq!['\\', '0']
    } else {
        seq![c]
    }
}

/// A text written with `escape_of`, character by character.
pub open spec fn escaped(x: Seq<char>) -> Seq<char>
    decreases x.len(),
{
    if x.len() == 0 {
        Seq::empty()
    } else {
        escape_of(x[0]) + escaped(x.drop_first())
    }
}

/// Moving on `a + b` characters is moving on `a`, then `b`.
proof fn lemma_step_n_add(input: Seq<char>, p: Cursor, a: nat, b: nat)
    ensures
        step_n(input, p, a + b) == step_n(input, step_n(input, p, a), b),
    decreases a,
{
    if a > 0 {
        lemma_step_n_add(input, step(input, p), (a - 1) as nat, b);
        assert((a + b - 1) as nat == (a - 1) as nat + b);
    }
}

/// The escaped form of a text holds no raw line break.
proof fn lemma_escaped_one_line(x: Seq<char>)
    ensures
        forall|k: int| 0 <= k < escaped(x).len() ==> #[trigger] escaped(x)[k] != '\n',
    decreases x.len(),
{
    if x.len() > 0 {
        lemma_escaped_one_line(x.drop_first());
        let e = escape_of(x[0]);
        let r = escaped(x.drop_first());
        assert(escaped(x) == e + r);
        assert forall|k: int| 0 <= k < escaped(x).len() implies #[trigger] escaped(x)[k] != '\n' by {
            if k >= e.len() {
                assert(escaped(x)[k] == r[k - e.len()]);
            }
        }
    }
}

/// Reading the body of a string literal across the escaped form of `x`
/// adds `x` to what was read and goes on after it.
proof fn lemma_string_body_escaped(input: Seq<char>, config: ParseConfig, p: Cursor, acc: Seq<char>, x: Seq<char>)
    requires
        0 <= p.pos,
        p.pos + escaped(x).len() <= input.len(),
        input.subrange(p.pos, p.pos + escaped(x).len()) == escaped(x),
    ensures
        string_body(input, config, p, acc) == string_body(
            input,
            config,
            step_n(input, p, escaped(x).len()),
            acc + x,
        ),
    decreases x.len(),
{
    let w = escaped(x);
    if x.len() == 0 {
        assert(acc + x =~= acc);
        assert(step_n(input, p, 0) == p);
    } else {
        let c = x[0];
        let e = escape_of(c);
        let rest = x.drop_first();
        assert(w == e + escaped(rest));
        let k = e.len() as int;
        assert(input[p.pos] == w[0]);
        assert(input[p.pos] == e[0]);
        let q = step_n(input, p, k as nat);
        lemma_step_n(input, p, k as nat);
        assert(input.subrange(q.pos, q.pos + escaped(rest).len()) =~= escaped(rest)) by {
            assert forall|j: int| 0 <= j < escaped(rest).len() implies input[q.pos + j] == escaped(rest)[j] by {
                assert(input[p.pos + k + j] == w[k + j]);
            }
        }
        if k == 2 {
            assert(input[p.pos + 1] == w[1]);
            assert(input[p.pos] == '\\');
            assert(step_n(input, step(input, step(input, p)), 0) == step(input, step(input, p)));
            assert(step_n(input, step(input, p), 1) == step(input, step(input, p)));
            assert(step_n(input, p, 2) == step(input, step(input, p)));
        } else {
            assert(step_n(input, step(input, p), 0) == step(input, p));
            assert(step_n(input, p, 1) == step(input, p));
        }
        assert(string_body(input, config, p, acc) == string_body(input, config, q, acc.push(c)));
        lemma_string_body_escaped(input, config, q, acc.push(c), rest);
        assert(acc.push(c) + rest =~= acc + x);
        lemma_step_n_add(input, p, k as nat, escaped(rest).len());
        assert(k as nat + escaped(rest).len() == w.len());
    }
}

/// A string literal that writes the text `x` with `escape_of`, between
/// double quotes, is read back as the string `x`, in every dialect.
pub proof fn law_string_literal_reads_back(x: Seq<char>, config: ParseConfig)
    ensures
        ({
            let input = seq!['"'] + escaped(x) + seq!['"'];
            &&& next_token(input, config, start_cursor()).1 == Ok::<TokenV, ErrV>(
                TokenV { kind: TokenKindV::Str(x), span: span_at(start_cursor()) },
            )
            &&& next_token(input, config, start_cursor()).0.pos == input.len()
        }),
{
    let input = seq!['"'] + escaped(x) + seq!['"'];
    let p = start_cursor();
    let p1 = step(input, p);
    let n = escaped(x).len();
    assert(input[0] == '"');
    assert(p1.pos == 1);
    assert(input.subrange(1, n + 1int) =~= escaped(x));
    lemma_string_body_escaped(input, config, p1, Seq::empty(), x);
    let q = step_n(input, p1, n);
    lemma_step_n(input, p1, n);
    assert(input[q.pos] == '"');
    assert(Seq::<char>::empty() + x =~= x);
    assert(string_body(input, config, q, x) == (q, Ok::<Seq<char>, ErrV>(x)));
}

/// A raw line break inside a string literal belongs to the string where the
/// dialect allows it; elsewhere the literal is unterminated, reported where
/// the line break stands.
pub proof fn law_string_line_break(x: Seq<char>, y: Seq<char>, config: ParseConfig)
    ensures
        ({
            let input = seq!['"'] + escaped(x) + seq!['\n'] + escaped(y) + seq!['"'];
            let at = Cursor { pos: escaped(x).len() + 1int, line: 1, col: escaped(x).len() + 2int };
            &&& config.allow_new_line_in_string ==> next_token(input, config, start_cursor()).1 == Ok::<
                TokenV,
                ErrV,
            >(TokenV { kind: TokenKindV::Str(x + seq!['\n'] + y), span: span_at(start_cursor()) })
            &&& !config.allow_new_line_in_string ==> next_token(input, config, start_cursor()).1 == Err::<
                TokenV,
                ErrV,
            >(ErrV::Lex { span: span_at(at), message: "Unterminated string literal"@ })
        }),
{
    let input = seq!['"'] + escaped(x) + seq!['\n'] + escaped(y) + seq!['"'];
    let p = start_cursor();
    let p1 = step(input, p);
    let n = escaped(x).len();
    let m = escaped(y).len();
    assert(input[0] == '"');
    assert(input.subrange(1, n + 1int) =~= escaped(x));
    lemma_string_body_escaped(input, config, p1, Seq::empty(), x);
    let q = step_n(input, p1, n);
    lemma_escaped_one_line(x);
    assert forall|k: int| 1 <= k < 1 + n implies input[k] != '\n' by {
        assert(input[k] == escaped(x)[k - 1]);
    }
    lemma_step_n_same_line(input, p1, n);
    let at = Cursor { pos: n + 1int, line: 1, col: n + 2int };
    assert(q == at);
    assert(input[at.pos] == '\n');
    assert(Seq::<char>::empty() + x =~= x);
    if config.allow_new_line_in_string {
        let q1 = step(input, at);
        assert(string_body(input, config, at, x) == string_body(input, config, q1, x.push('\n')));
        assert(input.subrange(n + 2int, n + m + 2int) =~= escaped(y));
        lemma_string_body_escaped(input, config, q1, x.push('\n'), y);
        let q2 = step_n(input, q1, m);
        lemma_step_n(input, q1, m);
        assert(input[q2.pos] == '"');
        assert(x.push('\n') + y =~= x + seq!['\n'] + y);
    }
}

/// A character literal, the character between single quotes (a backslash,
/// a double quote, a line break, a tab, a carriage return and the zero
/// character by their escapes), is read back as that character.
pub proof fn law_char_literal_reads_back(c: char, config: ParseConfig)
    ensures
        ({
            let input = seq!['\''] + escape_of(c) + seq!['\''];
            &&& next_token(input, config, start_cursor()).1 == Ok::<TokenV, ErrV>(
                TokenV { kind: TokenKindV::Char(c), span: span_at(start_cursor()) },
            )
            &&& next_token(input, config, start_cursor()).0.pos == input.len()
        }),
{
    let input = seq!['\''] + escape_of(c) + seq!['\''];
    assert(input[0] == '\'');
    assert(input[1] == escape_of(c)[0]);
    assert(input[input.len() - 1] == '\'');
    if escape_of(c).len() == 2 {
        assert(input[2] == escape_of(c)[1]);
    }
}

/// A backslash in a string literal followed by a letter that names no escape
/// is an error that quotes the letter, reported after it.
pub proof fn law_invalid_escape(z: char, rest: Seq<char>, config: ParseConfig)
    requires
        z != 'n' && z != 't' && z != 'r' && z != '\\' && z != '"' && z != '\'' && z != '0',
        z != '\n',
    ensures
        next_token(seq!['"', '\\', z] + rest, config, start_cursor()).1 == Err::<TokenV, ErrV>(
            ErrV::Lex {
                span: span_at(Cursor { pos: 3, line: 1, col: 4 }),
                message: "Invalid escape character: \\"@ + seq![z],
            },
        ),
{
    let input = seq!['"', '\\', z] + rest;
    assert(input[0] == '"' && input[1] == '\\' && input[2] == z);
}

/// A comment runs from `//` to the end of its line: the lexer skips it and
/// reads the line break that ends it.
pub proof fn law_comment_skipped(c: Seq<char>, config: ParseConfig)
    requires
        forall|k: int| 0 <= k < c.len() ==> c[k] != '\n',
    ensures
        ({
            let input = "//"@ + c + seq!['\n'];
            let at = Cursor { pos: c.len() + 2int, line: 1, col: c.len() + 3int };
            next_token(input, config, start_cursor()) == (
                step(input, at),
                Ok::<TokenV, ErrV>(TokenV { kind: TokenKindV::EOL, span: span_at(at) }),
            )
        }),
{
    reveal_strlit("//");
    let input = "//"@ + c + seq!['\n'];
    let p = start_cursor();
    let m: int = c.len() + 2int;
    assert(input[0] == '/' && input[1] == '/');
    assert(input[m] == '\n');
    assert forall|k: int| 0 <= k < m implies input[k] != '\n' by {
        if k >= 2 {
            assert(input[k] == c[k - 2]);
        }
    }
    lemma_comment_to(input, 0, m);
    lemma_step_n_same_line(input, p, m as nat);
    let at = Cursor { pos: m, line: 1, col: m + 1 };
    assert(step_n(input, p, m as nat) == at);
    assert(next_token(input, config, at) == (
        step(input, at),
        Ok::<TokenV, ErrV>(TokenV { kind: TokenKindV::EOL, span: span_at(at) }),
    ));
    assert(next_token(input, config, p) == next_token(input, config, at));
}

/// A comment from `i` ends at the first line break after it.
proof fn lemma_comment_to(input: Seq<char>, i: int, m: int)
    requires
        0 <= i <= m < input.len(),
        input[m] == '\n',
        forall|k: int| i <= k < m ==> input[k] != '\n',
    ensures
        comment_end(input, i) == m,
    decreases m - i,
{
    if i < m {
        lemma_comment_to(input, i + 1, m);
    }
}

/// A name written alone (a letter or `_`, then letters, digits or `_`) is
/// read whole as one word, whose kind is that of the word, and the lexer
/// moves past it.
pub proof fn law_word_read_whole(w: Seq<char>, config: ParseConfig)
    requires
        w.len() > 0,
        is_word_start(w[0]),
        forall|k: int| 0 <= k < w.len() ==> is_word_char(#[trigger] w[k]),
    ensures
        next_token(w, config, start_cursor()).1 == Ok::<TokenV, ErrV>(
            TokenV { kind: word_kind(config, w), span: span_at(start_cursor()) },
        ),
        next_token(w, config, start_cursor()).0.pos == w.len(),
{
    lemma_word_run(w, 0);
    assert(w.subrange(0, w.len() as int) =~= w);
    lemma_step_n(w, start_cursor(), w.len());
}

proof fn lemma_word_run(w: Seq<char>, i: int)
    requires
        0 <= i <= w.len(),
        forall|k: int| 0 <= k < w.len() ==> is_word_char(#[trigger] w[k]),
    ensures
        word_end(w, i) == w.len(),
    decreases w.len() - i,
{
    if i < w.len() {
        lemma_word_run(w, i + 1);
    }
}

/// Ten to the power `k`.
pub open spec fn pow10(k: nat) -> nat
    decreases k,
{
    if k == 0 {
        1
    } else {
        10 * pow10((k - 1) as nat)
    }
}

/// The decimal form of a natural number has as many digits as the number
/// needs: `k` digits for the numbers from `10^(k-1)` up to `10^k - 1`, and
/// one for zero.
pub proof fn law_decimal_length(n: nat)
    ensures
        n < pow10(nat_text(n).len()),
        n > 0 ==> pow10((nat_text(n).len() - 1) as nat) <= n,
    decreases n,
{
    if n >= 10 {
        law_decimal_length(n / 10);
        let k = nat_text(n / 10).len();
        assert(nat_text(n).len() == k + 1);
        assert(pow10(k + 1) == 10 * pow10(k));
        assert(pow10(k) == 10 * pow10((k - 1) as nat));
        assert(n < pow10(k + 1)) by (nonlinear_arith)
            requires
                n / 10 < pow10(k),
                pow10(k + 1) == 10 * pow10(k),
        ;
        assert(pow10(k) <= n) by (nonlinear_arith)
            requires
                n / 10 >= pow10((k - 1) as nat),
                pow10(k) == 10 * pow10((k - 1) as nat),
                n >= 10,
        ;
    } else {
        assert(pow10(0) == 1);
        assert(pow10(1) == 10 * pow10(0));
    }
}

/// A real numeral, digits with one `.` among them, is read as a real
/// number that keeps its text; a second `.` ends it.
pub proof fn law_real_numeral(d1: Seq<char>, d2: Seq<char>, rest: Seq<char>, config: ParseConfig)
    requires
        d1.len() > 0,
        forall|k: int| 0 <= k < d1.len() ==> is_digit(#[trigger] d1[k]),
        forall|k: int| 0 <= k < d2.len() ==> is_digit(#[trigger] d2[k]),
    ensures
        ({
            let text = d1 + seq!['.'] + d2;
            let input = text + seq!['.'] + rest;
            &&& next_token(input, config, start_cursor()).1 == Ok::<TokenV, ErrV>(
                TokenV { kind: TokenKindV::Float(text), span: span_at(start_cursor()) },
            )
            &&& next_token(input, config, start_cursor()).0.pos == text.len()
        }),
{
    let text = d1 + seq!['.'] + d2;
    let input = text + seq!['.'] + rest;
    let a = d1.len() as int;
    let b = text.len() as int;
    assert forall|k: int| 0 <= k < a implies is_digit(#[trigger] input[k]) by {
        assert(input[k] == d1[k]);
    }
    assert forall|k: int| a + 1 <= k < b implies is_digit(#[trigger] input[k]) by {
        assert(input[k] == d2[k - a - 1]);
    }
    assert(input[a] == '.');
    assert(input[b] == '.');
    lemma_digits_between(input, 0, a, false);
    lemma_digits_between(input, a + 1, b, true);
    assert(number_end(input, b, true) == b);
    assert(number_end(input, a, false) == number_end(input, a + 1, true));
    assert(input.subrange(0, b) =~= text);
    assert(text[a] == '.');
    assert(is_digit(input[0]));
    lemma_step_n(input, start_cursor(), b as nat);
}

/// Digits from `i` to `m` are passed over in a number.
proof fn lemma_digits_between(input: Seq<char>, i: int, m: int, dot: bool)
    requires
        0 <= i <= m <= input.len(),
        forall|k: int| i <= k < m ==> is_digit(#[trigger] input[k]),
    ensures
        number_end(input, i, dot) == number_end(input, m, dot),
    decreases m - i,
{
    if i < m {
        lemma_digits_between(input, i + 1, m, dot);
    }
}

/// A run of digits from `i` to the end of the text is read to the end.
proof fn lemma_digits_run(input: Seq<char>, i: int)
    requires
        0 <= i <= input.len(),
        forall|k: int| 0 <= k < input.len() ==> is_digit(#[trigger] input[k]),
    ensures
        number_end(input, i, false) == input.len(),
    decreases input.len() - i,
{
    if i < input.len() {
        lemma_digits_run(input, i + 1);
    }
}

proof fn lemma_digit_char(d: nat)
    requires
        d < 10,
    ensures
        is_digit(digit_char(d)),
        digit_char(d) as int - '0' as int == d,
{
}

proof fn lemma_nat_text(n: nat)
    ensures
        nat_text(n).len() > 0,
        forall|k: int| 0 <= k < nat_text(n).len() ==> is_digit(#[trigger] nat_text(n)[k]),
        n > 0 ==> nat_text(n)[0] != '0',
        digits_value(nat_text(n)) == n,
    decreases n,
{
    if n < 10 {
        lemma_digit_char(n);
        assert(nat_text(n).drop_last() =~= Seq::<char>::empty());
        assert(digits_value(Seq::<char>::empty()) == 0);
        assert(nat_text(n).last() == digit_char(n));
    } else {
        lemma_nat_text(n / 10);
        lemma_digit_char(n % 10);
        let t = nat_text(n);
        assert(t.drop_last() =~= nat_text(n / 10));
        assert(t[0] == nat_text(n / 10)[0]);
        assert(t.last() == digit_char(n % 10));
        assert(n == (n / 10) * 10 + n % 10);
    }
}

} // verus!
