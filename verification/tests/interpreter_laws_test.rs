use caie_code_rs::{
    CpcError, EvalOut, ExecOut, Expr, Flow, Halt, Interpreter, Op, OutPiece, RuntimeErrorKind, RuntimeValue, Stmt,
    Type,
};

fn lit(v: RuntimeValue) -> Expr {
    Expr::Literal { value: v, span: None }
}

fn num(i: i64) -> Expr {
    lit(RuntimeValue::Int(i))
}

fn var(name: &str) -> Expr {
    Expr::Get { name: name.to_string(), span: None }
}

fn bin(l: Expr, op: Op, r: Expr) -> Expr {
    Expr::Binary { left: Box::new(l), op, right: Box::new(r), span: None }
}

fn text_of(interp: &Interpreter) -> String {
    let mut s = String::new();
    for piece in interp.output() {
        match piece {
            OutPiece::Text(t) => s.push_str(t),
            OutPiece::Real(bits) => s.push_str(&f64::from_bits(*bits).to_string()),
        }
    }
    s
}

fn as_int(r: Result<RuntimeValue, CpcError>) -> i64 {
    match r {
        Ok(RuntimeValue::Int(i)) => i,
        other => panic!("expected an integer, got {:?}", other),
    }
}

fn kind_of(r: Result<RuntimeValue, CpcError>) -> RuntimeErrorKind {
    match r {
        Err(CpcError::Runtime { kind, .. }) => kind,
        other => panic!("expected a run-time error, got {:?}", other),
    }
}

#[test]
fn define_then_get_gives_starting_values() {
    let mut interp = Interpreter::new();
    assert!(interp.define("N".to_string(), Type::Int).is_ok());
    assert!(interp.define("S".to_string(), Type::Str).is_ok());
    assert!(interp.define("B".to_string(), Type::Bool).is_ok());
    assert!(interp.define("Z".to_string(), Type::Null).is_ok());
    assert_eq!(as_int(interp.get("N".to_string())), 0);
    assert!(matches!(interp.get("S".to_string()), Ok(RuntimeValue::Str(s)) if s.is_empty()));
    assert!(matches!(interp.get("B".to_string()), Ok(RuntimeValue::Bool(false))));
    assert!(matches!(interp.get("Z".to_string()), Ok(RuntimeValue::Null)));
}

#[test]
fn define_without_starting_value_fails() {
    let mut interp = Interpreter::new();
    let r = interp.define("R".to_string(), Type::Record("Point".to_string()));
    assert!(matches!(r, Err(CpcError::Runtime { kind: RuntimeErrorKind::TypeWithoutDefaultValue(Type::Record(_)), .. })));
    assert!(matches!(kind_of(interp.get("R".to_string())), RuntimeErrorKind::UndefinedVariable(n) if n == "R"));
}

#[test]
fn set_then_get_gives_the_value() {
    let mut interp = Interpreter::new();
    interp.define("X".to_string(), Type::Int).unwrap();
    assert!(interp.set("X".to_string(), bin(num(40), Op::Add, num(2))).is_ok());
    assert_eq!(as_int(interp.get("X".to_string())), 42);
}

#[test]
fn set_of_undefined_variable_fails() {
    let mut interp = Interpreter::new();
    let r = interp.set("Nope".to_string(), num(1));
    assert!(matches!(r, Err(CpcError::Runtime { kind: RuntimeErrorKind::AssignToUndefined(n), .. }) if n == "Nope"));
}

#[test]
fn store_then_index_reads_it_back() {
    let mut interp = Interpreter::new();
    interp.define("A".to_string(), Type::Array(Box::new(Type::Int), 3, 6)).unwrap();
    assert!(interp.index_set(var("A"), num(5), num(77)).is_ok());
    let read = |i: i64| Expr::Index { target: Box::new(var("A")), index: Box::new(num(i)), span: None };
    assert_eq!(as_int(interp.evaluate(read(5))), 77);
    assert_eq!(as_int(interp.evaluate(read(4))), 0);
    assert!(matches!(
        kind_of(interp.evaluate(read(7))),
        RuntimeErrorKind::IndexOutOfBounds { index: 7, range: (3, 6) }
    ));
}

#[test]
fn index_errors() {
    let mut interp = Interpreter::new();
    interp.define("A".to_string(), Type::Array(Box::new(Type::Int), 1, 2)).unwrap();
    interp.define("N".to_string(), Type::Int).unwrap();
    let r = interp.index_set(var("A"), lit(RuntimeValue::Bool(true)), num(1));
    assert!(matches!(r, Err(CpcError::Runtime { kind: RuntimeErrorKind::InvalidIndex(RuntimeValue::Bool(true)), .. })));
    let r = interp.index_set(var("N"), num(1), num(1));
    assert!(matches!(r, Err(CpcError::Runtime { kind: RuntimeErrorKind::NotIndexable(Type::Int), .. })));
    let r = interp.index_set(var("A"), num(0), num(1));
    assert!(matches!(
        r,
        Err(CpcError::Runtime { kind: RuntimeErrorKind::IndexOutOfBounds { index: 0, range: (1, 2) }, .. })
    ));
    let e = Expr::Index { target: Box::new(var("N")), index: Box::new(num(1)), span: None };
    assert!(matches!(kind_of(interp.evaluate(e)), RuntimeErrorKind::Other(m) if m == "Invalid index operation"));
}

#[test]
fn neq_is_not_eq() {
    let interp = Interpreter::new();
    let pairs = vec![
        (RuntimeValue::Int(3), RuntimeValue::Int(3)),
        (RuntimeValue::Int(3), RuntimeValue::Int(4)),
        (RuntimeValue::Str("a".to_string()), RuntimeValue::Str("b".to_string())),
        (RuntimeValue::Bool(true), RuntimeValue::Bool(true)),
        (RuntimeValue::Null, RuntimeValue::Null),
        (RuntimeValue::Float(f64::NAN.to_bits()), RuntimeValue::Float(f64::NAN.to_bits())),
    ];
    for (l, r) in pairs {
        let eq = interp.binary_op(l.clone(), Op::Eq, r.clone());
        let neq = interp.binary_op(l, Op::Neq, r);
        match (eq, neq) {
            (Ok(RuntimeValue::Bool(a)), Ok(RuntimeValue::Bool(b))) => assert_eq!(a, !b),
            other => panic!("unexpected {:?}", other),
        }
    }
}

#[test]
fn comparisons_are_converse() {
    let interp = Interpreter::new();
    let gt = interp.binary_op(RuntimeValue::Str("b".to_string()), Op::Gt, RuntimeValue::Str("a".to_string()));
    let lt = interp.binary_op(RuntimeValue::Str("a".to_string()), Op::Lt, RuntimeValue::Str("b".to_string()));
    assert!(matches!(gt, Ok(RuntimeValue::Bool(true))));
    assert!(matches!(lt, Ok(RuntimeValue::Bool(true))));
    let ge = interp.binary_op(RuntimeValue::Float(1.5f64.to_bits()), Op::Gte, RuntimeValue::Float((-0.0f64).to_bits()));
    let le = interp.binary_op(RuntimeValue::Float((-0.0f64).to_bits()), Op::Lte, RuntimeValue::Float(1.5f64.to_bits()));
    assert!(matches!(ge, Ok(RuntimeValue::Bool(true))));
    assert!(matches!(le, Ok(RuntimeValue::Bool(true))));
    let zero = interp.binary_op(RuntimeValue::Float(0.0f64.to_bits()), Op::Eq, RuntimeValue::Float((-0.0f64).to_bits()));
    assert!(matches!(zero, Ok(RuntimeValue::Bool(true))));
}

#[test]
fn int_div_and_mod_round_toward_zero() {
    let interp = Interpreter::new();
    assert_eq!(as_int(interp.binary_op(RuntimeValue::Int(7), Op::FullDiv, RuntimeValue::Int(2))), 3);
    assert_eq!(as_int(interp.binary_op(RuntimeValue::Int(7), Op::Mod, RuntimeValue::Int(2))), 1);
    assert_eq!(as_int(interp.binary_op(RuntimeValue::Int(-7), Op::FullDiv, RuntimeValue::Int(2))), -3);
    assert_eq!(as_int(interp.binary_op(RuntimeValue::Int(-7), Op::Mod, RuntimeValue::Int(2))), -1);
    assert_eq!(as_int(interp.binary_op(RuntimeValue::Int(7), Op::Mod, RuntimeValue::Int(-2))), 1);
    assert_eq!(as_int(interp.binary_op(RuntimeValue::Int(i64::MIN), Op::FullDiv, RuntimeValue::Int(2))), i64::MIN / 2);
}

#[test]
fn negation_twice_gives_back() {
    let interp = Interpreter::new();
    let once = interp.unary_op(Op::Neg, RuntimeValue::Int(9)).unwrap();
    assert!(matches!(interp.unary_op(Op::Neg, once), Ok(RuntimeValue::Int(9))));
    let x = 2.5f64.to_bits();
    let once = interp.unary_op(Op::Neg, RuntimeValue::Float(x)).unwrap();
    assert!(matches!(once, RuntimeValue::Float(b) if f64::from_bits(b) == -2.5));
    assert!(matches!(interp.unary_op(Op::Neg, once), Ok(RuntimeValue::Float(b)) if b == x));
    assert!(matches!(interp.unary_op(Op::Not, RuntimeValue::Bool(true)), Ok(RuntimeValue::Bool(false))));
}

#[test]
fn operator_type_errors() {
    let interp = Interpreter::new();
    let r = interp.binary_op(RuntimeValue::Int(1), Op::Add, RuntimeValue::Str("x".to_string()));
    assert!(matches!(kind_of(r), RuntimeErrorKind::InvalidOp { op: Op::Add, left: Type::Int, right: Type::Str }));
    let r = interp.binary_op(RuntimeValue::Bool(true), Op::Lt, RuntimeValue::Bool(false));
    assert!(matches!(kind_of(r), RuntimeErrorKind::InvalidOp { op: Op::Lt, left: Type::Bool, right: Type::Bool }));
    let r = interp.unary_op(Op::Not, RuntimeValue::Int(1));
    assert!(matches!(kind_of(r), RuntimeErrorKind::InvalidUnaryOp { op: Op::Not, operand: Type::Int }));
    let r = interp.binary_op(RuntimeValue::Str("a".to_string()), Op::Concat, RuntimeValue::Str("b".to_string()));
    assert!(matches!(r, Ok(RuntimeValue::Str(s)) if s == "ab"));
}

#[test]
fn halts_where_rust_would_panic_or_compute_reals() {
    let mut interp = Interpreter::new();
    let r = interp.try_evaluate(&bin(num(i64::MAX), Op::Add, num(1)), 10);
    assert!(matches!(r, EvalOut::Halted(Halt::Panic)));
    let r = interp.try_evaluate(&bin(num(1), Op::FullDiv, num(0)), 10);
    assert!(matches!(r, EvalOut::Halted(Halt::Panic)));
    let r = interp.try_evaluate(&bin(num(1), Op::Mod, num(0)), 10);
    assert!(matches!(r, EvalOut::Halted(Halt::Panic)));
    // `/` is ordinary division: 7 / 2 is the real 3.5, which the core does not compute.
    let r = interp.try_evaluate(&bin(num(7), Op::Div, num(2)), 10);
    assert!(matches!(r, EvalOut::Halted(Halt::Real)));
    let r = interp.try_evaluate(&bin(num(1), Op::Div, num(0)), 10);
    assert!(matches!(r, EvalOut::Halted(Halt::Real)));
    let one = lit(RuntimeValue::Float(1.0f64.to_bits()));
    let r = interp.try_evaluate(&bin(one, Op::Add, lit(RuntimeValue::Float(2.0f64.to_bits()))), 10);
    assert!(matches!(r, EvalOut::Halted(Halt::Real)));
    let forever = Stmt::While { condition: lit(RuntimeValue::Bool(true)), body: Box::new(Stmt::Block { stmts: vec![], span: None }), span: None };
    assert!(matches!(interp.try_execute(&forever, 50), ExecOut::Halted(Halt::OutOfFuel)));
    let cond_error = Stmt::If { condition: var("Missing"), true_body: Box::new(Stmt::Break { span: None }), false_body: None, span: None };
    assert!(matches!(interp.try_execute(&cond_error, 5), ExecOut::Halted(Halt::Panic)));
}

#[test]
fn block_declarations_stay_inside() {
    let mut interp = Interpreter::new();
    let before = interp.current();
    let block = Stmt::Block {
        stmts: vec![Stmt::VarDecl { name: "Inner".to_string(), var_type: Type::Int, span: None }],
        span: None,
    };
    assert!(matches!(interp.execute(block), Flow::Normal));
    assert_eq!(interp.current(), before);
    assert!(matches!(kind_of(interp.get("Inner".to_string())), RuntimeErrorKind::UndefinedVariable(_)));
}

#[test]
fn call_declarations_stay_inside() {
    let mut interp = Interpreter::new();
    let decl = Stmt::FuncDecl {
        name: "F".to_string(),
        params: vec![("P".to_string(), Type::Int)],
        return_type: Some(Type::Int),
        body: Box::new(Stmt::Return { value: Some(bin(var("P"), Op::Mul, num(2))), span: None }),
        span: None,
    };
    interp.execute(decl);
    let r = interp.call_func("F".to_string(), vec![num(21)]);
    assert!(matches!(r, RuntimeValue::Int(42)));
    assert!(matches!(kind_of(interp.get("P".to_string())), RuntimeErrorKind::UndefinedVariable(_)));
    // A wrong number of arguments, or a name that is not a function, gives NULL.
    assert!(matches!(interp.call_func("F".to_string(), vec![]), RuntimeValue::Null));
    assert!(matches!(interp.call_func("G".to_string(), vec![num(1)]), RuntimeValue::Null));
}

#[test]
fn statements_keep_current_scope_and_only_add_output() {
    let mut interp = Interpreter::new();
    let before = interp.current();
    interp.execute(Stmt::Print { value: vec![num(1), lit(RuntimeValue::Str("a".to_string()))], span: None });
    let first = text_of(&interp);
    interp.execute(Stmt::Print { value: vec![lit(RuntimeValue::Bool(true)), lit(RuntimeValue::Null)], span: None });
    let second = text_of(&interp);
    assert_eq!(first, "1 a \n");
    assert!(second.starts_with(&first));
    assert_eq!(second, "1 a \nTRUE NULL \n");
    assert_eq!(interp.current(), before);
}

#[test]
fn printing_arrays_functions_and_reals() {
    let mut interp = Interpreter::new();
    interp.define("A".to_string(), Type::Array(Box::new(Type::Int), 1, 3)).unwrap();
    interp.index_set(var("A"), num(2), num(-5)).unwrap();
    let decl = Stmt::FuncDecl {
        name: "Fn".to_string(),
        params: vec![],
        return_type: None,
        body: Box::new(Stmt::Block { stmts: vec![], span: None }),
        span: None,
    };
    interp.execute(decl);
    interp
        .print(vec![var("A"), var("Fn"), lit(RuntimeValue::Float(2.5f64.to_bits()))])
        .unwrap();
    assert_eq!(text_of(&interp), "[0, -5, 0] <function Fn> 2.5 \n");
}

#[test]
fn print_stops_at_an_error() {
    let mut interp = Interpreter::new();
    let r = interp.print(vec![num(1), var("Missing"), num(2)]);
    assert!(matches!(r, Err(CpcError::Runtime { kind: RuntimeErrorKind::UndefinedVariable(_), .. })));
    assert_eq!(text_of(&interp), "1 ");
}

#[test]
fn condition_truth() {
    let interp = Interpreter::new();
    assert!(interp.runtime2bool(RuntimeValue::Int(-1)));
    assert!(!interp.runtime2bool(RuntimeValue::Int(0)));
    assert!(interp.runtime2bool(RuntimeValue::Float(0.5f64.to_bits())));
    assert!(!interp.runtime2bool(RuntimeValue::Float((-0.0f64).to_bits())));
    assert!(!interp.runtime2bool(RuntimeValue::Str("TRUE".to_string())));
    assert!(!interp.runtime2bool(RuntimeValue::Null));
}

#[test]
fn loop_entry_points() {
    let mut interp = Interpreter::new();
    interp.define("S".to_string(), Type::Int).unwrap();
    let add = |e: Expr| Box::new(Stmt::Assign { name: "S".to_string(), value: bin(var("S"), Op::Add, e), span: None });
    assert!(matches!(interp.for_stmt("K".to_string(), num(1), num(4), add(var("K")), None), Flow::Normal));
    assert_eq!(as_int(interp.get("S".to_string())), 10);
    assert!(matches!(interp.while_stmt(bin(var("S"), Op::Lt, num(13)), add(num(1))), Flow::Normal));
    assert_eq!(as_int(interp.get("S".to_string())), 13);
    assert!(matches!(interp.repeat_stmt(add(num(2)), bin(var("S"), Op::Gte, num(16))), Flow::Normal));
    assert_eq!(as_int(interp.get("S".to_string())), 17);
    let flow = interp.if_stmt(lit(RuntimeValue::Bool(false)), add(num(100)), Some(Box::new(Stmt::Return { value: None, span: None })));
    assert!(matches!(flow, Flow::Return(RuntimeValue::Null)));
    // A FOR loop whose bounds are not integers runs no turn.
    assert!(matches!(interp.for_stmt("K".to_string(), lit(RuntimeValue::Null), num(4), add(num(1000)), None), Flow::Normal));
    assert_eq!(as_int(interp.get("S".to_string())), 17);
}

#[test]
fn scopes_chain_outward() {
    let mut interp = Interpreter::new();
    let root = interp.current();
    interp.define_in(root, "V".to_string(), RuntimeValue::Int(1));
    let child = interp.child_scope(root);
    assert!(matches!(interp.get_in(child, &"V".to_string()), Some(RuntimeValue::Int(1))));
    interp.define_in(child, "V".to_string(), RuntimeValue::Int(2));
    assert!(matches!(interp.get_in(child, &"V".to_string()), Some(RuntimeValue::Int(2))));
    assert!(matches!(interp.get_in(root, &"V".to_string()), Some(RuntimeValue::Int(1))));
    assert!(interp.set_in(child, &"V".to_string(), RuntimeValue::Int(3)));
    assert!(matches!(interp.get_in(root, &"V".to_string()), Some(RuntimeValue::Int(1))));
    assert!(!interp.set_in(root, &"W".to_string(), RuntimeValue::Int(3)));
    assert!(interp.get_in(root, &"W".to_string()).is_none());
}

#[test]
fn arrays_in_the_store() {
    let mut interp = Interpreter::new();
    let v = interp.default_type_value(&Type::Array(Box::new(Type::Bool), 2, 4)).unwrap();
    let a = match v {
        RuntimeValue::Array(a) => a,
        other => panic!("expected an array, got {:?}", other),
    };
    let arr = interp.array(a).unwrap();
    assert_eq!((arr.start(), arr.end(), arr.len()), (2, 4, 3));
    assert!(matches!(arr.get(3), Ok(RuntimeValue::Bool(false))));
    assert!(matches!(arr.get(5), Err(CpcError::Runtime { kind: RuntimeErrorKind::IndexOutOfBounds { index: 5, range: (2, 4) }, .. })));
    // An array whose last index comes before its first still holds one element.
    let w = interp.default_type_value(&Type::Array(Box::new(Type::Int), 5, 1)).unwrap();
    let b = match w {
        RuntimeValue::Array(b) => b,
        other => panic!("expected an array, got {:?}", other),
    };
    assert_eq!(interp.array(b).unwrap().len(), 1);
    assert!(interp.array(99).is_none());
}

#[test]
fn report_texts() {
    let e = CpcError::Runtime { span: None, kind: RuntimeErrorKind::UndefinedVariable("Q".to_string()) };
    assert_eq!(e.report(), "Runtime Error: UndefinedVariable(\"Q\")");
    let span = caie_code_rs::Span { line: 3, column: 14 };
    let e = CpcError::Runtime { span: Some(span), kind: RuntimeErrorKind::DivideByZero };
    assert_eq!(e.report(), "Runtime Error: DivideByZero\nAt line 3, column 14: DivideByZero");
    let e = CpcError::Parse { span, message: "bad".to_string(), expected: Some("THEN".to_string()) };
    assert_eq!(e.report(), "Parse Error at line 3, column 14: bad\nExpected: THEN");
    let e = CpcError::Lex { span, message: "odd".to_string() };
    assert_eq!(e.report(), "Lexical Error at line 3, column 14: odd");
}

#[test]
fn functions_see_their_declaring_scope() {
    let mut interp = Interpreter::new();
    let program = Stmt::Block {
        stmts: vec![
            Stmt::VarDecl { name: "V".to_string(), var_type: Type::Int, span: None },
            Stmt::Assign { name: "V".to_string(), value: num(1), span: None },
            Stmt::FuncDecl {
                name: "Peek".to_string(),
                params: vec![],
                return_type: Some(Type::Int),
                body: Box::new(Stmt::Return { value: Some(var("V")), span: None }),
                span: None,
            },
            Stmt::Block {
                stmts: vec![
                    Stmt::VarDecl { name: "V".to_string(), var_type: Type::Int, span: None },
                    Stmt::Assign { name: "V".to_string(), value: num(5), span: None },
                    Stmt::Print {
                        value: vec![Expr::Call { name: "Peek".to_string(), args: vec![], span: None }, var("V")],
                        span: None,
                    },
                ],
                span: None,
            },
        ],
        span: None,
    };
    interp.execute(program);
    assert_eq!(text_of(&interp), "1 5 \n");
}

#[test]
fn a_larger_budget_changes_no_finished_run() {
    let program = || Stmt::Block {
        stmts: vec![
            Stmt::VarDecl { name: "T".to_string(), var_type: Type::Int, span: None },
            Stmt::For {
                var_name: "K".to_string(),
                start: num(1),
                end: num(3),
                body: Box::new(Stmt::Assign { name: "T".to_string(), value: bin(var("T"), Op::Add, var("K")), span: None }),
                span: None,
            },
            Stmt::Print { value: vec![var("T")], span: None },
        ],
        span: None,
    };
    let mut small = Interpreter::new();
    let mut large = Interpreter::new();
    assert!(matches!(small.try_execute(&program(), 4), ExecOut::Flow(Flow::Normal)));
    assert!(matches!(large.try_execute(&program(), 1_000_000), ExecOut::Flow(Flow::Normal)));
    assert_eq!(text_of(&small), "6 \n");
    assert_eq!(text_of(&large), text_of(&small));
    // Three turns need a budget of three; with two the loop is cut short.
    let mut cut = Interpreter::new();
    assert!(matches!(cut.try_execute(&program(), 2), ExecOut::Halted(Halt::OutOfFuel)));
}

#[test]
fn values_that_name_no_object() {
    let mut interp = Interpreter::new();
    let forged = Expr::Index { target: Box::new(lit(RuntimeValue::Array(99))), index: Box::new(num(1)), span: None };
    assert!(matches!(interp.try_evaluate(&forged, 5), EvalOut::Halted(Halt::Dangling)));
    let record = Stmt::Print { value: vec![lit(RuntimeValue::Record(0))], span: None };
    assert!(matches!(interp.try_execute(&record, 5), ExecOut::Halted(Halt::Panic)));
    assert!(interp.value_pieces(&RuntimeValue::Func(7)).is_err());
}

#[test]
fn assignment_reaches_the_nearest_binding_scope() {
    let mut interp = Interpreter::new();
    let root = interp.current();
    interp.define_in(root, "A".to_string(), RuntimeValue::Int(1));
    let middle = interp.child_scope(root);
    interp.define_in(middle, "B".to_string(), RuntimeValue::Int(2));
    let inner = interp.child_scope(middle);
    // A is bound only in the root: assigning from the innermost scope changes it there.
    assert!(interp.set_in(inner, &"A".to_string(), RuntimeValue::Int(10)));
    assert!(matches!(interp.get_in(root, &"A".to_string()), Some(RuntimeValue::Int(10))));
    assert!(matches!(interp.get_in(inner, &"A".to_string()), Some(RuntimeValue::Int(10))));
    // No binding is made on the way.
    assert!(matches!(interp.get_in(middle, &"B".to_string()), Some(RuntimeValue::Int(2))));
    assert!(interp.get_in(root, &"B".to_string()).is_none());
    assert!(!interp.set_in(inner, &"C".to_string(), RuntimeValue::Int(3)));
    assert!(interp.get_in(inner, &"C".to_string()).is_none());
}

#[test]
fn for_loop_declares_its_variable_in_the_current_scope() {
    let mut interp = Interpreter::new();
    let flow = interp.for_stmt("K".to_string(), num(2), num(4), Box::new(Stmt::Block { stmts: vec![], span: None }), None);
    assert!(matches!(flow, Flow::Normal));
    assert_eq!(as_int(interp.get("K".to_string())), 4);
    // With an empty range the variable is still declared, with its default.
    let flow = interp.for_stmt("M".to_string(), num(5), num(1), Box::new(Stmt::Block { stmts: vec![], span: None }), None);
    assert!(matches!(flow, Flow::Normal));
    assert_eq!(as_int(interp.get("M".to_string())), 0);
}
