use caie_code_rs::{OutPiece, Expr, Interpreter, Op, RuntimeValue, Stmt};

#[test]
fn if_stmt() {
	// 手动创建 AST
	let mock_ast = Stmt::Block {
		stmts: vec![
			Stmt::If {
				condition: Expr::Binary {
					left: Box::new(Expr::Literal { value: RuntimeValue::Bool(true), span: None }),
					op: Op::And,
					right: Box::new(Expr::Literal { value: RuntimeValue::Bool(false), span: None }),
					span: None
				},
				true_body: Box::new(Stmt::Print { value: vec![
					Expr::Literal { value: RuntimeValue::Str("TRUE AND FALSE = TRUE".to_string()), span: None }
				], span: None }),
				false_body: Some(Box::new(Stmt::Print { value: vec![
					Expr::Literal { value: RuntimeValue::Str("TRUE AND FALSE = FALSE".to_string()), span: None }
				], span: None })),
				span: None,
			},
			Stmt::If {
				condition: Expr::Binary {
					left: Box::new(Expr::Binary {
						left: Box::new(Expr::Literal { value: RuntimeValue::Int(1), span: None }),
						op: Op::Add,
						right: Box::new(Expr::Literal { value: RuntimeValue::Int(2), span: None }),
						span: None
					}),
					op: Op::Eq,
					right: Box::new(Expr::Literal { value: RuntimeValue::Int(3), span: None }),
					span: None
				},
				true_body: Box::new(Stmt::Print { value: vec![
					Expr::Literal { value: RuntimeValue::Str("1 + 2 = 3".to_string()), span: None }
				], span: None }),
				false_body: Some(Box::new(Stmt::Print { value: vec![
					Expr::Literal { value: RuntimeValue::Str("1 + 2 != 3".to_string()), span: None }
				], span: None })),
				span: None,
			},
		],
		span: None,
	};

	// 执行内核逻辑
	let mut interpreter = Interpreter::debug();
	interpreter.execute(mock_ast);
	assert_eq!(printed_if_test(&interpreter), "TRUE AND FALSE = FALSE \n1 + 2 = 3 \n");
}

/// The text the program printed, with real numbers written as Rust writes `f64`.
fn printed_if_test(interp: &Interpreter) -> String {
	let mut s = String::new();
	for piece in interp.output() {
		match piece {
			OutPiece::Text(t) => s.push_str(t),
			OutPiece::Real(bits) => s.push_str(&f64::from_bits(*bits).to_string()),
		}
	}
	s
}
