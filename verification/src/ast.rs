use vstd::prelude::*;
use crate::runtime::{RuntimeValue, Type, TypeV, Val};

verus! {

/// A position in the source text, counted from 1.
#[derive(Debug, Clone, Copy, PartialEq, Eq, Structural)]
pub struct Span {
    pub line: usize,
    pub column: usize,
}

/// The operators of expressions.
#[derive(Debug, Clone, Copy, PartialEq, Eq, Structural)]
pub enum Op {
    Add,
    Sub,
    Mul,
    Div,
    FullDiv,
    Mod,
    Eq,
    Neq,
    Lt,
    Lte,
    Gt,
    Gte,
    Not,
    And,
    Or,
    Neg,
    Concat,
}

/// Expressions of the language.
#[derive(Debug)]
pub enum Expr {
    Literal { value: RuntimeValue, span: Option<Span> },
    Binary { left: Box<Expr>, op: Op, right: Box<Expr>, span: Option<Span> },
    Unary { op: Op, operand: Box<Expr>, span: Option<Span> },
    Get { name: String, span: Option<Span> },
    Index { target: Box<Expr>, index: Box<Expr>, span: Option<Span> },
    Call { name: String, args: Vec<Expr>, span: Option<Span> },
}

/// Statements of the language.
#[derive(Debug)]
pub enum Stmt {
    Assign { name: String, value: Expr, span: Option<Span> },
    Block { stmts: Vec<Stmt>, span: Option<Span> },
    TypeDecl { name: String, fields: Vec<(String, Type)>, span: Option<Span> },
    VarDecl { name: String, var_type: Type, span: Option<Span> },
    Print { value: Vec<Expr>, span: Option<Span> },
    If { condition: Expr, true_body: Box<Stmt>, false_body: Option<Box<Stmt>>, span: Option<Span> },
    For { var_name: String, start: Expr, end: Expr, body: Box<Stmt>, span: Option<Span> },
    Repeat { body: Box<Stmt>, condition: Expr, span: Option<Span> },
    While { condition: Expr, body: Box<Stmt>, span: Option<Span> },
    Expr { value: Expr, span: Option<Span> },
    IndexAssign { target: Expr, index: Expr, value: Expr, span: Option<Span> },
    FuncDecl {
        name: String,
        params: Vec<(String, Type)>,
        return_type: Option<Type>,
        body: Box<Stmt>,
        span: Option<Span>,
    },
    Return { value: Option<Expr>, span: Option<Span> },
    Break { span: Option<Span> },
    Continue { span: Option<Span> },
}

/// The mathematical content of an expression.
pub enum ExprV {
    Literal { value: Val, span: Option<Span> },
    Binary { left: Box<ExprV>, op: Op, right: Box<ExprV>, span: Option<Span> },
    Unary { op: Op, operand: Box<ExprV>, span: Option<Span> },
    Get { name: Seq<char>, span: Option<Span> },
    Index { target: Box<ExprV>, index: Box<ExprV>, span: Option<Span> },
    Call { name: Seq<char>, args: Seq<ExprV>, span: Option<Span> },
}

/// The mathematical content of a statement.
pub enum StmtV {
    Assign { name: Seq<char>, value: ExprV },
    Block { stmts: Seq<StmtV> },
    TypeDecl { name: Seq<char>, fields: Seq<(Seq<char>, TypeV)> },
    VarDecl { name: Seq<char>, var_type: TypeV },
    Print { value: Seq<ExprV> },
    If { condition: ExprV, true_body: Box<StmtV>, false_body: Option<Box<StmtV>> },
    For { var_name: Seq<char>, start: ExprV, end: ExprV, body: Box<StmtV> },
    Repeat { body: Box<StmtV>, condition: ExprV },
    While { condition: ExprV, body: Box<StmtV> },
    Expr { value: ExprV },
    IndexAssign { target: ExprV, index: ExprV, value: ExprV },
    FuncDecl {
        name: Seq<char>,
        params: Seq<(Seq<char>, TypeV)>,
        return_type: Option<TypeV>,
        body: Box<StmtV>,
    },
    Return { value: Option<ExprV> },
    Break,
    Continue,
}

impl View for Expr {
    type V = ExprV;

    open spec fn view(&self) -> ExprV
        decreases self,
    {
        match self {
            Expr::Literal { value, span } => ExprV::Literal { value: value@, span: *span },
            Expr::Binary { left, op, right, span } => ExprV::Binary {
                left: Box::new((**left).view()),
                op: *op,
                right: Box::new((**right).view()),
                span: *span,
            },
            Expr::Unary { op, operand, span } => ExprV::Unary {
                op: *op,
                operand: Box::new((**operand).view()),
                span: *span,
            },
            Expr::Get { name, span } => ExprV::Get { name: name@, span: *span },
            Expr::Index { target, index, span } => ExprV::Index {
                target: Box::new((**target).view()),
                index: Box::new((**index).view()),
                span: *span,
            },
            Expr::Call { name, args, span } => ExprV::Call {
                name: name@,
                args: exprs_view(args@),
                span: *span,
            },
        }
    }
}

/// The contents of a list of expressions.
pub open spec fn exprs_view(s: Seq<Expr>) -> Seq<ExprV>
    decreases s,
{
    if s.len() == 0 {
        Seq::empty()
    } else {
        exprs_view(s.subrange(0, s.len() - 1)).push(s[s.len() - 1].view())
    }
}

/// The contents of a list of named types (parameters or fields).
pub open spec fn params_view(s: Seq<(String, Type)>) -> Seq<(Seq<char>, TypeV)> {
    s.map_values(|p: (String, Type)| (p.0@, p.1@))
}

impl View for Stmt {
    type V = StmtV;

    open spec fn view(&self) -> StmtV
        decreases self,
    {
        match self {
            Stmt::Assign { name, value, .. } => StmtV::Assign { name: name@, value: value@ },
            Stmt::Block { stmts, .. } => StmtV::Block { stmts: stmts_view(stmts@) },
            Stmt::TypeDecl { name, fields, .. } => StmtV::TypeDecl {
                name: name@,
                fields: params_view(fields@),
            },
            Stmt::VarDecl { name, var_type, .. } => StmtV::VarDecl { name: name@, var_type: var_type@ },
            Stmt::Print { value, .. } => StmtV::Print { value: exprs_view(value@) },
            Stmt::If { condition, true_body, false_body, .. } => StmtV::If {
                condition: condition@,
                true_body: Box::new((**true_body).view()),
                false_body: match false_body {
                    Some(b) => Some(Box::new((**b).view())),
                    None => None,
                },
            },
            Stmt::For { var_name, start, end, body, .. } => StmtV::For {
                var_name: var_name@,
                start: start@,
                end: end@,
                body: Box::new((**body).view()),
            },
            Stmt::Repeat { body, condition, .. } => StmtV::Repeat {
                body: Box::new((**body).view()),
                condition: condition@,
            },
            Stmt::While { condition, body, .. } => StmtV::While {
                condition: condition@,
                body: Box::new((**body).view()),
            },
            Stmt::Expr { value, .. } => StmtV::Expr { value: value@ },
            Stmt::IndexAssign { target, index, value, .. } => StmtV::IndexAssign {
                target: target@,
                index: index@,
                value: value@,
            },
            Stmt::FuncDecl { name, params, return_type, body, .. } => StmtV::FuncDecl {
                name: name@,
                params: params_view(params@),
                return_type: match return_type {
                    Some(t) => Some(t@),
                    None => None,
                },
                body: Box::new((**body).view()),
            },
            Stmt::Return { value, .. } => StmtV::Return {
                value: match value {
                    Some(e) => Some(e@),
                    None => None,
                },
            },
            Stmt::Break { .. } => StmtV::Break,
            Stmt::Continue { .. } => StmtV::Continue,
        }
    }
}

/// The contents of a list of statements.
pub open spec fn stmts_view(s: Seq<Stmt>) -> Seq<StmtV>
    decreases s,
{
    if s.len() == 0 {
        Seq::empty()
    } else {
        stmts_view(s.subrange(0, s.len() - 1)).push(s[s.len() - 1].view())
    }
}

impl Expr {
    /// A copy of the expression, with the same content.
    pub fn duplicate(&self) -> (r: Expr)
        ensures
            r@ == self@,
        decreases self,
    {
        match self {
            Expr::Literal { value, span } => Expr::Literal { value: value.duplicate(), span: *span },
            Expr::Binary { left, op, right, span } => Expr::Binary {
                left: Box::new((**left).duplicate()),
                op: *op,
                right: Box::new((**right).duplicate()),
                span: *span,
            },
            Expr::Unary { op, operand, span } => Expr::Unary {
                op: *op,
                operand: Box::new((**operand).duplicate()),
                span: *span,
            },
            Expr::Get { name, span } => Expr::Get { name: name.clone(), span: *span },
            Expr::Index { target, index, span } => Expr::Index {
                target: Box::new((**target).duplicate()),
                index: Box::new((**index).duplicate()),
                span: *span,
            },
            Expr::Call { name, args, span } => Expr::Call {
                name: name.clone(),
                args: duplicate_exprs(args),
                span: *span,
            },
        }
    }
}

/// A copy of a list of expressions, with the same content.
pub fn duplicate_exprs(v: &Vec<Expr>) -> (r: Vec<Expr>)
    ensures
        exprs_view(r@) == exprs_view(v@),
    decreases v,
{
    let mut r: Vec<Expr> = Vec::new();
    let mut i: usize = 0;
    while i < v.len()
        invariant
            i <= v.len(),
            r@.len() == i,
            exprs_view(r@) == exprs_view(v@.take(i as int)),
        decreases v.len() - i,
    {
        assert(decreases_to!(v => v@[i as int]));
        let e = v[i].duplicate();
        let ghost old_r = r@;
        r.push(e);
        i += 1;
        assert(r@.subrange(0, r@.len() - 1) =~= old_r);
        assert(v@.take(i as int).subrange(0, i - 1) =~= v@.take(i - 1));
    }
    assert(v@.take(v.len() as int) =~= v@);
    r
}

/// A copy of a list of named types, with the same content.
pub fn duplicate_params(v: &Vec<(String, Type)>) -> (r: Vec<(String, Type)>)
    ensures
        params_view(r@) == params_view(v@),
{
    let mut r: Vec<(String, Type)> = Vec::new();
    let mut i: usize = 0;
    while i < v.len()
        invariant
            i <= v.len(),
            r@.len() == i,
            forall|j: int| 0 <= j < i ==> r@[j].0@ == v@[j].0@ && r@[j].1@ == v@[j].1@,
        decreases v.len() - i,
    {
        let p = (v[i].0.clone(), v[i].1.duplicate());
        r.push(p);
        i += 1;
    }
    assert(params_view(r@) =~= params_view(v@));
    r
}

impl Stmt {
    /// A copy of the statement, with the same content.
    pub fn duplicate(&self) -> (r: Stmt)
        ensures
            r@ == self@,
        decreases self,
    {
        match self {
            Stmt::Assign { name, value, span } => Stmt::Assign {
                name: name.clone(),
                value: value.duplicate(),
                span: *span,
            },
            Stmt::Block { stmts, span } => Stmt::Block { stmts: duplicate_stmts(stmts), span: *span },
            Stmt::TypeDecl { name, fields, span } => Stmt::TypeDecl {
                name: name.clone(),
                fields: duplicate_params(fields),
                span: *span,
            },
            Stmt::VarDecl { name, var_type, span } => Stmt::VarDecl {
                name: name.clone(),
                var_type: var_type.duplicate(),
                span: *span,
            },
            Stmt::Print { value, span } => Stmt::Print { value: duplicate_exprs(value), span: *span },
            Stmt::If { condition, true_body, false_body, span } => Stmt::If {
                condition: condition.duplicate(),
                true_body: Box::new((**true_body).duplicate()),
                false_body: match false_body {
                    Some(b) => Some(Box::new((**b).duplicate())),
                    None => None,
                },
                span: *span,
            },
            Stmt::For { var_name, start, end, body, span } => Stmt::For {
                var_name: var_name.clone(),
                start: start.duplicate(),
                end: end.duplicate(),
                body: Box::new((**body).duplicate()),
                span: *span,
            },
            Stmt::Repeat { body, condition, span } => Stmt::Repeat {
                body: Box::new((**body).duplicate()),
                condition: condition.duplicate(),
                span: *span,
            },
            Stmt::While { condition, body, span } => Stmt::While {
                condition: condition.duplicate(),
                body: Box::new((**body).duplicate()),
                span: *span,
            },
            Stmt::Expr { value, span } => Stmt::Expr { value: value.duplicate(), span: *span },
            Stmt::IndexAssign { target, index, value, span } => Stmt::IndexAssign {
                target: target.duplicate(),
                index: index.duplicate(),
                value: value.duplicate(),
                span: *span,
            },
            Stmt::FuncDecl { name, params, return_type, body, span } => Stmt::FuncDecl {
                name: name.clone(),
                params: duplicate_params(params),
                return_type: match return_type {
                    Some(t) => Some(t.duplicate()),
                    None => None,
                },
                body: Box::new((**body).duplicate()),
                span: *span,
            },
            Stmt::Return { value, span } => Stmt::Return {
                value: match value {
                    Some(e) => Some(e.duplicate()),
                    None => None,
                },
                span: *span,
            },
            Stmt::Break { span } => Stmt::Break { span: *span },
            Stmt::Continue { span } => Stmt::Continue { span: *span },
        }
    }
}

/// A copy of a list of statements, with the same content.
pub fn duplicate_stmts(v: &Vec<Stmt>) -> (r: Vec<Stmt>)
    ensures
        stmts_view(r@) == stmts_view(v@),
    decreases v,
{
    let mut r: Vec<Stmt> = Vec::new();
    let mut i: usize = 0;
    while i < v.len()
        invariant
            i <= v.len(),
            r@.len() == i,
            stmts_view(r@) == stmts_view(v@.take(i as int)),
        decreases v.len() - i,
    {
        assert(decreases_to!(v => v@[i as int]));
        let e = v[i].duplicate();
        let ghost old_r = r@;
        r.push(e);
        i += 1;
        assert(r@.subrange(0, r@.len() - 1) =~= old_r);
        assert(v@.take(i as int).subrange(0, i - 1) =~= v@.take(i - 1));
    }
    assert(v@.take(v.len() as int) =~= v@);
    r
}

} // verus!

verus! {

pub proof fn lemma_exprs_view(s: Seq<Expr>)
    ensures
        exprs_view(s).len() == s.len(),
        forall|i: int| 0 <= i < s.len() ==> exprs_view(s)[i] == (#[trigger] s[i])@,
    decreases s.len(),
{
    if s.len() > 0 {
        let p = s.subrange(0, s.len() - 1);
        lemma_exprs_view(p);
        assert(exprs_view(s) == exprs_view(p).push(s[s.len() - 1]@));
        assert forall|i: int| 0 <= i < s.len() implies exprs_view(s)[i] == (#[trigger] s[i])@ by {
            if i < s.len() - 1 {
                assert(p[i] == s[i]);
            }
        }
    }
}

pub proof fn lemma_stmts_view(s: Seq<Stmt>)
    ensures
        stmts_view(s).len() == s.len(),
        forall|i: int| 0 <= i < s.len() ==> stmts_view(s)[i] == (#[trigger] s[i])@,
    decreases s.len(),
{
    if s.len() > 0 {
        let p = s.subrange(0, s.len() - 1);
        lemma_stmts_view(p);
        assert(stmts_view(s) == stmts_view(p).push(s[s.len() - 1]@));
        assert forall|i: int| 0 <= i < s.len() implies stmts_view(s)[i] == (#[trigger] s[i])@ by {
            if i < s.len() - 1 {
                assert(p[i] == s[i]);
            }
        }
    }
}

} // verus!
