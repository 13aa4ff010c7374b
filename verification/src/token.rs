//! Tokens of the pseudocode, and the tables of keywords and operators that
//! each dialect recognises.
use vstd::prelude::*;
use crate::ast::Span;
use crate::config::ParseConfig;

verus! {

/// A token and where it starts.
#[derive(Debug)]
pub struct Token {
    pub kind: TokenKind,
    pub span: Span,
}

/// The kinds of tokens. A real number keeps the text it was written with.
#[derive(Debug)]
pub enum TokenKind {
    Int(i64),
    Float(String),
    Str(String),
    Char(char),
    Identifier(String),
    Keyword(Keyword),
    Assign,
    Operator(Operator),
    LParen,
    RParen,
    LBracket,
    RBracket,
    LBrace,
    RBrace,
    Comma,
    Semicolon,
    Colon,
    EOL,
    EOF,
}

/// The operators that the lexer recognises.
#[derive(Debug, Clone, Copy, PartialEq, Eq, Structural)]
pub enum Operator {
    Add,
    Sub,
    Mul,
    Div,
    Mod,
    FullDiv,
    And,
    Or,
    Not,
    Eq,
    Neq,
    Lt,
    Lte,
    Gt,
    Gte,
    Concat,
}

/// The keywords that the lexer recognises.
#[derive(Debug, Clone, Copy, PartialEq, Eq, Structural)]
pub enum Keyword {
    If,
    Then,
    Else,
    EndIf,
    While,
    Repeat,
    Until,
    EndWhile,
    For,
    To,
    Next,
    Step,
    Func,
    Return,
    Procedure,
    EndFunc,
    EndProcedure,
    Continue,
    Break,
    Declare,
    Constant,
    Input,
    Output,
    True,
    False,
    Null,
    ByRef,
    ByVal,
}

/// The content of a token kind.
pub enum TokenKindV {
    Int(i64),
    Float(Seq<char>),
    Str(Seq<char>),
    Char(char),
    Identifier(Seq<char>),
    Keyword(Keyword),
    Assign,
    Operator(Operator),
    LParen,
    RParen,
    LBracket,
    RBracket,
    LBrace,
    RBrace,
    Comma,
    Semicolon,
    Colon,
    EOL,
    EOF,
}

impl View for TokenKind {
    type V = TokenKindV;

    open spec fn view(&self) -> TokenKindV {
        match self {
            TokenKind::Int(i) => TokenKindV::Int(*i),
            TokenKind::Float(s) => TokenKindV::Float(s@),
            TokenKind::Str(s) => TokenKindV::Str(s@),
            TokenKind::Char(c) => TokenKindV::Char(*c),
            TokenKind::Identifier(s) => TokenKindV::Identifier(s@),
            TokenKind::Keyword(k) => TokenKindV::Keyword(*k),
            TokenKind::Assign => TokenKindV::Assign,
            TokenKind::Operator(o) => TokenKindV::Operator(*o),
            TokenKind::LParen => TokenKindV::LParen,
            TokenKind::RParen => TokenKindV::RParen,
            TokenKind::LBracket => TokenKindV::LBracket,
            TokenKind::RBracket => TokenKindV::RBracket,
            TokenKind::LBrace => TokenKindV::LBrace,
            TokenKind::RBrace => TokenKindV::RBrace,
            TokenKind::Comma => TokenKindV::Comma,
            TokenKind::Semicolon => TokenKindV::Semicolon,
            TokenKind::Colon => TokenKindV::Colon,
            TokenKind::EOL => TokenKindV::EOL,
            TokenKind::EOF => TokenKindV::EOF,
        }
    }
}

/// The content of a token.
pub struct TokenV {
    pub kind: TokenKindV,
    pub span: Span,
}

impl View for Token {
    type V = TokenV;

    open spec fn view(&self) -> TokenV {
        TokenV { kind: self.kind@, span: self.span }
    }
}

impl TokenKind {
    /// A copy of the token kind, with the same content.
    pub fn duplicate(&self) -> (r: TokenKind)
        ensures
            r@ == self@,
    {
        match self {
            TokenKind::Int(i) => TokenKind::Int(*i),
            TokenKind::Float(s) => TokenKind::Float(s.clone()),
            TokenKind::Str(s) => TokenKind::Str(s.clone()),
            TokenKind::Char(c) => TokenKind::Char(*c),
            TokenKind::Identifier(s) => TokenKind::Identifier(s.clone()),
            TokenKind::Keyword(k) => TokenKind::Keyword(*k),
            TokenKind::Assign => TokenKind::Assign,
            TokenKind::Operator(o) => TokenKind::Operator(*o),
            TokenKind::LParen => TokenKind::LParen,
            TokenKind::RParen => TokenKind::RParen,
            TokenKind::LBracket => TokenKind::LBracket,
            TokenKind::RBracket => TokenKind::RBracket,
            TokenKind::LBrace => TokenKind::LBrace,
            TokenKind::RBrace => TokenKind::RBrace,
            TokenKind::Comma => TokenKind::Comma,
            TokenKind::Semicolon => TokenKind::Semicolon,
            TokenKind::Colon => TokenKind::Colon,
            TokenKind::EOL => TokenKind::EOL,
            TokenKind::EOF => TokenKind::EOF,
        }
    }
}

/// The entry of `key` in a table of named entries: the first entry with that
/// name.
pub open spec fn assoc<K>(t: Seq<(Seq<char>, K)>, key: Seq<char>) -> Option<K>
    decreases t.len(),
{
    if t.len() == 0 {
        None
    } else if t[0].0 == key {
        Some(t[0].1)
    } else {
        assoc(t.drop_first(), key)
    }
}

/// The keywords of a dialect, spelt in upper case: those of every dialect,
/// `RETURN` where functions may return, and `CONTINUE` and `BREAK` where loops
/// may be left early.
pub open spec fn keyword_entries(config: ParseConfig) -> Seq<(Seq<char>, Keyword)> {
    seq![
        ("IF"@, Keyword::If),
        ("THEN"@, Keyword::Then),
        ("ELSE"@, Keyword::Else),
        ("ENDIF"@, Keyword::EndIf),
        ("WHILE"@, Keyword::While),
        ("REPEAT"@, Keyword::Repeat),
        ("UNTIL"@, Keyword::Until),
        ("ENDWHILE"@, Keyword::EndWhile),
        ("FOR"@, Keyword::For),
        ("TO"@, Keyword::To),
        ("NEXT"@, Keyword::Next),
        ("STEP"@, Keyword::Step),
        ("FUNCTION"@, Keyword::Func),
        ("PROCEDURE"@, Keyword::Procedure),
        ("ENDFUNCTION"@, Keyword::EndFunc),
        ("ENDPROCEDURE"@, Keyword::EndProcedure),
        ("DECLARE"@, Keyword::Declare),
        ("CONSTANT"@, Keyword::Constant),
        ("INPUT"@, Keyword::Input),
        ("OUTPUT"@, Keyword::Output),
        ("TRUE"@, Keyword::True),
        ("FALSE"@, Keyword::False),
        ("NULL"@, Keyword::Null),
    ] + (if config.allow_func_return {
        seq![("RETURN"@, Keyword::Return)]
    } else {
        Seq::empty()
    }) + (if config.allow_loop_control {
        seq![("CONTINUE"@, Keyword::Continue), ("BREAK"@, Keyword::Break)]
    } else {
        Seq::empty()
    })
}

/// The operators and punctuation of a dialect. Where `=` may assign, `=` is
/// assignment and `==` equality; elsewhere `=` is equality.
pub open spec fn operator_entries(config: ParseConfig) -> Seq<(Seq<char>, TokenKindV)> {
    seq![
        ("←"@, TokenKindV::Assign),
        ("<-"@, TokenKindV::Assign),
        ("+"@, TokenKindV::Operator(Operator::Add)),
        ("-"@, TokenKindV::Operator(Operator::Sub)),
        ("*"@, TokenKindV::Operator(Operator::Mul)),
        ("/"@, TokenKindV::Operator(Operator::Div)),
        ("MOD"@, TokenKindV::Operator(Operator::Mod)),
        ("AND"@, TokenKindV::Operator(Operator::And)),
        ("OR"@, TokenKindV::Operator(Operator::Or)),
        ("NOT"@, TokenKindV::Operator(Operator::Not)),
        ("DIV"@, TokenKindV::Operator(Operator::FullDiv)),
        ("<>"@, TokenKindV::Operator(Operator::Neq)),
        ("<"@, TokenKindV::Operator(Operator::Lt)),
        ("<="@, TokenKindV::Operator(Operator::Lte)),
        (">"@, TokenKindV::Operator(Operator::Gt)),
        (">="@, TokenKindV::Operator(Operator::Gte)),
        ("&"@, TokenKindV::Operator(Operator::Concat)),
        ("("@, TokenKindV::LParen),
        (")"@, TokenKindV::RParen),
        ("["@, TokenKindV::LBracket),
        ("]"@, TokenKindV::RBracket),
        ("{"@, TokenKindV::LBrace),
        ("}"@, TokenKindV::RBrace),
        (","@, TokenKindV::Comma),
        (";"@, TokenKindV::Semicolon),
        (":"@, TokenKindV::Colon),
    ] + (if config.allow_equal_assign {
        seq![("="@, TokenKindV::Assign), ("=="@, TokenKindV::Operator(Operator::Eq))]
    } else {
        seq![("="@, TokenKindV::Operator(Operator::Eq))]
    })
}

/// The content of a table of keywords.
pub open spec fn keyword_table_view(t: Seq<(String, Keyword)>) -> Seq<(Seq<char>, Keyword)> {
    t.map_values(|e: (String, Keyword)| (e.0@, e.1))
}

/// The content of a table of operators.
pub open spec fn operator_table_view(t: Seq<(String, TokenKind)>) -> Seq<(Seq<char>, TokenKindV)> {
    t.map_values(|e: (String, TokenKind)| (e.0@, e.1@))
}

fn add_keyword(t: &mut Vec<(String, Keyword)>, word: &str, k: Keyword)
    ensures
        keyword_table_view(final(t)@) == keyword_table_view(old(t)@).push((word@, k)),
{
    let ghost before = keyword_table_view(t@);
    t.push((String::from_str(word), k));
    assert(keyword_table_view(t@) =~= before.push((word@, k)));
}

fn add_operator(t: &mut Vec<(String, TokenKind)>, word: &str, k: TokenKind)
    ensures
        operator_table_view(final(t)@) == operator_table_view(old(t)@).push((word@, k@)),
{
    let ghost before = operator_table_view(t@);
    let ghost kv = k@;
    t.push((String::from_str(word), k));
    assert(operator_table_view(t@) =~= before.push((word@, kv)));
}

/// The keywords of the dialect `config`, each with its upper-case spelling.
pub fn get_keywords_map(config: &ParseConfig) -> (r: Vec<(String, Keyword)>)
    ensures
        keyword_table_view(r@) == keyword_entries(*config),
{
    let mut t: Vec<(String, Keyword)> = Vec::new();
    assert(keyword_table_view(t@) =~= Seq::<(Seq<char>, Keyword)>::empty());
    add_keyword(&mut t, "IF", Keyword::If);
    add_keyword(&mut t, "THEN", Keyword::Then);
    add_keyword(&mut t, "ELSE", Keyword::Else);
    add_keyword(&mut t, "ENDIF", Keyword::EndIf);
    add_keyword(&mut t, "WHILE", Keyword::While);
    add_keyword(&mut t, "REPEAT", Keyword::Repeat);
    add_keyword(&mut t, "UNTIL", Keyword::Until);
    add_keyword(&mut t, "ENDWHILE", Keyword::EndWhile);
    add_keyword(&mut t, "FOR", Keyword::For);
    add_keyword(&mut t, "TO", Keyword::To);
    add_keyword(&mut t, "NEXT", Keyword::Next);
    add_keyword(&mut t, "STEP", Keyword::Step);
    add_keyword(&mut t, "FUNCTION", Keyword::Func);
    add_keyword(&mut t, "PROCEDURE", Keyword::Procedure);
    add_keyword(&mut t, "ENDFUNCTION", Keyword::EndFunc);
    add_keyword(&mut t, "ENDPROCEDURE", Keyword::EndProcedure);
    add_keyword(&mut t, "DECLARE", Keyword::Declare);
    add_keyword(&mut t, "CONSTANT", Keyword::Constant);
    add_keyword(&mut t, "INPUT", Keyword::Input);
    add_keyword(&mut t, "OUTPUT", Keyword::Output);
    add_keyword(&mut t, "TRUE", Keyword::True);
    add_keyword(&mut t, "FALSE", Keyword::False);
    add_keyword(&mut t, "NULL", Keyword::Null);
    let ghost base = keyword_table_view(t@);
    if config.allow_func_return {
        add_keyword(&mut t, "RETURN", Keyword::Return);
    }
    let ghost mid = keyword_table_view(t@);
    if config.allow_loop_control {
        add_keyword(&mut t, "CONTINUE", Keyword::Continue);
        add_keyword(&mut t, "BREAK", Keyword::Break);
    }
    proof {
        let ret: Seq<(Seq<char>, Keyword)> = if config.allow_func_return {
            seq![("RETURN"@, Keyword::Return)]
        } else {
            Seq::empty()
        };
        let lc: Seq<(Seq<char>, Keyword)> = if config.allow_loop_control {
            seq![("CONTINUE"@, Keyword::Continue), ("BREAK"@, Keyword::Break)]
        } else {
            Seq::empty()
        };
        assert(mid =~= base + ret);
        assert(keyword_table_view(t@) =~= base + ret + lc);
    }
    t
}

/// The operators and punctuation of the dialect `config`, each with the token
/// kind it stands for.
pub fn get_operators_map(config: &ParseConfig) -> (r: Vec<(String, TokenKind)>)
    ensures
        operator_table_view(r@) == operator_entries(*config),
{
    let mut t: Vec<(String, TokenKind)> = Vec::new();
    assert(operator_table_view(t@) =~= Seq::<(Seq<char>, TokenKindV)>::empty());
    add_operator(&mut t, "←", TokenKind::Assign);
    add_operator(&mut t, "<-", TokenKind::Assign);
    add_operator(&mut t, "+", TokenKind::Operator(Operator::Add));
    add_operator(&mut t, "-", TokenKind::Operator(Operator::Sub));
    add_operator(&mut t, "*", TokenKind::Operator(Operator::Mul));
    add_operator(&mut t, "/", TokenKind::Operator(Operator::Div));
    add_operator(&mut t, "MOD", TokenKind::Operator(Operator::Mod));
    add_operator(&mut t, "AND", TokenKind::Operator(Operator::And));
    add_operator(&mut t, "OR", TokenKind::Operator(Operator::Or));
    add_operator(&mut t, "NOT", TokenKind::Operator(Operator::Not));
    add_operator(&mut t, "DIV", TokenKind::Operator(Operator::FullDiv));
    add_operator(&mut t, "<>", TokenKind::Operator(Operator::Neq));
    add_operator(&mut t, "<", TokenKind::Operator(Operator::Lt));
    add_operator(&mut t, "<=", TokenKind::Operator(Operator::Lte));
    add_operator(&mut t, ">", TokenKind::Operator(Operator::Gt));
    add_operator(&mut t, ">=", TokenKind::Operator(Operator::Gte));
    add_operator(&mut t, "&", TokenKind::Operator(Operator::Concat));
    add_operator(&mut t, "(", TokenKind::LParen);
    add_operator(&mut t, ")", TokenKind::RParen);
    add_operator(&mut t, "[", TokenKind::LBracket);
    add_operator(&mut t, "]", TokenKind::RBracket);
    add_operator(&mut t, "{", TokenKind::LBrace);
    add_operator(&mut t, "}", TokenKind::RBrace);
    add_operator(&mut t, ",", TokenKind::Comma);
    add_operator(&mut t, ";", TokenKind::Semicolon);
    add_operator(&mut t, ":", TokenKind::Colon);
    let ghost base = operator_table_view(t@);
    if config.allow_equal_assign {
        add_operator(&mut t, "=", TokenKind::Assign);
        add_operator(&mut t, "==", TokenKind::Operator(Operator::Eq));
    } else {
        add_operator(&mut t, "=", TokenKind::Operator(Operator::Eq));
    }
    proof {
        let tail: Seq<(Seq<char>, TokenKindV)> = if config.allow_equal_assign {
            seq![("="@, TokenKindV::Assign), ("=="@, TokenKindV::Operator(Operator::Eq))]
        } else {
            seq![("="@, TokenKindV::Operator(Operator::Eq))]
        };
        assert(operator_table_view(t@) =~= base + tail);
    }
    t
}

} // verus!
