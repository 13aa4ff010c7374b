//! What the keyword and operator tables hold, stated keyword by keyword and
//! operator by operator: each word is spelt as its keyword is named, and each
//! symbol stands for the operator it writes.
use vstd::prelude::*;
use crate::config::ParseConfig;
use crate::token::{Keyword, Operator, TokenKindV, assoc, keyword_entries, operator_entries};

verus! {

/// How a keyword is spelt: its name in upper case.
pub open spec fn keyword_spelling(k: Keyword) -> Seq<char> {
    match k {
        Keyword::If => "IF"@,
        Keyword::Then => "THEN"@,
        Keyword::Else => "ELSE"@,
        Keyword::EndIf => "ENDIF"@,
        Keyword::While => "WHILE"@,
        Keyword::Repeat => "REPEAT"@,
        Keyword::Until => "UNTIL"@,
        Keyword::EndWhile => "ENDWHILE"@,
        Keyword::For => "FOR"@,
        Keyword::To => "TO"@,
        Keyword::Next => "NEXT"@,
        Keyword::Step => "STEP"@,
        Keyword::Func => "FUNCTION"@,
        Keyword::Return => "RETURN"@,
        Keyword::Procedure => "PROCEDURE"@,
        Keyword::EndFunc => "ENDFUNCTION"@,
        Keyword::EndProcedure => "ENDPROCEDURE"@,
        Keyword::Continue => "CONTINUE"@,
        Keyword::Break => "BREAK"@,
        Keyword::Declare => "DECLARE"@,
        Keyword::Constant => "CONSTANT"@,
        Keyword::Input => "INPUT"@,
        Keyword::Output => "OUTPUT"@,
        Keyword::True => "TRUE"@,
        Keyword::False => "FALSE"@,
        Keyword::Null => "NULL"@,
        Keyword::ByRef => "BYREF"@,
        Keyword::ByVal => "BYVAL"@,
    }
}

/// Whether a dialect has a keyword: `RETURN` where functions may return,
/// `CONTINUE` and `BREAK` where loops may be left early, never `BYREF` or
/// `BYVAL`, and every other keyword always.
pub open spec fn has_keyword(config: ParseConfig, k: Keyword) -> bool {
    match k {
        Keyword::Return => config.allow_func_return,
        Keyword::Continue | Keyword::Break => config.allow_loop_control,
        Keyword::ByRef | Keyword::ByVal => false,
        _ => true,
    }
}

/// Whether `w` writes the token kind `kind` in a dialect: an arrow `←` or
/// `<-` (or `=` where it may assign) assigns; `=` compares where it may not
/// assign, and `==` where it may; each other operator and mark has its one
/// symbol or word.
pub open spec fn writes(config: ParseConfig, w: Seq<char>, kind: TokenKindV) -> bool {
    match kind {
        TokenKindV::Assign => w == "←"@ || w == "<-"@ || (config.allow_equal_assign && w == "="@),
        TokenKindV::Operator(op) => w == match op {
            Operator::Add => "+"@,
            Operator::Sub => "-"@,
            Operator::Mul => "*"@,
            Operator::Div => "/"@,
            Operator::Mod => "MOD"@,
            Operator::FullDiv => "DIV"@,
            Operator::And => "AND"@,
            Operator::Or => "OR"@,
            Operator::Not => "NOT"@,
            Operator::Eq => if config.allow_equal_assign {
                "=="@
            } else {
                "="@
            },
            Operator::Neq => "<>"@,
            Operator::Lt => "<"@,
            Operator::Lte => "<="@,
            Operator::Gt => ">"@,
            Operator::Gte => ">="@,
            Operator::Concat => "&"@,
        },
        TokenKindV::LParen => w == "("@,
        TokenKindV::RParen => w == ")"@,
        TokenKindV::LBracket => w == "["@,
        TokenKindV::RBracket => w == "]"@,
        TokenKindV::LBrace => w == "{"@,
        TokenKindV::RBrace => w == "}"@,
        TokenKindV::Comma => w == ","@,
        TokenKindV::Semicolon => w == ";"@,
        TokenKindV::Colon => w == ":"@,
        _ => false,
    }
}

/// Every entry of the keyword table maps a keyword's spelling to that very
/// keyword, and the table holds exactly the keywords of its dialect.
pub proof fn law_keyword_spellings(config: ParseConfig)
    ensures
        forall|j: int|
            0 <= j < keyword_entries(config).len() ==> (#[trigger] keyword_entries(config)[j]).0 == keyword_spelling(
                keyword_entries(config)[j].1,
            ),
        forall|j: int|
            0 <= j < keyword_entries(config).len() ==> has_keyword(config, (#[trigger] keyword_entries(config)[j]).1),
        forall|k: Keyword|
            has_keyword(config, k) ==> exists|j: int|
                0 <= j < keyword_entries(config).len() && (#[trigger] keyword_entries(config)[j]).1 == k,
{
    let t = keyword_entries(config);
    assert forall|j: int| 0 <= j < t.len() implies (#[trigger] t[j]).0 == keyword_spelling(t[j].1) && has_keyword(
        config,
        t[j].1,
    ) by {
        lemma_keyword_entry(config, j);
    }
    assert forall|k: Keyword| has_keyword(config, k) implies exists|j: int|
        0 <= j < t.len() && (#[trigger] t[j]).1 == k by {
        let j = keyword_place(config, k);
        lemma_keyword_entry(config, j);
    }
}

/// Where a keyword of the dialect stands in its table.
spec fn keyword_place(config: ParseConfig, k: Keyword) -> int {
    match k {
        Keyword::If => 0,
        Keyword::Then => 1,
        Keyword::Else => 2,
        Keyword::EndIf => 3,
        Keyword::While => 4,
        Keyword::Repeat => 5,
        Keyword::Until => 6,
        Keyword::EndWhile => 7,
        Keyword::For => 8,
        Keyword::To => 9,
        Keyword::Next => 10,
        Keyword::Step => 11,
        Keyword::Func => 12,
        Keyword::Procedure => 13,
        Keyword::EndFunc => 14,
        Keyword::EndProcedure => 15,
        Keyword::Declare => 16,
        Keyword::Constant => 17,
        Keyword::Input => 18,
        Keyword::Output => 19,
        Keyword::True => 20,
        Keyword::False => 21,
        Keyword::Null => 22,
        Keyword::Return => 23,
        Keyword::Continue => if config.allow_func_return {
            24
        } else {
            23
        },
        Keyword::Break => if config.allow_func_return {
            25
        } else {
            24
        },
        _ => 0,
    }
}

proof fn lemma_keyword_entry(config: ParseConfig, j: int)
    requires
        0 <= j < keyword_entries(config).len(),
    ensures
        keyword_entries(config)[j].0 == keyword_spelling(keyword_entries(config)[j].1),
        has_keyword(config, keyword_entries(config)[j].1),
        forall|k: Keyword| has_keyword(config, k) && j == keyword_place(config, k) ==> keyword_entries(config)[j].1 == k,
{
    let t = keyword_entries(config);
    let base = seq![
        ("IF"@, Keyword::If),
        ("THEN"@, Keyword::Then),
        ("ELSE"@, Keyword::Else),
        ("ENDIF"@, Keyword::EndIf),
        ("WHILE"@, Keyword::While),
        ("REPEAT"@, Keyword::Repeat),
        ("UNTIL"@, Keyword::Until),
        ("ENDWHILE"@, Keyword::EndWhile),
        ("FOR"@, Keyword::For),
        ("TO"@, Keyword::To),
        ("NEXT"@, Keyword::Next),
        ("STEP"@, Keyword::Step),
        ("FUNCTION"@, Keyword::Func),
        ("PROCEDURE"@, Keyword::Procedure),
        ("ENDFUNCTION"@, Keyword::EndFunc),
        ("ENDPROCEDURE"@, Keyword::EndProcedure),
        ("DECLARE"@, Keyword::Declare),
        ("CONSTANT"@, Keyword::Constant),
        ("INPUT"@, Keyword::Input),
        ("OUTPUT"@, Keyword::Output),
        ("TRUE"@, Keyword::True),
        ("FALSE"@, Keyword::False),
        ("NULL"@, Keyword::Null),
    ];
    let ret: Seq<(Seq<char>, Keyword)> = if config.allow_func_return {
        seq![("RETURN"@, Keyword::Return)]
    } else {
        Seq::empty()
    };
    let lc: Seq<(Seq<char>, Keyword)> = if config.allow_loop_control {
        seq![("CONTINUE"@, Keyword::Continue), ("BREAK"@, Keyword::Break)]
    } else {
        Seq::empty()
    };
    assert(t == base + ret + lc);
    if j < 23 {
        assert(t[j] == base[j]);
    } else if j < 23 + ret.len() {
        assert(t[j] == ret[j - 23]);
    } else {
        assert(t[j] == lc[j - 23 - ret.len()]);
    }
}

/// Every entry of the operator table maps a symbol or word to the token kind
/// it writes.
pub proof fn law_operator_spellings(config: ParseConfig)
    ensures
        forall|j: int|
            0 <= j < operator_entries(config).len() ==> writes(
                config,
                (#[trigger] operator_entries(config)[j]).0,
                operator_entries(config)[j].1,
            ),
{
    let t = operator_entries(config);
    let base = seq![
        ("←"@, TokenKindV::Assign),
        ("<-"@, TokenKindV::Assign),
        ("+"@, TokenKindV::Operator(Operator::Add)),
        ("-"@, TokenKindV::Operator(Operator::Sub)),
        ("*"@, TokenKindV::Operator(Operator::Mul)),
        ("/"@, TokenKindV::Operator(Operator::Div)),
        ("MOD"@, TokenKindV::Operator(Operator::Mod)),
        ("AND"@, TokenKindV::Operator(Operator::And)),
        ("OR"@, TokenKindV::Operator(Operator::Or)),
        ("NOT"@, TokenKindV::Operator(Operator::Not)),
        ("DIV"@, TokenKindV::Operator(Operator::FullDiv)),
        ("<>"@, TokenKindV::Operator(Operator::Neq)),
        ("<"@, TokenKindV::Operator(Operator::Lt)),
        ("<="@, TokenKindV::Operator(Operator::Lte)),
        (">"@, TokenKindV::Operator(Operator::Gt)),
        (">="@, TokenKindV::Operator(Operator::Gte)),
        ("&"@, TokenKindV::Operator(Operator::Concat)),
        ("("@, TokenKindV::LParen),
        (")"@, TokenKindV::RParen),
        ("["@, TokenKindV::LBracket),
        ("]"@, TokenKindV::RBracket),
        ("{"@, TokenKindV::LBrace),
        ("}"@, TokenKindV::RBrace),
        (","@, TokenKindV::Comma),
        (";"@, TokenKindV::Semicolon),
        (":"@, TokenKindV::Colon),
    ];
    let tail: Seq<(Seq<char>, TokenKindV)> = if config.allow_equal_assign {
        seq![("="@, TokenKindV::Assign), ("=="@, TokenKindV::Operator(Operator::Eq))]
    } else {
        seq![("="@, TokenKindV::Operator(Operator::Eq))]
    };
    assert(t == base + tail);
    assert forall|j: int| 0 <= j < t.len() implies writes(config, (#[trigger] t[j]).0, t[j].1) by {
        if j < 26 {
            assert(t[j] == base[j]);
        } else {
            assert(t[j] == tail[j - 26]);
        }
    }
}

} // verus!
