//! Where tokens stand: the line and column of every token are counted from
//! the line breaks and characters of the text before it.
use vstd::prelude::*;
use crate::config::ParseConfig;
use crate::text::{is_digit, upper_of};
use crate::token::{TokenKindV, TokenV, Operator, assoc, operator_entries};
use crate::lexing::{
    Cursor, span_at, step, step_n, start_cursor, word_end, number_end, comment_end, lex_escape, string_body,
    op_run, lex_token, next_token, lex_all,
    is_word_start, lemma_step_n, lemma_comment_skip, lemma_next_token_moves, lemma_word_end, lemma_number_end,
    lemma_op_run,
};

verus! {

/// The line of the character at index `i`: one more than the line breaks
/// before it.
pub open spec fn line_at(input: Seq<char>, i: int) -> int
    decreases i,
{
    if i <= 0 {
        1
    } else {
        line_at(input, i - 1) + if input[i - 1] == '\n' { 1int } else { 0int }
    }
}

/// The column of the character at index `i`: one more than the characters
/// since the last line break before it, or since the start.
pub open spec fn column_at(input: Seq<char>, i: int) -> int
    decreases i,
{
    if i <= 0 {
        1
    } else if input[i - 1] == '\n' {
        1
    } else {
        column_at(input, i - 1) + 1
    }
}

/// The place of index `i` of the text.
pub open spec fn place(input: Seq<char>, i: int) -> Cursor {
    Cursor { pos: i, line: line_at(input, i), col: column_at(input, i) }
}

/// A place that lies in the text and has the line and column of its index.
pub open spec fn placed(input: Seq<char>, c: Cursor) -> bool {
    0 <= c.pos <= input.len() && c == place(input, c.pos)
}

/// A blank that the lexer skips.
pub open spec fn is_blank(c: char) -> bool {
    c == ' ' || c == '\t' || c == '\r'
}

/// Token `t` starts at index `i`: its position is the line and column of `i`,
/// a character that is no blank, or the end of the text, where only `EOF`
/// stands. A line's end stands at its line break.
pub open spec fn starts_at(input: Seq<char>, t: TokenV, i: int) -> bool {
    &&& 0 <= i <= input.len()
    &&& t.span == span_at(place(input, i))
    &&& i < input.len() ==> !is_blank(input[i])
    &&& i == input.len() ==> t.kind == TokenKindV::EOF
    &&& t.kind == TokenKindV::EOL ==> i < input.len() && input[i] == '\n'
}

proof fn lemma_step_placed(input: Seq<char>, c: Cursor)
    requires
        placed(input, c),
    ensures
        placed(input, step(input, c)),
{
}

proof fn lemma_step_n_placed(input: Seq<char>, c: Cursor, n: nat)
    requires
        placed(input, c),
    ensures
        placed(input, step_n(input, c, n)),
    decreases n,
{
    if n > 0 {
        lemma_step_placed(input, c);
        lemma_step_n_placed(input, step(input, c), (n - 1) as nat);
    }
}

/// Moving on `i` characters from the start of the text reaches index `i`
/// with its line and column.
pub proof fn law_steps_from_start(input: Seq<char>, i: nat)
    requires
        i <= input.len(),
    ensures
        step_n(input, start_cursor(), i) == place(input, i as int),
{
    assert(placed(input, start_cursor()));
    lemma_step_n_placed(input, start_cursor(), i);
    lemma_step_n(input, start_cursor(), i);
}

proof fn lemma_escape_placed(input: Seq<char>, c: Cursor)
    requires
        placed(input, c),
    ensures
        placed(input, lex_escape(input, c).0),
{
    lemma_step_placed(input, c);
}

proof fn lemma_string_body_placed(input: Seq<char>, config: ParseConfig, c: Cursor, acc: Seq<char>)
    requires
        placed(input, c),
    ensures
        placed(input, string_body(input, config, c, acc).0),
    decreases input.len() - c.pos,
{
    if 0 <= c.pos < input.len() {
        let ch = input[c.pos];
        lemma_step_placed(input, c);
        if ch == '\\' {
            crate::lexing::lemma_escape_moves(input, step(input, c));
            lemma_escape_placed(input, step(input, c));
            let (q, r) = lex_escape(input, step(input, c));
            if let Ok(x) = r {
                lemma_string_body_placed(input, config, q, acc.push(x));
            }
        } else if ch != '"' && !(ch == '\n' && !config.allow_new_line_in_string) {
            lemma_string_body_placed(input, config, step(input, c), acc.push(ch));
        }
    }
}

/// A token that starts with the character at a placed index stands there,
/// and the lexer moves on to a placed index.
/// What a table gives for a key is the value of one of its entries.
proof fn lemma_assoc_value<K>(t: Seq<(Seq<char>, K)>, key: Seq<char>)
    ensures
        assoc(t, key) matches Some(v) ==> exists|j: int| 0 <= j < t.len() && t[j].1 == v,
    decreases t.len(),
{
    if t.len() > 0 && t[0].0 != key {
        lemma_assoc_value(t.drop_first(), key);
        if let Some(v) = assoc(t, key) {
            let j = choose|j: int| 0 <= j < t.drop_first().len() && t.drop_first()[j].1 == v;
            assert(t[j + 1].1 == v);
        }
    } else if t.len() > 0 {
        assert(t[0].1 == assoc(t, key)->Some_0);
    }
}

/// No operator or punctuation is a line's end.
proof fn lemma_operator_not_eol(config: ParseConfig, key: Seq<char>)
    ensures
        assoc(operator_entries(config), key) != Some(TokenKindV::EOL),
{
    let ops = operator_entries(config);
    lemma_assoc_value(ops, key);
    assert forall|j: int| 0 <= j < ops.len() implies #[trigger] ops[j].1 != TokenKindV::EOL by {
        if j < 26 {
            assert(ops[j] == seq![
                ("←"@, TokenKindV::Assign),
                ("<-"@, TokenKindV::Assign),
                ("+"@, TokenKindV::Operator(Operator::Add)),
                ("-"@, TokenKindV::Operator(Operator::Sub)),
                ("*"@, TokenKindV::Operator(Operator::Mul)),
                ("/"@, TokenKindV::Operator(Operator::Div)),
                ("MOD"@, TokenKindV::Operator(Operator::Mod)),
                ("AND"@, TokenKindV::Operator(Operator::And)),
                ("OR"@, TokenKindV::Operator(Operator::Or)),
                ("NOT"@, TokenKindV::Operator(Operator::Not)),
                ("DIV"@, TokenKindV::Operator(Operator::FullDiv)),
                ("<>"@, TokenKindV::Operator(Operator::Neq)),
                ("<"@, TokenKindV::Operator(Operator::Lt)),
                ("<="@, TokenKindV::Operator(Operator::Lte)),
                (">"@, TokenKindV::Operator(Operator::Gt)),
                (">="@, TokenKindV::Operator(Operator::Gte)),
                ("&"@, TokenKindV::Operator(Operator::Concat)),
                ("("@, TokenKindV::LParen),
                (")"@, TokenKindV::RParen),
                ("["@, TokenKindV::LBracket),
                ("]"@, TokenKindV::RBracket),
                ("{"@, TokenKindV::LBrace),
                ("}"@, TokenKindV::RBrace),
                (","@, TokenKindV::Comma),
                (";"@, TokenKindV::Semicolon),
                (":"@, TokenKindV::Colon),
            ][j]);
        }
    }
}

proof fn lemma_lex_token_placed(input: Seq<char>, config: ParseConfig, c: Cursor)
    requires
        placed(input, c),
        c.pos < input.len(),
    ensures
        placed(input, lex_token(input, config, c).0),
        lex_token(input, config, c).1 matches Ok(t) ==> t.span == span_at(c) && t.kind != TokenKindV::EOL,
{
    let ch = input[c.pos];
    lemma_step_placed(input, c);
    if is_digit(ch) {
        lemma_number_end(input, c.pos, false);
        lemma_step_n_placed(input, c, (number_end(input, c.pos, false) - c.pos) as nat);
    } else if is_word_start(ch) {
        lemma_word_end(input, c.pos);
        lemma_step_n_placed(input, c, (word_end(input, c.pos) - c.pos) as nat);
        lemma_operator_not_eol(config, upper_of(input.subrange(c.pos, word_end(input, c.pos))));
    } else if ch == '"' {
        lemma_string_body_placed(input, config, step(input, c), Seq::empty());
        let (q, r) = string_body(input, config, step(input, c), Seq::empty());
        lemma_step_placed(input, q);
    } else if ch == '\'' {
        let q0 = step(input, c);
        lemma_step_placed(input, q0);
        if 0 <= q0.pos < input.len() {
            if input[q0.pos] == '\\' {
                lemma_escape_placed(input, step(input, q0));
                lemma_step_placed(input, lex_escape(input, step(input, q0)).0);
            } else {
                lemma_step_placed(input, step(input, q0));
            }
        }
    } else {
        lemma_op_run(input, config, c.pos, 0);
        lemma_step_n_placed(input, c, op_run(input, config, c.pos, 0) as nat);
        lemma_operator_not_eol(config, input.subrange(c.pos, c.pos + op_run(input, config, c.pos, 0)));
    }
}

/// The next token from a placed index starts at an index no smaller, and the
/// lexer moves on to a placed index past it, or to the end of the text.
pub proof fn lemma_next_token_placed(input: Seq<char>, config: ParseConfig, c: Cursor)
    requires
        placed(input, c),
    ensures
        placed(input, next_token(input, config, c).0),
        next_token(input, config, c).1 matches Ok(t) ==> exists|i: int|
            c.pos <= i && starts_at(input, t, i) && (i < next_token(input, config, c).0.pos
                || next_token(input, config, c).0.pos == input.len()),
    decreases input.len() - c.pos,
{
    if !(0 <= c.pos < input.len()) {
        let t = next_token(input, config, c).1->Ok_0;
        assert(starts_at(input, t, c.pos));
    } else {
        let ch = input[c.pos];
        lemma_step_placed(input, c);
        if ch == ' ' || ch == '\t' || ch == '\r' {
            lemma_next_token_placed(input, config, step(input, c));
        } else if ch == '\n' {
            let t = next_token(input, config, c).1->Ok_0;
            assert(starts_at(input, t, c.pos));
        } else if ch == '/' && c.pos + 1 < input.len() && input[c.pos + 1] == '/' {
            lemma_comment_skip(input, c.pos);
            let n = (comment_end(input, c.pos) - c.pos) as nat;
            lemma_step_n_placed(input, c, n);
            lemma_step_n(input, c, n);
            lemma_next_token_placed(input, config, step_n(input, c, n));
        } else {
            lemma_lex_token_placed(input, config, c);
            lemma_next_token_moves(input, config, c);
            if let Ok(t) = lex_token(input, config, c).1 {
                assert(starts_at(input, t, c.pos));
            }
        }
    }
}

/// The tokens `ts` start at the indices `idx`, one for each, in increasing
/// order; only at the end of the text may two tokens stand at one index.
pub open spec fn tokens_at(input: Seq<char>, ts: Seq<TokenV>, idx: Seq<int>) -> bool {
    &&& idx.len() == ts.len()
    &&& forall|k: int| 0 <= k < ts.len() ==> starts_at(input, #[trigger] ts[k], idx[k])
    &&& forall|k: int| 0 <= k < ts.len() - 1 ==> #[trigger] idx[k] < idx[k + 1] || idx[k + 1] == input.len()
}

/// The tokens `ts` start at increasing indices, the first no smaller than
/// `from`.
pub open spec fn placed_from(input: Seq<char>, ts: Seq<TokenV>, from: int) -> bool {
    exists|idx: Seq<int>| #[trigger] tokens_at(input, ts, idx) && idx.len() > 0 && from <= idx[0]
}

/// The tokens from a placed index on start at indices no smaller, in
/// increasing order.
proof fn lemma_lex_all_placed(input: Seq<char>, config: ParseConfig, c: Cursor)
    requires
        placed(input, c),
    ensures
        lex_all(input, config, c) is Ok ==> placed_from(input, lex_all(input, config, c)->Ok_0, c.pos),
    decreases input.len() - c.pos,
{
    if 0 <= c.pos < input.len() {
        lemma_next_token_moves(input, config, c);
        lemma_next_token_placed(input, config, c);
        let (q, r) = next_token(input, config, c);
        if let Ok(t) = r {
            lemma_lex_all_placed(input, config, q);
            if let Ok(ts) = lex_all(input, config, q) {
                let i = choose|i: int| c.pos <= i && starts_at(input, t, i) && (i < q.pos || q.pos == input.len());
                assert(placed_from(input, ts, q.pos));
                let rest = choose|idx: Seq<int>| #[trigger] tokens_at(input, ts, idx) && idx.len() > 0 && q.pos <= idx[0];
                let all = seq![t] + ts;
                let idx = seq![i] + rest;
                assert forall|k: int| 0 <= k < all.len() implies starts_at(input, #[trigger] all[k], idx[k]) by {
                    if k > 0 {
                        assert(all[k] == ts[k - 1]);
                        assert(idx[k] == rest[k - 1]);
                    }
                }
                assert forall|k: int| 0 <= k < all.len() - 1 implies #[trigger] idx[k] < idx[k + 1]
                    || idx[k + 1] == input.len() by {
                    if k > 0 {
                        assert(idx[k] == rest[k - 1]);
                        assert(idx[k + 1] == rest[k]);
                    } else {
                        assert(idx[1] == rest[0]);
                        assert(starts_at(input, ts[0], rest[0]));
                    }
                }
                assert(tokens_at(input, all, idx));
                assert(idx[0] == i);
                assert(idx.len() > 0 && c.pos <= idx[0]);
                assert(lex_all(input, config, c) == Ok::<Seq<TokenV>, crate::error::ErrV>(all));
                assert(placed_from(input, all, c.pos));
            }
        }
    } else {
        if let Ok(ts) = lex_all(input, config, c) {
            let idx = seq![c.pos];
            assert(starts_at(input, ts[0], c.pos));
            assert(tokens_at(input, ts, idx));
            assert(idx.len() > 0 && c.pos <= idx[0]);
            assert(placed_from(input, ts, c.pos));
        }
    }
}

/// The position of every token of a text is counted from what comes before
/// it: its line is one more than the line breaks before its first character,
/// and its column one more than the characters since the last of them. The
/// tokens start at increasing indices, each at a character that is no blank,
/// a line's end at its line break, save `EOF`, which stands at the end of the
/// text.
pub proof fn law_token_positions(input: Seq<char>, config: ParseConfig)
    ensures
        lex_all(input, config, start_cursor()) is Ok ==> exists|idx: Seq<int>|
            #[trigger] tokens_at(input, lex_all(input, config, start_cursor())->Ok_0, idx),
{
    assert(placed(input, start_cursor()));
    lemma_lex_all_placed(input, config, start_cursor());
}

} // verus!
