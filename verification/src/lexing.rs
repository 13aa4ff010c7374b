//! The meaning of lexing: the tokens a text stands for in a dialect, as spec
//! functions over the text's characters.
use vstd::prelude::*;
use crate::ast::Span;
use crate::config::ParseConfig;
use crate::error::ErrV;
use crate::text::{char_alnum, digits_value, is_ascii_alnum, is_digit, lower_of, upper_of};
use crate::token::{TokenKindV, TokenV, assoc, keyword_entries, operator_entries};

verus! {

/// A place in the text: the index of the next character, and the line and
/// column where it stands, counted from 1.
pub struct Cursor {
    pub pos: int,
    pub line: int,
    pub col: int,
}

/// The place where a text starts.
pub open spec fn start_cursor() -> Cursor {
    Cursor { pos: 0, line: 1, col: 1 }
}

/// The position of a place.
pub open spec fn span_at(p: Cursor) -> Span {
    Span { line: p.line as usize, column: p.col as usize }
}

/// A lexical error at a place.
pub open spec fn lex_err(p: Cursor, message: Seq<char>) -> ErrV {
    ErrV::Lex { span: span_at(p), message }
}

/// The place after the next character; a line break starts a new line. At
/// the end of the text the place stays.
pub open spec fn step(input: Seq<char>, p: Cursor) -> Cursor {
    if 0 <= p.pos < input.len() {
        if input[p.pos] == '\n' {
            Cursor { pos: p.pos + 1, line: p.line + 1, col: 1 }
        } else {
            Cursor { pos: p.pos + 1, line: p.line, col: p.col + 1 }
        }
    } else {
        p
    }
}

/// The place `n` characters on.
pub open spec fn step_n(input: Seq<char>, p: Cursor, n: nat) -> Cursor
    decreases n,
{
    if n == 0 {
        p
    } else {
        step_n(input, step(input, p), (n - 1) as nat)
    }
}

/// Whether a character may continue a name: an ASCII letter, digit or `_`,
/// or a character beyond ASCII that Unicode counts as alphanumeric.
pub open spec fn is_word_char(c: char) -> bool {
    if (c as u32) < 128 {
        is_ascii_alnum(c) || c == '_'
    } else {
        char_alnum(c)
    }
}

/// Whether a character may start a name.
pub open spec fn is_word_start(c: char) -> bool {
    ('a' <= c <= 'z') || ('A' <= c <= 'Z') || c == '_'
}

/// The end of the run of name characters from `i`.
pub open spec fn word_end(input: Seq<char>, i: int) -> int
    decreases input.len() - i,
{
    if 0 <= i < input.len() && is_word_char(input[i]) {
        word_end(input, i + 1)
    } else {
        i
    }
}

/// The end of the number from `i`: digits, with at most one `.` among them.
pub open spec fn number_end(input: Seq<char>, i: int, dot: bool) -> int
    decreases input.len() - i,
{
    if 0 <= i < input.len() && is_digit(input[i]) {
        number_end(input, i + 1, dot)
    } else if 0 <= i < input.len() && input[i] == '.' && !dot {
        number_end(input, i + 1, true)
    } else {
        i
    }
}

/// The end of a comment from `i`: the next line break, or the end of the text.
pub open spec fn comment_end(input: Seq<char>, i: int) -> int
    decreases input.len() - i,
{
    if 0 <= i < input.len() && input[i] != '\n' {
        comment_end(input, i + 1)
    } else {
        i
    }
}

/// The token kind of a name: an operator or a keyword when its upper-case
/// form is one, whatever its case; else a name, in lower case where the
/// dialect ignores case.
pub open spec fn word_kind(config: ParseConfig, w: Seq<char>) -> TokenKindV {
    match assoc(operator_entries(config), upper_of(w)) {
        Some(k) => k,
        None => match assoc(keyword_entries(config), upper_of(w)) {
            Some(kw) => TokenKindV::Keyword(kw),
            None => TokenKindV::Identifier(if config.case_sensitive { w } else { lower_of(w) }),
        },
    }
}

/// A number at `p`: an integer, or a real number when it holds a `.`.
pub open spec fn lex_number(input: Seq<char>, p: Cursor) -> (Cursor, Result<TokenV, ErrV>) {
    let e = number_end(input, p.pos, false);
    let text = input.subrange(p.pos, e);
    let q = step_n(input, p, (e - p.pos) as nat);
    if text.contains('.') {
        (q, Ok(TokenV { kind: TokenKindV::Float(text), span: span_at(p) }))
    } else if digits_value(text) <= i64::MAX {
        (q, Ok(TokenV { kind: TokenKindV::Int(digits_value(text) as i64), span: span_at(p) }))
    } else {
        (q, Err(lex_err(p, "Invalid integer number"@)))
    }
}

/// A name, keyword or word operator at `p`.
pub open spec fn lex_word(input: Seq<char>, config: ParseConfig, p: Cursor) -> (Cursor, Result<TokenV, ErrV>) {
    let e = word_end(input, p.pos);
    (
        step_n(input, p, (e - p.pos) as nat),
        Ok(TokenV { kind: word_kind(config, input.subrange(p.pos, e)), span: span_at(p) }),
    )
}

/// The character that an escape `\c` stands for.
pub open spec fn escape_char(c: char) -> Option<char> {
    if c == 'n' {
        Some('\n')
    } else if c == 't' {
        Some('\t')
    } else if c == 'r' {
        Some('\r')
    } else if c == '\\' {
        Some('\\')
    } else if c == '"' {
        Some('"')
    } else if c == '\'' {
        Some('\'')
    } else if c == '0' {
        Some('\0')
    } else {
        None
    }
}

/// The escape whose letter is at `p` (the backslash already read).
pub open spec fn lex_escape(input: Seq<char>, p: Cursor) -> (Cursor, Result<char, ErrV>) {
    if !(0 <= p.pos < input.len()) {
        (p, Err(lex_err(p, "Unterminated escape sequence"@)))
    } else {
        let q = step(input, p);
        match escape_char(input[p.pos]) {
            Some(ch) => (q, Ok(ch)),
            None => (q, Err(lex_err(q, "Invalid escape character: \\"@ + seq![input[p.pos]]))),
        }
    }
}

/// The characters of a string literal from `p` up to its closing quote, after `acc`.
pub open spec fn string_body(input: Seq<char>, config: ParseConfig, p: Cursor, acc: Seq<char>) -> (Cursor, Result<Seq<char>, ErrV>)
    decreases input.len() - p.pos,
{
    if !(0 <= p.pos < input.len()) {
        (p, Err(lex_err(p, "Unterminated string literal"@)))
    } else {
        let c = input[p.pos];
        if c == '"' {
            (p, Ok(acc))
        } else if c == '\\' {
            let (q, r) = lex_escape(input, step(input, p));
            proof {
                lemma_escape_moves(input, step(input, p));
            }
            match r {
                Ok(ch) => string_body(input, config, q, acc.push(ch)),
                Err(e) => (q, Err(e)),
            }
        } else if c == '\n' && !config.allow_new_line_in_string {
            (p, Err(lex_err(p, "Unterminated string literal"@)))
        } else {
            string_body(input, config, step(input, p), acc.push(c))
        }
    }
}

/// A string literal at `p`.
pub open spec fn lex_string(input: Seq<char>, config: ParseConfig, p: Cursor) -> (Cursor, Result<TokenV, ErrV>) {
    let (q, r) = string_body(input, config, step(input, p), Seq::empty());
    match r {
        Ok(s) => (step(input, q), Ok(TokenV { kind: TokenKindV::Str(s), span: span_at(p) })),
        Err(e) => (q, Err(e)),
    }
}

/// A character literal at `p`.
pub open spec fn lex_char(input: Seq<char>, p: Cursor) -> (Cursor, Result<TokenV, ErrV>) {
    let q0 = step(input, p);
    if !(0 <= q0.pos < input.len()) {
        (q0, Err(lex_err(q0, "Unterminated character literal"@)))
    } else {
        let (q1, r) = if input[q0.pos] == '\\' {
            lex_escape(input, step(input, q0))
        } else {
            (step(input, q0), Ok(input[q0.pos]))
        };
        match r {
            Err(e) => (q1, Err(e)),
            Ok(ch) => if 0 <= q1.pos < input.len() && input[q1.pos] == '\'' {
                (step(input, q1), Ok(TokenV { kind: TokenKindV::Char(ch), span: span_at(p) }))
            } else {
                (q1, Err(lex_err(q1, "Unterminated character literal"@)))
            },
        }
    }
}

/// How many characters from `pos` an operator takes, after `k` already
/// taken: the text grows one character at a time while it is an operator.
pub open spec fn op_run(input: Seq<char>, config: ParseConfig, pos: int, k: int) -> int
    decreases input.len() - (pos + k),
{
    if 0 <= pos && 0 <= k && pos + k < input.len()
        && assoc(operator_entries(config), input.subrange(pos, pos + k + 1)) is Some {
        op_run(input, config, pos, k + 1)
    } else {
        k
    }
}

/// An operator or punctuation at `p`, or the error for a character that
/// starts none.
pub open spec fn lex_operator(input: Seq<char>, config: ParseConfig, p: Cursor) -> (Cursor, Result<TokenV, ErrV>) {
    let k = op_run(input, config, p.pos, 0);
    if k == 0 {
        let q = step(input, p);
        (q, Err(lex_err(q, "Illegal character: '"@ + seq![input[p.pos]] + "'"@)))
    } else {
        let text = input.subrange(p.pos, p.pos + k);
        let q = step_n(input, p, k as nat);
        match assoc(operator_entries(config), text) {
            Some(kind) => (q, Ok(TokenV { kind, span: span_at(p) })),
            None => (q, Err(lex_err(p, "Unknown operator: "@ + text))),
        }
    }
}

/// The token that starts with the character at `p`.
pub open spec fn lex_token(input: Seq<char>, config: ParseConfig, p: Cursor) -> (Cursor, Result<TokenV, ErrV>) {
    let c = input[p.pos];
    if is_digit(c) {
        lex_number(input, p)
    } else if is_word_start(c) {
        lex_word(input, config, p)
    } else if c == '"' {
        lex_string(input, config, p)
    } else if c == '\'' {
        lex_char(input, p)
    } else {
        lex_operator(input, config, p)
    }
}

/// The next token from `p`: blanks and comments are skipped, a line break is
/// a token of its own, and the end of the text gives `EOF`.
pub open spec fn next_token(input: Seq<char>, config: ParseConfig, p: Cursor) -> (Cursor, Result<TokenV, ErrV>)
    decreases input.len() - p.pos,
{
    if !(0 <= p.pos < input.len()) {
        (p, Ok(TokenV { kind: TokenKindV::EOF, span: span_at(p) }))
    } else {
        let c = input[p.pos];
        if c == ' ' || c == '\t' || c == '\r' {
            next_token(input, config, step(input, p))
        } else if c == '\n' {
            (step(input, p), Ok(TokenV { kind: TokenKindV::EOL, span: span_at(p) }))
        } else if c == '/' && p.pos + 1 < input.len() && input[p.pos + 1] == '/' {
            let q = step_n(input, p, (comment_end(input, p.pos) - p.pos) as nat);
            proof {
                lemma_comment_skip(input, p.pos);
                lemma_step_n(input, p, (comment_end(input, p.pos) - p.pos) as nat);
            }
            next_token(input, config, q)
        } else {
            lex_token(input, config, p)
        }
    }
}

/// The tokens of the text from `p` on, ending with `EOF`, or the first error.
pub open spec fn lex_all(input: Seq<char>, config: ParseConfig, p: Cursor) -> Result<Seq<TokenV>, ErrV>
    decreases input.len() - p.pos,
{
    if 0 <= p.pos < input.len() {
        let (q, r) = next_token(input, config, p);
        proof {
            lemma_next_token_moves(input, config, p);
        }
        match r {
            Err(e) => Err(e),
            Ok(t) => match lex_all(input, config, q) {
                Ok(ts) => Ok(seq![t] + ts),
                Err(e) => Err(e),
            },
        }
    } else {
        Ok(seq![TokenV { kind: TokenKindV::EOF, span: span_at(p) }])
    }
}

/// The tokens of a whole text.
pub open spec fn lex_text(input: Seq<char>, config: ParseConfig) -> Result<Seq<TokenV>, ErrV> {
    lex_all(input, config, start_cursor())
}

/// Moving on `n` characters from a place inside the text moves the index by `n`.
pub proof fn lemma_step_n(input: Seq<char>, p: Cursor, n: nat)
    requires
        0 <= p.pos,
        p.pos + n <= input.len(),
    ensures
        step_n(input, p, n).pos == p.pos + n,
    decreases n,
{
    if n > 0 {
        lemma_step_n(input, step(input, p), (n - 1) as nat);
    }
}

/// Moving on over characters that are not line breaks keeps the line and
/// adds to the column.
pub proof fn lemma_step_n_same_line(input: Seq<char>, p: Cursor, n: nat)
    requires
        0 <= p.pos,
        p.pos + n <= input.len(),
        forall|i: int| p.pos <= i < p.pos + n ==> input[i] != '\n',
    ensures
        step_n(input, p, n) == (Cursor { pos: p.pos + n, line: p.line, col: p.col + n }),
    decreases n,
{
    if n > 0 {
        lemma_step_n_same_line(input, step(input, p), (n - 1) as nat);
    }
}

pub proof fn lemma_comment_end(input: Seq<char>, i: int)
    requires
        0 <= i <= input.len(),
    ensures
        i <= comment_end(input, i) <= input.len(),
        forall|j: int| i <= j < comment_end(input, i) ==> input[j] != '\n',
    decreases input.len() - i,
{
    if i < input.len() && input[i] != '\n' {
        lemma_comment_end(input, i + 1);
    }
}

/// A comment that starts with `//` at `i` takes at least those two characters.
pub proof fn lemma_comment_skip(input: Seq<char>, i: int)
    requires
        0 <= i,
        i + 1 < input.len(),
        input[i] == '/',
        input[i + 1] == '/',
    ensures
        i + 2 <= comment_end(input, i) <= input.len(),
        forall|j: int| i <= j < comment_end(input, i) ==> input[j] != '\n',
{
    assert(comment_end(input, i) == comment_end(input, i + 1));
    assert(comment_end(input, i + 1) == comment_end(input, i + 2));
    lemma_comment_end(input, i + 2);
}

pub proof fn lemma_word_end(input: Seq<char>, i: int)
    requires
        0 <= i <= input.len(),
    ensures
        i <= word_end(input, i) <= input.len(),
        forall|j: int| i <= j < word_end(input, i) ==> is_word_char(#[trigger] input[j]),
    decreases input.len() - i,
{
    if i < input.len() && is_word_char(input[i]) {
        lemma_word_end(input, i + 1);
    }
}

pub proof fn lemma_number_end(input: Seq<char>, i: int, dot: bool)
    requires
        0 <= i <= input.len(),
    ensures
        i <= number_end(input, i, dot) <= input.len(),
        forall|j: int| i <= j < number_end(input, i, dot) ==> is_digit(#[trigger] input[j]) || input[j] == '.',
    decreases input.len() - i,
{
    if i < input.len() && (is_digit(input[i]) || (input[i] == '.' && !dot)) {
        if is_digit(input[i]) {
            lemma_number_end(input, i + 1, dot);
        } else {
            lemma_number_end(input, i + 1, true);
        }
    }
}

pub proof fn lemma_escape_moves(input: Seq<char>, p: Cursor)
    requires
        0 <= p.pos <= input.len(),
    ensures
        p.pos <= lex_escape(input, p).0.pos <= input.len(),
{
}

pub proof fn lemma_string_body_moves(input: Seq<char>, config: ParseConfig, p: Cursor, acc: Seq<char>)
    requires
        0 <= p.pos <= input.len(),
    ensures
        p.pos <= string_body(input, config, p, acc).0.pos <= input.len(),
        string_body(input, config, p, acc).1 is Ok ==> string_body(input, config, p, acc).0.pos < input.len(),
    decreases input.len() - p.pos,
{
    if 0 <= p.pos < input.len() {
        let c = input[p.pos];
        if c == '\\' {
            lemma_escape_moves(input, step(input, p));
            let (q, r) = lex_escape(input, step(input, p));
            if let Ok(ch) = r {
                lemma_string_body_moves(input, config, q, acc.push(ch));
            }
        } else if c != '"' && !(c == '\n' && !config.allow_new_line_in_string) {
            lemma_string_body_moves(input, config, step(input, p), acc.push(c));
        }
    }
}

pub proof fn lemma_op_run(input: Seq<char>, config: ParseConfig, pos: int, k: int)
    requires
        0 <= pos,
        0 <= k,
        pos + k <= input.len(),
    ensures
        k <= op_run(input, config, pos, k),
        pos + op_run(input, config, pos, k) <= input.len(),
    decreases input.len() - (pos + k),
{
    if pos + k < input.len() && assoc(operator_entries(config), input.subrange(pos, pos + k + 1)) is Some {
        lemma_op_run(input, config, pos, k + 1);
    }
}

/// Reading a token from a place inside the text moves past at least one
/// character, and stays inside the text.
pub proof fn lemma_next_token_moves(input: Seq<char>, config: ParseConfig, p: Cursor)
    requires
        0 <= p.pos < input.len(),
    ensures
        p.pos < next_token(input, config, p).0.pos <= input.len(),
    decreases input.len() - p.pos,
{
    let c = input[p.pos];
    if c == ' ' || c == '\t' || c == '\r' {
        let q = step(input, p);
        if q.pos < input.len() {
            lemma_next_token_moves(input, config, q);
        }
    } else if c == '\n' {
    } else if c == '/' && p.pos + 1 < input.len() && input[p.pos + 1] == '/' {
        lemma_comment_skip(input, p.pos);
        let n = (comment_end(input, p.pos) - p.pos) as nat;
        lemma_step_n(input, p, n);
        let q = step_n(input, p, n);
        if q.pos < input.len() {
            lemma_next_token_moves(input, config, q);
        }
    } else if is_digit(c) {
        lemma_number_end(input, p.pos, false);
        let e = number_end(input, p.pos, false);
        assert(e == number_end(input, p.pos + 1, false));
        lemma_number_end(input, p.pos + 1, false);
        lemma_step_n(input, p, (e - p.pos) as nat);
    } else if is_word_start(c) {
        assert(is_word_char(c));
        lemma_word_end(input, p.pos + 1);
        let e = word_end(input, p.pos);
        lemma_step_n(input, p, (e - p.pos) as nat);
    } else if c == '"' {
        lemma_string_body_moves(input, config, step(input, p), Seq::empty());
    } else if c == '\'' {
        let q0 = step(input, p);
        if q0.pos < input.len() && input[q0.pos] == '\\' {
            lemma_escape_moves(input, step(input, q0));
        }
    } else {
        lemma_op_run(input, config, p.pos, 0);
        let k = op_run(input, config, p.pos, 0);
        if k > 0 {
            lemma_step_n(input, p, k as nat);
        }
    }
}

} // verus!
