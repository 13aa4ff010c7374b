//! The lexer: it reads the characters of a text and gives its tokens, proved
//! to follow `lexing::lex_all`.
use vstd::prelude::*;
use vstd::string::StringExecFns;
use crate::ast::Span;
use crate::config::ParseConfig;
use crate::error::{CpcError, CpcResult, ErrV};
use crate::text::{str_chars, string_from_chars, to_upper, to_lower, is_alnum, parse_decimal, is_digit};
use crate::token::{
    Keyword, Token, TokenKind, TokenKindV, TokenV, assoc, keyword_entries, operator_entries,
    get_keywords_map, get_operators_map, keyword_table_view, operator_table_view,
};
use crate::lexing::{
    Cursor, span_at, step, step_n, is_word_char, word_end, number_end, comment_end, word_kind,
    escape_char, lex_escape, string_body, lex_string, lex_char, op_run, lex_operator, lex_number,
    lex_word, lex_token, next_token, lex_all, start_cursor, lemma_step_n, lemma_step_n_same_line,
    lemma_word_end, lemma_number_end, lemma_comment_skip, lemma_next_token_moves,
};

verus! {

/// A lexer over a text, in a dialect.
pub struct Lexer {
    input: Vec<char>,
    pos: usize,
    line: usize,
    col: usize,
    config: ParseConfig,
    keywords_map: Vec<(Vec<char>, Keyword)>,
    operators_map: Vec<(Vec<char>, TokenKind)>,
}

/// The content of a keyword table keyed by characters.
pub open spec fn keyword_chars_view(t: Seq<(Vec<char>, Keyword)>) -> Seq<(Seq<char>, Keyword)> {
    t.map_values(|e: (Vec<char>, Keyword)| (e.0@, e.1))
}

/// The content of an operator table keyed by characters.
pub open spec fn operator_chars_view(t: Seq<(Vec<char>, TokenKind)>) -> Seq<(Seq<char>, TokenKindV)> {
    t.map_values(|e: (Vec<char>, TokenKind)| (e.0@, e.1@))
}

/// The content of a list of tokens.
pub open spec fn tokens_view(t: Seq<Token>) -> Seq<TokenV> {
    t.map_values(|x: Token| x@)
}

/// The content of a result that holds a token or an error.
pub open spec fn token_result(r: CpcResult<Token>) -> Result<TokenV, ErrV> {
    match r {
        Ok(t) => Ok(t@),
        Err(e) => Err(e@),
    }
}

/// The content of a result that holds tokens or an error.
pub open spec fn tokens_result(r: CpcResult<Vec<Token>>) -> Result<Seq<TokenV>, ErrV> {
    match r {
        Ok(t) => Ok(tokens_view(t@)),
        Err(e) => Err(e@),
    }
}

/// The content of a result that holds a character or an error.
pub open spec fn char_result(r: CpcResult<char>) -> Result<char, ErrV> {
    match r {
        Ok(c) => Ok(c),
        Err(e) => Err(e@),
    }
}

/// The tokens `prefix` before those of a result, or its error.
pub open spec fn after(prefix: Seq<TokenV>, r: Result<Seq<TokenV>, ErrV>) -> Result<Seq<TokenV>, ErrV> {
    match r {
        Ok(ts) => Ok(prefix + ts),
        Err(e) => Err(e),
    }
}

/// Moving on `n + 1` characters is moving on `n`, then one more.
proof fn lemma_step_n_last(input: Seq<char>, p: Cursor, n: nat)
    ensures
        step_n(input, p, n + 1) == step(input, step_n(input, p, n)),
    decreases n,
{
    if n > 0 {
        lemma_step_n_last(input, step(input, p), (n - 1) as nat);
        assert(step_n(input, p, n + 1) == step_n(input, step(input, p), n));
        assert(step_n(input, p, n) == step_n(input, step(input, p), (n - 1) as nat));
    } else {
        assert(step_n(input, p, 1) == step_n(input, step(input, p), 0));
    }
}

/// Whether two texts are equal.
fn chars_eq(a: &Vec<char>, b: &Vec<char>) -> (r: bool)
    ensures
        r == (a@ == b@),
{
    if a.len() != b.len() {
        return false;
    }
    let mut i: usize = 0;
    while i < a.len()
        invariant
            i <= a@.len(),
            a@.len() == b@.len(),
            forall|j: int| 0 <= j < i ==> a@[j] == b@[j],
        decreases a.len() - i,
    {
        if a[i] != b[i] {
            return false;
        }
        i += 1;
    }
    assert(a@ =~= b@);
    true
}

/// The characters `v[start..end]`.
fn slice_chars(v: &Vec<char>, start: usize, end: usize) -> (r: Vec<char>)
    requires
        start <= end <= v@.len(),
    ensures
        r@ == v@.subrange(start as int, end as int),
{
    let mut r: Vec<char> = Vec::new();
    let mut i: usize = start;
    while i < end
        invariant
            start <= i <= end,
            end <= v@.len(),
            r@ == v@.subrange(start as int, i as int),
        decreases end - i,
    {
        r.push(v[i]);
        i += 1;
        assert(r@ =~= v@.subrange(start as int, i as int));
    }
    r
}

/// The keyword spelt `key` in a table keyed by characters.
fn find_keyword(t: &Vec<(Vec<char>, Keyword)>, key: &Vec<char>) -> (r: Option<Keyword>)
    ensures
        r == assoc(keyword_chars_view(t@), key@),
{
    let ghost tv = keyword_chars_view(t@);
    let mut i: usize = 0;
    assert(tv.skip(0) =~= tv);
    while i < t.len()
        invariant
            i <= t@.len(),
            tv == keyword_chars_view(t@),
            assoc(tv.skip(i as int), key@) == assoc(tv, key@),
        decreases t.len() - i,
    {
        assert(tv.skip(i as int)[0] == (t@[i as int].0@, t@[i as int].1));
        assert(tv.skip(i as int).drop_first() =~= tv.skip(i + 1));
        if chars_eq(&t[i].0, key) {
            return Some(t[i].1);
        }
        i += 1;
    }
    assert(tv.skip(i as int).len() == 0);
    None
}

/// The token kind spelt `key` in a table keyed by characters.
fn find_operator(t: &Vec<(Vec<char>, TokenKind)>, key: &Vec<char>) -> (r: Option<TokenKind>)
    ensures
        match r {
            Some(k) => assoc(operator_chars_view(t@), key@) == Some(k@),
            None => assoc(operator_chars_view(t@), key@) is None,
        },
{
    let ghost tv = operator_chars_view(t@);
    let mut i: usize = 0;
    assert(tv.skip(0) =~= tv);
    while i < t.len()
        invariant
            i <= t@.len(),
            tv == operator_chars_view(t@),
            assoc(tv.skip(i as int), key@) == assoc(tv, key@),
        decreases t.len() - i,
    {
        assert(tv.skip(i as int)[0] == (t@[i as int].0@, t@[i as int].1@));
        assert(tv.skip(i as int).drop_first() =~= tv.skip(i + 1));
        if chars_eq(&t[i].0, key) {
            return Some(t[i].1.duplicate());
        }
        i += 1;
    }
    assert(tv.skip(i as int).len() == 0);
    None
}

/// A keyword table keyed by characters in place of strings.
fn keyword_chars(t: &Vec<(String, Keyword)>) -> (r: Vec<(Vec<char>, Keyword)>)
    ensures
        keyword_chars_view(r@) == keyword_table_view(t@),
{
    let mut r: Vec<(Vec<char>, Keyword)> = Vec::new();
    let mut i: usize = 0;
    while i < t.len()
        invariant
            i <= t@.len(),
            keyword_chars_view(r@) == keyword_table_view(t@).take(i as int),
        decreases t.len() - i,
    {
        let ghost before = keyword_chars_view(r@);
        r.push((str_chars(t[i].0.as_str()), t[i].1));
        i += 1;
        assert(keyword_chars_view(r@) =~= before.push((t@[i - 1].0@, t@[i - 1].1)));
        assert(keyword_table_view(t@).take(i as int) =~= keyword_table_view(t@).take(i - 1).push((t@[i - 1].0@, t@[i - 1].1)));
    }
    assert(keyword_table_view(t@).take(t@.len() as int) =~= keyword_table_view(t@));
    r
}

/// An operator table keyed by characters in place of strings.
fn operator_chars(t: &Vec<(String, TokenKind)>) -> (r: Vec<(Vec<char>, TokenKind)>)
    ensures
        operator_chars_view(r@) == operator_table_view(t@),
{
    let mut r: Vec<(Vec<char>, TokenKind)> = Vec::new();
    let mut i: usize = 0;
    while i < t.len()
        invariant
            i <= t@.len(),
            operator_chars_view(r@) == operator_table_view(t@).take(i as int),
        decreases t.len() - i,
    {
        let ghost before = operator_chars_view(r@);
        r.push((str_chars(t[i].0.as_str()), t[i].1.duplicate()));
        i += 1;
        assert(operator_chars_view(r@) =~= before.push((t@[i - 1].0@, t@[i - 1].1@)));
        assert(operator_table_view(t@).take(i as int) =~= operator_table_view(t@).take(i - 1).push((t@[i - 1].0@, t@[i - 1].1@)));
    }
    assert(operator_table_view(t@).take(t@.len() as int) =~= operator_table_view(t@));
    r
}

/// Whether a character may continue a name.
fn word_char(c: char) -> (r: bool)
    ensures
        r == is_word_char(c),
{
    is_alnum(c) || c == '_'
}

/// Whether a character is a decimal digit.
fn digit_char(c: char) -> (r: bool)
    ensures
        r == is_digit(c),
{
    '0' <= c && c <= '9'
}

/// A lexical error.
fn lex_error(span: Span, message: String) -> (e: CpcError)
    ensures
        e@ == (ErrV::Lex { span, message: message@ }),
{
    CpcError::Lex { span, message }
}

/// The text `a`, then the character `c`.
fn text_with(a: &str, c: char) -> (r: String)
    ensures
        r@ == a@ + seq![c],
{
    let mut v: Vec<char> = Vec::new();
    v.push(c);
    assert(v@ =~= seq![c]);
    let tail = string_from_chars(&v);
    String::from_str(a).concat(tail.as_str())
}

impl Lexer {
    /// The text being read.
    pub closed spec fn source(&self) -> Seq<char> {
        self.input@
    }

    /// The place the lexer has reached.
    pub closed spec fn cursor(&self) -> Cursor {
        Cursor { pos: self.pos as int, line: self.line as int, col: self.col as int }
    }

    /// The dialect being read.
    pub closed spec fn dialect(&self) -> ParseConfig {
        self.config
    }

    /// The lexer's place lies in its text, and its tables are those of its dialect.
    pub closed spec fn wf(&self) -> bool {
        &&& self.input@.len() < usize::MAX
        &&& self.pos <= self.input@.len()
        &&& 1 <= self.line <= self.pos + 1
        &&& 1 <= self.col <= self.pos + 1
        &&& keyword_chars_view(self.keywords_map@) == keyword_entries(self.config)
        &&& operator_chars_view(self.operators_map@) == operator_entries(self.config)
    }

    /// A lexer at the start of `input`, in the dialect `config`.
    pub fn new(input: &str, config: &ParseConfig) -> (r: Lexer)
        requires
            input@.len() < usize::MAX,
        ensures
            r.wf(),
            r.source() == input@,
            r.cursor() == start_cursor(),
            r.dialect() == *config,
    {
        let kw = get_keywords_map(config);
        let ops = get_operators_map(config);
        Lexer {
            input: str_chars(input),
            pos: 0,
            line: 1,
            col: 1,
            config: *config,
            keywords_map: keyword_chars(&kw),
            operators_map: operator_chars(&ops),
        }
    }

    /// All the tokens from the lexer's place on, ending with `EOF`, or the
    /// first lexical error.
    #[verifier::loop_isolation(false)]
    pub fn tokenize(&mut self) -> (r: CpcResult<Vec<Token>>)
        requires
            old(self).wf(),
        ensures
            final(self).wf(),
            tokens_result(r) == lex_all(old(self).source(), old(self).dialect(), old(self).cursor()),
    {
        let ghost input = self.input@;
        let ghost p0 = self.cursor();
        let mut tokens: Vec<Token> = Vec::new();
        assert(tokens_view(tokens@) =~= Seq::<TokenV>::empty());
        assert(after(Seq::empty(), lex_all(input, self.config, p0)) =~~= lex_all(input, self.config, p0));
        while self.pos < self.input.len()
            invariant
                self.wf(),
                self.input@ == input,
                self.config == old(self).config,
                after(tokens_view(tokens@), lex_all(input, self.config, self.cursor())) == lex_all(input, self.config, p0),
            decreases self.input@.len() - self.pos,
        {
            proof {
                lemma_next_token_moves(input, self.config, self.cursor());
            }
            let ghost c = self.cursor();
            let ghost before = tokens_view(tokens@);
            match self.next_token() {
                Ok(t) => {
                    let ghost tv = t@;
                    tokens.push(t);
                    assert(tokens_view(tokens@) =~= before.push(tv));
                    proof {
                        match lex_all(input, self.config, self.cursor()) {
                            Ok(ts) => {
                                assert(before + (seq![tv] + ts) =~= before.push(tv) + ts);
                            },
                            Err(_) => {},
                        }
                    }
                },
                Err(e) => {
                    assert(lex_all(input, self.config, c) == Err::<Seq<TokenV>, ErrV>(e@));
                    return Err(e);
                },
            }
        }
        let ghost before = tokens_view(tokens@);
        let span = self.current_span();
        tokens.push(Token { kind: TokenKind::EOF, span });
        assert(tokens_view(tokens@) =~= before + seq![TokenV { kind: TokenKindV::EOF, span }]);
        Ok(tokens)
    }

    /// The position the lexer has reached.
    fn current_span(&self) -> (s: Span)
        ensures
            s == span_at(self.cursor()),
    {
        Span { line: self.line, column: self.col }
    }

    /// The next character, if any.
    fn peek_char(&self) -> (r: Option<char>)
        ensures
            r == (if self.pos < self.input@.len() { Some(self.input@[self.pos as int]) } else { None::<char> }),
    {
        if self.pos < self.input.len() {
            Some(self.input[self.pos])
        } else {
            None
        }
    }

    /// Moves past the next character, if any.
    fn advance_char(&mut self)
        requires
            old(self).wf(),
        ensures
            final(self).wf(),
            final(self).cursor() == step(old(self).source(), old(self).cursor()),
            final(self).input@ == old(self).input@,
            final(self).config == old(self).config,
    {
        if self.pos < self.input.len() {
            let c = self.input[self.pos];
            self.pos += 1;
            if c == '\n' {
                self.line += 1;
                self.col = 1;
            } else {
                self.col += 1;
            }
        }
    }

    /// The escape whose letter is next (the backslash already read).
    fn parse_escape_sequence(&mut self) -> (r: CpcResult<char>)
        requires
            old(self).wf(),
        ensures
            final(self).wf(),
            final(self).input@ == old(self).input@,
            final(self).config == old(self).config,
            (final(self).cursor(), char_result(r)) == lex_escape(old(self).source(), old(self).cursor()),
    {
        match self.peek_char() {
            None => Err(lex_error(self.current_span(), String::from_str("Unterminated escape sequence"))),
            Some(c) => {
                self.advance_char();
                if c == 'n' {
                    Ok('\n')
                } else if c == 't' {
                    Ok('\t')
                } else if c == 'r' {
                    Ok('\r')
                } else if c == '\\' {
                    Ok('\\')
                } else if c == '"' {
                    Ok('"')
                } else if c == '\'' {
                    Ok('\'')
                } else if c == '0' {
                    Ok('\0')
                } else {
                    Err(lex_error(self.current_span(), text_with("Invalid escape character: \\", c)))
                }
            },
        }
    }

    /// A number.
    fn lex_number(&mut self) -> (r: CpcResult<Token>)
        requires
            old(self).wf(),
            old(self).pos < old(self).input@.len(),
            is_digit(old(self).input@[old(self).pos as int]),
        ensures
            final(self).wf(),
            final(self).input@ == old(self).input@,
            final(self).config == old(self).config,
            (final(self).cursor(), token_result(r)) == lex_number(old(self).source(), old(self).cursor()),
    {
        let ghost input = self.input@;
        let ghost p0 = self.cursor();
        let span = self.current_span();
        let start = self.pos;
        let mut has_dot = false;
        proof {
            lemma_number_end(input, start as int, false);
        }
        while self.pos < self.input.len() && (digit_char(self.input[self.pos]) || (self.input[self.pos] == '.' && !has_dot))
            invariant
                self.wf(),
                self.input@ == input,
                self.config == old(self).config,
                start <= self.pos <= input.len(),
                self.cursor() == step_n(input, p0, (self.pos - start) as nat),
                number_end(input, self.pos as int, has_dot) == number_end(input, start as int, false),
                has_dot == input.subrange(start as int, self.pos as int).contains('.'),
                forall|j: int| start <= j < self.pos ==> is_digit(#[trigger] input[j]) || input[j] == '.',
            decreases input.len() - self.pos,
        {
            let ghost i = self.pos;
            if self.input[self.pos] == '.' {
                has_dot = true;
            }
            proof {
                lemma_step_n_last(input, p0, (self.pos - start) as nat);
            }
            self.advance_char();
            proof {
                let sub = input.subrange(start as int, self.pos as int);
                let prev = input.subrange(start as int, i as int);
                assert(sub =~= prev.push(input[i as int]));
                if has_dot {
                    if input[i as int] == '.' {
                        assert(sub[sub.len() - 1] == '.');
                    } else {
                        let w = choose|w: int| 0 <= w < prev.len() && prev[w] == '.';
                        assert(sub[w] == '.');
                    }
                } else {
                    assert forall|w: int| 0 <= w < sub.len() implies sub[w] != '.' by {
                        if w < prev.len() {
                            assert(sub[w] == prev[w]);
                        }
                    }
                }
            }
        }
        let end = self.pos;
        let text = slice_chars(&self.input, start, end);
        if has_dot {
            Ok(Token { kind: TokenKind::Float(string_from_chars(&text)), span })
        } else {
            assert forall|j: int| 0 <= j < text@.len() implies is_digit(#[trigger] text@[j]) by {
                assert(text@[j] == input[start + j]);
                if input[start + j] == '.' {
                    assert(input.subrange(start as int, end as int)[j] == '.');
                }
            }
            match parse_decimal(&text) {
                Some(v) => Ok(Token { kind: TokenKind::Int(v), span }),
                None => Err(lex_error(span, String::from_str("Invalid integer number"))),
            }
        }
    }

    /// A name, a keyword, or a word operator.
    fn lex_identifier_or_keyword(&mut self) -> (r: CpcResult<Token>)
        requires
            old(self).wf(),
            old(self).pos < old(self).input@.len(),
        ensures
            final(self).wf(),
            final(self).input@ == old(self).input@,
            final(self).config == old(self).config,
            (final(self).cursor(), token_result(r)) == lex_word(old(self).source(), old(self).config, old(self).cursor()),
    {
        let ghost input = self.input@;
        let ghost p0 = self.cursor();
        let start = self.pos;
        proof {
            lemma_word_end(input, start as int);
        }
        while self.pos < self.input.len() && word_char(self.input[self.pos])
            invariant
                self.wf(),
                self.input@ == input,
                self.config == old(self).config,
                start <= self.pos <= input.len(),
                self.cursor() == step_n(input, p0, (self.pos - start) as nat),
                word_end(input, self.pos as int) == word_end(input, start as int),
                forall|j: int| start <= j < self.pos ==> is_word_char(#[trigger] input[j]),
            decreases input.len() - self.pos,
        {
            proof {
                lemma_step_n_last(input, p0, (self.pos - start) as nat);
            }
            self.advance_char();
        }
        let end = self.pos;
        proof {
            assert forall|j: int| start <= j < end implies input[j] != '\n' by {
                assert(is_word_char(input[j]));
            }
            lemma_step_n_same_line(input, p0, (end - start) as nat);
        }
        let span = Span { line: self.line, column: self.col - (end - start) };
        let text = slice_chars(&self.input, start, end);
        let ident_str = string_from_chars(&text);
        let upper = to_upper(&ident_str);
        let upper_chars = str_chars(upper.as_str());
        match find_operator(&self.operators_map, &upper_chars) {
            Some(k) => Ok(Token { kind: k, span }),
            None => match find_keyword(&self.keywords_map, &upper_chars) {
                Some(kw) => Ok(Token { kind: TokenKind::Keyword(kw), span }),
                None => {
                    let ident_final = if self.config.case_sensitive {
                        ident_str
                    } else {
                        to_lower(&ident_str)
                    };
                    Ok(Token { kind: TokenKind::Identifier(ident_final), span })
                },
            },
        }
    }

    /// A string literal.
    #[verifier::loop_isolation(false)]
    fn lex_string(&mut self) -> (r: CpcResult<Token>)
        requires
            old(self).wf(),
            old(self).pos < old(self).input@.len(),
        ensures
            final(self).wf(),
            final(self).input@ == old(self).input@,
            final(self).config == old(self).config,
            (final(self).cursor(), token_result(r)) == lex_string(old(self).source(), old(self).config, old(self).cursor()),
    {
        let ghost input = self.input@;
        let ghost p0 = self.cursor();
        let span = self.current_span();
        self.advance_char();
        let ghost q0 = self.cursor();
        let mut s: Vec<char> = Vec::new();
        loop
            invariant
                self.wf(),
                self.input@ == input,
                self.config == old(self).config,
                string_body(input, self.config, self.cursor(), s@) == string_body(input, self.config, q0, Seq::empty()),
            decreases input.len() - self.pos,
        {
            if self.pos >= self.input.len() {
                return Err(lex_error(self.current_span(), String::from_str("Unterminated string literal")));
            }
            let c = self.input[self.pos];
            if c == '"' {
                self.advance_char();
                return Ok(Token { kind: TokenKind::Str(string_from_chars(&s)), span });
            } else if c == '\\' {
                self.advance_char();
                match self.parse_escape_sequence() {
                    Ok(ch) => {
                        s.push(ch);
                    },
                    Err(e) => {
                        return Err(e);
                    },
                }
            } else if c == '\n' && !self.config.allow_new_line_in_string {
                return Err(lex_error(self.current_span(), String::from_str("Unterminated string literal")));
            } else {
                self.advance_char();
                s.push(c);
            }
        }
    }

    /// A character literal.
    fn lex_char(&mut self) -> (r: CpcResult<Token>)
        requires
            old(self).wf(),
            old(self).pos < old(self).input@.len(),
        ensures
            final(self).wf(),
            final(self).input@ == old(self).input@,
            final(self).config == old(self).config,
            (final(self).cursor(), token_result(r)) == lex_char(old(self).source(), old(self).cursor()),
    {
        let span = self.current_span();
        self.advance_char();
        let char_value = match self.peek_char() {
            Some(c) => {
                if c == '\\' {
                    self.advance_char();
                    match self.parse_escape_sequence() {
                        Ok(ch) => ch,
                        Err(e) => {
                            return Err(e);
                        },
                    }
                } else {
                    self.advance_char();
                    c
                }
            },
            None => {
                return Err(lex_error(self.current_span(), String::from_str("Unterminated character literal")));
            },
        };
        if self.peek_char() != Some('\'') {
            return Err(lex_error(self.current_span(), String::from_str("Unterminated character literal")));
        }
        self.advance_char();
        Ok(Token { kind: TokenKind::Char(char_value), span })
    }

    /// Whether `input[start..end]` is an operator.
    fn is_operator_text(&self, start: usize, end: usize) -> (r: bool)
        requires
            self.wf(),
            start <= end <= self.input@.len(),
        ensures
            r == (assoc(operator_entries(self.config), self.input@.subrange(start as int, end as int)) is Some),
    {
        let text = slice_chars(&self.input, start, end);
        match find_operator(&self.operators_map, &text) {
            Some(_) => true,
            None => false,
        }
    }

    /// An operator or punctuation, or the error for a character that starts none.
    fn lex_operator_or_unknown(&mut self) -> (r: CpcResult<Token>)
        requires
            old(self).wf(),
            old(self).pos < old(self).input@.len(),
        ensures
            final(self).wf(),
            final(self).input@ == old(self).input@,
            final(self).config == old(self).config,
            (final(self).cursor(), token_result(r)) == lex_operator(old(self).source(), old(self).config, old(self).cursor()),
    {
        let ghost input = self.input@;
        let ghost p0 = self.cursor();
        let span = self.current_span();
        let start = self.pos;
        while self.pos < self.input.len() && self.is_operator_text(start, self.pos + 1)
            invariant
                self.wf(),
                self.input@ == input,
                self.config == old(self).config,
                start <= self.pos <= input.len(),
                self.cursor() == step_n(input, p0, (self.pos - start) as nat),
                op_run(input, self.config, start as int, self.pos - start) == op_run(input, self.config, start as int, 0),
            decreases input.len() - self.pos,
        {
            proof {
                lemma_step_n_last(input, p0, (self.pos - start) as nat);
            }
            self.advance_char();
        }
        if self.pos == start {
            let bad_char = self.input[self.pos];
            self.advance_char();
            return Err(lex_error(
                self.current_span(),
                text_with("Illegal character: '", bad_char).concat("'"),
            ));
        }
        let op_str = slice_chars(&self.input, start, self.pos);
        match find_operator(&self.operators_map, &op_str) {
            Some(k) => Ok(Token { kind: k, span }),
            None => {
                let msg = String::from_str("Unknown operator: ").concat(string_from_chars(&op_str).as_str());
                Err(lex_error(span, msg))
            },
        }
    }

    /// The token that starts with the next character.
    fn lex_token(&mut self) -> (r: CpcResult<Token>)
        requires
            old(self).wf(),
            old(self).pos < old(self).input@.len(),
        ensures
            final(self).wf(),
            final(self).input@ == old(self).input@,
            final(self).config == old(self).config,
            (final(self).cursor(), token_result(r)) == lex_token(old(self).source(), old(self).config, old(self).cursor()),
    {
        let c = self.input[self.pos];
        if digit_char(c) {
            self.lex_number()
        } else if ('a' <= c && c <= 'z') || ('A' <= c && c <= 'Z') || c == '_' {
            self.lex_identifier_or_keyword()
        } else if c == '"' {
            self.lex_string()
        } else if c == '\'' {
            self.lex_char()
        } else {
            self.lex_operator_or_unknown()
        }
    }

    /// The next token: blanks and comments are skipped, a line break is a
    /// token of its own, and the end of the text gives `EOF`.
    #[verifier::loop_isolation(false)]
    fn next_token(&mut self) -> (r: CpcResult<Token>)
        requires
            old(self).wf(),
        ensures
            final(self).wf(),
            final(self).input@ == old(self).input@,
            final(self).config == old(self).config,
            (final(self).cursor(), token_result(r)) == next_token(old(self).source(), old(self).config, old(self).cursor()),
    {
        let ghost input = self.input@;
        let ghost p0 = self.cursor();
        loop
            invariant
                self.wf(),
                self.input@ == input,
                self.config == old(self).config,
                next_token(input, self.config, self.cursor()) == next_token(input, self.config, p0),
            decreases input.len() - self.pos,
        {
            if self.pos >= self.input.len() {
                return Ok(Token { kind: TokenKind::EOF, span: self.current_span() });
            }
            let c = self.input[self.pos];
            if c == ' ' || c == '\t' || c == '\r' {
                self.advance_char();
            } else if c == '\n' {
                let span = self.current_span();
                self.advance_char();
                return Ok(Token { kind: TokenKind::EOL, span });
            } else if c == '/' && self.pos + 1 < self.input.len() && self.input[self.pos + 1] == '/' {
                let ghost pc = self.cursor();
                let start = self.pos;
                proof {
                    lemma_comment_skip(input, start as int);
                }
                while self.pos < self.input.len() && self.input[self.pos] != '\n'
                    invariant
                        self.wf(),
                        self.input@ == input,
                        self.config == old(self).config,
                        start <= self.pos <= input.len(),
                        self.cursor() == step_n(input, pc, (self.pos - start) as nat),
                        comment_end(input, self.pos as int) == comment_end(input, start as int),
                    decreases input.len() - self.pos,
                {
                    proof {
                        lemma_step_n_last(input, pc, (self.pos - start) as nat);
                    }
                    self.advance_char();
                }
            } else {
                return self.lex_token();
            }
        }
    }

}

} // verus!
