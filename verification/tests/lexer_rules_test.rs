use caie_code_rs::cli::{arg_options, option_lines, parse_args, CliAction};
use caie_code_rs::{get_keywords_map, get_operators_map, CpcError, Keyword, Lexer, Operator, ParseConfig, Token, TokenKind};

fn tokens(src: &str, config: &ParseConfig) -> Vec<Token> {
    Lexer::new(src, config).tokenize().expect("the text should lex")
}

fn lex_error(src: &str, config: &ParseConfig) -> (usize, usize, String) {
    match Lexer::new(src, config).tokenize() {
        Err(CpcError::Lex { span, message }) => (span.line, span.column, message),
        Err(other) => panic!("expected a lexical error, got {:?}", other),
        Ok(ts) => panic!("expected a lexical error, got {} tokens", ts.len()),
    }
}

#[test]
fn every_lexed_text_ends_with_eof() {
    for src in ["", "X", "X ← 1\n", "  ", "// only a comment", "'a' \"b\" 3.5"] {
        let ts = tokens(src, &ParseConfig::normal());
        assert!(matches!(ts.last().unwrap().kind, TokenKind::EOF));
    }
}

#[test]
fn trailing_blanks_give_a_second_eof() {
    let ts = tokens("X ", &ParseConfig::normal());
    assert_eq!(ts.len(), 3);
    assert!(matches!(ts[1].kind, TokenKind::EOF));
    assert!(matches!(ts[2].kind, TokenKind::EOF));
    assert_eq!((ts[1].span.line, ts[1].span.column), (1, 3));
}

#[test]
fn keywords_and_word_operators_ignore_case() {
    let ts = tokens("WhIlE endWHILE div Mod oR", &ParseConfig::strict());
    assert!(matches!(ts[0].kind, TokenKind::Keyword(Keyword::While)));
    assert!(matches!(ts[1].kind, TokenKind::Keyword(Keyword::EndWhile)));
    assert!(matches!(ts[2].kind, TokenKind::Operator(Operator::FullDiv)));
    assert!(matches!(ts[3].kind, TokenKind::Operator(Operator::Mod)));
    assert!(matches!(ts[4].kind, TokenKind::Operator(Operator::Or)));
}

#[test]
fn names_fold_case_only_in_strict_dialect() {
    let ts = tokens("MiXeD", &ParseConfig::strict());
    assert!(matches!(&ts[0].kind, TokenKind::Identifier(s) if s == "mixed"));
    let ts = tokens("MiXeD", &ParseConfig::normal());
    assert!(matches!(&ts[0].kind, TokenKind::Identifier(s) if s == "MiXeD"));
}

#[test]
fn names_may_hold_letters_beyond_ascii() {
    let ts = tokens("café_2 x", &ParseConfig::normal());
    assert!(matches!(&ts[0].kind, TokenKind::Identifier(s) if s == "café_2"));
    assert!(matches!(&ts[1].kind, TokenKind::Identifier(s) if s == "x"));
    assert_eq!(ts[1].span.column, 8);
}

#[test]
fn loop_control_words_depend_on_dialect() {
    let ts = tokens("BREAK CONTINUE RETURN", &ParseConfig::normal());
    assert!(matches!(ts[0].kind, TokenKind::Keyword(Keyword::Break)));
    assert!(matches!(ts[1].kind, TokenKind::Keyword(Keyword::Continue)));
    assert!(matches!(ts[2].kind, TokenKind::Keyword(Keyword::Return)));
    let ts = tokens("BREAK CONTINUE RETURN", &ParseConfig::strict());
    assert!(matches!(&ts[0].kind, TokenKind::Identifier(s) if s == "break"));
    assert!(matches!(&ts[1].kind, TokenKind::Identifier(s) if s == "continue"));
    assert!(matches!(ts[2].kind, TokenKind::Keyword(Keyword::Return)));
}

#[test]
fn keyword_and_operator_tables() {
    let normal = get_keywords_map(&ParseConfig::normal());
    let strict = get_keywords_map(&ParseConfig::strict());
    assert_eq!(normal.len(), 26);
    assert_eq!(strict.len(), 24);
    assert!(normal.iter().any(|(w, k)| w == "CONTINUE" && matches!(k, Keyword::Continue)));
    assert!(!strict.iter().any(|(w, _)| w == "CONTINUE"));
    let ops = get_operators_map(&ParseConfig::normal());
    assert!(ops.iter().any(|(w, k)| w == "=" && matches!(k, TokenKind::Assign)));
    assert!(ops.iter().any(|(w, k)| w == "==" && matches!(k, TokenKind::Operator(Operator::Eq))));
    let ops = get_operators_map(&ParseConfig::strict());
    assert!(ops.iter().any(|(w, k)| w == "=" && matches!(k, TokenKind::Operator(Operator::Eq))));
    assert!(!ops.iter().any(|(w, _)| w == "=="));
}

#[test]
fn operators_grow_one_character_at_a_time() {
    let ts = tokens("===<>=", &ParseConfig::normal());
    assert!(matches!(ts[0].kind, TokenKind::Operator(Operator::Eq)));
    assert!(matches!(ts[1].kind, TokenKind::Assign));
    assert!(matches!(ts[2].kind, TokenKind::Operator(Operator::Neq)));
    assert!(matches!(ts[3].kind, TokenKind::Assign));
}

#[test]
fn numbers() {
    let ts = tokens("9223372036854775807 1.25 7.", &ParseConfig::normal());
    assert!(matches!(ts[0].kind, TokenKind::Int(i64::MAX)));
    assert!(matches!(&ts[1].kind, TokenKind::Float(t) if t == "1.25"));
    assert!(matches!(&ts[2].kind, TokenKind::Float(t) if t == "7."));
    // A second point ends the number; a point cannot start a token.
    assert_eq!(lex_error("1.2.3", &ParseConfig::normal()), (1, 5, "Illegal character: '.'".to_string()));
}

#[test]
fn lexical_errors_and_their_places() {
    let normal = ParseConfig::normal();
    assert_eq!(lex_error("9223372036854775808", &normal), (1, 1, "Invalid integer number".to_string()));
    assert_eq!(lex_error("X @ Y", &normal), (1, 4, "Illegal character: '@'".to_string()));
    assert_eq!(lex_error("\"a\\qb\"", &normal), (1, 5, "Invalid escape character: \\q".to_string()));
    assert_eq!(lex_error("'ab'", &normal), (1, 3, "Unterminated character literal".to_string()));
    assert_eq!(lex_error("'", &normal), (1, 2, "Unterminated character literal".to_string()));
    assert_eq!(lex_error("\"abc", &normal), (1, 5, "Unterminated string literal".to_string()));
    assert_eq!(lex_error("\"\\", &normal), (1, 3, "Unterminated escape sequence".to_string()));
    assert_eq!(lex_error("A\n  \"x\ny\"", &normal), (2, 5, "Unterminated string literal".to_string()));
}

#[test]
fn strings_may_span_lines_where_allowed() {
    let mut config = ParseConfig::normal();
    config.allow_new_line_in_string = true;
    let ts = tokens("\"x\ny\" Z", &config);
    assert!(matches!(&ts[0].kind, TokenKind::Str(s) if s == "x\ny"));
    assert!(matches!(&ts[1].kind, TokenKind::Identifier(s) if s == "Z"));
    assert_eq!((ts[1].span.line, ts[1].span.column), (2, 4));
}

#[test]
fn comments_and_escapes() {
    let ts = tokens("'\\0' \"\\r\\\\\" // note\n/", &ParseConfig::normal());
    assert!(matches!(ts[0].kind, TokenKind::Char('\0')));
    assert!(matches!(&ts[1].kind, TokenKind::Str(s) if s == "\r\\"));
    assert!(matches!(ts[2].kind, TokenKind::EOL));
    assert!(matches!(ts[3].kind, TokenKind::Operator(Operator::Div)));
    assert_eq!((ts[3].span.line, ts[3].span.column), (2, 1));
}

#[test]
fn command_line_decisions() {
    let args = |v: &[&str]| v.iter().map(|s| s.to_string()).collect::<Vec<String>>();
    assert!(matches!(parse_args(&args(&["cpc"])), CliAction::Run { file_path: None, debug: false }));
    assert!(matches!(parse_args(&args(&["cpc", "a.cpc", "-d"])), CliAction::Run { file_path: Some(p), debug: true } if p == "a.cpc"));
    assert!(matches!(parse_args(&args(&["cpc", "--help", "x"])), CliAction::Help));
    assert!(matches!(parse_args(&args(&["cpc", "-v"])), CliAction::Version));
    assert!(matches!(parse_args(&args(&["cpc", "-x"])), CliAction::Invalid(a) if a == "-x"));
    assert!(matches!(parse_args(&args(&["cpc", "a", "b"])), CliAction::MultipleFiles));
    assert!(matches!(parse_args(&args(&["cpc", "--debug", "a", "--version"])), CliAction::Version));
}

#[test]
fn help_lines() {
    let lines = option_lines(&arg_options());
    assert_eq!(lines[0], "  -h, --help           Show this help message");
    assert_eq!(lines[1], "  -v, --version        Show version information");
    assert_eq!(lines[2], "  -d, --debug          Enable debug mode");
}

#[test]
fn token_positions_count_characters_and_line_breaks() {
    let ts = tokens("// note\n\t←  'a'\r\nZ", &ParseConfig::normal());
    let places: Vec<(usize, usize)> = ts.iter().map(|t| (t.span.line, t.span.column)).collect();
    // the first line break, the arrow after a tab, the character, the second
    // line break after a carriage return, Z, and EOF at the end
    assert_eq!(places, vec![(1, 8), (2, 2), (2, 5), (2, 9), (3, 1), (3, 2)]);
    assert!(matches!(ts[0].kind, TokenKind::EOL));
    assert!(matches!(ts[1].kind, TokenKind::Assign));
    assert!(matches!(ts[3].kind, TokenKind::EOL));
    assert!(matches!(ts[5].kind, TokenKind::EOF));
}
