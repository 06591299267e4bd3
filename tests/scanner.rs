use std::iter::zip;

use shell_lexer::lexing::ScanErrorKind;
use shell_lexer::scanner::Scanner;
use shell_lexer::token::{Token, TokenType};

fn test(input: String, expected: Vec<Token>) {
    let scanner = Scanner::new(input.to_string());
    let tokens = scanner.scan_tokens().unwrap();

    println!("actual: {:#?}", tokens);
    println!("expected: {:#?}", expected);

    assert_eq!(tokens.len(), expected.len());

    for (expected_token, actual_token) in expected.iter().zip(tokens) {
        assert_eq!(actual_token.type_, expected_token.type_);
        assert_eq!(actual_token.lexeme, expected_token.lexeme);
    }
}

fn eof_token() -> Token {
    Token::new(TokenType::Eof, "".to_string())
}

fn word(text: &str) -> Token {
    Token::new(TokenType::String, text.to_string())
}

fn scan_error(input: &str) -> ScanErrorKind {
    match Scanner::new(input.to_string()).scan_tokens() {
        Ok(tokens) => panic!("expected an error, got {:#?}", tokens),
        Err(e) => e.kind,
    }
}

#[test]
fn test_single_word() {
    let input = "echo";
    let scanner = Scanner::new(input.to_string());
    let tokens = scanner.scan_tokens().unwrap();

    let expected = vec![
        Token::new(TokenType::String, "echo".to_string()),
        Token::new(TokenType::Eof, "".to_string()),
    ];

    println!("actual: {:#?}", tokens);
    println!("expected: {:#?}", expected);

    assert_eq!(tokens.len(), expected.len());

    for (expected_token, actual_token) in zip(expected, tokens) {
        assert_eq!(actual_token.type_, expected_token.type_);
        assert_eq!(actual_token.lexeme, expected_token.lexeme);
    }
}

#[test]
fn test_multiple_words() {
    let input = "echo hello world hey there";
    let scanner = Scanner::new(input.to_string());
    let tokens = scanner.scan_tokens().unwrap();

    let expected = [
        Token::new(TokenType::String, "echo".to_string()),
        Token::new(TokenType::String, "hello".to_string()),
        Token::new(TokenType::String, "world".to_string()),
        Token::new(TokenType::String, "hey".to_string()),
        Token::new(TokenType::String, "there".to_string()),
        Token::new(TokenType::Eof, "".to_string()),
    ];
    assert_eq!(tokens.len(), expected.len());

    for (expected_token, actual_token) in zip(expected, tokens) {
        assert_eq!(actual_token.type_, expected_token.type_);
        assert_eq!(actual_token.lexeme, expected_token.lexeme);
    }
}

#[test]
fn test_1_single_quoted_string() {
    let input = "'hello world'";
    let scanner = Scanner::new(input.to_string());
    let tokens = scanner.scan_tokens().unwrap();

    let expected = [
        Token::new(TokenType::String, "hello world".to_string()),
        Token::new(TokenType::Eof, "".to_string()),
    ];
    assert_eq!(tokens.len(), expected.len());

    for (expected_token, actual_token) in zip(expected, tokens) {
        assert_eq!(actual_token.type_, expected_token.type_);
        assert_eq!(actual_token.lexeme, expected_token.lexeme);
    }
}

#[test]
fn test_multiple_single_quoted_strings() {
    let input = "'hello world' 'how are you?' 'word'";
    let scanner = Scanner::new(input.to_string());
    let tokens = scanner.scan_tokens().unwrap();

    let expected = [
        Token::new(TokenType::String, "hello world".to_string()),
        Token::new(TokenType::String, "how are you?".to_string()),
        Token::new(TokenType::String, "word".to_string()),
        Token::new(TokenType::Eof, "".to_string()),
    ];
    assert_eq!(tokens.len(), expected.len());

    for (expected_token, actual_token) in zip(expected, tokens) {
        assert_eq!(actual_token.type_, expected_token.type_);
        assert_eq!(actual_token.lexeme, expected_token.lexeme);
    }
}

#[test]
fn test_1_double_quoted_string() {
    let input = "\"hello world\"";
    let expected = vec![
        Token::new(TokenType::String, "hello world".to_string()),
        Token::new(TokenType::Eof, "".to_string()),
    ];
    test(input.to_string(), expected);
}

#[test]
fn test_multiple_double_quoted_strings() {
    let input = "\"hello world\" \"how are you?\" \"word\"";
    let expected = vec![
        Token::new(TokenType::String, "hello world".to_string()),
        Token::new(TokenType::String, "how are you?".to_string()),
        Token::new(TokenType::String, "word".to_string()),
        Token::new(TokenType::Eof, "".to_string()),
    ];
    test(input.to_string(), expected);
}

#[test]
fn test_single_quoted_string_escape_char_does_nothing() {
    let input = "'\\' 'hey\\nthere' '\\\\' '\\ '";
    let scanner = Scanner::new(input.to_string());
    let tokens = scanner.scan_tokens().unwrap();

    let expected = [
        Token::new(TokenType::String, "\\".to_string()),
        Token::new(TokenType::String, "hey\\nthere".to_string()),
        Token::new(TokenType::String, "\\\\".to_string()),
        Token::new(TokenType::String, "\\ ".to_string()),
        Token::new(TokenType::Eof, "".to_string()),
    ];
    assert_eq!(tokens.len(), expected.len());

    for (expected_token, actual_token) in zip(expected, tokens) {
        assert_eq!(actual_token.type_, expected_token.type_);
        assert_eq!(actual_token.lexeme, expected_token.lexeme);
    }
}

#[test]
fn test_double_quoted_string_escape_char_works() {
    let input = "\"\\$\" \"\\`\" \"\\\"\" \"\\\\\" \"\\n\"";
    let expected = vec![
        Token::new(TokenType::String, "$".to_string()),
        Token::new(TokenType::String, "`".to_string()),
        Token::new(TokenType::String, "\"".to_string()),
        Token::new(TokenType::String, "\\".to_string()),
        Token::new(TokenType::String, "\\n".to_string()),
        Token::new(TokenType::Eof, "".to_string()),
    ];
    test(input.to_string(), expected);
}

#[test]
fn test_escaped_double_quotes_in_double_quoted_string() {
    let input = "\"hello \\\"world\\\"\"";
    let expected = vec![
        Token::new(TokenType::String, "hello \"world\"".to_string()),
        Token::new(TokenType::Eof, "".to_string()),
    ];
    test(input.to_string(), expected);
}

#[test]
fn test_double_quoted_backslash_to_escape_itself() {
    // input:
    // "hello\\world"
    let input = "\"hello\\\\world\"";
    let expected = vec![
        Token::new(TokenType::String, "hello\\world".to_string()),
        Token::new(TokenType::Eof, "".to_string()),
    ];
    test(input.to_string(), expected);
}

#[test]
fn test_backslash_in_unquoted_string() {
    test(
        "hello\\\\nworld".to_string(),
        vec![
            Token::new(TokenType::String, "hello\\nworld".to_string()),
            eof_token(),
        ],
    );

    test(
        "hey\\nthere".to_string(),
        vec![
            Token::new(TokenType::String, "heynthere".to_string()),
            eof_token(),
        ],
    );

    test(
        "\\\'\\\"example shell\\\"\\\'".to_string(),
        vec![
            Token::new(TokenType::String, "\'\"example".to_string()),
            Token::new(TokenType::String, "shell\"\'".to_string()),
            eof_token(),
        ],
    );

    // input:
    // echo \'\"example shell\"\' hello\\nworld hey\nthere
    // output tokens:
    // echo
    // '"example
    // shell"'
    // hello\nworld
    // heynthere

    let input = "echo \\\'\\\"example shell\\\"\\\' hello\\\\nworld hey\\nthere";
    let expected = vec![
        Token::new(TokenType::String, "echo".to_string()),
        Token::new(TokenType::String, "\'\"example".to_string()),
        Token::new(TokenType::String, "shell\"\'".to_string()),
        Token::new(TokenType::String, "hello\\nworld".to_string()),
        Token::new(TokenType::String, "heynthere".to_string()),
        Token::new(TokenType::Eof, "".to_string()),
    ];
    test(input.to_string(), expected);
}

#[test]
fn test_backslash_metacharacter_in_unquoted_string() {
    let input = "hello\\ wor\\>ld";
    let scanner = Scanner::new(input.to_string());
    let tokens = scanner.scan_tokens().unwrap();

    let expected = [
        Token::new(TokenType::String, "hello wor>ld".to_string()),
        Token::new(TokenType::Eof, "".to_string()),
    ];
    assert_eq!(tokens.len(), expected.len());

    for (expected_token, actual_token) in expected.iter().zip(tokens) {
        assert_eq!(actual_token.type_, expected_token.type_);
        assert_eq!(actual_token.lexeme, expected_token.lexeme);
    }
}

#[test]
fn test_adjacent_unquoted_double_quoted() {
    test(
        "hey\"there how\"".to_string(),
        vec![
            Token::new(TokenType::String, "heythere how".to_string()),
            Token::new(TokenType::Eof, "".to_string()),
        ],
    );
}

#[test]
fn test_adjacent_unquoted_single_quoted() {
    test(
        "hey'there how'".to_string(),
        vec![
            Token::new(TokenType::String, "heythere how".to_string()),
            Token::new(TokenType::Eof, "".to_string()),
        ],
    );
}

#[test]
fn test_adjacent_double_quoted_unquoted() {
    test(
        "\"hey there\"how".to_string(),
        vec![
            Token::new(TokenType::String, "hey therehow".to_string()),
            Token::new(TokenType::Eof, "".to_string()),
        ],
    );
}

#[test]
fn test_adjacent_single_quoted_unquoted() {
    test(
        "'hey there'how".to_string(),
        vec![
            Token::new(TokenType::String, "hey therehow".to_string()),
            Token::new(TokenType::Eof, "".to_string()),
        ],
    );
}

#[test]
fn test_adjacent_double_quoted_single_quoted() {
    test(
        "\"hey there\"'how are'".to_string(),
        vec![
            Token::new(TokenType::String, "hey therehow are".to_string()),
            Token::new(TokenType::Eof, "".to_string()),
        ],
    );
}

#[test]
fn test_adjacent_single_quoted_double_quoted() {
    test(
        "'hey there'\"how are\"".to_string(),
        vec![
            Token::new(TokenType::String, "hey therehow are".to_string()),
            Token::new(TokenType::Eof, "".to_string()),
        ],
    );
}

#[test]
fn plain_line_splits_at_blank_runs() {
    test(
        "  ls\t-la   /tmp  ".to_string(),
        vec![word("ls"), word("-la"), word("/tmp"), eof_token()],
    );
}

#[test]
fn blank_runs_scan_as_one_space() {
    let spaced = Scanner::new("a \t  \t b".to_string()).scan_tokens().unwrap();
    let single = Scanner::new("a b".to_string()).scan_tokens().unwrap();
    assert_eq!(spaced.len(), single.len());
    for (x, y) in zip(spaced, single) {
        assert_eq!(x.type_, y.type_);
        assert_eq!(x.lexeme, y.lexeme);
    }
}

#[test]
fn blanks_inside_quotes_are_kept() {
    test(
        "'a  \t b' \"c   d\"".to_string(),
        vec![word("a  \t b"), word("c   d"), eof_token()],
    );
}

#[test]
fn single_quotes_keep_backslash_n() {
    test("'a\\nb'".to_string(), vec![word("a\\nb"), eof_token()]);
}

#[test]
fn double_quotes_keep_backslash_before_other_characters() {
    test("\"a\\qb\"".to_string(), vec![word("a\\qb"), eof_token()]);
}

#[test]
fn empty_quotes_make_an_empty_word() {
    test("'' \"\"".to_string(), vec![word(""), word(""), eof_token()]);
}

#[test]
fn empty_line_scans_to_end_token_only() {
    test("".to_string(), vec![eof_token()]);
    test(" \t ".to_string(), vec![eof_token()]);
}

#[test]
fn operators_stand_as_words_of_their_own() {
    test(
        "a|b c;d".to_string(),
        vec![word("a"), word("|"), word("b"), word("c"), word(";"), word("d"), eof_token()],
    );
    test("x > y".to_string(), vec![word("x"), word(">"), word("y"), eof_token()]);
}

#[test]
fn non_ascii_text_is_read_by_character() {
    test(
        "héllo 'wörld ✓' \"ünï\"cödé".to_string(),
        vec![word("héllo"), word("wörld ✓"), word("ünïcödé"), eof_token()],
    );
}

#[test]
fn unterminated_single_quote_fails() {
    assert_eq!(scan_error("'unterminated"), ScanErrorKind::UnterminatedSingleQuote);
    assert_eq!(scan_error("ok 'still open"), ScanErrorKind::UnterminatedSingleQuote);
}

#[test]
fn unterminated_double_quote_fails() {
    assert_eq!(scan_error("\"unterminated"), ScanErrorKind::UnterminatedDoubleQuote);
    assert_eq!(scan_error("\"ends in an escaped quote\\\""), ScanErrorKind::UnterminatedDoubleQuote);
    assert_eq!(scan_error("\"ends in a backslash\\"), ScanErrorKind::UnterminatedDoubleQuote);
}

#[test]
fn trailing_backslash_fails() {
    assert_eq!(scan_error("abc\\"), ScanErrorKind::TrailingBackslash);
    assert_eq!(scan_error("\\"), ScanErrorKind::TrailingBackslash);
}

#[test]
fn error_messages_name_the_problem() {
    let e = Scanner::new("'x".to_string()).scan_tokens().unwrap_err();
    assert_eq!(e.message, "unexpected EOF while looking for matching `''");
    let e = Scanner::new("\"x".to_string()).scan_tokens().unwrap_err();
    assert_eq!(e.message, "unexpected EOF while looking for matching `\"'");
    let e = Scanner::new("x\\".to_string()).scan_tokens().unwrap_err();
    assert_eq!(e.message, "unexpected EOF after '\\'");
}
