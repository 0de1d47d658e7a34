use rig::error::{ErrorType, RigError};
use rig::lexer::{begins_word, choose_rule, continues_word, Lexer, Scanned};
use rig::scan::Rule;
use rig::span::Span;
use rig::token::{Token, TokenType};

fn lex(source: &str) -> (Vec<Token>, Vec<RigError>) {
    let mut lexer = Lexer::new(source, "main.rig");
    lexer.lex()
}

fn kinds(tokens: &[Token]) -> Vec<TokenType> {
    tokens.iter().map(|t| t.token_type).collect()
}

fn span(
    starting_line: usize,
    starting_line_offset: usize,
    ending_line: usize,
    ending_line_end_offset: usize,
) -> Span {
    Span {
        file_name: String::from("main.rig"),
        starting_line,
        starting_line_offset,
        ending_line,
        ending_line_end_offset,
    }
}

#[test]
fn empty_input_yields_only_eof() {
    let (tokens, errors) = lex("");
    assert!(errors.is_empty());
    assert_eq!(tokens.len(), 1);
    assert_eq!(tokens[0].token_type, TokenType::EOF);
    assert_eq!(tokens[0].lexeme, "");
    assert_eq!(tokens[0].literal, "");
    assert_eq!(tokens[0].span, span(1, 0, 1, 0));
}

#[test]
fn left_shift_equals_is_one_token() {
    let (tokens, errors) = lex("<<=");
    assert!(errors.is_empty());
    assert_eq!(kinds(&tokens), vec![TokenType::LeftShiftEquals, TokenType::EOF]);
    assert_eq!(tokens[0].lexeme, "<<=");
    assert_eq!(tokens[0].span, span(1, 0, 1, 2));
    assert_eq!(tokens[1].span, span(1, 3, 1, 3));
}

#[test]
fn string_escape_is_decoded_and_lexeme_kept() {
    let (tokens, errors) = lex("\"a\\nb\"");
    assert!(errors.is_empty());
    assert_eq!(kinds(&tokens), vec![TokenType::StringLiteral, TokenType::EOF]);
    assert_eq!(tokens[0].literal, "a\nb");
    assert_eq!(tokens[0].lexeme, "\"a\\nb\"");
    assert_eq!(tokens[0].span, span(1, 0, 1, 5));
}

#[test]
fn unterminated_string_yields_one_diagnostic_and_no_token() {
    let (tokens, errors) = lex("\"abc");
    assert_eq!(kinds(&tokens), vec![TokenType::EOF]);
    assert_eq!(errors.len(), 1);
    assert_eq!(errors[0].error_type, ErrorType::Hard);
    assert_eq!(errors[0].error_code, "E0002");
    assert_eq!(errors[0].message, "Unterminated string literal");
    assert_eq!(errors[0].span, span(1, 0, 1, 4));
    let hint = errors[0].hint.clone().unwrap();
    assert_eq!(hint.text, "Insert `\"` here");
    assert_eq!(hint.span, span(1, 0, 1, 4));
    assert_eq!(errors[0].file_path, "main.rig");
}

#[test]
fn second_decimal_point_is_a_fault_and_scanning_resumes() {
    let (tokens, errors) = lex("1.2.3");
    assert_eq!(errors.len(), 1);
    assert_eq!(errors[0].error_code, "E0003");
    assert_eq!(errors[0].message, "Invalid integer literal");
    assert_eq!(errors[0].span, span(1, 3, 1, 3));
    let hint = errors[0].hint.clone().unwrap();
    assert_eq!(hint.text, "Remove this");
    assert_eq!(hint.span, span(1, 3, 1, 3));
    assert_eq!(kinds(&tokens), vec![TokenType::NumberLiteral, TokenType::EOF]);
    assert_eq!(tokens[0].lexeme, "3");
    assert_eq!(tokens[0].literal, "3");
    assert_eq!(tokens[0].span, span(1, 4, 1, 4));
}

#[test]
fn keywords_and_identifiers_are_told_apart() {
    let (tokens, errors) = lex("self selfish");
    assert!(errors.is_empty());
    assert_eq!(kinds(&tokens), vec![TokenType::Keyword, TokenType::Identifier, TokenType::EOF]);
    assert_eq!(tokens[0].lexeme, "self");
    assert_eq!(tokens[1].lexeme, "selfish");
    assert_eq!(tokens[1].span, span(1, 5, 1, 11));
}

fn single(source: &str) -> Token {
    let (mut tokens, errors) = lex(source);
    assert!(errors.is_empty());
    assert_eq!(tokens.len(), 2);
    assert_eq!(tokens[1].token_type, TokenType::EOF);
    tokens.remove(0)
}

#[test]
fn every_punctuation_mark_is_one_token_with_its_own_text() {
    let table = [
        ("(", TokenType::LeftParen),
        (")", TokenType::RightParen),
        ("{", TokenType::LeftBrace),
        ("}", TokenType::RightBrace),
        ("[", TokenType::LeftThirdBracket),
        ("]", TokenType::RightThirdBracket),
        (",", TokenType::Comma),
        (";", TokenType::Semicolon),
        (".", TokenType::Dot),
    ];
    for (text, kind) in table {
        let token = single(text);
        assert_eq!(token.token_type, kind);
        assert_eq!(token.lexeme, text);
        assert_eq!(token.literal, text);
        assert_eq!(token.span, span(1, 0, 1, 0));
    }
}

#[test]
fn every_operator_is_one_token_with_its_own_text() {
    let table = [
        (":", TokenType::Colon),
        ("::", TokenType::Scope),
        ("!", TokenType::Bang),
        ("!=", TokenType::NotEqual),
        ("+", TokenType::Plus),
        ("+=", TokenType::PlusEquals),
        ("-", TokenType::Minus),
        ("-=", TokenType::MinusEquals),
        ("->", TokenType::Arrow),
        ("*", TokenType::Multiply),
        ("*=", TokenType::MultiplyEquals),
        ("/", TokenType::Divide),
        ("/=", TokenType::DivideEquals),
        ("%", TokenType::Modulus),
        ("%=", TokenType::ModulusEquals),
        ("&", TokenType::AndOp),
        ("&=", TokenType::AndOpEquals),
        ("&&", TokenType::And),
        ("|", TokenType::OrOp),
        ("|=", TokenType::OrOpEquals),
        ("||", TokenType::Or),
        ("^", TokenType::Xor),
        ("^=", TokenType::XorEquals),
        ("=", TokenType::Equal),
        ("==", TokenType::EqualEqual),
        ("=>", TokenType::FatArrow),
        ("<", TokenType::LessThan),
        ("<=", TokenType::LessThanOrEquals),
        ("<<", TokenType::LeftShift),
        ("<<=", TokenType::LeftShiftEquals),
        (">", TokenType::GreaterThan),
        (">=", TokenType::GreaterThanOrEquals),
        (">>", TokenType::RightShift),
        (">>=", TokenType::RightShiftEquals),
    ];
    for (text, kind) in table {
        let token = single(text);
        assert_eq!(token.token_type, kind);
        assert_eq!(token.lexeme, text);
        assert_eq!(token.literal, text);
        assert_eq!(token.span, span(1, 0, 1, text.len() - 1));
    }
}

#[test]
fn the_longest_operator_wins_and_the_rest_is_scanned_again() {
    let cases: [(&str, Vec<TokenType>); 9] = [
        ("<<<", vec![TokenType::LeftShift, TokenType::LessThan]),
        ("<=<", vec![TokenType::LessThanOrEquals, TokenType::LessThan]),
        (">>>=", vec![TokenType::RightShift, TokenType::GreaterThanOrEquals]),
        ("=>=", vec![TokenType::FatArrow, TokenType::Equal]),
        ("===", vec![TokenType::EqualEqual, TokenType::Equal]),
        ("--", vec![TokenType::Minus, TokenType::Minus]),
        ("&&&", vec![TokenType::And, TokenType::AndOp]),
        (":::", vec![TokenType::Scope, TokenType::Colon]),
        ("!==", vec![TokenType::NotEqual, TokenType::Equal]),
    ];
    for (text, mut expected) in cases {
        let (tokens, errors) = lex(text);
        assert!(errors.is_empty());
        expected.push(TokenType::EOF);
        assert_eq!(kinds(&tokens), expected);
    }
}

#[test]
fn operators_between_words_keep_their_columns() {
    let (tokens, errors) = lex("a<<=b");
    assert!(errors.is_empty());
    assert_eq!(
        kinds(&tokens),
        vec![
            TokenType::Identifier,
            TokenType::LeftShiftEquals,
            TokenType::Identifier,
            TokenType::EOF
        ]
    );
    assert_eq!(tokens[0].span, span(1, 0, 1, 0));
    assert_eq!(tokens[1].span, span(1, 1, 1, 3));
    assert_eq!(tokens[2].span, span(1, 4, 1, 4));
    assert_eq!(tokens[3].span, span(1, 5, 1, 5));
}

#[test]
fn the_last_token_is_always_the_only_end_of_file_token() {
    for source in ["", " ", "a", "12", "# note", "\"open", "1.2.3", "a\nb\n", "@", "\"x\\"] {
        let (tokens, _) = lex(source);
        assert_eq!(tokens.last().unwrap().token_type, TokenType::EOF);
        assert_eq!(tokens.last().unwrap().lexeme, "");
        assert_eq!(tokens.last().unwrap().literal, "");
        let before = &tokens[..tokens.len() - 1];
        assert!(before.iter().all(|t| t.token_type != TokenType::EOF));
    }
}

#[test]
fn every_reserved_word_is_a_keyword() {
    let words = [
        "let", "mut", "fn", "if", "else", "while", "for", "in", "loop", "break", "continue",
        "return", "struct", "impl", "use", "mod", "pub", "true", "false", "null", "self",
    ];
    for word in words {
        let token = single(word);
        assert_eq!(token.token_type, TokenType::Keyword);
        assert_eq!(token.lexeme, word);
        assert_eq!(token.literal, word);
    }
    for word in ["lets", "_let", "Self", "nul", "truee", "iff", "x"] {
        assert_eq!(single(word).token_type, TokenType::Identifier);
    }
}

#[test]
fn words_take_letters_digits_and_underscores() {
    let token = single("_a1_b2");
    assert_eq!(token.token_type, TokenType::Identifier);
    assert_eq!(token.lexeme, "_a1_b2");
    assert_eq!(token.span, span(1, 0, 1, 5));
    let token = single("h\u{e9}llo");
    assert_eq!(token.token_type, TokenType::Identifier);
    assert_eq!(token.lexeme, "h\u{e9}llo");
    assert_eq!(token.span, span(1, 0, 1, 4));
}

#[test]
fn a_number_ends_where_a_word_begins() {
    let (tokens, errors) = lex("1a");
    assert!(errors.is_empty());
    assert_eq!(
        kinds(&tokens),
        vec![TokenType::NumberLiteral, TokenType::Identifier, TokenType::EOF]
    );
    assert_eq!(tokens[0].lexeme, "1");
    assert_eq!(tokens[1].lexeme, "a");
}

#[test]
fn numbers_with_and_without_a_decimal_point() {
    let token = single("12");
    assert_eq!(token.token_type, TokenType::NumberLiteral);
    assert_eq!(token.lexeme, "12");
    assert_eq!(token.literal, "12");
    assert_eq!(token.span, span(1, 0, 1, 1));
    let token = single("3.14");
    assert_eq!(token.lexeme, "3.14");
    assert_eq!(token.span, span(1, 0, 1, 3));
    let token = single("1.");
    assert_eq!(token.lexeme, "1.");
    assert_eq!(token.span, span(1, 0, 1, 1));
}

#[test]
fn end_of_file_stands_behind_a_trailing_number() {
    let (tokens, _) = lex("12");
    assert_eq!(tokens[1].span, span(1, 2, 1, 2));
}

#[test]
fn two_decimal_points_in_a_row_are_a_fault_at_the_second() {
    let (tokens, errors) = lex("1..2");
    assert_eq!(errors.len(), 1);
    assert_eq!(errors[0].error_code, "E0003");
    assert_eq!(errors[0].span, span(1, 2, 1, 2));
    assert_eq!(kinds(&tokens), vec![TokenType::NumberLiteral, TokenType::EOF]);
    assert_eq!(tokens[0].lexeme, "2");
    assert_eq!(tokens[0].span, span(1, 3, 1, 3));
}

#[test]
fn a_dot_before_a_digit_is_punctuation() {
    let (tokens, errors) = lex(".5");
    assert!(errors.is_empty());
    assert_eq!(kinds(&tokens), vec![TokenType::Dot, TokenType::NumberLiteral, TokenType::EOF]);
}

#[test]
fn a_comment_runs_to_the_end_of_its_line() {
    let (tokens, errors) = lex("a # c d\nb");
    assert!(errors.is_empty());
    assert_eq!(kinds(&tokens), vec![TokenType::Identifier, TokenType::Identifier, TokenType::EOF]);
    assert_eq!(tokens[0].span, span(1, 0, 1, 0));
    assert_eq!(tokens[1].lexeme, "b");
    assert_eq!(tokens[1].span, span(2, 0, 2, 0));
    assert_eq!(tokens[2].span, span(2, 1, 2, 1));
}

#[test]
fn a_comment_on_the_last_line_ends_with_the_text() {
    let (tokens, errors) = lex("# c");
    assert!(errors.is_empty());
    assert_eq!(kinds(&tokens), vec![TokenType::EOF]);
    assert_eq!(tokens[0].span, span(1, 3, 1, 3));
}

#[test]
fn a_comment_of_odd_and_even_length_keeps_the_next_line() {
    for source in ["#\nb", "#a\nb", "#ab\nb", "#abc\nb"] {
        let (tokens, errors) = lex(source);
        assert!(errors.is_empty());
        assert_eq!(kinds(&tokens), vec![TokenType::Identifier, TokenType::EOF]);
        assert_eq!(tokens[0].lexeme, "b");
        assert_eq!(tokens[0].span, span(2, 0, 2, 0));
    }
}

#[test]
fn white_space_is_skipped_and_lines_are_counted() {
    let (tokens, errors) = lex("a \t\n  b\r\n\u{a0}c");
    assert!(errors.is_empty());
    assert_eq!(
        kinds(&tokens),
        vec![TokenType::Identifier, TokenType::Identifier, TokenType::Identifier, TokenType::EOF]
    );
    assert_eq!(tokens[0].span, span(1, 0, 1, 0));
    assert_eq!(tokens[1].span, span(2, 2, 2, 2));
    assert_eq!(tokens[2].span, span(3, 1, 3, 1));
    assert_eq!(tokens[3].span, span(3, 2, 3, 2));
}

#[test]
fn a_line_feed_at_the_very_beginning_opens_no_line() {
    let (tokens, errors) = lex("\na");
    assert!(errors.is_empty());
    assert_eq!(tokens[0].span, span(1, 0, 1, 0));
    assert_eq!(tokens[1].span, span(1, 1, 1, 1));
}

#[test]
fn every_escape_sequence_is_decoded() {
    let token = single("\"\\n\\t\\r\\0\\\\\\\"\\'\"");
    assert_eq!(token.token_type, TokenType::StringLiteral);
    assert_eq!(token.literal, "\n\t\r\0\\\"'");
    assert_eq!(token.lexeme, "\"\\n\\t\\r\\0\\\\\\\"\\'\"");
}

#[test]
fn an_empty_string_literal() {
    let token = single("\"\"");
    assert_eq!(token.token_type, TokenType::StringLiteral);
    assert_eq!(token.literal, "");
    assert_eq!(token.lexeme, "\"\"");
    assert_eq!(token.span, span(1, 0, 1, 1));
}

#[test]
fn a_string_literal_may_run_over_lines() {
    let token = single("\"a\nb\"");
    assert_eq!(token.literal, "a\nb");
    assert_eq!(token.lexeme, "\"a\nb\"");
    assert_eq!(token.span, span(1, 0, 2, 1));
}

#[test]
fn an_invalid_escape_is_a_fault_and_scanning_resumes_at_the_escaped_character() {
    let (tokens, errors) = lex("\"a\\qb\"");
    assert_eq!(errors.len(), 2);
    assert_eq!(errors[0].error_type, ErrorType::Hard);
    assert_eq!(errors[0].error_code, "E0004");
    assert_eq!(errors[0].message, "Invalid escape character");
    assert_eq!(errors[0].hint, None);
    assert_eq!(errors[0].span, span(1, 2, 1, 3));
    assert_eq!(errors[1].error_code, "E0002");
    assert_eq!(errors[1].span, span(1, 5, 1, 6));
    assert_eq!(kinds(&tokens), vec![TokenType::Identifier, TokenType::EOF]);
    assert_eq!(tokens[0].lexeme, "qb");
    assert_eq!(tokens[0].span, span(1, 3, 1, 4));
    assert_eq!(tokens[1].span, span(1, 6, 1, 6));
}

#[test]
fn a_backslash_before_a_line_feed_is_an_invalid_escape_over_two_lines() {
    let (_, errors) = lex("\"a\\\nb\"");
    assert_eq!(errors[0].error_code, "E0004");
    assert_eq!(errors[0].span, span(1, 2, 2, 0));
}

#[test]
fn a_backslash_at_the_end_of_the_text_is_a_fault() {
    let (tokens, errors) = lex("\"a\\");
    assert_eq!(errors.len(), 1);
    assert_eq!(errors[0].error_type, ErrorType::Hard);
    assert_eq!(errors[0].error_code, "E0005");
    assert_eq!(errors[0].message, "Unexpected eof");
    assert_eq!(errors[0].hint, None);
    assert_eq!(errors[0].span, span(1, 3, 1, 3));
    assert_eq!(kinds(&tokens), vec![TokenType::EOF]);
    assert_eq!(tokens[0].span, span(1, 3, 1, 3));
}

#[test]
fn an_unterminated_string_swallows_the_rest_of_the_text() {
    let (tokens, errors) = lex("a \"bc d\ne");
    assert_eq!(errors.len(), 1);
    assert_eq!(errors[0].error_code, "E0002");
    assert_eq!(errors[0].span, span(1, 2, 2, 1));
    assert_eq!(kinds(&tokens), vec![TokenType::Identifier, TokenType::EOF]);
}

#[test]
fn an_unknown_character_is_a_fault_and_scanning_goes_on() {
    let (tokens, errors) = lex("a @ b $");
    assert_eq!(errors.len(), 2);
    assert_eq!(errors[0].error_type, ErrorType::Hard);
    assert_eq!(errors[0].error_code, "E0001");
    assert_eq!(errors[0].message, "Unknown character");
    assert_eq!(errors[0].hint, None);
    assert_eq!(errors[0].span, span(1, 2, 1, 2));
    assert_eq!(errors[0].file_path, "main.rig");
    assert_eq!(errors[1].span, span(1, 6, 1, 6));
    assert_eq!(kinds(&tokens), vec![TokenType::Identifier, TokenType::Identifier, TokenType::EOF]);
}

#[test]
fn faults_come_back_in_the_order_of_the_text() {
    let (_, errors) = lex("@ 1.2.3 \"x\\q \"y\\");
    let codes: Vec<&str> = errors.iter().map(|e| e.error_code.as_str()).collect();
    assert_eq!(codes, vec!["E0001", "E0003", "E0004", "E0005"]);
}

#[test]
fn every_span_names_the_file() {
    let (tokens, errors) = lex("a @");
    assert!(tokens.iter().all(|t| t.span.file_name == "main.rig"));
    assert!(errors.iter().all(|e| e.span.file_name == "main.rig" && e.file_path == "main.rig"));
}

#[test]
fn the_cursor_moves_one_character_at_a_time() {
    let mut lexer = Lexer::new("a\nb", "main.rig");
    assert_eq!(lexer.peek(), Some('a'));
    assert_eq!(lexer.peek_next(), Some('\n'));
    assert!(!lexer.eof());
    lexer.advance();
    assert_eq!(lexer.peek(), Some('\n'));
    assert_eq!(lexer.peek_next(), Some('b'));
    lexer.advance();
    assert_eq!(lexer.peek(), Some('b'));
    assert_eq!(lexer.peek_next(), None);
    assert!(!lexer.eof());
    lexer.advance();
    assert_eq!(lexer.peek(), None);
    assert_eq!(lexer.peek_next(), None);
    assert!(lexer.eof());
}

#[test]
fn scanning_begins_where_the_cursor_stands() {
    let mut lexer = Lexer::new("a\nbc", "main.rig");
    lexer.advance();
    lexer.advance();
    let (tokens, errors) = lexer.lex();
    assert!(errors.is_empty());
    assert_eq!(kinds(&tokens), vec![TokenType::Identifier, TokenType::EOF]);
    assert_eq!(tokens[0].lexeme, "bc");
    assert_eq!(tokens[0].span, span(2, 0, 2, 1));
    assert!(lexer.eof());
    let (tokens, errors) = lexer.lex();
    assert!(errors.is_empty());
    assert_eq!(kinds(&tokens), vec![TokenType::EOF]);
    assert_eq!(tokens[0].span, span(2, 2, 2, 2));
}

#[test]
fn scanning_behind_the_end_of_the_text_yields_end_of_file_there() {
    let mut lexer = Lexer::new("a", "main.rig");
    lexer.advance();
    lexer.advance();
    assert!(lexer.eof());
    let (tokens, errors) = lexer.lex();
    assert!(errors.is_empty());
    assert_eq!(kinds(&tokens), vec![TokenType::EOF]);
    assert_eq!(tokens[0].span, span(1, 2, 1, 2));
}

#[test]
fn one_step_at_a_time() {
    let mut lexer = Lexer::new("ab @ ", "main.rig");
    match lexer.scan_one() {
        Scanned::Token(token) => {
            assert_eq!(token.token_type, TokenType::Identifier);
            assert_eq!(token.lexeme, "ab");
        }
        other => panic!("{:?}", other),
    }
    assert_eq!(lexer.peek(), Some(' '));
    assert_eq!(lexer.scan_one(), Scanned::Skipped);
    match lexer.scan_one() {
        Scanned::Fault(error) => assert_eq!(error.error_code, "E0001"),
        other => panic!("{:?}", other),
    }
    assert_eq!(lexer.scan_one(), Scanned::Skipped);
    assert!(lexer.eof());
}

#[test]
fn the_rules_are_tried_in_order() {
    assert_eq!(choose_rule('(', true, true, true), Rule::Punctuation);
    assert_eq!(choose_rule('+', true, true, true), Rule::Operator);
    assert_eq!(choose_rule('#', false, true, true), Rule::Comment);
    assert_eq!(choose_rule('"', false, true, true), Rule::StringLiteral);
    assert_eq!(choose_rule('a', false, true, true), Rule::Word);
    assert_eq!(choose_rule('7', false, true, true), Rule::Word);
    assert_eq!(choose_rule('7', false, false, true), Rule::Number);
    assert_eq!(choose_rule(' ', false, false, true), Rule::Blank);
    assert_eq!(choose_rule('@', false, false, false), Rule::Unknown);
}

#[test]
fn letters_begin_words_and_digits_continue_them() {
    assert!(begins_word('a'));
    assert!(begins_word('Z'));
    assert!(begins_word('_'));
    assert!(begins_word('\u{e9}'));
    assert!(!begins_word('1'));
    assert!(!begins_word(' '));
    assert!(!begins_word('+'));
    assert!(continues_word('a'));
    assert!(continues_word('1'));
    assert!(continues_word('_'));
    assert!(!continues_word('-'));
    assert!(!continues_word(' '));
}

#[test]
fn text_beyond_ascii_is_scanned_character_by_character() {
    let (tokens, errors) = lex("s = \"h\u{e9}llo \u{4e16}\u{754c}\" + \u{3b1}\u{3b2} # \u{1f600}\nz");
    assert!(errors.is_empty());
    assert_eq!(
        kinds(&tokens),
        vec![
            TokenType::Identifier,
            TokenType::Equal,
            TokenType::StringLiteral,
            TokenType::Plus,
            TokenType::Identifier,
            TokenType::Identifier,
            TokenType::EOF
        ]
    );
    assert_eq!(tokens[2].literal, "h\u{e9}llo \u{4e16}\u{754c}");
    assert_eq!(tokens[2].lexeme, "\"h\u{e9}llo \u{4e16}\u{754c}\"");
    assert_eq!(tokens[2].span, span(1, 4, 1, 13));
    assert_eq!(tokens[4].lexeme, "\u{3b1}\u{3b2}");
    assert_eq!(tokens[4].span, span(1, 17, 1, 18));
    assert_eq!(tokens[5].span, span(2, 0, 2, 0));
}
