use rig::ast::{BinaryOperator, Expr, LogicalOperator, UnaryOperator};
use rig::error::{ErrorType, Hint, RigError};
use rig::expr::{
    arguments, assignment, bitwise_and, bitwise_or, bitwise_shift, bitwise_xor, call, comparison,
    equality, expr, factor, has_binary, has_logical, level_operator, logical_and, logical_or,
    path, prefix_operator_of, primary, term, unary,
};
use rig::grammar::{Level, Operator};
use rig::lexer::Lexer;
use rig::parser::{parse, parse_tokens, synchronize, Parser};
use rig::span::Span;
use rig::token::{Token, TokenType};

fn tokens_of(source: &str) -> Vec<Token> {
    let mut lexer = Lexer::new(source, "main.rig");
    let (tokens, errors) = lexer.lex();
    assert!(errors.is_empty());
    tokens
}

fn parse_source(source: &str) -> (Vec<Expr>, Vec<RigError>) {
    let tokens = tokens_of(source);
    let mut parser = Parser::new(&tokens);
    assert!(parser.is_ready());
    parse(&mut parser)
}

fn parse_one(source: &str) -> Expr {
    let (mut nodes, errors) = parse_source(source);
    assert!(errors.is_empty());
    assert_eq!(nodes.len(), 1);
    nodes.remove(0)
}

fn at(start: usize, end: usize) -> Span {
    Span {
        file_name: String::from("main.rig"),
        starting_line: 1,
        starting_line_offset: start,
        ending_line: 1,
        ending_line_end_offset: end,
    }
}

fn var(name: &str, start: usize, end: usize) -> Expr {
    Expr::VariableExpr { name: String::from(name), span: at(start, end) }
}

fn whole(value: i64, start: usize, end: usize) -> Expr {
    Expr::IntegerLiteralExpr { value, span: at(start, end) }
}

#[test]
fn assignment_to_a_literal_is_a_fault_at_the_equals_sign() {
    let (nodes, errors) = parse_source("5 = 3");
    assert!(nodes.is_empty());
    assert_eq!(errors.len(), 1);
    assert_eq!(errors[0].error_type, ErrorType::Hard);
    assert_eq!(errors[0].error_code, "EOOO6");
    assert_eq!(errors[0].message, "Invalid assignment. Expected property or a variable as lvalue");
    assert_eq!(errors[0].hint, None);
    assert_eq!(errors[0].span, at(2, 2));
    assert_eq!(errors[0].file_path, "main.rig");
}

#[test]
fn assignment_to_a_variable_is_an_assignment_expr() {
    assert_eq!(
        parse_one("a = 3"),
        Expr::AssignmentExpr {
            name: String::from("a"),
            value: Box::new(whole(3, 4, 4)),
            span: at(2, 4),
        }
    );
}

#[test]
fn assignment_to_a_property_is_a_set_expr() {
    assert_eq!(
        parse_one("a.b = 3"),
        Expr::SetExpr {
            object: Box::new(var("a", 1, 1)),
            name: String::from("b"),
            value: Box::new(whole(3, 6, 6)),
            span: at(0, 6),
        }
    );
}

#[test]
fn one_identifier_is_a_variable() {
    assert_eq!(parse_one("a"), var("a", 1, 1));
}

#[test]
fn identifiers_joined_by_scope_are_a_path() {
    assert_eq!(
        parse_one("a::b::c"),
        Expr::PathExpr {
            path: vec![String::from("a"), String::from("b"), String::from("c")],
            span: at(0, 7),
        }
    );
}

#[test]
fn calls_and_properties_chain_to_the_left() {
    assert_eq!(
        parse_one("a.b().c"),
        Expr::GetExpr {
            object: Box::new(Expr::CallExpr {
                name: Box::new(Expr::GetExpr {
                    object: Box::new(var("a", 1, 1)),
                    name: String::from("b"),
                    span: at(0, 2),
                }),
                args: vec![],
                span: at(0, 4),
            }),
            name: String::from("c"),
            span: at(0, 6),
        }
    );
}

#[test]
fn right_operand_is_a_whole_expression() {
    assert_eq!(
        parse_one("a * b + c"),
        Expr::BinaryExpr {
            lhs: Box::new(var("a", 2, 2)),
            op: BinaryOperator::Multiply,
            rhs: Box::new(Expr::BinaryExpr {
                lhs: Box::new(var("b", 6, 6)),
                op: BinaryOperator::Plus,
                rhs: Box::new(var("c", 9, 9)),
                span: at(4, 8),
            }),
            span: at(0, 8),
        }
    );
}

#[test]
fn call_arguments_are_separated_by_commas() {
    assert_eq!(
        parse_one("f(1, x)"),
        Expr::CallExpr {
            name: Box::new(var("f", 1, 1)),
            args: vec![Box::new(whole(1, 2, 2)), Box::new(var("x", 6, 6))],
            span: at(0, 6),
        }
    );
}

#[test]
fn missing_closing_parenthesis_of_a_call_is_tolerated() {
    assert_eq!(
        parse_one("f(1"),
        Expr::CallExpr {
            name: Box::new(var("f", 1, 1)),
            args: vec![Box::new(whole(1, 2, 2))],
            span: at(0, 2),
        }
    );
}

#[test]
fn literals_and_grouping() {
    assert_eq!(
        parse_one("(true)"),
        Expr::GroupingExpr {
            expr: Box::new(Expr::BooleanLiteralExpr { value: true, span: at(1, 4) }),
            span: at(5, 5),
        }
    );
    assert_eq!(parse_one("false"), Expr::BooleanLiteralExpr { value: false, span: at(0, 4) });
    assert_eq!(parse_one("null"), Expr::NullLiteralExpr { span: at(0, 3) });
    assert_eq!(parse_one("self"), Expr::SelfExpr { span: at(0, 3) });
    assert_eq!(
        parse_one("\"a\\tb\""),
        Expr::StringLiteralExpr { value: String::from("a\tb"), span: at(0, 5) }
    );
    assert_eq!(
        parse_one("1.5"),
        Expr::FloatLiteralExpr { value: String::from("1.5"), span: at(0, 2) }
    );
}

#[test]
fn prefix_and_logical_operators() {
    assert_eq!(
        parse_one("!a || b"),
        Expr::UnaryExpr {
            op: UnaryOperator::Not,
            rhs: Box::new(Expr::LogicalExpr {
                lhs: Box::new(var("a", 3, 4)),
                op: LogicalOperator::Or,
                rhs: Box::new(var("b", 7, 7)),
                span: at(1, 6),
            }),
            span: at(0, 6),
        }
    );
    assert_eq!(
        parse_one("-a"),
        Expr::UnaryExpr { op: UnaryOperator::Negate, rhs: Box::new(var("a", 2, 2)), span: at(0, 1) }
    );
}

#[test]
fn keyword_that_is_no_literal_is_a_fault() {
    let (nodes, errors) = parse_source("while");
    assert!(nodes.is_empty());
    assert_eq!(errors.len(), 1);
    assert_eq!(errors[0].error_code, "E0005");
    assert_eq!(errors[0].message, "Expected `true`/`false`/`null`, found `while`");
    assert_eq!(errors[0].span, at(0, 4));
}

#[test]
fn token_that_begins_no_expression_is_a_fault() {
    let (nodes, errors) = parse_source(")");
    assert!(nodes.is_empty());
    assert_eq!(errors.len(), 1);
    assert_eq!(errors[0].error_code, "E0005");
    assert_eq!(errors[0].message, "Expected primary expression, found `)`");
    assert_eq!(errors[0].span, at(0, 0));
    assert_eq!(errors[0].file_path, "main.rig");
}

#[test]
fn missing_closing_parenthesis_of_a_group_is_a_fault() {
    let (nodes, errors) = parse_source("(a");
    assert!(nodes.is_empty());
    assert_eq!(errors.len(), 1);
    assert_eq!(errors[0].message, "Expected `)` after expression");
    assert_eq!(errors[0].span, at(2, 2));
}

#[test]
fn missing_property_name_is_a_fault() {
    let (nodes, errors) = parse_source("a.1");
    assert!(nodes.is_empty());
    assert_eq!(errors.len(), 1);
    assert_eq!(errors[0].message, "Expected identifier");
    assert_eq!(errors[0].span, at(2, 2));
}

#[test]
fn units_are_separated_by_semicolons_and_faults_do_not_stop_the_parser() {
    let (nodes, errors) = parse_source("a; ) b c; d");
    assert_eq!(errors.len(), 1);
    assert_eq!(errors[0].message, "Expected primary expression, found `)`");
    assert_eq!(nodes, vec![var("a", 1, 1), var("d", 11, 11)]);
}

#[test]
fn empty_token_stream_parses_to_nothing() {
    let (nodes, errors) = parse_source("");
    assert!(nodes.is_empty());
    assert!(errors.is_empty());
}

#[test]
fn number_too_large_for_64_bits_is_not_accepted_by_the_parser() {
    let tokens = tokens_of("99999999999999999999");
    let parser = Parser::new(&tokens);
    assert!(parser.is_well_formed());
    assert!(!parser.is_ready());
    let tokens = tokens_of("1 + 9223372036854775808");
    let parser = Parser::new(&tokens);
    assert!(!parser.is_ready());
    let tokens = tokens_of("99999999999999999999.5");
    let parser = Parser::new(&tokens);
    assert!(parser.is_ready());
    let tokens = tokens_of("9223372036854775807");
    let parser = Parser::new(&tokens);
    assert!(parser.is_ready());
    assert_eq!(parse_one("9223372036854775807"), whole(i64::MAX, 0, 18));
}

#[test]
fn tokens_without_end_of_file_are_not_accepted_by_the_parser() {
    let mut tokens = tokens_of("a");
    tokens.pop();
    let parser = Parser::new(&tokens);
    assert!(!parser.is_well_formed());
    assert!(!parser.is_ready());
    let none: Vec<Token> = Vec::new();
    let parser = Parser::new(&none);
    assert!(!parser.is_well_formed());
    assert!(!parser.is_ready());
}

fn binary(lhs: Expr, op: BinaryOperator, rhs: Expr, start: usize, end: usize) -> Expr {
    Expr::BinaryExpr { lhs: Box::new(lhs), op, rhs: Box::new(rhs), span: at(start, end) }
}

fn logical(lhs: Expr, op: LogicalOperator, rhs: Expr, start: usize, end: usize) -> Expr {
    Expr::LogicalExpr { lhs: Box::new(lhs), op, rhs: Box::new(rhs), span: at(start, end) }
}

#[test]
fn a_looser_operator_to_the_right_joins_the_right_operand() {
    assert_eq!(
        parse_one("a + b * c"),
        binary(
            var("a", 2, 2),
            BinaryOperator::Plus,
            binary(var("b", 6, 6), BinaryOperator::Multiply, var("c", 9, 9), 4, 8),
            0,
            8
        )
    );
    assert_eq!(
        parse_one("a < b == c"),
        logical(
            var("a", 2, 2),
            LogicalOperator::Less,
            logical(var("b", 6, 7), LogicalOperator::Equal, var("c", 10, 10), 4, 9),
            0,
            9
        )
    );
    assert_eq!(
        parse_one("a - b - c"),
        binary(
            var("a", 2, 2),
            BinaryOperator::Minus,
            binary(var("b", 6, 6), BinaryOperator::Minus, var("c", 9, 9), 4, 8),
            0,
            8
        )
    );
}

#[test]
fn every_operator_makes_its_node() {
    let arithmetic = [
        ("|", BinaryOperator::Or),
        ("^", BinaryOperator::Xor),
        ("&", BinaryOperator::And),
        ("<<", BinaryOperator::LeftShift),
        (">>", BinaryOperator::RightShift),
        ("+", BinaryOperator::Plus),
        ("-", BinaryOperator::Minus),
        ("*", BinaryOperator::Multiply),
        ("/", BinaryOperator::Divide),
        ("%", BinaryOperator::Modulus),
    ];
    for (text, op) in arithmetic {
        let source = format!("1 {} 2", text);
        let end = 2 + text.len() + 1;
        assert_eq!(parse_one(&source), binary(whole(1, 0, 0), op, whole(2, end, end), 0, end));
    }
    let truth = [
        ("||", LogicalOperator::Or),
        ("&&", LogicalOperator::And),
        ("==", LogicalOperator::Equal),
        ("!=", LogicalOperator::NotEqual),
        ("<", LogicalOperator::Less),
        ("<=", LogicalOperator::LessEq),
        (">", LogicalOperator::Greater),
        (">=", LogicalOperator::GreaterEq),
    ];
    for (text, op) in truth {
        let source = format!("1 {} 2", text);
        let end = 2 + text.len() + 1;
        assert_eq!(parse_one(&source), logical(whole(1, 0, 0), op, whole(2, end, end), 0, end));
    }
}

#[test]
fn assignment_takes_a_whole_expression_to_its_right() {
    assert_eq!(
        parse_one("a = b = 1"),
        Expr::AssignmentExpr {
            name: String::from("a"),
            value: Box::new(Expr::AssignmentExpr {
                name: String::from("b"),
                value: Box::new(whole(1, 8, 8)),
                span: at(6, 8),
            }),
            span: at(2, 8),
        }
    );
}

#[test]
fn assignment_to_a_call_is_a_fault() {
    let (nodes, errors) = parse_source("a() = 1");
    assert!(nodes.is_empty());
    assert_eq!(errors.len(), 1);
    assert_eq!(errors[0].error_code, "EOOO6");
    assert_eq!(errors[0].span, at(4, 4));
}

#[test]
fn a_fault_in_the_value_comes_before_the_check_of_the_target() {
    let (nodes, errors) = parse_source("5 = )");
    assert!(nodes.is_empty());
    assert_eq!(errors.len(), 1);
    assert_eq!(errors[0].error_code, "E0005");
    assert_eq!(errors[0].message, "Expected primary expression, found `)`");
}

#[test]
fn assignment_to_a_property_of_a_call() {
    assert_eq!(
        parse_one("a().c = 1"),
        Expr::SetExpr {
            object: Box::new(Expr::CallExpr {
                name: Box::new(var("a", 1, 1)),
                args: vec![],
                span: at(0, 2),
            }),
            name: String::from("c"),
            value: Box::new(whole(1, 8, 8)),
            span: at(0, 8),
        }
    );
}

#[test]
fn prefix_operators_nest() {
    assert_eq!(
        parse_one("!!a"),
        Expr::UnaryExpr {
            op: UnaryOperator::Not,
            rhs: Box::new(Expr::UnaryExpr {
                op: UnaryOperator::Not,
                rhs: Box::new(var("a", 3, 3)),
                span: at(1, 2),
            }),
            span: at(0, 2),
        }
    );
}

#[test]
fn calls_nest_in_arguments() {
    assert_eq!(
        parse_one("f(g(1), (2))"),
        Expr::CallExpr {
            name: Box::new(var("f", 1, 1)),
            args: vec![
                Box::new(Expr::CallExpr {
                    name: Box::new(var("g", 3, 3)),
                    args: vec![Box::new(whole(1, 4, 4))],
                    span: at(2, 5),
                }),
                Box::new(Expr::GroupingExpr { expr: Box::new(whole(2, 9, 9)), span: at(10, 10) }),
            ],
            span: at(0, 11),
        }
    );
}

#[test]
fn a_missing_operand_is_a_fault_at_the_end_of_file() {
    let (nodes, errors) = parse_source("a +");
    assert!(nodes.is_empty());
    assert_eq!(errors.len(), 1);
    assert_eq!(errors[0].message, "Expected primary expression, found ``");
    assert_eq!(errors[0].span, at(3, 3));
}

#[test]
fn a_path_that_ends_in_scope_is_a_fault() {
    let (nodes, errors) = parse_source("a::");
    assert!(nodes.is_empty());
    assert_eq!(errors.len(), 1);
    assert_eq!(errors[0].error_type, ErrorType::Hard);
    assert_eq!(errors[0].error_code, "E0005");
    assert_eq!(errors[0].message, "Expected identifier");
    assert_eq!(errors[0].hint, None);
    assert_eq!(errors[0].span, at(3, 3));
    let (nodes, errors) = parse_source("a::b::1");
    assert!(nodes.is_empty());
    assert_eq!(errors.len(), 1);
    assert_eq!(errors[0].message, "Expected identifier");
    assert_eq!(errors[0].span, at(6, 6));
}

#[test]
fn a_path_of_two_names() {
    assert_eq!(
        parse_one("a::b"),
        Expr::PathExpr { path: vec![String::from("a"), String::from("b")], span: at(0, 4) }
    );
}

#[test]
fn every_fault_is_kept_and_the_parser_goes_on_behind_the_next_semicolon() {
    let (nodes, errors) = parse_source(") x; ( ; a; 1 = 2; b");
    assert_eq!(errors.len(), 3);
    assert_eq!(errors[0].message, "Expected primary expression, found `)`");
    assert_eq!(errors[0].span, at(0, 0));
    assert_eq!(errors[1].message, "Expected primary expression, found `;`");
    assert_eq!(errors[1].span, at(7, 7));
    assert_eq!(errors[2].error_code, "EOOO6");
    assert_eq!(errors[2].span, at(14, 14));
    assert_eq!(nodes, vec![var("a", 10, 10), var("b", 20, 20)]);
}

#[test]
fn units_without_semicolons_follow_each_other() {
    let (nodes, errors) = parse_source("a b");
    assert!(errors.is_empty());
    assert_eq!(nodes, vec![var("a", 2, 2), var("b", 3, 3)]);
}

#[test]
fn a_semicolon_alone_is_a_fault() {
    let (nodes, errors) = parse_source(";");
    assert!(nodes.is_empty());
    assert_eq!(errors.len(), 1);
    assert_eq!(errors[0].message, "Expected primary expression, found `;`");
}

#[test]
fn the_parser_reads_its_tokens_one_by_one() {
    let tokens = tokens_of("a b");
    let mut parser = Parser::new(&tokens);
    assert!(parser.is_well_formed());
    assert_eq!(parser.path(), "main.rig");
    assert_eq!(parser.peek(), &tokens[0]);
    assert_eq!(parser.previous(), &tokens[0]);
    assert!(parser.check(TokenType::Identifier));
    assert!(!parser.check(TokenType::EOF));
    assert!(!parser.is_at_end());
    parser.advance();
    assert_eq!(parser.peek(), &tokens[1]);
    assert_eq!(parser.previous(), &tokens[0]);
    parser.advance();
    assert_eq!(parser.peek(), &tokens[2]);
    assert_eq!(parser.previous(), &tokens[1]);
    assert!(parser.is_at_end());
    assert!(parser.check(TokenType::EOF));
    parser.advance();
    assert_eq!(parser.peek(), &tokens[2]);
    assert_eq!(parser.previous(), &tokens[1]);
    assert!(parser.is_well_formed());
}

#[test]
fn consume_takes_the_expected_token_or_hands_back_a_diagnostic() {
    let tokens = tokens_of("a )");
    let mut parser = Parser::new(&tokens);
    assert!(parser.is_well_formed());
    assert_eq!(parser.consume(TokenType::Identifier, "Expected identifier", None), Ok(&tokens[0]));
    assert_eq!(parser.peek(), &tokens[1]);
    assert_eq!(
        parser.consume(TokenType::Identifier, "Expected identifier", Some("Write a name")),
        Err(RigError {
            error_type: ErrorType::Hard,
            error_code: String::from("E0005"),
            message: String::from("Expected identifier"),
            hint: Some(Hint { text: String::from("Write a name"), span: at(2, 2) }),
            span: at(2, 2),
            file_path: String::from("main.rig"),
        })
    );
    assert_eq!(parser.peek(), &tokens[1]);
    assert_eq!(
        parser.consume(TokenType::Comma, "Expected `,`", None),
        Err(RigError {
            error_type: ErrorType::Hard,
            error_code: String::from("E0005"),
            message: String::from("Expected `,`"),
            hint: None,
            span: at(2, 2),
            file_path: String::from("main.rig"),
        })
    );
    assert_eq!(parser.consume(TokenType::RightParen, "Expected `)`", None), Ok(&tokens[1]));
    assert_eq!(parser.consume(TokenType::EOF, "Expected the end", None), Ok(&tokens[2]));
    assert!(parser.is_at_end());
}

#[test]
fn a_parser_without_tokens_has_no_path() {
    let none: Vec<Token> = Vec::new();
    let parser = Parser::new(&none);
    assert_eq!(parser.path(), "");
}

#[test]
fn synchronize_moves_behind_the_next_semicolon() {
    let tokens = tokens_of("a b ; c d");
    let mut parser = Parser::new(&tokens);
    assert!(parser.is_well_formed());
    synchronize(&mut parser);
    assert_eq!(parser.peek(), &tokens[3]);
    synchronize(&mut parser);
    assert!(parser.is_at_end());
    synchronize(&mut parser);
    assert!(parser.is_at_end());
    let tokens = tokens_of("; a");
    let mut parser = Parser::new(&tokens);
    assert!(parser.is_well_formed());
    synchronize(&mut parser);
    assert_eq!(parser.peek(), &tokens[1]);
}

fn read<T>(source: &str, rule: fn(&mut Parser) -> T) -> (T, usize) {
    let tokens = tokens_of(source);
    let mut parser = Parser::new(&tokens);
    assert!(parser.is_ready());
    let result = rule(&mut parser);
    let stands_on = tokens.iter().position(|t| t == parser.peek()).unwrap();
    (result, stands_on)
}

#[test]
fn each_level_reads_its_own_operators_and_leaves_the_looser_ones() {
    let one = whole(1, 0, 0);
    let rules: [(fn(&mut Parser) -> Result<Expr, RigError>, &str, &str); 10] = [
        (logical_or, "||", "="),
        (logical_and, "&&", "||"),
        (equality, "==", "&&"),
        (comparison, "<", "=="),
        (bitwise_or, "|", "<"),
        (bitwise_xor, "^", "|"),
        (bitwise_and, "&", "^"),
        (bitwise_shift, "<<", "&"),
        (term, "+", "<<"),
        (factor, "*", "+"),
    ];
    for (rule, own, looser) in rules {
        let (result, stands_on) = read(&format!("1 {} 2", own), rule);
        assert!(matches!(
            result,
            Ok(Expr::BinaryExpr { .. }) | Ok(Expr::LogicalExpr { .. })
        ));
        assert_eq!(stands_on, 3);
        let (result, stands_on) = read(&format!("1 {} 2", looser), rule);
        assert_eq!(result, Ok(one.clone()));
        assert_eq!(stands_on, 1);
    }
}

#[test]
fn the_tighter_levels_read_one_operand() {
    let (result, stands_on) = read("-1 2", unary);
    assert_eq!(
        result,
        Ok(Expr::UnaryExpr {
            op: UnaryOperator::Negate,
            rhs: Box::new(whole(1, 1, 1)),
            span: at(0, 1),
        })
    );
    assert_eq!(stands_on, 2);
    let (result, stands_on) = read("a.b + 1", call);
    assert_eq!(
        result,
        Ok(Expr::GetExpr {
            object: Box::new(var("a", 1, 1)),
            name: String::from("b"),
            span: at(0, 2),
        })
    );
    assert_eq!(stands_on, 3);
    let (result, stands_on) = read("a.b", primary);
    assert_eq!(result, Ok(var("a", 1, 1)));
    assert_eq!(stands_on, 1);
    let (result, stands_on) = read("a::b.c", path);
    assert_eq!(
        result,
        Ok(Expr::PathExpr { path: vec![String::from("a"), String::from("b")], span: at(0, 4) })
    );
    assert_eq!(stands_on, 3);
    let (result, stands_on) = read("a = 1 2", assignment);
    assert!(matches!(result, Ok(Expr::AssignmentExpr { .. })));
    assert_eq!(stands_on, 3);
    let (result, stands_on) = read("a = 1 2", expr);
    assert!(matches!(result, Ok(Expr::AssignmentExpr { .. })));
    assert_eq!(stands_on, 3);
}

#[test]
fn arguments_end_before_the_closing_parenthesis() {
    let (result, stands_on) = read(")", arguments);
    assert_eq!(result, Ok(vec![]));
    assert_eq!(stands_on, 0);
    let (result, stands_on) = read("1, 2, 3)", arguments);
    assert_eq!(
        result,
        Ok(vec![Box::new(whole(1, 0, 0)), Box::new(whole(2, 3, 3)), Box::new(whole(3, 6, 6))])
    );
    assert_eq!(stands_on, 5);
    let (result, stands_on) = read("1, )", arguments);
    assert_eq!(result.unwrap_err().message, "Expected primary expression, found `)`");
    assert_eq!(stands_on, 2);
}

#[test]
fn a_failed_rule_leaves_the_parser_where_the_fault_is() {
    let (result, stands_on) = read("a + )", expr);
    assert_eq!(result.unwrap_err().span, at(4, 4));
    assert_eq!(stands_on, 2);
    let (result, stands_on) = read("(a b", primary);
    assert_eq!(result.unwrap_err().message, "Expected `)` after expression");
    assert_eq!(stands_on, 2);
}

#[test]
fn operators_belong_to_their_levels() {
    assert!(has_logical(Level::LogicalOr, LogicalOperator::Or));
    assert!(!has_logical(Level::LogicalOr, LogicalOperator::And));
    assert!(has_logical(Level::Comparison, LogicalOperator::GreaterEq));
    assert!(!has_logical(Level::Term, LogicalOperator::Or));
    assert!(has_binary(Level::Factor, BinaryOperator::Modulus));
    assert!(!has_binary(Level::Factor, BinaryOperator::Plus));
    assert!(has_binary(Level::BitwiseShift, BinaryOperator::RightShift));
    assert!(!has_binary(Level::LogicalOr, BinaryOperator::Or));
    let tokens = tokens_of("+ || !");
    assert_eq!(
        level_operator(Level::Term, &tokens[0]),
        Some(Operator::Binary(BinaryOperator::Plus))
    );
    assert_eq!(level_operator(Level::Factor, &tokens[0]), None);
    assert_eq!(
        level_operator(Level::LogicalOr, &tokens[1]),
        Some(Operator::Logical(LogicalOperator::Or))
    );
    assert_eq!(level_operator(Level::BitwiseOr, &tokens[1]), None);
    assert_eq!(prefix_operator_of(&tokens[2]), Some(UnaryOperator::Not));
    assert_eq!(prefix_operator_of(&tokens[0]), None);
    assert_eq!(prefix_operator_of(&tokens[3]), None);
}

#[test]
fn an_operator_is_known_by_the_text_of_its_token() {
    let mut tokens = tokens_of("a b c");
    tokens[1].lexeme = String::from("+");
    let mut parser = Parser::new(&tokens);
    assert!(parser.is_ready());
    let (nodes, errors) = parse(&mut parser);
    assert!(errors.is_empty());
    assert_eq!(
        nodes,
        vec![binary(var("a", 2, 2), BinaryOperator::Plus, var("c", 5, 5), 0, 4)]
    );
}

#[test]
fn the_end_of_file_token_is_never_an_operator() {
    let mut tokens = tokens_of("a");
    tokens[1].lexeme = String::from("+");
    assert_eq!(level_operator(Level::Term, &tokens[1]), None);
    let mut parser = Parser::new(&tokens);
    assert!(parser.is_ready());
    let (nodes, errors) = parse(&mut parser);
    assert!(errors.is_empty());
    assert_eq!(nodes, vec![var("a", 1, 1)]);
    tokens[1].lexeme = String::from("-");
    assert_eq!(prefix_operator_of(&tokens[1]), None);
}

#[test]
fn a_number_with_a_decimal_point_keeps_its_digits() {
    assert_eq!(
        parse_one("10.50"),
        Expr::FloatLiteralExpr { value: String::from("10.50"), span: at(0, 4) }
    );
    assert_eq!(
        parse_one("1."),
        Expr::FloatLiteralExpr { value: String::from("1."), span: at(0, 1) }
    );
}

#[test]
fn whole_numbers_are_read_in_decimal() {
    assert_eq!(parse_one("0042"), whole(42, 0, 3));
    assert_eq!(parse_one("0"), whole(0, 0, 0));
}

#[test]
fn tokens_are_read_whole_or_not_at_all() {
    let tokens = tokens_of("a; 1 +");
    let (nodes, errors) = parse_tokens(&tokens).unwrap();
    assert_eq!(nodes, vec![var("a", 1, 1)]);
    assert_eq!(errors.len(), 1);
    assert_eq!(errors[0].message, "Expected primary expression, found ``");
    assert_eq!(parse_tokens(&tokens_of("")), Some((vec![], vec![])));
    assert_eq!(parse_tokens(&tokens_of("1 + 99999999999999999999")), None);
    assert_eq!(parse_tokens(&Vec::new()), None);
    let mut tokens = tokens_of("a");
    tokens.pop();
    assert_eq!(parse_tokens(&tokens), None);
}

#[test]
fn the_crate_root_names_the_scanner_and_the_parser() {
    let mut lexer = rig::Lexer::new("a", "main.rig");
    let (tokens, errors) = lexer.lex();
    assert!(errors.is_empty());
    let mut parser = rig::Parser::new(&tokens);
    assert!(parser.is_ready());
    let (nodes, errors) = rig::parse(&mut parser);
    assert!(errors.is_empty());
    assert_eq!(nodes, vec![var("a", 1, 1)]);
    assert_eq!(rig::parse_tokens(&tokens), Some((nodes, errors)));
}

#[test]
fn a_long_text_is_read_in_good_time() {
    let mut source = String::new();
    for i in 0..4000 {
        source.push_str(&format!("name{} = f(a.b, {} * 2) + \"text\"; # note\n", i, i));
    }
    let tokens = tokens_of(&source);
    assert_eq!(tokens.len(), 4000 * 15 + 1);
    assert_eq!(tokens.last().unwrap().span.starting_line, 4001);
    let (nodes, errors) = parse_tokens(&tokens).unwrap();
    assert!(errors.is_empty());
    assert_eq!(nodes.len(), 4000);
    assert!(nodes.iter().all(|n| matches!(n, Expr::AssignmentExpr { .. })));
}
