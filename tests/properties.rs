use expression_parser::enums::{CharType, ExpressionType, OperatorType};
use expression_parser::errors::{AttachImpossible, ParseError};
use expression_parser::expression::{Addition, Expression, ScalarValue, Subtraction};
use expression_parser::parser::parse_string;

fn parse(text: &str) -> Result<Expression, ParseError> {
    parse_string(text.to_string())
}

fn scalar(text: &str) -> Expression {
    Expression::ScalarValue(ScalarValue::new(text).unwrap())
}

fn literal_of(e: &Expression) -> String {
    match e {
        Expression::ScalarValue(v) => v.literal().to_string(),
        _ => panic!("not a scalar"),
    }
}

fn message(result: Result<Expression, ParseError>) -> String {
    result.err().unwrap().to_string()
}

#[test]
fn literals_parse_to_themselves() {
    for text in ["0", "7", "21", "-21", "21.25", "-21.25", "1.", "-.5", "007", "1.50"] {
        let e = parse(text).unwrap();
        assert_eq!(e.get_exp_type(), ExpressionType::ScalarValue);
        assert_eq!(literal_of(&e), text);
        assert_eq!(e.to_string(), text);
    }
}

#[test]
fn blank_input_is_empty_buffer() {
    assert!(matches!(parse(""), Err(ParseError::EmptyBuffer(_))));
    assert!(matches!(parse("   "), Err(ParseError::EmptyBuffer(_))));
    assert_eq!(message(parse("   ")), "Empty buffer!");
}

#[test]
fn point_at_start_reports_index_zero() {
    match parse(".64") {
        Err(ParseError::InvalidCharacter(e)) => {
            assert_eq!(e.index, 0);
            assert_eq!(e.character, '.');
            assert_eq!(e.message, "Point at the start of a block");
        },
        _ => panic!("expected an invalid character"),
    }
}

#[test]
fn operator_at_start_reports_index_zero() {
    match parse("*765") {
        Err(ParseError::InvalidCharacter(e)) => {
            assert_eq!(e.index, 0);
            assert_eq!(e.character, '*');
            assert_eq!(e.message, "Operator at the start of a block");
        },
        _ => panic!("expected an invalid character"),
    }
}

#[test]
fn chains_group_from_the_left() {
    let e = parse("4 - 3 + 5").unwrap();
    assert_eq!(e.to_string(), "4 - 3 + 5");
    match &e {
        Expression::Addition(Addition { left, right: Some(right) }) => {
            assert_eq!(literal_of(right), "5");
            match left.as_ref() {
                Expression::Subtraction(Subtraction { left, right: Some(right) }) => {
                    assert_eq!(literal_of(left), "4");
                    assert_eq!(literal_of(right), "3");
                },
                _ => panic!("expected a subtraction on the left"),
            }
        },
        _ => panic!("expected an addition at the top"),
    }
}

#[test]
fn render_round_trips() {
    for text in ["1+2", "  4 -3+  5 ", "-1.5 * 2 / 4", "10 / 2.5 - 0.25", "-.5 + 1.", "3 * -.5 - -1"] {
        let first = parse(text).unwrap();
        assert!(first.is_complete());
        let rendered = first.to_string();
        let second = parse(&rendered).unwrap();
        assert_eq!(second.to_string(), rendered);
    }
    assert_eq!(parse("  4 -3+  5 ").unwrap().to_string(), "4 - 3 + 5");
}

#[test]
fn scalar_onto_scalar_is_impossible() {
    let r = scalar("1").attach_after(scalar("2"));
    match r {
        Err(AttachImpossible { target_type, attach_type }) => {
            assert_eq!(target_type, ExpressionType::ScalarValue);
            assert_eq!(attach_type, ExpressionType::ScalarValue);
        },
        Ok(_) => panic!("attach should fail"),
    }
}

#[test]
fn attach_onto_complete_node_is_impossible() {
    let full = parse("1 + 2").unwrap();
    let r = full.attach_after(scalar("3"));
    match r {
        Err(e) => {
            assert_eq!(e.target_type, ExpressionType::Addition);
            assert_eq!(e.attach_type, ExpressionType::ScalarValue);
            assert_eq!(e.to_string(), "Attach from Addition to ScalarValue impossible");
        },
        Ok(_) => panic!("attach should fail"),
    }
}

#[test]
fn attach_onto_open_node_fills_it() {
    let open = Expression::Division(expression_parser::expression::Division {
        left: Box::new(scalar("8")),
        right: None,
    });
    assert!(!open.is_complete());
    let done = open.attach_after(scalar("2")).unwrap();
    assert!(done.is_complete());
    assert_eq!(done.get_exp_type(), ExpressionType::Division);
    assert_eq!(done.to_string(), "8 / 2");
}

#[test]
fn attach_binary_onto_scalar_opens_node() {
    let node = Expression::Multiplication(expression_parser::expression::Multiplication {
        left: Box::new(scalar("5")),
        right: Some(Box::new(scalar("6"))),
    });
    let r = scalar("3").attach_after(node).unwrap();
    assert_eq!(r.get_exp_type(), ExpressionType::Multiplication);
    assert!(!r.is_complete());
    match r {
        Expression::Multiplication(m) => {
            assert_eq!(literal_of(&m.left), "3");
            assert!(m.right.is_none());
        },
        _ => panic!("expected a multiplication"),
    }
}

#[test]
fn parse_two_scalars_in_a_row_is_attach_impossible() {
    assert!(matches!(parse("1 2"), Err(ParseError::AttachImpossible(_))));
    assert_eq!(message(parse("1 + 2 3")), "Attach from Addition to ScalarValue impossible");
}

#[test]
fn letter_inside_number() {
    assert_eq!(message(parse("12a")), "Error at char 'a' at index 2 (Letter inside number)");
}

#[test]
fn unknown_symbol_counts_characters_not_bytes() {
    assert_eq!(message(parse("1 + 2 × 3")), "Error at char '×' at index 6 (Unknown symbol)");
    assert_eq!(message(parse("1234567890 + 5 €")), "Error at char '€' at index 15 (Unknown symbol)");
}

#[test]
fn brackets_and_power_are_rejected() {
    assert_eq!(message(parse("(1")), "Error at char '(' at index 0 (Brackets are not supported)");
    assert_eq!(
        message(parse("2 ^ 3")),
        "Error at char '^' at index 2 (Power operator is not supported)"
    );
}

#[test]
fn malformed_number_is_parsing_error() {
    assert!(matches!(parse("1.2.3"), Err(ParseError::ParsingError(_))));
    assert_eq!(message(parse("1.2.3 + 4")), "Parsing buffer error (Malformed number literal)");
    assert_eq!(message(parse("-")), "Parsing buffer error (Malformed number literal)");
    assert_eq!(message(parse("٣")), "Parsing buffer error (Malformed number literal)");
}

#[test]
fn names_are_parsing_errors() {
    assert_eq!(message(parse("abc")), "Parsing buffer error (Names are not supported)");
    assert_eq!(message(parse("x1 + 2")), "Parsing buffer error (Names are not supported)");
    assert_eq!(message(parse("é")), "Parsing buffer error (Names are not supported)");
}

#[test]
fn unicode_whitespace_is_skipped() {
    assert_eq!(parse("1\u{00A0}+\u{2003}2").unwrap().to_string(), "1 + 2");
}

#[test]
fn trailing_operator_is_missing_operand() {
    assert_eq!(message(parse("4 +")), "Parsing buffer error (Missing right operand)");
    assert_eq!(message(parse("1 + 2 *  ")), "Parsing buffer error (Missing right operand)");
}

#[test]
fn operator_in_place_of_operand() {
    assert_eq!(message(parse("1 + * 2")), "Error at char '*' at index 4 (Operator at the start of a block)");
    assert_eq!(message(parse("+5")), "Error at char '+' at index 0 (Operator at the start of a block)");
}

#[test]
fn minus_after_operator_starts_negative_operand() {
    let e = parse("1 + -2").unwrap();
    assert!(e.is_complete());
    assert_eq!(e.to_string(), "1 + -2");
    match &e {
        Expression::Addition(Addition { left, right: Some(right) }) => {
            assert_eq!(literal_of(left), "1");
            assert_eq!(literal_of(right), "-2");
        },
        _ => panic!("expected an addition"),
    }
    assert_eq!(parse("4 --3").unwrap().to_string(), "4 - -3");
}

#[test]
fn whitespace_only_inputs_are_empty_buffer() {
    for text in ["", " ", "\t\n", "\u{00A0}\u{3000}"] {
        assert!(matches!(parse(text), Err(ParseError::EmptyBuffer(_))));
    }
    for text in [" 1 ", " - ", " x", " ."] {
        assert!(!matches!(parse(text), Err(ParseError::EmptyBuffer(_))));
    }
}

#[test]
fn scalar_constructor_checks_the_literal() {
    assert!(ScalarValue::new("12.5").is_ok());
    assert!(ScalarValue::new("-3").is_ok());
    assert!(ScalarValue::new("").is_err());
    assert!(ScalarValue::new(".").is_err());
    assert!(ScalarValue::new("1e5").is_err());
    assert_eq!(
        ScalarValue::new("1..2").err().unwrap().to_string(),
        "Parsing buffer error (Malformed number literal)"
    );
}

#[test]
fn character_classes() {
    assert_eq!(CharType::parse_char_type('7'), CharType::Number);
    assert_eq!(CharType::parse_char_type('٣'), CharType::Number);
    assert_eq!(CharType::parse_char_type('-'), CharType::Operator);
    assert_eq!(CharType::parse_char_type('^'), CharType::Operator);
    assert_eq!(CharType::parse_char_type('q'), CharType::Letter);
    assert_eq!(CharType::parse_char_type('é'), CharType::Letter);
    assert_eq!(CharType::parse_char_type('.'), CharType::Point);
    assert_eq!(CharType::parse_char_type('\t'), CharType::Whitespace);
    assert_eq!(CharType::parse_char_type('\u{3000}'), CharType::Whitespace);
    assert_eq!(CharType::parse_char_type('}'), CharType::Bracket);
    assert_eq!(CharType::parse_char_type('$'), CharType::Unknown);
    assert_eq!(CharType::parse_char_type('€'), CharType::Unknown);
}

#[test]
fn operator_kinds() {
    assert_eq!(OperatorType::parse_operator_type('+'), OperatorType::Add);
    assert_eq!(OperatorType::parse_operator_type('-'), OperatorType::Subtract);
    assert_eq!(OperatorType::parse_operator_type('*'), OperatorType::Multiply);
    assert_eq!(OperatorType::parse_operator_type('/'), OperatorType::Divide);
    assert_eq!(OperatorType::parse_operator_type('^'), OperatorType::Power);
}
