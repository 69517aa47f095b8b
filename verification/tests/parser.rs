use jup::elements::Element;
use jup::parser::{ParseError, Parser};
use jup::tokenizer::Tokenizer;
use jup::tokens::Token;
use jup::types::Type;

fn parse_source(source: &str) -> Result<Vec<Element>, ParseError> {
    let mut tokenizer = Tokenizer::from_source_code(source);
    tokenizer.run();
    let mut parser = Parser::new(tokenizer.tokenized().clone());
    parser.run()?;
    Ok(parser.parsed().clone())
}

#[test]
pub fn run_parser() {
    // the content of a small source file, as a loader would hand it over
    let file_content = "fun main {\n\tlet a: int = 5\n\tret a\n}\n";
    let mut tokenizer = Tokenizer::from_source_code(file_content);
    tokenizer.run();

    println!("{:?} :\n", tokenizer.tokenized());

    let mut parser = Parser::new(tokenizer.tokenized().clone());
    parser.run().unwrap();

    println!("{:#?}", parser.parsed());
}

#[test]
fn parses_simple_program() {
    // the concrete scenario: one function, then its body as one
    // expression holding one variable and one return
    let elements = parse_source("fun main {\n  let a: int = 5\n  ret a\n}\n").unwrap();
    assert_eq!(elements.len(), 2);
    match &elements[0] {
        Element::Function(f) => {
            assert_eq!(f.id(), "main");
            assert_eq!(*f.return_type(), Type::Absent);
            match f.params() {
                Element::Parameters(span) => assert!(span.is_empty()),
                other => panic!("unexpected parameters element: {:?}", other),
            }
        },
        other => panic!("expected a function, got {:?}", other),
    }
    match &elements[1] {
        Element::Expression(body) => {
            assert_eq!(body.len(), 2);
            match &body[0] {
                Element::Variable(v) => {
                    assert_eq!(v.id(), "a");
                    assert_eq!(*v.type_(), Type::Scalar(String::from("int")));
                    assert_eq!(*v.value(), Token::Other(String::from("5")));
                    assert_eq!(v.stack_pos(), 0);
                },
                other => panic!("expected a variable, got {:?}", other),
            }
            match &body[1] {
                Element::Return(value) => {
                    assert_eq!(*value, Token::Other(String::from("a")));
                },
                other => panic!("expected a return, got {:?}", other),
            }
        },
        other => panic!("expected an expression, got {:?}", other),
    }
}

#[test]
fn parses_assembly_element() {
    let elements = parse_source("@mov rax, 1\n").unwrap();
    match &elements[0] {
        Element::Assembly(code) => {
            assert_eq!(*code, Token::Other(String::from("mov rax")));
        },
        other => panic!("expected assembly, got {:?}", other),
    }
}

#[test]
fn parses_array_without_commas() {
    let elements = parse_source("[1, 2, 3]\n").unwrap();
    assert_eq!(elements.len(), 1);
    match &elements[0] {
        Element::Array(values) => {
            let expected = vec![
                Token::Other(String::from("1")),
                Token::Other(String::from("2")),
                Token::Other(String::from("3")),
            ];
            assert_eq!(*values, expected);
        },
        other => panic!("expected an array, got {:?}", other),
    }
}

#[test]
fn one_element_per_bracket_pair() {
    // two top-level pairs, one of them nested inside the first
    let elements = parse_source("{\n{\n}\n}\n(x y)\n").unwrap();
    assert_eq!(elements.len(), 2);
    match &elements[0] {
        Element::Expression(body) => {
            assert_eq!(body.len(), 1);
            assert!(matches!(&body[0], Element::Expression(inner) if inner.is_empty()));
        },
        other => panic!("expected an expression, got {:?}", other),
    }
    assert!(matches!(&elements[1], Element::Parameters(span) if span.len() == 2));
}

#[test]
fn parses_operation_with_popped_operand() {
    // the bare operand element before the operator is folded into it
    let elements = parse_source("5 + 5\n").unwrap();
    assert_eq!(elements.len(), 1);
    match &elements[0] {
        Element::Operation(op) => {
            assert_eq!(*op.operator(), Token::Plus);
            assert_eq!(*op.arg1(), Token::Other(String::from("5")));
            assert_eq!(*op.arg2(), Token::Other(String::from("5")));
        },
        other => panic!("expected an operation, got {:?}", other),
    }
}

#[test]
fn parses_array_type_annotation() {
    let elements = parse_source("let xs: int[5] = ys\n").unwrap();
    match &elements[0] {
        Element::Variable(v) => {
            assert_eq!(*v.type_(), Type::Array(String::from("int"), 5));
            assert_eq!(*v.value(), Token::Other(String::from("ys")));
        },
        other => panic!("expected a variable, got {:?}", other),
    }
}

#[test]
fn parses_largest_array_size() {
    let source = format!("let xs: int[{}] = ys\n", usize::MAX);
    let elements = parse_source(&source).unwrap();
    match &elements[0] {
        Element::Variable(v) => {
            assert_eq!(*v.type_(), Type::Array(String::from("int"), usize::MAX));
        },
        other => panic!("expected a variable, got {:?}", other),
    }
}

#[test]
fn rejects_oversized_array_size() {
    let source = format!("let xs: int[{}0] = ys\n", usize::MAX);
    assert_eq!(parse_source(&source).unwrap_err(), ParseError::InvalidArraySize);
}

#[test]
fn rejects_bad_array_size() {
    assert_eq!(
        parse_source("let xs: int[many] = ys\n").unwrap_err(),
        ParseError::InvalidArraySize
    );
}

#[test]
fn rejects_unbalanced_brackets() {
    assert_eq!(
        parse_source("{\nret a\n").unwrap_err(),
        ParseError::UnbalancedBrackets
    );
    assert_eq!(
        parse_source("[1, 2\n").unwrap_err(),
        ParseError::UnbalancedBrackets
    );
}

#[test]
fn rejects_leading_operator() {
    let mut parser = Parser::new(vec![Token::Plus, Token::Other(String::from("5"))]);
    assert_eq!(parser.run(), Err(ParseError::MissingOperand));
}

#[test]
fn rejects_truncated_declaration() {
    let mut parser = Parser::new(vec![Token::Function]);
    assert_eq!(parser.run(), Err(ParseError::UnexpectedEnd));
}

#[test]
fn parses_function_with_parameters() {
    let elements = parse_source("fun add(a b) {\n}\n").unwrap();
    match &elements[0] {
        Element::Function(f) => {
            assert_eq!(f.id(), "add");
            match f.params() {
                Element::Parameters(span) => {
                    let expected = vec![
                        Token::Other(String::from("a")),
                        Token::Other(String::from("b")),
                    ];
                    assert_eq!(span, expected);
                },
                other => panic!("unexpected parameters element: {:?}", other),
            }
        },
        other => panic!("expected a function, got {:?}", other),
    }
}
