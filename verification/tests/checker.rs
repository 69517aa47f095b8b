use jup::checker::SyntaxChecker;
use jup::tokenizer::Tokenizer;
use jup::tokens::Token;

fn check_source(source: &str) -> Vec<(usize, Token, String)> {
    let mut tokenizer = Tokenizer::from_source_code(source);
    tokenizer.run();
    let mut checker = SyntaxChecker::new(source.to_string(), tokenizer.tokenized().clone());
    checker.run();
    checker
        .diagnostics()
        .iter()
        .map(|d| (d.line(), d.token().clone(), d.message()))
        .collect()
}

#[test]
fn clean_program_has_no_diagnostics() {
    // every line's first non-structural token is a recognized leader
    let diagnostics = check_source("fun main {\n  let a: int = 5\n  ret a\n}\n");
    assert!(diagnostics.is_empty());
}

#[test]
fn leaders_silence_their_line() {
    // everything after the leader is the parser's concern
    let diagnostics = check_source("let a: int = 5 + 5\n@mov rax, 1\nprint a\nexit\n");
    assert!(diagnostics.is_empty());
}

#[test]
fn bare_operation_is_reported_once() {
    // a bare operator expression where an instruction leader is expected
    let diagnostics = check_source("5 + 5\n");
    assert_eq!(diagnostics.len(), 1);
    let (line, token, message) = &diagnostics[0];
    assert_eq!(*line, 1);
    assert_eq!(*token, Token::Other(String::from("5")));
    assert_eq!(message, "No valid instruction found for token '5'");
}

#[test]
fn every_bad_line_is_reported() {
    let diagnostics = check_source("ret a\nb + c\n\nd\n");
    // one diagnostic per bad instruction: line 2 and line 4
    assert_eq!(diagnostics.len(), 2);
    assert_eq!(diagnostics[0].0, 2);
    assert_eq!(diagnostics[0].1, Token::Other(String::from("b")));
    assert_eq!(diagnostics[1].0, 4);
    assert_eq!(diagnostics[1].1, Token::Other(String::from("d")));
}

#[test]
fn diagnostic_carries_its_line_tokens() {
    let mut tokenizer = Tokenizer::from_source_code("ret\nx = 1\n");
    tokenizer.run();
    let mut checker = SyntaxChecker::new("ret\nx = 1\n".to_string(), tokenizer.tokenized().clone());
    checker.run();
    let diagnostics = checker.diagnostics();
    assert_eq!(diagnostics.len(), 1);
    let expected_line = vec![
        Token::Other(String::from("x")),
        Token::Assign,
        Token::Other(String::from("1")),
    ];
    assert_eq!(*diagnostics[0].line_tokens(), expected_line);
    assert_eq!(diagnostics[0].title(), "Invalid token");
}
