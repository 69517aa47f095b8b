use jup::tokenizer::Tokenizer;
use jup::tokens::Token;

fn tokens_of(source: &str) -> Vec<Token> {
    let mut tokenizer = Tokenizer::from_source_code(source);
    tokenizer.run();
    tokenizer.tokenized().clone()
}

#[test]
fn from_file() {
    // the content of a small source file, as a loader would hand it over
    let file_content = "fun main {\n\tlet a: int = 5\n\tret a\n}\n";
    let mut tokenizer = Tokenizer::from_source_code(file_content);
    tokenizer.run();
    println!("{:?}", tokenizer.tokenized());
}

#[test]
fn from_source_code() {
    let source_code = "func main {\n".to_owned() + "\tlet a = 5;" + "    ret\n" + "}\n // annoying comment";

    let mut tokenizer = Tokenizer::from_source_code(&source_code);
    tokenizer.run();

    println!("{:?}", tokenizer.tokenized());
}

#[test]
fn tokenizes_simple_program() {
    // the concrete scenario: each token of the program, in order
    let tokens = tokens_of("fun main {\n  let a: int = 5\n  ret a\n}\n");
    let expected = vec![
        Token::Function,
        Token::Other(String::from("main")),
        Token::BracketOpen,
        Token::NewLine,
        Token::Variable,
        Token::Other(String::from("a")),
        Token::TypeDef,
        Token::Other(String::from("int")),
        Token::Assign,
        Token::Other(String::from("5")),
        Token::NewLine,
        Token::Return,
        Token::Other(String::from("a")),
        Token::NewLine,
        Token::BracketClose,
        Token::NewLine,
    ];
    assert_eq!(tokens, expected);
}

#[test]
fn round_trip_single_tokens() {
    assert_eq!(tokens_of("fun"), vec![Token::Function, Token::NewLine]);
    assert_eq!(tokens_of("+"), vec![Token::Plus, Token::NewLine]);
    assert_eq!(tokens_of("=="), vec![Token::Equal, Token::NewLine]);
    assert_eq!(
        tokens_of("<="),
        vec![Token::LessThanOrEqual, Token::NewLine]
    );
    assert_eq!(
        tokens_of(">="),
        vec![Token::MoreThanOrEqual, Token::NewLine]
    );
    assert_eq!(tokens_of("@"), vec![Token::Assembly, Token::NewLine]);
    assert_eq!(tokens_of("continue"), vec![Token::LoopContinue, Token::NewLine]);
}

#[test]
fn trailing_newline_is_idempotent() {
    assert_eq!(tokens_of("ret a"), tokens_of("ret a\n"));
    assert_eq!(tokens_of(""), tokens_of("\n"));
    assert_eq!(tokens_of("let x: int = 2"), tokens_of("let x: int = 2\n"));
}

#[test]
fn relational_pairs_always_merge() {
    let tokens = tokens_of("a <= b\nc >= d\ne < f\ng = h\n");
    for window in tokens.windows(2) {
        let relational = matches!(window[0], Token::LessThan | Token::MoreThan);
        assert!(!(relational && window[1] == Token::Assign));
    }
    assert!(tokens.contains(&Token::LessThanOrEqual));
    assert!(tokens.contains(&Token::MoreThanOrEqual));
    assert!(tokens.contains(&Token::LessThan));
    assert!(tokens.contains(&Token::Assign));
}

#[test]
fn assembly_line_keeps_comma() {
    // the sentinel, the opaque text split at the comma, the boundary
    let tokens = tokens_of("@mov rax, 1\n");
    let expected = vec![
        Token::Assembly,
        Token::Other(String::from("mov rax")),
        Token::Comma,
        Token::Other(String::from(" 1")),
        Token::NewLine,
    ];
    assert_eq!(tokens, expected);
}

#[test]
fn comments_are_discarded() {
    assert_eq!(
        tokens_of("ret // the result\n"),
        vec![Token::Return, Token::NewLine]
    );
    assert_eq!(tokens_of("// only a comment\n"), vec![Token::NewLine]);
}

#[test]
fn string_literals_stay_verbatim() {
    let tokens = tokens_of("let s = 'hi, there'\n");
    let expected = vec![
        Token::Variable,
        Token::Other(String::from("s")),
        Token::Assign,
        Token::Other(String::from("'hi, there'")),
        Token::NewLine,
    ];
    assert_eq!(tokens, expected);
}

#[test]
fn tabs_normalize_to_spaces() {
    assert_eq!(tokens_of("\tret\n"), vec![Token::Return, Token::NewLine]);
}

#[test]
fn word_characters_glue_lexemes() {
    // underscores and digits continue a lexeme; separators end it
    let tokens = tokens_of("a1_b-c\n");
    let expected = vec![
        Token::Other(String::from("a1_b")),
        Token::Minus,
        Token::Other(String::from("c")),
        Token::NewLine,
    ];
    assert_eq!(tokens, expected);
}
