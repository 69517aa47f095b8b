use jup::tokens::Token;

#[test]
fn tokens_convert_to_string() {
    let token_function = Token::Function;
    println!("{}", token_function.to_string());
}

#[test]
fn tokens_from_string() {
    let string = String::from("fun");
    println!("{:?}", Token::from_string(&string));
}

#[test]
fn tokens_from_str() {
    let string: &str = "fun";
    println!("{:?}", Token::token_from_str(string));
}

#[test]
fn fixed_spellings_round_trip() {
    let fixed = vec![
        Token::Assembly,
        Token::Assign,
        Token::BracketOpen,
        Token::BracketClose,
        Token::Comma,
        Token::Comment,
        Token::ConditionElse,
        Token::ConditionIf,
        Token::Divide,
        Token::Equal,
        Token::Exit,
        Token::Function,
        Token::LessThan,
        Token::LessThanOrEqual,
        Token::Loop,
        Token::LoopBreak,
        Token::LoopContinue,
        Token::Minus,
        Token::MoreThan,
        Token::MoreThanOrEqual,
        Token::Multiply,
        Token::ParenOpen,
        Token::ParenClose,
        Token::Point,
        Token::Plus,
        Token::Print,
        Token::Return,
        Token::SemiColon,
        Token::SquareBracketOpen,
        Token::SquareBracketClose,
        Token::Static,
        Token::StringDot,
        Token::TypeDef,
        Token::Variable,
    ];
    for token in fixed {
        let spelled = token.to_string();
        assert_eq!(Token::token_from_str(spelled.as_str()), token);
    }
}

#[test]
fn exact_spellings() {
    assert_eq!(Token::Function.to_string(), "fun");
    assert_eq!(Token::Variable.to_string(), "let");
    assert_eq!(Token::Return.to_string(), "ret");
    assert_eq!(Token::Assembly.to_string(), "@");
    assert_eq!(Token::LessThanOrEqual.to_string(), "<=");
    assert_eq!(Token::Comment.to_string(), "//");
    assert_eq!(Token::NewLine.to_string(), "\n");
    assert_eq!(Token::Absent.to_string(), "");
}

#[test]
fn unknown_spelling_becomes_other() {
    assert_eq!(
        Token::token_from_str("banana"),
        Token::Other(String::from("banana"))
    );
    assert_eq!(Token::token_from_str(""), Token::Other(String::new()));
}
