use jup::rules::{Rule, RuleItem};
use jup::tokens::Token;

fn shapes(rules: &[Rule]) -> Vec<usize> {
    rules.iter().map(|r| r.items().len()).collect()
}

#[test]
fn operators_expand_to_nine_patterns() {
    let rules = Rule::from_token(Token::Plus);
    assert_eq!(rules.len(), 9);
    for rule in &rules {
        assert_eq!(rule.items().len(), 3);
        assert!(matches!(rule.items()[1], RuleItem::Main(Token::Plus)));
    }
}

#[test]
fn declarations_expand_to_four_patterns() {
    let rules = Rule::from_token(Token::Variable);
    assert_eq!(shapes(&rules), vec![4, 6, 6, 6]);
    for rule in &rules {
        assert!(matches!(rule.items()[0], RuleItem::Main(Token::Variable)));
        assert!(matches!(rule.items()[2], RuleItem::Token(Token::TypeDef)));
    }
    let statics = Rule::from_token(Token::Static);
    assert_eq!(shapes(&statics), vec![4, 6, 6, 6]);
}

#[test]
fn function_pattern_skips_its_parameters() {
    let rules = Rule::from_token(Token::Function);
    assert_eq!(shapes(&rules), vec![2, 5]);
    assert!(matches!(rules[1].items()[2], RuleItem::Token(Token::ParenOpen)));
    assert!(matches!(rules[1].items()[3], RuleItem::Skip));
    assert!(matches!(rules[1].items()[4], RuleItem::Token(Token::ParenClose)));
}

#[test]
fn tokens_without_rules_get_none() {
    assert!(Rule::from_token(Token::Other(String::from("x"))).is_empty());
    assert!(Rule::from_token(Token::NewLine).is_empty());
    assert!(Rule::from_token(Token::BracketOpen).is_empty());
}

#[test]
fn return_follows_the_basic_scheme() {
    let rules = Rule::from_token(Token::Return);
    assert_eq!(shapes(&rules), vec![2, 2, 2]);
    assert!(matches!(rules[0].items()[1], RuleItem::Value));
    assert!(matches!(rules[1].items()[1], RuleItem::Label));
    assert!(matches!(rules[2].items()[1], RuleItem::Expression));
}
