//! The declarative grammar table: for each token that can lead an
//! instruction, the finite set of accepted patterns for the rest of the
//! instruction. The table is pure data, keyed by the leading token; the
//! spec function [`rules_of`] is the table itself, and
//! [`Rule::from_token`] builds it.

use vstd::prelude::*;

use crate::tokens::{Token, TokenModel};

verus! {

/// Mathematical model of a [`RuleItem`].
#[verifier::ext_equal]
pub enum RuleItemModel {
    Main(TokenModel),
    Value,
    Label,
    Expression,
    Operation,
    Token(TokenModel),
    Skip,
}

/// One item of a pattern.
#[derive(Debug)]
pub enum RuleItem {
    /// The rule's own leading or operator token, the main token of the
    /// instruction.
    Main(Token),
    /// A literal value.
    Value,
    /// An identifier.
    Label,
    /// A nested expression.
    Expression,
    /// A binary operation.
    Operation,
    /// One fixed token.
    Token(Token),
    /// Tokens checked by another way (an expression, an argument list).
    Skip,
}

impl View for RuleItem {
    type V = RuleItemModel;

    open spec fn view(&self) -> RuleItemModel {
        match self {
            RuleItem::Main(t) => RuleItemModel::Main(t@),
            RuleItem::Value => RuleItemModel::Value,
            RuleItem::Label => RuleItemModel::Label,
            RuleItem::Expression => RuleItemModel::Expression,
            RuleItem::Operation => RuleItemModel::Operation,
            RuleItem::Token(t) => RuleItemModel::Token(t@),
            RuleItem::Skip => RuleItemModel::Skip,
        }
    }
}

impl DeepView for RuleItem {
    type V = RuleItemModel;

    open spec fn deep_view(&self) -> RuleItemModel {
        self.view()
    }
}

impl Clone for RuleItem {
    fn clone(&self) -> (r: Self)
        ensures
            r@ == self@,
    {
        match self {
            RuleItem::Main(t) => RuleItem::Main(t.clone()),
            RuleItem::Value => RuleItem::Value,
            RuleItem::Label => RuleItem::Label,
            RuleItem::Expression => RuleItem::Expression,
            RuleItem::Operation => RuleItem::Operation,
            RuleItem::Token(t) => RuleItem::Token(t.clone()),
            RuleItem::Skip => RuleItem::Skip,
        }
    }
}

/// One accepted pattern: an ordered list of items. A rule with no items
/// means no rule is available.
#[derive(Debug)]
pub struct Rule(Vec<RuleItem>);

impl View for Rule {
    type V = Seq<RuleItemModel>;

    closed spec fn view(&self) -> Seq<RuleItemModel> {
        self.0.deep_view()
    }
}

impl DeepView for Rule {
    type V = Seq<RuleItemModel>;

    open spec fn deep_view(&self) -> Seq<RuleItemModel> {
        self.view()
    }
}

impl Rule {
    /// The pattern's items, in order.
    pub fn items(&self) -> (r: &Vec<RuleItem>)
        ensures
            r.deep_view() == self@,
    {
        &self.0
    }
}

/// A one-item pattern.
fn rule1(a: RuleItem) -> (r: Rule)
    ensures
        r@ == seq![a@],
{
    let r = Rule(vec![a]);
    proof {
        assert(r@ =~= seq![a@]);
    }
    r
}

/// A two-item pattern.
fn rule2(a: RuleItem, b: RuleItem) -> (r: Rule)
    ensures
        r@ == seq![a@, b@],
{
    let r = Rule(vec![a, b]);
    proof {
        assert(r@ =~= seq![a@, b@]);
    }
    r
}

/// A three-item pattern.
fn rule3(a: RuleItem, b: RuleItem, c: RuleItem) -> (r: Rule)
    ensures
        r@ == seq![a@, b@, c@],
{
    let r = Rule(vec![a, b, c]);
    proof {
        assert(r@ =~= seq![a@, b@, c@]);
    }
    r
}

/// A four-item pattern.
fn rule4(a: RuleItem, b: RuleItem, c: RuleItem, d: RuleItem) -> (r: Rule)
    ensures
        r@ == seq![a@, b@, c@, d@],
{
    let r = Rule(vec![a, b, c, d]);
    proof {
        assert(r@ =~= seq![a@, b@, c@, d@]);
    }
    r
}

/// A five-item pattern.
fn rule5(a: RuleItem, b: RuleItem, c: RuleItem, d: RuleItem, e: RuleItem) -> (r: Rule)
    ensures
        r@ == seq![a@, b@, c@, d@, e@],
{
    let r = Rule(vec![a, b, c, d, e]);
    proof {
        assert(r@ =~= seq![a@, b@, c@, d@, e@]);
    }
    r
}

/// A six-item pattern.
fn rule6(a: RuleItem, b: RuleItem, c: RuleItem, d: RuleItem, e: RuleItem, f: RuleItem) -> (r: Rule)
    ensures
        r@ == seq![a@, b@, c@, d@, e@, f@],
{
    let r = Rule(vec![a, b, c, d, e, f]);
    proof {
        assert(r@ =~= seq![a@, b@, c@, d@, e@, f@]);
    }
    r
}

/// The nine patterns of a binary operator: each combination of
/// value, label and expression around the operator itself.
pub open spec fn operator_rules(op: TokenModel) -> Seq<Seq<RuleItemModel>> {
    seq![
        seq![RuleItemModel::Value, RuleItemModel::Main(op), RuleItemModel::Value],
        seq![RuleItemModel::Value, RuleItemModel::Main(op), RuleItemModel::Label],
        seq![RuleItemModel::Value, RuleItemModel::Main(op), RuleItemModel::Expression],
        seq![RuleItemModel::Label, RuleItemModel::Main(op), RuleItemModel::Value],
        seq![RuleItemModel::Label, RuleItemModel::Main(op), RuleItemModel::Label],
        seq![RuleItemModel::Label, RuleItemModel::Main(op), RuleItemModel::Expression],
        seq![RuleItemModel::Expression, RuleItemModel::Main(op), RuleItemModel::Value],
        seq![RuleItemModel::Expression, RuleItemModel::Main(op), RuleItemModel::Label],
        seq![RuleItemModel::Expression, RuleItemModel::Main(op), RuleItemModel::Expression],
    ]
}

/// The three patterns of a keyword followed by one value, label or
/// expression.
pub open spec fn basic_scheme_rules(first: TokenModel) -> Seq<Seq<RuleItemModel>> {
    seq![
        seq![RuleItemModel::Main(first), RuleItemModel::Value],
        seq![RuleItemModel::Main(first), RuleItemModel::Label],
        seq![RuleItemModel::Main(first), RuleItemModel::Expression],
    ]
}

/// The four patterns of a declaration keyword: no initializer, or an
/// initializer that is a value, a label, or an expression, each behind
/// the type-annotation colon.
pub open spec fn declaration_rules(lead: TokenModel) -> Seq<Seq<RuleItemModel>> {
    seq![
        seq![
            RuleItemModel::Main(lead),
            RuleItemModel::Label,
            RuleItemModel::Token(TokenModel::TypeDef),
            RuleItemModel::Label,
        ],
        seq![
            RuleItemModel::Main(lead),
            RuleItemModel::Label,
            RuleItemModel::Token(TokenModel::TypeDef),
            RuleItemModel::Label,
            RuleItemModel::Token(TokenModel::Assign),
            RuleItemModel::Value,
        ],
        seq![
            RuleItemModel::Main(lead),
            RuleItemModel::Label,
            RuleItemModel::Token(TokenModel::TypeDef),
            RuleItemModel::Label,
            RuleItemModel::Token(TokenModel::Assign),
            RuleItemModel::Label,
        ],
        seq![
            RuleItemModel::Main(lead),
            RuleItemModel::Label,
            RuleItemModel::Token(TokenModel::TypeDef),
            RuleItemModel::Label,
            RuleItemModel::Token(TokenModel::Assign),
            RuleItemModel::Expression,
        ],
    ]
}

/// The grammar table: the accepted patterns for each token that can
/// lead an instruction, empty for one that cannot.
pub open spec fn rules_of(t: TokenModel) -> Seq<Seq<RuleItemModel>> {
    match t {
        TokenModel::Assembly => seq![
            seq![RuleItemModel::Main(TokenModel::Assembly)],
            seq![RuleItemModel::Main(TokenModel::Assembly), RuleItemModel::Value],
        ],
        TokenModel::Assign => seq![
            seq![
                RuleItemModel::Label,
                RuleItemModel::Main(TokenModel::Assign),
                RuleItemModel::Value,
            ],
            seq![
                RuleItemModel::Label,
                RuleItemModel::Main(TokenModel::Assign),
                RuleItemModel::Label,
            ],
            seq![
                RuleItemModel::Label,
                RuleItemModel::Main(TokenModel::Assign),
                RuleItemModel::Expression,
            ],
        ],
        TokenModel::ConditionElse => seq![
            seq![RuleItemModel::Main(TokenModel::ConditionElse), RuleItemModel::Expression],
        ],
        TokenModel::ConditionIf => seq![
            seq![
                RuleItemModel::Main(TokenModel::ConditionIf),
                RuleItemModel::Expression,
                RuleItemModel::Expression,
            ],
            seq![
                RuleItemModel::Main(TokenModel::ConditionIf),
                RuleItemModel::Operation,
                RuleItemModel::Expression,
            ],
        ],
        TokenModel::Divide => operator_rules(TokenModel::Divide),
        TokenModel::Function => seq![
            seq![RuleItemModel::Main(TokenModel::Function), RuleItemModel::Label],
            seq![
                RuleItemModel::Main(TokenModel::Function),
                RuleItemModel::Label,
                RuleItemModel::Token(TokenModel::ParenOpen),
                RuleItemModel::Skip,
                RuleItemModel::Token(TokenModel::ParenClose),
            ],
        ],
        TokenModel::LessThan => operator_rules(TokenModel::LessThan),
        TokenModel::LessThanOrEqual => operator_rules(TokenModel::LessThanOrEqual),
        TokenModel::Loop => seq![
            seq![
                RuleItemModel::Main(TokenModel::Loop),
                RuleItemModel::Expression,
                RuleItemModel::Expression,
            ],
            seq![
                RuleItemModel::Main(TokenModel::Loop),
                RuleItemModel::Operation,
                RuleItemModel::Expression,
            ],
        ],
        TokenModel::LoopBreak => seq![seq![RuleItemModel::Main(TokenModel::Loop)]],
        TokenModel::LoopContinue => seq![seq![RuleItemModel::Main(TokenModel::Loop)]],
        TokenModel::Minus => operator_rules(TokenModel::Minus),
        TokenModel::MoreThan => operator_rules(TokenModel::MoreThan),
        TokenModel::MoreThanOrEqual => operator_rules(TokenModel::MoreThanOrEqual),
        TokenModel::Multiply => operator_rules(TokenModel::Multiply),
        TokenModel::Point => seq![
            seq![
                RuleItemModel::Label,
                RuleItemModel::Main(TokenModel::Point),
                RuleItemModel::Label,
            ],
        ],
        TokenModel::Plus => operator_rules(TokenModel::Plus),
        TokenModel::Return => basic_scheme_rules(TokenModel::Return),
        TokenModel::Static => declaration_rules(TokenModel::Static),
        TokenModel::TypeDef => seq![
            seq![RuleItemModel::Main(TokenModel::TypeDef), RuleItemModel::Label],
        ],
        TokenModel::Variable => declaration_rules(TokenModel::Variable),
        _ => Seq::empty(),
    }
}

impl Rule {
    /// The nine patterns of a binary operator; see [`operator_rules`].
    fn from_operator(op: &Token) -> (r: Vec<Rule>)
        ensures
            r.deep_view() == operator_rules(op@),
    {
        let rules = vec![
            rule3(RuleItem::Value, RuleItem::Main(op.clone()), RuleItem::Value),
            rule3(RuleItem::Value, RuleItem::Main(op.clone()), RuleItem::Label),
            rule3(RuleItem::Value, RuleItem::Main(op.clone()), RuleItem::Expression),
            rule3(RuleItem::Label, RuleItem::Main(op.clone()), RuleItem::Value),
            rule3(RuleItem::Label, RuleItem::Main(op.clone()), RuleItem::Label),
            rule3(RuleItem::Label, RuleItem::Main(op.clone()), RuleItem::Expression),
            rule3(RuleItem::Expression, RuleItem::Main(op.clone()), RuleItem::Value),
            rule3(RuleItem::Expression, RuleItem::Main(op.clone()), RuleItem::Label),
            rule3(RuleItem::Expression, RuleItem::Main(op.clone()), RuleItem::Expression),
        ];
        proof {
            assert(rules.deep_view() =~~= operator_rules(op@));
        }
        rules
    }

    /// The three patterns of a keyword followed by one value, label or
    /// expression; see [`basic_scheme_rules`].
    fn from_basic_scheme(first: &Token) -> (r: Vec<Rule>)
        ensures
            r.deep_view() == basic_scheme_rules(first@),
    {
        let rules = vec![
            rule2(RuleItem::Main(first.clone()), RuleItem::Value),
            rule2(RuleItem::Main(first.clone()), RuleItem::Label),
            rule2(RuleItem::Main(first.clone()), RuleItem::Expression),
        ];
        proof {
            assert(rules.deep_view() =~~= basic_scheme_rules(first@));
        }
        rules
    }

    /// The four patterns of a declaration keyword; see
    /// [`declaration_rules`].
    fn from_declaration(lead: &Token) -> (r: Vec<Rule>)
        ensures
            r.deep_view() == declaration_rules(lead@),
    {
        let rules = vec![
            rule4(
                RuleItem::Main(lead.clone()),
                RuleItem::Label,
                RuleItem::Token(Token::TypeDef),
                RuleItem::Label,
            ),
            rule6(
                RuleItem::Main(lead.clone()),
                RuleItem::Label,
                RuleItem::Token(Token::TypeDef),
                RuleItem::Label,
                RuleItem::Token(Token::Assign),
                RuleItem::Value,
            ),
            rule6(
                RuleItem::Main(lead.clone()),
                RuleItem::Label,
                RuleItem::Token(Token::TypeDef),
                RuleItem::Label,
                RuleItem::Token(Token::Assign),
                RuleItem::Label,
            ),
            rule6(
                RuleItem::Main(lead.clone()),
                RuleItem::Label,
                RuleItem::Token(Token::TypeDef),
                RuleItem::Label,
                RuleItem::Token(Token::Assign),
                RuleItem::Expression,
            ),
        ];
        proof {
            assert(rules.deep_view() =~~= declaration_rules(lead@));
        }
        rules
    }

    /// The accepted patterns for the given leading token, empty when
    /// the token cannot lead an instruction; the table of [`rules_of`].
    pub fn from_token(token: Token) -> (r: Vec<Rule>)
        ensures
            r.deep_view() == rules_of(token@),
    {
        match token {
            Token::Assembly => {
                let rules = vec![
                    rule1(RuleItem::Main(Token::Assembly)),
                    rule2(RuleItem::Main(Token::Assembly), RuleItem::Value),
                ];
                proof {
                    assert(rules.deep_view() =~~= rules_of(TokenModel::Assembly));
                }
                rules
            },
            Token::Assign => {
                let rules = vec![
                    rule3(RuleItem::Label, RuleItem::Main(Token::Assign), RuleItem::Value),
                    rule3(RuleItem::Label, RuleItem::Main(Token::Assign), RuleItem::Label),
                    rule3(RuleItem::Label, RuleItem::Main(Token::Assign), RuleItem::Expression),
                ];
                proof {
                    assert(rules.deep_view() =~~= rules_of(TokenModel::Assign));
                }
                rules
            },
            Token::ConditionElse => {
                let rules = vec![
                    rule2(RuleItem::Main(Token::ConditionElse), RuleItem::Expression),
                ];
                proof {
                    assert(rules.deep_view() =~~= rules_of(TokenModel::ConditionElse));
                }
                rules
            },
            Token::ConditionIf => {
                let rules = vec![
                    rule3(
                        RuleItem::Main(Token::ConditionIf),
                        RuleItem::Expression,
                        RuleItem::Expression,
                    ),
                    rule3(
                        RuleItem::Main(Token::ConditionIf),
                        RuleItem::Operation,
                        RuleItem::Expression,
                    ),
                ];
                proof {
                    assert(rules.deep_view() =~~= rules_of(TokenModel::ConditionIf));
                }
                rules
            },
            Token::Divide => Self::from_operator(&Token::Divide),
            Token::Function => {
                let rules = vec![
                    rule2(RuleItem::Main(Token::Function), RuleItem::Label),
                    rule5(
                        RuleItem::Main(Token::Function),
                        RuleItem::Label,
                        RuleItem::Token(Token::ParenOpen),
                        RuleItem::Skip,
                        RuleItem::Token(Token::ParenClose),
                    ),
                ];
                proof {
                    assert(rules.deep_view() =~~= rules_of(TokenModel::Function));
                }
                rules
            },
            Token::LessThan => Self::from_operator(&Token::LessThan),
            Token::LessThanOrEqual => Self::from_operator(&Token::LessThanOrEqual),
            Token::Loop => {
                let rules = vec![
                    rule3(RuleItem::Main(Token::Loop), RuleItem::Expression, RuleItem::Expression),
                    rule3(RuleItem::Main(Token::Loop), RuleItem::Operation, RuleItem::Expression),
                ];
                proof {
                    assert(rules.deep_view() =~~= rules_of(TokenModel::Loop));
                }
                rules
            },
            Token::LoopBreak => {
                let rules = vec![rule1(RuleItem::Main(Token::Loop))];
                proof {
                    assert(rules.deep_view() =~~= rules_of(TokenModel::LoopBreak));
                }
                rules
            },
            Token::LoopContinue => {
                let rules = vec![rule1(RuleItem::Main(Token::Loop))];
                proof {
                    assert(rules.deep_view() =~~= rules_of(TokenModel::LoopContinue));
                }
                rules
            },
            Token::Minus => Self::from_operator(&Token::Minus),
            Token::MoreThan => Self::from_operator(&Token::MoreThan),
            Token::MoreThanOrEqual => Self::from_operator(&Token::MoreThanOrEqual),
            Token::Multiply => Self::from_operator(&Token::Multiply),
            Token::Point => {
                let rules = vec![
                    rule3(RuleItem::Label, RuleItem::Main(Token::Point), RuleItem::Label),
                ];
                proof {
                    assert(rules.deep_view() =~~= rules_of(TokenModel::Point));
                }
                rules
            },
            Token::Plus => Self::from_operator(&Token::Plus),
            Token::Return => Self::from_basic_scheme(&Token::Return),
            Token::Static => Self::from_declaration(&Token::Static),
            Token::TypeDef => {
                let rules = vec![rule2(RuleItem::Main(Token::TypeDef), RuleItem::Label)];
                proof {
                    assert(rules.deep_view() =~~= rules_of(TokenModel::TypeDef));
                }
                rules
            },
            Token::Variable => Self::from_declaration(&Token::Variable),
            other => {
                let rules: Vec<Rule> = Vec::new();
                proof {
                    assert(rules.deep_view() =~~= rules_of(other@));
                }
                rules
            },
        }
    }
}

} // verus!
