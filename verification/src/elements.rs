//! The nodes of the abstract syntax tree built by the parser.

use vstd::prelude::*;

use crate::function::{Function, FunctionModel};
use crate::operation::{Operation, OperationModel};
use crate::tokens::{Token, TokenModel};
use crate::variable::{Variable, VariableModel};

verus! {

/// A raw parameter-list token span, kept unparsed for a later pass.
pub type Params = Vec<Token>;

/// Mathematical model of an [`Element`].
#[verifier::ext_equal]
pub enum ElementModel {
    Array(Seq<TokenModel>),
    Assembly(TokenModel),
    Expression(Seq<ElementModel>),
    Operation(OperationModel),
    Function(FunctionModel),
    Parameters(Seq<TokenModel>),
    Return(TokenModel),
    Variable(VariableModel),
    Other(TokenModel),
}

/// One node of the abstract syntax tree.
#[derive(Debug)]
pub enum Element {
    /// An array literal: its value tokens, with the comma separators
    /// already dropped.
    Array(Vec<Token>),
    /// An inline assembly line: the single opaque token holding its text.
    Assembly(Token),
    /// A nested scope: the elements parsed from a balanced brace span.
    Expression(Vec<Element>),
    Operation(Operation),
    Function(Function),
    /// A raw parameter-list token span, left for a later pass.
    Parameters(Params),
    /// A return instruction: its value token, an expression opener
    /// marker, or `Token::Absent` when nothing follows.
    Return(Token),
    Variable(Variable),
    /// Any other token kept verbatim at statement level.
    Other(Token),
}

/// The model of one element; nested elements are modelled recursively.
pub open spec fn element_model(e: Element) -> ElementModel
    decreases e,
{
    match e {
        Element::Array(ts) => ElementModel::Array(ts.deep_view()),
        Element::Assembly(t) => ElementModel::Assembly(t@),
        Element::Expression(es) => ElementModel::Expression(
            Seq::new(
                es@.len(),
                |i: int|
                    if 0 <= i < es.len() {
                        element_model(es[i])
                    } else {
                        ElementModel::Other(TokenModel::Absent)
                    },
            ),
        ),
        Element::Operation(o) => ElementModel::Operation(o@),
        Element::Function(f) => ElementModel::Function(crate::function::function_model(f)),
        Element::Parameters(ts) => ElementModel::Parameters(ts.deep_view()),
        Element::Return(t) => ElementModel::Return(t@),
        Element::Variable(v) => ElementModel::Variable(v@),
        Element::Other(t) => ElementModel::Other(t@),
    }
}

impl View for Element {
    type V = ElementModel;

    open spec fn view(&self) -> ElementModel {
        element_model(*self)
    }
}

/// The model of an `Element::Expression` is the deep view of its vector.
pub proof fn lemma_expression_model(es: Vec<Element>)
    ensures
        element_model(Element::Expression(es)) == ElementModel::Expression(es.deep_view()),
{
    assert(element_model(Element::Expression(es))->Expression_0 =~= es.deep_view());
}

impl DeepView for Element {
    type V = ElementModel;

    open spec fn deep_view(&self) -> ElementModel {
        self.view()
    }
}

/// A copy of a vector of tokens.
pub fn clone_tokens(v: &Vec<Token>) -> (r: Vec<Token>)
    ensures
        r@ == v@,
{
    let mut r: Vec<Token> = Vec::new();
    let mut i: usize = 0;
    while i < v.len()
        invariant
            i <= v.len(),
            r@ == v@.subrange(0, i as int),
        decreases v.len() - i,
    {
        r.push(v[i].clone());
        i = i + 1;
        proof {
            assert(r@ =~= v@.subrange(0, i as int));
        }
    }
    proof {
        assert(r@ =~= v@);
    }
    r
}

/// A copy of a vector of elements, model by model.
pub fn clone_elements(v: &Vec<Element>) -> (r: Vec<Element>)
    ensures
        r.deep_view() == v.deep_view(),
    decreases v,
{
    let mut r: Vec<Element> = Vec::new();
    let mut i: usize = 0;
    while i < v.len()
        invariant
            i <= v.len(),
            r@.len() == i,
            forall|j: int| 0 <= j < i ==> r@[j]@ == v@[j]@,
        decreases v@.len() - i,
    {
        r.push(v[i].clone());
        i = i + 1;
    }
    proof {
        assert(r.deep_view() =~= v.deep_view());
    }
    r
}

impl Clone for Element {
    fn clone(&self) -> (r: Self)
        ensures
            r@ == self@,
        decreases self,
    {
        match self {
            Element::Array(ts) => {
                let r = Element::Array(clone_tokens(ts));
                proof {
                    assert(r@ =~~= self@);
                }
                r
            },
            Element::Assembly(t) => Element::Assembly(t.clone()),
            Element::Expression(es) => {
                let cloned = clone_elements(es);
                proof {
                    lemma_expression_model(cloned);
                    lemma_expression_model(*es);
                }
                let r = Element::Expression(cloned);
                proof {
                    assert(r@ =~~= self@);
                }
                r
            },
            Element::Operation(o) => Element::Operation(o.clone()),
            Element::Function(f) => Element::Function(f.clone()),
            Element::Parameters(ts) => {
                let r = Element::Parameters(clone_tokens(ts));
                proof {
                    assert(r@ =~~= self@);
                }
                r
            },
            Element::Return(t) => Element::Return(t.clone()),
            Element::Variable(v) => Element::Variable(v.clone()),
            Element::Other(t) => Element::Other(t.clone()),
        }
    }
}

} // verus!
