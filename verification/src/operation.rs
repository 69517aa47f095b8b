//! A binary operation reconstructed by the parser.

use vstd::prelude::*;

use crate::tokens::{Token, TokenModel};

verus! {

/// Mathematical model of an [`Operation`].
#[verifier::ext_equal]
pub struct OperationModel {
    pub operator: TokenModel,
    pub arg1: TokenModel,
    pub arg2: TokenModel,
}

/// A binary operation: the operator token and its two operand tokens.
///
/// When the second operand is an expression or array opener token, the
/// real value is carried by the element spliced right after the operation
/// in the parser's output; the stored token is a marker for that.
#[derive(Debug)]
pub struct Operation {
    operator: Token,
    arg1: Token,
    arg2: Token,
}

impl View for Operation {
    type V = OperationModel;

    closed spec fn view(&self) -> OperationModel {
        OperationModel { operator: self.operator@, arg1: self.arg1@, arg2: self.arg2@ }
    }
}

impl DeepView for Operation {
    type V = OperationModel;

    open spec fn deep_view(&self) -> OperationModel {
        self.view()
    }
}

impl Clone for Operation {
    fn clone(&self) -> (r: Self)
        ensures
            r@ == self@,
    {
        Operation { operator: self.operator.clone(), arg1: self.arg1.clone(), arg2: self.arg2.clone() }
    }
}

impl Operation {
    pub fn new(operator: Token, arg1: Token, arg2: Token) -> (r: Self)
        ensures
            r@ == (OperationModel { operator: operator@, arg1: arg1@, arg2: arg2@ }),
    {
        Operation { operator, arg1, arg2 }
    }

    pub fn operator(&self) -> (r: &Token)
        ensures
            r@ == self@.operator,
    {
        &self.operator
    }

    pub fn arg1(&self) -> (r: &Token)
        ensures
            r@ == self@.arg1,
    {
        &self.arg1
    }

    pub fn arg2(&self) -> (r: &Token)
        ensures
            r@ == self@.arg2,
    {
        &self.arg2
    }
}

} // verus!
