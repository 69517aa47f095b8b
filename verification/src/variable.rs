//! A variable (or static) declaration reconstructed by the parser.

use vstd::prelude::*;

use crate::tokens::{spelling, token_of, Token, TokenModel};
use crate::types::{Type, TypeModel};

verus! {

/// Mathematical model of a [`Variable`].
#[verifier::ext_equal]
pub struct VariableModel {
    pub id: TokenModel,
    pub type_: TypeModel,
    pub value: TokenModel,
    pub stack_pos: usize,
}

/// A declared variable: its identifier token, type annotation and
/// initializer token (`Token::Absent` when no initializer was written).
///
/// The stack position is not computed by the parser: a later code
/// generation stage assigns it through [`Variable::set_stack_pos`].
#[derive(Debug)]
pub struct Variable {
    id: Token,
    type_: Type,
    value: Token,
    stack_pos: usize,
}

impl View for Variable {
    type V = VariableModel;

    closed spec fn view(&self) -> VariableModel {
        VariableModel {
            id: self.id@,
            type_: self.type_@,
            value: self.value@,
            stack_pos: self.stack_pos,
        }
    }
}

impl DeepView for Variable {
    type V = VariableModel;

    open spec fn deep_view(&self) -> VariableModel {
        self.view()
    }
}

impl Clone for Variable {
    fn clone(&self) -> (r: Self)
        ensures
            r@ == self@,
    {
        Variable {
            id: self.id.clone(),
            type_: self.type_.clone(),
            value: self.value.clone(),
            stack_pos: self.stack_pos,
        }
    }
}

impl Variable {
    /// A fresh declaration; the stack position starts at zero until a
    /// later stage assigns it.
    pub fn new(id: Token, type_: Type, value: Token) -> (r: Self)
        ensures
            r@ == (VariableModel { id: id@, type_: type_@, value: value@, stack_pos: 0 }),
    {
        Variable { id, type_, value, stack_pos: 0 }
    }

    pub fn set_id(&mut self, id: Token)
        ensures
            final(self)@ == (VariableModel { id: id@, ..old(self)@ }),
    {
        self.id = id;
    }

    pub fn set_type(&mut self, type_: Type)
        ensures
            final(self)@ == (VariableModel { type_: type_@, ..old(self)@ }),
    {
        self.type_ = type_;
    }

    /// Replaces the initializer with the token the given spelling denotes.
    pub fn set_value(&mut self, value: String)
        ensures
            final(self)@ == (VariableModel { value: token_of(value@), ..old(self)@ }),
    {
        self.value = Token::from_string(value.as_str());
    }

    pub fn set_stack_pos(&mut self, stack_pos: usize)
        ensures
            final(self)@ == (VariableModel { stack_pos: stack_pos, ..old(self)@ }),
    {
        self.stack_pos = stack_pos;
    }

    /// The spelling of the identifier token.
    pub fn id(&self) -> (r: String)
        ensures
            r@ == spelling(self@.id),
    {
        self.id.to_string()
    }

    pub fn type_(&self) -> (r: &Type)
        ensures
            r@ == self@.type_,
    {
        &self.type_
    }

    pub fn value(&self) -> (r: &Token)
        ensures
            r@ == self@.value,
    {
        &self.value
    }

    pub fn stack_pos(&self) -> (r: usize)
        ensures
            r == self@.stack_pos,
    {
        self.stack_pos
    }
}

} // verus!
