//! A function declaration reconstructed by the parser.

use vstd::prelude::*;

use crate::elements::{Element, ElementModel};
use crate::tokens::{spelling, Token, TokenModel};
use crate::types::{Type, TypeModel};

verus! {

/// Mathematical model of a [`Function`].
#[verifier::ext_equal]
pub struct FunctionModel {
    pub id: TokenModel,
    pub params: Box<ElementModel>,
    pub return_type: TypeModel,
}

/// A declared function: its identifier token, its parameter list (an
/// [`Element::Parameters`] holding the raw token span, left for a later
/// pass to resolve) and its return type annotation.
#[derive(Debug)]
pub struct Function {
    id: Token,
    params: Box<Element>,
    return_type: Type,
}

/// The model of a function: its fields, with the parameter element
/// modelled by [`crate::elements::element_model`].
pub closed spec fn function_model(f: Function) -> FunctionModel
    decreases f,
{
    FunctionModel {
        id: f.id@,
        params: Box::new(crate::elements::element_model(*f.params)),
        return_type: f.return_type@,
    }
}

impl View for Function {
    type V = FunctionModel;

    open spec fn view(&self) -> FunctionModel {
        function_model(*self)
    }
}

impl DeepView for Function {
    type V = FunctionModel;

    open spec fn deep_view(&self) -> FunctionModel {
        self.view()
    }
}

impl Clone for Function {
    fn clone(&self) -> (r: Self)
        ensures
            r@ == self@,
        decreases self,
    {
        Function {
            id: self.id.clone(),
            params: Box::new((*self.params).clone()),
            return_type: self.return_type.clone(),
        }
    }
}

impl Function {
    pub fn new(id: Token, params: Element, return_type: Type) -> (r: Self)
        ensures
            r@ == (FunctionModel {
                id: id@,
                params: Box::new(params@),
                return_type: return_type@,
            }),
    {
        Function { id, params: Box::new(params), return_type }
    }

    /// The spelling of the identifier token.
    pub fn id(&self) -> (r: String)
        ensures
            r@ == spelling(self@.id),
    {
        self.id.to_string()
    }

    /// A copy of the parameter list element.
    pub fn params(&self) -> (r: Element)
        ensures
            r@ == *self@.params,
    {
        (*self.params).clone()
    }

    pub fn return_type(&self) -> (r: &Type)
        ensures
            r@ == self@.return_type,
    {
        &self.return_type
    }
}

} // verus!
