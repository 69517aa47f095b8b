//! The type annotation attached to a declaration.
//!
//! A type is derived from a type-name token: either a scalar name (builtin
//! or user-defined names are both carried as-is), an array of a scalar
//! name with a literal length, or absent when no annotation was written.

use vstd::prelude::*;

verus! {

/// Mathematical model of a [`Type`].
#[verifier::ext_equal]
pub enum TypeModel {
    Absent,
    Scalar(Seq<char>),
    Array(Seq<char>, usize),
}

/// A type annotation: a scalar type name, an array of a scalar type name
/// with a literal length, or absent when no annotation was present.
#[derive(Debug)]
pub enum Type {
    Absent,
    Scalar(String),
    Array(String, usize),
}

impl View for Type {
    type V = TypeModel;

    open spec fn view(&self) -> TypeModel {
        match self {
            Type::Absent => TypeModel::Absent,
            Type::Scalar(name) => TypeModel::Scalar(name@),
            Type::Array(name, size) => TypeModel::Array(name@, *size),
        }
    }
}

impl DeepView for Type {
    type V = TypeModel;

    open spec fn deep_view(&self) -> TypeModel {
        self.view()
    }
}

impl Clone for Type {
    fn clone(&self) -> (r: Self)
        ensures
            r@ == self@,
    {
        match self {
            Type::Absent => Type::Absent,
            Type::Scalar(name) => Type::Scalar(name.clone()),
            Type::Array(name, size) => Type::Array(name.clone(), *size),
        }
    }
}

impl PartialEq for Type {
    fn eq(&self, other: &Type) -> (r: bool) {
        match (self, other) {
            (Type::Absent, Type::Absent) => true,
            (Type::Scalar(a), Type::Scalar(b)) => a.eq(b),
            (Type::Array(a, x), Type::Array(b, y)) => a.eq(b) && *x == *y,
            _ => false,
        }
    }
}

impl vstd::std_specs::cmp::PartialEqSpecImpl for Type {
    open spec fn obeys_eq_spec() -> bool {
        true
    }

    open spec fn eq_spec(&self, other: &Type) -> bool {
        self@ == other@
    }
}

impl Type {
    /// A scalar type carrying the given type name.
    pub fn from_string(name: String) -> (t: Self)
        ensures
            t@ == TypeModel::Scalar(name@),
    {
        Type::Scalar(name)
    }

    /// An array type of the given scalar type name and literal length.
    pub fn array_from_string(name: String, size: usize) -> (t: Self)
        ensures
            t@ == TypeModel::Array(name@, size),
    {
        Type::Array(name, size)
    }
}

} // verus!
