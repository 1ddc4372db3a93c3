//! The internal type representation used by the type-checker.
use vstd::prelude::*;

use crate::ast::{Name, TyAst};

verus! {

/// A type used by the type-checker.
#[derive(Debug)]
pub enum Ty {
    /// The type of booleans.
    Bool,
    /// The type of signed 64-bit integers.
    Int,
    /// The unit type.
    Unit,
    /// The type of functions between two types.
    Arrow(Box<Ty>, Box<Ty>),
    /// A type variable, used as a unification unknown.
    Var(usize),
}

/// A function parameter: its name and its declared type.
#[derive(Debug)]
pub struct Binding {
    pub name: Name,
    pub ty: Ty,
}

impl Ty {
    /// Whether the type variable `index` occurs anywhere inside this type.
    pub open spec fn contains_spec(self, index: usize) -> bool
        decreases self,
    {
        match self {
            Ty::Bool => false,
            Ty::Int => false,
            Ty::Unit => false,
            Ty::Arrow(t1, t2) => t1.contains_spec(index) || t2.contains_spec(index),
            Ty::Var(inner) => inner == index,
        }
    }

    /// Checks if the index of a `Ty::Var` is contained inside the type.
    pub fn contains(&self, index: usize) -> (r: bool)
        ensures
            r == self.contains_spec(index),
        decreases *self,
    {
        match self {
            Ty::Bool => false,
            Ty::Int => false,
            Ty::Unit => false,
            Ty::Arrow(t1, t2) => t1.contains(index) || t2.contains(index),
            Ty::Var(inner) => *inner == index,
        }
    }

    /// A structural copy of this type.
    pub fn duplicate(&self) -> (r: Ty)
        ensures
            r == *self,
        decreases *self,
    {
        match self {
            Ty::Bool => Ty::Bool,
            Ty::Int => Ty::Int,
            Ty::Unit => Ty::Unit,
            Ty::Arrow(t1, t2) => Ty::Arrow(Box::new(t1.duplicate()), Box::new(t2.duplicate())),
            Ty::Var(inner) => Ty::Var(*inner),
        }
    }

    /// Structural equality of two types.
    pub fn same_as(&self, other: &Ty) -> (r: bool)
        ensures
            r == (*self == *other),
        decreases *self,
    {
        match (self, other) {
            (Ty::Bool, Ty::Bool) => true,
            (Ty::Int, Ty::Int) => true,
            (Ty::Unit, Ty::Unit) => true,
            (Ty::Arrow(a1, a2), Ty::Arrow(b1, b2)) => a1.same_as(b1) && a2.same_as(b2),
            (Ty::Var(a), Ty::Var(b)) => *a == *b,
            _ => false,
        }
    }

    /// What `from_ast` returns: `None` exactly when the annotation has a
    /// `Missing` part, the same tree with `Missing` impossible otherwise.
    pub open spec fn from_ast_spec(ty_ast: TyAst) -> Option<Ty>
        decreases ty_ast,
    {
        match ty_ast {
            TyAst::Missing => None,
            TyAst::Bool => Some(Ty::Bool),
            TyAst::Int => Some(Ty::Int),
            TyAst::Unit => Some(Ty::Unit),
            TyAst::Arrow(t1, t2) => match (Ty::from_ast_spec(*t1), Ty::from_ast_spec(*t2)) {
                (Some(r1), Some(r2)) => Some(Ty::Arrow(Box::new(r1), Box::new(r2))),
                _ => None,
            },
        }
    }

    /// Converts a surface type annotation into an internal type; a `Missing`
    /// annotation (or one containing `Missing`) has no internal counterpart.
    pub fn from_ast(ty_ast: TyAst) -> (r: Option<Ty>)
        ensures
            r == Ty::from_ast_spec(ty_ast),
        decreases ty_ast,
    {
        match ty_ast {
            TyAst::Missing => None,
            TyAst::Bool => Some(Ty::Bool),
            TyAst::Int => Some(Ty::Int),
            TyAst::Unit => Some(Ty::Unit),
            TyAst::Arrow(t1, t2) => match (Ty::from_ast(*t1), Ty::from_ast(*t2)) {
                (Some(r1), Some(r2)) => Some(Ty::Arrow(Box::new(r1), Box::new(r2))),
                _ => None,
            },
        }
    }
}

} // verus!
