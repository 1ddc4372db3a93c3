//! The located surface syntax tree produced by the parser.
use vstd::prelude::*;

use crate::ty::{Binding, Ty};

verus! {

/// A span into the source text: start and end byte offsets.
#[derive(Clone, Copy, PartialEq, Eq, Structural, Debug)]
pub struct Location {
    pub start: usize,
    pub end: usize,
}

impl Location {
    pub fn new(start: usize, end: usize) -> (r: Location)
        ensures
            r == (Location { start, end }),
    {
        Location { start, end }
    }
}

/// A syntactic element together with its source span.
#[derive(Debug)]
pub struct Located<T> {
    pub content: T,
    pub loc: Location,
}

impl<T> Located<T> {
    pub fn new(content: T, loc: Location) -> (r: Located<T>)
        ensures
            r == (Located { content, loc }),
    {
        Located { content, loc }
    }
}

/// A variable name: the characters of an identifier.
pub type Name = Vec<char>;

/// A literal of the surface language.
#[derive(Clone, Copy, PartialEq, Eq, Structural, Debug)]
pub enum Literal {
    Bool(bool),
    Int(i64),
    Unit,
}

/// The built-in primitives; `print` is the only one.
#[derive(Clone, Copy, PartialEq, Eq, Structural, Debug)]
pub enum Prim {
    Print,
}

/// Binary operators of the surface language.
#[derive(Clone, Copy, PartialEq, Eq, Structural, Debug)]
pub enum BinOp {
    Add,
    Sub,
    Mul,
    Div,
    Rem,
    BitAnd,
    BitOr,
    BitXor,
    Shl,
    Shr,
    And,
    Or,
    Equal,
    NotEqual,
    Lt,
    Gt,
    Lte,
    Gte,
}

/// Unary operators of the surface language.
#[derive(Clone, Copy, PartialEq, Eq, Structural, Debug)]
pub enum UnOp {
    Neg,
    Not,
}

/// A type annotation as written in the source; `Missing` stands for an
/// omitted annotation.
#[derive(Debug)]
pub enum TyAst {
    Missing,
    Bool,
    Int,
    Unit,
    Arrow(Box<TyAst>, Box<TyAst>),
}

/// An ordered sequence of statements; its value is the value of the last.
pub type Block = Vec<Located<Node>>;

/// One `if`/`else if` arm: a condition block and a body block.
#[derive(Debug)]
pub struct Branch {
    pub cond: Located<Block>,
    pub body: Located<Block>,
}

/// Equality of two names, character by character.
pub fn name_eq(a: &Name, b: &Name) -> (r: bool)
    ensures
        r == (a@ == b@),
{
    if a.len() != b.len() {
        return false;
    }
    let mut i: usize = 0;
    while i < a.len()
        invariant
            i <= a@.len(),
            a@.len() == b@.len(),
            forall|j: int| 0 <= j < i ==> a@[j] == b@[j],
        decreases a@.len() - i,
    {
        if a[i] != b[i] {
            return false;
        }
        i += 1;
    }
    proof {
        assert(a@ =~= b@);
    }
    true
}

/// A structural copy of a name.
pub fn name_clone(a: &Name) -> (r: Name)
    ensures
        r@ == a@,
{
    let mut out: Name = Vec::new();
    let mut i: usize = 0;
    while i < a.len()
        invariant
            i <= a@.len(),
            out@ == a@.subrange(0, i as int),
        decreases a@.len() - i,
    {
        out.push(a[i]);
        i += 1;
    }
    proof {
        assert(a@.subrange(0, a@.len() as int) =~= a@);
    }
    out
}

/// A node of the surface syntax tree.
#[derive(Debug)]
pub enum Node {
    Name(Name),
    Literal(Literal),
    PrimFn(Prim),
    BinaryOp(BinOp, Box<Located<Node>>, Box<Located<Node>>),
    UnaryOp(UnOp, Box<Located<Node>>),
    Cond(Branch, Vec<Branch>, Located<Block>),
    Call(Box<Located<Node>>, Vec<Located<Node>>),
    LetBind(Located<Name>, Option<Located<Ty>>, Box<Located<Node>>),
    FnDef(Option<Located<Name>>, Vec<Located<Binding>>, Located<Block>, Option<Located<Ty>>),
}

} // verus!
