//! The nameless (de Bruijn) representation consumed by the evaluator, and
//! the lowering from MIR to it: a name stack replaces each variable by its
//! distance to the binder that introduced it.
use vstd::prelude::*;

use crate::ast::{name_eq, BinOp, Literal, Located, Location, Name, Prim, UnOp};
use crate::mir;
use crate::mir::{LowerError, LowerResult};

verus! {

/// The kind of a let binding, with the annotations gone.
#[derive(Clone, Copy, PartialEq, Eq, Structural, Debug)]
pub enum LetKind {
    NonRec,
    Rec,
}

/// A term of the nameless representation; `Var(i)` refers to the `i`-th
/// enclosing binder, `0` being the innermost.
#[derive(Debug)]
pub enum Term {
    Lit(Literal),
    Var(usize),
    PrimFn(Prim),
    BinaryOp(BinOp, Box<Located<Term>>, Box<Located<Term>>),
    UnaryOp(UnOp, Box<Located<Term>>),
    Cond(Box<Located<Term>>, Box<Located<Term>>, Box<Located<Term>>),
    App(Box<Located<Term>>, Box<Located<Term>>),
    Abs(Box<Located<Term>>),
    Let(LetKind, Box<Located<Term>>, Box<Located<Term>>),
    Sequence(Box<Located<Term>>, Box<Located<Term>>),
}

/// The de Bruijn index a name resolves to: its distance to the top of the
/// name stack, `None` when the stack does not hold the name.
pub open spec fn find_depth(stack: Seq<Name>, n: Seq<char>) -> Option<int>
    decreases stack.len(),
{
    if stack.len() == 0 {
        None
    } else if stack.last()@ == n {
        Some(0int)
    } else {
        match find_depth(stack.drop_last(), n) {
            None => None,
            Some(d) => Some(d + 1),
        }
    }
}

/// What lowering a MIR term under a name stack returns.
pub open spec fn lower_term_spec(t: Located<mir::Term>, stack: Seq<Name>) -> LowerResult<
    Located<Term>,
>
    decreases t,
{
    let loc = t.loc;
    match t.content {
        mir::Term::Lit(l) => Ok(Located { content: Term::Lit(l), loc }),
        mir::Term::PrimFn(p) => Ok(Located { content: Term::PrimFn(p), loc }),
        mir::Term::Var(n) => match find_depth(stack, n@) {
            Some(d) => Ok(Located { content: Term::Var(d as usize), loc }),
            None => Err(LowerError::Unbound(n, loc)),
        },
        mir::Term::BinaryOp(op, a, b) => match lower_term_spec(*a, stack) {
            Err(e) => Err(e),
            Ok(t1) => match lower_term_spec(*b, stack) {
                Err(e) => Err(e),
                Ok(t2) => Ok(
                    Located { content: Term::BinaryOp(op, Box::new(t1), Box::new(t2)), loc },
                ),
            },
        },
        mir::Term::UnaryOp(op, a) => match lower_term_spec(*a, stack) {
            Err(e) => Err(e),
            Ok(t1) => Ok(Located { content: Term::UnaryOp(op, Box::new(t1)), loc }),
        },
        mir::Term::Cond(c, th, el) => match lower_term_spec(*c, stack) {
            Err(e) => Err(e),
            Ok(tc) => match lower_term_spec(*th, stack) {
                Err(e) => Err(e),
                Ok(tt) => match lower_term_spec(*el, stack) {
                    Err(e) => Err(e),
                    Ok(te) => Ok(
                        Located {
                            content: Term::Cond(Box::new(tc), Box::new(tt), Box::new(te)),
                            loc,
                        },
                    ),
                },
            },
        },
        mir::Term::App(f, x) => match lower_term_spec(*f, stack) {
            Err(e) => Err(e),
            Ok(tf) => match lower_term_spec(*x, stack) {
                Err(e) => Err(e),
                Ok(tx) => Ok(Located { content: Term::App(Box::new(tf), Box::new(tx)), loc }),
            },
        },
        mir::Term::Abs(bind, body) => match lower_term_spec(*body, stack.push(bind.name)) {
            Err(e) => Err(e),
            Ok(tb) => Ok(Located { content: Term::Abs(Box::new(tb)), loc }),
        },
        mir::Term::Let(kind, name, v, body) => match kind {
            mir::LetKind::NonRec(_) => match lower_term_spec(*v, stack) {
                Err(e) => Err(e),
                Ok(tv) => match lower_term_spec(*body, stack.push(name.content)) {
                    Err(e) => Err(e),
                    Ok(tb) => Ok(
                        Located {
                            content: Term::Let(LetKind::NonRec, Box::new(tv), Box::new(tb)),
                            loc,
                        },
                    ),
                },
            },
            mir::LetKind::Rec(_) => match lower_term_spec(*v, stack.push(name.content)) {
                Err(e) => Err(e),
                Ok(tv) => match lower_term_spec(*body, stack.push(name.content)) {
                    Err(e) => Err(e),
                    Ok(tb) => Ok(
                        Located {
                            content: Term::Let(LetKind::Rec, Box::new(tv), Box::new(tb)),
                            loc,
                        },
                    ),
                },
            },
        },
        mir::Term::Sequence(a, b) => match lower_term_spec(*a, stack) {
            Err(e) => Err(e),
            Ok(t1) => match lower_term_spec(*b, stack) {
                Err(e) => Err(e),
                Ok(t2) => Ok(
                    Located { content: Term::Sequence(Box::new(t1), Box::new(t2)), loc },
                ),
            },
        },
    }
}

/// Well-scopedness of a nameless term: every `Var(i)` satisfies `i < depth`,
/// each binder adding one to the depth below it.
pub open spec fn closed_at(t: Located<Term>, depth: int) -> bool
    decreases t,
{
    match t.content {
        Term::Lit(_) => true,
        Term::PrimFn(_) => true,
        Term::Var(i) => i < depth,
        Term::BinaryOp(_, a, b) => closed_at(*a, depth) && closed_at(*b, depth),
        Term::UnaryOp(_, a) => closed_at(*a, depth),
        Term::Cond(c, th, el) => closed_at(*c, depth) && closed_at(*th, depth) && closed_at(
            *el,
            depth,
        ),
        Term::App(f, x) => closed_at(*f, depth) && closed_at(*x, depth),
        Term::Abs(b) => closed_at(*b, depth + 1),
        Term::Let(LetKind::NonRec, v, b) => closed_at(*v, depth) && closed_at(*b, depth + 1),
        Term::Let(LetKind::Rec, v, b) => closed_at(*v, depth + 1) && closed_at(*b, depth + 1),
        Term::Sequence(a, b) => closed_at(*a, depth) && closed_at(*b, depth),
    }
}

/// Well-boundness of a MIR term under a name stack: every free variable is
/// a name the stack holds, binders pushing their name for their scope.
pub open spec fn term_bound(t: Located<mir::Term>, stack: Seq<Name>) -> bool
    decreases t,
{
    match t.content {
        mir::Term::Lit(_) => true,
        mir::Term::PrimFn(_) => true,
        mir::Term::Var(n) => find_depth(stack, n@) is Some,
        mir::Term::BinaryOp(_, a, b) => term_bound(*a, stack) && term_bound(*b, stack),
        mir::Term::UnaryOp(_, a) => term_bound(*a, stack),
        mir::Term::Cond(c, th, el) => term_bound(*c, stack) && term_bound(*th, stack) && term_bound(
            *el,
            stack,
        ),
        mir::Term::App(f, x) => term_bound(*f, stack) && term_bound(*x, stack),
        mir::Term::Abs(bind, body) => term_bound(*body, stack.push(bind.name)),
        mir::Term::Let(kind, name, v, body) => (match kind {
            mir::LetKind::NonRec(_) => term_bound(*v, stack),
            mir::LetKind::Rec(_) => term_bound(*v, stack.push(name.content)),
        }) && term_bound(*body, stack.push(name.content)),
        mir::Term::Sequence(a, b) => term_bound(*a, stack) && term_bound(*b, stack),
    }
}

/// A name found in the stack resolves to an index below the stack's length.
proof fn lemma_find_depth_in_range(stack: Seq<Name>, n: Seq<char>)
    ensures
        match find_depth(stack, n) {
            Some(d) => 0 <= d < stack.len(),
            None => true,
        },
    decreases stack.len(),
{
    if stack.len() > 0 && stack.last()@ != n {
        lemma_find_depth_in_range(stack.drop_last(), n);
    }
}

/// Scope preservation: a term lowered under a name stack is well-scoped at
/// the stack's depth, so every `Var(i)` satisfies `i < depth` where it occurs.
pub proof fn lemma_lower_scope(t: Located<mir::Term>, stack: Seq<Name>)
    ensures
        match lower_term_spec(t, stack) {
            Ok(l) => closed_at(l, stack.len() as int),
            Err(_) => true,
        },
    decreases t,
{
    match t.content {
        mir::Term::Lit(_) => {},
        mir::Term::PrimFn(_) => {},
        mir::Term::Var(n) => {
            lemma_find_depth_in_range(stack, n@);
        },
        mir::Term::BinaryOp(_op, a, b) => {
            lemma_lower_scope(*a, stack);
            lemma_lower_scope(*b, stack);
        },
        mir::Term::UnaryOp(_op, a) => {
            lemma_lower_scope(*a, stack);
        },
        mir::Term::Cond(c, th, el) => {
            lemma_lower_scope(*c, stack);
            lemma_lower_scope(*th, stack);
            lemma_lower_scope(*el, stack);
        },
        mir::Term::App(f, x) => {
            lemma_lower_scope(*f, stack);
            lemma_lower_scope(*x, stack);
        },
        mir::Term::Abs(bind, body) => {
            lemma_lower_scope(*body, stack.push(bind.name));
        },
        mir::Term::Let(kind, name, v, body) => {
            match kind {
                mir::LetKind::NonRec(_) => {
                    lemma_lower_scope(*v, stack);
                },
                mir::LetKind::Rec(_) => {
                    lemma_lower_scope(*v, stack.push(name.content));
                },
            }
            lemma_lower_scope(*body, stack.push(name.content));
        },
        mir::Term::Sequence(a, b) => {
            lemma_lower_scope(*a, stack);
            lemma_lower_scope(*b, stack);
        },
    }
}

/// No unbound names: a MIR term whose names are all bound under the stack
/// lowers without an `Unbound` error (and lowering can fail in no other way).
pub proof fn lemma_lower_no_unbound(t: Located<mir::Term>, stack: Seq<Name>)
    requires
        term_bound(t, stack),
    ensures
        lower_term_spec(t, stack) is Ok,
    decreases t,
{
    match t.content {
        mir::Term::Lit(_) => {},
        mir::Term::PrimFn(_) => {},
        mir::Term::Var(_n) => {},
        mir::Term::BinaryOp(_op, a, b) => {
            lemma_lower_no_unbound(*a, stack);
            lemma_lower_no_unbound(*b, stack);
        },
        mir::Term::UnaryOp(_op, a) => {
            lemma_lower_no_unbound(*a, stack);
        },
        mir::Term::Cond(c, th, el) => {
            lemma_lower_no_unbound(*c, stack);
            lemma_lower_no_unbound(*th, stack);
            lemma_lower_no_unbound(*el, stack);
        },
        mir::Term::App(f, x) => {
            lemma_lower_no_unbound(*f, stack);
            lemma_lower_no_unbound(*x, stack);
        },
        mir::Term::Abs(bind, body) => {
            lemma_lower_no_unbound(*body, stack.push(bind.name));
        },
        mir::Term::Let(kind, name, v, body) => {
            match kind {
                mir::LetKind::NonRec(_) => {
                    lemma_lower_no_unbound(*v, stack);
                },
                mir::LetKind::Rec(_) => {
                    lemma_lower_no_unbound(*v, stack.push(name.content));
                },
            }
            lemma_lower_no_unbound(*body, stack.push(name.content));
        },
        mir::Term::Sequence(a, b) => {
            lemma_lower_no_unbound(*a, stack);
            lemma_lower_no_unbound(*b, stack);
        },
    }
}

/// Resolves a name to its de Bruijn index from the top of the stack.
#[verifier::loop_isolation(false)]
fn find_in_stack(stack: &Vec<Name>, n: &Name) -> (r: Option<usize>)
    ensures
        match r {
            Some(d) => find_depth(stack@, n@) == Some(d as int),
            None => find_depth(stack@, n@) is None,
        },
{
    let mut j = stack.len();
    proof {
        assert(stack@.subrange(0, stack@.len() as int) =~= stack@);
    }
    while j > 0
        invariant
            j <= stack@.len(),
            find_depth(stack@, n@) == match find_depth(stack@.subrange(0, j as int), n@) {
                None => None::<int>,
                Some(d) => Some(d + (stack@.len() - j)),
            },
        decreases j,
    {
        proof {
            assert(stack@.subrange(0, j as int).last() == stack@[j - 1]);
            assert(stack@.subrange(0, j as int).drop_last() =~= stack@.subrange(0, j - 1));
        }
        if name_eq(&stack[j - 1], n) {
            let d = stack.len() - j;
            proof {
                lemma_find_depth_in_range(stack@, n@);
            }
            return Some(d);
        }
        j -= 1;
    }
    proof {
        assert(stack@.subrange(0, 0) =~= Seq::<Name>::empty());
    }
    None
}

/// Lowers a MIR term to the nameless form under the given name stack; the
/// stack is restored on return.
pub fn lower_term(t: Located<mir::Term>, stack: &mut Vec<Name>) -> (r: LowerResult<Located<Term>>)
    ensures
        r == lower_term_spec(t, old(stack)@),
        final(stack)@ == old(stack)@,
    decreases t,
{
    let ghost t0 = t;
    let Located { content, loc } = t;
    match content {
        mir::Term::Lit(l) => Ok(Located::new(Term::Lit(l), loc)),
        mir::Term::PrimFn(p) => Ok(Located::new(Term::PrimFn(p), loc)),
        mir::Term::Var(n) => match find_in_stack(stack, &n) {
            Some(d) => Ok(Located::new(Term::Var(d), loc)),
            None => Err(LowerError::Unbound(n, loc)),
        },
        mir::Term::BinaryOp(op, a, b) => {
            let t1 = match lower_term(*a, stack) {
                Ok(x) => x,
                Err(e) => { return Err(e) },
            };
            let t2 = match lower_term(*b, stack) {
                Ok(x) => x,
                Err(e) => { return Err(e) },
            };
            Ok(Located::new(Term::BinaryOp(op, Box::new(t1), Box::new(t2)), loc))
        },
        mir::Term::UnaryOp(op, a) => {
            let t1 = match lower_term(*a, stack) {
                Ok(x) => x,
                Err(e) => { return Err(e) },
            };
            Ok(Located::new(Term::UnaryOp(op, Box::new(t1)), loc))
        },
        mir::Term::Cond(c, th, el) => {
            let tc = match lower_term(*c, stack) {
                Ok(x) => x,
                Err(e) => { return Err(e) },
            };
            let tt = match lower_term(*th, stack) {
                Ok(x) => x,
                Err(e) => { return Err(e) },
            };
            let te = match lower_term(*el, stack) {
                Ok(x) => x,
                Err(e) => { return Err(e) },
            };
            Ok(Located::new(Term::Cond(Box::new(tc), Box::new(tt), Box::new(te)), loc))
        },
        mir::Term::App(f, x) => {
            let tf = match lower_term(*f, stack) {
                Ok(y) => y,
                Err(e) => { return Err(e) },
            };
            let tx = match lower_term(*x, stack) {
                Ok(y) => y,
                Err(e) => { return Err(e) },
            };
            Ok(Located::new(Term::App(Box::new(tf), Box::new(tx)), loc))
        },
        mir::Term::Abs(bind, body) => {
            stack.push(bind.name);
            let tb = match lower_term(*body, stack) {
                Ok(x) => x,
                Err(e) => {
                    stack.pop();
                    proof {
                        assert(stack@ =~= old(stack)@);
                    }
                    return Err(e);
                },
            };
            stack.pop();
            proof {
                assert(stack@ =~= old(stack)@);
            }
            Ok(Located::new(Term::Abs(Box::new(tb)), loc))
        },
        mir::Term::Let(kind, name, v, body) => {
            let (kind2, tv, name_vec) = match kind {
                mir::LetKind::NonRec(_ann) => {
                    let tv = match lower_term(*v, stack) {
                        Ok(x) => x,
                        Err(e) => { return Err(e) },
                    };
                    (LetKind::NonRec, tv, name.content)
                },
                mir::LetKind::Rec(_ann) => {
                    stack.push(name.content);
                    let tv = match lower_term(*v, stack) {
                        Ok(x) => x,
                        Err(e) => {
                            stack.pop();
                            proof {
                                assert(stack@ =~= old(stack)@);
                            }
                            return Err(e);
                        },
                    };
                    let name_back = match stack.pop() {
                        Some(x) => x,
                        None => unreached(),
                    };
                    proof {
                        assert(stack@ =~= old(stack)@);
                    }
                    (LetKind::Rec, tv, name_back)
                },
            };
            stack.push(name_vec);
            let tb = match lower_term(*body, stack) {
                Ok(x) => x,
                Err(e) => {
                    stack.pop();
                    proof {
                        assert(stack@ =~= old(stack)@);
                    }
                    return Err(e);
                },
            };
            stack.pop();
            proof {
                assert(stack@ =~= old(stack)@);
            }
            Ok(Located::new(Term::Let(kind2, Box::new(tv), Box::new(tb)), loc))
        },
        mir::Term::Sequence(a, b) => {
            let t1 = match lower_term(*a, stack) {
                Ok(x) => x,
                Err(e) => { return Err(e) },
            };
            let t2 = match lower_term(*b, stack) {
                Ok(x) => x,
                Err(e) => { return Err(e) },
            };
            Ok(Located::new(Term::Sequence(Box::new(t1), Box::new(t2)), loc))
        },
    }
}

/// Lowers a whole program: a closed MIR term, under the empty name stack.
pub fn lower_program(t: Located<mir::Term>) -> (r: LowerResult<Located<Term>>)
    ensures
        r == lower_term_spec(t, Seq::<Name>::empty()),
        r matches Ok(l) ==> closed_at(l, 0),
{
    let mut stack: Vec<Name> = Vec::new();
    let r = lower_term(t, &mut stack);
    proof {
        lemma_lower_scope(t, Seq::<Name>::empty());
    }
    r
}

} // verus!
