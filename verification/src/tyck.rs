//! The type-checker: constraint generation over MIR under a typing context,
//! then first-order unification with an occurs check.
use vstd::prelude::*;

use crate::ast::{name_clone, name_eq, BinOp, Literal, Located, Location, Name, UnOp};
use crate::mir;
use crate::ty::Ty;

verus! {

/// An error raised by the type-checker.
#[derive(Debug)]
pub enum TyError {
    /// Two types that must be equal differ: the one dictated by the operator
    /// or context, and the one found at the given span.
    Mismatch { expected: Ty, found: Located<Ty> },
    /// The occurs check failed: a variable would have to contain itself.
    RecursiveType(usize, Location),
    /// A name that no enclosing binder introduces.
    Unbound(Name, Location),
    /// The pool of fresh unification variables is exhausted; out of reach
    /// for any program that fits in memory.
    VarLimit(Location),
}

/// An equality constraint between the type dictated by an operator or
/// context and the type found at a span.
#[derive(Debug)]
pub struct Constraint {
    pub expected: Ty,
    pub found: Ty,
    pub loc: Location,
}

/// Operators whose operands and result are integers.
pub open spec fn bin_arith(op: BinOp) -> bool {
    op == BinOp::Add || op == BinOp::Sub || op == BinOp::Mul || op == BinOp::Div || op
        == BinOp::Rem || op == BinOp::BitAnd || op == BinOp::BitOr || op == BinOp::BitXor || op
        == BinOp::Shl || op == BinOp::Shr
}

/// Operators whose operands and result are booleans.
pub open spec fn bin_logic(op: BinOp) -> bool {
    op == BinOp::And || op == BinOp::Or
}

/// Operators comparing integers, with a boolean result.
pub open spec fn bin_cmp(op: BinOp) -> bool {
    op == BinOp::Lt || op == BinOp::Gt || op == BinOp::Lte || op == BinOp::Gte
}

/// The type a name resolves to: the innermost binding wins.
pub open spec fn ctx_find(ctx: Seq<(Seq<char>, Ty)>, n: Seq<char>) -> Option<Ty>
    decreases ctx.len(),
{
    if ctx.len() == 0 {
        None
    } else if ctx.last().0 == n {
        Some(ctx.last().1)
    } else {
        ctx_find(ctx.drop_last(), n)
    }
}

/// The view of a typing context: each name replaced by its characters.
pub open spec fn ctx_view(ctx: Seq<(Name, Ty)>) -> Seq<(Seq<char>, Ty)> {
    ctx.map_values(|p: (Name, Ty)| (p.0@, p.1))
}

/// What constraint generation returns on a term under a context, with
/// `next` the first unused variable index: the inferred type, the next
/// counter, and the emitted constraints in order.
pub open spec fn infer_spec(ctx: Seq<(Seq<char>, Ty)>, t: Located<mir::Term>, next: nat) -> Result<
    (Ty, nat, Seq<Constraint>),
    TyError,
>
    decreases t,
{
    let loc = t.loc;
    match t.content {
        mir::Term::Lit(Literal::Bool(_)) => Ok((Ty::Bool, next, Seq::empty())),
        mir::Term::Lit(Literal::Int(_)) => Ok((Ty::Int, next, Seq::empty())),
        mir::Term::Lit(Literal::Unit) => Ok((Ty::Unit, next, Seq::empty())),
        mir::Term::Var(n) => match ctx_find(ctx, n@) {
            Some(ty) => Ok((ty, next, Seq::empty())),
            None => Err(TyError::Unbound(n, loc)),
        },
        mir::Term::PrimFn(_) => if next < usize::MAX as nat {
            Ok(
                (
                    Ty::Arrow(Box::new(Ty::Var(next as usize)), Box::new(Ty::Unit)),
                    next + 1,
                    Seq::empty(),
                ),
            )
        } else {
            Err(TyError::VarLimit(loc))
        },
        mir::Term::BinaryOp(op, a, b) => match infer_spec(ctx, *a, next) {
            Err(e) => Err(e),
            Ok((ta, n1, ca)) => match infer_spec(ctx, *b, n1) {
                Err(e) => Err(e),
                Ok((tb, n2, cb)) => if bin_arith(op) {
                    Ok(
                        (
                            Ty::Int,
                            n2,
                            ca + cb + seq![
                                Constraint { expected: Ty::Int, found: ta, loc: a.loc },
                                Constraint { expected: Ty::Int, found: tb, loc: b.loc },
                            ],
                        ),
                    )
                } else if bin_logic(op) {
                    Ok(
                        (
                            Ty::Bool,
                            n2,
                            ca + cb + seq![
                                Constraint { expected: Ty::Bool, found: ta, loc: a.loc },
                                Constraint { expected: Ty::Bool, found: tb, loc: b.loc },
                            ],
                        ),
                    )
                } else if bin_cmp(op) {
                    Ok(
                        (
                            Ty::Bool,
                            n2,
                            ca + cb + seq![
                                Constraint { expected: Ty::Int, found: ta, loc: a.loc },
                                Constraint { expected: Ty::Int, found: tb, loc: b.loc },
                            ],
                        ),
                    )
                } else {
                    Ok(
                        (
                            Ty::Bool,
                            n2,
                            ca + cb + seq![Constraint { expected: ta, found: tb, loc: b.loc }],
                        ),
                    )
                },
            },
        },
        mir::Term::UnaryOp(op, a) => match infer_spec(ctx, *a, next) {
            Err(e) => Err(e),
            Ok((ta, n1, ca)) => match op {
                UnOp::Neg => Ok(
                    (
                        Ty::Int,
                        n1,
                        ca + seq![Constraint { expected: Ty::Int, found: ta, loc: a.loc }],
                    ),
                ),
                UnOp::Not => Ok(
                    (
                        Ty::Bool,
                        n1,
                        ca + seq![Constraint { expected: Ty::Bool, found: ta, loc: a.loc }],
                    ),
                ),
            },
        },
        mir::Term::Cond(c, th, el) => match infer_spec(ctx, *c, next) {
            Err(e) => Err(e),
            Ok((tc, n1, cc)) => match infer_spec(ctx, *th, n1) {
                Err(e) => Err(e),
                Ok((tt, n2, ct)) => match infer_spec(ctx, *el, n2) {
                    Err(e) => Err(e),
                    Ok((te, n3, ce)) => Ok(
                        (
                            tt,
                            n3,
                            cc + ct + ce + seq![
                                Constraint { expected: Ty::Bool, found: tc, loc: c.loc },
                                Constraint { expected: tt, found: te, loc: el.loc },
                            ],
                        ),
                    ),
                },
            },
        },
        mir::Term::App(f, x) => match infer_spec(ctx, *f, next) {
            Err(e) => Err(e),
            Ok((tf, n1, cf)) => match infer_spec(ctx, *x, n1) {
                Err(e) => Err(e),
                Ok((tx, n2, cx)) => if n2 < usize::MAX as nat {
                    Ok(
                        (
                            Ty::Var(n2 as usize),
                            n2 + 1,
                            cf + cx + seq![
                                Constraint {
                                    expected: tf,
                                    found: Ty::Arrow(
                                        Box::new(tx),
                                        Box::new(Ty::Var(n2 as usize)),
                                    ),
                                    loc: x.loc,
                                },
                            ],
                        ),
                    )
                } else {
                    Err(TyError::VarLimit(loc))
                },
            },
        },
        mir::Term::Abs(bind, body) => match infer_spec(
            ctx.push((bind.name@, bind.ty)),
            *body,
            next,
        ) {
            Err(e) => Err(e),
            Ok((tb, n1, cb)) => Ok((Ty::Arrow(Box::new(bind.ty), Box::new(tb)), n1, cb)),
        },
        mir::Term::Let(kind, name, v, body) => match kind {
            mir::LetKind::NonRec(opt_ty) => match infer_spec(ctx, *v, next) {
                Err(e) => Err(e),
                Ok((tv, n1, cv)) => {
                    let ann = match opt_ty {
                        Some(lt) => seq![
                            Constraint { expected: lt.content, found: tv, loc: v.loc },
                        ],
                        None => Seq::empty(),
                    };
                    match infer_spec(ctx.push((name.content@, tv)), *body, n1) {
                        Err(e) => Err(e),
                        Ok((tb, n2, cb)) => Ok((tb, n2, cv + ann + cb)),
                    }
                },
            },
            mir::LetKind::Rec(lt) => match infer_spec(
                ctx.push((name.content@, lt.content)),
                *v,
                next,
            ) {
                Err(e) => Err(e),
                Ok((tv, n1, cv)) => match infer_spec(
                    ctx.push((name.content@, lt.content)),
                    *body,
                    n1,
                ) {
                    Err(e) => Err(e),
                    Ok((tb, n2, cb)) => Ok(
                        (
                            tb,
                            n2,
                            cv + seq![
                                Constraint { expected: lt.content, found: tv, loc: v.loc },
                            ] + cb,
                        ),
                    ),
                },
            },
        },
        mir::Term::Sequence(a, b) => match infer_spec(ctx, *a, next) {
            Err(e) => Err(e),
            Ok((ta, n1, ca)) => match infer_spec(ctx, *b, n1) {
                Err(e) => Err(e),
                Ok((tb, n2, cb)) => Ok(
                    (
                        tb,
                        n2,
                        ca + seq![Constraint { expected: Ty::Unit, found: ta, loc: a.loc }] + cb,
                    ),
                ),
            },
        },
    }
}

/// Equality of type errors up to the identity of name buffers: the same
/// kind, the same payload, names compared by their characters.
pub open spec fn ty_err_eq(a: TyError, b: TyError) -> bool {
    match (a, b) {
        (TyError::Unbound(n1, l1), TyError::Unbound(n2, l2)) => n1@ == n2@ && l1 == l2,
        _ => a == b,
    }
}

/// Resolves a name in the typing context, innermost binding first.
#[verifier::loop_isolation(false)]
fn ctx_lookup(ctx: &Vec<(Name, Ty)>, n: &Name) -> (r: Option<Ty>)
    ensures
        r == ctx_find(ctx_view(ctx@), n@),
{
    let ghost v = ctx_view(ctx@);
    let mut j = ctx.len();
    proof {
        assert(v.subrange(0, v.len() as int) =~= v);
    }
    while j > 0
        invariant
            j <= ctx@.len(),
            ctx_find(v, n@) == ctx_find(v.subrange(0, j as int), n@),
        decreases j,
    {
        proof {
            assert(v.subrange(0, j as int).last() == v[j - 1]);
            assert(v.subrange(0, j as int).drop_last() =~= v.subrange(0, j - 1));
            assert(v[j - 1] == (ctx@[j - 1].0@, ctx@[j - 1].1));
        }
        if name_eq(&ctx[j - 1].0, n) {
            return Some(ctx[j - 1].1.duplicate());
        }
        j -= 1;
    }
    proof {
        assert(v.subrange(0, 0) =~= Seq::<(Seq<char>, Ty)>::empty());
    }
    None
}

/// Generates the typing constraints of a term; mirrors `infer_spec`. The
/// context is restored on return; the emitted constraints are appended to
/// `cons` and the fresh-variable counter is advanced.
pub fn infer(
    ctx: &mut Vec<(Name, Ty)>,
    t: &Located<mir::Term>,
    next: &mut usize,
    cons: &mut Vec<Constraint>,
) -> (r: Result<Ty, TyError>)
    ensures
        final(ctx)@ == old(ctx)@,
        match infer_spec(ctx_view(old(ctx)@), *t, *old(next) as nat) {
            Ok(p) => r == Ok::<Ty, TyError>(p.0) && *final(next) as nat == p.1 && final(cons)@
                == old(cons)@ + p.2,
            Err(e) => r matches Err(e2) && ty_err_eq(e2, e),
        },
    decreases *t, 1int,
{
    let ghost v0 = ctx_view(old(ctx)@);
    let ghost n0 = *old(next) as nat;
    let loc = t.loc;
    match &t.content {
        mir::Term::Lit(Literal::Bool(_)) => {
            proof {
                assert(cons@ =~= old(cons)@ + Seq::<Constraint>::empty());
            }
            Ok(Ty::Bool)
        },
        mir::Term::Lit(Literal::Int(_)) => {
            proof {
                assert(cons@ =~= old(cons)@ + Seq::<Constraint>::empty());
            }
            Ok(Ty::Int)
        },
        mir::Term::Lit(Literal::Unit) => {
            proof {
                assert(cons@ =~= old(cons)@ + Seq::<Constraint>::empty());
            }
            Ok(Ty::Unit)
        },
        mir::Term::Var(n) => match ctx_lookup(ctx, n) {
            Some(ty) => {
                proof {
                    assert(cons@ =~= old(cons)@ + Seq::<Constraint>::empty());
                }
                Ok(ty)
            },
            None => Err(TyError::Unbound(name_clone(n), loc)),
        },
        mir::Term::PrimFn(_) => {
            if *next == usize::MAX {
                return Err(TyError::VarLimit(loc));
            }
            let a = *next;
            *next = a + 1;
            proof {
                assert(cons@ =~= old(cons)@ + Seq::<Constraint>::empty());
            }
            Ok(Ty::Arrow(Box::new(Ty::Var(a)), Box::new(Ty::Unit)))
        },
        mir::Term::BinaryOp(op, a, b) => infer_binop(ctx, *op, a, b, loc, next, cons),
        mir::Term::UnaryOp(op, a) => infer_unop(ctx, *op, a, loc, next, cons),
        mir::Term::Cond(c, th, el) => infer_cond(ctx, c, th, el, loc, next, cons),
        mir::Term::App(f, x) => infer_app(ctx, f, x, loc, next, cons),
        mir::Term::Abs(bind, body) => infer_abs(ctx, bind, body, loc, next, cons),
        mir::Term::Let(kind, name, value, body) => match kind {
            mir::LetKind::NonRec(opt_ty) => infer_let_nonrec(
                ctx,
                opt_ty,
                name,
                value,
                body,
                loc,
                next,
                cons,
            ),
            mir::LetKind::Rec(lt) => infer_let_rec(ctx, lt, name, value, body, loc, next, cons),
        },
        mir::Term::Sequence(a, b) => infer_seq(ctx, a, b, loc, next, cons),
    }
}

/// Constraints of a binary operation: both operands first, then the
/// operand typings the operator class dictates.
fn infer_binop(
    ctx: &mut Vec<(Name, Ty)>,
    op: BinOp,
    a: &Located<mir::Term>,
    b: &Located<mir::Term>,
    loc: Location,
    next: &mut usize,
    cons: &mut Vec<Constraint>,
) -> (r: Result<Ty, TyError>)
    ensures
        final(ctx)@ == old(ctx)@,
        match infer_spec(
            ctx_view(old(ctx)@),
            (Located { content: mir::Term::BinaryOp(op, Box::new(*a), Box::new(*b)), loc }),
            *old(next) as nat,
        ) {
            Ok(p) => r == Ok::<Ty, TyError>(p.0) && *final(next) as nat == p.1 && final(cons)@
                == old(cons)@ + p.2,
            Err(e) => r matches Err(e2) && ty_err_eq(e2, e),
        },
    decreases (Located { content: mir::Term::BinaryOp(op, Box::new(*a), Box::new(*b)), loc }), 0int,
{
    let ghost v0 = ctx_view(old(ctx)@);
    let ghost n0 = *old(next) as nat;
    let ghost node = Located { content: mir::Term::BinaryOp(op, Box::new(*a), Box::new(*b)), loc };
    let ta = match infer(ctx, a, next, cons) {
        Ok(x) => x,
        Err(e) => { return Err(e) },
    };
    let tb = match infer(ctx, b, next, cons) {
        Ok(x) => x,
        Err(e) => { return Err(e) },
    };
    let ty = if matches!(op, BinOp::Add | BinOp::Sub | BinOp::Mul | BinOp::Div | BinOp::Rem
        | BinOp::BitAnd | BinOp::BitOr | BinOp::BitXor | BinOp::Shl | BinOp::Shr) {
        cons.push(Constraint { expected: Ty::Int, found: ta, loc: a.loc });
        cons.push(Constraint { expected: Ty::Int, found: tb, loc: b.loc });
        Ty::Int
    } else if matches!(op, BinOp::And | BinOp::Or) {
        cons.push(Constraint { expected: Ty::Bool, found: ta, loc: a.loc });
        cons.push(Constraint { expected: Ty::Bool, found: tb, loc: b.loc });
        Ty::Bool
    } else if matches!(op, BinOp::Lt | BinOp::Gt | BinOp::Lte | BinOp::Gte) {
        cons.push(Constraint { expected: Ty::Int, found: ta, loc: a.loc });
        cons.push(Constraint { expected: Ty::Int, found: tb, loc: b.loc });
        Ty::Bool
    } else {
        cons.push(Constraint { expected: ta, found: tb, loc: b.loc });
        Ty::Bool
    };
    proof {
        match infer_spec(v0, node, n0) {
            Ok(p) => {
                assert(cons@ =~= old(cons)@ + p.2);
            },
            Err(_) => {},
        }
    }
    Ok(ty)
}

/// Constraints of a unary operation.
fn infer_unop(
    ctx: &mut Vec<(Name, Ty)>,
    op: UnOp,
    a: &Located<mir::Term>,
    loc: Location,
    next: &mut usize,
    cons: &mut Vec<Constraint>,
) -> (r: Result<Ty, TyError>)
    ensures
        final(ctx)@ == old(ctx)@,
        match infer_spec(
            ctx_view(old(ctx)@),
            (Located { content: mir::Term::UnaryOp(op, Box::new(*a)), loc }),
            *old(next) as nat,
        ) {
            Ok(p) => r == Ok::<Ty, TyError>(p.0) && *final(next) as nat == p.1 && final(cons)@
                == old(cons)@ + p.2,
            Err(e) => r matches Err(e2) && ty_err_eq(e2, e),
        },
    decreases (Located { content: mir::Term::UnaryOp(op, Box::new(*a)), loc }), 0int,
{
    let ghost v0 = ctx_view(old(ctx)@);
    let ghost n0 = *old(next) as nat;
    let ghost node = Located { content: mir::Term::UnaryOp(op, Box::new(*a)), loc };
    let ta = match infer(ctx, a, next, cons) {
        Ok(x) => x,
        Err(e) => { return Err(e) },
    };
    let ty = match op {
        UnOp::Neg => {
            cons.push(Constraint { expected: Ty::Int, found: ta, loc: a.loc });
            Ty::Int
        },
        UnOp::Not => {
            cons.push(Constraint { expected: Ty::Bool, found: ta, loc: a.loc });
            Ty::Bool
        },
    };
    proof {
        match infer_spec(v0, node, n0) {
            Ok(p) => {
                assert(cons@ =~= old(cons)@ + p.2);
            },
            Err(_) => {},
        }
    }
    Ok(ty)
}

/// Constraints of a conditional: the condition must be boolean and the two
/// branches must agree.
fn infer_cond(
    ctx: &mut Vec<(Name, Ty)>,
    c: &Located<mir::Term>,
    th: &Located<mir::Term>,
    el: &Located<mir::Term>,
    loc: Location,
    next: &mut usize,
    cons: &mut Vec<Constraint>,
) -> (r: Result<Ty, TyError>)
    ensures
        final(ctx)@ == old(ctx)@,
        match infer_spec(
            ctx_view(old(ctx)@),
            (Located {
                content: mir::Term::Cond(Box::new(*c), Box::new(*th), Box::new(*el)),
                loc,
            }),
            *old(next) as nat,
        ) {
            Ok(p) => r == Ok::<Ty, TyError>(p.0) && *final(next) as nat == p.1 && final(cons)@
                == old(cons)@ + p.2,
            Err(e) => r matches Err(e2) && ty_err_eq(e2, e),
        },
    decreases (Located {
        content: mir::Term::Cond(Box::new(*c), Box::new(*th), Box::new(*el)),
        loc,
    }), 0int,
{
    let ghost v0 = ctx_view(old(ctx)@);
    let ghost n0 = *old(next) as nat;
    let ghost node = Located {
        content: mir::Term::Cond(Box::new(*c), Box::new(*th), Box::new(*el)),
        loc,
    };
    let tc = match infer(ctx, c, next, cons) {
        Ok(x) => x,
        Err(e) => { return Err(e) },
    };
    let tt = match infer(ctx, th, next, cons) {
        Ok(x) => x,
        Err(e) => { return Err(e) },
    };
    let te = match infer(ctx, el, next, cons) {
        Ok(x) => x,
        Err(e) => { return Err(e) },
    };
    cons.push(Constraint { expected: Ty::Bool, found: tc, loc: c.loc });
    cons.push(Constraint { expected: tt.duplicate(), found: te, loc: el.loc });
    proof {
        match infer_spec(v0, node, n0) {
            Ok(p) => {
                assert(cons@ =~= old(cons)@ + p.2);
            },
            Err(_) => {},
        }
    }
    Ok(tt)
}

/// Constraints of an application: the callee must be an arrow from the
/// argument's type to a fresh unknown, which is the result.
fn infer_app(
    ctx: &mut Vec<(Name, Ty)>,
    f: &Located<mir::Term>,
    x: &Located<mir::Term>,
    loc: Location,
    next: &mut usize,
    cons: &mut Vec<Constraint>,
) -> (r: Result<Ty, TyError>)
    ensures
        final(ctx)@ == old(ctx)@,
        match infer_spec(
            ctx_view(old(ctx)@),
            (Located { content: mir::Term::App(Box::new(*f), Box::new(*x)), loc }),
            *old(next) as nat,
        ) {
            Ok(p) => r == Ok::<Ty, TyError>(p.0) && *final(next) as nat == p.1 && final(cons)@
                == old(cons)@ + p.2,
            Err(e) => r matches Err(e2) && ty_err_eq(e2, e),
        },
    decreases (Located { content: mir::Term::App(Box::new(*f), Box::new(*x)), loc }), 0int,
{
    let ghost v0 = ctx_view(old(ctx)@);
    let ghost n0 = *old(next) as nat;
    let ghost node = Located { content: mir::Term::App(Box::new(*f), Box::new(*x)), loc };
    let tf = match infer(ctx, f, next, cons) {
        Ok(y) => y,
        Err(e) => { return Err(e) },
    };
    let tx = match infer(ctx, x, next, cons) {
        Ok(y) => y,
        Err(e) => { return Err(e) },
    };
    if *next == usize::MAX {
        return Err(TyError::VarLimit(loc));
    }
    let a = *next;
    *next = a + 1;
    cons.push(
        Constraint {
            expected: tf,
            found: Ty::Arrow(Box::new(tx), Box::new(Ty::Var(a))),
            loc: x.loc,
        },
    );
    proof {
        match infer_spec(v0, node, n0) {
            Ok(p) => {
                assert(cons@ =~= old(cons)@ + p.2);
            },
            Err(_) => {},
        }
    }
    Ok(Ty::Var(a))
}

/// Constraints of a lambda: the body is typed with the parameter bound to
/// its declared type, the result being the corresponding arrow.
fn infer_abs(
    ctx: &mut Vec<(Name, Ty)>,
    bind: &crate::ty::Binding,
    body: &Located<mir::Term>,
    loc: Location,
    next: &mut usize,
    cons: &mut Vec<Constraint>,
) -> (r: Result<Ty, TyError>)
    ensures
        final(ctx)@ == old(ctx)@,
        match infer_spec(
            ctx_view(old(ctx)@),
            (Located {
                content: mir::Term::Abs(
                    crate::ty::Binding { name: bind.name, ty: bind.ty },
                    Box::new(*body),
                ),
                loc,
            }),
            *old(next) as nat,
        ) {
            Ok(p) => r == Ok::<Ty, TyError>(p.0) && *final(next) as nat == p.1 && final(cons)@
                == old(cons)@ + p.2,
            Err(e) => r matches Err(e2) && ty_err_eq(e2, e),
        },
    decreases (Located {
        content: mir::Term::Abs(
            crate::ty::Binding { name: bind.name, ty: bind.ty },
            Box::new(*body),
        ),
        loc,
    }), 0int,
{
    let ghost v0 = ctx_view(old(ctx)@);
    let ghost n0 = *old(next) as nat;
    let ghost node = Located {
        content: mir::Term::Abs(
            crate::ty::Binding { name: bind.name, ty: bind.ty },
            Box::new(*body),
        ),
        loc,
    };
    ctx.push((name_clone(&bind.name), bind.ty.duplicate()));
    proof {
        assert(ctx_view(ctx@) =~= v0.push((bind.name@, bind.ty)));
    }
    let tb = match infer(ctx, body, next, cons) {
        Ok(y) => y,
        Err(e) => {
            ctx.pop();
            proof {
                assert(ctx@ =~= old(ctx)@);
            }
            return Err(e);
        },
    };
    ctx.pop();
    proof {
        assert(ctx@ =~= old(ctx)@);
        match infer_spec(v0, node, n0) {
            Ok(p) => {
                assert(cons@ =~= old(cons)@ + p.2);
            },
            Err(_) => {},
        }
    }
    Ok(Ty::Arrow(Box::new(bind.ty.duplicate()), Box::new(tb)))
}

/// Constraints of an ordinary let: the bound value is typed first, checked
/// against the annotation when one is given, and the body is typed with the
/// name bound to the inferred type.
fn infer_let_nonrec(
    ctx: &mut Vec<(Name, Ty)>,
    opt_ty: &Option<Located<Ty>>,
    name: &Located<Name>,
    value: &Located<mir::Term>,
    body: &Located<mir::Term>,
    loc: Location,
    next: &mut usize,
    cons: &mut Vec<Constraint>,
) -> (r: Result<Ty, TyError>)
    ensures
        final(ctx)@ == old(ctx)@,
        match infer_spec(
            ctx_view(old(ctx)@),
            (Located {
                content: mir::Term::Let(
                    mir::LetKind::NonRec(*opt_ty),
                    *name,
                    Box::new(*value),
                    Box::new(*body),
                ),
                loc,
            }),
            *old(next) as nat,
        ) {
            Ok(p) => r == Ok::<Ty, TyError>(p.0) && *final(next) as nat == p.1 && final(cons)@
                == old(cons)@ + p.2,
            Err(e) => r matches Err(e2) && ty_err_eq(e2, e),
        },
    decreases (Located {
        content: mir::Term::Let(
            mir::LetKind::NonRec(*opt_ty),
            *name,
            Box::new(*value),
            Box::new(*body),
        ),
        loc,
    }), 0int,
{
    let ghost v0 = ctx_view(old(ctx)@);
    let ghost n0 = *old(next) as nat;
    let ghost node = Located {
        content: mir::Term::Let(
            mir::LetKind::NonRec(*opt_ty),
            *name,
            Box::new(*value),
            Box::new(*body),
        ),
        loc,
    };
    let tv = match infer(ctx, value, next, cons) {
        Ok(y) => y,
        Err(e) => { return Err(e) },
    };
    if let Some(lt) = opt_ty {
        cons.push(
            Constraint {
                expected: lt.content.duplicate(),
                found: tv.duplicate(),
                loc: value.loc,
            },
        );
    }
    ctx.push((name_clone(&name.content), tv));
    proof {
        assert(ctx_view(ctx@) =~= v0.push((name.content@, ctx@.last().1)));
    }
    let tb = match infer(ctx, body, next, cons) {
        Ok(y) => y,
        Err(e) => {
            ctx.pop();
            proof {
                assert(ctx@ =~= old(ctx)@);
            }
            return Err(e);
        },
    };
    ctx.pop();
    proof {
        assert(ctx@ =~= old(ctx)@);
        match infer_spec(v0, node, n0) {
            Ok(p) => {
                assert(cons@ =~= old(cons)@ + p.2);
            },
            Err(_) => {},
        }
    }
    Ok(tb)
}

/// Constraints of a recursive let: both the bound value and the body are
/// typed with the name already bound to the annotated type, and the value's
/// type is checked against the annotation.
fn infer_let_rec(
    ctx: &mut Vec<(Name, Ty)>,
    lt: &Located<Ty>,
    name: &Located<Name>,
    value: &Located<mir::Term>,
    body: &Located<mir::Term>,
    loc: Location,
    next: &mut usize,
    cons: &mut Vec<Constraint>,
) -> (r: Result<Ty, TyError>)
    ensures
        final(ctx)@ == old(ctx)@,
        match infer_spec(
            ctx_view(old(ctx)@),
            (Located {
                content: mir::Term::Let(
                    mir::LetKind::Rec(*lt),
                    *name,
                    Box::new(*value),
                    Box::new(*body),
                ),
                loc,
            }),
            *old(next) as nat,
        ) {
            Ok(p) => r == Ok::<Ty, TyError>(p.0) && *final(next) as nat == p.1 && final(cons)@
                == old(cons)@ + p.2,
            Err(e) => r matches Err(e2) && ty_err_eq(e2, e),
        },
    decreases (Located {
        content: mir::Term::Let(
            mir::LetKind::Rec(*lt),
            *name,
            Box::new(*value),
            Box::new(*body),
        ),
        loc,
    }), 0int,
{
    let ghost v0 = ctx_view(old(ctx)@);
    let ghost n0 = *old(next) as nat;
    let ghost node = Located {
        content: mir::Term::Let(
            mir::LetKind::Rec(*lt),
            *name,
            Box::new(*value),
            Box::new(*body),
        ),
        loc,
    };
    ctx.push((name_clone(&name.content), lt.content.duplicate()));
    proof {
        assert(ctx_view(ctx@) =~= v0.push((name.content@, lt.content)));
    }
    let tv = match infer(ctx, value, next, cons) {
        Ok(y) => y,
        Err(e) => {
            ctx.pop();
            proof {
                assert(ctx@ =~= old(ctx)@);
            }
            return Err(e);
        },
    };
    cons.push(Constraint { expected: lt.content.duplicate(), found: tv, loc: value.loc });
    let tb = match infer(ctx, body, next, cons) {
        Ok(y) => y,
        Err(e) => {
            ctx.pop();
            proof {
                assert(ctx@ =~= old(ctx)@);
            }
            return Err(e);
        },
    };
    ctx.pop();
    proof {
        assert(ctx@ =~= old(ctx)@);
        match infer_spec(v0, node, n0) {
            Ok(p) => {
                assert(cons@ =~= old(cons)@ + p.2);
            },
            Err(_) => {},
        }
    }
    Ok(tb)
}

/// Constraints of sequencing: the first statement must be unit-typed, the
/// second gives the type.
fn infer_seq(
    ctx: &mut Vec<(Name, Ty)>,
    a: &Located<mir::Term>,
    b: &Located<mir::Term>,
    loc: Location,
    next: &mut usize,
    cons: &mut Vec<Constraint>,
) -> (r: Result<Ty, TyError>)
    ensures
        final(ctx)@ == old(ctx)@,
        match infer_spec(
            ctx_view(old(ctx)@),
            (Located { content: mir::Term::Sequence(Box::new(*a), Box::new(*b)), loc }),
            *old(next) as nat,
        ) {
            Ok(p) => r == Ok::<Ty, TyError>(p.0) && *final(next) as nat == p.1 && final(cons)@
                == old(cons)@ + p.2,
            Err(e) => r matches Err(e2) && ty_err_eq(e2, e),
        },
    decreases (Located { content: mir::Term::Sequence(Box::new(*a), Box::new(*b)), loc }), 0int,
{
    let ghost v0 = ctx_view(old(ctx)@);
    let ghost n0 = *old(next) as nat;
    let ghost node = Located { content: mir::Term::Sequence(Box::new(*a), Box::new(*b)), loc };
    let ta = match infer(ctx, a, next, cons) {
        Ok(y) => y,
        Err(e) => { return Err(e) },
    };
    cons.push(Constraint { expected: Ty::Unit, found: ta, loc: a.loc });
    let tb = match infer(ctx, b, next, cons) {
        Ok(y) => y,
        Err(e) => { return Err(e) },
    };
    proof {
        match infer_spec(v0, node, n0) {
            Ok(p) => {
                assert(cons@ =~= old(cons)@ + p.2);
            },
            Err(_) => {},
        }
    }
    Ok(tb)
}

/// Whether the variable with index `i` occurs in a type.
pub open spec fn ty_occ(i: int, t: Ty) -> bool
    decreases t,
{
    match t {
        Ty::Var(w) => w as int == i,
        Ty::Arrow(a, b) => ty_occ(i, *a) || ty_occ(i, *b),
        _ => false,
    }
}

/// Whether the variable with index `i` occurs in a constraint.
pub open spec fn c_occ(i: int, c: Constraint) -> bool {
    ty_occ(i, c.expected) || ty_occ(i, c.found)
}

/// Whether the variable with index `i` occurs in a constraint set.
pub open spec fn occ_cs(i: int, cs: Seq<Constraint>) -> bool {
    exists|j: int| 0 <= j < cs.len() && #[trigger] c_occ(i, cs[j])
}

/// The size of a type: one per constructor.
pub open spec fn ty_size(t: Ty) -> nat
    decreases t,
{
    match t {
        Ty::Arrow(a, b) => 1 + ty_size(*a) + ty_size(*b),
        _ => 1,
    }
}

/// The size of a constraint: the sizes of its two sides.
pub open spec fn c_size(c: Constraint) -> nat {
    ty_size(c.expected) + ty_size(c.found)
}

/// The total size of a constraint set.
pub open spec fn cs_size(cs: Seq<Constraint>) -> nat
    decreases cs.len(),
{
    if cs.len() == 0 {
        0
    } else {
        cs_size(cs.drop_last()) + c_size(cs.last())
    }
}

/// One above the largest variable index occurring in a type.
pub open spec fn ty_vbound(t: Ty) -> int
    decreases t,
{
    match t {
        Ty::Var(w) => w as int + 1,
        Ty::Arrow(a, b) => {
            let va = ty_vbound(*a);
            let vb = ty_vbound(*b);
            if va >= vb { va } else { vb }
        },
        _ => 0,
    }
}

/// One above the largest variable index occurring in a constraint set.
pub open spec fn cs_vbound(cs: Seq<Constraint>) -> int
    decreases cs.len(),
{
    if cs.len() == 0 {
        0
    } else {
        let vr = cs_vbound(cs.drop_last());
        let ve = ty_vbound(cs.last().expected);
        let vf = ty_vbound(cs.last().found);
        let vc = if ve >= vf { ve } else { vf };
        if vr >= vc { vr } else { vc }
    }
}

/// How many of the variables below `n` occur in the constraint set.
pub open spec fn nvars(cs: Seq<Constraint>, n: int) -> nat
    decreases n,
{
    if n <= 0 {
        0
    } else {
        nvars(cs, n - 1) + if occ_cs(n - 1, cs) { 1nat } else { 0nat }
    }
}

/// `contains` agrees with occurrence by integer index.
proof fn lemma_contains_occ(t: Ty, u: usize)
    ensures
        t.contains_spec(u) == ty_occ(u as int, t),
    decreases t,
{
    match t {
        Ty::Arrow(a, b) => {
            lemma_contains_occ(*a, u);
            lemma_contains_occ(*b, u);
        },
        _ => {},
    }
}

/// An occurring variable lies below the type's bound.
proof fn lemma_ty_vbound(t: Ty, i: int)
    ensures
        ty_occ(i, t) ==> i < ty_vbound(t),
    decreases t,
{
    match t {
        Ty::Arrow(a, b) => {
            lemma_ty_vbound(*a, i);
            lemma_ty_vbound(*b, i);
        },
        _ => {},
    }
}

/// An occurring variable lies below the constraint set's bound.
proof fn lemma_cs_vbound(cs: Seq<Constraint>, i: int)
    ensures
        occ_cs(i, cs) ==> i < cs_vbound(cs),
    decreases cs.len(),
{
    if occ_cs(i, cs) {
        let j = choose|j: int| 0 <= j < cs.len() && #[trigger] c_occ(i, cs[j]);
        if j == cs.len() - 1 {
            lemma_ty_vbound(cs.last().expected, i);
            lemma_ty_vbound(cs.last().found, i);
        } else {
            assert(cs.drop_last()[j] == cs[j]);
            assert(occ_cs(i, cs.drop_last()));
            lemma_cs_vbound(cs.drop_last(), i);
        }
    }
}

/// Fewer occurring variables means a smaller count.
proof fn lemma_nvars_le(cs1: Seq<Constraint>, cs2: Seq<Constraint>, n: int)
    requires
        forall|i: int| #[trigger] occ_cs(i, cs2) ==> occ_cs(i, cs1),
    ensures
        nvars(cs2, n) <= nvars(cs1, n),
    decreases n,
{
    if n > 0 {
        lemma_nvars_le(cs1, cs2, n - 1);
    }
}

/// Losing one occurring variable strictly shrinks the count.
proof fn lemma_nvars_lt(cs1: Seq<Constraint>, cs2: Seq<Constraint>, n: int, u: int)
    requires
        forall|i: int| #[trigger] occ_cs(i, cs2) ==> occ_cs(i, cs1),
        occ_cs(u, cs1),
        !occ_cs(u, cs2),
        0 <= u < n,
    ensures
        nvars(cs2, n) < nvars(cs1, n),
    decreases n,
{
    if n - 1 == u {
        lemma_nvars_le(cs1, cs2, n - 1);
    } else {
        lemma_nvars_lt(cs1, cs2, n - 1, u);
    }
}

/// What substituting a type for a variable leaves in a type.
pub open spec fn subst_ty(t: Ty, u: usize, r: Ty) -> Ty
    decreases t,
{
    match t {
        Ty::Var(w) => if w == u {
            r
        } else {
            t
        },
        Ty::Arrow(a, b) => Ty::Arrow(Box::new(subst_ty(*a, u, r)), Box::new(subst_ty(*b, u, r))),
        _ => t,
    }
}

/// What substitution does to one constraint.
pub open spec fn subst_c(c: Constraint, u: usize, r: Ty) -> Constraint {
    Constraint { expected: subst_ty(c.expected, u, r), found: subst_ty(c.found, u, r), loc: c.loc }
}

/// What substitution does to a whole constraint set.
pub open spec fn subst_cs(cs: Seq<Constraint>, u: usize, r: Ty) -> Seq<Constraint> {
    cs.map_values(|c: Constraint| subst_c(c, u, r))
}

/// Substitution in a type introduces only the replacement's variables and
/// removes the substituted one.
proof fn lemma_subst_ty_occ(t: Ty, u: usize, r: Ty, i: int)
    ensures
        ty_occ(i, subst_ty(t, u, r)) ==> ((ty_occ(i, t) && i != u as int) || ty_occ(i, r)),
        !ty_occ(u as int, r) ==> !ty_occ(u as int, subst_ty(t, u, r)),
    decreases t,
{
    match t {
        Ty::Arrow(a, b) => {
            lemma_subst_ty_occ(*a, u, r, i);
            lemma_subst_ty_occ(*b, u, r, i);
        },
        _ => {},
    }
}

/// Substitution in a constraint set introduces only the replacement's
/// variables and removes the substituted one.
proof fn lemma_subst_cs_occ(cs: Seq<Constraint>, u: usize, r: Ty)
    requires
        !ty_occ(u as int, r),
    ensures
        forall|i: int| #[trigger]
            occ_cs(i, subst_cs(cs, u, r)) ==> ((occ_cs(i, cs) && i != u as int) || ty_occ(i, r)),
        !occ_cs(u as int, subst_cs(cs, u, r)),
{
    assert forall|i: int| #[trigger] occ_cs(i, subst_cs(cs, u, r)) implies ((occ_cs(i, cs) && i
        != u as int) || ty_occ(i, r)) by {
        let sc = subst_cs(cs, u, r);
        let j = choose|j: int| 0 <= j < sc.len() && #[trigger] c_occ(i, sc[j]);
        assert(sc[j] == subst_c(cs[j], u, r));
        lemma_subst_ty_occ(cs[j].expected, u, r, i);
        lemma_subst_ty_occ(cs[j].found, u, r, i);
        if ty_occ(i, cs[j].expected) || ty_occ(i, cs[j].found) {
            assert(c_occ(i, cs[j]));
            assert(occ_cs(i, cs));
        }
    }
    if occ_cs(u as int, subst_cs(cs, u, r)) {
        let sc = subst_cs(cs, u, r);
        let j = choose|j: int| 0 <= j < sc.len() && #[trigger] c_occ(u as int, sc[j]);
        assert(sc[j] == subst_c(cs[j], u, r));
        lemma_subst_ty_occ(cs[j].expected, u, r, u as int);
        lemma_subst_ty_occ(cs[j].found, u, r, u as int);
    }
}

/// Appending a constraint adds its size.
proof fn lemma_cs_size_push(cs: Seq<Constraint>, c: Constraint)
    ensures
        cs_size(cs.push(c)) == cs_size(cs) + c_size(c),
{
    assert(cs.push(c).drop_last() =~= cs);
    assert(cs.push(c).last() == c);
}

/// Applies a substitution step to a type; mirrors `subst_ty`.
pub fn subst_ty_exec(t: &Ty, u: usize, r: &Ty) -> (res: Ty)
    ensures
        res == subst_ty(*t, u, *r),
    decreases *t,
{
    match t {
        Ty::Var(w) => if *w == u {
            r.duplicate()
        } else {
            Ty::Var(*w)
        },
        Ty::Arrow(a, b) => Ty::Arrow(
            Box::new(subst_ty_exec(a, u, r)),
            Box::new(subst_ty_exec(b, u, r)),
        ),
        Ty::Bool => Ty::Bool,
        Ty::Int => Ty::Int,
        Ty::Unit => Ty::Unit,
    }
}

/// Applies a substitution step to every remaining constraint.
#[verifier::loop_isolation(false)]
fn subst_cs_exec(cs: Vec<Constraint>, u: usize, r: &Ty) -> (res: Vec<Constraint>)
    ensures
        res@ == subst_cs(cs@, u, *r),
{
    let mut res: Vec<Constraint> = Vec::new();
    let mut i: usize = 0;
    while i < cs.len()
        invariant
            i <= cs@.len(),
            res@.len() == i,
            forall|j: int| 0 <= j < i ==> res@[j] == subst_c(cs@[j], u, *r),
        decreases cs@.len() - i,
    {
        res.push(
            Constraint {
                expected: subst_ty_exec(&cs[i].expected, u, r),
                found: subst_ty_exec(&cs[i].found, u, r),
                loc: cs[i].loc,
            },
        );
        i += 1;
    }
    proof {
        assert(res@ =~= subst_cs(cs@, u, *r));
    }
    res
}

/// The reversal of a constraint list: entry `k` holds the entry `len-1-k`.
pub open spec fn rev_cs(cs: Seq<Constraint>) -> Seq<Constraint> {
    Seq::new(cs.len(), |k: int| cs[cs.len() - 1 - k])
}

/// What solving a constraint stack returns, the last entry first: matching
/// atoms are dropped, arrows decompose keeping the expected side first, a
/// variable is bound to the opposite side after the occurs check and
/// substituted through the remaining stack, and a shape clash is a
/// `Mismatch` whose expected side is the constraint's expected side. The
/// measure that shrinks is the pair of the number of live variables below
/// `bound` and the total constraint size.
pub open spec fn unify_go_spec(cs: Seq<Constraint>, sub: Seq<(usize, Ty)>, bound: int) -> Result<
    Seq<(usize, Ty)>,
    TyError,
>
    decreases nvars(cs, bound), cs_size(cs),
        when forall|i: int| #[trigger] occ_cs(i, cs) ==> i < bound
{
    if cs.len() == 0 {
        Ok(sub)
    } else {
        let c = cs.last();
        let rest = cs.drop_last();
        proof {
            lemma_unify_step(cs, bound);
        }
        match (c.expected, c.found) {
            (Ty::Bool, Ty::Bool) => unify_go_spec(rest, sub, bound),
            (Ty::Int, Ty::Int) => unify_go_spec(rest, sub, bound),
            (Ty::Unit, Ty::Unit) => unify_go_spec(rest, sub, bound),
            (Ty::Var(u), f2) => if f2 == Ty::Var(u) {
                unify_go_spec(rest, sub, bound)
            } else if f2.contains_spec(u) {
                Err(TyError::RecursiveType(u, c.loc))
            } else {
                proof {
                    lemma_unify_elim_step(cs, u, f2, bound);
                }
                unify_go_spec(subst_cs(rest, u, f2), sub.push((u, f2)), bound)
            },
            (e2, Ty::Var(u)) => if e2.contains_spec(u) {
                Err(TyError::RecursiveType(u, c.loc))
            } else {
                proof {
                    lemma_unify_elim_step(cs, u, e2, bound);
                }
                unify_go_spec(subst_cs(rest, u, e2), sub.push((u, e2)), bound)
            },
            (Ty::Arrow(a1, a2), Ty::Arrow(b1, b2)) => {
                proof {
                    lemma_unify_decompose_step(cs, bound);
                }
                unify_go_spec(
                    rest.push(Constraint { expected: *a2, found: *b2, loc: c.loc }).push(
                        Constraint { expected: *a1, found: *b1, loc: c.loc },
                    ),
                    sub,
                    bound,
                )
            },
            (e2, f2) => Err(
                TyError::Mismatch { expected: e2, found: Located { content: f2, loc: c.loc } },
            ),
        }
    }
}

/// What unifying the constraints in the order they were generated returns.
pub open spec fn unify_spec(cs: Seq<Constraint>) -> Result<Seq<(usize, Ty)>, TyError> {
    unify_go_spec(rev_cs(cs), Seq::empty(), cs_vbound(rev_cs(cs)))
}

/// Popping a constraint keeps the live variables and shrinks the size.
pub proof fn lemma_unify_step(cs: Seq<Constraint>, bound: int)
    requires
        cs.len() > 0,
    ensures
        nvars(cs.drop_last(), bound) <= nvars(cs, bound),
        cs_size(cs.drop_last()) < cs_size(cs),
        forall|i: int| #[trigger] occ_cs(i, cs.drop_last()) ==> occ_cs(i, cs),
{
    let rest = cs.drop_last();
    assert forall|i: int| #[trigger] occ_cs(i, rest) implies occ_cs(i, cs) by {
        let j = choose|j: int| 0 <= j < rest.len() && #[trigger] c_occ(i, rest[j]);
        assert(cs[j] == rest[j]);
        assert(c_occ(i, cs[j]));
    }
    lemma_nvars_le(cs, rest, bound);
    assert(ty_size(cs.last().expected) >= 1);
    assert(ty_size(cs.last().found) >= 1);
}

/// Binding a variable strictly shrinks the live-variable count and keeps
/// every remaining variable below the bound.
pub proof fn lemma_unify_elim_step(cs: Seq<Constraint>, u: usize, t: Ty, bound: int)
    requires
        cs.len() > 0,
        cs.last().expected == Ty::Var(u) || cs.last().found == Ty::Var(u),
        cs.last().expected == t || cs.last().found == t,
        !t.contains_spec(u),
        forall|i: int| #[trigger] occ_cs(i, cs) ==> i < bound,
    ensures
        nvars(subst_cs(cs.drop_last(), u, t), bound) < nvars(cs, bound),
        forall|i: int| #[trigger] occ_cs(i, subst_cs(cs.drop_last(), u, t)) ==> i < bound,
{
    let rest = cs.drop_last();
    lemma_unify_step(cs, bound);
    lemma_contains_occ(t, u);
    lemma_subst_cs_occ(rest, u, t);
    assert forall|i: int| #[trigger] occ_cs(i, subst_cs(rest, u, t)) implies occ_cs(i, cs) by {
        if ty_occ(i, t) {
            lemma_contains_occ(t, i as usize);
            assert(c_occ(i, cs[cs.len() - 1]));
        } else {
            assert(occ_cs(i, rest));
        }
    }
    assert(c_occ(u as int, cs[cs.len() - 1]));
    assert(occ_cs(u as int, cs));
    lemma_nvars_lt(cs, subst_cs(rest, u, t), bound, u as int);
}

/// Decomposing an arrow pair keeps the live variables and shrinks the size.
pub proof fn lemma_unify_decompose_step(cs: Seq<Constraint>, bound: int)
    requires
        cs.len() > 0,
        cs.last().expected matches Ty::Arrow(_, _),
        cs.last().found matches Ty::Arrow(_, _),
    ensures
        match (cs.last().expected, cs.last().found) {
            (Ty::Arrow(a1, a2), Ty::Arrow(b1, b2)) => {
                let pushed = cs.drop_last().push(
                    Constraint { expected: *a2, found: *b2, loc: cs.last().loc },
                ).push(Constraint { expected: *a1, found: *b1, loc: cs.last().loc });
                nvars(pushed, bound) <= nvars(cs, bound) && cs_size(pushed) < cs_size(cs) && (
                forall|i: int| #[trigger] occ_cs(i, pushed) ==> occ_cs(i, cs))
            },
            _ => true,
        },
{
    let rest = cs.drop_last();
    match (cs.last().expected, cs.last().found) {
        (Ty::Arrow(a1, a2), Ty::Arrow(b1, b2)) => {
            let c2 = Constraint { expected: *a2, found: *b2, loc: cs.last().loc };
            let c1 = Constraint { expected: *a1, found: *b1, loc: cs.last().loc };
            let pushed = rest.push(c2).push(c1);
            lemma_cs_size_push(rest, c2);
            lemma_cs_size_push(rest.push(c2), c1);
            assert forall|i: int| #[trigger] occ_cs(i, pushed) implies occ_cs(i, cs) by {
                let j = choose|j: int| 0 <= j < pushed.len() && #[trigger] c_occ(i, pushed[j]);
                if j < rest.len() {
                    assert(cs[j] == pushed[j]);
                    assert(c_occ(i, cs[j]));
                } else {
                    assert(c_occ(i, cs[cs.len() - 1]));
                }
            }
            lemma_nvars_le(cs, pushed, bound);
        },
        _ => {},
    }
}

/// Solves a stack of constraints, the last entry first, extending the
/// accumulated substitution; `bound` is ghost, an upper bound on every
/// variable index in sight, and the measure that shrinks is the pair of the
/// number of live variables and the total constraint size.
fn unify_go(cs: Vec<Constraint>, sub: Vec<(usize, Ty)>, Ghost(bound): Ghost<int>) -> (r: Result<
    Vec<(usize, Ty)>,
    TyError,
>)
    requires
        forall|i: int| #[trigger] occ_cs(i, cs@) ==> i < bound,
    ensures
        match unify_go_spec(cs@, sub@, bound) {
            Ok(s) => r matches Ok(v) && v@ == s,
            Err(e) => r == Err::<Vec<(usize, Ty)>, TyError>(e),
        },
        (forall|i: int| 0 <= i < cs@.len() ==> (#[trigger] cs@[i]).expected == cs@[i].found)
            ==> r == Ok::<Vec<(usize, Ty)>, TyError>(sub),
        forall|u: usize|
            (cs@.len() == 1 && cs@[0].expected == Ty::Var(u) && #[trigger] cs@[0].found.contains_spec(
                u,
            ) && cs@[0].found != Ty::Var(u)) ==> r == Err::<Vec<(usize, Ty)>, TyError>(
                TyError::RecursiveType(u, cs@[0].loc),
            ),
    decreases nvars(cs@, bound), cs_size(cs@),
{
    let ghost cs0 = cs@;
    let mut cs = cs;
    let popped = cs.pop();
    match popped {
        None => Ok(sub),
        Some(c) => {
            proof {
                assert(cs@ =~= cs0.drop_last());
                assert forall|i: int| #[trigger] occ_cs(i, cs@) implies occ_cs(i, cs0) by {
                    let j = choose|j: int| 0 <= j < cs@.len() && #[trigger] c_occ(i, cs@[j]);
                    assert(cs0[j] == cs@[j]);
                    assert(c_occ(i, cs0[j]));
                }
                lemma_nvars_le(cs0, cs@, bound);
            }
            let Constraint { expected: e, found: f, loc } = c;
            match (e, f) {
                (Ty::Bool, Ty::Bool) => unify_go(cs, sub, Ghost(bound)),
                (Ty::Int, Ty::Int) => unify_go(cs, sub, Ghost(bound)),
                (Ty::Unit, Ty::Unit) => unify_go(cs, sub, Ghost(bound)),
                (Ty::Var(u), f2) => {
                    if f2.same_as(&Ty::Var(u)) {
                        unify_go(cs, sub, Ghost(bound))
                    } else if f2.contains(u) {
                        Err(TyError::RecursiveType(u, loc))
                    } else {
                        proof {
                            lemma_contains_occ(f2, u);
                            lemma_subst_cs_occ(cs@, u, f2);
                            assert forall|i: int| #[trigger]
                                occ_cs(i, subst_cs(cs@, u, f2)) implies occ_cs(i, cs0) by {
                                if ty_occ(i, f2) {
                                    assert(c_occ(i, cs0[cs0.len() - 1]));
                                } else {
                                    assert(occ_cs(i, cs@));
                                }
                            }
                            assert(c_occ(u as int, cs0[cs0.len() - 1]));
                            assert(occ_cs(u as int, cs0));
                            lemma_nvars_lt(cs0, subst_cs(cs@, u, f2), bound, u as int);
                        }
                        let cs2 = subst_cs_exec(cs, u, &f2);
                        let mut sub = sub;
                        sub.push((u, f2));
                        unify_go(cs2, sub, Ghost(bound))
                    }
                },
                (e2, Ty::Var(u)) => {
                    if e2.contains(u) {
                        Err(TyError::RecursiveType(u, loc))
                    } else {
                        proof {
                            lemma_contains_occ(e2, u);
                            lemma_subst_cs_occ(cs@, u, e2);
                            assert forall|i: int| #[trigger]
                                occ_cs(i, subst_cs(cs@, u, e2)) implies occ_cs(i, cs0) by {
                                if ty_occ(i, e2) {
                                    assert(c_occ(i, cs0[cs0.len() - 1]));
                                } else {
                                    assert(occ_cs(i, cs@));
                                }
                            }
                            assert(c_occ(u as int, cs0[cs0.len() - 1]));
                            assert(occ_cs(u as int, cs0));
                            lemma_nvars_lt(cs0, subst_cs(cs@, u, e2), bound, u as int);
                        }
                        let cs2 = subst_cs_exec(cs, u, &e2);
                        let mut sub = sub;
                        sub.push((u, e2));
                        unify_go(cs2, sub, Ghost(bound))
                    }
                },
                (Ty::Arrow(a1, a2), Ty::Arrow(b1, b2)) => {
                    let ghost rest = cs@;
                    cs.push(Constraint { expected: *a2, found: *b2, loc });
                    cs.push(Constraint { expected: *a1, found: *b1, loc });
                    proof {
                        lemma_cs_size_push(rest, Constraint { expected: *a2, found: *b2, loc });
                        lemma_cs_size_push(
                            rest.push(Constraint { expected: *a2, found: *b2, loc }),
                            Constraint { expected: *a1, found: *b1, loc },
                        );
                        assert forall|i: int| #[trigger] occ_cs(i, cs@) implies occ_cs(i, cs0) by {
                            let j = choose|j: int|
                                0 <= j < cs@.len() && #[trigger] c_occ(i, cs@[j]);
                            if j < rest.len() {
                                assert(cs0[j] == cs@[j]);
                                assert(c_occ(i, cs0[j]));
                            } else {
                                assert(c_occ(i, cs0[cs0.len() - 1]));
                            }
                        }
                        lemma_nvars_le(cs0, cs@, bound);
                    }
                    unify_go(cs, sub, Ghost(bound))
                },
                (e2, f2) => Err(
                    TyError::Mismatch { expected: e2, found: Located { content: f2, loc } },
                ),
            }
        },
    }
}

/// Unifies the constraints in the order they were generated; the verdict
/// mirrors `unify_spec` exactly. Two consequences are stated on their own:
/// a set whose sides are all syntactically equal unifies to the empty
/// substitution, and a single constraint binding a variable to a larger
/// type containing it fails the occurs check.
pub fn unify(cs: Vec<Constraint>) -> (r: Result<Vec<(usize, Ty)>, TyError>)
    ensures
        match unify_spec(cs@) {
            Ok(s) => r matches Ok(v) && v@ == s,
            Err(e) => r == Err::<Vec<(usize, Ty)>, TyError>(e),
        },
        (forall|i: int| 0 <= i < cs@.len() ==> (#[trigger] cs@[i]).expected == cs@[i].found) ==> (
        r matches Ok(s) && s@ == Seq::<(usize, Ty)>::empty()),
        forall|u: usize|
            (cs@.len() == 1 && cs@[0].expected == Ty::Var(u) && #[trigger] cs@[0].found.contains_spec(
                u,
            ) && cs@[0].found != Ty::Var(u)) ==> r == Err::<Vec<(usize, Ty)>, TyError>(
                TyError::RecursiveType(u, cs@[0].loc),
            ),
{
    let ghost cs0 = cs@;
    let mut cs = cs;
    let mut rev: Vec<Constraint> = Vec::new();
    while cs.len() > 0
        invariant
            rev@.len() + cs@.len() == cs0.len(),
            cs@ =~= cs0.subrange(0, cs@.len() as int),
            forall|k: int| 0 <= k < rev@.len() ==> rev@[k] == cs0[cs0.len() - 1 - k],
        decreases cs@.len(),
    {
        let ghost k = cs@.len() as int;
        let c = match cs.pop() {
            Some(x) => x,
            None => unreached(),
        };
        proof {
            assert(c == cs0[k - 1]);
            assert(cs@ =~= cs0.subrange(0, k - 1));
        }
        rev.push(c);
    }
    proof {
        assert forall|i: int| #[trigger] occ_cs(i, rev@) implies i < cs_vbound(rev@) by {
            lemma_cs_vbound(rev@, i);
        }
    }
    proof {
        assert(rev@ =~= rev_cs(cs0));
    }
    let empty_sub: Vec<(usize, Ty)> = Vec::new();
    proof {
        assert(empty_sub@ =~= Seq::<(usize, Ty)>::empty());
    }
    let r = unify_go(rev, empty_sub, Ghost(cs_vbound(rev@)));
    proof {
        if forall|i: int| 0 <= i < cs0.len() ==> (#[trigger] cs0[i]).expected == cs0[i].found {
            assert forall|i: int| 0 <= i < rev@.len() implies (#[trigger] rev@[i]).expected
                == rev@[i].found by {
                assert(rev@[i] == cs0[cs0.len() - 1 - i]);
            }
        }
        if cs0.len() == 1 {
            assert(rev@ =~= cs0);
        }
    }
    r
}

/// The inferred type with the substitution's bindings applied to it, in
/// the order they were accumulated, from entry `i` on.
pub open spec fn apply_from(sub: Seq<(usize, Ty)>, i: int, t: Ty) -> Ty
    decreases sub.len() - i,
{
    if i < 0 || i >= sub.len() {
        t
    } else {
        apply_from(sub, i + 1, subst_ty(t, sub[i].0, sub[i].1))
    }
}

/// Type-checks a whole program: constraints are generated under the empty
/// context and unified, and the accumulated substitution is applied to the
/// inferred type. The result is pinned: a failure of either phase is
/// returned exactly as that phase's specification determines it, and when
/// both succeed the substituted inferred type is returned.
#[verifier::loop_isolation(false)]
pub fn ty_check(term: &Located<mir::Term>) -> (r: Result<Ty, TyError>)
    ensures
        match infer_spec(Seq::empty(), *term, 0) {
            Err(e) => r matches Err(e2) && ty_err_eq(e2, e),
            Ok(p) => match unify_spec(p.2) {
                Err(e) => r matches Err(e2) && ty_err_eq(e2, e),
                Ok(s) => r == Ok::<Ty, TyError>(apply_from(s, 0, p.0)),
            },
        },
{
    let mut ctx: Vec<(Name, Ty)> = Vec::new();
    let mut next: usize = 0;
    let mut cons: Vec<Constraint> = Vec::new();
    proof {
        assert(ctx_view(ctx@) =~= Seq::<(Seq<char>, Ty)>::empty());
    }
    let ty = match infer(&mut ctx, term, &mut next, &mut cons) {
        Ok(t) => t,
        Err(e) => {
            return Err(e);
        },
    };
    proof {
        match infer_spec(Seq::empty(), *term, 0) {
            Ok(p) => {
                assert(cons@ =~= p.2);
            },
            Err(_) => {},
        }
    }
    let sub = match unify(cons) {
        Ok(s) => s,
        Err(e) => {
            return Err(e);
        },
    };
    let mut ty = ty;
    let ghost ty0 = ty;
    let mut i: usize = 0;
    while i < sub.len()
        invariant
            i <= sub@.len(),
            apply_from(sub@, 0, ty0) == apply_from(sub@, i as int, ty),
        decreases sub@.len() - i,
    {
        ty = subst_ty_exec(&ty, sub[i].0, &sub[i].1);
        i += 1;
    }
    Ok(ty)
}
} // verus!
