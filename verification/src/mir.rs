//! The named intermediate representation (MIR) and the lowering from the
//! surface tree to it: blocks are flattened into `Let`/`Sequence` chains,
//! multi-argument calls are curried, and function definitions become nested
//! unary lambdas wrapped in a (possibly recursive) `Let`.
use vstd::prelude::*;

use crate::ast::{name_eq, BinOp, Block, Branch, Literal, Located, Location, Name, Node, Prim, UnOp};
use crate::ty::{Binding, Ty};

verus! {

/// The kind of a let binding: ordinary (with an optional annotation) or
/// recursive (the annotation is mandatory).
#[derive(Debug)]
pub enum LetKind {
    NonRec(Option<Located<Ty>>),
    Rec(Located<Ty>),
}

/// A term of the named intermediate representation.
#[derive(Debug)]
pub enum Term {
    Lit(Literal),
    Var(Name),
    PrimFn(Prim),
    BinaryOp(BinOp, Box<Located<Term>>, Box<Located<Term>>),
    UnaryOp(UnOp, Box<Located<Term>>),
    Cond(Box<Located<Term>>, Box<Located<Term>>, Box<Located<Term>>),
    App(Box<Located<Term>>, Box<Located<Term>>),
    Abs(Binding, Box<Located<Term>>),
    Let(LetKind, Located<Name>, Box<Located<Term>>, Box<Located<Term>>),
    Sequence(Box<Located<Term>>, Box<Located<Term>>),
}

/// An error raised while lowering the surface tree to MIR.
#[derive(Debug)]
pub enum LowerError {
    /// A recursive function without a return type annotation.
    RecWithoutTy(Location),
    /// An anonymous function with a return type annotation.
    AnonWithTy(Location),
    /// A name that no enclosing binder introduces.
    Unbound(Name, Location),
}

impl LowerError {
    /// The source span the error points at.
    pub fn loc(&self) -> (r: Location)
        ensures
            r == match *self {
                LowerError::RecWithoutTy(l) => l,
                LowerError::AnonWithTy(l) => l,
                LowerError::Unbound(_, l) => l,
            },
    {
        match self {
            LowerError::RecWithoutTy(l) => *l,
            LowerError::AnonWithTy(l) => *l,
            LowerError::Unbound(_, l) => *l,
        }
    }
}

pub type LowerResult<T> = Result<T, LowerError>;

/// Whether this statement introduces a binding named `n` for the statements
/// that follow it in the same block.
pub open spec fn binds_name(n: Seq<char>, node: Node) -> bool {
    match node {
        Node::LetBind(name, _opt, _rhs) => name.content@ == n,
        Node::FnDef(opt_name, _binds, _body, _ty) => match opt_name {
            Some(name) => name.content@ == n,
            None => false,
        },
        _ => false,
    }
}

/// Whether some parameter of a function definition is named `n`.
pub open spec fn binds_param(n: Seq<char>, binds: Seq<Located<Binding>>) -> bool {
    exists|j: int| 0 <= j < binds.len() && binds[j].content.name@ == n
}

/// Whether the name `n` occurs free in a node: an occurrence not hidden by a
/// parameter, a let binding or a nested function definition that rebinds `n`.
pub open spec fn free_in_node(n: Seq<char>, node: Node) -> bool
    decreases node, 1int,
{
    match node {
        Node::Name(m) => m@ == n,
        Node::Literal(_) => false,
        Node::PrimFn(_) => false,
        Node::BinaryOp(_, a, b) => free_in_node(n, a.content) || free_in_node(n, b.content),
        Node::UnaryOp(_, a) => free_in_node(n, a.content),
        Node::Cond(ifb, branches, el) => free_in_blk(n, ifb.cond.content@, 0) || free_in_blk(
            n,
            ifb.body.content@,
            0,
        ) || free_in_branches(n, branches@, 0) || free_in_blk(n, el.content@, 0),
        Node::Call(f, args) => free_in_node(n, f.content) || free_in_nodes(n, args@, 0),
        Node::LetBind(_, _, rhs) => free_in_node(n, rhs.content),
        Node::FnDef(opt_name, binds, body, _ty) => !(match opt_name {
            Some(name) => name.content@ == n,
            None => false,
        }) && !binds_param(n, binds@) && free_in_blk(n, body.content@, 0),
    }
}

/// Whether `n` occurs free in any of the nodes (used for call arguments).
pub open spec fn free_in_nodes(n: Seq<char>, nodes: Seq<Located<Node>>, i: int) -> bool
    decreases nodes, nodes.len() - i,
{
    if i < 0 || i >= nodes.len() {
        false
    } else {
        free_in_node(n, nodes[i].content) || free_in_nodes(n, nodes, i + 1)
    }
}

/// Whether `n` occurs free in any branch of an `else if` chain.
pub open spec fn free_in_branches(n: Seq<char>, branches: Seq<Branch>, i: int) -> bool
    decreases branches, branches.len() - i,
{
    if i < 0 || i >= branches.len() {
        false
    } else {
        free_in_blk(n, branches[i].cond.content@, 0) || free_in_blk(n, branches[i].body.content@, 0)
            || free_in_branches(n, branches, i + 1)
    }
}

/// Whether `n` occurs free in a block from statement `i` on: a statement that
/// binds `n` hides it from the statements after it.
pub open spec fn free_in_blk(n: Seq<char>, nodes: Seq<Located<Node>>, i: int) -> bool
    decreases nodes, nodes.len() - i,
{
    if i < 0 || i >= nodes.len() {
        false
    } else {
        free_in_node(n, nodes[i].content) || (!binds_name(n, nodes[i].content) && free_in_blk(
            n,
            nodes,
            i + 1,
        ))
    }
}

/// Whether this statement introduces a binding named `n`; mirrors `binds_name`.
pub fn check_binds_name(n: &Name, node: &Node) -> (r: bool)
    ensures
        r == binds_name(n@, *node),
{
    match node {
        Node::LetBind(name, _opt, _rhs) => name_eq(&name.content, n),
        Node::FnDef(opt_name, _binds, _body, _ty) => match opt_name {
            Some(name) => name_eq(&name.content, n),
            None => false,
        },
        _ => false,
    }
}

/// Whether some parameter is named `n`; mirrors `binds_param`.
pub fn check_binds_param(n: &Name, binds: &Vec<Located<Binding>>) -> (r: bool)
    ensures
        r == binds_param(n@, binds@),
{
    let mut j: usize = 0;
    while j < binds.len()
        invariant
            j <= binds@.len(),
            forall|k: int| 0 <= k < j ==> binds@[k].content.name@ != n@,
        decreases binds@.len() - j,
    {
        if name_eq(&binds[j].content.name, n) {
            return true;
        }
        j += 1;
    }
    false
}

/// Scope-aware free-occurrence check on a node; mirrors `free_in_node`.
pub fn check_free_in_node(n: &Name, node: &Node) -> (r: bool)
    ensures
        r == free_in_node(n@, *node),
    decreases *node, 1int,
{
    match node {
        Node::Name(m) => name_eq(m, n),
        Node::Literal(_) => false,
        Node::PrimFn(_) => false,
        Node::BinaryOp(_, a, b) => check_free_in_node(n, &a.content) || check_free_in_node(
            n,
            &b.content,
        ),
        Node::UnaryOp(_, a) => check_free_in_node(n, &a.content),
        Node::Cond(ifb, branches, el) => check_free_in_blk(n, &ifb.cond.content, 0)
            || check_free_in_blk(n, &ifb.body.content, 0) || check_free_in_branches(n, branches, 0)
            || check_free_in_blk(n, &el.content, 0),
        Node::Call(f, args) => check_free_in_node(n, &f.content) || check_free_in_nodes(
            n,
            args,
            0,
        ),
        Node::LetBind(_, _, rhs) => check_free_in_node(n, &rhs.content),
        Node::FnDef(opt_name, binds, body, _ty) => {
            let named_same = match opt_name {
                Some(name) => name_eq(&name.content, n),
                None => false,
            };
            !named_same && !check_binds_param(n, binds) && check_free_in_blk(n, &body.content, 0)
        },
    }
}

/// Free-occurrence check over call arguments; mirrors `free_in_nodes`.
pub fn check_free_in_nodes(n: &Name, nodes: &Vec<Located<Node>>, i: usize) -> (r: bool)
    ensures
        r == free_in_nodes(n@, nodes@, i as int),
    decreases nodes@, nodes@.len() - i,
{
    if i >= nodes.len() {
        false
    } else {
        check_free_in_node(n, &nodes[i].content) || check_free_in_nodes(n, nodes, i + 1)
    }
}

/// Free-occurrence check over `else if` branches; mirrors `free_in_branches`.
pub fn check_free_in_branches(n: &Name, branches: &Vec<Branch>, i: usize) -> (r: bool)
    ensures
        r == free_in_branches(n@, branches@, i as int),
    decreases branches@, branches@.len() - i,
{
    if i >= branches.len() {
        false
    } else {
        check_free_in_blk(n, &branches[i].cond.content, 0) || check_free_in_blk(
            n,
            &branches[i].body.content,
            0,
        ) || check_free_in_branches(n, branches, i + 1)
    }
}

/// Free-occurrence check over a block with shadowing; mirrors `free_in_blk`.
pub fn check_free_in_blk(n: &Name, nodes: &Vec<Located<Node>>, i: usize) -> (r: bool)
    ensures
        r == free_in_blk(n@, nodes@, i as int),
    decreases nodes@, nodes@.len() - i,
{
    if i >= nodes.len() {
        false
    } else {
        check_free_in_node(n, &nodes[i].content) || (!check_binds_name(n, &nodes[i].content)
            && check_free_in_blk(n, nodes, i + 1))
    }
}

/// The function type declared by a return annotation: the parameter types
/// folded over it from the right, `T` becoming `Arrow(ty_0, ... Arrow(ty_last, T))`.
pub open spec fn ty_with_binds(binds: Seq<Located<Binding>>, k: int, ty: Ty) -> Ty
    decreases k,
{
    if k <= 0 {
        ty
    } else {
        ty_with_binds(binds, k - 1, Ty::Arrow(Box::new(binds[k - 1].content.ty), Box::new(ty)))
    }
}

/// The body wrapped in one `Abs` per parameter, rightmost parameter innermost.
pub open spec fn abs_with_binds(
    binds: Seq<Located<Binding>>,
    k: int,
    acc: Located<Term>,
    loc: Location,
) -> Located<Term>
    decreases k,
{
    if k <= 0 {
        acc
    } else {
        abs_with_binds(
            binds,
            k - 1,
            Located { content: Term::Abs(binds[k - 1].content, Box::new(acc)), loc },
            loc,
        )
    }
}

/// How two consecutive lowered statements combine: a `Let` captures the rest
/// of the block as its body, anything else is sequenced before it.
pub open spec fn combine_spec(prev: Located<Term>, next: Located<Term>) -> Located<Term> {
    match prev.content {
        Term::Let(kind, name, value, _unit) => Located {
            content: Term::Let(kind, name, value, Box::new(next)),
            loc: prev.loc,
        },
        _ => Located {
            content: Term::Sequence(Box::new(prev), Box::new(next)),
            loc: prev.loc,
        },
    }
}

/// What lowering a block from statement `i` on returns; statements are
/// lowered from the last towards the first.
pub open spec fn lower_seq_spec(nodes: Seq<Located<Node>>, i: int) -> LowerResult<Located<Term>>
    recommends
        0 <= i < nodes.len(),
    decreases nodes, nodes.len() - i,
{
    if i < 0 || i >= nodes.len() {
        Ok(Located { content: Term::Lit(Literal::Unit), loc: (Location { start: 0, end: 0 }) })
    } else if i == nodes.len() - 1 {
        lower_node_spec(nodes[i])
    } else {
        match lower_seq_spec(nodes, i + 1) {
            Err(e) => Err(e),
            Ok(next) => match lower_node_spec(nodes[i]) {
                Err(e) => Err(e),
                Ok(prev) => Ok(combine_spec(prev, next)),
            },
        }
    }
}

/// What lowering a block returns: `Lit(Unit)` at the block's span when the
/// block is empty, the combined statements otherwise.
pub open spec fn lower_blk_spec(blk: Located<Block>) -> LowerResult<Located<Term>>
    decreases blk, 2int,
{
    if blk.content@.len() == 0 {
        Ok(Located { content: Term::Lit(Literal::Unit), loc: blk.loc })
    } else {
        lower_seq_spec(blk.content@, 0)
    }
}

/// What lowering an `else if` chain returns: branches are folded from the
/// last towards the first around the accumulated alternative.
pub open spec fn lower_branches_spec(
    loc: Location,
    branches: Seq<Branch>,
    k: int,
    acc: Located<Term>,
) -> LowerResult<Located<Term>>
    decreases branches, k,
{
    if k <= 0 || k > branches.len() {
        Ok(acc)
    } else {
        match lower_blk_spec(branches[k - 1].cond) {
            Err(e) => Err(e),
            Ok(c) => match lower_blk_spec(branches[k - 1].body) {
                Err(e) => Err(e),
                Ok(b) => lower_branches_spec(
                    loc,
                    branches,
                    k - 1,
                    Located {
                        content: Term::Cond(Box::new(c), Box::new(b), Box::new(acc)),
                        loc,
                    },
                ),
            },
        }
    }
}

/// What lowering a call returns: the application folded left over the
/// arguments from `i` on.
pub open spec fn lower_args_spec(
    loc: Location,
    args: Seq<Located<Node>>,
    i: int,
    acc: Located<Term>,
) -> LowerResult<Located<Term>>
    decreases args, args.len() - i,
{
    if i < 0 || i >= args.len() {
        Ok(acc)
    } else {
        match lower_node_spec(args[i]) {
            Err(e) => Err(e),
            Ok(at) => lower_args_spec(
                loc,
                args,
                i + 1,
                Located { content: Term::App(Box::new(acc), Box::new(at)), loc },
            ),
        }
    }
}

/// What lowering one surface node returns.
pub open spec fn lower_node_spec(node: Located<Node>) -> LowerResult<Located<Term>>
    decreases node, 1int,
{
    let loc = node.loc;
    match node.content {
        Node::Name(name) => Ok(Located { content: Term::Var(name), loc }),
        Node::Literal(lit) => Ok(Located { content: Term::Lit(lit), loc }),
        Node::PrimFn(prim) => Ok(Located { content: Term::PrimFn(prim), loc }),
        Node::BinaryOp(op, a, b) => match lower_node_spec(*a) {
            Err(e) => Err(e),
            Ok(t1) => match lower_node_spec(*b) {
                Err(e) => Err(e),
                Ok(t2) => Ok(
                    Located { content: Term::BinaryOp(op, Box::new(t1), Box::new(t2)), loc },
                ),
            },
        },
        Node::UnaryOp(op, a) => match lower_node_spec(*a) {
            Err(e) => Err(e),
            Ok(t) => Ok(Located { content: Term::UnaryOp(op, Box::new(t)), loc }),
        },
        Node::Cond(ifb, branches, el) => match lower_blk_spec(el) {
            Err(e) => Err(e),
            Ok(el_t) => match lower_branches_spec(loc, branches@, branches@.len() as int, el_t) {
                Err(e) => Err(e),
                Ok(el2) => match lower_blk_spec(ifb.cond) {
                    Err(e) => Err(e),
                    Ok(c) => match lower_blk_spec(ifb.body) {
                        Err(e) => Err(e),
                        Ok(b) => Ok(
                            Located {
                                content: Term::Cond(Box::new(c), Box::new(b), Box::new(el2)),
                                loc,
                            },
                        ),
                    },
                },
            },
        },
        Node::Call(f, args) => match lower_node_spec(*f) {
            Err(e) => Err(e),
            Ok(t) => lower_args_spec(loc, args@, 0, t),
        },
        Node::LetBind(name, opt_ty, rhs) => match lower_node_spec(*rhs) {
            Err(e) => Err(e),
            Ok(t) => Ok(
                Located {
                    content: Term::Let(
                        LetKind::NonRec(opt_ty),
                        name,
                        Box::new(t),
                        Box::new(
                            Located {
                                content: Term::Lit(Literal::Unit),
                                loc: (Location { start: loc.end, end: loc.end }),
                            },
                        ),
                    ),
                    loc,
                },
            ),
        },
        Node::FnDef(opt_name, binds, body, opt_ty) => {
            let opt_ty2 = match opt_ty {
                None => None,
                Some(lt) => Some(
                    Located {
                        content: ty_with_binds(binds@, binds@.len() as int, lt.content),
                        loc: lt.loc,
                    },
                ),
            };
            let is_rec = match opt_name {
                Some(name) => free_in_blk(name.content@, body.content@, 0),
                None => false,
            };
            let kind_or = if is_rec {
                match opt_ty2 {
                    None => Err(
                        LowerError::RecWithoutTy(
                            match opt_name {
                                Some(name) => name.loc,
                                None => loc,
                            },
                        ),
                    ),
                    Some(t) => Ok(LetKind::Rec(t)),
                }
            } else if (match opt_name {
                Some(_) => false,
                None => true,
            }) && (match opt_ty2 {
                Some(_) => true,
                None => false,
            }) {
                Err(
                    LowerError::AnonWithTy(
                        match opt_ty2 {
                            Some(t) => t.loc,
                            None => loc,
                        },
                    ),
                )
            } else {
                Ok(LetKind::NonRec(opt_ty2))
            };
            match kind_or {
                Err(e) => Err(e),
                Ok(kind) => match lower_blk_spec(body) {
                    Err(e) => Err(e),
                    Ok(bt) => {
                        let abs = abs_with_binds(binds@, binds@.len() as int, bt, loc);
                        match opt_name {
                            Some(name) => Ok(
                                Located {
                                    content: Term::Let(
                                        kind,
                                        name,
                                        Box::new(abs),
                                        Box::new(
                                            Located {
                                                content: Term::Lit(Literal::Unit),
                                                loc: (Location {
                                                    start: loc.end,
                                                    end: loc.end,
                                                }),
                                            },
                                        ),
                                    ),
                                    loc,
                                },
                            ),
                            None => Ok(abs),
                        }
                    },
                },
            }
        },
    }
}

/// An error while lowering a block propagates from the statement where it
/// arose to the front of the block.
proof fn lemma_lower_seq_err(nodes: Seq<Located<Node>>, i: int, j: int)
    requires
        0 <= i <= j,
        j < nodes.len(),
        lower_seq_spec(nodes, j) is Err,
    ensures
        lower_seq_spec(nodes, i) == lower_seq_spec(nodes, j),
    decreases j - i,
{
    if i < j {
        lemma_lower_seq_err(nodes, i + 1, j);
    }
}

/// Combines two consecutive lowered statements; mirrors `combine_spec`.
fn combine(prev: Located<Term>, next: Located<Term>) -> (r: Located<Term>)
    ensures
        r == combine_spec(prev, next),
{
    let ghost prev0 = prev;
    let Located { content, loc } = prev;
    match content {
        Term::Let(kind, name, value, _unit) => Located {
            content: Term::Let(kind, name, value, Box::new(next)),
            loc,
        },
        other => Located {
            content: Term::Sequence(Box::new(Located { content: other, loc }), Box::new(next)),
            loc,
        },
    }
}

/// Lowers a block to a single term: statements fold from the last towards
/// the first, a `Let` capturing the rest of the block as its body.
#[verifier::loop_isolation(false)]
pub fn lower_blk(blk: Located<Block>) -> (r: LowerResult<Located<Term>>)
    ensures
        r == lower_blk_spec(blk),
    decreases blk, 2int,
{
    let Located { content: mut nodes, loc } = blk;
    let ghost all = nodes@;
    if nodes.len() == 0 {
        return Ok(Located::new(Term::Lit(Literal::Unit), loc));
    }
    let last = match nodes.pop() {
        Some(x) => x,
        None => unreached(),
    };
    proof {
        assert(nodes@ =~= all.subrange(0, all.len() - 1));
    }
    let mut term = match lower_node(last) {
        Ok(t) => t,
        Err(e) => {
            proof {
                lemma_lower_seq_err(all, 0, all.len() - 1);
            }
            return Err(e);
        },
    };
    while nodes.len() > 0
        invariant
            nodes@ =~= all.subrange(0, nodes@.len() as int),
            nodes@.len() < all.len(),
            Ok::<Located<Term>, LowerError>(term) == lower_seq_spec(all, nodes@.len() as int),
        decreases nodes@.len(),
    {
        let ghost k = nodes@.len() as int;
        let prev_node = match nodes.pop() {
            Some(x) => x,
            None => unreached(),
        };
        proof {
            assert(prev_node == all[k - 1]);
            assert(nodes@ =~= all.subrange(0, k - 1));
        }
        let prev = match lower_node(prev_node) {
            Ok(t) => t,
            Err(e) => {
                proof {
                    lemma_lower_seq_err(all, 0, k - 1);
                }
                return Err(e);
            },
        };
        term = combine(prev, term);
    }
    Ok(term)
}

/// Lowers one surface node to a term.
pub fn lower_node(node: Located<Node>) -> (r: LowerResult<Located<Term>>)
    ensures
        r == lower_node_spec(node),
    decreases node, 1int,
{
    let Located { content, loc } = node;
    match content {
        Node::Name(name) => Ok(Located::new(Term::Var(name), loc)),
        Node::Cond(if_branch, branches, el_blk) => lower_cond(loc, if_branch, branches, el_blk),
        Node::Literal(lit) => Ok(Located::new(Term::Lit(lit), loc)),
        Node::Call(fun, args) => lower_call(loc, *fun, args),
        Node::BinaryOp(bin_op, node1, node2) => lower_binary_op(loc, bin_op, *node1, *node2),
        Node::UnaryOp(un_op, inner) => lower_unary_op(loc, un_op, *inner),
        Node::LetBind(name, opt_ty, rhs) => lower_let_bind(loc, name, opt_ty, *rhs),
        Node::FnDef(opt_name, binds, body, opt_ty) => lower_fn_def(
            loc,
            opt_name,
            binds,
            body,
            opt_ty,
        ),
        Node::PrimFn(prim) => Ok(Located::new(Term::PrimFn(prim), loc)),
    }
}

/// Lowers a conditional: the `else` block first, then the `else if` chain
/// from the last branch towards the first, then the `if` branch itself.
#[verifier::loop_isolation(false)]
pub fn lower_cond(
    loc: Location,
    if_branch: Branch,
    branches: Vec<Branch>,
    el_blk: Located<Block>,
) -> (r: LowerResult<Located<Term>>)
    ensures
        r == lower_node_spec(Located { content: Node::Cond(if_branch, branches, el_blk), loc }),
    decreases (Located { content: Node::Cond(if_branch, branches, el_blk), loc }), 0int,
{
    let ghost branches0 = branches@;
    let mut el_term = match lower_blk(el_blk) {
        Ok(t) => t,
        Err(e) => { return Err(e) },
    };
    let ghost el_t0 = el_term;
    let mut branches = branches;
    while branches.len() > 0
        invariant
            branches@.len() <= branches0.len(),
            branches@ =~= branches0.subrange(0, branches@.len() as int),
            lower_branches_spec(loc, branches0, branches0.len() as int, el_t0)
                == lower_branches_spec(loc, branches0, branches@.len() as int, el_term),
        decreases branches@.len(),
    {
        let ghost k = branches@.len() as int;
        let branch = match branches.pop() {
            Some(x) => x,
            None => unreached(),
        };
        proof {
            assert(branch == branches0[k - 1]);
            assert(branches@ =~= branches0.subrange(0, k - 1));
        }
        let c = match lower_blk(branch.cond) {
            Ok(t) => t,
            Err(e) => { return Err(e) },
        };
        let b = match lower_blk(branch.body) {
            Ok(t) => t,
            Err(e) => { return Err(e) },
        };
        el_term = Located::new(
            Term::Cond(Box::new(c), Box::new(b), Box::new(el_term)),
            loc,
        );
    }
    let Branch { cond: if_cond, body: if_body } = if_branch;
    let c = match lower_blk(if_cond) {
        Ok(t) => t,
        Err(e) => { return Err(e) },
    };
    let b = match lower_blk(if_body) {
        Ok(t) => t,
        Err(e) => { return Err(e) },
    };
    Ok(Located::new(Term::Cond(Box::new(c), Box::new(b), Box::new(el_term)), loc))
}

/// Lowers a call: the callee applied to each argument in turn, left to right.
#[verifier::loop_isolation(false)]
pub fn lower_call(loc: Location, fun: Located<Node>, args: Vec<Located<Node>>) -> (r: LowerResult<
    Located<Term>,
>)
    ensures
        r == lower_node_spec(Located { content: Node::Call(Box::new(fun), args), loc }),
    decreases (Located { content: Node::Call(Box::new(fun), args), loc }), 0int,
{
    let ghost args0 = args@;
    let mut term = match lower_node(fun) {
        Ok(t) => t,
        Err(e) => { return Err(e) },
    };
    let ghost t0 = term;
    let mut args = args;
    while args.len() > 0
        invariant
            args@.len() <= args0.len(),
            args@ =~= args0.subrange(args0.len() - args@.len(), args0.len() as int),
            lower_args_spec(loc, args0, 0, t0) == lower_args_spec(
                loc,
                args0,
                args0.len() - args@.len(),
                term,
            ),
        decreases args@.len(),
    {
        let ghost i = args0.len() - args@.len();
        let a = args.remove(0);
        proof {
            assert(a == args0[i]);
            assert(args@ =~= args0.subrange(i + 1, args0.len() as int));
        }
        let at = match lower_node(a) {
            Ok(t) => t,
            Err(e) => { return Err(e) },
        };
        term = Located::new(Term::App(Box::new(term), Box::new(at)), loc);
    }
    Ok(term)
}

/// Lowers a binary operation node.
pub fn lower_binary_op(
    loc: Location,
    bin_op: BinOp,
    node1: Located<Node>,
    node2: Located<Node>,
) -> (r: LowerResult<Located<Term>>)
    ensures
        r == lower_node_spec(
            Located {
                content: Node::BinaryOp(bin_op, Box::new(node1), Box::new(node2)),
                loc,
            },
        ),
    decreases (Located {
        content: Node::BinaryOp(bin_op, Box::new(node1), Box::new(node2)),
        loc,
    }), 0int,
{
    let t1 = match lower_node(node1) {
        Ok(t) => t,
        Err(e) => { return Err(e) },
    };
    let t2 = match lower_node(node2) {
        Ok(t) => t,
        Err(e) => { return Err(e) },
    };
    Ok(Located::new(Term::BinaryOp(bin_op, Box::new(t1), Box::new(t2)), loc))
}

/// Lowers a unary operation node.
pub fn lower_unary_op(loc: Location, un_op: UnOp, node: Located<Node>) -> (r: LowerResult<
    Located<Term>,
>)
    ensures
        r == lower_node_spec(
            Located { content: Node::UnaryOp(un_op, Box::new(node)), loc },
        ),
    decreases (Located { content: Node::UnaryOp(un_op, Box::new(node)), loc }), 0int,
{
    let t = match lower_node(node) {
        Ok(t) => t,
        Err(e) => { return Err(e) },
    };
    Ok(Located::new(Term::UnaryOp(un_op, Box::new(t)), loc))
}

/// Lowers a let binding; its body is a unit placeholder that the block
/// combiner replaces with the rest of the block.
pub fn lower_let_bind(
    loc: Location,
    name: Located<Name>,
    opt_ty: Option<Located<Ty>>,
    node: Located<Node>,
) -> (r: LowerResult<Located<Term>>)
    ensures
        r == lower_node_spec(
            Located { content: Node::LetBind(name, opt_ty, Box::new(node)), loc },
        ),
    decreases (Located { content: Node::LetBind(name, opt_ty, Box::new(node)), loc }), 0int,
{
    let t = match lower_node(node) {
        Ok(t) => t,
        Err(e) => { return Err(e) },
    };
    Ok(
        Located::new(
            Term::Let(
                LetKind::NonRec(opt_ty),
                name,
                Box::new(t),
                Box::new(Located::new(Term::Lit(Literal::Unit), Location::new(loc.end, loc.end))),
            ),
            loc,
        ),
    )
}

/// Lowers a function definition: decides whether it is recursive, checks the
/// annotation rules, curries the parameters and wraps a named function in a
/// let binding.
#[verifier::loop_isolation(false)]
pub fn lower_fn_def(
    loc: Location,
    opt_name: Option<Located<Name>>,
    binds: Vec<Located<Binding>>,
    body: Located<Block>,
    opt_ty: Option<Located<Ty>>,
) -> (r: LowerResult<Located<Term>>)
    ensures
        r == lower_node_spec(
            Located { content: Node::FnDef(opt_name, binds, body, opt_ty), loc },
        ),
    decreases (Located { content: Node::FnDef(opt_name, binds, body, opt_ty), loc }), 0int,
{
    let ghost binds0 = binds@;
    let opt_ty2: Option<Located<Ty>> = match opt_ty {
        None => None,
        Some(lt) => {
            let Located { content: mut ty_acc, loc: ty_loc } = lt;
            let ghost ret_ty = ty_acc;
            let mut k = binds.len();
            while k > 0
                invariant
                    k <= binds@.len(),
                    ty_with_binds(binds@, binds@.len() as int, ret_ty) == ty_with_binds(
                        binds@,
                        k as int,
                        ty_acc,
                    ),
                decreases k,
            {
                ty_acc = Ty::Arrow(Box::new(binds[k - 1].content.ty.duplicate()), Box::new(ty_acc));
                k -= 1;
            }
            Some(Located::new(ty_acc, ty_loc))
        },
    };
    let is_rec = match &opt_name {
        Some(name) => check_free_in_blk(&name.content, &body.content, 0),
        None => false,
    };
    let kind: LetKind = if is_rec {
        match opt_ty2 {
            None => {
                let name_loc = match &opt_name {
                    Some(name) => name.loc,
                    None => unreached(),
                };
                return Err(LowerError::RecWithoutTy(name_loc));
            },
            Some(t) => LetKind::Rec(t),
        }
    } else if opt_name.is_none() && opt_ty2.is_some() {
        let ty_loc = match opt_ty2 {
            Some(t) => t.loc,
            None => unreached(),
        };
        return Err(LowerError::AnonWithTy(ty_loc));
    } else {
        LetKind::NonRec(opt_ty2)
    };
    let mut term = match lower_blk(body) {
        Ok(t) => t,
        Err(e) => { return Err(e) },
    };
    let ghost bt = term;
    let mut binds = binds;
    while binds.len() > 0
        invariant
            binds@.len() <= binds0.len(),
            binds@ =~= binds0.subrange(0, binds@.len() as int),
            abs_with_binds(binds0, binds0.len() as int, bt, loc) == abs_with_binds(
                binds0,
                binds@.len() as int,
                term,
                loc,
            ),
        decreases binds@.len(),
    {
        let ghost k = binds@.len() as int;
        let b = match binds.pop() {
            Some(x) => x,
            None => unreached(),
        };
        proof {
            assert(b == binds0[k - 1]);
            assert(binds@ =~= binds0.subrange(0, k - 1));
        }
        term = Located::new(Term::Abs(b.content, Box::new(term)), loc);
    }
    if let Some(name) = opt_name {
        term = Located::new(
            Term::Let(
                kind,
                name,
                Box::new(term),
                Box::new(Located::new(Term::Lit(Literal::Unit), Location::new(loc.end, loc.end))),
            ),
            loc,
        );
    }
    Ok(term)
}

} // verus!
