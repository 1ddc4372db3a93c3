//! The environment machine that evaluates nameless terms: eager and left to
//! right, with lazy conditional branches, short-circuit boolean operators,
//! checked integer arithmetic and a value printer for the `print` primitive.
use vstd::prelude::*;

use crate::ast::{BinOp, Literal, Located, Location, Prim, UnOp};
use crate::lir::{LetKind, Term};

verus! {

/// The operator an arithmetic error came from.
#[derive(Clone, Copy, PartialEq, Eq, Structural, Debug)]
pub enum OpKind {
    Bin(BinOp),
    Un(UnOp),
}

/// An error raised while evaluating a term.
#[derive(Clone, Copy, PartialEq, Eq, Structural, Debug)]
pub enum EvalError {
    /// Signed 64-bit overflow in an arithmetic operation or shift.
    Overflow(OpKind, Location),
    /// Division or remainder by zero.
    DivByZero(Location),
    /// A type-structural fault: applying a non-function, branching on a
    /// non-boolean, an operand of the wrong shape, or a dangling index.
    Stuck(Location),
    /// The step budget ran out before the program finished.
    OutOfFuel,
}

/// A runtime value.
#[derive(Debug)]
pub enum Value {
    Int(i64),
    Bool(bool),
    Unit,
    /// A lambda together with the environment it captured.
    Closure(Env, Box<Located<Term>>),
    /// A recursive closure: applying it pushes the closure itself below the
    /// argument, so the body can refer to it.
    RecClosure(Env, Box<Located<Term>>),
    Prim(Prim),
}

/// The environment: a stack of values, the innermost binder's value first.
#[derive(Debug)]
pub enum Env {
    Nil,
    Cons(Box<Value>, Box<Env>),
}

/// The value a de Bruijn index refers to: the `i`-th entry from the top.
pub open spec fn env_get(env: Env, i: int) -> Option<Value>
    decreases env,
{
    match env {
        Env::Nil => None,
        Env::Cons(v, rest) => if i == 0 {
            Some(*v)
        } else if i < 0 {
            None
        } else {
            env_get(*rest, i - 1)
        },
    }
}

/// The value of a literal.
pub open spec fn lit_value(l: Literal) -> Value {
    match l {
        Literal::Bool(b) => Value::Bool(b),
        Literal::Int(i) => Value::Int(i),
        Literal::Unit => Value::Unit,
    }
}

/// The decimal digit character for `d`.
pub open spec fn digit_char(d: int) -> char {
    if d == 0 { '0' }
    else if d == 1 { '1' }
    else if d == 2 { '2' }
    else if d == 3 { '3' }
    else if d == 4 { '4' }
    else if d == 5 { '5' }
    else if d == 6 { '6' }
    else if d == 7 { '7' }
    else if d == 8 { '8' }
    else { '9' }
}

/// The decimal digits of a non-negative number, most significant first.
pub open spec fn dec_digits(n: nat) -> Seq<char>
    decreases n,
{
    if n < 10 {
        seq![digit_char(n as int)]
    } else {
        dec_digits(n / 10) + seq![digit_char((n % 10) as int)]
    }
}

/// The decimal rendering of an integer, with a leading minus when negative.
pub open spec fn render_int(x: int) -> Seq<char> {
    if x >= 0 {
        dec_digits(x as nat)
    } else {
        seq!['-'] + dec_digits((-x) as nat)
    }
}

/// The rendering of a binary operator.
pub open spec fn op_text(op: BinOp) -> Seq<char> {
    match op {
        BinOp::Add => seq!['+'],
        BinOp::Sub => seq!['-'],
        BinOp::Mul => seq!['*'],
        BinOp::Div => seq!['/'],
        BinOp::Rem => seq!['%'],
        BinOp::BitAnd => seq!['&'],
        BinOp::BitOr => seq!['|'],
        BinOp::BitXor => seq!['^'],
        BinOp::Shl => seq!['<', '<'],
        BinOp::Shr => seq!['>', '>'],
        BinOp::And => seq!['&', '&'],
        BinOp::Or => seq!['|', '|'],
        BinOp::Equal => seq!['=', '='],
        BinOp::NotEqual => seq!['!', '='],
        BinOp::Lt => seq!['<'],
        BinOp::Gt => seq!['>'],
        BinOp::Lte => seq!['<', '='],
        BinOp::Gte => seq!['>', '='],
    }
}

/// The rendering of a unary operator.
pub open spec fn un_text(op: UnOp) -> Seq<char> {
    match op {
        UnOp::Neg => seq!['-'],
        UnOp::Not => seq!['!'],
    }
}

/// The structural rendering of a nameless term, `_i` standing for `Var(i)`.
pub open spec fn render_term(t: Located<Term>) -> Seq<char>
    decreases t,
{
    match t.content {
        Term::Lit(Literal::Int(i)) => render_int(i as int),
        Term::Lit(Literal::Bool(b)) => if b { seq!['1'] } else { seq!['0'] },
        Term::Lit(Literal::Unit) => seq!['u', 'n', 'i', 't'],
        Term::Var(i) => seq!['_'] + dec_digits(i as nat),
        Term::PrimFn(_) => seq!['p', 'r', 'i', 'n', 't'],
        Term::Abs(b) => seq!['(', '\u{03bb}', '.', ' '] + render_term(*b) + seq![')'],
        Term::App(f, x) => seq!['('] + render_term(*f) + seq![' '] + render_term(*x) + seq![')'],
        Term::BinaryOp(op, a, b) => seq!['('] + render_term(*a) + seq![' '] + op_text(op) + seq![
            ' ',
        ] + render_term(*b) + seq![')'],
        Term::UnaryOp(op, a) => seq!['('] + un_text(op) + render_term(*a) + seq![')'],
        Term::Cond(c, th, el) => seq!['(', 'i', 'f', ' '] + render_term(*c) + seq![
            ' ',
            'd',
            'o',
            ' ',
        ] + render_term(*th) + seq![' ', 'e', 'l', 's', 'e', ' '] + render_term(*el) + seq![')'],
        Term::Let(_, v, b) => seq!['(', 'l', 'e', 't', ' '] + render_term(*v) + seq![
            ' ',
            'i',
            'n',
            ' ',
        ] + render_term(*b) + seq![')'],
        Term::Sequence(a, b) => seq!['('] + render_term(*a) + seq![';', ' '] + render_term(*b)
            + seq![')'],
    }
}

/// The rendering of a value: integers in decimal, `1`/`0` for booleans,
/// `unit` for unit, and `(λ. <body>)` for closures.
pub open spec fn render_value(v: Value) -> Seq<char> {
    match v {
        Value::Int(i) => render_int(i as int),
        Value::Bool(b) => if b { seq!['1'] } else { seq!['0'] },
        Value::Unit => seq!['u', 'n', 'i', 't'],
        Value::Closure(_, b) => seq!['(', '\u{03bb}', '.', ' '] + render_term(*b) + seq![')'],
        Value::RecClosure(_, b) => seq!['(', '\u{03bb}', '.', ' '] + render_term(*b) + seq![')'],
        Value::Prim(_) => seq!['p', 'r', 'i', 'n', 't'],
    }
}

/// Truncated division, the semantics of `/` on 64-bit integers: the
/// magnitude quotient with the sign of the operands' product.
pub open spec fn trunc_div(x: int, y: int) -> int {
    let q = (if x >= 0 { x } else { -x }) / (if y >= 0 { y } else { -y });
    if (x < 0) != (y < 0) { -q } else { q }
}

/// Truncated remainder, the semantics of `%` on 64-bit integers: the
/// magnitude remainder with the sign of the dividend.
pub open spec fn trunc_rem(x: int, y: int) -> int {
    let r = (if x >= 0 { x } else { -x }) % (if y >= 0 { y } else { -y });
    if x < 0 { -r } else { r }
}

/// What a strict binary operator returns on two values, or how it fails:
/// arithmetic and shifts check for overflow, division checks for zero, and
/// operands of the wrong shape are a `Stuck` fault.
pub open spec fn binop_spec(op: BinOp, va: Value, vb: Value, loc: Location) -> Result<
    Value,
    EvalError,
> {
    match (va, vb) {
        (Value::Int(x), Value::Int(y)) => match op {
            BinOp::Add => if i64::MIN <= x + y <= i64::MAX {
                Ok(Value::Int((x + y) as i64))
            } else {
                Err(EvalError::Overflow(OpKind::Bin(op), loc))
            },
            BinOp::Sub => if i64::MIN <= x - y <= i64::MAX {
                Ok(Value::Int((x - y) as i64))
            } else {
                Err(EvalError::Overflow(OpKind::Bin(op), loc))
            },
            BinOp::Mul => if i64::MIN <= x * y <= i64::MAX {
                Ok(Value::Int((x * y) as i64))
            } else {
                Err(EvalError::Overflow(OpKind::Bin(op), loc))
            },
            BinOp::Div => if y == 0 {
                Err(EvalError::DivByZero(loc))
            } else if x == i64::MIN && y == -1 {
                Err(EvalError::Overflow(OpKind::Bin(op), loc))
            } else {
                Ok(Value::Int(trunc_div(x as int, y as int) as i64))
            },
            BinOp::Rem => if y == 0 {
                Err(EvalError::DivByZero(loc))
            } else if x == i64::MIN && y == -1 {
                Err(EvalError::Overflow(OpKind::Bin(op), loc))
            } else {
                Ok(Value::Int(trunc_rem(x as int, y as int) as i64))
            },
            BinOp::BitAnd => Ok(Value::Int(x & y)),
            BinOp::BitOr => Ok(Value::Int(x | y)),
            BinOp::BitXor => Ok(Value::Int(x ^ y)),
            BinOp::Shl => if 0 <= y < 64 {
                Ok(Value::Int(x << y))
            } else {
                Err(EvalError::Overflow(OpKind::Bin(op), loc))
            },
            BinOp::Shr => if 0 <= y < 64 {
                Ok(Value::Int(x >> y))
            } else {
                Err(EvalError::Overflow(OpKind::Bin(op), loc))
            },
            BinOp::Equal => Ok(Value::Bool(x == y)),
            BinOp::NotEqual => Ok(Value::Bool(x != y)),
            BinOp::Lt => Ok(Value::Bool(x < y)),
            BinOp::Gt => Ok(Value::Bool(x > y)),
            BinOp::Lte => Ok(Value::Bool(x <= y)),
            BinOp::Gte => Ok(Value::Bool(x >= y)),
            _ => Err(EvalError::Stuck(loc)),
        },
        (Value::Bool(a), Value::Bool(b)) => match op {
            BinOp::Equal => Ok(Value::Bool(a == b)),
            BinOp::NotEqual => Ok(Value::Bool(a != b)),
            _ => Err(EvalError::Stuck(loc)),
        },
        (Value::Unit, Value::Unit) => match op {
            BinOp::Equal => Ok(Value::Bool(true)),
            BinOp::NotEqual => Ok(Value::Bool(false)),
            _ => Err(EvalError::Stuck(loc)),
        },
        _ => Err(EvalError::Stuck(loc)),
    }
}

/// What a unary operator returns on a value, or how it fails.
pub open spec fn unop_spec(op: UnOp, v: Value, loc: Location) -> Result<Value, EvalError> {
    match (op, v) {
        (UnOp::Neg, Value::Int(x)) => if x == i64::MIN {
            Err(EvalError::Overflow(OpKind::Un(op), loc))
        } else {
            Ok(Value::Int((-x) as i64))
        },
        (UnOp::Not, Value::Bool(b)) => Ok(Value::Bool(!b)),
        _ => Err(EvalError::Stuck(loc)),
    }
}

/// What evaluating a term under an environment returns, together with
/// everything it printed (kept even when an error follows). Evaluation is
/// eager and left to right; `Cond` evaluates only the taken branch, and
/// `And`/`Or` evaluate their right operand only when the left does not
/// already decide. Each step spends one unit of fuel.
pub open spec fn eval_spec(fuel: nat, env: Env, t: Located<Term>) -> (Result<Value, EvalError>,
    Seq<char>,
)
    decreases fuel, 0int,
{
    if fuel == 0 {
        (Err(EvalError::OutOfFuel), Seq::empty())
    } else {
        let f2 = (fuel - 1) as nat;
        let loc = t.loc;
        match t.content {
            Term::Lit(l) => (Ok(lit_value(l)), Seq::empty()),
            Term::Var(i) => match env_get(env, i as int) {
                Some(v) => (Ok(v), Seq::empty()),
                None => (Err(EvalError::Stuck(loc)), Seq::empty()),
            },
            Term::PrimFn(p) => (Ok(Value::Prim(p)), Seq::empty()),
            Term::Abs(b) => (Ok(Value::Closure(env, b)), Seq::empty()),
            Term::App(f, x) => {
                let rf = eval_spec(f2, env, *f);
                match rf.0 {
                    Err(e) => (Err(e), rf.1),
                    Ok(vf) => {
                        let rx = eval_spec(f2, env, *x);
                        match rx.0 {
                            Err(e) => (Err(e), rf.1 + rx.1),
                            Ok(vx) => {
                                let ra = apply_spec(f2, vf, vx, loc);
                                (ra.0, rf.1 + rx.1 + ra.1)
                            },
                        }
                    },
                }
            },
            Term::BinaryOp(op, a, b) => {
                if op == BinOp::And {
                    let ra = eval_spec(f2, env, *a);
                    match ra.0 {
                        Err(e) => (Err(e), ra.1),
                        Ok(Value::Bool(false)) => (Ok(Value::Bool(false)), ra.1),
                        Ok(Value::Bool(true)) => {
                            let rb = eval_spec(f2, env, *b);
                            match rb.0 {
                                Err(e) => (Err(e), ra.1 + rb.1),
                                Ok(Value::Bool(bb)) => (Ok(Value::Bool(bb)), ra.1 + rb.1),
                                Ok(_) => (Err(EvalError::Stuck(loc)), ra.1 + rb.1),
                            }
                        },
                        Ok(_) => (Err(EvalError::Stuck(loc)), ra.1),
                    }
                } else if op == BinOp::Or {
                    let ra = eval_spec(f2, env, *a);
                    match ra.0 {
                        Err(e) => (Err(e), ra.1),
                        Ok(Value::Bool(true)) => (Ok(Value::Bool(true)), ra.1),
                        Ok(Value::Bool(false)) => {
                            let rb = eval_spec(f2, env, *b);
                            match rb.0 {
                                Err(e) => (Err(e), ra.1 + rb.1),
                                Ok(Value::Bool(bb)) => (Ok(Value::Bool(bb)), ra.1 + rb.1),
                                Ok(_) => (Err(EvalError::Stuck(loc)), ra.1 + rb.1),
                            }
                        },
                        Ok(_) => (Err(EvalError::Stuck(loc)), ra.1),
                    }
                } else {
                    let ra = eval_spec(f2, env, *a);
                    match ra.0 {
                        Err(e) => (Err(e), ra.1),
                        Ok(va) => {
                            let rb = eval_spec(f2, env, *b);
                            match rb.0 {
                                Err(e) => (Err(e), ra.1 + rb.1),
                                Ok(vb) => (binop_spec(op, va, vb, loc), ra.1 + rb.1),
                            }
                        },
                    }
                }
            },
            Term::UnaryOp(op, a) => {
                let ra = eval_spec(f2, env, *a);
                match ra.0 {
                    Err(e) => (Err(e), ra.1),
                    Ok(va) => (unop_spec(op, va, loc), ra.1),
                }
            },
            Term::Cond(c, th, el) => {
                let rc = eval_spec(f2, env, *c);
                match rc.0 {
                    Err(e) => (Err(e), rc.1),
                    Ok(Value::Bool(true)) => {
                        let rt = eval_spec(f2, env, *th);
                        (rt.0, rc.1 + rt.1)
                    },
                    Ok(Value::Bool(false)) => {
                        let re = eval_spec(f2, env, *el);
                        (re.0, rc.1 + re.1)
                    },
                    Ok(_) => (Err(EvalError::Stuck(loc)), rc.1),
                }
            },
            Term::Let(LetKind::NonRec, v, b) => {
                let rv = eval_spec(f2, env, *v);
                match rv.0 {
                    Err(e) => (Err(e), rv.1),
                    Ok(vv) => {
                        let rb = eval_spec(f2, Env::Cons(Box::new(vv), Box::new(env)), *b);
                        (rb.0, rv.1 + rb.1)
                    },
                }
            },
            Term::Let(LetKind::Rec, v, b) => match v.content {
                Term::Abs(inner) => {
                    let rc = Value::RecClosure(env, inner);
                    let rb = eval_spec(f2, Env::Cons(Box::new(rc), Box::new(env)), *b);
                    (rb.0, rb.1)
                },
                _ => (Err(EvalError::Stuck(v.loc)), Seq::empty()),
            },
            Term::Sequence(a, b) => {
                let ra = eval_spec(f2, env, *a);
                match ra.0 {
                    Err(e) => (Err(e), ra.1),
                    Ok(_) => {
                        let rb = eval_spec(f2, env, *b);
                        (rb.0, ra.1 + rb.1)
                    },
                }
            },
        }
    }
}

/// What applying a function value to an argument returns: a closure runs its
/// body under its captured environment extended with the argument, a
/// recursive closure additionally pushes itself below the argument, and
/// `print` writes the argument's rendering and a newline and returns unit.
pub open spec fn apply_spec(fuel: nat, vf: Value, vx: Value, loc: Location) -> (Result<
    Value,
    EvalError,
>, Seq<char>)
    decreases fuel, 1int,
{
    match vf {
        Value::Closure(cenv, body) => eval_spec(
            fuel,
            Env::Cons(Box::new(vx), Box::new(cenv)),
            *body,
        ),
        Value::RecClosure(cenv, body) => eval_spec(
            fuel,
            Env::Cons(
                Box::new(vx),
                Box::new(Env::Cons(Box::new(Value::RecClosure(cenv, body)), Box::new(cenv))),
            ),
            *body,
        ),
        Value::Prim(Prim::Print) => (Ok(Value::Unit), render_value(vx) + seq!['\n']),
        _ => (Err(EvalError::Stuck(loc)), Seq::empty()),
    }
}

/// A structural copy of a value.
pub fn clone_value(v: &Value) -> (r: Value)
    ensures
        r == *v,
    decreases *v,
{
    match v {
        Value::Int(x) => Value::Int(*x),
        Value::Bool(b) => Value::Bool(*b),
        Value::Unit => Value::Unit,
        Value::Closure(env, body) => Value::Closure(clone_env(env), Box::new(clone_term(body))),
        Value::RecClosure(env, body) => Value::RecClosure(
            clone_env(env),
            Box::new(clone_term(body)),
        ),
        Value::Prim(p) => Value::Prim(*p),
    }
}

/// A structural copy of an environment.
pub fn clone_env(e: &Env) -> (r: Env)
    ensures
        r == *e,
    decreases *e,
{
    match e {
        Env::Nil => Env::Nil,
        Env::Cons(v, rest) => Env::Cons(Box::new(clone_value(v)), Box::new(clone_env(rest))),
    }
}

/// A structural copy of a nameless term.
pub fn clone_term(t: &Located<Term>) -> (r: Located<Term>)
    ensures
        r == *t,
    decreases *t,
{
    let loc = t.loc;
    match &t.content {
        Term::Lit(l) => Located::new(Term::Lit(*l), loc),
        Term::Var(i) => Located::new(Term::Var(*i), loc),
        Term::PrimFn(p) => Located::new(Term::PrimFn(*p), loc),
        Term::BinaryOp(op, a, b) => Located::new(
            Term::BinaryOp(*op, Box::new(clone_term(a)), Box::new(clone_term(b))),
            loc,
        ),
        Term::UnaryOp(op, a) => Located::new(Term::UnaryOp(*op, Box::new(clone_term(a))), loc),
        Term::Cond(c, th, el) => Located::new(
            Term::Cond(Box::new(clone_term(c)), Box::new(clone_term(th)), Box::new(clone_term(el))),
            loc,
        ),
        Term::App(f, x) => Located::new(
            Term::App(Box::new(clone_term(f)), Box::new(clone_term(x))),
            loc,
        ),
        Term::Abs(b) => Located::new(Term::Abs(Box::new(clone_term(b))), loc),
        Term::Let(k, v, b) => Located::new(
            Term::Let(*k, Box::new(clone_term(v)), Box::new(clone_term(b))),
            loc,
        ),
        Term::Sequence(a, b) => Located::new(
            Term::Sequence(Box::new(clone_term(a)), Box::new(clone_term(b))),
            loc,
        ),
    }
}

/// Reads the value a de Bruijn index refers to; mirrors `env_get`.
pub fn lookup(env: &Env, i: usize) -> (r: Option<Value>)
    ensures
        r == env_get(*env, i as int),
    decreases *env,
{
    match env {
        Env::Nil => None,
        Env::Cons(v, rest) => if i == 0 {
            Some(clone_value(v))
        } else {
            lookup(rest, i - 1)
        },
    }
}

/// Appends one decimal digit character.
fn push_digit(out: &mut Vec<char>, d: u64)
    requires
        d < 10,
    ensures
        final(out)@ == old(out)@ + seq![digit_char(d as int)],
{
    let c = if d == 0 { '0' }
    else if d == 1 { '1' }
    else if d == 2 { '2' }
    else if d == 3 { '3' }
    else if d == 4 { '4' }
    else if d == 5 { '5' }
    else if d == 6 { '6' }
    else if d == 7 { '7' }
    else if d == 8 { '8' }
    else { '9' };
    out.push(c);
    proof {
        assert(out@ =~= old(out)@ + seq![digit_char(d as int)]);
    }
}

/// Appends the decimal digits of a non-negative number.
fn write_digits(n: u64, out: &mut Vec<char>)
    ensures
        final(out)@ == old(out)@ + dec_digits(n as nat),
    decreases n,
{
    if n < 10 {
        push_digit(out, n);
    } else {
        write_digits(n / 10, out);
        push_digit(out, n % 10);
        proof {
            assert(out@ =~= old(out)@ + dec_digits(n as nat));
        }
    }
}

/// Appends the decimal rendering of a 64-bit integer.
fn write_int(x: i64, out: &mut Vec<char>)
    ensures
        final(out)@ == old(out)@ + render_int(x as int),
{
    if x >= 0 {
        write_digits(x as u64, out);
    } else {
        out.push('-');
        let m: u64 = (-(x as i128)) as u64;
        proof {
            assert(m as int == -(x as int));
        }
        write_digits(m, out);
        proof {
            assert(out@ =~= old(out)@ + render_int(x as int));
        }
    }
}

/// Appends the rendering of a binary operator.
fn write_op(op: BinOp, out: &mut Vec<char>)
    ensures
        final(out)@ == old(out)@ + op_text(op),
{
    match op {
        BinOp::Add => out.push('+'),
        BinOp::Sub => out.push('-'),
        BinOp::Mul => out.push('*'),
        BinOp::Div => out.push('/'),
        BinOp::Rem => out.push('%'),
        BinOp::BitAnd => out.push('&'),
        BinOp::BitOr => out.push('|'),
        BinOp::BitXor => out.push('^'),
        BinOp::Shl => {
            out.push('<');
            out.push('<');
        },
        BinOp::Shr => {
            out.push('>');
            out.push('>');
        },
        BinOp::And => {
            out.push('&');
            out.push('&');
        },
        BinOp::Or => {
            out.push('|');
            out.push('|');
        },
        BinOp::Equal => {
            out.push('=');
            out.push('=');
        },
        BinOp::NotEqual => {
            out.push('!');
            out.push('=');
        },
        BinOp::Lt => out.push('<'),
        BinOp::Gt => out.push('>'),
        BinOp::Lte => {
            out.push('<');
            out.push('=');
        },
        BinOp::Gte => {
            out.push('>');
            out.push('=');
        },
    }
    proof {
        assert(out@ =~= old(out)@ + op_text(op));
    }
}

/// Appends the structural rendering of a term.
#[verifier::rlimit(60)]
pub fn write_term(t: &Located<Term>, out: &mut Vec<char>)
    ensures
        final(out)@ == old(out)@ + render_term(*t),
    decreases *t,
{
    match &t.content {
        Term::Lit(Literal::Int(i)) => write_int(*i, out),
        Term::Lit(Literal::Bool(b)) => out.push(if *b { '1' } else { '0' }),
        Term::Lit(Literal::Unit) => {
            out.push('u');
            out.push('n');
            out.push('i');
            out.push('t');
        },
        Term::Var(i) => {
            out.push('_');
            write_digits(*i as u64, out);
        },
        Term::PrimFn(_) => {
            out.push('p');
            out.push('r');
            out.push('i');
            out.push('n');
            out.push('t');
        },
        Term::Abs(b) => {
            out.push('(');
            out.push('\u{03bb}');
            out.push('.');
            out.push(' ');
            write_term(b, out);
            out.push(')');
        },
        Term::App(f, x) => {
            out.push('(');
            write_term(f, out);
            out.push(' ');
            write_term(x, out);
            out.push(')');
        },
        Term::BinaryOp(op, a, b) => {
            out.push('(');
            write_term(a, out);
            out.push(' ');
            write_op(*op, out);
            out.push(' ');
            write_term(b, out);
            out.push(')');
        },
        Term::UnaryOp(op, a) => {
            out.push('(');
            match op {
                UnOp::Neg => out.push('-'),
                UnOp::Not => out.push('!'),
            }
            write_term(a, out);
            out.push(')');
        },
        Term::Cond(c, th, el) => {
            out.push('(');
            out.push('i');
            out.push('f');
            out.push(' ');
            write_term(c, out);
            out.push(' ');
            out.push('d');
            out.push('o');
            out.push(' ');
            write_term(th, out);
            out.push(' ');
            out.push('e');
            out.push('l');
            out.push('s');
            out.push('e');
            out.push(' ');
            write_term(el, out);
            out.push(')');
        },
        Term::Let(_, v, b) => {
            out.push('(');
            out.push('l');
            out.push('e');
            out.push('t');
            out.push(' ');
            write_term(v, out);
            out.push(' ');
            out.push('i');
            out.push('n');
            out.push(' ');
            write_term(b, out);
            out.push(')');
        },
        Term::Sequence(a, b) => {
            out.push('(');
            write_term(a, out);
            out.push(';');
            out.push(' ');
            write_term(b, out);
            out.push(')');
        },
    }
    proof {
        assert(out@ =~= old(out)@ + render_term(*t));
    }
}

/// Appends the rendering of a value.
pub fn write_value(v: &Value, out: &mut Vec<char>)
    ensures
        final(out)@ == old(out)@ + render_value(*v),
{
    match v {
        Value::Int(i) => write_int(*i, out),
        Value::Bool(b) => out.push(if *b { '1' } else { '0' }),
        Value::Unit => {
            out.push('u');
            out.push('n');
            out.push('i');
            out.push('t');
        },
        Value::Closure(_, b) => {
            out.push('(');
            out.push('\u{03bb}');
            out.push('.');
            out.push(' ');
            write_term(b, out);
            out.push(')');
        },
        Value::RecClosure(_, b) => {
            out.push('(');
            out.push('\u{03bb}');
            out.push('.');
            out.push(' ');
            write_term(b, out);
            out.push(')');
        },
        Value::Prim(_) => {
            out.push('p');
            out.push('r');
            out.push('i');
            out.push('n');
            out.push('t');
        },
    }
    proof {
        assert(out@ =~= old(out)@ + render_value(*v));
    }
}

/// Evaluates a strict binary operator on two values; mirrors `binop_spec`.
pub fn eval_binop(op: BinOp, va: Value, vb: Value, loc: Location) -> (r: Result<Value, EvalError>)
    ensures
        r == binop_spec(op, va, vb, loc),
{
    match (va, vb) {
        (Value::Int(x), Value::Int(y)) => match op {
            BinOp::Add => {
                let s: i128 = x as i128 + y as i128;
                if i64::MIN as i128 <= s && s <= i64::MAX as i128 {
                    Ok(Value::Int(s as i64))
                } else {
                    Err(EvalError::Overflow(OpKind::Bin(op), loc))
                }
            },
            BinOp::Sub => {
                let s: i128 = x as i128 - y as i128;
                if i64::MIN as i128 <= s && s <= i64::MAX as i128 {
                    Ok(Value::Int(s as i64))
                } else {
                    Err(EvalError::Overflow(OpKind::Bin(op), loc))
                }
            },
            BinOp::Mul => {
                proof {
                    assert((i128::MIN as int) <= (x as int) * (y as int) <= (i128::MAX as int))
                        by (nonlinear_arith)
                        requires
                            (i64::MIN as int) <= x as int <= (i64::MAX as int),
                            (i64::MIN as int) <= y as int <= (i64::MAX as int),
                    ;
                }
                let s: i128 = x as i128 * y as i128;
                if i64::MIN as i128 <= s && s <= i64::MAX as i128 {
                    Ok(Value::Int(s as i64))
                } else {
                    Err(EvalError::Overflow(OpKind::Bin(op), loc))
                }
            },
            BinOp::Div => {
                if y == 0 {
                    Err(EvalError::DivByZero(loc))
                } else if x == i64::MIN && y == -1 {
                    Err(EvalError::Overflow(OpKind::Bin(op), loc))
                } else {
                    let ux: u64 = if x >= 0 { x as u64 } else { (-(x as i128)) as u64 };
                    let uy: u64 = if y >= 0 { y as u64 } else { (-(y as i128)) as u64 };
                    let q: u64 = ux / uy;
                    proof {
                        vstd::arithmetic::div_mod::lemma_div_is_ordered_by_denominator(
                            ux as int,
                            1,
                            uy as int,
                        );
                    }
                    if (x < 0) != (y < 0) {
                        Ok(Value::Int((-(q as i128)) as i64))
                    } else {
                        proof {
                            if uy == 1 {
                                assert(q == ux);
                            } else {
                                vstd::arithmetic::div_mod::lemma_div_is_ordered_by_denominator(
                                    ux as int,
                                    2,
                                    uy as int,
                                );
                                assert(ux as int / 2 <= i64::MAX);
                            }
                        }
                        Ok(Value::Int(q as i64))
                    }
                }
            },
            BinOp::Rem => {
                if y == 0 {
                    Err(EvalError::DivByZero(loc))
                } else if x == i64::MIN && y == -1 {
                    Err(EvalError::Overflow(OpKind::Bin(op), loc))
                } else {
                    let ux: u64 = if x >= 0 { x as u64 } else { (-(x as i128)) as u64 };
                    let uy: u64 = if y >= 0 { y as u64 } else { (-(y as i128)) as u64 };
                    let m: u64 = ux % uy;
                    if x < 0 {
                        Ok(Value::Int((-(m as i128)) as i64))
                    } else {
                        Ok(Value::Int(m as i64))
                    }
                }
            },
            BinOp::BitAnd => Ok(Value::Int(x & y)),
            BinOp::BitOr => Ok(Value::Int(x | y)),
            BinOp::BitXor => Ok(Value::Int(x ^ y)),
            BinOp::Shl => if 0 <= y && y < 64 {
                Ok(Value::Int(x << y))
            } else {
                Err(EvalError::Overflow(OpKind::Bin(op), loc))
            },
            BinOp::Shr => if 0 <= y && y < 64 {
                Ok(Value::Int(x >> y))
            } else {
                Err(EvalError::Overflow(OpKind::Bin(op), loc))
            },
            BinOp::Equal => Ok(Value::Bool(x == y)),
            BinOp::NotEqual => Ok(Value::Bool(x != y)),
            BinOp::Lt => Ok(Value::Bool(x < y)),
            BinOp::Gt => Ok(Value::Bool(x > y)),
            BinOp::Lte => Ok(Value::Bool(x <= y)),
            BinOp::Gte => Ok(Value::Bool(x >= y)),
            BinOp::And => Err(EvalError::Stuck(loc)),
            BinOp::Or => Err(EvalError::Stuck(loc)),
        },
        (Value::Bool(a), Value::Bool(b)) => match op {
            BinOp::Equal => Ok(Value::Bool(a == b)),
            BinOp::NotEqual => Ok(Value::Bool(a != b)),
            _ => Err(EvalError::Stuck(loc)),
        },
        (Value::Unit, Value::Unit) => match op {
            BinOp::Equal => Ok(Value::Bool(true)),
            BinOp::NotEqual => Ok(Value::Bool(false)),
            _ => Err(EvalError::Stuck(loc)),
        },
        _ => Err(EvalError::Stuck(loc)),
    }
}

/// Evaluates a unary operator on a value; mirrors `unop_spec`.
pub fn eval_unop(op: UnOp, v: Value, loc: Location) -> (r: Result<Value, EvalError>)
    ensures
        r == unop_spec(op, v, loc),
{
    match (op, v) {
        (UnOp::Neg, Value::Int(x)) => if x == i64::MIN {
            Err(EvalError::Overflow(OpKind::Un(op), loc))
        } else {
            Ok(Value::Int(-x))
        },
        (UnOp::Not, Value::Bool(b)) => Ok(Value::Bool(!b)),
        _ => Err(EvalError::Stuck(loc)),
    }
}

/// Evaluates a term under an environment, spending one unit of fuel per
/// step and appending whatever `print` produces to `out`; mirrors
/// `eval_spec` exactly, output included.
pub fn eval(fuel: u64, env: &Env, t: &Located<Term>, out: &mut Vec<char>) -> (r: Result<
    Value,
    EvalError,
>)
    ensures
        r == eval_spec(fuel as nat, *env, *t).0,
        final(out)@ == old(out)@ + eval_spec(fuel as nat, *env, *t).1,
    decreases fuel, 0int,
{
    if fuel == 0 {
        proof {
            assert(out@ =~= old(out)@ + eval_spec(fuel as nat, *env, *t).1);
        }
        return Err(EvalError::OutOfFuel);
    }
    let f2 = fuel - 1;
    let loc = t.loc;
    let r = match &t.content {
        Term::Lit(l) => Ok(
            match l {
                Literal::Bool(b) => Value::Bool(*b),
                Literal::Int(i) => Value::Int(*i),
                Literal::Unit => Value::Unit,
            },
        ),
        Term::Var(i) => match lookup(env, *i) {
            Some(v) => Ok(v),
            None => Err(EvalError::Stuck(loc)),
        },
        Term::PrimFn(p) => Ok(Value::Prim(*p)),
        Term::Abs(b) => Ok(Value::Closure(clone_env(env), Box::new(clone_term(b)))),
        Term::App(f, x) => {
            match eval(f2, env, f, out) {
                Err(e) => Err(e),
                Ok(vf) => match eval(f2, env, x, out) {
                    Err(e) => Err(e),
                    Ok(vx) => apply(f2, vf, vx, loc, out),
                },
            }
        },
        Term::BinaryOp(op, a, b) => {
            let op = *op;
            if matches!(op, BinOp::And) {
                match eval(f2, env, a, out) {
                    Err(e) => Err(e),
                    Ok(Value::Bool(false)) => Ok(Value::Bool(false)),
                    Ok(Value::Bool(true)) => match eval(f2, env, b, out) {
                        Err(e) => Err(e),
                        Ok(Value::Bool(bb)) => Ok(Value::Bool(bb)),
                        Ok(_) => Err(EvalError::Stuck(loc)),
                    },
                    Ok(_) => Err(EvalError::Stuck(loc)),
                }
            } else if matches!(op, BinOp::Or) {
                match eval(f2, env, a, out) {
                    Err(e) => Err(e),
                    Ok(Value::Bool(true)) => Ok(Value::Bool(true)),
                    Ok(Value::Bool(false)) => match eval(f2, env, b, out) {
                        Err(e) => Err(e),
                        Ok(Value::Bool(bb)) => Ok(Value::Bool(bb)),
                        Ok(_) => Err(EvalError::Stuck(loc)),
                    },
                    Ok(_) => Err(EvalError::Stuck(loc)),
                }
            } else {
                match eval(f2, env, a, out) {
                    Err(e) => Err(e),
                    Ok(va) => match eval(f2, env, b, out) {
                        Err(e) => Err(e),
                        Ok(vb) => eval_binop(op, va, vb, loc),
                    },
                }
            }
        },
        Term::UnaryOp(op, a) => match eval(f2, env, a, out) {
            Err(e) => Err(e),
            Ok(va) => eval_unop(*op, va, loc),
        },
        Term::Cond(c, th, el) => match eval(f2, env, c, out) {
            Err(e) => Err(e),
            Ok(Value::Bool(true)) => eval(f2, env, th, out),
            Ok(Value::Bool(false)) => eval(f2, env, el, out),
            Ok(_) => Err(EvalError::Stuck(loc)),
        },
        Term::Let(LetKind::NonRec, v, b) => match eval(f2, env, v, out) {
            Err(e) => Err(e),
            Ok(vv) => {
                let env2 = Env::Cons(Box::new(vv), Box::new(clone_env(env)));
                eval(f2, &env2, b, out)
            },
        },
        Term::Let(LetKind::Rec, v, b) => match &v.content {
            Term::Abs(inner) => {
                let rc = Value::RecClosure(clone_env(env), Box::new(clone_term(inner)));
                let env2 = Env::Cons(Box::new(rc), Box::new(clone_env(env)));
                eval(f2, &env2, b, out)
            },
            _ => Err(EvalError::Stuck(v.loc)),
        },
        Term::Sequence(a, b) => match eval(f2, env, a, out) {
            Err(e) => Err(e),
            Ok(_) => eval(f2, env, b, out),
        },
    };
    proof {
        assert(out@ =~= old(out)@ + eval_spec(fuel as nat, *env, *t).1);
    }
    r
}

/// Applies a function value to an argument; mirrors `apply_spec`.
pub fn apply(fuel: u64, vf: Value, vx: Value, loc: Location, out: &mut Vec<char>) -> (r: Result<
    Value,
    EvalError,
>)
    ensures
        r == apply_spec(fuel as nat, vf, vx, loc).0,
        final(out)@ == old(out)@ + apply_spec(fuel as nat, vf, vx, loc).1,
    decreases fuel, 1int,
{
    match vf {
        Value::Closure(cenv, body) => {
            let env2 = Env::Cons(Box::new(vx), Box::new(cenv));
            let r = eval(fuel, &env2, &body, out);
            r
        },
        Value::RecClosure(cenv, body) => {
            let self_copy = Value::RecClosure(clone_env(&cenv), Box::new(clone_term(&body)));
            let env2 = Env::Cons(
                Box::new(vx),
                Box::new(Env::Cons(Box::new(self_copy), Box::new(cenv))),
            );
            let r = eval(fuel, &env2, &body, out);
            r
        },
        Value::Prim(Prim::Print) => {
            write_value(&vx, out);
            out.push('\n');
            proof {
                assert(out@ =~= old(out)@ + apply_spec(fuel as nat, vf, vx, loc).1);
            }
            Ok(Value::Unit)
        },
        _ => {
            proof {
                assert(out@ =~= old(out)@ + apply_spec(fuel as nat, vf, vx, loc).1);
            }
            Err(EvalError::Stuck(loc))
        },
    }
}

/// A verdict reached within some step budget stands under any larger
/// budget: granting more fuel can only turn `OutOfFuel` into an answer,
/// never change an answer already reached — so a program that completes
/// within a budget completes identically, output included, under every
/// larger one.
pub proof fn lemma_eval_fuel_mono(f1: nat, f2: nat, env: Env, t: Located<Term>)
    requires
        f1 <= f2,
        eval_spec(f1, env, t).0 != Err::<Value, EvalError>(EvalError::OutOfFuel),
    ensures
        eval_spec(f2, env, t) == eval_spec(f1, env, t),
    decreases f1, 0int,
{
    if f1 == 0 {
        assert(false);
    } else if f1 == f2 {
    } else {
        let g1 = (f1 - 1) as nat;
        let g2 = (f2 - 1) as nat;
        let loc = t.loc;
        match t.content {
            Term::Lit(_) => {},
            Term::Var(_) => {},
            Term::PrimFn(_) => {},
            Term::Abs(_) => {},
            Term::App(f, x) => {
                lemma_eval_fuel_mono(g1, g2, env, *f);
                match eval_spec(g1, env, *f).0 {
                    Ok(vf) => {
                        lemma_eval_fuel_mono(g1, g2, env, *x);
                        match eval_spec(g1, env, *x).0 {
                            Ok(vx) => {
                                lemma_apply_fuel_mono(g1, g2, vf, vx, loc);
                            },
                            Err(_) => {},
                        }
                    },
                    Err(_) => {},
                }
            },
            Term::BinaryOp(op, a, b) => {
                lemma_eval_fuel_mono(g1, g2, env, *a);
                match eval_spec(g1, env, *a).0 {
                    Ok(va) => {
                        if op == BinOp::And && va == Value::Bool(false) {
                        } else if op == BinOp::Or && va == Value::Bool(true) {
                        } else if (op == BinOp::And || op == BinOp::Or) && !(va matches Value::Bool(
                            _,
                        )) {
                        } else {
                            lemma_eval_fuel_mono(g1, g2, env, *b);
                        }
                    },
                    Err(_) => {},
                }
            },
            Term::UnaryOp(_op, a) => {
                lemma_eval_fuel_mono(g1, g2, env, *a);
            },
            Term::Cond(c, th, el) => {
                lemma_eval_fuel_mono(g1, g2, env, *c);
                match eval_spec(g1, env, *c).0 {
                    Ok(Value::Bool(true)) => {
                        lemma_eval_fuel_mono(g1, g2, env, *th);
                    },
                    Ok(Value::Bool(false)) => {
                        lemma_eval_fuel_mono(g1, g2, env, *el);
                    },
                    _ => {},
                }
            },
            Term::Let(LetKind::NonRec, v, b) => {
                lemma_eval_fuel_mono(g1, g2, env, *v);
                match eval_spec(g1, env, *v).0 {
                    Ok(vv) => {
                        lemma_eval_fuel_mono(
                            g1,
                            g2,
                            Env::Cons(Box::new(vv), Box::new(env)),
                            *b,
                        );
                    },
                    Err(_) => {},
                }
            },
            Term::Let(LetKind::Rec, v, b) => {
                match v.content {
                    Term::Abs(inner) => {
                        let rc = Value::RecClosure(env, inner);
                        lemma_eval_fuel_mono(
                            g1,
                            g2,
                            Env::Cons(Box::new(rc), Box::new(env)),
                            *b,
                        );
                    },
                    _ => {},
                }
            },
            Term::Sequence(a, b) => {
                lemma_eval_fuel_mono(g1, g2, env, *a);
                match eval_spec(g1, env, *a).0 {
                    Ok(_) => {
                        lemma_eval_fuel_mono(g1, g2, env, *b);
                    },
                    Err(_) => {},
                }
            },
        }
    }
}

/// Fuel monotonicity of application; see `lemma_eval_fuel_mono`.
pub proof fn lemma_apply_fuel_mono(f1: nat, f2: nat, vf: Value, vx: Value, loc: Location)
    requires
        f1 <= f2,
        apply_spec(f1, vf, vx, loc).0 != Err::<Value, EvalError>(EvalError::OutOfFuel),
    ensures
        apply_spec(f2, vf, vx, loc) == apply_spec(f1, vf, vx, loc),
    decreases f1, 1int,
{
    match vf {
        Value::Closure(cenv, body) => {
            lemma_eval_fuel_mono(f1, f2, Env::Cons(Box::new(vx), Box::new(cenv)), *body);
        },
        Value::RecClosure(cenv, body) => {
            lemma_eval_fuel_mono(
                f1,
                f2,
                Env::Cons(
                    Box::new(vx),
                    Box::new(
                        Env::Cons(Box::new(Value::RecClosure(cenv, body)), Box::new(cenv)),
                    ),
                ),
                *body,
            );
        },
        Value::Prim(_) => {},
        _ => {},
    }
}

/// Short-circuit: `false && E` evaluates to `false` with no output, whatever
/// the term `E` is — neither the result nor the output depends on `E`.
pub proof fn lemma_and_short_circuit(
    fuel: nat,
    env: Env,
    la: Location,
    e: Located<Term>,
    loc: Location,
)
    requires
        fuel >= 2,
    ensures
        eval_spec(
            fuel,
            env,
            Located {
                content: Term::BinaryOp(
                    BinOp::And,
                    Box::new(Located { content: Term::Lit(Literal::Bool(false)), loc: la }),
                    Box::new(e),
                ),
                loc,
            },
        ) == (Ok::<Value, EvalError>(Value::Bool(false)), Seq::<char>::empty()),
{
    let f2 = (fuel - 1) as nat;
    let lit = Located { content: Term::Lit(Literal::Bool(false)), loc: la };
    assert(eval_spec(f2, env, lit) == (
        Ok::<Value, EvalError>(Value::Bool(false)),
        Seq::<char>::empty(),
    ));
}

/// Short-circuit: `true || E` evaluates to `true` with no output, whatever
/// the term `E` is — neither the result nor the output depends on `E`.
pub proof fn lemma_or_short_circuit(
    fuel: nat,
    env: Env,
    la: Location,
    e: Located<Term>,
    loc: Location,
)
    requires
        fuel >= 2,
    ensures
        eval_spec(
            fuel,
            env,
            Located {
                content: Term::BinaryOp(
                    BinOp::Or,
                    Box::new(Located { content: Term::Lit(Literal::Bool(true)), loc: la }),
                    Box::new(e),
                ),
                loc,
            },
        ) == (Ok::<Value, EvalError>(Value::Bool(true)), Seq::<char>::empty()),
{
    let f2 = (fuel - 1) as nat;
    let lit = Located { content: Term::Lit(Literal::Bool(true)), loc: la };
    assert(eval_spec(f2, env, lit) == (
        Ok::<Value, EvalError>(Value::Bool(true)),
        Seq::<char>::empty(),
    ));
}

} // verus!
