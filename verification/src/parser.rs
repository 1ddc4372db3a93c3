//! The parser: a tokenizer and a recursive-descent grammar over the token
//! stream, producing the located surface tree. Statements are sequenced
//! into blocks; operator precedence is climbed level by level.
use vstd::prelude::*;

use crate::ast::{BinOp, Block, Branch, Literal, Located, Location, Name, Node, Prim, TyAst, UnOp};
use crate::ty::{Binding, Ty};

verus! {

/// A syntax error, pointing at the offending span.
#[derive(Clone, Copy, PartialEq, Eq, Structural, Debug)]
pub struct ParseError {
    pub loc: Location,
}

/// The kinds of token the tokenizer produces.
#[derive(Debug)]
pub enum TokKind {
    Ident(Name),
    IntLit(i64),
    KwFn,
    KwRec,
    KwDo,
    KwEnd,
    KwIf,
    KwElse,
    KwTrue,
    KwFalse,
    KwUnit,
    KwBool,
    KwInt,
    KwUnitTy,
    KwPrint,
    LParen,
    RParen,
    Comma,
    Colon,
    Assign,
    Arrow,
    Plus,
    Minus,
    Star,
    Slash,
    Percent,
    Amp,
    AmpAmp,
    Pipe,
    PipePipe,
    Caret,
    Shl,
    Shr,
    Lt,
    Gt,
    Le,
    Ge,
    EqEq,
    BangEq,
    Bang,
}

/// A token with its source span.
#[derive(Debug)]
pub struct Token {
    pub kind: TokKind,
    pub loc: Location,
}

/// Classifies an identifier: a reserved word or a plain name.
fn classify(n: Name) -> (r: TokKind) {
    let k: usize = n.len();
    if k == 2 && n[0] == 'f' && n[1] == 'n' {
        TokKind::KwFn
    } else if k == 3 && n[0] == 'r' && n[1] == 'e' && n[2] == 'c' {
        TokKind::KwRec
    } else if k == 2 && n[0] == 'd' && n[1] == 'o' {
        TokKind::KwDo
    } else if k == 3 && n[0] == 'e' && n[1] == 'n' && n[2] == 'd' {
        TokKind::KwEnd
    } else if k == 2 && n[0] == 'i' && n[1] == 'f' {
        TokKind::KwIf
    } else if k == 4 && n[0] == 'e' && n[1] == 'l' && n[2] == 's' && n[3] == 'e' {
        TokKind::KwElse
    } else if k == 4 && n[0] == 't' && n[1] == 'r' && n[2] == 'u' && n[3] == 'e' {
        TokKind::KwTrue
    } else if k == 5 && n[0] == 'f' && n[1] == 'a' && n[2] == 'l' && n[3] == 's' && n[4] == 'e' {
        TokKind::KwFalse
    } else if k == 4 && n[0] == 'u' && n[1] == 'n' && n[2] == 'i' && n[3] == 't' {
        TokKind::KwUnit
    } else if k == 4 && n[0] == 'B' && n[1] == 'o' && n[2] == 'o' && n[3] == 'l' {
        TokKind::KwBool
    } else if k == 3 && n[0] == 'I' && n[1] == 'n' && n[2] == 't' {
        TokKind::KwInt
    } else if k == 4 && n[0] == 'U' && n[1] == 'n' && n[2] == 'i' && n[3] == 't' {
        TokKind::KwUnitTy
    } else if k == 5 && n[0] == 'p' && n[1] == 'r' && n[2] == 'i' && n[3] == 'n' && n[4] == 't' {
        TokKind::KwPrint
    } else {
        TokKind::Ident(n)
    }
}

/// Whether a character is alphabetic; names are alphabetic runs separated
/// by single underscores.
fn is_alpha(c: char) -> (r: bool)
    ensures
        r == ((c >= 'a' && c <= 'z') || (c >= 'A' && c <= 'Z')),
{
    (c >= 'a' && c <= 'z') || (c >= 'A' && c <= 'Z')
}

/// The value of a digit in the given base, if it is one.
fn digit_val(c: char, base: u64) -> (r: Option<u64>)
    ensures
        r matches Some(v) ==> v < base,
        (c >= '0' && c <= '9' && (c as int) - ('0' as int) < base) ==> r is Some,
{
    let v: u64 = if c >= '0' && c <= '9' {
        (c as u64) - ('0' as u64)
    } else if c >= 'a' && c <= 'f' {
        (c as u64) - ('a' as u64) + 10
    } else if c >= 'A' && c <= 'F' {
        (c as u64) - ('A' as u64) + 10
    } else {
        64
    };
    if v < base {
        Some(v)
    } else {
        None
    }
}

/// Splits the source characters into tokens; integer literals out of the
/// 64-bit signed range are a syntax error.
#[verifier::loop_isolation(false)]
pub fn tokenize(src: &Vec<char>) -> (r: Result<Vec<Token>, ParseError>) {
    let mut toks: Vec<Token> = Vec::new();
    let mut i: usize = 0;
    let n = src.len();
    while i < n
        invariant
            n == src@.len(),
        decreases n - i,
    {
        let c = src[i];
        if c == ' ' || c == '\t' || c == '\r' || c == '\n' {
            i += 1;
        } else if c == '#' {
            let ghost i0 = i as int;
            while i < n && src[i] != '\n'
                invariant
                    n == src@.len(),
                    i0 <= i,
                    i <= n,
                decreases n - i,
            {
                i += 1;
            }
        } else if is_alpha(c) {
            let start = i;
            let mut name: Name = Vec::new();
            while i < n && ((src[i] >= 'a' && src[i] <= 'z') || (src[i] >= 'A' && src[i] <= 'Z'))
                invariant
                    n == src@.len(),
                    start <= i,
                    i <= n,
                decreases n - i,
            {
                name.push(src[i]);
                i += 1;
            }
            let ghost a0 = i as int;
            while i < n && src[i] == '_' && i + 1 < n && ((src[i + 1] >= 'a' && src[i + 1] <= 'z')
                || (src[i + 1] >= 'A' && src[i + 1] <= 'Z'))
                invariant
                    n == src@.len(),
                    a0 <= i,
                    i <= n,
                decreases n - i,
            {
                name.push('_');
                i += 1;
                let ghost j0 = i as int;
                while i < n && ((src[i] >= 'a' && src[i] <= 'z') || (src[i] >= 'A' && src[i]
                    <= 'Z'))
                    invariant
                        n == src@.len(),
                        j0 <= i,
                        i <= n,
                    decreases n - i,
                {
                    name.push(src[i]);
                    i += 1;
                }
            }
            toks.push(Token { kind: classify(name), loc: Location::new(start, i) });
        } else if c >= '0' && c <= '9' {
            let start = i;
            let mut base: u64 = 10;
            if c == '0' && i + 1 < n && (src[i + 1] == 'x' || src[i + 1] == 'o' || src[i + 1]
                == 'b') {
                base = if src[i + 1] == 'x' {
                    16
                } else if src[i + 1] == 'o' {
                    8
                } else {
                    2
                };
                i += 2;
            }
            let mut value: u64 = 0;
            let mut any = false;
            let ghost i0 = i as int;
            loop
                invariant
                    n == src@.len(),
                    i <= n,
                    value <= 0x7fff_ffff_ffff_ffffu64,
                    1 < base <= 16,
                    any ==> i0 < i,
                    !any ==> i0 == i,
                decreases n - i,
            {
                if i >= n {
                    break ;
                }
                let d = match digit_val(src[i], base) {
                    Some(d) => d,
                    None => { break  },
                };
                if value > (0x7fff_ffff_ffff_ffffu64 - d) / base {
                    return Err(ParseError { loc: Location::new(start, i + 1) });
                }
                proof {
                    let m: int = 0x7fff_ffff_ffff_ffff;
                    vstd::arithmetic::div_mod::lemma_fundamental_div_mod(m - d, base as int);
                    vstd::arithmetic::mul::lemma_mul_inequality(
                        value as int,
                        (m - d) / (base as int),
                        base as int,
                    );
                }
                value = value * base + d;
                any = true;
                i += 1;
            }
            if !any {
                return Err(ParseError { loc: Location::new(start, i) });
            }
            toks.push(
                Token { kind: TokKind::IntLit(value as i64), loc: Location::new(start, i) },
            );
        } else if c == '(' {
            toks.push(Token { kind: TokKind::LParen, loc: Location::new(i, i + 1) });
            i += 1;
        } else if c == ')' {
            toks.push(Token { kind: TokKind::RParen, loc: Location::new(i, i + 1) });
            i += 1;
        } else if c == ',' {
            toks.push(Token { kind: TokKind::Comma, loc: Location::new(i, i + 1) });
            i += 1;
        } else if c == ':' {
            toks.push(Token { kind: TokKind::Colon, loc: Location::new(i, i + 1) });
            i += 1;
        } else if c == '+' {
            toks.push(Token { kind: TokKind::Plus, loc: Location::new(i, i + 1) });
            i += 1;
        } else if c == '*' {
            toks.push(Token { kind: TokKind::Star, loc: Location::new(i, i + 1) });
            i += 1;
        } else if c == '/' {
            toks.push(Token { kind: TokKind::Slash, loc: Location::new(i, i + 1) });
            i += 1;
        } else if c == '%' {
            toks.push(Token { kind: TokKind::Percent, loc: Location::new(i, i + 1) });
            i += 1;
        } else if c == '^' {
            toks.push(Token { kind: TokKind::Caret, loc: Location::new(i, i + 1) });
            i += 1;
        } else if c == '-' {
            if i + 1 < n && src[i + 1] == '>' {
                toks.push(Token { kind: TokKind::Arrow, loc: Location::new(i, i + 2) });
                i += 2;
            } else {
                toks.push(Token { kind: TokKind::Minus, loc: Location::new(i, i + 1) });
                i += 1;
            }
        } else if c == '=' {
            if i + 1 < n && src[i + 1] == '=' {
                toks.push(Token { kind: TokKind::EqEq, loc: Location::new(i, i + 2) });
                i += 2;
            } else {
                toks.push(Token { kind: TokKind::Assign, loc: Location::new(i, i + 1) });
                i += 1;
            }
        } else if c == '!' {
            if i + 1 < n && src[i + 1] == '=' {
                toks.push(Token { kind: TokKind::BangEq, loc: Location::new(i, i + 2) });
                i += 2;
            } else {
                toks.push(Token { kind: TokKind::Bang, loc: Location::new(i, i + 1) });
                i += 1;
            }
        } else if c == '<' {
            if i + 1 < n && src[i + 1] == '<' {
                toks.push(Token { kind: TokKind::Shl, loc: Location::new(i, i + 2) });
                i += 2;
            } else if i + 1 < n && src[i + 1] == '=' {
                toks.push(Token { kind: TokKind::Le, loc: Location::new(i, i + 2) });
                i += 2;
            } else {
                toks.push(Token { kind: TokKind::Lt, loc: Location::new(i, i + 1) });
                i += 1;
            }
        } else if c == '>' {
            if i + 1 < n && src[i + 1] == '>' {
                toks.push(Token { kind: TokKind::Shr, loc: Location::new(i, i + 2) });
                i += 2;
            } else if i + 1 < n && src[i + 1] == '=' {
                toks.push(Token { kind: TokKind::Ge, loc: Location::new(i, i + 2) });
                i += 2;
            } else {
                toks.push(Token { kind: TokKind::Gt, loc: Location::new(i, i + 1) });
                i += 1;
            }
        } else if c == '&' {
            if i + 1 < n && src[i + 1] == '&' {
                toks.push(Token { kind: TokKind::AmpAmp, loc: Location::new(i, i + 2) });
                i += 2;
            } else {
                toks.push(Token { kind: TokKind::Amp, loc: Location::new(i, i + 1) });
                i += 1;
            }
        } else if c == '|' {
            if i + 1 < n && src[i + 1] == '|' {
                toks.push(Token { kind: TokKind::PipePipe, loc: Location::new(i, i + 2) });
                i += 2;
            } else {
                toks.push(Token { kind: TokKind::Pipe, loc: Location::new(i, i + 1) });
                i += 1;
            }
        } else {
            return Err(ParseError { loc: Location::new(i, i + 1) });
        }
    }
    Ok(toks)
}

/// The span of the token at `pos`, or an empty span at the end.
fn loc_at(toks: &Vec<Token>, pos: usize) -> (r: Location) {
    if pos < toks.len() {
        toks[pos].loc
    } else if toks.len() > 0 {
        toks[toks.len() - 1].loc
    } else {
        Location::new(0, 0)
    }
}

/// The binary operator standing at `pos` if it belongs to the given
/// precedence level (0 loosest, 9 tightest).
fn level_op(toks: &Vec<Token>, pos: usize, level: usize) -> (r: Option<BinOp>)
    ensures
        r is Some ==> pos < toks@.len(),
{
    if pos >= toks.len() {
        return None;
    }
    match &toks[pos].kind {
        TokKind::PipePipe => if level == 0 {
            Some(BinOp::Or)
        } else {
            None
        },
        TokKind::AmpAmp => if level == 1 {
            Some(BinOp::And)
        } else {
            None
        },
        TokKind::Pipe => if level == 2 {
            Some(BinOp::BitOr)
        } else {
            None
        },
        TokKind::Caret => if level == 3 {
            Some(BinOp::BitXor)
        } else {
            None
        },
        TokKind::Amp => if level == 4 {
            Some(BinOp::BitAnd)
        } else {
            None
        },
        TokKind::EqEq => if level == 5 {
            Some(BinOp::Equal)
        } else {
            None
        },
        TokKind::BangEq => if level == 5 {
            Some(BinOp::NotEqual)
        } else {
            None
        },
        TokKind::Lt => if level == 6 {
            Some(BinOp::Lt)
        } else {
            None
        },
        TokKind::Le => if level == 6 {
            Some(BinOp::Lte)
        } else {
            None
        },
        TokKind::Gt => if level == 6 {
            Some(BinOp::Gt)
        } else {
            None
        },
        TokKind::Ge => if level == 6 {
            Some(BinOp::Gte)
        } else {
            None
        },
        TokKind::Shl => if level == 7 {
            Some(BinOp::Shl)
        } else {
            None
        },
        TokKind::Shr => if level == 7 {
            Some(BinOp::Shr)
        } else {
            None
        },
        TokKind::Plus => if level == 8 {
            Some(BinOp::Add)
        } else {
            None
        },
        TokKind::Minus => if level == 8 {
            Some(BinOp::Sub)
        } else {
            None
        },
        TokKind::Star => if level == 9 {
            Some(BinOp::Mul)
        } else {
            None
        },
        TokKind::Slash => if level == 9 {
            Some(BinOp::Div)
        } else {
            None
        },
        TokKind::Percent => if level == 9 {
            Some(BinOp::Rem)
        } else {
            None
        },
        _ => None,
    }
}

/// Whether the token at `pos` ends a block: `do`, `else`, `end`, or the end
/// of the input.
fn at_block_end(toks: &Vec<Token>, pos: usize) -> (r: bool) {
    if pos >= toks.len() {
        return true;
    }
    matches!(&toks[pos].kind, TokKind::KwDo | TokKind::KwElse | TokKind::KwEnd)
}

/// Parses a type atom: `Bool`, `Int`, `Unit` or a parenthesized type.
fn parse_ty_atom(toks: &Vec<Token>, pos: usize) -> (r: Result<(TyAst, Location, usize), ParseError>)
    requires
        pos <= toks@.len(),
    ensures
        r matches Ok(p) ==> pos < p.2 <= toks@.len(),
    decreases toks@.len() - pos, 0int,
{
    if pos >= toks.len() {
        return Err(ParseError { loc: loc_at(toks, pos) });
    }
    match &toks[pos].kind {
        TokKind::KwBool => Ok((TyAst::Bool, toks[pos].loc, pos + 1)),
        TokKind::KwInt => Ok((TyAst::Int, toks[pos].loc, pos + 1)),
        TokKind::KwUnitTy => Ok((TyAst::Unit, toks[pos].loc, pos + 1)),
        TokKind::LParen => {
            let (t, l, p2) = match parse_ty(toks, pos + 1) {
                Ok(x) => x,
                Err(e) => { return Err(e) },
            };
            if p2 < toks.len() && matches!(&toks[p2].kind, TokKind::RParen) {
                Ok((t, Location::new(toks[pos].loc.start, toks[p2].loc.end), p2 + 1))
            } else {
                Err(ParseError { loc: loc_at(toks, p2) })
            }
        },
        _ => Err(ParseError { loc: toks[pos].loc }),
    }
}

/// Parses a type: atoms joined by right-associative arrows.
fn parse_ty(toks: &Vec<Token>, pos: usize) -> (r: Result<(TyAst, Location, usize), ParseError>)
    requires
        pos <= toks@.len(),
    ensures
        r matches Ok(p) ==> pos < p.2 <= toks@.len(),
    decreases toks@.len() - pos, 1int,
{
    let (left, lloc, p1) = match parse_ty_atom(toks, pos) {
        Ok(x) => x,
        Err(e) => { return Err(e) },
    };
    if p1 < toks.len() && matches!(&toks[p1].kind, TokKind::Arrow) {
        let (right, rloc, p2) = match parse_ty(toks, p1 + 1) {
            Ok(x) => x,
            Err(e) => { return Err(e) },
        };
        Ok(
            (
                TyAst::Arrow(Box::new(left), Box::new(right)),
                Location::new(lloc.start, rloc.end),
                p2,
            ),
        )
    } else {
        Ok((left, lloc, p1))
    }
}

/// Converts a parsed annotation to an internal type; a `Missing` part is a
/// syntax error (the grammar never produces one).
fn ty_of_ast(t: TyAst, loc: Location) -> (r: Result<Ty, ParseError>) {
    match Ty::from_ast(t) {
        Some(ty) => Ok(ty),
        None => Err(ParseError { loc }),
    }
}

/// Parses a node: the entry point of the expression grammar.
pub fn node(toks: &Vec<Token>, pos: usize) -> (r: Result<(Located<Node>, usize), ParseError>)
    requires
        pos <= toks@.len(),
    ensures
        r matches Ok(p) ==> pos < p.1 <= toks@.len(),
    decreases toks@.len() - pos, 13int,
{
    parse_bin(toks, pos, 0)
}

/// Parses one precedence level of left-associative binary operators.
#[verifier::loop_isolation(false)]
fn parse_bin(toks: &Vec<Token>, pos: usize, level: usize) -> (r: Result<
    (Located<Node>, usize),
    ParseError,
>)
    requires
        pos <= toks@.len(),
        level <= 10,
    ensures
        r matches Ok(p) ==> pos < p.1 <= toks@.len(),
    decreases toks@.len() - pos, 12int - level,
{
    if level == 10 {
        return parse_unary(toks, pos);
    }
    let (first, p1) = match parse_bin(toks, pos, level + 1) {
        Ok(x) => x,
        Err(e) => { return Err(e) },
    };
    let mut left = first;
    let mut p = p1;
    loop
        invariant
            pos < p <= toks@.len(),
            level <= 9,
        decreases toks@.len() - p,
    {
        let op = match level_op(toks, p, level) {
            Some(op) => op,
            None => { break  },
        };
        let tn = toks.len();
        proof {
            assert(p < tn);
        }
        let (right, p2) = match parse_bin(toks, p + 1, level + 1) {
            Ok(x) => x,
            Err(e) => { return Err(e) },
        };
        let loc = Location::new(left.loc.start, right.loc.end);
        left = Located::new(Node::BinaryOp(op, Box::new(left), Box::new(right)), loc);
        p = p2;
    }
    Ok((left, p))
}

/// Parses a unary operation or hands over to the atoms.
fn parse_unary(toks: &Vec<Token>, pos: usize) -> (r: Result<(Located<Node>, usize), ParseError>)
    requires
        pos <= toks@.len(),
    ensures
        r matches Ok(p) ==> pos < p.1 <= toks@.len(),
    decreases toks@.len() - pos, 1int,
{
    if pos < toks.len() && matches!(&toks[pos].kind, TokKind::Minus) {
        let (inner, p2) = match parse_unary(toks, pos + 1) {
            Ok(x) => x,
            Err(e) => { return Err(e) },
        };
        let loc = Location::new(toks[pos].loc.start, inner.loc.end);
        Ok((Located::new(Node::UnaryOp(UnOp::Neg, Box::new(inner)), loc), p2))
    } else if pos < toks.len() && matches!(&toks[pos].kind, TokKind::Bang) {
        let (inner, p2) = match parse_unary(toks, pos + 1) {
            Ok(x) => x,
            Err(e) => { return Err(e) },
        };
        let loc = Location::new(toks[pos].loc.start, inner.loc.end);
        Ok((Located::new(Node::UnaryOp(UnOp::Not, Box::new(inner)), loc), p2))
    } else {
        parse_atom(toks, pos)
    }
}

/// Parses trailing argument lists: each `(args)` wraps the callee in a call.
#[verifier::loop_isolation(false)]
fn parse_call_suffix(toks: &Vec<Token>, pos: usize, callee: Located<Node>) -> (r: Result<
    (Located<Node>, usize),
    ParseError,
>)
    requires
        pos <= toks@.len(),
    ensures
        r matches Ok(p) ==> pos <= p.1 <= toks@.len(),
    decreases toks@.len() - pos, 0int,
{
    let mut left = callee;
    let mut p = pos;
    while p < toks.len() && matches!(&toks[p].kind, TokKind::LParen)
        invariant
            pos <= p <= toks@.len(),
        decreases toks@.len() - p,
    {
        let mut args: Vec<Located<Node>> = Vec::new();
        let mut q = p + 1;
        if q < toks.len() && matches!(&toks[q].kind, TokKind::RParen) {
            // no arguments
        } else {
            let (a, q2) = match node(toks, q) {
                Ok(x) => x,
                Err(e) => { return Err(e) },
            };
            args.push(a);
            q = q2;
            while q < toks.len() && matches!(&toks[q].kind, TokKind::Comma)
                invariant
                    p < q <= toks@.len(),
                decreases toks@.len() - q,
            {
                let (a2, q3) = match node(toks, q + 1) {
                    Ok(x) => x,
                    Err(e) => { return Err(e) },
                };
                args.push(a2);
                q = q3;
            }
        }
        if !(q < toks.len() && matches!(&toks[q].kind, TokKind::RParen)) {
            return Err(ParseError { loc: loc_at(toks, q) });
        }
        let loc = Location::new(left.loc.start, toks[q].loc.end);
        left = Located::new(Node::Call(Box::new(left), args), loc);
        p = q + 1;
    }
    Ok((left, p))
}

/// Parses an atom: a literal, a name or a binding introduced by one, the
/// `print` primitive, a parenthesized node, a conditional or a function
/// definition, each with any trailing argument lists.
fn parse_atom(toks: &Vec<Token>, pos: usize) -> (r: Result<(Located<Node>, usize), ParseError>)
    requires
        pos <= toks@.len(),
    ensures
        r matches Ok(p) ==> pos < p.1 <= toks@.len(),
    decreases toks@.len() - pos, 0int,
{
    if pos >= toks.len() {
        return Err(ParseError { loc: loc_at(toks, pos) });
    }
    let loc0 = toks[pos].loc;
    match &toks[pos].kind {
        TokKind::IntLit(v) => Ok((Located::new(Node::Literal(Literal::Int(*v)), loc0), pos + 1)),
        TokKind::KwTrue => Ok((Located::new(Node::Literal(Literal::Bool(true)), loc0), pos + 1)),
        TokKind::KwFalse => Ok((Located::new(Node::Literal(Literal::Bool(false)), loc0), pos + 1)),
        TokKind::KwUnit => Ok((Located::new(Node::Literal(Literal::Unit), loc0), pos + 1)),
        TokKind::KwPrint => parse_call_suffix(
            toks,
            pos + 1,
            Located::new(Node::PrimFn(Prim::Print), loc0),
        ),
        TokKind::LParen => {
            let (inner, p2) = match node(toks, pos + 1) {
                Ok(x) => x,
                Err(e) => { return Err(e) },
            };
            if !(p2 < toks.len() && matches!(&toks[p2].kind, TokKind::RParen)) {
                return Err(ParseError { loc: loc_at(toks, p2) });
            }
            let grouped = Located::new(inner.content, Location::new(loc0.start, toks[p2].loc.end));
            parse_call_suffix(toks, p2 + 1, grouped)
        },
        TokKind::KwIf => parse_if(toks, pos + 1, loc0),
        TokKind::KwFn => parse_fn(toks, pos + 1, loc0),
        TokKind::Ident(name) => {
            let name = crate::ast::name_clone(name);
            if pos + 1 < toks.len() && matches!(&toks[pos + 1].kind, TokKind::Assign) {
                let (rhs, p2) = match node(toks, pos + 2) {
                    Ok(x) => x,
                    Err(e) => { return Err(e) },
                };
                let loc = Location::new(loc0.start, rhs.loc.end);
                Ok(
                    (
                        Located::new(
                            Node::LetBind(Located::new(name, loc0), None, Box::new(rhs)),
                            loc,
                        ),
                        p2,
                    ),
                )
            } else if pos + 1 < toks.len() && matches!(&toks[pos + 1].kind, TokKind::Colon) {
                let (t, tloc, p2) = match parse_ty(toks, pos + 2) {
                    Ok(x) => x,
                    Err(e) => { return Err(e) },
                };
                let ty = match ty_of_ast(t, tloc) {
                    Ok(x) => x,
                    Err(e) => { return Err(e) },
                };
                if !(p2 < toks.len() && matches!(&toks[p2].kind, TokKind::Assign)) {
                    return Err(ParseError { loc: loc_at(toks, p2) });
                }
                let (rhs, p3) = match node(toks, p2 + 1) {
                    Ok(x) => x,
                    Err(e) => { return Err(e) },
                };
                let loc = Location::new(loc0.start, rhs.loc.end);
                Ok(
                    (
                        Located::new(
                            Node::LetBind(
                                Located::new(name, loc0),
                                Some(Located::new(ty, tloc)),
                                Box::new(rhs),
                            ),
                            loc,
                        ),
                        p3,
                    ),
                )
            } else {
                parse_call_suffix(toks, pos + 1, Located::new(Node::Name(name), loc0))
            }
        },
        _ => Err(ParseError { loc: loc0 }),
    }
}

/// Parses a block: nodes up to `do`, `else`, `end` or the end of input.
#[verifier::loop_isolation(false)]
fn parse_block(toks: &Vec<Token>, pos: usize) -> (r: Result<
    (Located<Block>, usize),
    ParseError,
>)
    requires
        pos <= toks@.len(),
    ensures
        r matches Ok(p) ==> pos <= p.1 <= toks@.len(),
    decreases toks@.len() - pos, 16int,
{
    let mut nodes: Vec<Located<Node>> = Vec::new();
    let mut p = pos;
    let start = loc_at(toks, pos).start;
    let mut end = start;
    while !at_block_end(toks, p)
        invariant
            pos <= p <= toks@.len(),
        decreases toks@.len() - p,
    {
        let (nd, p2) = match node(toks, p) {
            Ok(x) => x,
            Err(e) => { return Err(e) },
        };
        end = nd.loc.end;
        nodes.push(nd);
        p = p2;
    }
    Ok((Located::new(nodes, Location::new(start, end)), p))
}

/// Parses a conditional: `if` block `do` block, any number of `else if`
/// arms, a final `else` block, and `end`.
#[verifier::loop_isolation(false)]
fn parse_if(toks: &Vec<Token>, pos: usize, loc0: Location) -> (r: Result<
    (Located<Node>, usize),
    ParseError,
>)
    requires
        pos <= toks@.len(),
    ensures
        r matches Ok(p) ==> pos <= p.1 <= toks@.len(),
    decreases toks@.len() - pos, 17int,
{
    let (cond, p1) = match parse_block(toks, pos) {
        Ok(x) => x,
        Err(e) => { return Err(e) },
    };
    if !(p1 < toks.len() && matches!(&toks[p1].kind, TokKind::KwDo)) {
        return Err(ParseError { loc: loc_at(toks, p1) });
    }
    let (body, p2) = match parse_block(toks, p1 + 1) {
        Ok(x) => x,
        Err(e) => { return Err(e) },
    };
    let if_branch = Branch { cond, body };
    let mut branches: Vec<Branch> = Vec::new();
    let mut p = p2;
    loop
        invariant
            pos <= p <= toks@.len(),
        decreases toks@.len() - p,
    {
        if !(p < toks.len() && matches!(&toks[p].kind, TokKind::KwElse)) {
            return Err(ParseError { loc: loc_at(toks, p) });
        }
        if p + 1 < toks.len() && matches!(&toks[p + 1].kind, TokKind::KwIf) {
            let (c2, q1) = match parse_block(toks, p + 2) {
                Ok(x) => x,
                Err(e) => { return Err(e) },
            };
            if !(q1 < toks.len() && matches!(&toks[q1].kind, TokKind::KwDo)) {
                return Err(ParseError { loc: loc_at(toks, q1) });
            }
            let (b2, q2) = match parse_block(toks, q1 + 1) {
                Ok(x) => x,
                Err(e) => { return Err(e) },
            };
            branches.push(Branch { cond: c2, body: b2 });
            p = q2;
        } else {
            let (el_blk, q1) = match parse_block(toks, p + 1) {
                Ok(x) => x,
                Err(e) => { return Err(e) },
            };
            if !(q1 < toks.len() && matches!(&toks[q1].kind, TokKind::KwEnd)) {
                return Err(ParseError { loc: loc_at(toks, q1) });
            }
            let loc = Location::new(loc0.start, toks[q1].loc.end);
            return Ok(
                (
                    Located::new(Node::Cond(if_branch, branches, el_blk), loc),
                    q1 + 1,
                ),
            );
        }
    }
}

/// Parses a function definition: `fn`, an optional `rec` marker, an
/// optional name, the parenthesized typed parameters, an optional return
/// annotation, and a `do` block `end` body.
#[verifier::loop_isolation(false)]
fn parse_fn(toks: &Vec<Token>, pos: usize, loc0: Location) -> (r: Result<
    (Located<Node>, usize),
    ParseError,
>)
    requires
        pos <= toks@.len(),
    ensures
        r matches Ok(p) ==> pos <= p.1 <= toks@.len(),
    decreases toks@.len() - pos, 17int,
{
    let mut p = pos;
    if p < toks.len() && matches!(&toks[p].kind, TokKind::KwRec) {
        p += 1;
    }
    let opt_name: Option<Located<Name>> = if p < toks.len() && matches!(
        &toks[p].kind,
        TokKind::Ident(_),
    ) {
        let n = match &toks[p].kind {
            TokKind::Ident(n) => crate::ast::name_clone(n),
            _ => unreached(),
        };
        let ln = Located::new(n, toks[p].loc);
        p += 1;
        Some(ln)
    } else {
        None
    };
    if !(p < toks.len() && matches!(&toks[p].kind, TokKind::LParen)) {
        return Err(ParseError { loc: loc_at(toks, p) });
    }
    p += 1;
    let mut binds: Vec<Located<Binding>> = Vec::new();
    if p < toks.len() && matches!(&toks[p].kind, TokKind::RParen) {
        p += 1;
    } else {
        loop
            invariant
                pos <= p <= toks@.len(),
            decreases toks@.len() - p,
        {
            if !(p < toks.len() && matches!(&toks[p].kind, TokKind::Ident(_))) {
                return Err(ParseError { loc: loc_at(toks, p) });
            }
            let pn = match &toks[p].kind {
                TokKind::Ident(n) => crate::ast::name_clone(n),
                _ => unreached(),
            };
            let ploc = toks[p].loc;
            p += 1;
            if !(p < toks.len() && matches!(&toks[p].kind, TokKind::Colon)) {
                return Err(ParseError { loc: loc_at(toks, p) });
            }
            let (t, tloc, p2) = match parse_ty(toks, p + 1) {
                Ok(x) => x,
                Err(e) => { return Err(e) },
            };
            let ty = match ty_of_ast(t, tloc) {
                Ok(x) => x,
                Err(e) => { return Err(e) },
            };
            binds.push(
                Located::new(Binding { name: pn, ty }, Location::new(ploc.start, tloc.end)),
            );
            p = p2;
            if p < toks.len() && matches!(&toks[p].kind, TokKind::Comma) {
                p += 1;
            } else if p < toks.len() && matches!(&toks[p].kind, TokKind::RParen) {
                p += 1;
                break ;
            } else {
                return Err(ParseError { loc: loc_at(toks, p) });
            }
        }
    }
    let opt_ty: Option<Located<Ty>> = if p < toks.len() && matches!(
        &toks[p].kind,
        TokKind::Colon,
    ) {
        let (t, tloc, p2) = match parse_ty(toks, p + 1) {
            Ok(x) => x,
            Err(e) => { return Err(e) },
        };
        let ty = match ty_of_ast(t, tloc) {
            Ok(x) => x,
            Err(e) => { return Err(e) },
        };
        p = p2;
        Some(Located::new(ty, tloc))
    } else {
        None
    };
    if !(p < toks.len() && matches!(&toks[p].kind, TokKind::KwDo)) {
        return Err(ParseError { loc: loc_at(toks, p) });
    }
    let (body, p2) = match parse_block(toks, p + 1) {
        Ok(x) => x,
        Err(e) => { return Err(e) },
    };
    if !(p2 < toks.len() && matches!(&toks[p2].kind, TokKind::KwEnd)) {
        return Err(ParseError { loc: loc_at(toks, p2) });
    }
    let loc = Location::new(loc0.start, toks[p2].loc.end);
    Ok((Located::new(Node::FnDef(opt_name, binds, body, opt_ty), loc), p2 + 1))
}

/// Parses a whole program: a block covering every token of the source.
pub fn parse_program(src: &Vec<char>) -> (r: Result<Located<Block>, ParseError>) {
    let toks = match tokenize(src) {
        Ok(t) => t,
        Err(e) => { return Err(e) },
    };
    let (blk, p) = match parse_block(&toks, 0) {
        Ok(x) => x,
        Err(e) => { return Err(e) },
    };
    if p < toks.len() {
        return Err(ParseError { loc: toks[p].loc });
    }
    Ok(blk)
}

} // verus!
