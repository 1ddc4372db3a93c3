//! Pijama: a small, strictly evaluated functional language with first-class
//! functions, integers, booleans, unit, conditionals, let bindings and a
//! built-in `print` primitive.
//!
//! The crate is a linear pipeline: source text is parsed into a located
//! surface tree, lowered to a named intermediate form (MIR), type-checked by
//! constraint generation and unification, lowered again to a nameless
//! de Bruijn form (LIR), and finally evaluated by an environment machine.
use vstd::prelude::*;

pub mod ast;
pub mod lir;
pub mod machine;
pub mod mir;
pub mod parser;
pub mod ty;
pub mod tyck;

use crate::ast::{Block, Located};

verus! {

/// The first error of the pipeline, tagged with the pass that raised it.
#[derive(Debug)]
pub enum LangError {
    Parse(parser::ParseError),
    Lower(mir::LowerError),
    Ty(tyck::TyError),
    Eval(machine::EvalError),
}

/// The step budget the plain driver hands the machine.
pub const DEFAULT_FUEL: u64 = 1000000;

/// Relies on str::chars: the characters of the text, in order.
#[verifier::external_body]
fn str_chars(s: &str) -> (r: Vec<char>)
    ensures
        r@ == s@,
{
    s.chars().collect()
}

/// Relies on String::from_iter (through collect): the string holding exactly
/// these characters, in order.
#[verifier::external_body]
fn chars_string(v: &Vec<char>) -> (r: String)
    ensures
        r@ == v@,
{
    v.iter().collect()
}

/// What the pipeline owes on a parsed block under a step budget: each pass
/// fails exactly as its specification determines, and when MIR lowering,
/// type-checking and the nameless lowering all succeed, the result is the
/// machine specification's verdict — `Ok` with exactly what the program
/// printed, or the machine's error.
pub open spec fn pipeline_matches(blk: Located<Block>, fuel: nat, r: Result<
    String,
    LangError,
>) -> bool {
    match mir::lower_blk_spec(blk) {
        Err(e) => r == Err::<String, LangError>(LangError::Lower(e)),
        Ok(term) => match tyck::infer_spec(Seq::empty(), term, 0) {
            Err(e) => match r {
                Err(LangError::Ty(e2)) => tyck::ty_err_eq(e2, e),
                _ => false,
            },
            Ok(p) => match tyck::unify_spec(p.2) {
                Err(e) => match r {
                    Err(LangError::Ty(e2)) => tyck::ty_err_eq(e2, e),
                    _ => false,
                },
                Ok(_) => match lir::lower_term_spec(term, Seq::empty()) {
                    Err(e) => r == Err::<String, LangError>(LangError::Lower(e)),
                    Ok(l) => {
                        let ev = machine::eval_spec(fuel, machine::Env::Nil, l);
                        match r {
                            Ok(out) => ev.0 is Ok && out@ == ev.1,
                            Err(LangError::Eval(e)) => ev.0 == Err::<machine::Value,
                                machine::EvalError,
                            >(e),
                            _ => false,
                        }
                    },
                },
            },
        },
    }
}

/// Runs the checked passes on a parsed block: lowering to MIR,
/// type-checking, lowering to the nameless form, and evaluation under the
/// given step budget. The whole verdict is pinned by `pipeline_matches`: on
/// a block that lowers and type-checks, success is owed, with exactly the
/// output the machine's specification gives.
pub fn check_and_run(blk: Located<Block>, fuel: u64) -> (r: Result<String, LangError>)
    ensures
        pipeline_matches(blk, fuel as nat, r),
{
    let term = match mir::lower_blk(blk) {
        Ok(t) => t,
        Err(e) => {
            return Err(LangError::Lower(e));
        },
    };
    match tyck::ty_check(&term) {
        Ok(_ty) => {},
        Err(e) => {
            return Err(LangError::Ty(e));
        },
    }
    let lirt = match lir::lower_program(term) {
        Ok(l) => l,
        Err(e) => {
            return Err(LangError::Lower(e));
        },
    };
    let env = machine::Env::Nil;
    let mut out: Vec<char> = Vec::new();
    match machine::eval(fuel, &env, &lirt, &mut out) {
        Ok(_v) => {},
        Err(e) => {
            return Err(LangError::Eval(e));
        },
    }
    Ok(chars_string(&out))
}

/// Runs a source text through the whole pipeline under the given step
/// budget, returning what the program printed or the first error. Unless
/// the parser rejects the source, the result is the pipeline's pinned
/// verdict on the parsed block; the grammar itself carries no
/// specification, so the block is existentially quantified here.
pub fn run_with_fuel(source: &str, fuel: u64) -> (r: Result<String, LangError>)
    ensures
        match r {
            Err(LangError::Parse(_)) => true,
            _ => exists|blk: Located<Block>| pipeline_matches(blk, fuel as nat, r),
        },
{
    let chars = str_chars(source);
    let blk = match parser::parse_program(&chars) {
        Ok(b) => b,
        Err(e) => {
            return Err(LangError::Parse(e));
        },
    };
    let ghost blk0 = blk;
    let r = check_and_run(blk, fuel);
    proof {
        assert(pipeline_matches(blk0, fuel as nat, r));
    }
    r
}

/// Runs a source text with the default step budget; the verdict is pinned
/// as in `run_with_fuel`.
pub fn run(source: &str) -> (r: Result<String, LangError>)
    ensures
        match r {
            Err(LangError::Parse(_)) => true,
            _ => exists|blk: Located<Block>| pipeline_matches(blk, DEFAULT_FUEL as nat, r),
        },
{
    run_with_fuel(source, DEFAULT_FUEL)
}

} // verus!
