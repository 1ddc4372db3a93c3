//! The type-checker and the lowering passes on sources they must reject,
//! and the unifier on constraints built directly.
use pijama::ast::Location;
use pijama::ast::TyAst;
use pijama::mir::LowerError;
use pijama::run;
use pijama::ty::Ty;
use pijama::tyck::{unify, Constraint, TyError};
use pijama::LangError;

#[test]
fn mismatch_int_plus_bool() {
    let err = run("print(1 + true)").unwrap_err();
    match err {
        LangError::Ty(TyError::Mismatch { expected, found }) => {
            assert!(matches!(expected, Ty::Int));
            assert!(matches!(found.content, Ty::Bool));
        },
        other => panic!("wrong error: {:?}", other),
    }
}

#[test]
fn mismatch_int_condition() {
    let err = run("if 1 do 0 else 1 end").unwrap_err();
    match err {
        LangError::Ty(TyError::Mismatch { expected, found }) => {
            assert!(matches!(expected, Ty::Bool));
            assert!(matches!(found.content, Ty::Int));
        },
        other => panic!("wrong error: {:?}", other),
    }
}

#[test]
fn mismatch_statement_not_unit() {
    let err = run("1 + 1\nprint(0)").unwrap_err();
    match err {
        LangError::Ty(TyError::Mismatch { expected, found }) => {
            assert!(matches!(expected, Ty::Unit));
            assert!(matches!(found.content, Ty::Int));
        },
        other => panic!("wrong error: {:?}", other),
    }
}

#[test]
fn mismatch_wrong_argument() {
    let err = run("fn f(x: Int): Int do x end\nprint(f(true))").unwrap_err();
    match err {
        LangError::Ty(TyError::Mismatch { expected, found }) => {
            assert!(matches!(expected, Ty::Int));
            assert!(matches!(found.content, Ty::Bool));
        },
        other => panic!("wrong error: {:?}", other),
    }
}

#[test]
fn unbound_name() {
    let err = run("print(nowhere)").unwrap_err();
    assert!(matches!(err, LangError::Ty(TyError::Unbound(_, _))));
}

#[test]
fn rec_without_annotation() {
    let err = run("fn rec loop(x: Int) do loop(x) end").unwrap_err();
    assert!(matches!(err, LangError::Lower(LowerError::RecWithoutTy(_))));
}

#[test]
fn anon_with_annotation() {
    let err = run("fn (x: Int): Int do x end").unwrap_err();
    assert!(matches!(err, LangError::Lower(LowerError::AnonWithTy(_))));
}

#[test]
fn shadowed_name_is_not_recursive() {
    // the inner binding hides the function's own name, so no annotation is
    // required and the program runs
    let input = "fn f(x: Int) do\n    f = x + 1\n    print(f)\nend\nf(0)";
    assert_eq!("1\n", run(input).unwrap());
}

fn sample_ty() -> Ty {
    Ty::Arrow(
        Box::new(Ty::Int),
        Box::new(Ty::Arrow(Box::new(Ty::Var(3)), Box::new(Ty::Bool))),
    )
}

#[test]
fn unify_equal_types_gives_empty_substitution() {
    let here = Location::new(0, 0);
    for t in [Ty::Bool, Ty::Int, Ty::Unit, Ty::Var(7), sample_ty()] {
        let cs = vec![Constraint { expected: t.duplicate(), found: t, loc: here }];
        let sub = unify(cs).unwrap();
        assert!(sub.is_empty());
    }
}

#[test]
fn unify_occurs_check_fails() {
    let here = Location::new(3, 9);
    let inside = Ty::Arrow(Box::new(Ty::Var(2)), Box::new(Ty::Int));
    let cs = vec![Constraint { expected: Ty::Var(2), found: inside, loc: here }];
    match unify(cs).unwrap_err() {
        TyError::RecursiveType(u, loc) => {
            assert_eq!(u, 2);
            assert_eq!(loc, here);
        },
        other => panic!("wrong error: {:?}", other),
    }
}

#[test]
fn unify_binds_variable() {
    let here = Location::new(0, 0);
    let cs = vec![Constraint { expected: Ty::Var(0), found: Ty::Int, loc: here }];
    let sub = unify(cs).unwrap();
    assert_eq!(sub.len(), 1);
    assert_eq!(sub[0].0, 0);
    assert!(matches!(sub[0].1, Ty::Int));
}

#[test]
fn ty_contains_looks_inside_arrows() {
    let t = sample_ty();
    assert!(t.contains(3));
    assert!(!t.contains(4));
}

#[test]
fn from_ast_maps_annotations() {
    let t = TyAst::Arrow(Box::new(TyAst::Int), Box::new(TyAst::Bool));
    let ty = Ty::from_ast(t).unwrap();
    assert!(matches!(ty, Ty::Arrow(_, _)));
    assert!(Ty::from_ast(TyAst::Missing).is_none());
    let holed = TyAst::Arrow(Box::new(TyAst::Missing), Box::new(TyAst::Bool));
    assert!(Ty::from_ast(holed).is_none());
}

#[test]
fn lower_error_reports_its_span() {
    let err = LowerError::AnonWithTy(Location::new(4, 7));
    assert_eq!(err.loc(), Location::new(4, 7));
}

#[test]
fn equality_works_on_booleans() {
    assert_eq!("1\n", run("print(true == true)").unwrap());
    assert_eq!("0\n", run("print(true != true)").unwrap());
}
