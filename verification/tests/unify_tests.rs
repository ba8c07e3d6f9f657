use typeinfer::ast::{NodeInfo, Span};
use typeinfer::term::{tvars, Type};
use typeinfer::unify::unify;

#[test]
fn func_tvars() {
    let ty = Type::Func(vec![Type::TVar(0)], Box::new(Type::TVar(1)));
    let res = tvars(&ty);
    assert_eq!(res.contains(&0), true);
    assert_eq!(res.contains(&1), true);
}

#[test]
fn unify_prim() {
    let test_info = NodeInfo { span: Span { start: 0, end: 0 }, file: String::from("") };

    let res = unify(
        &Type::Prim(String::from("Int")),
        &Type::Prim(String::from("Int")),
        &test_info,
    );
    assert_eq!(res.is_ok(), true);

    let res = unify(
        &Type::Prim(String::from("Int")),
        &Type::Prim(String::from("Float")),
        &test_info,
    );
    assert_eq!(res.is_ok(), false);
}

#[test]
fn unify_fn() {
    let test_info = NodeInfo { span: Span { start: 0, end: 0 }, file: String::from("") };

    let res = unify(
        &Type::Func(vec![Type::TVar(0)], Box::new(Type::TVar(0))),
        &Type::Func(
            vec![Type::Prim(String::from("Int"))],
            Box::new(Type::Prim(String::from("Int"))),
        ),
        &test_info,
    );
    assert_eq!(res.is_ok(), true);
    assert_eq!(
        *res.expect("").get(0).expect(""),
        Type::Prim(String::from("Int"))
    );

    let res = unify(
        &Type::Func(vec![Type::TVar(0)], Box::new(Type::TVar(0))),
        &Type::Func(
            vec![Type::Prim(String::from("Int"))],
            Box::new(Type::ADT(0, vec![])),
        ),
        &test_info,
    );
    assert_eq!(res.is_ok(), false);
}

#[test]
fn occurs_check_fails() {
    let test_info = NodeInfo { span: Span { start: 0, end: 0 }, file: String::from("") };
    let res = unify(
        &Type::TVar(7),
        &Type::Func(vec![Type::TVar(7)], Box::new(Type::Prim(String::from("Int")))),
        &test_info,
    );
    assert_eq!(res.is_ok(), false);
}
