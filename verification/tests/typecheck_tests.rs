use typeinfer::ast::{
    Body, BodyNode, Case, CaseBody, CaseBodyNode, CaseNode, CaseOption, CaseOptionNode, Expr,
    ExprNode, InternalTypes, NodeInfo, Pattern, PatternNode, Span, Stmt, StmtNode, Target,
    TargetNode,
};
use typeinfer::check::check_case;
use typeinfer::env::Environment;
use typeinfer::infer::typecheck;
use typeinfer::term::Type;

// verify that typecheck(Just(0), Maybe(Bool)) fails
#[test]
fn typecheck_adt() {
    let test_info = NodeInfo { span: Span { start: 0, end: 0 }, file: String::from("") };
    let test_it = InternalTypes { bool_id: 0, maybe_id: 1, list_id: 2, cons_id: 0, nil_id: 1 };

    let mut env = Environment::new(test_it);
    env.insert_val_type(
        0,
        Type::Func(vec![Type::TVar(0)], Box::new(Type::ADT(1, vec![Type::TVar(0)]))),
    );
    let expr = ExprNode {
        val: Expr::ADTVal(
            0,
            vec![ExprNode { val: Expr::Lit(0), info: test_info.clone() }],
        ),
        info: test_info.clone(),
    };

    let res = typecheck(
        &mut env,
        &expr,
        &Type::ADT(1, vec![Type::ADT(0, vec![])]),
    );
    assert_eq!(res.is_err(), true);
}

#[test]
fn unify_unit_and_prim_fails() {
    let test_info = NodeInfo { span: Span { start: 0, end: 0 }, file: String::from("") };
    let res = typeinfer::unify::unify(
        &Type::Unit,
        &Type::Prim(String::from("Int")),
        &test_info,
    );
    assert_eq!(res.is_err(), true);
    let res = typeinfer::unify::unify(&Type::Unit, &Type::Unit, &test_info);
    assert_eq!(res.is_ok(), true);
}

// A pattern match over a two-constructor algebraic type, where one arm is
// an expression of type Int and the other a statement block whose type
// will not unify with it, raises the mixed-arm error rather than
// succeeding silently.
#[test]
fn case_with_expr_must_have_type() {
    let info = || NodeInfo { span: Span { start: 0, end: 0 }, file: String::from("") };
    let test_it = InternalTypes { bool_id: 0, maybe_id: 1, list_id: 2, cons_id: 0, nil_id: 1 };
    let mut env = Environment::new(test_it);
    env.insert_adt_type(5, Type::ADT(5, vec![]));
    env.insert_val_type(100, Type::Func(vec![], Box::new(Type::ADT(5, vec![]))));
    env.insert_val_type(101, Type::Func(vec![], Box::new(Type::ADT(5, vec![]))));

    let arm_expr = CaseOptionNode {
        val: CaseOption {
            pattern: PatternNode { val: Pattern { base: 100, args: vec![] }, info: info() },
            body: CaseBodyNode {
                val: CaseBody::Expr(ExprNode { val: Expr::Lit(3), info: info() }),
                info: info(),
            },
        },
        info: info(),
    };
    let arm_block = CaseOptionNode {
        val: CaseOption {
            pattern: PatternNode { val: Pattern { base: 101, args: vec![] }, info: info() },
            body: CaseBodyNode {
                val: CaseBody::Body(BodyNode {
                    val: Body {
                        stmts: vec![StmtNode {
                            val: Stmt::Assign(
                                TargetNode { val: Target::Bind(30), info: info() },
                                ExprNode { val: Expr::ADTVal(101, vec![]), info: info() },
                            ),
                            info: info(),
                        }],
                        expr: None,
                    },
                    info: info(),
                }),
                info: info(),
            },
        },
        info: info(),
    };
    let case = CaseNode {
        val: Case {
            expr: Box::new(ExprNode { val: Expr::ADTVal(100, vec![]), info: info() }),
            options: vec![arm_expr, arm_block],
        },
        info: info(),
    };

    let res = check_case(&mut env, &case, &Type::TVar(50));
    match res {
        Err(e) => assert_eq!(e.message, String::from("Case with expr must have type")),
        Ok(_) => panic!("expected the mixed-arm error"),
    }
}
