use typeinfer::ast::{
    Body, BodyNode, Expr, ExprNode, Func, FuncNode, InternalTypes, NodeInfo, Prog, Span, Stmt,
    StmtNode, Symbol, SymbolTable, Target, TargetNode, TypeDecl, TypeTable,
};
use typeinfer::env::Environment;
use typeinfer::prog::{check_func, check_prog};
use typeinfer::term::Type;

fn info() -> NodeInfo {
    NodeInfo { span: Span { start: 0, end: 0 }, file: String::from("") }
}

fn expr(val: Expr) -> ExprNode {
    ExprNode { val, info: info() }
}

fn internals() -> InternalTypes {
    InternalTypes { bool_id: 0, maybe_id: 1, list_id: 2, cons_id: 0, nil_id: 1 }
}

fn func(name: u32, arg: u32, body_expr: Expr) -> FuncNode {
    FuncNode {
        val: Func {
            name,
            args: vec![arg],
            body: BodyNode {
                val: Body { stmts: vec![], expr: Some(Box::new(expr(body_expr))) },
                info: info(),
            },
        },
        info: info(),
    }
}

// f(x) = x + 1 with no earlier call-site constraint infers (Int) -> Int.
#[test]
fn func_infers_int_to_int() {
    let mut env = Environment::new(internals());
    let f = func(
        10,
        11,
        Expr::Add(Box::new(expr(Expr::Id(11))), Box::new(expr(Expr::Lit(1)))),
    );
    let res = check_func(&mut env, &f);
    assert_eq!(res.is_ok(), true);
    let int_t = Type::Prim(String::from("Int"));
    assert_eq!(
        *env.get_sym_type(10).expect("function type recorded"),
        Type::Func(vec![int_t.clone()], Box::new(int_t)),
    );
}

// Two mutually referencing top-level functions: the earlier-declared one
// calls the later-declared one, which is pinned down through the tentative
// forward-reference mechanism; the whole program checks.
#[test]
fn forward_reference_checks() {
    let g = func(20, 21, Expr::FnCall(10, vec![expr(Expr::Id(21))]));
    let f = func(
        10,
        11,
        Expr::Add(Box::new(expr(Expr::Id(11))), Box::new(expr(Expr::Lit(1)))),
    );
    let prog = Prog {
        type_table: TypeTable { types: vec![], values: vec![] },
        symbol_table: SymbolTable { store: vec![] },
        internal_types: internals(),
        definitions: vec![],
        functions: vec![g, f],
    };
    let res = check_prog(&prog);
    assert_eq!(res.is_ok(), true);
    let env = res.expect("checked");
    match env.get_sym_type(20) {
        Some(Type::Func(args, _)) => assert_eq!(args.len(), 1),
        other => panic!("expected a one-argument function type, got {:?}", other),
    }
    match env.get_sym_type(10) {
        Some(Type::Func(args, _)) => assert_eq!(args.len(), 1),
        other => panic!("expected a one-argument function type, got {:?}", other),
    }
}

// An incompatible earlier call-site guess yields the distinct diagnostic.
#[test]
fn incompatible_forward_call_is_reported() {
    // g calls f with two arguments; f is declared with one parameter.
    let g = FuncNode {
        val: Func {
            name: 20,
            args: vec![21],
            body: BodyNode {
                val: Body {
                    stmts: vec![],
                    expr: Some(Box::new(expr(Expr::FnCall(
                        10,
                        vec![expr(Expr::Id(21)), expr(Expr::Lit(2))],
                    )))),
                },
                info: info(),
            },
        },
        info: info(),
    };
    let f = func(
        10,
        11,
        Expr::Add(Box::new(expr(Expr::Id(11))), Box::new(expr(Expr::Lit(1)))),
    );
    let prog = Prog {
        type_table: TypeTable { types: vec![], values: vec![] },
        symbol_table: SymbolTable { store: vec![] },
        internal_types: internals(),
        definitions: vec![],
        functions: vec![g, f],
    };
    let res = check_prog(&prog);
    match res {
        Err(e) => assert_eq!(
            e.message,
            String::from("Function definition incompatible with earlier function call"),
        ),
        Ok(_) => panic!("expected the incompatible-call diagnostic"),
    }
}

// A top-level assignment is checked and finalized; the dump renders it.
#[test]
fn top_level_assignment_and_dump() {
    let prog = Prog {
        type_table: TypeTable { types: vec![], values: vec![] },
        symbol_table: SymbolTable { store: vec![Symbol { id: 1, name: String::from("x") }] },
        internal_types: internals(),
        definitions: vec![StmtNode {
            val: Stmt::Assign(
                TargetNode { val: Target::Bind(1), info: info() },
                expr(Expr::Lit(5)),
            ),
            info: info(),
        }],
        functions: vec![],
    };
    let res = check_prog(&prog);
    assert_eq!(res.is_ok(), true);
    let env = res.expect("checked");
    assert_eq!(*env.get_sym_type(1).expect("recorded"), Type::Prim(String::from("Int")));
    assert_eq!(env.as_str(&prog), String::from("x : Int\n"));
}

// The human-readable printer assigns letters by first occurrence and uses
// declared type names.
#[test]
fn pretty_printer_letters_and_names() {
    let prog = Prog {
        type_table: TypeTable {
            types: vec![TypeDecl { id: 7, name: String::from("Maybe"), type_params: vec![9] }],
            values: vec![],
        },
        symbol_table: SymbolTable { store: vec![] },
        internal_types: internals(),
        definitions: vec![],
        functions: vec![],
    };
    let f = Type::Func(vec![Type::TVar(0)], Box::new(Type::TVar(1)));
    assert_eq!(f.as_str(&prog), String::from("(a) -> b"));
    let same = Type::Func(vec![Type::TVar(4)], Box::new(Type::TVar(4)));
    assert_eq!(same.as_str(&prog), String::from("(a) -> a"));
    let m = Type::ADT(7, vec![Type::Prim(String::from("Int"))]);
    assert_eq!(m.as_str(&prog), String::from("Maybe(Int)"));
    let bare = Type::ADT(7, vec![]);
    assert_eq!(bare.as_str(&prog), String::from("Maybe"));
}
