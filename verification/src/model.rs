//! The model of the inference traversal: for each checking procedure, a
//! specification function computing the substitutions, the environment,
//! and the errors that checking a construct yields.

use vstd::prelude::*;

use crate::ast::{CaseBody, CaseNode, CaseOptionNode, Expr, ExprNode, FuncNode, NodeInfoV, Prog,
    Span, Stmt, StmtNode, Target, TypeDecl, TypeId, ValDecl, BodyNode};
use crate::env::{env_alloc_tvar, env_apply_subs, env_flush, env_insert_sym, env_sym_type, EnvV};
use crate::subst::apply1;
use crate::term::TypeV;
use crate::unify::{clash_msg, unify_spec, UnifyOutcome};

verus! {

/// A type error in the model: a message and the position of the failing
/// construct.
pub ghost struct ErrV {
    pub message: Seq<char>,
    pub info: NodeInfoV,
}

/// What checking one construct against an expected type yields: the
/// substitutions found and the environment as it then stands, or an error.
pub ghost enum TcResult {
    Done { sub: Map<u32, TypeV>, env: EnvV },
    Fail { err: ErrV },
}

/// What a fold over a list of constructs yields: the accumulated
/// substitutions, the environment, and one type per construct.
pub ghost enum StepsResult {
    Done { sub: Map<u32, TypeV>, env: EnvV, tys: Seq<TypeV> },
    Fail { err: ErrV },
}

/// The integer primitive type.
pub open spec fn int_prim_v() -> TypeV {
    TypeV::Prim { name: "Int"@ }
}

/// The built-in boolean algebraic type of the run.
pub open spec fn bool_adt_v(e: EnvV) -> TypeV {
    TypeV::ADT { id: e.internal_types.bool_id, args: Seq::empty() }
}

/// Every constructor applied anywhere in the expression is declared.
pub open spec fn expr_wf(x: ExprNode, vals: Set<u32>) -> bool
    decreases x, 1int,
{
    match x.val {
        Expr::Lit(_) => true,
        Expr::Add(l, r) => expr_wf(*l, vals) && expr_wf(*r, vals),
        Expr::Subt(l, r) => expr_wf(*l, vals) && expr_wf(*r, vals),
        Expr::Mult(l, r) => expr_wf(*l, vals) && expr_wf(*r, vals),
        Expr::Div(l, r) => expr_wf(*l, vals) && expr_wf(*r, vals),
        Expr::Pow(l, r) => expr_wf(*l, vals) && expr_wf(*r, vals),
        Expr::Mod(l, r) => expr_wf(*l, vals) && expr_wf(*r, vals),
        Expr::Eq(l, r) => expr_wf(*l, vals) && expr_wf(*r, vals),
        Expr::NotEq(l, r) => expr_wf(*l, vals) && expr_wf(*r, vals),
        Expr::LtEq(l, r) => expr_wf(*l, vals) && expr_wf(*r, vals),
        Expr::GtEq(l, r) => expr_wf(*l, vals) && expr_wf(*r, vals),
        Expr::Lt(l, r) => expr_wf(*l, vals) && expr_wf(*r, vals),
        Expr::Gt(l, r) => expr_wf(*l, vals) && expr_wf(*r, vals),
        Expr::Id(_) => true,
        Expr::FnCall(_, args) => exprs_wf(args@, vals),
        Expr::ADTVal(id, args) => vals.contains(id) && exprs_wf(args@, vals),
    }
}

/// `expr_wf` over a list of expressions.
pub open spec fn exprs_wf(aa: Seq<ExprNode>, vals: Set<u32>) -> bool
    decreases aa, 0int,
{
    forall|i: int| 0 <= i < aa.len() ==> expr_wf(#[trigger] aa[i], vals)
}

/// Glue from a unification outcome at a position to a checking result:
/// success yields the bindings and leaves the environment as given.
pub open spec fn unify_tc(a: TypeV, b: TypeV, info: NodeInfoV, e: EnvV) -> TcResult {
    match unify_spec(a, b) {
        UnifyOutcome::Bound { sub } => TcResult::Done { sub, env: e },
        UnifyOutcome::Clash { left, right } => TcResult::Fail {
            err: ErrV { message: clash_msg(left, right), info },
        },
    }
}

/// Checking of one expression against an expected type, as `typecheck`
/// performs it. Arithmetic operators unify the expected type and both
/// operands with the integer primitive; equality unifies the expected
/// type with boolean and threads the left operand's bindings into the
/// right operand's expected type; relational operators unify the expected
/// type with boolean and both operands with the integer primitive.
pub open spec fn tc_expr(e: EnvV, x: ExprNode, ty: TypeV) -> TcResult
    decreases x, 3int,
{
    match x.val {
        Expr::Lit(_) => unify_tc(ty, int_prim_v(), x.info@, e),
        Expr::Add(l, r) | Expr::Subt(l, r) | Expr::Mult(l, r) | Expr::Div(l, r) | Expr::Pow(l, r)
            | Expr::Mod(l, r) => {
            match unify_spec(ty, int_prim_v()) {
                UnifyOutcome::Clash { left, right } => TcResult::Fail {
                    err: ErrV { message: clash_msg(left, right), info: x.info@ },
                },
                UnifyOutcome::Bound { sub } => {
                    match tc_expr(e, *l, int_prim_v()) {
                        TcResult::Fail { err } => TcResult::Fail { err },
                        TcResult::Done { sub: s1, env: e1 } => {
                            match tc_expr(e1, *r, int_prim_v()) {
                                TcResult::Fail { err } => TcResult::Fail { err },
                                TcResult::Done { sub: s2, env: e2 } => TcResult::Done {
                                    sub: sub.union_prefer_right(s1).union_prefer_right(s2),
                                    env: e2,
                                },
                            }
                        },
                    }
                },
            }
        },
        Expr::Eq(l, r) | Expr::NotEq(l, r) => {
            match unify_spec(ty, bool_adt_v(e)) {
                UnifyOutcome::Clash { left, right } => TcResult::Fail {
                    err: ErrV { message: clash_msg(left, right), info: x.info@ },
                },
                UnifyOutcome::Bound { sub } => {
                    let (e1, tv) = env_alloc_tvar(e);
                    match tc_expr(e1, *l, tv) {
                        TcResult::Fail { err } => TcResult::Fail { err },
                        TcResult::Done { sub: s1, env: e2 } => {
                            match tc_expr(e2, *r, apply1(s1, tv)) {
                                TcResult::Fail { err } => TcResult::Fail { err },
                                TcResult::Done { sub: s2, env: e3 } => TcResult::Done {
                                    sub: sub.union_prefer_right(s1).union_prefer_right(s2),
                                    env: e3,
                                },
                            }
                        },
                    }
                },
            }
        },
        Expr::LtEq(l, r) | Expr::GtEq(l, r) | Expr::Lt(l, r) | Expr::Gt(l, r) => {
            match unify_spec(ty, bool_adt_v(e)) {
                UnifyOutcome::Clash { left, right } => TcResult::Fail {
                    err: ErrV { message: clash_msg(left, right), info: x.info@ },
                },
                UnifyOutcome::Bound { sub } => {
                    match tc_expr(e, *l, int_prim_v()) {
                        TcResult::Fail { err } => TcResult::Fail { err },
                        TcResult::Done { sub: s1, env: e1 } => {
                            match tc_expr(e1, *r, int_prim_v()) {
                                TcResult::Fail { err } => TcResult::Fail { err },
                                TcResult::Done { sub: s2, env: e2 } => TcResult::Done {
                                    sub: sub.union_prefer_right(s1).union_prefer_right(s2),
                                    env: e2,
                                },
                            }
                        },
                    }
                },
            }
        },
        Expr::Id(id) => {
            match env_sym_type(e, id) {
                Some(sym_ty) => unify_tc(ty, sym_ty, x.info@, e),
                None => {
                    let (e1, tv) = env_alloc_tvar(e);
                    unify_tc(ty, tv, x.info@, env_insert_sym(e1, id, tv))
                },
            }
        },
        Expr::FnCall(id, args) => tc_call_fn(e, id, args@, ty, x.info@),
        Expr::ADTVal(id, args) => tc_call_val(e, id, args@, ty, x.info@),
    }
}

/// Checking of a call's argument list: each argument is checked against
/// its own fresh variable, that variable refined by the argument's own
/// substitutions becomes its type, and the substitutions accumulate.
pub open spec fn tc_args(
    e: EnvV,
    aa: Seq<ExprNode>,
    acc_sub: Map<u32, TypeV>,
    acc_tys: Seq<TypeV>,
) -> StepsResult
    decreases aa, 0int,
{
    if aa.len() == 0 {
        StepsResult::Done { sub: acc_sub, env: e, tys: acc_tys }
    } else {
        let (e1, tv) = env_alloc_tvar(e);
        match tc_expr(e1, aa[0], tv) {
            TcResult::Fail { err } => StepsResult::Fail { err },
            TcResult::Done { sub: sa, env: e2 } => tc_args(
                e2,
                aa.drop_first(),
                acc_sub.union_prefer_right(sa),
                acc_tys.push(apply1(sa, tv)),
            ),
        }
    }
}

/// Checking of a function call: the arguments are checked against fresh
/// variables, the expected type is unified with a fresh output variable,
/// a candidate function type is built from the refined argument and output
/// types, and the callee's type — looked up, or recorded fresh and
/// tentative — is unified with the candidate.
pub open spec fn tc_call_fn(
    e: EnvV,
    id: u32,
    args: Seq<ExprNode>,
    ty: TypeV,
    info: NodeInfoV,
) -> TcResult
    decreases args, 1int,
{
    match tc_args(e, args, Map::empty(), Seq::empty()) {
        StepsResult::Fail { err } => TcResult::Fail { err },
        StepsResult::Done { sub, env: e1, tys } => {
            let (e2, out_tv) = env_alloc_tvar(e1);
            match unify_spec(ty, out_tv) {
                UnifyOutcome::Clash { left, right } => TcResult::Fail {
                    err: ErrV { message: clash_msg(left, right), info },
                },
                UnifyOutcome::Bound { sub: out_sub } => {
                    let out_type = apply1(out_sub, out_tv);
                    let sub1 = sub.union_prefer_right(out_sub);
                    let fn_type = TypeV::Func { args: tys, ret: Box::new(out_type) };
                    let (e4, callee) = match env_sym_type(e2, id) {
                        Some(sym_ty) => (e2, sym_ty),
                        None => {
                            let (e3, fn_tv) = env_alloc_tvar(e2);
                            (env_insert_sym(e3, id, fn_tv), fn_tv)
                        },
                    };
                    match unify_spec(callee, fn_type) {
                        UnifyOutcome::Clash { left, right } => TcResult::Fail {
                            err: ErrV { message: clash_msg(left, right), info },
                        },
                        UnifyOutcome::Bound { sub: fn_sub } => TcResult::Done {
                            sub: sub1.union_prefer_right(fn_sub),
                            env: e4,
                        },
                    }
                },
            }
        },
    }
}

/// Checking of a data-constructor application: as a function call, except
/// that the callee's type comes from the immutable constructor table.
pub open spec fn tc_call_val(
    e: EnvV,
    id: u32,
    args: Seq<ExprNode>,
    ty: TypeV,
    info: NodeInfoV,
) -> TcResult
    decreases args, 1int,
{
    match tc_args(e, args, Map::empty(), Seq::empty()) {
        StepsResult::Fail { err } => TcResult::Fail { err },
        StepsResult::Done { sub, env: e1, tys } => {
            let (e2, out_tv) = env_alloc_tvar(e1);
            match unify_spec(ty, out_tv) {
                UnifyOutcome::Clash { left, right } => TcResult::Fail {
                    err: ErrV { message: clash_msg(left, right), info },
                },
                UnifyOutcome::Bound { sub: out_sub } => {
                    let out_type = apply1(out_sub, out_tv);
                    let sub1 = sub.union_prefer_right(out_sub);
                    let fn_type = TypeV::Func { args: tys, ret: Box::new(out_type) };
                    if e2.val_type.dom().contains(id) {
                        match unify_spec(e2.val_type[id], fn_type) {
                            UnifyOutcome::Clash { left, right } => TcResult::Fail {
                                err: ErrV { message: clash_msg(left, right), info },
                            },
                            UnifyOutcome::Bound { sub: fn_sub } => TcResult::Done {
                                sub: sub1.union_prefer_right(fn_sub),
                                env: e2,
                            },
                        }
                    } else {
                        TcResult::Fail { err: ErrV { message: Seq::empty(), info } }
                    }
                },
            }
        },
    }
}

/// Every constructor named anywhere in the statement is declared, every
/// block has a statement or a trailing expression, and every pattern
/// match has at least one arm.
pub open spec fn stmt_wf(s: StmtNode, vals: Set<u32>) -> bool
    decreases s, 2int,
{
    match s.val {
        Stmt::Assign(_, expr) => expr_wf(expr, vals),
        Stmt::Case(c) => case_wf(c, vals),
        Stmt::FnCall(_, args) => exprs_wf(args@, vals),
    }
}

/// `stmt_wf` over a list of statements.
pub open spec fn stmts_wf(ss: Seq<StmtNode>, vals: Set<u32>) -> bool
    decreases ss, 0int,
{
    forall|i: int| 0 <= i < ss.len() ==> stmt_wf(#[trigger] ss[i], vals)
}

/// Well-formedness of a block: it has a statement or a trailing
/// expression, and its parts are well formed.
pub open spec fn body_wf(b: BodyNode, vals: Set<u32>) -> bool
    decreases b, 3int,
{
    &&& b.val.stmts@.len() > 0 || b.val.expr is Some
    &&& stmts_wf(b.val.stmts@, vals)
    &&& match b.val.expr {
        Some(x) => expr_wf(*x, vals),
        None => true,
    }
}

/// Well-formedness of a pattern match: the scrutinee is well formed,
/// there is at least one arm, every arm's pattern constructor is
/// declared, and every arm body is well formed.
pub open spec fn case_wf(c: CaseNode, vals: Set<u32>) -> bool
    decreases c, 1int,
{
    &&& expr_wf(*c.val.expr, vals)
    &&& c.val.options@.len() > 0
    &&& arms_wf(c.val.options@, vals)
}

/// `case_wf`'s condition on each arm.
pub open spec fn arms_wf(oo: Seq<CaseOptionNode>, vals: Set<u32>) -> bool
    decreases oo, 0int,
{
    forall|i: int| #![trigger oo[i]]
        0 <= i < oo.len() ==> vals.contains(oo[i].val.pattern.val.base) && (match oo[i].val.body.val {
            CaseBody::Body(b) => body_wf(b, vals),
            CaseBody::Expr(x) => expr_wf(x, vals),
        })
}

/// The algebraic-type id a constructor's recorded type returns.
pub open spec fn val_ret_adt_id(e: EnvV, base: u32) -> u32 {
    match e.val_type[base] {
        TypeV::Func { ret, .. } => match *ret {
            TypeV::ADT { id, .. } => id,
            _ => 0,
        },
        _ => 0,
    }
}

/// The declared argument types of a constructor's recorded type.
pub open spec fn val_arg_tys(e: EnvV, base: u32) -> Seq<TypeV> {
    match e.val_type[base] {
        TypeV::Func { args, .. } => args,
        _ => Seq::empty(),
    }
}

/// The outcome of comparing the pattern constructors of all arms: the
/// shared algebraic-type id, or the first two that differ.
pub ghost enum PatIdResult {
    Agreed { id: u32 },
    Mismatch { first: u32, second: u32, info: NodeInfoV },
}

/// Folds over the arms comparing each pattern constructor's owning
/// algebraic type with the one seen so far.
pub open spec fn arms_pattern_id(e: EnvV, oo: Seq<CaseOptionNode>, seen: Option<u32>) -> PatIdResult
    decreases oo,
{
    if oo.len() == 0 {
        match seen {
            Some(id) => PatIdResult::Agreed { id },
            None => PatIdResult::Agreed { id: 0 },
        }
    } else {
        let this_id = val_ret_adt_id(e, oo[0].val.pattern.val.base);
        match seen {
            None => arms_pattern_id(e, oo.drop_first(), Some(this_id)),
            Some(prev) => {
                if prev != this_id {
                    PatIdResult::Mismatch {
                        first: prev,
                        second: this_id,
                        info: oo[0].val.pattern.info@,
                    }
                } else {
                    arms_pattern_id(e, oo.drop_first(), Some(prev))
                }
            },
        }
    }
}

/// The message of the mixed-pattern-types error.
pub open spec fn pat_mismatch_msg(first: u32, second: u32) -> Seq<char> {
    "case statement has patterns of both types "@ + crate::render::dec_str(first as nat)
        + " and "@ + crate::render::dec_str(second as nat)
}

/// The environment and renaming map after allocating one fresh variable
/// for each id of the list.
pub open spec fn refresh_fold(e: EnvV, ids: Seq<u32>, acc: Map<u32, TypeV>) -> (EnvV, Map<
    u32,
    TypeV,
>)
    decreases ids,
{
    if ids.len() == 0 {
        (e, acc)
    } else {
        let (e1, tv) = env_alloc_tvar(e);
        refresh_fold(e1, ids.drop_first(), acc.insert(ids[0], tv))
    }
}

/// The environment after recording one tentative type per pattern-bound
/// symbol, each a constructor argument type refined through the renaming
/// substitution.
pub open spec fn bind_pattern_args(
    e: EnvV,
    syms: Seq<u32>,
    tys: Seq<TypeV>,
    ren: Map<u32, TypeV>,
) -> EnvV
    decreases syms,
{
    if syms.len() == 0 || tys.len() == 0 {
        e
    } else {
        bind_pattern_args(
            env_insert_sym(e, syms[0], apply1(ren, tys[0])),
            syms.drop_first(),
            tys.drop_first(),
            ren,
        )
    }
}

/// What the fold over a pattern match's arms yields.
pub ghost enum ArmsResult {
    Done { sub: Map<u32, TypeV>, env: EnvV, is_unit: bool, has_expr: bool },
    Fail { err: ErrV },
}

/// Checking of a pattern match's arms in order: each arm binds its
/// pattern variables, then its body is checked. A block body is checked
/// against a fresh variable and the result is unified with the running
/// expected type; if that unification fails the arm is downgraded to unit
/// instead of failing. An expression body is checked directly against the
/// running expected type.
#[verifier::opaque]
pub open spec fn tc_arms(
    e: EnvV,
    oo: Seq<CaseOptionNode>,
    acc_sub: Map<u32, TypeV>,
    ty: TypeV,
    ren: Map<u32, TypeV>,
    is_unit: bool,
    has_expr: bool,
) -> ArmsResult
    decreases oo, 4int,
{
    if oo.len() == 0 {
        ArmsResult::Done { sub: acc_sub, env: e, is_unit, has_expr }
    } else {
        let opt = oo[0];
        let e1 = bind_pattern_args(
            e,
            opt.val.pattern.val.args@,
            val_arg_tys(e, opt.val.pattern.val.base),
            ren,
        );
        match opt.val.body.val {
            CaseBody::Body(body) => {
                let (e2, opt_tv) = env_alloc_tvar(e1);
                match tc_body(e2, body, opt_tv) {
                    TcResult::Fail { err } => ArmsResult::Fail { err },
                    TcResult::Done { sub: opt_subs, env: e3 } => {
                        let opt_type = apply1(opt_subs, opt_tv);
                        let e4 = env_apply_subs(e3, opt_subs);
                        let sub1 = acc_sub.union_prefer_right(opt_subs);
                        match unify_spec(apply1(sub1, ty), opt_type) {
                            UnifyOutcome::Bound { sub: uni } => tc_arms(
                                env_apply_subs(e4, uni),
                                oo.drop_first(),
                                sub1.union_prefer_right(uni),
                                ty,
                                ren,
                                is_unit,
                                has_expr,
                            ),
                            UnifyOutcome::Clash { .. } => tc_arms(
                                e4,
                                oo.drop_first(),
                                sub1,
                                ty,
                                ren,
                                true,
                                has_expr,
                            ),
                        }
                    },
                }
            },
            CaseBody::Expr(x) => {
                match tc_expr(e1, x, apply1(acc_sub, ty)) {
                    TcResult::Fail { err } => ArmsResult::Fail { err },
                    TcResult::Done { sub: opt_subs, env: e2 } => tc_arms(
                        env_apply_subs(e2, opt_subs),
                        oo.drop_first(),
                        acc_sub.union_prefer_right(opt_subs),
                        ty,
                        ren,
                        is_unit,
                        true,
                    ),
                }
            },
        }
    }
}

/// The tail of pattern-match checking, once the arms are done: the unit
/// fallback and the mixed-arm error.
pub open spec fn tc_case_finish(
    r: ArmsResult,
    ty: TypeV,
    info: NodeInfoV,
) -> TcResult {
    match r {
        ArmsResult::Fail { err } => TcResult::Fail { err },
        ArmsResult::Done { sub, env: e5, is_unit, has_expr } => {
            if is_unit {
                if has_expr {
                    TcResult::Fail {
                        err: ErrV { message: "Case with expr must have type"@, info },
                    }
                } else {
                    match unify_spec(ty, TypeV::Unit) {
                        UnifyOutcome::Clash { left, right } => TcResult::Fail {
                            err: ErrV { message: clash_msg(left, right), info },
                        },
                        UnifyOutcome::Bound { sub: unit_subs } => TcResult::Done {
                            sub: sub.union_prefer_right(unit_subs),
                            env: e5,
                        },
                    }
                }
            } else {
                TcResult::Done { sub, env: e5 }
            }
        },
    }
}

/// The middle of pattern-match checking, once the scrutinee's type is
/// known: the shared pattern type, the refresh of its variables, the
/// unification with the scrutinee, and the arms.
#[verifier::opaque]
pub open spec fn tc_case_patterns(
    e2: EnvV,
    c: CaseNode,
    ty: TypeV,
    expr_subs: Map<u32, TypeV>,
    expr_type: TypeV,
) -> TcResult
    decreases c, 4int,
{
    match arms_pattern_id(e2, c.val.options@, None) {
        PatIdResult::Mismatch { first, second, info } => TcResult::Fail {
            err: ErrV { message: pat_mismatch_msg(first, second), info },
        },
        PatIdResult::Agreed { id: pattern_type_id } => {
            let adt_type = e2.adt_type[pattern_type_id];
            let (e3, ren) = refresh_fold(e2, crate::term::tvar_list(adt_type), Map::empty());
            match unify_spec(apply1(ren, adt_type), expr_type) {
                UnifyOutcome::Clash { left, right } => TcResult::Fail {
                    err: ErrV { message: clash_msg(left, right), info: c.info@ },
                },
                UnifyOutcome::Bound { sub: pattern_subs } => {
                    let e4 = env_apply_subs(e3, pattern_subs);
                    let sub1 = expr_subs.union_prefer_right(pattern_subs);
                    tc_case_finish(
                        tc_arms(e4, c.val.options@, sub1, ty, ren, false, false),
                        ty,
                        c.info@,
                    )
                },
            }
        },
    }
}

/// Checking of a whole pattern match, as `check_case` performs it: the
/// scrutinee's type is inferred against a fresh variable; all arms must
/// match constructors of one algebraic type; that type's declared
/// variables are refreshed before unifying it with the scrutinee's type;
/// then the arms are checked in order. If any block arm fell back to
/// unit, an expression-bodied arm is an error, and otherwise the expected
/// type is unified with unit.
/// The body of `tc_case`, one step: first the scrutinee.
pub open spec fn tc_case_step(e: EnvV, c: CaseNode, ty: TypeV) -> TcResult
    decreases c, 5int,
{
    let (e0, expr_tvar) = env_alloc_tvar(e);
    match tc_expr(e0, *c.val.expr, expr_tvar) {
        TcResult::Fail { err } => TcResult::Fail { err },
        TcResult::Done { sub: expr_subs, env: e1 } => tc_case_patterns(
            env_apply_subs(e1, expr_subs),
            c,
            ty,
            expr_subs,
            apply1(expr_subs, expr_tvar),
        ),
    }
}

#[verifier::opaque]
pub open spec fn tc_case(e: EnvV, c: CaseNode, ty: TypeV) -> TcResult
    decreases c, 6int,
{
    tc_case_step(e, c, ty)
}

/// Checking of a statement sequence, as the loop of `check_body`
/// performs it, accumulating each statement's own type.
#[verifier::opaque]
pub open spec fn tc_stmts(
    e: EnvV,
    ss: Seq<StmtNode>,
    acc_sub: Map<u32, TypeV>,
    acc_tys: Seq<TypeV>,
) -> StepsResult
    decreases ss, 6int,
{
    if ss.len() == 0 {
        StepsResult::Done { sub: acc_sub, env: e, tys: acc_tys }
    } else {
        let stmt = ss[0];
        match stmt.val {
            Stmt::Assign(tgt, expr) => {
                match tgt.val {
                    Target::Update(id) => {
                        match env_sym_type(e, id) {
                            None => StepsResult::Fail {
                                err: ErrV { message: "Dangling symbol id"@, info: tgt.info@ },
                            },
                            Some(sym_type) => {
                                match tc_expr(e, expr, sym_type) {
                                    TcResult::Fail { err } => StepsResult::Fail { err },
                                    TcResult::Done { sub: s, env: e1 } => tc_stmts(
                                        env_apply_subs(e1, s),
                                        ss.drop_first(),
                                        acc_sub.union_prefer_right(s),
                                        acc_tys.push(apply1(s, sym_type)),
                                    ),
                                }
                            },
                        }
                    },
                    Target::Bind(id) => {
                        let (e1, tv) = env_alloc_tvar(e);
                        match tc_expr(e1, expr, tv) {
                            TcResult::Fail { err } => StepsResult::Fail { err },
                            TcResult::Done { sub: s, env: e2 } => {
                                let var_type = apply1(s, tv);
                                let e3 = env_insert_sym(e2, id, var_type);
                                tc_stmts(
                                    env_apply_subs(e3, s),
                                    ss.drop_first(),
                                    acc_sub.union_prefer_right(s),
                                    acc_tys.push(var_type),
                                )
                            },
                        }
                    },
                }
            },
            Stmt::Case(c) => {
                let (e1, tv) = env_alloc_tvar(e);
                match tc_case(e1, c, tv) {
                    TcResult::Fail { err } => StepsResult::Fail { err },
                    TcResult::Done { sub: s, env: e2 } => tc_stmts(
                        env_apply_subs(e2, s),
                        ss.drop_first(),
                        acc_sub.union_prefer_right(s),
                        acc_tys.push(apply1(s, tv)),
                    ),
                }
            },
            Stmt::FnCall(id, args) => {
                let (e1, tv) = env_alloc_tvar(e);
                match tc_call_fn(e1, id, args@, tv, stmt.info@) {
                    TcResult::Fail { err } => StepsResult::Fail { err },
                    TcResult::Done { sub: s, env: e2 } => tc_stmts(
                        env_apply_subs(e2, s),
                        ss.drop_first(),
                        acc_sub.union_prefer_right(s),
                        acc_tys.push(apply1(s, tv)),
                    ),
                }
            },
        }
    }
}

/// The tail of block checking, once the statements are done: the
/// trailing expression, or the unification of the last statement's type
/// with the expected type.
pub open spec fn tc_body_finish(
    r: StepsResult,
    e_orig: EnvV,
    b: BodyNode,
    ty: TypeV,
) -> TcResult
    decreases b, 6int,
{
    match r {
        StepsResult::Fail { err } => TcResult::Fail { err },
        StepsResult::Done { sub, env: e1, tys } => {
            match b.val.expr {
                Some(x) => {
                    match tc_expr(e1, *x, ty) {
                        TcResult::Fail { err } => TcResult::Fail { err },
                        TcResult::Done { sub: s2, env: e2 } => TcResult::Done {
                            sub: sub.union_prefer_right(s2),
                            env: env_apply_subs(e2, s2),
                        },
                    }
                },
                None => {
                    if tys.len() == 0 {
                        TcResult::Fail { err: ErrV { message: Seq::empty(), info: b.info@ } }
                    } else {
                        match unify_spec(tys.last(), ty) {
                            UnifyOutcome::Clash { left, right } => TcResult::Fail {
                                err: ErrV { message: clash_msg(left, right), info: b.info@ },
                            },
                            UnifyOutcome::Bound { sub: s2 } => TcResult::Done {
                                sub: sub.union_prefer_right(s2),
                                env: env_apply_subs(e1, s2),
                            },
                        }
                    }
                },
            }
        },
    }
}

/// Checking of a block against an expected type, as `check_body` performs
/// it: the statements are checked in order; then the trailing expression,
/// if any, is checked against the expected type, and otherwise the last
/// statement's type is unified with it.
#[verifier::opaque]
pub open spec fn tc_body(e: EnvV, b: BodyNode, ty: TypeV) -> TcResult
    decreases b, 7int,
{
    tc_body_finish(tc_stmts(e, b.val.stmts@, Map::empty(), Seq::empty()), e, b, ty)
}


/// The type a declared type expression stands for, given the fresh
/// variables recorded for the owning type's parameters: a parameter
/// reference becomes its variable (or unit, if none is recorded), a
/// nested algebraic-type application is rebuilt over its arguments, and a
/// primitive name becomes the primitive type.
pub open spec fn ident_type(i: TypeId, tps: Map<u32, TypeV>) -> TypeV
    decreases i,
{
    match i {
        TypeId::TParam(id) => {
            if tps.dom().contains(id) {
                tps[id]
            } else {
                TypeV::Unit
            }
        },
        TypeId::ADT(id, args) => TypeV::ADT { id, args: idents_type(args@, tps) },
        TypeId::Prim(s) => TypeV::Prim { name: s@ },
    }
}

/// `ident_type` over a list of declared type expressions.
pub open spec fn idents_type(ii: Seq<TypeId>, tps: Map<u32, TypeV>) -> Seq<TypeV>
    decreases ii,
{
    if ii.len() == 0 {
        Seq::empty()
    } else {
        seq![ident_type(ii[0], tps)] + idents_type(ii.drop_first(), tps)
    }
}

/// The elementwise reading of `idents_type`.
pub broadcast proof fn lemma_idents_type(ii: Seq<TypeId>, tps: Map<u32, TypeV>)
    ensures
        (#[trigger] idents_type(ii, tps)).len() == ii.len(),
        forall|i: int| 0 <= i < ii.len() ==> idents_type(ii, tps)[i] == ident_type(ii[i], tps),
    decreases ii,
{
    if ii.len() != 0 {
        lemma_idents_type(ii.drop_first(), tps);
    }
}

/// What checking one function definition yields: the environment with the
/// function's type settled and every tentative symbol finalized, or an
/// error.
pub ghost enum FuncResult {
    Done { env: EnvV },
    Fail { err: ErrV },
}

/// The environment and parameter types after allocating one fresh
/// variable per parameter and recording each as the parameter's tentative
/// type.
pub open spec fn alloc_params(e: EnvV, syms: Seq<u32>, acc: Seq<TypeV>) -> (EnvV, Seq<TypeV>)
    decreases syms,
{
    if syms.len() == 0 {
        (e, acc)
    } else {
        let (e1, tv) = env_alloc_tvar(e);
        alloc_params(env_insert_sym(e1, syms[0], tv), syms.drop_first(), acc.push(tv))
    }
}

/// The body of `tc_func`, one step.
pub open spec fn tc_func_step(e: EnvV, f: FuncNode) -> FuncResult {
    let (e1, arg_tys) = alloc_params(e, f.val.args@, Seq::empty());
    let (e2, ret_tv) = env_alloc_tvar(e1);
    let fn_type = TypeV::Func { args: arg_tys, ret: Box::new(ret_tv) };
    match tc_body(e2, f.val.body, ret_tv) {
        TcResult::Fail { err } => FuncResult::Fail { err },
        TcResult::Done { sub: body_subs, env: e3 } => {
            let refined = apply1(body_subs, fn_type);
            let e4 = env_apply_subs(e3, body_subs);
            match env_sym_type(e4, f.val.name) {
                Some(env_fn_type) => {
                    match unify_spec(env_fn_type, refined) {
                        UnifyOutcome::Bound { sub } => FuncResult::Done {
                            env: env_flush(env_apply_subs(e4, sub)),
                        },
                        UnifyOutcome::Clash { .. } => FuncResult::Fail {
                            err: ErrV {
                                message:
                                    "Function definition incompatible with earlier function call"@,
                                info: f.info@,
                            },
                        },
                    }
                },
                None => FuncResult::Done { env: env_flush(env_insert_sym(e4, f.val.name, refined)) },
            }
        },
    }
}

/// Checking of one function definition, as `check_func` performs it: one
/// fresh variable per parameter and one for the return type, the body
/// against the return variable, the refined candidate against any type an
/// earlier call site guessed — failure there is the distinct
/// incompatible-with-earlier-call diagnostic — and finalization of every
/// tentative symbol.
#[verifier::opaque]
pub open spec fn tc_func(e: EnvV, f: FuncNode) -> FuncResult {
    tc_func_step(e, f)
}

/// What checking a program (or part of one) yields: the final
/// environment, or the first error in checking order.
pub ghost enum ProgResult {
    Done { env: EnvV },
    Fail { err: ErrV },
}

/// The error reported for a constructor whose owning type is undeclared.
pub open spec fn dangling_adt_err() -> ErrV {
    ErrV {
        message: "dangling adt id"@,
        info: NodeInfoV { span: Span { start: 0, end: 0 }, file: Seq::empty() },
    }
}

/// The environment, parameter map and fresh variables after allocating
/// one variable per declared type parameter.
pub open spec fn seed_params(e: EnvV, ids: Seq<u32>, tps: Map<u32, TypeV>, acc: Seq<TypeV>) -> (
    EnvV,
    Map<u32, TypeV>,
    Seq<TypeV>,
)
    decreases ids,
{
    if ids.len() == 0 {
        (e, tps, acc)
    } else {
        let (e1, tv) = env_alloc_tvar(e);
        seed_params(e1, ids.drop_first(), tps.insert(ids[0], tv), acc.push(tv))
    }
}

/// The environment and parameter map after recording one instance of each
/// declared algebraic type over fresh variables.
pub open spec fn seed_types(e: EnvV, ts: Seq<TypeDecl>, tps: Map<u32, TypeV>) -> (EnvV, Map<
    u32,
    TypeV,
>)
    decreases ts,
{
    if ts.len() == 0 {
        (e, tps)
    } else {
        let (e1, tps1, args) = seed_params(e, ts[0].type_params@, tps, Seq::empty());
        let e2 = EnvV {
            adt_type: e1.adt_type.insert(ts[0].id, TypeV::ADT { id: ts[0].id, args }),
            ..e1
        };
        seed_types(e2, ts.drop_first(), tps1)
    }
}

/// What seeding the constructor table yields.
pub ghost enum SeedResult {
    Done { env: EnvV },
    Fail { err: ErrV },
}

/// The environment after recording each declared constructor's function
/// type: its declared argument types over the parameter variables, and
/// its owning type's instance as the result. A constructor whose owning
/// type is undeclared fails.
pub open spec fn seed_vals(e: EnvV, vs: Seq<ValDecl>, tps: Map<u32, TypeV>) -> SeedResult
    decreases vs,
{
    if vs.len() == 0 {
        SeedResult::Done { env: e }
    } else {
        let args = idents_type(vs[0].args@, tps);
        if e.adt_type.dom().contains(vs[0].data_type) {
            let out = e.adt_type[vs[0].data_type];
            seed_vals(
                EnvV {
                    val_type: e.val_type.insert(
                        vs[0].id,
                        TypeV::Func { args, ret: Box::new(out) },
                    ),
                    ..e
                },
                vs.drop_first(),
                tps,
            )
        } else {
            SeedResult::Fail { err: dangling_adt_err() }
        }
    }
}

/// Checking of the top-level assignments in declaration order: each
/// right-hand side is checked against a fresh variable, the refined type
/// is recorded for the target symbol, and the tentative symbols are
/// finalized before the next definition; any other statement form fails.
pub open spec fn tc_defs_step(e: EnvV, dd: Seq<StmtNode>) -> ProgResult
    decreases dd, 0int,
{
    if dd.len() == 0 {
        ProgResult::Done { env: e }
    } else {
        match dd[0].val {
            Stmt::Assign(tgt, expr) => {
                let (e1, tv) = env_alloc_tvar(e);
                match tc_expr(e1, expr, tv) {
                    TcResult::Fail { err } => ProgResult::Fail { err },
                    TcResult::Done { sub, env: e2 } => tc_defs(
                        env_flush(env_insert_sym(e2, tgt.val.spec_id(), apply1(sub, tv))),
                        dd.drop_first(),
                    ),
                }
            },
            _ => ProgResult::Fail {
                err: ErrV {
                    message: "top-level statement must be an assignment"@,
                    info: dd[0].info@,
                },
            },
        }
    }
}

#[verifier::opaque]
pub open spec fn tc_defs(e: EnvV, dd: Seq<StmtNode>) -> ProgResult
    decreases dd, 1int,
{
    tc_defs_step(e, dd)
}

/// Checking of the function definitions in declaration order, stopping at
/// the first failure.
pub open spec fn tc_funcs_step(e: EnvV, ff: Seq<FuncNode>) -> ProgResult
    decreases ff, 0int,
{
    if ff.len() == 0 {
        ProgResult::Done { env: e }
    } else {
        match tc_func(e, ff[0]) {
            FuncResult::Fail { err } => ProgResult::Fail { err },
            FuncResult::Done { env: e1 } => tc_funcs(e1, ff.drop_first()),
        }
    }
}

#[verifier::opaque]
pub open spec fn tc_funcs(e: EnvV, ff: Seq<FuncNode>) -> ProgResult
    decreases ff, 1int,
{
    tc_funcs_step(e, ff)
}

/// The body of `tc_prog`, one step.
pub open spec fn tc_prog_step(p: Prog) -> ProgResult {
    let e0 = EnvV {
        next_type_var: 0,
        active: Map::empty(),
        complete: Map::empty(),
        adt_type: Map::empty(),
        val_type: Map::empty(),
        internal_types: p.internal_types,
    };
    let (e1, tps) = seed_types(e0, p.type_table.types@, Map::empty());
    match seed_vals(e1, p.type_table.values@, tps) {
        SeedResult::Fail { err } => ProgResult::Fail { err },
        SeedResult::Done { env: e2 } => {
            match tc_defs(env_flush(e2), p.definitions@) {
                ProgResult::Fail { err } => ProgResult::Fail { err },
                ProgResult::Done { env: e3 } => tc_funcs(e3, p.functions@),
            }
        },
    }
}

/// Checking of a whole name-resolved program, as `check_prog` performs
/// it: the algebraic-type table is seeded with one instance of each
/// declared type over fresh variables, the constructor table with each
/// constructor's function type, both are finalized, and then the
/// top-level assignments and the function definitions are checked in
/// declaration order, stopping at the first error.
#[verifier::opaque]
pub open spec fn tc_prog(p: Prog) -> ProgResult {
    tc_prog_step(p)
}

} // verus!
