//! The block and pattern-match checkers: each checks its construct
//! against an expected type, threading substitutions through the
//! environment as its model function describes.

use vstd::prelude::*;

use crate::ast::{BodyNode, CaseNode, SpruceErr};
use crate::env::{env_apply_subs, env_wf, EnvV, Environment};
use crate::infer::{arms_pattern_type, check_arms, check_stmts, refresh_tvars, typecheck};
use crate::model::{arms_pattern_id, body_wf, case_wf, pat_mismatch_msg, refresh_fold, tc_arms,
    tc_body, tc_body_finish, tc_case, tc_case_finish, tc_case_patterns, tc_case_step, tc_stmts,
    ErrV, PatIdResult, StepsResult, TcResult};
use crate::subst::{apply, apply1, Subst};
use crate::term::{seq_term_view, Type, TypeV};
use crate::unify::{clash_msg, unify, unify_spec, UnifyOutcome};

verus! {

/// One unfolding of `tc_case`.
proof fn lemma_tc_case_unfold(e: EnvV, c: CaseNode, ty: TypeV)
    ensures
        tc_case(e, c, ty) == tc_case_step(e, c, ty),
{
    reveal(tc_case);
}

/// One unfolding of `tc_case_patterns`: the shared pattern type, the
/// refresh, the unification with the scrutinee's type, and the arms.
proof fn lemma_tc_case_patterns_unfold(
    e2: EnvV,
    c: CaseNode,
    ty: TypeV,
    expr_subs: Map<u32, TypeV>,
    expr_type: TypeV,
)
    ensures
        tc_case_patterns(e2, c, ty, expr_subs, expr_type) == ({
            match arms_pattern_id(e2, c.val.options@, None) {
                PatIdResult::Mismatch { first, second, info } => TcResult::Fail {
                    err: ErrV { message: pat_mismatch_msg(first, second), info },
                },
                PatIdResult::Agreed { id: pattern_type_id } => {
                    let adt_type = e2.adt_type[pattern_type_id];
                    let (e3, ren) = refresh_fold(
                        e2,
                        crate::term::tvar_list(adt_type),
                        Map::empty(),
                    );
                    match unify_spec(apply1(ren, adt_type), expr_type) {
                        UnifyOutcome::Clash { left, right } => TcResult::Fail {
                            err: ErrV { message: clash_msg(left, right), info: c.info@ },
                        },
                        UnifyOutcome::Bound { sub: pattern_subs } => tc_case_finish(
                            tc_arms(
                                env_apply_subs(e3, pattern_subs),
                                c.val.options@,
                                expr_subs.union_prefer_right(pattern_subs),
                                ty,
                                ren,
                                false,
                                false,
                            ),
                            ty,
                            c.info@,
                        ),
                    }
                },
            }
        }),
{
    reveal(tc_case_patterns);
}

/// One unfolding of `tc_body`: the statements, then the tail.
proof fn lemma_tc_body_unfold(e: EnvV, b: BodyNode, ty: TypeV)
    ensures
        tc_body(e, b, ty) == tc_body_finish(
            tc_stmts(e, b.val.stmts@, Map::empty(), Seq::empty()),
            e,
            b,
            ty,
        ),
{
    reveal(tc_body);
}


/// Checks a pattern match against an expected type: infers the
/// scrutinee's type, requires every arm's pattern constructor to belong
/// to one algebraic type, refreshes that type's declared variables and
/// unifies it with the scrutinee's type, then checks each arm. A block
/// arm whose result will not unify with the running expected type
/// downgrades the whole match to unit; mixing such arms with
/// expression-bodied arms is an error.
#[verifier::spinoff_prover]
#[verifier::rlimit(100)]
pub fn check_case(env: &mut Environment, case: &CaseNode, ty: &Type) -> (res: Result<
    Subst,
    SpruceErr,
>)
    requires
        env_wf(old(env)@),
        case_wf(*case, old(env)@.val_type.dom()),
    ensures
        final(env)@.val_type == old(env)@.val_type,
        final(env)@.adt_type == old(env)@.adt_type,
        final(env)@.internal_types == old(env)@.internal_types,
        match res {
            Ok(s) => tc_case(old(env)@, *case, ty@) == (TcResult::Done {
                sub: s@,
                env: final(env)@,
            }),
            Err(e) => match tc_case(old(env)@, *case, ty@) {
                TcResult::Fail { err } => err.message == e.message@ && err.info == e.info@,
                TcResult::Done { .. } => false,
            },
        },
    decreases *case, 5int,
{
    proof {
        lemma_tc_case_unfold(old(env)@, *case, ty@);
    }
    let expr_tvar = env.new_tvar();
    let expr_subs = match typecheck(env, &case.val.expr, &expr_tvar) {
        Ok(s) => s,
        Err(e) => return Err(e),
    };
    let ghost es = expr_subs@;
    let ghost e4_pre = env_apply_subs(env@, es);
    let expr_type = apply(&expr_subs, expr_tvar);
    env.apply_subs(&expr_subs);
    let mut subs = Subst::new();
    subs.extend(expr_subs);
    proof {
        assert(subs@ =~= es);
        assert(case.val.options@.skip(0) =~= case.val.options@);
        lemma_tc_case_unfold(old(env)@, *case, ty@);
        assert(tc_case(old(env)@, *case, ty@) == tc_case_patterns(
            env@,
            *case,
            ty@,
            es,
            expr_type@,
        ));
    }
    proof {
        lemma_tc_case_patterns_unfold(env@, *case, ty@, es, expr_type@);
    }
    let ptid = match arms_pattern_type(env, &case.val.options, 0, None) {
        Ok(id) => id,
        Err(e) => return Err(e),
    };
    let adt_type: Type = match env.get_adt_type(ptid) {
        Some(t) => t.clone(),
        None => vstd::pervasive::unreached(),
    };
    let adt_tvar_subs = refresh_tvars(env, &adt_type);
    let applied_adt = apply(&adt_tvar_subs, adt_type);
    let pattern_subs = match unify(&applied_adt, &expr_type, &case.info) {
        Ok(s) => s,
        Err(e) => return Err(e),
    };
    let ghost ps = pattern_subs@;
    env.apply_subs(&pattern_subs);
    subs.extend(pattern_subs);
    proof {
        assert(subs@ == es.union_prefer_right(ps));
        lemma_tc_case_patterns_unfold(e4_pre, *case, ty@, es, expr_type@);
        assert(tc_case(old(env)@, *case, ty@) == tc_case_finish(
            tc_arms(env@, case.val.options@, subs@, ty@, adt_tvar_subs@, false, false),
            ty@,
            case.info@,
        ));
    }
    proof {
        assert(decreases_to!(*case, 5int => case.val.options, case.val.options@.len()));
    }
    let (mut subs3, is_unit, has_expr) = match check_arms(
        env,
        &case.val.options,
        0,
        subs,
        ty,
        &adt_tvar_subs,
        false,
        false,
    ) {
        Ok(p) => p,
        Err(e) => return Err(e),
    };
    if is_unit {
        if has_expr {
            return Err(
                SpruceErr {
                    message: String::from_str("Case with expr must have type"),
                    info: case.info.clone(),
                },
            );
        } else {
            let unit_subs = match unify(ty, &Type::Unit, &case.info) {
                Ok(s) => s,
                Err(e) => return Err(e),
            };
            subs3.extend(unit_subs);
        }
    }
    Ok(subs3)
}


/// Checks a statement block against an expected type: the statements in
/// order, threading substitutions, then the trailing expression against
/// the expected type, or — if the block has none — the last statement's
/// type unified with it.
#[verifier::spinoff_prover]
#[verifier::rlimit(100)]
pub fn check_body(env: &mut Environment, body: &BodyNode, ty: &Type) -> (res: Result<
    Subst,
    SpruceErr,
>)
    requires
        env_wf(old(env)@),
        body_wf(*body, old(env)@.val_type.dom()),
    ensures
        final(env)@.val_type == old(env)@.val_type,
        final(env)@.adt_type == old(env)@.adt_type,
        final(env)@.internal_types == old(env)@.internal_types,
        match res {
            Ok(s) => tc_body(old(env)@, *body, ty@) == (TcResult::Done {
                sub: s@,
                env: final(env)@,
            }),
            Err(e) => match tc_body(old(env)@, *body, ty@) {
                TcResult::Fail { err } => err.message == e.message@ && err.info == e.info@,
                TcResult::Done { .. } => false,
            },
        },
    decreases *body, 7int,
{
    broadcast use crate::term::lemma_seq_term_view;

    proof {
        lemma_tc_body_unfold(old(env)@, *body, ty@);
        assert(body.val.stmts@.skip(0) =~= body.val.stmts@);
        assert(seq_term_view(Seq::<Type>::empty()) =~= Seq::<TypeV>::empty());
        assert(decreases_to!(*body, 7int => body.val.stmts, body.val.stmts@.len()));
    }
    let (mut subs, stmt_types) = match check_stmts(
        env,
        &body.val.stmts,
        0,
        Subst::new(),
        Vec::new(),
    ) {
        Ok(p) => p,
        Err(e) => return Err(e),
    };
    proof {
        lemma_tc_body_unfold(old(env)@, *body, ty@);
        assert(tc_body(old(env)@, *body, ty@) == tc_body_finish(
            StepsResult::Done { sub: subs@, env: env@, tys: seq_term_view(stmt_types@) },
            old(env)@,
            *body,
            ty@,
        ));
    }
    match &body.val.expr {
        Some(x) => {
            let expr_subs = match typecheck(env, x, ty) {
                Ok(s) => s,
                Err(e) => return Err(e),
            };
            env.apply_subs(&expr_subs);
            subs.extend(expr_subs);
            Ok(subs)
        },
        None => {
            let last_stmt_type = &stmt_types[stmt_types.len() - 1];
            let stmt_subs = match unify(last_stmt_type, ty, &body.info) {
                Ok(s) => s,
                Err(e) => return Err(e),
            };
            env.apply_subs(&stmt_subs);
            subs.extend(stmt_subs);
            Ok(subs)
        },
    }
}


} // verus!
