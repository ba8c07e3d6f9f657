//! The inference traversal: walks expressions, statement blocks, pattern
//! matches and function definitions, generating unification constraints
//! against an expected type and threading substitutions through the
//! environment.

use vstd::prelude::*;

use crate::check::{check_body, check_case};
use crate::ast::{CaseBody, CaseOptionNode, Expr, ExprNode, NodeInfo, SpruceErr, Stmt, StmtNode,
    Target};
use crate::env::{env_alloc_tvar, env_wf, EnvV, Environment};
use crate::model::{arms_pattern_id, arms_wf, bind_pattern_args, body_wf, bool_adt_v, expr_wf,
    exprs_wf, int_prim_v, pat_mismatch_msg, refresh_fold, stmt_wf, stmts_wf, tc_args, tc_arms,
    tc_call_fn, tc_call_val, tc_expr, tc_stmts, val_arg_tys, val_ret_adt_id, ArmsResult,
    PatIdResult, StepsResult, TcResult};
use crate::subst::{apply, Subst};
use crate::term::{seq_term_view, term_view, Type, TypeV};
use crate::unify::unify;

verus! {

/// The integer primitive type.
fn int_prim() -> (res: Type)
    ensures
        res@ == int_prim_v(),
{
    Type::Prim(String::from_str("Int"))
}

/// The built-in boolean algebraic type of the run.
fn bool_adt(env: &Environment) -> (res: Type)
    ensures
        res@ == bool_adt_v(env@),
{
    let empty_args: Vec<Type> = Vec::new();
    let res = Type::ADT(env.internal().bool_id, empty_args);
    proof {
        assert(seq_term_view(Seq::<Type>::empty()) =~= Seq::<TypeV>::empty());
    }
    res
}

/// Checks an expression against an expected type, returning the
/// substitutions that make the expression's inferred type equal the
/// expected type, or the first type error.
pub fn typecheck(env: &mut Environment, expr: &ExprNode, ty: &Type) -> (res: Result<
    Subst,
    SpruceErr,
>)
    requires
        expr_wf(*expr, old(env)@.val_type.dom()),
    ensures
        final(env)@.val_type == old(env)@.val_type,
        final(env)@.adt_type == old(env)@.adt_type,
        final(env)@.internal_types == old(env)@.internal_types,
        match res {
            Ok(s) => tc_expr(old(env)@, *expr, ty@) == (TcResult::Done {
                sub: s@,
                env: final(env)@,
            }),
            Err(e) => match tc_expr(old(env)@, *expr, ty@) {
                TcResult::Fail { err } => err.message == e.message@ && err.info == e.info@,
                TcResult::Done { .. } => false,
            },
        },
    decreases *expr, 3int,
{
    match &expr.val {
        Expr::Lit(_) => {
            let int_t = int_prim();
            unify(ty, &int_t, &expr.info)
        },
        Expr::Add(l, r) | Expr::Subt(l, r) | Expr::Mult(l, r) | Expr::Div(l, r) | Expr::Pow(l, r)
            | Expr::Mod(l, r) => {
            let int_t = int_prim();
            let mut subs = match unify(ty, &int_t, &expr.info) {
                Ok(s) => s,
                Err(e) => return Err(e),
            };
            let subs1 = match typecheck(env, l, &int_t) {
                Ok(s) => s,
                Err(e) => return Err(e),
            };
            let subs2 = match typecheck(env, r, &int_t) {
                Ok(s) => s,
                Err(e) => return Err(e),
            };
            subs.extend(subs1);
            subs.extend(subs2);
            Ok(subs)
        },
        Expr::Eq(l, r) | Expr::NotEq(l, r) => {
            let bool_t = bool_adt(env);
            let mut subs = match unify(ty, &bool_t, &expr.info) {
                Ok(s) => s,
                Err(e) => return Err(e),
            };
            let new_tv = env.new_tvar();
            let subs1 = match typecheck(env, l, &new_tv) {
                Ok(s) => s,
                Err(e) => return Err(e),
            };
            let updated_tv = apply(&subs1, new_tv);
            let subs2 = match typecheck(env, r, &updated_tv) {
                Ok(s) => s,
                Err(e) => return Err(e),
            };
            subs.extend(subs1);
            subs.extend(subs2);
            Ok(subs)
        },
        Expr::LtEq(l, r) | Expr::GtEq(l, r) | Expr::Lt(l, r) | Expr::Gt(l, r) => {
            let bool_t = bool_adt(env);
            let mut subs = match unify(ty, &bool_t, &expr.info) {
                Ok(s) => s,
                Err(e) => return Err(e),
            };
            let int_t = int_prim();
            let subs1 = match typecheck(env, l, &int_t) {
                Ok(s) => s,
                Err(e) => return Err(e),
            };
            let subs2 = match typecheck(env, r, &int_t) {
                Ok(s) => s,
                Err(e) => return Err(e),
            };
            subs.extend(subs1);
            subs.extend(subs2);
            Ok(subs)
        },
        Expr::Id(id) => {
            let found: Option<Type> = match env.get_sym_type(*id) {
                Some(sym_ty) => Some(sym_ty.clone()),
                None => None,
            };
            match found {
                Some(sym_ty) => unify(ty, &sym_ty, &expr.info),
                None => {
                    let id_tvar = env.new_tvar();
                    env.insert_sym_type(*id, id_tvar.clone());
                    unify(ty, &id_tvar, &expr.info)
                },
            }
        },
        Expr::FnCall(id, args) => typecheck_call_fn(env, *id, args, ty, &expr.info),
        Expr::ADTVal(id, args) => typecheck_call_val(env, *id, args, ty, &expr.info),
    }
}

/// Checks each argument of a call against its own fresh variable, from
/// index `i` on, accumulating substitutions and the refined argument
/// types.
fn typecheck_args(
    env: &mut Environment,
    args: &Vec<ExprNode>,
    i: usize,
    subs: Subst,
    tys: Vec<Type>,
) -> (res: Result<(Subst, Vec<Type>), SpruceErr>)
    requires
        i <= args@.len(),
        exprs_wf(args@.skip(i as int), old(env)@.val_type.dom()),
    ensures
        final(env)@.val_type == old(env)@.val_type,
        final(env)@.adt_type == old(env)@.adt_type,
        final(env)@.internal_types == old(env)@.internal_types,
        match res {
            Ok(p) => tc_args(old(env)@, args@.skip(i as int), subs@, seq_term_view(tys@))
                == (StepsResult::Done {
                sub: p.0@,
                env: final(env)@,
                tys: seq_term_view(p.1@),
            }),
            Err(e) => match tc_args(old(env)@, args@.skip(i as int), subs@, seq_term_view(tys@)) {
                StepsResult::Fail { err } => err.message == e.message@ && err.info == e.info@,
                StepsResult::Done { .. } => false,
            },
        },
    decreases *args, args@.len() - i,
{
    if i == args.len() {
        proof {
            assert(args@.skip(i as int) =~= Seq::<ExprNode>::empty());
        }
        Ok((subs, tys))
    } else {
        let ghost rest = args@.skip(i as int);
        proof {
            assert(rest[0] == args@[i as int]);
            assert(expr_wf(args@[i as int], old(env)@.val_type.dom()));
        }
        let arg_tvar = env.new_tvar();
        let arg_subs = match typecheck(env, &args[i], &arg_tvar) {
            Ok(s) => s,
            Err(e) => return Err(e),
        };
        let arg_ty = apply(&arg_subs, arg_tvar);
        let mut subs2 = subs;
        subs2.extend(arg_subs);
        let mut tys2 = tys;
        tys2.push(arg_ty);
        proof {
            broadcast use crate::term::lemma_seq_term_view;

            assert(rest.drop_first() =~= args@.skip(i + 1));
            assert(seq_term_view(tys2@) =~= seq_term_view(tys@).push(arg_ty@));
        }
        typecheck_args(env, args, i + 1, subs2, tys2)
    }
}

/// Checks a function call: the arguments against fresh variables, the
/// expected type against a fresh output variable, and the callee's
/// recorded (or freshly guessed) type against the candidate function type
/// built from them.
fn typecheck_call_fn(
    env: &mut Environment,
    id: u32,
    args: &Vec<ExprNode>,
    ty: &Type,
    info: &NodeInfo,
) -> (res: Result<Subst, SpruceErr>)
    requires
        exprs_wf(args@, old(env)@.val_type.dom()),
    ensures
        final(env)@.val_type == old(env)@.val_type,
        final(env)@.adt_type == old(env)@.adt_type,
        final(env)@.internal_types == old(env)@.internal_types,
        match res {
            Ok(s) => tc_call_fn(old(env)@, id, args@, ty@, info@) == (TcResult::Done {
                sub: s@,
                env: final(env)@,
            }),
            Err(e) => match tc_call_fn(old(env)@, id, args@, ty@, info@) {
                TcResult::Fail { err } => err.message == e.message@ && err.info == e.info@,
                TcResult::Done { .. } => false,
            },
        },
    decreases *args, args@.len() + 1,
{
    proof {
        assert(args@.skip(0) =~= args@);
        assert(seq_term_view(Seq::<Type>::empty()) =~= Seq::<TypeV>::empty());
    }
    let (mut subs, arg_types) = match typecheck_args(env, args, 0, Subst::new(), Vec::new()) {
        Ok(p) => p,
        Err(e) => return Err(e),
    };
    let out_tvar = env.new_tvar();
    let out_subs = match unify(ty, &out_tvar, info) {
        Ok(s) => s,
        Err(e) => return Err(e),
    };
    let out_type = apply(&out_subs, out_tvar);
    subs.extend(out_subs);
    let fn_type = Type::Func(arg_types, Box::new(out_type));
    let fn_sym_type: Type = {
        let found: Option<Type> = match env.get_sym_type(id) {
            Some(sym_ty) => Some(sym_ty.clone()),
            None => None,
        };
        match found {
            Some(sym_ty) => sym_ty,
            None => {
                let fn_tvar = env.new_tvar();
                env.insert_sym_type(id, fn_tvar.clone());
                fn_tvar
            },
        }
    };
    let fn_subs = match unify(&fn_sym_type, &fn_type, info) {
        Ok(s) => s,
        Err(e) => return Err(e),
    };
    subs.extend(fn_subs);
    Ok(subs)
}

/// Allocating fresh variables changes only the counter: the symbol and
/// declaration tables stay as they were.
pub proof fn lemma_refresh_fold_tables(e: EnvV, ids: Seq<u32>, acc: Map<u32, TypeV>)
    ensures
        ({
            let (e2, ren) = refresh_fold(e, ids, acc);
            &&& e2.active == e.active
            &&& e2.complete == e.complete
            &&& e2.val_type == e.val_type
            &&& e2.adt_type == e.adt_type
            &&& e2.internal_types == e.internal_types
        }),
    decreases ids,
{
    if ids.len() != 0 {
        let (e1, tv) = env_alloc_tvar(e);
        lemma_refresh_fold_tables(e1, ids.drop_first(), acc.insert(ids[0], tv));
    }
}

/// Allocates one fresh type variable per distinct type variable of the
/// term and returns the renaming, mapping each old id to its fresh
/// variable. Used when instantiating an algebraic type's declared type
/// variables for one pattern-match scrutinee, so that bindings made there
/// never constrain the shared declaration-level variables.
pub fn refresh_tvars(env: &mut Environment, ty: &Type) -> (res: Subst)
    ensures
        ({
            let (e2, ren) = refresh_fold(old(env)@, crate::term::tvar_list(ty@), Map::empty());
            final(env)@ == e2 && res@ == ren
        }),
        final(env)@.active == old(env)@.active,
        final(env)@.complete == old(env)@.complete,
        final(env)@.val_type == old(env)@.val_type,
        final(env)@.adt_type == old(env)@.adt_type,
        final(env)@.internal_types == old(env)@.internal_types,
{
    proof {
        lemma_refresh_fold_tables(old(env)@, crate::term::tvar_list(ty@), Map::empty());
    }
    let old_tvars = crate::term::tvars(ty);
    let ghost ids = crate::term::tvar_list(ty@);
    let mut replacements = Subst::new();
    let mut i: usize = 0;
    proof {
        assert(ids.skip(0) =~= ids);
    }
    while i < old_tvars.len()
        invariant
            i <= old_tvars@.len(),
            old_tvars@ == ids,
            refresh_fold(env@, ids.skip(i as int), replacements@) == refresh_fold(
                old(env)@,
                ids,
                Map::empty(),
            ),
        decreases old_tvars@.len() - i,
    {
        let ghost env_pre = env@;
        let ghost repl_pre = replacements@;
        let tv = env.new_tvar();
        replacements.insert(old_tvars[i], tv);
        proof {
            assert(ids.skip(i as int)[0] == ids[i as int]);
            assert(ids.skip(i as int).drop_first() =~= ids.skip(i + 1));
            assert(refresh_fold(env_pre, ids.skip(i as int), repl_pre) == refresh_fold(
                env@,
                ids.skip(i + 1),
                replacements@,
            ));
        }
        i = i + 1;
    }
    proof {
        assert(ids.skip(old_tvars@.len() as int) =~= Seq::<u32>::empty());
    }
    replacements
}

/// The algebraic-type id a declared constructor returns.
fn val_ret_id(env: &Environment, base: u32) -> (res: u32)
    requires
        env_wf(env@),
        env@.val_type.dom().contains(base),
    ensures
        res == val_ret_adt_id(env@, base),
        env@.adt_type.dom().contains(res),
{
    match env.get_val_type(base) {
        Some(t) => {
            proof {
                assert(t@ == env@.val_type[base]);
                assert(env@.val_type[base] matches TypeV::Func { .. });
            }
            match t {
                Type::Func(_, out) => {
                    proof {
                        assert(t@ matches TypeV::Func { .. });
                        assert((**out)@ matches TypeV::ADT { .. });
                    }
                    match &**out {
                        Type::ADT(aid, _) => *aid,
                        _ => vstd::pervasive::unreached(),
                    }
                },
                _ => vstd::pervasive::unreached(),
            }
        },
        None => vstd::pervasive::unreached(),
    }
}

/// The declared argument types of a constructor.
fn val_args(env: &Environment, base: u32) -> (res: Vec<Type>)
    requires
        env_wf(env@),
        env@.val_type.dom().contains(base),
    ensures
        seq_term_view(res@) == val_arg_tys(env@, base),
{
    match env.get_val_type(base) {
        Some(t) => {
            proof {
                assert(t@ == env@.val_type[base]);
                assert(env@.val_type[base] matches TypeV::Func { .. });
                assert(t@ matches TypeV::Func { .. });
            }
            match t {
                Type::Func(cargs, _) => {
                    let res = crate::term::clone_term_list(cargs);
                    proof {
                        broadcast use crate::term::lemma_seq_term_view;

                        assert(seq_term_view(res@) =~= seq_term_view(cargs@));
                    }
                    res
                },
                _ => vstd::pervasive::unreached(),
            }
        },
        None => vstd::pervasive::unreached(),
    }
}

/// Finds the algebraic type shared by every arm's pattern constructor,
/// from arm `k` on, or fails on the first arm whose constructor belongs
/// to another type.
pub(crate) fn arms_pattern_type(
    env: &Environment,
    opts: &Vec<CaseOptionNode>,
    k: usize,
    seen: Option<u32>,
) -> (res: Result<u32, SpruceErr>)
    requires
        k <= opts@.len(),
        env_wf(env@),
        arms_wf(opts@, env@.val_type.dom()),
        seen is Some ==> env@.adt_type.dom().contains(seen->0),
    ensures
        match res {
            Ok(id) => arms_pattern_id(env@, opts@.skip(k as int), seen) == (PatIdResult::Agreed {
                id,
            }) && (seen is Some ==> id == seen->0) && (seen is Some || opts@.len() > k
                ==> env@.adt_type.dom().contains(id)),
            Err(e) => match arms_pattern_id(env@, opts@.skip(k as int), seen) {
                PatIdResult::Mismatch { first, second, info } => e.message@ == pat_mismatch_msg(
                    first,
                    second,
                ) && e.info@ == info,
                PatIdResult::Agreed { .. } => false,
            },
        },
    decreases opts@.len() - k,
{
    if k == opts.len() {
        proof {
            assert(opts@.skip(k as int) =~= Seq::<CaseOptionNode>::empty());
        }
        match seen {
            Some(id) => Ok(id),
            None => Ok(0),
        }
    } else {
        let ghost rest = opts@.skip(k as int);
        proof {
            assert(rest[0] == opts@[k as int]);
            assert(rest.drop_first() =~= opts@.skip(k + 1));
        }
        let opt = &opts[k];
        let base = opt.val.pattern.val.base;
        proof {
            assert(opts@[k as int].val.pattern.val.base == base);
            assert(env@.val_type.dom().contains(base));
        }
        let this_id: u32 = val_ret_id(env, base);
        match seen {
            None => arms_pattern_type(env, opts, k + 1, Some(this_id)),
            Some(p) => {
                if p != this_id {
                    let mut msg = String::from_str("case statement has patterns of both types ");
                    let first_str = crate::render::u32_dec(p);
                    msg.append(first_str.as_str());
                    msg.append(" and ");
                    let second_str = crate::render::u32_dec(this_id);
                    msg.append(second_str.as_str());
                    Err(SpruceErr { message: msg, info: opt.val.pattern.info.clone() })
                } else {
                    arms_pattern_type(env, opts, k + 1, Some(p))
                }
            },
        }
    }
}

/// Records one tentative type per pattern-bound symbol: the constructor's
/// argument types refined through the renaming substitution.
fn bind_arm_args(env: &mut Environment, syms: &Vec<u32>, tys: &Vec<Type>, b: usize, ren: &Subst)
    requires
        b <= syms@.len(),
        b <= tys@.len(),
    ensures
        final(env)@ == bind_pattern_args(
            old(env)@,
            syms@.skip(b as int),
            seq_term_view(tys@).skip(b as int),
            ren@,
        ),
        final(env)@.val_type == old(env)@.val_type,
        final(env)@.adt_type == old(env)@.adt_type,
        final(env)@.internal_types == old(env)@.internal_types,
    decreases syms@.len() - b,
{
    broadcast use crate::term::lemma_seq_term_view;

    if b == syms.len() || b == tys.len() {
        proof {
            if b == syms@.len() {
                assert(syms@.skip(b as int) =~= Seq::<u32>::empty());
            } else {
                assert(seq_term_view(tys@).skip(b as int) =~= Seq::<TypeV>::empty());
            }
        }
    } else {
        proof {
            assert(syms@.skip(b as int)[0] == syms@[b as int]);
            assert(syms@.skip(b as int).drop_first() =~= syms@.skip(b + 1));
            assert(seq_term_view(tys@).skip(b as int)[0] == term_view(tys@[b as int]));
            assert(seq_term_view(tys@).skip(b as int).drop_first() =~= seq_term_view(tys@).skip(
                b + 1,
            ));
        }
        let arg_type = apply(ren, tys[b].clone());
        env.insert_sym_type(syms[b], arg_type);
        bind_arm_args(env, syms, tys, b + 1, ren);
    }
}

/// Checks the arms of a pattern match from arm `a` on, as `tc_arms`
/// describes, threading the accumulated substitution and the unit and
/// expression markers.
pub(crate) fn check_arms(
    env: &mut Environment,
    opts: &Vec<CaseOptionNode>,
    a: usize,
    subs: Subst,
    ty: &Type,
    ren: &Subst,
    is_unit: bool,
    has_expr: bool,
) -> (res: Result<(Subst, bool, bool), SpruceErr>)
    requires
        a <= opts@.len(),
        env_wf(old(env)@),
        arms_wf(opts@, old(env)@.val_type.dom()),
    ensures
        final(env)@.val_type == old(env)@.val_type,
        final(env)@.adt_type == old(env)@.adt_type,
        final(env)@.internal_types == old(env)@.internal_types,
        match res {
            Ok(p) => tc_arms(old(env)@, opts@.skip(a as int), subs@, ty@, ren@, is_unit, has_expr)
                == (ArmsResult::Done { sub: p.0@, env: final(env)@, is_unit: p.1, has_expr: p.2 }),
            Err(e) => match tc_arms(
                old(env)@,
                opts@.skip(a as int),
                subs@,
                ty@,
                ren@,
                is_unit,
                has_expr,
            ) {
                ArmsResult::Fail { err } => err.message == e.message@ && err.info == e.info@,
                ArmsResult::Done { .. } => false,
            },
        },
    decreases *opts, opts@.len() - a,
{
    proof {
        reveal(tc_arms);
    }
    broadcast use crate::term::lemma_seq_term_view;

    if a == opts.len() {
        proof {
            assert(opts@.skip(a as int) =~= Seq::<CaseOptionNode>::empty());
        }
        Ok((subs, is_unit, has_expr))
    } else {
        let ghost rest = opts@.skip(a as int);
        proof {
            assert(rest[0] == opts@[a as int]);
            assert(rest.drop_first() =~= opts@.skip(a + 1));
        }
        let opt = &opts[a];
        let base = opt.val.pattern.val.base;
        proof {
            assert(opts@[a as int].val.pattern.val.base == base);
            assert(old(env)@.val_type.dom().contains(base));
            assert(env@.val_type.dom().contains(base));
        }
        let pattern_arg_types: Vec<Type> = val_args(env, base);
        proof {
            assert(seq_term_view(pattern_arg_types@).skip(0) =~= seq_term_view(
                pattern_arg_types@,
            ));
            assert(opt.val.pattern.val.args@.skip(0) =~= opt.val.pattern.val.args@);
        }
        bind_arm_args(env, &opt.val.pattern.val.args, &pattern_arg_types, 0, ren);
        let mut subs2 = subs;
        let mut is_unit2 = is_unit;
        let mut has_expr2 = has_expr;
        match &opt.val.body.val {
            CaseBody::Body(bodyn) => {
                proof {
                    assert(decreases_to!(*opts, opts@.len() - a => *bodyn, 7int));
                    assert(opts@[a as int].val.body.val == CaseBody::Body(*bodyn));
                    assert(body_wf(*bodyn, old(env)@.val_type.dom()));
                    assert(env_wf(env@));
                }
                let opt_tvar = env.new_tvar();
                let opt_subs = match check_body(env, bodyn, &opt_tvar) {
                    Ok(s) => s,
                    Err(e) => return Err(e),
                };
                let opt_type = apply(&opt_subs, opt_tvar);
                env.apply_subs(&opt_subs);
                subs2.extend(opt_subs);
                let expected = apply(&subs2, ty.clone());
                match unify(&expected, &opt_type, &bodyn.info) {
                    Ok(uni) => {
                        env.apply_subs(&uni);
                        subs2.extend(uni);
                    },
                    Err(_) => {
                        is_unit2 = true;
                    },
                }
            },
            CaseBody::Expr(x) => {
                has_expr2 = true;
                proof {
                    assert(opts@[a as int].val.body.val == CaseBody::Expr(*x));
                    assert(expr_wf(*x, old(env)@.val_type.dom()));
                }
                let expected = apply(&subs2, ty.clone());
                let opt_subs = match typecheck(env, x, &expected) {
                    Ok(s) => s,
                    Err(e) => return Err(e),
                };
                env.apply_subs(&opt_subs);
                subs2.extend(opt_subs);
            },
        }
        proof {
            assert(env_wf(env@));
        }
        check_arms(env, opts, a + 1, subs2, ty, ren, is_unit2, has_expr2)
    }
}

/// Checks the statements of a block from index `j` on, as the loop of
/// `check_body` performs it, accumulating substitutions and each
/// statement's own type.
pub(crate) fn check_stmts(
    env: &mut Environment,
    stmts: &Vec<StmtNode>,
    j: usize,
    subs: Subst,
    stmt_types: Vec<Type>,
) -> (res: Result<(Subst, Vec<Type>), SpruceErr>)
    requires
        j <= stmts@.len(),
        env_wf(old(env)@),
        stmts_wf(stmts@, old(env)@.val_type.dom()),
    ensures
        final(env)@.val_type == old(env)@.val_type,
        final(env)@.adt_type == old(env)@.adt_type,
        final(env)@.internal_types == old(env)@.internal_types,
        match res {
            Ok(p) => p.1@.len() == stmt_types@.len() + (stmts@.len() - j) && tc_stmts(
                old(env)@,
                stmts@.skip(j as int),
                subs@,
                seq_term_view(stmt_types@),
            ) == (StepsResult::Done { sub: p.0@, env: final(env)@, tys: seq_term_view(p.1@) }),
            Err(e) => match tc_stmts(
                old(env)@,
                stmts@.skip(j as int),
                subs@,
                seq_term_view(stmt_types@),
            ) {
                StepsResult::Fail { err } => err.message == e.message@ && err.info == e.info@,
                StepsResult::Done { .. } => false,
            },
        },
    decreases *stmts, stmts@.len() - j,
{
    proof {
        reveal(tc_stmts);
    }
    broadcast use crate::term::lemma_seq_term_view;

    if j == stmts.len() {
        proof {
            assert(stmts@.skip(j as int) =~= Seq::<StmtNode>::empty());
        }
        Ok((subs, stmt_types))
    } else {
        let ghost rest = stmts@.skip(j as int);
        proof {
            assert(rest[0] == stmts@[j as int]);
            assert(rest.drop_first() =~= stmts@.skip(j + 1));
            assert(stmt_wf(stmts@[j as int], old(env)@.val_type.dom()));
        }
        let mut subs2 = subs;
        let mut stmt_types2 = stmt_types;
        let ghost tys_pre = seq_term_view(stmt_types2@);
        let stmt = &stmts[j];
        match &stmt.val {
            Stmt::Assign(tgt, expr) => {
                match &tgt.val {
                    Target::Update(id) => {
                        let found: Option<Type> = match env.get_sym_type(*id) {
                            Some(t) => Some(t.clone()),
                            None => None,
                        };
                        match found {
                            None => {
                                return Err(
                                    SpruceErr {
                                        message: String::from_str("Dangling symbol id"),
                                        info: tgt.info.clone(),
                                    },
                                );
                            },
                            Some(sym_type) => {
                                let stmt_subs = match typecheck(env, expr, &sym_type) {
                                    Ok(s) => s,
                                    Err(e) => return Err(e),
                                };
                                env.apply_subs(&stmt_subs);
                                let var_type = apply(&stmt_subs, sym_type);
                                stmt_types2.push(var_type);
                                subs2.extend(stmt_subs);
                            },
                        }
                    },
                    Target::Bind(id) => {
                        let new_tv = env.new_tvar();
                        let stmt_subs = match typecheck(env, expr, &new_tv) {
                            Ok(s) => s,
                            Err(e) => return Err(e),
                        };
                        let var_type = apply(&stmt_subs, new_tv);
                        env.insert_sym_type(*id, var_type.clone());
                        env.apply_subs(&stmt_subs);
                        stmt_types2.push(var_type);
                        subs2.extend(stmt_subs);
                    },
                }
            },
            Stmt::Case(case) => {
                proof {
                    assert(decreases_to!(*stmts, stmts@.len() - j => *case, 5int));
                }
                let new_tv = env.new_tvar();
                let case_subs = match check_case(env, case, &new_tv) {
                    Ok(s) => s,
                    Err(e) => return Err(e),
                };
                let var_type = apply(&case_subs, new_tv);
                env.apply_subs(&case_subs);
                stmt_types2.push(var_type);
                subs2.extend(case_subs);
            },
            Stmt::FnCall(id, args) => {
                let new_tv = env.new_tvar();
                let fn_subs = match typecheck_call_fn(env, *id, args, &new_tv, &stmt.info) {
                    Ok(s) => s,
                    Err(e) => return Err(e),
                };
                let fn_type = apply(&fn_subs, new_tv);
                env.apply_subs(&fn_subs);
                stmt_types2.push(fn_type);
                subs2.extend(fn_subs);
            },
        }
        proof {
            assert(seq_term_view(stmt_types2@) =~= tys_pre.push(stmt_types2@.last()@));
        }
        check_stmts(env, stmts, j + 1, subs2, stmt_types2)
    }
}

/// Checks a data-constructor application: as a function call, with the
/// callee's type taken from the immutable constructor table.
fn typecheck_call_val(
    env: &mut Environment,
    id: u32,
    args: &Vec<ExprNode>,
    ty: &Type,
    info: &NodeInfo,
) -> (res: Result<Subst, SpruceErr>)
    requires
        old(env)@.val_type.dom().contains(id),
        exprs_wf(args@, old(env)@.val_type.dom()),
    ensures
        final(env)@.val_type == old(env)@.val_type,
        final(env)@.adt_type == old(env)@.adt_type,
        final(env)@.internal_types == old(env)@.internal_types,
        match res {
            Ok(s) => tc_call_val(old(env)@, id, args@, ty@, info@) == (TcResult::Done {
                sub: s@,
                env: final(env)@,
            }),
            Err(e) => match tc_call_val(old(env)@, id, args@, ty@, info@) {
                TcResult::Fail { err } => err.message == e.message@ && err.info == e.info@,
                TcResult::Done { .. } => false,
            },
        },
    decreases *args, args@.len() + 1,
{
    proof {
        assert(args@.skip(0) =~= args@);
        assert(seq_term_view(Seq::<Type>::empty()) =~= Seq::<TypeV>::empty());
    }
    let (mut subs, arg_types) = match typecheck_args(env, args, 0, Subst::new(), Vec::new()) {
        Ok(p) => p,
        Err(e) => return Err(e),
    };
    let out_tvar = env.new_tvar();
    let out_subs = match unify(ty, &out_tvar, info) {
        Ok(s) => s,
        Err(e) => return Err(e),
    };
    let out_type = apply(&out_subs, out_tvar);
    subs.extend(out_subs);
    let fn_type = Type::Func(arg_types, Box::new(out_type));
    let fn_sym_type: Type = match env.get_val_type(id) {
        Some(val_ty) => val_ty.clone(),
        None => vstd::pervasive::unreached(),
    };
    let fn_subs = match unify(&fn_sym_type, &fn_type, info) {
        Ok(s) => s,
        Err(e) => return Err(e),
    };
    subs.extend(fn_subs);
    Ok(subs)
}

} // verus!
