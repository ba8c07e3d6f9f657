//! The top-level driver: seeds the environment from the program's
//! algebraic-type and constructor tables, then checks the top-level
//! assignments and the function definitions in declaration order.

use vstd::prelude::*;

use crate::ast::{FuncNode, NodeInfo, Prog, Span, SpruceErr, Stmt, TypeId};
use crate::check::check_body;
use crate::env::{env_wf, Environment};
use crate::infer::typecheck;
use crate::model::{
    alloc_params, body_wf, dangling_adt_err, expr_wf, ident_type, idents_type, lemma_idents_type,
    seed_params, seed_types, seed_vals, tc_defs, tc_defs_step, tc_func, tc_func_step, tc_funcs,
    tc_funcs_step, tc_prog, tc_prog_step, FuncResult, ProgResult, SeedResult,
};
use crate::subst::{apply, Subst};
use crate::term::{seq_term_view, term_view, Type, TypeV};
use crate::unify::unify;

verus! {

/// One unfolding of `tc_func`.
proof fn lemma_tc_func_unfold(e: crate::env::EnvV, f: FuncNode)
    ensures
        tc_func(e, f) == tc_func_step(e, f),
{
    reveal(tc_func);
}

/// One unfolding of `tc_defs`.
proof fn lemma_tc_defs_unfold(e: crate::env::EnvV, dd: Seq<crate::ast::StmtNode>)
    ensures
        tc_defs(e, dd) == tc_defs_step(e, dd),
{
    reveal(tc_defs);
}

/// One unfolding of `tc_funcs`.
proof fn lemma_tc_funcs_unfold(e: crate::env::EnvV, ff: Seq<FuncNode>)
    ensures
        tc_funcs(e, ff) == tc_funcs_step(e, ff),
{
    reveal(tc_funcs);
}

/// One unfolding of `tc_prog`.
proof fn lemma_tc_prog_unfold(p: Prog)
    ensures
        tc_prog(p) == tc_prog_step(p),
{
    reveal(tc_prog);
}

/// The ids of the first `n` declared constructors.
pub open spec fn val_ids_upto(vs: Seq<crate::ast::ValDecl>, n: int) -> Set<u32>
    decreases n,
{
    if n <= 0 {
        Set::empty()
    } else {
        val_ids_upto(vs, n - 1).insert(vs[n - 1].id)
    }
}

/// The ids of all declared constructors.
pub open spec fn val_ids(vs: Seq<crate::ast::ValDecl>) -> Set<u32> {
    val_ids_upto(vs, vs.len() as int)
}

/// A program the checker accepts as input: every top-level definition is
/// an assignment, and every expression and block mentions only declared
/// constructors.
pub open spec fn prog_wf(p: Prog) -> bool {
    &&& forall|i: int| #![trigger p.definitions@[i]]
        0 <= i < p.definitions@.len() ==> (p.definitions@[i].val matches Stmt::Assign(tgt, expr)
            && expr_wf(expr, val_ids(p.type_table.values@)))
    &&& forall|i: int| #![trigger p.functions@[i]]
        0 <= i < p.functions@.len() ==> body_wf(
            p.functions@[i].val.body,
            val_ids(p.type_table.values@),
        )
}

/// Builds the type a declared type expression stands for: a reference to
/// one of the owning type's parameters becomes that parameter's recorded
/// fresh variable, a nested algebraic-type application is rebuilt over
/// its arguments, and a primitive name becomes the primitive type. A
/// parameter id with no recorded variable yields the unit type.
pub fn create_ident_type(ident: &TypeId, env: &Environment, tparams: &Subst) -> (res: Type)
    ensures
        res@ == ident_type(*ident, tparams@),
    decreases *ident,
{
    match ident {
        TypeId::TParam(id) => {
            match tparams.get(*id) {
                Some(t) => t.clone(),
                None => Type::Unit,
            }
        },
        TypeId::ADT(id, args) => {
            let arg_types = create_ident_list(args, env, tparams);
            Type::ADT(*id, arg_types)
        },
        TypeId::Prim(s) => Type::Prim(s.clone()),
    }
}

/// Builds the types of a list of declared type expressions.
fn create_ident_list(args: &Vec<TypeId>, env: &Environment, tparams: &Subst) -> (res: Vec<Type>)
    ensures
        seq_term_view(res@) == idents_type(args@, tparams@),
    decreases *args,
{
    broadcast use crate::term::lemma_seq_term_view, lemma_idents_type;

    let mut arg_types: Vec<Type> = Vec::new();
    let mut i: usize = 0;
    while i < args.len()
        invariant
            i <= args@.len(),
            arg_types@.len() == i,
            forall|k: int|
                0 <= k < i ==> #[trigger] term_view(arg_types@[k]) == ident_type(
                    args@[k],
                    tparams@,
                ),
        decreases args@.len() - i,
    {
        let at = create_ident_type(&args[i], env, tparams);
        arg_types.push(at);
        i = i + 1;
    }
    proof {
        assert(seq_term_view(arg_types@) =~= idents_type(args@, tparams@));
    }
    arg_types
}

/// Checks one function definition: one fresh variable per parameter and
/// one for the return type, the body against the return variable, and
/// the refined candidate against any type an earlier call site guessed —
/// failure there is the distinct incompatible-with-earlier-call
/// diagnostic. On success every tentative symbol is finalized: the
/// active table is left empty.
pub fn check_func(env: &mut Environment, func: &FuncNode) -> (res: Result<bool, SpruceErr>)
    requires
        env_wf(old(env)@),
        body_wf(func.val.body, old(env)@.val_type.dom()),
    ensures
        final(env)@.val_type == old(env)@.val_type,
        final(env)@.adt_type == old(env)@.adt_type,
        final(env)@.internal_types == old(env)@.internal_types,
        env_wf(final(env)@),
        match res {
            Ok(b) => b && tc_func(old(env)@, *func) == (FuncResult::Done { env: final(env)@ })
                && final(env)@.active == Map::<u32, TypeV>::empty(),
            Err(e) => match tc_func(old(env)@, *func) {
                FuncResult::Fail { err } => err.message == e.message@ && err.info == e.info@,
                FuncResult::Done { .. } => false,
            },
        },
{
    broadcast use crate::term::lemma_seq_term_view;

    proof {
        lemma_tc_func_unfold(old(env)@, *func);
        assert(func.val.args@.skip(0) =~= func.val.args@);
        assert(seq_term_view(Seq::<Type>::empty()) =~= Seq::<TypeV>::empty());
    }
    let ghost syms = func.val.args@;
    let mut arg_types: Vec<Type> = Vec::new();
    let mut i: usize = 0;
    while i < func.val.args.len()
        invariant
            i <= syms.len(),
            syms == func.val.args@,
            env@.val_type == old(env)@.val_type,
            env@.adt_type == old(env)@.adt_type,
            env@.internal_types == old(env)@.internal_types,
            alloc_params(env@, syms.skip(i as int), seq_term_view(arg_types@)) == alloc_params(
                old(env)@,
                syms,
                Seq::empty(),
            ),
        decreases syms.len() - i,
    {
        broadcast use crate::term::lemma_seq_term_view;

        let ghost env_pre = env@;
        let ghost tys_pre = seq_term_view(arg_types@);
        proof {
            assert(syms.skip(i as int)[0] == syms[i as int]);
            assert(syms.skip(i as int).drop_first() =~= syms.skip(i + 1));
        }
        let arg_tvar = env.new_tvar();
        env.insert_sym_type(func.val.args[i], arg_tvar.clone());
        arg_types.push(arg_tvar);
        proof {
            assert(seq_term_view(arg_types@) =~= tys_pre.push(term_view(arg_types@.last())));
            assert(alloc_params(env_pre, syms.skip(i as int), tys_pre) == alloc_params(
                env@,
                syms.skip(i + 1),
                seq_term_view(arg_types@),
            ));
        }
        i = i + 1;
    }
    proof {
        assert(syms.skip(syms.len() as int) =~= Seq::<u32>::empty());
    }
    let ret_tvar = env.new_tvar();
    let fn_type = Type::Func(arg_types, Box::new(ret_tvar.clone()));
    proof {
        assert(env_wf(env@));
        assert(body_wf(func.val.body, env@.val_type.dom()));
    }
    let body_subs = match check_body(env, &func.val.body, &ret_tvar) {
        Ok(s) => s,
        Err(e) => return Err(e),
    };
    let refined_fn_type = apply(&body_subs, fn_type);
    env.apply_subs(&body_subs);
    let found: Option<Type> = match env.get_sym_type(func.val.name) {
        Some(t) => Some(t.clone()),
        None => None,
    };
    match found {
        Some(env_fn_type) => {
            match unify(&env_fn_type, &refined_fn_type, &func.info) {
                Ok(subs) => {
                    env.apply_subs(&subs);
                },
                Err(type_err) => {
                    return Err(
                        SpruceErr {
                            message: String::from_str(
                                "Function definition incompatible with earlier function call",
                            ),
                            info: type_err.info,
                        },
                    );
                },
            }
        },
        None => {
            env.insert_sym_type(func.val.name, refined_fn_type);
        },
    }
    env.flush_active_symbols();
    Ok(true)
}

/// Checks a whole name-resolved program: seeds the environment with one
/// instance of each declared algebraic type over fresh variables and
/// with each constructor's function type, finalizes those, then checks
/// the top-level assignments and the function definitions in declaration
/// order, stopping at the first error. A constructor whose owning type
/// is undeclared is an error.
#[verifier::loop_isolation(false)]
pub fn check_prog(prog: &Prog) -> (res: Result<Environment, SpruceErr>)
    requires
        prog_wf(*prog),
    ensures
        match res {
            Ok(env_out) => tc_prog(*prog) == (ProgResult::Done { env: env_out@ }) && env_wf(
                env_out@,
            ),
            Err(e) => match tc_prog(*prog) {
                ProgResult::Fail { err } => err.message == e.message@ && err.info == e.info@,
                ProgResult::Done { .. } => false,
            },
        },
{
    proof {
        lemma_tc_prog_unfold(*prog);
    }
    let mut env = Environment::new(prog.internal_types);
    let ghost e0v = env@;
    proof {
        assert(e0v == (crate::env::EnvV {
            next_type_var: 0,
            active: Map::<u32, TypeV>::empty(),
            complete: Map::<u32, TypeV>::empty(),
            adt_type: Map::<u32, TypeV>::empty(),
            val_type: Map::<u32, TypeV>::empty(),
            internal_types: prog.internal_types,
        }));
    }
    let mut tparams = Subst::new();
    let ghost ts = prog.type_table.types@;
    let ghost st = seed_types(e0v, ts, Map::empty());

    let mut t: usize = 0;
    proof {
        assert(ts.skip(0) =~= ts);
    }
    while t < prog.type_table.types.len()
        invariant
            t <= ts.len(),
            ts == prog.type_table.types@,
            env_wf(env@),
            env@.val_type.dom() == Map::<u32, TypeV>::empty().dom(),
            st == seed_types(e0v, ts, Map::empty()),
            seed_types(env@, ts.skip(t as int), tparams@) == st,
        decreases ts.len() - t,
    {
        broadcast use crate::term::lemma_seq_term_view;

        let ghost env_t = env@;
        let ghost tps_t = tparams@;
        proof {
            assert(ts.skip(t as int)[0] == ts[t as int]);
            assert(ts.skip(t as int).drop_first() =~= ts.skip(t + 1));
        }
        let decl = &prog.type_table.types[t];
        let ghost ids = decl.type_params@;
        let mut tvars_of_decl: Vec<Type> = Vec::new();
        let mut q: usize = 0;
        proof {
            assert(ids.skip(0) =~= ids);
            assert(seq_term_view(Seq::<Type>::empty()) =~= Seq::<TypeV>::empty());
        }
        while q < decl.type_params.len()
            invariant
                q <= ids.len(),
                ids == decl.type_params@,
                env_wf(env@),
                env@.val_type.dom() == Map::<u32, TypeV>::empty().dom(),
                env@.adt_type == env_t.adt_type,
                seed_params(env@, ids.skip(q as int), tparams@, seq_term_view(tvars_of_decl@))
                    == seed_params(env_t, ids, tps_t, Seq::empty()),
            decreases ids.len() - q,
        {
            broadcast use crate::term::lemma_seq_term_view;

            let ghost env_q = env@;
            let ghost tps_q = tparams@;
            let ghost tys_q = seq_term_view(tvars_of_decl@);
            proof {
                assert(ids.skip(q as int)[0] == ids[q as int]);
                assert(ids.skip(q as int).drop_first() =~= ids.skip(q + 1));
            }
            let tvar = env.new_tvar();
            tparams.insert(decl.type_params[q], tvar.clone());
            tvars_of_decl.push(tvar);
            proof {
                assert(seq_term_view(tvars_of_decl@) =~= tys_q.push(
                    term_view(tvars_of_decl@.last()),
                ));
                assert(seed_params(env_q, ids.skip(q as int), tps_q, tys_q) == seed_params(
                    env@,
                    ids.skip(q + 1),
                    tparams@,
                    seq_term_view(tvars_of_decl@),
                ));
            }
            q = q + 1;
        }
        proof {
            assert(ids.skip(ids.len() as int) =~= Seq::<u32>::empty());
        }
        env.insert_adt_type(decl.id, Type::ADT(decl.id, tvars_of_decl));
        proof {
            assert(env_wf(env@));
            assert(seed_types(env@, ts.skip(t + 1), tparams@) == st);
        }
        t = t + 1;
    }
    proof {
        assert(ts.skip(ts.len() as int) =~= Seq::<crate::ast::TypeDecl>::empty());
        assert(st == (env@, tparams@));
    }
    let ghost e1v = env@;
    let ghost tpsv = tparams@;

    let ghost vs = prog.type_table.values@;
    let mut v: usize = 0;
    proof {
        assert(vs.skip(0) =~= vs);
    }
    while v < prog.type_table.values.len()
        invariant
            v <= vs.len(),
            vs == prog.type_table.values@,
            env_wf(env@),
            env@.val_type.dom() == val_ids_upto(vs, v as int),
            tparams@ == tpsv,
            seed_vals(env@, vs.skip(v as int), tpsv) == seed_vals(e1v, vs, tpsv),
        decreases vs.len() - v,
    {
        let ghost env_v = env@;
        proof {
            assert(vs.skip(v as int)[0] == vs[v as int]);
            assert(vs.skip(v as int).drop_first() =~= vs.skip(v + 1));
        }
        let val = &prog.type_table.values[v];
        let args = create_ident_list(&val.args, &env, &tparams);
        let out: Type = match env.get_adt_type(val.data_type) {
            Some(tref) => tref.clone(),
            None => {
                proof {
                    assert(seed_vals(env_v, vs.skip(v as int), tpsv) == (SeedResult::Fail {
                        err: dangling_adt_err(),
                    }));
                    assert(seed_vals(e1v, vs, tpsv) == (SeedResult::Fail {
                        err: dangling_adt_err(),
                    }));
                    assert(seed_types(e0v, ts, Map::<u32, TypeV>::empty()) == st);
                    assert(st.0 == e1v && st.1 == tpsv);
                    assert(seed_vals(st.0, prog.type_table.values@, st.1) == (SeedResult::Fail {
                        err: dangling_adt_err(),
                    }));
                    assert(tc_prog_step(*prog) == (ProgResult::Fail { err: dangling_adt_err() }));
                }
                return Err(
                    SpruceErr {
                        message: String::from_str("dangling adt id"),
                        info: NodeInfo { span: Span { start: 0, end: 0 }, file: String::new() },
                    },
                );
            },
        };
        env.insert_val_type(val.id, Type::Func(args, Box::new(out)));
        proof {
            assert(env_wf(env@));
            assert(seed_vals(env@, vs.skip(v + 1), tpsv) == seed_vals(e1v, vs, tpsv));
        }
        v = v + 1;
    }
    let ghost e2v = env@;
    proof {
        assert(vs.skip(vs.len() as int) =~= Seq::<crate::ast::ValDecl>::empty());
        assert(seed_vals(e1v, vs, tpsv) == (SeedResult::Done { env: e2v }));
    }
    env.flush_active_symbols();
    let ghost e3v = env@;
    let ghost dom0 = env@.val_type.dom();
    proof {
        assert(dom0 == val_ids(prog.type_table.values@));
    }

    let ghost dd = prog.definitions@;
    let mut d: usize = 0;
    proof {
        assert(dd.skip(0) =~= dd);
        assert(seed_types(e0v, ts, Map::<u32, TypeV>::empty()) == st);
        assert(st.0 == e1v && st.1 == tpsv);
        assert(seed_vals(st.0, prog.type_table.values@, st.1) == (SeedResult::Done { env: e2v }));
        assert(e3v == crate::env::env_flush(e2v));
    }
    while d < prog.definitions.len()
        invariant
            d <= dd.len(),
            dd == prog.definitions@,
            env_wf(env@),
            env@.val_type.dom() == dom0,
            dom0 == val_ids(prog.type_table.values@),
            prog_wf(*prog),
            tc_defs(env@, dd.skip(d as int)) == tc_defs(e3v, dd),
        decreases dd.len() - d,
    {
        let ghost env_d = env@;
        proof {
            lemma_tc_defs_unfold(env_d, dd.skip(d as int));
            assert(dd.skip(d as int)[0] == dd[d as int]);
            assert(dd.skip(d as int).drop_first() =~= dd.skip(d + 1));
            assert(prog.definitions@[d as int].val matches Stmt::Assign(tgt, expr) && expr_wf(
                expr,
                val_ids(prog.type_table.values@),
            ));
        }
        let stmt = &prog.definitions[d];
        match &stmt.val {
            Stmt::Assign(tgt, expr) => {
                let stmt_tvar = env.new_tvar();
                let subs = match typecheck(&mut env, expr, &stmt_tvar) {
                    Ok(s) => s,
                    Err(e) => {
                        proof {
                            assert(tc_defs_step(env_d, dd.skip(d as int)) matches ProgResult::Fail {
                                ..
                            });
                            assert(tc_defs(e3v, dd) == tc_defs(env_d, dd.skip(d as int)));
                            assert(tc_prog_step(*prog) == tc_defs(e3v, dd));
                        }
                        return Err(e);
                    },
                };
                let stmt_type = apply(&subs, stmt_tvar);
                env.insert_sym_type(tgt.val.id(), stmt_type);
                env.flush_active_symbols();
                proof {
                    lemma_tc_defs_unfold(env@, dd.skip(d + 1));
                    assert(tc_defs(env@, dd.skip(d + 1)) == tc_defs(e3v, dd));
                }
            },
            _ => {
                return Err(
                    SpruceErr {
                        message: String::from_str("top-level statement must be an assignment"),
                        info: stmt.info.clone(),
                    },
                );
            },
        }
        d = d + 1;
    }
    proof {
        assert(dd.skip(dd.len() as int) =~= Seq::<crate::ast::StmtNode>::empty());
        lemma_tc_defs_unfold(env@, Seq::empty());
        assert(tc_defs(e3v, dd) == (ProgResult::Done { env: env@ }));
    }
    let ghost e4v = env@;

    let ghost ff = prog.functions@;
    let mut f: usize = 0;
    proof {
        assert(ff.skip(0) =~= ff);
        assert(tc_prog_step(*prog) == tc_funcs(e4v, ff));
    }
    while f < prog.functions.len()
        invariant
            f <= ff.len(),
            ff == prog.functions@,
            env_wf(env@),
            env@.val_type.dom() == dom0,
            dom0 == val_ids(prog.type_table.values@),
            prog_wf(*prog),
            tc_funcs(env@, ff.skip(f as int)) == tc_funcs(e4v, ff),
        decreases ff.len() - f,
    {
        let ghost env_f = env@;
        proof {
            lemma_tc_funcs_unfold(env_f, ff.skip(f as int));
            assert(ff.skip(f as int)[0] == ff[f as int]);
            assert(ff.skip(f as int).drop_first() =~= ff.skip(f + 1));
            assert(body_wf(prog.functions@[f as int].val.body, val_ids(prog.type_table.values@)));
        }
        let func = &prog.functions[f];
        match check_func(&mut env, func) {
            Ok(_) => {},
            Err(e) => {
                proof {
                    assert(tc_funcs_step(env_f, ff.skip(f as int)) matches ProgResult::Fail {
                        ..
                    });
                    assert(tc_funcs(e4v, ff) == tc_funcs(env_f, ff.skip(f as int)));
                    assert(tc_prog_step(*prog) == tc_funcs(e4v, ff));
                }
                return Err(e);
            },
        }
        proof {
            lemma_tc_funcs_unfold(env@, ff.skip(f + 1));
            assert(tc_funcs(env@, ff.skip(f + 1)) == tc_funcs(e4v, ff));
        }
        f = f + 1;
    }
    proof {
        assert(ff.skip(ff.len() as int) =~= Seq::<FuncNode>::empty());
        lemma_tc_funcs_unfold(env@, Seq::empty());
        assert(tc_funcs(e4v, ff) == (ProgResult::Done { env: env@ }));
    }

    Ok(env)
}

} // verus!
