//! Structural unification with an occurs check: computes a substitution
//! making two type terms equal, or fails with a diagnostic carrying both
//! sides' debug renderings.

use vstd::prelude::*;

use crate::ast::{NodeInfo, SpruceErr};
use crate::render::debug_str;
use crate::subst::{
    apply, apply1, apply_rec, lemma_apply_rec_id, lemma_apply_rec_vars, rng_vars, Subst,
};
use crate::term::{
    clone_term_list, contains_id, free_vars, lemma_free_vars_finite, lemma_seq_free_vars_contains,
    lemma_seq_free_vars_finite, lemma_seq_free_vars_push, lemma_seq_term_view, seq_free_vars,
    seq_term_size, seq_term_view, term_size, term_view, tvars, Type, TypeV,
};

verus! {

broadcast use vstd::seq_lib::group_seq_properties;

/// What unifying two terms yields: a substitution, or the pair of terms on
/// which unification failed.
pub ghost enum UnifyOutcome {
    Bound { sub: Map<u32, TypeV> },
    Clash { left: TypeV, right: TypeV },
}

/// The free variables of both terms together.
pub open spec fn both_vars(a: TypeV, b: TypeV) -> Set<u32> {
    free_vars(a).union(free_vars(b))
}

/// The bindings of `d` whose key and bound term lie within the variable
/// set `vv`. The substitutions unification accumulates never bind outside
/// the unified terms' variables, so for them this keeps every binding.
pub open spec fn bounded_sub(d: Map<u32, TypeV>, vv: Set<u32>) -> Map<u32, TypeV> {
    Map::new(
        |k: u32|
            d.dom().contains(k) && vv.contains(k) && (forall|x: u32| #[trigger]
                free_vars(d[k]).contains(x) ==> vv.contains(x)),
        |k: u32| d[k],
    )
}

/// The side conditions under which the pairwise unification of two term
/// sequences is specified: `vv` is a finite bound on every variable in
/// sight.
pub open spec fn unify_seq_pre(
    s: Map<u32, TypeV>,
    aa: Seq<TypeV>,
    bb: Seq<TypeV>,
    vv: Set<u32>,
) -> bool {
    &&& vv.finite()
    &&& s.dom().finite()
    &&& forall|x: u32| #[trigger] s.dom().contains(x) ==> vv.contains(x)
    &&& forall|x: u32| #[trigger] rng_vars(s).contains(x) ==> vv.contains(x)
    &&& forall|x: u32| #[trigger] seq_free_vars(aa).contains(x) ==> vv.contains(x)
    &&& forall|x: u32| #[trigger] seq_free_vars(bb).contains(x) ==> vv.contains(x)
}

/// Structural unification of two terms. Two equal type variables unify
/// with the empty substitution; a type variable unifies with any term not
/// containing it (the occurs check) by binding to it; primitives unify
/// when their names match; algebraic types when their ids match and their
/// arguments unify pairwise; function types when their argument counts
/// match and their arguments and return types unify pairwise; unit unifies
/// with unit; anything else fails.
pub open spec fn unify_spec(a: TypeV, b: TypeV) -> UnifyOutcome
    decreases both_vars(a, b).len(), term_size(a) + term_size(b),
        via unify_spec_decreases
{
    match (a, b) {
        (TypeV::TVar { id: id1 }, TypeV::TVar { id: id2 }) => {
            if id1 == id2 {
                UnifyOutcome::Bound { sub: Map::empty() }
            } else {
                UnifyOutcome::Bound { sub: Map::empty().insert(id1, b) }
            }
        },
        (TypeV::TVar { id }, _) => {
            if free_vars(b).contains(id) {
                UnifyOutcome::Clash { left: a, right: b }
            } else {
                UnifyOutcome::Bound { sub: Map::empty().insert(id, b) }
            }
        },
        (_, TypeV::TVar { id }) => {
            if free_vars(a).contains(id) {
                UnifyOutcome::Clash { left: a, right: b }
            } else {
                UnifyOutcome::Bound { sub: Map::empty().insert(id, a) }
            }
        },
        (TypeV::Prim { name: p1 }, TypeV::Prim { name: p2 }) => {
            if p1 == p2 {
                UnifyOutcome::Bound { sub: Map::empty() }
            } else {
                UnifyOutcome::Clash { left: a, right: b }
            }
        },
        (TypeV::ADT { id: id1, args: args1 }, TypeV::ADT { id: id2, args: args2 }) => {
            if id1 == id2 {
                let m = if args1.len() <= args2.len() {
                    args1.len() as int
                } else {
                    args2.len() as int
                };
                unify_seq(Map::empty(), args1.take(m), args2.take(m), both_vars(a, b))
            } else {
                UnifyOutcome::Clash { left: a, right: b }
            }
        },
        (TypeV::Func { args: args1, ret: ret1 }, TypeV::Func { args: args2, ret: ret2 }) => {
            if args1.len() == args2.len() {
                unify_seq(Map::empty(), args1.push(*ret1), args2.push(*ret2), both_vars(a, b))
            } else {
                UnifyOutcome::Clash { left: a, right: b }
            }
        },
        (TypeV::Unit, TypeV::Unit) => UnifyOutcome::Bound { sub: Map::empty() },
        _ => UnifyOutcome::Clash { left: a, right: b },
    }
}

/// Pairwise unification of two term sequences, threading substitutions:
/// the substitution accumulated so far is applied to each pair before it
/// is unified, and each pair's bindings join the accumulation.
pub open spec fn unify_seq(
    s: Map<u32, TypeV>,
    aa: Seq<TypeV>,
    bb: Seq<TypeV>,
    vv: Set<u32>,
) -> UnifyOutcome
    decreases vv.len(), seq_term_size(aa) + seq_term_size(bb) + 1,
        when unify_seq_pre(s, aa, bb, vv)
        via unify_seq_decreases
{
    if aa.len() == 0 || bb.len() == 0 {
        UnifyOutcome::Bound { sub: s }
    } else {
        let a1 = apply1(s, aa[0]);
        let b1 = apply1(s, bb[0]);
        match unify_spec(a1, b1) {
            UnifyOutcome::Clash { left, right } => UnifyOutcome::Clash { left, right },
            UnifyOutcome::Bound { sub: d } => unify_seq(
                s.union_prefer_right(bounded_sub(d, vv)),
                aa.drop_first(),
                bb.drop_first(),
                vv,
            ),
        }
    }
}

/// Every term has size at least one.
pub proof fn lemma_term_size_pos(t: TypeV)
    ensures
        term_size(t) >= 1,
{
    match t {
        TypeV::Unit => {},
        TypeV::Prim { .. } => {},
        TypeV::TVar { .. } => {},
        TypeV::ADT { .. } => {},
        TypeV::Func { .. } => {},
    }
}

/// A prefix of a sequence is no larger than the sequence.
pub proof fn lemma_seq_term_size_take(ts: Seq<TypeV>, m: int)
    requires
        0 <= m <= ts.len(),
    ensures
        seq_term_size(ts.take(m)) <= seq_term_size(ts),
    decreases ts,
{
    if m == 0 {
        assert(ts.take(0) =~= Seq::<TypeV>::empty());
        if ts.len() != 0 {
            lemma_term_size_pos(ts[0]);
            lemma_seq_term_size_take(ts.drop_first(), 0);
        }
    } else {
        assert(ts.take(m)[0] == ts[0]);
        assert(ts.take(m).drop_first() =~= ts.drop_first().take(m - 1));
        lemma_seq_term_size_take(ts.drop_first(), m - 1);
    }
}

/// Appending a term adds its size.
pub proof fn lemma_seq_term_size_push(ts: Seq<TypeV>, t: TypeV)
    ensures
        seq_term_size(ts.push(t)) == seq_term_size(ts) + term_size(t),
    decreases ts,
{
    if ts.len() == 0 {
        assert(ts.push(t).drop_first() =~= Seq::<TypeV>::empty());
    } else {
        assert(ts.push(t).drop_first() =~= ts.drop_first().push(t));
        lemma_seq_term_size_push(ts.drop_first(), t);
    }
}

/// The free variables of a prefix are free in the whole sequence.
pub proof fn lemma_seq_free_vars_take(ts: Seq<TypeV>, m: int)
    requires
        0 <= m <= ts.len(),
    ensures
        forall|x: u32| #[trigger]
            seq_free_vars(ts.take(m)).contains(x) ==> seq_free_vars(ts).contains(x),
{
    assert forall|x: u32| #[trigger]
        seq_free_vars(ts.take(m)).contains(x) implies seq_free_vars(ts).contains(x) by {
        lemma_seq_free_vars_contains(ts.take(m), x);
        let i = choose|i: int| 0 <= i < m && free_vars(ts.take(m)[i]).contains(x);
        lemma_seq_free_vars_contains(ts, x);
        assert(free_vars(ts[i]).contains(x));
    }
}

#[via_fn]
proof fn unify_spec_decreases(a: TypeV, b: TypeV) {
    lemma_free_vars_finite(a);
    lemma_free_vars_finite(b);
    match (a, b) {
        (TypeV::ADT { id: id1, args: args1 }, TypeV::ADT { id: id2, args: args2 }) => {
            let m = if args1.len() <= args2.len() {
                args1.len() as int
            } else {
                args2.len() as int
            };
            lemma_seq_term_size_take(args1, m);
            lemma_seq_term_size_take(args2, m);
        },
        (TypeV::Func { args: args1, ret: ret1 }, TypeV::Func { args: args2, ret: ret2 }) => {
            lemma_seq_term_size_push(args1, *ret1);
            lemma_seq_term_size_push(args2, *ret2);
        },
        _ => {},
    }
}

#[via_fn]
proof fn unify_seq_decreases(s: Map<u32, TypeV>, aa: Seq<TypeV>, bb: Seq<TypeV>, vv: Set<u32>) {
    if aa.len() != 0 && bb.len() != 0 {
        let a1 = apply1(s, aa[0]);
        let b1 = apply1(s, bb[0]);
        lemma_unify_call_smaller(s, aa, bb, vv);
        lemma_term_size_pos(aa[0]);
        lemma_term_size_pos(bb[0]);
    }
}

/// In the pairwise loop, the measure of the head unification call is below
/// the loop's measure: with no bindings yet the head terms are the
/// originals and strictly smaller; once a binding exists, resolution
/// eliminates it from the head terms, so they have strictly fewer
/// variables than the bound `vv`.
proof fn lemma_unify_call_smaller(s: Map<u32, TypeV>, aa: Seq<TypeV>, bb: Seq<TypeV>, vv: Set<u32>)
    requires
        unify_seq_pre(s, aa, bb, vv),
        aa.len() != 0,
        bb.len() != 0,
    ensures
        both_vars(apply1(s, aa[0]), apply1(s, bb[0])).len() <= vv.len(),
        both_vars(apply1(s, aa[0]), apply1(s, bb[0])).len() == vv.len() ==> term_size(
            apply1(s, aa[0]),
        ) + term_size(apply1(s, bb[0])) < seq_term_size(aa) + seq_term_size(bb) + 1,
        forall|x: u32| #[trigger]
            both_vars(apply1(s, aa[0]), apply1(s, bb[0])).contains(x) ==> vv.contains(x),
{
    let a1 = apply1(s, aa[0]);
    let b1 = apply1(s, bb[0]);
    let w = both_vars(a1, b1);
    lemma_apply_rec_vars(s, aa[0], Set::empty());
    lemma_apply_rec_vars(s, bb[0], Set::empty());
    assert forall|x: u32| #[trigger] w.contains(x) implies vv.contains(x) by {
        if free_vars(a1).contains(x) {
            if free_vars(aa[0]).contains(x) {
                lemma_seq_free_vars_contains(aa, x);
                assert(seq_free_vars(aa).contains(x));
            }
        } else {
            assert(free_vars(b1).contains(x));
            if free_vars(bb[0]).contains(x) {
                lemma_seq_free_vars_contains(bb, x);
                assert(seq_free_vars(bb).contains(x));
            }
        }
    }
    vstd::set_lib::lemma_len_subset(w, vv);
    if s.dom() =~= Set::<u32>::empty() {
        lemma_apply_rec_id(s, aa[0], Set::empty());
        lemma_apply_rec_id(s, bb[0], Set::empty());
        lemma_term_size_pos(aa[0]);
        lemma_term_size_pos(bb[0]);
        assert(seq_term_size(aa) >= term_size(aa[0]));
        assert(seq_term_size(bb) >= term_size(bb[0]));
    } else {
        let k = s.dom().choose();
        assert(s.dom().contains(k));
        assert(!w.contains(k));
        w.lemma_subset_not_in_lt(vv, k);
    }
}

/// Restricting to a variable set that already covers a substitution's keys
/// and bound terms keeps every binding.
pub proof fn lemma_bounded_noop(d: Map<u32, TypeV>, vv: Set<u32>)
    requires
        forall|x: u32| #[trigger] d.dom().contains(x) ==> vv.contains(x),
        forall|x: u32| #[trigger] rng_vars(d).contains(x) ==> vv.contains(x),
    ensures
        bounded_sub(d, vv) == d,
{
    assert forall|k: u32| #[trigger] d.dom().contains(k) implies bounded_sub(d, vv).dom().contains(
        k,
    ) by {
        assert forall|x: u32| #[trigger] free_vars(d[k]).contains(x) implies vv.contains(x) by {
            assert(rng_vars(d).contains(x));
        }
    }
    assert(bounded_sub(d, vv) =~= d);
}

/// After a successful head unification, the threading step keeps the side
/// conditions of pairwise unification.
pub proof fn lemma_unify_seq_pre_step(
    s: Map<u32, TypeV>,
    d: Map<u32, TypeV>,
    aa: Seq<TypeV>,
    bb: Seq<TypeV>,
    vv: Set<u32>,
    w: Set<u32>,
)
    requires
        unify_seq_pre(s, aa, bb, vv),
        aa.len() != 0,
        bb.len() != 0,
        d.dom().finite(),
        forall|x: u32| #[trigger] d.dom().contains(x) ==> w.contains(x),
        forall|x: u32| #[trigger] rng_vars(d).contains(x) ==> w.contains(x),
        forall|x: u32| #[trigger] w.contains(x) ==> vv.contains(x),
    ensures
        unify_seq_pre(s.union_prefer_right(d), aa.drop_first(), bb.drop_first(), vv),
{
    let s2 = s.union_prefer_right(d);
    assert(s2.dom() =~= s.dom().union(d.dom()));
    assert forall|x: u32| #[trigger] rng_vars(s2).contains(x) implies vv.contains(x) by {
        let k = choose|k: u32| s2.dom().contains(k) && free_vars(s2[k]).contains(x);
        if d.dom().contains(k) {
            assert(s2[k] == d[k]);
            assert(rng_vars(d).contains(x));
        } else {
            assert(s2[k] == s[k]);
            assert(rng_vars(s).contains(x));
        }
    }
    assert forall|x: u32| #[trigger]
        seq_free_vars(aa.drop_first()).contains(x) implies vv.contains(x) by {
        lemma_seq_free_vars_contains(aa.drop_first(), x);
        let i = choose|i: int|
            0 <= i < aa.drop_first().len() && free_vars(aa.drop_first()[i]).contains(x);
        lemma_seq_free_vars_contains(aa, x);
        assert(free_vars(aa[i + 1]).contains(x));
    }
    assert forall|x: u32| #[trigger]
        seq_free_vars(bb.drop_first()).contains(x) implies vv.contains(x) by {
        lemma_seq_free_vars_contains(bb.drop_first(), x);
        let i = choose|i: int|
            0 <= i < bb.drop_first().len() && free_vars(bb.drop_first()[i]).contains(x);
        lemma_seq_free_vars_contains(bb, x);
        assert(free_vars(bb[i + 1]).contains(x));
    }
}

/// A substitution that unification returns binds only variables of the two
/// unified terms, to terms whose variables are also theirs.
pub proof fn lemma_unify_spec_vars(a: TypeV, b: TypeV)
    ensures
        match unify_spec(a, b) {
            UnifyOutcome::Bound { sub } => {
                &&& sub.dom().finite()
                &&& forall|x: u32| #[trigger] sub.dom().contains(x) ==> both_vars(a, b).contains(x)
                &&& forall|x: u32| #[trigger] rng_vars(sub).contains(x) ==> both_vars(a, b).contains(
                    x,
                )
            },
            UnifyOutcome::Clash { .. } => true,
        },
    decreases both_vars(a, b).len(), term_size(a) + term_size(b),
{
    lemma_free_vars_finite(a);
    lemma_free_vars_finite(b);
    match (a, b) {
        (TypeV::TVar { id: id1 }, TypeV::TVar { id: id2 }) => {
            lemma_single_binding(id1, b, a, b);
            lemma_rng_vars_empty();
        },
        (TypeV::TVar { id }, _) => {
            if !free_vars(b).contains(id) {
                lemma_single_binding(id, b, a, b);
            }
        },
        (_, TypeV::TVar { id }) => {
            if !free_vars(a).contains(id) {
                lemma_single_binding(id, a, a, b);
            }
        },
        (TypeV::Prim { .. }, TypeV::Prim { .. }) => {
            lemma_rng_vars_empty();
        },
        (TypeV::ADT { id: id1, args: args1 }, TypeV::ADT { id: id2, args: args2 }) => {
            if id1 == id2 {
                let m = if args1.len() <= args2.len() {
                    args1.len() as int
                } else {
                    args2.len() as int
                };
                lemma_rng_vars_empty();
                lemma_seq_free_vars_take(args1, m);
                lemma_seq_free_vars_take(args2, m);
                lemma_seq_term_size_take(args1, m);
                lemma_seq_term_size_take(args2, m);
                lemma_unify_seq_vars(
                    Map::empty(),
                    args1.take(m),
                    args2.take(m),
                    both_vars(a, b),
                );
            }
        },
        (TypeV::Func { args: args1, ret: ret1 }, TypeV::Func { args: args2, ret: ret2 }) => {
            if args1.len() == args2.len() {
                lemma_rng_vars_empty();
                lemma_seq_free_vars_push(args1, *ret1);
                lemma_seq_free_vars_push(args2, *ret2);
                lemma_seq_term_size_push(args1, *ret1);
                lemma_seq_term_size_push(args2, *ret2);
                lemma_unify_seq_vars(
                    Map::empty(),
                    args1.push(*ret1),
                    args2.push(*ret2),
                    both_vars(a, b),
                );
            }
        },
        (TypeV::Unit, TypeV::Unit) => {
            lemma_rng_vars_empty();
        },
        _ => {},
    }
}

/// The range variables of the empty substitution are none.
proof fn lemma_rng_vars_empty()
    ensures
        forall|x: u32| !(#[trigger] rng_vars(Map::<u32, TypeV>::empty()).contains(x)),
{
    assert forall|x: u32| !(#[trigger] rng_vars(Map::<u32, TypeV>::empty()).contains(x)) by {
        if rng_vars(Map::<u32, TypeV>::empty()).contains(x) {
            let k = choose|k: u32|
                Map::<u32, TypeV>::empty().dom().contains(k) && free_vars(
                    Map::<u32, TypeV>::empty()[k],
                ).contains(x);
            assert(false);
        }
    }
}

/// The bounds of a one-binding substitution.
proof fn lemma_single_binding(id: u32, t: TypeV, a: TypeV, b: TypeV)
    requires
        both_vars(a, b).contains(id),
        forall|x: u32| #[trigger] free_vars(t).contains(x) ==> both_vars(a, b).contains(x),
    ensures
        Map::<u32, TypeV>::empty().insert(id, t).dom().finite(),
        forall|x: u32| #[trigger]
            Map::<u32, TypeV>::empty().insert(id, t).dom().contains(x) ==> both_vars(
                a,
                b,
            ).contains(x),
        forall|x: u32| #[trigger]
            rng_vars(Map::<u32, TypeV>::empty().insert(id, t)).contains(x) ==> both_vars(
                a,
                b,
            ).contains(x),
{
    let m = Map::<u32, TypeV>::empty().insert(id, t);
    assert(m.dom() =~= Set::empty().insert(id));
    assert forall|x: u32| #[trigger] rng_vars(m).contains(x) implies both_vars(a, b).contains(
        x,
    ) by {
        let k = choose|k: u32| m.dom().contains(k) && free_vars(m[k]).contains(x);
        assert(k == id);
        assert(free_vars(t).contains(x));
    }
}

/// The sequence form of `lemma_unify_spec_vars`: the accumulated
/// substitution stays within the variable bound.
pub proof fn lemma_unify_seq_vars(s: Map<u32, TypeV>, aa: Seq<TypeV>, bb: Seq<TypeV>, vv: Set<u32>)
    requires
        unify_seq_pre(s, aa, bb, vv),
    ensures
        match unify_seq(s, aa, bb, vv) {
            UnifyOutcome::Bound { sub } => {
                &&& sub.dom().finite()
                &&& forall|x: u32| #[trigger] sub.dom().contains(x) ==> vv.contains(x)
                &&& forall|x: u32| #[trigger] rng_vars(sub).contains(x) ==> vv.contains(x)
            },
            UnifyOutcome::Clash { .. } => true,
        },
    decreases vv.len(), seq_term_size(aa) + seq_term_size(bb) + 1,
{
    if aa.len() == 0 || bb.len() == 0 {
    } else {
        let a1 = apply1(s, aa[0]);
        let b1 = apply1(s, bb[0]);
        lemma_unify_call_smaller(s, aa, bb, vv);
        lemma_term_size_pos(aa[0]);
        lemma_term_size_pos(bb[0]);
        lemma_unify_spec_vars(a1, b1);
        match unify_spec(a1, b1) {
            UnifyOutcome::Clash { .. } => {},
            UnifyOutcome::Bound { sub: d } => {
                lemma_unify_seq_pre_step(s, d, aa, bb, vv, both_vars(a1, b1));
                lemma_bounded_noop(d, vv);
                lemma_unify_seq_vars(
                    s.union_prefer_right(d),
                    aa.drop_first(),
                    bb.drop_first(),
                    vv,
                );
                assert(s.union_prefer_right(bounded_sub(d, vv)) == s.union_prefer_right(d));
            },
        }
    }
}

/// The message of a unification failure: both sides' debug renderings.
pub open spec fn clash_msg(x: TypeV, y: TypeV) -> Seq<char> {
    "Unification failed between "@ + debug_str(x) + " and "@ + debug_str(y)
}

/// Builds the unification-failure diagnostic for a pair of terms.
fn mk_clash(l: &Type, r: &Type, info: &NodeInfo) -> (res: SpruceErr)
    ensures
        res.message@ == clash_msg(l@, r@),
        res.info@ == info@,
{
    let mut msg = String::from_str("Unification failed between ");
    let l_str = l.as_str_debug();
    msg.append(l_str.as_str());
    msg.append(" and ");
    let r_str = r.as_str_debug();
    msg.append(r_str.as_str());
    SpruceErr { message: msg, info: info.clone() }
}

/// Computes a substitution that makes the two terms structurally equal, or
/// fails with a diagnostic naming both sides and the source position.
pub fn unify(left: &Type, right: &Type, info: &NodeInfo) -> (res: Result<Subst, SpruceErr>)
    ensures
        match res {
            Ok(s) => unify_spec(left@, right@) == (UnifyOutcome::Bound { sub: s@ }),
            Err(e) => match unify_spec(left@, right@) {
                UnifyOutcome::Clash { left: cl, right: cr } => e.message@ == clash_msg(cl, cr)
                    && e.info@ == info@,
                UnifyOutcome::Bound { .. } => false,
            },
        },
    decreases both_vars(left@, right@).len(), term_size(left@) + term_size(right@),
{
    broadcast use lemma_seq_term_view;

    proof {
        lemma_free_vars_finite(left@);
        lemma_free_vars_finite(right@);
    }
    match (left, right) {
        (Type::TVar(id1), Type::TVar(id2)) => {
            if id1 == id2 {
                proof {
                    assert(unify_spec(left@, right@) == (UnifyOutcome::Bound {
                        sub: Map::<u32, TypeV>::empty(),
                    }));
                }
                Ok(Subst::new())
            } else {
                let mut s = Subst::new();
                s.insert(*id1, right.clone());
                proof {
                    assert(unify_spec(left@, right@) == (UnifyOutcome::Bound { sub: s@ }));
                }
                Ok(s)
            }
        },
        (Type::TVar(id), _) => {
            let occ = tvars(right);
            if contains_id(&occ, *id) {
                proof {
                    assert(unify_spec(left@, right@) is Clash);
                }
                Err(mk_clash(left, right, info))
            } else {
                let mut s = Subst::new();
                s.insert(*id, right.clone());
                proof {
                    assert(unify_spec(left@, right@) == (UnifyOutcome::Bound { sub: s@ }));
                }
                Ok(s)
            }
        },
        (_, Type::TVar(id)) => {
            let occ = tvars(left);
            if contains_id(&occ, *id) {
                proof {
                    assert(unify_spec(left@, right@) is Clash);
                }
                Err(mk_clash(left, right, info))
            } else {
                let mut s = Subst::new();
                s.insert(*id, left.clone());
                proof {
                    assert(unify_spec(left@, right@) == (UnifyOutcome::Bound { sub: s@ }));
                }
                Ok(s)
            }
        },
        (Type::Prim(p1), Type::Prim(p2)) => {
            if *p1 == *p2 {
                proof {
                    assert(unify_spec(left@, right@) == (UnifyOutcome::Bound {
                        sub: Map::<u32, TypeV>::empty(),
                    }));
                }
                Ok(Subst::new())
            } else {
                proof {
                    assert(unify_spec(left@, right@) is Clash);
                }
                Err(mk_clash(left, right, info))
            }
        },
        (Type::ADT(id1, args1), Type::ADT(id2, args2)) => {
            if id1 == id2 {
                let m = if args1.len() <= args2.len() {
                    args1.len()
                } else {
                    args2.len()
                };
                let ghost vv = both_vars(left@, right@);
                proof {
                    lemma_rng_vars_empty();
                    lemma_seq_free_vars_take(seq_term_view(args1@), m as int);
                    lemma_seq_free_vars_take(seq_term_view(args2@), m as int);
                    lemma_seq_term_size_take(seq_term_view(args1@), m as int);
                    lemma_seq_term_size_take(seq_term_view(args2@), m as int);
                    assert(seq_term_view(args1@).subrange(0, m as int) =~= seq_term_view(
                        args1@,
                    ).take(m as int));
                    assert(seq_term_view(args2@).subrange(0, m as int) =~= seq_term_view(
                        args2@,
                    ).take(m as int));
                }
                let res = unify_pairs(Subst::new(), args1, args2, 0, m, info, Ghost(vv));
                proof {
                    assert(unify_spec(left@, right@) == unify_seq(
                        Map::<u32, TypeV>::empty(),
                        seq_term_view(args1@).take(m as int),
                        seq_term_view(args2@).take(m as int),
                        vv,
                    ));
                }
                res
            } else {
                Err(mk_clash(left, right, info))
            }
        },
        (Type::Func(args1, out1), Type::Func(args2, out2)) => {
            if args1.len() != args2.len() {
                Err(mk_clash(left, right, info))
            } else {
                let mut ext1 = clone_term_list(args1);
                ext1.push((**out1).clone());
                let mut ext2 = clone_term_list(args2);
                ext2.push((**out2).clone());
                let ghost vv = both_vars(left@, right@);
                proof {
                    lemma_rng_vars_empty();
                    assert(seq_term_view(ext1@) =~= seq_term_view(args1@).push(term_view(**out1)));
                    assert(seq_term_view(ext2@) =~= seq_term_view(args2@).push(term_view(**out2)));
                    lemma_seq_free_vars_push(seq_term_view(args1@), term_view(**out1));
                    lemma_seq_free_vars_push(seq_term_view(args2@), term_view(**out2));
                    lemma_seq_term_size_push(seq_term_view(args1@), term_view(**out1));
                    lemma_seq_term_size_push(seq_term_view(args2@), term_view(**out2));
                    assert(seq_term_view(ext1@).subrange(0, ext1@.len() as int) =~= seq_term_view(
                        ext1@,
                    ));
                    assert(seq_term_view(ext2@).subrange(0, ext2@.len() as int) =~= seq_term_view(
                        ext2@,
                    ));
                }
                let n = ext1.len();
                let res = unify_pairs(Subst::new(), &ext1, &ext2, 0, n, info, Ghost(vv));
                proof {
                    assert(unify_spec(left@, right@) == unify_seq(
                        Map::<u32, TypeV>::empty(),
                        seq_term_view(args1@).push(term_view(**out1)),
                        seq_term_view(args2@).push(term_view(**out2)),
                        vv,
                    ));
                }
                res
            }
        },
        (Type::Unit, Type::Unit) => {
            proof {
                assert(unify_spec(left@, right@) == (UnifyOutcome::Bound {
                    sub: Map::<u32, TypeV>::empty(),
                }));
            }
            Ok(Subst::new())
        },
        _ => {
            proof {
                assert(unify_spec(left@, right@) is Clash);
            }
            Err(mk_clash(left, right, info))
        },
    }
}

/// Unifies the pairs `aa[i] / bb[i]` for `i` up to `end`, threading the
/// accumulated substitution through each pair as `unify_seq` describes.
fn unify_pairs(
    subs: Subst,
    aa: &Vec<Type>,
    bb: &Vec<Type>,
    i: usize,
    end: usize,
    info: &NodeInfo,
    vv: Ghost<Set<u32>>,
) -> (res: Result<Subst, SpruceErr>)
    requires
        i <= end,
        end <= aa@.len(),
        end <= bb@.len(),
        unify_seq_pre(
            subs@,
            seq_term_view(aa@).subrange(i as int, end as int),
            seq_term_view(bb@).subrange(i as int, end as int),
            vv@,
        ),
    ensures
        ({
            let outcome = unify_seq(
                subs@,
                seq_term_view(aa@).subrange(i as int, end as int),
                seq_term_view(bb@).subrange(i as int, end as int),
                vv@,
            );
            match res {
                Ok(s2) => outcome == (UnifyOutcome::Bound { sub: s2@ }),
                Err(e) => match outcome {
                    UnifyOutcome::Clash { left: cl, right: cr } => e.message@ == clash_msg(cl, cr)
                        && e.info@ == info@,
                    UnifyOutcome::Bound { .. } => false,
                },
            }
        }),
    decreases vv@.len(),
        seq_term_size(seq_term_view(aa@).subrange(i as int, end as int)) + seq_term_size(
            seq_term_view(bb@).subrange(i as int, end as int),
        ) + 1,
{
    broadcast use lemma_seq_term_view;

    let ghost aview = seq_term_view(aa@).subrange(i as int, end as int);
    let ghost bview = seq_term_view(bb@).subrange(i as int, end as int);
    if i == end {
        proof {
            assert(aview.len() == 0);
        }
        Ok(subs)
    } else {
        let a1 = apply(&subs, aa[i].clone());
        let b1 = apply(&subs, bb[i].clone());
        proof {
            assert(aview[0] == term_view(aa@[i as int]));
            assert(bview[0] == term_view(bb@[i as int]));
            lemma_unify_call_smaller(subs@, aview, bview, vv@);
        }
        match unify(&a1, &b1, info) {
            Err(e) => Err(e),
            Ok(d) => {
                proof {
                    lemma_unify_spec_vars(a1@, b1@);
                    d.lemma_dom_finite();
                    lemma_unify_seq_pre_step(
                        subs@,
                        d@,
                        aview,
                        bview,
                        vv@,
                        both_vars(a1@, b1@),
                    );
                    lemma_bounded_noop(d@, vv@);
                    lemma_term_size_pos(aview[0]);
                    lemma_term_size_pos(bview[0]);
                    assert(aview.drop_first() =~= seq_term_view(aa@).subrange(
                        i + 1,
                        end as int,
                    ));
                    assert(bview.drop_first() =~= seq_term_view(bb@).subrange(
                        i + 1,
                        end as int,
                    ));
                }
                let mut s2 = subs;
                s2.extend(d);
                unify_pairs(s2, aa, bb, i + 1, end, info, vv)
            },
        }
    }
}

} // verus!
