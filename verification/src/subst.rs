//! The substitution algebra: a finite map from type-variable (or symbol) id
//! to type term, and the `apply` operation that resolves a term through a
//! substitution, following chains of variable bindings.

use vstd::prelude::*;

use crate::term::{
    free_vars, lemma_seq_term_view, seq_free_vars, seq_term_view, term_view, tvars, Type, TypeV,
};

verus! {

broadcast use vstd::seq_lib::group_seq_properties;

/// A set of substitutions generated by unification and typechecking: a
/// finite map from type-variable id to type term. The environment uses the
/// same structure for its symbol-type tables, keyed by symbol id.
#[derive(Debug)]
pub struct Subst {
    pairs: Vec<(u32, Type)>,
}

/// The map a list of bindings stands for; a later binding for a key
/// overrides an earlier one.
pub open spec fn pairs_map(ps: Seq<(u32, Type)>) -> Map<u32, TypeV>
    decreases ps,
{
    if ps.len() == 0 {
        Map::empty()
    } else {
        pairs_map(ps.drop_last()).insert(ps.last().0, term_view(ps.last().1))
    }
}

/// The domain of the map of a list of bindings is finite.
pub broadcast proof fn lemma_pairs_map_finite(ps: Seq<(u32, Type)>)
    ensures
        (#[trigger] pairs_map(ps)).dom().finite(),
    decreases ps,
{
    if ps.len() != 0 {
        lemma_pairs_map_finite(ps.drop_last());
    }
}

impl View for Subst {
    type V = Map<u32, TypeV>;

    closed spec fn view(&self) -> Map<u32, TypeV> {
        pairs_map(self.pairs@)
    }
}

impl Subst {
    /// The empty substitution.
    pub fn new() -> (res: Subst)
        ensures
            res@ == Map::<u32, TypeV>::empty(),
    {
        Subst { pairs: Vec::new() }
    }

    /// The substitution's domain is finite.
    pub broadcast proof fn lemma_dom_finite(&self)
        ensures
            (#[trigger] self@).dom().finite(),
    {
        lemma_pairs_map_finite(self.pairs@);
    }

    /// Looks up the binding of an id, if any.
    pub fn get(&self, id: u32) -> (res: Option<&Type>)
        ensures
            match res {
                Some(t) => self@.dom().contains(id) && t@ == self@[id],
                None => !self@.dom().contains(id),
            },
    {
        let mut i: usize = self.pairs.len();
        while i > 0
            invariant
                i <= self.pairs@.len(),
                pairs_map(self.pairs@).dom().contains(id) == pairs_map(
                    self.pairs@.take(i as int),
                ).dom().contains(id),
                pairs_map(self.pairs@).dom().contains(id) ==> pairs_map(self.pairs@)[id]
                    == pairs_map(self.pairs@.take(i as int))[id],
            decreases i,
        {
            i = i - 1;
            proof {
                assert(self.pairs@.take(i + 1).drop_last() =~= self.pairs@.take(i as int));
            }
            if self.pairs[i].0 == id {
                return Some(&self.pairs[i].1);
            }
        }
        proof {
            assert(self.pairs@.take(0) =~= Seq::<(u32, Type)>::empty());
        }
        None
    }

    /// Binds an id to a term, replacing any earlier binding.
    pub fn insert(&mut self, id: u32, ty: Type)
        ensures
            final(self)@ == old(self)@.insert(id, ty@),
    {
        let ghost before = self.pairs@;
        self.pairs.push((id, ty));
        proof {
            assert(self.pairs@.drop_last() =~= before);
        }
    }

    /// Takes every binding of `other` into `self`; `other`'s bindings win
    /// on shared keys.
    pub fn extend(&mut self, other: Subst)
        ensures
            final(self)@ == old(self)@.union_prefer_right(other@),
    {
        let mut j: usize = 0;
        while j < other.pairs.len()
            invariant
                j <= other.pairs@.len(),
                self@ == old(self)@.union_prefer_right(pairs_map(other.pairs@.take(j as int))),
            decreases other.pairs@.len() - j,
        {
            let ghost done = other.pairs@.take(j as int);
            let id = other.pairs[j].0;
            let ty = other.pairs[j].1.clone();
            self.insert(id, ty);
            proof {
                assert(other.pairs@.take(j + 1).drop_last() =~= done);
                assert(old(self)@.union_prefer_right(pairs_map(done)).insert(
                    id,
                    term_view(other.pairs@[j as int].1),
                ) =~= old(self)@.union_prefer_right(pairs_map(other.pairs@.take(j + 1))));
            }
            j = j + 1;
        }
        proof {
            assert(other.pairs@.take(other.pairs@.len() as int) =~= other.pairs@);
        }
    }

    /// Moves every binding of `self` into `dst`, leaving `self` empty;
    /// `self`'s bindings win on shared keys.
    pub fn drain_into(&mut self, dst: &mut Subst)
        ensures
            final(dst)@ == old(dst)@.union_prefer_right(old(self)@),
            final(self)@ == Map::<u32, TypeV>::empty(),
    {
        let mut j: usize = 0;
        while j < self.pairs.len()
            invariant
                j <= self.pairs@.len(),
                self.pairs@ == old(self).pairs@,
                dst@ == old(dst)@.union_prefer_right(pairs_map(self.pairs@.take(j as int))),
            decreases self.pairs@.len() - j,
        {
            let ghost done = self.pairs@.take(j as int);
            let id = self.pairs[j].0;
            let ty = self.pairs[j].1.clone();
            dst.insert(id, ty);
            proof {
                assert(self.pairs@.take(j + 1).drop_last() =~= done);
                assert(old(dst)@.union_prefer_right(pairs_map(done)).insert(
                    id,
                    term_view(self.pairs@[j as int].1),
                ) =~= old(dst)@.union_prefer_right(pairs_map(self.pairs@.take(j + 1))));
            }
            j = j + 1;
        }
        proof {
            assert(self.pairs@.take(self.pairs@.len() as int) =~= self.pairs@);
        }
        self.pairs.clear();
    }


    /// The bindings in storage order, as id/model pairs.
    pub closed spec fn entries(&self) -> Seq<(u32, TypeV)> {
        Seq::new(self.pairs@.len(), |i: int| (self.pairs@[i].0, term_view(self.pairs@[i].1)))
    }

    /// The number of stored bindings.
    pub fn entries_len(&self) -> (res: usize)
        ensures
            res == self.entries().len(),
    {
        self.pairs.len()
    }

    /// The id of the stored binding at an index.
    pub fn entry_key(&self, i: usize) -> (res: u32)
        requires
            i < self.entries().len(),
        ensures
            res == self.entries()[i as int].0,
    {
        self.pairs[i].0
    }

    /// The term of the stored binding at an index.
    pub fn entry_type(&self, i: usize) -> (res: &Type)
        requires
            i < self.entries().len(),
        ensures
            res@ == self.entries()[i as int].1,
    {
        &self.pairs[i].1
    }

    /// The stored bindings fold to the map the substitution stands for.
    pub proof fn lemma_entries_map(&self)
        ensures
            entry_map(self.entries()) == self@,
    {
        lemma_entry_map_pairs(self.pairs@);
    }

    /// Rewrites every bound term through the given substitution.
    pub fn apply_to_values(&mut self, subs: &Subst)
        ensures
            final(self)@ == subst_applied(old(self)@, subs@),
    {
        let mut out: Vec<(u32, Type)> = Vec::new();
        let mut j: usize = 0;
        while j < self.pairs.len()
            invariant
                j <= self.pairs@.len(),
                pairs_map(out@) == subst_applied(pairs_map(self.pairs@.take(j as int)), subs@),
            decreases self.pairs@.len() - j,
        {
            let ghost done = self.pairs@.take(j as int);
            let ghost out_before = out@;
            let id = self.pairs[j].0;
            let ty = self.pairs[j].1.clone();
            let new_ty = apply(subs, ty);
            out.push((id, new_ty));
            proof {
                assert(out@.drop_last() =~= out_before);
                assert(self.pairs@.take(j + 1).drop_last() =~= done);
                assert(subst_applied(pairs_map(done), subs@).insert(
                    id,
                    apply1(subs@, term_view(self.pairs@[j as int].1)),
                ) =~= subst_applied(pairs_map(self.pairs@.take(j + 1)), subs@));
            }
            j = j + 1;
        }
        proof {
            assert(self.pairs@.take(self.pairs@.len() as int) =~= self.pairs@);
        }
        self.pairs = out;
    }
}


/// The map a sequence of id/model pairs stands for; a later binding for a
/// key overrides an earlier one.
pub open spec fn entry_map(es: Seq<(u32, TypeV)>) -> Map<u32, TypeV>
    decreases es,
{
    if es.len() == 0 {
        Map::empty()
    } else {
        entry_map(es.drop_last()).insert(es.last().0, es.last().1)
    }
}

proof fn lemma_entry_map_pairs(ps: Seq<(u32, Type)>)
    ensures
        entry_map(Seq::new(ps.len(), |i: int| (ps[i].0, term_view(ps[i].1)))) == pairs_map(ps),
    decreases ps,
{
    let es = Seq::new(ps.len(), |i: int| (ps[i].0, term_view(ps[i].1)));
    if ps.len() != 0 {
        lemma_entry_map_pairs(ps.drop_last());
        assert(es.drop_last() =~= Seq::new(
            ps.drop_last().len(),
            |i: int| (ps.drop_last()[i].0, term_view(ps.drop_last()[i].1)),
        ));
    }
}

/// The map with every bound term rewritten through the substitution `s`.
pub open spec fn subst_applied(m: Map<u32, TypeV>, s: Map<u32, TypeV>) -> Map<u32, TypeV> {
    Map::new(|k: u32| m.dom().contains(k), |k: u32| apply1(s, m[k]))
}

/// Resolution of a term through a substitution. A variable bound in the
/// substitution is replaced by the term it is bound to, itself resolved
/// through the same substitution, so chains of bindings are followed.
/// `pending` holds the variables already being resolved on the current
/// chain; a binding cycle, which the substitutions this checker builds
/// never contain, resolves to the unit type to keep resolution total.
pub open spec fn apply_rec(s: Map<u32, TypeV>, t: TypeV, pending: Set<u32>) -> TypeV
    decreases s.dom().difference(pending).len(), t,
        when s.dom().finite()
        via apply_rec_decreases
{
    match t {
        TypeV::Unit => t,
        TypeV::Prim { .. } => t,
        TypeV::TVar { id } => {
            if s.dom().contains(id) {
                if pending.contains(id) {
                    TypeV::Unit
                } else {
                    apply_rec(s, s[id], pending.insert(id))
                }
            } else {
                t
            }
        },
        TypeV::ADT { id, args } => TypeV::ADT { id, args: apply_rec_seq(s, args, pending) },
        TypeV::Func { args, ret } => TypeV::Func {
            args: apply_rec_seq(s, args, pending),
            ret: Box::new(apply_rec(s, *ret, pending)),
        },
    }
}

#[via_fn]
proof fn apply_rec_decreases(s: Map<u32, TypeV>, t: TypeV, pending: Set<u32>) {
    match t {
        TypeV::TVar { id } => {
            if s.dom().contains(id) && !pending.contains(id) {
                s.dom().lemma_set_insert_diff_decreases(pending, id);
            }
        },
        _ => {},
    }
}

/// Resolution of a sequence of terms, elementwise.
pub open spec fn apply_rec_seq(s: Map<u32, TypeV>, ts: Seq<TypeV>, pending: Set<u32>) -> Seq<TypeV>
    decreases s.dom().difference(pending).len(), ts,
        when s.dom().finite()
{
    if ts.len() == 0 {
        Seq::empty()
    } else {
        seq![apply_rec(s, ts[0], pending)] + apply_rec_seq(s, ts.drop_first(), pending)
    }
}

/// Resolution of a term through a substitution, with no chain under way.
pub open spec fn apply1(s: Map<u32, TypeV>, t: TypeV) -> TypeV {
    apply_rec(s, t, Set::empty())
}

/// Elementwise reading of `apply_rec_seq`.
pub broadcast proof fn lemma_apply_rec_seq(s: Map<u32, TypeV>, ts: Seq<TypeV>, pending: Set<u32>)
    requires
        s.dom().finite(),
    ensures
        (#[trigger] apply_rec_seq(s, ts, pending)).len() == ts.len(),
        forall|i: int| 0 <= i < ts.len() ==> apply_rec_seq(s, ts, pending)[i] == apply_rec(
            s,
            ts[i],
            pending,
        ),
    decreases ts,
{
    if ts.len() != 0 {
        lemma_apply_rec_seq(s, ts.drop_first(), pending);
    }
}

/// Applies a set of substitutions to a type, resolving type variables
/// through chains of bindings to their most specific form.
pub fn apply(subs: &Subst, ty: Type) -> (res: Type)
    ensures
        res@ == apply1(subs@, ty@),
{
    let seen: Vec<u32> = Vec::new();
    proof {
        assert(seen@.to_set() =~= Set::<u32>::empty());
    }
    apply_go(subs, &ty, &seen)
}

/// Recursive worker for `apply`: `seen` holds the variables already being
/// resolved on the current chain.
fn apply_go(subs: &Subst, ty: &Type, seen: &Vec<u32>) -> (res: Type)
    ensures
        res@ == apply_rec(subs@, ty@, seen@.to_set()),
    decreases subs@.dom().difference(seen@.to_set()).len(), ty,
{
    proof {
        subs.lemma_dom_finite();
    }
    match ty {
        Type::Unit => Type::Unit,
        Type::Prim(name) => Type::Prim(name.clone()),
        Type::TVar(id) => {
            match subs.get(*id) {
                Some(bound) => {
                    if contains_id_ref(seen, *id) {
                        Type::Unit
                    } else {
                        let mut seen2: Vec<u32> = copy_ids(seen);
                        seen2.push(*id);
                        proof {
                            assert(seen2@.to_set() =~= seen@.to_set().insert(*id));
                            subs@.dom().lemma_set_insert_diff_decreases(
                                seen@.to_set(),
                                *id,
                            );
                        }
                        apply_go(subs, bound, &seen2)
                    }
                },
                None => Type::TVar(*id),
            }
        },
        Type::ADT(id, args) => {
            let new_args = apply_go_list(subs, args, seen);
            Type::ADT(*id, new_args)
        },
        Type::Func(args, out) => {
            let new_args = apply_go_list(subs, args, seen);
            let new_out = apply_go(subs, out, seen);
            Type::Func(new_args, Box::new(new_out))
        },
    }
}

/// Applies the substitution to every term of a list.
fn apply_go_list(subs: &Subst, ts: &Vec<Type>, seen: &Vec<u32>) -> (res: Vec<Type>)
    ensures
        seq_term_view(res@) == apply_rec_seq(subs@, seq_term_view(ts@), seen@.to_set()),
    decreases subs@.dom().difference(seen@.to_set()).len(), ts@,
{
    proof {
        subs.lemma_dom_finite();
    }
    let mut out: Vec<Type> = Vec::new();
    let mut i: usize = 0;
    while i < ts.len()
        invariant
            i <= ts@.len(),
            subs@.dom().finite(),
            seq_term_view(out@) == apply_rec_seq(
                subs@,
                seq_term_view(ts@).take(i as int),
                seen@.to_set(),
            ),
        decreases ts@.len() - i,
    {
        let ghost out_before = out@;
        let new_t = apply_go(subs, &ts[i], seen);
        out.push(new_t);
        proof {
            broadcast use lemma_seq_term_view, lemma_apply_rec_seq;

            lemma_apply_rec_seq_push(
                subs@,
                seq_term_view(ts@).take(i as int),
                term_view(ts@[i as int]),
                seen@.to_set(),
            );
            assert(seq_term_view(out@) =~= seq_term_view(out_before).push(new_t@));
            assert(seq_term_view(ts@).take(i + 1) =~= seq_term_view(ts@).take(i as int).push(
                term_view(ts@[i as int]),
            ));
        }
        i = i + 1;
    }
    proof {
        broadcast use lemma_seq_term_view;

        assert(seq_term_view(ts@).take(ts@.len() as int) =~= seq_term_view(ts@));
    }
    out
}

/// Resolution distributes over appending one term.
pub proof fn lemma_apply_rec_seq_push(
    s: Map<u32, TypeV>,
    ts: Seq<TypeV>,
    t: TypeV,
    pending: Set<u32>,
)
    requires
        s.dom().finite(),
    ensures
        apply_rec_seq(s, ts.push(t), pending) == apply_rec_seq(s, ts, pending).push(
            apply_rec(s, t, pending),
        ),
    decreases ts,
{
    if ts.len() == 0 {
        assert(ts.push(t).drop_first() =~= Seq::<TypeV>::empty());
        assert(apply_rec_seq(s, ts.push(t), pending) =~= apply_rec_seq(s, ts, pending).push(
            apply_rec(s, t, pending),
        ));
    } else {
        assert(ts.push(t).drop_first() =~= ts.drop_first().push(t));
        lemma_apply_rec_seq_push(s, ts.drop_first(), t, pending);
        assert(apply_rec_seq(s, ts.push(t), pending) =~= apply_rec_seq(s, ts, pending).push(
            apply_rec(s, t, pending),
        ));
    }
}

/// The variables appearing in the terms a substitution binds.
pub open spec fn rng_vars(s: Map<u32, TypeV>) -> Set<u32> {
    Set::new(|x: u32| exists|k: u32| s.dom().contains(k) && free_vars(s[k]).contains(x))
}

/// Resolution eliminates every bound variable: a variable free in the
/// result is not a key of the substitution, and was free in the input term
/// or in one of the bound terms.
pub proof fn lemma_apply_rec_vars(s: Map<u32, TypeV>, t: TypeV, pending: Set<u32>)
    requires
        s.dom().finite(),
    ensures
        forall|x: u32| #[trigger]
            free_vars(apply_rec(s, t, pending)).contains(x) ==> !s.dom().contains(x) && (free_vars(
                t,
            ).contains(x) || rng_vars(s).contains(x)),
    decreases s.dom().difference(pending).len(), t,
{
    match t {
        TypeV::Unit => {},
        TypeV::Prim { .. } => {},
        TypeV::TVar { id } => {
            if s.dom().contains(id) {
                if pending.contains(id) {
                } else {
                    s.dom().lemma_set_insert_diff_decreases(pending, id);
                    lemma_apply_rec_vars(s, s[id], pending.insert(id));
                    assert forall|x: u32| #[trigger]
                        free_vars(apply_rec(s, t, pending)).contains(x) implies !s.dom().contains(x)
                        && (free_vars(t).contains(x) || rng_vars(s).contains(x)) by {
                        if free_vars(s[id]).contains(x) {
                            assert(s.dom().contains(id) && free_vars(s[id]).contains(x));
                            assert(rng_vars(s).contains(x));
                        }
                    }
                }
            }
        },
        TypeV::ADT { id, args } => {
            lemma_apply_rec_seq_vars(s, args, pending);
            assert forall|x: u32| #[trigger]
                free_vars(apply_rec(s, t, pending)).contains(x) implies !s.dom().contains(x) && (
            free_vars(t).contains(x) || rng_vars(s).contains(x)) by {
                assert(seq_free_vars(apply_rec_seq(s, args, pending)).contains(x));
            }
        },
        TypeV::Func { args, ret } => {
            lemma_apply_rec_seq_vars(s, args, pending);
            lemma_apply_rec_vars(s, *ret, pending);
            assert forall|x: u32| #[trigger]
                free_vars(apply_rec(s, t, pending)).contains(x) implies !s.dom().contains(x) && (
            free_vars(t).contains(x) || rng_vars(s).contains(x)) by {
                if seq_free_vars(apply_rec_seq(s, args, pending)).contains(x) {
                } else {
                    assert(free_vars(apply_rec(s, *ret, pending)).contains(x));
                }
            }
        },
    }
}

/// The sequence form of `lemma_apply_rec_vars`.
pub proof fn lemma_apply_rec_seq_vars(s: Map<u32, TypeV>, ts: Seq<TypeV>, pending: Set<u32>)
    requires
        s.dom().finite(),
    ensures
        forall|x: u32| #[trigger]
            seq_free_vars(apply_rec_seq(s, ts, pending)).contains(x) ==> !s.dom().contains(x) && (
            seq_free_vars(ts).contains(x) || rng_vars(s).contains(x)),
    decreases s.dom().difference(pending).len(), ts,
{
    if ts.len() != 0 {
        lemma_apply_rec_vars(s, ts[0], pending);
        lemma_apply_rec_seq_vars(s, ts.drop_first(), pending);
        let head = apply_rec(s, ts[0], pending);
        let rest = apply_rec_seq(s, ts.drop_first(), pending);
        assert((seq![head] + rest).drop_first() =~= rest);
        assert((seq![head] + rest)[0int] == head);
        assert forall|x: u32| #[trigger]
            seq_free_vars(apply_rec_seq(s, ts, pending)).contains(x) implies !s.dom().contains(x)
            && (seq_free_vars(ts).contains(x) || rng_vars(s).contains(x)) by {
            if free_vars(head).contains(x) {
                assert(free_vars(apply_rec(s, ts[0], pending)).contains(x));
            } else {
                assert(seq_free_vars(rest).contains(x));
            }
        }
    }
}

/// Resolution through a substitution that binds no free variable of the
/// term leaves the term unchanged.
pub proof fn lemma_apply_rec_id(s: Map<u32, TypeV>, t: TypeV, pending: Set<u32>)
    requires
        s.dom().finite(),
        forall|x: u32| #[trigger] free_vars(t).contains(x) ==> !s.dom().contains(x),
    ensures
        apply_rec(s, t, pending) == t,
    decreases s.dom().difference(pending).len(), t,
{
    match t {
        TypeV::Unit => {},
        TypeV::Prim { .. } => {},
        TypeV::TVar { id } => {
            assert(free_vars(t).contains(id));
        },
        TypeV::ADT { id, args } => {
            assert forall|x: u32| #[trigger]
                seq_free_vars(args).contains(x) implies !s.dom().contains(x) by {
                assert(free_vars(t).contains(x));
            }
            lemma_apply_rec_seq_id(s, args, pending);
        },
        TypeV::Func { args, ret } => {
            assert forall|x: u32| #[trigger]
                seq_free_vars(args).contains(x) implies !s.dom().contains(x) by {
                assert(free_vars(t).contains(x));
            }
            lemma_apply_rec_seq_id(s, args, pending);
            assert forall|x: u32| #[trigger] free_vars(*ret).contains(x) implies !s.dom().contains(
                x,
            ) by {
                assert(free_vars(t).contains(x));
            }
            lemma_apply_rec_id(s, *ret, pending);
        },
    }
}

/// The sequence form of `lemma_apply_rec_id`.
pub proof fn lemma_apply_rec_seq_id(s: Map<u32, TypeV>, ts: Seq<TypeV>, pending: Set<u32>)
    requires
        s.dom().finite(),
        forall|x: u32| #[trigger] seq_free_vars(ts).contains(x) ==> !s.dom().contains(x),
    ensures
        apply_rec_seq(s, ts, pending) == ts,
    decreases s.dom().difference(pending).len(), ts,
{
    if ts.len() == 0 {
        assert(apply_rec_seq(s, ts, pending) =~= ts);
    } else {
        assert forall|x: u32| #[trigger] free_vars(ts[0]).contains(x) implies !s.dom().contains(
            x,
        ) by {
            assert(seq_free_vars(ts).contains(x));
        }
        assert forall|x: u32| #[trigger]
            seq_free_vars(ts.drop_first()).contains(x) implies !s.dom().contains(x) by {
            assert(seq_free_vars(ts).contains(x));
        }
        lemma_apply_rec_id(s, ts[0], pending);
        lemma_apply_rec_seq_id(s, ts.drop_first(), pending);
        assert(apply_rec_seq(s, ts, pending) =~= ts);
    }
}

/// Resolution is idempotent: no variable bound by the substitution appears
/// in a resolved term, so resolving the same term a second time through the
/// same substitution changes nothing.
pub proof fn lemma_apply_fixed_point(s: Map<u32, TypeV>, t: TypeV)
    requires
        s.dom().finite(),
    ensures
        apply1(s, apply1(s, t)) == apply1(s, t),
{
    lemma_apply_rec_vars(s, t, Set::empty());
    lemma_apply_rec_id(s, apply1(s, t), Set::empty());
}

/// Copy of a list of ids.
fn copy_ids(v: &Vec<u32>) -> (res: Vec<u32>)
    ensures
        res@ == v@,
{
    let mut out: Vec<u32> = Vec::new();
    let mut i: usize = 0;
    while i < v.len()
        invariant
            i <= v@.len(),
            out@ == v@.take(i as int),
        decreases v@.len() - i,
    {
        out.push(v[i]);
        proof {
            assert(v@.take(i + 1) =~= v@.take(i as int).push(v@[i as int]));
        }
        i = i + 1;
    }
    proof {
        assert(v@.take(v@.len() as int) =~= v@);
    }
    out
}

/// Does the list contain the id?
fn contains_id_ref(v: &Vec<u32>, x: u32) -> (b: bool)
    ensures
        b == v@.to_set().contains(x),
{
    let mut i: usize = 0;
    while i < v.len()
        invariant
            i <= v@.len(),
            forall|j: int| 0 <= j < i ==> v@[j] != x,
        decreases v@.len() - i,
    {
        if v[i] == x {
            return true;
        }
        i = i + 1;
    }
    false
}

} // verus!
