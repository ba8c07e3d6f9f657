//! The type term: the recursive value standing for a type, with its
//! mathematical model and the free-type-variable collector.

use vstd::prelude::*;

verus! {

broadcast use vstd::seq_lib::group_seq_properties;

/// Mathematical model of a type term.
#[verifier::ext_equal]
pub ghost enum TypeV {
    Unit,
    Prim { name: Seq<char> },
    TVar { id: u32 },
    ADT { id: u32, args: Seq<TypeV> },
    Func { args: Seq<TypeV>, ret: Box<TypeV> },
}

/// A type of a symbol, expression, etc.: the unit type, an opaque primitive,
/// an inference variable, an instance of an algebraic data type, or a
/// function type.
#[derive(Debug, PartialEq)]
pub enum Type {
    Unit,
    Prim(String),
    TVar(u32),
    ADT(u32, Vec<Type>),
    Func(Vec<Type>, Box<Type>),
}

/// Model of an executable term.
pub open spec fn term_view(t: Type) -> TypeV
    decreases t,
{
    match t {
        Type::Unit => TypeV::Unit,
        Type::Prim(name) => TypeV::Prim { name: name@ },
        Type::TVar(id) => TypeV::TVar { id },
        Type::ADT(id, args) => TypeV::ADT { id, args: seq_term_view(args@) },
        Type::Func(args, ret) => TypeV::Func {
            args: seq_term_view(args@),
            ret: Box::new(term_view(*ret)),
        },
    }
}

/// Models of a sequence of executable terms, elementwise.
pub open spec fn seq_term_view(ts: Seq<Type>) -> Seq<TypeV>
    decreases ts,
{
    if ts.len() == 0 {
        Seq::empty()
    } else {
        seq![term_view(ts[0])] + seq_term_view(ts.drop_first())
    }
}

/// The model of a sequence of terms is the elementwise model.
pub broadcast proof fn lemma_seq_term_view(ts: Seq<Type>)
    ensures
        (#[trigger] seq_term_view(ts)).len() == ts.len(),
        forall|i: int| 0 <= i < ts.len() ==> seq_term_view(ts)[i] == term_view(ts[i]),
    decreases ts,
{
    if ts.len() != 0 {
        lemma_seq_term_view(ts.drop_first());
    }
}

impl View for Type {
    type V = TypeV;

    open spec fn view(&self) -> TypeV {
        term_view(*self)
    }
}

/// Size of a term: one for each node. Used as a termination measure.
pub open spec fn term_size(t: TypeV) -> nat
    decreases t,
{
    match t {
        TypeV::Unit => 1,
        TypeV::Prim { .. } => 1,
        TypeV::TVar { .. } => 1,
        TypeV::ADT { args, .. } => 1 + seq_term_size(args),
        TypeV::Func { args, ret } => 1 + seq_term_size(args) + term_size(*ret),
    }
}

/// Total size of a sequence of terms.
pub open spec fn seq_term_size(ts: Seq<TypeV>) -> nat
    decreases ts,
{
    if ts.len() == 0 {
        0
    } else {
        term_size(ts[0]) + seq_term_size(ts.drop_first())
    }
}

/// The set of free type-variable ids of a term.
pub open spec fn free_vars(t: TypeV) -> Set<u32>
    decreases t,
{
    match t {
        TypeV::Unit => Set::empty(),
        TypeV::Prim { .. } => Set::empty(),
        TypeV::TVar { id } => Set::empty().insert(id),
        TypeV::ADT { args, .. } => seq_free_vars(args),
        TypeV::Func { args, ret } => seq_free_vars(args).union(free_vars(*ret)),
    }
}

/// The union of the free variables of a sequence of terms.
pub open spec fn seq_free_vars(ts: Seq<TypeV>) -> Set<u32>
    decreases ts,
{
    if ts.len() == 0 {
        Set::empty()
    } else {
        free_vars(ts[0]).union(seq_free_vars(ts.drop_first()))
    }
}

/// Every term has finitely many free variables.
pub proof fn lemma_free_vars_finite(t: TypeV)
    ensures
        free_vars(t).finite(),
    decreases t,
{
    match t {
        TypeV::ADT { args, .. } => lemma_seq_free_vars_finite(args),
        TypeV::Func { args, ret } => {
            lemma_seq_free_vars_finite(args);
            lemma_free_vars_finite(*ret);
        },
        _ => {},
    }
}

pub proof fn lemma_seq_free_vars_finite(ts: Seq<TypeV>)
    ensures
        seq_free_vars(ts).finite(),
    decreases ts,
{
    if ts.len() != 0 {
        lemma_free_vars_finite(ts[0]);
        lemma_seq_free_vars_finite(ts.drop_first());
    }
}

/// A variable is free in a sequence exactly when it is free in one entry.
pub proof fn lemma_seq_free_vars_contains(ts: Seq<TypeV>, x: u32)
    ensures
        seq_free_vars(ts).contains(x) <==> exists|i: int|
            0 <= i < ts.len() && free_vars(ts[i]).contains(x),
    decreases ts,
{
    if ts.len() != 0 {
        lemma_seq_free_vars_contains(ts.drop_first(), x);
        if seq_free_vars(ts).contains(x) {
            if free_vars(ts[0]).contains(x) {
                assert(free_vars(ts[0int]).contains(x));
            } else {
                let i = choose|i: int|
                    0 <= i < ts.drop_first().len() && free_vars(ts.drop_first()[i]).contains(x);
                assert(free_vars(ts[i + 1]).contains(x));
            }
        }
        if exists|i: int| 0 <= i < ts.len() && free_vars(ts[i]).contains(x) {
            let i = choose|i: int| 0 <= i < ts.len() && free_vars(ts[i]).contains(x);
            if i > 0 {
                assert(free_vars(ts.drop_first()[i - 1]).contains(x));
            }
        }
    }
}

/// Appending the ids of `src` that `dst` lacks, in order.
pub open spec fn merge_idlist(dst: Seq<u32>, src: Seq<u32>) -> Seq<u32>
    decreases src,
{
    if src.len() == 0 {
        dst
    } else {
        merge_idlist(
            if dst.contains(src[0]) {
                dst
            } else {
                dst.push(src[0])
            },
            src.drop_first(),
        )
    }
}

/// The free type-variable ids of a term in first-occurrence order,
/// without repetition.
pub open spec fn tvar_list(t: TypeV) -> Seq<u32>
    decreases t, 1int,
{
    match t {
        TypeV::Unit => Seq::empty(),
        TypeV::Prim { .. } => Seq::empty(),
        TypeV::TVar { id } => seq![id],
        TypeV::ADT { args, .. } => tvar_list_seq(args, Seq::empty()),
        TypeV::Func { args, ret } => merge_idlist(
            tvar_list_seq(args, Seq::empty()),
            tvar_list(*ret),
        ),
    }
}

/// The fold collecting each term's variables into the accumulator.
pub open spec fn tvar_list_seq(ts: Seq<TypeV>, acc: Seq<u32>) -> Seq<u32>
    decreases ts, 0int,
{
    if ts.len() == 0 {
        acc
    } else {
        tvar_list_seq(ts.drop_first(), merge_idlist(acc, tvar_list(ts[0])))
    }
}

/// Deep copy of a term.
fn clone_term(t: &Type) -> (res: Type)
    ensures
        res@ == t@,
    decreases t,
{
    match t {
        Type::Unit => Type::Unit,
        Type::Prim(name) => Type::Prim(name.clone()),
        Type::TVar(id) => Type::TVar(*id),
        Type::ADT(id, args) => {
            let copies = clone_term_list(args);
            let res = Type::ADT(*id, copies);
            proof {
                broadcast use lemma_seq_term_view;

                assert(seq_term_view(copies@) =~= seq_term_view(args@));
            }
            res
        },
        Type::Func(args, ret) => {
            let copies = clone_term_list(args);
            let ret_copy = clone_term(ret);
            let res = Type::Func(copies, Box::new(ret_copy));
            proof {
                broadcast use lemma_seq_term_view;

                assert(seq_term_view(copies@) =~= seq_term_view(args@));
            }
            res
        },
    }
}

/// Deep copy of a list of terms.
pub(crate) fn clone_term_list(ts: &Vec<Type>) -> (res: Vec<Type>)
    ensures
        res@.len() == ts@.len(),
        forall|i: int| 0 <= i < ts@.len() ==> term_view(res@[i]) == #[trigger] term_view(ts@[i]),
    decreases ts@,
{
    let mut out: Vec<Type> = Vec::new();
    let mut i: usize = 0;
    while i < ts.len()
        invariant
            i <= ts@.len(),
            out@.len() == i,
            forall|j: int| 0 <= j < i ==> term_view(out@[j]) == #[trigger] term_view(ts@[j]),
        decreases ts@.len() - i,
    {
        out.push(clone_term(&ts[i]));
        i = i + 1;
    }
    out
}

impl Clone for Type {
    /// A cloned term has the same model.
    fn clone(&self) -> (res: Self)
        ensures
            res@ == self@,
    {
        clone_term(self)
    }
}

/// Collects the free type variables of a term, without repetition.
pub fn tvars(ty: &Type) -> (res: Vec<u32>)
    ensures
        res@.to_set() == free_vars(ty@),
        res@.no_duplicates(),
        res@ == tvar_list(ty@),
    decreases ty,
{
    match ty {
        Type::Unit => Vec::new(),
        Type::Prim(_) => Vec::new(),
        Type::TVar(id) => {
            let mut v: Vec<u32> = Vec::new();
            v.push(*id);
            proof {
                assert(v@.to_set() =~= free_vars(ty@));
                assert(v@ =~= tvar_list(ty@));
            }
            v
        },
        Type::ADT(_, args) => tvars_list(args),
        Type::Func(args, out) => {
            let mut v = tvars_list(args);
            let out_vars = tvars(out);
            merge_ids(&mut v, &out_vars);
            proof {
                assert(v@.to_set() =~= free_vars(ty@));
            }
            v
        },
    }
}

/// Collects the free type variables of a list of terms, without repetition.
fn tvars_list(ts: &Vec<Type>) -> (res: Vec<u32>)
    ensures
        res@.to_set() == seq_free_vars(seq_term_view(ts@)),
        res@.no_duplicates(),
        res@ == tvar_list_seq(seq_term_view(ts@), Seq::empty()),
    decreases ts@,
{
    let ghost whole = seq_term_view(ts@);
    let mut out: Vec<u32> = Vec::new();
    let mut i: usize = 0;
    proof {
        broadcast use lemma_seq_term_view;

        assert(whole.skip(0) =~= whole);
    }
    while i < ts.len()
        invariant
            i <= ts@.len(),
            out@.to_set() == seq_free_vars(seq_term_view(ts@).take(i as int)),
            out@.no_duplicates(),
            whole == seq_term_view(ts@),
            tvar_list_seq(whole.skip(i as int), out@) == tvar_list_seq(whole, Seq::empty()),
        decreases ts@.len() - i,
    {
        let ghost pre = seq_term_view(ts@).take(i as int);
        let ghost out_pre = out@;
        let item_vars = tvars(&ts[i]);
        merge_ids(&mut out, &item_vars);
        proof {
            broadcast use lemma_seq_term_view;

            lemma_seq_free_vars_push(pre, term_view(ts@[i as int]));
            assert(pre.push(term_view(ts@[i as int])) =~= seq_term_view(ts@).take(i + 1));
            assert(whole.skip(i as int)[0] == whole[i as int]);
            assert(whole.skip(i as int).drop_first() =~= whole.skip(i + 1));
            assert(tvar_list_seq(whole.skip(i as int), out_pre) == tvar_list_seq(
                whole.skip(i + 1),
                merge_idlist(out_pre, tvar_list(whole[i as int])),
            ));
        }
        i = i + 1;
    }
    proof {
        broadcast use lemma_seq_term_view;

        assert(seq_term_view(ts@).take(ts@.len() as int) =~= seq_term_view(ts@));
        assert(whole.skip(ts@.len() as int) =~= Seq::<TypeV>::empty());
    }
    out
}

/// Appending one term's variables to a sequence's adds them to the union.
pub proof fn lemma_seq_free_vars_push(ts: Seq<TypeV>, t: TypeV)
    ensures
        seq_free_vars(ts.push(t)) == seq_free_vars(ts).union(free_vars(t)),
    decreases ts,
{
    if ts.len() == 0 {
        assert(ts.push(t).drop_first() =~= Seq::<TypeV>::empty());
        assert(seq_free_vars(ts.push(t)) =~= seq_free_vars(ts).union(free_vars(t)));
    } else {
        assert(ts.push(t).drop_first() =~= ts.drop_first().push(t));
        lemma_seq_free_vars_push(ts.drop_first(), t);
        assert(seq_free_vars(ts.push(t)) =~= seq_free_vars(ts).union(free_vars(t)));
    }
}

/// Does the list contain the id?
pub(crate) fn contains_id(v: &Vec<u32>, x: u32) -> (b: bool)
    ensures
        b == v@.contains(x),
{
    let mut i: usize = 0;
    while i < v.len()
        invariant
            i <= v@.len(),
            forall|j: int| 0 <= j < i ==> v@[j] != x,
        decreases v@.len() - i,
    {
        if v[i] == x {
            return true;
        }
        i = i + 1;
    }
    false
}

/// Adds the ids of `src` that `dst` lacks; the result holds the union.
fn merge_ids(dst: &mut Vec<u32>, src: &Vec<u32>)
    requires
        old(dst)@.no_duplicates(),
    ensures
        final(dst)@.to_set() == old(dst)@.to_set().union(src@.to_set()),
        final(dst)@.no_duplicates(),
        final(dst)@ == merge_idlist(old(dst)@, src@),
{
    proof {
        assert(src@.skip(0) =~= src@);
    }
    let mut i: usize = 0;
    while i < src.len()
        invariant
            i <= src@.len(),
            dst@.to_set() == old(dst)@.to_set().union(src@.take(i as int).to_set()),
            dst@.no_duplicates(),
            merge_idlist(dst@, src@.skip(i as int)) == merge_idlist(old(dst)@, src@),
        decreases src@.len() - i,
    {
        let ghost done = src@.take(i as int);
        let ghost dst_pre = dst@;
        if !contains_id(dst, src[i]) {
            let ghost before = dst@;
            dst.push(src[i]);
            proof {
                assert(dst@.to_set() =~= before.to_set().insert(src@[i as int]));
            }
        }
        proof {
            assert(src@.take(i + 1) =~= done.push(src@[i as int]));
            assert(src@.take(i + 1).to_set() =~= done.to_set().insert(src@[i as int]));
            assert(dst@.to_set() =~= old(dst)@.to_set().union(src@.take(i + 1).to_set()));
            assert(src@.skip(i as int)[0] == src@[i as int]);
            assert(src@.skip(i as int).drop_first() =~= src@.skip(i + 1));
            assert(merge_idlist(dst_pre, src@.skip(i as int)) == merge_idlist(
                dst@,
                src@.skip(i + 1),
            ));
        }
        i = i + 1;
    }
    proof {
        assert(src@.take(src@.len() as int) =~= src@);
        assert(src@.skip(src@.len() as int) =~= Seq::<u32>::empty());
    }
}

} // verus!
