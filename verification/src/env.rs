//! The environment: the mutable owner of all type state for one checking
//! run. Symbol types live in two tables: the active table holds tentative
//! types that later substitutions still refine; the complete table holds
//! finalized types that nothing refines again.

use vstd::prelude::*;

use crate::ast::InternalTypes;
use crate::subst::{subst_applied, Subst};
use crate::term::{Type, TypeV};

verus! {

/// Model of the environment.
pub ghost struct EnvV {
    pub next_type_var: u32,
    pub active: Map<u32, TypeV>,
    pub complete: Map<u32, TypeV>,
    pub adt_type: Map<u32, TypeV>,
    pub val_type: Map<u32, TypeV>,
    pub internal_types: InternalTypes,
}

/// The id the fresh-variable counter takes after one allocation.
pub open spec fn tvar_inc(n: u32) -> u32 {
    if n == u32::MAX {
        0
    } else {
        (n + 1) as u32
    }
}

/// The environment after allocating one fresh type variable.
pub open spec fn env_alloc_tvar(e: EnvV) -> (EnvV, TypeV) {
    (EnvV { next_type_var: tvar_inc(e.next_type_var), ..e }, TypeV::TVar { id: e.next_type_var })
}

/// The type recorded for a symbol: the active table is consulted first,
/// then the complete table.
pub open spec fn env_sym_type(e: EnvV, id: u32) -> Option<TypeV> {
    if e.active.dom().contains(id) {
        Some(e.active[id])
    } else if e.complete.dom().contains(id) {
        Some(e.complete[id])
    } else {
        None
    }
}

/// The environment with a symbol's tentative type recorded.
pub open spec fn env_insert_sym(e: EnvV, id: u32, t: TypeV) -> EnvV {
    EnvV { active: e.active.insert(id, t), ..e }
}

/// The environment with a set of substitutions applied to every active
/// symbol type.
pub open spec fn env_apply_subs(e: EnvV, s: Map<u32, TypeV>) -> EnvV {
    EnvV { active: subst_applied(e.active, s), ..e }
}

/// The environment with every active symbol finalized.
pub open spec fn env_flush(e: EnvV) -> EnvV {
    EnvV { active: Map::empty(), complete: e.complete.union_prefer_right(e.active), ..e }
}

/// The environment invariant the checker relies on: every recorded
/// constructor type is a function type returning a declared algebraic
/// type, and the algebraic-type table maps each id to an instance of the
/// algebraic type with that id.
pub open spec fn env_wf(e: EnvV) -> bool {
    &&& forall|k: u32| #[trigger]
        e.adt_type.dom().contains(k) ==> (e.adt_type[k] matches TypeV::ADT { id, .. } && id == k)
    &&& forall|k: u32| #[trigger]
        e.val_type.dom().contains(k) ==> (e.val_type[k] matches TypeV::Func { args, ret } && (
        (*ret) matches TypeV::ADT { id, .. } && e.adt_type.dom().contains(id)))
}

/// Tracks the types of symbols in the program being checked, the types of
/// the declared algebraic types and their constructors, and the
/// fresh-type-variable counter.
#[derive(Debug)]
pub struct Environment {
    next_type_var: u32,
    active_sym_type: Subst,
    complete_sym_type: Subst,
    adt_type: Subst,
    val_type: Subst,
    internal_types: InternalTypes,
}

impl View for Environment {
    type V = EnvV;

    closed spec fn view(&self) -> EnvV {
        EnvV {
            next_type_var: self.next_type_var,
            active: self.active_sym_type@,
            complete: self.complete_sym_type@,
            adt_type: self.adt_type@,
            val_type: self.val_type@,
            internal_types: self.internal_types,
        }
    }
}

impl Environment {
    /// A fresh environment with empty tables.
    pub fn new(internal_types: InternalTypes) -> (res: Environment)
        ensures
            res@ == (EnvV {
                next_type_var: 0,
                active: Map::<u32, TypeV>::empty(),
                complete: Map::<u32, TypeV>::empty(),
                adt_type: Map::<u32, TypeV>::empty(),
                val_type: Map::<u32, TypeV>::empty(),
                internal_types,
            }),
    {
        Environment {
            next_type_var: 0,
            complete_sym_type: Subst::new(),
            active_sym_type: Subst::new(),
            val_type: Subst::new(),
            adt_type: Subst::new(),
            internal_types,
        }
    }

    /// Allocates a fresh, unconstrained type variable.
    pub fn new_tvar(&mut self) -> (res: Type)
        ensures
            (final(self)@, res@) == env_alloc_tvar(old(self)@),
    {
        let id = self.next_type_var;
        self.next_type_var = if id == u32::MAX {
            0
        } else {
            id + 1
        };
        Type::TVar(id)
    }

    /// The type recorded for a symbol, tentative or finalized.
    pub fn get_sym_type(&self, id: u32) -> (res: Option<&Type>)
        ensures
            match res {
                Some(t) => env_sym_type(self@, id) == Some(t@),
                None => env_sym_type(self@, id) is None,
            },
    {
        match self.active_sym_type.get(id) {
            Some(ty) => Some(ty),
            None => self.complete_sym_type.get(id),
        }
    }

    /// Records a symbol's tentative type.
    pub fn insert_sym_type(&mut self, id: u32, ty: Type)
        ensures
            final(self)@ == env_insert_sym(old(self)@, id, ty@),
    {
        self.active_sym_type.insert(id, ty);
    }

    /// Finalizes every tentative symbol type: moves it where further
    /// substitutions no longer refine it. Called once a definition is
    /// fully checked and its types are settled.
    pub fn flush_active_symbols(&mut self)
        ensures
            final(self)@ == env_flush(old(self)@),
    {
        self.active_sym_type.drain_into(&mut self.complete_sym_type);
    }

    /// Applies a set of substitutions to the active symbols, refining
    /// tentative type variables to more specific types.
    pub fn apply_subs(&mut self, subs: &Subst)
        ensures
            final(self)@ == env_apply_subs(old(self)@, subs@),
    {
        self.active_sym_type.apply_to_values(subs);
    }

    /// Records the declared type of a data constructor.
    pub fn insert_val_type(&mut self, id: u32, ty: Type)
        ensures
            final(self)@ == (EnvV { val_type: old(self)@.val_type.insert(id, ty@), ..old(self)@ }),
    {
        self.val_type.insert(id, ty);
    }

    /// The declared type of a data constructor.
    pub fn get_val_type(&self, id: u32) -> (res: Option<&Type>)
        ensures
            match res {
                Some(t) => self@.val_type.dom().contains(id) && t@ == self@.val_type[id],
                None => !self@.val_type.dom().contains(id),
            },
    {
        self.val_type.get(id)
    }

    /// Records the instantiated form of a declared algebraic type.
    pub fn insert_adt_type(&mut self, id: u32, ty: Type)
        ensures
            final(self)@ == (EnvV { adt_type: old(self)@.adt_type.insert(id, ty@), ..old(self)@ }),
    {
        self.adt_type.insert(id, ty);
    }

    /// The instantiated form of a declared algebraic type.
    pub fn get_adt_type(&self, id: u32) -> (res: Option<&Type>)
        ensures
            match res {
                Some(t) => self@.adt_type.dom().contains(id) && t@ == self@.adt_type[id],
                None => !self@.adt_type.dom().contains(id),
            },
    {
        self.adt_type.get(id)
    }

    /// The finalized symbol types in storage order, as id/model pairs.
    pub closed spec fn complete_entries(&self) -> Seq<(u32, TypeV)> {
        self.complete_sym_type.entries()
    }

    /// The finalized entries fold to the complete table of the model.
    pub proof fn lemma_complete_entries(&self)
        ensures
            crate::subst::entry_map(self.complete_entries()) == self@.complete,
    {
        self.complete_sym_type.lemma_entries_map();
    }

    /// The number of finalized symbols.
    pub fn complete_len(&self) -> (res: usize)
        ensures
            res == self.complete_entries().len(),
    {
        self.complete_sym_type.entries_len()
    }

    /// The id of the finalized symbol at an index.
    pub fn complete_key(&self, i: usize) -> (res: u32)
        requires
            i < self.complete_entries().len(),
        ensures
            res == self.complete_entries()[i as int].0,
    {
        self.complete_sym_type.entry_key(i)
    }

    /// The type of the finalized symbol at an index.
    pub fn complete_type(&self, i: usize) -> (res: &Type)
        requires
            i < self.complete_entries().len(),
        ensures
            res@ == self.complete_entries()[i as int].1,
    {
        self.complete_sym_type.entry_type(i)
    }

    /// The ids of the built-in types this run was seeded with.
    pub fn internal(&self) -> (res: InternalTypes)
        ensures
            res == self@.internal_types,
    {
        self.internal_types
    }
}

} // verus!
