//! Rendering of type terms for diagnostics: the debug form prints raw
//! numeric ids; the human-readable form assigns successive lowercase
//! letters to type variables and prints algebraic types under their
//! declared names, and the environment dump renders one `name : type`
//! line per finalized symbol.

use vstd::prelude::*;

use crate::ast::{Prog, Symbol, TypeDecl};
use crate::env::{tvar_inc, Environment};
use crate::term::{lemma_seq_term_view, seq_term_view, term_view, Type, TypeV};

verus! {

broadcast use vstd::seq_lib::group_seq_properties;

/// The decimal digit character for one digit value.
pub open spec fn dec_digit(d: nat) -> char {
    if d == 0 {
        '0'
    } else if d == 1 {
        '1'
    } else if d == 2 {
        '2'
    } else if d == 3 {
        '3'
    } else if d == 4 {
        '4'
    } else if d == 5 {
        '5'
    } else if d == 6 {
        '6'
    } else if d == 7 {
        '7'
    } else if d == 8 {
        '8'
    } else {
        '9'
    }
}

/// The decimal rendering of a number, most significant digit first.
pub open spec fn dec_str(n: nat) -> Seq<char>
    decreases n,
{
    if n < 10 {
        seq![dec_digit(n)]
    } else {
        dec_str(n / 10).push(dec_digit(n % 10))
    }
}

/// The debug rendering of a term: type variables as `t` plus their id,
/// algebraic types as `adt` plus their id with parenthesised arguments,
/// function types as the argument list in parentheses, an arrow, and the
/// return type.
pub open spec fn debug_str(t: TypeV) -> Seq<char>
    decreases t,
{
    match t {
        TypeV::Unit => seq!['(', ')'],
        TypeV::Prim { name } => name,
        TypeV::TVar { id } => seq!['t'] + dec_str(id as nat),
        TypeV::ADT { id, args } => {
            if args.len() == 0 {
                seq!['a', 'd', 't'] + dec_str(id as nat)
            } else {
                seq!['a', 'd', 't'] + dec_str(id as nat) + seq!['('] + debug_str_args(args)
                    + seq![')']
            }
        },
        TypeV::Func { args, ret } => seq!['('] + debug_str_args(args)
            + seq![')', ' ', '-', '>', ' '] + debug_str(*ret),
    }
}

/// The debug rendering of an argument list, comma separated.
pub open spec fn debug_str_args(ts: Seq<TypeV>) -> Seq<char>
    decreases ts,
{
    if ts.len() == 0 {
        Seq::empty()
    } else if ts.len() == 1 {
        debug_str(ts[0])
    } else {
        debug_str(ts[0]) + seq![',', ' '] + debug_str_args(ts.drop_first())
    }
}

/// One decimal digit as a string slice.
fn digit_str(d: u32) -> (res: &'static str)
    requires
        d < 10,
    ensures
        res@ == seq![dec_digit(d as nat)],
{
    if d == 0 {
        proof {
            reveal_strlit("0");
        }
        let r = "0";
        proof {
            assert(r@ =~= seq![dec_digit(d as nat)]);
        }
        r
    } else if d == 1 {
        proof {
            reveal_strlit("1");
        }
        let r = "1";
        proof {
            assert(r@ =~= seq![dec_digit(d as nat)]);
        }
        r
    } else if d == 2 {
        proof {
            reveal_strlit("2");
        }
        let r = "2";
        proof {
            assert(r@ =~= seq![dec_digit(d as nat)]);
        }
        r
    } else if d == 3 {
        proof {
            reveal_strlit("3");
        }
        let r = "3";
        proof {
            assert(r@ =~= seq![dec_digit(d as nat)]);
        }
        r
    } else if d == 4 {
        proof {
            reveal_strlit("4");
        }
        let r = "4";
        proof {
            assert(r@ =~= seq![dec_digit(d as nat)]);
        }
        r
    } else if d == 5 {
        proof {
            reveal_strlit("5");
        }
        let r = "5";
        proof {
            assert(r@ =~= seq![dec_digit(d as nat)]);
        }
        r
    } else if d == 6 {
        proof {
            reveal_strlit("6");
        }
        let r = "6";
        proof {
            assert(r@ =~= seq![dec_digit(d as nat)]);
        }
        r
    } else if d == 7 {
        proof {
            reveal_strlit("7");
        }
        let r = "7";
        proof {
            assert(r@ =~= seq![dec_digit(d as nat)]);
        }
        r
    } else if d == 8 {
        proof {
            reveal_strlit("8");
        }
        let r = "8";
        proof {
            assert(r@ =~= seq![dec_digit(d as nat)]);
        }
        r
    } else {
        proof {
            reveal_strlit("9");
        }
        let r = "9";
        proof {
            assert(r@ =~= seq![dec_digit(d as nat)]);
        }
        r
    }
}

/// Renders a number in decimal.
pub fn u32_dec(n: u32) -> (res: String)
    ensures
        res@ == dec_str(n as nat),
    decreases n,
{
    if n < 10 {
        String::from_str(digit_str(n))
    } else {
        let mut s = u32_dec(n / 10);
        s.append(digit_str(n % 10));
        s
    }
}

impl Type {
    /// Debug rendering of the term, printing raw type-variable and
    /// algebraic-type ids.
    pub fn as_str_debug(&self) -> (res: String)
        ensures
            res@ == debug_str(self@),
        decreases self, 0int,
    {
        match self {
            Type::Unit => {
                proof {
                    reveal_strlit("()");
                }
                let r = String::from_str("()");
                proof {
                    assert(r@ =~= debug_str(self@));
                }
                r
            },
            Type::Prim(name) => name.clone(),
            Type::TVar(id) => {
                proof {
                    reveal_strlit("t");
                }
                let mut s = String::from_str("t");
                let digits = u32_dec(*id);
                s.append(digits.as_str());
                proof {
                    assert(s@ =~= debug_str(self@));
                }
                s
            },
            Type::ADT(id, args) => {
                proof {
                    reveal_strlit("adt");
                    reveal_strlit("(");
                    reveal_strlit(")");
                }
                let mut s = String::from_str("adt");
                let digits = u32_dec(*id);
                s.append(digits.as_str());
                if args.len() == 0 {
                    proof {
                        broadcast use lemma_seq_term_view;

                        assert(seq_term_view(args@).len() == 0);
                        assert(s@ =~= seq!['a', 'd', 't'] + dec_str(*id as nat));
                        assert(s@ =~= debug_str(self@));
                    }
                    s
                } else {
                    s.append("(");
                    let inner = args_debug_from(args, 0);
                    s.append(inner.as_str());
                    s.append(")");
                    proof {
                        broadcast use lemma_seq_term_view;

                        assert(seq_term_view(args@).skip(0) =~= seq_term_view(args@));
                        assert(s@ =~= debug_str(self@));
                    }
                    s
                }
            },
            Type::Func(args, out) => {
                proof {
                    reveal_strlit("(");
                    reveal_strlit(") -> ");
                }
                let mut s = String::from_str("(");
                let inner = args_debug_from(args, 0);
                s.append(inner.as_str());
                s.append(") -> ");
                let out_str = out.as_str_debug();
                s.append(out_str.as_str());
                proof {
                    broadcast use lemma_seq_term_view;

                    assert(seq_term_view(args@).skip(0) =~= seq_term_view(args@));
                    assert(s@ =~= debug_str(self@));
                }
                s
            },
        }
    }
}

/// Renders the argument list from index `i` on, comma separated.
fn args_debug_from(args: &Vec<Type>, i: usize) -> (res: String)
    requires
        i <= args@.len(),
    ensures
        res@ == debug_str_args(seq_term_view(args@).skip(i as int)),
    decreases *args, args@.len() - i,
{
    proof {
        broadcast use lemma_seq_term_view;

    }
    if i == args.len() {
        let r = String::new();
        proof {
            assert(seq_term_view(args@).skip(i as int) =~= Seq::<TypeV>::empty());
        }
        r
    } else if i == args.len() - 1 {
        let r = args[i].as_str_debug();
        proof {
            assert(seq_term_view(args@).skip(i as int).len() == 1);
            assert(seq_term_view(args@).skip(i as int)[0] == term_view(args@[i as int]));
        }
        r
    } else {
        proof {
            reveal_strlit(", ");
        }
        let mut s = args[i].as_str_debug();
        s.append(", ");
        let rest = args_debug_from(args, i + 1);
        s.append(rest.as_str());
        proof {
            let tail = seq_term_view(args@).skip(i as int);
            assert(tail.drop_first() =~= seq_term_view(args@).skip(i + 1));
            assert(tail[0] == term_view(args@[i as int]));
            assert(s@ =~= debug_str_args(tail));
        }
        s
    }
}

/// The lowercase letter assigned to the n-th distinct type variable of a
/// rendering; the alphabet repeats after `z`.
pub open spec fn letter(n: u32) -> char {
    let d = n % 26;
    if d == 0 {
        'a'
    } else if d == 1 {
        'b'
    } else if d == 2 {
        'c'
    } else if d == 3 {
        'd'
    } else if d == 4 {
        'e'
    } else if d == 5 {
        'f'
    } else if d == 6 {
        'g'
    } else if d == 7 {
        'h'
    } else if d == 8 {
        'i'
    } else if d == 9 {
        'j'
    } else if d == 10 {
        'k'
    } else if d == 11 {
        'l'
    } else if d == 12 {
        'm'
    } else if d == 13 {
        'n'
    } else if d == 14 {
        'o'
    } else if d == 15 {
        'p'
    } else if d == 16 {
        'q'
    } else if d == 17 {
        'r'
    } else if d == 18 {
        's'
    } else if d == 19 {
        't'
    } else if d == 20 {
        'u'
    } else if d == 21 {
        'v'
    } else if d == 22 {
        'w'
    } else if d == 23 {
        'x'
    } else if d == 24 {
        'y'
    } else {
        'z'
    }
}

/// Is an algebraic type with this id declared?
pub open spec fn decls_have(ds: Seq<TypeDecl>, id: u32) -> bool {
    exists|i: int| 0 <= i < ds.len() && ds[i].id == id
}

/// The declared name of an algebraic type: the first declaration with the
/// id, or nothing for an undeclared id.
pub open spec fn decl_name(ds: Seq<TypeDecl>, id: u32) -> Seq<char>
    decreases ds,
{
    if ds.len() == 0 {
        Seq::empty()
    } else if ds[0].id == id {
        ds[0].name@
    } else {
        decl_name(ds.drop_first(), id)
    }
}

/// Every algebraic type the term mentions is declared.
pub open spec fn term_decls_ok(t: TypeV, ds: Seq<TypeDecl>) -> bool
    decreases t, 1int,
{
    match t {
        TypeV::Unit => true,
        TypeV::Prim { .. } => true,
        TypeV::TVar { .. } => true,
        TypeV::ADT { id, args } => decls_have(ds, id) && terms_decls_ok(args, ds),
        TypeV::Func { args, ret } => terms_decls_ok(args, ds) && term_decls_ok(*ret, ds),
    }
}

/// `term_decls_ok` over a sequence of terms.
pub open spec fn terms_decls_ok(ts: Seq<TypeV>, ds: Seq<TypeDecl>) -> bool
    decreases ts, 0int,
{
    forall|i: int| 0 <= i < ts.len() ==> term_decls_ok(#[trigger] ts[i], ds)
}

/// The human-readable rendering of a term, threading the per-call naming
/// state: the names already assigned to type variables, and the count of
/// names handed out. A variable seen for the first time takes the next
/// letter; an algebraic type prints under its declared name; argument
/// lists and function types print as in the debug form.
pub open spec fn pretty(t: TypeV, ds: Seq<TypeDecl>, names: Map<u32, Seq<char>>, next: u32) -> (
    Seq<char>,
    Map<u32, Seq<char>>,
    u32,
)
    decreases t, 1int,
{
    match t {
        TypeV::Unit => (seq!['(', ')'], names, next),
        TypeV::Prim { name } => (name, names, next),
        TypeV::TVar { id } => {
            if names.dom().contains(id) {
                (names[id], names, next)
            } else {
                let nm = seq![letter(next)];
                (nm, names.insert(id, nm), tvar_inc(next))
            }
        },
        TypeV::ADT { id, args } => {
            let nm = decl_name(ds, id);
            if args.len() == 0 {
                (nm, names, next)
            } else {
                let (s0, n1, x1) = pretty(args[0], ds, names, next);
                let (sr, n2, x2) = pretty_rest(args.drop_first(), ds, n1, x1);
                (nm + seq!['('] + s0 + sr + seq![')'], n2, x2)
            }
        },
        TypeV::Func { args, ret } => {
            if args.len() == 0 {
                let (so, n1, x1) = pretty(*ret, ds, names, next);
                (seq!['('] + seq![')', ' ', '-', '>', ' '] + so, n1, x1)
            } else {
                let (s0, n1, x1) = pretty(args[0], ds, names, next);
                let (sr, n2, x2) = pretty_rest(args.drop_first(), ds, n1, x1);
                let (so, n3, x3) = pretty(*ret, ds, n2, x2);
                (seq!['('] + s0 + sr + seq![')', ' ', '-', '>', ' '] + so, n3, x3)
            }
        },
    }
}

/// The rendering of the second and later arguments, each preceded by a
/// comma, threading the naming state left to right.
pub open spec fn pretty_rest(
    ts: Seq<TypeV>,
    ds: Seq<TypeDecl>,
    names: Map<u32, Seq<char>>,
    next: u32,
) -> (Seq<char>, Map<u32, Seq<char>>, u32)
    decreases ts, 0int,
{
    if ts.len() == 0 {
        (Seq::empty(), names, next)
    } else {
        let (s0, n1, x1) = pretty(ts[0], ds, names, next);
        let (sr, n2, x2) = pretty_rest(ts.drop_first(), ds, n1, x1);
        (seq![',', ' '] + s0 + sr, n2, x2)
    }
}

/// The rendering of a term with a fresh naming table, as `as_str`
/// produces it.
pub open spec fn pretty_str(t: TypeV, ds: Seq<TypeDecl>) -> Seq<char> {
    pretty(t, ds, Map::empty(), 0).0
}

/// The per-call naming table of the human-readable renderer: which
/// letter each type-variable id was assigned.
#[derive(Debug)]
pub struct NameTable {
    pairs: Vec<(u32, String)>,
}

/// The map a list of name assignments stands for.
pub open spec fn name_map(ps: Seq<(u32, String)>) -> Map<u32, Seq<char>>
    decreases ps,
{
    if ps.len() == 0 {
        Map::empty()
    } else {
        name_map(ps.drop_last()).insert(ps.last().0, ps.last().1@)
    }
}

impl View for NameTable {
    type V = Map<u32, Seq<char>>;

    closed spec fn view(&self) -> Map<u32, Seq<char>> {
        name_map(self.pairs@)
    }
}

impl NameTable {
    /// An empty naming table.
    pub fn new() -> (res: NameTable)
        ensures
            res@ == Map::<u32, Seq<char>>::empty(),
    {
        NameTable { pairs: Vec::new() }
    }

    /// Looks up the name assigned to a variable, if any.
    pub fn get(&self, id: u32) -> (res: Option<&String>)
        ensures
            match res {
                Some(s) => self@.dom().contains(id) && s@ == self@[id],
                None => !self@.dom().contains(id),
            },
    {
        let mut i: usize = self.pairs.len();
        while i > 0
            invariant
                i <= self.pairs@.len(),
                name_map(self.pairs@).dom().contains(id) == name_map(
                    self.pairs@.take(i as int),
                ).dom().contains(id),
                name_map(self.pairs@).dom().contains(id) ==> name_map(self.pairs@)[id]
                    == name_map(self.pairs@.take(i as int))[id],
            decreases i,
        {
            i = i - 1;
            proof {
                assert(self.pairs@.take(i + 1).drop_last() =~= self.pairs@.take(i as int));
            }
            if self.pairs[i].0 == id {
                return Some(&self.pairs[i].1);
            }
        }
        proof {
            assert(self.pairs@.take(0) =~= Seq::<(u32, String)>::empty());
        }
        None
    }

    /// Assigns a name to a variable.
    pub fn insert(&mut self, id: u32, name: String)
        ensures
            final(self)@ == old(self)@.insert(id, name@),
    {
        let ghost before = self.pairs@;
        self.pairs.push((id, name));
        proof {
            assert(self.pairs@.drop_last() =~= before);
        }
    }
}

/// One lowercase letter as a string slice.
fn letter_str(n: u32) -> (res: &'static str)
    ensures
        res@ == seq![letter(n)],
{
    let d = n % 26;
    let r: &'static str = if d == 0 {
        proof {
            reveal_strlit("a");
        }
        "a"
    } else if d == 1 {
        proof {
            reveal_strlit("b");
        }
        "b"
    } else if d == 2 {
        proof {
            reveal_strlit("c");
        }
        "c"
    } else if d == 3 {
        proof {
            reveal_strlit("d");
        }
        "d"
    } else if d == 4 {
        proof {
            reveal_strlit("e");
        }
        "e"
    } else if d == 5 {
        proof {
            reveal_strlit("f");
        }
        "f"
    } else if d == 6 {
        proof {
            reveal_strlit("g");
        }
        "g"
    } else if d == 7 {
        proof {
            reveal_strlit("h");
        }
        "h"
    } else if d == 8 {
        proof {
            reveal_strlit("i");
        }
        "i"
    } else if d == 9 {
        proof {
            reveal_strlit("j");
        }
        "j"
    } else if d == 10 {
        proof {
            reveal_strlit("k");
        }
        "k"
    } else if d == 11 {
        proof {
            reveal_strlit("l");
        }
        "l"
    } else if d == 12 {
        proof {
            reveal_strlit("m");
        }
        "m"
    } else if d == 13 {
        proof {
            reveal_strlit("n");
        }
        "n"
    } else if d == 14 {
        proof {
            reveal_strlit("o");
        }
        "o"
    } else if d == 15 {
        proof {
            reveal_strlit("p");
        }
        "p"
    } else if d == 16 {
        proof {
            reveal_strlit("q");
        }
        "q"
    } else if d == 17 {
        proof {
            reveal_strlit("r");
        }
        "r"
    } else if d == 18 {
        proof {
            reveal_strlit("s");
        }
        "s"
    } else if d == 19 {
        proof {
            reveal_strlit("t");
        }
        "t"
    } else if d == 20 {
        proof {
            reveal_strlit("u");
        }
        "u"
    } else if d == 21 {
        proof {
            reveal_strlit("v");
        }
        "v"
    } else if d == 22 {
        proof {
            reveal_strlit("w");
        }
        "w"
    } else if d == 23 {
        proof {
            reveal_strlit("x");
        }
        "x"
    } else if d == 24 {
        proof {
            reveal_strlit("y");
        }
        "y"
    } else {
        proof {
            reveal_strlit("z");
        }
        "z"
    };
    proof {
        assert(r@ =~= seq![letter(n)]);
    }
    r
}

/// The declared name of an algebraic type, by linear search: the first
/// declaration carrying the id.
fn find_decl_name(types: &Vec<TypeDecl>, id: u32) -> (res: Option<&String>)
    ensures
        match res {
            Some(s) => decls_have(types@, id) && s@ == decl_name(types@, id),
            None => !decls_have(types@, id),
        },
{
    let ghost ds = types@;
    let mut i: usize = 0;
    proof {
        assert(ds.skip(0) =~= ds);
    }
    while i < types.len()
        invariant
            i <= ds.len(),
            ds == types@,
            forall|k: int| 0 <= k < i ==> ds[k].id != id,
            decl_name(ds, id) == decl_name(ds.skip(i as int), id),
        decreases ds.len() - i,
    {
        proof {
            assert(ds.skip(i as int)[0] == ds[i as int]);
            assert(ds.skip(i as int).drop_first() =~= ds.skip(i + 1));
        }
        if types[i].id == id {
            return Some(&types[i].name);
        }
        i = i + 1;
    }
    proof {
        if decls_have(ds, id) {
            let w = choose|w: int| 0 <= w < ds.len() && ds[w].id == id;
            assert(false);
        }
    }
    None
}

impl Type {
    /// Human-readable rendering of the term: type variables take
    /// successive lowercase letters in order of first occurrence, from a
    /// naming table local to one `as_str` call, and algebraic types print
    /// under their declared names.
    pub fn as_str(&self, prog: &Prog) -> (res: String)
        requires
            term_decls_ok(self@, prog.type_table.types@),
        ensures
            res@ == pretty_str(self@, prog.type_table.types@),
    {
        let mut tvar_names = NameTable::new();
        let mut next_name: u32 = 0;
        self.as_str_inner(prog, &mut tvar_names, &mut next_name)
    }

    /// Worker for `as_str`: renders the term under the naming state built
    /// so far, extending it at each type variable seen for the first
    /// time.
    pub fn as_str_inner(
        &self,
        prog: &Prog,
        tvar_names: &mut NameTable,
        next_name: &mut u32,
    ) -> (res: String)
        requires
            term_decls_ok(self@, prog.type_table.types@),
        ensures
            ({
                let (out, nm, nx) = pretty(
                    self@,
                    prog.type_table.types@,
                    old(tvar_names)@,
                    *old(next_name),
                );
                res@ == out && final(tvar_names)@ == nm && *final(next_name) == nx
            }),
        decreases *self, 1int,
    {
        broadcast use lemma_seq_term_view;

        match self {
            Type::Unit => {
                proof {
                    reveal_strlit("()");
                }
                let r = String::from_str("()");
                proof {
                    assert(r@ =~= seq!['(', ')']);
                }
                r
            },
            Type::Prim(name) => name.clone(),
            Type::TVar(id) => {
                let found: Option<String> = match tvar_names.get(*id) {
                    Some(s) => Some(s.clone()),
                    None => None,
                };
                match found {
                    Some(repr) => repr,
                    None => {
                        let tvar_repr = String::from_str(letter_str(*next_name));
                        *next_name = if *next_name == u32::MAX {
                            0
                        } else {
                            *next_name + 1
                        };
                        tvar_names.insert(*id, tvar_repr.clone());
                        tvar_repr
                    },
                }
            },
            Type::ADT(id, args) => {
                proof {
                    reveal_strlit("(");
                    reveal_strlit(")");
                }
                let name: String = match find_decl_name(&prog.type_table.types, *id) {
                    Some(s) => s.clone(),
                    None => vstd::pervasive::unreached(),
                };
                if args.len() == 0 {
                    name
                } else {
                    let ghost arr = seq_term_view(args@);
                    proof {
                        assert(term_decls_ok(self@, prog.type_table.types@));
                        assert(terms_decls_ok(arr, prog.type_table.types@));
                        assert(arr[0] == term_view(args@[0]));
                        assert(term_decls_ok(arr[0], prog.type_table.types@));
                    }
                    let mut output = name;
                    output.append("(");
                    let first_str = args[0].as_str_inner(prog, tvar_names, next_name);
                    output.append(first_str.as_str());
                    let rest = rest_str(args, prog, tvar_names, next_name);
                    output.append(rest.as_str());
                    output.append(")");
                    proof {
                        assert(arr.drop_first() =~= arr.skip(1));
                        assert(output@ =~= pretty(
                            self@,
                            prog.type_table.types@,
                            old(tvar_names)@,
                            *old(next_name),
                        ).0);
                    }
                    output
                }
            },
            Type::Func(args, out) => {
                proof {
                    reveal_strlit("(");
                    reveal_strlit(") -> ");
                }
                let ghost arr = seq_term_view(args@);
                let mut output = String::from_str("(");
                if args.len() > 0 {
                    proof {
                        assert(term_decls_ok(self@, prog.type_table.types@));
                        assert(terms_decls_ok(arr, prog.type_table.types@));
                        assert(arr[0] == term_view(args@[0]));
                        assert(term_decls_ok(arr[0], prog.type_table.types@));
                    }
                    let first_str = args[0].as_str_inner(prog, tvar_names, next_name);
                    output.append(first_str.as_str());
                    let rest = rest_str(args, prog, tvar_names, next_name);
                    output.append(rest.as_str());
                }
                output.append(") -> ");
                let out_str = out.as_str_inner(prog, tvar_names, next_name);
                output.append(out_str.as_str());
                proof {
                    if args@.len() > 0 {
                        assert(arr.drop_first() =~= arr.skip(1));
                    }
                    assert(output@ =~= pretty(
                        self@,
                        prog.type_table.types@,
                        old(tvar_names)@,
                        *old(next_name),
                    ).0);
                }
                output
            },
        }
    }
}

/// Renders the second and later arguments of a list, each preceded by a
/// comma, threading the naming state.
fn rest_str(
    args: &Vec<Type>,
    prog: &Prog,
    tvar_names: &mut NameTable,
    next_name: &mut u32,
) -> (res: String)
    requires
        args@.len() >= 1,
        terms_decls_ok(seq_term_view(args@), prog.type_table.types@),
    ensures
        ({
            let (sr, nm, nx) = pretty_rest(
                seq_term_view(args@).skip(1),
                prog.type_table.types@,
                old(tvar_names)@,
                *old(next_name),
            );
            res@ == sr && final(tvar_names)@ == nm && *final(next_name) == nx
        }),
    decreases *args, 2int,
{
    broadcast use lemma_seq_term_view;

    let ghost arr = seq_term_view(args@);
    let ghost ds = prog.type_table.types@;
    let mut output = String::new();
    let mut j: usize = 1;
    while j < args.len()
        invariant
            1 <= j <= args@.len(),
            arr == seq_term_view(args@),
            ds == prog.type_table.types@,
            terms_decls_ok(arr, ds),
            ({
                let (sr, nm, nx) = pretty_rest(arr.skip(j as int), ds, tvar_names@, *next_name);
                let (sr1, nm1, nx1) = pretty_rest(
                    arr.skip(1),
                    ds,
                    old(tvar_names)@,
                    *old(next_name),
                );
                output@ + sr == sr1 && nm == nm1 && nx == nx1
            }),
        decreases args@.len() - j,
    {
        broadcast use lemma_seq_term_view;

        proof {
            reveal_strlit(", ");
        }
        let ghost names_pre = tvar_names@;
        let ghost next_pre = *next_name;
        let ghost out_pre = output@;
        proof {
            assert(arr.skip(j as int)[0] == arr[j as int]);
            assert(arr.skip(j as int).drop_first() =~= arr.skip(j + 1));
            assert(term_decls_ok(arr[j as int], ds));
        }
        let s_j = args[j].as_str_inner(prog, tvar_names, next_name);
        output.append(", ");
        output.append(s_j.as_str());
        proof {
            let (sr_new, nm_new, nx_new) = pretty_rest(
                arr.skip(j + 1),
                ds,
                tvar_names@,
                *next_name,
            );
            assert(pretty_rest(arr.skip(j as int), ds, names_pre, next_pre).0 =~= seq![',', ' ']
                + s_j@ + sr_new);
            assert(output@ + sr_new =~= out_pre + pretty_rest(
                arr.skip(j as int),
                ds,
                names_pre,
                next_pre,
            ).0);
        }
        j = j + 1;
    }
    proof {
        assert(arr.skip(args@.len() as int) =~= Seq::<TypeV>::empty());
        assert(output@ + Seq::<char>::empty() =~= output@);
    }
    output
}

/// Is a symbol with this id in the table?
pub open spec fn syms_have(store: Seq<Symbol>, id: u32) -> bool {
    exists|i: int| 0 <= i < store.len() && store[i].id == id
}

/// The name of a symbol: the first table entry with the id, or nothing
/// for an unknown id.
pub open spec fn sym_name(store: Seq<Symbol>, id: u32) -> Seq<char>
    decreases store,
{
    if store.len() == 0 {
        Seq::empty()
    } else if store[0].id == id {
        store[0].name@
    } else {
        sym_name(store.drop_first(), id)
    }
}

/// The name of a symbol, by linear search: the first table entry
/// carrying the id.
fn find_sym_name(store: &Vec<Symbol>, id: u32) -> (res: Option<&String>)
    ensures
        match res {
            Some(s) => syms_have(store@, id) && s@ == sym_name(store@, id),
            None => !syms_have(store@, id),
        },
{
    let ghost ss = store@;
    let mut i: usize = 0;
    proof {
        assert(ss.skip(0) =~= ss);
    }
    while i < store.len()
        invariant
            i <= ss.len(),
            ss == store@,
            forall|k: int| 0 <= k < i ==> ss[k].id != id,
            sym_name(ss, id) == sym_name(ss.skip(i as int), id),
        decreases ss.len() - i,
    {
        proof {
            assert(ss.skip(i as int)[0] == ss[i as int]);
            assert(ss.skip(i as int).drop_first() =~= ss.skip(i + 1));
        }
        if store[i].id == id {
            return Some(&store[i].name);
        }
        i = i + 1;
    }
    proof {
        if syms_have(ss, id) {
            let w = choose|w: int| 0 <= w < ss.len() && ss[w].id == id;
            assert(false);
        }
    }
    None
}

/// The diagnostic dump of the finalized symbols: one `name : type` line
/// per entry, in storage order, each type rendered with a fresh naming
/// table.
pub open spec fn env_dump(es: Seq<(u32, TypeV)>, store: Seq<Symbol>, ds: Seq<TypeDecl>) -> Seq<
    char,
>
    decreases es,
{
    if es.len() == 0 {
        Seq::empty()
    } else {
        env_dump(es.drop_last(), store, ds) + sym_name(store, es.last().0) + seq![' ', ':', ' ']
            + pretty_str(es.last().1, ds) + seq!['\n']
    }
}

impl Environment {
    /// Renders every finalized symbol as a `name : type` line, for
    /// diagnostic dumps of a finished run.
    pub fn as_str(&self, prog: &Prog) -> (res: String)
        requires
            forall|i: int| #![trigger self.complete_entries()[i]]
                0 <= i < self.complete_entries().len() ==> syms_have(
                    prog.symbol_table.store@,
                    self.complete_entries()[i].0,
                ) && term_decls_ok(self.complete_entries()[i].1, prog.type_table.types@),
        ensures
            res@ == env_dump(
                self.complete_entries(),
                prog.symbol_table.store@,
                prog.type_table.types@,
            ),
    {
        proof {
            reveal_strlit(" : ");
            reveal_strlit("\n");
        }
        let ghost es = self.complete_entries();
        let ghost ss = prog.symbol_table.store@;
        let ghost ds = prog.type_table.types@;
        let mut output = String::new();
        let mut i: usize = 0;
        proof {
            assert(es.take(0) =~= Seq::<(u32, TypeV)>::empty());
        }
        let n = self.complete_len();
        while i < n
            invariant
                i <= es.len(),
                n == es.len(),
                es == self.complete_entries(),
                ss == prog.symbol_table.store@,
                ds == prog.type_table.types@,
                forall|k: int| #![trigger es[k]]
                    0 <= k < es.len() ==> syms_have(ss, es[k].0) && term_decls_ok(es[k].1, ds),
                output@ == env_dump(es.take(i as int), ss, ds),
            decreases es.len() - i,
        {
            proof {
                reveal_strlit(" : ");
                reveal_strlit("\n");
                assert(es.take(i + 1).drop_last() =~= es.take(i as int));
                assert(es.take(i + 1).last() == es[i as int]);
            }
            let key = self.complete_key(i);
            let name: String = match find_sym_name(&prog.symbol_table.store, key) {
                Some(s) => s.clone(),
                None => vstd::pervasive::unreached(),
            };
            output.append(name.as_str());
            output.append(" : ");
            let ty = self.complete_type(i);
            let ty_str = ty.as_str(prog);
            output.append(ty_str.as_str());
            output.append("\n");
            proof {
                assert(output@ =~= env_dump(es.take(i + 1), ss, ds));
            }
            i = i + 1;
        }
        proof {
            assert(es.take(es.len() as int) =~= es);
        }
        output
    }
}

} // verus!
