//! The substitution store: bindings for type variables, the numeric marking
//! of type variables, and bindings for reference-mutability variables.
//!
//! The store is a pure map plus an allocation counter for each variable kind;
//! it performs no validation on insertion — occurs-checks and numeric
//! compatibility are the unifier's job.  Variables are small integers indexing
//! an arena, and chains of `Var -> Var` and `Forward -> Forward` links are
//! followed by lookup, never by shared mutable cells.
//!
//! Chain-following and unfolding are guarded by an explicit step budget, as a
//! bounded-recursion guard: a well-formed store has no cycles and never
//! reaches the budget, and a store corrupted into a cycle yields the poison
//! type instead of running forever.

use vstd::prelude::*;

use crate::ast::{
    cap_add, cap_add_exec, csize, csizes, lemma_csize_le_cap, lemma_view_types_push, type_csize,
    view_type, view_types, Loc, RefVar, SpecType, SpecType_, TVar, Type, Type_, SIZE_CAP,
};
use vstd::pervasive::VecAdditionalExecFns;

verus! {

/// What a reference-mutability variable resolved to.
#[derive(Clone, Copy, PartialEq, Eq, Structural, Debug)]
pub enum RefKind {
    /// Not a reference at all.
    Value,
    /// An immutable reference.
    ImmRef,
    /// A mutable reference.
    MutRef,
    /// Redirected to another reference variable.
    Forward(RefVar),
}

impl RefKind {
    /// The lattice join of two resolved kinds: a mutable reference may decay
    /// to an immutable one, but a reference never joins with a plain value.
    /// `Forward` kinds must be resolved away before joining; a join on one is
    /// an internal fault and yields `None`.
    pub open spec fn spec_join(self, other: RefKind) -> Option<RefKind> {
        match (self, other) {
            (RefKind::Forward(_), _) => None,
            (_, RefKind::Forward(_)) => None,
            (RefKind::Value, RefKind::Value) => Some(RefKind::Value),
            (RefKind::MutRef, RefKind::MutRef) => Some(RefKind::MutRef),
            (RefKind::MutRef, RefKind::ImmRef) => Some(RefKind::ImmRef),
            (RefKind::ImmRef, RefKind::ImmRef) => Some(RefKind::ImmRef),
            (RefKind::ImmRef, RefKind::MutRef) => Some(RefKind::ImmRef),
            _ => None,
        }
    }

    /// Executable form of [`Self::spec_join`].
    pub fn join(&self, other: &RefKind) -> (r: Option<RefKind>)
        ensures
            r == self.spec_join(*other),
    {
        match (self, other) {
            (RefKind::Forward(_), _) => None,
            (_, RefKind::Forward(_)) => None,
            (RefKind::Value, RefKind::Value) => Some(RefKind::Value),
            (RefKind::MutRef, RefKind::MutRef) => Some(RefKind::MutRef),
            (RefKind::MutRef, RefKind::ImmRef) => Some(RefKind::ImmRef),
            (RefKind::ImmRef, RefKind::ImmRef) => Some(RefKind::ImmRef),
            (RefKind::ImmRef, RefKind::MutRef) => Some(RefKind::ImmRef),
            _ => None,
        }
    }
}

/// One slot of the type-variable arena.
#[derive(Debug)]
pub struct VarEntry {
    pub binding: Option<Type>,
    pub num_loc: Option<Loc>,
}

/// The mathematical model of one arena slot.
#[verifier::ext_equal]
pub struct SpecVarEntry {
    pub binding: Option<SpecType>,
    pub num_loc: Option<Loc>,
}

/// The mathematical model of the store.
#[verifier::ext_equal]
pub struct SpecSubst {
    pub tvars: Seq<SpecVarEntry>,
    pub ref_vars: Seq<Option<RefKind>>,
}

pub open spec fn view_entry(e: VarEntry) -> SpecVarEntry {
    SpecVarEntry {
        binding: match e.binding {
            Some(t) => Some(view_type(t)),
            None => None,
        },
        num_loc: e.num_loc,
    }
}

pub open spec fn spec_empty_entry() -> SpecVarEntry {
    SpecVarEntry { binding: None, num_loc: None }
}

impl SpecSubst {
    /// The binding of a type variable, absent for never-written slots and for
    /// ids beyond the arena.
    pub open spec fn get(self, v: TVar) -> Option<SpecType> {
        if v < self.tvars.len() {
            self.tvars[v as int].binding
        } else {
            None
        }
    }

    /// Whether a type variable carries the numeric marking.
    pub open spec fn is_num(self, v: TVar) -> bool {
        v < self.tvars.len() && self.tvars[v as int].num_loc is Some
    }

    /// The position recorded with a numeric marking.
    pub open spec fn num_loc_of(self, v: TVar) -> Option<Loc> {
        if v < self.tvars.len() {
            self.tvars[v as int].num_loc
        } else {
            None
        }
    }

    /// The binding of a reference variable.
    pub open spec fn get_ref(self, rv: RefVar) -> Option<RefKind> {
        if rv < self.ref_vars.len() {
            self.ref_vars[rv as int]
        } else {
            None
        }
    }

    /// The arena grown with empty slots to at least `n` entries.
    pub open spec fn tvars_extended(self, n: nat) -> Seq<SpecVarEntry> {
        if n <= self.tvars.len() {
            self.tvars
        } else {
            self.tvars + Seq::new((n - self.tvars.len()) as nat, |i: int| spec_empty_entry())
        }
    }

    /// The store after binding `v` to `t`, keeping any numeric marking.
    pub open spec fn with_binding(self, v: TVar, t: SpecType) -> SpecSubst {
        let ext = self.tvars_extended(v as nat + 1);
        SpecSubst {
            tvars: ext.update(
                v as int,
                SpecVarEntry { binding: Some(t), num_loc: ext[v as int].num_loc },
            ),
            ref_vars: self.ref_vars,
        }
    }

    /// The store after marking `v` numeric at `loc`, keeping an earlier mark.
    pub open spec fn with_num_mark(self, v: TVar, loc: Loc) -> SpecSubst {
        let ext = self.tvars_extended(v as nat + 1);
        let cur = ext[v as int];
        SpecSubst {
            tvars: ext.update(
                v as int,
                SpecVarEntry {
                    binding: cur.binding,
                    num_loc: if cur.num_loc is Some {
                        cur.num_loc
                    } else {
                        Some(loc)
                    },
                },
            ),
            ref_vars: self.ref_vars,
        }
    }

    /// The store after binding reference variable `rv` to `k`.
    pub open spec fn with_ref(self, rv: RefVar, k: RefKind) -> SpecSubst {
        let ext = if rv + 1 <= self.ref_vars.len() {
            self.ref_vars
        } else {
            self.ref_vars + Seq::new((rv + 1 - self.ref_vars.len()) as nat, |i: int| None)
        };
        SpecSubst { tvars: self.tvars, ref_vars: ext.update(rv as int, Some(k)) }
    }

    /// The arena length after making room for a variable above both `a` and
    /// `b`: where the next fresh variable lands.
    pub open spec fn spec_fresh_above_len(self, a: TVar, b: TVar) -> nat {
        let m = if a >= b {
            a
        } else {
            b
        };
        if m + 1 >= self.tvars.len() {
            (m + 1) as nat
        } else {
            self.tvars.len()
        }
    }

    /// The store after allocating a fresh variable above both `a` and `b`.
    pub open spec fn with_fresh_tvar(self, a: TVar, b: TVar) -> SpecSubst {
        SpecSubst {
            tvars: self.tvars_extended(self.spec_fresh_above_len(a, b)).push(spec_empty_entry()),
            ref_vars: self.ref_vars,
        }
    }

    /// The arena length after making room for a reference variable above both
    /// `a` and `b`.
    pub open spec fn spec_fresh_ref_above_len(self, a: RefVar, b: RefVar) -> nat {
        let m = if a >= b {
            a
        } else {
            b
        };
        if m + 1 >= self.ref_vars.len() {
            (m + 1) as nat
        } else {
            self.ref_vars.len()
        }
    }

    /// The store after allocating a fresh reference variable above both `a`
    /// and `b`.
    pub open spec fn with_fresh_ref_var(self, a: RefVar, b: RefVar) -> SpecSubst {
        let n = self.spec_fresh_ref_above_len(a, b);
        let ext = if n <= self.ref_vars.len() {
            self.ref_vars
        } else {
            self.ref_vars + Seq::new((n - self.ref_vars.len()) as nat, |i: int| None)
        };
        SpecSubst { tvars: self.tvars, ref_vars: ext.push(None) }
    }

    /// The result of following `Var -> Var` links from `v` for at most `fuel`
    /// steps: the first variable whose slot is unbound or bound to a
    /// non-variable type.
    pub open spec fn forward_tvar(self, v: TVar, fuel: nat) -> TVar
        decreases fuel,
    {
        if fuel == 0 {
            v
        } else {
            match self.get(v) {
                Some(t) => match t.value {
                    SpecType_::Var(next) => self.forward_tvar(next, (fuel - 1) as nat),
                    _ => v,
                },
                None => v,
            }
        }
    }

    /// The result of following `Forward` links from `rv` for at most `fuel`
    /// steps.
    pub open spec fn forward_ref_var(self, rv: RefVar, fuel: nat) -> RefVar
        decreases fuel,
    {
        if fuel == 0 {
            rv
        } else {
            match self.get_ref(rv) {
                Some(RefKind::Forward(next)) => self.forward_ref_var(next, (fuel - 1) as nat),
                _ => rv,
            }
        }
    }

    /// The step budget that chain-following uses: the arena sizes.
    pub open spec fn tvar_fuel(self) -> nat {
        self.tvars.len()
    }

    pub open spec fn ref_fuel(self) -> nat {
        self.ref_vars.len()
    }
}

/// The store of variable bindings.
#[derive(Debug)]
pub struct Subst {
    tvars: Vec<VarEntry>,
    ref_vars: Vec<Option<RefKind>>,
}

impl View for Subst {
    type V = SpecSubst;

    closed spec fn view(&self) -> SpecSubst {
        SpecSubst {
            tvars: Seq::new(self.tvars@.len(), |i: int| view_entry(self.tvars@[i])),
            ref_vars: self.ref_vars@,
        }
    }
}

impl Subst {
    /// The store with no bindings and no variables.
    pub fn empty() -> (r: Subst)
        ensures
            r@.tvars =~= Seq::<SpecVarEntry>::empty(),
            r@.ref_vars =~= Seq::<Option<RefKind>>::empty(),
    {
        Subst { tvars: Vec::new(), ref_vars: Vec::new() }
    }

    /// Grows the type-variable arena with empty slots until slot `idx`
    /// exists.
    fn ensure_tvar_idx(&mut self, idx: usize)
        ensures
            final(self)@.tvars =~= old(self)@.tvars_extended(idx as nat + 1),
            final(self)@.ref_vars == old(self)@.ref_vars,
            final(self)@.tvars.len() > idx,
    {
        let ghost orig = self@;
        while self.tvars.len() <= idx
            invariant
                self@.tvars =~= orig.tvars_extended(self.tvars@.len()),
                self@.tvars.len() >= orig.tvars.len(),
                self@.tvars.len() == orig.tvars.len() || self@.tvars.len() <= idx as nat + 1,
                self@.ref_vars == orig.ref_vars,
            decreases idx + 1 - self.tvars.len(),
        {
            let ghost prev = self@;
            let ghost prev_vec = self.tvars@;
            self.tvars.push(VarEntry { binding: None, num_loc: None });
            proof {
                let ext = orig.tvars_extended(self.tvars@.len());
                assert(self@.tvars.len() == ext.len());
                assert forall|i: int| 0 <= i < self@.tvars.len() implies self@.tvars[i] == ext[i] by {
                    assert(self@.tvars[i] == view_entry(self.tvars@[i]));
                    if i < prev.tvars.len() {
                        assert(self.tvars@[i] == prev_vec[i]);
                        assert(prev.tvars[i] == view_entry(prev_vec[i]));
                        assert(prev.tvars[i] == orig.tvars_extended(prev.tvars.len())[i]);
                    }
                }
                assert(self@.tvars =~= ext);
            }
        }
        proof {
            if idx as nat + 1 <= orig.tvars.len() {
                assert(orig.tvars_extended(idx as nat + 1) =~= orig.tvars);
            } else {
                assert(self@.tvars.len() == orig.tvars_extended(idx as nat + 1).len());
                assert(self@.tvars =~= orig.tvars_extended(idx as nat + 1));
            }
            assert(self@.tvars =~= orig.tvars_extended(idx as nat + 1));
        }
    }

    /// Grows the reference-variable arena with empty slots until slot `idx`
    /// exists.
    fn ensure_ref_idx(&mut self, idx: usize)
        ensures
            final(self)@.tvars == old(self)@.tvars,
            final(self)@.ref_vars.len() > idx,
            final(self)@.ref_vars =~= (if idx as nat + 1 <= old(self)@.ref_vars.len() {
                old(self)@.ref_vars
            } else {
                old(self)@.ref_vars + Seq::new(
                    (idx + 1 - old(self)@.ref_vars.len()) as nat,
                    |i: int| None,
                )
            }),
    {
        let ghost orig = self@;
        while self.ref_vars.len() <= idx
            invariant
                self@.ref_vars =~= (if self.ref_vars@.len() <= orig.ref_vars.len() {
                    orig.ref_vars
                } else {
                    orig.ref_vars + Seq::new(
                        (self.ref_vars@.len() - orig.ref_vars.len()) as nat,
                        |i: int| None,
                    )
                }),
                self@.ref_vars.len() >= orig.ref_vars.len(),
                self@.ref_vars.len() == orig.ref_vars.len() || self@.ref_vars.len() <= idx as nat
                    + 1,
                self@.tvars == orig.tvars,
            decreases idx + 1 - self.ref_vars.len(),
        {
            self.ref_vars.push(None);
            proof {
                assert(self@.ref_vars =~= (if self.ref_vars@.len() <= orig.ref_vars.len() {
                    orig.ref_vars
                } else {
                    orig.ref_vars + Seq::new(
                        (self.ref_vars@.len() - orig.ref_vars.len()) as nat,
                        |i: int| None,
                    )
                }));
            }
        }
    }

    /// Allocates a fresh, unbound, unmarked type variable.
    pub fn new_var(&mut self) -> (v: TVar)
        ensures
            v == old(self)@.tvars.len(),
            final(self)@.tvars =~= old(self)@.tvars.push(spec_empty_entry()),
            final(self)@.ref_vars == old(self)@.ref_vars,
    {
        let v = self.tvars.len();
        self.tvars.push(VarEntry { binding: None, num_loc: None });
        v
    }

    /// Allocates a fresh type variable already marked numeric at `loc`.
    pub fn new_num_var(&mut self, loc: Loc) -> (v: TVar)
        ensures
            v == old(self)@.tvars.len(),
            final(self)@.tvars =~= old(self)@.tvars.push(
                SpecVarEntry { binding: None, num_loc: Some(loc) },
            ),
            final(self)@.ref_vars == old(self)@.ref_vars,
    {
        let v = self.tvars.len();
        self.tvars.push(VarEntry { binding: None, num_loc: Some(loc) });
        v
    }

    /// Allocates a fresh, unbound reference variable.
    pub fn new_ref_var(&mut self) -> (rv: RefVar)
        ensures
            rv == old(self)@.ref_vars.len(),
            final(self)@.ref_vars =~= old(self)@.ref_vars.push(None),
            final(self)@.tvars == old(self)@.tvars,
    {
        let rv = self.ref_vars.len();
        self.ref_vars.push(None);
        rv
    }

    /// A store with the same bindings and markings.
    pub fn duplicate(&self) -> (r: Subst)
        ensures
            r@ =~= self@,
    {
        let mut tvars: Vec<VarEntry> = Vec::new();
        let mut i: usize = 0;
        while i < self.tvars.len()
            invariant
                0 <= i <= self.tvars@.len(),
                tvars@.len() == i,
                forall|k: int|
                    0 <= k < i ==> view_entry(tvars@[k]) == view_entry(self.tvars@[k]),
            decreases self.tvars@.len() - i,
        {
            let b: Option<Type> = match &self.tvars[i].binding {
                Some(t) => Some(t.deep_clone()),
                None => None,
            };
            tvars.push(VarEntry { binding: b, num_loc: self.tvars[i].num_loc });
            i = i + 1;
        }
        let mut ref_vars: Vec<Option<RefKind>> = Vec::new();
        let mut j: usize = 0;
        while j < self.ref_vars.len()
            invariant
                0 <= j <= self.ref_vars@.len(),
                ref_vars@ == self.ref_vars@.subrange(0, j as int),
            decreases self.ref_vars@.len() - j,
        {
            ref_vars.push(self.ref_vars[j]);
            proof {
                assert(ref_vars@ =~= self.ref_vars@.subrange(0, j + 1));
            }
            j = j + 1;
        }
        proof {
            assert(self.ref_vars@.subrange(0, self.ref_vars@.len() as int) =~= self.ref_vars@);
        }
        let r = Subst { tvars, ref_vars };
        proof {
            assert(r@.tvars =~= self@.tvars);
            assert(r@.ref_vars =~= self@.ref_vars);
        }
        r
    }

    /// Allocates a fresh type variable guaranteed distinct from `a` and `b`,
    /// whatever arena they came from.
    pub fn new_var_above(&mut self, a: TVar, b: TVar) -> (v: TVar)
        ensures
            v == old(self)@.spec_fresh_above_len(a, b),
            final(self)@ =~= old(self)@.with_fresh_tvar(a, b),
            v != a && v != b,
            final(self)@.ref_vars == old(self)@.ref_vars,
    {
        let ghost orig = self@;
        let m = if a >= b {
            a
        } else {
            b
        };
        if m >= self.tvars.len() {
            self.ensure_tvar_idx(m);
        }
        let v = self.new_var();
        proof {
            assert(self@.tvars =~= orig.with_fresh_tvar(a, b).tvars);
            assert(self@ =~= orig.with_fresh_tvar(a, b));
        }
        v
    }

    /// Allocates a fresh reference variable guaranteed distinct from `a` and
    /// `b`.
    pub fn new_ref_var_above(&mut self, a: RefVar, b: RefVar) -> (v: RefVar)
        ensures
            v == old(self)@.spec_fresh_ref_above_len(a, b),
            final(self)@ =~= old(self)@.with_fresh_ref_var(a, b),
            v != a && v != b,
            final(self)@.tvars == old(self)@.tvars,
    {
        let ghost orig = self@;
        let m = if a >= b {
            a
        } else {
            b
        };
        if m >= self.ref_vars.len() {
            self.ensure_ref_idx(m);
        }
        let v = self.new_ref_var();
        proof {
            assert(self@.ref_vars =~= orig.with_fresh_ref_var(a, b).ref_vars);
            assert(self@ =~= orig.with_fresh_ref_var(a, b));
        }
        v
    }

    /// Binds `tvar` to `bt`, overwriting any earlier binding and keeping any
    /// numeric marking.  No validation happens here.
    pub fn insert(&mut self, tvar: TVar, bt: Type)
        ensures
            final(self)@ =~= old(self)@.with_binding(tvar, bt@),
            final(self)@.tvars =~= old(self)@.with_binding(tvar, bt@).tvars,
            final(self)@.ref_vars == old(self)@.ref_vars,
    {
        let ghost orig = self@;
        self.ensure_tvar_idx(tvar);
        let num_loc = self.tvars[tvar].num_loc;
        self.tvars.set(tvar, VarEntry { binding: Some(bt), num_loc });
        proof {
            assert(self@.tvars =~= orig.with_binding(tvar, bt@).tvars);
            assert(self@ =~= orig.with_binding(tvar, bt@));
        }
    }

    /// The binding of `tvar`, if any.
    pub fn get(&self, tvar: TVar) -> (r: Option<&Type>)
        ensures
            match r {
                Some(t) => self@.get(tvar) == Some(t@),
                None => self@.get(tvar) is None,
            },
    {
        if tvar < self.tvars.len() {
            match &self.tvars[tvar].binding {
                Some(t) => Some(t),
                None => None,
            }
        } else {
            None
        }
    }

    /// Whether `tvar` carries the numeric marking.
    pub fn is_num_var(&self, tvar: TVar) -> (r: bool)
        ensures
            r == self@.is_num(tvar),
    {
        tvar < self.tvars.len() && self.tvars[tvar].num_loc.is_some()
    }

    /// The position recorded with the numeric marking of `tvar`, if any.
    pub fn num_var_loc(&self, tvar: TVar) -> (r: Option<Loc>)
        ensures
            r == self@.num_loc_of(tvar),
    {
        if tvar < self.tvars.len() {
            self.tvars[tvar].num_loc
        } else {
            None
        }
    }

    /// How many type variables have been allocated or touched.
    pub fn num_tvars(&self) -> (r: usize)
        ensures
            r == self@.tvars.len(),
    {
        self.tvars.len()
    }

    /// How many reference variables have been allocated or touched.
    pub fn num_ref_vars(&self) -> (r: usize)
        ensures
            r == self@.ref_vars.len(),
    {
        self.ref_vars.len()
    }

    /// Binds reference variable `rvar` to `rk`, overwriting any earlier
    /// binding.
    pub fn insert_ref_var(&mut self, rvar: RefVar, rk: RefKind)
        ensures
            final(self)@ =~= old(self)@.with_ref(rvar, rk),
            final(self)@.tvars == old(self)@.tvars,
    {
        let ghost orig = self@;
        self.ensure_ref_idx(rvar);
        self.ref_vars.set(rvar, Some(rk));
        proof {
            assert(self@.ref_vars =~= orig.with_ref(rvar, rk).ref_vars);
            assert(self@ =~= orig.with_ref(rvar, rk));
        }
    }

    /// The binding of reference variable `rvar`, if any.
    pub fn get_ref_var(&self, rvar: RefVar) -> (r: Option<RefKind>)
        ensures
            r == self@.get_ref(rvar),
    {
        if rvar < self.ref_vars.len() {
            self.ref_vars[rvar]
        } else {
            None
        }
    }

    /// Follows `Var -> Var` links from `tvar` to the end of the chain, within
    /// the store's step budget.
    pub fn forward_tvar(&self, tvar: TVar) -> (r: TVar)
        ensures
            r == self@.forward_tvar(tvar, self@.tvar_fuel()),
    {
        let mut cur: TVar = tvar;
        let mut fuel: usize = self.tvars.len();
        loop
            invariant
                self@.forward_tvar(tvar, self@.tvar_fuel()) == self@.forward_tvar(
                    cur,
                    fuel as nat,
                ),
            decreases fuel,
        {
            if fuel == 0 {
                return cur;
            }
            let next_opt: Option<TVar> = match self.get(cur) {
                Some(t) => match &t.value {
                    Type_::Var(next) => Some(*next),
                    _ => None,
                },
                None => None,
            };
            match next_opt {
                Some(next) => {
                    cur = next;
                    fuel = fuel - 1;
                },
                None => {
                    return cur;
                },
            }
        }
    }

    /// Follows `Forward` links from `rvar` to the end of the chain, within
    /// the store's step budget.
    pub fn forward_ref_var(&self, rvar: RefVar) -> (r: RefVar)
        ensures
            r == self@.forward_ref_var(rvar, self@.ref_fuel()),
    {
        let mut cur: RefVar = rvar;
        let mut fuel: usize = self.ref_vars.len();
        loop
            invariant
                self@.forward_ref_var(rvar, self@.ref_fuel()) == self@.forward_ref_var(
                    cur,
                    fuel as nat,
                ),
            decreases fuel,
        {
            if fuel == 0 {
                return cur;
            }
            let next_opt: Option<RefVar> = match self.get_ref_var(cur) {
                Some(RefKind::Forward(next)) => Some(next),
                _ => None,
            };
            match next_opt {
                Some(next) => {
                    cur = next;
                    fuel = fuel - 1;
                },
                None => {
                    return cur;
                },
            }
        }
    }

    /// Marks `tvar` and every variable it forwards to as numeric at `loc`,
    /// keeping earlier marks, within the store's step budget.
    #[verifier::loop_isolation(false)]
    pub fn set_num_var(&mut self, tvar: TVar, loc: Loc)
        ensures
            final(self)@ =~= spec_set_num_var(old(self)@, tvar, loc, old(self)@.tvar_fuel()),
    {
        let ghost orig = self@;
        let ghost fuel0 = self@.tvar_fuel();
        let mut cur: TVar = tvar;
        let mut fuel: usize = self.tvars.len();
        loop
            invariant
                spec_set_num_var(orig, tvar, loc, fuel0) =~= spec_set_num_var(
                    self@,
                    cur,
                    loc,
                    fuel as nat,
                ),
            decreases fuel,
        {
            let ghost before = self@;
            self.mark_num(cur, loc);
            proof {
                assert(self@ == before.with_num_mark(cur, loc));
            }
            let next_opt: Option<TVar> = match self.get(cur) {
                Some(t) => match &t.value {
                    Type_::Var(next) => Some(*next),
                    _ => None,
                },
                None => None,
            };
            match next_opt {
                Some(next) => {
                    if fuel == 0 {
                        proof {
                            assert(spec_set_num_var(before, cur, loc, fuel as nat) =~= self@);
                            assert(self@ =~= spec_set_num_var(orig, tvar, loc, fuel0));
                            assert(orig == old(self)@);
                        }
                        return ;
                    }
                    proof {
                        assert(spec_set_num_var(before, cur, loc, fuel as nat) =~= spec_set_num_var(
                            self@,
                            next,
                            loc,
                            (fuel - 1) as nat,
                        ));
                    }
                    cur = next;
                    fuel = fuel - 1;
                },
                None => {
                    proof {
                        assert(spec_set_num_var(before, cur, loc, fuel as nat) =~= self@);
                        assert(self@ =~= spec_set_num_var(orig, tvar, loc, fuel0));
                        assert(orig == old(self)@);
                    }
                    return ;
                },
            }
        }
    }

    /// Marks one variable numeric at `loc` unless already marked.
    fn mark_num(&mut self, tvar: TVar, loc: Loc)
        ensures
            final(self)@ =~= old(self)@.with_num_mark(tvar, loc),
            final(self)@.tvars =~= old(self)@.with_num_mark(tvar, loc).tvars,
            final(self)@.ref_vars == old(self)@.ref_vars,
    {
        let ghost orig = self@;
        self.ensure_tvar_idx(tvar);
        let already = match &self.tvars[tvar].num_loc {
            Some(_) => true,
            None => false,
        };
        if !already {
            let b: Option<Type> = match &self.tvars[tvar].binding {
                Some(t) => Some(t.deep_clone()),
                None => None,
            };
            self.tvars.set(tvar, VarEntry { binding: b, num_loc: Some(loc) });
        }
        proof {
            assert(self@.tvars =~= orig.with_num_mark(tvar, loc).tvars);
            assert(self@ =~= orig.with_num_mark(tvar, loc));
        }
    }
}

/// The store after marking `v`, and transitively every variable that `v`'s
/// chain forwards to, numeric at `loc`.
pub open spec fn spec_set_num_var(s: SpecSubst, v: TVar, loc: Loc, fuel: nat) -> SpecSubst
    decreases fuel,
{
    let s1 = s.with_num_mark(v, loc);
    match s1.get(v) {
        Some(t) => match t.value {
            SpecType_::Var(next) => if fuel == 0 {
                s1
            } else {
                spec_set_num_var(s1, next, loc, (fuel - 1) as nat)
            },
            _ => s1,
        },
        None => s1,
    }
}


/// The poison type at a position.
pub open spec fn spec_poison(loc: Loc) -> SpecType {
    SpecType { loc, value: SpecType_::UnresolvedError }
}

/// Executable form of [`spec_poison`].
pub fn poison_type(loc: Loc) -> (r: Type)
    ensures
        r@ == spec_poison(loc),
{
    Type { loc, value: Type_::UnresolvedError }
}

/// One-level resolution of a type against the store: a variable becomes what
/// its chain is bound to (or the unconstrained type if unbound), an
/// unresolved reference becomes a reference or value around its resolved
/// inner type.  A store corrupted into a cycle or an unresolved
/// reference-variable slot yields the poison type.
pub open spec fn spec_unfold_type(s: SpecSubst, t: SpecType) -> SpecType
    decreases t,
{
    match t.value {
        SpecType_::Var(i) => {
            let last = s.forward_tvar(i, s.tvar_fuel());
            match s.get(last) {
                None => SpecType { loc: t.loc, value: SpecType_::Anything },
                Some(inner) => if inner.value is Var {
                    spec_poison(t.loc)
                } else {
                    inner
                },
            }
        },
        SpecType_::AutoRef(id, inner) => {
            let x = s.forward_ref_var(id, s.ref_fuel());
            let it = spec_unfold_type(s, *inner);
            match s.get_ref(x) {
                Some(RefKind::Value) => it,
                Some(RefKind::ImmRef) => SpecType {
                    loc: t.loc,
                    value: SpecType_::Ref(false, Box::new(it)),
                },
                Some(RefKind::MutRef) => SpecType {
                    loc: t.loc,
                    value: SpecType_::Ref(true, Box::new(it)),
                },
                _ => spec_poison(t.loc),
            }
        },
        _ => t,
    }
}

/// Executable form of [`spec_unfold_type`].
pub fn unfold_type(s: &Subst, t: &Type) -> (r: Type)
    ensures
        r@ == spec_unfold_type(s@, t@),
    decreases *t,
{
    match &t.value {
        Type_::Var(i) => {
            let last = s.forward_tvar(*i);
            match s.get(last) {
                None => Type { loc: t.loc, value: Type_::Anything },
                Some(inner) => match &inner.value {
                    Type_::Var(_) => poison_type(t.loc),
                    _ => inner.deep_clone(),
                },
            }
        },
        Type_::AutoRef(id, inner) => {
            let x = s.forward_ref_var(*id);
            let it = unfold_type(s, inner);
            match s.get_ref_var(x) {
                Some(RefKind::Value) => it,
                Some(RefKind::ImmRef) => Type { loc: t.loc, value: Type_::Ref(false, Box::new(it)) },
                Some(RefKind::MutRef) => Type { loc: t.loc, value: Type_::Ref(true, Box::new(it)) },
                _ => poison_type(t.loc),
            }
        },
        _ => t.deep_clone(),
    }
}

/// Unfolding does not change a ready type: a term without variables and
/// without unresolved references is returned as it stands, whatever the
/// store holds.
pub proof fn lemma_unfold_ready_identity(s: SpecSubst, t: SpecType)
    requires
        t.is_ready(),
    ensures
        spec_unfold_type(s, t) == t,
{
}

/// The position closest to the actual source of a type: for a variable, the
/// position of what its chain is bound to; otherwise its own position.
pub open spec fn spec_best_loc(s: SpecSubst, t: SpecType) -> Loc {
    match t.value {
        SpecType_::Var(i) => {
            let last = s.forward_tvar(i, s.tvar_fuel());
            match s.get(last) {
                None => t.loc,
                Some(inner) => inner.loc,
            }
        },
        _ => t.loc,
    }
}

/// Executable form of [`spec_best_loc`].
pub fn best_loc(s: &Subst, t: &Type) -> (r: Loc)
    ensures
        r == spec_best_loc(s@, t@),
{
    match &t.value {
        Type_::Var(i) => {
            let last = s.forward_tvar(*i);
            match s.get(last) {
                None => t.loc,
                Some(inner) => inner.loc,
            }
        },
        _ => t.loc,
    }
}

/// The resolved kind of a reference variable, following forwarding.
pub fn unfold_ref_var(s: &Subst, id: RefVar) -> (r: Option<RefKind>)
    ensures
        r == s@.get_ref(s@.forward_ref_var(id, s@.ref_fuel())),
{
    let rv = s.forward_ref_var(id);
    s.get_ref_var(rv)
}

/// The clamped size of one arena slot: one for the slot plus its binding.
pub open spec fn entry_csize(e: SpecVarEntry) -> u64 {
    match e.binding {
        Some(t) => cap_add(1, csize(t)),
        None => 1,
    }
}

/// The clamped total size of the arena.
pub open spec fn entries_csize(es: Seq<SpecVarEntry>) -> u64
    decreases es,
{
    if es.len() == 0 {
        0
    } else {
        cap_add(entry_csize(es[0]), entries_csize(es.drop_first()))
    }
}

/// Arena sizes never exceed the cap.
pub proof fn lemma_entries_csize_le_cap(es: Seq<SpecVarEntry>)
    ensures
        entries_csize(es) <= SIZE_CAP,
    decreases es,
{
    if es.len() != 0 {
        lemma_entries_csize_le_cap(es.drop_first());
    }
}

/// Appending one slot adds its clamped size at the end.
pub proof fn lemma_entries_csize_push(es: Seq<SpecVarEntry>, e: SpecVarEntry)
    ensures
        entries_csize(es.push(e)) == cap_add(entries_csize(es), entry_csize(e)),
    decreases es,
{
    if es.len() == 0 {
        assert(es.push(e)[0] == e);
        assert(es.push(e).drop_first() =~= Seq::<SpecVarEntry>::empty());
        assert(entries_csize(es.push(e)) == cap_add(entry_csize(e), entries_csize(es.push(e).drop_first())));
        assert(entries_csize(es.push(e).drop_first()) == 0);
        assert(entries_csize(es) == 0);
    } else {
        lemma_entries_csize_push(es.drop_first(), e);
        assert(es.push(e)[0] == es[0]);
        assert(es.push(e).drop_first() =~= es.drop_first().push(e));
        lemma_entries_csize_le_cap(es.drop_first());
        assert(entries_csize(es.push(e)) == cap_add(
            entry_csize(es[0]),
            entries_csize(es.drop_first().push(e)),
        ));
        assert(entries_csize(es) == cap_add(entry_csize(es[0]), entries_csize(es.drop_first())));
    }
}

/// A length clamped at [`SIZE_CAP`].
pub open spec fn cap_len(n: nat) -> u64 {
    if n >= SIZE_CAP {
        SIZE_CAP
    } else {
        n as u64
    }
}

/// The step budget for operations that repeatedly substitute bindings into a
/// type: generously larger than any acyclic store can demand, saturating far
/// below overflow.  A budget that runs out is reported through the poison
/// type or a recursive-type error.
pub open spec fn spec_expansion_budget(s: SpecSubst, t: SpecType) -> u64 {
    let base = cap_add(
        entries_csize(s.tvars),
        cap_add(cap_len(s.ref_vars.len()), cap_add(csize(t), 64)),
    );
    (base * base) as u64
}

impl Subst {
    /// Executable form of [`spec_expansion_budget`].
    pub fn expansion_budget(&self, t: &Type) -> (r: u64)
        ensures
            r == spec_expansion_budget(self@, t@),
            r <= 0x100000000000000,
    {
        let ghost sv = self@;
        let mut acc: u64 = 0;
        let mut i: usize = 0;
        proof {
            assert(sv.tvars.subrange(0, 0) =~= Seq::<SpecVarEntry>::empty());
        }
        while i < self.tvars.len()
            invariant
                0 <= i <= self.tvars@.len(),
                sv == self@,
                sv.tvars.len() == self.tvars@.len(),
                acc == entries_csize(sv.tvars.subrange(0, i as int)),
                acc <= SIZE_CAP,
            decreases self.tvars@.len() - i,
        {
            let e_size: u64 = match &self.tvars[i].binding {
                Some(t) => {
                    proof {
                        lemma_csize_le_cap(view_type(*t));
                    }
                    cap_add_exec(1, type_csize(t))
                },
                None => 1,
            };
            proof {
                assert(sv.tvars[i as int] == view_entry(self.tvars@[i as int]));
                assert(e_size == entry_csize(sv.tvars[i as int]));
                lemma_entries_csize_push(sv.tvars.subrange(0, i as int), sv.tvars[i as int]);
                assert(sv.tvars.subrange(0, i as int).push(sv.tvars[i as int]) =~= sv.tvars
                    .subrange(0, i + 1));
            }
            acc = cap_add_exec(acc, e_size);
            i = i + 1;
        }
        proof {
            assert(sv.tvars.subrange(0, sv.tvars.len() as int) =~= sv.tvars);
        }
        let refs: u64 = if self.ref_vars.len() as u64 >= SIZE_CAP {
            SIZE_CAP
        } else {
            self.ref_vars.len() as u64
        };
        let ts = type_csize(t);
        proof {
            lemma_csize_le_cap(t@);
        }
        let base = cap_add_exec(acc, cap_add_exec(refs, cap_add_exec(ts, 64)));
        proof {
            assert(base <= SIZE_CAP);
            assert((base as int) * (base as int) <= (SIZE_CAP as int) * (SIZE_CAP as int))
                by (nonlinear_arith)
                requires base <= SIZE_CAP;
        }
        base * base
    }
}

/// Full resolution of a type against the store, within a step budget: every
/// variable is replaced by its binding's resolution (an unbound variable
/// stays the final variable of its chain), and every resolved
/// reference-variable is realized.  An exhausted budget yields the poison
/// type.
pub open spec fn spec_ready_tvars(s: SpecSubst, t: SpecType, fuel: nat) -> SpecType
    decreases fuel, t,
{
    if fuel == 0 {
        spec_poison(t.loc)
    } else {
        match t.value {
            SpecType_::Ref(m, inner) => SpecType {
                loc: t.loc,
                value: SpecType_::Ref(m, Box::new(spec_ready_tvars(s, *inner, fuel))),
            },
            SpecType_::Apply(k, n, tys) => SpecType {
                loc: t.loc,
                value: SpecType_::Apply(k, n, spec_ready_tvars_seq(s, tys, fuel)),
            },
            SpecType_::Fun(args, ret) => SpecType {
                loc: t.loc,
                value: SpecType_::Fun(
                    spec_ready_tvars_seq(s, args, fuel),
                    Box::new(spec_ready_tvars(s, *ret, fuel)),
                ),
            },
            SpecType_::Var(i) => {
                let last = s.forward_tvar(i, s.tvar_fuel());
                match s.get(last) {
                    None => SpecType { loc: t.loc, value: SpecType_::Var(last) },
                    Some(b) => if b.value is Var {
                        spec_poison(t.loc)
                    } else {
                        spec_ready_tvars(s, b, (fuel - 1) as nat)
                    },
                }
            },
            SpecType_::AutoRef(id, inner) => {
                let x = s.forward_ref_var(id, s.ref_fuel());
                let it = spec_ready_tvars(s, *inner, fuel);
                match s.get_ref(x) {
                    None => SpecType { loc: t.loc, value: SpecType_::AutoRef(x, Box::new(it)) },
                    Some(RefKind::Value) => it,
                    Some(RefKind::ImmRef) => SpecType {
                        loc: t.loc,
                        value: SpecType_::Ref(false, Box::new(it)),
                    },
                    Some(RefKind::MutRef) => SpecType {
                        loc: t.loc,
                        value: SpecType_::Ref(true, Box::new(it)),
                    },
                    Some(RefKind::Forward(_)) => spec_poison(t.loc),
                }
            },
            _ => t,
        }
    }
}

/// [`spec_ready_tvars`] over each element of a sequence.
pub open spec fn spec_ready_tvars_seq(s: SpecSubst, ts: Seq<SpecType>, fuel: nat) -> Seq<SpecType>
    decreases fuel, ts,
{
    if ts.len() == 0 {
        Seq::<SpecType>::empty()
    } else {
        seq![spec_ready_tvars(s, ts[0], fuel)] + spec_ready_tvars_seq(s, ts.drop_first(), fuel)
    }
}

/// Indexing form of [`spec_ready_tvars_seq`].
pub proof fn lemma_ready_tvars_seq_index(s: SpecSubst, ts: Seq<SpecType>, fuel: nat)
    ensures
        spec_ready_tvars_seq(s, ts, fuel).len() == ts.len(),
        forall|i: int|
            0 <= i < ts.len() ==> spec_ready_tvars_seq(s, ts, fuel)[i] == spec_ready_tvars(
                s,
                ts[i],
                fuel,
            ),
    decreases ts,
{
    if ts.len() > 0 {
        lemma_ready_tvars_seq_index(s, ts.drop_first(), fuel);
        assert forall|i: int| 0 <= i < ts.len() implies spec_ready_tvars_seq(s, ts, fuel)[i]
            == spec_ready_tvars(s, ts[i], fuel) by {
            if i > 0 {
                assert(ts.drop_first()[i - 1] == ts[i]);
            }
        }
    }
}

/// Push form of [`spec_ready_tvars_seq`].
pub proof fn lemma_ready_tvars_seq_push(s: SpecSubst, ts: Seq<SpecType>, x: SpecType, fuel: nat)
    ensures
        spec_ready_tvars_seq(s, ts.push(x), fuel) == spec_ready_tvars_seq(s, ts, fuel).push(
            spec_ready_tvars(s, x, fuel),
        ),
    decreases ts,
{
    if ts.len() == 0 {
        assert(ts.push(x)[0] == x);
        assert(ts.push(x).drop_first() =~= Seq::<SpecType>::empty());
        assert(spec_ready_tvars_seq(s, ts.push(x), fuel) == seq![spec_ready_tvars(s, x, fuel)]
            + spec_ready_tvars_seq(s, ts.push(x).drop_first(), fuel));
        assert(spec_ready_tvars_seq(s, ts.push(x).drop_first(), fuel) =~= Seq::<SpecType>::empty());
        assert(spec_ready_tvars_seq(s, ts, fuel) =~= Seq::<SpecType>::empty());
        assert(seq![spec_ready_tvars(s, x, fuel)] + Seq::<SpecType>::empty()
            =~= Seq::<SpecType>::empty().push(spec_ready_tvars(s, x, fuel)));
    } else {
        lemma_ready_tvars_seq_push(s, ts.drop_first(), x, fuel);
        assert(ts.push(x)[0] == ts[0]);
        assert(ts.push(x).drop_first() =~= ts.drop_first().push(x));
        assert(spec_ready_tvars_seq(s, ts.push(x), fuel) == seq![spec_ready_tvars(s, ts[0], fuel)]
            + spec_ready_tvars_seq(s, ts.drop_first().push(x), fuel));
        assert(spec_ready_tvars_seq(s, ts, fuel) == seq![spec_ready_tvars(s, ts[0], fuel)]
            + spec_ready_tvars_seq(s, ts.drop_first(), fuel));
        assert(seq![spec_ready_tvars(s, ts[0], fuel)] + spec_ready_tvars_seq(s, ts.drop_first(), fuel).push(
            spec_ready_tvars(s, x, fuel),
        ) =~= (seq![spec_ready_tvars(s, ts[0], fuel)] + spec_ready_tvars_seq(
            s,
            ts.drop_first(),
            fuel,
        )).push(spec_ready_tvars(s, x, fuel)));
    }
}

/// Executable form of [`spec_ready_tvars`], with an explicit budget.
fn ready_tvars_impl(s: &Subst, t: &Type, fuel: u64) -> (r: Type)
    ensures
        r@ == spec_ready_tvars(s@, t@, fuel as nat),
    decreases fuel, *t,
{
    if fuel == 0 {
        return poison_type(t.loc);
    }
    match &t.value {
        Type_::Ref(m, inner) => Type {
            loc: t.loc,
            value: Type_::Ref(*m, Box::new(ready_tvars_impl(s, inner, fuel))),
        },
        Type_::Apply(k, n, tys) => {
            let rs = ready_tvars_seq_impl(s, tys, fuel);
            Type { loc: t.loc, value: Type_::Apply(*k, *n, rs) }
        },
        Type_::Fun(args, ret) => {
            let rs = ready_tvars_seq_impl(s, args, fuel);
            let rr = ready_tvars_impl(s, ret, fuel);
            Type { loc: t.loc, value: Type_::Fun(rs, Box::new(rr)) }
        },
        Type_::Var(i) => {
            let last = s.forward_tvar(*i);
            match s.get(last) {
                None => Type { loc: t.loc, value: Type_::Var(last) },
                Some(b) => match &b.value {
                    Type_::Var(_) => poison_type(t.loc),
                    _ => {
                        let b2 = b.deep_clone();
                        ready_tvars_impl(s, &b2, fuel - 1)
                    },
                },
            }
        },
        Type_::AutoRef(id, inner) => {
            let x = s.forward_ref_var(*id);
            let it = ready_tvars_impl(s, inner, fuel);
            match s.get_ref_var(x) {
                None => Type { loc: t.loc, value: Type_::AutoRef(x, Box::new(it)) },
                Some(RefKind::Value) => it,
                Some(RefKind::ImmRef) => Type { loc: t.loc, value: Type_::Ref(false, Box::new(it)) },
                Some(RefKind::MutRef) => Type { loc: t.loc, value: Type_::Ref(true, Box::new(it)) },
                Some(RefKind::Forward(_)) => poison_type(t.loc),
            }
        },
        _ => t.deep_clone(),
    }
}

/// [`ready_tvars_impl`] over each element of a list.
fn ready_tvars_seq_impl(s: &Subst, ts: &Vec<Type>, fuel: u64) -> (r: Vec<Type>)
    requires
        fuel >= 1,
    ensures
        view_types(r@) == spec_ready_tvars_seq(s@, view_types(ts@), fuel as nat),
    decreases fuel, ts@,
{
    let mut out: Vec<Type> = Vec::new();
    let mut i: usize = 0;
    proof {
        assert(ts@.subrange(0, 0) =~= Seq::<Type>::empty());
        assert(view_types(out@) =~= Seq::<SpecType>::empty());
        assert(view_types(ts@.subrange(0, 0)) =~= Seq::<SpecType>::empty());
        assert(spec_ready_tvars_seq(s@, view_types(ts@.subrange(0, 0)), fuel as nat)
            =~= Seq::<SpecType>::empty());
    }
    while i < ts.len()
        invariant
            0 <= i <= ts.len(),
            fuel >= 1,
            view_types(out@) == spec_ready_tvars_seq(
                s@,
                view_types(ts@.subrange(0, i as int)),
                fuel as nat,
            ),
        decreases ts.len() - i,
    {
        let c = ready_tvars_impl(s, &ts[i], fuel);
        proof {
            lemma_view_types_push(out@, c);
            lemma_view_types_push(ts@.subrange(0, i as int), ts@[i as int]);
            assert(ts@.subrange(0, i as int).push(ts@[i as int]) =~= ts@.subrange(0, i + 1));
            lemma_ready_tvars_seq_push(
                s@,
                view_types(ts@.subrange(0, i as int)),
                ts@[i as int]@,
                fuel as nat,
            );
        }
        out.push(c);
        i = i + 1;
    }
    proof {
        assert(ts@.subrange(0, ts@.len() as int) =~= ts@);
    }
    out
}

/// Full resolution of a type against the store: every bound variable is
/// replaced by what it resolves to, unbound variables are normalized to the
/// final variable of their chain, and resolved reference-variables are
/// realized as references or values.
pub fn ready_tvars(s: &Subst, t: &Type) -> (r: Type)
    ensures
        r@ == spec_ready_tvars(s@, t@, spec_expansion_budget(s@, t@) as nat),
{
    let fuel = s.expansion_budget(t);
    ready_tvars_impl(s, t, fuel)
}


} // verus!
