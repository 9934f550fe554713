//! The unification engine: one recursive algorithm computes the symmetric
//! join of two types or checks an asymmetric subtype relation between them,
//! under a shared substitution store.
//!
//! Structural errors are returned as values, never raised; callers turn them
//! into located diagnostics.  Recursion is guarded by a step budget far above
//! what any acyclic store can demand (see
//! [`crate::subst::spec_expansion_budget`]); an exhausted budget is reported
//! as a recursive-type error, the same class the occurs-check reports.

use vstd::prelude::*;

use crate::ast::{view_type, view_types, Loc, RefVar, SpecType, SpecType_, TVar, Type, TypeName_, Type_};
use crate::subst::{spec_poison, spec_set_num_var, RefKind, SpecSubst, Subst};

verus! {

/// Which relation is being computed.
#[derive(Clone, Copy, PartialEq, Eq, Structural, Debug)]
pub enum TypingCase {
    /// The symmetric most-general common type.
    Join,
    /// The asymmetric check that the left side can be used where the right
    /// side is expected.
    Subtype,
}

/// A structural unification failure, carrying the offending operands.
#[derive(Debug)]
pub enum TypingError {
    /// In subtype mode, the left side cannot be used as the right side.
    SubtypeError(Box<Type>, Box<Type>),
    /// The two types cannot be unified at all.
    Incompatible(Box<Type>, Box<Type>),
    /// Two expression-list pseudo-types of different arity.
    ArityMismatch(usize, Box<Type>, usize, Box<Type>),
    /// Two function types with different argument counts.
    FunArityMismatch(usize, Box<Type>, usize, Box<Type>),
    /// Binding a variable would make it contain itself, or the step budget
    /// ran out.
    RecursiveType(Loc),
}

/// The mathematical model of a unification failure.
pub enum SpecTypingError {
    SubtypeError(SpecType, SpecType),
    Incompatible(SpecType, SpecType),
    ArityMismatch(nat, SpecType, nat, SpecType),
    FunArityMismatch(nat, SpecType, nat, SpecType),
    RecursiveType(Loc),
}

impl View for TypingError {
    type V = SpecTypingError;

    open spec fn view(&self) -> SpecTypingError {
        match *self {
            TypingError::SubtypeError(a, b) => SpecTypingError::SubtypeError(
                view_type(*a),
                view_type(*b),
            ),
            TypingError::Incompatible(a, b) => SpecTypingError::Incompatible(
                view_type(*a),
                view_type(*b),
            ),
            TypingError::ArityMismatch(n1, a, n2, b) => SpecTypingError::ArityMismatch(
                n1 as nat,
                view_type(*a),
                n2 as nat,
                view_type(*b),
            ),
            TypingError::FunArityMismatch(n1, a, n2, b) => SpecTypingError::FunArityMismatch(
                n1 as nat,
                view_type(*a),
                n2 as nat,
                view_type(*b),
            ),
            TypingError::RecursiveType(loc) => SpecTypingError::RecursiveType(loc),
        }
    }
}

/// Whether an executable unification outcome is what the model prescribes.
pub open spec fn join_result_matches(
    r: Result<(Subst, Type), TypingError>,
    sr: Result<(SpecSubst, SpecType), SpecTypingError>,
) -> bool {
    match r {
        Ok((s2, t)) => sr matches Ok(p) && p.0 == s2@ && p.1 == t@,
        Err(e) => sr matches Err(se) && se == e@,
    }
}

/// An unresolved reference realized at a known kind: the value itself, or a
/// reference around it.  Realizing a forwarding kind is an internal fault and
/// yields the poison type.
pub open spec fn spec_realize_autoref(loc: Loc, k: RefKind, ty: SpecType) -> SpecType {
    match k {
        RefKind::Value => ty,
        RefKind::ImmRef => SpecType { loc, value: SpecType_::Ref(false, Box::new(ty)) },
        RefKind::MutRef => SpecType { loc, value: SpecType_::Ref(true, Box::new(ty)) },
        RefKind::Forward(_) => spec_poison(loc),
    }
}

/// Executable form of [`spec_realize_autoref`].
fn realize_autoref(loc: Loc, k: &RefKind, ty: Type) -> (r: Type)
    ensures
        r@ == spec_realize_autoref(loc, *k, ty@),
{
    match k {
        RefKind::Value => ty,
        RefKind::ImmRef => Type { loc, value: Type_::Ref(false, Box::new(ty)) },
        RefKind::MutRef => Type { loc, value: Type_::Ref(true, Box::new(ty)) },
        RefKind::Forward(_) => Type { loc, value: Type_::UnresolvedError },
    }
}

/// Whether `ty` can be the binding of a numeric variable: it must resolve,
/// transitively through variables, to a numeric builtin, or still be
/// unconstrained.
pub open spec fn spec_check_num(s: SpecSubst, ty: SpecType, fuel: nat) -> bool
    decreases fuel,
{
    match ty.value {
        SpecType_::UnresolvedError | SpecType_::Anything => true,
        SpecType_::Apply(_, n, _) => match n.value {
            TypeName_::Builtin(b) => b.value.spec_is_numeric(),
            _ => false,
        },
        SpecType_::Var(v) => {
            let last = s.forward_tvar(v, s.tvar_fuel());
            match s.get(last) {
                None => s.is_num(last),
                Some(t) => if fuel == 0 {
                    false
                } else {
                    spec_check_num(s, t, (fuel - 1) as nat)
                },
            }
        },
        _ => false,
    }
}

/// Executable form of [`spec_check_num`].
fn check_num_ty(s: &Subst, ty: &Type, fuel: u64) -> (r: bool)
    ensures
        r == spec_check_num(s@, ty@, fuel as nat),
    decreases fuel,
{
    match &ty.value {
        Type_::UnresolvedError | Type_::Anything => true,
        Type_::Apply(_, n, _) => match &n.value {
            TypeName_::Builtin(b) => b.value.is_numeric(),
            _ => false,
        },
        Type_::Var(v) => {
            let last = s.forward_tvar(*v);
            match s.get(last) {
                None => s.is_num_var(last),
                Some(t) => if fuel == 0 {
                    false
                } else {
                    check_num_ty(s, t, fuel - 1)
                },
            }
        },
        _ => false,
    }
}

/// Whether binding `tvar` (assumed unbound) to `ty` is allowed, and the store
/// after doing so.  `Ok((_, false))` reports a numeric-incompatibility;
/// a variable occurring in its own proposed binding is a recursive-type
/// error; binding to the unconstrained type records nothing.
pub open spec fn spec_join_bind_tvar(s: SpecSubst, loc: Loc, tvar: TVar, ty: SpecType) -> Result<
    (SpecSubst, bool),
    SpecTypingError,
> {
    let num_ok = !s.is_num(tvar) || spec_check_num(s, ty, s.tvar_fuel());
    if !num_ok {
        Ok((s, false))
    } else if ty.uses_tvar(tvar) {
        Err(SpecTypingError::RecursiveType(loc))
    } else {
        let s2 = if ty.value is Anything {
            s
        } else {
            s.with_binding(tvar, ty)
        };
        Ok((s2, true))
    }
}

/// Executable form of [`spec_join_bind_tvar`]; takes ownership of the store
/// and hands it back.
fn join_bind_tvar(subst: Subst, loc: Loc, tvar: TVar, ty: Type) -> (r: Result<
    (Subst, bool),
    TypingError,
>)
    ensures
        match r {
            Ok((s2, ok)) => spec_join_bind_tvar(subst@, loc, tvar, ty@) matches Ok(p) && p.0 == s2@
                && p.1 == ok,
            Err(e) => spec_join_bind_tvar(subst@, loc, tvar, ty@) matches Err(se) && se == e@,
        },
{
    let mut subst = subst;
    let num_ok = if subst.is_num_var(tvar) {
        let fuel = subst.num_tvars() as u64;
        check_num_ty(&subst, &ty, fuel)
    } else {
        true
    };
    if !num_ok {
        return Ok((subst, false));
    }
    if type_uses_tvar(&ty, tvar) {
        return Err(TypingError::RecursiveType(loc));
    }
    let is_anything = matches!(&ty.value, Type_::Anything);
    if !is_anything {
        subst.insert(tvar, ty);
    }
    Ok((subst, true))
}

/// Whether the variable `v` occurs anywhere inside the type term.
pub fn type_uses_tvar(t: &Type, v: TVar) -> (r: bool)
    ensures
        r == t@.uses_tvar(v),
    decreases *t,
{
    match &t.value {
        Type_::Var(w) => *w == v,
        Type_::Ref(_, inner) => type_uses_tvar(inner, v),
        Type_::AutoRef(_, inner) => type_uses_tvar(inner, v),
        Type_::Apply(_, _, args) => types_use_tvar(args, v),
        Type_::Fun(args, ret) => types_use_tvar(args, v) || type_uses_tvar(ret, v),
        _ => false,
    }
}

/// Whether the variable `v` occurs anywhere in the list.
fn types_use_tvar(ts: &Vec<Type>, v: TVar) -> (r: bool)
    ensures
        r == crate::ast::spec_types_use_tvar(view_types(ts@), v),
    decreases ts@,
{
    let mut i: usize = 0;
    let ghost whole = view_types(ts@);
    proof {
        crate::ast::lemma_view_types_index(ts@);
        assert(whole.skip(0) =~= whole);
    }
    while i < ts.len()
        invariant
            0 <= i <= ts.len(),
            whole == view_types(ts@),
            whole.len() == ts@.len(),
            forall|j: int| 0 <= j < ts@.len() ==> whole[j] == view_type(ts@[j]),
            crate::ast::spec_types_use_tvar(whole, v) == crate::ast::spec_types_use_tvar(
                whole.skip(i as int),
                v,
            ),
        decreases ts.len() - i,
    {
        proof {
            assert(whole.skip(i as int)[0] == whole[i as int]);
            assert(whole.skip(i as int).drop_first() =~= whole.skip(i + 1));
        }
        if type_uses_tvar(&ts[i], v) {
            return true;
        }
        i = i + 1;
    }
    proof {
        assert(whole.skip(ts@.len() as int) =~= Seq::<SpecType>::empty());
    }
    false
}


/// The join of two type lists, pointwise, threading the store; stops at the
/// shorter list (a length mismatch is diagnosed where the lists were
/// instantiated).
pub open spec fn spec_join_types(
    s: SpecSubst,
    case: TypingCase,
    ts1: Seq<SpecType>,
    ts2: Seq<SpecType>,
    fuel: nat,
) -> Result<(SpecSubst, Seq<SpecType>), SpecTypingError>
    decreases fuel, ts1.len() + 1,
{
    if ts1.len() == 0 || ts2.len() == 0 {
        Ok((s, Seq::<SpecType>::empty()))
    } else {
        match spec_join(s, case, ts1[0], ts2[0], fuel) {
            Ok((s1, t)) => match spec_join_types(s1, case, ts1.drop_first(), ts2.drop_first(), fuel) {
                Ok((s2, ts)) => Ok((s2, seq![t] + ts)),
                Err(e) => Err(e),
            },
            Err(e) => Err(e),
        }
    }
}

/// The join of two distinct variables: both chains are redirected to a fresh
/// variable, numeric markings are carried over to it, their old bindings are
/// joined, and the fresh variable is bound to the result.  A fresh variable
/// that came back bound is a circular join, a recursive-type error.
pub open spec fn spec_join_tvar(
    s: SpecSubst,
    case: TypingCase,
    loc1: Loc,
    id1: TVar,
    loc2: Loc,
    id2: TVar,
    fuel: nat,
) -> Result<(SpecSubst, SpecType), SpecTypingError>
    decreases fuel, 1nat,
{
    let last1 = s.forward_tvar(id1, s.tvar_fuel());
    let last2 = s.forward_tvar(id2, s.tvar_fuel());
    let ty1 = match s.get(last1) {
        None => SpecType { loc: loc1, value: SpecType_::Anything },
        Some(t) => t,
    };
    let ty2 = match s.get(last2) {
        None => SpecType { loc: loc2, value: SpecType_::Anything },
        Some(t) => t,
    };
    let n1 = s.num_loc_of(last1);
    let n2 = s.num_loc_of(last2);
    let new_tvar = s.spec_fresh_above_len(last1, last2) as usize;
    let s1 = s.with_fresh_tvar(last1, last2);
    let s2 = match (n1, n2) {
        (_, Some(nloc)) | (Some(nloc), _) => spec_set_num_var(s1, new_tvar, nloc, s1.tvars.len()),
        _ => s1,
    };
    let s3 = s2.with_binding(last1, SpecType { loc: loc1, value: SpecType_::Var(new_tvar) });
    let s4 = s3.with_binding(last2, SpecType { loc: loc2, value: SpecType_::Var(new_tvar) });
    match spec_join(s4, case, ty1, ty2, fuel) {
        Err(e) => Err(e),
        Ok((s5, new_ty)) => match s5.get(new_tvar) {
            Some(t) => Err(SpecTypingError::RecursiveType(t.loc)),
            None => match spec_join_bind_tvar(s5, loc2, new_tvar, new_ty) {
                Err(e) => Err(e),
                Ok(p) => if p.1 {
                    Ok((p.0, SpecType { loc: loc2, value: SpecType_::Var(new_tvar) }))
                } else {
                    let e1 = if ty1.value is Anything {
                        SpecType { loc: ty1.loc, value: SpecType_::Var(id1) }
                    } else {
                        ty1
                    };
                    let e2 = if ty2.value is Anything {
                        SpecType { loc: ty2.loc, value: SpecType_::Var(id2) }
                    } else {
                        ty2
                    };
                    Err(SpecTypingError::Incompatible(e1, e2))
                },
            },
        },
    }
}

/// The join of two unresolved references: two unresolved ones merge into a
/// fresh reference variable; two resolved ones join on the kind lattice in
/// join mode, and are realized and retried in subtype mode or when the kinds
/// do not join; a resolved one realizes against an unresolved one.
pub open spec fn spec_join_autoref(
    s: SpecSubst,
    case: TypingCase,
    loc1: Loc,
    rv1: RefVar,
    inner1: SpecType,
    loc2: Loc,
    rv2: RefVar,
    inner2: SpecType,
    fuel: nat,
) -> Result<(SpecSubst, SpecType), SpecTypingError>
    decreases fuel, 1nat,
{
    let r1 = s.forward_ref_var(rv1, s.ref_fuel());
    let r2 = s.forward_ref_var(rv2, s.ref_fuel());
    let k1 = s.get_ref(r1);
    let k2 = s.get_ref(r2);
    let new_rv = s.spec_fresh_ref_above_len(r1, r2) as usize;
    let s0 = s.with_fresh_ref_var(r1, r2);
    match (k1, k2) {
        (None, None) => {
            let s1 = s0.with_ref(r1, RefKind::Forward(new_rv));
            let s2 = s1.with_ref(r2, RefKind::Forward(new_rv));
            match spec_join(s2, case, inner1, inner2, fuel) {
                Ok((s3, ty)) => Ok(
                    (s3, SpecType { loc: loc2, value: SpecType_::AutoRef(new_rv, Box::new(ty)) }),
                ),
                Err(e) => Err(e),
            }
        },
        (Some(k1v), Some(k2v)) => match case {
            TypingCase::Join => match k1v.spec_join(k2v) {
                Some(jk) => {
                    let s1 = s0.with_ref(r1, RefKind::Forward(new_rv));
                    let s2 = s1.with_ref(r2, RefKind::Forward(new_rv));
                    let s3 = s2.with_ref(new_rv, jk);
                    match spec_join(s3, case, inner1, inner2, fuel) {
                        Ok((s4, ty)) => Ok(
                            (
                                s4,
                                SpecType {
                                    loc: loc2,
                                    value: SpecType_::AutoRef(new_rv, Box::new(ty)),
                                },
                            ),
                        ),
                        Err(e) => Err(e),
                    }
                },
                None => {
                    let l = spec_realize_autoref(loc1, k1v, inner1);
                    let r = spec_realize_autoref(loc2, k2v, inner2);
                    spec_join(s0, case, l, r, fuel)
                },
            },
            TypingCase::Subtype => {
                let l = spec_realize_autoref(loc1, k1v, inner1);
                let r = spec_realize_autoref(loc2, k2v, inner2);
                spec_join(s0, case, l, r, fuel)
            },
        },
        (None, Some(k2v)) => {
            let l = SpecType { loc: loc1, value: SpecType_::AutoRef(r1, Box::new(inner1)) };
            let r = spec_realize_autoref(loc2, k2v, inner2);
            spec_join(s0, case, l, r, fuel)
        },
        (Some(k1v), None) => {
            let l = spec_realize_autoref(loc1, k1v, inner1);
            let r = SpecType { loc: loc2, value: SpecType_::AutoRef(r2, Box::new(inner2)) };
            spec_join(s0, case, l, r, fuel)
        },
    }
}

/// The join of an unresolved reference with an ordinary type: an explicit
/// reference resolves it to a reference of that mutability, a value type
/// resolves it to a plain value, the unconstrained and the poison type leave
/// it open; a reference variable already resolved realizes and retries.
pub open spec fn spec_join_bind_autoref(
    s: SpecSubst,
    case: TypingCase,
    loc: Loc,
    rv: RefVar,
    rvtype: SpecType,
    other: SpecType,
    fuel: nat,
) -> Result<(SpecSubst, SpecType), SpecTypingError>
    decreases fuel, 1nat,
{
    let r = s.forward_ref_var(rv, s.ref_fuel());
    match s.get_ref(r) {
        Some(RefKind::Forward(_)) => Ok((s, spec_poison(other.loc))),
        None => match other.value {
            SpecType_::Ref(false, t) => {
                let s1 = s.with_ref(r, RefKind::ImmRef);
                spec_join(s1, case, rvtype, *t, fuel)
            },
            SpecType_::Ref(true, t) => {
                let s1 = s.with_ref(r, RefKind::MutRef);
                spec_join(s1, case, rvtype, *t, fuel)
            },
            SpecType_::Anything | SpecType_::UnresolvedError => Ok((s, other)),
            SpecType_::Var(_) | SpecType_::AutoRef(_, _) => Ok((s, spec_poison(other.loc))),
            _ => {
                let s1 = s.with_ref(r, RefKind::Value);
                spec_join(s1, case, rvtype, other, fuel)
            },
        },
        Some(k) => {
            let realized = spec_realize_autoref(loc, k, rvtype);
            spec_join(s, case, realized, other, fuel)
        },
    }
}

/// The join or subtype relation between two types under a store, within a
/// step budget; the model every unification contract speaks about.
pub open spec fn spec_join(
    s: SpecSubst,
    case: TypingCase,
    lhs: SpecType,
    rhs: SpecType,
    fuel: nat,
) -> Result<(SpecSubst, SpecType), SpecTypingError>
    decreases fuel, 0nat,
{
    if fuel == 0 {
        Err(SpecTypingError::RecursiveType(lhs.loc))
    } else {
        match (lhs.value, rhs.value) {
            (SpecType_::Anything, _) => Ok((s, rhs)),
            (_, SpecType_::Anything) => Ok((s, lhs)),
            (SpecType_::Unit, SpecType_::Unit) => Ok(
                (s, SpecType { loc: rhs.loc, value: SpecType_::Unit }),
            ),
            (SpecType_::Ref(mut1, t1), SpecType_::Ref(mut2, t2)) => {
                if case is Subtype && !mut1 && mut2 {
                    Err(SpecTypingError::SubtypeError(lhs, rhs))
                } else {
                    let loc = if case is Join && !mut1 && mut2 {
                        lhs.loc
                    } else {
                        rhs.loc
                    };
                    let m = mut1 && mut2;
                    match spec_join(s, case, *t1, *t2, (fuel - 1) as nat) {
                        Ok((s1, t)) => Ok(
                            (s1, SpecType { loc, value: SpecType_::Ref(m, Box::new(t)) }),
                        ),
                        Err(e) => Err(e),
                    }
                }
            },
            (SpecType_::Param(tp1), SpecType_::Param(tp2)) => {
                if tp1.id == tp2.id {
                    Ok((s, rhs))
                } else {
                    Err(SpecTypingError::Incompatible(lhs, rhs))
                }
            },
            (SpecType_::Apply(k1, n1, ts1), SpecType_::Apply(k2, n2, ts2)) => {
                match (n1.value, n2.value) {
                    (TypeName_::Multiple(a), TypeName_::Multiple(b)) => {
                        if a != b {
                            Err(SpecTypingError::ArityMismatch(a as nat, lhs, b as nat, rhs))
                        } else {
                            match spec_join_types(s, case, ts1, ts2, (fuel - 1) as nat) {
                                Ok((s1, ts)) => Ok(
                                    (
                                        s1,
                                        SpecType {
                                            loc: rhs.loc,
                                            value: SpecType_::Apply(k2, n2, ts),
                                        },
                                    ),
                                ),
                                Err(e) => Err(e),
                            }
                        }
                    },
                    _ => {
                        if n1.spec_key() == n2.spec_key() {
                            match spec_join_types(s, case, ts1, ts2, (fuel - 1) as nat) {
                                Ok((s1, ts)) => Ok(
                                    (
                                        s1,
                                        SpecType {
                                            loc: rhs.loc,
                                            value: SpecType_::Apply(k2, n2, ts),
                                        },
                                    ),
                                ),
                                Err(e) => Err(e),
                            }
                        } else {
                            Err(SpecTypingError::Incompatible(lhs, rhs))
                        }
                    },
                }
            },
            (SpecType_::Fun(a1, r1), SpecType_::Fun(a2, r2)) => {
                if a1.len() != a2.len() {
                    Err(SpecTypingError::FunArityMismatch(a1.len(), lhs, a2.len(), rhs))
                } else {
                    let args_res = match case {
                        TypingCase::Join => spec_join_types(s, case, a1, a2, (fuel - 1) as nat),
                        TypingCase::Subtype => spec_join_types(s, case, a2, a1, (fuel - 1) as nat),
                    };
                    match args_res {
                        Ok((s1, args)) => match spec_join(s1, case, *r1, *r2, (fuel - 1) as nat) {
                            Ok((s2, ret)) => Ok(
                                (
                                    s2,
                                    SpecType {
                                        loc: rhs.loc,
                                        value: SpecType_::Fun(args, Box::new(ret)),
                                    },
                                ),
                            ),
                            Err(e) => Err(e),
                        },
                        Err(e) => Err(e),
                    }
                }
            },
            (SpecType_::Var(id1), SpecType_::Var(id2)) => {
                if id1 == id2 {
                    Ok((s, SpecType { loc: rhs.loc, value: SpecType_::Var(id2) }))
                } else {
                    spec_join_tvar(s, case, lhs.loc, id1, rhs.loc, id2, (fuel - 1) as nat)
                }
            },
            (SpecType_::Var(id), _) => {
                if s.get(id) is None {
                    match spec_join_bind_tvar(s, lhs.loc, id, rhs) {
                        Err(e) => Err(e),
                        Ok(p) => if p.1 {
                            Ok((p.0, SpecType { loc: lhs.loc, value: SpecType_::Var(id) }))
                        } else {
                            Err(
                                SpecTypingError::Incompatible(
                                    SpecType { loc: lhs.loc, value: SpecType_::Var(id) },
                                    rhs,
                                ),
                            )
                        },
                    }
                } else {
                    let new_tvar = s.spec_fresh_above_len(id, id) as usize;
                    let s1 = s.with_fresh_tvar(id, id);
                    let s2 = s1.with_binding(new_tvar, rhs);
                    spec_join_tvar(s2, case, lhs.loc, id, rhs.loc, new_tvar, (fuel - 1) as nat)
                }
            },
            (_, SpecType_::Var(id)) => {
                if s.get(id) is None {
                    match spec_join_bind_tvar(s, rhs.loc, id, lhs) {
                        Err(e) => Err(e),
                        Ok(p) => if p.1 {
                            Ok((p.0, SpecType { loc: rhs.loc, value: SpecType_::Var(id) }))
                        } else {
                            Err(
                                SpecTypingError::Incompatible(
                                    lhs,
                                    SpecType { loc: rhs.loc, value: SpecType_::Var(id) },
                                ),
                            )
                        },
                    }
                } else {
                    let new_tvar = s.spec_fresh_above_len(id, id) as usize;
                    let s1 = s.with_fresh_tvar(id, id);
                    let s2 = s1.with_binding(new_tvar, lhs);
                    spec_join_tvar(s2, case, lhs.loc, new_tvar, rhs.loc, id, (fuel - 1) as nat)
                }
            },
            (SpecType_::AutoRef(rv1, t1), SpecType_::AutoRef(rv2, t2)) => spec_join_autoref(
                s,
                case,
                lhs.loc,
                rv1,
                *t1,
                rhs.loc,
                rv2,
                *t2,
                (fuel - 1) as nat,
            ),
            (SpecType_::AutoRef(rv, t), _) => spec_join_bind_autoref(
                s,
                case,
                lhs.loc,
                rv,
                *t,
                rhs,
                (fuel - 1) as nat,
            ),
            (_, SpecType_::AutoRef(rv, t)) => spec_join_bind_autoref(
                s,
                case,
                rhs.loc,
                rv,
                *t,
                lhs,
                (fuel - 1) as nat,
            ),
            (SpecType_::UnresolvedError, _) => Ok((s, rhs)),
            (_, SpecType_::UnresolvedError) => Ok((s, lhs)),
            _ => Err(SpecTypingError::Incompatible(lhs, rhs)),
        }
    }
}


/// Executable form of [`spec_join_types`], walking both lists from index `i`.
fn join_types_from(
    subst: Subst,
    case: TypingCase,
    ts1: &Vec<Type>,
    ts2: &Vec<Type>,
    i: usize,
    fuel: u64,
) -> (r: Result<(Subst, Vec<Type>), TypingError>)
    requires
        i <= ts1@.len(),
        i <= ts2@.len(),
    ensures
        match r {
            Ok((s2, ts)) => spec_join_types(
                subst@,
                case,
                view_types(ts1@).skip(i as int),
                view_types(ts2@).skip(i as int),
                fuel as nat,
            ) matches Ok(p) && p.0 == s2@ && p.1 == view_types(ts@),
            Err(e) => spec_join_types(
                subst@,
                case,
                view_types(ts1@).skip(i as int),
                view_types(ts2@).skip(i as int),
                fuel as nat,
            ) matches Err(se) && se == e@,
        },
    decreases fuel, ts1@.len() - i + 1,
{
    proof {
        crate::ast::lemma_view_types_index(ts1@);
        crate::ast::lemma_view_types_index(ts2@);
    }
    if i >= ts1.len() || i >= ts2.len() {
        let out: Vec<Type> = Vec::new();
        proof {
            assert(view_types(out@) =~= Seq::<SpecType>::empty());
            if i >= ts1@.len() {
                assert(view_types(ts1@).skip(i as int) =~= Seq::<SpecType>::empty());
            } else {
                assert(view_types(ts2@).skip(i as int) =~= Seq::<SpecType>::empty());
            }
        }
        return Ok((subst, out));
    }
    proof {
        assert(view_types(ts1@).skip(i as int)[0] == view_types(ts1@)[i as int]);
        assert(view_types(ts2@).skip(i as int)[0] == view_types(ts2@)[i as int]);
        assert(view_types(ts1@).skip(i as int).drop_first() =~= view_types(ts1@).skip(i + 1));
        assert(view_types(ts2@).skip(i as int).drop_first() =~= view_types(ts2@).skip(i + 1));
    }
    match join_impl(subst, case, &ts1[i], &ts2[i], fuel) {
        Err(e) => Err(e),
        Ok((s1, t)) => match join_types_from(s1, case, ts1, ts2, i + 1, fuel) {
            Err(e) => Err(e),
            Ok((s2, ts)) => {
                let ghost old_ts = ts@;
                let mut ts = ts;
                ts.insert(0, t);
                proof {
                    assert(ts@[0] == t);
                    assert(ts@.drop_first() =~= old_ts);
                    assert(view_types(ts@) == seq![view_type(t)] + view_types(ts@.drop_first()));
                }
                Ok((s2, ts))
            },
        },
    }
}

/// Executable form of [`spec_join_tvar`].
fn join_tvar(
    subst: Subst,
    case: TypingCase,
    loc1: Loc,
    id1: TVar,
    loc2: Loc,
    id2: TVar,
    fuel: u64,
) -> (r: Result<(Subst, Type), TypingError>)
    ensures
        join_result_matches(r, spec_join_tvar(subst@, case, loc1, id1, loc2, id2, fuel as nat)),
    decreases fuel, 1int,
{
    let mut subst = subst;
    let ghost s0 = subst@;
    let last1 = subst.forward_tvar(id1);
    let last2 = subst.forward_tvar(id2);
    let ty1 = match subst.get(last1) {
        None => Type { loc: loc1, value: Type_::Anything },
        Some(t) => t.deep_clone(),
    };
    let ty2 = match subst.get(last2) {
        None => Type { loc: loc2, value: Type_::Anything },
        Some(t) => t.deep_clone(),
    };
    let n1 = subst.num_var_loc(last1);
    let n2 = subst.num_var_loc(last2);
    let new_tvar = subst.new_var_above(last1, last2);
    proof {
        assert(subst@ == s0.with_fresh_tvar(last1, last2));
    }
    let ghost s1 = subst@;
    match (n1, n2) {
        (_, Some(nloc)) | (Some(nloc), _) => {
            subst.set_num_var(new_tvar, nloc);
            proof {
                assert(subst@ == spec_set_num_var(s1, new_tvar, nloc, s1.tvars.len()));
            }
        },
        _ => {},
    }
    let ghost s2 = subst@;
    subst.insert(last1, Type { loc: loc1, value: Type_::Var(new_tvar) });
    proof {
        assert(subst@ == s2.with_binding(last1, SpecType { loc: loc1, value: SpecType_::Var(new_tvar) }));
    }
    let ghost s3 = subst@;
    subst.insert(last2, Type { loc: loc2, value: Type_::Var(new_tvar) });
    proof {
        assert(subst@ == s3.with_binding(last2, SpecType { loc: loc2, value: SpecType_::Var(new_tvar) }));
    }
    match join_impl(subst, case, &ty1, &ty2, fuel) {
        Err(e) => Err(e),
        Ok((s5, new_ty)) => {
            let recur_loc: Option<Loc> = match s5.get(new_tvar) {
                Some(t) => Some(t.loc),
                None => None,
            };
            match recur_loc {
                Some(l) => Err(TypingError::RecursiveType(l)),
                None => match join_bind_tvar(s5, loc2, new_tvar, new_ty) {
                    Err(e) => Err(e),
                    Ok((s6, ok)) => if ok {
                        Ok((s6, Type { loc: loc2, value: Type_::Var(new_tvar) }))
                    } else {
                        let e1 = if matches!(&ty1.value, Type_::Anything) {
                            Type { loc: ty1.loc, value: Type_::Var(id1) }
                        } else {
                            ty1
                        };
                        let e2 = if matches!(&ty2.value, Type_::Anything) {
                            Type { loc: ty2.loc, value: Type_::Var(id2) }
                        } else {
                            ty2
                        };
                        Err(TypingError::Incompatible(Box::new(e1), Box::new(e2)))
                    },
                },
            }
        },
    }
}

/// Executable form of [`spec_join_autoref`].
fn join_autoref(
    subst: Subst,
    case: TypingCase,
    loc1: Loc,
    rv1: RefVar,
    inner1: &Type,
    loc2: Loc,
    rv2: RefVar,
    inner2: &Type,
    fuel: u64,
) -> (r: Result<(Subst, Type), TypingError>)
    ensures
        join_result_matches(
            r,
            spec_join_autoref(
                subst@,
                case,
                loc1,
                rv1,
                inner1@,
                loc2,
                rv2,
                inner2@,
                fuel as nat,
            ),
        ),
    decreases fuel, 1int,
{
    let mut subst = subst;
    let ghost s_in = subst@;
    let r1 = subst.forward_ref_var(rv1);
    let r2 = subst.forward_ref_var(rv2);
    let k1 = subst.get_ref_var(r1);
    let k2 = subst.get_ref_var(r2);
    let new_rv = subst.new_ref_var_above(r1, r2);
    proof {
        assert(subst@ == s_in.with_fresh_ref_var(r1, r2));
    }
    let ghost s0 = subst@;
    match (k1, k2) {
        (None, None) => {
            subst.insert_ref_var(r1, RefKind::Forward(new_rv));
            proof {
                assert(subst@ == s0.with_ref(r1, RefKind::Forward(new_rv)));
            }
            let ghost s1 = subst@;
            subst.insert_ref_var(r2, RefKind::Forward(new_rv));
            proof {
                assert(subst@ == s1.with_ref(r2, RefKind::Forward(new_rv)));
            }
            match join_impl(subst, case, inner1, inner2, fuel) {
                Ok((s3, ty)) => Ok(
                    (s3, Type { loc: loc2, value: Type_::AutoRef(new_rv, Box::new(ty)) }),
                ),
                Err(e) => Err(e),
            }
        },
        (Some(k1v), Some(k2v)) => {
            let use_lattice = matches!(case, TypingCase::Join);
            if use_lattice {
                match k1v.join(&k2v) {
                    Some(jk) => {
                        subst.insert_ref_var(r1, RefKind::Forward(new_rv));
                        proof {
                            assert(subst@ == s0.with_ref(r1, RefKind::Forward(new_rv)));
                        }
                        let ghost s1 = subst@;
                        subst.insert_ref_var(r2, RefKind::Forward(new_rv));
                        proof {
                            assert(subst@ == s1.with_ref(r2, RefKind::Forward(new_rv)));
                        }
                        let ghost s2 = subst@;
                        subst.insert_ref_var(new_rv, jk);
                        proof {
                            assert(subst@ == s2.with_ref(new_rv, jk));
                        }
                        match join_impl(subst, case, inner1, inner2, fuel) {
                            Ok((s4, ty)) => Ok(
                                (
                                    s4,
                                    Type { loc: loc2, value: Type_::AutoRef(new_rv, Box::new(ty)) },
                                ),
                            ),
                            Err(e) => Err(e),
                        }
                    },
                    None => {
                        let l = realize_autoref(loc1, &k1v, inner1.deep_clone());
                        let rr = realize_autoref(loc2, &k2v, inner2.deep_clone());
                        join_impl(subst, case, &l, &rr, fuel)
                    },
                }
            } else {
                let l = realize_autoref(loc1, &k1v, inner1.deep_clone());
                let rr = realize_autoref(loc2, &k2v, inner2.deep_clone());
                join_impl(subst, case, &l, &rr, fuel)
            }
        },
        (None, Some(k2v)) => {
            let l = Type { loc: loc1, value: Type_::AutoRef(r1, Box::new(inner1.deep_clone())) };
            let rr = realize_autoref(loc2, &k2v, inner2.deep_clone());
            join_impl(subst, case, &l, &rr, fuel)
        },
        (Some(k1v), None) => {
            let l = realize_autoref(loc1, &k1v, inner1.deep_clone());
            let rr = Type { loc: loc2, value: Type_::AutoRef(r2, Box::new(inner2.deep_clone())) };
            join_impl(subst, case, &l, &rr, fuel)
        },
    }
}

/// Executable form of [`spec_join_bind_autoref`].
fn join_bind_autoref(
    subst: Subst,
    case: TypingCase,
    loc: Loc,
    rv: RefVar,
    rvtype: &Type,
    other: &Type,
    fuel: u64,
) -> (r: Result<(Subst, Type), TypingError>)
    ensures
        join_result_matches(
            r,
            spec_join_bind_autoref(subst@, case, loc, rv, rvtype@, other@, fuel as nat),
        ),
    decreases fuel, 1int,
{
    let mut subst = subst;
    let ghost s_in = subst@;
    let r = subst.forward_ref_var(rv);
    match subst.get_ref_var(r) {
        Some(RefKind::Forward(_)) => Ok((subst, crate::subst::poison_type(other.loc))),
        None => match &other.value {
            Type_::Ref(false, t) => {
                subst.insert_ref_var(r, RefKind::ImmRef);
                proof {
                    assert(subst@ == s_in.with_ref(r, RefKind::ImmRef));
                }
                join_impl(subst, case, rvtype, t, fuel)
            },
            Type_::Ref(true, t) => {
                subst.insert_ref_var(r, RefKind::MutRef);
                proof {
                    assert(subst@ == s_in.with_ref(r, RefKind::MutRef));
                }
                join_impl(subst, case, rvtype, t, fuel)
            },
            Type_::Anything | Type_::UnresolvedError => Ok((subst, other.deep_clone())),
            Type_::Var(_) | Type_::AutoRef(_, _) => Ok((subst, crate::subst::poison_type(other.loc))),
            _ => {
                subst.insert_ref_var(r, RefKind::Value);
                proof {
                    assert(subst@ == s_in.with_ref(r, RefKind::Value));
                }
                join_impl(subst, case, rvtype, other, fuel)
            },
        },
        Some(k) => {
            let realized = realize_autoref(loc, &k, rvtype.deep_clone());
            join_impl(subst, case, &realized, other, fuel)
        },
    }
}

/// Executable form of [`spec_join`].
#[verifier::rlimit(100)]
#[verifier::spinoff_prover]
fn join_impl(subst: Subst, case: TypingCase, lhs: &Type, rhs: &Type, fuel: u64) -> (r: Result<
    (Subst, Type),
    TypingError,
>)
    ensures
        join_result_matches(r, spec_join(subst@, case, lhs@, rhs@, fuel as nat)),
    decreases fuel, 0int,
{
    let mut subst = subst;
    if fuel == 0 {
        return Err(TypingError::RecursiveType(lhs.loc));
    }
    match (&lhs.value, &rhs.value) {
        (Type_::Anything, _) => Ok((subst, rhs.deep_clone())),
        (_, Type_::Anything) => Ok((subst, lhs.deep_clone())),
        (Type_::Unit, Type_::Unit) => Ok((subst, Type { loc: rhs.loc, value: Type_::Unit })),
        (Type_::Ref(mut1, t1), Type_::Ref(mut2, t2)) => {
            if matches!(case, TypingCase::Subtype) && !*mut1 && *mut2 {
                return Err(
                    TypingError::SubtypeError(
                        Box::new(lhs.deep_clone()),
                        Box::new(rhs.deep_clone()),
                    ),
                );
            }
            let loc = if matches!(case, TypingCase::Join) && !*mut1 && *mut2 {
                lhs.loc
            } else {
                rhs.loc
            };
            let m = *mut1 && *mut2;
            match join_impl(subst, case, t1, t2, fuel - 1) {
                Ok((s1, t)) => Ok((s1, Type { loc, value: Type_::Ref(m, Box::new(t)) })),
                Err(e) => Err(e),
            }
        },
        (Type_::Param(tp1), Type_::Param(tp2)) => {
            if tp1.id == tp2.id {
                Ok((subst, rhs.deep_clone()))
            } else {
                Err(
                    TypingError::Incompatible(
                        Box::new(lhs.deep_clone()),
                        Box::new(rhs.deep_clone()),
                    ),
                )
            }
        },
        (Type_::Apply(k1, n1, ts1), Type_::Apply(k2, n2, ts2)) => {
            let multiple_arity: Option<(usize, usize)> = match (&n1.value, &n2.value) {
                (TypeName_::Multiple(a), TypeName_::Multiple(b)) => Some((*a, *b)),
                _ => None,
            };
            match multiple_arity {
                Some((a, b)) => {
                    if a != b {
                        Err(
                            TypingError::ArityMismatch(
                                a,
                                Box::new(lhs.deep_clone()),
                                b,
                                Box::new(rhs.deep_clone()),
                            ),
                        )
                    } else {
                        proof {
                            assert(view_types(ts1@).skip(0) =~= view_types(ts1@));
                            assert(view_types(ts2@).skip(0) =~= view_types(ts2@));
                        }
                        match join_types_from(subst, case, ts1, ts2, 0, fuel - 1) {
                            Ok((s1, ts)) => Ok(
                                (s1, Type { loc: rhs.loc, value: Type_::Apply(*k2, *n2, ts) }),
                            ),
                            Err(e) => Err(e),
                        }
                    }
                },
                None => {
                    if n1.key() == n2.key() {
                        proof {
                            assert(view_types(ts1@).skip(0) =~= view_types(ts1@));
                            assert(view_types(ts2@).skip(0) =~= view_types(ts2@));
                        }
                        match join_types_from(subst, case, ts1, ts2, 0, fuel - 1) {
                            Ok((s1, ts)) => Ok(
                                (s1, Type { loc: rhs.loc, value: Type_::Apply(*k2, *n2, ts) }),
                            ),
                            Err(e) => Err(e),
                        }
                    } else {
                        Err(
                            TypingError::Incompatible(
                                Box::new(lhs.deep_clone()),
                                Box::new(rhs.deep_clone()),
                            ),
                        )
                    }
                },
            }
        },
        (Type_::Fun(a1, r1), Type_::Fun(a2, r2)) => {
            proof {
                crate::ast::lemma_view_types_index(a1@);
                crate::ast::lemma_view_types_index(a2@);
            }
            if a1.len() != a2.len() {
                return Err(
                    TypingError::FunArityMismatch(
                        a1.len(),
                        Box::new(lhs.deep_clone()),
                        a2.len(),
                        Box::new(rhs.deep_clone()),
                    ),
                );
            }
            proof {
                assert(view_types(a1@).skip(0) =~= view_types(a1@));
                assert(view_types(a2@).skip(0) =~= view_types(a2@));
            }
            let args_res = match case {
                TypingCase::Join => join_types_from(subst, case, a1, a2, 0, fuel - 1),
                TypingCase::Subtype => join_types_from(subst, case, a2, a1, 0, fuel - 1),
            };
            match args_res {
                Ok((s1, args)) => match join_impl(s1, case, r1, r2, fuel - 1) {
                    Ok((s2, ret)) => Ok(
                        (s2, Type { loc: rhs.loc, value: Type_::Fun(args, Box::new(ret)) }),
                    ),
                    Err(e) => Err(e),
                },
                Err(e) => Err(e),
            }
        },
        (Type_::Var(id1), Type_::Var(id2)) => {
            if *id1 == *id2 {
                Ok((subst, Type { loc: rhs.loc, value: Type_::Var(*id2) }))
            } else {
                join_tvar(subst, case, lhs.loc, *id1, rhs.loc, *id2, fuel - 1)
            }
        },
        (Type_::Var(id), _) => {
            let unbound = match subst.get(*id) {
                None => true,
                Some(_) => false,
            };
            if unbound {
                match join_bind_tvar(subst, lhs.loc, *id, rhs.deep_clone()) {
                    Err(e) => Err(e),
                    Ok((s1, ok)) => if ok {
                        Ok((s1, Type { loc: lhs.loc, value: Type_::Var(*id) }))
                    } else {
                        Err(
                            TypingError::Incompatible(
                                Box::new(Type { loc: lhs.loc, value: Type_::Var(*id) }),
                                Box::new(rhs.deep_clone()),
                            ),
                        )
                    },
                }
            } else {
                let ghost s_in = subst@;
                let new_tvar = subst.new_var_above(*id, *id);
                proof {
                    assert(subst@ == s_in.with_fresh_tvar(*id, *id));
                }
                let ghost s1 = subst@;
                subst.insert(new_tvar, rhs.deep_clone());
                proof {
                    assert(subst@ == s1.with_binding(new_tvar, rhs@));
                }
                join_tvar(subst, case, lhs.loc, *id, rhs.loc, new_tvar, fuel - 1)
            }
        },
        (_, Type_::Var(id)) => {
            let unbound = match subst.get(*id) {
                None => true,
                Some(_) => false,
            };
            if unbound {
                match join_bind_tvar(subst, rhs.loc, *id, lhs.deep_clone()) {
                    Err(e) => Err(e),
                    Ok((s1, ok)) => if ok {
                        Ok((s1, Type { loc: rhs.loc, value: Type_::Var(*id) }))
                    } else {
                        Err(
                            TypingError::Incompatible(
                                Box::new(lhs.deep_clone()),
                                Box::new(Type { loc: rhs.loc, value: Type_::Var(*id) }),
                            ),
                        )
                    },
                }
            } else {
                let ghost s_in = subst@;
                let new_tvar = subst.new_var_above(*id, *id);
                proof {
                    assert(subst@ == s_in.with_fresh_tvar(*id, *id));
                }
                let ghost s1 = subst@;
                subst.insert(new_tvar, lhs.deep_clone());
                proof {
                    assert(subst@ == s1.with_binding(new_tvar, lhs@));
                }
                join_tvar(subst, case, lhs.loc, new_tvar, rhs.loc, *id, fuel - 1)
            }
        },
        (Type_::AutoRef(rv1, t1), Type_::AutoRef(rv2, t2)) => join_autoref(
            subst,
            case,
            lhs.loc,
            *rv1,
            t1,
            rhs.loc,
            *rv2,
            t2,
            fuel - 1,
        ),
        (Type_::AutoRef(rv, t), _) => join_bind_autoref(
            subst,
            case,
            lhs.loc,
            *rv,
            t,
            rhs,
            fuel - 1,
        ),
        (_, Type_::AutoRef(rv, t)) => join_bind_autoref(
            subst,
            case,
            rhs.loc,
            *rv,
            t,
            lhs,
            fuel - 1,
        ),
        (Type_::UnresolvedError, _) => Ok((subst, rhs.deep_clone())),
        (_, Type_::UnresolvedError) => Ok((subst, lhs.deep_clone())),
        _ => Err(
            TypingError::Incompatible(Box::new(lhs.deep_clone()), Box::new(rhs.deep_clone())),
        ),
    }
}

/// The step budget a top-level unification starts with.
pub open spec fn spec_join_fuel(s: SpecSubst, lhs: SpecType, rhs: SpecType) -> nat {
    (crate::subst::spec_expansion_budget(s, lhs) + crate::subst::spec_expansion_budget(
        s,
        rhs,
    )) as nat
}

/// The symmetric join of two types under a store: the most general type both
/// sides can flow to, or a structural error.
pub fn join(subst: Subst, lhs: &Type, rhs: &Type) -> (r: Result<(Subst, Type), TypingError>)
    ensures
        join_result_matches(
            r,
            spec_join(subst@, TypingCase::Join, lhs@, rhs@, spec_join_fuel(subst@, lhs@, rhs@)),
        ),
{
    let f1 = subst.expansion_budget(lhs);
    let f2 = subst.expansion_budget(rhs);
    join_impl(subst, TypingCase::Join, lhs, rhs, f1 + f2)
}

/// The asymmetric check that `lhs` can be used where `rhs` is expected,
/// under a store: mutable references may decay to immutable ones and
/// function arguments are compared contravariantly.
pub fn subtype(subst: Subst, lhs: &Type, rhs: &Type) -> (r: Result<(Subst, Type), TypingError>)
    ensures
        join_result_matches(
            r,
            spec_join(subst@, TypingCase::Subtype, lhs@, rhs@, spec_join_fuel(subst@, lhs@, rhs@)),
        ),
{
    let f1 = subst.expansion_budget(lhs);
    let f2 = subst.expansion_budget(rhs);
    join_impl(subst, TypingCase::Subtype, lhs, rhs, f1 + f2)
}


/// Joining any type with itself changes nothing: for a ready type `t` and
/// either relation, `t` joined with `t` under any store yields the store
/// untouched and `t` itself.
pub proof fn lemma_join_self(s: SpecSubst, case: TypingCase, t: SpecType, fuel: nat)
    requires
        t.is_ready(),
        fuel >= crate::ast::type_height(t),
    ensures
        spec_join(s, case, t, t, fuel) == Ok::<(SpecSubst, SpecType), SpecTypingError>((s, t)),
    decreases t,
{
    match t.value {
        SpecType_::Ref(m, inner) => {
            lemma_join_self(s, case, *inner, (fuel - 1) as nat);
        },
        SpecType_::Apply(k, n, args) => {
            lemma_join_types_self(s, case, args, (fuel - 1) as nat);
        },
        SpecType_::Fun(args, ret) => {
            lemma_join_types_self(s, case, args, (fuel - 1) as nat);
            lemma_join_self(s, case, *ret, (fuel - 1) as nat);
        },
        _ => {},
    }
}

/// [`lemma_join_self`] for every element of a list, pointwise.
pub proof fn lemma_join_types_self(s: SpecSubst, case: TypingCase, ts: Seq<SpecType>, fuel: nat)
    requires
        crate::ast::spec_types_ready(ts),
        fuel >= crate::ast::types_height(ts),
    ensures
        spec_join_types(s, case, ts, ts, fuel) == Ok::<(SpecSubst, Seq<SpecType>), SpecTypingError>(
            (s, ts),
        ),
    decreases ts,
{
    if ts.len() != 0 {
        lemma_join_self(s, case, ts[0], fuel);
        lemma_join_types_self(s, case, ts.drop_first(), fuel);
        assert(seq![ts[0]] + ts.drop_first() =~= ts);
    } else {
        assert(ts =~= Seq::<SpecType>::empty());
    }
}

/// The unconstrained type is a unit of unification: joining any type with
/// `Anything` succeeds, leaves the store untouched, and yields the other
/// operand.  When both operands are unconstrained the right one survives, so
/// on the left the law carries that one caveat.
pub proof fn lemma_join_anything(s: SpecSubst, case: TypingCase, t: SpecType, a: SpecType, fuel: nat)
    requires
        a.value is Anything,
        fuel >= 1,
    ensures
        spec_join(s, case, t, a, fuel) == Ok::<(SpecSubst, SpecType), SpecTypingError>(
            (
                s,
                if t.value is Anything {
                    a
                } else {
                    t
                },
            ),
        ),
        spec_join(s, case, a, t, fuel) == Ok::<(SpecSubst, SpecType), SpecTypingError>((s, t)),
{
}

/// A mutable reference may stand where an immutable one is expected, and the
/// result is the expected immutable reference; an immutable reference may
/// not stand where a mutable one is expected.
pub proof fn lemma_subtype_reference_mutability(
    s: SpecSubst,
    t: SpecType,
    l1: Loc,
    l2: Loc,
    fuel: nat,
)
    requires
        t.is_ready(),
        fuel > crate::ast::type_height(t),
    ensures
        spec_join(
            s,
            TypingCase::Subtype,
            SpecType { loc: l1, value: SpecType_::Ref(true, Box::new(t)) },
            SpecType { loc: l2, value: SpecType_::Ref(false, Box::new(t)) },
            fuel,
        ) == Ok::<(SpecSubst, SpecType), SpecTypingError>(
            (s, SpecType { loc: l2, value: SpecType_::Ref(false, Box::new(t)) }),
        ),
        spec_join(
            s,
            TypingCase::Subtype,
            SpecType { loc: l1, value: SpecType_::Ref(false, Box::new(t)) },
            SpecType { loc: l2, value: SpecType_::Ref(true, Box::new(t)) },
            fuel,
        ) == Err::<(SpecSubst, SpecType), SpecTypingError>(
            SpecTypingError::SubtypeError(
                SpecType { loc: l1, value: SpecType_::Ref(false, Box::new(t)) },
                SpecType { loc: l2, value: SpecType_::Ref(true, Box::new(t)) },
            ),
        ),
{
    lemma_join_self(s, TypingCase::Subtype, t, (fuel - 1) as nat);
}

/// Whether a type is a concrete value shape that can never satisfy a numeric
/// marking: anything but a numeric builtin, a variable, the unconstrained or
/// the poison type.
pub open spec fn spec_concrete_non_numeric(t: SpecType) -> bool {
    match t.value {
        SpecType_::Unit | SpecType_::Ref(_, _) | SpecType_::Param(_) | SpecType_::Fun(_, _) => true,
        SpecType_::Apply(_, n, _) => match n.value {
            TypeName_::Builtin(b) => !b.value.spec_is_numeric(),
            _ => true,
        },
        _ => false,
    }
}

/// Binding a variable carrying the numeric marking to a concrete
/// non-numeric type is rejected as incompatible, and the store is returned
/// unchanged inside the error path.
pub proof fn lemma_numeric_var_rejects_non_numeric(
    s: SpecSubst,
    case: TypingCase,
    v: TVar,
    loc: Loc,
    t: SpecType,
    fuel: nat,
)
    requires
        s.get(v) is None,
        s.is_num(v),
        spec_concrete_non_numeric(t),
        !(t.value is Ref),
        fuel >= 1,
    ensures
        spec_join(s, case, SpecType { loc, value: SpecType_::Var(v) }, t, fuel) == Err::<
            (SpecSubst, SpecType),
            SpecTypingError,
        >(SpecTypingError::Incompatible(SpecType { loc, value: SpecType_::Var(v) }, t)),
        spec_join(s, case, t, SpecType { loc, value: SpecType_::Var(v) }, fuel) == Err::<
            (SpecSubst, SpecType),
            SpecTypingError,
        >(SpecTypingError::Incompatible(t, SpecType { loc, value: SpecType_::Var(v) })),
{
}

/// A variable may not be bound to a type that contains it: the occurs-check
/// rejects the binding as a recursive type, at the variable's position.
pub proof fn lemma_occurs_check_rejects(
    s: SpecSubst,
    case: TypingCase,
    v: TVar,
    loc: Loc,
    t: SpecType,
    fuel: nat,
)
    requires
        s.get(v) is None,
        !s.is_num(v),
        t.value is Apply,
        t.uses_tvar(v),
        fuel >= 1,
    ensures
        spec_join(s, case, SpecType { loc, value: SpecType_::Var(v) }, t, fuel) == Err::<
            (SpecSubst, SpecType),
            SpecTypingError,
        >(SpecTypingError::RecursiveType(loc)),
{
}

/// Top-level unification always starts with a positive step budget.
pub proof fn lemma_join_fuel_at_least(s: SpecSubst, lhs: SpecType, rhs: SpecType)
    ensures
        spec_join_fuel(s, lhs, rhs) >= 4096,
{
    let b1 = crate::subst::spec_expansion_budget(s, lhs);
    let b2 = crate::subst::spec_expansion_budget(s, rhs);
    let base1 = crate::ast::cap_add(
        crate::subst::entries_csize(s.tvars),
        crate::ast::cap_add(
            crate::subst::cap_len(s.ref_vars.len()),
            crate::ast::cap_add(crate::ast::csize(lhs), 64),
        ),
    );
    crate::ast::lemma_csize_le_cap(lhs);
    crate::subst::lemma_entries_csize_le_cap(s.tvars);
    assert(base1 >= 64);
    assert(base1 * base1 >= 64 * 64) by (nonlinear_arith)
        requires
            base1 >= 64,
    ;
    assert(base1 * base1 <= crate::ast::SIZE_CAP * crate::ast::SIZE_CAP) by (nonlinear_arith)
        requires
            base1 <= crate::ast::SIZE_CAP,
    ;
    assert(b1 >= 4096);
}


/// A cycle through the operands of a variable-variable join is rejected: if
/// unifying the two variables' resolved types comes back with the fresh
/// joined variable bound — a variable transitively bound to itself — the
/// result is a recursive-type error at that binding's position, and nothing
/// is silently installed.
pub proof fn lemma_join_tvar_cycle_rejected(
    s: SpecSubst,
    case: TypingCase,
    loc1: Loc,
    id1: TVar,
    loc2: Loc,
    id2: TVar,
    fuel: nat,
)
    requires
        ({
            let last1 = s.forward_tvar(id1, s.tvar_fuel());
            let last2 = s.forward_tvar(id2, s.tvar_fuel());
            let ty1 = match s.get(last1) {
                None => SpecType { loc: loc1, value: SpecType_::Anything },
                Some(t) => t,
            };
            let ty2 = match s.get(last2) {
                None => SpecType { loc: loc2, value: SpecType_::Anything },
                Some(t) => t,
            };
            let n1 = s.num_loc_of(last1);
            let n2 = s.num_loc_of(last2);
            let new_tvar = s.spec_fresh_above_len(last1, last2) as usize;
            let s1 = s.with_fresh_tvar(last1, last2);
            let s2 = match (n1, n2) {
                (_, Some(nloc)) | (Some(nloc), _) => spec_set_num_var(
                    s1,
                    new_tvar,
                    nloc,
                    s1.tvars.len(),
                ),
                _ => s1,
            };
            let s3 = s2.with_binding(last1, SpecType { loc: loc1, value: SpecType_::Var(new_tvar) });
            let s4 = s3.with_binding(last2, SpecType { loc: loc2, value: SpecType_::Var(new_tvar) });
            spec_join(s4, case, ty1, ty2, fuel) matches Ok(p) && p.0.get(new_tvar) is Some
        }),
    ensures
        ({
            let last1 = s.forward_tvar(id1, s.tvar_fuel());
            let last2 = s.forward_tvar(id2, s.tvar_fuel());
            let ty1 = match s.get(last1) {
                None => SpecType { loc: loc1, value: SpecType_::Anything },
                Some(t) => t,
            };
            let ty2 = match s.get(last2) {
                None => SpecType { loc: loc2, value: SpecType_::Anything },
                Some(t) => t,
            };
            let n1 = s.num_loc_of(last1);
            let n2 = s.num_loc_of(last2);
            let new_tvar = s.spec_fresh_above_len(last1, last2) as usize;
            let s1 = s.with_fresh_tvar(last1, last2);
            let s2 = match (n1, n2) {
                (_, Some(nloc)) | (Some(nloc), _) => spec_set_num_var(
                    s1,
                    new_tvar,
                    nloc,
                    s1.tvars.len(),
                ),
                _ => s1,
            };
            let s3 = s2.with_binding(last1, SpecType { loc: loc1, value: SpecType_::Var(new_tvar) });
            let s4 = s3.with_binding(last2, SpecType { loc: loc2, value: SpecType_::Var(new_tvar) });
            let joined = spec_join(s4, case, ty1, ty2, fuel)->Ok_0;
            spec_join_tvar(s, case, loc1, id1, loc2, id2, fuel) == Err::<
                (SpecSubst, SpecType),
                SpecTypingError,
            >(SpecTypingError::RecursiveType(joined.0.get(new_tvar)->Some_0.loc))
        }),
{
}

} // verus!
