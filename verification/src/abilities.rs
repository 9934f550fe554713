//! Ability inference: the abilities a type carries, derived structurally
//! against the program table and the substitution store.
//!
//! Unit and the expression-list pseudo-type carry the collection set,
//! references their fixed set, function types none; a generic parameter
//! carries its declared set; an applied struct carries each declared ability
//! only when every non-phantom type argument carries what that ability
//! requires.  The unconstrained and the poison type carry everything, so
//! that already-failed code fails no further.

use vstd::prelude::*;

use crate::ast::{
    view_type, view_types, AbilitySet, Ability, Loc, ModuleIdent_, SpecType, SpecType_,
    StructTypeParameter, Type, TypeName_, Type_,
};
use crate::info::{ModuleInfo, ProgramInfo, StructDefinition};
use crate::subst::{spec_expansion_budget, spec_unfold_type, SpecSubst, Subst};

verus! {

/// The non-phantom prefix selection: the type arguments paired with a
/// non-phantom declared parameter, in order; pairing stops at the shorter
/// list.
pub open spec fn spec_non_phantom(
    args: Seq<SpecType>,
    tps: Seq<StructTypeParameter>,
) -> Seq<SpecType>
    decreases args,
{
    if args.len() == 0 || tps.len() == 0 {
        Seq::<SpecType>::empty()
    } else {
        let rest = spec_non_phantom(args.drop_first(), tps.drop_first());
        if tps[0].is_phantom {
            rest
        } else {
            seq![args[0]] + rest
        }
    }
}

/// The declared abilities of the struct `m::n` in the table, when present.
pub open spec fn spec_struct_decl(
    modules: Seq<(ModuleIdent_, ModuleInfo)>,
    m: ModuleIdent_,
    n: u64,
) -> Option<(int, int)> {
    match crate::info::spec_assoc_module(modules, m) {
        Some(i) => match crate::info::spec_assoc_struct(modules[i].1.structs@, n) {
            Some(j) => Some((i, j)),
            None => None,
        },
        None => None,
    }
}

/// The abilities the type `ty` carries under the store, within a step
/// budget.  An exhausted budget, and a malformed type the earlier passes
/// should have ruled out, carry every ability, the posture of the poison
/// type.
pub open spec fn spec_infer_abilities(
    modules: Seq<(ModuleIdent_, ModuleInfo)>,
    s: SpecSubst,
    ty: SpecType,
    fuel: nat,
) -> AbilitySet
    decreases fuel, 0nat, 0nat,
{
    let loc = ty.loc;
    if fuel == 0 {
        AbilitySet::spec_all(loc)
    } else {
        let u = spec_unfold_type(s, ty);
        match u.value {
            SpecType_::Unit => AbilitySet::spec_collection(loc),
            SpecType_::Ref(_, _) => AbilitySet::spec_references(loc),
            SpecType_::Var(_) => AbilitySet::spec_all(loc),
            SpecType_::AutoRef(_, _) => AbilitySet::spec_all(loc),
            SpecType_::UnresolvedError | SpecType_::Anything => AbilitySet::spec_all(loc),
            SpecType_::Param(tp) => tp.abilities,
            SpecType_::Fun(_, _) => AbilitySet::spec_functions(),
            SpecType_::Apply(k_opt, n, ty_args) => match k_opt {
                Some(abilities) => abilities,
                None => {
                    let decl_args = match n.value {
                        TypeName_::Multiple(_) => Some(
                            (AbilitySet::spec_collection(loc), ty_args),
                        ),
                        TypeName_::Builtin(b) => Some(
                            (b.value.spec_declared_abilities(b.loc), ty_args),
                        ),
                        TypeName_::ModuleType(mi, sn) => match spec_struct_decl(
                            modules,
                            mi.value,
                            sn.value,
                        ) {
                            Some(ij) => {
                                let sdef = modules[ij.0].1.structs@[ij.1].1;
                                Some(
                                    (
                                        sdef.abilities,
                                        spec_non_phantom(ty_args, sdef.type_parameters@),
                                    ),
                                )
                            },
                            None => None,
                        },
                    };
                    match decl_args {
                        None => AbilitySet::spec_all(loc),
                        Some(da) => spec_keep_supported(
                            modules,
                            s,
                            da.0,
                            da.1,
                            (fuel - 1) as nat,
                        ),
                    }
                },
            },
        }
    }
}

/// The declared set filtered to the abilities every argument supports.
pub open spec fn spec_keep_supported(
    modules: Seq<(ModuleIdent_, ModuleInfo)>,
    s: SpecSubst,
    declared: AbilitySet,
    args: Seq<SpecType>,
    fuel: nat,
) -> AbilitySet
    decreases fuel, 3nat, 0nat,
{
    AbilitySet {
        copy_loc: if declared.copy_loc is Some && spec_args_all_have(
            modules,
            s,
            args,
            Ability::Copyable.spec_requires_ability(),
            fuel,
        ) {
            declared.copy_loc
        } else {
            None
        },
        drop_loc: if declared.drop_loc is Some && spec_args_all_have(
            modules,
            s,
            args,
            Ability::Droppable.spec_requires_ability(),
            fuel,
        ) {
            declared.drop_loc
        } else {
            None
        },
        store_loc: if declared.store_loc is Some && spec_args_all_have(
            modules,
            s,
            args,
            Ability::Storable.spec_requires_ability(),
            fuel,
        ) {
            declared.store_loc
        } else {
            None
        },
        key_loc: if declared.key_loc is Some && spec_args_all_have(
            modules,
            s,
            args,
            Ability::Keyable.spec_requires_ability(),
            fuel,
        ) {
            declared.key_loc
        } else {
            None
        },
    }
}

/// Whether every argument's inferred set carries the ability.
pub open spec fn spec_args_all_have(
    modules: Seq<(ModuleIdent_, ModuleInfo)>,
    s: SpecSubst,
    args: Seq<SpecType>,
    a: Ability,
    fuel: nat,
) -> bool
    decreases fuel, 2nat, args.len(),
{
    if args.len() == 0 {
        true
    } else {
        spec_infer_abilities(modules, s, args[0], fuel).spec_has(a) && spec_args_all_have(
            modules,
            s,
            args.drop_first(),
            a,
            fuel,
        )
    }
}

/// Executable form of [`spec_non_phantom`].
fn non_phantom_args(args: &Vec<Type>, tps: &Vec<StructTypeParameter>) -> (r: Vec<Type>)
    ensures
        view_types(r@) == spec_non_phantom(view_types(args@), tps@),
{
    let ghost wargs = view_types(args@);
    let ghost wtps = tps@;
    proof {
        crate::ast::lemma_view_types_index(args@);
    }
    let mut out: Vec<Type> = Vec::new();
    let mut i: usize = 0;
    proof {
        assert(view_types(out@) =~= Seq::<SpecType>::empty());
        assert(wargs.skip(0) =~= wargs);
        assert(wtps.skip(0) =~= wtps);
    }
    while i < args.len() && i < tps.len()
        invariant
            0 <= i <= wargs.len(),
            i <= wtps.len(),
            wargs == view_types(args@),
            wargs.len() == args@.len(),
            forall|k: int| 0 <= k < args@.len() ==> wargs[k] == view_type(args@[k]),
            wtps == tps@,
            spec_non_phantom(wargs, wtps) == view_types(out@) + spec_non_phantom(
                wargs.skip(i as int),
                wtps.skip(i as int),
            ),
        decreases wargs.len() - i,
    {
        proof {
            assert(wargs.skip(i as int)[0] == wargs[i as int]);
            assert(wargs.skip(i as int).drop_first() =~= wargs.skip(i + 1));
            assert(wtps.skip(i as int)[0] == wtps[i as int]);
            assert(wtps.skip(i as int).drop_first() =~= wtps.skip(i + 1));
        }
        if !tps[i].is_phantom {
            let ghost out_before = out@;
            out.push(args[i].deep_clone());
            proof {
                crate::ast::lemma_view_types_push(out_before, out@.last());
                assert(view_types(out@) =~= view_types(out_before).push(wargs[i as int]));
                assert(view_types(out@) + spec_non_phantom(wargs.skip(i + 1), wtps.skip(i + 1))
                    =~= view_types(out_before) + (seq![wargs[i as int]] + spec_non_phantom(
                    wargs.skip(i + 1),
                    wtps.skip(i + 1),
                )));
            }
        }
        i = i + 1;
    }
    proof {
        if i >= wargs.len() {
            assert(wargs.skip(i as int) =~= Seq::<SpecType>::empty());
            assert(spec_non_phantom(wargs.skip(i as int), wtps.skip(i as int)) =~= Seq::<
                SpecType,
            >::empty());
        } else {
            assert(wtps.skip(i as int) =~= Seq::<StructTypeParameter>::empty());
            assert(spec_non_phantom(wargs.skip(i as int), wtps.skip(i as int)) =~= Seq::<
                SpecType,
            >::empty());
        }
        assert(view_types(out@) + Seq::<SpecType>::empty() =~= view_types(out@));
    }
    out
}

/// Executable form of [`spec_args_all_have`].
fn args_all_have(
    info: &ProgramInfo,
    s: &Subst,
    args: &Vec<Type>,
    a: Ability,
    fuel: u64,
) -> (r: bool)
    ensures
        r == spec_args_all_have(info.modules@, s@, view_types(args@), a, fuel as nat),
    decreases fuel, 2nat, args@.len(),
{
    let ghost whole = view_types(args@);
    proof {
        crate::ast::lemma_view_types_index(args@);
    }
    let mut i: usize = 0;
    proof {
        assert(whole.skip(0) =~= whole);
    }
    while i < args.len()
        invariant
            0 <= i <= args@.len(),
            whole == view_types(args@),
            whole.len() == args@.len(),
            forall|k: int| 0 <= k < args@.len() ==> whole[k] == view_type(args@[k]),
            spec_args_all_have(info.modules@, s@, whole, a, fuel as nat) == spec_args_all_have(
                info.modules@,
                s@,
                whole.skip(i as int),
                a,
                fuel as nat,
            ),
        decreases args@.len() - i,
    {
        proof {
            assert(whole.skip(i as int)[0] == whole[i as int]);
            assert(whole.skip(i as int).drop_first() =~= whole.skip(i + 1));
        }
        let ab = infer_abilities_impl(info, s, &args[i], fuel);
        if !ab.has_ability(a) {
            return false;
        }
        i = i + 1;
    }
    proof {
        assert(whole.skip(args@.len() as int) =~= Seq::<SpecType>::empty());
    }
    true
}

/// Executable form of [`spec_infer_abilities`], with an explicit budget.
fn infer_abilities_impl(info: &ProgramInfo, s: &Subst, ty: &Type, fuel: u64) -> (r: AbilitySet)
    ensures
        r == spec_infer_abilities(info.modules@, s@, ty@, fuel as nat),
    decreases fuel, 0nat, 0nat,
{
    let loc = ty.loc;
    if fuel == 0 {
        return AbilitySet::all(loc);
    }
    let u = crate::subst::unfold_type(s, ty);
    match &u.value {
        Type_::Unit => AbilitySet::collection(loc),
        Type_::Ref(_, _) => AbilitySet::references(loc),
        Type_::Var(_) => AbilitySet::all(loc),
        Type_::AutoRef(_, _) => AbilitySet::all(loc),
        Type_::UnresolvedError | Type_::Anything => AbilitySet::all(loc),
        Type_::Param(tp) => tp.abilities,
        Type_::Fun(_, _) => AbilitySet::functions(),
        Type_::Apply(k_opt, n, ty_args) => match k_opt {
            Some(abilities) => *abilities,
            None => {
                let decl_args: Option<(AbilitySet, Vec<Type>)> = match &n.value {
                    TypeName_::Multiple(_) => Some(
                        (AbilitySet::collection(loc), crate::ast::deep_clone_types(ty_args)),
                    ),
                    TypeName_::Builtin(b) => Some(
                        (
                            b.value.declared_abilities(b.loc),
                            crate::ast::deep_clone_types(ty_args),
                        ),
                    ),
                    TypeName_::ModuleType(mi, sn) => {
                        let sdef_opt = match info.module_info(&mi.value) {
                            Some(minfo) => minfo.struct_definition(sn.value),
                            None => None,
                        };
                        match sdef_opt {
                            Some(sdef) => Some(
                                (
                                    sdef.abilities,
                                    non_phantom_args(ty_args, &sdef.type_parameters),
                                ),
                            ),
                            None => None,
                        }
                    },
                };
                match decl_args {
                    None => AbilitySet::all(loc),
                    Some((declared, args)) => {
                        let keep_copy = match declared.copy_loc {
                            Some(_) => args_all_have(
                                info,
                                s,
                                &args,
                                Ability::Copyable.requires_ability(),
                                fuel - 1,
                            ),
                            None => false,
                        };
                        let keep_drop = match declared.drop_loc {
                            Some(_) => args_all_have(
                                info,
                                s,
                                &args,
                                Ability::Droppable.requires_ability(),
                                fuel - 1,
                            ),
                            None => false,
                        };
                        let keep_store = match declared.store_loc {
                            Some(_) => args_all_have(
                                info,
                                s,
                                &args,
                                Ability::Storable.requires_ability(),
                                fuel - 1,
                            ),
                            None => false,
                        };
                        let keep_key = match declared.key_loc {
                            Some(_) => args_all_have(
                                info,
                                s,
                                &args,
                                Ability::Keyable.requires_ability(),
                                fuel - 1,
                            ),
                            None => false,
                        };
                        AbilitySet {
                            copy_loc: if keep_copy {
                                declared.copy_loc
                            } else {
                                None
                            },
                            drop_loc: if keep_drop {
                                declared.drop_loc
                            } else {
                                None
                            },
                            store_loc: if keep_store {
                                declared.store_loc
                            } else {
                                None
                            },
                            key_loc: if keep_key {
                                declared.key_loc
                            } else {
                                None
                            },
                        }
                    },
                }
            },
        },
    }
}

/// The abilities the type carries under the store: the public entry, with
/// the standard budget.
pub fn infer_abilities(info: &ProgramInfo, subst: &Subst, ty: &Type) -> (r: AbilitySet)
    ensures
        r == spec_infer_abilities(
            info.modules@,
            subst@,
            ty@,
            spec_expansion_budget(subst@, ty@) as nat,
        ),
{
    let fuel = subst.expansion_budget(ty);
    infer_abilities_impl(info, subst, ty, fuel)
}

} // verus!
