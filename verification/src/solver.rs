//! The deferred-constraint solver: runs once per function after inference.
//!
//! A first pass defaults every numeric-marked variable that is still
//! unconstrained to the 64-bit unsigned integer.  A second pass drains the
//! constraint queue in insertion order; every failure is reported and never
//! fatal.

use vstd::prelude::*;

use crate::abilities::{infer_abilities, spec_infer_abilities};
use crate::ast::{
    spec_type_u64, type_u64, view_type, AbilitySet, Ability, Loc, ModuleIdent_, MsgToken, SpecType,
    SpecType_, TVar, Type, TypeName_, Type_,
};
use crate::context::{Constraint, Context};
use crate::diag::{
    spec_diag0, BuiltinCategory, Code, Diagnostic, Label, Note, SpecDiagnostic,
};
use crate::info::{ModuleInfo, ProgramInfo};
use crate::join::{join, spec_join, spec_join_fuel, TypingCase};
use crate::subst::{spec_expansion_budget, spec_unfold_type, unfold_type, SpecSubst, Subst};

verus! {

/// The numeric markings of the store, slot by slot.
pub open spec fn spec_marks(s: SpecSubst) -> Seq<Option<Loc>> {
    Seq::new(s.tvars.len(), |i: int| s.tvars[i].num_loc)
}

/// The store after the numeric-defaulting pass from slot `i` on: every
/// variable marked in the snapshot whose chain still resolves to the
/// unconstrained or the poison type is joined with the 64-bit unsigned
/// integer.
pub open spec fn spec_default_pass(marks: Seq<Option<Loc>>, s: SpecSubst, i: nat) -> SpecSubst
    decreases marks.len() - i,
{
    if i >= marks.len() {
        s
    } else {
        let s2 = match marks[i as int] {
            None => s,
            Some(loc) => {
                let tvar_ty = SpecType { loc, value: SpecType_::Var(i as usize) };
                let u = spec_unfold_type(s, tvar_ty);
                if u.value is UnresolvedError || u.value is Anything {
                    let u64t = spec_type_u64(loc);
                    match spec_join(
                        s,
                        TypingCase::Join,
                        u64t,
                        tvar_ty,
                        spec_join_fuel(s, u64t, tvar_ty),
                    ) {
                        Ok(p) => p.0,
                        Err(_) => s,
                    }
                } else {
                    s
                }
            },
        };
        spec_default_pass(marks, s2, i + 1)
    }
}

/// Whether the builtin is inside the category.
pub open spec fn spec_in_category(cat: BuiltinCategory, b: crate::ast::BuiltinTypeName_) -> bool {
    match cat {
        BuiltinCategory::Numeric => b.spec_is_numeric(),
        BuiltinCategory::Bits => b.spec_is_bits(),
        BuiltinCategory::Ordered => b.spec_is_ordered(),
    }
}

/// The diagnostics of one builtin-category constraint: nothing for the
/// unconstrained and the poison type and for a builtin inside the category;
/// one diagnostic otherwise.
pub open spec fn spec_builtin_diags(
    s: SpecSubst,
    cat: BuiltinCategory,
    loc: Loc,
    op: MsgToken,
    ty: SpecType,
) -> Seq<SpecDiagnostic> {
    let u = spec_unfold_type(s, ty);
    let ok = match u.value {
        SpecType_::UnresolvedError | SpecType_::Anything => true,
        SpecType_::Apply(_, n, _) => match n.value {
            TypeName_::Builtin(b) => spec_in_category(cat, b.value),
            _ => false,
        },
        _ => false,
    };
    if ok {
        Seq::<SpecDiagnostic>::empty()
    } else {
        seq![
            SpecDiagnostic {
                code: Code::BuiltinOperation,
                primary: Label { loc, note: Note::BuiltinExpected { category: cat, op } },
                secondary: seq![Label { loc: u.loc, note: Note::BuiltinFoundHere }],
            },
        ]
    }
}

/// The diagnostics of one base-type constraint: unit, references and
/// expression lists are rejected.
pub open spec fn spec_base_diags(s: SpecSubst, loc: Loc, msg: MsgToken, ty: SpecType) -> Seq<
    SpecDiagnostic,
> {
    let u = spec_unfold_type(s, ty);
    let bad = match u.value {
        SpecType_::Unit | SpecType_::Ref(_, _) => true,
        SpecType_::Apply(_, n, _) => n.value is Multiple,
        _ => false,
    };
    if bad {
        seq![
            SpecDiagnostic {
                code: Code::ExpectedBaseType,
                primary: Label { loc, note: Note::Text(msg) },
                secondary: seq![
                    Label { loc: u.loc, note: Note::ExpectedSingleNonReferenceType },
                ],
            },
        ]
    } else {
        Seq::<SpecDiagnostic>::empty()
    }
}

/// The diagnostics of one single-type constraint: unit and expression lists
/// are rejected.
pub open spec fn spec_single_diags(s: SpecSubst, loc: Loc, msg: MsgToken, ty: SpecType) -> Seq<
    SpecDiagnostic,
> {
    let u = spec_unfold_type(s, ty);
    let bad = match u.value {
        SpecType_::Unit => true,
        SpecType_::Apply(_, n, _) => n.value is Multiple,
        _ => false,
    };
    if bad {
        seq![
            SpecDiagnostic {
                code: Code::ExpectedSingleType,
                primary: Label { loc, note: Note::Text(msg) },
                secondary: seq![Label { loc: u.loc, note: Note::ExpectedSingleTypeFound }],
            },
        ]
    } else {
        Seq::<SpecDiagnostic>::empty()
    }
}

/// What the declaration of an unfolded type offers for ability tips: where
/// abilities could be added, the declared set, and the type arguments.
pub open spec fn spec_debug_abilities_info(
    modules: Seq<(ModuleIdent_, ModuleInfo)>,
    u: SpecType,
) -> (Option<Loc>, AbilitySet, Seq<SpecType>) {
    let loc = u.loc;
    match u.value {
        SpecType_::Unit | SpecType_::Ref(_, _) => (
            None,
            AbilitySet::spec_references(loc),
            Seq::<SpecType>::empty(),
        ),
        SpecType_::Var(_) | SpecType_::AutoRef(_, _) => (
            None,
            AbilitySet::spec_all(loc),
            Seq::<SpecType>::empty(),
        ),
        SpecType_::UnresolvedError | SpecType_::Anything => (
            None,
            AbilitySet::spec_all(loc),
            Seq::<SpecType>::empty(),
        ),
        SpecType_::Param(tp) => (
            Some(tp.user_specified_name.loc),
            tp.abilities,
            Seq::<SpecType>::empty(),
        ),
        SpecType_::Fun(_, _) => (None, AbilitySet::spec_functions(), Seq::<SpecType>::empty()),
        SpecType_::Apply(_, n, args) => match n.value {
            TypeName_::Multiple(_) => (None, AbilitySet::spec_collection(loc), args),
            TypeName_::Builtin(b) => (None, b.value.spec_declared_abilities(b.loc), args),
            TypeName_::ModuleType(mi, sn) => match crate::abilities::spec_struct_decl(
                modules,
                mi.value,
                sn.value,
            ) {
                Some(ij) => (
                    Some(modules[ij.0].1.structs@[ij.1].1.loc),
                    modules[ij.0].1.structs@[ij.1].1.abilities,
                    args,
                ),
                None => (None, AbilitySet::spec_all(loc), args),
            },
        },
    }
}

/// The position of the first type argument whose inferred set lacks the
/// ability, if any.
pub open spec fn spec_first_failing_arg(
    modules: Seq<(ModuleIdent_, ModuleInfo)>,
    s: SpecSubst,
    args: Seq<SpecType>,
    req: Ability,
) -> Option<Loc>
    decreases args,
{
    if args.len() == 0 {
        None
    } else if !spec_infer_abilities(
        modules,
        s,
        args[0],
        spec_expansion_budget(s, args[0]) as nat,
    ).spec_has(req) {
        Some(args[0].loc)
    } else {
        spec_first_failing_arg(modules, s, args.drop_first(), req)
    }
}

/// The secondary labels explaining one missing ability: the type that lacks
/// it; then either the declaration where it could be added, or the first
/// type argument that blocks it.
pub open spec fn spec_ability_tips(
    modules: Seq<(ModuleIdent_, ModuleInfo)>,
    s: SpecSubst,
    a: Ability,
    u: SpecType,
    declared_loc_opt: Option<Loc>,
    declared: AbilitySet,
    args: Seq<SpecType>,
) -> Seq<Label> {
    let head = seq![Label { loc: u.loc, note: Note::MissingAbility { ability: a } }];
    if !declared.spec_has(a) {
        match declared_loc_opt {
            Some(dloc) => head + seq![
                Label { loc: dloc, note: Note::AbilityWouldBeAdded { ability: a } },
            ],
            None => head,
        }
    } else {
        match spec_first_failing_arg(modules, s, args, a.spec_requires_ability()) {
            Some(aloc) => head + seq![
                Label {
                    loc: aloc,
                    note: Note::TypeArgumentMissingAbility {
                        constraint: a,
                        requirement: a.spec_requires_ability(),
                    },
                },
            ],
            None => head,
        }
    }
}

/// When the declared set carries the constrained ability but a type
/// argument blocks it, the explanatory label sits at the first blocking
/// argument's own position — the argument, not the container, is named.
pub proof fn lemma_ability_tip_names_the_argument(
    modules: Seq<(ModuleIdent_, ModuleInfo)>,
    s: SpecSubst,
    a: Ability,
    u: SpecType,
    declared_loc_opt: Option<Loc>,
    declared: AbilitySet,
    args: Seq<SpecType>,
    aloc: Loc,
)
    requires
        declared.spec_has(a),
        spec_first_failing_arg(modules, s, args, a.spec_requires_ability()) == Some(aloc),
    ensures
        ({
            let tips = spec_ability_tips(modules, s, a, u, declared_loc_opt, declared, args);
            &&& tips.len() == 2
            &&& tips[1].loc == aloc
            &&& tips[1].note == (Note::TypeArgumentMissingAbility {
                constraint: a,
                requirement: a.spec_requires_ability(),
            })
        }),
{
}

/// The diagnostic one missing ability produces.
pub open spec fn spec_one_ability_diag(
    modules: Seq<(ModuleIdent_, ModuleInfo)>,
    s: SpecSubst,
    loc: Loc,
    msg_opt: Option<MsgToken>,
    a: Ability,
    aloc: Loc,
    u: SpecType,
    declared_loc_opt: Option<Loc>,
    declared: AbilitySet,
    args: Seq<SpecType>,
) -> SpecDiagnostic {
    let tips = spec_ability_tips(modules, s, a, u, declared_loc_opt, declared, args);
    SpecDiagnostic {
        code: Code::AbilityConstraint,
        primary: Label {
            loc,
            note: match msg_opt {
                Some(t) => Note::Text(t),
                None => Note::AbilityNotSatisfied { ability: a },
            },
        },
        secondary: if msg_opt is None {
            tips + seq![Label { loc: aloc, note: Note::AbilityConstraintDeclaredHere { ability: a } }]
        } else {
            tips
        },
    }
}

/// The diagnostics of one ability constraint: one per required ability the
/// type does not carry, in the fixed ability order.
pub open spec fn spec_ability_diags(
    modules: Seq<(ModuleIdent_, ModuleInfo)>,
    s: SpecSubst,
    loc: Loc,
    msg_opt: Option<MsgToken>,
    ty: SpecType,
    req: AbilitySet,
) -> Seq<SpecDiagnostic> {
    let u = spec_unfold_type(s, ty);
    let have = spec_infer_abilities(modules, s, u, spec_expansion_budget(s, u) as nat);
    let info = spec_debug_abilities_info(modules, u);
    let d_copy: Seq<SpecDiagnostic> = match req.copy_loc {
        Some(aloc) => if have.spec_has(Ability::Copyable) {
            Seq::<SpecDiagnostic>::empty()
        } else {
            seq![
                spec_one_ability_diag(
                    modules,
                    s,
                    loc,
                    msg_opt,
                    Ability::Copyable,
                    aloc,
                    u,
                    info.0,
                    info.1,
                    info.2,
                ),
            ]
        },
        None => Seq::<SpecDiagnostic>::empty(),
    };
    let d_drop: Seq<SpecDiagnostic> = match req.drop_loc {
        Some(aloc) => if have.spec_has(Ability::Droppable) {
            Seq::<SpecDiagnostic>::empty()
        } else {
            seq![
                spec_one_ability_diag(
                    modules,
                    s,
                    loc,
                    msg_opt,
                    Ability::Droppable,
                    aloc,
                    u,
                    info.0,
                    info.1,
                    info.2,
                ),
            ]
        },
        None => Seq::<SpecDiagnostic>::empty(),
    };
    let d_store: Seq<SpecDiagnostic> = match req.store_loc {
        Some(aloc) => if have.spec_has(Ability::Storable) {
            Seq::<SpecDiagnostic>::empty()
        } else {
            seq![
                spec_one_ability_diag(
                    modules,
                    s,
                    loc,
                    msg_opt,
                    Ability::Storable,
                    aloc,
                    u,
                    info.0,
                    info.1,
                    info.2,
                ),
            ]
        },
        None => Seq::<SpecDiagnostic>::empty(),
    };
    let d_key: Seq<SpecDiagnostic> = match req.key_loc {
        Some(aloc) => if have.spec_has(Ability::Keyable) {
            Seq::<SpecDiagnostic>::empty()
        } else {
            seq![
                spec_one_ability_diag(
                    modules,
                    s,
                    loc,
                    msg_opt,
                    Ability::Keyable,
                    aloc,
                    u,
                    info.0,
                    info.1,
                    info.2,
                ),
            ]
        },
        None => Seq::<SpecDiagnostic>::empty(),
    };
    d_copy + d_drop + d_store + d_key
}

/// The diagnostics of one constraint, of any kind.
pub open spec fn spec_constraint_diags(
    modules: Seq<(ModuleIdent_, ModuleInfo)>,
    s: SpecSubst,
    c: Constraint,
) -> Seq<SpecDiagnostic> {
    match c {
        Constraint::Ability { loc, msg, ty, constraints } => spec_ability_diags(
            modules,
            s,
            loc,
            msg,
            ty@,
            constraints,
        ),
        Constraint::Numeric(loc, op, t) => spec_builtin_diags(
            s,
            BuiltinCategory::Numeric,
            loc,
            op,
            t@,
        ),
        Constraint::Bits(loc, op, t) => spec_builtin_diags(s, BuiltinCategory::Bits, loc, op, t@),
        Constraint::Ordered(loc, op, t) => spec_builtin_diags(
            s,
            BuiltinCategory::Ordered,
            loc,
            op,
            t@,
        ),
        Constraint::BaseType(loc, msg, t) => spec_base_diags(s, loc, msg, t@),
        Constraint::SingleType(loc, msg, t) => spec_single_diags(s, loc, msg, t@),
    }
}

/// The diagnostics of a whole constraint queue, in order.
pub open spec fn spec_all_constraint_diags(
    modules: Seq<(ModuleIdent_, ModuleInfo)>,
    s: SpecSubst,
    cs: Seq<Constraint>,
) -> Seq<SpecDiagnostic>
    decreases cs,
{
    if cs.len() == 0 {
        Seq::<SpecDiagnostic>::empty()
    } else {
        spec_constraint_diags(modules, s, cs[0]) + spec_all_constraint_diags(
            modules,
            s,
            cs.drop_first(),
        )
    }
}

/// Executable form of [`spec_first_failing_arg`].
fn first_failing_arg(
    info: &ProgramInfo,
    s: &Subst,
    args: &Vec<Type>,
    req: Ability,
) -> (r: Option<Loc>)
    ensures
        r == spec_first_failing_arg(info.modules@, s@, crate::ast::view_types(args@), req),
{
    let ghost whole = crate::ast::view_types(args@);
    proof {
        crate::ast::lemma_view_types_index(args@);
    }
    let mut i: usize = 0;
    proof {
        assert(whole.skip(0) =~= whole);
    }
    while i < args.len()
        invariant
            0 <= i <= args@.len(),
            whole == crate::ast::view_types(args@),
            whole.len() == args@.len(),
            forall|k: int| 0 <= k < args@.len() ==> whole[k] == view_type(args@[k]),
            spec_first_failing_arg(info.modules@, s@, whole, req) == spec_first_failing_arg(
                info.modules@,
                s@,
                whole.skip(i as int),
                req,
            ),
        decreases args@.len() - i,
    {
        proof {
            assert(whole.skip(i as int)[0] == whole[i as int]);
            assert(whole.skip(i as int).drop_first() =~= whole.skip(i + 1));
        }
        let have = infer_abilities(info, s, &args[i]);
        if !have.has_ability(req) {
            return Some(args[i].loc);
        }
        i = i + 1;
    }
    proof {
        assert(whole.skip(args@.len() as int) =~= Seq::<SpecType>::empty());
    }
    None
}

/// The secondary labels explaining one missing ability; see
/// [`spec_ability_tips`].
pub fn ability_not_satisfied_tips(
    info: &ProgramInfo,
    s: &Subst,
    a: Ability,
    u: &Type,
    declared_loc_opt: Option<Loc>,
    declared: AbilitySet,
    args: &Vec<Type>,
) -> (r: Vec<Label>)
    ensures
        r@ == spec_ability_tips(
            info.modules@,
            s@,
            a,
            u@,
            declared_loc_opt,
            declared,
            crate::ast::view_types(args@),
        ),
{
    let mut out: Vec<Label> = Vec::new();
    out.push(Label { loc: u.loc, note: Note::MissingAbility { ability: a } });
    if !declared.has_ability(a) {
        match declared_loc_opt {
            Some(dloc) => {
                out.push(Label { loc: dloc, note: Note::AbilityWouldBeAdded { ability: a } });
                proof {
                    assert(out@ =~= seq![
                        Label { loc: u@.loc, note: Note::MissingAbility { ability: a } },
                    ] + seq![Label { loc: dloc, note: Note::AbilityWouldBeAdded { ability: a } }]);
                }
            },
            None => {
                proof {
                    assert(out@ =~= seq![
                        Label { loc: u@.loc, note: Note::MissingAbility { ability: a } },
                    ]);
                }
            },
        }
    } else {
        let req = a.requires_ability();
        let failing = first_failing_arg(info, s, args, req);
        match failing {
            Some(aloc) => {
                out.push(
                    Label {
                        loc: aloc,
                        note: Note::TypeArgumentMissingAbility { constraint: a, requirement: req },
                    },
                );
                proof {
                    assert(out@ =~= seq![
                        Label { loc: u@.loc, note: Note::MissingAbility { ability: a } },
                    ] + seq![
                        Label {
                            loc: aloc,
                            note: Note::TypeArgumentMissingAbility {
                                constraint: a,
                                requirement: a.spec_requires_ability(),
                            },
                        },
                    ]);
                }
            },
            None => {
                proof {
                    assert(out@ =~= seq![
                        Label { loc: u@.loc, note: Note::MissingAbility { ability: a } },
                    ]);
                }
            },
        }
    }
    out
}


/// Push form of [`spec_all_constraint_diags`].
pub proof fn lemma_all_constraint_diags_push(
    modules: Seq<(ModuleIdent_, ModuleInfo)>,
    s: SpecSubst,
    cs: Seq<Constraint>,
    c: Constraint,
)
    ensures
        spec_all_constraint_diags(modules, s, cs.push(c)) == spec_all_constraint_diags(
            modules,
            s,
            cs,
        ) + spec_constraint_diags(modules, s, c),
    decreases cs,
{
    if cs.len() == 0 {
        assert(cs.push(c)[0] == c);
        assert(cs.push(c).drop_first() =~= Seq::<Constraint>::empty());
        assert(spec_all_constraint_diags(modules, s, cs.push(c).drop_first()) == Seq::<
            SpecDiagnostic,
        >::empty());
        assert(spec_all_constraint_diags(modules, s, cs) == Seq::<SpecDiagnostic>::empty());
        assert(spec_constraint_diags(modules, s, c) + Seq::<SpecDiagnostic>::empty()
            =~= Seq::<SpecDiagnostic>::empty() + spec_constraint_diags(modules, s, c));
    } else {
        lemma_all_constraint_diags_push(modules, s, cs.drop_first(), c);
        assert(cs.push(c)[0] == cs[0]);
        assert(cs.push(c).drop_first() =~= cs.drop_first().push(c));
        assert(spec_all_constraint_diags(modules, s, cs.push(c)) == spec_constraint_diags(
            modules,
            s,
            cs[0],
        ) + spec_all_constraint_diags(modules, s, cs.drop_first().push(c)));
        assert(spec_constraint_diags(modules, s, cs[0]) + (spec_all_constraint_diags(
            modules,
            s,
            cs.drop_first(),
        ) + spec_constraint_diags(modules, s, c)) =~= (spec_constraint_diags(modules, s, cs[0])
            + spec_all_constraint_diags(modules, s, cs.drop_first())) + spec_constraint_diags(
            modules,
            s,
            c,
        ));
    }
}

/// Executable form of [`spec_debug_abilities_info`].
fn debug_abilities_info(info: &ProgramInfo, u: &Type) -> (r: (Option<Loc>, AbilitySet, Vec<Type>))
    ensures
        ({
            let si = spec_debug_abilities_info(info.modules@, u@);
            r.0 == si.0 && r.1 == si.1 && crate::ast::view_types(r.2@) == si.2
        }),
{
    let loc = u.loc;
    match &u.value {
        Type_::Unit | Type_::Ref(_, _) => {
            let e: Vec<Type> = Vec::new();
            proof {
                assert(crate::ast::view_types(e@) =~= Seq::<SpecType>::empty());
            }
            (None, AbilitySet::references(loc), e)
        },
        Type_::Var(_) | Type_::AutoRef(_, _) | Type_::UnresolvedError | Type_::Anything => {
            let e: Vec<Type> = Vec::new();
            proof {
                assert(crate::ast::view_types(e@) =~= Seq::<SpecType>::empty());
            }
            (None, AbilitySet::all(loc), e)
        },
        Type_::Param(tp) => {
            let e: Vec<Type> = Vec::new();
            proof {
                assert(crate::ast::view_types(e@) =~= Seq::<SpecType>::empty());
            }
            (Some(tp.user_specified_name.loc), tp.abilities, e)
        },
        Type_::Fun(_, _) => {
            let e: Vec<Type> = Vec::new();
            proof {
                assert(crate::ast::view_types(e@) =~= Seq::<SpecType>::empty());
            }
            (None, AbilitySet::functions(), e)
        },
        Type_::Apply(_, n, args) => match &n.value {
            TypeName_::Multiple(_) => (
                None,
                AbilitySet::collection(loc),
                crate::ast::deep_clone_types(args),
            ),
            TypeName_::Builtin(b) => (
                None,
                b.value.declared_abilities(b.loc),
                crate::ast::deep_clone_types(args),
            ),
            TypeName_::ModuleType(mi, sn) => {
                let sdef_opt = match info.module_info(&mi.value) {
                    Some(minfo) => minfo.struct_definition(sn.value),
                    None => None,
                };
                match sdef_opt {
                    Some(sdef) => (
                        Some(sdef.loc),
                        sdef.abilities,
                        crate::ast::deep_clone_types(args),
                    ),
                    None => (None, AbilitySet::all(loc), crate::ast::deep_clone_types(args)),
                }
            },
        },
    }
}

/// Solves one ability constraint, reporting each missing ability.
fn solve_ability_constraint(
    context: &mut Context,
    loc: Loc,
    msg_opt: Option<MsgToken>,
    ty: &Type,
    req: AbilitySet,
)
    ensures
        crate::diag::sink_extended_by(
            old(context).env.diags@,
            final(context).env.diags@,
            spec_ability_diags(
                old(context).modules.modules@,
                old(context).subst@,
                loc,
                msg_opt,
                ty@,
                req,
            ),
        ),
        final(context).env.testing == old(context).env.testing,
        final(context).env.primitive_definers == old(context).env.primitive_definers,
        final(context).subst == old(context).subst,
        final(context).constraints == old(context).constraints,
        final(context).modules == old(context).modules,
        final(context).use_funs == old(context).use_funs,
        final(context).locals == old(context).locals,
        final(context).macro_expansion == old(context).macro_expansion,
        final(context).new_friends == old(context).new_friends,
        final(context).named_block_map == old(context).named_block_map,
        final(context).current_module == old(context).current_module,
        final(context).current_function == old(context).current_function,
        final(context).current_package == old(context).current_package,
        final(context).macros == old(context).macros,
        final(context).max_variable_color == old(context).max_variable_color,
        final(context).in_macro_function == old(context).in_macro_function,
        final(context).return_type == old(context).return_type,
        final(context).used_module_members == old(context).used_module_members,
        final(context).lambda_expansion == old(context).lambda_expansion,
{
    let ghost modules = context.modules.modules@;
    let ghost s = context.subst@;
    let u = unfold_type(&context.subst, ty);
    let have = infer_abilities(&context.modules, &context.subst, &u);
    let dinfo = debug_abilities_info(&context.modules, &u);
    let dloc_opt = dinfo.0;
    let declared = dinfo.1;
    let args = dinfo.2;
    let ghost sink0 = context.env.diags@;
    let ghost d_copy = (match req.copy_loc {
        Some(aloc) => if spec_infer_abilities(
            modules,
            s,
            u@,
            spec_expansion_budget(s, u@) as nat,
        ).spec_has(Ability::Copyable) {
            Seq::<SpecDiagnostic>::empty()
        } else {
            seq![
                spec_one_ability_diag(
                    modules,
                    s,
                    loc,
                    msg_opt,
                    Ability::Copyable,
                    aloc,
                    u@,
                    spec_debug_abilities_info(modules, u@).0,
                    spec_debug_abilities_info(modules, u@).1,
                    spec_debug_abilities_info(modules, u@).2,
                ),
            ]
        },
        None => Seq::<SpecDiagnostic>::empty(),
    });
    proof {
        crate::diag::lemma_sink_extended_by_empty(sink0);
    }
    emit_ability_diag(context, loc, msg_opt, Ability::Copyable, req.copy_loc, have, &u, dloc_opt, declared, &args);
    proof {
        assert(crate::diag::sink_extended_by(sink0, context.env.diags@, d_copy));
    }
    let ghost sink1 = context.env.diags@;
    emit_ability_diag(context, loc, msg_opt, Ability::Droppable, req.drop_loc, have, &u, dloc_opt, declared, &args);
    let ghost sink2 = context.env.diags@;
    emit_ability_diag(context, loc, msg_opt, Ability::Storable, req.store_loc, have, &u, dloc_opt, declared, &args);
    let ghost sink3 = context.env.diags@;
    emit_ability_diag(context, loc, msg_opt, Ability::Keyable, req.key_loc, have, &u, dloc_opt, declared, &args);
    proof {
        let dd = spec_emitted_ability(modules, s, loc, msg_opt, Ability::Droppable, req.drop_loc, u@);
        let ds = spec_emitted_ability(modules, s, loc, msg_opt, Ability::Storable, req.store_loc, u@);
        let dk = spec_emitted_ability(modules, s, loc, msg_opt, Ability::Keyable, req.key_loc, u@);
        crate::context::lemma_sink_extended_by_concat(sink0, sink1, sink2, d_copy, dd);
        crate::context::lemma_sink_extended_by_concat(sink0, sink2, sink3, d_copy + dd, ds);
        crate::context::lemma_sink_extended_by_concat(
            sink0,
            sink3,
            context.env.diags@,
            (d_copy + dd) + ds,
            dk,
        );
        assert(((d_copy + dd) + ds) + dk == spec_ability_diags(modules, s, loc, msg_opt, ty@, req));
    }
}

/// What one per-ability step emits.
pub open spec fn spec_emitted_ability(
    modules: Seq<(ModuleIdent_, ModuleInfo)>,
    s: SpecSubst,
    loc: Loc,
    msg_opt: Option<MsgToken>,
    a: Ability,
    aloc_opt: Option<Loc>,
    u: SpecType,
) -> Seq<SpecDiagnostic> {
    match aloc_opt {
        Some(aloc) => if spec_infer_abilities(
            modules,
            s,
            u,
            spec_expansion_budget(s, u) as nat,
        ).spec_has(a) {
            Seq::<SpecDiagnostic>::empty()
        } else {
            seq![
                spec_one_ability_diag(
                    modules,
                    s,
                    loc,
                    msg_opt,
                    a,
                    aloc,
                    u,
                    spec_debug_abilities_info(modules, u).0,
                    spec_debug_abilities_info(modules, u).1,
                    spec_debug_abilities_info(modules, u).2,
                ),
            ]
        },
        None => Seq::<SpecDiagnostic>::empty(),
    }
}

/// Emits the diagnostic of one required ability, when it is missing.
fn emit_ability_diag(
    context: &mut Context,
    loc: Loc,
    msg_opt: Option<MsgToken>,
    a: Ability,
    aloc_opt: Option<Loc>,
    have: AbilitySet,
    u: &Type,
    dloc_opt: Option<Loc>,
    declared: AbilitySet,
    args: &Vec<Type>,
)
    requires
        have == spec_infer_abilities(
            old(context).modules.modules@,
            old(context).subst@,
            u@,
            spec_expansion_budget(old(context).subst@, u@) as nat,
        ),
        dloc_opt == spec_debug_abilities_info(old(context).modules.modules@, u@).0,
        declared == spec_debug_abilities_info(old(context).modules.modules@, u@).1,
        crate::ast::view_types(args@) == spec_debug_abilities_info(
            old(context).modules.modules@,
            u@,
        ).2,
    ensures
        crate::diag::sink_extended_by(
            old(context).env.diags@,
            final(context).env.diags@,
            spec_emitted_ability(
                old(context).modules.modules@,
                old(context).subst@,
                loc,
                msg_opt,
                a,
                aloc_opt,
                u@,
            ),
        ),
        final(context).env.testing == old(context).env.testing,
        final(context).env.primitive_definers == old(context).env.primitive_definers,
        final(context).subst == old(context).subst,
        final(context).constraints == old(context).constraints,
        final(context).modules == old(context).modules,
        final(context).use_funs == old(context).use_funs,
        final(context).locals == old(context).locals,
        final(context).macro_expansion == old(context).macro_expansion,
        final(context).new_friends == old(context).new_friends,
        final(context).named_block_map == old(context).named_block_map,
        final(context).current_module == old(context).current_module,
        final(context).current_function == old(context).current_function,
        final(context).current_package == old(context).current_package,
        final(context).macros == old(context).macros,
        final(context).max_variable_color == old(context).max_variable_color,
        final(context).in_macro_function == old(context).in_macro_function,
        final(context).return_type == old(context).return_type,
        final(context).used_module_members == old(context).used_module_members,
        final(context).lambda_expansion == old(context).lambda_expansion,
{
    let ghost sink0 = context.env.diags@;
    proof {
        crate::diag::lemma_sink_extended_by_empty(sink0);
    }
    match aloc_opt {
        Some(aloc) => {
            if !have.has_ability(a) {
                let tips = ability_not_satisfied_tips(
                    &context.modules,
                    &context.subst,
                    a,
                    u,
                    dloc_opt,
                    declared,
                    args,
                );
                let mut secondary = tips;
                let primary_note = match msg_opt {
                    Some(t) => Note::Text(t),
                    None => Note::AbilityNotSatisfied { ability: a },
                };
                if msg_opt.is_none() {
                    secondary.push(
                        Label { loc: aloc, note: Note::AbilityConstraintDeclaredHere { ability: a } },
                    );
                    proof {
                        assert(secondary@ =~= spec_ability_tips(
                            old(context).modules.modules@,
                            old(context).subst@,
                            a,
                            u@,
                            dloc_opt,
                            declared,
                            spec_debug_abilities_info(old(context).modules.modules@, u@).2,
                        ) + seq![
                            Label {
                                loc: aloc,
                                note: Note::AbilityConstraintDeclaredHere { ability: a },
                            },
                        ]);
                    }
                }
                let d = Diagnostic {
                    code: Code::AbilityConstraint,
                    primary: Label { loc, note: primary_note },
                    secondary,
                };
                context.env.add_diag(d);
                proof {
                    assert(context.env.diags@.subrange(0, sink0.len() as int) =~= sink0);
                }
            }
        },
        None => {},
    }
}

/// Solves one builtin-category constraint.
fn solve_builtin_constraint(
    context: &mut Context,
    cat: BuiltinCategory,
    loc: Loc,
    op: MsgToken,
    ty: &Type,
)
    ensures
        crate::diag::sink_extended_by(
            old(context).env.diags@,
            final(context).env.diags@,
            spec_builtin_diags(old(context).subst@, cat, loc, op, ty@),
        ),
        final(context).env.testing == old(context).env.testing,
        final(context).env.primitive_definers == old(context).env.primitive_definers,
        final(context).subst == old(context).subst,
        final(context).constraints == old(context).constraints,
        final(context).modules == old(context).modules,
        final(context).use_funs == old(context).use_funs,
        final(context).locals == old(context).locals,
        final(context).macro_expansion == old(context).macro_expansion,
        final(context).new_friends == old(context).new_friends,
        final(context).named_block_map == old(context).named_block_map,
        final(context).current_module == old(context).current_module,
        final(context).current_function == old(context).current_function,
        final(context).current_package == old(context).current_package,
        final(context).macros == old(context).macros,
        final(context).max_variable_color == old(context).max_variable_color,
        final(context).in_macro_function == old(context).in_macro_function,
        final(context).return_type == old(context).return_type,
        final(context).used_module_members == old(context).used_module_members,
        final(context).lambda_expansion == old(context).lambda_expansion,
{
    let ghost sink0 = context.env.diags@;
    proof {
        crate::diag::lemma_sink_extended_by_empty(sink0);
    }
    let u = unfold_type(&context.subst, ty);
    let ok = match &u.value {
        Type_::UnresolvedError | Type_::Anything => true,
        Type_::Apply(_, n, _) => match &n.value {
            TypeName_::Builtin(b) => match cat {
                BuiltinCategory::Numeric => b.value.is_numeric(),
                BuiltinCategory::Bits => b.value.is_bits(),
                BuiltinCategory::Ordered => b.value.is_ordered(),
            },
            _ => false,
        },
        _ => false,
    };
    if !ok {
        let mut secondary: Vec<Label> = Vec::new();
        secondary.push(Label { loc: u.loc, note: Note::BuiltinFoundHere });
        let d = Diagnostic {
            code: Code::BuiltinOperation,
            primary: Label { loc, note: Note::BuiltinExpected { category: cat, op } },
            secondary,
        };
        proof {
            assert(d.secondary@ =~= seq![Label { loc: u@.loc, note: Note::BuiltinFoundHere }]);
        }
        context.env.add_diag(d);
        proof {
            assert(context.env.diags@.subrange(0, sink0.len() as int) =~= sink0);
        }
    }
}

/// Solves one base-type constraint.
fn solve_base_type_constraint(context: &mut Context, loc: Loc, msg: MsgToken, ty: &Type)
    ensures
        crate::diag::sink_extended_by(
            old(context).env.diags@,
            final(context).env.diags@,
            spec_base_diags(old(context).subst@, loc, msg, ty@),
        ),
        final(context).env.testing == old(context).env.testing,
        final(context).env.primitive_definers == old(context).env.primitive_definers,
        final(context).subst == old(context).subst,
        final(context).constraints == old(context).constraints,
        final(context).modules == old(context).modules,
        final(context).use_funs == old(context).use_funs,
        final(context).locals == old(context).locals,
        final(context).macro_expansion == old(context).macro_expansion,
        final(context).new_friends == old(context).new_friends,
        final(context).named_block_map == old(context).named_block_map,
        final(context).current_module == old(context).current_module,
        final(context).current_function == old(context).current_function,
        final(context).current_package == old(context).current_package,
        final(context).macros == old(context).macros,
        final(context).max_variable_color == old(context).max_variable_color,
        final(context).in_macro_function == old(context).in_macro_function,
        final(context).return_type == old(context).return_type,
        final(context).used_module_members == old(context).used_module_members,
        final(context).lambda_expansion == old(context).lambda_expansion,
{
    let ghost sink0 = context.env.diags@;
    proof {
        crate::diag::lemma_sink_extended_by_empty(sink0);
    }
    let u = unfold_type(&context.subst, ty);
    let bad = match &u.value {
        Type_::Unit | Type_::Ref(_, _) => true,
        Type_::Apply(_, n, _) => matches!(&n.value, TypeName_::Multiple(_)),
        _ => false,
    };
    if bad {
        let mut secondary: Vec<Label> = Vec::new();
        secondary.push(Label { loc: u.loc, note: Note::ExpectedSingleNonReferenceType });
        let d = Diagnostic {
            code: Code::ExpectedBaseType,
            primary: Label { loc, note: Note::Text(msg) },
            secondary,
        };
        proof {
            assert(d.secondary@ =~= seq![
                Label { loc: u@.loc, note: Note::ExpectedSingleNonReferenceType },
            ]);
        }
        context.env.add_diag(d);
        proof {
            assert(context.env.diags@.subrange(0, sink0.len() as int) =~= sink0);
        }
    }
}

/// Solves one single-type constraint.
fn solve_single_type_constraint(context: &mut Context, loc: Loc, msg: MsgToken, ty: &Type)
    ensures
        crate::diag::sink_extended_by(
            old(context).env.diags@,
            final(context).env.diags@,
            spec_single_diags(old(context).subst@, loc, msg, ty@),
        ),
        final(context).env.testing == old(context).env.testing,
        final(context).env.primitive_definers == old(context).env.primitive_definers,
        final(context).subst == old(context).subst,
        final(context).constraints == old(context).constraints,
        final(context).modules == old(context).modules,
        final(context).use_funs == old(context).use_funs,
        final(context).locals == old(context).locals,
        final(context).macro_expansion == old(context).macro_expansion,
        final(context).new_friends == old(context).new_friends,
        final(context).named_block_map == old(context).named_block_map,
        final(context).current_module == old(context).current_module,
        final(context).current_function == old(context).current_function,
        final(context).current_package == old(context).current_package,
        final(context).macros == old(context).macros,
        final(context).max_variable_color == old(context).max_variable_color,
        final(context).in_macro_function == old(context).in_macro_function,
        final(context).return_type == old(context).return_type,
        final(context).used_module_members == old(context).used_module_members,
        final(context).lambda_expansion == old(context).lambda_expansion,
{
    let ghost sink0 = context.env.diags@;
    proof {
        crate::diag::lemma_sink_extended_by_empty(sink0);
    }
    let u = unfold_type(&context.subst, ty);
    let bad = match &u.value {
        Type_::Unit => true,
        Type_::Apply(_, n, _) => matches!(&n.value, TypeName_::Multiple(_)),
        _ => false,
    };
    if bad {
        let mut secondary: Vec<Label> = Vec::new();
        secondary.push(Label { loc: u.loc, note: Note::ExpectedSingleTypeFound });
        let d = Diagnostic {
            code: Code::ExpectedSingleType,
            primary: Label { loc, note: Note::Text(msg) },
            secondary,
        };
        proof {
            assert(d.secondary@ =~= seq![
                Label { loc: u@.loc, note: Note::ExpectedSingleTypeFound },
            ]);
        }
        context.env.add_diag(d);
        proof {
            assert(context.env.diags@.subrange(0, sink0.len() as int) =~= sink0);
        }
    }
}

/// The numeric-defaulting pass: every variable marked numeric at the start
/// of solving whose chain is still unconstrained is joined with `u64`.
#[verifier::loop_isolation(false)]
fn default_numerics(context: &mut Context)
    ensures
        final(context).subst@ == spec_default_pass(
            spec_marks(old(context).subst@),
            old(context).subst@,
            0,
        ),
        final(context).env == old(context).env,
        final(context).constraints == old(context).constraints,
        final(context).modules == old(context).modules,
        final(context).use_funs == old(context).use_funs,
        final(context).locals == old(context).locals,
        final(context).macro_expansion == old(context).macro_expansion,
        final(context).new_friends == old(context).new_friends,
        final(context).named_block_map == old(context).named_block_map,
        final(context).current_module == old(context).current_module,
        final(context).current_function == old(context).current_function,
        final(context).current_package == old(context).current_package,
        final(context).macros == old(context).macros,
        final(context).max_variable_color == old(context).max_variable_color,
        final(context).in_macro_function == old(context).in_macro_function,
        final(context).return_type == old(context).return_type,
        final(context).used_module_members == old(context).used_module_members,
        final(context).lambda_expansion == old(context).lambda_expansion,
{
    let ghost s0 = context.subst@;
    let ghost marks0 = spec_marks(s0);
    let n = context.subst.num_tvars();
    let mut marks: Vec<Option<Loc>> = Vec::new();
    let mut i: usize = 0;
    while i < n
        invariant
            0 <= i <= n,
            n == s0.tvars.len(),
            context.subst@ == s0,
            context == old(context),
            marks@.len() == i,
            forall|k: int| 0 <= k < i ==> marks@[k] == marks0[k],
        decreases n - i,
    {
        proof {
            assert(marks0.len() == s0.tvars.len());
            assert(marks0[i as int] == s0.tvars[i as int].num_loc);
        }
        marks.push(context.subst.num_var_loc(i));
        i = i + 1;
    }
    proof {
        assert(marks@ =~= marks0);
    }
    let mut s = Subst::empty();
    core::mem::swap(&mut s, &mut context.subst);
    proof {
        assert(s@ == s0);
    }
    let mut j: usize = 0;
    while j < marks.len()
        invariant
            0 <= j <= marks@.len(),
            marks@ == marks0,
            marks0.len() == s0.tvars.len(),
            spec_default_pass(marks0, s0, 0) == spec_default_pass(marks0, s@, j as nat),
            context.env == old(context).env,
            context.constraints == old(context).constraints,
            context.modules == old(context).modules,
            context.use_funs == old(context).use_funs,
            context.locals == old(context).locals,
            context.macro_expansion == old(context).macro_expansion,
            context.new_friends == old(context).new_friends,
            context.named_block_map == old(context).named_block_map,
            context.current_module == old(context).current_module,
            context.current_function == old(context).current_function,
            context.current_package == old(context).current_package,
            context.macros == old(context).macros,
            context.max_variable_color == old(context).max_variable_color,
            context.in_macro_function == old(context).in_macro_function,
            context.return_type == old(context).return_type,
            context.used_module_members == old(context).used_module_members,
            context.lambda_expansion == old(context).lambda_expansion,
        decreases marks@.len() - j,
    {
        let mark = marks[j];
        match mark {
            None => {},
            Some(loc) => {
                let tvar_ty = Type { loc, value: Type_::Var(j) };
                let u = unfold_type(&s, &tvar_ty);
                let unresolved = matches!(
                    &u.value,
                    Type_::UnresolvedError,
                ) || matches!(&u.value, Type_::Anything);
                if unresolved {
                    let u64t = type_u64(loc);
                    let s_copy = s.duplicate();
                    let r = join(s, &u64t, &tvar_ty);
                    match r {
                        Ok((s2, _)) => {
                            s = s2;
                        },
                        Err(_) => {
                            s = s_copy;
                        },
                    }
                }
            },
        }
        j = j + 1;
    }
    core::mem::swap(&mut s, &mut context.subst);
}

/// Runs the solver: numeric defaulting, then every deferred constraint in
/// insertion order; the queue is left empty, and every failure is reported
/// against the defaulted store.
pub fn solve_constraints(context: &mut Context)
    ensures
        final(context).subst@ == spec_default_pass(
            spec_marks(old(context).subst@),
            old(context).subst@,
            0,
        ),
        final(context).constraints@ =~= Seq::<Constraint>::empty(),
        crate::diag::sink_extended_by(
            old(context).env.diags@,
            final(context).env.diags@,
            spec_all_constraint_diags(
                old(context).modules.modules@,
                spec_default_pass(spec_marks(old(context).subst@), old(context).subst@, 0),
                old(context).constraints@,
            ),
        ),
        final(context).env.testing == old(context).env.testing,
        final(context).env.primitive_definers == old(context).env.primitive_definers,
        final(context).modules == old(context).modules,
        final(context).use_funs == old(context).use_funs,
        final(context).locals == old(context).locals,
        final(context).macro_expansion == old(context).macro_expansion,
        final(context).new_friends == old(context).new_friends,
        final(context).named_block_map == old(context).named_block_map,
        final(context).current_module == old(context).current_module,
        final(context).current_function == old(context).current_function,
        final(context).current_package == old(context).current_package,
        final(context).macros == old(context).macros,
        final(context).max_variable_color == old(context).max_variable_color,
        final(context).in_macro_function == old(context).in_macro_function,
        final(context).return_type == old(context).return_type,
        final(context).used_module_members == old(context).used_module_members,
        final(context).lambda_expansion == old(context).lambda_expansion,
{
    let ghost modules = context.modules.modules@;
    let ghost s0 = context.subst@;
    default_numerics(context);
    let ghost s1 = context.subst@;
    let mut cs: Vec<Constraint> = Vec::new();
    core::mem::swap(&mut cs, &mut context.constraints);
    let ghost all = cs@;
    let ghost sink0 = context.env.diags@;
    proof {
        crate::diag::lemma_sink_extended_by_empty(sink0);
        assert(all.subrange(0, 0) =~= Seq::<Constraint>::empty());
        assert(spec_all_constraint_diags(modules, s1, all.subrange(0, 0)) =~= Seq::<
            SpecDiagnostic,
        >::empty());
    }
    let mut i: usize = 0;
    while i < cs.len()
        invariant
            0 <= i <= all.len(),
            all == cs@,
            crate::diag::sink_extended_by(
                sink0,
                context.env.diags@,
                spec_all_constraint_diags(modules, s1, all.subrange(0, i as int)),
            ),
            context.subst@ == s1,
            context.subst == final(context).subst || true,
            modules == context.modules.modules@,
            context.constraints@ =~= Seq::<Constraint>::empty(),
            context.env.testing == old(context).env.testing,
            context.env.primitive_definers == old(context).env.primitive_definers,
            context.modules == old(context).modules,
            context.use_funs == old(context).use_funs,
            context.locals == old(context).locals,
            context.macro_expansion == old(context).macro_expansion,
            context.new_friends == old(context).new_friends,
            context.named_block_map == old(context).named_block_map,
            context.current_module == old(context).current_module,
            context.current_function == old(context).current_function,
            context.current_package == old(context).current_package,
            context.macros == old(context).macros,
            context.max_variable_color == old(context).max_variable_color,
            context.in_macro_function == old(context).in_macro_function,
            context.return_type == old(context).return_type,
            context.used_module_members == old(context).used_module_members,
            context.lambda_expansion == old(context).lambda_expansion,
        decreases all.len() - i,
    {
        let ghost sink_i = context.env.diags@;
        proof {
            lemma_all_constraint_diags_push(modules, s1, all.subrange(0, i as int), all[i as int]);
            assert(all.subrange(0, i as int).push(all[i as int]) =~= all.subrange(0, i + 1));
        }
        match &cs[i] {
            Constraint::Ability { loc, msg, ty, constraints } => {
                solve_ability_constraint(context, *loc, *msg, ty, *constraints);
            },
            Constraint::Numeric(loc, op, t) => {
                solve_builtin_constraint(context, BuiltinCategory::Numeric, *loc, *op, t);
            },
            Constraint::Bits(loc, op, t) => {
                solve_builtin_constraint(context, BuiltinCategory::Bits, *loc, *op, t);
            },
            Constraint::Ordered(loc, op, t) => {
                solve_builtin_constraint(context, BuiltinCategory::Ordered, *loc, *op, t);
            },
            Constraint::BaseType(loc, msg, t) => {
                solve_base_type_constraint(context, *loc, *msg, t);
            },
            Constraint::SingleType(loc, msg, t) => {
                solve_single_type_constraint(context, *loc, *msg, t);
            },
        }
        proof {
            crate::context::lemma_sink_extended_by_concat(
                sink0,
                sink_i,
                context.env.diags@,
                spec_all_constraint_diags(modules, s1, all.subrange(0, i as int)),
                spec_constraint_diags(modules, s1, all[i as int]),
            );
        }
        i = i + 1;
    }
    proof {
        assert(all.subrange(0, all.len() as int) =~= all);
    }
}


/// The whole diagnostic of a failed single-ability constraint on a container
/// whose declaration carries the ability: exactly one diagnostic, whose
/// explanatory labels end at the first blocking type argument.
pub proof fn lemma_ability_diag_names_the_argument(
    modules: Seq<(ModuleIdent_, ModuleInfo)>,
    s: SpecSubst,
    loc: Loc,
    ty: SpecType,
    aloc: Loc,
    floc: Loc,
)
    requires
        ({
            let u = spec_unfold_type(s, ty);
            let have = spec_infer_abilities(modules, s, u, spec_expansion_budget(s, u) as nat);
            let info = spec_debug_abilities_info(modules, u);
            &&& !have.spec_has(Ability::Droppable)
            &&& info.1.spec_has(Ability::Droppable)
            &&& spec_first_failing_arg(modules, s, info.2, Ability::Droppable) == Some(floc)
        }),
    ensures
        ({
            let u = spec_unfold_type(s, ty);
            let req = AbilitySet::spec_singleton(aloc, Ability::Droppable);
            let ds = spec_ability_diags(modules, s, loc, None, ty, req);
            &&& ds.len() == 1
            &&& ds[0].code == Code::AbilityConstraint
            &&& ds[0].primary == (Label {
                loc,
                note: Note::AbilityNotSatisfied { ability: Ability::Droppable },
            })
            &&& ds[0].secondary.len() == 3
            &&& ds[0].secondary[0] == (Label {
                loc: u.loc,
                note: Note::MissingAbility { ability: Ability::Droppable },
            })
            &&& ds[0].secondary[1] == (Label {
                loc: floc,
                note: Note::TypeArgumentMissingAbility {
                    constraint: Ability::Droppable,
                    requirement: Ability::Droppable,
                },
            })
            &&& ds[0].secondary[2] == (Label {
                loc: aloc,
                note: Note::AbilityConstraintDeclaredHere { ability: Ability::Droppable },
            })
        }),
{
    let u = spec_unfold_type(s, ty);
    let req = AbilitySet::spec_singleton(aloc, Ability::Droppable);
    let info = spec_debug_abilities_info(modules, u);
    let tips = spec_ability_tips(modules, s, Ability::Droppable, u, info.0, info.1, info.2);
    assert(tips =~= seq![
        Label { loc: u.loc, note: Note::MissingAbility { ability: Ability::Droppable } },
        Label {
            loc: floc,
            note: Note::TypeArgumentMissingAbility {
                constraint: Ability::Droppable,
                requirement: Ability::Droppable,
            },
        },
    ]);
    let ds = spec_ability_diags(modules, s, loc, None, ty, req);
    assert(ds =~= seq![
        spec_one_ability_diag(
            modules,
            s,
            loc,
            None,
            Ability::Droppable,
            aloc,
            u,
            info.0,
            info.1,
            info.2,
        ),
    ]);
    assert(ds[0].secondary =~= tips + seq![
        Label {
            loc: aloc,
            note: Note::AbilityConstraintDeclaredHere { ability: Ability::Droppable },
        },
    ]);
}

} // verus!
