//! The constraint solver: numeric defaulting, the builtin categories, base
//! and single types, and ability failures that name the offending type
//! argument.

use typing_core::ast::{
    Ability, AbilitySet, BuiltinTypeName, BuiltinTypeName_, Loc, Name, TParam, Type, TypeName,
    TypeName_, Type_,
};
use typing_core::context::Context;
use typing_core::diag::{Code, CompilationEnv, Note};
use typing_core::info::ProgramInfo;
use typing_core::solver::solve_constraints;

fn loc(n: u32) -> Loc {
    Loc { file: 3, start: n, end: n + 1 }
}

fn fresh_context() -> Context {
    Context::new(CompilationEnv::new(false, Vec::new()), ProgramInfo { modules: Vec::new() })
}

fn builtin(l: Loc, b: BuiltinTypeName_, args: Vec<Type>) -> Type {
    Type {
        loc: l,
        value: Type_::Apply(
            None,
            TypeName { loc: l, value: TypeName_::Builtin(BuiltinTypeName { loc: l, value: b }) },
            args,
        ),
    }
}

#[test]
fn unconstrained_numeric_variables_default_to_u64() {
    let mut c = fresh_context();
    let v = c.subst.new_num_var(loc(1));
    solve_constraints(&mut c);
    let t = Type { loc: loc(1), value: Type_::Var(v) };
    let u = typing_core::subst::unfold_type(&c.subst, &t);
    match &u.value {
        Type_::Apply(_, n, _) => {
            assert!(matches!(
                &n.value,
                TypeName_::Builtin(b) if matches!(b.value, BuiltinTypeName_::U64)
            ));
        }
        _ => panic!("a lone numeric variable must default to u64"),
    }
    assert_eq!(c.env.diags.len(), 0);
}

#[test]
fn ability_failure_names_the_type_argument() {
    let mut c = fresh_context();
    // vector<T> where the declared parameter T carries no abilities
    let t_loc = loc(77);
    let tp = TParam {
        id: 1,
        user_specified_name: Name { loc: t_loc, value: 5 },
        abilities: AbilitySet::empty(),
    };
    let elem = Type { loc: t_loc, value: Type_::Param(tp) };
    let vec_t = builtin(loc(2), BuiltinTypeName_::Vector, vec![elem]);
    c.add_ability_constraint(loc(3), None, vec_t, Ability::Droppable);
    solve_constraints(&mut c);
    assert_eq!(c.env.diags.len(), 1);
    let d = &c.env.diags[0];
    assert_eq!(d.code, Code::AbilityConstraint);
    assert!(matches!(d.primary.note, Note::AbilityNotSatisfied { ability: Ability::Droppable }));
    // the second label points at the failing argument T, not at the vector
    assert!(matches!(d.secondary[0].note, Note::MissingAbility { .. }));
    assert_eq!(d.secondary[1].loc, t_loc);
    assert!(matches!(
        d.secondary[1].note,
        Note::TypeArgumentMissingAbility {
            constraint: Ability::Droppable,
            requirement: Ability::Droppable,
        }
    ));
}

#[test]
fn ability_constraint_satisfied_stays_silent() {
    let mut c = fresh_context();
    let vec_u64 = builtin(
        loc(1),
        BuiltinTypeName_::Vector,
        vec![builtin(loc(2), BuiltinTypeName_::U64, Vec::new())],
    );
    c.add_ability_constraint(loc(3), None, vec_u64, Ability::Droppable);
    solve_constraints(&mut c);
    assert_eq!(c.env.diags.len(), 0);
}

#[test]
fn numeric_constraint_rejects_bool() {
    let mut c = fresh_context();
    let b = builtin(loc(1), BuiltinTypeName_::Bool, Vec::new());
    c.add_numeric_constraint(loc(2), 900, b);
    solve_constraints(&mut c);
    assert_eq!(c.env.diags.len(), 1);
    assert_eq!(c.env.diags[0].code, Code::BuiltinOperation);
    assert!(matches!(
        c.env.diags[0].primary.note,
        Note::BuiltinExpected { op: 900, .. }
    ));
}

#[test]
fn ordered_constraint_accepts_bool_and_address() {
    let mut c = fresh_context();
    c.add_ordered_constraint(loc(1), 901, builtin(loc(2), BuiltinTypeName_::Bool, Vec::new()));
    c.add_ordered_constraint(loc(3), 902, builtin(loc(4), BuiltinTypeName_::Address, Vec::new()));
    solve_constraints(&mut c);
    assert_eq!(c.env.diags.len(), 0);
}

#[test]
fn base_type_constraint_rejects_references_and_unit() {
    let mut c = fresh_context();
    let r = Type {
        loc: loc(1),
        value: Type_::Ref(false, Box::new(builtin(loc(2), BuiltinTypeName_::U64, Vec::new()))),
    };
    c.add_base_type_constraint(loc(3), 903, r);
    let unit = Type { loc: loc(4), value: Type_::Unit };
    c.add_single_type_constraint(loc(5), 904, unit);
    solve_constraints(&mut c);
    assert_eq!(c.env.diags.len(), 2);
    assert_eq!(c.env.diags[0].code, Code::ExpectedBaseType);
    assert_eq!(c.env.diags[1].code, Code::ExpectedSingleType);
}

#[test]
fn poison_and_unconstrained_types_pass_every_category() {
    let mut c = fresh_context();
    c.add_numeric_constraint(loc(1), 905, Type { loc: loc(2), value: Type_::UnresolvedError });
    c.add_bits_constraint(loc(3), 906, Type { loc: loc(4), value: Type_::Anything });
    solve_constraints(&mut c);
    assert_eq!(c.env.diags.len(), 0);
}
