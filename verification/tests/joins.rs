//! The unification engine on concrete types: the unit laws, reference
//! subtyping, numeric variables, and the occurs-check.

use typing_core::ast::{
    AbilitySet, BuiltinTypeName, BuiltinTypeName_, Loc, Name, TParam, Type, TypeName, TypeName_,
    Type_,
};
use typing_core::join::{join, subtype, TypingError};
use typing_core::subst::Subst;

fn loc(n: u32) -> Loc {
    Loc { file: 1, start: n, end: n + 1 }
}

fn u64_ty(l: Loc) -> Type {
    Type {
        loc: l,
        value: Type_::Apply(
            None,
            TypeName {
                loc: l,
                value: TypeName_::Builtin(BuiltinTypeName { loc: l, value: BuiltinTypeName_::U64 }),
            },
            Vec::new(),
        ),
    }
}

fn bool_ty(l: Loc) -> Type {
    Type {
        loc: l,
        value: Type_::Apply(
            None,
            TypeName {
                loc: l,
                value: TypeName_::Builtin(BuiltinTypeName {
                    loc: l,
                    value: BuiltinTypeName_::Bool,
                }),
            },
            Vec::new(),
        ),
    }
}

fn vector_of(l: Loc, inner: Type) -> Type {
    Type {
        loc: l,
        value: Type_::Apply(
            None,
            TypeName {
                loc: l,
                value: TypeName_::Builtin(BuiltinTypeName {
                    loc: l,
                    value: BuiltinTypeName_::Vector,
                }),
            },
            vec![inner],
        ),
    }
}

fn is_u64(t: &Type) -> bool {
    match &t.value {
        Type_::Apply(_, n, args) => {
            args.is_empty()
                && matches!(
                    &n.value,
                    TypeName_::Builtin(b) if matches!(b.value, BuiltinTypeName_::U64)
                )
        }
        _ => false,
    }
}

#[test]
fn join_with_anything_returns_the_other_side() {
    let s = Subst::empty();
    let t = u64_ty(loc(1));
    let anything = Type { loc: loc(2), value: Type_::Anything };
    let (s, r) = join(s, &t, &anything).expect("join with anything succeeds");
    assert!(is_u64(&r));
    assert_eq!(r.loc, loc(1));
    let anything = Type { loc: loc(3), value: Type_::Anything };
    let t2 = u64_ty(loc(4));
    let (_s, r2) = join(s, &anything, &t2).expect("join with anything succeeds");
    assert!(is_u64(&r2));
    assert_eq!(r2.loc, loc(4));
}

#[test]
fn subtype_mutable_reference_where_immutable_expected() {
    let s = Subst::empty();
    let lhs = Type { loc: loc(1), value: Type_::Ref(true, Box::new(u64_ty(loc(2)))) };
    let rhs = Type { loc: loc(3), value: Type_::Ref(false, Box::new(u64_ty(loc(4)))) };
    let (_s, r) = subtype(s, &lhs, &rhs).expect("mut <: imm holds");
    match &r.value {
        Type_::Ref(m, inner) => {
            assert!(!*m);
            assert!(is_u64(inner));
        }
        _ => panic!("expected a reference"),
    }
}

#[test]
fn subtype_immutable_reference_where_mutable_expected_fails() {
    let s = Subst::empty();
    let lhs = Type { loc: loc(1), value: Type_::Ref(false, Box::new(u64_ty(loc(2)))) };
    let rhs = Type { loc: loc(3), value: Type_::Ref(true, Box::new(u64_ty(loc(4)))) };
    match subtype(s, &lhs, &rhs) {
        Err(TypingError::SubtypeError(_, _)) => {}
        _ => panic!("imm where mut is expected must fail with a subtype error"),
    }
}

#[test]
fn numeric_variable_rejects_non_numeric_type() {
    let mut s = Subst::empty();
    let v = s.new_num_var(loc(1));
    let var_ty = Type { loc: loc(1), value: Type_::Var(v) };
    let b = bool_ty(loc(2));
    match join(s, &var_ty, &b) {
        Err(TypingError::Incompatible(_, _)) => {}
        _ => panic!("binding a numeric variable to bool must be incompatible"),
    }
}

#[test]
fn numeric_variable_chain_resolves_to_u64() {
    let mut s = Subst::empty();
    let v1 = s.new_num_var(loc(1));
    let v2 = s.new_num_var(loc(2));
    let t1 = Type { loc: loc(1), value: Type_::Var(v1) };
    let t2 = Type { loc: loc(2), value: Type_::Var(v2) };
    let (s, _) = join(s, &t1, &t2).expect("joining two numeric variables succeeds");
    let (s, _) = join(s, &t1, &u64_ty(loc(3))).expect("binding the chain to u64 succeeds");
    let r1 = typing_core::subst::unfold_type(&s, &t1);
    let r2 = typing_core::subst::unfold_type(&s, &t2);
    assert!(is_u64(&r1));
    assert!(is_u64(&r2));
}

#[test]
fn occurs_check_rejects_self_referential_binding() {
    let mut s = Subst::empty();
    let v = s.new_var();
    let var_ty = Type { loc: loc(1), value: Type_::Var(v) };
    let vec_of_v = vector_of(loc(2), Type { loc: loc(3), value: Type_::Var(v) });
    match join(s, &var_ty, &vec_of_v) {
        Err(TypingError::RecursiveType(l)) => {
            assert_eq!(l, loc(1));
        }
        _ => panic!("binding a variable inside itself must be a recursive-type error"),
    }
}

#[test]
fn unfold_is_identity_on_resolved_types() {
    let s = Subst::empty();
    let t = vector_of(loc(1), u64_ty(loc(2)));
    let r = typing_core::subst::unfold_type(&s, &t);
    assert_eq!(r.loc, t.loc);
    match (&r.value, &t.value) {
        (Type_::Apply(_, rn, rargs), Type_::Apply(_, tn, targs)) => {
            assert!(matches!(
                (&rn.value, &tn.value),
                (TypeName_::Builtin(a), TypeName_::Builtin(b))
                    if a.value == b.value
            ));
            assert_eq!(rargs.len(), targs.len());
            assert!(is_u64(&rargs[0]));
        }
        _ => panic!("unfolding must keep the applied shape"),
    }
}

#[test]
fn join_of_identical_params_returns_the_right_operand() {
    let s = Subst::empty();
    let tp = TParam {
        id: 7,
        user_specified_name: Name { loc: loc(9), value: 42 },
        abilities: AbilitySet::empty(),
    };
    let a = Type { loc: loc(1), value: Type_::Param(tp) };
    let b = Type { loc: loc(2), value: Type_::Param(tp) };
    let (_s, r) = join(s, &a, &b).expect("identical parameters join");
    assert_eq!(r.loc, loc(2));
    let tp2 = TParam {
        id: 8,
        user_specified_name: Name { loc: loc(9), value: 43 },
        abilities: AbilitySet::empty(),
    };
    let c = Type { loc: loc(3), value: Type_::Param(tp2) };
    let s2 = Subst::empty();
    assert!(matches!(
        join(s2, &a, &c),
        Err(TypingError::Incompatible(_, _))
    ));
}
