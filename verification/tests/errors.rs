//! The remaining failure shapes: expression-list and function arity
//! mismatches, unknown fields, unknown methods, and constant visibility.

use typing_core::ast::{
    AbilitySet, BuiltinTypeName, BuiltinTypeName_, Loc, ModuleIdent, ModuleIdent_, Name, Type,
    TypeName, TypeName_, Type_,
};
use typing_core::context::Context;
use typing_core::diag::{Code, CompilationEnv, Note};
use typing_core::info::{ConstantInfo, ModuleInfo, ProgramInfo, StructDefinition, StructFields};
use typing_core::join::{join, TypingError};
use typing_core::subst::Subst;

fn loc(n: u32) -> Loc {
    Loc { file: 6, start: n, end: n + 1 }
}

fn unit() -> Type {
    Type { loc: loc(0), value: Type_::Unit }
}

fn multiple(l: Loc, n: usize, args: Vec<Type>) -> Type {
    Type {
        loc: l,
        value: Type_::Apply(None, TypeName { loc: l, value: TypeName_::Multiple(n) }, args),
    }
}

fn empty_module() -> ModuleInfo {
    ModuleInfo {
        package: None,
        test_attribute: false,
        friends: Vec::new(),
        structs: Vec::new(),
        functions: Vec::new(),
        constants: Vec::new(),
        use_funs: Vec::new(),
    }
}

#[test]
fn expression_lists_of_different_arity_do_not_join() {
    let s = Subst::empty();
    let a = multiple(loc(1), 2, vec![unit(), unit()]);
    let b = multiple(loc(2), 3, vec![unit(), unit(), unit()]);
    match join(s, &a, &b) {
        Err(TypingError::ArityMismatch(2, _, 3, _)) => {}
        _ => panic!("expression lists of different arity must be an arity mismatch"),
    }
}

#[test]
fn function_types_of_different_arity_do_not_join() {
    let s = Subst::empty();
    let f1 = Type { loc: loc(1), value: Type_::Fun(vec![unit()], Box::new(unit())) };
    let f2 = Type { loc: loc(2), value: Type_::Fun(vec![unit(), unit()], Box::new(unit())) };
    match join(s, &f1, &f2) {
        Err(TypingError::FunArityMismatch(1, _, 2, _)) => {}
        _ => panic!("function types of different arity must be a function arity mismatch"),
    }
}

#[test]
fn incompatible_heads_do_not_join() {
    let s = Subst::empty();
    let a = unit();
    let b = Type {
        loc: loc(1),
        value: Type_::Apply(
            None,
            TypeName {
                loc: loc(1),
                value: TypeName_::Builtin(BuiltinTypeName {
                    loc: loc(1),
                    value: BuiltinTypeName_::Bool,
                }),
            },
            Vec::new(),
        ),
    };
    assert!(matches!(join(s, &a, &b), Err(TypingError::Incompatible(_, _))));
}

#[test]
fn unknown_field_of_a_defined_struct_is_diagnosed() {
    let m_ = ModuleIdent_ { address: 1, module: 10 };
    let sdef = StructDefinition {
        loc: loc(70),
        abilities: AbilitySet::empty(),
        type_parameters: Vec::new(),
        fields: StructFields::Defined(vec![(Name { loc: loc(71), value: 8 }, 0, unit())]),
    };
    let mut minfo = empty_module();
    minfo.structs = vec![(30, sdef)];
    let info = ProgramInfo { modules: vec![(m_, minfo)] };
    let mut c = Context::new(CompilationEnv::new(false, Vec::new()), info);
    let m = ModuleIdent { loc: loc(0), value: m_ };
    let r = typing_core::instantiate::make_field_type(
        &mut c,
        loc(1),
        &m,
        &Name { loc: loc(0), value: 30 },
        Vec::new(),
        &Name { loc: loc(2), value: 9 },
    );
    assert!(matches!(r.value, Type_::UnresolvedError));
    assert_eq!(c.env.diags.len(), 1);
    assert_eq!(c.env.diags[0].code, Code::UnboundField);
    assert!(matches!(c.env.diags[0].primary.note, Note::UnboundFieldNote { field: 9 }));
    // the known field resolves silently
    let r2 = typing_core::instantiate::make_field_type(
        &mut c,
        loc(3),
        &m,
        &Name { loc: loc(0), value: 30 },
        Vec::new(),
        &Name { loc: loc(4), value: 8 },
    );
    assert!(matches!(r2.value, Type_::Unit));
    assert_eq!(c.env.diags.len(), 1);
}

#[test]
fn unknown_method_is_diagnosed_without_resolution() {
    let info = ProgramInfo { modules: Vec::new() };
    let mut c = Context::new(CompilationEnv::new(false, Vec::new()), info);
    c.add_use_funs_scope(1, Vec::new(), loc(1));
    let tn = TypeName {
        loc: loc(2),
        value: TypeName_::Builtin(BuiltinTypeName { loc: loc(2), value: BuiltinTypeName_::U64 }),
    };
    let r = typing_core::instantiate::make_method_call_type(
        &mut c,
        loc(3),
        &tn,
        Name { loc: loc(4), value: 55 },
        None,
    );
    assert!(r.is_none());
    let d = c.env.diags.last().expect("a method-call diagnostic is due");
    assert_eq!(d.code, Code::InvalidMethodCall);
    assert!(matches!(d.primary.note, Note::NoMethod { method: 55 }));
}

#[test]
fn constant_access_from_another_module_is_diagnosed() {
    let m_ = ModuleIdent_ { address: 1, module: 10 };
    let other = ModuleIdent_ { address: 1, module: 11 };
    let mut minfo = empty_module();
    minfo.constants = vec![(40, ConstantInfo { defined_loc: loc(80), signature: unit() })];
    let info = ProgramInfo { modules: vec![(m_, minfo), (other, empty_module())] };
    let mut c = Context::new(CompilationEnv::new(false, Vec::new()), info);
    c.current_module = Some(ModuleIdent { loc: loc(0), value: other });
    let m = ModuleIdent { loc: loc(0), value: m_ };
    let r = typing_core::instantiate::make_constant_type(
        &mut c,
        loc(1),
        &m,
        &Name { loc: loc(0), value: 40 },
    );
    assert!(matches!(r.value, Type_::Unit));
    assert_eq!(c.env.diags.len(), 1);
    assert_eq!(c.env.diags[0].code, Code::Visibility);
    assert!(matches!(
        c.env.diags[0].primary.note,
        Note::ConstantVisibility { constant: 40, .. }
    ));
    assert_eq!(c.env.diags[0].secondary[0].loc, loc(80));
}

#[test]
fn autorefs_resolve_against_explicit_references() {
    let mut c = Context::new(
        CompilationEnv::new(false, Vec::new()),
        ProgramInfo { modules: Vec::new() },
    );
    let base = unit();
    let (rv, auto_t) = typing_core::instantiate::make_autoref(&mut c, loc(1), base);
    // joining the unresolved reference against an immutable reference pins it
    let rhs = Type { loc: loc(2), value: Type_::Ref(false, Box::new(unit())) };
    let mut s = Subst::empty();
    core::mem::swap(&mut s, &mut c.subst);
    let (s, _r) = join(s, &auto_t, &rhs).expect("an unresolved reference accepts a reference");
    assert_eq!(
        typing_core::subst::unfold_ref_var(&s, rv),
        Some(typing_core::subst::RefKind::ImmRef)
    );
}
