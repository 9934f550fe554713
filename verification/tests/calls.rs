//! Call resolution: type-argument arity normalization, visibility of
//! package functions, and the friend edges package calls record.

use typing_core::ast::{
    AbilitySet, Loc, ModuleIdent, ModuleIdent_, Name, TParam, Type, Type_,
};
use typing_core::context::Context;
use typing_core::diag::{Code, CompilationEnv, Note};
use typing_core::info::{
    FunctionInfo, FunctionSignature, ModuleInfo, ProgramInfo, StructDefinition, StructFields,
    Visibility,
};
use typing_core::instantiate::{make_function_type, make_struct_type};

fn loc(n: u32) -> Loc {
    Loc { file: 4, start: n, end: n + 1 }
}

fn mident(addr: u64, module: u64) -> ModuleIdent {
    ModuleIdent { loc: loc(0), value: ModuleIdent_ { address: addr, module } }
}

fn name(sym: u64) -> Name {
    Name { loc: loc(0), value: sym }
}

fn tparam(id: u64) -> TParam {
    TParam { id, user_specified_name: name(100 + id), abilities: AbilitySet::empty() }
}

fn unit() -> Type {
    Type { loc: loc(0), value: Type_::Unit }
}

fn module_with_package(
    package: Option<u64>,
    functions: Vec<(u64, FunctionInfo)>,
    structs: Vec<(u64, StructDefinition)>,
) -> ModuleInfo {
    ModuleInfo {
        package,
        test_attribute: false,
        friends: Vec::new(),
        structs,
        functions,
        constants: Vec::new(),
        use_funs: Vec::new(),
    }
}

fn package_fn(vloc: Loc, tparams: Vec<TParam>) -> FunctionInfo {
    FunctionInfo {
        defined_loc: loc(50),
        visibility: Visibility::Package(vloc),
        entry: None,
        macro_: None,
        signature: FunctionSignature {
            type_parameters: tparams,
            parameters: Vec::new(),
            return_type: unit(),
        },
        test_attribute: false,
    }
}

#[test]
fn package_call_from_same_package_records_a_friend_edge() {
    let vloc = loc(60);
    let callee_mod = ModuleIdent_ { address: 1, module: 10 };
    let caller_mod = ModuleIdent_ { address: 1, module: 11 };
    let info = ProgramInfo {
        modules: vec![
            (callee_mod, module_with_package(Some(7), vec![(20, package_fn(vloc, Vec::new()))], Vec::new())),
            (caller_mod, module_with_package(Some(7), Vec::new(), Vec::new())),
        ],
    };
    let mut c = Context::new(CompilationEnv::new(false, Vec::new()), info);
    c.current_module = Some(ModuleIdent { loc: loc(0), value: caller_mod });
    let m = ModuleIdent { loc: loc(0), value: callee_mod };
    let _ft = make_function_type(&mut c, loc(1), &m, &name(20), None);
    // accepted: no diagnostic at all, and the cross-module edge recorded
    assert_eq!(c.env.diags.len(), 0);
    assert_eq!(c.new_friends.len(), 1);
    assert_eq!(c.new_friends[0].0, callee_mod);
    assert_eq!(c.new_friends[0].1, vloc);
}

#[test]
fn package_call_from_another_package_is_rejected() {
    let vloc = loc(60);
    let callee_mod = ModuleIdent_ { address: 1, module: 10 };
    let caller_mod = ModuleIdent_ { address: 2, module: 11 };
    let info = ProgramInfo {
        modules: vec![
            (callee_mod, module_with_package(Some(7), vec![(20, package_fn(vloc, Vec::new()))], Vec::new())),
            (caller_mod, module_with_package(Some(8), Vec::new(), Vec::new())),
        ],
    };
    let mut c = Context::new(CompilationEnv::new(false, Vec::new()), info);
    c.current_module = Some(ModuleIdent { loc: loc(0), value: caller_mod });
    let m = ModuleIdent { loc: loc(0), value: callee_mod };
    let _ft = make_function_type(&mut c, loc(1), &m, &name(20), None);
    let d = c.env.diags.last().expect("a visibility diagnostic is due");
    assert_eq!(d.code, Code::Visibility);
    // the diagnostic explains itself at the visibility declaration
    assert_eq!(d.secondary.len(), 1);
    assert_eq!(d.secondary[0].loc, vloc);
    assert!(matches!(d.secondary[0].note, Note::PackageVisibilityNote));
    // and exactly one diagnostic was added in all
    assert_eq!(c.env.diags.len(), 1);
    assert!(c.new_friends.is_empty());
}

#[test]
fn three_type_arguments_for_two_parameters_diagnose_once_and_truncate() {
    let sdef = StructDefinition {
        loc: loc(70),
        abilities: AbilitySet::empty(),
        type_parameters: vec![
            typing_core::ast::StructTypeParameter { is_phantom: false, param: tparam(1) },
            typing_core::ast::StructTypeParameter { is_phantom: false, param: tparam(2) },
        ],
        fields: StructFields::Native(loc(71)),
    };
    let m_ = ModuleIdent_ { address: 1, module: 10 };
    let info = ProgramInfo {
        modules: vec![(m_, module_with_package(None, Vec::new(), vec![(30, sdef)]))],
    };
    let mut c = Context::new(CompilationEnv::new(false, Vec::new()), info);
    let m = ModuleIdent { loc: loc(0), value: m_ };
    let args = vec![unit(), unit(), unit()];
    let (ty, targs) = make_struct_type(&mut c, loc(1), &m, &name(30), Some(args));
    let arity_diags: Vec<_> = c
        .env
        .diags
        .iter()
        .filter(|d| d.code == Code::TooManyTypeArguments)
        .collect();
    assert_eq!(arity_diags.len(), 1);
    assert_eq!(targs.len(), 2);
    match &ty.value {
        Type_::Apply(_, _, inner) => assert_eq!(inner.len(), 2),
        _ => panic!("a struct type must stay applied"),
    }
}

#[test]
fn function_arity_mismatch_pads_with_error_types() {
    let m_ = ModuleIdent_ { address: 1, module: 10 };
    let f = FunctionInfo {
        defined_loc: loc(50),
        visibility: Visibility::Public(loc(51)),
        entry: None,
        macro_: None,
        signature: FunctionSignature {
            type_parameters: vec![tparam(1), tparam(2)],
            parameters: Vec::new(),
            return_type: unit(),
        },
        test_attribute: false,
    };
    let info = ProgramInfo {
        modules: vec![(m_, module_with_package(None, vec![(20, f)], Vec::new()))],
    };
    let mut c = Context::new(CompilationEnv::new(false, Vec::new()), info);
    let m = ModuleIdent { loc: loc(0), value: m_ };
    let ft = make_function_type(&mut c, loc(1), &m, &name(20), Some(vec![unit()]));
    assert_eq!(ft.ty_args.len(), 2);
    let arity_diags: Vec<_> = c
        .env
        .diags
        .iter()
        .filter(|d| d.code == Code::TooFewTypeArguments)
        .collect();
    assert_eq!(arity_diags.len(), 1);
}
