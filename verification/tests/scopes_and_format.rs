//! Method-resolution scoping, unused-binding warnings, type rendering, and
//! the server's address table.

use typing_core::ast::{
    BuiltinTypeName, BuiltinTypeName_, Loc, ModuleIdent, ModuleIdent_, Name, Type, TypeName,
    TypeName_, TypeNameKey, Type_,
};
use typing_core::context::Context;
use typing_core::diag::{Code, CompilationEnv, Note};
use typing_core::info::{ProgramInfo, UseFun, UseFunKind};
use typing_core::server::{NodeAddress, Server};

fn loc(n: u32) -> Loc {
    Loc { file: 5, start: n, end: n + 1 }
}

fn fresh_context() -> Context {
    Context::new(CompilationEnv::new(false, Vec::new()), ProgramInfo { modules: Vec::new() })
}

fn u64_type_name() -> TypeName {
    TypeName {
        loc: loc(0),
        value: TypeName_::Builtin(BuiltinTypeName { loc: loc(0), value: BuiltinTypeName_::U64 }),
    }
}

fn binding(target_module: ModuleIdent_, target_fn: u64) -> UseFun {
    UseFun {
        loc: loc(40),
        kind: UseFunKind::Explicit,
        is_public: None,
        target_module: ModuleIdent { loc: loc(0), value: target_module },
        target_function: Name { loc: loc(0), value: target_fn },
        used: false,
    }
}

#[test]
fn method_lookup_marks_the_binding_used_and_pop_stays_silent() {
    let mut c = fresh_context();
    let tn = u64_type_name();
    let key = TypeNameKey::BuiltinKey(BuiltinTypeName_::U64);
    let scope = vec![(key, vec![(77u64, binding(ModuleIdent_ { address: 1, module: 2 }, 33))])];
    c.add_use_funs_scope(1, scope, loc(1));
    let target = c.find_method_and_mark_used(&tn, Name { loc: loc(2), value: 77 });
    let (m, f) = target.expect("the binding resolves");
    assert_eq!(m.value, ModuleIdent_ { address: 1, module: 2 });
    assert_eq!(f.value, 33);
    let (_color, _bindings) = c.pop_use_funs_scope(loc(3));
    assert_eq!(c.env.diags.len(), 0);
}

#[test]
fn unused_binding_warns_at_scope_exit() {
    let mut c = fresh_context();
    let key = TypeNameKey::BuiltinKey(BuiltinTypeName_::U64);
    let scope = vec![(key, vec![(77u64, binding(ModuleIdent_ { address: 1, module: 2 }, 33))])];
    c.add_use_funs_scope(1, scope, loc(1));
    let (_color, _bindings) = c.pop_use_funs_scope(loc(2));
    assert_eq!(c.env.diags.len(), 1);
    let d = &c.env.diags[0];
    assert_eq!(d.code, Code::UnusedAlias);
    assert_eq!(d.primary.loc, loc(40));
    assert!(matches!(d.primary.note, Note::UnusedUseFun { method: 77, .. }));
}

#[test]
fn colored_scope_of_another_color_is_skipped() {
    let mut c = fresh_context();
    let tn = u64_type_name();
    let key = TypeNameKey::BuiltinKey(BuiltinTypeName_::U64);
    let scope = vec![(key, vec![(77u64, binding(ModuleIdent_ { address: 1, module: 2 }, 33))])];
    c.add_use_funs_scope(1, scope, loc(1));
    // a macro scope of another color sits on top; its caller's bindings are
    // invisible from it
    c.add_use_funs_scope(
        2,
        vec![(TypeNameKey::BuiltinKey(BuiltinTypeName_::Bool), Vec::new())],
        loc(2),
    );
    let target = c.find_method_and_mark_used(&tn, Name { loc: loc(3), value: 77 });
    assert!(target.is_none());
}

#[test]
fn reentering_a_scope_only_counts() {
    let mut c = fresh_context();
    c.add_use_funs_scope(4, Vec::new(), loc(1));
    let before = c.use_funs.len();
    // an empty addition at the same color re-enters the frame
    c.add_use_funs_scope(4, Vec::new(), loc(2));
    assert_eq!(c.use_funs.len(), before);
    let (color, _b) = c.pop_use_funs_scope(loc(3));
    assert_eq!(color, 4);
    assert_eq!(c.use_funs.len(), before);
    let (color2, _b2) = c.pop_use_funs_scope(loc(4));
    assert_eq!(color2, 4);
    assert_eq!(c.use_funs.len(), before - 1);
}

#[test]
fn rendering_quotes_outside_and_names_builtins() {
    let s = typing_core::subst::Subst::empty();
    let t = Type {
        loc: loc(1),
        value: Type_::Apply(None, u64_type_name(), Vec::new()),
    };
    assert_eq!(typing_core::format::error_format(&t, &s), "'u64'");
    assert_eq!(typing_core::format::error_format_nested(&t, &s), "u64");
    let v = Type {
        loc: loc(2),
        value: Type_::Apply(
            None,
            TypeName {
                loc: loc(2),
                value: TypeName_::Builtin(BuiltinTypeName {
                    loc: loc(2),
                    value: BuiltinTypeName_::Vector,
                }),
            },
            vec![t],
        ),
    };
    assert_eq!(typing_core::format::error_format(&v, &s), "'vector<u64>'");
}

#[test]
fn unbound_numeric_variable_renders_as_integer() {
    let mut s = typing_core::subst::Subst::empty();
    let v = s.new_num_var(loc(1));
    let t = Type { loc: loc(1), value: Type_::Var(v) };
    assert_eq!(typing_core::format::error_format(&t, &s), "integer");
    assert_eq!(typing_core::format::error_format_nested(&t, &s), "{integer}");
    let w = s.new_var();
    let t2 = Type { loc: loc(2), value: Type_::Var(w) };
    assert_eq!(typing_core::format::error_format(&t2, &s), "'_'");
}

#[test]
fn server_address_table_answers_by_identity() {
    let config = vec![
        (1u64, NodeAddress { ip: 0x7f000001, port: 9000 }),
        (2u64, NodeAddress { ip: 0x7f000002, port: 9001 }),
    ];
    let server = Server::new(config, 1);
    assert!(server.config_ids_unique());
    assert_eq!(
        server.lookup_address(2),
        Some(NodeAddress { ip: 0x7f000002, port: 9001 })
    );
    assert_eq!(server.lookup_address(3), None);
    let dup = vec![
        (1u64, NodeAddress { ip: 1, port: 1 }),
        (1u64, NodeAddress { ip: 2, port: 2 }),
    ];
    let server2 = Server::new(dup, 1);
    assert!(!server2.config_ids_unique());
}

#[test]
fn locals_round_trip_and_duplicate_declaration_reports() {
    let mut c = fresh_context();
    let var = typing_core::ast::Var {
        loc: loc(1),
        value: typing_core::ast::Var_ { name: 5, id: 0, color: 0 },
    };
    let t = Type { loc: loc(2), value: Type_::Unit };
    c.declare_local(typing_core::ast::Mutability::Imm, &var, t);
    let got = c.get_local_type(&var);
    assert!(matches!(got.value, Type_::Unit));
    assert_eq!(c.env.diags.len(), 0);
    let t2 = Type { loc: loc(3), value: Type_::Unit };
    c.declare_local(typing_core::ast::Mutability::Imm, &var, t2);
    assert_eq!(c.env.diags.len(), 1);
    assert_eq!(c.env.diags[0].code, Code::InternalError);
}
