//! The macro-expansion recursion guard: direct self-expansion is rejected
//! with a labelled cycle; a sibling invocation at the caller's own color and
//! an argument written outside the expansion are not.

use typing_core::ast::{Loc, ModuleIdent, ModuleIdent_, Name};
use typing_core::context::Context;
use typing_core::diag::{Code, CompilationEnv, Note};
use typing_core::info::ProgramInfo;

fn loc(n: u32) -> Loc {
    Loc { file: 2, start: n, end: n + 1 }
}

fn mident(addr: u64, module: u64) -> ModuleIdent {
    ModuleIdent { loc: loc(0), value: ModuleIdent_ { address: addr, module } }
}

fn name(sym: u64) -> Name {
    Name { loc: loc(0), value: sym }
}

fn fresh_context() -> Context {
    let env = CompilationEnv::new(false, Vec::new());
    let info = ProgramInfo { modules: Vec::new() };
    Context::new(env, info)
}

#[test]
fn direct_self_expansion_is_rejected_with_cycle_labels() {
    let mut c = fresh_context();
    let m = mident(1, 10);
    let f = name(20);
    c.add_use_funs_scope(1, Vec::new(), loc(1));
    assert!(c.add_macro_expansion(m, f, loc(2)));
    // the macro body is checked at a fresh, higher color
    c.add_use_funs_scope(2, Vec::new(), loc(3));
    assert!(!c.add_macro_expansion(m, f, loc(4)));
    let d = c.env.diags.last().expect("a diagnostic was recorded");
    assert_eq!(d.code, Code::CannotExpandMacro);
    assert_eq!(d.primary.loc, loc(4));
    assert!(matches!(
        d.primary.note,
        Note::RecursiveMacroExpansion { address: 1, module: 10, function: 20 }
    ));
    assert_eq!(d.secondary.len(), 1);
    assert_eq!(d.secondary[0].loc, loc(2));
    assert!(matches!(
        d.secondary[0].note,
        Note::PreviousMacroExpansion { address: 1, module: 10, function: 20 }
    ));
}

#[test]
fn sibling_invocation_at_same_color_is_accepted() {
    let mut c = fresh_context();
    let m = mident(1, 10);
    let f = name(20);
    c.add_use_funs_scope(5, Vec::new(), loc(1));
    assert!(c.add_macro_expansion(m, f, loc(2)));
    // an argument to that very invocation is checked at the caller's color:
    // the enclosing frame sits at the same color, so this is not recursion
    assert!(c.add_macro_expansion(m, f, loc(3)));
    assert_eq!(c.env.diags.len(), 0);
}

#[test]
fn argument_frame_written_outside_insulates_the_scan() {
    let mut c = fresh_context();
    let m = mident(1, 10);
    let f = name(20);
    c.add_use_funs_scope(1, Vec::new(), loc(1));
    assert!(c.add_macro_expansion(m, f, loc(2)));
    // a lambda written at the outer color is re-checked inside the body
    c.maybe_enter_macro_argument(true, 1);
    c.add_use_funs_scope(2, Vec::new(), loc(3));
    // scanning stops at the argument frame: the same macro may expand again
    assert!(c.add_macro_expansion(m, f, loc(4)));
    assert_eq!(c.env.diags.len(), 0);
}

#[test]
fn pop_matches_the_frame_it_entered() {
    let mut c = fresh_context();
    let m = mident(1, 10);
    let f = name(20);
    c.add_use_funs_scope(1, Vec::new(), loc(1));
    assert!(c.add_macro_expansion(m, f, loc(2)));
    assert!(c.pop_macro_expansion(&m, &f));
    assert_eq!(c.env.diags.len(), 0);
    // popping with nothing on the stack is an internal fault, reported
    assert!(!c.pop_macro_expansion(&m, &f));
    assert_eq!(c.env.diags.len(), 1);
    assert_eq!(c.env.diags[0].code, Code::InternalError);
}
