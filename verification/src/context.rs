//! The checking context: the owner of the substitution store, the deferred
//! constraints, the method-resolution scopes, the macro-expansion guard, the
//! per-function locals, and the cross-function accumulators.
//!
//! One context serves one compilation unit; per-function state is reset
//! between module items, while friend edges, used members and scope colors
//! persist for the whole unit.

use vstd::prelude::*;

use crate::ast::{
    AbilitySet, BlockLabel, Color, Loc, ModuleIdent, ModuleIdent_, MsgToken, Mutability, Name,
    SpecType, Symbol, Type, TypeNameKey, Var, Var_,
};
use crate::diag::{spec_diag0, Code, CompilationEnv, Diagnostic, Label, Note, SpecDiagnostic};
use crate::info::{FunctionInfo, ModuleInfo, ProgramInfo, ResolvedUseFuns, StructDefinition, UseFun};
use crate::subst::Subst;
use vstd::pervasive::VecAdditionalExecFns;

verus! {

/// One declared local: its mutability, its type, and where it was last used
/// mutably.
#[derive(Debug)]
pub struct Local {
    pub mut_: Mutability,
    pub ty: Type,
    pub used_mut: Option<Loc>,
}

/// One slot of the locals table: the value identity of the variable, the
/// position it was declared at, and its entry.
#[derive(Debug)]
pub struct LocalEntry {
    pub key: Var_,
    pub decl_loc: Loc,
    pub local: Local,
}

/// One macro call being expanded.
#[derive(Clone, Copy, Debug)]
pub struct MacroCall {
    pub module: ModuleIdent,
    pub function: Name,
    pub invocation: Loc,
    pub scope_color: Color,
}

/// One frame of the macro-expansion stack.
#[derive(Clone, Copy, Debug)]
pub enum MacroExpansion {
    /// A macro call being expanded.
    Call(MacroCall),
    /// An argument substituted into a macro body, carrying the color of the
    /// scope the argument was written in.
    Argument { scope_color: Color },
}

/// One frame of method-resolution scoping: its hygiene color (`None` for the
/// global frame), a re-entry count, and its bindings.
#[derive(Debug)]
pub struct UseFunsScope {
    pub color: Option<Color>,
    pub count: usize,
    pub use_funs: ResolvedUseFuns,
}

/// A deferred obligation, solved once per function after inference.
#[derive(Debug)]
pub enum Constraint {
    /// The type must carry every ability of the set.
    Ability { loc: Loc, msg: Option<MsgToken>, ty: Type, constraints: AbilitySet },
    /// The type must be a numeric builtin; the token names the operation.
    Numeric(Loc, MsgToken, Type),
    /// The type must be in the bitwise category.
    Bits(Loc, MsgToken, Type),
    /// The type must be in the ordered category.
    Ordered(Loc, MsgToken, Type),
    /// The type must be a single non-reference type.
    BaseType(Loc, MsgToken, Type),
    /// The type must be a single type, not an expression list.
    SingleType(Loc, MsgToken, Type),
}

/// The mathematical model of a deferred obligation.
pub enum SpecConstraint {
    Ability { loc: Loc, msg: Option<MsgToken>, ty: SpecType, constraints: AbilitySet },
    Numeric(Loc, MsgToken, SpecType),
    Bits(Loc, MsgToken, SpecType),
    Ordered(Loc, MsgToken, SpecType),
    BaseType(Loc, MsgToken, SpecType),
    SingleType(Loc, MsgToken, SpecType),
}

impl View for Constraint {
    type V = SpecConstraint;

    open spec fn view(&self) -> SpecConstraint {
        match self {
            Constraint::Ability { loc, msg, ty, constraints } => SpecConstraint::Ability {
                loc: *loc,
                msg: *msg,
                ty: crate::ast::view_type(*ty),
                constraints: *constraints,
            },
            Constraint::Numeric(loc, op, t) => SpecConstraint::Numeric(
                *loc,
                *op,
                crate::ast::view_type(*t),
            ),
            Constraint::Bits(loc, op, t) => SpecConstraint::Bits(
                *loc,
                *op,
                crate::ast::view_type(*t),
            ),
            Constraint::Ordered(loc, op, t) => SpecConstraint::Ordered(
                *loc,
                *op,
                crate::ast::view_type(*t),
            ),
            Constraint::BaseType(loc, msg, t) => SpecConstraint::BaseType(
                *loc,
                *msg,
                crate::ast::view_type(*t),
            ),
            Constraint::SingleType(loc, msg, t) => SpecConstraint::SingleType(
                *loc,
                *msg,
                crate::ast::view_type(*t),
            ),
        }
    }
}

/// The models of a list of constraints.
pub open spec fn view_constraints(cs: Seq<Constraint>) -> Seq<SpecConstraint>
    decreases cs,
{
    if cs.len() == 0 {
        Seq::<SpecConstraint>::empty()
    } else {
        seq![cs[0]@] + view_constraints(cs.drop_first())
    }
}

/// Indexing form of [`view_constraints`].
pub proof fn lemma_view_constraints_index(cs: Seq<Constraint>)
    ensures
        view_constraints(cs).len() == cs.len(),
        forall|i: int| 0 <= i < cs.len() ==> view_constraints(cs)[i] == cs[i]@,
    decreases cs,
{
    if cs.len() > 0 {
        lemma_view_constraints_index(cs.drop_first());
        assert forall|i: int| 0 <= i < cs.len() implies view_constraints(cs)[i] == cs[i]@ by {
            if i > 0 {
                assert(cs.drop_first()[i - 1] == cs[i]);
            }
        }
    }
}

/// Push form of [`view_constraints`].
pub proof fn lemma_view_constraints_push(cs: Seq<Constraint>, c: Constraint)
    ensures
        view_constraints(cs.push(c)) == view_constraints(cs).push(c@),
    decreases cs,
{
    if cs.len() == 0 {
        assert(cs.push(c)[0] == c);
        assert(cs.push(c).drop_first() =~= Seq::<Constraint>::empty());
        assert(view_constraints(cs.push(c)) == seq![c@] + view_constraints(cs.push(c).drop_first()));
        assert(view_constraints(cs.push(c).drop_first()) == Seq::<SpecConstraint>::empty());
        assert(view_constraints(cs) == Seq::<SpecConstraint>::empty());
        assert(seq![c@] + Seq::<SpecConstraint>::empty() =~= Seq::<SpecConstraint>::empty().push(
            c@,
        ));
    } else {
        lemma_view_constraints_push(cs.drop_first(), c);
        assert(cs.push(c)[0] == cs[0]);
        assert(cs.push(c).drop_first() =~= cs.drop_first().push(c));
        assert(view_constraints(cs.push(c)) == seq![cs[0]@] + view_constraints(
            cs.drop_first().push(c),
        ));
        assert(view_constraints(cs) == seq![cs[0]@] + view_constraints(cs.drop_first()));
        assert(seq![cs[0]@] + view_constraints(cs.drop_first()).push(c@) =~= (seq![cs[0]@]
            + view_constraints(cs.drop_first())).push(c@));
    }
}

/// An opaque handle to a macro body; the driver owns the body itself.
#[derive(Clone, Copy, PartialEq, Eq, Structural, Debug)]
pub struct Sequence {
    pub token: u64,
}

/// The first index of the locals table holding the key `k`.
pub open spec fn spec_assoc_local(ls: Seq<LocalEntry>, k: Var_) -> Option<int>
    decreases ls,
{
    if ls.len() == 0 {
        None
    } else if ls[0].key == k {
        Some(0)
    } else {
        match spec_assoc_local(ls.drop_first(), k) {
            Some(i) => Some(i + 1),
            None => None,
        }
    }
}

/// The first index of the named-block table holding the key `k`.
pub open spec fn spec_assoc_block(bs: Seq<(Var_, Type)>, k: Var_) -> Option<int>
    decreases bs,
{
    if bs.len() == 0 {
        None
    } else if bs[0].0 == k {
        Some(0)
    } else {
        match spec_assoc_block(bs.drop_first(), k) {
            Some(i) => Some(i + 1),
            None => None,
        }
    }
}

/// The first index of a macro table holding the module `k`.
pub open spec fn spec_assoc_macro_mod(
    ms: Seq<(ModuleIdent_, Vec<(Symbol, Sequence)>)>,
    k: ModuleIdent_,
) -> Option<int>
    decreases ms,
{
    if ms.len() == 0 {
        None
    } else if ms[0].0 == k {
        Some(0)
    } else {
        match spec_assoc_macro_mod(ms.drop_first(), k) {
            Some(i) => Some(i + 1),
            None => None,
        }
    }
}

/// The body handle of macro `f` in a module's macro list.
pub open spec fn spec_assoc_macro_fn(fs: Seq<(Symbol, Sequence)>, k: Symbol) -> Option<Sequence>
    decreases fs,
{
    if fs.len() == 0 {
        None
    } else if fs[0].0 == k {
        Some(fs[0].1)
    } else {
        spec_assoc_macro_fn(fs.drop_first(), k)
    }
}

/// Whether the friend-edge accumulator already holds the pair.
pub open spec fn spec_has_friend_edge(es: Seq<(ModuleIdent_, Loc)>, m: ModuleIdent_, loc: Loc) -> bool
    decreases es,
{
    if es.len() == 0 {
        false
    } else {
        (es[0].0 == m && es[0].1 == loc) || spec_has_friend_edge(es.drop_first(), m, loc)
    }
}

/// The hygiene color of the innermost method-resolution scope, when one with
/// a color exists at the top.
pub open spec fn spec_current_call_color(scopes: Seq<UseFunsScope>) -> Option<Color> {
    if scopes.len() == 0 {
        None
    } else {
        scopes.last().color
    }
}

/// The top-level owner of all checking state.
#[derive(Debug)]
pub struct Context {
    /// The read-only program table.
    pub modules: ProgramInfo,
    /// Macro bodies, by module and function.
    pub macros: Vec<(ModuleIdent_, Vec<(Symbol, Sequence)>)>,
    /// The diagnostics sink and driver flags.
    pub env: CompilationEnv,
    /// The method-resolution scope stack; the first frame is the global one.
    pub use_funs: Vec<UseFunsScope>,
    pub current_package: Option<Symbol>,
    pub current_module: Option<ModuleIdent>,
    pub current_function: Option<Name>,
    pub in_macro_function: bool,
    /// The highest scope color handed out so far; unit-global.
    pub max_variable_color: Color,
    pub return_type: Option<Type>,
    /// The current function's locals.
    pub locals: Vec<LocalEntry>,
    /// The substitution store.
    pub subst: Subst,
    /// The deferred obligations of the current function.
    pub constraints: Vec<Constraint>,
    /// The types of named blocks, by label identity.
    pub named_block_map: Vec<(Var_, Type)>,
    /// Friend edges discovered through package-visible calls; validated by a
    /// later pass.
    pub new_friends: Vec<(ModuleIdent_, Loc)>,
    /// Module members seen used, for dead-code tooling; a superset.
    pub used_module_members: Vec<(ModuleIdent_, Vec<Symbol>)>,
    /// The stack of macro expansions in progress.
    pub macro_expansion: Vec<MacroExpansion>,
    /// Saved expansion stacks, swapped out around lambda bodies.
    pub lambda_expansion: Vec<Vec<MacroExpansion>>,
}

impl Context {
    /// Records one diagnostic with no secondary labels.
    fn diag0(&mut self, code: Code, loc: Loc, note: Note)
        ensures
            crate::diag::sink_extended(
                old(self).env.diags@,
                final(self).env.diags@,
                spec_diag0(code, Label { loc, note }),
            ),
            final(self).env.testing == old(self).env.testing,
            final(self).env.primitive_definers == old(self).env.primitive_definers,
            final(self).modules == old(self).modules,
            final(self).macros == old(self).macros,
            final(self).use_funs == old(self).use_funs,
            final(self).current_package == old(self).current_package,
            final(self).current_module == old(self).current_module,
            final(self).current_function == old(self).current_function,
            final(self).in_macro_function == old(self).in_macro_function,
            final(self).max_variable_color == old(self).max_variable_color,
            final(self).return_type == old(self).return_type,
            final(self).locals == old(self).locals,
            final(self).subst == old(self).subst,
            final(self).constraints == old(self).constraints,
            final(self).named_block_map == old(self).named_block_map,
            final(self).new_friends == old(self).new_friends,
            final(self).used_module_members == old(self).used_module_members,
            final(self).macro_expansion == old(self).macro_expansion,
            final(self).lambda_expansion == old(self).lambda_expansion,
    {
        let d = Diagnostic { code, primary: Label { loc, note }, secondary: Vec::new() };
        proof {
            assert(d.secondary@ =~= Seq::<Label>::empty());
        }
        self.env.add_diag(d);
        proof {
            assert(final(self).env.diags@.subrange(0, old(self).env.diags@.len() as int)
                =~= old(self).env.diags@);
        }
    }

    /// The poison type at a position, used to recover from errors.
    pub fn error_type(&mut self, loc: Loc) -> (r: Type)
        ensures
            r@ == crate::subst::spec_poison(loc),
            *final(self) == *old(self),
    {
        crate::subst::poison_type(loc)
    }

    /// Defers an ability constraint on `ty` requiring the single ability.
    pub fn add_ability_constraint(
        &mut self,
        loc: Loc,
        msg_opt: Option<MsgToken>,
        ty: Type,
        ability: crate::ast::Ability,
    )
        ensures
            final(self).constraints@ == old(self).constraints@.push(
                Constraint::Ability {
                    loc,
                    msg: msg_opt,
                    ty,
                    constraints: AbilitySet::spec_singleton(loc, ability),
                },
            ),
            final(self).env == old(self).env,
            final(self).subst == old(self).subst,
            final(self).locals == old(self).locals,
            final(self).use_funs == old(self).use_funs,
            final(self).macro_expansion == old(self).macro_expansion,
            final(self).named_block_map == old(self).named_block_map,
            final(self).new_friends == old(self).new_friends,
            final(self).modules == old(self).modules,
            final(self).macros == old(self).macros,
            final(self).current_package == old(self).current_package,
            final(self).current_module == old(self).current_module,
            final(self).current_function == old(self).current_function,
            final(self).in_macro_function == old(self).in_macro_function,
            final(self).max_variable_color == old(self).max_variable_color,
            final(self).return_type == old(self).return_type,
            final(self).used_module_members == old(self).used_module_members,
            final(self).lambda_expansion == old(self).lambda_expansion,
    {
        let set = AbilitySet::singleton(loc, ability);
        self.constraints.push(Constraint::Ability { loc, msg: msg_opt, ty, constraints: set });
    }

    /// Defers an ability constraint on `ty` requiring the whole set.
    pub fn add_ability_set_constraint(
        &mut self,
        loc: Loc,
        msg_opt: Option<MsgToken>,
        ty: Type,
        constraints: AbilitySet,
    )
        ensures
            final(self).constraints@ == old(self).constraints@.push(
                Constraint::Ability { loc, msg: msg_opt, ty, constraints },
            ),
            final(self).env == old(self).env,
            final(self).subst == old(self).subst,
            final(self).locals == old(self).locals,
            final(self).use_funs == old(self).use_funs,
            final(self).macro_expansion == old(self).macro_expansion,
            final(self).named_block_map == old(self).named_block_map,
            final(self).new_friends == old(self).new_friends,
            final(self).modules == old(self).modules,
            final(self).macros == old(self).macros,
            final(self).current_package == old(self).current_package,
            final(self).current_module == old(self).current_module,
            final(self).current_function == old(self).current_function,
            final(self).in_macro_function == old(self).in_macro_function,
            final(self).max_variable_color == old(self).max_variable_color,
            final(self).return_type == old(self).return_type,
            final(self).used_module_members == old(self).used_module_members,
            final(self).lambda_expansion == old(self).lambda_expansion,
    {
        self.constraints.push(Constraint::Ability { loc, msg: msg_opt, ty, constraints });
    }

    /// Defers the demand that `t` be a single non-reference type.
    pub fn add_base_type_constraint(&mut self, loc: Loc, msg: MsgToken, t: Type)
        ensures
            final(self).constraints@ == old(self).constraints@.push(
                Constraint::BaseType(loc, msg, t),
            ),
            final(self).env == old(self).env,
            final(self).subst == old(self).subst,
            final(self).locals == old(self).locals,
            final(self).use_funs == old(self).use_funs,
            final(self).macro_expansion == old(self).macro_expansion,
            final(self).named_block_map == old(self).named_block_map,
            final(self).new_friends == old(self).new_friends,
            final(self).modules == old(self).modules,
            final(self).macros == old(self).macros,
            final(self).current_package == old(self).current_package,
            final(self).current_module == old(self).current_module,
            final(self).current_function == old(self).current_function,
            final(self).in_macro_function == old(self).in_macro_function,
            final(self).max_variable_color == old(self).max_variable_color,
            final(self).return_type == old(self).return_type,
            final(self).used_module_members == old(self).used_module_members,
            final(self).lambda_expansion == old(self).lambda_expansion,
    {
        self.constraints.push(Constraint::BaseType(loc, msg, t));
    }

    /// Defers the demand that `t` be a single type.
    pub fn add_single_type_constraint(&mut self, loc: Loc, msg: MsgToken, t: Type)
        ensures
            final(self).constraints@ == old(self).constraints@.push(
                Constraint::SingleType(loc, msg, t),
            ),
            final(self).env == old(self).env,
            final(self).subst == old(self).subst,
            final(self).locals == old(self).locals,
            final(self).use_funs == old(self).use_funs,
            final(self).macro_expansion == old(self).macro_expansion,
            final(self).named_block_map == old(self).named_block_map,
            final(self).new_friends == old(self).new_friends,
            final(self).modules == old(self).modules,
            final(self).macros == old(self).macros,
            final(self).current_package == old(self).current_package,
            final(self).current_module == old(self).current_module,
            final(self).current_function == old(self).current_function,
            final(self).in_macro_function == old(self).in_macro_function,
            final(self).max_variable_color == old(self).max_variable_color,
            final(self).return_type == old(self).return_type,
            final(self).used_module_members == old(self).used_module_members,
            final(self).lambda_expansion == old(self).lambda_expansion,
    {
        self.constraints.push(Constraint::SingleType(loc, msg, t));
    }

    /// Defers the demand that `t` be numeric; `op` names the operation.
    pub fn add_numeric_constraint(&mut self, loc: Loc, op: MsgToken, t: Type)
        ensures
            final(self).constraints@ == old(self).constraints@.push(Constraint::Numeric(loc, op, t)),
            final(self).env == old(self).env,
            final(self).subst == old(self).subst,
    {
        self.constraints.push(Constraint::Numeric(loc, op, t));
    }

    /// Defers the demand that `t` accept bitwise operations.
    pub fn add_bits_constraint(&mut self, loc: Loc, op: MsgToken, t: Type)
        ensures
            final(self).constraints@ == old(self).constraints@.push(Constraint::Bits(loc, op, t)),
            final(self).env == old(self).env,
            final(self).subst == old(self).subst,
    {
        self.constraints.push(Constraint::Bits(loc, op, t));
    }

    /// Defers the demand that `t` accept ordering comparisons.
    pub fn add_ordered_constraint(&mut self, loc: Loc, op: MsgToken, t: Type)
        ensures
            final(self).constraints@ == old(self).constraints@.push(Constraint::Ordered(loc, op, t)),
            final(self).env == old(self).env,
            final(self).subst == old(self).subst,
    {
        self.constraints.push(Constraint::Ordered(loc, op, t));
    }

    /// Declares a local.  A duplicate declaration is an internal fault of the
    /// naming pass: it is reported and the earlier entry kept.
    pub fn declare_local(&mut self, mut_: Mutability, var: &Var, ty: Type)
        ensures
            match spec_assoc_local(old(self).locals@, var.value) {
                None => final(self).locals@ == old(self).locals@.push(
                    LocalEntry {
                        key: var.value,
                        decl_loc: var.loc,
                        local: Local { mut_, ty, used_mut: None },
                    },
                ) && final(self).env.diags@ == old(self).env.diags@,
                Some(i) => final(self).locals@ == old(self).locals@ && crate::diag::sink_extended(
                    old(self).env.diags@,
                    final(self).env.diags@,
                    crate::diag::spec_diag1(
                        Code::InternalError,
                        Label { loc: var.loc, note: Note::DuplicateLocal { name: var.value.name } },
                        Label {
                            loc: old(self).locals@[i].decl_loc,
                            note: Note::PreviouslyDeclaredHere,
                        },
                    ),
                ),
            },
            final(self).subst == old(self).subst,
            final(self).constraints == old(self).constraints,
            final(self).use_funs == old(self).use_funs,
            final(self).macro_expansion == old(self).macro_expansion,
    {
        let prev = self.find_local(var.value);
        match prev {
            None => {
                self.locals.push(
                    LocalEntry {
                        key: var.value,
                        decl_loc: var.loc,
                        local: Local { mut_, ty, used_mut: None },
                    },
                );
            },
            Some(i) => {
                let prev_loc = self.locals[i].decl_loc;
                let mut secondary: Vec<Label> = Vec::new();
                secondary.push(Label { loc: prev_loc, note: Note::PreviouslyDeclaredHere });
                let d = Diagnostic {
                    code: Code::InternalError,
                    primary: Label {
                        loc: var.loc,
                        note: Note::DuplicateLocal { name: var.value.name },
                    },
                    secondary,
                };
                proof {
                    assert(d.secondary@ =~= seq![
                        Label {
                            loc: old(self).locals@[i as int].decl_loc,
                            note: Note::PreviouslyDeclaredHere,
                        },
                    ]);
                }
                self.env.add_diag(d);
                proof {
                    assert(self.env.diags@.subrange(0, old(self).env.diags@.len() as int)
                        =~= old(self).env.diags@);
                }
            },
        }
    }

    /// The index of the local with the given identity, when declared.
    fn find_local(&self, k: Var_) -> (r: Option<usize>)
        ensures
            match r {
                Some(i) => spec_assoc_local(self.locals@, k) == Some(i as int) && i
                    < self.locals@.len(),
                None => spec_assoc_local(self.locals@, k) is None,
            },
    {
        let ghost whole = self.locals@;
        let mut i: usize = 0;
        proof {
            assert(whole.skip(0) =~= whole);
        }
        while i < self.locals.len()
            invariant
                0 <= i <= whole.len(),
                whole == self.locals@,
                spec_assoc_local(whole, k) == (match spec_assoc_local(whole.skip(i as int), k) {
                    Some(j) => Some(j + i),
                    None => None,
                }),
            decreases whole.len() - i,
        {
            proof {
                assert(whole.skip(i as int)[0] == whole[i as int]);
                assert(whole.skip(i as int).drop_first() =~= whole.skip(i + 1));
            }
            if self.locals[i].key == k {
                return Some(i);
            }
            i = i + 1;
        }
        proof {
            assert(whole.skip(whole.len() as int) =~= Seq::<LocalEntry>::empty());
        }
        None
    }

    /// The declared type of a local.  An unbound local is an internal fault
    /// of the naming pass: it is reported and the poison type returned.
    pub fn get_local_type(&mut self, var: &Var) -> (r: Type)
        ensures
            match spec_assoc_local(old(self).locals@, var.value) {
                Some(i) => r@ == old(self).locals@[i].local.ty@ && final(self).env.diags@ == old(
                    self,
                ).env.diags@,
                None => r@ == crate::subst::spec_poison(var.loc) && crate::diag::sink_extended(
                    old(self).env.diags@,
                    final(self).env.diags@,
                    spec_diag0(
                        Code::InternalError,
                        Label { loc: var.loc, note: Note::UnboundLocal { name: var.value.name } },
                    ),
                ),
            },
            final(self).locals == old(self).locals,
            final(self).subst == old(self).subst,
            final(self).constraints == old(self).constraints,
    {
        let prev = self.find_local(var.value);
        match prev {
            Some(i) => self.locals[i].local.ty.deep_clone(),
            None => {
                self.diag0(
                    Code::InternalError,
                    var.loc,
                    Note::UnboundLocal { name: var.value.name },
                );
                crate::subst::poison_type(var.loc)
            },
        }
    }

    /// Marks a local as used mutably and returns its declaration position
    /// and mutability.  An unbound local is an internal fault: it is
    /// reported, and the recovery value says the local was never declared.
    pub fn mark_mutable_usage(&mut self, loc: Loc, var: &Var) -> (r: (Loc, Mutability))
        ensures
            match spec_assoc_local(old(self).locals@, var.value) {
                Some(i) => {
                    &&& r.0 == old(self).locals@[i].decl_loc
                    &&& r.1 == old(self).locals@[i].local.mut_
                    &&& final(self).locals@ == old(self).locals@.update(
                        i,
                        LocalEntry {
                            key: old(self).locals@[i].key,
                            decl_loc: old(self).locals@[i].decl_loc,
                            local: Local {
                                mut_: old(self).locals@[i].local.mut_,
                                ty: old(self).locals@[i].local.ty,
                                used_mut: Some(loc),
                            },
                        },
                    )
                    &&& final(self).env.diags@ == old(self).env.diags@
                },
                None => {
                    &&& r.0 == loc
                    &&& r.1 is Absent
                    &&& final(self).locals == old(self).locals
                    &&& crate::diag::sink_extended(
                        old(self).env.diags@,
                        final(self).env.diags@,
                        spec_diag0(
                            Code::InternalError,
                            Label { loc, note: Note::UnboundLocal { name: var.value.name } },
                        ),
                    )
                },
            },
            final(self).subst == old(self).subst,
            final(self).constraints == old(self).constraints,
    {
        let prev = self.find_local(var.value);
        match prev {
            Some(i) => {
                let decl_loc = self.locals[i].decl_loc;
                let mut_ = self.locals[i].local.mut_;
                let e = vstd::std_specs::vec::vec_index_mut(&mut self.locals, i);
                e.local.used_mut = Some(loc);
                proof {
                    assert(self.locals@ =~= old(self).locals@.update(
                        i as int,
                        LocalEntry {
                            key: old(self).locals@[i as int].key,
                            decl_loc: old(self).locals@[i as int].decl_loc,
                            local: Local {
                                mut_: old(self).locals@[i as int].local.mut_,
                                ty: old(self).locals@[i as int].local.ty,
                                used_mut: Some(loc),
                            },
                        },
                    ));
                }
                (decl_loc, mut_)
            },
            None => {
                self.diag0(Code::InternalError, loc, Note::UnboundLocal { name: var.value.name });
                (loc, Mutability::Absent)
            },
        }
    }

    /// Hands the current function's locals out and leaves the table empty.
    pub fn take_locals(&mut self) -> (r: Vec<LocalEntry>)
        ensures
            r == old(self).locals,
            final(self).locals@ =~= Seq::<LocalEntry>::empty(),
            final(self).env == old(self).env,
            final(self).subst == old(self).subst,
            final(self).constraints == old(self).constraints,
    {
        let mut out: Vec<LocalEntry> = Vec::new();
        core::mem::swap(&mut out, &mut self.locals);
        out
    }

    /// Whether `m` is the module being checked.
    pub fn is_current_module(&self, m: &ModuleIdent) -> (r: bool)
        ensures
            r == (self.current_module matches Some(c) && c.value == m.value),
    {
        match &self.current_module {
            Some(c) => c.value == m.value,
            None => false,
        }
    }

    /// Whether `m::f` is the function being checked.
    pub fn is_current_function(&self, m: &ModuleIdent, f: &Name) -> (r: bool)
        ensures
            r == ((self.current_module matches Some(c) && c.value == m.value) && (
            self.current_function matches Some(g) && g.value == f.value)),
    {
        self.is_current_module(m) && match &self.current_function {
            Some(g) => g.value == f.value,
            None => false,
        }
    }

    /// The type bound to a named block, or a fresh variable bound to it now;
    /// `loc` positions a fresh variable for better later messages.
    pub fn named_block_type(&mut self, name: &BlockLabel, loc: Loc) -> (r: Type)
        ensures
            match spec_assoc_block(old(self).named_block_map@, name.label.value) {
                Some(i) => {
                    &&& r@ == old(self).named_block_map@[i].1@
                    &&& final(self).named_block_map == old(self).named_block_map
                    &&& final(self).subst == old(self).subst
                },
                None => {
                    &&& r@ == crate::ast::SpecType {
                        loc,
                        value: crate::ast::SpecType_::Var(old(self).subst@.tvars.len() as usize),
                    }
                    &&& final(self).subst@.tvars =~= old(self).subst@.tvars.push(
                        crate::subst::spec_empty_entry(),
                    )
                    &&& final(self).subst@.ref_vars == old(self).subst@.ref_vars
                    &&& final(self).named_block_map@.len() == old(self).named_block_map@.len() + 1
                    &&& final(self).named_block_map@.subrange(
                        0,
                        old(self).named_block_map@.len() as int,
                    ) == old(self).named_block_map@
                    &&& final(self).named_block_map@.last().0 == name.label.value
                    &&& final(self).named_block_map@.last().1@ == r@
                },
            },
            final(self).env == old(self).env,
            final(self).constraints == old(self).constraints,
            final(self).locals == old(self).locals,
    {
        let found = self.find_block(name.label.value);
        match found {
            Some(i) => self.named_block_map[i].1.deep_clone(),
            None => {
                let v = self.subst.new_var();
                let t = Type { loc, value: crate::ast::Type_::Var(v) };
                self.named_block_map.push((name.label.value, t.deep_clone()));
                proof {
                    assert(final(self).named_block_map@.subrange(
                        0,
                        old(self).named_block_map@.len() as int,
                    ) =~= old(self).named_block_map@);
                }
                t
            },
        }
    }

    /// The index of a named block's entry, when present.
    fn find_block(&self, k: Var_) -> (r: Option<usize>)
        ensures
            match r {
                Some(i) => spec_assoc_block(self.named_block_map@, k) == Some(i as int) && i
                    < self.named_block_map@.len(),
                None => spec_assoc_block(self.named_block_map@, k) is None,
            },
    {
        let ghost whole = self.named_block_map@;
        let mut i: usize = 0;
        proof {
            assert(whole.skip(0) =~= whole);
        }
        while i < self.named_block_map.len()
            invariant
                0 <= i <= whole.len(),
                whole == self.named_block_map@,
                spec_assoc_block(whole, k) == (match spec_assoc_block(whole.skip(i as int), k) {
                    Some(j) => Some(j + i),
                    None => None,
                }),
            decreases whole.len() - i,
        {
            proof {
                assert(whole.skip(i as int)[0] == whole[i as int]);
                assert(whole.skip(i as int).drop_first() =~= whole.skip(i + 1));
            }
            if self.named_block_map[i].0 == k {
                return Some(i);
            }
            i = i + 1;
        }
        proof {
            assert(whole.skip(whole.len() as int) =~= Seq::<(Var_, Type)>::empty());
        }
        None
    }

    /// The type bound to a named block, if one was recorded.
    pub fn named_block_type_opt(&self, name: &BlockLabel) -> (r: Option<Type>)
        ensures
            match spec_assoc_block(self.named_block_map@, name.label.value) {
                Some(i) => r matches Some(t) && t@ == self.named_block_map@[i].1@,
                None => r is None,
            },
    {
        let found = self.find_block(name.label.value);
        match found {
            Some(i) => Some(self.named_block_map[i].1.deep_clone()),
            None => None,
        }
    }

    /// Hands out the next scope color, one above every color used so far.
    pub fn next_variable_color(&mut self) -> (r: Color)
        requires
            old(self).max_variable_color < Color::MAX,
        ensures
            r == old(self).max_variable_color + 1,
            final(self).max_variable_color == r,
            final(self).env == old(self).env,
            final(self).subst == old(self).subst,
    {
        self.max_variable_color = self.max_variable_color + 1;
        self.max_variable_color
    }

    /// Raises the color floor to `color`, which must not reuse earlier
    /// colors; a regression is an internal fault, reported and ignored.
    pub fn set_max_variable_color(&mut self, color: Color, loc: Loc)
        ensures
            if old(self).max_variable_color <= color {
                final(self).max_variable_color == color && final(self).env.diags@ == old(
                    self,
                ).env.diags@
            } else {
                final(self).max_variable_color == old(self).max_variable_color
                    && crate::diag::sink_extended(
                    old(self).env.diags@,
                    final(self).env.diags@,
                    spec_diag0(
                        Code::InternalError,
                        Label { loc, note: Note::VariableColorRegression },
                    ),
                )
            },
            final(self).subst == old(self).subst,
            final(self).constraints == old(self).constraints,
    {
        if self.max_variable_color <= color {
            self.max_variable_color = color;
        } else {
            self.diag0(Code::InternalError, loc, Note::VariableColorRegression);
        }
    }

    /// The hygiene color of the innermost scope, or zero when no scope or an
    /// uncolored scope is on top.
    pub fn current_call_color(&self) -> (r: Color)
        ensures
            r == (match spec_current_call_color(self.use_funs@) {
                Some(c) => c,
                None => 0,
            }),
    {
        if self.use_funs.len() == 0 {
            return 0;
        }
        match self.use_funs[self.use_funs.len() - 1].color {
            Some(c) => c,
            None => 0,
        }
    }

    /// Clears every per-function piece of state; colors, friend edges, used
    /// members and macro bodies persist for the whole unit.
    pub fn reset_for_module_item(&mut self)
        ensures
            final(self).named_block_map@ =~= Seq::<(Var_, Type)>::empty(),
            final(self).return_type is None,
            final(self).locals@ =~= Seq::<LocalEntry>::empty(),
            final(self).subst@.tvars =~= Seq::<crate::subst::SpecVarEntry>::empty(),
            final(self).subst@.ref_vars =~= Seq::<Option<crate::subst::RefKind>>::empty(),
            final(self).constraints@ =~= Seq::<Constraint>::empty(),
            final(self).current_function is None,
            !final(self).in_macro_function,
            final(self).max_variable_color == 0,
            final(self).macro_expansion@ =~= Seq::<MacroExpansion>::empty(),
            final(self).lambda_expansion@ =~= Seq::<Vec<MacroExpansion>>::empty(),
            final(self).env == old(self).env,
            final(self).modules == old(self).modules,
            final(self).macros == old(self).macros,
            final(self).use_funs == old(self).use_funs,
            final(self).current_package == old(self).current_package,
            final(self).current_module == old(self).current_module,
            final(self).new_friends == old(self).new_friends,
            final(self).used_module_members == old(self).used_module_members,
    {
        self.named_block_map = Vec::new();
        self.return_type = None;
        self.locals = Vec::new();
        self.subst = Subst::empty();
        self.constraints = Vec::new();
        self.current_function = None;
        self.in_macro_function = false;
        self.max_variable_color = 0;
        self.macro_expansion = Vec::new();
        self.lambda_expansion = Vec::new();
    }

    /// Stores the macro bodies once, at the start of the unit.
    pub fn set_macros(&mut self, macros: Vec<(ModuleIdent_, Vec<(Symbol, Sequence)>)>)
        ensures
            final(self).macros == macros,
            final(self).env == old(self).env,
            final(self).subst == old(self).subst,
    {
        self.macros = macros;
    }

    /// The body handle of the macro `m::f`, when one was registered.
    pub fn macro_body(&self, m: &ModuleIdent, f: &Name) -> (r: Option<Sequence>)
        ensures
            r == (match spec_assoc_macro_mod(self.macros@, m.value) {
                Some(i) => spec_assoc_macro_fn(self.macros@[i].1@, f.value),
                None => None::<Sequence>,
            }),
    {
        let ghost whole = self.macros@;
        let mut i: usize = 0;
        proof {
            assert(whole.skip(0) =~= whole);
        }
        while i < self.macros.len()
            invariant
                0 <= i <= whole.len(),
                whole == self.macros@,
                spec_assoc_macro_mod(whole, m.value) == (match spec_assoc_macro_mod(
                    whole.skip(i as int),
                    m.value,
                ) {
                    Some(j) => Some(j + i),
                    None => None,
                }),
            decreases whole.len() - i,
        {
            proof {
                assert(whole.skip(i as int)[0] == whole[i as int]);
                assert(whole.skip(i as int).drop_first() =~= whole.skip(i + 1));
            }
            if self.macros[i].0 == m.value {
                return self.macro_fn_lookup(i, f.value);
            }
            i = i + 1;
        }
        proof {
            assert(whole.skip(whole.len() as int) =~= Seq::<(
                ModuleIdent_,
                Vec<(Symbol, Sequence)>,
            )>::empty());
        }
        None
    }

    /// The body handle of a macro inside the module at index `i`.
    fn macro_fn_lookup(&self, i: usize, f: Symbol) -> (r: Option<Sequence>)
        requires
            i < self.macros@.len(),
        ensures
            r == spec_assoc_macro_fn(self.macros@[i as int].1@, f),
    {
        let ghost whole = self.macros@[i as int].1@;
        let fs = &self.macros[i].1;
        let mut j: usize = 0;
        proof {
            assert(whole.skip(0) =~= whole);
        }
        while j < fs.len()
            invariant
                0 <= j <= whole.len(),
                i < self.macros@.len(),
                whole == fs@,
                whole == self.macros@[i as int].1@,
                spec_assoc_macro_fn(whole, f) == spec_assoc_macro_fn(whole.skip(j as int), f),
            decreases whole.len() - j,
        {
            proof {
                assert(whole.skip(j as int)[0] == whole[j as int]);
                assert(whole.skip(j as int).drop_first() =~= whole.skip(j + 1));
            }
            if fs[j].0 == f {
                proof {
                    assert(spec_assoc_macro_fn(whole.skip(j as int), f) == Some(whole[j as int].1));
                }
                return Some(fs[j].1);
            }
            j = j + 1;
        }
        proof {
            assert(whole.skip(whole.len() as int) =~= Seq::<(Symbol, Sequence)>::empty());
        }
        None
    }
}


/// The index of the offending earlier call when expanding `m::f` at color
/// `color` would be self-recursive: scanning the stack innermost-outward,
/// an argument frame written in an outer scope ends the scan, and an
/// enclosing call of the same function at an outer color is the offender.
pub open spec fn spec_find_macro_recursion(
    stack: Seq<MacroExpansion>,
    color: Color,
    m: ModuleIdent_,
    f: Symbol,
) -> Option<int>
    decreases stack,
{
    if stack.len() == 0 {
        None
    } else {
        match stack.last() {
            MacroExpansion::Argument { scope_color } => if color > scope_color {
                None
            } else {
                spec_find_macro_recursion(stack.drop_last(), color, m, f)
            },
            MacroExpansion::Call(c) => if color > c.scope_color && c.module.value == m
                && c.function.value == f {
                Some(stack.len() - 1)
            } else {
                spec_find_macro_recursion(stack.drop_last(), color, m, f)
            },
        }
    }
}

/// The secondary labels along a rejected expansion's cycle path: one per
/// call frame, marking repeats of the same function.
pub open spec fn spec_cycle_labels(frames: Seq<MacroExpansion>, m: ModuleIdent_, f: Symbol) -> Seq<
    Label,
>
    decreases frames,
{
    if frames.len() == 0 {
        Seq::<Label>::empty()
    } else {
        let rest = spec_cycle_labels(frames.drop_first(), m, f);
        match frames[0] {
            MacroExpansion::Call(c) => seq![
                Label {
                    loc: c.invocation,
                    note: if c.module.value == m && c.function.value == f {
                        Note::PreviousMacroExpansion {
                            address: m.address,
                            module: m.module,
                            function: f,
                        }
                    } else {
                        Note::FromMacroExpansion
                    },
                },
            ] + rest,
            MacroExpansion::Argument { .. } => rest,
        }
    }
}

/// Appending one frame appends its labels.
pub proof fn lemma_cycle_labels_push(
    frames: Seq<MacroExpansion>,
    x: MacroExpansion,
    m: ModuleIdent_,
    f: Symbol,
)
    ensures
        spec_cycle_labels(frames.push(x), m, f) == spec_cycle_labels(frames, m, f) + (match x {
            MacroExpansion::Call(c) => seq![
                Label {
                    loc: c.invocation,
                    note: if c.module.value == m && c.function.value == f {
                        Note::PreviousMacroExpansion {
                            address: m.address,
                            module: m.module,
                            function: f,
                        }
                    } else {
                        Note::FromMacroExpansion
                    },
                },
            ],
            MacroExpansion::Argument { .. } => Seq::<Label>::empty(),
        }),
    decreases frames,
{
    let tail = (match x {
        MacroExpansion::Call(c) => seq![
            Label {
                loc: c.invocation,
                note: if c.module.value == m && c.function.value == f {
                    Note::PreviousMacroExpansion { address: m.address, module: m.module, function: f }
                } else {
                    Note::FromMacroExpansion
                },
            },
        ],
        MacroExpansion::Argument { .. } => Seq::<Label>::empty(),
    });
    if frames.len() == 0 {
        assert(frames.push(x)[0] == x);
        assert(frames.push(x).drop_first() =~= Seq::<MacroExpansion>::empty());
        assert(spec_cycle_labels(frames.push(x).drop_first(), m, f) == Seq::<Label>::empty());
        assert(spec_cycle_labels(frames, m, f) + tail =~= tail);
        match x {
            MacroExpansion::Call(c) => {
                assert(spec_cycle_labels(frames.push(x), m, f) == seq![
                    Label {
                        loc: c.invocation,
                        note: if c.module.value == m && c.function.value == f {
                            Note::PreviousMacroExpansion {
                                address: m.address,
                                module: m.module,
                                function: f,
                            }
                        } else {
                            Note::FromMacroExpansion
                        },
                    },
                ] + spec_cycle_labels(frames.push(x).drop_first(), m, f));
                assert(spec_cycle_labels(frames.push(x), m, f) =~= tail);
            },
            MacroExpansion::Argument { .. } => {
                assert(spec_cycle_labels(frames.push(x), m, f) =~= tail);
            },
        }
    } else {
        lemma_cycle_labels_push(frames.drop_first(), x, m, f);
        assert(frames.push(x)[0] == frames[0]);
        assert(frames.push(x).drop_first() =~= frames.drop_first().push(x));
        match frames[0] {
            MacroExpansion::Call(c) => {
                assert(spec_cycle_labels(frames.push(x), m, f) =~= spec_cycle_labels(frames, m, f)
                    + tail);
            },
            MacroExpansion::Argument { .. } => {
                assert(spec_cycle_labels(frames.push(x), m, f) =~= spec_cycle_labels(frames, m, f)
                    + tail);
            },
        }
    }
}

impl Context {
    /// Guards a macro expansion of `m::f` invoked at `loc`: true when it is
    /// safe to expand, in which case a call frame is pushed; false when the
    /// expansion would be self-recursive, in which case one diagnostic
    /// labels the repeated call and the cycle path, and the stack is left
    /// unchanged.
    pub fn add_macro_expansion(&mut self, m: ModuleIdent, f: Name, loc: Loc) -> (r: bool)
        ensures
            ({
                let color = match spec_current_call_color(old(self).use_funs@) {
                    Some(c) => c,
                    None => 0,
                };
                match spec_find_macro_recursion(old(self).macro_expansion@, color, m.value, f.value) {
                    None => {
                        &&& r == true
                        &&& final(self).macro_expansion@ == old(self).macro_expansion@.push(
                            MacroExpansion::Call(
                                MacroCall {
                                    module: m,
                                    function: f,
                                    invocation: loc,
                                    scope_color: color,
                                },
                            ),
                        )
                        &&& final(self).env.diags@ == old(self).env.diags@
                    },
                    Some(idx) => {
                        &&& r == false
                        &&& final(self).macro_expansion == old(self).macro_expansion
                        &&& crate::diag::sink_extended(
                            old(self).env.diags@,
                            final(self).env.diags@,
                            SpecDiagnostic {
                                code: Code::CannotExpandMacro,
                                primary: Label {
                                    loc,
                                    note: Note::RecursiveMacroExpansion {
                                        address: m.value.address,
                                        module: m.value.module,
                                        function: f.value,
                                    },
                                },
                                secondary: spec_cycle_labels(
                                    old(self).macro_expansion@.skip(idx),
                                    m.value,
                                    f.value,
                                ),
                            },
                        )
                    },
                }
            }),
            final(self).subst == old(self).subst,
            final(self).constraints == old(self).constraints,
            final(self).use_funs == old(self).use_funs,
            final(self).locals == old(self).locals,
            final(self).new_friends == old(self).new_friends,
            final(self).lambda_expansion == old(self).lambda_expansion,
    {
        let color = self.current_call_color();
        let ghost whole = self.macro_expansion@;
        let found = self.find_macro_recursion(color, &m, &f);
        match found {
            None => {
                self.macro_expansion.push(
                    MacroExpansion::Call(
                        MacroCall { module: m, function: f, invocation: loc, scope_color: color },
                    ),
                );
                true
            },
            Some(idx) => {
                let ghost target = spec_cycle_labels(whole.skip(idx as int), m.value, f.value);
                let mut secondary: Vec<Label> = Vec::new();
                let mut j: usize = idx;
                proof {
                    assert(whole.subrange(idx as int, idx as int) =~= Seq::<
                        MacroExpansion,
                    >::empty());
                    assert(secondary@ =~= spec_cycle_labels(
                        whole.subrange(idx as int, idx as int),
                        m.value,
                        f.value,
                    ));
                }
                while j < self.macro_expansion.len()
                    invariant
                        idx <= j <= whole.len(),
                        whole == self.macro_expansion@,
                        secondary@ == spec_cycle_labels(
                            whole.subrange(idx as int, j as int),
                            m.value,
                            f.value,
                        ),
                    decreases whole.len() - j,
                {
                    proof {
                        lemma_cycle_labels_push(
                            whole.subrange(idx as int, j as int),
                            whole[j as int],
                            m.value,
                            f.value,
                        );
                        assert(whole.subrange(idx as int, j as int).push(whole[j as int])
                            =~= whole.subrange(idx as int, j + 1));
                    }
                    let frame = self.macro_expansion[j];
                    match frame {
                        MacroExpansion::Call(c) => {
                            let note = if c.module.value == m.value && c.function.value == f.value {
                                Note::PreviousMacroExpansion {
                                    address: m.value.address,
                                    module: m.value.module,
                                    function: f.value,
                                }
                            } else {
                                Note::FromMacroExpansion
                            };
                            secondary.push(Label { loc: c.invocation, note });
                        },
                        MacroExpansion::Argument { .. } => {},
                    }
                    j = j + 1;
                }
                proof {
                    assert(whole.subrange(idx as int, whole.len() as int) =~= whole.skip(
                        idx as int,
                    ));
                }
                let d = Diagnostic {
                    code: Code::CannotExpandMacro,
                    primary: Label {
                        loc,
                        note: Note::RecursiveMacroExpansion {
                            address: m.value.address,
                            module: m.value.module,
                            function: f.value,
                        },
                    },
                    secondary,
                };
                self.env.add_diag(d);
                proof {
                    assert(self.env.diags@.subrange(0, old(self).env.diags@.len() as int)
                        =~= old(self).env.diags@);
                }
                false
            },
        }
    }

    /// The index of the offending earlier call frame, when expanding `m::f`
    /// at color `color` would be self-recursive.
    fn find_macro_recursion(&self, color: Color, m: &ModuleIdent, f: &Name) -> (r: Option<usize>)
        ensures
            match r {
                Some(i) => spec_find_macro_recursion(self.macro_expansion@, color, m.value, f.value)
                    == Some(i as int) && i < self.macro_expansion@.len(),
                None => spec_find_macro_recursion(
                    self.macro_expansion@,
                    color,
                    m.value,
                    f.value,
                ) is None,
            },
    {
        let ghost whole = self.macro_expansion@;
        let mut i: usize = self.macro_expansion.len();
        proof {
            assert(whole.take(whole.len() as int) =~= whole);
        }
        loop
            invariant
                0 <= i <= whole.len(),
                whole == self.macro_expansion@,
                spec_find_macro_recursion(whole, color, m.value, f.value)
                    == spec_find_macro_recursion(whole.take(i as int), color, m.value, f.value),
            decreases i,
        {
            if i == 0 {
                return None;
            }
            proof {
                assert(whole.take(i as int).last() == whole[i - 1]);
                assert(whole.take(i as int).drop_last() =~= whole.take(i - 1));
            }
            let frame = self.macro_expansion[i - 1];
            match frame {
                MacroExpansion::Argument { scope_color } => {
                    if color > scope_color {
                        return None;
                    }
                },
                MacroExpansion::Call(c) => {
                    if color > c.scope_color && c.module.value == m.value && c.function.value
                        == f.value {
                        return Some(i - 1);
                    }
                },
            }
            i = i - 1;
        }
    }

    /// Leaves a macro expansion: the top of the stack must be the matching
    /// call frame.  A missing or mismatched frame is an internal fault of
    /// the driver: it is reported, and only a call frame is popped.
    pub fn pop_macro_expansion(&mut self, m: &ModuleIdent, f: &Name) -> (r: bool)
        ensures
            ({
                let stack = old(self).macro_expansion@;
                if stack.len() > 0 {
                    match stack.last() {
                        MacroExpansion::Call(c) => {
                            &&& final(self).macro_expansion@ == stack.drop_last()
                            &&& if c.module.value == m.value && c.function.value == f.value {
                                r == true && final(self).env.diags@ == old(self).env.diags@
                            } else {
                                r == false && crate::diag::sink_extended(
                                    old(self).env.diags@,
                                    final(self).env.diags@,
                                    spec_diag0(
                                        Code::InternalError,
                                        Label { loc: c.invocation, note: Note::MacroPopMismatch },
                                    ),
                                )
                            }
                        },
                        MacroExpansion::Argument { .. } => {
                            &&& final(self).macro_expansion == old(self).macro_expansion
                            &&& r == false
                            &&& crate::diag::sink_extended(
                                old(self).env.diags@,
                                final(self).env.diags@,
                                spec_diag0(
                                    Code::InternalError,
                                    Label { loc: m.loc, note: Note::MacroPopMismatch },
                                ),
                            )
                        },
                    }
                } else {
                    &&& final(self).macro_expansion == old(self).macro_expansion
                    &&& r == false
                    &&& crate::diag::sink_extended(
                        old(self).env.diags@,
                        final(self).env.diags@,
                        spec_diag0(
                            Code::InternalError,
                            Label { loc: m.loc, note: Note::MacroPopMismatch },
                        ),
                    )
                }
            }),
            final(self).subst == old(self).subst,
            final(self).use_funs == old(self).use_funs,
            final(self).constraints == old(self).constraints,
    {
        let is_call = match self.top_macro_frame() {
            Some(MacroExpansion::Call(_)) => true,
            _ => false,
        };
        if is_call {
            let popped = self.macro_expansion.pop();
            match popped {
                Some(MacroExpansion::Call(c)) => {
                    if c.module.value == m.value && c.function.value == f.value {
                        true
                    } else {
                        self.diag0(Code::InternalError, c.invocation, Note::MacroPopMismatch);
                        false
                    }
                },
                _ => {
                    proof {
                        assert(false);
                    }
                    false
                },
            }
        } else {
            self.diag0(Code::InternalError, m.loc, Note::MacroPopMismatch);
            false
        }
    }

    /// The innermost macro-expansion frame, when one exists.
    fn top_macro_frame(&self) -> (r: Option<MacroExpansion>)
        ensures
            match r {
                Some(x) => self.macro_expansion@.len() > 0 && x == self.macro_expansion@.last(),
                None => self.macro_expansion@.len() == 0,
            },
    {
        if self.macro_expansion.len() == 0 {
            None
        } else {
            Some(self.macro_expansion[self.macro_expansion.len() - 1])
        }
    }

    /// Entering the re-check of an expression that was substituted in as a
    /// macro argument pushes an argument frame carrying the color of the
    /// scope the argument was written in.
    pub fn maybe_enter_macro_argument(&mut self, from_macro_argument: bool, color: Color)
        ensures
            final(self).macro_expansion@ == if from_macro_argument {
                old(self).macro_expansion@.push(MacroExpansion::Argument { scope_color: color })
            } else {
                old(self).macro_expansion@
            },
            final(self).env == old(self).env,
            final(self).subst == old(self).subst,
            final(self).use_funs == old(self).use_funs,
            final(self).constraints == old(self).constraints,
    {
        if from_macro_argument {
            self.macro_expansion.push(MacroExpansion::Argument { scope_color: color });
        }
    }

    /// Leaving a macro argument pops its argument frame.  A missing frame is
    /// an internal fault of the driver: it is reported and nothing popped.
    pub fn maybe_exit_macro_argument(&mut self, from_macro_argument: bool, loc: Loc)
        ensures
            ({
                let stack = old(self).macro_expansion@;
                if !from_macro_argument {
                    &&& final(self).macro_expansion == old(self).macro_expansion
                    &&& final(self).env.diags@ == old(self).env.diags@
                } else if stack.len() > 0 && (stack.last() matches MacroExpansion::Argument { .. }) {
                    final(self).macro_expansion@ == stack.drop_last() && final(self).env.diags@
                        == old(self).env.diags@
                } else {
                    final(self).macro_expansion == old(self).macro_expansion
                        && crate::diag::sink_extended(
                        old(self).env.diags@,
                        final(self).env.diags@,
                        spec_diag0(
                            Code::InternalError,
                            Label { loc, note: Note::MacroArgumentPopMismatch },
                        ),
                    )
                }
            }),
            final(self).subst == old(self).subst,
            final(self).use_funs == old(self).use_funs,
            final(self).constraints == old(self).constraints,
    {
        if from_macro_argument {
            let is_argument = match self.top_macro_frame() {
                Some(MacroExpansion::Argument { .. }) => true,
                _ => false,
            };
            if is_argument {
                let _ = self.macro_expansion.pop();
            } else {
                self.diag0(Code::InternalError, loc, Note::MacroArgumentPopMismatch);
            }
        }
    }

    /// The information of the module `m`, when the table has it.
    pub fn module_info(&self, m: &ModuleIdent) -> (r: Option<&ModuleInfo>)
        ensures
            match r {
                Some(info) => crate::info::spec_assoc_module(self.modules.modules@, m.value)
                    matches Some(i) && *info == self.modules.modules@[i].1,
                None => crate::info::spec_assoc_module(self.modules.modules@, m.value) is None,
            },
    {
        self.modules.module_info(&m.value)
    }

    /// The package of the module being checked, when known.
    pub fn current_package(&self) -> (r: Option<Symbol>)
        ensures
            r == (match self.current_module {
                Some(c) => match crate::info::spec_assoc_module(self.modules.modules@, c.value) {
                    Some(i) => self.modules.modules@[i].1.package,
                    None => None::<Symbol>,
                },
                None => None::<Symbol>,
            }),
    {
        match &self.current_module {
            Some(c) => {
                let c = *c;
                match self.module_info(&c) {
                    Some(info) => info.package,
                    None => None,
                }
            },
            None => None,
        }
    }

    /// Whether checking is happening in a testing context: the module or the
    /// current function carries a test attribute.
    pub fn is_testing_context(&self) -> (r: bool)
        ensures
            r == spec_is_testing_context(self),
    {
        match &self.current_module {
            Some(c) => {
                let c = *c;
                match self.module_info(&c) {
                    Some(minfo) => {
                        if minfo.test_attribute {
                            true
                        } else {
                            match &self.current_function {
                                Some(fname) => match minfo.function_info(fname.value) {
                                    Some(finfo) => finfo.test_attribute,
                                    None => false,
                                },
                                None => false,
                            }
                        }
                    },
                    None => false,
                }
            },
            None => false,
        }
    }

    /// Whether the module being checked shares both address and package with
    /// `m`.
    pub fn current_module_shares_package_and_address(&self, m: &ModuleIdent) -> (r: bool)
        ensures
            r == spec_shares_package_and_address(self, m.value),
    {
        match &self.current_module {
            Some(c) => {
                let c = *c;
                if m.value.address != c.value.address {
                    false
                } else {
                    let p1 = self.lookup_package(&m.value);
                    let p2 = self.lookup_package(&c.value);
                    match (p1, p2) {
                        (Some(a), Some(b)) => a == b,
                        (None, None) => true,
                        _ => false,
                    }
                }
            },
            None => false,
        }
    }

    /// The package of module `k`, when the table has it.
    fn lookup_package(&self, k: &ModuleIdent_) -> (r: Option<Symbol>)
        ensures
            r == spec_package_of(self, *k),
    {
        match self.modules.module_info(k) {
            Some(info) => info.package,
            None => None,
        }
    }

    /// Whether the module being checked is a declared friend of `m`.
    pub fn current_module_is_a_friend_of(&self, m: &ModuleIdent) -> (r: bool)
        ensures
            r == spec_is_friend_of(self, m.value),
    {
        match &self.current_module {
            Some(c) => {
                let c = *c;
                match self.modules.module_info(&m.value) {
                    Some(minfo) => minfo.has_friend(&c.value),
                    None => false,
                }
            },
            None => false,
        }
    }

    /// Records the module being checked as a prospective friend of `m`, for
    /// a later validation pass; nothing is recorded for same-module calls
    /// or duplicates.
    pub fn record_current_module_as_friend(&mut self, m: &ModuleIdent, loc: Loc)
        ensures
            ({
                let cross = old(self).current_module matches Some(c) && c.value != m.value;
                if cross && !spec_has_friend_edge(old(self).new_friends@, m.value, loc) {
                    final(self).new_friends@ == old(self).new_friends@.push((m.value, loc))
                } else {
                    final(self).new_friends == old(self).new_friends
                }
            }),
            final(self).env == old(self).env,
            final(self).subst == old(self).subst,
            final(self).constraints == old(self).constraints,
            final(self).use_funs == old(self).use_funs,
            final(self).macro_expansion == old(self).macro_expansion,
            final(self).locals == old(self).locals,
            final(self).modules == old(self).modules,
            final(self).macros == old(self).macros,
            final(self).current_package == old(self).current_package,
            final(self).current_module == old(self).current_module,
            final(self).current_function == old(self).current_function,
            final(self).in_macro_function == old(self).in_macro_function,
            final(self).max_variable_color == old(self).max_variable_color,
            final(self).return_type == old(self).return_type,
            final(self).used_module_members == old(self).used_module_members,
            final(self).lambda_expansion == old(self).lambda_expansion,
            final(self).named_block_map == old(self).named_block_map,
    {
        let cross = match &self.current_module {
            Some(c) => c.value != m.value,
            None => false,
        };
        if cross {
            let present = self.has_friend_edge(&m.value, loc);
            if !present {
                self.new_friends.push((m.value, loc));
            }
        }
    }

    /// Whether the friend-edge accumulator already holds the pair.
    fn has_friend_edge(&self, m: &ModuleIdent_, loc: Loc) -> (r: bool)
        ensures
            r == spec_has_friend_edge(self.new_friends@, *m, loc),
    {
        let ghost whole = self.new_friends@;
        let mut i: usize = 0;
        proof {
            assert(whole.skip(0) =~= whole);
        }
        while i < self.new_friends.len()
            invariant
                0 <= i <= whole.len(),
                whole == self.new_friends@,
                spec_has_friend_edge(whole, *m, loc) == spec_has_friend_edge(
                    whole.skip(i as int),
                    *m,
                    loc,
                ),
            decreases whole.len() - i,
        {
            proof {
                assert(whole.skip(i as int)[0] == whole[i as int]);
                assert(whole.skip(i as int).drop_first() =~= whole.skip(i + 1));
            }
            if self.new_friends[i].0 == *m && self.new_friends[i].1 == loc {
                return true;
            }
            i = i + 1;
        }
        proof {
            assert(whole.skip(whole.len() as int) =~= Seq::<(ModuleIdent_, Loc)>::empty());
        }
        false
    }

    /// The declared abilities of struct `m::n`, when the table has it.
    pub fn struct_declared_abilities(&self, m: &ModuleIdent, n: &Name) -> (r: Option<AbilitySet>)
        ensures
            r == (match spec_struct_of(self, m.value, n.value) {
                Some(i) => Some(
                    self.modules.modules@[i.0].1.structs@[i.1].1.abilities,
                ),
                None => None::<AbilitySet>,
            }),
    {
        match self.struct_definition(m, n) {
            Some(d) => Some(d.abilities),
            None => None,
        }
    }

    /// The declaration position of struct `m::n`, when the table has it.
    pub fn struct_declared_loc(&self, m: &ModuleIdent, n: &Name) -> (r: Option<Loc>)
        ensures
            r == (match spec_struct_of(self, m.value, n.value) {
                Some(i) => Some(self.modules.modules@[i.0].1.structs@[i.1].1.loc),
                None => None::<Loc>,
            }),
    {
        match self.struct_definition(m, n) {
            Some(d) => Some(d.loc),
            None => None,
        }
    }

    /// The generic parameters of struct `m::n`, when the table has it.
    pub fn struct_tparams(&self, m: &ModuleIdent, n: &Name) -> (r: Option<
        &Vec<crate::ast::StructTypeParameter>,
    >)
        ensures
            match r {
                Some(tps) => spec_struct_of(self, m.value, n.value) matches Some(i) && tps
                    == &self.modules.modules@[i.0].1.structs@[i.1].1.type_parameters,
                None => spec_struct_of(self, m.value, n.value) is None,
            },
    {
        match self.struct_definition(m, n) {
            Some(d) => Some(&d.type_parameters),
            None => None,
        }
    }

    /// The declaration of struct `m::n`, when the table has it.
    pub fn struct_definition(&self, m: &ModuleIdent, n: &Name) -> (r: Option<&StructDefinition>)
        ensures
            match r {
                Some(d) => spec_struct_of(self, m.value, n.value) matches Some(i) && d
                    == &self.modules.modules@[i.0].1.structs@[i.1].1,
                None => spec_struct_of(self, m.value, n.value) is None,
            },
    {
        match self.modules.module_info(&m.value) {
            Some(minfo) => minfo.struct_definition(n.value),
            None => None,
        }
    }

    /// The declaration of function `m::n`, when the table has it.
    pub fn function_info(&self, m: &ModuleIdent, n: &Name) -> (r: Option<&FunctionInfo>)
        ensures
            match r {
                Some(d) => spec_function_of(self, m.value, n.value) matches Some(i) && d
                    == &self.modules.modules@[i.0].1.functions@[i.1].1,
                None => spec_function_of(self, m.value, n.value) is None,
            },
    {
        match self.modules.module_info(&m.value) {
            Some(minfo) => minfo.function_info(n.value),
            None => None,
        }
    }

    /// The declaration of constant `m::c`, when the table has it.
    pub fn constant_info(&self, m: &ModuleIdent, c: &Name) -> (r: Option<&crate::info::ConstantInfo>)
        ensures
            match r {
                Some(d) => spec_constant_of(self, m.value, c.value) matches Some(i) && d
                    == &self.modules.modules@[i.0].1.constants@[i.1].1,
                None => spec_constant_of(self, m.value, c.value) is None,
            },
    {
        match self.modules.module_info(&m.value) {
            Some(minfo) => minfo.constant_info(c.value),
            None => None,
        }
    }
}

/// Whether checking is in a testing context, over the context's fields.
pub open spec fn spec_is_testing_context(c: &Context) -> bool {
    match c.current_module {
        Some(cm) => match crate::info::spec_assoc_module(c.modules.modules@, cm.value) {
            Some(i) => {
                let minfo = c.modules.modules@[i].1;
                minfo.test_attribute || (match c.current_function {
                    Some(f) => match crate::info::spec_assoc_function(minfo.functions@, f.value) {
                        Some(j) => minfo.functions@[j].1.test_attribute,
                        None => false,
                    },
                    None => false,
                })
            },
            None => false,
        },
        None => false,
    }
}

/// The package of module `k`, over the context's table.
pub open spec fn spec_package_of(c: &Context, k: ModuleIdent_) -> Option<Symbol> {
    match crate::info::spec_assoc_module(c.modules.modules@, k) {
        Some(i) => c.modules.modules@[i].1.package,
        None => None,
    }
}

/// Whether the current module shares address and package with `m`.
pub open spec fn spec_shares_package_and_address(c: &Context, m: ModuleIdent_) -> bool {
    match c.current_module {
        Some(cm) => m.address == cm.value.address && spec_package_of(c, m) == spec_package_of(
            c,
            cm.value,
        ),
        None => false,
    }
}

/// Whether the current module is a declared friend of `m`.
pub open spec fn spec_is_friend_of(c: &Context, m: ModuleIdent_) -> bool {
    match c.current_module {
        Some(cm) => match crate::info::spec_assoc_module(c.modules.modules@, m) {
            Some(i) => crate::info::spec_has_friend(c.modules.modules@[i].1.friends@, cm.value),
            None => false,
        },
        None => false,
    }
}

/// The module and struct indices of `m::n` in the table, when present.
pub open spec fn spec_struct_of(c: &Context, m: ModuleIdent_, n: Symbol) -> Option<(int, int)> {
    match crate::info::spec_assoc_module(c.modules.modules@, m) {
        Some(i) => match crate::info::spec_assoc_struct(c.modules.modules@[i].1.structs@, n) {
            Some(j) => Some((i, j)),
            None => None,
        },
        None => None,
    }
}

/// The module and function indices of `m::n` in the table, when present.
pub open spec fn spec_function_of(c: &Context, m: ModuleIdent_, n: Symbol) -> Option<(int, int)> {
    match crate::info::spec_assoc_module(c.modules.modules@, m) {
        Some(i) => match crate::info::spec_assoc_function(c.modules.modules@[i].1.functions@, n) {
            Some(j) => Some((i, j)),
            None => None,
        },
        None => None,
    }
}

/// The module and constant indices of `m::c` in the table, when present.
pub open spec fn spec_constant_of(c: &Context, m: ModuleIdent_, n: Symbol) -> Option<(int, int)> {
    match crate::info::spec_assoc_module(c.modules.modules@, m) {
        Some(i) => match crate::info::spec_assoc_constant(c.modules.modules@[i].1.constants@, n) {
            Some(j) => Some((i, j)),
            None => None,
        },
        None => None,
    }
}


/// A macro directly expanding itself is rejected: with its own call frame
/// innermost at an outer color, the guard reports that frame.
pub proof fn lemma_macro_direct_recursion_rejected(
    stack: Seq<MacroExpansion>,
    color: Color,
    c: MacroCall,
)
    requires
        stack.len() > 0,
        stack.last() == MacroExpansion::Call(c),
        color > c.scope_color,
    ensures
        spec_find_macro_recursion(stack, color, c.module.value, c.function.value) == Some(
            stack.len() - 1,
        ),
{
}

/// A macro invoked as an argument to another invocation of itself is not
/// flagged by that enclosing invocation: a call frame at the same color (or
/// an inner one) defers to what lies beneath it.
pub proof fn lemma_macro_argument_call_not_flagged(
    stack: Seq<MacroExpansion>,
    color: Color,
    c: MacroCall,
    m: ModuleIdent_,
    f: Symbol,
)
    requires
        stack.len() > 0,
        stack.last() == MacroExpansion::Call(c),
        color <= c.scope_color,
    ensures
        spec_find_macro_recursion(stack, color, m, f) == spec_find_macro_recursion(
            stack.drop_last(),
            color,
            m,
            f,
        ),
{
}

/// An argument frame written in an outer scope insulates everything beneath
/// it: the scan stops there and nothing is flagged.
pub proof fn lemma_macro_outer_argument_insulates(
    stack: Seq<MacroExpansion>,
    color: Color,
    sc: Color,
    m: ModuleIdent_,
    f: Symbol,
)
    requires
        stack.len() > 0,
        stack.last() == (MacroExpansion::Argument { scope_color: sc }),
        color > sc,
    ensures
        spec_find_macro_recursion(stack, color, m, f) is None,
{
}

/// The publicly exported method bindings of one group, filtered.
pub open spec fn spec_filter_public(ms: Seq<(Symbol, UseFun)>) -> Seq<(Symbol, UseFun)>
    decreases ms,
{
    if ms.len() == 0 {
        Seq::<(Symbol, UseFun)>::empty()
    } else {
        let rest = spec_filter_public(ms.drop_first());
        if ms[0].1.is_public is Some {
            seq![ms[0]] + rest
        } else {
            rest
        }
    }
}

/// Appending a binding appends it to the filtered list when public.
pub proof fn lemma_filter_public_push(ms: Seq<(Symbol, UseFun)>, x: (Symbol, UseFun))
    ensures
        spec_filter_public(ms.push(x)) == if x.1.is_public is Some {
            spec_filter_public(ms).push(x)
        } else {
            spec_filter_public(ms)
        },
    decreases ms,
{
    if ms.len() == 0 {
        assert(ms.push(x)[0] == x);
        assert(ms.push(x).drop_first() =~= Seq::<(Symbol, UseFun)>::empty());
        assert(spec_filter_public(ms.push(x).drop_first()) == Seq::<(Symbol, UseFun)>::empty());
        assert(spec_filter_public(ms) == Seq::<(Symbol, UseFun)>::empty());
        if x.1.is_public is Some {
            assert(spec_filter_public(ms.push(x)) == seq![x] + Seq::<(Symbol, UseFun)>::empty());
            assert(seq![x] + Seq::<(Symbol, UseFun)>::empty() =~= Seq::<(
                Symbol,
                UseFun,
            )>::empty().push(x));
        } else {
            assert(spec_filter_public(ms.push(x)) == Seq::<(Symbol, UseFun)>::empty());
        }
    } else {
        lemma_filter_public_push(ms.drop_first(), x);
        assert(ms.push(x)[0] == ms[0]);
        assert(ms.push(x).drop_first() =~= ms.drop_first().push(x));
        if ms[0].1.is_public is Some {
            assert(spec_filter_public(ms.push(x)) == seq![ms[0]] + spec_filter_public(
                ms.drop_first().push(x),
            ));
            assert(spec_filter_public(ms) == seq![ms[0]] + spec_filter_public(ms.drop_first()));
            if x.1.is_public is Some {
                assert(seq![ms[0]] + spec_filter_public(ms.drop_first()).push(x) =~= (seq![ms[0]]
                    + spec_filter_public(ms.drop_first())).push(x));
            }
        } else {
            assert(spec_filter_public(ms.push(x)) == spec_filter_public(ms.drop_first().push(x)));
            assert(spec_filter_public(ms) == spec_filter_public(ms.drop_first()));
        }
    }
}

/// The model of grouped method bindings: each group's inner list by view.
pub open spec fn view_groups(gs: Seq<(TypeNameKey, Vec<(Symbol, UseFun)>)>) -> Seq<
    (TypeNameKey, Seq<(Symbol, UseFun)>),
>
    decreases gs,
{
    if gs.len() == 0 {
        Seq::<(TypeNameKey, Seq<(Symbol, UseFun)>)>::empty()
    } else {
        seq![(gs[0].0, gs[0].1@)] + view_groups(gs.drop_first())
    }
}

/// Indexing form of [`view_groups`].
pub proof fn lemma_view_groups_index(gs: Seq<(TypeNameKey, Vec<(Symbol, UseFun)>)>)
    ensures
        view_groups(gs).len() == gs.len(),
        forall|i: int|
            0 <= i < gs.len() ==> view_groups(gs)[i] == (gs[i].0, gs[i].1@),
    decreases gs,
{
    if gs.len() > 0 {
        lemma_view_groups_index(gs.drop_first());
        assert forall|i: int| 0 <= i < gs.len() implies view_groups(gs)[i] == (gs[i].0, gs[i].1@) by {
            if i > 0 {
                assert(gs.drop_first()[i - 1] == gs[i]);
            }
        }
    }
}

/// Push form of [`view_groups`].
pub proof fn lemma_view_groups_push(
    gs: Seq<(TypeNameKey, Vec<(Symbol, UseFun)>)>,
    x: (TypeNameKey, Vec<(Symbol, UseFun)>),
)
    ensures
        view_groups(gs.push(x)) == view_groups(gs).push((x.0, x.1@)),
    decreases gs,
{
    if gs.len() == 0 {
        assert(gs.push(x)[0] == x);
        assert(gs.push(x).drop_first() =~= Seq::<(TypeNameKey, Vec<(Symbol, UseFun)>)>::empty());
        assert(view_groups(gs.push(x)) == seq![(x.0, x.1@)] + view_groups(gs.push(x).drop_first()));
        assert(view_groups(gs.push(x).drop_first()) == Seq::<(
            TypeNameKey,
            Seq<(Symbol, UseFun)>,
        )>::empty());
        assert(view_groups(gs) == Seq::<(TypeNameKey, Seq<(Symbol, UseFun)>)>::empty());
        assert(seq![(x.0, x.1@)] + Seq::<(TypeNameKey, Seq<(Symbol, UseFun)>)>::empty() =~= Seq::<(
            TypeNameKey,
            Seq<(Symbol, UseFun)>,
        )>::empty().push((x.0, x.1@)));
    } else {
        lemma_view_groups_push(gs.drop_first(), x);
        assert(gs.push(x)[0] == gs[0]);
        assert(gs.push(x).drop_first() =~= gs.drop_first().push(x));
        assert(view_groups(gs.push(x)) == seq![(gs[0].0, gs[0].1@)] + view_groups(
            gs.drop_first().push(x),
        ));
        assert(seq![(gs[0].0, gs[0].1@)] + view_groups(gs.drop_first()).push((x.0, x.1@)) =~= (
        seq![(gs[0].0, gs[0].1@)] + view_groups(gs.drop_first())).push((x.0, x.1@)));
    }
}

/// Whether grouped bindings already have a group for `tn`.
pub open spec fn spec_groups_contain(
    gs: Seq<(TypeNameKey, Seq<(Symbol, UseFun)>)>,
    tn: TypeNameKey,
) -> bool
    decreases gs,
{
    if gs.len() == 0 {
        false
    } else {
        gs[0].0 == tn || spec_groups_contain(gs.drop_first(), tn)
    }
}

/// The global method bindings grown by one module's exported groups: each
/// group's public bindings are added under its receiver type, unless empty
/// or already present (a duplicate is an internal invariant violation of an
/// earlier pass; the first entry is kept).
pub open spec fn spec_add_module_groups(
    acc: Seq<(TypeNameKey, Seq<(Symbol, UseFun)>)>,
    groups: Seq<(TypeNameKey, Vec<(Symbol, UseFun)>)>,
) -> Seq<(TypeNameKey, Seq<(Symbol, UseFun)>)>
    decreases groups,
{
    if groups.len() == 0 {
        acc
    } else {
        let pubs = spec_filter_public(groups[0].1@);
        let acc2 = if pubs.len() == 0 || spec_groups_contain(acc, groups[0].0) {
            acc
        } else {
            acc.push((groups[0].0, pubs))
        };
        spec_add_module_groups(acc2, groups.drop_first())
    }
}

/// The global method bindings collected from all modules, in table order.
pub open spec fn spec_global_groups_from(
    acc: Seq<(TypeNameKey, Seq<(Symbol, UseFun)>)>,
    modules: Seq<(ModuleIdent_, ModuleInfo)>,
) -> Seq<(TypeNameKey, Seq<(Symbol, UseFun)>)>
    decreases modules,
{
    if modules.len() == 0 {
        acc
    } else {
        spec_global_groups_from(
            spec_add_module_groups(acc, modules[0].1.use_funs@),
            modules.drop_first(),
        )
    }
}

/// The bindings of the permanent global method-resolution frame.
pub open spec fn spec_global_groups(modules: Seq<(ModuleIdent_, ModuleInfo)>) -> Seq<
    (TypeNameKey, Seq<(Symbol, UseFun)>),
> {
    spec_global_groups_from(Seq::<(TypeNameKey, Seq<(Symbol, UseFun)>)>::empty(), modules)
}

impl UseFunsScope {
    /// The permanent global frame: every module's publicly exported method
    /// bindings, colorless and entered once.
    pub fn global(info: &ProgramInfo) -> (r: UseFunsScope)
        ensures
            r.color is None,
            r.count == 1,
            view_groups(r.use_funs@) == spec_global_groups(info.modules@),
    {
        let ghost all_modules = info.modules@;
        let mut acc: Vec<(TypeNameKey, Vec<(Symbol, UseFun)>)> = Vec::new();
        let mut i: usize = 0;
        proof {
            assert(view_groups(acc@) =~= Seq::<(TypeNameKey, Seq<(Symbol, UseFun)>)>::empty());
            assert(all_modules.skip(0) =~= all_modules);
        }
        while i < info.modules.len()
            invariant
                0 <= i <= all_modules.len(),
                all_modules == info.modules@,
                spec_global_groups(all_modules) == spec_global_groups_from(
                    view_groups(acc@),
                    all_modules.skip(i as int),
                ),
            decreases all_modules.len() - i,
        {
            proof {
                assert(all_modules.skip(i as int)[0] == all_modules[i as int]);
                assert(all_modules.skip(i as int).drop_first() =~= all_modules.skip(i + 1));
            }
            let minfo = &info.modules[i].1;
            let ghost groups = minfo.use_funs@;
            let mut j: usize = 0;
            proof {
                assert(groups.skip(0) =~= groups);
            }
            while j < minfo.use_funs.len()
                invariant
                    0 <= j <= groups.len(),
                    i < all_modules.len(),
                    all_modules == info.modules@,
                    groups == info.modules@[i as int].1.use_funs@,
                    groups == minfo.use_funs@,
                    spec_global_groups(all_modules) == spec_global_groups_from(
                        spec_add_module_groups(view_groups(acc@), groups.skip(j as int)),
                        all_modules.skip(i + 1),
                    ),
                decreases groups.len() - j,
            {
                proof {
                    assert(groups.skip(j as int)[0] == groups[j as int]);
                    assert(groups.skip(j as int).drop_first() =~= groups.skip(j + 1));
                }
                let tn = minfo.use_funs[j].0;
                let pubs = filter_public_methods(&minfo.use_funs[j].1);
                let already = groups_contain(&acc, tn);
                let ghost acc_before = acc@;
                if pubs.len() > 0 && !already {
                    acc.push((tn, pubs));
                    proof {
                        lemma_view_groups_push(acc_before, acc@.last());
                        assert(view_groups(acc@) == view_groups(acc_before).push(
                            (tn, spec_filter_public(groups[j as int].1@)),
                        ));
                    }
                }
                j = j + 1;
            }
            proof {
                assert(groups.skip(groups.len() as int) =~= Seq::<(
                    TypeNameKey,
                    Vec<(Symbol, UseFun)>,
                )>::empty());
            }
            i = i + 1;
        }
        proof {
            assert(all_modules.skip(all_modules.len() as int) =~= Seq::<(
                ModuleIdent_,
                ModuleInfo,
            )>::empty());
        }
        UseFunsScope { color: None, count: 1, use_funs: acc }
    }
}

/// The public bindings of one group, in order.
fn filter_public_methods(ms: &Vec<(Symbol, UseFun)>) -> (r: Vec<(Symbol, UseFun)>)
    ensures
        r@ == spec_filter_public(ms@),
{
    let ghost whole = ms@;
    let mut out: Vec<(Symbol, UseFun)> = Vec::new();
    let mut i: usize = 0;
    proof {
        assert(whole.subrange(0, 0) =~= Seq::<(Symbol, UseFun)>::empty());
        assert(out@ =~= spec_filter_public(whole.subrange(0, 0)));
    }
    while i < ms.len()
        invariant
            0 <= i <= whole.len(),
            whole == ms@,
            out@ == spec_filter_public(whole.subrange(0, i as int)),
        decreases whole.len() - i,
    {
        proof {
            lemma_filter_public_push(whole.subrange(0, i as int), whole[i as int]);
            assert(whole.subrange(0, i as int).push(whole[i as int]) =~= whole.subrange(0, i + 1));
        }
        let is_pub = match &ms[i].1.is_public {
            Some(_) => true,
            None => false,
        };
        if is_pub {
            out.push((ms[i].0, ms[i].1));
        }
        i = i + 1;
    }
    proof {
        assert(whole.subrange(0, whole.len() as int) =~= whole);
    }
    out
}

/// Whether the accumulated groups already hold `tn`.
fn groups_contain(gs: &Vec<(TypeNameKey, Vec<(Symbol, UseFun)>)>, tn: TypeNameKey) -> (r: bool)
    ensures
        r == spec_groups_contain(view_groups(gs@), tn),
{
    let ghost whole = view_groups(gs@);
    proof {
        lemma_view_groups_index(gs@);
    }
    let mut i: usize = 0;
    proof {
        assert(whole.skip(0) =~= whole);
    }
    while i < gs.len()
        invariant
            0 <= i <= gs@.len(),
            whole == view_groups(gs@),
            whole.len() == gs@.len(),
            forall|k: int| 0 <= k < gs@.len() ==> whole[k] == (gs@[k].0, gs@[k].1@),
            spec_groups_contain(whole, tn) == spec_groups_contain(whole.skip(i as int), tn),
        decreases gs@.len() - i,
    {
        proof {
            assert(whole.skip(i as int)[0] == whole[i as int]);
            assert(whole.skip(i as int).drop_first() =~= whole.skip(i + 1));
        }
        if gs[i].0 == tn {
            return true;
        }
        i = i + 1;
    }
    proof {
        assert(whole.skip(whole.len() as int) =~= Seq::<(
            TypeNameKey,
            Seq<(Symbol, UseFun)>,
        )>::empty());
    }
    false
}


/// The warning one unused binding produces, if any.
pub open spec fn spec_unused_warning(tn: TypeNameKey, method: Symbol, uf: UseFun) -> Option<
    SpecDiagnostic,
> {
    if uf.used {
        None
    } else {
        match uf.kind {
            crate::info::UseFunKind::Explicit => Some(
                spec_diag0(
                    Code::UnusedAlias,
                    Label { loc: uf.loc, note: Note::UnusedUseFun { tn, method } },
                ),
            ),
            crate::info::UseFunKind::UseAlias => Some(
                spec_diag0(
                    Code::UnusedAlias,
                    Label { loc: uf.loc, note: Note::UnusedUseAlias { method } },
                ),
            ),
            crate::info::UseFunKind::FunctionDeclaration => Some(
                spec_diag0(
                    Code::InternalError,
                    Label {
                        loc: uf.loc,
                        note: Note::UnexpectedFunctionDeclarationUseFun { method },
                    },
                ),
            ),
        }
    }
}

/// The warnings of one group's bindings, in order.
pub open spec fn spec_unused_warnings_methods(tn: TypeNameKey, ms: Seq<(Symbol, UseFun)>) -> Seq<
    SpecDiagnostic,
>
    decreases ms,
{
    if ms.len() == 0 {
        Seq::<SpecDiagnostic>::empty()
    } else {
        let rest = spec_unused_warnings_methods(tn, ms.drop_first());
        match spec_unused_warning(tn, ms[0].0, ms[0].1) {
            Some(d) => seq![d] + rest,
            None => rest,
        }
    }
}

/// Push form of [`spec_unused_warnings_methods`].
pub proof fn lemma_unused_warnings_methods_push(
    tn: TypeNameKey,
    ms: Seq<(Symbol, UseFun)>,
    x: (Symbol, UseFun),
)
    ensures
        spec_unused_warnings_methods(tn, ms.push(x)) == (match spec_unused_warning(tn, x.0, x.1) {
            Some(d) => spec_unused_warnings_methods(tn, ms).push(d),
            None => spec_unused_warnings_methods(tn, ms),
        }),
    decreases ms,
{
    if ms.len() == 0 {
        assert(ms.push(x)[0] == x);
        assert(ms.push(x).drop_first() =~= Seq::<(Symbol, UseFun)>::empty());
        assert(spec_unused_warnings_methods(tn, ms.push(x).drop_first()) == Seq::<
            SpecDiagnostic,
        >::empty());
        assert(spec_unused_warnings_methods(tn, ms) == Seq::<SpecDiagnostic>::empty());
        match spec_unused_warning(tn, x.0, x.1) {
            Some(d) => {
                assert(spec_unused_warnings_methods(tn, ms.push(x)) == seq![d] + Seq::<
                    SpecDiagnostic,
                >::empty());
                assert(seq![d] + Seq::<SpecDiagnostic>::empty() =~= Seq::<
                    SpecDiagnostic,
                >::empty().push(d));
            },
            None => {
                assert(spec_unused_warnings_methods(tn, ms.push(x)) == Seq::<
                    SpecDiagnostic,
                >::empty());
            },
        }
    } else {
        lemma_unused_warnings_methods_push(tn, ms.drop_first(), x);
        assert(ms.push(x)[0] == ms[0]);
        assert(ms.push(x).drop_first() =~= ms.drop_first().push(x));
        match spec_unused_warning(tn, ms[0].0, ms[0].1) {
            Some(d0) => {
                match spec_unused_warning(tn, x.0, x.1) {
                    Some(d) => {
                        assert(seq![d0] + spec_unused_warnings_methods(tn, ms.drop_first()).push(d)
                            =~= (seq![d0] + spec_unused_warnings_methods(
                            tn,
                            ms.drop_first(),
                        )).push(d));
                    },
                    None => {},
                }
            },
            None => {},
        }
    }
}

/// The warnings of a whole scope's bindings, group by group.
pub open spec fn spec_unused_warnings(gs: Seq<(TypeNameKey, Vec<(Symbol, UseFun)>)>) -> Seq<
    SpecDiagnostic,
>
    decreases gs,
{
    if gs.len() == 0 {
        Seq::<SpecDiagnostic>::empty()
    } else {
        spec_unused_warnings_methods(gs[0].0, gs[0].1@) + spec_unused_warnings(gs.drop_first())
    }
}

/// Push form of [`spec_unused_warnings`].
pub proof fn lemma_unused_warnings_push(
    gs: Seq<(TypeNameKey, Vec<(Symbol, UseFun)>)>,
    x: (TypeNameKey, Vec<(Symbol, UseFun)>),
)
    ensures
        spec_unused_warnings(gs.push(x)) == spec_unused_warnings(gs)
            + spec_unused_warnings_methods(x.0, x.1@),
    decreases gs,
{
    if gs.len() == 0 {
        assert(gs.push(x)[0] == x);
        assert(gs.push(x).drop_first() =~= Seq::<(TypeNameKey, Vec<(Symbol, UseFun)>)>::empty());
        assert(spec_unused_warnings(gs.push(x).drop_first()) == Seq::<SpecDiagnostic>::empty());
        assert(spec_unused_warnings(gs) == Seq::<SpecDiagnostic>::empty());
        assert(spec_unused_warnings(gs.push(x)) == spec_unused_warnings_methods(x.0, x.1@) + Seq::<
            SpecDiagnostic,
        >::empty());
        assert(spec_unused_warnings_methods(x.0, x.1@) + Seq::<SpecDiagnostic>::empty()
            =~= Seq::<SpecDiagnostic>::empty() + spec_unused_warnings_methods(x.0, x.1@));
    } else {
        lemma_unused_warnings_push(gs.drop_first(), x);
        assert(gs.push(x)[0] == gs[0]);
        assert(gs.push(x).drop_first() =~= gs.drop_first().push(x));
        assert(spec_unused_warnings(gs.push(x)) == spec_unused_warnings_methods(gs[0].0, gs[0].1@)
            + spec_unused_warnings(gs.drop_first().push(x)));
        assert(spec_unused_warnings_methods(gs[0].0, gs[0].1@) + (spec_unused_warnings(
            gs.drop_first(),
        ) + spec_unused_warnings_methods(x.0, x.1@)) =~= (spec_unused_warnings_methods(
            gs[0].0,
            gs[0].1@,
        ) + spec_unused_warnings(gs.drop_first())) + spec_unused_warnings_methods(x.0, x.1@));
    }
}

/// The first index of a scope's groups holding the receiver type `tn`.
pub open spec fn spec_assoc_group(
    gs: Seq<(TypeNameKey, Vec<(Symbol, UseFun)>)>,
    tn: TypeNameKey,
) -> Option<int>
    decreases gs,
{
    if gs.len() == 0 {
        None
    } else if gs[0].0 == tn {
        Some(0)
    } else {
        match spec_assoc_group(gs.drop_first(), tn) {
            Some(i) => Some(i + 1),
            None => None,
        }
    }
}

/// The first index of a group's bindings holding the method name.
pub open spec fn spec_assoc_method(ms: Seq<(Symbol, UseFun)>, m: Symbol) -> Option<int>
    decreases ms,
{
    if ms.len() == 0 {
        None
    } else if ms[0].0 == m {
        Some(0)
    } else {
        match spec_assoc_method(ms.drop_first(), m) {
            Some(i) => Some(i + 1),
            None => None,
        }
    }
}

/// Where a method lookup lands: scanning scopes innermost-outward, skipping
/// colored frames of another color (the colorless global frame always
/// counts), the first frame binding `tn.method` yields its scope, group and
/// binding indices.
pub open spec fn spec_find_method(
    scopes: Seq<UseFunsScope>,
    cur: Option<Color>,
    tn: TypeNameKey,
    method: Symbol,
) -> Option<(int, int, int)>
    decreases scopes,
{
    if scopes.len() == 0 {
        None
    } else {
        let s = scopes.last();
        let deeper = spec_find_method(scopes.drop_last(), cur, tn, method);
        let considered = !(s.color is Some && s.color != cur);
        if considered {
            match spec_assoc_group(s.use_funs@, tn) {
                Some(g) => match spec_assoc_method(s.use_funs@[g].1@, method) {
                    Some(k) => Some((scopes.len() - 1, g, k)),
                    None => deeper,
                },
                None => deeper,
            }
        } else {
            deeper
        }
    }
}

/// The scopes after marking one binding used, everything else untouched.
pub open spec fn spec_scopes_marked_used(
    old_scopes: Seq<UseFunsScope>,
    new_scopes: Seq<UseFunsScope>,
    si: int,
    gi: int,
    ki: int,
) -> bool {
    &&& 0 <= si < old_scopes.len()
    &&& new_scopes.len() == old_scopes.len()
    &&& forall|s: int| 0 <= s < old_scopes.len() && s != si ==> new_scopes[s] == old_scopes[s]
    &&& new_scopes[si].color == old_scopes[si].color
    &&& new_scopes[si].count == old_scopes[si].count
    &&& 0 <= gi < old_scopes[si].use_funs@.len()
    &&& new_scopes[si].use_funs@.len() == old_scopes[si].use_funs@.len()
    &&& forall|g: int|
        0 <= g < old_scopes[si].use_funs@.len() && g != gi ==> new_scopes[si].use_funs@[g]
            == old_scopes[si].use_funs@[g]
    &&& new_scopes[si].use_funs@[gi].0 == old_scopes[si].use_funs@[gi].0
    &&& 0 <= ki < old_scopes[si].use_funs@[gi].1@.len()
    &&& new_scopes[si].use_funs@[gi].1@.len() == old_scopes[si].use_funs@[gi].1@.len()
    &&& forall|k: int|
        0 <= k < old_scopes[si].use_funs@[gi].1@.len() && k != ki
            ==> new_scopes[si].use_funs@[gi].1@[k] == old_scopes[si].use_funs@[gi].1@[k]
    &&& new_scopes[si].use_funs@[gi].1@[ki].0 == old_scopes[si].use_funs@[gi].1@[ki].0
    &&& new_scopes[si].use_funs@[gi].1@[ki].1 == (UseFun {
        used: true,
        ..old_scopes[si].use_funs@[gi].1@[ki].1
    })
}

impl Context {
    /// A fresh context for one compilation unit: the global method frame is
    /// collected from the table, everything else starts empty.
    pub fn new(env: CompilationEnv, info: ProgramInfo) -> (r: Context)
        ensures
            r.env == env,
            r.modules == info,
            r.use_funs@.len() == 1,
            r.use_funs@[0].color is None,
            r.use_funs@[0].count == 1,
            view_groups(r.use_funs@[0].use_funs@) == spec_global_groups(info.modules@),
            r.macros@ =~= Seq::<(ModuleIdent_, Vec<(Symbol, Sequence)>)>::empty(),
            r.current_package is None,
            r.current_module is None,
            r.current_function is None,
            !r.in_macro_function,
            r.max_variable_color == 0,
            r.return_type is None,
            r.locals@ =~= Seq::<LocalEntry>::empty(),
            r.subst@.tvars =~= Seq::<crate::subst::SpecVarEntry>::empty(),
            r.subst@.ref_vars =~= Seq::<Option<crate::subst::RefKind>>::empty(),
            r.constraints@ =~= Seq::<Constraint>::empty(),
            r.named_block_map@ =~= Seq::<(Var_, Type)>::empty(),
            r.new_friends@ =~= Seq::<(ModuleIdent_, Loc)>::empty(),
            r.used_module_members@ =~= Seq::<(ModuleIdent_, Vec<Symbol>)>::empty(),
            r.macro_expansion@ =~= Seq::<MacroExpansion>::empty(),
            r.lambda_expansion@ =~= Seq::<Vec<MacroExpansion>>::empty(),
    {
        let global = UseFunsScope::global(&info);
        let mut use_funs: Vec<UseFunsScope> = Vec::new();
        use_funs.push(global);
        Context {
            modules: info,
            macros: Vec::new(),
            env,
            use_funs,
            current_package: None,
            current_module: None,
            current_function: None,
            in_macro_function: false,
            max_variable_color: 0,
            return_type: None,
            locals: Vec::new(),
            subst: Subst::empty(),
            constraints: Vec::new(),
            named_block_map: Vec::new(),
            new_friends: Vec::new(),
            used_module_members: Vec::new(),
            macro_expansion: Vec::new(),
            lambda_expansion: Vec::new(),
        }
    }

    /// Enters a lexical or macro scope of bindings.  An empty addition at
    /// the color already on top only re-enters the frame; otherwise a new
    /// frame is pushed.  An empty stack is an internal fault: it is
    /// reported, and the frame pushed anyway.
    pub fn add_use_funs_scope(&mut self, color: Color, new_scope: ResolvedUseFuns, loc: Loc)
        ensures
            ({
                let scopes = old(self).use_funs@;
                if scopes.len() > 0 && new_scope@.len() == 0 && scopes.last().color == Some(color) {
                    &&& final(self).use_funs@.len() == scopes.len()
                    &&& forall|s: int|
                        0 <= s < scopes.len() - 1 ==> final(self).use_funs@[s] == scopes[s]
                    &&& final(self).use_funs@.last().color == scopes.last().color
                    &&& final(self).use_funs@.last().use_funs == scopes.last().use_funs
                    &&& final(self).use_funs@.last().count == (if scopes.last().count
                        < usize::MAX {
                        scopes.last().count + 1
                    } else {
                        scopes.last().count as int
                    })
                    &&& final(self).env.diags@ == old(self).env.diags@
                } else {
                    &&& final(self).use_funs@.len() == scopes.len() + 1
                    &&& forall|s: int| 0 <= s < scopes.len() ==> final(self).use_funs@[s] == scopes[s]
                    &&& final(self).use_funs@.last().color == Some(color)
                    &&& final(self).use_funs@.last().count == 1
                    &&& final(self).use_funs@.last().use_funs == new_scope
                    &&& if scopes.len() == 0 {
                        crate::diag::sink_extended(
                            old(self).env.diags@,
                            final(self).env.diags@,
                            spec_diag0(
                                Code::InternalError,
                                Label { loc, note: Note::UseFunScopeMissing },
                            ),
                        )
                    } else {
                        final(self).env.diags@ == old(self).env.diags@
                    }
                }
            }),
            final(self).subst == old(self).subst,
            final(self).constraints == old(self).constraints,
            final(self).macro_expansion == old(self).macro_expansion,
            final(self).locals == old(self).locals,
    {
        let n = self.use_funs.len();
        if n == 0 {
            self.diag0(Code::InternalError, loc, Note::UseFunScopeMissing);
            self.use_funs.push(UseFunsScope { color: Some(color), count: 1, use_funs: new_scope });
            return ;
        }
        let coalesce = new_scope.len() == 0 && (match self.use_funs[n - 1].color {
            Some(c) => c == color,
            None => false,
        });
        if coalesce {
            let e = vstd::std_specs::vec::vec_index_mut(&mut self.use_funs, n - 1);
            if e.count < usize::MAX {
                e.count = e.count + 1;
            }
        } else {
            self.use_funs.push(UseFunsScope { color: Some(color), count: 1, use_funs: new_scope });
        }
    }

    /// Leaves a scope of bindings.  A frame entered several times is only
    /// counted down; on its final exit it is popped and every unused
    /// explicit binding or alias warns.  An empty stack is an internal
    /// fault: it is reported, and nothing returned.
    pub fn pop_use_funs_scope(&mut self, loc: Loc) -> (r: (Color, ResolvedUseFuns))
        ensures
            ({
                let scopes = old(self).use_funs@;
                if scopes.len() == 0 {
                    &&& final(self).use_funs == old(self).use_funs
                    &&& r.1@.len() == 0
                    &&& r.0 == 0
                    &&& crate::diag::sink_extended(
                        old(self).env.diags@,
                        final(self).env.diags@,
                        spec_diag0(
                            Code::InternalError,
                            Label { loc, note: Note::UseFunScopeMissing },
                        ),
                    )
                } else if scopes.last().count > 1 {
                    &&& final(self).use_funs@.len() == scopes.len()
                    &&& forall|s: int|
                        0 <= s < scopes.len() - 1 ==> final(self).use_funs@[s] == scopes[s]
                    &&& final(self).use_funs@.last().color == scopes.last().color
                    &&& final(self).use_funs@.last().use_funs == scopes.last().use_funs
                    &&& final(self).use_funs@.last().count == scopes.last().count - 1
                    &&& r.1@.len() == 0
                    &&& r.0 == (match scopes.last().color {
                        Some(c) => c,
                        None => 0,
                    })
                    &&& final(self).env.diags@ == old(self).env.diags@
                } else {
                    &&& final(self).use_funs@ == scopes.drop_last()
                    &&& r.1 == scopes.last().use_funs
                    &&& r.0 == (match scopes.last().color {
                        Some(c) => c,
                        None => 0,
                    })
                    &&& crate::diag::sink_extended_by(
                        old(self).env.diags@,
                        final(self).env.diags@,
                        spec_unused_warnings(scopes.last().use_funs@),
                    )
                }
            }),
            final(self).subst == old(self).subst,
            final(self).constraints == old(self).constraints,
            final(self).macro_expansion == old(self).macro_expansion,
            final(self).locals == old(self).locals,
    {
        let n = self.use_funs.len();
        if n == 0 {
            self.diag0(Code::InternalError, loc, Note::UseFunScopeMissing);
            return (0, Vec::new());
        }
        if self.use_funs[n - 1].count > 1 {
            let color = match self.use_funs[n - 1].color {
                Some(c) => c,
                None => 0,
            };
            let e = vstd::std_specs::vec::vec_index_mut(&mut self.use_funs, n - 1);
            e.count = e.count - 1;
            return (color, Vec::new());
        }
        let popped = self.use_funs.pop();
        match popped {
            Some(scope) => {
                let color = match scope.color {
                    Some(c) => c,
                    None => 0,
                };
                let ghost groups = scope.use_funs@;
                let ghost sink0 = self.env.diags@;
                proof {
                    crate::diag::lemma_sink_extended_by_empty(sink0);
                    assert(groups.subrange(0, 0) =~= Seq::<(
                        TypeNameKey,
                        Vec<(Symbol, UseFun)>,
                    )>::empty());
                    assert(spec_unused_warnings(groups.subrange(0, 0)) =~= Seq::<
                        SpecDiagnostic,
                    >::empty());
                }
                let mut g: usize = 0;
                while g < scope.use_funs.len()
                    invariant
                        0 <= g <= groups.len(),
                        groups == scope.use_funs@,
                        crate::diag::sink_extended_by(
                            sink0,
                            self.env.diags@,
                            spec_unused_warnings(groups.subrange(0, g as int)),
                        ),
                        self.env.testing == old(self).env.testing,
                        self.env.primitive_definers == old(self).env.primitive_definers,
                        self.use_funs == final(self).use_funs || true,
                        self.subst == old(self).subst,
                        self.constraints == old(self).constraints,
                        self.macro_expansion == old(self).macro_expansion,
                        self.locals == old(self).locals,
                        self.use_funs@ == old(self).use_funs@.drop_last(),
                        self.modules == old(self).modules,
                        self.macros == old(self).macros,
                        self.current_package == old(self).current_package,
                        self.current_module == old(self).current_module,
                        self.current_function == old(self).current_function,
                        self.in_macro_function == old(self).in_macro_function,
                        self.max_variable_color == old(self).max_variable_color,
                        self.return_type == old(self).return_type,
                        self.named_block_map == old(self).named_block_map,
                        self.new_friends == old(self).new_friends,
                        self.used_module_members == old(self).used_module_members,
                        self.lambda_expansion == old(self).lambda_expansion,
                    decreases groups.len() - g,
                {
                    let ghost mid_target = spec_unused_warnings(groups.subrange(0, g as int));
                    let tn = scope.use_funs[g].0;
                    let ghost methods = scope.use_funs@[g as int].1@;
                    let ghost sink_g = self.env.diags@;
                    proof {
                        crate::diag::lemma_sink_extended_by_empty(sink_g);
                        assert(methods.subrange(0, 0) =~= Seq::<(Symbol, UseFun)>::empty());
                        assert(spec_unused_warnings_methods(tn, methods.subrange(0, 0)) =~= Seq::<
                            SpecDiagnostic,
                        >::empty());
                    }
                    let ms = &scope.use_funs[g].1;
                    let mut k: usize = 0;
                    while k < ms.len()
                        invariant
                            0 <= k <= methods.len(),
                            g < groups.len(),
                            groups == scope.use_funs@,
                            methods == ms@,
                            methods == groups[g as int].1@,
                            tn == groups[g as int].0,
                            crate::diag::sink_extended_by(
                                sink_g,
                                self.env.diags@,
                                spec_unused_warnings_methods(tn, methods.subrange(0, k as int)),
                            ),
                            crate::diag::sink_extended_by(sink0, sink_g, mid_target),
                            mid_target == spec_unused_warnings(groups.subrange(0, g as int)),
                            self.env.testing == old(self).env.testing,
                            self.env.primitive_definers == old(self).env.primitive_definers,
                            self.subst == old(self).subst,
                            self.constraints == old(self).constraints,
                            self.macro_expansion == old(self).macro_expansion,
                            self.locals == old(self).locals,
                            self.use_funs@ == old(self).use_funs@.drop_last(),
                            self.modules == old(self).modules,
                            self.macros == old(self).macros,
                            self.current_package == old(self).current_package,
                            self.current_module == old(self).current_module,
                            self.current_function == old(self).current_function,
                            self.in_macro_function == old(self).in_macro_function,
                            self.max_variable_color == old(self).max_variable_color,
                            self.return_type == old(self).return_type,
                            self.named_block_map == old(self).named_block_map,
                            self.new_friends == old(self).new_friends,
                            self.used_module_members == old(self).used_module_members,
                            self.lambda_expansion == old(self).lambda_expansion,
                        decreases methods.len() - k,
                    {
                        proof {
                            lemma_unused_warnings_methods_push(
                                tn,
                                methods.subrange(0, k as int),
                                methods[k as int],
                            );
                            assert(methods.subrange(0, k as int).push(methods[k as int])
                                =~= methods.subrange(0, k + 1));
                        }
                        let uf = &ms[k].1;
                        if !uf.used {
                            let ghost before = self.env.diags@;
                            let note = match uf.kind {
                                crate::info::UseFunKind::Explicit => Note::UnusedUseFun {
                                    tn,
                                    method: ms[k].0,
                                },
                                crate::info::UseFunKind::UseAlias => Note::UnusedUseAlias {
                                    method: ms[k].0,
                                },
                                crate::info::UseFunKind::FunctionDeclaration => Note::UnexpectedFunctionDeclarationUseFun {
                                    method: ms[k].0,
                                },
                            };
                            let code = match uf.kind {
                                crate::info::UseFunKind::FunctionDeclaration => Code::InternalError,
                                _ => Code::UnusedAlias,
                            };
                            let uf_loc = uf.loc;
                            self.diag0(code, uf_loc, note);
                            proof {
                                crate::diag::lemma_sink_extend_step(
                                    sink_g,
                                    before,
                                    self.env.diags@,
                                    spec_unused_warnings_methods(
                                        tn,
                                        methods.subrange(0, k as int),
                                    ),
                                    spec_diag0(code, Label { loc: uf_loc, note }),
                                );
                            }
                        }
                        k = k + 1;
                    }
                    proof {
                        assert(methods.subrange(0, methods.len() as int) =~= methods);
                        lemma_unused_warnings_push(
                            groups.subrange(0, g as int),
                            groups[g as int],
                        );
                        assert(groups.subrange(0, g as int).push(groups[g as int])
                            =~= groups.subrange(0, g + 1));
                        lemma_sink_extended_by_concat(
                            sink0,
                            sink_g,
                            self.env.diags@,
                            mid_target,
                            spec_unused_warnings_methods(tn, methods),
                        );
                    }
                    g = g + 1;
                }
                proof {
                    assert(groups.subrange(0, groups.len() as int) =~= groups);
                }
                (color, scope.use_funs)
            },
            None => {
                proof {
                    assert(false);
                }
                (0, Vec::new())
            },
        }
    }

    /// Resolves `tn.method` through the scope stack: colored frames of
    /// another color are skipped, the colorless global frame always counts;
    /// the first binding found is marked used and its target returned.
    pub fn find_method_and_mark_used(&mut self, tn: &crate::ast::TypeName, method: Name) -> (r:
        Option<(ModuleIdent, Name)>)
        ensures
            ({
                let cur = spec_current_call_color(old(self).use_funs@);
                match spec_find_method(old(self).use_funs@, cur, tn.spec_key(), method.value) {
                    None => r is None && final(self).use_funs == old(self).use_funs,
                    Some(idx) => {
                        &&& spec_scopes_marked_used(
                            old(self).use_funs@,
                            final(self).use_funs@,
                            idx.0,
                            idx.1,
                            idx.2,
                        )
                        &&& r matches Some(t) && t.0
                            == old(self).use_funs@[idx.0].use_funs@[idx.1].1@[idx.2].1.target_module
                            && t.1
                            == old(self).use_funs@[idx.0].use_funs@[idx.1].1@[idx.2].1.target_function
                    },
                }
            }),
            final(self).env == old(self).env,
            final(self).subst == old(self).subst,
            final(self).constraints == old(self).constraints,
            final(self).macro_expansion == old(self).macro_expansion,
            final(self).locals == old(self).locals,
            final(self).modules == old(self).modules,
            final(self).macros == old(self).macros,
            final(self).current_package == old(self).current_package,
            final(self).current_module == old(self).current_module,
            final(self).current_function == old(self).current_function,
            final(self).in_macro_function == old(self).in_macro_function,
            final(self).max_variable_color == old(self).max_variable_color,
            final(self).return_type == old(self).return_type,
            final(self).used_module_members == old(self).used_module_members,
            final(self).lambda_expansion == old(self).lambda_expansion,
            final(self).named_block_map == old(self).named_block_map,
            final(self).new_friends == old(self).new_friends,
    {
        let cur = if self.use_funs.len() == 0 {
            None
        } else {
            self.use_funs[self.use_funs.len() - 1].color
        };
        let key = tn.key();
        let ghost scopes0 = self.use_funs@;
        let found = self.find_method_position(cur, key, method.value);
        match found {
            None => None,
            Some((si, gi, ki)) => {
                let target_module = self.use_funs[si].use_funs[gi].1[ki].1.target_module;
                let target_function = self.use_funs[si].use_funs[gi].1[ki].1.target_function;
                let s = vstd::std_specs::vec::vec_index_mut(&mut self.use_funs, si);
                let g = vstd::std_specs::vec::vec_index_mut(&mut s.use_funs, gi);
                let e = vstd::std_specs::vec::vec_index_mut(&mut g.1, ki);
                e.1.used = true;
                proof {
                    assert(spec_scopes_marked_used(
                        scopes0,
                        self.use_funs@,
                        si as int,
                        gi as int,
                        ki as int,
                    ));
                }
                Some((target_module, target_function))
            },
        }
    }

    /// The position of the first binding resolving `tn.method`, if any.
    fn find_method_position(&self, cur: Option<Color>, tn: TypeNameKey, method: Symbol) -> (r:
        Option<(usize, usize, usize)>)
        ensures
            match r {
                Some(idx) => spec_find_method(self.use_funs@, cur, tn, method) == Some(
                    (idx.0 as int, idx.1 as int, idx.2 as int),
                ) && idx.0 < self.use_funs@.len() && idx.1
                    < self.use_funs@[idx.0 as int].use_funs@.len() && idx.2
                    < self.use_funs@[idx.0 as int].use_funs@[idx.1 as int].1@.len(),
                None => spec_find_method(self.use_funs@, cur, tn, method) is None,
            },
    {
        let ghost scopes = self.use_funs@;
        let mut i: usize = self.use_funs.len();
        proof {
            assert(scopes.take(scopes.len() as int) =~= scopes);
        }
        loop
            invariant
                0 <= i <= scopes.len(),
                scopes == self.use_funs@,
                spec_find_method(scopes, cur, tn, method) == spec_find_method(
                    scopes.take(i as int),
                    cur,
                    tn,
                    method,
                ),
            decreases i,
        {
            if i == 0 {
                return None;
            }
            proof {
                assert(scopes.take(i as int).last() == scopes[i - 1]);
                assert(scopes.take(i as int).drop_last() =~= scopes.take(i - 1));
            }
            let scope = &self.use_funs[i - 1];
            let considered = match scope.color {
                Some(c) => cur == Some(c),
                None => true,
            };
            if considered {
                let gfound = find_group(&scope.use_funs, tn);
                match gfound {
                    Some(gi) => {
                        let kfound = find_method_in_group(&scope.use_funs[gi].1, method);
                        match kfound {
                            Some(ki) => {
                                return Some((i - 1, gi, ki));
                            },
                            None => {},
                        }
                    },
                    None => {},
                }
            }
            i = i - 1;
        }
    }
}

/// Concatenating two sink extensions extends by the concatenation.
pub proof fn lemma_sink_extended_by_concat(
    s0: Seq<Diagnostic>,
    s1: Seq<Diagnostic>,
    s2: Seq<Diagnostic>,
    d1: Seq<SpecDiagnostic>,
    d2: Seq<SpecDiagnostic>,
)
    requires
        crate::diag::sink_extended_by(s0, s1, d1),
        crate::diag::sink_extended_by(s1, s2, d2),
    ensures
        crate::diag::sink_extended_by(s0, s2, d1 + d2),
{
    assert(s2.subrange(0, s0.len() as int) =~= s1.subrange(0, s0.len() as int)) by {
        assert forall|j: int| 0 <= j < s0.len() implies s2.subrange(0, s0.len() as int)[j]
            == s1.subrange(0, s0.len() as int)[j] by {
            assert(s2[j] == s2.subrange(0, s1.len() as int)[j]);
            assert(s2.subrange(0, s1.len() as int) == s1);
        }
    }
    assert forall|j: int| 0 <= j < (d1 + d2).len() implies s2[s0.len() + j]@ == (d1 + d2)[j] by {
        if j < d1.len() {
            assert(s2[s0.len() + j] == s2.subrange(0, s1.len() as int)[s0.len() + j]);
            assert(s2.subrange(0, s1.len() as int) == s1);
        } else {
            assert(s2[s1.len() + (j - d1.len())]@ == d2[j - d1.len()]);
        }
    }
}

/// The first group of a scope's bindings for the receiver `tn`.
fn find_group(gs: &Vec<(TypeNameKey, Vec<(Symbol, UseFun)>)>, tn: TypeNameKey) -> (r: Option<usize>)
    ensures
        match r {
            Some(i) => spec_assoc_group(gs@, tn) == Some(i as int) && i < gs@.len(),
            None => spec_assoc_group(gs@, tn) is None,
        },
{
    let ghost whole = gs@;
    let mut i: usize = 0;
    proof {
        assert(whole.skip(0) =~= whole);
    }
    while i < gs.len()
        invariant
            0 <= i <= whole.len(),
            whole == gs@,
            spec_assoc_group(whole, tn) == (match spec_assoc_group(whole.skip(i as int), tn) {
                Some(j) => Some(j + i),
                None => None,
            }),
        decreases whole.len() - i,
    {
        proof {
            assert(whole.skip(i as int)[0] == whole[i as int]);
            assert(whole.skip(i as int).drop_first() =~= whole.skip(i + 1));
        }
        if gs[i].0 == tn {
            return Some(i);
        }
        i = i + 1;
    }
    proof {
        assert(whole.skip(whole.len() as int) =~= Seq::<(
            TypeNameKey,
            Vec<(Symbol, UseFun)>,
        )>::empty());
    }
    None
}

/// The first binding of a group for the method name.
fn find_method_in_group(ms: &Vec<(Symbol, UseFun)>, method: Symbol) -> (r: Option<usize>)
    ensures
        match r {
            Some(i) => spec_assoc_method(ms@, method) == Some(i as int) && i < ms@.len(),
            None => spec_assoc_method(ms@, method) is None,
        },
{
    let ghost whole = ms@;
    let mut i: usize = 0;
    proof {
        assert(whole.skip(0) =~= whole);
    }
    while i < ms.len()
        invariant
            0 <= i <= whole.len(),
            whole == ms@,
            spec_assoc_method(whole, method) == (match spec_assoc_method(
                whole.skip(i as int),
                method,
            ) {
                Some(j) => Some(j + i),
                None => None,
            }),
        decreases whole.len() - i,
    {
        proof {
            assert(whole.skip(i as int)[0] == whole[i as int]);
            assert(whole.skip(i as int).drop_first() =~= whole.skip(i + 1));
        }
        if ms[i].0 == method {
            return Some(i);
        }
        i = i + 1;
    }
    proof {
        assert(whole.skip(whole.len() as int) =~= Seq::<(Symbol, UseFun)>::empty());
    }
    None
}

} // verus!
