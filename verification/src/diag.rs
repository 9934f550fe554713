//! Structured diagnostics and the sink that collects them.
//!
//! The checker never renders text: a diagnostic is a code, a primary label
//! and secondary labels, each a position plus a structured note.  The driver
//! renders them; caller-supplied message text travels as an interned token.

use vstd::prelude::*;

use crate::ast::{Ability, Loc, ModuleIdent, MsgToken, Symbol, TypeNameKey};

verus! {

/// How bad a diagnostic is.
#[derive(Clone, Copy, PartialEq, Eq, Structural, Debug)]
pub enum Severity {
    /// Checking may still succeed.
    Warning,
    /// The program is rejected.
    Error,
    /// An internal invariant failed; checking recovered with the poison type.
    InternalError,
}

/// Which rule a diagnostic reports on.
#[derive(Clone, Copy, PartialEq, Eq, Structural, Debug)]
pub enum Code {
    UnusedAlias,
    CannotExpandMacro,
    Visibility,
    InvalidMethodCall,
    TooFewArguments,
    TooManyArguments,
    BuiltinOperation,
    ExpectedBaseType,
    ExpectedSingleType,
    UnboundField,
    TooFewTypeArguments,
    TooManyTypeArguments,
    AbilityConstraint,
    InternalError,
}

impl Code {
    /// The severity each code carries.
    pub open spec fn spec_severity(self) -> Severity {
        match self {
            Code::UnusedAlias => Severity::Warning,
            Code::InternalError => Severity::InternalError,
            _ => Severity::Error,
        }
    }

    /// Executable form of [`Self::spec_severity`].
    pub fn severity(self) -> (r: Severity)
        ensures
            r == self.spec_severity(),
    {
        match self {
            Code::UnusedAlias => Severity::Warning,
            Code::InternalError => Severity::InternalError,
            _ => Severity::Error,
        }
    }
}

/// The category a builtin-type constraint draws from.
#[derive(Clone, Copy, PartialEq, Eq, Structural, Debug)]
pub enum BuiltinCategory {
    /// The numeric builtins.
    Numeric,
    /// The builtins accepting bitwise operations: the numerics.
    Bits,
    /// The builtins accepting ordering comparisons: numerics, `bool`,
    /// `address`.
    Ordered,
}

/// The structured content of one diagnostic label.  Positions live on the
/// label itself; notes carry only what rendering needs beyond the position.
#[derive(Clone, Copy, PartialEq, Eq, Structural, Debug)]
pub enum Note {
    /// A caller-supplied message token.
    Text(MsgToken),
    /// A method binding was never used.
    UnusedUseFun { tn: TypeNameKey, method: Symbol },
    /// A method alias was never used.
    UnusedUseAlias { method: Symbol },
    /// A macro would expand itself.
    RecursiveMacroExpansion { address: u64, module: Symbol, function: Symbol },
    /// The same macro was previously expanded here.
    PreviousMacroExpansion { address: u64, module: Symbol, function: Symbol },
    /// An enclosing macro expansion on the cycle path.
    FromMacroExpansion,
    /// A local was declared twice; naming should have prevented it.
    DuplicateLocal { name: Symbol },
    /// The earlier declaration of a duplicated local.
    PreviouslyDeclaredHere,
    /// A local was used but never declared; naming should have prevented it.
    UnboundLocal { name: Symbol },
    /// Leaving a macro expansion found no matching call frame.
    MacroPopMismatch,
    /// Leaving a macro argument found no argument frame.
    MacroArgumentPopMismatch,
    /// A use-fun scope or its color was missing.
    UseFunScopeMissing,
    /// A fresh scope color was not above the ones already used.
    VariableColorRegression,
    /// A constant of another module was accessed.
    ConstantVisibility { address: u64, module: Symbol, constant: Symbol },
    /// Constants are internal to their module.
    ConstantsAreInternal,
    /// No method of this name is known on the receiver type.
    NoMethod { method: Symbol },
    /// A function with the method's name exists but its first argument does
    /// not fit the receiver.
    MethodFirstArgumentMismatch { address: u64, module: Symbol, method: Symbol },
    /// A function with the method's name exists but takes no arguments.
    MethodTakesNoArguments { address: u64, module: Symbol, method: Symbol },
    /// No local method binding was found, and the defining module has no
    /// function of this name either.
    NoUseFunWithDefiner { address: u64, module: Symbol, method: Symbol },
    /// No local method binding was found and no defining module is known.
    NoUseFunAlias { method: Symbol },
    /// An internal function was called from outside its module.
    InvalidCallInternal { address: u64, module: Symbol, function: Symbol },
    /// Only public, friend and package functions may be called from outside.
    InternalVisibilityNote,
    /// A package-visible function was called from another package.
    InvalidCallPackage { address: u64, module: Symbol, function: Symbol },
    /// A package-visible function is callable only from its own address and
    /// package.
    PackageVisibilityNote,
    /// A friend-visible function was called from a module that is not a
    /// friend.
    InvalidCallFriend { address: u64, module: Symbol, function: Symbol },
    /// A friend-visible function is callable only from declared friends.
    FriendVisibilityNote,
    /// Entry functions may be called from testing contexts.
    EntryCallableInTests,
    /// A call passed the wrong number of arguments; the token carries the
    /// caller's description of the call.
    CallArityMismatch { msg: MsgToken, expected: usize, given: usize },
    /// Where the arguments were found.
    ArityFoundHere { given: usize },
    /// An instantiation passed the wrong number of type arguments.
    TypeArgArityMismatch {
        address: u64,
        module: Symbol,
        function: Symbol,
        expected: usize,
        given: usize,
    },
    /// An ability constraint is not satisfied.
    AbilityNotSatisfied { ability: Ability },
    /// The type at this position lacks the ability.
    MissingAbility { ability: Ability },
    /// Adding the ability at this declaration would satisfy the constraint.
    AbilityWouldBeAdded { ability: Ability },
    /// The container could carry the constrained ability, but this type
    /// argument lacks what that requires.
    TypeArgumentMissingAbility { constraint: Ability, requirement: Ability },
    /// Where the constraint was declared.
    AbilityConstraintDeclaredHere { ability: Ability },
    /// The operand's type is outside the category the operation accepts.
    BuiltinExpected { category: BuiltinCategory, op: MsgToken },
    /// The operand found at this position.
    BuiltinFoundHere,
    /// A single non-reference type was expected.
    ExpectedSingleNonReferenceType,
    /// A single type was expected, not an expression list.
    ExpectedSingleTypeFound,
    /// The struct has no field of this name.
    UnboundFieldNote { field: Symbol },
    /// The struct was declared native here.
    NativeStructHere,
    /// A function-declaration method binding survived to scope exit; an
    /// earlier pass should have filtered it.
    UnexpectedFunctionDeclarationUseFun { method: Symbol },
    /// A struct the table should hold was missing; naming should have
    /// caught it.
    UnboundStruct { address: u64, module: Symbol, name: Symbol },
    /// A function the table should hold was missing; naming should have
    /// caught it.
    UnboundFunction { address: u64, module: Symbol, name: Symbol },
    /// A constant the table should hold was missing; naming should have
    /// caught it.
    UnboundConstant { address: u64, module: Symbol, name: Symbol },
}

/// One located note.
#[derive(Clone, Copy, PartialEq, Eq, Structural, Debug)]
pub struct Label {
    pub loc: Loc,
    pub note: Note,
}

/// One structured diagnostic record.
#[derive(Debug)]
pub struct Diagnostic {
    pub code: Code,
    pub primary: Label,
    pub secondary: Vec<Label>,
}

/// The mathematical model of a diagnostic.
pub struct SpecDiagnostic {
    pub code: Code,
    pub primary: Label,
    pub secondary: Seq<Label>,
}

impl View for Diagnostic {
    type V = SpecDiagnostic;

    open spec fn view(&self) -> SpecDiagnostic {
        SpecDiagnostic { code: self.code, primary: self.primary, secondary: self.secondary@ }
    }
}

/// A diagnostic with no secondary labels.
pub open spec fn spec_diag0(code: Code, primary: Label) -> SpecDiagnostic {
    SpecDiagnostic { code, primary, secondary: Seq::<Label>::empty() }
}

/// A diagnostic with one secondary label.
pub open spec fn spec_diag1(code: Code, primary: Label, s1: Label) -> SpecDiagnostic {
    SpecDiagnostic { code, primary, secondary: seq![s1] }
}

/// A diagnostic with two secondary labels.
pub open spec fn spec_diag2(code: Code, primary: Label, s1: Label, s2: Label) -> SpecDiagnostic {
    SpecDiagnostic { code, primary, secondary: seq![s1, s2] }
}

/// The sink grew by exactly one diagnostic, the given one.
pub open spec fn sink_extended(
    old_sink: Seq<Diagnostic>,
    new_sink: Seq<Diagnostic>,
    sd: SpecDiagnostic,
) -> bool {
    &&& new_sink.len() == old_sink.len() + 1
    &&& new_sink.subrange(0, old_sink.len() as int) == old_sink
    &&& new_sink.last()@ == sd
}

/// The sink grew by exactly the given diagnostics, in order.
pub open spec fn sink_extended_by(
    old_sink: Seq<Diagnostic>,
    new_sink: Seq<Diagnostic>,
    sds: Seq<SpecDiagnostic>,
) -> bool {
    &&& new_sink.len() == old_sink.len() + sds.len()
    &&& new_sink.subrange(0, old_sink.len() as int) == old_sink
    &&& forall|j: int|
        0 <= j < sds.len() ==> new_sink[old_sink.len() + j]@ == sds[j]
}

/// Whether a diagnostic is exactly the given code, primary label and
/// secondary labels.
pub open spec fn diag_is(d: Diagnostic, code: Code, primary: Label, secondary: Seq<Label>) -> bool {
    d.code == code && d.primary == primary && d.secondary@ == secondary
}

/// The world around the checker, as far as the checker reads it: the
/// diagnostics sink, the testing flag, and which module defines method
/// syntax on each primitive type.
#[derive(Debug)]
pub struct CompilationEnv {
    pub diags: Vec<Diagnostic>,
    pub testing: bool,
    pub primitive_definers: Vec<(crate::ast::BuiltinTypeName_, ModuleIdent)>,
}

/// The first module registered as defining methods on the builtin `b`.
pub open spec fn spec_primitive_definer(
    ds: Seq<(crate::ast::BuiltinTypeName_, ModuleIdent)>,
    b: crate::ast::BuiltinTypeName_,
) -> Option<ModuleIdent>
    decreases ds,
{
    if ds.len() == 0 {
        None
    } else if ds[0].0 == b {
        Some(ds[0].1)
    } else {
        spec_primitive_definer(ds.drop_first(), b)
    }
}

impl CompilationEnv {
    /// A sink with no diagnostics yet.
    pub fn new(testing: bool, primitive_definers: Vec<(crate::ast::BuiltinTypeName_, ModuleIdent)>)
        -> (r: CompilationEnv)
        ensures
            r.diags@ =~= Seq::<Diagnostic>::empty(),
            r.testing == testing,
            r.primitive_definers == primitive_definers,
    {
        CompilationEnv { diags: Vec::new(), testing, primitive_definers }
    }

    /// Records one diagnostic.
    pub fn add_diag(&mut self, d: Diagnostic)
        ensures
            final(self).diags@ == old(self).diags@.push(d),
            final(self).testing == old(self).testing,
            final(self).primitive_definers == old(self).primitive_definers,
    {
        self.diags.push(d);
    }

    /// The module defining methods on the builtin `b`, if any.
    pub fn primitive_definer(&self, b: crate::ast::BuiltinTypeName_) -> (r: Option<ModuleIdent>)
        ensures
            r == spec_primitive_definer(self.primitive_definers@, b),
    {
        let ghost whole = self.primitive_definers@;
        let mut i: usize = 0;
        proof {
            assert(whole.skip(0) =~= whole);
        }
        while i < self.primitive_definers.len()
            invariant
                0 <= i <= whole.len(),
                whole == self.primitive_definers@,
                spec_primitive_definer(whole, b) == spec_primitive_definer(whole.skip(i as int), b),
            decreases whole.len() - i,
        {
            proof {
                assert(whole.skip(i as int)[0] == whole[i as int]);
                assert(whole.skip(i as int).drop_first() =~= whole.skip(i + 1));
            }
            if self.primitive_definers[i].0 == b {
                return Some(self.primitive_definers[i].1);
            }
            i = i + 1;
        }
        proof {
            assert(whole.skip(whole.len() as int) =~= Seq::<(
                crate::ast::BuiltinTypeName_,
                ModuleIdent,
            )>::empty());
        }
        None
    }
}


/// Extending a sink one diagnostic at a time extends it by the list.
pub proof fn lemma_sink_extend_step(
    old_sink: Seq<Diagnostic>,
    mid_sink: Seq<Diagnostic>,
    new_sink: Seq<Diagnostic>,
    sds: Seq<SpecDiagnostic>,
    sd: SpecDiagnostic,
)
    requires
        sink_extended_by(old_sink, mid_sink, sds),
        sink_extended(mid_sink, new_sink, sd),
    ensures
        sink_extended_by(old_sink, new_sink, sds.push(sd)),
{
    assert(new_sink.subrange(0, old_sink.len() as int) =~= mid_sink.subrange(
        0,
        old_sink.len() as int,
    ));
    assert forall|j: int| 0 <= j < sds.push(sd).len() implies new_sink[old_sink.len() + j]@
        == sds.push(sd)[j] by {
        if j < sds.len() {
            assert(new_sink[old_sink.len() + j] == new_sink.subrange(
                0,
                mid_sink.len() as int,
            )[old_sink.len() + j]);
            assert(new_sink.subrange(0, mid_sink.len() as int) == mid_sink);
        } else {
            assert(new_sink[old_sink.len() + j] == new_sink.last());
        }
    }
}

/// A sink extended by nothing is unchanged, and the converse.
pub proof fn lemma_sink_extended_by_empty(old_sink: Seq<Diagnostic>)
    ensures
        sink_extended_by(old_sink, old_sink, Seq::<SpecDiagnostic>::empty()),
{
    assert(old_sink.subrange(0, old_sink.len() as int) =~= old_sink);
}


/// The models of the diagnostics appended between two sink states.
pub open spec fn sink_delta(a: Seq<Diagnostic>, b: Seq<Diagnostic>) -> Seq<SpecDiagnostic> {
    Seq::new((b.len() - a.len()) as nat, |k: int| b[a.len() + k]@)
}


} // verus!
