//! The read-only program-information table the checker consults: per module,
//! its structs with abilities and fields, its functions with signatures and
//! visibility, its constants, and its publicly exported method bindings.

use vstd::prelude::*;

use crate::ast::{
    AbilitySet, Loc, ModuleIdent, ModuleIdent_, Mutability, Name, StructTypeParameter, Symbol,
    TParam, Type, TypeNameKey, Var,
};

verus! {

/// Who may call a function.
#[derive(Clone, Copy, Debug)]
pub enum Visibility {
    /// Only the defining module.
    Internal,
    /// Everybody; the position of the `public` modifier.
    Public(Loc),
    /// Declared friends; the position of the modifier.
    Friend(Loc),
    /// Modules of the same address and package; the position of the
    /// modifier.
    Package(Loc),
}

/// A constant's declaration, as far as checking reads it.
#[derive(Debug)]
pub struct ConstantInfo {
    pub defined_loc: Loc,
    pub signature: Type,
}

/// A function's declared signature.
#[derive(Debug)]
pub struct FunctionSignature {
    pub type_parameters: Vec<TParam>,
    pub parameters: Vec<(Mutability, Var, Type)>,
    pub return_type: Type,
}

/// A function's declaration, as far as checking reads it.
#[derive(Debug)]
pub struct FunctionInfo {
    pub defined_loc: Loc,
    pub visibility: Visibility,
    /// The position of the `entry` modifier, when present.
    pub entry: Option<Loc>,
    /// The position of the `macro` modifier, when present.
    pub macro_: Option<Loc>,
    pub signature: FunctionSignature,
    /// Whether the function carries a test or test-only attribute.
    pub test_attribute: bool,
}

/// A struct's fields: native, or declared with a name, an index and a type
/// each.
#[derive(Debug)]
pub enum StructFields {
    Native(Loc),
    Defined(Vec<(Name, usize, Type)>),
}

/// A struct's declaration, as far as checking reads it.
#[derive(Debug)]
pub struct StructDefinition {
    pub loc: Loc,
    pub abilities: AbilitySet,
    pub type_parameters: Vec<StructTypeParameter>,
    pub fields: StructFields,
}

/// How a method binding came to be.
#[derive(Clone, Copy, PartialEq, Eq, Structural, Debug)]
pub enum UseFunKind {
    Explicit,
    UseAlias,
    FunctionDeclaration,
}

/// One method binding: `receiver.method(...)` resolves to the target
/// function.
#[derive(Clone, Copy, Debug)]
pub struct UseFun {
    pub loc: Loc,
    pub kind: UseFunKind,
    /// Present when the binding is exported publicly.
    pub is_public: Option<Loc>,
    pub target_module: ModuleIdent,
    pub target_function: Name,
    /// Set once the binding resolves a call; unused bindings warn.
    pub used: bool,
}

/// The method bindings of one scope: per receiver type, per method name.
pub type ResolvedUseFuns = Vec<(TypeNameKey, Vec<(Symbol, UseFun)>)>;

/// One module's declarations.
#[derive(Debug)]
pub struct ModuleInfo {
    pub package: Option<Symbol>,
    /// Whether the module carries a test or test-only attribute.
    pub test_attribute: bool,
    pub friends: Vec<ModuleIdent_>,
    pub structs: Vec<(Symbol, StructDefinition)>,
    pub functions: Vec<(Symbol, FunctionInfo)>,
    pub constants: Vec<(Symbol, ConstantInfo)>,
    /// The module's publicly exported method bindings.
    pub use_funs: ResolvedUseFuns,
}

/// The whole program's modules.
#[derive(Debug)]
pub struct ProgramInfo {
    pub modules: Vec<(ModuleIdent_, ModuleInfo)>,
}

/// The first entry of an association list with the given key, as an index.
pub open spec fn spec_assoc_module(ms: Seq<(ModuleIdent_, ModuleInfo)>, k: ModuleIdent_) -> Option<
    int,
>
    decreases ms,
{
    if ms.len() == 0 {
        None
    } else if ms[0].0 == k {
        Some(0)
    } else {
        match spec_assoc_module(ms.drop_first(), k) {
            Some(i) => Some(i + 1),
            None => None,
        }
    }
}

/// The first index holding the symbol `k` in a symbol-keyed list of structs.
pub open spec fn spec_assoc_struct(ss: Seq<(Symbol, StructDefinition)>, k: Symbol) -> Option<int>
    decreases ss,
{
    if ss.len() == 0 {
        None
    } else if ss[0].0 == k {
        Some(0)
    } else {
        match spec_assoc_struct(ss.drop_first(), k) {
            Some(i) => Some(i + 1),
            None => None,
        }
    }
}

/// The first index holding the symbol `k` in a symbol-keyed list of
/// functions.
pub open spec fn spec_assoc_function(fs: Seq<(Symbol, FunctionInfo)>, k: Symbol) -> Option<int>
    decreases fs,
{
    if fs.len() == 0 {
        None
    } else if fs[0].0 == k {
        Some(0)
    } else {
        match spec_assoc_function(fs.drop_first(), k) {
            Some(i) => Some(i + 1),
            None => None,
        }
    }
}

/// The first index holding the symbol `k` in a symbol-keyed list of
/// constants.
pub open spec fn spec_assoc_constant(cs: Seq<(Symbol, ConstantInfo)>, k: Symbol) -> Option<int>
    decreases cs,
{
    if cs.len() == 0 {
        None
    } else if cs[0].0 == k {
        Some(0)
    } else {
        match spec_assoc_constant(cs.drop_first(), k) {
            Some(i) => Some(i + 1),
            None => None,
        }
    }
}

/// Whether a friends list names the module `k`.
pub open spec fn spec_has_friend(fs: Seq<ModuleIdent_>, k: ModuleIdent_) -> bool
    decreases fs,
{
    if fs.len() == 0 {
        false
    } else {
        fs[0] == k || spec_has_friend(fs.drop_first(), k)
    }
}

impl ProgramInfo {
    /// The information of the module `m`, when present.
    pub fn module_info(&self, m: &ModuleIdent_) -> (r: Option<&ModuleInfo>)
        ensures
            match r {
                Some(info) => spec_assoc_module(self.modules@, *m) matches Some(i)
                    && *info == self.modules@[i].1,
                None => spec_assoc_module(self.modules@, *m) is None,
            },
    {
        let ghost whole = self.modules@;
        let mut i: usize = 0;
        proof {
            assert(whole.skip(0) =~= whole);
        }
        while i < self.modules.len()
            invariant
                0 <= i <= whole.len(),
                whole == self.modules@,
                spec_assoc_module(whole, *m) == (match spec_assoc_module(
                    whole.skip(i as int),
                    *m,
                ) {
                    Some(j) => Some(j + i),
                    None => None,
                }),
            decreases whole.len() - i,
        {
            proof {
                assert(whole.skip(i as int)[0] == whole[i as int]);
                assert(whole.skip(i as int).drop_first() =~= whole.skip(i + 1));
            }
            if self.modules[i].0 == *m {
                return Some(&self.modules[i].1);
            }
            i = i + 1;
        }
        proof {
            assert(whole.skip(whole.len() as int) =~= Seq::<(ModuleIdent_, ModuleInfo)>::empty());
        }
        None
    }
}

impl ModuleInfo {
    /// The declaration of the struct named `n`, when present.
    pub fn struct_definition(&self, n: Symbol) -> (r: Option<&StructDefinition>)
        ensures
            match r {
                Some(d) => spec_assoc_struct(self.structs@, n) matches Some(i) && *d
                    == self.structs@[i].1,
                None => spec_assoc_struct(self.structs@, n) is None,
            },
    {
        let ghost whole = self.structs@;
        let mut i: usize = 0;
        proof {
            assert(whole.skip(0) =~= whole);
        }
        while i < self.structs.len()
            invariant
                0 <= i <= whole.len(),
                whole == self.structs@,
                spec_assoc_struct(whole, n) == (match spec_assoc_struct(whole.skip(i as int), n) {
                    Some(j) => Some(j + i),
                    None => None,
                }),
            decreases whole.len() - i,
        {
            proof {
                assert(whole.skip(i as int)[0] == whole[i as int]);
                assert(whole.skip(i as int).drop_first() =~= whole.skip(i + 1));
            }
            if self.structs[i].0 == n {
                return Some(&self.structs[i].1);
            }
            i = i + 1;
        }
        proof {
            assert(whole.skip(whole.len() as int) =~= Seq::<(Symbol, StructDefinition)>::empty());
        }
        None
    }

    /// The declaration of the function named `n`, when present.
    pub fn function_info(&self, n: Symbol) -> (r: Option<&FunctionInfo>)
        ensures
            match r {
                Some(d) => spec_assoc_function(self.functions@, n) matches Some(i) && *d
                    == self.functions@[i].1,
                None => spec_assoc_function(self.functions@, n) is None,
            },
    {
        let ghost whole = self.functions@;
        let mut i: usize = 0;
        proof {
            assert(whole.skip(0) =~= whole);
        }
        while i < self.functions.len()
            invariant
                0 <= i <= whole.len(),
                whole == self.functions@,
                spec_assoc_function(whole, n) == (match spec_assoc_function(
                    whole.skip(i as int),
                    n,
                ) {
                    Some(j) => Some(j + i),
                    None => None,
                }),
            decreases whole.len() - i,
        {
            proof {
                assert(whole.skip(i as int)[0] == whole[i as int]);
                assert(whole.skip(i as int).drop_first() =~= whole.skip(i + 1));
            }
            if self.functions[i].0 == n {
                return Some(&self.functions[i].1);
            }
            i = i + 1;
        }
        proof {
            assert(whole.skip(whole.len() as int) =~= Seq::<(Symbol, FunctionInfo)>::empty());
        }
        None
    }

    /// The declaration of the constant named `n`, when present.
    pub fn constant_info(&self, n: Symbol) -> (r: Option<&ConstantInfo>)
        ensures
            match r {
                Some(d) => spec_assoc_constant(self.constants@, n) matches Some(i) && *d
                    == self.constants@[i].1,
                None => spec_assoc_constant(self.constants@, n) is None,
            },
    {
        let ghost whole = self.constants@;
        let mut i: usize = 0;
        proof {
            assert(whole.skip(0) =~= whole);
        }
        while i < self.constants.len()
            invariant
                0 <= i <= whole.len(),
                whole == self.constants@,
                spec_assoc_constant(whole, n) == (match spec_assoc_constant(
                    whole.skip(i as int),
                    n,
                ) {
                    Some(j) => Some(j + i),
                    None => None,
                }),
            decreases whole.len() - i,
        {
            proof {
                assert(whole.skip(i as int)[0] == whole[i as int]);
                assert(whole.skip(i as int).drop_first() =~= whole.skip(i + 1));
            }
            if self.constants[i].0 == n {
                return Some(&self.constants[i].1);
            }
            i = i + 1;
        }
        proof {
            assert(whole.skip(whole.len() as int) =~= Seq::<(Symbol, ConstantInfo)>::empty());
        }
        None
    }

    /// Whether the module lists `k` among its friends.
    pub fn has_friend(&self, k: &ModuleIdent_) -> (r: bool)
        ensures
            r == spec_has_friend(self.friends@, *k),
    {
        let ghost whole = self.friends@;
        let mut i: usize = 0;
        proof {
            assert(whole.skip(0) =~= whole);
        }
        while i < self.friends.len()
            invariant
                0 <= i <= whole.len(),
                whole == self.friends@,
                spec_has_friend(whole, *k) == spec_has_friend(whole.skip(i as int), *k),
            decreases whole.len() - i,
        {
            proof {
                assert(whole.skip(i as int)[0] == whole[i as int]);
                assert(whole.skip(i as int).drop_first() =~= whole.skip(i + 1));
            }
            if self.friends[i] == *k {
                return true;
            }
            i = i + 1;
        }
        proof {
            assert(whole.skip(whole.len() as int) =~= Seq::<ModuleIdent_>::empty());
        }
        false
    }
}

} // verus!
