//! The data the checker works on: source positions, names, abilities, and the
//! type language itself.
//!
//! Every value here is plain data.  Where the surrounding compiler attaches a
//! source span to a value, the span is a [`Loc`] field beside the value, and
//! equality of the value deliberately ignores it; such pairs are kept as a
//! `loc` field next to a `value` field, and code compares the `value` parts.
//!
//! Executable type terms ([`Type`]) carry their arguments in a `Vec`; their
//! mathematical model ([`SpecType`]) carries them in a `Seq` and is what every
//! contract in the crate speaks about, through the `@` view.

use vstd::prelude::*;

verus! {

/// A source position: a file identifier and a byte range within it.
#[derive(Clone, Copy, PartialEq, Eq, Structural, Debug)]
pub struct Loc {
    pub file: u32,
    pub start: u32,
    pub end: u32,
}

/// An interned identifier.  The driver owns the intern table; the checker only
/// compares and copies these.
pub type Symbol = u64;

/// An interned message token.  Diagnostic message text is rendered outside the
/// checker; the checker carries the token through to the sink.  Tokens at
/// [`RESERVED_MSG_BASE`] and above stand for the checker's own fixed
/// messages; the driver's interned tokens stay below.
pub type MsgToken = u64;

/// The first reserved message token.
pub const RESERVED_MSG_BASE: MsgToken = 0xF0000000;

/// "Invalid reference type": the inner type of a reference must be a single
/// non-reference type.
pub const MSG_INVALID_REFERENCE_TYPE: MsgToken = 0xF0000001;

/// "Invalid type argument": a type argument must be a single non-reference
/// type.
pub const MSG_INVALID_TYPE_ARGUMENT: MsgToken = 0xF0000002;

/// "Invalid expression list type argument": an element of an expression-list
/// pseudo-type must be a single type.
pub const MSG_INVALID_EXPR_LIST_TYPE_ARGUMENT: MsgToken = 0xF0000003;

/// A symbol together with the position it was written at.
#[derive(Clone, Copy, Debug)]
pub struct Name {
    pub loc: Loc,
    pub value: Symbol,
}

/// A type variable, an index into the substitution's variable arena.
pub type TVar = usize;

/// A reference-mutability variable, an index into the substitution's
/// reference-variable arena.
pub type RefVar = usize;

/// A scope generation used for macro hygiene.
pub type Color = u16;

/// The value part of a module identity: an address and a module name.
#[derive(Clone, Copy, PartialEq, Eq, Structural, Debug)]
pub struct ModuleIdent_ {
    pub address: u64,
    pub module: Symbol,
}

/// A module identity with the position it was written at.
#[derive(Clone, Copy, Debug)]
pub struct ModuleIdent {
    pub loc: Loc,
    pub value: ModuleIdent_,
}

/// The value part of a local variable: its name, a disambiguating id, and the
/// hygiene color of the scope that introduced it.
#[derive(Clone, Copy, PartialEq, Eq, Structural, Debug)]
pub struct Var_ {
    pub name: Symbol,
    pub id: u16,
    pub color: Color,
}

/// A local variable with the position it was written at.
#[derive(Clone, Copy, Debug)]
pub struct Var {
    pub loc: Loc,
    pub value: Var_,
}

/// The label of a named block, carried as the variable that names it.
#[derive(Clone, Copy, Debug)]
pub struct BlockLabel {
    pub label: Var,
}

/// Whether a local was declared mutable.
#[derive(Clone, Copy, Debug)]
pub enum Mutability {
    /// Declared `mut` at the given position.
    Mut(Loc),
    /// Declared without `mut`.
    Imm,
    /// Recovery value for a local that was never declared.
    Absent,
}

/// One capability a type may carry.
#[derive(Clone, Copy, PartialEq, Eq, Structural, Debug)]
pub enum Ability {
    Copyable,
    Droppable,
    Storable,
    Keyable,
}

impl Ability {
    /// The ability each type argument must carry for a container to keep this
    /// ability: `key` rests on `store`, the rest on themselves.
    pub open spec fn spec_requires_ability(self) -> Ability {
        match self {
            Ability::Copyable => Ability::Copyable,
            Ability::Droppable => Ability::Droppable,
            Ability::Storable => Ability::Storable,
            Ability::Keyable => Ability::Storable,
        }
    }

    /// Executable form of [`Self::spec_requires_ability`].
    pub fn requires_ability(self) -> (r: Ability)
        ensures
            r == self.spec_requires_ability(),
    {
        match self {
            Ability::Copyable => Ability::Copyable,
            Ability::Droppable => Ability::Droppable,
            Ability::Storable => Ability::Storable,
            Ability::Keyable => Ability::Storable,
        }
    }
}

/// A set of abilities.  Each present ability remembers the position that put
/// it into the set, for secondary diagnostic labels.
#[derive(Clone, Copy, Debug)]
pub struct AbilitySet {
    pub copy_loc: Option<Loc>,
    pub drop_loc: Option<Loc>,
    pub store_loc: Option<Loc>,
    pub key_loc: Option<Loc>,
}

impl AbilitySet {
    pub open spec fn spec_has(self, a: Ability) -> bool {
        match a {
            Ability::Copyable => self.copy_loc is Some,
            Ability::Droppable => self.drop_loc is Some,
            Ability::Storable => self.store_loc is Some,
            Ability::Keyable => self.key_loc is Some,
        }
    }

    /// Executable membership test.
    pub fn has_ability(&self, a: Ability) -> (r: bool)
        ensures
            r == self.spec_has(a),
    {
        match a {
            Ability::Copyable => self.copy_loc.is_some(),
            Ability::Droppable => self.drop_loc.is_some(),
            Ability::Storable => self.store_loc.is_some(),
            Ability::Keyable => self.key_loc.is_some(),
        }
    }

    pub open spec fn spec_empty() -> AbilitySet {
        AbilitySet { copy_loc: None, drop_loc: None, store_loc: None, key_loc: None }
    }

    /// The empty ability set.
    pub fn empty() -> (r: AbilitySet)
        ensures
            r == Self::spec_empty(),
    {
        AbilitySet { copy_loc: None, drop_loc: None, store_loc: None, key_loc: None }
    }

    pub open spec fn spec_all(loc: Loc) -> AbilitySet {
        AbilitySet {
            copy_loc: Some(loc),
            drop_loc: Some(loc),
            store_loc: Some(loc),
            key_loc: Some(loc),
        }
    }

    /// Every ability, attributed to `loc`; the set of the unconstrained and of
    /// the poison type.
    pub fn all(loc: Loc) -> (r: AbilitySet)
        ensures
            r == Self::spec_all(loc),
    {
        AbilitySet {
            copy_loc: Some(loc),
            drop_loc: Some(loc),
            store_loc: Some(loc),
            key_loc: Some(loc),
        }
    }

    pub open spec fn spec_collection(loc: Loc) -> AbilitySet {
        AbilitySet { copy_loc: Some(loc), drop_loc: Some(loc), store_loc: Some(loc), key_loc: None }
    }

    /// The base set of the unit and expression-list pseudo-types and of the
    /// vector builtin: `copy`, `drop`, `store`.
    pub fn collection(loc: Loc) -> (r: AbilitySet)
        ensures
            r == Self::spec_collection(loc),
    {
        AbilitySet { copy_loc: Some(loc), drop_loc: Some(loc), store_loc: Some(loc), key_loc: None }
    }

    pub open spec fn spec_references(loc: Loc) -> AbilitySet {
        AbilitySet { copy_loc: Some(loc), drop_loc: Some(loc), store_loc: None, key_loc: None }
    }

    /// The fixed set of reference types: `copy`, `drop`.
    pub fn references(loc: Loc) -> (r: AbilitySet)
        ensures
            r == Self::spec_references(loc),
    {
        AbilitySet { copy_loc: Some(loc), drop_loc: Some(loc), store_loc: None, key_loc: None }
    }

    pub open spec fn spec_functions() -> AbilitySet {
        Self::spec_empty()
    }

    /// The fixed set of function types: no abilities.
    pub fn functions() -> (r: AbilitySet)
        ensures
            r == Self::spec_functions(),
    {
        AbilitySet { copy_loc: None, drop_loc: None, store_loc: None, key_loc: None }
    }

    pub open spec fn spec_signer(loc: Loc) -> AbilitySet {
        AbilitySet { copy_loc: None, drop_loc: Some(loc), store_loc: None, key_loc: None }
    }

    /// The declared set of the signer builtin: `drop` only.
    pub fn signer(loc: Loc) -> (r: AbilitySet)
        ensures
            r == Self::spec_signer(loc),
    {
        AbilitySet { copy_loc: None, drop_loc: Some(loc), store_loc: None, key_loc: None }
    }

    pub open spec fn spec_singleton(loc: Loc, a: Ability) -> AbilitySet {
        AbilitySet {
            copy_loc: if a is Copyable {
                Some(loc)
            } else {
                None
            },
            drop_loc: if a is Droppable {
                Some(loc)
            } else {
                None
            },
            store_loc: if a is Storable {
                Some(loc)
            } else {
                None
            },
            key_loc: if a is Keyable {
                Some(loc)
            } else {
                None
            },
        }
    }

    /// The set holding only `a`, attributed to `loc`.
    pub fn singleton(loc: Loc, a: Ability) -> (r: AbilitySet)
        ensures
            r == Self::spec_singleton(loc, a),
    {
        AbilitySet {
            copy_loc: if matches!(a, Ability::Copyable) {
                Some(loc)
            } else {
                None
            },
            drop_loc: if matches!(a, Ability::Droppable) {
                Some(loc)
            } else {
                None
            },
            store_loc: if matches!(a, Ability::Storable) {
                Some(loc)
            } else {
                None
            },
            key_loc: if matches!(a, Ability::Keyable) {
                Some(loc)
            } else {
                None
            },
        }
    }
}

/// The value part of a builtin type name.
#[derive(Clone, Copy, PartialEq, Eq, Structural, Debug)]
pub enum BuiltinTypeName_ {
    Address,
    Signer,
    U8,
    U16,
    U32,
    U64,
    U128,
    U256,
    Bool,
    Vector,
}

impl BuiltinTypeName_ {
    pub open spec fn spec_is_numeric(self) -> bool {
        match self {
            BuiltinTypeName_::U8
            | BuiltinTypeName_::U16
            | BuiltinTypeName_::U32
            | BuiltinTypeName_::U64
            | BuiltinTypeName_::U128
            | BuiltinTypeName_::U256 => true,
            _ => false,
        }
    }

    /// True of the fixed-width integer builtins.
    pub fn is_numeric(self) -> (r: bool)
        ensures
            r == self.spec_is_numeric(),
    {
        match self {
            BuiltinTypeName_::U8
            | BuiltinTypeName_::U16
            | BuiltinTypeName_::U32
            | BuiltinTypeName_::U64
            | BuiltinTypeName_::U128
            | BuiltinTypeName_::U256 => true,
            _ => false,
        }
    }

    pub open spec fn spec_is_bits(self) -> bool {
        self.spec_is_numeric()
    }

    /// The category accepted by bitwise operations: the numeric builtins.
    pub fn is_bits(self) -> (r: bool)
        ensures
            r == self.spec_is_bits(),
    {
        self.is_numeric()
    }

    pub open spec fn spec_is_ordered(self) -> bool {
        self.spec_is_numeric() || self == BuiltinTypeName_::Bool || self
            == BuiltinTypeName_::Address
    }

    /// The category accepted by ordering comparisons: numerics, `bool`, and
    /// `address`.
    pub fn is_ordered(self) -> (r: bool)
        ensures
            r == self.spec_is_ordered(),
    {
        self.is_numeric() || matches!(self, BuiltinTypeName_::Bool) || matches!(
            self,
            BuiltinTypeName_::Address,
        )
    }

    pub open spec fn spec_declared_abilities(self, loc: Loc) -> AbilitySet {
        if self is Signer {
            AbilitySet::spec_signer(loc)
        } else {
            AbilitySet::spec_collection(loc)
        }
    }

    /// The abilities a builtin is declared with: `signer` has only `drop`, the
    /// rest (including `vector`, whose arguments are constrained separately)
    /// have `copy`, `drop`, `store`.
    pub fn declared_abilities(self, loc: Loc) -> (r: AbilitySet)
        ensures
            r == self.spec_declared_abilities(loc),
    {
        match self {
            BuiltinTypeName_::Signer => AbilitySet::signer(loc),
            _ => AbilitySet::collection(loc),
        }
    }

    /// How many type parameters the builtin takes: one for `vector`, none
    /// otherwise.  Each parameter is unconstrained.
    pub fn tparam_count(self) -> (r: usize)
        ensures
            r == (if self is Vector {
                1usize
            } else {
                0usize
            }),
    {
        match self {
            BuiltinTypeName_::Vector => 1,
            _ => 0,
        }
    }
}

/// A builtin type name with the position it was written at.
#[derive(Clone, Copy, Debug)]
pub struct BuiltinTypeName {
    pub loc: Loc,
    pub value: BuiltinTypeName_,
}

/// The value part of a type name.
#[derive(Clone, Copy, Debug)]
pub enum TypeName_ {
    /// The expression-list pseudo-type of the given arity.
    Multiple(usize),
    /// A builtin type.
    Builtin(BuiltinTypeName),
    /// A struct declared in a module.
    ModuleType(ModuleIdent, Name),
}

/// A type name with the position it was written at.
#[derive(Clone, Copy, Debug)]
pub struct TypeName {
    pub loc: Loc,
    pub value: TypeName_,
}

/// The position-free identity of a type name, used as a lookup key.
#[derive(Clone, Copy, PartialEq, Eq, Structural, Debug)]
pub enum TypeNameKey {
    MultipleKey(usize),
    BuiltinKey(BuiltinTypeName_),
    ModuleTypeKey(ModuleIdent_, Symbol),
}

impl TypeName {
    pub open spec fn spec_key(self) -> TypeNameKey {
        match self.value {
            TypeName_::Multiple(n) => TypeNameKey::MultipleKey(n),
            TypeName_::Builtin(b) => TypeNameKey::BuiltinKey(b.value),
            TypeName_::ModuleType(m, n) => TypeNameKey::ModuleTypeKey(m.value, n.value),
        }
    }

    /// The identity under which two written type names are the same name,
    /// ignoring positions.
    pub fn key(&self) -> (r: TypeNameKey)
        ensures
            r == self.spec_key(),
    {
        match self.value {
            TypeName_::Multiple(n) => TypeNameKey::MultipleKey(n),
            TypeName_::Builtin(b) => TypeNameKey::BuiltinKey(b.value),
            TypeName_::ModuleType(m, n) => TypeNameKey::ModuleTypeKey(m.value, n.value),
        }
    }
}

/// The identity of a declared generic parameter.
pub type TParamID = u64;

/// A declared generic type parameter: its identity, the name the user wrote,
/// and the abilities the declaration constrains it to.
#[derive(Clone, Copy, Debug)]
pub struct TParam {
    pub id: TParamID,
    pub user_specified_name: Name,
    pub abilities: AbilitySet,
}

/// A struct's generic parameter, possibly phantom: a phantom argument does not
/// take part in ability inference for the container.
#[derive(Clone, Copy, Debug)]
pub struct StructTypeParameter {
    pub is_phantom: bool,
    pub param: TParam,
}

/// The value part of a type.
#[derive(Debug)]
pub enum Type_ {
    /// The empty tuple.
    Unit,
    /// A reference, `mut` when the flag is set.
    Ref(bool, Box<Type>),
    /// A declared generic parameter.
    Param(TParam),
    /// A named type applied to arguments.  The ability-set override, when
    /// present, was derived by an earlier pass.
    Apply(Option<AbilitySet>, TypeName, Vec<Type>),
    /// A function type: argument types and result type.
    Fun(Vec<Type>, Box<Type>),
    /// An inference variable.
    Var(TVar),
    /// A reference whose mutability is not yet known, carrying its
    /// reference-mutability variable.
    AutoRef(RefVar, Box<Type>),
    /// The unconstrained type: unifies with everything.
    Anything,
    /// The poison type: absorbs silently in unification, suppressing error
    /// cascades.
    UnresolvedError,
}

/// A type with the position it was written at.
#[derive(Debug)]
pub struct Type {
    pub loc: Loc,
    pub value: Type_,
}

/// The mathematical model of the value part of a type: the same shape as
/// [`Type_`], with `Seq` in place of `Vec`.
pub enum SpecType_ {
    Unit,
    Ref(bool, Box<SpecType>),
    Param(TParam),
    Apply(Option<AbilitySet>, TypeName, Seq<SpecType>),
    Fun(Seq<SpecType>, Box<SpecType>),
    Var(TVar),
    AutoRef(RefVar, Box<SpecType>),
    Anything,
    UnresolvedError,
}

/// The mathematical model of a type.
pub struct SpecType {
    pub loc: Loc,
    pub value: SpecType_,
}

/// The model of a type term.
pub open spec fn view_type(t: Type) -> SpecType
    decreases t,
{
    let value = match t.value {
        Type_::Unit => SpecType_::Unit,
        Type_::Ref(mut_, inner) => SpecType_::Ref(mut_, Box::new(view_type(*inner))),
        Type_::Param(tp) => SpecType_::Param(tp),
        Type_::Apply(k, n, args) => SpecType_::Apply(k, n, view_types(args@)),
        Type_::Fun(args, ret) => SpecType_::Fun(view_types(args@), Box::new(view_type(*ret))),
        Type_::Var(v) => SpecType_::Var(v),
        Type_::AutoRef(rv, inner) => SpecType_::AutoRef(rv, Box::new(view_type(*inner))),
        Type_::Anything => SpecType_::Anything,
        Type_::UnresolvedError => SpecType_::UnresolvedError,
    };
    SpecType { loc: t.loc, value }
}

/// The model of a list of type terms.
pub open spec fn view_types(ts: Seq<Type>) -> Seq<SpecType>
    decreases ts,
{
    if ts.len() == 0 {
        Seq::<SpecType>::empty()
    } else {
        seq![view_type(ts[0])] + view_types(ts.drop_first())
    }
}

impl View for Type {
    type V = SpecType;

    open spec fn view(&self) -> SpecType {
        view_type(*self)
    }
}

/// Viewing a list distributes over its elements.
pub proof fn lemma_view_types_index(ts: Seq<Type>)
    ensures
        view_types(ts).len() == ts.len(),
        forall|i: int| 0 <= i < ts.len() ==> view_types(ts)[i] == view_type(ts[i]),
    decreases ts,
{
    if ts.len() > 0 {
        lemma_view_types_index(ts.drop_first());
        assert forall|i: int| 0 <= i < ts.len() implies view_types(ts)[i] == view_type(
            ts[i],
        ) by {
            if i > 0 {
                assert(ts.drop_first()[i - 1] == ts[i]);
            }
        }
    }
}

/// Extending a list by one element extends its view by that element's view.
pub proof fn lemma_view_types_push(ts: Seq<Type>, t: Type)
    ensures
        view_types(ts.push(t)) == view_types(ts).push(view_type(t)),
    decreases ts,
{
    if ts.len() == 0 {
        assert(ts.push(t)[0] == t);
        assert(ts.push(t).drop_first() =~= Seq::<Type>::empty());
        assert(view_types(ts.push(t)) == seq![view_type(t)] + view_types(ts.push(t).drop_first()));
        assert(view_types(ts.push(t).drop_first()) == Seq::<SpecType>::empty());
        assert(view_types(ts) == Seq::<SpecType>::empty());
        assert(seq![view_type(t)] + Seq::<SpecType>::empty() =~= Seq::<SpecType>::empty().push(
            view_type(t),
        ));
    } else {
        lemma_view_types_push(ts.drop_first(), t);
        assert(ts.push(t)[0] == ts[0]);
        assert(ts.push(t).drop_first() =~= ts.drop_first().push(t));
        assert(view_types(ts.push(t)) == seq![view_type(ts[0])] + view_types(
            ts.drop_first().push(t),
        ));
        assert(view_types(ts) == seq![view_type(ts[0])] + view_types(ts.drop_first()));
        assert(seq![view_type(ts[0])] + view_types(ts.drop_first()).push(view_type(t)) =~= (
        seq![view_type(ts[0])] + view_types(ts.drop_first())).push(view_type(t)));
    }
}

impl Type {
    /// A value-identical copy.  The library copies type terms explicitly so
    /// that contracts can speak about the copy.
    pub fn deep_clone(&self) -> (r: Type)
        ensures
            r@ == self@,
        decreases *self,
    {
        let value = match &self.value {
            Type_::Unit => Type_::Unit,
            Type_::Anything => Type_::Anything,
            Type_::UnresolvedError => Type_::UnresolvedError,
            Type_::Var(v) => Type_::Var(*v),
            Type_::Param(tp) => Type_::Param(*tp),
            Type_::Ref(mut_, inner) => Type_::Ref(*mut_, Box::new(inner.deep_clone())),
            Type_::AutoRef(rv, inner) => Type_::AutoRef(*rv, Box::new(inner.deep_clone())),
            Type_::Apply(k, n, args) => Type_::Apply(*k, *n, deep_clone_types(args)),
            Type_::Fun(args, ret) => Type_::Fun(deep_clone_types(args), Box::new(ret.deep_clone())),
        };
        Type { loc: self.loc, value }
    }
}

/// A value-identical copy of a list of types.
pub fn deep_clone_types(ts: &Vec<Type>) -> (r: Vec<Type>)
    ensures
        view_types(r@) == view_types(ts@),
        r@.len() == ts@.len(),
    decreases ts@,
{
    let ghost orig = ts@;
    let mut out: Vec<Type> = Vec::new();
    let mut i: usize = 0;
    while i < ts.len()
        invariant
            0 <= i <= ts.len(),
            out@.len() == i,
            view_types(out@) == view_types(ts@.subrange(0, i as int)),
            ts@ == orig,
        decreases ts.len() - i,
    {
        let c = ts[i].deep_clone();
        proof {
            lemma_view_types_push(out@, c);
            lemma_view_types_push(ts@.subrange(0, i as int), ts@[i as int]);
            assert(ts@.subrange(0, i as int).push(ts@[i as int]) =~= ts@.subrange(0, i + 1));
        }
        out.push(c);
        i = i + 1;
    }
    proof {
        assert(ts@.subrange(0, ts@.len() as int) =~= ts@);
    }
    out
}

impl SpecType {
    /// A type term is ready ("resolved") when no inference variable and no
    /// unresolved reference remains anywhere in it.
    pub open spec fn is_ready(self) -> bool
        decreases self,
    {
        match self.value {
            SpecType_::Var(_) => false,
            SpecType_::AutoRef(_, _) => false,
            SpecType_::Ref(_, inner) => inner.is_ready(),
            SpecType_::Apply(_, _, args) => spec_types_ready(args),
            SpecType_::Fun(args, ret) => spec_types_ready(args) && ret.is_ready(),
            _ => true,
        }
    }

    /// Whether the variable `v` occurs anywhere inside the type term.
    pub open spec fn uses_tvar(self, v: TVar) -> bool
        decreases self,
    {
        match self.value {
            SpecType_::Var(w) => w == v,
            SpecType_::Ref(_, inner) => inner.uses_tvar(v),
            SpecType_::AutoRef(_, inner) => inner.uses_tvar(v),
            SpecType_::Apply(_, _, args) => spec_types_use_tvar(args, v),
            SpecType_::Fun(args, ret) => spec_types_use_tvar(args, v) || ret.uses_tvar(v),
            _ => false,
        }
    }
}

/// Every type in the sequence is ready.
pub open spec fn spec_types_ready(ts: Seq<SpecType>) -> bool
    decreases ts,
{
    if ts.len() == 0 {
        true
    } else {
        ts[0].is_ready() && spec_types_ready(ts.drop_first())
    }
}

/// Whether the variable `v` occurs anywhere in the sequence.
pub open spec fn spec_types_use_tvar(ts: Seq<SpecType>, v: TVar) -> bool
    decreases ts,
{
    if ts.len() == 0 {
        false
    } else {
        ts[0].uses_tvar(v) || spec_types_use_tvar(ts.drop_first(), v)
    }
}

/// Sizes used for recursion budgets are clamped at this bound, so that budget
/// arithmetic stays far from overflow.
pub const SIZE_CAP: u64 = 0x10000000;

/// Addition clamped at [`SIZE_CAP`].
pub open spec fn cap_add(a: u64, b: u64) -> u64 {
    if a + b >= SIZE_CAP {
        SIZE_CAP
    } else {
        (a + b) as u64
    }
}

/// Executable form of [`cap_add`].
pub fn cap_add_exec(a: u64, b: u64) -> (r: u64)
    requires
        a <= SIZE_CAP,
        b <= SIZE_CAP,
    ensures
        r == cap_add(a, b),
{
    if a + b >= SIZE_CAP {
        SIZE_CAP
    } else {
        a + b
    }
}

/// The clamped size of a type term: one per node, saturating at [`SIZE_CAP`].
pub open spec fn csize(t: SpecType) -> u64
    decreases t,
{
    match t.value {
        SpecType_::Ref(_, inner) => cap_add(1, csize(*inner)),
        SpecType_::AutoRef(_, inner) => cap_add(1, csize(*inner)),
        SpecType_::Apply(_, _, args) => cap_add(1, csizes(args)),
        SpecType_::Fun(args, ret) => cap_add(1, cap_add(csizes(args), csize(*ret))),
        _ => 1,
    }
}

/// The clamped total size of a sequence of type terms.
pub open spec fn csizes(ts: Seq<SpecType>) -> u64
    decreases ts,
{
    if ts.len() == 0 {
        0
    } else {
        cap_add(csize(ts[0]), csizes(ts.drop_first()))
    }
}

/// Clamped sizes never exceed the cap.
pub proof fn lemma_csize_le_cap(t: SpecType)
    ensures
        csize(t) <= SIZE_CAP,
        csize(t) >= 1,
{
}

/// Clamped sequence sizes never exceed the cap.
pub proof fn lemma_csizes_le_cap(ts: Seq<SpecType>)
    ensures
        csizes(ts) <= SIZE_CAP,
    decreases ts,
{
    if ts.len() != 0 {
        lemma_csizes_le_cap(ts.drop_first());
    }
}

/// Appending one element to a sequence adds its clamped size at the end.
pub proof fn lemma_csizes_push(ts: Seq<SpecType>, x: SpecType)
    ensures
        csizes(ts.push(x)) == cap_add(csizes(ts), csize(x)),
    decreases ts,
{
    if ts.len() == 0 {
        assert(ts.push(x)[0] == x);
        assert(ts.push(x).drop_first() =~= Seq::<SpecType>::empty());
        lemma_csize_le_cap(x);
        assert(csizes(ts.push(x)) == cap_add(csize(x), csizes(ts.push(x).drop_first())));
        assert(csizes(ts.push(x).drop_first()) == 0);
        assert(csizes(ts) == 0);
    } else {
        lemma_csizes_push(ts.drop_first(), x);
        assert(ts.push(x)[0] == ts[0]);
        assert(ts.push(x).drop_first() =~= ts.drop_first().push(x));
        lemma_csize_le_cap(ts[0]);
        lemma_csize_le_cap(x);
        lemma_csizes_le_cap(ts.drop_first());
        assert(csizes(ts.push(x)) == cap_add(csize(ts[0]), csizes(ts.drop_first().push(x))));
        assert(csizes(ts.push(x)) == cap_add(
            csize(ts[0]),
            cap_add(csizes(ts.drop_first()), csize(x)),
        ));
        assert(cap_add(csize(ts[0]), cap_add(csizes(ts.drop_first()), csize(x))) == cap_add(
            cap_add(csize(ts[0]), csizes(ts.drop_first())),
            csize(x),
        ));
        assert(csizes(ts) == cap_add(csize(ts[0]), csizes(ts.drop_first())));
    }
}

/// Executable clamped size of a type term.
pub fn type_csize(t: &Type) -> (r: u64)
    ensures
        r == csize(t@),
    decreases *t,
{
    match &t.value {
        Type_::Ref(_, inner) => {
            proof {
                lemma_csize_le_cap(inner@);
            }
            cap_add_exec(1, type_csize(inner))
        },
        Type_::AutoRef(_, inner) => {
            proof {
                lemma_csize_le_cap(inner@);
            }
            cap_add_exec(1, type_csize(inner))
        },
        Type_::Apply(_, _, args) => {
            let s = types_csize(args);
            proof {
                lemma_view_types_index(args@);
                lemma_csizes_le_cap(view_types(args@));
            }
            cap_add_exec(1, s)
        },
        Type_::Fun(args, ret) => {
            let s = types_csize(args);
            let sr = type_csize(ret);
            proof {
                lemma_csizes_le_cap(view_types(args@));
                lemma_csize_le_cap(ret@);
            }
            cap_add_exec(1, cap_add_exec(s, sr))
        },
        _ => 1,
    }
}

/// Executable clamped size of a list of type terms.
pub fn types_csize(ts: &Vec<Type>) -> (r: u64)
    ensures
        r == csizes(view_types(ts@)),
    decreases ts@,
{
    let mut acc: u64 = 0;
    let mut i: usize = 0;
    proof {
        assert(ts@.subrange(0, 0) =~= Seq::<Type>::empty());
    }
    while i < ts.len()
        invariant
            0 <= i <= ts.len(),
            acc == csizes(view_types(ts@.subrange(0, i as int))),
            acc <= SIZE_CAP,
        decreases ts.len() - i,
    {
        let c = type_csize(&ts[i]);
        proof {
            lemma_csize_le_cap(ts@[i as int]@);
            lemma_csizes_push(view_types(ts@.subrange(0, i as int)), ts@[i as int]@);
            lemma_view_types_push(ts@.subrange(0, i as int), ts@[i as int]);
            assert(ts@.subrange(0, i as int).push(ts@[i as int]) =~= ts@.subrange(0, i + 1));
        }
        acc = cap_add_exec(acc, c);
        i = i + 1;
    }
    proof {
        assert(ts@.subrange(0, ts@.len() as int) =~= ts@);
    }
    acc
}

/// The height of a type term: the length of its longest path of nested
/// arguments.
pub open spec fn type_height(t: SpecType) -> nat
    decreases t,
{
    1 + match t.value {
        SpecType_::Ref(_, inner) => type_height(*inner),
        SpecType_::AutoRef(_, inner) => type_height(*inner),
        SpecType_::Apply(_, _, args) => types_height(args),
        SpecType_::Fun(args, ret) => if types_height(args) >= type_height(*ret) {
            types_height(args)
        } else {
            type_height(*ret)
        },
        _ => 0,
    }
}

/// The greatest height in a sequence of type terms.
pub open spec fn types_height(ts: Seq<SpecType>) -> nat
    decreases ts,
{
    if ts.len() == 0 {
        0
    } else {
        if type_height(ts[0]) >= types_height(ts.drop_first()) {
            type_height(ts[0])
        } else {
            types_height(ts.drop_first())
        }
    }
}

pub open spec fn spec_type_u64(loc: Loc) -> SpecType {
    SpecType {
        loc,
        value: SpecType_::Apply(
            None,
            TypeName {
                loc,
                value: TypeName_::Builtin(BuiltinTypeName { loc, value: BuiltinTypeName_::U64 }),
            },
            Seq::<SpecType>::empty(),
        ),
    }
}

/// The unsigned 64-bit integer type, the numeric default.
pub fn type_u64(loc: Loc) -> (r: Type)
    ensures
        r@ == spec_type_u64(loc),
{
    let args: Vec<Type> = Vec::new();
    proof {
        assert(args@ =~= Seq::<Type>::empty());
        assert(view_types(args@) =~= Seq::<SpecType>::empty());
    }
    Type {
        loc,
        value: Type_::Apply(
            None,
            TypeName {
                loc,
                value: TypeName_::Builtin(BuiltinTypeName { loc, value: BuiltinTypeName_::U64 }),
            },
            args,
        ),
    }
}

} // verus!
