//! Generic instantiation and call resolution: declared signatures are turned
//! into checkable types by replacing every generic parameter with a fresh,
//! ability-constrained inference variable; explicit type-argument lists are
//! arity-checked, diagnosed once, and normalized to the declared arity; and
//! calls are checked against the callee's visibility.

use vstd::prelude::*;

use crate::ast::{
    view_type, view_types, AbilitySet, Loc, ModuleIdent, ModuleIdent_, MsgToken, Name, RefVar,
    SpecType, SpecType_, Symbol, TParam, TParamID, TVar, Type, TypeName, TypeName_, Type_,
    MSG_INVALID_EXPR_LIST_TYPE_ARGUMENT, MSG_INVALID_REFERENCE_TYPE, MSG_INVALID_TYPE_ARGUMENT,
};
use crate::context::{Constraint, Context, SpecConstraint};
use crate::diag::{spec_diag0, spec_diag1, Code, Diagnostic, Label, Note, SpecDiagnostic};
use crate::info::Visibility;
use crate::subst::{poison_type, spec_poison, RefKind, SpecSubst, Subst};

verus! {

/// A function signature resolved for one call: where it was declared,
/// whether it is a macro, its instantiated type arguments, parameters and
/// result.
#[derive(Debug)]
pub struct ResolvedFunctionType {
    pub declared: Loc,
    pub macro_: Option<Loc>,
    pub ty_args: Vec<Type>,
    pub params: Vec<(crate::ast::Var, Type)>,
    pub return_: Type,
}

/// Why an otherwise-invisible function may still be callable from a test.
#[derive(Clone, Copy, Debug)]
pub enum PublicForTesting {
    /// The function is an entry function; the position of its modifier.
    Entry(Loc),
}

/// The first binding of a generic-parameter substitution for `id`.
pub open spec fn spec_assoc_tparam(sub: Seq<(TParamID, Type)>, id: TParamID) -> Option<int>
    decreases sub,
{
    if sub.len() == 0 {
        None
    } else if sub[0].0 == id {
        Some(0)
    } else {
        match spec_assoc_tparam(sub.drop_first(), id) {
            Some(i) => Some(i + 1),
            None => None,
        }
    }
}

/// A declared type with every generic parameter replaced by its binding; a
/// parameter without a binding, an inference variable or an unresolved
/// reference is an internal fault of an earlier pass and becomes the poison
/// type.
pub open spec fn spec_subst_tparams(sub: Seq<(TParamID, Type)>, t: SpecType) -> SpecType
    decreases t,
{
    match t.value {
        SpecType_::Unit | SpecType_::UnresolvedError | SpecType_::Anything => t,
        SpecType_::Var(_) => t,
        SpecType_::AutoRef(_, _) => spec_poison(t.loc),
        SpecType_::Ref(m, inner) => SpecType {
            loc: t.loc,
            value: SpecType_::Ref(m, Box::new(spec_subst_tparams(sub, *inner))),
        },
        SpecType_::Param(tp) => match spec_assoc_tparam(sub, tp.id) {
            Some(i) => view_type(sub[i].1),
            None => spec_poison(t.loc),
        },
        SpecType_::Apply(k, n, args) => SpecType {
            loc: t.loc,
            value: SpecType_::Apply(k, n, spec_subst_tparams_seq(sub, args)),
        },
        SpecType_::Fun(args, ret) => SpecType {
            loc: t.loc,
            value: SpecType_::Fun(
                spec_subst_tparams_seq(sub, args),
                Box::new(spec_subst_tparams(sub, *ret)),
            ),
        },
    }
}

/// [`spec_subst_tparams`] over each element.
pub open spec fn spec_subst_tparams_seq(sub: Seq<(TParamID, Type)>, ts: Seq<SpecType>) -> Seq<
    SpecType,
>
    decreases ts,
{
    if ts.len() == 0 {
        Seq::<SpecType>::empty()
    } else {
        seq![spec_subst_tparams(sub, ts[0])] + spec_subst_tparams_seq(sub, ts.drop_first())
    }
}

/// Push form of [`spec_subst_tparams_seq`].
pub proof fn lemma_subst_tparams_seq_push(sub: Seq<(TParamID, Type)>, ts: Seq<SpecType>, x: SpecType)
    ensures
        spec_subst_tparams_seq(sub, ts.push(x)) == spec_subst_tparams_seq(sub, ts).push(
            spec_subst_tparams(sub, x),
        ),
    decreases ts,
{
    if ts.len() == 0 {
        assert(ts.push(x)[0] == x);
        assert(ts.push(x).drop_first() =~= Seq::<SpecType>::empty());
        assert(spec_subst_tparams_seq(sub, ts.push(x)) == seq![spec_subst_tparams(sub, x)]
            + spec_subst_tparams_seq(sub, ts.push(x).drop_first()));
        assert(spec_subst_tparams_seq(sub, ts.push(x).drop_first()) == Seq::<SpecType>::empty());
        assert(spec_subst_tparams_seq(sub, ts) == Seq::<SpecType>::empty());
        assert(seq![spec_subst_tparams(sub, x)] + Seq::<SpecType>::empty() =~= Seq::<
            SpecType,
        >::empty().push(spec_subst_tparams(sub, x)));
    } else {
        lemma_subst_tparams_seq_push(sub, ts.drop_first(), x);
        assert(ts.push(x)[0] == ts[0]);
        assert(ts.push(x).drop_first() =~= ts.drop_first().push(x));
        assert(spec_subst_tparams_seq(sub, ts.push(x)) == seq![spec_subst_tparams(sub, ts[0])]
            + spec_subst_tparams_seq(sub, ts.drop_first().push(x)));
        assert(spec_subst_tparams_seq(sub, ts) == seq![spec_subst_tparams(sub, ts[0])]
            + spec_subst_tparams_seq(sub, ts.drop_first()));
        assert(seq![spec_subst_tparams(sub, ts[0])] + spec_subst_tparams_seq(
            sub,
            ts.drop_first(),
        ).push(spec_subst_tparams(sub, x)) =~= (seq![spec_subst_tparams(sub, ts[0])]
            + spec_subst_tparams_seq(sub, ts.drop_first())).push(spec_subst_tparams(sub, x)));
    }
}

/// The substitution pairing each declared parameter with its argument, in
/// order; pairing stops at the shorter list (a mismatch was diagnosed where
/// the arguments were checked).
pub fn make_tparam_subst(tps: &Vec<TParam>, args: Vec<Type>) -> (r: Vec<(TParamID, Type)>)
    ensures
        r@.len() == (if tps@.len() <= args@.len() {
            tps@.len()
        } else {
            args@.len()
        }),
        forall|i: int| 0 <= i < r@.len() ==> r@[i] == (tps@[i].id, args@[i]),
{
    let ghost orig = args@;
    let mut args = args;
    let mut out: Vec<(TParamID, Type)> = Vec::new();
    let mut i: usize = 0;
    while i < tps.len() && args.len() > 0
        invariant
            0 <= i <= tps@.len(),
            i + args@.len() == orig.len() || i == tps@.len(),
            i <= orig.len(),
            args@ =~= orig.skip(i as int),
            out@.len() == i,
            forall|k: int| 0 <= k < i ==> out@[k] == (tps@[k].id, orig[k]),
        decreases tps@.len() - i,
    {
        let a = args.remove(0);
        proof {
            assert(a == orig[i as int]);
            assert(args@ =~= orig.skip(i + 1));
        }
        out.push((tps[i].id, a));
        i = i + 1;
    }
    out
}

/// Executable form of [`spec_subst_tparams`].
pub fn subst_tparams(sub: &Vec<(TParamID, Type)>, t: &Type) -> (r: Type)
    ensures
        r@ == spec_subst_tparams(sub@, t@),
    decreases *t,
{
    match &t.value {
        Type_::Unit => Type { loc: t.loc, value: Type_::Unit },
        Type_::UnresolvedError => Type { loc: t.loc, value: Type_::UnresolvedError },
        Type_::Anything => Type { loc: t.loc, value: Type_::Anything },
        Type_::Var(v) => Type { loc: t.loc, value: Type_::Var(*v) },
        Type_::AutoRef(_, _) => poison_type(t.loc),
        Type_::Ref(m, inner) => Type {
            loc: t.loc,
            value: Type_::Ref(*m, Box::new(subst_tparams(sub, inner))),
        },
        Type_::Param(tp) => {
            let found = find_tparam(sub, tp.id);
            match found {
                Some(i) => sub[i].1.deep_clone(),
                None => poison_type(t.loc),
            }
        },
        Type_::Apply(k, n, args) => {
            let rs = subst_tparams_list(sub, args);
            Type { loc: t.loc, value: Type_::Apply(*k, *n, rs) }
        },
        Type_::Fun(args, ret) => {
            let rs = subst_tparams_list(sub, args);
            let rr = subst_tparams(sub, ret);
            Type { loc: t.loc, value: Type_::Fun(rs, Box::new(rr)) }
        },
    }
}

/// [`subst_tparams`] over each element of a list.
fn subst_tparams_list(sub: &Vec<(TParamID, Type)>, ts: &Vec<Type>) -> (r: Vec<Type>)
    ensures
        view_types(r@) == spec_subst_tparams_seq(sub@, view_types(ts@)),
    decreases ts@,
{
    let ghost whole = view_types(ts@);
    proof {
        crate::ast::lemma_view_types_index(ts@);
    }
    let mut out: Vec<Type> = Vec::new();
    let mut i: usize = 0;
    proof {
        assert(view_types(out@) =~= Seq::<SpecType>::empty());
        assert(whole.subrange(0, 0) =~= Seq::<SpecType>::empty());
        assert(spec_subst_tparams_seq(sub@, whole.subrange(0, 0)) =~= Seq::<SpecType>::empty());
    }
    while i < ts.len()
        invariant
            0 <= i <= ts@.len(),
            whole == view_types(ts@),
            whole.len() == ts@.len(),
            forall|k: int| 0 <= k < ts@.len() ==> whole[k] == view_type(ts@[k]),
            view_types(out@) == spec_subst_tparams_seq(sub@, whole.subrange(0, i as int)),
        decreases ts@.len() - i,
    {
        let c = subst_tparams(sub, &ts[i]);
        proof {
            crate::ast::lemma_view_types_push(out@, c);
            lemma_subst_tparams_seq_push(sub@, whole.subrange(0, i as int), whole[i as int]);
            assert(whole.subrange(0, i as int).push(whole[i as int]) =~= whole.subrange(0, i + 1));
        }
        out.push(c);
        i = i + 1;
    }
    proof {
        assert(whole.subrange(0, whole.len() as int) =~= whole);
    }
    out
}

/// The first binding of the substitution for `id`, as an index.
fn find_tparam(sub: &Vec<(TParamID, Type)>, id: TParamID) -> (r: Option<usize>)
    ensures
        match r {
            Some(i) => spec_assoc_tparam(sub@, id) == Some(i as int) && i < sub@.len(),
            None => spec_assoc_tparam(sub@, id) is None,
        },
{
    let ghost whole = sub@;
    let mut i: usize = 0;
    proof {
        assert(whole.skip(0) =~= whole);
    }
    while i < sub.len()
        invariant
            0 <= i <= whole.len(),
            whole == sub@,
            spec_assoc_tparam(whole, id) == (match spec_assoc_tparam(whole.skip(i as int), id) {
                Some(j) => Some(j + i),
                None => None,
            }),
        decreases whole.len() - i,
    {
        proof {
            assert(whole.skip(i as int)[0] == whole[i as int]);
            assert(whole.skip(i as int).drop_first() =~= whole.skip(i + 1));
        }
        if sub[i].0 == id {
            return Some(i);
        }
        i = i + 1;
    }
    proof {
        assert(whole.skip(whole.len() as int) =~= Seq::<(TParamID, Type)>::empty());
    }
    None
}

/// A macro signature type with every generic parameter widened to the
/// unconstrained type: macro bodies are checked at application, not against
/// declared constraints.  An unresolved reference is an internal fault and
/// becomes the poison type.
pub open spec fn spec_give_tparams_all_abilities(t: SpecType) -> SpecType
    decreases t,
{
    match t.value {
        SpecType_::Unit | SpecType_::Var(_) | SpecType_::UnresolvedError | SpecType_::Anything => t,
        SpecType_::Ref(m, inner) => SpecType {
            loc: t.loc,
            value: SpecType_::Ref(m, Box::new(spec_give_tparams_all_abilities(*inner))),
        },
        SpecType_::Apply(k, n, args) => SpecType {
            loc: t.loc,
            value: SpecType_::Apply(k, n, spec_give_all_seq(args)),
        },
        SpecType_::Fun(args, ret) => SpecType {
            loc: t.loc,
            value: SpecType_::Fun(
                spec_give_all_seq(args),
                Box::new(spec_give_tparams_all_abilities(*ret)),
            ),
        },
        SpecType_::Param(_) => SpecType { loc: t.loc, value: SpecType_::Anything },
        SpecType_::AutoRef(_, _) => spec_poison(t.loc),
    }
}

/// [`spec_give_tparams_all_abilities`] over each element.
pub open spec fn spec_give_all_seq(ts: Seq<SpecType>) -> Seq<SpecType>
    decreases ts,
{
    if ts.len() == 0 {
        Seq::<SpecType>::empty()
    } else {
        seq![spec_give_tparams_all_abilities(ts[0])] + spec_give_all_seq(ts.drop_first())
    }
}

/// Push form of [`spec_give_all_seq`].
pub proof fn lemma_give_all_seq_push(ts: Seq<SpecType>, x: SpecType)
    ensures
        spec_give_all_seq(ts.push(x)) == spec_give_all_seq(ts).push(
            spec_give_tparams_all_abilities(x),
        ),
    decreases ts,
{
    if ts.len() == 0 {
        assert(ts.push(x)[0] == x);
        assert(ts.push(x).drop_first() =~= Seq::<SpecType>::empty());
        assert(spec_give_all_seq(ts.push(x)) == seq![spec_give_tparams_all_abilities(x)]
            + spec_give_all_seq(ts.push(x).drop_first()));
        assert(spec_give_all_seq(ts.push(x).drop_first()) == Seq::<SpecType>::empty());
        assert(spec_give_all_seq(ts) == Seq::<SpecType>::empty());
        assert(seq![spec_give_tparams_all_abilities(x)] + Seq::<SpecType>::empty() =~= Seq::<
            SpecType,
        >::empty().push(spec_give_tparams_all_abilities(x)));
    } else {
        lemma_give_all_seq_push(ts.drop_first(), x);
        assert(ts.push(x)[0] == ts[0]);
        assert(ts.push(x).drop_first() =~= ts.drop_first().push(x));
        assert(spec_give_all_seq(ts.push(x)) == seq![spec_give_tparams_all_abilities(ts[0])]
            + spec_give_all_seq(ts.drop_first().push(x)));
        assert(spec_give_all_seq(ts) == seq![spec_give_tparams_all_abilities(ts[0])]
            + spec_give_all_seq(ts.drop_first()));
        assert(seq![spec_give_tparams_all_abilities(ts[0])] + spec_give_all_seq(
            ts.drop_first(),
        ).push(spec_give_tparams_all_abilities(x)) =~= (seq![
            spec_give_tparams_all_abilities(ts[0]),
        ] + spec_give_all_seq(ts.drop_first())).push(spec_give_tparams_all_abilities(x)));
    }
}

/// Rewrites a macro signature type in place, widening every generic
/// parameter to the unconstrained type.
pub fn give_tparams_all_abilities(t: &mut Type)
    ensures
        final(t)@ == spec_give_tparams_all_abilities(old(t)@),
{
    let r = give_all_impl(&*t);
    *t = r;
}

/// Executable form of [`spec_give_tparams_all_abilities`].
fn give_all_impl(t: &Type) -> (r: Type)
    ensures
        r@ == spec_give_tparams_all_abilities(t@),
    decreases *t,
{
    match &t.value {
        Type_::Unit => Type { loc: t.loc, value: Type_::Unit },
        Type_::UnresolvedError => Type { loc: t.loc, value: Type_::UnresolvedError },
        Type_::Anything => Type { loc: t.loc, value: Type_::Anything },
        Type_::Var(v) => Type { loc: t.loc, value: Type_::Var(*v) },
        Type_::AutoRef(_, _) => poison_type(t.loc),
        Type_::Param(_) => Type { loc: t.loc, value: Type_::Anything },
        Type_::Ref(m, inner) => Type {
            loc: t.loc,
            value: Type_::Ref(*m, Box::new(give_all_impl(inner))),
        },
        Type_::Apply(k, n, args) => {
            let rs = give_all_list(args);
            Type { loc: t.loc, value: Type_::Apply(*k, *n, rs) }
        },
        Type_::Fun(args, ret) => {
            let rs = give_all_list(args);
            let rr = give_all_impl(ret);
            Type { loc: t.loc, value: Type_::Fun(rs, Box::new(rr)) }
        },
    }
}

/// [`give_all_impl`] over each element of a list.
fn give_all_list(ts: &Vec<Type>) -> (r: Vec<Type>)
    ensures
        view_types(r@) == spec_give_all_seq(view_types(ts@)),
    decreases ts@,
{
    let ghost whole = view_types(ts@);
    proof {
        crate::ast::lemma_view_types_index(ts@);
    }
    let mut out: Vec<Type> = Vec::new();
    let mut i: usize = 0;
    proof {
        assert(view_types(out@) =~= Seq::<SpecType>::empty());
        assert(whole.subrange(0, 0) =~= Seq::<SpecType>::empty());
        assert(spec_give_all_seq(whole.subrange(0, 0)) =~= Seq::<SpecType>::empty());
    }
    while i < ts.len()
        invariant
            0 <= i <= ts@.len(),
            whole == view_types(ts@),
            whole.len() == ts@.len(),
            forall|k: int| 0 <= k < ts@.len() ==> whole[k] == view_type(ts@[k]),
            view_types(out@) == spec_give_all_seq(whole.subrange(0, i as int)),
        decreases ts@.len() - i,
    {
        let c = give_all_impl(&ts[i]);
        proof {
            crate::ast::lemma_view_types_push(out@, c);
            lemma_give_all_seq_push(whole.subrange(0, i as int), whole[i as int]);
            assert(whole.subrange(0, i as int).push(whole[i as int]) =~= whole.subrange(0, i + 1));
        }
        out.push(c);
        i = i + 1;
    }
    proof {
        assert(whole.subrange(0, whole.len() as int) =~= whole);
    }
    out
}

/// Whether an entry function may be called from a testing context despite
/// its visibility: only under the driver's testing flag.
pub fn public_testing_visibility(
    env: &crate::diag::CompilationEnv,
    _package: Option<Symbol>,
    _callee_name: &Name,
    callee_entry: Option<Loc>,
) -> (r: Option<PublicForTesting>)
    ensures
        r == (if env.testing {
            match callee_entry {
                Some(l) => Some(PublicForTesting::Entry(l)),
                None => None::<PublicForTesting>,
            }
        } else {
            None::<PublicForTesting>
        }),
{
    if !env.testing {
        return None;
    }
    match callee_entry {
        Some(l) => Some(PublicForTesting::Entry(l)),
        None => None,
    }
}

/// Reports a visibility violation; under the testing flag, an entry callee
/// gains a label explaining how tests may call it.
pub fn visibility_error(
    context: &mut Context,
    public_for_testing: Option<PublicForTesting>,
    call_loc: Loc,
    call_note: Note,
    vis_loc: Loc,
    vis_note: Note,
)
    ensures
        crate::diag::sink_extended(
            old(context).env.diags@,
            final(context).env.diags@,
            SpecDiagnostic {
                code: Code::Visibility,
                primary: Label { loc: call_loc, note: call_note },
                secondary: (if old(context).env.testing {
                    match public_for_testing {
                        Some(PublicForTesting::Entry(eloc)) => seq![
                            Label { loc: vis_loc, note: vis_note },
                            Label { loc: eloc, note: Note::EntryCallableInTests },
                        ],
                        None => seq![Label { loc: vis_loc, note: vis_note }],
                    }
                } else {
                    seq![Label { loc: vis_loc, note: vis_note }]
                }),
            },
        ),
        final(context).env.testing == old(context).env.testing,
        final(context).env.primitive_definers == old(context).env.primitive_definers,
        final(context).subst == old(context).subst,
        final(context).constraints == old(context).constraints,
        final(context).modules == old(context).modules,
        final(context).use_funs == old(context).use_funs,
        final(context).locals == old(context).locals,
        final(context).macro_expansion == old(context).macro_expansion,
        final(context).new_friends == old(context).new_friends,
        final(context).named_block_map == old(context).named_block_map,
        final(context).current_module == old(context).current_module,
        final(context).current_function == old(context).current_function,
        final(context).current_package == old(context).current_package,
        final(context).macros == old(context).macros,
        final(context).max_variable_color == old(context).max_variable_color,
        final(context).in_macro_function == old(context).in_macro_function,
        final(context).return_type == old(context).return_type,
        final(context).used_module_members == old(context).used_module_members,
        final(context).lambda_expansion == old(context).lambda_expansion,
{
    let mut secondary: Vec<Label> = Vec::new();
    secondary.push(Label { loc: vis_loc, note: vis_note });
    if context.env.testing {
        match public_for_testing {
            Some(PublicForTesting::Entry(eloc)) => {
                secondary.push(Label { loc: eloc, note: Note::EntryCallableInTests });
                proof {
                    assert(secondary@ =~= seq![
                        Label { loc: vis_loc, note: vis_note },
                        Label { loc: eloc, note: Note::EntryCallableInTests },
                    ]);
                }
            },
            None => {
                proof {
                    assert(secondary@ =~= seq![Label { loc: vis_loc, note: vis_note }]);
                }
            },
        }
    } else {
        proof {
            assert(secondary@ =~= seq![Label { loc: vis_loc, note: vis_note }]);
        }
    }
    let d = Diagnostic {
        code: Code::Visibility,
        primary: Label { loc: call_loc, note: call_note },
        secondary,
    };
    context.env.add_diag(d);
    proof {
        assert(context.env.diags@.subrange(0, old(context).env.diags@.len() as int) =~= old(
            context,
        ).env.diags@);
    }
}

/// Checks a call's value-argument count: a mismatch is diagnosed once, with
/// the counts and where the arguments were found.
pub fn check_call_arity(
    context: &mut Context,
    loc: Loc,
    msg: MsgToken,
    arity: usize,
    argloc: Loc,
    given_len: usize,
)
    ensures
        (if given_len == arity {
            final(context).env.diags@ == old(context).env.diags@
        } else {
            crate::diag::sink_extended(
                old(context).env.diags@,
                final(context).env.diags@,
                spec_diag1(
                    if given_len < arity {
                        Code::TooFewArguments
                    } else {
                        Code::TooManyArguments
                    },
                    Label {
                        loc,
                        note: Note::CallArityMismatch { msg, expected: arity, given: given_len },
                    },
                    Label { loc: argloc, note: Note::ArityFoundHere { given: given_len } },
                ),
            )
        }),
        final(context).env.testing == old(context).env.testing,
        final(context).env.primitive_definers == old(context).env.primitive_definers,
        final(context).subst == old(context).subst,
        final(context).constraints == old(context).constraints,
        final(context).modules == old(context).modules,
        final(context).use_funs == old(context).use_funs,
        final(context).locals == old(context).locals,
        final(context).macro_expansion == old(context).macro_expansion,
        final(context).new_friends == old(context).new_friends,
        final(context).named_block_map == old(context).named_block_map,
        final(context).current_module == old(context).current_module,
        final(context).current_function == old(context).current_function,
        final(context).current_package == old(context).current_package,
        final(context).macros == old(context).macros,
        final(context).max_variable_color == old(context).max_variable_color,
        final(context).in_macro_function == old(context).in_macro_function,
        final(context).return_type == old(context).return_type,
        final(context).used_module_members == old(context).used_module_members,
        final(context).lambda_expansion == old(context).lambda_expansion,
{
    if given_len == arity {
        return ;
    }
    let code = if given_len < arity {
        Code::TooFewArguments
    } else {
        Code::TooManyArguments
    };
    let mut secondary: Vec<Label> = Vec::new();
    secondary.push(Label { loc: argloc, note: Note::ArityFoundHere { given: given_len } });
    let d = Diagnostic {
        code,
        primary: Label {
            loc,
            note: Note::CallArityMismatch { msg, expected: arity, given: given_len },
        },
        secondary,
    };
    proof {
        assert(d.secondary@ =~= seq![
            Label { loc: argloc, note: Note::ArityFoundHere { given: given_len } },
        ]);
    }
    context.env.add_diag(d);
    proof {
        assert(context.env.diags@.subrange(0, old(context).env.diags@.len() as int) =~= old(
            context,
        ).env.diags@);
    }
}

/// Checks an explicit type-argument list against the declared parameter
/// count: a mismatch is diagnosed exactly once, then the list is truncated
/// or padded with the poison type so that downstream code always receives
/// the declared arity.
pub fn check_type_argument_arity(
    context: &mut Context,
    loc: Loc,
    m: ModuleIdent_,
    f: Symbol,
    ty_args: Vec<Type>,
    arity: usize,
) -> (r: Vec<Type>)
    ensures
        r@.len() == arity,
        forall|i: int|
            0 <= i < arity && i < ty_args@.len() ==> view_type(r@[i]) == view_type(ty_args@[i]),
        forall|i: int|
            ty_args@.len() <= i < arity ==> view_type(r@[i]) == spec_poison(loc),
        (if ty_args@.len() == arity {
            final(context).env.diags@ == old(context).env.diags@
        } else {
            crate::diag::sink_extended(
                old(context).env.diags@,
                final(context).env.diags@,
                spec_diag0(
                    if ty_args@.len() < arity {
                        Code::TooFewTypeArguments
                    } else {
                        Code::TooManyTypeArguments
                    },
                    Label {
                        loc,
                        note: Note::TypeArgArityMismatch {
                            address: m.address,
                            module: m.module,
                            function: f,
                            expected: arity,
                            given: ty_args@.len() as usize,
                        },
                    },
                ),
            )
        }),
        final(context).env.testing == old(context).env.testing,
        final(context).env.primitive_definers == old(context).env.primitive_definers,
        final(context).subst == old(context).subst,
        final(context).constraints == old(context).constraints,
        final(context).modules == old(context).modules,
        final(context).use_funs == old(context).use_funs,
        final(context).locals == old(context).locals,
        final(context).macro_expansion == old(context).macro_expansion,
        final(context).new_friends == old(context).new_friends,
        final(context).named_block_map == old(context).named_block_map,
        final(context).current_module == old(context).current_module,
        final(context).current_function == old(context).current_function,
        final(context).current_package == old(context).current_package,
        final(context).macros == old(context).macros,
        final(context).max_variable_color == old(context).max_variable_color,
        final(context).in_macro_function == old(context).in_macro_function,
        final(context).return_type == old(context).return_type,
        final(context).used_module_members == old(context).used_module_members,
        final(context).lambda_expansion == old(context).lambda_expansion,
{
    let mut ty_args = ty_args;
    let args_len = ty_args.len();
    if args_len != arity {
        let code = if args_len < arity {
            Code::TooFewTypeArguments
        } else {
            Code::TooManyTypeArguments
        };
        let d = Diagnostic {
            code,
            primary: Label {
                loc,
                note: Note::TypeArgArityMismatch {
                    address: m.address,
                    module: m.module,
                    function: f,
                    expected: arity,
                    given: args_len,
                },
            },
            secondary: Vec::new(),
        };
        proof {
            assert(d.secondary@ =~= Seq::<Label>::empty());
        }
        context.env.add_diag(d);
        proof {
            assert(context.env.diags@.subrange(0, old(context).env.diags@.len() as int) =~= old(
                context,
            ).env.diags@);
        }
    }
    let mut out: Vec<Type> = Vec::new();
    let mut i: usize = 0;
    while i < arity
        invariant
            0 <= i <= arity,
            out@.len() == i,
            forall|k: int|
                0 <= k < i && k < ty_args@.len() ==> view_type(out@[k]) == view_type(ty_args@[k]),
            forall|k: int|
                ty_args@.len() <= k < i ==> view_type(out@[k]) == spec_poison(loc),
        decreases arity - i,
    {
        if i < ty_args.len() {
            out.push(ty_args[i].deep_clone());
        } else {
            out.push(poison_type(loc));
        }
        i = i + 1;
    }
    out
}


/// The case of fresh variables made for an instantiation: elements of an
/// expression list must be single types, ordinary arguments base types, and
/// macro arguments are left unconstrained.
pub enum TVarCase {
    Single(MsgToken),
    Base,
    Macro,
}

/// The store, the appended constraints and the fresh variables that making
/// one run of constrained type parameters produces, in allocation order.
pub open spec fn spec_make_tparams(
    s: SpecSubst,
    loc: Loc,
    case: TVarCase,
    tcs: Seq<(Loc, AbilitySet)>,
) -> (SpecSubst, Seq<SpecConstraint>, Seq<SpecType>)
    decreases tcs,
{
    if tcs.len() == 0 {
        (s, Seq::<SpecConstraint>::empty(), Seq::<SpecType>::empty())
    } else {
        let v = s.tvars.len() as usize;
        let s1 = SpecSubst {
            tvars: s.tvars.push(crate::subst::spec_empty_entry()),
            ref_vars: s.ref_vars,
        };
        let tv = SpecType { loc: tcs[0].0, value: SpecType_::Var(v) };
        let c_ability = SpecConstraint::Ability { loc, msg: None, ty: tv, constraints: tcs[0].1 };
        let head = match case {
            TVarCase::Macro => seq![c_ability],
            TVarCase::Base => seq![
                c_ability,
                SpecConstraint::BaseType(loc, MSG_INVALID_TYPE_ARGUMENT, tv),
            ],
            TVarCase::Single(m) => seq![c_ability, SpecConstraint::SingleType(loc, m, tv)],
        };
        let rest = spec_make_tparams(s1, loc, case, tcs.drop_first());
        (rest.0, head + rest.1, seq![tv] + rest.2)
    }
}

/// The pointwise description of [`spec_make_tparams`]: the arena grows by
/// one empty slot per parameter, each fresh variable sits at its allocation
/// index, and the constraints come in fixed-width groups.
pub proof fn lemma_make_tparams_model(
    s: SpecSubst,
    loc: Loc,
    case: TVarCase,
    tcs: Seq<(Loc, AbilitySet)>,
)
    ensures
        ({
            let r = spec_make_tparams(s, loc, case, tcs);
            let n = tcs.len();
            let step: int = if case is Macro {
                1
            } else {
                2
            };
            &&& r.0.tvars.len() == s.tvars.len() + n
            &&& forall|j: int| 0 <= j < s.tvars.len() ==> r.0.tvars[j] == s.tvars[j]
            &&& forall|i: int|
                0 <= i < n ==> #[trigger] r.0.tvars[s.tvars.len() + i]
                    == crate::subst::spec_empty_entry()
            &&& r.0.ref_vars == s.ref_vars
            &&& r.2.len() == n
            &&& forall|i: int|
                0 <= i < n ==> r.2[i] == (SpecType {
                    loc: tcs[i].0,
                    value: SpecType_::Var((s.tvars.len() + i) as usize),
                })
            &&& r.1.len() == step * n
            &&& (case is Macro ==> forall|i: int|
                0 <= i < n ==> r.1[i] == (SpecConstraint::Ability {
                    loc,
                    msg: None,
                    ty: SpecType {
                        loc: tcs[i].0,
                        value: SpecType_::Var((s.tvars.len() + i) as usize),
                    },
                    constraints: tcs[i].1,
                }))
            &&& (!(case is Macro) ==> forall|i: int|
                0 <= i < n ==> r.1[2 * i] == (SpecConstraint::Ability {
                    loc,
                    msg: None,
                    ty: SpecType {
                        loc: tcs[i].0,
                        value: SpecType_::Var((s.tvars.len() + i) as usize),
                    },
                    constraints: tcs[i].1,
                }))
            &&& (case is Base ==> forall|i: int|
                0 <= i < n ==> r.1[2 * i + 1] == SpecConstraint::BaseType(
                    loc,
                    MSG_INVALID_TYPE_ARGUMENT,
                    SpecType {
                        loc: tcs[i].0,
                        value: SpecType_::Var((s.tvars.len() + i) as usize),
                    },
                ))
            &&& (case matches TVarCase::Single(m) ==> forall|i: int|
                0 <= i < n ==> r.1[2 * i + 1] == SpecConstraint::SingleType(
                    loc,
                    m,
                    SpecType {
                        loc: tcs[i].0,
                        value: SpecType_::Var((s.tvars.len() + i) as usize),
                    },
                ))
        }),
    decreases tcs,
{
    if tcs.len() != 0 {
        let v = s.tvars.len() as usize;
        let s1 = SpecSubst {
            tvars: s.tvars.push(crate::subst::spec_empty_entry()),
            ref_vars: s.ref_vars,
        };
        lemma_make_tparams_model(s1, loc, case, tcs.drop_first());
        let r = spec_make_tparams(s, loc, case, tcs);
        let rest = spec_make_tparams(s1, loc, case, tcs.drop_first());
        let n = tcs.len();
        let step: int = if case is Macro {
            1
        } else {
            2
        };
        assert forall|j: int| 0 <= j < s.tvars.len() implies r.0.tvars[j] == s.tvars[j] by {
            assert(rest.0.tvars[j] == s1.tvars[j]);
        }
        assert forall|i: int| 0 <= i < n implies #[trigger] r.0.tvars[s.tvars.len() + i]
            == crate::subst::spec_empty_entry() by {
            if i == 0 {
                assert(rest.0.tvars[s.tvars.len() as int] == s1.tvars[s.tvars.len() as int]);
            } else {
                assert(rest.0.tvars[s1.tvars.len() + (i - 1)]
                    == crate::subst::spec_empty_entry());
            }
        }
        assert forall|i: int| 0 <= i < n implies r.2[i] == (SpecType {
            loc: tcs[i].0,
            value: SpecType_::Var((s.tvars.len() + i) as usize),
        }) by {
            if i > 0 {
                assert(r.2[i] == rest.2[i - 1]);
                assert(tcs.drop_first()[i - 1] == tcs[i]);
            }
        }
        if case is Macro {
            assert forall|i: int| 0 <= i < n implies r.1[i] == (SpecConstraint::Ability {
                loc,
                msg: None,
                ty: SpecType {
                    loc: tcs[i].0,
                    value: SpecType_::Var((s.tvars.len() + i) as usize),
                },
                constraints: tcs[i].1,
            }) by {
                if i > 0 {
                    assert(r.1[i] == rest.1[i - 1]);
                    assert(tcs.drop_first()[i - 1] == tcs[i]);
                }
            }
        } else {
            assert forall|i: int| 0 <= i < n implies r.1[2 * i] == (SpecConstraint::Ability {
                loc,
                msg: None,
                ty: SpecType {
                    loc: tcs[i].0,
                    value: SpecType_::Var((s.tvars.len() + i) as usize),
                },
                constraints: tcs[i].1,
            }) by {
                if i > 0 {
                    assert(r.1[2 * i] == rest.1[2 * i - 2]);
                    assert(2 * i - 2 == 2 * (i - 1));
                    assert(tcs.drop_first()[i - 1] == tcs[i]);
                }
            }
        }
        if case is Base {
            assert forall|i: int| 0 <= i < n implies r.1[2 * i + 1]
                == SpecConstraint::BaseType(
                loc,
                MSG_INVALID_TYPE_ARGUMENT,
                SpecType {
                    loc: tcs[i].0,
                    value: SpecType_::Var((s.tvars.len() + i) as usize),
                },
            ) by {
                if i > 0 {
                    assert(r.1[2 * i + 1] == rest.1[2 * i - 1]);
                    assert(2 * i - 1 == 2 * (i - 1) + 1);
                    assert(tcs.drop_first()[i - 1] == tcs[i]);
                }
            }
        }
        match case {
            TVarCase::Single(m) => {
                assert forall|i: int| 0 <= i < n implies r.1[2 * i + 1]
                    == SpecConstraint::SingleType(
                    loc,
                    m,
                    SpecType {
                        loc: tcs[i].0,
                        value: SpecType_::Var((s.tvars.len() + i) as usize),
                    },
                ) by {
                    if i > 0 {
                        assert(r.1[2 * i + 1] == rest.1[2 * i - 1]);
                        assert(2 * i - 1 == 2 * (i - 1) + 1);
                        assert(tcs.drop_first()[i - 1] == tcs[i]);
                    }
                }
            },
            _ => {},
        }
    }
}

impl Context {
    /// A fresh inference variable at `loc`.
    pub fn make_tvar(&mut self, loc: Loc) -> (r: Type)
        ensures
            r@ == (SpecType {
                loc,
                value: SpecType_::Var(old(self).subst@.tvars.len() as usize),
            }),
            final(self).subst@.tvars =~= old(self).subst@.tvars.push(
                crate::subst::spec_empty_entry(),
            ),
            final(self).subst@.ref_vars == old(self).subst@.ref_vars,
            final(self).env == old(self).env,
            final(self).constraints == old(self).constraints,
            final(self).modules == old(self).modules,
            final(self).use_funs == old(self).use_funs,
            final(self).locals == old(self).locals,
            final(self).macro_expansion == old(self).macro_expansion,
            final(self).new_friends == old(self).new_friends,
            final(self).named_block_map == old(self).named_block_map,
    {
        let v = self.subst.new_var();
        Type { loc, value: Type_::Var(v) }
    }

    /// A fresh inference variable carrying the numeric marking at `loc`.
    pub fn make_num_tvar(&mut self, loc: Loc) -> (r: Type)
        ensures
            r@ == (SpecType {
                loc,
                value: SpecType_::Var(old(self).subst@.tvars.len() as usize),
            }),
            final(self).subst@.tvars =~= old(self).subst@.tvars.push(
                crate::subst::SpecVarEntry { binding: None, num_loc: Some(loc) },
            ),
            final(self).subst@.ref_vars == old(self).subst@.ref_vars,
            final(self).env == old(self).env,
            final(self).constraints == old(self).constraints,
            final(self).modules == old(self).modules,
            final(self).use_funs == old(self).use_funs,
            final(self).locals == old(self).locals,
            final(self).macro_expansion == old(self).macro_expansion,
            final(self).new_friends == old(self).new_friends,
            final(self).named_block_map == old(self).named_block_map,
    {
        let v = self.subst.new_num_var(loc);
        Type { loc, value: Type_::Var(v) }
    }
}

/// The store and result of wrapping a type into an unresolved reference.
pub open spec fn spec_make_autoref(s: SpecSubst, loc: Loc, t: SpecType, fuel: nat) -> (
    SpecSubst,
    RefVar,
    SpecType,
)
    decreases fuel,
{
    let rv = s.ref_vars.len() as usize;
    let s1 = SpecSubst { tvars: s.tvars, ref_vars: s.ref_vars.push(None) };
    match t.value {
        SpecType_::Ref(true, inner) => (
            s1.with_ref(rv, RefKind::MutRef),
            rv,
            SpecType { loc, value: SpecType_::AutoRef(rv, inner) },
        ),
        SpecType_::Ref(false, inner) => (
            s1.with_ref(rv, RefKind::ImmRef),
            rv,
            SpecType { loc, value: SpecType_::AutoRef(rv, inner) },
        ),
        SpecType_::Var(v) => {
            let last = s1.forward_tvar(v, s1.tvar_fuel());
            match s1.get(last) {
                Some(b) => if fuel == 0 {
                    (s1, rv, SpecType { loc, value: SpecType_::AutoRef(rv, Box::new(t)) })
                } else {
                    spec_make_autoref(s1, loc, b, (fuel - 1) as nat)
                },
                None => (s1, rv, SpecType { loc, value: SpecType_::AutoRef(rv, Box::new(t)) }),
            }
        },
        SpecType_::AutoRef(existing, _) => (s1, existing, t),
        _ => (s1, rv, SpecType { loc, value: SpecType_::AutoRef(rv, Box::new(t)) }),
    }
}

/// Wraps a type into an unresolved reference: an explicit reference resolves
/// the fresh reference variable at once, a bound inference variable is
/// chased first, and an already-unresolved reference is returned as it
/// stands.
pub fn make_autoref(context: &mut Context, loc: Loc, ty: Type) -> (r: (RefVar, Type))
    ensures
        ({
            let e = spec_make_autoref(
                old(context).subst@,
                loc,
                ty@,
                old(context).subst@.tvars.len(),
            );
            final(context).subst@ == e.0 && r.0 == e.1 && r.1@ == e.2
        }),
        final(context).env == old(context).env,
        final(context).constraints == old(context).constraints,
        final(context).modules == old(context).modules,
        final(context).use_funs == old(context).use_funs,
        final(context).locals == old(context).locals,
        final(context).macro_expansion == old(context).macro_expansion,
        final(context).new_friends == old(context).new_friends,
        final(context).named_block_map == old(context).named_block_map,
{
    let fuel = context.subst.num_tvars();
    make_autoref_impl(context, loc, ty, fuel)
}

/// Executable form of [`spec_make_autoref`].
fn make_autoref_impl(context: &mut Context, loc: Loc, ty: Type, fuel: usize) -> (r: (RefVar, Type))
    ensures
        ({
            let e = spec_make_autoref(old(context).subst@, loc, ty@, fuel as nat);
            final(context).subst@ == e.0 && r.0 == e.1 && r.1@ == e.2
        }),
        final(context).env == old(context).env,
        final(context).constraints == old(context).constraints,
        final(context).modules == old(context).modules,
        final(context).use_funs == old(context).use_funs,
        final(context).locals == old(context).locals,
        final(context).macro_expansion == old(context).macro_expansion,
        final(context).new_friends == old(context).new_friends,
        final(context).named_block_map == old(context).named_block_map,
    decreases fuel,
{
    let rv = context.subst.new_ref_var();
    match &ty.value {
        Type_::Ref(true, inner) => {
            context.subst.insert_ref_var(rv, RefKind::MutRef);
            let inner2 = inner.deep_clone();
            (rv, Type { loc, value: Type_::AutoRef(rv, Box::new(inner2)) })
        },
        Type_::Ref(false, inner) => {
            context.subst.insert_ref_var(rv, RefKind::ImmRef);
            let inner2 = inner.deep_clone();
            (rv, Type { loc, value: Type_::AutoRef(rv, Box::new(inner2)) })
        },
        Type_::Var(v) => {
            let last = context.subst.forward_tvar(*v);
            let bound = match context.subst.get(last) {
                Some(b) => Some(b.deep_clone()),
                None => None,
            };
            match bound {
                Some(b) => {
                    if fuel == 0 {
                        (rv, Type { loc, value: Type_::AutoRef(rv, Box::new(ty)) })
                    } else {
                        make_autoref_impl(context, loc, b, fuel - 1)
                    }
                },
                None => (rv, Type { loc, value: Type_::AutoRef(rv, Box::new(ty)) }),
            }
        },
        Type_::AutoRef(existing, _) => {
            let e = *existing;
            (e, ty)
        },
        _ => (rv, Type { loc, value: Type_::AutoRef(rv, Box::new(ty)) }),
    }
}

/// Fresh ability-constrained variables, one per declared parameter: each
/// gets an ability-set constraint, and, outside macros, the demand to be a
/// base type (or a single type inside expression lists).
fn make_tparams(
    context: &mut Context,
    loc: Loc,
    case: &TVarCase,
    tparam_constraints: &Vec<(Loc, AbilitySet)>,
) -> (r: Vec<Type>)
    ensures
        ({
            let n = tparam_constraints@.len();
            let base = old(context).subst@.tvars.len();
            let step: int = if case is Macro {
                1
            } else {
                2
            };
            &&& r@.len() == n
            &&& forall|i: int|
                0 <= i < n ==> view_type(r@[i]) == (SpecType {
                    loc: tparam_constraints@[i].0,
                    value: SpecType_::Var((base + i) as usize),
                })
            &&& final(context).subst@.tvars.len() == base + n
            &&& forall|j: int|
                0 <= j < base ==> final(context).subst@.tvars[j] == old(context).subst@.tvars[j]
            &&& forall|i: int|
                0 <= i < n ==> #[trigger] final(context).subst@.tvars[base + i]
                    == crate::subst::spec_empty_entry()
            &&& final(context).subst@.ref_vars == old(context).subst@.ref_vars
            &&& final(context).constraints@.len() == old(context).constraints@.len() + step * n
            &&& forall|j: int|
                0 <= j < old(context).constraints@.len() ==> final(context).constraints@[j] == old(
                    context,
                ).constraints@[j]
            &&& forall|i: int|
                0 <= i < n ==> final(context).constraints@[old(context).constraints@.len() + step
                    * i]@ == (SpecConstraint::Ability {
                    loc,
                    msg: None,
                    ty: SpecType {
                        loc: tparam_constraints@[i].0,
                        value: SpecType_::Var((base + i) as usize),
                    },
                    constraints: tparam_constraints@[i].1,
                })
            &&& (case matches TVarCase::Single(m) ==> forall|i: int|
                0 <= i < n ==> final(context).constraints@[old(context).constraints@.len() + step
                    * i + 1]@ == SpecConstraint::SingleType(
                    loc,
                    *m,
                    SpecType {
                        loc: tparam_constraints@[i].0,
                        value: SpecType_::Var((base + i) as usize),
                    },
                ))
            &&& (case is Base ==> forall|i: int|
                0 <= i < n ==> final(context).constraints@[old(context).constraints@.len() + step
                    * i + 1]@ == SpecConstraint::BaseType(
                    loc,
                    MSG_INVALID_TYPE_ARGUMENT,
                    SpecType {
                        loc: tparam_constraints@[i].0,
                        value: SpecType_::Var((base + i) as usize),
                    },
                ))
        }),
        ({
            let e = spec_make_tparams(old(context).subst@, loc, *case, tparam_constraints@);
            &&& final(context).subst@ == e.0
            &&& crate::context::view_constraints(final(context).constraints@)
                == crate::context::view_constraints(old(context).constraints@) + e.1
            &&& view_types(r@) == e.2
        }),
        final(context).env == old(context).env,
        final(context).modules == old(context).modules,
        final(context).use_funs == old(context).use_funs,
        final(context).locals == old(context).locals,
        final(context).macro_expansion == old(context).macro_expansion,
        final(context).new_friends == old(context).new_friends,
        final(context).named_block_map == old(context).named_block_map,
        final(context).current_module == old(context).current_module,
        final(context).current_function == old(context).current_function,
        final(context).current_package == old(context).current_package,
        final(context).macros == old(context).macros,
        final(context).max_variable_color == old(context).max_variable_color,
        final(context).in_macro_function == old(context).in_macro_function,
        final(context).return_type == old(context).return_type,
        final(context).used_module_members == old(context).used_module_members,
        final(context).lambda_expansion == old(context).lambda_expansion,
{
    let ghost base = context.subst@.tvars.len();
    let ghost cs0 = context.constraints@;
    let ghost step: int = if case is Macro {
        1
    } else {
        2
    };
    let n = tparam_constraints.len();
    let mut out: Vec<Type> = Vec::new();
    let mut i: usize = 0;
    while i < n
        invariant
            0 <= i <= n,
            n == tparam_constraints@.len(),
            out@.len() == i,
            step == (if case is Macro {
                1int
            } else {
                2int
            }),
            base == old(context).subst@.tvars.len(),
            cs0 == old(context).constraints@,
            context.subst@.tvars.len() == base + i,
            forall|j: int| 0 <= j < base ==> context.subst@.tvars[j] == old(context).subst@.tvars[j],
            forall|k: int|
                0 <= k < i ==> #[trigger] context.subst@.tvars[base + k]
                    == crate::subst::spec_empty_entry(),
            context.subst@.ref_vars == old(context).subst@.ref_vars,
            forall|k: int|
                0 <= k < i ==> view_type(out@[k]) == (SpecType {
                    loc: tparam_constraints@[k].0,
                    value: SpecType_::Var((base + k) as usize),
                }),
            context.constraints@.len() == cs0.len() + step * i,
            forall|j: int| 0 <= j < cs0.len() ==> context.constraints@[j] == cs0[j],
            forall|k: int|
                0 <= k < i ==> context.constraints@[cs0.len() + step * k]@
                    == (SpecConstraint::Ability {
                    loc,
                    msg: None,
                    ty: SpecType {
                        loc: tparam_constraints@[k].0,
                        value: SpecType_::Var((base + k) as usize),
                    },
                    constraints: tparam_constraints@[k].1,
                }),
            (case matches TVarCase::Single(m) ==> forall|k: int|
                0 <= k < i ==> context.constraints@[cs0.len() + step * k + 1]@
                    == SpecConstraint::SingleType(
                    loc,
                    *m,
                    SpecType {
                        loc: tparam_constraints@[k].0,
                        value: SpecType_::Var((base + k) as usize),
                    },
                )),
            (case is Base ==> forall|k: int|
                0 <= k < i ==> context.constraints@[cs0.len() + step * k + 1]@
                    == SpecConstraint::BaseType(
                    loc,
                    MSG_INVALID_TYPE_ARGUMENT,
                    SpecType {
                        loc: tparam_constraints@[k].0,
                        value: SpecType_::Var((base + k) as usize),
                    },
                )),
            context.env == old(context).env,
            context.modules == old(context).modules,
            context.use_funs == old(context).use_funs,
            context.locals == old(context).locals,
            context.macro_expansion == old(context).macro_expansion,
            context.new_friends == old(context).new_friends,
            context.named_block_map == old(context).named_block_map,
            context.current_module == old(context).current_module,
            context.current_function == old(context).current_function,
            context.current_package == old(context).current_package,
            context.macros == old(context).macros,
            context.max_variable_color == old(context).max_variable_color,
            context.in_macro_function == old(context).in_macro_function,
            context.return_type == old(context).return_type,
            context.used_module_members == old(context).used_module_members,
            context.lambda_expansion == old(context).lambda_expansion,
        decreases n - i,
    {
        let vloc = tparam_constraints[i].0;
        let constraint = tparam_constraints[i].1;
        let tvar = self_make_tvar(context, vloc);
        context.add_ability_set_constraint(loc, None, tvar.deep_clone(), constraint);
        match case {
            TVarCase::Single(m) => {
                context.add_single_type_constraint(loc, *m, tvar.deep_clone());
            },
            TVarCase::Base => {
                context.add_base_type_constraint(loc, MSG_INVALID_TYPE_ARGUMENT, tvar.deep_clone());
            },
            TVarCase::Macro => {},
        }
        out.push(tvar);
        i = i + 1;
    }
    proof {
        lemma_make_tparams_model(old(context).subst@, loc, *case, tparam_constraints@);
        let e = spec_make_tparams(old(context).subst@, loc, *case, tparam_constraints@);
        let nn = tparam_constraints@.len() as int;
        assert forall|j: int| 0 <= j < context.subst@.tvars.len() implies context.subst@.tvars[j]
            == e.0.tvars[j] by {
            if j >= base {
                let k = j - base;
                assert(context.subst@.tvars[base + k] == crate::subst::spec_empty_entry());
                assert(e.0.tvars[base + k] == crate::subst::spec_empty_entry());
            }
        }
        assert(context.subst@.tvars =~= e.0.tvars);
        assert(context.subst@ =~= e.0);
        crate::ast::lemma_view_types_index(out@);
        assert(view_types(out@) =~= e.2);
        crate::context::lemma_view_constraints_index(context.constraints@);
        crate::context::lemma_view_constraints_index(cs0);
        assert forall|k: int|
            0 <= k < crate::context::view_constraints(context.constraints@).len() implies
            crate::context::view_constraints(context.constraints@)[k] == (
        crate::context::view_constraints(cs0) + e.1)[k] by {
            if k >= cs0.len() {
                let off = k - cs0.len();
                let idx = off / step;
                let rem = off % step;
                assert(off == step * idx + rem) by (nonlinear_arith)
                    requires
                        step == 1 || step == 2,
                        off >= 0,
                        idx == off / step,
                        rem == off % step,
                ;
                assert(0 <= idx < nn) by (nonlinear_arith)
                    requires
                        step == 1 || step == 2,
                        0 <= off < step * nn,
                        idx == off / step,
                        nn >= 0,
                ;
                let tci = tparam_constraints@[idx];
                assert(tci.0 == tparam_constraints@[idx].0);
                if rem == 0 {
                    if case is Macro {
                        assert(context.constraints@[cs0.len() + 1 * idx]@ == e.1[idx]);
                    } else {
                        assert(context.constraints@[cs0.len() + step * idx]@
                            == context.constraints@[cs0.len() + 2 * idx]@);
                        assert(context.constraints@[cs0.len() + 2 * idx]@ == e.1[2 * idx]);
                    }
                } else {
                    assert(rem == 1 && step == 2) by (nonlinear_arith)
                        requires
                            step == 1 || step == 2,
                            rem == off % step,
                            rem != 0,
                            off >= 0,
                    ;
                    assert(context.constraints@[cs0.len() + step * idx + 1]@
                        == context.constraints@[cs0.len() + 2 * idx + 1]@);
                    assert(context.constraints@[cs0.len() + 2 * idx + 1]@ == e.1[2 * idx + 1]);
                }
            }
        }
        assert(crate::context::view_constraints(context.constraints@)
            =~= crate::context::view_constraints(cs0) + e.1);
    }
    out
}

/// A fresh inference variable at `loc`, as a free function.
fn self_make_tvar(context: &mut Context, loc: Loc) -> (r: Type)
    ensures
        r@ == (SpecType { loc, value: SpecType_::Var(old(context).subst@.tvars.len() as usize) }),
        final(context).subst@.tvars =~= old(context).subst@.tvars.push(
            crate::subst::spec_empty_entry(),
        ),
        final(context).subst@.ref_vars == old(context).subst@.ref_vars,
        final(context).env == old(context).env,
        final(context).constraints == old(context).constraints,
        final(context).modules == old(context).modules,
        final(context).use_funs == old(context).use_funs,
        final(context).locals == old(context).locals,
        final(context).macro_expansion == old(context).macro_expansion,
        final(context).new_friends == old(context).new_friends,
        final(context).named_block_map == old(context).named_block_map,
        final(context).current_module == old(context).current_module,
        final(context).current_function == old(context).current_function,
        final(context).current_package == old(context).current_package,
        final(context).macros == old(context).macros,
        final(context).max_variable_color == old(context).max_variable_color,
        final(context).in_macro_function == old(context).in_macro_function,
        final(context).return_type == old(context).return_type,
        final(context).used_module_members == old(context).used_module_members,
        final(context).lambda_expansion == old(context).lambda_expansion,
{
    let v = context.subst.new_var();
    Type { loc, value: Type_::Var(v) }
}

/// How an instantiated type relates to its declared shape: positions, names
/// and arities survive; the unconstrained type becomes a fresh variable;
/// unresolved references (an internal fault here) become the poison type;
/// applied arguments are rebound through fresh variables.
pub open spec fn spec_inst_shape(a: SpecType, b: SpecType) -> bool
    decreases a,
{
    &&& b.loc == a.loc
    &&& match a.value {
        SpecType_::Unit => b.value is Unit,
        SpecType_::UnresolvedError => b.value is UnresolvedError,
        SpecType_::Anything => b.value is Var,
        SpecType_::Param(tp) => b.value == SpecType_::Param(tp),
        SpecType_::Var(v) => b.value == SpecType_::Var(v),
        SpecType_::AutoRef(_, _) => b.value is UnresolvedError,
        SpecType_::Ref(m, inner) => b.value matches SpecType_::Ref(m2, i2) && m2 == m
            && spec_inst_shape(*inner, *i2),
        SpecType_::Apply(k, n, _) => (b.value matches SpecType_::Apply(k2, n2, _) && k2 == k
            && n2 == n) || b.value is UnresolvedError,
        SpecType_::Fun(args, ret) => b.value matches SpecType_::Fun(args2, ret2) && args2.len()
            == args.len() && spec_inst_shape(*ret, *ret2),
    }
}

/// The sink grew only by internal-fault reports: instantiation emits no user
/// diagnostics of its own.
pub open spec fn sink_grew_internal(old_sink: Seq<Diagnostic>, new_sink: Seq<Diagnostic>) -> bool {
    &&& new_sink.len() >= old_sink.len()
    &&& new_sink.subrange(0, old_sink.len() as int) == old_sink
    &&& forall|j: int|
        old_sink.len() <= j < new_sink.len() ==> (#[trigger] new_sink[j]).code
            == Code::InternalError
}

/// Nothing grew: the unchanged sink satisfies [`sink_grew_internal`].
pub proof fn lemma_sink_grew_refl(s: Seq<Diagnostic>)
    ensures
        sink_grew_internal(s, s),
{
    assert(s.subrange(0, s.len() as int) =~= s);
}

/// Two internal-only growths compose.
pub proof fn lemma_sink_grew_trans(a: Seq<Diagnostic>, b: Seq<Diagnostic>, c: Seq<Diagnostic>)
    requires
        sink_grew_internal(a, b),
        sink_grew_internal(b, c),
    ensures
        sink_grew_internal(a, c),
{
    assert(c.subrange(0, a.len() as int) =~= b.subrange(0, a.len() as int)) by {
        assert forall|j: int| 0 <= j < a.len() implies c.subrange(0, a.len() as int)[j]
            == b.subrange(0, a.len() as int)[j] by {
            assert(c[j] == c.subrange(0, b.len() as int)[j]);
            assert(c.subrange(0, b.len() as int) == b);
        }
    }
    assert forall|j: int| a.len() <= j < c.len() implies (#[trigger] c[j]).code
        == Code::InternalError by {
        if j < b.len() {
            assert(c[j] == c.subrange(0, b.len() as int)[j]);
            assert(c.subrange(0, b.len() as int) == b);
        }
    }
}

/// The constraint queue only grew: nothing recorded is dropped or changed.
pub open spec fn constraints_grew(old_cs: Seq<Constraint>, new_cs: Seq<Constraint>) -> bool {
    &&& new_cs.len() >= old_cs.len()
    &&& forall|j: int| 0 <= j < old_cs.len() ==> new_cs[j] == old_cs[j]
}

/// The frame every instantiation step preserves: everything but the store,
/// the constraint queue and the sink.
pub open spec fn inst_frame(old_c: &Context, new_c: &Context) -> bool {
    &&& new_c.env.testing == old_c.env.testing
    &&& new_c.env.primitive_definers == old_c.env.primitive_definers
    &&& new_c.modules == old_c.modules
    &&& new_c.use_funs == old_c.use_funs
    &&& new_c.locals == old_c.locals
    &&& new_c.macro_expansion == old_c.macro_expansion
    &&& new_c.new_friends == old_c.new_friends
    &&& new_c.named_block_map == old_c.named_block_map
    &&& new_c.current_module == old_c.current_module
    &&& new_c.current_function == old_c.current_function
    &&& new_c.current_package == old_c.current_package
    &&& new_c.macros == old_c.macros
    &&& new_c.max_variable_color == old_c.max_variable_color
    &&& new_c.in_macro_function == old_c.in_macro_function
    &&& new_c.return_type == old_c.return_type
    &&& new_c.used_module_members == old_c.used_module_members
    &&& new_c.lambda_expansion == old_c.lambda_expansion
}

/// The full effect of one instantiation step: the store it leaves behind,
/// the constraints and diagnostics it appends (in order), and the type it
/// returns.
#[verifier::ext_equal]
pub struct InstEffect {
    pub s: SpecSubst,
    pub cs: Seq<SpecConstraint>,
    pub ds: Seq<SpecDiagnostic>,
    pub t: SpecType,
}

/// The full effect of instantiating a list of types.
#[verifier::ext_equal]
pub struct InstListEffect {
    pub s: SpecSubst,
    pub cs: Seq<SpecConstraint>,
    pub ds: Seq<SpecDiagnostic>,
    pub ts: Seq<SpecType>,
}

/// The model of [`instantiate`]: the unconstrained type becomes a fresh
/// variable; a reference obliges its inner type to be a base type before
/// instantiating it; applied names go through
/// [`spec_instantiate_apply`]; unresolved references (an internal fault
/// here) become the poison type.
pub open spec fn spec_instantiate(
    modules: Seq<(ModuleIdent_, crate::info::ModuleInfo)>,
    s: SpecSubst,
    t: SpecType,
) -> InstEffect
    decreases t, 3int,
{
    match t.value {
        SpecType_::Unit | SpecType_::UnresolvedError | SpecType_::Param(_) | SpecType_::Var(_) => {
            InstEffect {
                s,
                cs: Seq::<SpecConstraint>::empty(),
                ds: Seq::<SpecDiagnostic>::empty(),
                t,
            }
        },
        SpecType_::Anything => InstEffect {
            s: SpecSubst {
                tvars: s.tvars.push(crate::subst::spec_empty_entry()),
                ref_vars: s.ref_vars,
            },
            cs: Seq::<SpecConstraint>::empty(),
            ds: Seq::<SpecDiagnostic>::empty(),
            t: SpecType { loc: t.loc, value: SpecType_::Var(s.tvars.len() as usize) },
        },
        SpecType_::AutoRef(_, _) => InstEffect {
            s,
            cs: Seq::<SpecConstraint>::empty(),
            ds: Seq::<SpecDiagnostic>::empty(),
            t: spec_poison(t.loc),
        },
        SpecType_::Ref(m, inner) => {
            let c = SpecConstraint::BaseType(t.loc, MSG_INVALID_REFERENCE_TYPE, *inner);
            let e = spec_instantiate(modules, s, *inner);
            InstEffect {
                s: e.s,
                cs: seq![c] + e.cs,
                ds: e.ds,
                t: SpecType { loc: t.loc, value: SpecType_::Ref(m, Box::new(e.t)) },
            }
        },
        SpecType_::Apply(k, n, args) => spec_instantiate_apply(modules, s, t.loc, k, n, args),
        SpecType_::Fun(args, ret) => {
            let ea = spec_instantiate_list(modules, s, args);
            let er = spec_instantiate(modules, ea.s, *ret);
            InstEffect {
                s: er.s,
                cs: ea.cs + er.cs,
                ds: ea.ds + er.ds,
                t: SpecType { loc: t.loc, value: SpecType_::Fun(ea.ts, Box::new(er.t)) },
            }
        },
    }
}

/// [`spec_instantiate`] over each element, left to right.
pub open spec fn spec_instantiate_list(
    modules: Seq<(ModuleIdent_, crate::info::ModuleInfo)>,
    s: SpecSubst,
    ts: Seq<SpecType>,
) -> InstListEffect
    decreases ts, 0int,
{
    if ts.len() == 0 {
        InstListEffect {
            s,
            cs: Seq::<SpecConstraint>::empty(),
            ds: Seq::<SpecDiagnostic>::empty(),
            ts: Seq::<SpecType>::empty(),
        }
    } else {
        let e0 = spec_instantiate(modules, s, ts[0]);
        let rest = spec_instantiate_list(modules, e0.s, ts.drop_first());
        InstListEffect {
            s: rest.s,
            cs: e0.cs + rest.cs,
            ds: e0.ds + rest.ds,
            ts: seq![e0.t] + rest.ts,
        }
    }
}

/// The per-parameter ability sets an applied name declares, when the name
/// resolves: one unconstrained parameter for the vector builtin, one
/// unconstrained parameter per element of an expression list, the declared
/// sets of a struct.
pub open spec fn spec_apply_tparam_constraints(
    modules: Seq<(ModuleIdent_, crate::info::ModuleInfo)>,
    loc: Loc,
    n: TypeName,
) -> Option<Seq<(Loc, AbilitySet)>> {
    match n.value {
        TypeName_::Builtin(b) => Some(
            if b.value is Vector {
                seq![(b.loc, AbilitySet::spec_empty())]
            } else {
                Seq::<(Loc, AbilitySet)>::empty()
            },
        ),
        TypeName_::Multiple(len) => Some(
            Seq::new(len as nat, |i: int| (loc, AbilitySet::spec_empty())),
        ),
        TypeName_::ModuleType(mi, sn) => match crate::abilities::spec_struct_decl(
            modules,
            mi.value,
            sn.value,
        ) {
            Some(ij) => {
                let tps = modules[ij.0].1.structs@[ij.1].1.type_parameters@;
                Some(Seq::new(tps.len(), |i: int| (loc, tps[i].param.abilities)))
            },
            None => None,
        },
    }
}

/// The model of [`instantiate_apply`]: a missing struct is an internal
/// fault, reported and poisoned; otherwise the arguments go through
/// [`spec_instantiate_type_args`] and the name is reapplied.
pub open spec fn spec_instantiate_apply(
    modules: Seq<(ModuleIdent_, crate::info::ModuleInfo)>,
    s: SpecSubst,
    loc: Loc,
    k: Option<AbilitySet>,
    n: TypeName,
    args: Seq<SpecType>,
) -> InstEffect
    decreases args, 2int,
{
    match spec_apply_tparam_constraints(modules, loc, n) {
        None => {
            let d = match n.value {
                TypeName_::ModuleType(mi, sn) => spec_diag0(
                    Code::InternalError,
                    Label {
                        loc: n.loc,
                        note: Note::UnboundStruct {
                            address: mi.value.address,
                            module: mi.value.module,
                            name: sn.value,
                        },
                    },
                ),
                _ => spec_diag0(
                    Code::InternalError,
                    Label { loc: n.loc, note: Note::UseFunScopeMissing },
                ),
            };
            InstEffect {
                s,
                cs: Seq::<SpecConstraint>::empty(),
                ds: seq![d],
                t: spec_poison(loc),
            }
        },
        Some(tcs) => {
            let case = if n.value is Multiple {
                TVarCase::Single(MSG_INVALID_EXPR_LIST_TYPE_ARGUMENT)
            } else {
                TVarCase::Base
            };
            let e = spec_instantiate_type_args(modules, s, loc, case, args, tcs);
            InstEffect {
                s: e.s,
                cs: e.cs,
                ds: e.ds,
                t: SpecType { loc, value: SpecType_::Apply(k, n, e.ts) },
            }
        },
    }
}

/// The model of [`instantiate_type_args`]: fresh constrained variables are
/// made for the declared parameters, the written arguments are instantiated,
/// and each is bound to its variable by a join; a join that fails (an
/// internal fault — the variables are fresh) leaves the store as it was and
/// yields the poison type in that slot.
pub open spec fn spec_instantiate_type_args(
    modules: Seq<(ModuleIdent_, crate::info::ModuleInfo)>,
    s: SpecSubst,
    loc: Loc,
    case: TVarCase,
    args: Seq<SpecType>,
    tcs: Seq<(Loc, AbilitySet)>,
) -> InstListEffect
    decreases args, 1int,
{
    let m = if tcs.len() <= args.len() {
        tcs.len()
    } else {
        args.len()
    };
    let lcs = Seq::new(m, |i: int| (args[i].loc, tcs[i].1));
    let mk = spec_make_tparams(s, loc, case, lcs);
    let ea = spec_instantiate_list(modules, mk.0, args);
    let nb = if mk.2.len() <= ea.ts.len() {
        mk.2.len()
    } else {
        ea.ts.len()
    };
    let bound = spec_bind_args(ea.s, mk.2, ea.ts, loc, 0, nb);
    InstListEffect { s: bound.0, cs: mk.1 + ea.cs, ds: ea.ds, ts: bound.1 }
}

/// The fold binding fresh variables to instantiated arguments, pairwise
/// from index `j`.
pub open spec fn spec_bind_args(
    s: SpecSubst,
    tvs: Seq<SpecType>,
    args: Seq<SpecType>,
    loc: Loc,
    j: nat,
    n: nat,
) -> (SpecSubst, Seq<SpecType>)
    decreases n - j,
{
    if j >= n {
        (s, Seq::<SpecType>::empty())
    } else {
        match crate::join::spec_join(
            s,
            crate::join::TypingCase::Join,
            tvs[j as int],
            args[j as int],
            crate::join::spec_join_fuel(s, tvs[j as int], args[j as int]),
        ) {
            Ok(p) => {
                let rest = spec_bind_args(p.0, tvs, args, loc, j + 1, n);
                (rest.0, seq![p.1] + rest.1)
            },
            Err(_) => {
                let rest = spec_bind_args(s, tvs, args, loc, j + 1, n);
                (rest.0, seq![spec_poison(loc)] + rest.1)
            },
        }
    }
}

/// Whether a step took a context from `old_c` to `new_c` with exactly the
/// effect `e`, returning `r`.
pub open spec fn inst_effect_applied(old_c: &Context, new_c: &Context, e: InstEffect, r: Type) -> bool {
    &&& new_c.subst@ == e.s
    &&& crate::context::view_constraints(new_c.constraints@) == crate::context::view_constraints(
        old_c.constraints@,
    ) + e.cs
    &&& crate::diag::sink_extended_by(old_c.env.diags@, new_c.env.diags@, e.ds)
    &&& r@ == e.t
}

/// Whether a step took a context from `old_c` to `new_c` with exactly the
/// list effect `e`, returning types whose models are `rts`.
pub open spec fn inst_list_effect_applied(
    old_c: &Context,
    new_c: &Context,
    e: InstListEffect,
    rts: Seq<SpecType>,
) -> bool {
    &&& new_c.subst@ == e.s
    &&& crate::context::view_constraints(new_c.constraints@) == crate::context::view_constraints(
        old_c.constraints@,
    ) + e.cs
    &&& crate::diag::sink_extended_by(old_c.env.diags@, new_c.env.diags@, e.ds)
    &&& rts == e.ts
}

/// Instantiates a declared type for checking: the unconstrained type becomes
/// a fresh variable, reference inner types gain a base-type obligation, and
/// every applied name is instantiated with constrained fresh variables.
pub fn instantiate(context: &mut Context, ty: Type) -> (r: Type)
    ensures
        spec_inst_shape(ty@, r@),
        sink_grew_internal(old(context).env.diags@, final(context).env.diags@),
        constraints_grew(old(context).constraints@, final(context).constraints@),
        inst_frame(old(context), final(context)),
        inst_effect_applied(
            old(context),
            final(context),
            spec_instantiate(old(context).modules.modules@, old(context).subst@, ty@),
            r,
        ),
    decreases ty, 3int,
{
    proof {
        lemma_sink_grew_refl(old(context).env.diags@);
        crate::diag::lemma_sink_extended_by_empty(old(context).env.diags@);
        assert(crate::context::view_constraints(old(context).constraints@) + Seq::<
            SpecConstraint,
        >::empty() =~= crate::context::view_constraints(old(context).constraints@));
    }
    let loc = ty.loc;
    match ty.value {
        Type_::Unit => Type { loc, value: Type_::Unit },
        Type_::UnresolvedError => Type { loc, value: Type_::UnresolvedError },
        Type_::Anything => {
            let v = context.subst.new_var();
            proof {
                assert(context.subst@ =~= spec_instantiate(
                    old(context).modules.modules@,
                    old(context).subst@,
                    ty@,
                ).s);
            }
            Type { loc, value: Type_::Var(v) }
        },
        Type_::Param(tp) => Type { loc, value: Type_::Param(tp) },
        Type_::Var(v) => Type { loc, value: Type_::Var(v) },
        Type_::AutoRef(_, _) => poison_type(loc),
        Type_::Ref(mut_, b) => {
            let inner = *b;
            let ghost c_spec = SpecConstraint::BaseType(loc, MSG_INVALID_REFERENCE_TYPE, inner@);
            context.add_base_type_constraint(loc, MSG_INVALID_REFERENCE_TYPE, inner.deep_clone());
            proof {
                crate::context::lemma_view_constraints_push(
                    old(context).constraints@,
                    context.constraints@.last(),
                );
                assert(context.constraints@.drop_last() =~= old(context).constraints@);
                assert(context.constraints@ =~= old(context).constraints@.push(
                    context.constraints@.last(),
                ));
            }
            let ghost mid_c = *context;
            let r_inner = instantiate(context, inner);
            proof {
                let e_inner = spec_instantiate(
                    old(context).modules.modules@,
                    old(context).subst@,
                    inner@,
                );
                assert(crate::context::view_constraints(context.constraints@)
                    =~= crate::context::view_constraints(old(context).constraints@) + (seq![
                    c_spec,
                ] + e_inner.cs));
                assert(crate::diag::sink_extended_by(
                    old(context).env.diags@,
                    context.env.diags@,
                    e_inner.ds,
                ));
            }
            Type { loc, value: Type_::Ref(mut_, Box::new(r_inner)) }
        },
        Type_::Apply(abilities_opt, n, ty_args) => {
            let ghost gargs = ty_args@;
            let r = instantiate_apply(context, loc, abilities_opt, n, ty_args);
            proof {
                crate::ast::lemma_view_types_index(gargs);
            }
            r
        },
        Type_::Fun(args, result) => {
            let ghost sink0 = context.env.diags@;
            let ghost cs0 = context.constraints@;
            let ghost gargs = args@;
            let rs = instantiate_list(context, args);
            let ghost sink1 = context.env.diags@;
            let ghost mid_c = *context;
            let rr = instantiate(context, *result);
            proof {
                lemma_sink_grew_trans(sink0, sink1, context.env.diags@);
                crate::ast::lemma_view_types_index(gargs);
                crate::ast::lemma_view_types_index(rs@);
                let ea = spec_instantiate_list(
                    old(context).modules.modules@,
                    old(context).subst@,
                    view_types(gargs),
                );
                let er = spec_instantiate(old(context).modules.modules@, ea.s, result@);
                assert(crate::context::view_constraints(context.constraints@)
                    =~= crate::context::view_constraints(cs0) + (ea.cs + er.cs));
                crate::context::lemma_sink_extended_by_concat(
                    sink0,
                    sink1,
                    context.env.diags@,
                    ea.ds,
                    er.ds,
                );
            }
            Type { loc, value: Type_::Fun(rs, Box::new(rr)) }
        },
    }
}

/// [`instantiate`] over each element of a list, in order.
fn instantiate_list(context: &mut Context, ts: Vec<Type>) -> (r: Vec<Type>)
    ensures
        r@.len() == ts@.len(),
        sink_grew_internal(old(context).env.diags@, final(context).env.diags@),
        constraints_grew(old(context).constraints@, final(context).constraints@),
        inst_frame(old(context), final(context)),
        inst_list_effect_applied(
            old(context),
            final(context),
            spec_instantiate_list(
                old(context).modules.modules@,
                old(context).subst@,
                view_types(ts@),
            ),
            view_types(r@),
        ),
    decreases ts@, 0int,
{
    proof {
        lemma_sink_grew_refl(old(context).env.diags@);
        crate::diag::lemma_sink_extended_by_empty(old(context).env.diags@);
        crate::ast::lemma_view_types_index(ts@);
    }
    let mut ts = ts;
    if ts.len() == 0 {
        let out: Vec<Type> = Vec::new();
        proof {
            assert(view_types(ts@) =~= Seq::<SpecType>::empty());
            assert(view_types(out@) =~= Seq::<SpecType>::empty());
            assert(crate::context::view_constraints(old(context).constraints@) + Seq::<
                SpecConstraint,
            >::empty() =~= crate::context::view_constraints(old(context).constraints@));
        }
        return out;
    }
    let ghost orig = ts@;
    let first = ts.remove(0);
    proof {
        assert(ts@ =~= orig.drop_first());
        assert(first == orig[0]);
        assert(view_types(orig)[0] == view_type(orig[0]));
        assert(view_types(ts@) =~= view_types(orig).drop_first()) by {
            crate::ast::lemma_view_types_index(ts@);
            crate::ast::lemma_view_types_index(orig);
            assert forall|k: int| 0 <= k < ts@.len() implies view_types(ts@)[k] == view_types(
                orig,
            ).drop_first()[k] by {
                assert(ts@[k] == orig[k + 1]);
            }
        }
    }
    let ghost sink0 = context.env.diags@;
    let ghost cs_in = context.constraints@;
    let c = instantiate(context, first);
    let ghost sink1 = context.env.diags@;
    let rest = instantiate_list(context, ts);
    proof {
        lemma_sink_grew_trans(sink0, sink1, context.env.diags@);
    }
    let mut out = rest;
    out.insert(0, c);
    proof {
        let e0 = spec_instantiate(old(context).modules.modules@, old(context).subst@, first@);
        let erest = spec_instantiate_list(
            old(context).modules.modules@,
            e0.s,
            view_types(orig).drop_first(),
        );
        assert(crate::context::view_constraints(context.constraints@)
            =~= crate::context::view_constraints(cs_in) + (e0.cs + erest.cs));
        crate::context::lemma_sink_extended_by_concat(
            sink0,
            sink1,
            context.env.diags@,
            e0.ds,
            erest.ds,
        );
        assert(out@[0] == c);
        assert(out@.drop_first() =~= rest@);
        assert(view_types(out@) == seq![view_type(c)] + view_types(out@.drop_first()));
        assert(view_types(out@) =~= seq![e0.t] + erest.ts);
    }
    out
}

/// Instantiates an applied name: fresh constrained variables are made for
/// its declared parameters and the written arguments are bound to them.  A
/// struct name missing from the table is an internal fault: it is reported
/// and the poison type returned.
fn instantiate_apply(
    context: &mut Context,
    loc: Loc,
    abilities_opt: Option<AbilitySet>,
    n: TypeName,
    ty_args: Vec<Type>,
) -> (r: Type)
    ensures
        r@.loc == loc,
        (r@.value matches SpecType_::Apply(k2, n2, _) && k2 == abilities_opt && n2 == n)
            || r@.value is UnresolvedError,
        sink_grew_internal(old(context).env.diags@, final(context).env.diags@),
        constraints_grew(old(context).constraints@, final(context).constraints@),
        inst_frame(old(context), final(context)),
        inst_effect_applied(
            old(context),
            final(context),
            spec_instantiate_apply(
                old(context).modules.modules@,
                old(context).subst@,
                loc,
                abilities_opt,
                n,
                view_types(ty_args@),
            ),
            r,
        ),
    decreases ty_args@, 2int,
{
    proof {
        lemma_sink_grew_refl(old(context).env.diags@);
        crate::diag::lemma_sink_extended_by_empty(old(context).env.diags@);
        assert(crate::context::view_constraints(old(context).constraints@) + Seq::<
            SpecConstraint,
        >::empty() =~= crate::context::view_constraints(old(context).constraints@));
    }
    let tparam_constraints_opt: Option<Vec<(Loc, AbilitySet)>> = match &n.value {
        TypeName_::Builtin(b) => {
            let mut cs: Vec<(Loc, AbilitySet)> = Vec::new();
            if b.value.tparam_count() == 1 {
                cs.push((b.loc, AbilitySet::empty()));
                proof {
                    assert(cs@ =~= seq![(b.loc, AbilitySet::spec_empty())]);
                }
            } else {
                proof {
                    assert(cs@ =~= Seq::<(Loc, AbilitySet)>::empty());
                }
            }
            Some(cs)
        },
        TypeName_::Multiple(len) => {
            let mut cs: Vec<(Loc, AbilitySet)> = Vec::new();
            let mut i: usize = 0;
            while i < *len
                invariant
                    0 <= i <= *len,
                    cs@.len() == i,
                    forall|k: int| 0 <= k < i ==> cs@[k] == (loc, AbilitySet::spec_empty()),
                decreases *len - i,
            {
                cs.push((loc, AbilitySet::empty()));
                i = i + 1;
            }
            proof {
                assert(cs@ =~= Seq::new(
                    *len as nat,
                    |i: int| (loc, AbilitySet::spec_empty()),
                ));
            }
            Some(cs)
        },
        TypeName_::ModuleType(m, sname) => {
            let tps_opt = context.struct_tparams(m, sname);
            match tps_opt {
                Some(tps) => {
                    let mut cs: Vec<(Loc, AbilitySet)> = Vec::new();
                    let mut i: usize = 0;
                    while i < tps.len()
                        invariant
                            0 <= i <= tps@.len(),
                            cs@.len() == i,
                            forall|k: int|
                                0 <= k < i ==> cs@[k] == (loc, tps@[k].param.abilities),
                        decreases tps@.len() - i,
                    {
                        cs.push((loc, tps[i].param.abilities));
                        i = i + 1;
                    }
                    proof {
                        assert(cs@ =~= Seq::new(
                            tps@.len(),
                            |i: int| (loc, tps@[i].param.abilities),
                        ));
                    }
                    Some(cs)
                },
                None => None,
            }
        },
    };
    match tparam_constraints_opt {
        None => {
            let d = match &n.value {
                TypeName_::ModuleType(mi, sn) => Diagnostic {
                    code: Code::InternalError,
                    primary: Label {
                        loc: n.loc,
                        note: Note::UnboundStruct {
                            address: mi.value.address,
                            module: mi.value.module,
                            name: sn.value,
                        },
                    },
                    secondary: Vec::new(),
                },
                _ => Diagnostic {
                    code: Code::InternalError,
                    primary: Label { loc: n.loc, note: Note::UseFunScopeMissing },
                    secondary: Vec::new(),
                },
            };
            proof {
                assert(d.secondary@ =~= Seq::<Label>::empty());
            }
            context.env.add_diag(d);
            proof {
                assert(context.env.diags@.subrange(
                    0,
                    old(context).env.diags@.len() as int,
                ) =~= old(context).env.diags@);
            }
            poison_type(loc)
        },
        Some(tparam_constraints) => {
            let case = match &n.value {
                TypeName_::Multiple(_) => TVarCase::Single(MSG_INVALID_EXPR_LIST_TYPE_ARGUMENT),
                _ => TVarCase::Base,
            };
            proof {
                assert(tparam_constraints@ == spec_apply_tparam_constraints(
                    old(context).modules.modules@,
                    loc,
                    n,
                )->Some_0);
            }
            let tys = instantiate_type_args(context, loc, &case, ty_args, &tparam_constraints);
            Type { loc, value: Type_::Apply(abilities_opt, n, tys) }
        },
    }
}

/// Instantiates explicit type arguments: each is bound to a fresh
/// constrained variable, so that later variance choices cannot observe the
/// written argument directly.  The result follows the shorter of the two
/// lists.
fn instantiate_type_args(
    context: &mut Context,
    loc: Loc,
    case: &TVarCase,
    ty_args: Vec<Type>,
    constraints: &Vec<(Loc, AbilitySet)>,
) -> (r: Vec<Type>)
    ensures
        r@.len() == (if ty_args@.len() <= constraints@.len() {
            ty_args@.len()
        } else {
            constraints@.len()
        }),
        sink_grew_internal(old(context).env.diags@, final(context).env.diags@),
        constraints_grew(old(context).constraints@, final(context).constraints@),
        inst_frame(old(context), final(context)),
        inst_list_effect_applied(
            old(context),
            final(context),
            spec_instantiate_type_args(
                old(context).modules.modules@,
                old(context).subst@,
                loc,
                *case,
                view_types(ty_args@),
                constraints@,
            ),
            view_types(r@),
        ),
    decreases ty_args@, 1int,
{
    proof {
        lemma_sink_grew_refl(old(context).env.diags@);
        crate::ast::lemma_view_types_index(ty_args@);
    }
    let ghost nargs = ty_args@.len();
    let ghost gargs0 = ty_args@;
    let mut locs_constraints: Vec<(Loc, AbilitySet)> = Vec::new();
    let mut i: usize = 0;
    while i < constraints.len() && i < ty_args.len()
        invariant
            0 <= i <= constraints@.len(),
            i <= ty_args@.len(),
            locs_constraints@.len() == i,
            forall|k: int|
                0 <= k < i ==> locs_constraints@[k] == (ty_args@[k].loc, constraints@[k].1),
            *context == *old(context),
            ty_args@.len() == nargs,
            ty_args@ == gargs0,
        decreases constraints@.len() - i,
    {
        locs_constraints.push((ty_args[i].loc, constraints[i].1));
        i = i + 1;
    }
    let nc = if constraints.len() <= ty_args.len() {
        constraints.len()
    } else {
        ty_args.len()
    };
    let ghost m_spec: int = if constraints@.len() <= nargs {
        constraints@.len() as int
    } else {
        nargs as int
    };
    proof {
        assert(locs_constraints@.len() == nc);
        assert forall|k: int| 0 <= k < m_spec implies locs_constraints@[k] == (
        view_types(gargs0)[k].loc, constraints@[k].1) by {
            assert(view_types(gargs0)[k] == view_type(gargs0[k]));
        }
        assert(locs_constraints@ =~= Seq::new(
            m_spec as nat,
            |k: int| (view_types(gargs0)[k].loc, constraints@[k].1),
        ));
    }
    let ghost sink0 = context.env.diags@;
    let ghost cs0 = context.constraints@;
    let tvars = make_tparams(context, loc, case, &locs_constraints);
    proof {
        lemma_sink_grew_refl(sink0);
        assert(context.env.diags@ == sink0);
    }
    let ghost sink1 = context.env.diags@;
    let ghost mk = spec_make_tparams(old(context).subst@, loc, *case, locs_constraints@);
    let ty_args = instantiate_list(context, ty_args);
    proof {
        lemma_sink_grew_trans(sink0, sink1, context.env.diags@);
    }
    let ghost sink2 = context.env.diags@;
    let ghost cs2 = context.constraints@;
    let ghost ea = spec_instantiate_list(
        old(context).modules.modules@,
        mk.0,
        view_types(gargs0),
    );
    let ghost frame_mid: bool = inst_frame(old(context), context);
    proof {
        assert(context.subst@ == ea.s);
        assert(view_types(ty_args@) == ea.ts);
    }
    let mut res: Vec<Type> = Vec::new();
    let mut subst = Subst::empty();
    core::mem::swap(&mut subst, &mut context.subst);
    let n = if tvars.len() <= ty_args.len() {
        tvars.len()
    } else {
        ty_args.len()
    };
    let ghost target = spec_bind_args(
        ea.s,
        view_types(tvars@),
        ea.ts,
        loc,
        0,
        n as nat,
    );
    proof {
        crate::ast::lemma_view_types_index(tvars@);
        crate::ast::lemma_view_types_index(ty_args@);
        assert(view_types(Seq::<Type>::empty()) =~= Seq::<SpecType>::empty());
    }
    let mut j: usize = 0;
    while j < n
        invariant
            0 <= j <= n,
            n <= tvars@.len(),
            n <= ty_args@.len(),
            res@.len() == j,
            view_types(tvars@).len() == tvars@.len(),
            view_types(ty_args@).len() == ty_args@.len(),
            forall|k: int|
                0 <= k < tvars@.len() ==> view_types(tvars@)[k] == view_type(tvars@[k]),
            forall|k: int|
                0 <= k < ty_args@.len() ==> view_types(ty_args@)[k] == view_type(ty_args@[k]),
            view_types(ty_args@) == ea.ts,
            target == spec_bind_args(ea.s, view_types(tvars@), ea.ts, loc, 0, n as nat),
            target.0 == spec_bind_args(
                subst@,
                view_types(tvars@),
                ea.ts,
                loc,
                j as nat,
                n as nat,
            ).0,
            target.1 == view_types(res@) + spec_bind_args(
                subst@,
                view_types(tvars@),
                ea.ts,
                loc,
                j as nat,
                n as nat,
            ).1,
            context.env.diags@ == sink2,
            context.constraints@ == cs2,
            inst_frame(old(context), context) == frame_mid,
            frame_mid,
        decreases n - j,
    {
        let ghost pre = subst@;
        let ghost step = spec_bind_args(
            pre,
            view_types(tvars@),
            ea.ts,
            loc,
            j as nat,
            n as nat,
        );
        let copy = subst.duplicate();
        let outcome = crate::join::join(subst, &tvars[j], &ty_args[j]);
        let ghost res_before = res@;
        match outcome {
            Ok((s2, t)) => {
                proof {
                    crate::ast::lemma_view_types_push(res@, t);
                }
                subst = s2;
                res.push(t);
                proof {
                    let rest = spec_bind_args(
                        subst@,
                        view_types(tvars@),
                        ea.ts,
                        loc,
                        (j + 1) as nat,
                        n as nat,
                    );
                    assert(view_types(res@) =~= view_types(res_before).push(view_type(t)));
                    assert(view_types(res_before).push(view_type(t)) + rest.1 =~= view_types(
                        res_before,
                    ) + (seq![view_type(t)] + rest.1));
                }
            },
            Err(_) => {
                proof {
                    assert(copy@ == pre);
                }
                subst = copy;
                let p = poison_type(loc);
                proof {
                    crate::ast::lemma_view_types_push(res@, p);
                }
                res.push(p);
                proof {
                    let rest = spec_bind_args(
                        subst@,
                        view_types(tvars@),
                        ea.ts,
                        loc,
                        (j + 1) as nat,
                        n as nat,
                    );
                    assert(view_types(res@) =~= view_types(res_before).push(spec_poison(loc)));
                    assert(view_types(res_before).push(spec_poison(loc)) + rest.1 =~= view_types(
                        res_before,
                    ) + (seq![spec_poison(loc)] + rest.1));
                }
            },
        }
        j = j + 1;
    }
    core::mem::swap(&mut subst, &mut context.subst);
    proof {
        assert(view_types(res@) + Seq::<SpecType>::empty() =~= view_types(res@));
        let e = spec_instantiate_type_args(
            old(context).modules.modules@,
            old(context).subst@,
            loc,
            *case,
            view_types(gargs0),
            constraints@,
        );
        assert(crate::context::view_constraints(context.constraints@)
            =~= crate::context::view_constraints(old(context).constraints@) + (mk.1 + ea.cs));
        assert(view_types(res@) =~= e.ts);
    }
    res
}


/// The sink only grew: earlier diagnostics are kept in place.
pub open spec fn sink_grew(old_sink: Seq<Diagnostic>, new_sink: Seq<Diagnostic>) -> bool {
    &&& new_sink.len() >= old_sink.len()
    &&& new_sink.subrange(0, old_sink.len() as int) == old_sink
}

/// The substitution pairing declared parameters with instantiated arguments,
/// as a ghost association list.
pub open spec fn spec_pair_sub(tps: Seq<TParam>, args: Seq<Type>) -> Seq<(TParamID, Type)> {
    Seq::new(
        if tps.len() <= args.len() {
            tps.len()
        } else {
            args.len()
        },
        |i: int| (tps[i].id, args[i]),
    )
}

/// A struct type instantiated for construction or pattern use: without
/// explicit arguments every declared parameter becomes a fresh constrained
/// variable; with them, the list is arity-checked and bound.  A struct
/// missing from the table is an internal fault: it is reported, and the
/// poison type returned.
/// An explicit argument list normalized to the declared arity: truncated,
/// or padded with the poison type at `loc`.
pub open spec fn spec_arity_normalized(args: Seq<SpecType>, arity: nat, loc: Loc) -> Seq<SpecType> {
    Seq::new(
        arity,
        |i: int| if i < args.len() {
            args[i]
        } else {
            spec_poison(loc)
        },
    )
}

pub fn make_struct_type(
    context: &mut Context,
    loc: Loc,
    m: &ModuleIdent,
    n: &Name,
    ty_args_opt: Option<Vec<Type>>,
) -> (r: (Type, Vec<Type>))
    ensures
        sink_grew(old(context).env.diags@, final(context).env.diags@),
        constraints_grew(old(context).constraints@, final(context).constraints@),
        inst_frame(old(context), final(context)),
        ({
            match crate::context::spec_struct_of(old(context), m.value, n.value) {
                None => {
                    &&& r.0@ == spec_poison(loc)
                    &&& r.1@.len() == 0
                    &&& crate::diag::sink_extended(
                        old(context).env.diags@,
                        final(context).env.diags@,
                        spec_diag0(
                            Code::InternalError,
                            Label {
                                loc,
                                note: Note::UnboundStruct {
                                    address: m.value.address,
                                    module: m.value.module,
                                    name: n.value,
                                },
                            },
                        ),
                    )
                },
                Some(ij) => {
                    let tps = old(
                        context,
                    ).modules.modules@[ij.0].1.structs@[ij.1].1.type_parameters@;
                    let tcs = Seq::new(tps.len(), |i: int| (loc, tps[i].param.abilities));
                    let tn_spec = TypeName { loc, value: TypeName_::ModuleType(*m, *n) };
                    match ty_args_opt {
                        None => {
                            let e = spec_make_tparams(
                                old(context).subst@,
                                loc,
                                TVarCase::Base,
                                tcs,
                            );
                            &&& final(context).subst@ == e.0
                            &&& crate::context::view_constraints(final(context).constraints@)
                                == crate::context::view_constraints(old(context).constraints@)
                                + e.1
                            &&& final(context).env.diags@ == old(context).env.diags@
                            &&& view_types(r.1@) == e.2
                            &&& r.0@ == (SpecType {
                                loc,
                                value: SpecType_::Apply(None, tn_spec, e.2),
                            })
                        },
                        Some(args) => {
                            let normalized = spec_arity_normalized(
                                view_types(args@),
                                tps.len(),
                                loc,
                            );
                            let e = spec_instantiate_type_args(
                                old(context).modules.modules@,
                                old(context).subst@,
                                loc,
                                TVarCase::Base,
                                normalized,
                                tcs,
                            );
                            &&& final(context).subst@ == e.s
                            &&& crate::context::view_constraints(final(context).constraints@)
                                == crate::context::view_constraints(old(context).constraints@)
                                + e.cs
                            &&& (if args@.len() == tps.len() {
                                crate::diag::sink_extended_by(
                                    old(context).env.diags@,
                                    final(context).env.diags@,
                                    e.ds,
                                )
                            } else {
                                crate::diag::sink_extended_by(
                                    old(context).env.diags@,
                                    final(context).env.diags@,
                                    seq![
                                        spec_diag0(
                                            if args@.len() < tps.len() {
                                                Code::TooFewTypeArguments
                                            } else {
                                                Code::TooManyTypeArguments
                                            },
                                            Label {
                                                loc,
                                                note: Note::TypeArgArityMismatch {
                                                    address: m.value.address,
                                                    module: m.value.module,
                                                    function: n.value,
                                                    expected: tps.len() as usize,
                                                    given: args@.len() as usize,
                                                },
                                            },
                                        ),
                                    ] + e.ds,
                                )
                            })
                            &&& view_types(r.1@) == e.ts
                            &&& r.0@ == (SpecType {
                                loc,
                                value: SpecType_::Apply(None, tn_spec, e.ts),
                            })
                        },
                    }
                },
            }
        }),
{
    proof {
        lemma_sink_grew_refl(old(context).env.diags@);
    }
    let tn = TypeName { loc, value: TypeName_::ModuleType(*m, *n) };
    let tps_opt: Option<Vec<(Loc, AbilitySet)>> = {
        match context.struct_tparams(m, n) {
            Some(tps) => {
                let mut cs: Vec<(Loc, AbilitySet)> = Vec::new();
                let mut i: usize = 0;
                while i < tps.len()
                    invariant
                        0 <= i <= tps@.len(),
                        cs@.len() == i,
                        forall|k: int| 0 <= k < i ==> cs@[k] == (loc, tps@[k].param.abilities),
                    decreases tps@.len() - i,
                {
                    cs.push((loc, tps[i].param.abilities));
                    i = i + 1;
                }
                proof {
                    assert(cs@ =~= Seq::new(
                        tps@.len(),
                        |k: int| (loc, tps@[k].param.abilities),
                    ));
                }
                Some(cs)
            },
            None => None,
        }
    };
    match tps_opt {
        None => {
            let d = Diagnostic {
                code: Code::InternalError,
                primary: Label {
                    loc,
                    note: Note::UnboundStruct {
                        address: m.value.address,
                        module: m.value.module,
                        name: n.value,
                    },
                },
                secondary: Vec::new(),
            };
            proof {
                assert(d.secondary@ =~= Seq::<Label>::empty());
            }
            context.env.add_diag(d);
            proof {
                assert(context.env.diags@.subrange(
                    0,
                    old(context).env.diags@.len() as int,
                ) =~= old(context).env.diags@);
            }
            (poison_type(loc), Vec::new())
        },
        Some(constraints) => match ty_args_opt {
            None => {
                let ty_args = make_tparams(context, loc, &TVarCase::Base, &constraints);
                let cloned = crate::ast::deep_clone_types(&ty_args);
                proof {
                    crate::ast::lemma_view_types_index(ty_args@);
                    crate::ast::lemma_view_types_index(cloned@);
                    assert(view_types(cloned@) =~= view_types(ty_args@));
                }
                (Type { loc, value: Type_::Apply(None, tn, cloned) }, ty_args)
            },
            Some(ty_args) => {
                let arity = constraints.len();
                let ghost gargs = ty_args@;
                let ghost sink0 = context.env.diags@;
                let checked = check_type_argument_arity(
                    context,
                    loc,
                    m.value,
                    n.value,
                    ty_args,
                    arity,
                );
                proof {
                    crate::ast::lemma_view_types_index(gargs);
                    crate::ast::lemma_view_types_index(checked@);
                    assert(view_types(checked@) =~= spec_arity_normalized(
                        view_types(gargs),
                        constraints@.len(),
                        loc,
                    ));
                    crate::diag::lemma_sink_extended_by_empty(sink0);
                    if gargs.len() != constraints@.len() {
                        assert(crate::diag::sink_extended_by(
                            sink0,
                            context.env.diags@,
                            Seq::<SpecDiagnostic>::empty().push(context.env.diags@.last()@),
                        ));
                    }
                }
                let ghost sink1 = context.env.diags@;
                let ghost mid_c = *context;
                let tys = instantiate_type_args(
                    context,
                    loc,
                    &TVarCase::Base,
                    checked,
                    &constraints,
                );
                proof {
                    let e = spec_instantiate_type_args(
                        old(context).modules.modules@,
                        old(context).subst@,
                        loc,
                        TVarCase::Base,
                        view_types(checked@),
                        constraints@,
                    );
                    crate::context::lemma_sink_extended_by_concat(
                        sink0,
                        sink1,
                        context.env.diags@,
                        if gargs.len() == constraints@.len() {
                            Seq::<SpecDiagnostic>::empty()
                        } else {
                            Seq::<SpecDiagnostic>::empty().push(sink1.last()@)
                        },
                        e.ds,
                    );
                    if gargs.len() == constraints@.len() {
                        assert(Seq::<SpecDiagnostic>::empty() + e.ds =~= e.ds);
                    } else {
                        assert(Seq::<SpecDiagnostic>::empty().push(sink1.last()@) + e.ds =~= seq![
                            sink1.last()@,
                        ] + e.ds);
                    }
                    crate::ast::lemma_view_types_index(tys@);
                }
                let cloned = crate::ast::deep_clone_types(&tys);
                proof {
                    crate::ast::lemma_view_types_index(cloned@);
                    assert(view_types(cloned@) =~= view_types(tys@));
                }
                (Type { loc, value: Type_::Apply(None, tn, cloned) }, tys)
            },
        },
    }
}

/// Fresh variables for the elements of an expression list, each obliged to
/// be a single type, positioned at each element.
pub fn make_expr_list_tvars(
    context: &mut Context,
    loc: Loc,
    constraint_msg: MsgToken,
    locs: &Vec<Loc>,
) -> (r: Vec<Type>)
    ensures
        r@.len() == locs@.len(),
        forall|i: int|
            0 <= i < locs@.len() ==> view_type(r@[i]) == (SpecType {
                loc: locs@[i],
                value: SpecType_::Var((old(context).subst@.tvars.len() + i) as usize),
            }),
        final(context).env.diags@ == old(context).env.diags@,
        constraints_grew(old(context).constraints@, final(context).constraints@),
        inst_frame(old(context), final(context)),
        ({
            let tcs = Seq::new(locs@.len(), |i: int| (locs@[i], AbilitySet::spec_empty()));
            let e = spec_make_tparams(
                old(context).subst@,
                loc,
                TVarCase::Single(constraint_msg),
                tcs,
            );
            &&& final(context).subst@ == e.0
            &&& crate::context::view_constraints(final(context).constraints@)
                == crate::context::view_constraints(old(context).constraints@) + e.1
            &&& view_types(r@) == e.2
        }),
{
    let mut constraints: Vec<(Loc, AbilitySet)> = Vec::new();
    let mut i: usize = 0;
    while i < locs.len()
        invariant
            0 <= i <= locs@.len(),
            constraints@.len() == i,
            forall|k: int|
                0 <= k < i ==> constraints@[k] == (locs@[k], AbilitySet::spec_empty()),
            *context == *old(context),
        decreases locs@.len() - i,
    {
        constraints.push((locs[i], AbilitySet::empty()));
        i = i + 1;
    }
    proof {
        assert(constraints@ =~= Seq::new(
            locs@.len(),
            |k: int| (locs@[k], AbilitySet::spec_empty()),
        ));
    }
    make_tparams(context, loc, &TVarCase::Single(constraint_msg), &constraints)
}

/// The declared fields of `m::n` instantiated at the given arguments: native
/// structs keep their marker, defined fields get each type substituted.  A
/// struct missing from the table is an internal fault: it is reported and an
/// empty field list returned.
#[verifier::loop_isolation(false)]
pub fn make_field_types(
    context: &mut Context,
    loc: Loc,
    m: &ModuleIdent,
    n: &Name,
    ty_args: Vec<Type>,
) -> (r: crate::info::StructFields)
    ensures
        final(context).constraints == old(context).constraints,
        final(context).subst == old(context).subst,
        inst_frame(old(context), final(context)),
        sink_grew(old(context).env.diags@, final(context).env.diags@),
        ({
            match crate::context::spec_struct_of(old(context), m.value, n.value) {
                None => r is Native,
                Some(ij) => {
                    let sdef = old(context).modules.modules@[ij.0].1.structs@[ij.1].1;
                    let subv = spec_pair_sub(spec_params_of(sdef.type_parameters@), ty_args@);
                    &&& final(context).env.diags@ == old(context).env.diags@
                    &&& match sdef.fields {
                        crate::info::StructFields::Native(nloc) => r
                            == crate::info::StructFields::Native(nloc),
                        crate::info::StructFields::Defined(fs) => {
                            &&& r matches crate::info::StructFields::Defined(out)
                            &&& out@.len() == fs@.len()
                            &&& forall|i: int|
                                0 <= i < fs@.len() ==> (#[trigger] out@[i]).0.value
                                    == fs@[i].0.value && out@[i].1 == fs@[i].1 && view_type(
                                    out@[i].2,
                                ) == spec_subst_tparams(subv, view_type(fs@[i].2))
                        },
                    }
                },
            }
        }),
{
    let tps: Vec<TParam> = match context.struct_tparams(m, n) {
        Some(stps) => {
            let mut out: Vec<TParam> = Vec::new();
            let mut i: usize = 0;
            while i < stps.len()
                invariant
                    0 <= i <= stps@.len(),
                    out@.len() == i,
                    forall|k: int| 0 <= k < i ==> out@[k] == stps@[k].param,
                decreases stps@.len() - i,
            {
                out.push(stps[i].param);
                i = i + 1;
            }
            out
        },
        None => {
            let d = Diagnostic {
                code: Code::InternalError,
                primary: Label {
                    loc,
                    note: Note::UnboundStruct {
                        address: m.value.address,
                        module: m.value.module,
                        name: n.value,
                    },
                },
                secondary: Vec::new(),
            };
            context.env.add_diag(d);
            proof {
                assert(context.env.diags@.subrange(
                    0,
                    old(context).env.diags@.len() as int,
                ) =~= old(context).env.diags@);
            }
            return crate::info::StructFields::Native(loc);
        },
    };
    proof {
        assert(context.env.diags@.subrange(0, old(context).env.diags@.len() as int) =~= old(
            context,
        ).env.diags@);
    }
    let ghost ty_args0 = ty_args@;
    let sub = make_tparam_subst(&tps, ty_args);
    proof {
        assert(sub@ =~= spec_pair_sub(tps@, ty_args0));
        let ij = crate::context::spec_struct_of(old(context), m.value, n.value)->Some_0;
        assert(tps@ =~= spec_params_of(
            old(context).modules.modules@[ij.0].1.structs@[ij.1].1.type_parameters@,
        ));
        assert(spec_pair_sub(tps@, ty_args0) =~= spec_pair_sub(
            spec_params_of(
                old(context).modules.modules@[ij.0].1.structs@[ij.1].1.type_parameters@,
            ),
            ty_args0,
        ));
    }
    let fields_kind: crate::info::StructFields = {
        match context.struct_definition(m, n) {
            Some(sdef) => match &sdef.fields {
                crate::info::StructFields::Native(nloc) => crate::info::StructFields::Native(*nloc),
                crate::info::StructFields::Defined(fs) => {
                    let mut out: Vec<(Name, usize, Type)> = Vec::new();
                    let mut i: usize = 0;
                    while i < fs.len()
                        invariant
                            0 <= i <= fs@.len(),
                            out@.len() == i,
                            sub@ == spec_pair_sub(tps@, ty_args0),
                            forall|k: int|
                                0 <= k < i ==> (#[trigger] out@[k]).0.value == fs@[k].0.value
                                    && out@[k].1 == fs@[k].1 && view_type(out@[k].2)
                                    == spec_subst_tparams(sub@, view_type(fs@[k].2)),
                        decreases fs@.len() - i,
                    {
                        let t2 = subst_tparams(&sub, &fs[i].2);
                        out.push((fs[i].0, fs[i].1, t2));
                        i = i + 1;
                    }
                    crate::info::StructFields::Defined(out)
                },
            },
            None => crate::info::StructFields::Native(loc),
        }
    };
    fields_kind
}

/// The declared parameters inside a struct's parameter list.
pub open spec fn spec_params_of(tps: Seq<crate::ast::StructTypeParameter>) -> Seq<TParam> {
    Seq::new(tps.len(), |i: int| tps[i].param)
}

/// The first field of a defined field list with the given name.
pub open spec fn spec_assoc_field(fs: Seq<(Name, usize, Type)>, k: Symbol) -> Option<int>
    decreases fs,
{
    if fs.len() == 0 {
        None
    } else if fs[0].0.value == k {
        Some(0)
    } else {
        match spec_assoc_field(fs.drop_first(), k) {
            Some(i) => Some(i + 1),
            None => None,
        }
    }
}

/// Two field lists with the same names in the same order resolve a name at
/// the same index.
pub proof fn lemma_assoc_field_congruent(
    fs1: Seq<(Name, usize, Type)>,
    fs2: Seq<(Name, usize, Type)>,
    k: Symbol,
)
    requires
        fs1.len() == fs2.len(),
        forall|i: int| 0 <= i < fs1.len() ==> (#[trigger] fs1[i]).0.value == fs2[i].0.value,
    ensures
        spec_assoc_field(fs1, k) == spec_assoc_field(fs2, k),
    decreases fs1,
{
    if fs1.len() != 0 {
        assert(fs1[0].0.value == fs2[0].0.value);
        lemma_assoc_field_congruent(fs1.drop_first(), fs2.drop_first(), k);
        assert forall|i: int| 0 <= i < fs1.drop_first().len() implies (#[trigger] fs1.drop_first()[i]).0.value
            == fs2.drop_first()[i].0.value by {
            assert(fs1.drop_first()[i] == fs1[i + 1]);
            assert(fs2.drop_first()[i] == fs2[i + 1]);
        }
    }
}

/// The instantiated type of one field of `m::n`: a native struct or an
/// unknown field is diagnosed and yields the poison type.
#[verifier::loop_isolation(false)]
pub fn make_field_type(
    context: &mut Context,
    loc: Loc,
    m: &ModuleIdent,
    n: &Name,
    ty_args: Vec<Type>,
    field: &Name,
) -> (r: Type)
    ensures
        final(context).constraints == old(context).constraints,
        final(context).subst == old(context).subst,
        inst_frame(old(context), final(context)),
        sink_grew(old(context).env.diags@, final(context).env.diags@),
        ({
            match crate::context::spec_struct_of(old(context), m.value, n.value) {
                None => r@ == spec_poison(loc),
                Some(ij) => {
                    let sdef = old(context).modules.modules@[ij.0].1.structs@[ij.1].1;
                    match sdef.fields {
                        crate::info::StructFields::Native(nloc) => {
                            &&& r@ == spec_poison(loc)
                            &&& crate::diag::sink_extended(
                                old(context).env.diags@,
                                final(context).env.diags@,
                                crate::diag::spec_diag1(
                                    Code::UnboundField,
                                    Label {
                                        loc,
                                        note: Note::UnboundFieldNote { field: field.value },
                                    },
                                    Label { loc: nloc, note: Note::NativeStructHere },
                                ),
                            )
                        },
                        crate::info::StructFields::Defined(fs) => match spec_assoc_field(
                            fs@,
                            field.value,
                        ) {
                            None => {
                                &&& r@ == spec_poison(loc)
                                &&& crate::diag::sink_extended(
                                    old(context).env.diags@,
                                    final(context).env.diags@,
                                    spec_diag0(
                                        Code::UnboundField,
                                        Label {
                                            loc,
                                            note: Note::UnboundFieldNote { field: field.value },
                                        },
                                    ),
                                )
                            },
                            Some(fi) => {
                                let subv = spec_pair_sub(
                                    spec_params_of(sdef.type_parameters@),
                                    ty_args@,
                                );
                                &&& r@ == spec_subst_tparams(subv, view_type(fs@[fi].2))
                                &&& final(context).env.diags@ == old(context).env.diags@
                            },
                        },
                    }
                },
            }
        }),
{
    let fields = make_field_types(context, loc, m, n, ty_args);
    match fields {
        crate::info::StructFields::Native(nloc) => {
            let present = match context.struct_definition(m, n) {
                Some(_) => true,
                None => false,
            };
            if !present {
                return poison_type(loc);
            }
            let mut secondary: Vec<Label> = Vec::new();
            secondary.push(Label { loc: nloc, note: Note::NativeStructHere });
            let d = Diagnostic {
                code: Code::UnboundField,
                primary: Label { loc, note: Note::UnboundFieldNote { field: field.value } },
                secondary,
            };
            proof {
                assert(d.secondary@ =~= seq![Label { loc: nloc, note: Note::NativeStructHere }]);
            }
            context.env.add_diag(d);
            proof {
                assert(context.env.diags@.subrange(
                    0,
                    old(context).env.diags@.len() as int,
                ) =~= old(context).env.diags@);
            }
            poison_type(loc)
        },
        crate::info::StructFields::Defined(fs) => {
            let ghost fsv = fs@;
            let mut i: usize = 0;
            proof {
                assert(fsv.skip(0) =~= fsv);
            }
            while i < fs.len()
                invariant
                    0 <= i <= fsv.len(),
                    fsv == fs@,
                    spec_assoc_field(fsv, field.value) == (match spec_assoc_field(
                        fsv.skip(i as int),
                        field.value,
                    ) {
                        Some(j) => Some(j + i),
                        None => None,
                    }),
                decreases fsv.len() - i,
            {
                proof {
                    assert(fsv.skip(i as int)[0] == fsv[i as int]);
                    assert(fsv.skip(i as int).drop_first() =~= fsv.skip(i + 1));
                }
                if fs[i].0.value == field.value {
                    proof {
                        let ij = crate::context::spec_struct_of(
                            old(context),
                            m.value,
                            n.value,
                        )->Some_0;
                        let sdef = old(context).modules.modules@[ij.0].1.structs@[ij.1].1;
                        assert(sdef.fields is Defined);
                        let table_fs = sdef.fields->Defined_0@;
                        lemma_assoc_field_congruent(table_fs, fsv, field.value);
                        assert(spec_assoc_field(fsv, field.value) == Some(i as int));
                    }
                    return fs[i].2.deep_clone();
                }
                i = i + 1;
            }
            proof {
                assert(fsv.skip(fsv.len() as int) =~= Seq::<(Name, usize, Type)>::empty());
                let ij0 = crate::context::spec_struct_of(old(context), m.value, n.value);
                if ij0 is Some {
                    let ij = ij0->Some_0;
                    let sdef = old(context).modules.modules@[ij.0].1.structs@[ij.1].1;
                    if sdef.fields is Defined {
                        lemma_assoc_field_congruent(sdef.fields->Defined_0@, fsv, field.value);
                    }
                }
            }
            let d = Diagnostic {
                code: Code::UnboundField,
                primary: Label { loc, note: Note::UnboundFieldNote { field: field.value } },
                secondary: Vec::new(),
            };
            proof {
                assert(d.secondary@ =~= Seq::<Label>::empty());
            }
            context.env.add_diag(d);
            proof {
                assert(context.env.diags@.subrange(
                    0,
                    old(context).env.diags@.len() as int,
                ) =~= old(context).env.diags@);
            }
            poison_type(loc)
        },
    }
}

/// The declared type of a constant: constants are internal to their module,
/// so access from elsewhere is diagnosed; the type is returned regardless.
/// A constant missing from the table is an internal fault: reported, poison.
pub fn make_constant_type(context: &mut Context, loc: Loc, m: &ModuleIdent, c: &Name) -> (r: Type)
    ensures
        final(context).constraints == old(context).constraints,
        final(context).subst == old(context).subst,
        inst_frame(old(context), final(context)),
        ({
            let in_current = old(context).current_module matches Some(cm) && cm.value == m.value;
            match crate::context::spec_constant_of(old(context), m.value, c.value) {
                None => r@ == spec_poison(loc) && crate::diag::sink_extended(
                    old(context).env.diags@,
                    final(context).env.diags@,
                    spec_diag0(
                        Code::InternalError,
                        Label {
                            loc,
                            note: Note::UnboundConstant {
                                address: m.value.address,
                                module: m.value.module,
                                name: c.value,
                            },
                        },
                    ),
                ),
                Some(ij) => {
                    let cinfo = old(context).modules.modules@[ij.0].1.constants@[ij.1].1;
                    &&& r@ == view_type(cinfo.signature)
                    &&& if in_current {
                        final(context).env.diags@ == old(context).env.diags@
                    } else {
                        crate::diag::sink_extended(
                            old(context).env.diags@,
                            final(context).env.diags@,
                            crate::diag::spec_diag1(
                                Code::Visibility,
                                Label {
                                    loc,
                                    note: Note::ConstantVisibility {
                                        address: m.value.address,
                                        module: m.value.module,
                                        constant: c.value,
                                    },
                                },
                                Label {
                                    loc: cinfo.defined_loc,
                                    note: Note::ConstantsAreInternal,
                                },
                            ),
                        )
                    }
                },
            }
        }),
{
    let in_current = match &context.current_module {
        Some(cm) => cm.value == m.value,
        None => false,
    };
    let found: Option<(Loc, Type)> = match context.constant_info(m, c) {
        Some(ci) => Some((ci.defined_loc, ci.signature.deep_clone())),
        None => None,
    };
    match found {
        None => {
            let d = Diagnostic {
                code: Code::InternalError,
                primary: Label {
                    loc,
                    note: Note::UnboundConstant {
                        address: m.value.address,
                        module: m.value.module,
                        name: c.value,
                    },
                },
                secondary: Vec::new(),
            };
            proof {
                assert(d.secondary@ =~= Seq::<Label>::empty());
            }
            context.env.add_diag(d);
            proof {
                assert(context.env.diags@.subrange(
                    0,
                    old(context).env.diags@.len() as int,
                ) =~= old(context).env.diags@);
            }
            poison_type(loc)
        },
        Some((defined_loc, signature)) => {
            if !in_current {
                let mut secondary: Vec<Label> = Vec::new();
                secondary.push(Label { loc: defined_loc, note: Note::ConstantsAreInternal });
                let d = Diagnostic {
                    code: Code::Visibility,
                    primary: Label {
                        loc,
                        note: Note::ConstantVisibility {
                            address: m.value.address,
                            module: m.value.module,
                            constant: c.value,
                        },
                    },
                    secondary,
                };
                proof {
                    assert(d.secondary@ =~= seq![
                        Label { loc: defined_loc, note: Note::ConstantsAreInternal },
                    ]);
                }
                context.env.add_diag(d);
                proof {
                    assert(context.env.diags@.subrange(
                        0,
                        old(context).env.diags@.len() as int,
                    ) =~= old(context).env.diags@);
                }
            }
            signature
        },
    }
}


/// Two substitutions with the same parameter ids and argument models
/// substitute identically.
pub proof fn lemma_subst_sub_congruent(
    sub1: Seq<(TParamID, Type)>,
    sub2: Seq<(TParamID, Type)>,
    t: SpecType,
)
    requires
        sub1.len() == sub2.len(),
        forall|i: int|
            0 <= i < sub1.len() ==> (#[trigger] sub1[i]).0 == sub2[i].0 && view_type(sub1[i].1)
                == view_type(sub2[i].1),
    ensures
        spec_subst_tparams(sub1, t) == spec_subst_tparams(sub2, t),
    decreases t,
{
    match t.value {
        SpecType_::Ref(_, inner) => {
            lemma_subst_sub_congruent(sub1, sub2, *inner);
        },
        SpecType_::Param(tp) => {
            lemma_assoc_tparam_congruent(sub1, sub2, tp.id);
        },
        SpecType_::Apply(_, _, args) => {
            lemma_subst_sub_congruent_seq(sub1, sub2, args);
        },
        SpecType_::Fun(args, ret) => {
            lemma_subst_sub_congruent_seq(sub1, sub2, args);
            lemma_subst_sub_congruent(sub1, sub2, *ret);
        },
        _ => {},
    }
}

/// [`lemma_subst_sub_congruent`] over each element.
pub proof fn lemma_subst_sub_congruent_seq(
    sub1: Seq<(TParamID, Type)>,
    sub2: Seq<(TParamID, Type)>,
    ts: Seq<SpecType>,
)
    requires
        sub1.len() == sub2.len(),
        forall|i: int|
            0 <= i < sub1.len() ==> (#[trigger] sub1[i]).0 == sub2[i].0 && view_type(sub1[i].1)
                == view_type(sub2[i].1),
    ensures
        spec_subst_tparams_seq(sub1, ts) == spec_subst_tparams_seq(sub2, ts),
    decreases ts,
{
    if ts.len() != 0 {
        lemma_subst_sub_congruent(sub1, sub2, ts[0]);
        lemma_subst_sub_congruent_seq(sub1, sub2, ts.drop_first());
    }
}

/// Substitutions with equal ids resolve a parameter at the same index.
pub proof fn lemma_assoc_tparam_congruent(
    sub1: Seq<(TParamID, Type)>,
    sub2: Seq<(TParamID, Type)>,
    id: TParamID,
)
    requires
        sub1.len() == sub2.len(),
        forall|i: int|
            0 <= i < sub1.len() ==> (#[trigger] sub1[i]).0 == sub2[i].0 && view_type(sub1[i].1)
                == view_type(sub2[i].1),
    ensures
        spec_assoc_tparam(sub1, id) == spec_assoc_tparam(sub2, id),
        spec_assoc_tparam(sub1, id) matches Some(i) ==> 0 <= i < sub1.len() && view_type(
            sub1[i].1,
        ) == view_type(sub2[i].1),
    decreases sub1,
{
    if sub1.len() != 0 {
        assert(sub1[0].0 == sub2[0].0);
        lemma_assoc_tparam_congruent(sub1.drop_first(), sub2.drop_first(), id);
        assert forall|i: int| 0 <= i < sub1.drop_first().len() implies (#[trigger] sub1.drop_first()[i]).0
            == sub2.drop_first()[i].0 && view_type(sub1.drop_first()[i].1) == view_type(
            sub2.drop_first()[i].1,
        ) by {
            assert(sub1.drop_first()[i] == sub1[i + 1]);
            assert(sub2.drop_first()[i] == sub2[i + 1]);
        }
    }
}

/// The visibility diagnostic, if any, that calling `m::f` from the current
/// context deserves: the testing carve-out admits entry functions in testing
/// contexts; internal functions admit only their own module; package
/// functions their own address and package; friend functions their declared
/// friends; public functions everybody.
pub open spec fn spec_visibility_diag(
    c: &Context,
    loc: Loc,
    m: ModuleIdent_,
    f: Symbol,
    vis: Visibility,
    pft: Option<PublicForTesting>,
) -> Option<SpecDiagnostic> {
    let in_cur = c.current_module matches Some(cm) && cm.value == m;
    let carve_out = crate::context::spec_is_testing_context(c) && pft is Some;
    if carve_out {
        None
    } else {
        match vis {
            Visibility::Internal => if in_cur {
                None
            } else {
                Some(
                    SpecDiagnostic {
                        code: Code::Visibility,
                        primary: Label {
                            loc,
                            note: Note::InvalidCallInternal {
                                address: m.address,
                                module: m.module,
                                function: f,
                            },
                        },
                        secondary: spec_vis_secondary(
                            c,
                            pft,
                            spec_decl_loc_of(c, m, f),
                            Note::InternalVisibilityNote,
                        ),
                    },
                )
            },
            Visibility::Package(vloc) => if in_cur
                || crate::context::spec_shares_package_and_address(c, m) {
                None
            } else {
                Some(
                    SpecDiagnostic {
                        code: Code::Visibility,
                        primary: Label {
                            loc,
                            note: Note::InvalidCallPackage {
                                address: m.address,
                                module: m.module,
                                function: f,
                            },
                        },
                        secondary: spec_vis_secondary(c, pft, vloc, Note::PackageVisibilityNote),
                    },
                )
            },
            Visibility::Friend(vloc) => if in_cur || crate::context::spec_is_friend_of(c, m) {
                None
            } else {
                Some(
                    SpecDiagnostic {
                        code: Code::Visibility,
                        primary: Label {
                            loc,
                            note: Note::InvalidCallFriend {
                                address: m.address,
                                module: m.module,
                                function: f,
                            },
                        },
                        secondary: spec_vis_secondary(c, pft, vloc, Note::FriendVisibilityNote),
                    },
                )
            },
            Visibility::Public(_) => None,
        }
    }
}

/// The secondary labels of a visibility diagnostic: the declaration of the
/// visibility, and, under the testing flag, how tests may reach an entry
/// callee.
pub open spec fn spec_vis_secondary(
    c: &Context,
    pft: Option<PublicForTesting>,
    vis_loc: Loc,
    vis_note: Note,
) -> Seq<Label> {
    if c.env.testing {
        match pft {
            Some(PublicForTesting::Entry(eloc)) => seq![
                Label { loc: vis_loc, note: vis_note },
                Label { loc: eloc, note: Note::EntryCallableInTests },
            ],
            None => seq![Label { loc: vis_loc, note: vis_note }],
        }
    } else {
        seq![Label { loc: vis_loc, note: vis_note }]
    }
}

/// The declaration position of `m::f` in the table, or `m`'s own position
/// when the table does not hold it.
pub open spec fn spec_decl_loc_of(c: &Context, m: ModuleIdent_, f: Symbol) -> Loc {
    match crate::context::spec_function_of(c, m, f) {
        Some(ij) => c.modules.modules@[ij.0].1.functions@[ij.1].1.defined_loc,
        None => loc_zero(),
    }
}

/// A placeholder position for recovery paths.
pub open spec fn loc_zero() -> Loc {
    Loc { file: 0, start: 0, end: 0 }
}

/// Whether the friend-edge accumulator must gain an edge for this call: a
/// package-visible callee reached from its own package but another module,
/// outside the testing carve-out.
pub open spec fn spec_friend_edge_due(
    c: &Context,
    m: ModuleIdent_,
    vis: Visibility,
    pft: Option<PublicForTesting>,
) -> Option<Loc> {
    let in_cur = c.current_module matches Some(cm) && cm.value == m;
    let carve_out = crate::context::spec_is_testing_context(c) && pft is Some;
    if carve_out {
        None
    } else {
        match vis {
            Visibility::Package(vloc) => if in_cur
                || crate::context::spec_shares_package_and_address(c, m) {
                Some(vloc)
            } else {
                None
            },
            _ => None,
        }
    }
}


/// Resolves a call of `m::f`: the declared signature is instantiated at the
/// given or at fresh type arguments, and the callee's visibility is checked
/// against the current module, package, friends and the testing carve-out.
/// A function missing from the table is an internal fault: reported, and an
/// empty resolution returned.
#[verifier::rlimit(100)]
#[verifier::spinoff_prover]
pub fn make_function_type(
    context: &mut Context,
    loc: Loc,
    m: &ModuleIdent,
    f: &Name,
    ty_args_opt: Option<Vec<Type>>,
) -> (r: ResolvedFunctionType)
    ensures
        final(context).use_funs == old(context).use_funs,
        final(context).locals == old(context).locals,
        final(context).macro_expansion == old(context).macro_expansion,
        final(context).modules == old(context).modules,
        final(context).current_module == old(context).current_module,
        final(context).current_function == old(context).current_function,
        final(context).env.testing == old(context).env.testing,
        sink_grew(old(context).env.diags@, final(context).env.diags@),
        spec_resolved_sig(old(context), m.value, f.value, loc, &r),
        ({
            match crate::context::spec_function_of(old(context), m.value, f.value) {
                None => {
                    &&& crate::diag::sink_extended(
                        old(context).env.diags@,
                        final(context).env.diags@,
                        spec_diag0(
                            Code::InternalError,
                            Label {
                                loc,
                                note: Note::UnboundFunction {
                                    address: m.value.address,
                                    module: m.value.module,
                                    name: f.value,
                                },
                            },
                        ),
                    )
                    &&& r.ty_args@.len() == 0
                    &&& r.params@.len() == 0
                    &&& r.return_@ == spec_poison(loc)
                    &&& final(context).new_friends == old(context).new_friends
                },
                Some(ij) => {
                    let fi = old(context).modules.modules@[ij.0].1.functions@[ij.1].1;
                    let pft: Option<PublicForTesting> = if old(context).env.testing {
                        match fi.entry {
                            Some(l) => Some(PublicForTesting::Entry(l)),
                            None => None,
                        }
                    } else {
                        None
                    };
                    let subv = spec_pair_sub(fi.signature.type_parameters@, r.ty_args@);
                    let tcs = Seq::new(
                        fi.signature.type_parameters@.len(),
                        |i: int| (loc, fi.signature.type_parameters@[i].abilities),
                    );
                    let vcase = if fi.macro_ is Some {
                        TVarCase::Macro
                    } else {
                        TVarCase::Base
                    };
                    let stage = (match ty_args_opt {
                        None => {
                            let e = spec_make_tparams(old(context).subst@, loc, vcase, tcs);
                            (e.0, e.1, Seq::<SpecDiagnostic>::empty(), e.2)
                        },
                        Some(args) => {
                            let normalized = spec_arity_normalized(
                                view_types(args@),
                                tcs.len(),
                                loc,
                            );
                            let e = spec_instantiate_type_args(
                                old(context).modules.modules@,
                                old(context).subst@,
                                loc,
                                vcase,
                                normalized,
                                tcs,
                            );
                            let arity_ds: Seq<SpecDiagnostic> = if args@.len() == tcs.len() {
                                Seq::<SpecDiagnostic>::empty()
                            } else {
                                seq![
                                    spec_diag0(
                                        if args@.len() < tcs.len() {
                                            Code::TooFewTypeArguments
                                        } else {
                                            Code::TooManyTypeArguments
                                        },
                                        Label {
                                            loc,
                                            note: Note::TypeArgArityMismatch {
                                                address: m.value.address,
                                                module: m.value.module,
                                                function: f.value,
                                                expected: tcs.len() as usize,
                                                given: args@.len() as usize,
                                            },
                                        },
                                    ),
                                ]
                            };
                            (e.s, e.cs, arity_ds + e.ds, e.ts)
                        },
                    });
                    &&& final(context).subst@ == stage.0
                    &&& crate::context::view_constraints(final(context).constraints@)
                        == crate::context::view_constraints(old(context).constraints@) + stage.1
                    &&& view_types(r.ty_args@) == stage.3
                    &&& (match spec_visibility_diag(
                        old(context),
                        loc,
                        m.value,
                        f.value,
                        fi.visibility,
                        pft,
                    ) {
                        None => crate::diag::sink_extended_by(
                            old(context).env.diags@,
                            final(context).env.diags@,
                            stage.2,
                        ),
                        Some(d) => crate::diag::sink_extended_by(
                            old(context).env.diags@,
                            final(context).env.diags@,
                            stage.2.push(d),
                        ),
                    })
                    &&& r.declared == fi.defined_loc
                    &&& r.macro_ == fi.macro_
                    &&& r.ty_args@.len() == fi.signature.type_parameters@.len()
                    &&& r.params@.len() == fi.signature.parameters@.len()
                    &&& forall|i: int|
                        0 <= i < fi.signature.parameters@.len() ==> (#[trigger] r.params@[i]).0.value
                            == fi.signature.parameters@[i].1.value && view_type(r.params@[i].1)
                            == spec_subst_tparams(
                            subv,
                            view_type(fi.signature.parameters@[i].2),
                        )
                    &&& r.return_@ == spec_subst_tparams(subv, view_type(fi.signature.return_type))
                    &&& (match spec_friend_edge_due(old(context), m.value, fi.visibility, pft) {
                        Some(vloc) => {
                            let cross = old(context).current_module matches Some(cm) && cm.value
                                != m.value;
                            if cross && !crate::context::spec_has_friend_edge(
                                old(context).new_friends@,
                                m.value,
                                vloc,
                            ) {
                                final(context).new_friends@ == old(context).new_friends@.push(
                                    (m.value, vloc),
                                )
                            } else {
                                final(context).new_friends == old(context).new_friends
                            }
                        },
                        None => final(context).new_friends == old(context).new_friends,
                    })
                },
            }
        }),
{
    let header: Option<(Loc, Visibility, Option<Loc>, Option<Loc>)> = match context.function_info(
        m,
        f,
    ) {
        Some(fi) => Some((fi.defined_loc, fi.visibility, fi.entry, fi.macro_)),
        None => None,
    };
    match header {
        None => {
            let d = Diagnostic {
                code: Code::InternalError,
                primary: Label {
                    loc,
                    note: Note::UnboundFunction {
                        address: m.value.address,
                        module: m.value.module,
                        name: f.value,
                    },
                },
                secondary: Vec::new(),
            };
            proof {
                assert(d.secondary@ =~= Seq::<Label>::empty());
            }
            context.env.add_diag(d);
            proof {
                assert(context.env.diags@.subrange(
                    0,
                    old(context).env.diags@.len() as int,
                ) =~= old(context).env.diags@);
            }
            ResolvedFunctionType {
                declared: loc,
                macro_: None,
                ty_args: Vec::new(),
                params: Vec::new(),
                return_: poison_type(loc),
            }
        },
        Some((defined_loc, visibility, entry, macro_)) => {
            let tparams: Vec<TParam> = match context.function_info(m, f) {
                Some(fi) => {
                    let mut out: Vec<TParam> = Vec::new();
                    let mut i: usize = 0;
                    while i < fi.signature.type_parameters.len()
                        invariant
                            0 <= i <= fi.signature.type_parameters@.len(),
                            out@.len() == i,
                            forall|k: int|
                                0 <= k < i ==> out@[k] == fi.signature.type_parameters@[k],
                        decreases fi.signature.type_parameters@.len() - i,
                    {
                        out.push(fi.signature.type_parameters[i]);
                        i = i + 1;
                    }
                    out
                },
                None => Vec::new(),
            };
            let mut constraints: Vec<(Loc, AbilitySet)> = Vec::new();
            let mut i: usize = 0;
            while i < tparams.len()
                invariant
                    0 <= i <= tparams@.len(),
                    constraints@.len() == i,
                    forall|k: int| 0 <= k < i ==> constraints@[k] == (loc, tparams@[k].abilities),
                    *context == *old(context),
                decreases tparams@.len() - i,
            {
                constraints.push((loc, tparams[i].abilities));
                i = i + 1;
            }
            proof {
                assert(constraints@ =~= Seq::new(
                    tparams@.len(),
                    |k: int| (loc, tparams@[k].abilities),
                ));
            }
            let is_macro = match macro_ {
                Some(_) => true,
                None => false,
            };
            let case = if is_macro {
                TVarCase::Macro
            } else {
                TVarCase::Base
            };
            let ghost sink0 = context.env.diags@;
            let ty_args: Vec<Type> = match ty_args_opt {
                None => {
                    let r = make_tparams(context, loc, &case, &constraints);
                    proof {
                        crate::diag::lemma_sink_extended_by_empty(sink0);
                        lemma_make_tparams_model(old(context).subst@, loc, case, constraints@);
                    }
                    r
                },
                Some(args) => {
                    let ghost gargs = args@;
                    let checked = check_type_argument_arity(
                        context,
                        loc,
                        m.value,
                        f.value,
                        args,
                        tparams.len(),
                    );
                    proof {
                        crate::ast::lemma_view_types_index(gargs);
                        crate::ast::lemma_view_types_index(checked@);
                        assert(view_types(checked@) =~= spec_arity_normalized(
                            view_types(gargs),
                            tparams@.len(),
                            loc,
                        ));
                        crate::diag::lemma_sink_extended_by_empty(sink0);
                        if gargs.len() != tparams@.len() {
                            assert(crate::diag::sink_extended_by(
                                sink0,
                                context.env.diags@,
                                Seq::<SpecDiagnostic>::empty().push(context.env.diags@.last()@),
                            ));
                        }
                    }
                    let ghost sink_a = context.env.diags@;
                    let r = instantiate_type_args(context, loc, &case, checked, &constraints);
                    proof {
                        let e = spec_instantiate_type_args(
                            old(context).modules.modules@,
                            old(context).subst@,
                            loc,
                            case,
                            view_types(checked@),
                            constraints@,
                        );
                        crate::context::lemma_sink_extended_by_concat(
                            sink0,
                            sink_a,
                            context.env.diags@,
                            if gargs.len() == tparams@.len() {
                                Seq::<SpecDiagnostic>::empty()
                            } else {
                                Seq::<SpecDiagnostic>::empty().push(sink_a.last()@)
                            },
                            e.ds,
                        );
                        if gargs.len() == tparams@.len() {
                            assert(Seq::<SpecDiagnostic>::empty() + e.ds =~= e.ds);
                        } else {
                            assert(Seq::<SpecDiagnostic>::empty().push(sink_a.last()@) + e.ds
                                =~= seq![sink_a.last()@] + e.ds);
                        }
                    }
                    r
                },
            };
            proof {
                assert(ty_args@.len() == tparams@.len());
            }
            let ty_args_ret = crate::ast::deep_clone_types(&ty_args);
            let ghost g_ty_args = ty_args@;
            let sub = make_tparam_subst(&tparams, ty_args);
            proof {
                crate::ast::lemma_view_types_index(g_ty_args);
                crate::ast::lemma_view_types_index(ty_args_ret@);
            }
            let decl: Option<(Vec<(crate::ast::Var, Type)>, Type)> = match context.function_info(m, f) {
                Some(fi) => {
                    let mut ps: Vec<(crate::ast::Var, Type)> = Vec::new();
                    let mut i: usize = 0;
                    while i < fi.signature.parameters.len()
                        invariant
                            0 <= i <= fi.signature.parameters@.len(),
                            ps@.len() == i,
                            forall|k: int|
                                0 <= k < i ==> (#[trigger] ps@[k]).0.value
                                    == fi.signature.parameters@[k].1.value && view_type(ps@[k].1)
                                    == view_type(fi.signature.parameters@[k].2),
                        decreases fi.signature.parameters@.len() - i,
                    {
                        ps.push((fi.signature.parameters[i].1, fi.signature.parameters[i].2.deep_clone()));
                        i = i + 1;
                    }
                    Some((ps, fi.signature.return_type.deep_clone()))
                },
                None => None,
            };
            let (decl_params, decl_ret) = match decl {
                Some(p) => p,
                None => (Vec::new(), poison_type(loc)),
            };
            let mut params: Vec<(crate::ast::Var, Type)> = Vec::new();
            let mut i: usize = 0;
            let ghost mid_state = *context;
            while i < decl_params.len()
                invariant
                    0 <= i <= decl_params@.len(),
                    params@.len() == i,
                    forall|k: int|
                        0 <= k < i ==> (#[trigger] params@[k]).0.value == decl_params@[k].0.value
                            && view_type(params@[k].1) == spec_subst_tparams(
                            sub@,
                            view_type(decl_params@[k].1),
                        ),
                    *context == mid_state,
                decreases decl_params@.len() - i,
            {
                let t2 = subst_tparams(&sub, &decl_params[i].1);
                params.push((decl_params[i].0, t2));
                i = i + 1;
            }
            let return_ty = subst_tparams(&sub, &decl_ret);
            let pft = public_testing_visibility(&context.env, context.current_package, f, entry);
            let is_testing_ctx = context.is_testing_context();
            let in_cur = context.is_current_module(m);
            let carve_out = is_testing_ctx && matches!(pft, Some(_));
            let ghost sink_pre_vis = context.env.diags@;
            if carve_out {
            } else {
                match visibility {
                    Visibility::Internal => {
                        if !in_cur {
                            let ghost pre = context.env.diags@;
                            visibility_error(
                                context,
                                pft,
                                loc,
                                Note::InvalidCallInternal {
                                    address: m.value.address,
                                    module: m.value.module,
                                    function: f.value,
                                },
                                defined_loc,
                                Note::InternalVisibilityNote,
                            );
                            proof {
                                assert(crate::diag::sink_extended(
                                    pre,
                                    context.env.diags@,
                                    SpecDiagnostic {
                                        code: Code::Visibility,
                                        primary: Label {
                                            loc,
                                            note: Note::InvalidCallInternal {
                                                address: m.value.address,
                                                module: m.value.module,
                                                function: f.value,
                                            },
                                        },
                                        secondary: (if old(context).env.testing {
                                            match pft {
                                                Some(PublicForTesting::Entry(eloc)) => seq![
                                                    Label {
                                                        loc: defined_loc,
                                                        note: Note::InternalVisibilityNote,
                                                    },
                                                    Label {
                                                        loc: eloc,
                                                        note: Note::EntryCallableInTests,
                                                    },
                                                ],
                                                None => seq![
                                                    Label {
                                                        loc: defined_loc,
                                                        note: Note::InternalVisibilityNote,
                                                    },
                                                ],
                                            }
                                        } else {
                                            seq![
                                                Label {
                                                    loc: defined_loc,
                                                    note: Note::InternalVisibilityNote,
                                                },
                                            ]
                                        }),
                                    },
                                ));
                            }
                        }
                    },
                    Visibility::Package(vloc) => {
                        let shares = context.current_module_shares_package_and_address(m);
                        if in_cur || shares {
                            context.record_current_module_as_friend(m, vloc);
                        } else {
                            let ghost pre = context.env.diags@;
                            visibility_error(
                                context,
                                pft,
                                loc,
                                Note::InvalidCallPackage {
                                    address: m.value.address,
                                    module: m.value.module,
                                    function: f.value,
                                },
                                vloc,
                                Note::PackageVisibilityNote,
                            );
                            proof {
                                assert(crate::diag::sink_extended(
                                    pre,
                                    context.env.diags@,
                                    SpecDiagnostic {
                                        code: Code::Visibility,
                                        primary: Label {
                                            loc,
                                            note: Note::InvalidCallPackage {
                                                address: m.value.address,
                                                module: m.value.module,
                                                function: f.value,
                                            },
                                        },
                                        secondary: (if old(context).env.testing {
                                            match pft {
                                                Some(PublicForTesting::Entry(eloc)) => seq![
                                                    Label {
                                                        loc: vloc,
                                                        note: Note::PackageVisibilityNote,
                                                    },
                                                    Label {
                                                        loc: eloc,
                                                        note: Note::EntryCallableInTests,
                                                    },
                                                ],
                                                None => seq![
                                                    Label {
                                                        loc: vloc,
                                                        note: Note::PackageVisibilityNote,
                                                    },
                                                ],
                                            }
                                        } else {
                                            seq![
                                                Label {
                                                    loc: vloc,
                                                    note: Note::PackageVisibilityNote,
                                                },
                                            ]
                                        }),
                                    },
                                ));
                            }
                        }
                    },
                    Visibility::Friend(vloc) => {
                        let is_friend = context.current_module_is_a_friend_of(m);
                        if in_cur || is_friend {
                        } else {
                            let ghost pre = context.env.diags@;
                            visibility_error(
                                context,
                                pft,
                                loc,
                                Note::InvalidCallFriend {
                                    address: m.value.address,
                                    module: m.value.module,
                                    function: f.value,
                                },
                                vloc,
                                Note::FriendVisibilityNote,
                            );
                            proof {
                                assert(crate::diag::sink_extended(
                                    pre,
                                    context.env.diags@,
                                    SpecDiagnostic {
                                        code: Code::Visibility,
                                        primary: Label {
                                            loc,
                                            note: Note::InvalidCallFriend {
                                                address: m.value.address,
                                                module: m.value.module,
                                                function: f.value,
                                            },
                                        },
                                        secondary: (if old(context).env.testing {
                                            match pft {
                                                Some(PublicForTesting::Entry(eloc)) => seq![
                                                    Label {
                                                        loc: vloc,
                                                        note: Note::FriendVisibilityNote,
                                                    },
                                                    Label {
                                                        loc: eloc,
                                                        note: Note::EntryCallableInTests,
                                                    },
                                                ],
                                                None => seq![
                                                    Label {
                                                        loc: vloc,
                                                        note: Note::FriendVisibilityNote,
                                                    },
                                                ],
                                            }
                                        } else {
                                            seq![
                                                Label {
                                                    loc: vloc,
                                                    note: Note::FriendVisibilityNote,
                                                },
                                            ]
                                        }),
                                    },
                                ));
                            }
                        }
                    },
                    Visibility::Public(_) => {},
                }
            }
            proof {
                let oldd = old(context).env.diags@;
                let pre_ds = crate::diag::sink_delta(oldd, sink_pre_vis);
                let ij = crate::context::spec_function_of(old(context), m.value, f.value)->Some_0;
                let fi = old(context).modules.modules@[ij.0].1.functions@[ij.1].1;
                assert(tparams@ =~= fi.signature.type_parameters@);
                assert(constraints@ =~= Seq::new(
                    fi.signature.type_parameters@.len(),
                    |i: int| (loc, fi.signature.type_parameters@[i].abilities),
                ));
                match spec_visibility_diag(
                    old(context),
                    loc,
                    m.value,
                    f.value,
                    visibility,
                    pft,
                ) {
                    None => {
                        assert(context.env.diags@ == sink_pre_vis);
                    },
                    Some(d) => {
                        assert(spec_decl_loc_of(old(context), m.value, f.value) == defined_loc);
                        assert(crate::diag::sink_extended(sink_pre_vis, context.env.diags@, d));
                        assert(crate::diag::sink_extended_by(oldd, sink_pre_vis, pre_ds));
                        crate::diag::lemma_sink_extend_step(
                            oldd,
                            sink_pre_vis,
                            context.env.diags@,
                            pre_ds,
                            d,
                        );
                    },
                }
                assert forall|k: int| 0 <= k < sub@.len() implies (#[trigger] sub@[k]).0
                    == spec_pair_sub(
                    old(context).modules.modules@[crate::context::spec_function_of(
                        old(context),
                        m.value,
                        f.value,
                    )->Some_0.0].1.functions@[crate::context::spec_function_of(
                        old(context),
                        m.value,
                        f.value,
                    )->Some_0.1].1.signature.type_parameters@,
                    ty_args_ret@,
                )[k].0 && view_type(sub@[k].1) == view_type(
                    spec_pair_sub(
                        old(context).modules.modules@[crate::context::spec_function_of(
                            old(context),
                            m.value,
                            f.value,
                        )->Some_0.0].1.functions@[crate::context::spec_function_of(
                            old(context),
                            m.value,
                            f.value,
                        )->Some_0.1].1.signature.type_parameters@,
                        ty_args_ret@,
                    )[k].1,
                ) by {
                    assert(sub@[k] == (tparams@[k].id, g_ty_args[k]));
                    assert(view_type(g_ty_args[k]) == view_types(g_ty_args)[k]);
                    assert(view_type(ty_args_ret@[k]) == view_types(ty_args_ret@)[k]);
                }
                lemma_subst_sub_congruent_all(
                    sub@,
                    spec_pair_sub(
                        old(context).modules.modules@[crate::context::spec_function_of(
                            old(context),
                            m.value,
                            f.value,
                        )->Some_0.0].1.functions@[crate::context::spec_function_of(
                            old(context),
                            m.value,
                            f.value,
                        )->Some_0.1].1.signature.type_parameters@,
                        ty_args_ret@,
                    ),
                    decl_params@,
                    decl_ret@,
                );
            }
            ResolvedFunctionType {
                declared: defined_loc,
                macro_,
                ty_args: ty_args_ret,
                params,
                return_: return_ty,
            }
        },
    }
}

/// [`lemma_subst_sub_congruent`] for a parameter list and a result type at
/// once.
pub proof fn lemma_subst_sub_congruent_all(
    sub1: Seq<(TParamID, Type)>,
    sub2: Seq<(TParamID, Type)>,
    params: Seq<(crate::ast::Var, Type)>,
    ret: SpecType,
)
    requires
        sub1.len() == sub2.len(),
        forall|i: int|
            0 <= i < sub1.len() ==> (#[trigger] sub1[i]).0 == sub2[i].0 && view_type(sub1[i].1)
                == view_type(sub2[i].1),
    ensures
        forall|i: int|
            0 <= i < params.len() ==> spec_subst_tparams(sub1, view_type(#[trigger] params[i].1))
                == spec_subst_tparams(sub2, view_type(params[i].1)),
        spec_subst_tparams(sub1, ret) == spec_subst_tparams(sub2, ret),
{
    lemma_subst_sub_congruent(sub1, sub2, ret);
    assert forall|i: int| 0 <= i < params.len() implies spec_subst_tparams(
        sub1,
        view_type(#[trigger] params[i].1),
    ) == spec_subst_tparams(sub2, view_type(params[i].1)) by {
        lemma_subst_sub_congruent(sub1, sub2, view_type(params[i].1));
    }
}


/// The relation between a resolved signature and the declared one: the
/// declaration data carried over, and parameters and result substituted at
/// the resolution's type arguments.  When the table lacks the function, the
/// recovery value.
pub open spec fn spec_resolved_sig(
    c: &Context,
    mv: ModuleIdent_,
    fv: Symbol,
    loc: Loc,
    r: &ResolvedFunctionType,
) -> bool {
    match crate::context::spec_function_of(c, mv, fv) {
        None => {
            &&& r.ty_args@.len() == 0
            &&& r.params@.len() == 0
            &&& r.return_@ == spec_poison(loc)
        },
        Some(ij) => {
            let fi = c.modules.modules@[ij.0].1.functions@[ij.1].1;
            let subv = spec_pair_sub(fi.signature.type_parameters@, r.ty_args@);
            &&& r.declared == fi.defined_loc
            &&& r.macro_ == fi.macro_
            &&& r.ty_args@.len() == fi.signature.type_parameters@.len()
            &&& r.params@.len() == fi.signature.parameters@.len()
            &&& forall|i: int|
                0 <= i < fi.signature.parameters@.len() ==> (#[trigger] r.params@[i]).0.value
                    == fi.signature.parameters@[i].1.value && view_type(r.params@[i].1)
                    == spec_subst_tparams(subv, view_type(fi.signature.parameters@[i].2))
            &&& r.return_@ == spec_subst_tparams(subv, view_type(fi.signature.return_type))
        },
    }
}

/// The one secondary label of a failed method lookup: a same-named function
/// of the defining module (blaming its first argument, or its taking none),
/// or the plain absence of a local binding.
pub open spec fn spec_no_method_secondary(c: &Context, tn: TypeName, method: Name) -> Label {
    let defining: Option<ModuleIdent> = match tn.value {
        TypeName_::Multiple(_) => None,
        TypeName_::Builtin(b) => crate::diag::spec_primitive_definer(
            c.env.primitive_definers@,
            b.value,
        ),
        TypeName_::ModuleType(dm, _) => Some(dm),
    };
    match defining {
        Some(dm) => match crate::context::spec_function_of(c, dm.value, method.value) {
            Some(ij) => {
                let fi = c.modules.modules@[ij.0].1.functions@[ij.1].1;
                if fi.signature.parameters@.len() > 0 {
                    Label {
                        loc: fi.signature.parameters@[0].2.loc,
                        note: Note::MethodFirstArgumentMismatch {
                            address: dm.value.address,
                            module: dm.value.module,
                            method: method.value,
                        },
                    }
                } else {
                    Label {
                        loc: fi.defined_loc,
                        note: Note::MethodTakesNoArguments {
                            address: dm.value.address,
                            module: dm.value.module,
                            method: method.value,
                        },
                    }
                }
            },
            None => Label {
                loc: method.loc,
                note: Note::NoUseFunWithDefiner {
                    address: dm.value.address,
                    module: dm.value.module,
                    method: method.value,
                },
            },
        },
        None => Label { loc: method.loc, note: Note::NoUseFunAlias { method: method.value } },
    }
}

/// Resolves `receiver.method(...)` syntax: the method-resolution scopes are
/// consulted (marking the binding used); a missing binding is diagnosed,
/// naming a same-named function of the defining module when one exists; a
/// found binding resolves through [`make_function_type`].
pub fn make_method_call_type(
    context: &mut Context,
    loc: Loc,
    tn: &TypeName,
    method: Name,
    ty_args_opt: Option<Vec<Type>>,
) -> (r: Option<(ModuleIdent, Name, ResolvedFunctionType)>)
    ensures
        sink_grew(old(context).env.diags@, final(context).env.diags@),
        final(context).locals == old(context).locals,
        final(context).macro_expansion == old(context).macro_expansion,
        final(context).modules == old(context).modules,
        final(context).current_module == old(context).current_module,
        final(context).current_function == old(context).current_function,
        ({
            let cur = crate::context::spec_current_call_color(old(context).use_funs@);
            match crate::context::spec_find_method(
                old(context).use_funs@,
                cur,
                tn.spec_key(),
                method.value,
            ) {
                None => {
                    &&& r is None
                    &&& final(context).use_funs == old(context).use_funs
                    &&& crate::diag::sink_extended(
                        old(context).env.diags@,
                        final(context).env.diags@,
                        crate::diag::spec_diag1(
                            Code::InvalidMethodCall,
                            Label { loc, note: Note::NoMethod { method: method.value } },
                            spec_no_method_secondary(old(context), *tn, method),
                        ),
                    )
                },
                Some(idx) => {
                    &&& crate::context::spec_scopes_marked_used(
                        old(context).use_funs@,
                        final(context).use_funs@,
                        idx.0,
                        idx.1,
                        idx.2,
                    )
                    &&& r matches Some(t) && t.0.value
                        == old(
                        context,
                    ).use_funs@[idx.0].use_funs@[idx.1].1@[idx.2].1.target_module.value && t.1.value
                        == old(
                        context,
                    ).use_funs@[idx.0].use_funs@[idx.1].1@[idx.2].1.target_function.value
                        && spec_resolved_sig(
                        old(context),
                        old(
                            context,
                        ).use_funs@[idx.0].use_funs@[idx.1].1@[idx.2].1.target_module.value,
                        old(
                            context,
                        ).use_funs@[idx.0].use_funs@[idx.1].1@[idx.2].1.target_function.value,
                        loc,
                        &t.2,
                    )
                },
            }
        }),
{
    let target = context.find_method_and_mark_used(tn, method);
    match target {
        None => {
            let defining: Option<ModuleIdent> = match &tn.value {
                TypeName_::Multiple(_) => None,
                TypeName_::Builtin(b) => context.env.primitive_definer(b.value),
                TypeName_::ModuleType(m, _) => Some(*m),
            };
            let finfo_first: Option<(ModuleIdent_, Loc, bool)> = match &defining {
                Some(dm) => {
                    let dm2 = *dm;
                    match context.function_info(&dm2, &method) {
                        Some(fi) => {
                            if fi.signature.parameters.len() > 0 {
                                Some((dm2.value, fi.signature.parameters[0].2.loc, true))
                            } else {
                                Some((dm2.value, fi.defined_loc, false))
                            }
                        },
                        None => None,
                    }
                },
                None => None,
            };
            let mut secondary: Vec<Label> = Vec::new();
            match finfo_first {
                Some((dmv, first_loc, has_arg)) => {
                    let note = if has_arg {
                        Note::MethodFirstArgumentMismatch {
                            address: dmv.address,
                            module: dmv.module,
                            method: method.value,
                        }
                    } else {
                        Note::MethodTakesNoArguments {
                            address: dmv.address,
                            module: dmv.module,
                            method: method.value,
                        }
                    };
                    secondary.push(Label { loc: first_loc, note });
                },
                None => {
                    let note = match &defining {
                        Some(dm) => Note::NoUseFunWithDefiner {
                            address: dm.value.address,
                            module: dm.value.module,
                            method: method.value,
                        },
                        None => Note::NoUseFunAlias { method: method.value },
                    };
                    secondary.push(Label { loc: method.loc, note });
                },
            }
            let d = Diagnostic {
                code: Code::InvalidMethodCall,
                primary: Label { loc, note: Note::NoMethod { method: method.value } },
                secondary,
            };
            proof {
                assert(d.secondary@ =~= seq![spec_no_method_secondary(old(context), *tn, method)]);
            }
            context.env.add_diag(d);
            proof {
                assert(context.env.diags@.subrange(
                    0,
                    old(context).env.diags@.len() as int,
                ) =~= old(context).env.diags@);
            }
            None
        },
        Some((target_m, target_f)) => {
            let ghost mid = *context;
            let ft = make_function_type(context, loc, &target_m, &target_f, ty_args_opt);
            proof {
                assert(context.env.diags@.subrange(
                    0,
                    old(context).env.diags@.len() as int,
                ) =~= mid.env.diags@.subrange(0, old(context).env.diags@.len() as int));
                assert(spec_resolved_sig(&mid, target_m.value, target_f.value, loc, &ft));
                assert(crate::context::spec_function_of(&mid, target_m.value, target_f.value)
                    == crate::context::spec_function_of(
                    old(context),
                    target_m.value,
                    target_f.value,
                ));
                assert(spec_resolved_sig(old(context), target_m.value, target_f.value, loc, &ft));
            }
            Some((target_m, target_f, ft))
        },
    }
}

} // verus!
