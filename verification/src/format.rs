//! Rendering of types for error messages: a small pretty-printer over the
//! store, resolving variables through their chains.  Interned symbols are
//! rendered as `#` followed by their id; the driver may substitute its own
//! spelling.  An outer rendering is quoted; an unbound numeric variable
//! renders as `integer` unquoted at the outside and `{integer}` inside.

use vstd::prelude::*;

use crate::ast::{
    BuiltinTypeName_, Loc, SpecType, SpecType_, Symbol, Type, TypeName, TypeName_, Type_,
};
use crate::subst::{spec_expansion_budget, SpecSubst, Subst, RefKind};
use vstd::string::StringExecFns;

verus! {

/// The decimal digits of `n`, most significant first.
pub open spec fn spec_digits(n: u64) -> Seq<char>
    decreases n,
{
    if n < 10 {
        seq![spec_digit(n)]
    } else {
        spec_digits(n / 10).push(spec_digit(n % 10))
    }
}

/// The character of one decimal digit.
pub open spec fn spec_digit(d: u64) -> char {
    if d == 0 {
        '0'
    } else if d == 1 {
        '1'
    } else if d == 2 {
        '2'
    } else if d == 3 {
        '3'
    } else if d == 4 {
        '4'
    } else if d == 5 {
        '5'
    } else if d == 6 {
        '6'
    } else if d == 7 {
        '7'
    } else if d == 8 {
        '8'
    } else {
        '9'
    }
}

/// An interned symbol's rendering: a `#` then its id.
pub open spec fn spec_symbol_chars(sym: Symbol) -> Seq<char> {
    seq!['#'] + spec_digits(sym)
}

/// A builtin type name's rendering.
pub open spec fn spec_builtin_chars(b: BuiltinTypeName_) -> Seq<char> {
    match b {
        BuiltinTypeName_::Address => seq!['a', 'd', 'd', 'r', 'e', 's', 's'],
        BuiltinTypeName_::Signer => seq!['s', 'i', 'g', 'n', 'e', 'r'],
        BuiltinTypeName_::U8 => seq!['u', '8'],
        BuiltinTypeName_::U16 => seq!['u', '1', '6'],
        BuiltinTypeName_::U32 => seq!['u', '3', '2'],
        BuiltinTypeName_::U64 => seq!['u', '6', '4'],
        BuiltinTypeName_::U128 => seq!['u', '1', '2', '8'],
        BuiltinTypeName_::U256 => seq!['u', '2', '5', '6'],
        BuiltinTypeName_::Bool => seq!['b', 'o', 'o', 'l'],
        BuiltinTypeName_::Vector => seq!['v', 'e', 'c', 't', 'o', 'r'],
    }
}

/// A named type's rendering: builtins by name, module types as
/// `address::#module::#struct`.
pub open spec fn spec_tn_chars(n: TypeName) -> Seq<char> {
    match n.value {
        TypeName_::Multiple(_) => Seq::<char>::empty(),
        TypeName_::Builtin(b) => spec_builtin_chars(b.value),
        TypeName_::ModuleType(m, s) => spec_digits(m.value.address) + seq![':', ':']
            + spec_symbol_chars(m.value.module) + seq![':', ':'] + spec_symbol_chars(s.value),
    }
}

/// Quotes at the outside, nothing inside.
pub open spec fn spec_wrap(nested: bool, x: Seq<char>) -> Seq<char> {
    if nested {
        x
    } else {
        seq!['\''] + x + seq!['\'']
    }
}

/// The rendering of a type under the store, within a step budget.
pub open spec fn spec_fmt(s: SpecSubst, t: SpecType, nested: bool, fuel: nat) -> Seq<char>
    decreases fuel, t, 1nat,
{
    match t.value {
        SpecType_::UnresolvedError | SpecType_::Anything => spec_wrap(nested, seq!['_']),
        SpecType_::Unit => spec_wrap(nested, seq!['(', ')']),
        SpecType_::Var(id) => {
            let last = s.forward_tvar(id, s.tvar_fuel());
            match s.get(last) {
                Some(inner) => spec_wrap(
                    nested,
                    if fuel == 0 {
                        seq!['_']
                    } else {
                        spec_fmt(s, inner, true, (fuel - 1) as nat)
                    },
                ),
                None => if s.is_num(last) {
                    if nested {
                        seq!['{', 'i', 'n', 't', 'e', 'g', 'e', 'r', '}']
                    } else {
                        seq!['i', 'n', 't', 'e', 'g', 'e', 'r']
                    }
                } else {
                    spec_wrap(nested, seq!['_'])
                },
            }
        },
        SpecType_::Apply(_, n, tys) => match n.value {
            TypeName_::Multiple(_) => spec_wrap(
                nested,
                seq!['('] + spec_fmt_list(s, tys, fuel) + seq![')'],
            ),
            _ => spec_wrap(
                nested,
                spec_tn_chars(n) + (if tys.len() == 0 {
                    Seq::<char>::empty()
                } else {
                    seq!['<'] + spec_fmt_list(s, tys, fuel) + seq!['>']
                }),
            ),
        },
        SpecType_::Fun(args, ret) => spec_wrap(
            nested,
            seq!['|'] + spec_fmt_list(s, args, fuel) + seq!['|', ' ', '-', '>', ' '] + spec_fmt(
                s,
                *ret,
                true,
                fuel,
            ),
        ),
        SpecType_::Param(tp) => spec_wrap(nested, spec_symbol_chars(tp.user_specified_name.value)),
        SpecType_::Ref(m, inner) => spec_wrap(
            nested,
            seq!['&'] + (if m {
                seq!['m', 'u', 't', ' ']
            } else {
                Seq::<char>::empty()
            }) + spec_fmt(s, *inner, true, fuel),
        ),
        SpecType_::AutoRef(rv, inner) => {
            let k = s.get_ref(s.forward_ref_var(rv, s.ref_fuel()));
            let prefix = match k {
                Some(RefKind::Value) => Seq::<char>::empty(),
                Some(RefKind::ImmRef) => seq!['&'],
                Some(RefKind::MutRef) => seq!['&', 'm', 'u', 't', ' '],
                Some(RefKind::Forward(_)) => seq!['a', 'u', 't', 'o', ' '],
                None => seq!['a', 'u', 't', 'o', ' '],
            };
            spec_wrap(nested, prefix + spec_fmt(s, *inner, true, fuel))
        },
    }
}

/// The comma-separated renderings of a list, all nested.
pub open spec fn spec_fmt_list(s: SpecSubst, ts: Seq<SpecType>, fuel: nat) -> Seq<char>
    decreases fuel, ts, 0nat,
{
    if ts.len() == 0 {
        Seq::<char>::empty()
    } else if ts.len() == 1 {
        spec_fmt(s, ts[0], true, fuel)
    } else {
        spec_fmt(s, ts[0], true, fuel) + seq![',', ' '] + spec_fmt_list(s, ts.drop_first(), fuel)
    }
}

/// Appends the decimal digits of `n`.
fn digits_push(n: u64, out: &mut String)
    ensures
        final(out)@ == old(out)@ + spec_digits(n),
    decreases n,
{
    if n >= 10 {
        digits_push(n / 10, out);
    }
    let d = n % 10;
    if d == 0 {
        out.append("0");
        proof {
            reveal_strlit("0");
            assert("0"@ =~= seq!['0']);
        }
    } else if d == 1 {
        out.append("1");
        proof {
            reveal_strlit("1");
            assert("1"@ =~= seq!['1']);
        }
    } else if d == 2 {
        out.append("2");
        proof {
            reveal_strlit("2");
            assert("2"@ =~= seq!['2']);
        }
    } else if d == 3 {
        out.append("3");
        proof {
            reveal_strlit("3");
            assert("3"@ =~= seq!['3']);
        }
    } else if d == 4 {
        out.append("4");
        proof {
            reveal_strlit("4");
            assert("4"@ =~= seq!['4']);
        }
    } else if d == 5 {
        out.append("5");
        proof {
            reveal_strlit("5");
            assert("5"@ =~= seq!['5']);
        }
    } else if d == 6 {
        out.append("6");
        proof {
            reveal_strlit("6");
            assert("6"@ =~= seq!['6']);
        }
    } else if d == 7 {
        out.append("7");
        proof {
            reveal_strlit("7");
            assert("7"@ =~= seq!['7']);
        }
    } else if d == 8 {
        out.append("8");
        proof {
            reveal_strlit("8");
            assert("8"@ =~= seq!['8']);
        }
    } else {
        out.append("9");
        proof {
            reveal_strlit("9");
            assert("9"@ =~= seq!['9']);
        }
    }
    proof {
        if n < 10 {
            assert(old(out)@ + spec_digits(n) =~= out@);
        } else {
            assert(old(out)@ + spec_digits(n) =~= out@);
        }
    }
}

/// Appends a symbol's rendering.
fn symbol_push(sym: Symbol, out: &mut String)
    ensures
        final(out)@ == old(out)@ + spec_symbol_chars(sym),
{
    out.append("#");
    proof {
        reveal_strlit("#");
        assert("#"@ =~= seq!['#']);
    }
    digits_push(sym, out);
    proof {
        assert(old(out)@ + spec_symbol_chars(sym) =~= out@);
    }
}

/// Appends a builtin name.
fn builtin_push(b: BuiltinTypeName_, out: &mut String)
    ensures
        final(out)@ == old(out)@ + spec_builtin_chars(b),
{
    match b {
        BuiltinTypeName_::Address => {
            out.append("address");
            proof {
                reveal_strlit("address");
                assert("address"@ =~= spec_builtin_chars(b));
            }
        },
        BuiltinTypeName_::Signer => {
            out.append("signer");
            proof {
                reveal_strlit("signer");
                assert("signer"@ =~= spec_builtin_chars(b));
            }
        },
        BuiltinTypeName_::U8 => {
            out.append("u8");
            proof {
                reveal_strlit("u8");
                assert("u8"@ =~= spec_builtin_chars(b));
            }
        },
        BuiltinTypeName_::U16 => {
            out.append("u16");
            proof {
                reveal_strlit("u16");
                assert("u16"@ =~= spec_builtin_chars(b));
            }
        },
        BuiltinTypeName_::U32 => {
            out.append("u32");
            proof {
                reveal_strlit("u32");
                assert("u32"@ =~= spec_builtin_chars(b));
            }
        },
        BuiltinTypeName_::U64 => {
            out.append("u64");
            proof {
                reveal_strlit("u64");
                assert("u64"@ =~= spec_builtin_chars(b));
            }
        },
        BuiltinTypeName_::U128 => {
            out.append("u128");
            proof {
                reveal_strlit("u128");
                assert("u128"@ =~= spec_builtin_chars(b));
            }
        },
        BuiltinTypeName_::U256 => {
            out.append("u256");
            proof {
                reveal_strlit("u256");
                assert("u256"@ =~= spec_builtin_chars(b));
            }
        },
        BuiltinTypeName_::Bool => {
            out.append("bool");
            proof {
                reveal_strlit("bool");
                assert("bool"@ =~= spec_builtin_chars(b));
            }
        },
        BuiltinTypeName_::Vector => {
            out.append("vector");
            proof {
                reveal_strlit("vector");
                assert("vector"@ =~= spec_builtin_chars(b));
            }
        },
    }
}

/// Appends a named type's rendering.
fn tn_push(n: &TypeName, out: &mut String)
    ensures
        final(out)@ == old(out)@ + spec_tn_chars(*n),
{
    match &n.value {
        TypeName_::Multiple(_) => {
            proof {
                assert(old(out)@ + spec_tn_chars(*n) =~= old(out)@);
            }
        },
        TypeName_::Builtin(b) => {
            builtin_push(b.value, out);
        },
        TypeName_::ModuleType(m, s) => {
            digits_push(m.value.address, out);
            out.append("::");
            proof {
                reveal_strlit("::");
                assert("::"@ =~= seq![':', ':']);
            }
            symbol_push(m.value.module, out);
            out.append("::");
            symbol_push(s.value, out);
            proof {
                assert(old(out)@ + spec_tn_chars(*n) =~= out@);
            }
        },
    }
}

/// Appends the rendering of `t`.
#[verifier::rlimit(100)]
#[verifier::spinoff_prover]
fn fmt_push(s: &Subst, t: &Type, nested: bool, fuel: u64, out: &mut String)
    ensures
        final(out)@ == old(out)@ + spec_fmt(s@, t@, nested, fuel as nat),
    decreases fuel, *t, 1int,
{
    let special: bool = match &t.value {
        Type_::Var(id) => {
            let last = s.forward_tvar(*id);
            let unbound = match s.get(last) {
                Some(_) => false,
                None => true,
            };
            unbound && s.is_num_var(last)
        },
        _ => false,
    };
    if special {
        if nested {
            out.append("{integer}");
            proof {
                reveal_strlit("{integer}");
                assert("{integer}"@ =~= seq!['{', 'i', 'n', 't', 'e', 'g', 'e', 'r', '}']);
            }
        } else {
            out.append("integer");
            proof {
                reveal_strlit("integer");
                assert("integer"@ =~= seq!['i', 'n', 't', 'e', 'g', 'e', 'r']);
            }
        }
        proof {
            assert(out@ =~= old(out)@ + spec_fmt(s@, t@, nested, fuel as nat));
        }
        return ;
    }
    if !nested {
        out.append("'");
        proof {
            reveal_strlit("'");
            assert("'"@ =~= seq!['\'']);
        }
    }
    match &t.value {
        Type_::UnresolvedError | Type_::Anything => {
            out.append("_");
            proof {
                reveal_strlit("_");
                assert("_"@ =~= seq!['_']);
            }
        },
        Type_::Unit => {
            out.append("()");
            proof {
                reveal_strlit("()");
                assert("()"@ =~= seq!['(', ')']);
            }
        },
        Type_::Var(id) => {
            let last = s.forward_tvar(*id);
            let bound: Option<&Type> = s.get(last);
            match bound {
                Some(inner) => {
                    if fuel == 0 {
                        out.append("_");
                        proof {
                            reveal_strlit("_");
                            assert("_"@ =~= seq!['_']);
                        }
                    } else {
                        fmt_push(s, inner, true, fuel - 1, out);
                    }
                },
                None => {
                    out.append("_");
                    proof {
                        reveal_strlit("_");
                        assert("_"@ =~= seq!['_']);
                    }
                },
            }
        },
        Type_::Apply(_, n, tys) => {
            let is_multiple = matches!(&n.value, TypeName_::Multiple(_));
            if is_multiple {
                out.append("(");
                proof {
                    reveal_strlit("(");
                    assert("("@ =~= seq!['(']);
                    assert(crate::ast::view_types(tys@).skip(0) =~= crate::ast::view_types(tys@));
                }
                fmt_list_push(s, tys, 0, fuel, out);
                out.append(")");
                proof {
                    reveal_strlit(")");
                    assert(")"@ =~= seq![')']);
                }
            } else {
                tn_push(n, out);
                if tys.len() > 0 {
                    out.append("<");
                    proof {
                        reveal_strlit("<");
                        assert("<"@ =~= seq!['<']);
                        assert(crate::ast::view_types(tys@).skip(0) =~= crate::ast::view_types(
                            tys@,
                        ));
                    }
                    fmt_list_push(s, tys, 0, fuel, out);
                    out.append(">");
                    proof {
                        reveal_strlit(">");
                        assert(">"@ =~= seq!['>']);
                    }
                }
            }
        },
        Type_::Fun(args, ret) => {
            out.append("|");
            proof {
                reveal_strlit("|");
                assert("|"@ =~= seq!['|']);
                assert(crate::ast::view_types(args@).skip(0) =~= crate::ast::view_types(args@));
            }
            fmt_list_push(s, args, 0, fuel, out);
            out.append("| -> ");
            proof {
                reveal_strlit("| -> ");
                assert("| -> "@ =~= seq!['|', ' ', '-', '>', ' ']);
            }
            fmt_push(s, ret, true, fuel, out);
        },
        Type_::Param(tp) => {
            symbol_push(tp.user_specified_name.value, out);
        },
        Type_::Ref(m, inner) => {
            out.append("&");
            proof {
                reveal_strlit("&");
                assert("&"@ =~= seq!['&']);
            }
            if *m {
                out.append("mut ");
                proof {
                    reveal_strlit("mut ");
                    assert("mut "@ =~= seq!['m', 'u', 't', ' ']);
                }
            }
            fmt_push(s, inner, true, fuel, out);
        },
        Type_::AutoRef(rv, inner) => {
            let k = crate::subst::unfold_ref_var(s, *rv);
            match k {
                Some(RefKind::Value) => {},
                Some(RefKind::ImmRef) => {
                    out.append("&");
                    proof {
                        reveal_strlit("&");
                        assert("&"@ =~= seq!['&']);
                    }
                },
                Some(RefKind::MutRef) => {
                    out.append("&mut ");
                    proof {
                        reveal_strlit("&mut ");
                        assert("&mut "@ =~= seq!['&', 'm', 'u', 't', ' ']);
                    }
                },
                _ => {
                    out.append("auto ");
                    proof {
                        reveal_strlit("auto ");
                        assert("auto "@ =~= seq!['a', 'u', 't', 'o', ' ']);
                    }
                },
            }
            fmt_push(s, inner, true, fuel, out);
        },
    }
    if !nested {
        out.append("'");
        proof {
            reveal_strlit("'");
            assert("'"@ =~= seq!['\'']);
        }
    }
    proof {
        assert(out@ =~= old(out)@ + spec_fmt(s@, t@, nested, fuel as nat));
    }
}

/// Appends the comma-separated renderings of the elements from `i` on.
fn fmt_list_push(s: &Subst, ts: &Vec<Type>, i: usize, fuel: u64, out: &mut String)
    requires
        i <= ts@.len(),
    ensures
        final(out)@ == old(out)@ + spec_fmt_list(
            s@,
            crate::ast::view_types(ts@).skip(i as int),
            fuel as nat,
        ),
    decreases fuel, ts@, 0int, ts@.len() - i,
{
    proof {
        crate::ast::lemma_view_types_index(ts@);
    }
    if i >= ts.len() {
        proof {
            assert(crate::ast::view_types(ts@).skip(i as int) =~= Seq::<SpecType>::empty());
            assert(out@ =~= old(out)@ + spec_fmt_list(
                s@,
                crate::ast::view_types(ts@).skip(i as int),
                fuel as nat,
            ));
        }
        return ;
    }
    proof {
        assert(crate::ast::view_types(ts@).skip(i as int)[0] == crate::ast::view_types(
            ts@,
        )[i as int]);
        assert(crate::ast::view_types(ts@).skip(i as int).drop_first()
            =~= crate::ast::view_types(ts@).skip(i + 1));
    }
    fmt_push(s, &ts[i], true, fuel, out);
    if i + 1 < ts.len() {
        out.append(", ");
        proof {
            reveal_strlit(", ");
            assert(", "@ =~= seq![',', ' ']);
        }
        fmt_list_push(s, ts, i + 1, fuel, out);
    }
    proof {
        assert(out@ =~= old(out)@ + spec_fmt_list(
            s@,
            crate::ast::view_types(ts@).skip(i as int),
            fuel as nat,
        ));
    }
}

/// The outer rendering of a type: quoted, or the bare word `integer` for an
/// unbound numeric variable.
pub open spec fn spec_error_format(s: SpecSubst, t: SpecType) -> Seq<char> {
    spec_fmt(s, t, false, spec_expansion_budget(s, t) as nat)
}

/// Renders a type for an error message, quoted at the outside.
pub fn error_format(b: &Type, subst: &Subst) -> (r: String)
    ensures
        r@ == spec_error_format(subst@, b@),
{
    let fuel = subst.expansion_budget(b);
    let mut out = String::new();
    proof {
        assert(out@ =~= Seq::<char>::empty());
    }
    fmt_push(subst, b, false, fuel, &mut out);
    proof {
        assert(out@ =~= spec_error_format(subst@, b@));
    }
    out
}

/// Renders an unlocated type value for an error message, at a placeholder
/// position.
pub fn error_format_(b_: &Type_, subst: &Subst) -> (r: String)
    ensures
        r@ == spec_error_format(
            subst@,
            crate::ast::view_type(Type { loc: Loc { file: 0, start: 0, end: 0 }, value: *b_ }),
        ),
{
    let t = Type { loc: Loc { file: 0, start: 0, end: 0 }, value: clone_value_inner(b_) };
    error_format(&t, subst)
}

/// Renders a type for use inside a larger message, unquoted.
pub fn error_format_nested(b: &Type, subst: &Subst) -> (r: String)
    ensures
        r@ == spec_fmt(subst@, b@, true, spec_expansion_budget(subst@, b@) as nat),
{
    let fuel = subst.expansion_budget(b);
    let mut out = String::new();
    proof {
        assert(out@ =~= Seq::<char>::empty());
    }
    fmt_push(subst, b, true, fuel, &mut out);
    proof {
        assert(out@ =~= spec_fmt(subst@, b@, true, spec_expansion_budget(subst@, b@) as nat));
    }
    out
}

/// Clones the value part through a whole-type copy.
fn clone_value_inner(v: &Type_) -> (r: Type_)
    ensures
        crate::ast::view_type(Type { loc: Loc { file: 0, start: 0, end: 0 }, value: r })
            == crate::ast::view_type(
            Type { loc: Loc { file: 0, start: 0, end: 0 }, value: *v },
        ),
{
    match v {
        Type_::Unit => Type_::Unit,
        Type_::Anything => Type_::Anything,
        Type_::UnresolvedError => Type_::UnresolvedError,
        Type_::Var(x) => Type_::Var(*x),
        Type_::Param(tp) => Type_::Param(*tp),
        Type_::Ref(m, inner) => Type_::Ref(*m, Box::new(inner.deep_clone())),
        Type_::AutoRef(rv, inner) => Type_::AutoRef(*rv, Box::new(inner.deep_clone())),
        Type_::Apply(k, n, args) => Type_::Apply(*k, *n, crate::ast::deep_clone_types(args)),
        Type_::Fun(args, ret) => Type_::Fun(
            crate::ast::deep_clone_types(args),
            Box::new(ret.deep_clone()),
        ),
    }
}

} // verus!
