//! The laws of the dispatch engine, stated and proved over the same
//! mathematical model (`eval_spec`, `resolve_model`, `match_pat`) that the
//! executable functions are verified against.

use vstd::prelude::*;

use crate::expression::ExprV;
use crate::expression::PatternV;
use crate::interpreter::InterpreterError;
use crate::interpreter::StateV;
use crate::interpreter::define_allowed;
use crate::interpreter::eval_args_spec;
use crate::interpreter::eval_call_args;
use crate::interpreter::eval_spec;
use crate::interpreter::registry_after_define;
use crate::interpreter::registry_receivers;
use crate::interpreter::resolve_model;
use crate::matcher::match_pat;
use crate::registry::ReceiverV;
use crate::registry::first_match;
use crate::registry::has_signature;

verus! {

/// Defining two structurally distinct signatures under one fresh name
/// succeeds both times, and both receivers remain independently
/// resolvable afterward: arguments matched by the first signature resolve
/// to the first body, and arguments matched only by the second resolve to
/// the second.
pub proof fn lemma_define_two_distinct(
    reg: Map<Seq<char>, Seq<ReceiverV>>,
    name: Seq<char>,
    s1: PatternV,
    b1: ExprV,
    s2: PatternV,
    b2: ExprV,
)
    requires
        s1 != s2,
        !reg.contains_key(name),
    ensures
        define_allowed(reg, name, s1),
        define_allowed(registry_after_define(reg, name, s1, b1), name, s2),
        forall|args: ExprV|
            match_pat(s1, args, Map::<Seq<char>, ExprV>::empty()) is Some
                ==> #[trigger] resolve_model(
                registry_after_define(registry_after_define(reg, name, s1, b1), name, s2, b2),
                name,
                args,
            ) == Ok::<(Map<Seq<char>, ExprV>, ExprV), InterpreterError>(
                (match_pat(s1, args, Map::<Seq<char>, ExprV>::empty())->Some_0, b1),
            ),
        forall|args: ExprV|
            match_pat(s1, args, Map::<Seq<char>, ExprV>::empty()) is None && match_pat(
                s2,
                args,
                Map::<Seq<char>, ExprV>::empty(),
            ) is Some ==> #[trigger] resolve_model(
                registry_after_define(registry_after_define(reg, name, s1, b1), name, s2, b2),
                name,
                args,
            ) == Ok::<(Map<Seq<char>, ExprV>, ExprV), InterpreterError>(
                (match_pat(s2, args, Map::<Seq<char>, ExprV>::empty())->Some_0, b2),
            ),
{
    let reg1 = registry_after_define(reg, name, s1, b1);
    let reg2 = registry_after_define(reg1, name, s2, b2);
    let r1 = ReceiverV { signature: s1, body: b1 };
    let r2 = ReceiverV { signature: s2, body: b2 };
    assert(registry_receivers(reg, name) =~= Seq::<ReceiverV>::empty());
    assert(registry_receivers(reg1, name) =~= seq![r1]);
    assert(registry_receivers(reg2, name) =~= seq![r1, r2]);
    assert(!has_signature(registry_receivers(reg1, name), s2)) by {
        assert(forall|i: int|
            0 <= i < registry_receivers(reg1, name).len()
                ==> #[trigger] registry_receivers(reg1, name)[i].signature == s1);
    }
    let rs = seq![r1, r2];
    assert forall|args: ExprV|
        match_pat(s1, args, Map::<Seq<char>, ExprV>::empty()) is Some
            implies #[trigger] resolve_model(reg2, name, args) == Ok::<
        (Map<Seq<char>, ExprV>, ExprV),
        InterpreterError,
    >((match_pat(s1, args, Map::<Seq<char>, ExprV>::empty())->Some_0, b1)) by {
        let bs = match_pat(s1, args, Map::<Seq<char>, ExprV>::empty())->Some_0;
        assert(rs[0] == r1);
        assert(first_match(rs, args) == Some((bs, b1)));
    }
    assert forall|args: ExprV|
        match_pat(s1, args, Map::<Seq<char>, ExprV>::empty()) is None && match_pat(
            s2,
            args,
            Map::<Seq<char>, ExprV>::empty(),
        ) is Some implies #[trigger] resolve_model(reg2, name, args) == Ok::<
        (Map<Seq<char>, ExprV>, ExprV),
        InterpreterError,
    >((match_pat(s2, args, Map::<Seq<char>, ExprV>::empty())->Some_0, b2)) by {
        let bs = match_pat(s2, args, Map::<Seq<char>, ExprV>::empty())->Some_0;
        assert(rs[0] == r1);
        let rest = rs.subrange(1, 2);
        assert(rest[0] == r2);
        assert(first_match(rest, args) == Some((bs, b2)));
        assert(first_match(rs, args) == Some((bs, b2)));
    }
}

/// Registering a signature forecloses registering it again: after a
/// successful definition, the same signature under the same name is
/// rejected, whatever body it comes with. (That the rejected call leaves
/// the whole session untouched is part of `define`'s own contract.)
pub proof fn lemma_duplicate_define_rejected(
    reg: Map<Seq<char>, Seq<ReceiverV>>,
    name: Seq<char>,
    sig: PatternV,
    body: ExprV,
)
    ensures
        !define_allowed(registry_after_define(reg, name, sig, body), name, sig),
{
    let rs = registry_receivers(registry_after_define(reg, name, sig, body), name);
    assert(rs[rs.len() - 1].signature == sig);
}

/// Resolution is insertion order, first match wins: with a nameless,
/// unconstrained variable signature defined first, every call of the name
/// resolves to its body with no bindings, never to a receiver defined
/// later, whatever that receiver's signature matches.
pub proof fn lemma_first_match_wins(
    reg: Map<Seq<char>, Seq<ReceiverV>>,
    name: Seq<char>,
    b1: ExprV,
    s2: PatternV,
    b2: ExprV,
    args: ExprV,
)
    requires
        !reg.contains_key(name),
    ensures
        ({
            let s1 = PatternV::Variable { name: None, type_constraint: None };
            resolve_model(
                registry_after_define(registry_after_define(reg, name, s1, b1), name, s2, b2),
                name,
                args,
            ) == Ok::<(Map<Seq<char>, ExprV>, ExprV), InterpreterError>(
                (Map::<Seq<char>, ExprV>::empty(), b1),
            )
        }),
{
    let s1 = PatternV::Variable { name: None, type_constraint: None };
    let reg2 = registry_after_define(registry_after_define(reg, name, s1, b1), name, s2, b2);
    let r1 = ReceiverV { signature: s1, body: b1 };
    let r2 = ReceiverV { signature: s2, body: b2 };
    assert(registry_receivers(reg, name) =~= Seq::<ReceiverV>::empty());
    assert(registry_receivers(reg2, name) =~= seq![r1, r2]);
    let rs = seq![r1, r2];
    assert(rs[0] == r1);
    assert(match_pat(s1, args, Map::<Seq<char>, ExprV>::empty()) == Some(
        Map::<Seq<char>, ExprV>::empty(),
    ));
    assert(first_match(rs, args) == Some((Map::<Seq<char>, ExprV>::empty(), b1)));
}

/// Calling a name that no definition has touched fails with
/// `MethodSignatureNotFound`; in particular every call fails in a fresh
/// session, whose registry is empty.
pub proof fn lemma_undefined_name_fails(
    reg: Map<Seq<char>, Seq<ReceiverV>>,
    name: Seq<char>,
    args: ExprV,
)
    requires
        !reg.contains_key(name),
    ensures
        resolve_model(reg, name, args) == Err::<
            (Map<Seq<char>, ExprV>, ExprV),
            InterpreterError,
        >(InterpreterError::MethodSignatureNotFound),
{
}

/// Arity mismatch is a failure to match, not a type error: when the only
/// receiver of a name has a tuple signature of one arity and the reduced
/// arguments are not a tuple of that arity, resolution fails with
/// `MethodSignatureNotFound`.
pub proof fn lemma_arity_mismatch(
    reg: Map<Seq<char>, Seq<ReceiverV>>,
    name: Seq<char>,
    sig: PatternV,
    body: ExprV,
    args: ExprV,
)
    requires
        !reg.contains_key(name),
        sig is Tuple,
        !(args is Pattern && args->Pattern_pattern is Tuple
            && args->Pattern_pattern->Tuple_elements.len() == sig->Tuple_elements.len()),
    ensures
        resolve_model(registry_after_define(reg, name, sig, body), name, args) == Err::<
            (Map<Seq<char>, ExprV>, ExprV),
            InterpreterError,
        >(InterpreterError::MethodSignatureNotFound),
{
    let reg1 = registry_after_define(reg, name, sig, body);
    let r1 = ReceiverV { signature: sig, body };
    assert(registry_receivers(reg, name) =~= Seq::<ReceiverV>::empty());
    assert(registry_receivers(reg1, name) =~= seq![r1]);
    let rs = seq![r1];
    assert(rs[0] == r1);
    assert(match_pat(sig, args, Map::<Seq<char>, ExprV>::empty()) is None);
    assert(rs.subrange(1, 1).len() == 0);
    assert(first_match(rs.subrange(1, 1), args) is None);
    assert(first_match(rs, args) is None);
}

/// A single-element tuple pattern in value position is a transparent
/// grouping: it evaluates exactly as its one child does, with no tuple or
/// dispatch semantics at that position.
pub proof fn lemma_grouping_transparent(
    st: StateV,
    locals: Map<Seq<char>, ExprV>,
    e: ExprV,
    fuel: nat,
)
    ensures
        eval_spec(
            st,
            locals,
            ExprV::Pattern { pattern: PatternV::Tuple { elements: seq![e] } },
            fuel,
        ) == eval_spec(st, locals, e, fuel),
{
    assert(seq![e][0] == e);
}

/// One registry extends another: every name keeps its receivers, in order,
/// and may only have gained receivers appended after them.
pub open spec fn registry_extends(
    older: Map<Seq<char>, Seq<ReceiverV>>,
    newer: Map<Seq<char>, Seq<ReceiverV>>,
) -> bool {
    forall|n: Seq<char>|
        #[trigger] older.contains_key(n) ==> newer.contains_key(n) && older[n].is_prefix_of(
            newer[n],
        )
}

/// Extension is reflexive.
pub proof fn lemma_registry_extends_refl(reg: Map<Seq<char>, Seq<ReceiverV>>)
    ensures
        registry_extends(reg, reg),
{
    assert forall|n: Seq<char>| #[trigger] reg.contains_key(n) implies reg[n].is_prefix_of(
        reg[n],
    ) by {
        assert(reg[n] =~= reg[n].subrange(0, reg[n].len() as int));
    }
}

/// Extension is transitive.
pub proof fn lemma_registry_extends_trans(
    a: Map<Seq<char>, Seq<ReceiverV>>,
    b: Map<Seq<char>, Seq<ReceiverV>>,
    c: Map<Seq<char>, Seq<ReceiverV>>,
)
    requires
        registry_extends(a, b),
        registry_extends(b, c),
    ensures
        registry_extends(a, c),
{
    assert forall|n: Seq<char>| #[trigger] a.contains_key(n) implies c.contains_key(n)
        && a[n].is_prefix_of(c[n]) by {
        assert(b.contains_key(n) && a[n].is_prefix_of(b[n]));
        assert(c.contains_key(n) && b[n].is_prefix_of(c[n]));
        assert(a[n].len() <= b[n].len() <= c[n].len());
        assert(a[n] =~= c[n].subrange(0, a[n].len() as int));
        assert(a[n].is_prefix_of(c[n]));
    }
}

/// Definitions and bindings persist, and errors never roll anything back:
/// whatever one evaluation does, every multimethod receiver registered
/// before it is still registered, under the same name and at the same
/// position in the resolution order, and the global environment is
/// untouched — whether the evaluation succeeded or failed.
pub proof fn lemma_eval_preserves_definitions(
    st: StateV,
    locals: Map<Seq<char>, ExprV>,
    e: ExprV,
    fuel: nat,
)
    ensures
        registry_extends(st.registry, eval_spec(st, locals, e, fuel).0.registry),
        eval_spec(st, locals, e, fuel).0.globals == st.globals,
    decreases fuel, e, 0int,
{
    match e {
        ExprV::Literal { literal } => {
            lemma_registry_extends_refl(st.registry);
        },
        ExprV::Identifier { name } => {
            lemma_registry_extends_refl(st.registry);
        },
        ExprV::Infix { operator, left, right } => {
            lemma_eval_preserves_definitions(st, locals, *left, fuel);
            let (st1, lr) = eval_spec(st, locals, *left, fuel);
            match lr {
                Err(err) => {},
                Ok(lv) => {
                    lemma_eval_preserves_definitions(st1, locals, *right, fuel);
                    lemma_registry_extends_trans(
                        st.registry,
                        st1.registry,
                        eval_spec(st1, locals, *right, fuel).0.registry,
                    );
                },
            }
        },
        ExprV::Pattern { pattern } => {
            match pattern {
                PatternV::Tuple { elements } => {
                    if elements.len() == 1 {
                        lemma_eval_preserves_definitions(st, locals, elements[0], fuel);
                    } else {
                        lemma_registry_extends_refl(st.registry);
                    }
                },
                _ => {
                    lemma_registry_extends_refl(st.registry);
                },
            }
        },
        ExprV::Method { name, signature, body } => {
            if define_allowed(st.registry, name, signature) {
                let reg1 = registry_after_define(st.registry, name, signature, *body);
                assert forall|n: Seq<char>| #[trigger] st.registry.contains_key(n)
                    implies reg1.contains_key(n) && st.registry[n].is_prefix_of(reg1[n]) by {
                    if n == name {
                        assert(st.registry[n] =~= reg1[n].subrange(
                            0,
                            st.registry[n].len() as int,
                        ));
                    } else {
                        assert(st.registry[n] =~= reg1[n].subrange(
                            0,
                            st.registry[n].len() as int,
                        ));
                    }
                }
            } else {
                lemma_registry_extends_refl(st.registry);
            }
        },
        ExprV::Call { callee, arguments } => {
            lemma_eval_preserves_definitions(st, locals, *callee, fuel);
            let (st1, cr) = eval_spec(st, locals, *callee, fuel);
            match cr {
                Err(err) => {},
                Ok(cv) => match cv {
                    ExprV::Identifier { name } => {
                        lemma_eval_call_args_preserves(st1, locals, *arguments, fuel);
                        let (st2, ar) = eval_call_args(st1, locals, *arguments, fuel);
                        lemma_registry_extends_trans(
                            st.registry,
                            st1.registry,
                            st2.registry,
                        );
                        match ar {
                            Err(err) => {},
                            Ok(argv) => match resolve_model(st2.registry, name, argv) {
                                Err(err) => {},
                                Ok((b, body)) => {
                                    if fuel == 0 {
                                    } else {
                                        lemma_eval_preserves_definitions(
                                            st2,
                                            b,
                                            body,
                                            (fuel - 1) as nat,
                                        );
                                        lemma_registry_extends_trans(
                                            st.registry,
                                            st2.registry,
                                            eval_spec(st2, b, body, (fuel - 1) as nat).0.registry,
                                        );
                                    }
                                },
                            },
                        }
                    },
                    _ => {},
                },
            }
        },
    }
}

/// The argument-reduction step preserves definitions the same way.
pub proof fn lemma_eval_call_args_preserves(
    st: StateV,
    locals: Map<Seq<char>, ExprV>,
    args: ExprV,
    fuel: nat,
)
    ensures
        registry_extends(st.registry, eval_call_args(st, locals, args, fuel).0.registry),
        eval_call_args(st, locals, args, fuel).0.globals == st.globals,
    decreases fuel, args, 1int,
{
    match args {
        ExprV::Pattern { pattern: PatternV::Tuple { elements } } => {
            lemma_eval_args_preserves(st, locals, elements, fuel);
        },
        _ => {
            lemma_eval_preserves_definitions(st, locals, args, fuel);
        },
    }
}

/// Element-wise argument evaluation preserves definitions the same way.
pub proof fn lemma_eval_args_preserves(
    st: StateV,
    locals: Map<Seq<char>, ExprV>,
    elems: Seq<ExprV>,
    fuel: nat,
)
    ensures
        registry_extends(st.registry, eval_args_spec(st, locals, elems, fuel).0.registry),
        eval_args_spec(st, locals, elems, fuel).0.globals == st.globals,
    decreases fuel, elems, 0int,
{
    if elems.len() == 0 {
        lemma_registry_extends_refl(st.registry);
    } else {
        lemma_eval_preserves_definitions(st, locals, elems[0], fuel);
        let (st1, r0) = eval_spec(st, locals, elems[0], fuel);
        match r0 {
            Err(err) => {},
            Ok(v0) => {
                lemma_eval_args_preserves(st1, locals, elems.subrange(1, elems.len() as int), fuel);
                lemma_registry_extends_trans(
                    st.registry,
                    st1.registry,
                    eval_args_spec(
                        st1,
                        locals,
                        elems.subrange(1, elems.len() as int),
                        fuel,
                    ).0.registry,
                );
            },
        }
    }
}

/// A definition made by one evaluation is seen by later ones: evaluating a
/// method definition acknowledges with the bare name, and afterwards the
/// defined receiver stands registered, so a later resolution of that name
/// succeeds whenever some receiver matches — in particular the new one.
pub proof fn lemma_definitions_take_effect(
    st: StateV,
    locals: Map<Seq<char>, ExprV>,
    name: Seq<char>,
    sig: PatternV,
    body: ExprV,
    fuel: nat,
    args: ExprV,
    bs: Map<Seq<char>, ExprV>,
)
    requires
        define_allowed(st.registry, name, sig),
        match_pat(sig, args, Map::<Seq<char>, ExprV>::empty()) == Some(bs),
    ensures
        ({
            let (st1, r) = eval_spec(
                st,
                locals,
                ExprV::Method { name, signature: sig, body: Box::new(body) },
                fuel,
            );
            &&& r == Ok::<ExprV, InterpreterError>(ExprV::Identifier { name })
            &&& resolve_model(st1.registry, name, args) is Ok
        }),
{
    let (st1, r) = eval_spec(
        st,
        locals,
        ExprV::Method { name, signature: sig, body: Box::new(body) },
        fuel,
    );
    let rs = registry_receivers(st1.registry, name);
    assert(rs[rs.len() - 1] == (ReceiverV { signature: sig, body }));
    lemma_first_match_some(rs, args, rs.len() - 1);
}

/// If some receiver matches the arguments, the scan finds one (the first).
proof fn lemma_first_match_some(rs: Seq<ReceiverV>, args: ExprV, i: int)
    requires
        0 <= i < rs.len(),
        match_pat(rs[i].signature, args, Map::<Seq<char>, ExprV>::empty()) is Some,
    ensures
        first_match(rs, args) is Some,
    decreases rs.len(),
{
    if match_pat(rs[0].signature, args, Map::<Seq<char>, ExprV>::empty()) is Some {
    } else {
        assert(i != 0);
        let rest = rs.subrange(1, rs.len() as int);
        assert(rest[i - 1] == rs[i]);
        lemma_first_match_some(rest, args, i - 1);
    }
}

} // verus!
