//! The pattern matcher: structurally matches one signature pattern against
//! one call's (already reduced) argument expression, producing variable
//! bindings or failure.
//!
//! Matching is pure: it evaluates nothing and mutates nothing. A `Variable`
//! pattern matches any single value (subject to its optional type
//! constraint) and binds it unless the name is absent or the wildcard `_`.
//! A `Tuple` pattern matches only an argument list of exactly its arity,
//! element-wise and left-to-right, accumulating bindings as it goes.

use vstd::prelude::*;
use vstd::hash_map::StringHashMap;

use crate::expression::Expression;
use crate::expression::ExpressionKind;
use crate::expression::ExprV;
use crate::expression::Literal;
use crate::expression::LiteralKind;
use crate::expression::Pattern;
use crate::expression::PatternV;
use crate::expression::expr_view;
use crate::expression::exprs_view;
use crate::expression::pat_size;
use crate::expression::pat_view;
use crate::expression::lemma_exprs_view;
use crate::expression::lemma_exprs_size_ge;

verus! {

/// A set of variable bindings produced by a successful match, keyed by
/// variable name.
pub type Bindings = StringHashMap<Expression>;

/// The mathematical content of a set of bindings: variable names mapped to
/// the views of the bound values.
pub open spec fn bindings_view(b: Bindings) -> Map<Seq<char>, ExprV> {
    b@.map_values(|e: Expression| expr_view(e))
}

/// Whether a variable pattern's name binds nothing: the name is absent or
/// is the single underscore.
pub open spec fn is_wildcard(name: Option<Seq<char>>) -> bool {
    match name {
        None => true,
        Some(n) => n.len() == 1 && n[0] == '_',
    }
}

/// The kind tag of a literal value.
pub open spec fn literal_kind(l: Literal) -> LiteralKind {
    match l {
        Literal::Float { bits } => LiteralKind::Float,
        Literal::Int { value } => LiteralKind::Int,
    }
}

/// Whether a candidate value satisfies a variable pattern's optional type
/// constraint: no constraint always does; a constraint requires a literal
/// of exactly that kind.
pub open spec fn constraint_ok(tc: Option<LiteralKind>, arg: ExprV) -> bool {
    match tc {
        None => true,
        Some(k) => match arg {
            ExprV::Literal { literal } => literal_kind(literal) == k,
            _ => false,
        },
    }
}

/// The result of matching pattern `p` against the reduced argument `arg`,
/// extending the accumulated bindings `acc`: `Some` holds the extended
/// bindings, `None` is failure. Earlier bindings are never consulted, only
/// carried forward; a repeated name rebinds.
pub open spec fn match_pat(p: PatternV, arg: ExprV, acc: Map<Seq<char>, ExprV>) -> Option<
    Map<Seq<char>, ExprV>,
>
    decreases p,
{
    match p {
        PatternV::Variable { name, type_constraint } => {
            if !constraint_ok(type_constraint, arg) {
                None
            } else if is_wildcard(name) {
                Some(acc)
            } else {
                Some(acc.insert(name->0, arg))
            }
        },
        PatternV::Tuple { elements } => match arg {
            ExprV::Pattern { pattern: PatternV::Tuple { elements: args } } => {
                if elements.len() == args.len() {
                    match_elems(elements, args, acc)
                } else {
                    None
                }
            },
            _ => None,
        },
    }
}

/// Element-wise, left-to-right matching of the elements of a tuple pattern
/// against the elements of a tuple argument list. A pattern element that is
/// not itself a pattern node matches nothing.
pub open spec fn match_elems(
    pats: Seq<ExprV>,
    args: Seq<ExprV>,
    acc: Map<Seq<char>, ExprV>,
) -> Option<Map<Seq<char>, ExprV>>
    decreases pats,
{
    if pats.len() == 0 {
        Some(acc)
    } else {
        match pats[0] {
            ExprV::Pattern { pattern: p0 } => match match_pat(p0, args[0], acc) {
                Some(acc1) => match_elems(
                    pats.subrange(1, pats.len() as int),
                    args.subrange(1, args.len() as int),
                    acc1,
                ),
                None => None,
            },
            _ => None,
        }
    }
}

/// Decides whether a string is the wildcard name `_`.
fn is_wildcard_string(s: &String) -> (r: bool)
    ensures
        r == is_wildcard(Some(s@)),
{
    s.as_str().unicode_len() == 1 && s.as_str().get_char(0) == '_'
}

/// Matches `pattern` against the reduced argument `arg`, extending the
/// bindings in place. Returns `true` exactly when `match_pat` succeeds on
/// the views; the bindings then hold the extended set. On failure the
/// bindings may hold a partial extension and should be discarded.
pub fn match_pattern(pattern: &Pattern, arg: &Expression, bindings: &mut Bindings) -> (r: bool)
    ensures
        r ==> match_pat(pattern@, arg@, bindings_view(*old(bindings))) == Some(
            bindings_view(*final(bindings)),
        ),
        !r ==> match_pat(pattern@, arg@, bindings_view(*old(bindings))) is None,
    decreases pat_size(pat_view(*pattern)),
{
    match pattern {
        Pattern::Variable { name, type_constraint } => {
            let ok = match (type_constraint, &arg.kind) {
                (None, _) => true,
                (Some(k), ExpressionKind::Literal(l)) => {
                    let lk = match l {
                        Literal::Float { bits } => LiteralKind::Float,
                        Literal::Int { value } => LiteralKind::Int,
                    };
                    lk == *k
                },
                (Some(k), _) => false,
            };
            if !ok {
                proof {
                    assert(!constraint_ok(pattern@->Variable_type_constraint, arg@));
                    assert(match_pat(pattern@, arg@, bindings_view(*bindings)) is None);
                }
                false
            } else {
                match name {
                    None => true,
                    Some(n) => {
                        if is_wildcard_string(n) {
                            true
                        } else {
                            bindings.insert(n.clone(), arg.duplicate());
                            proof {
                                assert(bindings_view(*bindings) =~= bindings_view(
                                    *old(bindings),
                                ).insert(n@, arg@));
                            }
                            true
                        }
                    },
                }
            }
        },
        Pattern::Tuple { elements } => {
            match &arg.kind {
                ExpressionKind::Pattern(Pattern::Tuple { elements: args }) => {
                    if elements.len() != args.len() {
                        proof {
                            lemma_exprs_view(elements@);
                            lemma_exprs_view(args@);
                            assert(*pattern == (Pattern::Tuple { elements: *elements }));
                            assert(pattern@ == (PatternV::Tuple {
                                elements: exprs_view(elements@),
                            }));
                            assert(arg.kind is Pattern);
                            assert(arg.kind->Pattern_0 == (Pattern::Tuple { elements: *args }));
                            assert(pat_view(arg.kind->Pattern_0) == (PatternV::Tuple {
                                elements: exprs_view(args@),
                            }));
                            assert(arg@ == (ExprV::Pattern {
                                pattern: pat_view(arg.kind->Pattern_0),
                            }));
                            assert(exprs_view(elements@).len() != exprs_view(args@).len());
                            assert(match_pat(pattern@, arg@, bindings_view(*bindings)) is None);
                        }
                        false
                    } else {
                        let ghost pats_v = exprs_view(elements@);
                        let ghost args_v = exprs_view(args@);
                        let ghost b0 = bindings_view(*bindings);
                        proof {
                            lemma_exprs_view(elements@);
                            lemma_exprs_view(args@);
                            assert(pats_v.subrange(0, pats_v.len() as int) =~= pats_v);
                            assert(args_v.subrange(0, args_v.len() as int) =~= args_v);
                        }
                        let mut i: usize = 0;
                        while i < elements.len()
                            invariant
                                i <= elements.len(),
                                elements@.len() == args@.len(),
                                *pattern == (Pattern::Tuple { elements: *elements }),
                                arg.kind == ExpressionKind::Pattern(
                                    Pattern::Tuple { elements: *args },
                                ),
                                pats_v == exprs_view(elements@),
                                args_v == exprs_view(args@),
                                pats_v.len() == elements@.len(),
                                args_v.len() == args@.len(),
                                b0 == bindings_view(*old(bindings)),
                                match_elems(pats_v, args_v, b0) == match_elems(
                                    pats_v.subrange(i as int, pats_v.len() as int),
                                    args_v.subrange(i as int, args_v.len() as int),
                                    bindings_view(*bindings),
                                ),
                            decreases elements@.len() - i,
                        {
                            proof {
                                lemma_exprs_view(elements@);
                                lemma_exprs_view(args@);
                                lemma_exprs_size_ge(pats_v, i as int);
                            }
                            let ghost pre = bindings_view(*bindings);
                            match &elements[i].kind {
                                ExpressionKind::Pattern(p0) => {
                                    if match_pattern(p0, &args[i], bindings) {
                                        proof {
                                            lemma_match_elems_step(
                                                pats_v,
                                                args_v,
                                                pre,
                                                bindings_view(*bindings),
                                                i as int,
                                            );
                                        }
                                    } else {
                                        proof {
                                            lemma_match_elems_fail(pats_v, args_v, pre, i as int);
                                            assert(pat_view(arg.kind->Pattern_0)
                                                == (PatternV::Tuple {
                                                    elements: exprs_view(args@),
                                                }));
                                            assert(arg@ == (ExprV::Pattern {
                                                pattern: pat_view(arg.kind->Pattern_0),
                                            }));
                                            assert(pattern@ == (PatternV::Tuple {
                                                elements: pats_v,
                                            }));
                                        }
                                        return false;
                                    }
                                },
                                _ => {
                                    proof {
                                        lemma_match_elems_stuck(pats_v, args_v, pre, i as int);
                                            assert(pat_view(arg.kind->Pattern_0)
                                                == (PatternV::Tuple {
                                                    elements: exprs_view(args@),
                                                }));
                                            assert(arg@ == (ExprV::Pattern {
                                                pattern: pat_view(arg.kind->Pattern_0),
                                            }));
                                            assert(pattern@ == (PatternV::Tuple {
                                                elements: pats_v,
                                            }));
                                    }
                                    return false;
                                },
                            }
                            i = i + 1;
                        }
                        proof {
                            assert(pats_v.subrange(i as int, pats_v.len() as int).len() == 0);
                        }
                        true
                    }
                },
                _ => {
                    proof {
                        assert(match_pat(pattern@, arg@, bindings_view(*bindings)) is None);
                    }
                    false
                },
            }
        },
    }
}

/// Stepping `match_elems` past position `i` once the element there matched.
proof fn lemma_match_elems_step(
    pats: Seq<ExprV>,
    args: Seq<ExprV>,
    acc: Map<Seq<char>, ExprV>,
    next: Map<Seq<char>, ExprV>,
    i: int,
)
    requires
        0 <= i < pats.len(),
        pats.len() == args.len(),
        pats[i] is Pattern,
        match_pat(pats[i]->Pattern_pattern, args[i], acc) == Some(next),
    ensures
        match_elems(
            pats.subrange(i, pats.len() as int),
            args.subrange(i, args.len() as int),
            acc,
        ) == match_elems(
            pats.subrange(i + 1, pats.len() as int),
            args.subrange(i + 1, args.len() as int),
            next,
        ),
{
    let ps = pats.subrange(i, pats.len() as int);
    let qs = args.subrange(i, args.len() as int);
    assert(ps[0] == pats[i]);
    assert(qs[0] == args[i]);
    assert(ps.subrange(1, ps.len() as int) =~= pats.subrange(i + 1, pats.len() as int));
    assert(qs.subrange(1, qs.len() as int) =~= args.subrange(i + 1, args.len() as int));
}

/// `match_elems` fails when the element at `i` fails to match.
proof fn lemma_match_elems_fail(
    pats: Seq<ExprV>,
    args: Seq<ExprV>,
    acc: Map<Seq<char>, ExprV>,
    i: int,
)
    requires
        0 <= i < pats.len(),
        pats.len() == args.len(),
        pats[i] is Pattern,
        match_pat(pats[i]->Pattern_pattern, args[i], acc) is None,
    ensures
        match_elems(
            pats.subrange(i, pats.len() as int),
            args.subrange(i, args.len() as int),
            acc,
        ) is None,
{
    let ps = pats.subrange(i, pats.len() as int);
    let qs = args.subrange(i, args.len() as int);
    assert(ps[0] == pats[i]);
    assert(qs[0] == args[i]);
}

/// `match_elems` fails when the element at `i` is not a pattern node.
proof fn lemma_match_elems_stuck(
    pats: Seq<ExprV>,
    args: Seq<ExprV>,
    acc: Map<Seq<char>, ExprV>,
    i: int,
)
    requires
        0 <= i < pats.len(),
        pats.len() == args.len(),
        !(pats[i] is Pattern),
    ensures
        match_elems(
            pats.subrange(i, pats.len() as int),
            args.subrange(i, args.len() as int),
            acc,
        ) is None,
{
    let ps = pats.subrange(i, pats.len() as int);
    assert(ps[0] == pats[i]);
}

} // verus!
