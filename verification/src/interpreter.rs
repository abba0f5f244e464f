//! The evaluator: reduces an expression to a value by recursive structural
//! reduction, consulting the multimethod registry for method definition and
//! call nodes, and the environments for identifier lookup.
//!
//! One `Interpreter` owns the registry and the global environment for a
//! whole session; successive top-level evaluations share and accumulate
//! that state. Errors abort only the expression in which they occur and
//! never roll back state already accumulated.

use vstd::prelude::*;
use vstd::hash_map::StringHashMap;

use crate::arith::add_bits;
use crate::arith::div_bits;
use crate::arith::mul_bits;
use crate::arith::ieee_add;
use crate::arith::ieee_div;
use crate::arith::ieee_mul;
use crate::environment::Environment;
use crate::expression::Call;
use crate::expression::Expression;
use crate::expression::ExpressionKind;
use crate::expression::ExprV;
use crate::expression::InfixOperator;
use crate::expression::Literal;
use crate::expression::Pattern;
use crate::expression::PatternV;
use crate::expression::expr_size;
use crate::expression::expr_view;
use crate::expression::exprs_size;
use crate::expression::exprs_view;
use crate::expression::pat_size;
use crate::expression::pat_view;
use crate::expression::lemma_exprs_view;
use crate::expression::lemma_exprs_size_ge;
use crate::matcher::Bindings;
use crate::matcher::bindings_view;
use crate::registry::Multimethod;
use crate::registry::ReceiverV;
use crate::registry::first_match;
use crate::registry::has_signature;

verus! {

/// The error kinds of evaluation. Every one of these is returned, never
/// thrown; an error ends only the evaluation of the one top-level
/// expression in which it occurs.
#[derive(Clone, Copy, Debug, PartialEq, Eq, Structural)]
pub enum InterpreterError {
    /// An operand or callee reduced to a value of the wrong kind.
    UnexpectedType,
    /// Cannot add another multimethod receiver with the exact same name
    /// and signature.
    MethodSignatureExists,
    /// There is no matching signature for the current method call.
    MethodSignatureNotFound,
    /// An expression kind was reached in a context the evaluator does not
    /// define: an internal feature gap, not a user mistake. Also reported
    /// when dispatch nests deeper than the evaluator's recursion budget.
    NotYetSupported,
}

/// The mathematical view of a whole session: the registry (receiver
/// sequences per multimethod name) and the global environment.
#[verifier::ext_equal]
pub struct StateV {
    pub registry: Map<Seq<char>, Seq<ReceiverV>>,
    pub globals: Map<Seq<char>, ExprV>,
}

/// The receivers registered under `name`, or the empty sequence if the
/// name is unknown.
pub open spec fn registry_receivers(
    reg: Map<Seq<char>, Seq<ReceiverV>>,
    name: Seq<char>,
) -> Seq<ReceiverV> {
    if reg.contains_key(name) {
        reg[name]
    } else {
        Seq::empty()
    }
}

/// Whether defining `sig` under `name` is allowed: no receiver of that
/// name may already carry a structurally identical signature.
pub open spec fn define_allowed(
    reg: Map<Seq<char>, Seq<ReceiverV>>,
    name: Seq<char>,
    sig: PatternV,
) -> bool {
    !has_signature(registry_receivers(reg, name), sig)
}

/// The registry after appending the receiver (`sig`, `body`) at the end of
/// `name`'s receiver order.
pub open spec fn registry_after_define(
    reg: Map<Seq<char>, Seq<ReceiverV>>,
    name: Seq<char>,
    sig: PatternV,
    body: ExprV,
) -> Map<Seq<char>, Seq<ReceiverV>> {
    reg.insert(name, registry_receivers(reg, name).push(ReceiverV { signature: sig, body }))
}

/// Resolution: the bindings and body of the first receiver of `name` that
/// matches the reduced arguments, in definition order; an unknown name and
/// a fruitless scan both fail the same way.
pub open spec fn resolve_model(
    reg: Map<Seq<char>, Seq<ReceiverV>>,
    name: Seq<char>,
    args: ExprV,
) -> Result<(Map<Seq<char>, ExprV>, ExprV), InterpreterError> {
    if !reg.contains_key(name) {
        Err(InterpreterError::MethodSignatureNotFound)
    } else {
        match first_match(reg[name], args) {
            Some(p) => Ok(p),
            None => Err(InterpreterError::MethodSignatureNotFound),
        }
    }
}

/// The result of a binary arithmetic operation on two reduced operands.
/// Both must be float literals; the `-` operator is a feature gap.
pub open spec fn apply_infix(op: InfixOperator, lv: ExprV, rv: ExprV) -> Result<
    ExprV,
    InterpreterError,
> {
    match op {
        InfixOperator::Minus => Err(InterpreterError::NotYetSupported),
        _ => match (lv, rv) {
            (
                ExprV::Literal { literal: Literal::Float { bits: a } },
                ExprV::Literal { literal: Literal::Float { bits: b } },
            ) => Ok(
                ExprV::Literal {
                    literal: Literal::Float {
                        bits: match op {
                            InfixOperator::Plus => add_bits(a, b),
                            InfixOperator::Star => mul_bits(a, b),
                            InfixOperator::Slash => div_bits(a, b),
                            InfixOperator::Minus => 0,
                        },
                    },
                },
            ),
            _ => Err(InterpreterError::UnexpectedType),
        },
    }
}

/// The interpreter and its whole behaviour, as one mathematical function:
/// from a session state, the call-local scope, an expression and a
/// recursion budget to the successor state and the result.
///
/// Evaluation is strict and left-to-right; state changes made by an
/// earlier sub-evaluation are kept even when a later one fails. A bare
/// identifier reduces to its bound value, checking the local scope first,
/// then the globals, and to itself when unbound (which is how a callee
/// names a multimethod). A single-element tuple pattern in value position
/// is a transparent grouping. Everything else outside the defined forms is
/// `NotYetSupported`, as is dispatch nested deeper than `fuel`.
pub open spec fn eval_spec(
    st: StateV,
    locals: Map<Seq<char>, ExprV>,
    e: ExprV,
    fuel: nat,
) -> (StateV, Result<ExprV, InterpreterError>)
    decreases fuel, e, 0int,
{
    match e {
        ExprV::Literal { literal } => (st, Ok(e)),
        ExprV::Identifier { name } => {
            if locals.contains_key(name) {
                (st, Ok(locals[name]))
            } else if st.globals.contains_key(name) {
                (st, Ok(st.globals[name]))
            } else {
                (st, Ok(e))
            }
        },
        ExprV::Infix { operator, left, right } => {
            let (st1, lr) = eval_spec(st, locals, *left, fuel);
            match lr {
                Err(err) => (st1, Err(err)),
                Ok(lv) => {
                    let (st2, rr) = eval_spec(st1, locals, *right, fuel);
                    match rr {
                        Err(err) => (st2, Err(err)),
                        Ok(rv) => (st2, apply_infix(operator, lv, rv)),
                    }
                },
            }
        },
        ExprV::Pattern { pattern } => match pattern {
            PatternV::Tuple { elements } => {
                if elements.len() == 1 {
                    eval_spec(st, locals, elements[0], fuel)
                } else {
                    (st, Err(InterpreterError::NotYetSupported))
                }
            },
            _ => (st, Err(InterpreterError::NotYetSupported)),
        },
        ExprV::Method { name, signature, body } => {
            if define_allowed(st.registry, name, signature) {
                (
                    StateV {
                        registry: registry_after_define(st.registry, name, signature, *body),
                        globals: st.globals,
                    },
                    Ok(ExprV::Identifier { name }),
                )
            } else {
                (st, Err(InterpreterError::MethodSignatureExists))
            }
        },
        ExprV::Call { callee, arguments } => {
            let (st1, cr) = eval_spec(st, locals, *callee, fuel);
            match cr {
                Err(err) => (st1, Err(err)),
                Ok(cv) => match cv {
                    ExprV::Identifier { name } => {
                        let (st2, ar) = eval_call_args(st1, locals, *arguments, fuel);
                        match ar {
                            Err(err) => (st2, Err(err)),
                            Ok(argv) => match resolve_model(st2.registry, name, argv) {
                                Err(err) => (st2, Err(err)),
                                Ok((b, body)) => {
                                    if fuel == 0 {
                                        (st2, Err(InterpreterError::NotYetSupported))
                                    } else {
                                        eval_spec(st2, b, body, (fuel - 1) as nat)
                                    }
                                },
                            },
                        }
                    },
                    _ => (st1, Err(InterpreterError::UnexpectedType)),
                },
            }
        },
    }
}

/// The reduction of a call's argument-list expression before dispatch: a
/// tuple of arguments is reduced element-wise, keeping its tuple shape, so
/// that its arity stays visible to the matcher; any other argument
/// expression is reduced as an ordinary value.
pub open spec fn eval_call_args(
    st: StateV,
    locals: Map<Seq<char>, ExprV>,
    args: ExprV,
    fuel: nat,
) -> (StateV, Result<ExprV, InterpreterError>)
    decreases fuel, args, 1int,
{
    match args {
        ExprV::Pattern { pattern: PatternV::Tuple { elements } } => {
            let (st2, ar) = eval_args_spec(st, locals, elements, fuel);
            match ar {
                Err(err) => (st2, Err(err)),
                Ok(vs) => (st2, Ok(ExprV::Pattern { pattern: PatternV::Tuple { elements: vs } })),
            }
        },
        _ => eval_spec(st, locals, args, fuel),
    }
}

/// Strict left-to-right evaluation of the elements of an argument list,
/// threading the session state and stopping at the first error.
pub open spec fn eval_args_spec(
    st: StateV,
    locals: Map<Seq<char>, ExprV>,
    elems: Seq<ExprV>,
    fuel: nat,
) -> (StateV, Result<Seq<ExprV>, InterpreterError>)
    decreases fuel, elems, 0int,
{
    if elems.len() == 0 {
        (st, Ok(Seq::empty()))
    } else {
        let (st1, r0) = eval_spec(st, locals, elems[0], fuel);
        match r0 {
            Err(err) => (st1, Err(err)),
            Ok(v0) => {
                let (st2, rr) = eval_args_spec(
                    st1,
                    locals,
                    elems.subrange(1, elems.len() as int),
                    fuel,
                );
                match rr {
                    Err(err) => (st2, Err(err)),
                    Ok(vs) => (st2, Ok(seq![v0] + vs)),
                }
            },
        }
    }
}

/// The recursion budget of one top-level evaluation: how deep dispatch may
/// nest before the evaluator gives up with `NotYetSupported`.
pub const EVAL_FUEL: u64 = 4096;

/// One session: the multimethod registry and the global environment,
/// created empty at session start and living for the whole session.
pub struct Interpreter {
    /// A global namespace for variables.
    environment: Environment,
    /// Stores and linearizes the multimethods, by name.
    multimethods: StringHashMap<Multimethod>,
}

impl View for Interpreter {
    type V = StateV;

    closed spec fn view(&self) -> StateV {
        StateV {
            registry: self.multimethods@.map_values(|m: Multimethod| m@),
            globals: self.environment@,
        }
    }
}

impl Interpreter {
    /// A fresh session: empty registry, empty global environment.
    pub fn new() -> (r: Self)
        ensures
            r@.registry =~= Map::<Seq<char>, Seq<ReceiverV>>::empty(),
            r@.globals =~= Map::<Seq<char>, ExprV>::empty(),
    {
        let r = Self { environment: Environment::new(), multimethods: StringHashMap::new() };
        proof {
            assert(r@.registry =~= Map::<Seq<char>, Seq<ReceiverV>>::empty());
        }
        r
    }

    /// Registers one receiver: if no receiver of `name` has a structurally
    /// identical signature, appends (`signature`, `body`) at the end of
    /// `name`'s receiver order and acknowledges with `Identifier(name)`;
    /// otherwise fails with `MethodSignatureExists` and leaves the session
    /// exactly as it was. The global environment is never touched.
    pub fn define(&mut self, name: String, signature: Pattern, body: Box<Expression>) -> (r:
        Result<Box<Expression>, InterpreterError>)
        ensures
            define_allowed(old(self)@.registry, name@, pat_view(signature)) ==> {
                &&& r is Ok
                &&& r->Ok_0@ == (ExprV::Identifier { name: name@ })
                &&& final(self)@.registry == registry_after_define(
                    old(self)@.registry,
                    name@,
                    pat_view(signature),
                    expr_view(*body),
                )
            },
            !define_allowed(old(self)@.registry, name@, pat_view(signature)) ==> {
                &&& r == Err::<Box<Expression>, InterpreterError>(
                    InterpreterError::MethodSignatureExists,
                )
                &&& final(self)@ == old(self)@
            },
            final(self)@.globals == old(self)@.globals,
    {
        let ghost reg0 = self@.registry;
        let updated = match self.multimethods.get(name.as_str()) {
            Some(mm) => {
                proof {
                    assert(reg0.contains_key(name@));
                    assert(reg0[name@] == mm@);
                }
                if mm.contains_signature(&signature) {
                    proof {
                        assert(!define_allowed(reg0, name@, pat_view(signature)));
                    }
                    return Err(InterpreterError::MethodSignatureExists);
                }
                mm.appended(signature, body)
            },
            None => {
                proof {
                    assert(!reg0.contains_key(name@));
                }
                Multimethod::new(signature, body)
            },
        };
        let ghost mv = updated@;
        self.multimethods.insert(name.clone(), updated);
        proof {
            assert(self@.registry =~~= registry_after_define(
                reg0,
                name@,
                pat_view(signature),
                expr_view(*body),
            ));
        }
        Ok(Box::new(Expression::new(ExpressionKind::Identifier { name })))
    }

    /// Resolves a call: scans the receivers of `name` in definition order
    /// and returns the bindings and body of the first whose signature
    /// matches the reduced arguments, or `MethodSignatureNotFound` when the
    /// name is unknown or nothing matches.
    pub fn resolve(&self, name: &String, args: &Expression) -> (r: Result<
        (Bindings, Box<Expression>),
        InterpreterError,
    >)
        ensures
            match r {
                Ok(p) => resolve_model(self@.registry, name@, args@) == Ok::<
                    (Map<Seq<char>, ExprV>, ExprV),
                    InterpreterError,
                >((bindings_view(p.0), p.1@)),
                Err(e) => resolve_model(self@.registry, name@, args@) == Err::<
                    (Map<Seq<char>, ExprV>, ExprV),
                    InterpreterError,
                >(e),
            },
    {
        match self.multimethods.get(name.as_str()) {
            None => {
                proof {
                    assert(!self@.registry.contains_key(name@));
                }
                Err(InterpreterError::MethodSignatureNotFound)
            },
            Some(mm) => {
                proof {
                    assert(self@.registry.contains_key(name@));
                    assert(self@.registry[name@] == mm@);
                }
                match mm.resolve(args) {
                    Some(p) => Ok(p),
                    None => Err(InterpreterError::MethodSignatureNotFound),
                }
            },
        }
    }
}

/// Every expression view has positive size.
proof fn lemma_expr_size_pos(e: ExprV)
    ensures
        expr_size(e) >= 1,
{
    match e {
        ExprV::Literal { literal } => {},
        ExprV::Identifier { name } => {},
        ExprV::Infix { operator, left, right } => {},
        ExprV::Pattern { pattern } => {},
        ExprV::Method { name, signature, body } => {},
        ExprV::Call { callee, arguments } => {},
    }
}

/// Prefixing already-evaluated argument values onto the outcome of
/// evaluating the remaining ones.
pub open spec fn args_outcome(
    pre: Seq<ExprV>,
    o: (StateV, Result<Seq<ExprV>, InterpreterError>),
) -> (StateV, Result<Seq<ExprV>, InterpreterError>) {
    match o.1 {
        Ok(vs) => (o.0, Ok(pre + vs)),
        Err(err) => o,
    }
}

/// Unfolding one successful step of `eval_args_spec`.
proof fn lemma_eval_args_step(
    st: StateV,
    locals: Map<Seq<char>, ExprV>,
    elems: Seq<ExprV>,
    fuel: nat,
    st1: StateV,
    v0: ExprV,
)
    requires
        elems.len() > 0,
        eval_spec(st, locals, elems[0], fuel) == (st1, Ok::<ExprV, InterpreterError>(v0)),
    ensures
        eval_args_spec(st, locals, elems, fuel) == args_outcome(
            seq![v0],
            eval_args_spec(st1, locals, elems.subrange(1, elems.len() as int), fuel),
        ),
{
    let rest = eval_args_spec(st1, locals, elems.subrange(1, elems.len() as int), fuel);
    match rest.1 {
        Ok(vs) => {},
        Err(err) => {},
    }
}

/// Unfolding one failing step of `eval_args_spec`.
proof fn lemma_eval_args_err(
    st: StateV,
    locals: Map<Seq<char>, ExprV>,
    elems: Seq<ExprV>,
    fuel: nat,
    st1: StateV,
    err: InterpreterError,
)
    requires
        elems.len() > 0,
        eval_spec(st, locals, elems[0], fuel) == (st1, Err::<ExprV, InterpreterError>(err)),
    ensures
        eval_args_spec(st, locals, elems, fuel) == (st1, Err::<
            Seq<ExprV>,
            InterpreterError,
        >(err)),
{
}

/// Prefixing composes.
proof fn lemma_args_outcome_compose(
    a: Seq<ExprV>,
    b: Seq<ExprV>,
    o: (StateV, Result<Seq<ExprV>, InterpreterError>),
)
    ensures
        args_outcome(a, args_outcome(b, o)) == args_outcome(a + b, o),
{
    match o.1 {
        Ok(vs) => {
            assert(a + (b + vs) =~= (a + b) + vs);
        },
        Err(err) => {},
    }
}

impl Interpreter {
    /// The bit pattern of a reduced operand that must be a float literal;
    /// anything else is `UnexpectedType`.
    fn extract_float(&self, expr: &Expression) -> (r: Result<u64, InterpreterError>)
        ensures
            match r {
                Ok(bits) => expr@ == (ExprV::Literal { literal: Literal::Float { bits } }),
                Err(err) => {
                    &&& err == InterpreterError::UnexpectedType
                    &&& forall|bits: u64|
                        expr@ != (ExprV::Literal { literal: Literal::Float { bits } })
                },
            },
    {
        if let ExpressionKind::Literal(Literal::Float { bits }) = &expr.kind {
            Ok(*bits)
        } else {
            Err(InterpreterError::UnexpectedType)
        }
    }

    /// Evaluates one expression inside one top-level evaluation, with
    /// `locals` as the call-local scope and `fuel` as the remaining
    /// dispatch budget. Behaves exactly as `eval_spec` describes.
    #[verifier::loop_isolation(false)]
    #[verifier::rlimit(100)]
    fn eval_expr(&mut self, locals: &Environment, expr: &Expression, fuel: u64) -> (r: Result<
        Expression,
        InterpreterError,
    >)
        ensures
            ({
                let (st, res) = eval_spec(old(self)@, locals@, expr@, fuel as nat);
                &&& final(self)@ == st
                &&& match (r, res) {
                    (Ok(v), Ok(ev)) => v@ == ev,
                    (Err(a), Err(b)) => a == b,
                    _ => false,
                }
            }),
        decreases fuel, expr_size(expr@), 1int,
    {
        let ghost st0 = self@;
        let ghost e_v = expr@;
        match &expr.kind {
            ExpressionKind::Literal(l) => Ok(Expression::new(ExpressionKind::Literal(*l))),
            ExpressionKind::Identifier { name } => {
                match locals.get(name) {
                    Some(v) => Ok(v.duplicate()),
                    None => match self.environment.get(name) {
                        Some(v) => Ok(v.duplicate()),
                        None => Ok(
                            Expression::new(ExpressionKind::Identifier { name: name.clone() }),
                        ),
                    },
                }
            },
            ExpressionKind::Infix(ix) => {
                let lv = match self.eval_expr(locals, &ix.left, fuel) {
                    Ok(v) => v,
                    Err(err) => {
                        return Err(err);
                    },
                };
                let rv = match self.eval_expr(locals, &ix.right, fuel) {
                    Ok(v) => v,
                    Err(err) => {
                        return Err(err);
                    },
                };
                if ix.operator == InfixOperator::Minus {
                    return Err(InterpreterError::NotYetSupported);
                }
                let a = match self.extract_float(&lv) {
                    Ok(bits) => bits,
                    Err(err) => {
                        return Err(err);
                    },
                };
                let b = match self.extract_float(&rv) {
                    Ok(bits) => bits,
                    Err(err) => {
                        return Err(err);
                    },
                };
                let bits = match ix.operator {
                    InfixOperator::Plus => ieee_add(a, b),
                    InfixOperator::Star => ieee_mul(a, b),
                    InfixOperator::Slash => ieee_div(a, b),
                    InfixOperator::Minus => {
                        return Err(InterpreterError::NotYetSupported);
                    },
                };
                Ok(Expression::new(ExpressionKind::Literal(Literal::Float { bits })))
            },
            ExpressionKind::Pattern(p) => match p {
                Pattern::Tuple { elements } => {
                    if elements.len() == 1 {
                        proof {
                            lemma_exprs_view(elements@);
                            let s = exprs_view(elements@);
                            assert(s.drop_last() =~= Seq::<ExprV>::empty());
                            assert(exprs_size(Seq::<ExprV>::empty()) == 0);
                            assert(s.last() == s[0]);
                            assert(exprs_size(s) == expr_size(s[0]));
                            assert(expr_view(elements@[0]) == s[0]);
                            assert(pat_view(*p) == (PatternV::Tuple { elements: s }));
                            assert(e_v == (ExprV::Pattern { pattern: pat_view(*p) }));
                            assert(expr_size(e_v) == 1 + pat_size(pat_view(*p)));
                            assert(pat_size(pat_view(*p)) == 1 + exprs_size(s));
                            assert(expr_size(e_v) == 2 + exprs_size(s));
                        }
                        self.eval_expr(locals, &elements[0], fuel)
                    } else {
                        proof {
                            lemma_exprs_view(elements@);
                        }
                        Err(InterpreterError::NotYetSupported)
                    }
                },
                Pattern::Variable { name, type_constraint } => Err(
                    InterpreterError::NotYetSupported,
                ),
            },
            ExpressionKind::Method(m) => {
                let name = m.name.clone();
                let signature = m.signature.duplicate();
                let body = Box::new(m.body.duplicate());
                match self.define(name, signature, body) {
                    Ok(v) => {
                        proof {
                            assert(self@ =~= eval_spec(st0, locals@, e_v, fuel as nat).0);
                        }
                        Ok(*v)
                    },
                    Err(err) => Err(err),
                }
            },
            ExpressionKind::Call(c) => {
                proof {
                    assert(e_v == (ExprV::Call {
                        callee: Box::new(c.callee@),
                        arguments: Box::new(c.arguments@),
                    }));
                }
                self.eval_call(locals, c, fuel)
            },
        }
    }


    /// Evaluates a call node: reduces the callee to a multimethod name,
    /// reduces the arguments, resolves the receiver and evaluates its body
    /// in a fresh call-local scope seeded with the matcher's bindings.
    #[verifier::loop_isolation(false)]
    #[verifier::rlimit(100)]
    fn eval_call(&mut self, locals: &Environment, c: &Call, fuel: u64) -> (r: Result<
        Expression,
        InterpreterError,
    >)
        ensures
            ({
                let e = ExprV::Call {
                    callee: Box::new(c.callee@),
                    arguments: Box::new(c.arguments@),
                };
                let (st, res) = eval_spec(old(self)@, locals@, e, fuel as nat);
                &&& final(self)@ == st
                &&& match (r, res) {
                    (Ok(v), Ok(ev)) => v@ == ev,
                    (Err(a), Err(b)) => a == b,
                    _ => false,
                }
            }),
        decreases fuel, expr_size(
            ExprV::Call { callee: Box::new(c.callee@), arguments: Box::new(c.arguments@) },
        ), 0int,
    {
        let ghost st0 = self@;
        let ghost e_v = ExprV::Call {
            callee: Box::new(c.callee@),
            arguments: Box::new(c.arguments@),
        };
        proof {
            lemma_expr_size_pos(c.callee@);
            assert(expr_size(e_v) == 1 + expr_size(c.callee@) + expr_size(c.arguments@));
        }
        let cv = match self.eval_expr(locals, &c.callee, fuel) {
            Ok(v) => v,
            Err(err) => {
                return Err(err);
            },
        };
        let name = match &cv.kind {
            ExpressionKind::Identifier { name } => name.clone(),
            _ => {
                return Err(InterpreterError::UnexpectedType);
            },
        };
        let ghost st1 = self@;
        proof {
            let (st1s, cr) = eval_spec(st0, locals@, c.callee@, fuel as nat);
            assert(st1 == st1s);
            assert(cr == Ok::<ExprV, InterpreterError>(ExprV::Identifier { name: name@ }));
        }
        let argv = match &c.arguments.kind {
            ExpressionKind::Pattern(Pattern::Tuple { elements }) => {
                let ghost full = exprs_view(elements@);
                proof {
                    lemma_exprs_view(elements@);
                    assert(pat_view(c.arguments.kind->Pattern_0) == (PatternV::Tuple {
                        elements: full,
                    }));
                    assert(c.arguments@ == (ExprV::Pattern {
                        pattern: pat_view(c.arguments.kind->Pattern_0),
                    }));
                    assert(e_v == (ExprV::Call {
                        callee: Box::new(c.callee@),
                        arguments: Box::new(c.arguments@),
                    }));
                    lemma_expr_size_pos(c.callee@);
                    assert(expr_size(c.arguments@) == 1 + pat_size(
                        pat_view(c.arguments.kind->Pattern_0),
                    ));
                    assert(pat_size(pat_view(c.arguments.kind->Pattern_0)) == 1
                        + exprs_size(full));
                    assert(expr_size(e_v) == 1 + expr_size(c.callee@) + expr_size(
                        c.arguments@,
                    ));
                    assert(expr_size(e_v) > 2 + exprs_size(full));
                }
                let mut vals: Vec<Expression> = Vec::new();
                proof {
                    let o = eval_args_spec(self@, locals@, full, fuel as nat);
                    assert(exprs_view(vals@) =~= Seq::<ExprV>::empty());
                    match o.1 {
                        Ok(vs) => {
                            assert(exprs_view(vals@) + vs =~= vs);
                        },
                        Err(err) => {},
                    }
                    assert(full.subrange(0, full.len() as int) =~= full);
                }
                let n = elements.len();
                let mut i: usize = 0;
                while i < n
                    invariant
                        i <= n,
                        args_outcome(
                            exprs_view(vals@),
                            eval_args_spec(
                                self@,
                                locals@,
                                full.subrange(i as int, full.len() as int),
                                fuel as nat,
                            ),
                        ) == eval_args_spec(st1, locals@, full, fuel as nat),
                    decreases n - i,
                {
                    let ghost rem = full.subrange(i as int, full.len() as int);
                    let ghost pre_st = self@;
                    proof {
                        lemma_exprs_view(elements@);
                        lemma_exprs_size_ge(full, i as int);
                        assert(rem[0] == full[i as int]);
                        assert(rem.subrange(1, rem.len() as int) =~= full.subrange(
                            i + 1,
                            full.len() as int,
                        ));
                    }
                    let v = match self.eval_expr(locals, &elements[i], fuel) {
                        Ok(v) => v,
                        Err(err) => {
                            proof {
                                lemma_eval_args_err(
                                    pre_st,
                                    locals@,
                                    rem,
                                    fuel as nat,
                                    self@,
                                    err,
                                );
                                assert(eval_call_args(
                                    st1,
                                    locals@,
                                    c.arguments@,
                                    fuel as nat,
                                ) == (self@, Err::<ExprV, InterpreterError>(err)));
                            }
                            return Err(err);
                        },
                    };
                    proof {
                        lemma_eval_args_step(pre_st, locals@, rem, fuel as nat, self@, v@);
                        lemma_args_outcome_compose(
                            exprs_view(vals@),
                            seq![v@],
                            eval_args_spec(
                                self@,
                                locals@,
                                rem.subrange(1, rem.len() as int),
                                fuel as nat,
                            ),
                        );
                    }
                    let ghost vals_pre = vals@;
                    vals.push(v);
                    proof {
                        lemma_exprs_view(vals@);
                        lemma_exprs_view(vals_pre);
                        assert(exprs_view(vals@) =~= exprs_view(vals_pre) + seq![
                            expr_view(vals@[vals@.len() - 1]),
                        ]);
                    }
                    i = i + 1;
                }
                proof {
                    assert(full.subrange(i as int, full.len() as int).len() == 0);
                    let o = eval_args_spec(
                        self@,
                        locals@,
                        full.subrange(i as int, full.len() as int),
                        fuel as nat,
                    );
                    assert(o == (self@, Ok::<Seq<ExprV>, InterpreterError>(
                        Seq::<ExprV>::empty(),
                    )));
                    assert(exprs_view(vals@) + Seq::<ExprV>::empty() =~= exprs_view(
                        vals@,
                    ));
                    lemma_exprs_view(vals@);
                }
                proof {
                    assert(eval_args_spec(st1, locals@, full, fuel as nat) == (
                        self@,
                        Ok::<Seq<ExprV>, InterpreterError>(exprs_view(vals@)),
                    ));
                }
                let ghost vals_v = exprs_view(vals@);
                let pt = Pattern::Tuple { elements: vals };
                let ghost pt_v = pat_view(pt);
                proof {
                    assert(pt_v == (PatternV::Tuple { elements: vals_v }));
                }
                let argv_e = Expression {
                    kind: ExpressionKind::Pattern(pt),
                    start_pos: c.arguments.start_pos,
                    end_pos: c.arguments.end_pos,
                };
                proof {
                    assert(argv_e@ == (ExprV::Pattern { pattern: pt_v }));
                    assert(eval_call_args(st1, locals@, c.arguments@, fuel as nat) == (
                        self@,
                        Ok::<ExprV, InterpreterError>(argv_e@),
                    ));
                }
                argv_e
            },
            _ => {
                proof {
                    assert(!(c.arguments@ is Pattern
                        && c.arguments@->Pattern_pattern is Tuple));
                }
                match self.eval_expr(locals, &c.arguments, fuel) {
                    Ok(v) => {
                        proof {
                            assert(eval_call_args(
                                st1,
                                locals@,
                                c.arguments@,
                                fuel as nat,
                            ) == (self@, Ok::<ExprV, InterpreterError>(v@)));
                        }
                        v
                    },
                    Err(err) => {
                        proof {
                            assert(eval_call_args(
                                st1,
                                locals@,
                                c.arguments@,
                                fuel as nat,
                            ) == (self@, Err::<ExprV, InterpreterError>(err)));
                        }
                        return Err(err);
                    },
                }
            },
        };
        let ghost st2 = self@;
        let ghost argv_v = argv@;
        let out = match self.resolve(&name, &argv) {
            Err(err) => Err(err),
            Ok((bindings, body)) => {
                if fuel == 0 {
                    Err(InterpreterError::NotYetSupported)
                } else {
                    let local_env = Environment::from_bindings(bindings);
                    self.eval_expr(&local_env, &body, fuel - 1)
                }
            },
        };
        proof {
            assert(eval_call_args(st1, locals@, c.arguments@, fuel as nat) == (
                st2,
                Ok::<ExprV, InterpreterError>(argv_v),
            ));
            let (st, res) = eval_spec(st0, locals@, e_v, fuel as nat);
            assert(self@ == st);
            assert(match (out, res) {
                (Ok(v), Ok(ev)) => v@ == ev,
                (Err(a), Err(b)) => a == b,
                _ => false,
            });
        }
        out
    }

    /// Evaluates one top-level expression: reduces it to a value or an
    /// error, exactly as `eval_spec` describes with an empty call-local
    /// scope and the full recursion budget. Definitions accumulated by
    /// earlier evaluations are visible; state changes made before an error
    /// are kept.
    pub fn evaluate(&mut self, expr: Box<Expression>) -> (r: Result<
        Box<Expression>,
        InterpreterError,
    >)
        ensures
            ({
                let (st, res) = eval_spec(
                    old(self)@,
                    Map::<Seq<char>, ExprV>::empty(),
                    expr@,
                    EVAL_FUEL as nat,
                );
                &&& final(self)@ == st
                &&& match (r, res) {
                    (Ok(v), Ok(ev)) => v@ == ev,
                    (Err(a), Err(b)) => a == b,
                    _ => false,
                }
            }),
    {
        let locals = Environment::new();
        proof {
            assert(locals@ =~= Map::<Seq<char>, ExprV>::empty());
        }
        match self.eval_expr(&locals, &expr, EVAL_FUEL) {
            Ok(v) => Ok(Box::new(v)),
            Err(err) => Err(err),
        }
    }
}

} // verus!
