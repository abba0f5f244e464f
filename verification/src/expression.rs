//! The expression model: a single recursive tagged union serving both as
//! syntax (what the evaluator reduces) and as values (what it reduces to).
//!
//! Every node carries a source span (`start_pos`/`end_pos`) for diagnostics.
//! Spans are opaque to the semantics: the mathematical view of an expression
//! (`ExprV`) drops them, so no contract in this crate ever depends on them.

use vstd::prelude::*;

verus! {

/// The kind tag of a literal value, also usable as a type constraint
/// in a variable pattern.
#[derive(Clone, Copy, Debug, PartialEq, Eq, Structural)]
pub enum LiteralKind {
    Float,
    Int,
}

/// An already-reduced value. A `Float` carries the bit pattern of an
/// IEEE-754 binary64 number; an `Int` carries a signed 64-bit integer.
#[derive(Clone, Copy, Debug, PartialEq, Eq, Structural)]
pub enum Literal {
    Float { bits: u64 },
    Int { value: i64 },
}

/// The operator of a binary arithmetic expression.
#[derive(Clone, Copy, Debug, PartialEq, Eq, Structural)]
pub enum InfixOperator {
    Plus,
    Minus,
    Star,
    Slash,
}

/// One expression node: a kind plus its source span.
#[derive(Debug)]
pub struct Expression {
    pub kind: ExpressionKind,
    pub start_pos: usize,
    pub end_pos: usize,
}

/// The tagged union over all expression forms.
#[derive(Debug)]
pub enum ExpressionKind {
    /// An already-reduced value.
    Literal(Literal),
    /// A binary arithmetic operation over two sub-expressions.
    Infix(Infix),
    /// A signature-pattern node, also reused as a degenerate single-child
    /// grouping construct when it appears in value position.
    Pattern(Pattern),
    /// A clause definition: a name, one signature pattern and a body.
    Method(Method),
    /// An invocation: a callee expression and an argument-list expression.
    Call(Call),
    /// A bare name, used both as a callee and as the acknowledgment value
    /// returned by a successful definition.
    Identifier { name: String },
}

/// A binary arithmetic operation over two sub-expressions.
#[derive(Debug)]
pub struct Infix {
    pub operator: InfixOperator,
    pub left: Box<Expression>,
    pub right: Box<Expression>,
}

/// A clause definition: registering it adds one receiver to the multimethod
/// called `name`.
#[derive(Debug)]
pub struct Method {
    pub name: String,
    pub signature: Pattern,
    pub body: Box<Expression>,
}

/// An invocation: the callee must reduce to an identifier naming a
/// multimethod; the arguments are matched against receiver signatures.
#[derive(Debug)]
pub struct Call {
    pub callee: Box<Expression>,
    pub arguments: Box<Expression>,
}

/// A dispatch signature pattern.
#[derive(Debug)]
pub enum Pattern {
    /// Matches any single value; binds it to `name` if one is present and is
    /// not the wildcard `_`. If `type_constraint` is set, the match fails
    /// unless the candidate value is a literal of that kind.
    Variable { name: Option<String>, type_constraint: Option<LiteralKind> },
    /// Matches only an argument list of exactly this arity, element-wise.
    Tuple { elements: Vec<Expression> },
}

/// The mathematical view of an expression: the same tree with names as
/// character sequences and spans dropped.
#[verifier::ext_equal]
pub enum ExprV {
    Literal { literal: Literal },
    Infix { operator: InfixOperator, left: Box<ExprV>, right: Box<ExprV> },
    Pattern { pattern: PatternV },
    Method { name: Seq<char>, signature: PatternV, body: Box<ExprV> },
    Call { callee: Box<ExprV>, arguments: Box<ExprV> },
    Identifier { name: Seq<char> },
}

/// The mathematical view of a signature pattern.
#[verifier::ext_equal]
pub enum PatternV {
    Variable { name: Option<Seq<char>>, type_constraint: Option<LiteralKind> },
    Tuple { elements: Seq<ExprV> },
}

/// The view of an expression: spans are dropped, names become sequences.
pub open spec fn expr_view(e: Expression) -> ExprV
    decreases e,
{
    match e.kind {
        ExpressionKind::Literal(l) => ExprV::Literal { literal: l },
        ExpressionKind::Infix(ix) => ExprV::Infix {
            operator: ix.operator,
            left: Box::new(expr_view(*ix.left)),
            right: Box::new(expr_view(*ix.right)),
        },
        ExpressionKind::Pattern(p) => ExprV::Pattern { pattern: pat_view(p) },
        ExpressionKind::Method(m) => ExprV::Method {
            name: m.name@,
            signature: pat_view(m.signature),
            body: Box::new(expr_view(*m.body)),
        },
        ExpressionKind::Call(c) => ExprV::Call {
            callee: Box::new(expr_view(*c.callee)),
            arguments: Box::new(expr_view(*c.arguments)),
        },
        ExpressionKind::Identifier { name } => ExprV::Identifier { name: name@ },
    }
}

/// The view of a pattern.
pub open spec fn pat_view(p: Pattern) -> PatternV
    decreases p,
{
    match p {
        Pattern::Variable { name, type_constraint } => PatternV::Variable {
            name: match name {
                Some(n) => Some(n@),
                None => None,
            },
            type_constraint,
        },
        Pattern::Tuple { elements } => PatternV::Tuple { elements: exprs_view(elements@) },
    }
}

/// The view of a sequence of expressions, element by element.
pub open spec fn exprs_view(s: Seq<Expression>) -> Seq<ExprV>
    decreases s,
{
    if s.len() == 0 {
        Seq::empty()
    } else {
        exprs_view(s.drop_last()).push(expr_view(s.last()))
    }
}

/// `exprs_view` maps `expr_view` over the sequence pointwise.
pub proof fn lemma_exprs_view(s: Seq<Expression>)
    ensures
        exprs_view(s).len() == s.len(),
        forall|i: int| 0 <= i < s.len() ==> exprs_view(s)[i] == expr_view(s[i]),
    decreases s,
{
    if s.len() > 0 {
        lemma_exprs_view(s.drop_last());
    }
}

impl View for Expression {
    type V = ExprV;

    open spec fn view(&self) -> ExprV {
        expr_view(*self)
    }
}

impl View for Pattern {
    type V = PatternV;

    open spec fn view(&self) -> PatternV {
        pat_view(*self)
    }
}

/// The size of an expression view, used as a termination measure by the
/// executable functions that walk an expression tree.
pub open spec fn expr_size(e: ExprV) -> nat
    decreases e,
{
    match e {
        ExprV::Literal { literal } => 1,
        ExprV::Identifier { name } => 1,
        ExprV::Infix { operator, left, right } => 1 + expr_size(*left) + expr_size(*right),
        ExprV::Pattern { pattern } => 1 + pat_size(pattern),
        ExprV::Method { name, signature, body } => 1 + pat_size(signature) + expr_size(*body),
        ExprV::Call { callee, arguments } => 1 + expr_size(*callee) + expr_size(*arguments),
    }
}

/// The size of a pattern view.
pub open spec fn pat_size(p: PatternV) -> nat
    decreases p,
{
    match p {
        PatternV::Variable { name, type_constraint } => 1,
        PatternV::Tuple { elements } => 1 + exprs_size(elements),
    }
}

/// The summed size of a sequence of expression views.
pub open spec fn exprs_size(s: Seq<ExprV>) -> nat
    decreases s,
{
    if s.len() == 0 {
        0
    } else {
        exprs_size(s.drop_last()) + expr_size(s.last())
    }
}

/// Each element's size is bounded by the size of the whole sequence.
pub proof fn lemma_exprs_size_ge(s: Seq<ExprV>, i: int)
    requires
        0 <= i < s.len(),
    ensures
        exprs_size(s) >= expr_size(s[i]),
    decreases s,
{
    if i < s.len() - 1 {
        lemma_exprs_size_ge(s.drop_last(), i);
        assert(s.drop_last()[i] == s[i]);
    }
}

/// Two sequences of expressions that agree pointwise on views have the same
/// sequence view.
pub proof fn lemma_exprs_view_pointwise(a: Seq<Expression>, b: Seq<Expression>)
    requires
        a.len() == b.len(),
        forall|i: int| 0 <= i < a.len() ==> expr_view(a[i]) == expr_view(b[i]),
    ensures
        exprs_view(a) == exprs_view(b),
{
    lemma_exprs_view(a);
    lemma_exprs_view(b);
    assert(exprs_view(a) =~= exprs_view(b));
}

impl Expression {
    /// Builds an expression node with an empty span, as the evaluator does
    /// for every node it produces.
    pub fn new(kind: ExpressionKind) -> (r: Expression)
        ensures
            r@ == expr_view(Expression { kind, start_pos: 0, end_pos: 0 }),
            r.start_pos == 0 && r.end_pos == 0,
    {
        Expression { kind, start_pos: 0, end_pos: 0 }
    }

    /// Deep copy. The copy has the same view (and the same span) as the
    /// original.
    pub fn duplicate(&self) -> (r: Expression)
        ensures
            r@ == self@,
        decreases expr_size(expr_view(*self)),
    {
        let kind = match &self.kind {
            ExpressionKind::Literal(l) => ExpressionKind::Literal(*l),
            ExpressionKind::Infix(ix) => ExpressionKind::Infix(Infix {
                operator: ix.operator,
                left: Box::new(ix.left.duplicate()),
                right: Box::new(ix.right.duplicate()),
            }),
            ExpressionKind::Pattern(p) => ExpressionKind::Pattern(p.duplicate()),
            ExpressionKind::Method(m) => ExpressionKind::Method(Method {
                name: m.name.clone(),
                signature: m.signature.duplicate(),
                body: Box::new(m.body.duplicate()),
            }),
            ExpressionKind::Call(c) => ExpressionKind::Call(Call {
                callee: Box::new(c.callee.duplicate()),
                arguments: Box::new(c.arguments.duplicate()),
            }),
            ExpressionKind::Identifier { name } => ExpressionKind::Identifier {
                name: name.clone(),
            },
        };
        Expression { kind, start_pos: self.start_pos, end_pos: self.end_pos }
    }
}

impl Pattern {
    /// Deep copy. The copy has the same view as the original.
    pub fn duplicate(&self) -> (r: Pattern)
        ensures
            r@ == self@,
        decreases pat_size(pat_view(*self)),
    {
        match self {
            Pattern::Variable { name, type_constraint } => Pattern::Variable {
                name: match name {
                    Some(n) => Some(n.clone()),
                    None => None,
                },
                type_constraint: *type_constraint,
            },
            Pattern::Tuple { elements } => {
                let mut out: Vec<Expression> = Vec::new();
                let mut i: usize = 0;
                while i < elements.len()
                    invariant
                        i <= elements.len(),
                        out@.len() == i as nat,
                        *self == (Pattern::Tuple { elements: *elements }),
                        forall|j: int|
                            0 <= j < i ==> #[trigger] expr_view(out@[j]) == expr_view(elements@[j]),
                    decreases elements@.len() - i,
                {
                    proof {
                        lemma_exprs_view(elements@);
                        lemma_exprs_size_ge(exprs_view(elements@), i as int);
                    }
                    let d = elements[i].duplicate();
                    out.push(d);
                    i = i + 1;
                }
                proof {
                    lemma_exprs_view_pointwise(out@, elements@);
                }
                Pattern::Tuple { elements: out }
            },
        }
    }
}

/// Structural equality of two expressions, as the views define it: spans
/// are ignored, everything else is compared deeply.
pub fn expr_eq(a: &Expression, b: &Expression) -> (r: bool)
    ensures
        r == (a@ == b@),
    decreases expr_size(expr_view(*a)),
{
    match (&a.kind, &b.kind) {
        (ExpressionKind::Literal(x), ExpressionKind::Literal(y)) => *x == *y,
        (ExpressionKind::Infix(x), ExpressionKind::Infix(y)) => {
            x.operator == y.operator && expr_eq(&x.left, &y.left) && expr_eq(&x.right, &y.right)
        },
        (ExpressionKind::Pattern(p), ExpressionKind::Pattern(q)) => pattern_eq(p, q),
        (ExpressionKind::Method(m), ExpressionKind::Method(n)) => {
            m.name.eq(&n.name) && pattern_eq(&m.signature, &n.signature) && expr_eq(
                &m.body,
                &n.body,
            )
        },
        (ExpressionKind::Call(c), ExpressionKind::Call(d)) => {
            expr_eq(&c.callee, &d.callee) && expr_eq(&c.arguments, &d.arguments)
        },
        (ExpressionKind::Identifier { name: x }, ExpressionKind::Identifier { name: y }) => {
            x.eq(y)
        },
        _ => false,
    }
}

/// Structural equality of two signature patterns, as the views define it:
/// deep equality of the pattern tree, with spans ignored.
pub fn pattern_eq(a: &Pattern, b: &Pattern) -> (r: bool)
    ensures
        r == (a@ == b@),
    decreases pat_size(pat_view(*a)),
{
    match (a, b) {
        (
            Pattern::Variable { name: n1, type_constraint: t1 },
            Pattern::Variable { name: n2, type_constraint: t2 },
        ) => {
            let names_eq = match (n1, n2) {
                (None, None) => true,
                (Some(x), Some(y)) => x.eq(y),
                _ => false,
            };
            let constraints_eq = match (t1, t2) {
                (None, None) => true,
                (Some(x), Some(y)) => *x == *y,
                _ => false,
            };
            names_eq && constraints_eq
        },
        (Pattern::Tuple { elements: e1 }, Pattern::Tuple { elements: e2 }) => {
            if e1.len() != e2.len() {
                proof {
                    lemma_exprs_view(e1@);
                    lemma_exprs_view(e2@);
                }
                false
            } else {
                let mut i: usize = 0;
                while i < e1.len()
                    invariant
                        i <= e1.len(),
                        e1@.len() == e2@.len(),
                        *a == (Pattern::Tuple { elements: *e1 }),
                        *b == (Pattern::Tuple { elements: *e2 }),
                        forall|j: int|
                            0 <= j < i ==> #[trigger] expr_view(e1@[j]) == expr_view(e2@[j]),
                    decreases e1@.len() - i,
                {
                    proof {
                        lemma_exprs_view(e1@);
                        lemma_exprs_size_ge(exprs_view(e1@), i as int);
                    }
                    if !expr_eq(&e1[i], &e2[i]) {
                        proof {
                            lemma_exprs_view(e1@);
                            lemma_exprs_view(e2@);
                            assert(expr_view(e1@[i as int]) != expr_view(e2@[i as int]));
                            assert(exprs_view(e1@)[i as int] != exprs_view(e2@)[i as int]);
                            assert(a@ != b@) by {
                                if a@ == b@ {
                                    assert(exprs_view(e1@) == exprs_view(e2@));
                                }
                            }
                        }
                        return false;
                    }
                    i = i + 1;
                }
                proof {
                    lemma_exprs_view_pointwise(e1@, e2@);
                }
                true
            }
        },
        _ => false,
    }
}

} // verus!
