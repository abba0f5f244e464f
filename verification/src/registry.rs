//! Multimethods: per name, an ordered set of (signature, body) receivers.
//!
//! The order of the receivers is definition order and is semantically
//! meaningful: resolution scans it front to back and the first receiver
//! whose signature matches the call's arguments wins. No two receivers of
//! one multimethod may carry structurally identical signatures.

use vstd::prelude::*;

use crate::expression::Expression;
use crate::expression::ExpressionKind;
use crate::expression::ExprV;
use crate::expression::Pattern;
use crate::expression::PatternV;
use crate::expression::expr_view;
use crate::expression::pat_view;
use crate::expression::pattern_eq;
use crate::matcher::Bindings;
use crate::matcher::bindings_view;
use crate::matcher::match_pat;
use crate::matcher::match_pattern;

verus! {

/// One receiver: a signature pattern guarding a body expression.
#[derive(Debug)]
pub struct Receiver {
    pub signature: Pattern,
    pub body: Box<Expression>,
}

/// The mathematical view of a receiver.
#[verifier::ext_equal]
pub struct ReceiverV {
    pub signature: PatternV,
    pub body: ExprV,
}

impl View for Receiver {
    type V = ReceiverV;

    open spec fn view(&self) -> ReceiverV {
        ReceiverV { signature: pat_view(self.signature), body: expr_view(*self.body) }
    }
}

/// A multimethod: the ordered receivers registered under one name.
#[derive(Debug)]
pub struct Multimethod {
    /// The individual signatures and bodies this multimethod is composed
    /// of, in definition order.
    pub receivers: Vec<Receiver>,
}

impl View for Multimethod {
    type V = Seq<ReceiverV>;

    open spec fn view(&self) -> Seq<ReceiverV> {
        Seq::new(self.receivers@.len(), |i: int| self.receivers@[i]@)
    }
}

/// Whether some receiver in `rs` has a signature structurally identical to
/// `sig`.
pub open spec fn has_signature(rs: Seq<ReceiverV>, sig: PatternV) -> bool {
    exists|i: int| 0 <= i < rs.len() && rs[i].signature == sig
}

/// Resolution over an ordered receiver sequence: the bindings and body of
/// the first receiver whose signature matches the reduced arguments
/// (starting from an empty set of bindings), or `None` when none matches.
pub open spec fn first_match(rs: Seq<ReceiverV>, args: ExprV) -> Option<
    (Map<Seq<char>, ExprV>, ExprV),
>
    decreases rs.len(),
{
    if rs.len() == 0 {
        None
    } else {
        match match_pat(rs[0].signature, args, Map::empty()) {
            Some(b) => Some((b, rs[0].body)),
            None => first_match(rs.subrange(1, rs.len() as int), args),
        }
    }
}

/// Stepping `first_match` past a receiver whose signature did not match.
pub proof fn lemma_first_match_skip(rs: Seq<ReceiverV>, args: ExprV, i: int)
    requires
        0 <= i < rs.len(),
        match_pat(rs[i].signature, args, Map::empty()) is None,
    ensures
        first_match(rs.subrange(i, rs.len() as int), args) == first_match(
            rs.subrange(i + 1, rs.len() as int),
            args,
        ),
{
    let sub = rs.subrange(i, rs.len() as int);
    assert(sub[0] == rs[i]);
    assert(sub.subrange(1, sub.len() as int) =~= rs.subrange(i + 1, rs.len() as int));
}

impl Multimethod {
    /// A fresh multimethod holding the one given receiver.
    pub fn new(signature: Pattern, body: Box<Expression>) -> (r: Self)
        ensures
            r@ =~= seq![
                ReceiverV { signature: pat_view(signature), body: expr_view(*body) },
            ],
    {
        let mut receivers: Vec<Receiver> = Vec::new();
        receivers.push(Receiver { signature, body });
        Self { receivers }
    }

    /// Whether a receiver with a signature structurally identical to `sig`
    /// is already registered.
    pub fn contains_signature(&self, sig: &Pattern) -> (r: bool)
        ensures
            r == has_signature(self@, sig@),
    {
        let n = self.receivers.len();
        let mut i: usize = 0;
        while i < n
            invariant
                i <= n,
                n == self.receivers@.len(),
                forall|j: int| 0 <= j < i ==> #[trigger] self@[j].signature != sig@,
            decreases n - i,
        {
            if pattern_eq(&self.receivers[i].signature, sig) {
                proof {
                    assert(self@[i as int].signature == sig@);
                }
                return true;
            }
            i = i + 1;
        }
        false
    }

    /// A copy of this multimethod with one more receiver appended at the
    /// end of the order.
    pub fn appended(&self, signature: Pattern, body: Box<Expression>) -> (r: Self)
        ensures
            r@ =~= self@.push(
                ReceiverV { signature: pat_view(signature), body: expr_view(*body) },
            ),
    {
        let n = self.receivers.len();
        let mut receivers: Vec<Receiver> = Vec::new();
        let mut i: usize = 0;
        while i < n
            invariant
                i <= n,
                n == self.receivers@.len(),
                receivers@.len() == i as nat,
                forall|j: int| 0 <= j < i ==> #[trigger] receivers@[j]@ == self@[j],
            decreases n - i,
        {
            let rcv = &self.receivers[i];
            receivers.push(Receiver {
                signature: rcv.signature.duplicate(),
                body: Box::new(rcv.body.duplicate()),
            });
            i = i + 1;
        }
        receivers.push(Receiver { signature, body });
        Self { receivers }
    }

    /// Scans the receivers in definition order and returns the bindings and
    /// a copy of the body of the first one whose signature matches the
    /// reduced arguments, exactly as `first_match` describes.
    pub fn resolve(&self, args: &Expression) -> (r: Option<(Bindings, Box<Expression>)>)
        ensures
            match r {
                Some(p) => first_match(self@, args@) == Some(
                    (bindings_view(p.0), p.1@),
                ),
                None => first_match(self@, args@) is None,
            },
    {
        let n = self.receivers.len();
        let mut i: usize = 0;
        proof {
            assert(self@.subrange(0, self@.len() as int) =~= self@);
        }
        while i < n
            invariant
                i <= n,
                n == self.receivers@.len(),
                first_match(self@, args@) == first_match(
                    self@.subrange(i as int, self@.len() as int),
                    args@,
                ),
            decreases n - i,
        {
            let mut bindings = Bindings::new();
            proof {
                assert(bindings_view(bindings) =~= Map::<Seq<char>, ExprV>::empty());
            }
            if match_pattern(&self.receivers[i].signature, args, &mut bindings) {
                let body = Box::new(self.receivers[i].body.duplicate());
                proof {
                    let sub = self@.subrange(i as int, self@.len() as int);
                    assert(sub[0] == self@[i as int]);
                }
                return Some((bindings, body));
            }
            proof {
                lemma_first_match_skip(self@, args@, i as int);
            }
            i = i + 1;
        }
        proof {
            assert(self@.subrange(i as int, self@.len() as int).len() == 0);
        }
        None
    }
}

} // verus!
