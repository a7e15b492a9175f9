//! The certainty lattice: proved, or undecided with a cause.

use vstd::prelude::*;

verus! {

/// Why a goal could not be decided yet.
#[derive(Debug, Clone, Copy, PartialEq, Eq, Structural)]
pub enum MaybeCause {
    /// Not enough is known about the inference variables involved.
    Ambiguity,
    /// Evaluation was cut off by a recursion or iteration limit.
    Overflow,
}

/// The outcome of a goal that was not refuted: proved, or not decided yet.
#[derive(Debug, Clone, Copy, PartialEq, Eq, Structural)]
pub enum Certainty {
    Yes,
    Maybe(MaybeCause),
}

impl MaybeCause {
    /// Joining two causes: overflow only survives where both sides overflowed.
    pub open spec fn join(self, other: MaybeCause) -> MaybeCause {
        match (self, other) {
            (MaybeCause::Overflow, MaybeCause::Overflow) => MaybeCause::Overflow,
            _ => MaybeCause::Ambiguity,
        }
    }

    pub fn unify_with(self, other: MaybeCause) -> (r: MaybeCause)
        ensures
            r == self.join(other),
    {
        match (self, other) {
            (MaybeCause::Overflow, MaybeCause::Overflow) => MaybeCause::Overflow,
            _ => MaybeCause::Ambiguity,
        }
    }
}

impl Certainty {
    /// Conjunction of two outcomes: `Yes` only where both are `Yes`.
    pub open spec fn join(self, other: Certainty) -> Certainty {
        match (self, other) {
            (Certainty::Yes, Certainty::Yes) => Certainty::Yes,
            (Certainty::Yes, Certainty::Maybe(_)) => other,
            (Certainty::Maybe(_), Certainty::Yes) => self,
            (Certainty::Maybe(a), Certainty::Maybe(b)) => Certainty::Maybe(a.join(b)),
        }
    }

    /// The plain "not decided yet" outcome.
    pub open spec fn ambiguous_spec() -> Certainty {
        Certainty::Maybe(MaybeCause::Ambiguity)
    }

    pub fn ambiguous() -> (r: Certainty)
        ensures
            r == Certainty::ambiguous_spec(),
    {
        Certainty::Maybe(MaybeCause::Ambiguity)
    }

    pub fn overflow() -> (r: Certainty)
        ensures
            r == Certainty::Maybe(MaybeCause::Overflow),
    {
        Certainty::Maybe(MaybeCause::Overflow)
    }

    pub fn unify_with(self, other: Certainty) -> (r: Certainty)
        ensures
            r == self.join(other),
    {
        match (self, other) {
            (Certainty::Yes, Certainty::Yes) => Certainty::Yes,
            (Certainty::Yes, Certainty::Maybe(_)) => other,
            (Certainty::Maybe(_), Certainty::Yes) => self,
            (Certainty::Maybe(a), Certainty::Maybe(b)) => Certainty::Maybe(a.unify_with(b)),
        }
    }
}

/// Joining certainties does not depend on the order of the two sides.
pub proof fn lemma_join_commutative(x: Certainty, y: Certainty)
    ensures
        x.join(y) == y.join(x),
{
}

/// Joining certainties does not depend on how a chain of joins is grouped.
pub proof fn lemma_join_associative(x: Certainty, y: Certainty, z: Certainty)
    ensures
        x.join(y.join(z)) == x.join(y).join(z),
{
}

/// `Yes` is the neutral element of the join: it keeps `Yes` and any ambiguity as they are.
pub proof fn lemma_join_yes(c: MaybeCause)
    ensures
        Certainty::Yes.join(Certainty::Yes) == Certainty::Yes,
        Certainty::Yes.join(Certainty::Maybe(c)) == Certainty::Maybe(c),
        Certainty::Maybe(c).join(Certainty::Yes) == Certainty::Maybe(c),
{
}

/// Once a side is undecided, no join with it can come out as `Yes`.
pub proof fn lemma_join_maybe_absorbs(c: MaybeCause, x: Certainty)
    ensures
        Certainty::Maybe(c).join(x) is Maybe,
        x.join(Certainty::Maybe(c)) is Maybe,
{
}

} // verus!
