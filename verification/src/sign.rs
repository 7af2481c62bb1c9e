//! The two-element group of signs.

use vstd::prelude::*;
use vstd::string::StringExecFns;

verus! {

/// The sign carried by a blade: the multiplicative group `{+1, -1}`.
#[derive(PartialEq, Eq, Structural, Debug, Clone, Copy)]
pub enum Sign {
    Pos,
    Neg,
}

impl Sign {
    /// The opposite sign.
    pub open spec fn negated(self) -> Sign {
        match self {
            Sign::Pos => Sign::Neg,
            Sign::Neg => Sign::Pos,
        }
    }

    /// The product of two signs: positive exactly when they agree.
    pub open spec fn times(self, rhs: Sign) -> Sign {
        if self == rhs {
            Sign::Pos
        } else {
            Sign::Neg
        }
    }

    /// The sign after `flips` reversals: unchanged for an even count,
    /// opposite for an odd one.
    pub open spec fn flipped(self, flips: nat) -> Sign {
        if flips % 2 == 0 {
            self
        } else {
            self.negated()
        }
    }

    /// The text a sign contributes in front of a blade: nothing for `Pos`,
    /// a minus for `Neg`.
    pub open spec fn text(self) -> Seq<char> {
        match self {
            Sign::Pos => Seq::empty(),
            Sign::Neg => seq!['-'],
        }
    }

    /// Flips the sign.
    #[verifier::when_used_as_spec(negated)]
    pub fn neg(self) -> (r: Sign)
        ensures
            r == self.negated(),
    {
        match self {
            Sign::Pos => Sign::Neg,
            Sign::Neg => Sign::Pos,
        }
    }

    /// The group operation.
    #[verifier::when_used_as_spec(times)]
    pub fn mul(self, rhs: Sign) -> (r: Sign)
        ensures
            r == self.times(rhs),
    {
        match (self, rhs) {
            (Sign::Pos, Sign::Pos) => Sign::Pos,
            (Sign::Pos, Sign::Neg) => Sign::Neg,
            (Sign::Neg, Sign::Pos) => Sign::Neg,
            (Sign::Neg, Sign::Neg) => Sign::Pos,
        }
    }

    /// Renders the sign as it is written in front of a blade.
    pub fn to_string(&self) -> (r: String)
        ensures
            r@ == self.text(),
    {
        match self {
            Sign::Pos => String::new(),
            Sign::Neg => {
                proof {
                    reveal_strlit("-");
                }
                let r = String::from_str("-");
                assert(r@ =~= seq!['-']);
                r
            },
        }
    }
}

/// Flipping a sign twice gives it back.
pub proof fn lemma_neg_involution(s: Sign)
    ensures
        s.neg().neg() == s,
{
}

/// The product of signs does not depend on the order of its factors.
pub proof fn lemma_mul_commutative(a: Sign, b: Sign)
    ensures
        a.mul(b) == b.mul(a),
{
}

/// The product of three signs does not depend on how they are grouped.
pub proof fn lemma_mul_associative(a: Sign, b: Sign, c: Sign)
    ensures
        a.mul(b).mul(c) == a.mul(b.mul(c)),
{
}

/// `Pos` is the identity of the group, and every sign is its own inverse.
pub proof fn lemma_mul_identity_inverse(s: Sign)
    ensures
        Sign::Pos.mul(s) == s,
        s.mul(Sign::Pos) == s,
        s.mul(s) == Sign::Pos,
{
}

} // verus!
