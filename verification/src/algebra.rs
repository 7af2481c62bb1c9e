//! Algebras named by their signature.

use crate::common::pow;
use crate::metric::{Metric, Square};
use vstd::prelude::*;

verus! {

/// A geometric algebra:
/// - `P`: positive dimensions
/// - `Q`: negative dimensions
/// - `R`: degenerate dimensions
#[derive(Clone, Copy, Debug)]
pub struct Algebra<const P: usize, const Q: usize, const R: usize>();

pub type Real = Algebra<0, 0, 0>;

pub type Hyperbolic = Algebra<1, 0, 0>;

pub type Complex = Algebra<0, 1, 0>;

pub type Dual = Algebra<0, 0, 1>;

/// Vector-space algebra of `D` Euclidean dimensions.
pub type VGA<const D: usize> = Algebra<D, 0, 0>;

pub type VGA2 = VGA<2>;

pub type VGA3 = VGA<3>;

/// Projective algebra of `D` Euclidean dimensions.
pub type PGA<const D: usize> = Algebra<D, 0, 1>;

pub type PGA2 = PGA<2>;

pub type PGA3 = PGA<3>;

/// Conformal algebra of the plane.
pub type CGA2 = Algebra<3, 1, 0>;

/// Conformal algebra of space.
pub type CGA3 = Algebra<4, 1, 0>;

/// The square of the generator `axis` in the signature `(p, q, r)`: the
/// first `p` generators square to `1`, the next `q` to `-1` and the rest to
/// `0`.
pub open spec fn signature_square(p: nat, q: nat, axis: int) -> Square {
    if axis < p {
        Square::Pos
    } else if axis < p + q {
        Square::Neg
    } else {
        Square::Zero
    }
}

/// The metric of the signature `(p, q, r)`.
pub open spec fn signature_metric(p: nat, q: nat, r: nat) -> Seq<Square> {
    Seq::new(p + q + r, |axis: int| signature_square(p, q, axis))
}

impl<const P: usize, const Q: usize, const R: usize> Algebra<P, Q, R> {
    /// The dimension of the algebra.
    pub fn dim() -> (n: usize)
        requires
            P + Q + R <= usize::MAX,
        ensures
            n == P + Q + R,
    {
        P + Q + R
    }

    /// The number of basis blades of the algebra.
    pub fn basis_blade_count() -> (n: usize)
        requires
            P + Q + R <= usize::MAX,
            vstd::arithmetic::power::pow(2, (P + Q + R) as nat) <= usize::MAX,
        ensures
            n == vstd::arithmetic::power::pow(2, (P + Q + R) as nat),
    {
        pow(2, Self::dim())
    }

    /// The metric of the algebra. `N` is its dimension.
    pub fn metric<const N: usize>() -> (m: Metric<N>)
        requires
            N == P + Q + R,
        ensures
            m@ == signature_metric(P as nat, Q as nat, R as nat),
    {
        let mut squares = [Square::Pos; N];
        let mut i: usize = P;
        while i < P + Q
            invariant
                N == P + Q + R,
                P <= i <= P + Q,
                forall|k: int| 0 <= k < P ==> squares@[k] == Square::Pos,
                forall|k: int| P <= k < i ==> squares@[k] == Square::Neg,
            decreases P + Q - i,
        {
            squares[i] = Square::Neg;
            i += 1;
        }
        let mut i: usize = P + Q;
        while i < N
            invariant
                N == P + Q + R,
                P + Q <= i <= N,
                forall|k: int| 0 <= k < P ==> squares@[k] == Square::Pos,
                forall|k: int| P <= k < P + Q ==> squares@[k] == Square::Neg,
                forall|k: int| P + Q <= k < i ==> squares@[k] == Square::Zero,
            decreases N - i,
        {
            squares[i] = Square::Zero;
            i += 1;
        }
        let m = Metric(squares);
        assert(m@ =~= signature_metric(P as nat, Q as nat, R as nat));
        m
    }
}

} // verus!
