//! The mathematical model of a blade and of its products.
//!
//! A non-vanishing blade is a sign and a sequence of booleans that says
//! which generators are factors. The sequence keeps no order of
//! multiplication: the blade always stands for its factors in ascending
//! order, so whatever a reordering costs in sign is counted at product time
//! from the two operands.

use crate::maybe::Maybe;
use crate::metric::Square;
use crate::sign::Sign;
use crate::text::decimal;
use vstd::prelude::*;

verus! {

/// How many of the generators with an index below `n` are factors.
pub open spec fn count_below(unit: Seq<bool>, n: int) -> nat
    recommends
        n <= unit.len(),
    decreases n,
{
    if n <= 0 {
        0
    } else {
        count_below(unit, n - 1) + if unit[n - 1] {
            1nat
        } else {
            0nat
        }
    }
}

/// The number of factors of a blade.
pub open spec fn grade_of(unit: Seq<bool>) -> nat {
    count_below(unit, unit.len() as int)
}

/// The number of transpositions that bring the factors of `lhs` with an
/// index below `n`, followed by all factors of `rhs`, into ascending order:
/// each such factor `i` of `lhs` has to pass every factor of `rhs` with an
/// index below `i`.
pub open spec fn swaps_below(lhs: Seq<bool>, rhs: Seq<bool>, n: int) -> nat
    recommends
        n <= lhs.len() <= rhs.len(),
    decreases n,
{
    if n <= 0 {
        0
    } else {
        swaps_below(lhs, rhs, n - 1) + if lhs[n - 1] {
            count_below(rhs, n - 1)
        } else {
            0nat
        }
    }
}

/// The number of transpositions that merge the factors of `lhs` and `rhs`.
pub open spec fn transpositions(lhs: Seq<bool>, rhs: Seq<bool>) -> nat {
    swaps_below(lhs, rhs, lhs.len() as int)
}

/// Whether `axis` is a factor of both operands.
pub open spec fn shared(lhs: Seq<bool>, rhs: Seq<bool>, axis: int) -> bool {
    0 <= axis < lhs.len() && axis < rhs.len() && lhs[axis] && rhs[axis]
}

/// How many generators with an index below `n` are factors of both operands.
pub open spec fn shared_below(lhs: Seq<bool>, rhs: Seq<bool>, n: int) -> nat
    recommends
        n <= lhs.len(),
        n <= rhs.len(),
    decreases n,
{
    if n <= 0 {
        0
    } else {
        shared_below(lhs, rhs, n - 1) + if shared(lhs, rhs, n - 1) {
            1nat
        } else {
            0nat
        }
    }
}

/// How many generators with an index below `n` are factors of both operands
/// and square to `-1`.
pub open spec fn negatives_below(
    lhs: Seq<bool>,
    rhs: Seq<bool>,
    metric: Seq<Square>,
    n: int,
) -> nat
    recommends
        n <= lhs.len(),
        n <= rhs.len(),
        n <= metric.len(),
    decreases n,
{
    if n <= 0 {
        0
    } else {
        negatives_below(lhs, rhs, metric, n - 1) + if shared(lhs, rhs, n - 1) && metric[n - 1]
            == Square::Neg {
            1nat
        } else {
            0nat
        }
    }
}

/// The number of shared factors that square to `-1`.
pub open spec fn negative_squares(lhs: Seq<bool>, rhs: Seq<bool>, metric: Seq<Square>) -> nat {
    negatives_below(lhs, rhs, metric, lhs.len() as int)
}

/// Whether `axis` is a shared factor that squares to zero.
pub open spec fn null_at(lhs: Seq<bool>, rhs: Seq<bool>, metric: Seq<Square>, axis: int) -> bool {
    shared(lhs, rhs, axis) && axis < metric.len() && metric[axis] == Square::Zero
}

/// Whether some shared factor squares to zero, which annihilates the product.
pub open spec fn annihilated(lhs: Seq<bool>, rhs: Seq<bool>, metric: Seq<Square>) -> bool {
    exists|axis: int| null_at(lhs, rhs, metric, axis)
}

/// The factors of a product: the generators that are a factor of exactly one
/// operand.
pub open spec fn merged(lhs: Seq<bool>, rhs: Seq<bool>) -> Seq<bool> {
    Seq::new(lhs.len(), |axis: int| lhs[axis] != rhs[axis])
}

/// The generators that are not a factor.
pub open spec fn complement(unit: Seq<bool>) -> Seq<bool> {
    Seq::new(unit.len(), |axis: int| !unit[axis])
}

/// The indices below `n` of the factors, written in ascending order without
/// separators.
pub open spec fn indices_text(unit: Seq<bool>, n: int) -> Seq<char>
    recommends
        n <= unit.len(),
    decreases n,
{
    if n <= 0 {
        Seq::empty()
    } else {
        indices_text(unit, n - 1) + if unit[n - 1] {
            decimal((n - 1) as nat)
        } else {
            Seq::empty()
        }
    }
}

/// Whether reversing the order of `grade` factors changes the sign: it takes
/// `grade (grade - 1) / 2` transpositions, and each of them flips it.
#[verifier::opaque]
pub open spec fn reversal_flips(grade: nat) -> bool {
    (grade * (grade - 1) / 2) % 2 == 1
}

/// A non-vanishing blade: a sign and the set of its factors.
#[verifier::ext_equal]
pub struct BladeView {
    pub sign: Sign,
    pub unit: Seq<bool>,
}

impl BladeView {
    /// The dimension of the algebra the blade lives in.
    pub open spec fn dim(self) -> nat {
        self.unit.len()
    }

    /// The number of factors.
    pub open spec fn grade(self) -> nat {
        grade_of(self.unit)
    }

    /// The number of generators that are not a factor.
    pub open spec fn anti_grade(self) -> int {
        self.dim() - self.grade()
    }

    /// The same blade with the opposite sign.
    pub open spec fn neg(self) -> BladeView {
        BladeView { sign: self.sign.neg(), unit: self.unit }
    }

    /// The blade with the sign flipped if `flip` holds.
    pub open spec fn neg_if(self, flip: bool) -> BladeView {
        if flip {
            self.neg()
        } else {
            self
        }
    }

    /// The Poincare dual: the product of the generators that are not a
    /// factor, with the same sign.
    pub open spec fn dual(self) -> BladeView {
        BladeView { sign: self.sign, unit: complement(self.unit) }
    }

    /// The blade with its factors written in reverse order, which changes
    /// the sign when that takes an odd number of transpositions.
    pub open spec fn reverse(self) -> BladeView {
        self.neg_if(reversal_flips(self.grade()))
    }

    /// The grade involution: every factor is negated.
    pub open spec fn involute(self) -> BladeView {
        self.neg_if(self.grade() % 2 == 1)
    }

    /// The Clifford conjugate: reversion followed by grade involution.
    pub open spec fn conjugate(self) -> BladeView {
        self.reverse().involute()
    }

    /// The geometric product. It vanishes when a shared factor squares to
    /// zero. Otherwise its factors are those of exactly one operand, and its
    /// sign is the product of the operands' signs, flipped once for every
    /// transposition that merges the factors and once for every shared
    /// factor that squares to `-1`.
    pub open spec fn geometric(self, rhs: BladeView, metric: Seq<Square>) -> Maybe<BladeView> {
        if annihilated(self.unit, rhs.unit, metric) {
            Maybe::Nothing
        } else {
            Maybe::Just(
                BladeView {
                    sign: self.sign.mul(rhs.sign).flipped(
                        transpositions(self.unit, rhs.unit) + negative_squares(
                            self.unit,
                            rhs.unit,
                            metric,
                        ),
                    ),
                    unit: merged(self.unit, rhs.unit),
                },
            )
        }
    }

    /// The geometric product, kept only if its grade is `grade`.
    pub open spec fn graded(self, rhs: BladeView, metric: Seq<Square>, grade: int) -> Maybe<
        BladeView,
    > {
        match self.geometric(rhs, metric) {
            Maybe::Just(product) => if product.grade() == grade {
                Maybe::Just(product)
            } else {
                Maybe::Nothing
            },
            Maybe::Nothing => Maybe::Nothing,
        }
    }

    /// The exterior product: the part of the geometric product whose grade
    /// is the sum of the operands' grades.
    pub open spec fn exterior(self, rhs: BladeView, metric: Seq<Square>) -> Maybe<BladeView> {
        self.graded(rhs, metric, (self.grade() + rhs.grade()) as int)
    }

    /// The regressive product: the dual of the exterior product of the duals.
    pub open spec fn regressive(self, rhs: BladeView, metric: Seq<Square>) -> Maybe<BladeView> {
        self.dual().exterior(rhs.dual(), metric).dual()
    }

    /// The left contraction of `self` onto `rhs`: the part of the geometric
    /// product whose grade is that of `rhs` less that of `self`. It vanishes
    /// when `self` has the higher grade.
    pub open spec fn left_contraction(self, rhs: BladeView, metric: Seq<Square>) -> Maybe<
        BladeView,
    > {
        self.graded(rhs, metric, rhs.grade() - self.grade())
    }

    /// The right contraction of `self` by `rhs`, defined from the left
    /// contraction by reversion.
    pub open spec fn right_contraction(self, rhs: BladeView, metric: Seq<Square>) -> Maybe<
        BladeView,
    > {
        rhs.reverse().left_contraction(self.reverse(), metric).reverse()
    }

    /// The dot product: the part of the geometric product whose grade is the
    /// distance between the operands' grades.
    pub open spec fn dot(self, rhs: BladeView, metric: Seq<Square>) -> Maybe<BladeView> {
        self.graded(
            rhs,
            metric,
            if self.grade() <= rhs.grade() {
                rhs.grade() - self.grade()
            } else {
                self.grade() - rhs.grade()
            },
        )
    }

    /// The inner product: the dot product, except that it vanishes when an
    /// operand is a scalar.
    pub open spec fn inner(self, rhs: BladeView, metric: Seq<Square>) -> Maybe<BladeView> {
        if self.grade() == 0 || rhs.grade() == 0 {
            Maybe::Nothing
        } else {
            self.dot(rhs, metric)
        }
    }

    /// The scalar product: the part of the geometric product of grade zero.
    pub open spec fn scalar(self, rhs: BladeView, metric: Seq<Square>) -> Maybe<BladeView> {
        self.graded(rhs, metric, 0)
    }

    /// The blade in `e`-notation: the sign, then `i` for the pseudoscalar
    /// and otherwise `e` followed by the indices of the factors.
    pub open spec fn text(self) -> Seq<char> {
        self.sign.text() + if self.grade() == self.dim() {
            seq!['i']
        } else {
            seq!['e'] + indices_text(self.unit, self.dim() as int)
        }
    }
}

/// The blade of grade zero with a positive sign in `dim` dimensions.
pub open spec fn one(dim: nat) -> BladeView {
    BladeView { sign: Sign::Pos, unit: Seq::new(dim, |axis: int| false) }
}

/// The unit pseudoscalar in `dim` dimensions: the product of all generators.
pub open spec fn pseudoscalar(dim: nat) -> BladeView {
    BladeView { sign: Sign::Pos, unit: Seq::new(dim, |axis: int| true) }
}

/// The generator `axis` in `dim` dimensions.
pub open spec fn generator(dim: nat, axis: int) -> BladeView {
    BladeView { sign: Sign::Pos, unit: Seq::new(dim, |k: int| k == axis) }
}

/// Operations on a blade that may vanish. A vanishing operand makes every
/// result vanish.
impl Maybe<BladeView> {
    pub open spec fn grade(self) -> Maybe<nat> {
        match self {
            Maybe::Just(blade) => Maybe::Just(blade.grade()),
            Maybe::Nothing => Maybe::Nothing,
        }
    }

    pub open spec fn anti_grade(self) -> Maybe<int> {
        match self {
            Maybe::Just(blade) => Maybe::Just(blade.anti_grade()),
            Maybe::Nothing => Maybe::Nothing,
        }
    }

    pub open spec fn neg(self) -> Maybe<BladeView> {
        match self {
            Maybe::Just(blade) => Maybe::Just(blade.neg()),
            Maybe::Nothing => Maybe::Nothing,
        }
    }

    pub open spec fn neg_if(self, flip: bool) -> Maybe<BladeView> {
        if flip {
            self.neg()
        } else {
            self
        }
    }

    pub open spec fn dual(self) -> Maybe<BladeView> {
        match self {
            Maybe::Just(blade) => Maybe::Just(blade.dual()),
            Maybe::Nothing => Maybe::Nothing,
        }
    }

    pub open spec fn reverse(self) -> Maybe<BladeView> {
        match self {
            Maybe::Just(blade) => Maybe::Just(blade.reverse()),
            Maybe::Nothing => Maybe::Nothing,
        }
    }

    pub open spec fn involute(self) -> Maybe<BladeView> {
        match self {
            Maybe::Just(blade) => Maybe::Just(blade.involute()),
            Maybe::Nothing => Maybe::Nothing,
        }
    }

    pub open spec fn conjugate(self) -> Maybe<BladeView> {
        match self {
            Maybe::Just(blade) => Maybe::Just(blade.conjugate()),
            Maybe::Nothing => Maybe::Nothing,
        }
    }

    pub open spec fn geometric(self, rhs: Maybe<BladeView>, metric: Seq<Square>) -> Maybe<
        BladeView,
    > {
        match (self, rhs) {
            (Maybe::Just(a), Maybe::Just(b)) => a.geometric(b, metric),
            _ => Maybe::Nothing,
        }
    }

    pub open spec fn exterior(self, rhs: Maybe<BladeView>, metric: Seq<Square>) -> Maybe<
        BladeView,
    > {
        match (self, rhs) {
            (Maybe::Just(a), Maybe::Just(b)) => a.exterior(b, metric),
            _ => Maybe::Nothing,
        }
    }

    pub open spec fn regressive(self, rhs: Maybe<BladeView>, metric: Seq<Square>) -> Maybe<
        BladeView,
    > {
        match (self, rhs) {
            (Maybe::Just(a), Maybe::Just(b)) => a.regressive(b, metric),
            _ => Maybe::Nothing,
        }
    }

    pub open spec fn left_contraction(self, rhs: Maybe<BladeView>, metric: Seq<Square>) -> Maybe<
        BladeView,
    > {
        match (self, rhs) {
            (Maybe::Just(a), Maybe::Just(b)) => a.left_contraction(b, metric),
            _ => Maybe::Nothing,
        }
    }

    pub open spec fn right_contraction(self, rhs: Maybe<BladeView>, metric: Seq<Square>) -> Maybe<
        BladeView,
    > {
        match (self, rhs) {
            (Maybe::Just(a), Maybe::Just(b)) => a.right_contraction(b, metric),
            _ => Maybe::Nothing,
        }
    }

    pub open spec fn dot(self, rhs: Maybe<BladeView>, metric: Seq<Square>) -> Maybe<BladeView> {
        match (self, rhs) {
            (Maybe::Just(a), Maybe::Just(b)) => a.dot(b, metric),
            _ => Maybe::Nothing,
        }
    }

    pub open spec fn inner(self, rhs: Maybe<BladeView>, metric: Seq<Square>) -> Maybe<BladeView> {
        match (self, rhs) {
            (Maybe::Just(a), Maybe::Just(b)) => a.inner(b, metric),
            _ => Maybe::Nothing,
        }
    }

    pub open spec fn scalar(self, rhs: Maybe<BladeView>, metric: Seq<Square>) -> Maybe<
        BladeView,
    > {
        match (self, rhs) {
            (Maybe::Just(a), Maybe::Just(b)) => a.scalar(b, metric),
            _ => Maybe::Nothing,
        }
    }

    /// A vanishing blade is written `0`.
    pub open spec fn text(self) -> Seq<char> {
        match self {
            Maybe::Just(blade) => blade.text(),
            Maybe::Nothing => seq!['0'],
        }
    }
}

} // verus!
