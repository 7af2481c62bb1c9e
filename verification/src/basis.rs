//! Basis blades and their products.

use crate::common::{even, odd};
use crate::laws::lemma_reverse_parity;
use crate::maybe::Maybe;
use crate::metric::{Metric, Square};
use crate::model::{
    BladeView, complement, count_below, indices_text, merged, negatives_below, null_at, one,
    pseudoscalar, swaps_below,
};
use crate::sign::Sign;
use crate::text::push_decimal;
use vstd::prelude::*;
use vstd::std_specs::cmp::PartialEqSpecImpl;
use vstd::string::StringExecFns;

verus! {

/// A blade that does not vanish. `unit[i]` says whether the generator `i` is
/// a factor. The encoding keeps no order of the factors, so the sign is
/// stored beside it.
#[derive(Debug, Clone, Copy, Eq)]
pub struct NonzeroBasis<const N: usize> {
    pub sign: Sign,
    pub unit: [bool; N],
}

impl<const N: usize> PartialEq for NonzeroBasis<N> {
    /// Two blades are equal when they have the same sign and the same
    /// factors.
    fn eq(&self, other: &Self) -> (r: bool) {
        if self.sign != other.sign {
            return false;
        }
        let mut i: usize = 0;
        while i < N
            invariant
                i <= N,
                self.sign == other.sign,
                forall|k: int| 0 <= k < i ==> self.unit@[k] == other.unit@[k],
            decreases N - i,
        {
            if self.unit[i] != other.unit[i] {
                return false;
            }
            i += 1;
        }
        assert(self.unit@ =~= other.unit@);
        true
    }
}

impl<const N: usize> PartialEqSpecImpl for NonzeroBasis<N> {
    open spec fn obeys_eq_spec() -> bool {
        true
    }

    open spec fn eq_spec(&self, other: &Self) -> bool {
        self@ == other@
    }
}

impl<const N: usize> View for NonzeroBasis<N> {
    type V = BladeView;

    open spec fn view(&self) -> BladeView {
        BladeView { sign: self.sign, unit: self.unit@ }
    }
}

/// A blade that may vanish: `Nothing` is the zero blade.
pub type Basis<const N: usize> = Maybe<NonzeroBasis<N>>;

/// A blade is determined by its sign and its factors: blades with the same
/// view are the same blade.
pub proof fn lemma_view_determines_blade<const N: usize>(a: NonzeroBasis<N>, b: NonzeroBasis<N>)
    ensures
        a@ == b@ <==> a == b,
        a@.dim() == N,
{
    if a@ == b@ {
        assert(a.unit@ == b.unit@);
        assert(a.unit =~= b.unit);
    }
}

impl<const N: usize> NonzeroBasis<N> {
    /// The blade with the given factors and a positive sign.
    pub fn new(unit: [bool; N]) -> (r: Self)
        ensures
            r@ == (BladeView { sign: Sign::Pos, unit: unit@ }),
    {
        NonzeroBasis { sign: Sign::Pos, unit }
    }

    /// The scalar unit: no factors, positive sign.
    pub fn one() -> (r: Self)
        ensures
            r@ == one(N as nat),
    {
        let r = NonzeroBasis { sign: Sign::Pos, unit: [false; N] };
        assert(r.unit@ =~= one(N as nat).unit);
        r
    }

    /// The unit pseudoscalar: every generator is a factor, positive sign.
    pub fn pseudoscalar() -> (r: Self)
        ensures
            r@ == pseudoscalar(N as nat),
    {
        let r = NonzeroBasis { sign: Sign::Pos, unit: [true; N] };
        assert(r.unit@ =~= pseudoscalar(N as nat).unit);
        r
    }

    /// Reversion: the factors written in reverse order, which changes the
    /// sign of blades whose grade is 2 or 3 modulo 4.
    /// - `rev(eij) = eji = -eij` for `i != j`
    pub fn reverse(self) -> (r: Self)
        ensures
            r@ == self@.reverse(),
    {
        let grade = self.grade();
        proof {
            lemma_reverse_parity(grade as nat);
        }
        // `grade (grade - 1) / 2` is odd exactly when `grade / 2` is, and
        // the latter cannot overflow.
        if odd(grade / 2) {
            self.neg()
        } else {
            self
        }
    }

    /// Grade involution: the sign of blades of odd grade is reversed.
    pub fn involute(self) -> (r: Self)
        ensures
            r@ == self@.involute(),
    {
        if even(self.grade()) {
            self
        } else {
            self.neg()
        }
    }

    /// Clifford conjugate: reversion followed by grade involution.
    pub fn conjugate(self) -> (r: Self)
        ensures
            r@ == self@.conjugate(),
    {
        self.reverse().involute()
    }

    /// The same blade with the opposite sign.
    pub fn neg(self) -> (r: Self)
        ensures
            r@ == self@.neg(),
    {
        NonzeroBasis { sign: self.sign.neg(), unit: self.unit }
    }

    /// Poincare duality operator: the blade of the generators that are not a
    /// factor, with the sign unchanged. Under this convention the dual of the
    /// dual is the blade itself, in every dimension.
    pub fn dual(self) -> (r: Self)
        ensures
            r@ == self@.dual(),
    {
        let mut dual = [false; N];
        let mut i: usize = 0;
        while i < N
            invariant
                i <= N,
                forall|k: int| 0 <= k < i ==> dual@[k] == !self.unit@[k],
            decreases N - i,
        {
            dual[i] = !self.unit[i];
            i += 1;
        }
        assert(dual@ =~= complement(self.unit@));
        NonzeroBasis { sign: self.sign, unit: dual }
    }

    /// The geometric product of two blades.
    /// - `ei ei` is `1`, `-1` or `0`, as the metric says
    /// - `ei ej = eij` for `i < j`
    /// - `ei ej = -ej ei` for `i != j`
    pub fn geometric(self, rhs: Self, metric: Metric<N>) -> (r: Basis<N>)
        ensures
            r@ == self@.geometric(rhs@, metric@),
    {
        let ghost lhs_unit = self.unit@;
        let ghost rhs_unit = rhs.unit@;
        let ghost base = self.sign.mul(rhs.sign);
        let mut product = [false; N];
        let mut sign = self.sign.mul(rhs.sign);
        let mut i: usize = 0;
        while i < N
            invariant
                i <= N,
                lhs_unit == self.unit@,
                rhs_unit == rhs.unit@,
                base == self.sign.mul(rhs.sign),
                forall|k: int| 0 <= k < i ==> !null_at(lhs_unit, rhs_unit, metric@, k),
                forall|k: int| 0 <= k < i ==> product@[k] == (lhs_unit[k] != rhs_unit[k]),
                sign == base.flipped(
                    swaps_below(lhs_unit, rhs_unit, i as int) + negatives_below(
                        lhs_unit,
                        rhs_unit,
                        metric@,
                        i as int,
                    ),
                ),
            decreases N - i,
        {
            let ghost before = swaps_below(lhs_unit, rhs_unit, i as int) + negatives_below(
                lhs_unit,
                rhs_unit,
                metric@,
                i as int,
            );
            if self.unit[i] {
                // Each factor of `rhs` that this factor has to pass reverses the sign.
                let mut j: usize = 0;
                while j < i
                    invariant
                        j <= i < N,
                        rhs_unit == rhs.unit@,
                        sign == base.flipped(before + count_below(rhs_unit, j as int)),
                    decreases i - j,
                {
                    if rhs.unit[j] {
                        sign = sign.neg();
                    }
                    j += 1;
                }
            }
            assert(sign == base.flipped(
                swaps_below(lhs_unit, rhs_unit, i + 1) + negatives_below(
                    lhs_unit,
                    rhs_unit,
                    metric@,
                    i as int,
                ),
            ));
            let factor = match (self.unit[i], rhs.unit[i]) {
                (true, false) | (false, true) => true,
                (true, true) => match metric.0[i] {
                    Square::Pos => false,
                    Square::Neg => {
                        sign = sign.neg();
                        false
                    },
                    Square::Zero => {
                        assert(null_at(lhs_unit, rhs_unit, metric@, i as int));
                        return Maybe::Nothing;
                    },
                },
                (false, false) => false,
            };
            product[i] = factor;
            i += 1;
        }
        assert(product@ =~= merged(lhs_unit, rhs_unit));
        Maybe::Just(NonzeroBasis { sign, unit: product })
    }

    /// The exterior product of two blades.
    /// - `ei ^ ei = 0`
    /// - `ei ^ ej = eij` for `i < j`
    /// - `ei ^ ej = -ej ^ ei`
    pub fn exterior(self, rhs: Self, metric: Metric<N>) -> (r: Basis<N>)
        ensures
            r@ == self@.exterior(rhs@, metric@),
    {
        let product = match self.geometric(rhs, metric) {
            Maybe::Just(product) => product,
            Maybe::Nothing => return Maybe::Nothing,
        };
        let grade = product.grade();
        match rhs.grade().checked_add(self.grade()) {
            Some(sum) if sum == grade => Maybe::Just(product),
            _ => Maybe::Nothing,
        }
    }

    /// The regressive product of two blades, by the identity
    /// `A v B = J(J(A) ^ J(B))`.
    pub fn regressive(self, rhs: Self, metric: Metric<N>) -> (r: Basis<N>)
        ensures
            r@ == self@.regressive(rhs@, metric@),
    {
        match self.dual().exterior(rhs.dual(), metric) {
            Maybe::Just(product) => Maybe::Just(product.dual()),
            Maybe::Nothing => Maybe::Nothing,
        }
    }

    /// Contraction of `self` onto `rhs`: the part of `rhs` that is
    /// perpendicular to `self`.
    pub fn left_contraction(self, rhs: Self, metric: Metric<N>) -> (r: Basis<N>)
        ensures
            r@ == self@.left_contraction(rhs@, metric@),
    {
        let product = match self.geometric(rhs, metric) {
            Maybe::Just(product) => product,
            Maybe::Nothing => return Maybe::Nothing,
        };
        let grade = product.grade();
        match rhs.grade().checked_sub(self.grade()) {
            Some(difference) if difference == grade => Maybe::Just(product),
            _ => Maybe::Nothing,
        }
    }

    /// Contraction of `self` by `rhs`, by the identity
    /// `A << B = rev(rev(B) >> rev(A))`: the part of `self` that is
    /// perpendicular to `rhs`.
    pub fn right_contraction(self, rhs: Self, metric: Metric<N>) -> (r: Basis<N>)
        ensures
            r@ == self@.right_contraction(rhs@, metric@),
    {
        match rhs.reverse().left_contraction(self.reverse(), metric) {
            Maybe::Just(product) => Maybe::Just(product.reverse()),
            Maybe::Nothing => Maybe::Nothing,
        }
    }

    /// Bidirectional contraction that also acts on scalars: the part of the
    /// geometric product whose grade is the distance between the grades of
    /// the operands.
    pub fn dot(self, rhs: Self, metric: Metric<N>) -> (r: Basis<N>)
        ensures
            r@ == self@.dot(rhs@, metric@),
    {
        let product = match self.geometric(rhs, metric) {
            Maybe::Just(product) => product,
            Maybe::Nothing => return Maybe::Nothing,
        };
        let left = self.grade();
        let right = rhs.grade();
        let distance = if left <= right {
            right - left
        } else {
            left - right
        };
        if distance == product.grade() {
            Maybe::Just(product)
        } else {
            Maybe::Nothing
        }
    }

    /// Bidirectional contraction. It vanishes when either operand is a
    /// scalar; `dot` is the product without that exclusion.
    pub fn inner(self, rhs: Self, metric: Metric<N>) -> (r: Basis<N>)
        ensures
            r@ == self@.inner(rhs@, metric@),
    {
        if self.grade() == 0 || rhs.grade() == 0 {
            Maybe::Nothing
        } else {
            self.dot(rhs, metric)
        }
    }

    /// Scalar product: the geometric product where it is a scalar, else
    /// zero. `rev(A) * A` can serve as the squared norm of `A`.
    pub fn scalar(self, rhs: Self, metric: Metric<N>) -> (r: Basis<N>)
        ensures
            r@ == self@.scalar(rhs@, metric@),
    {
        let product = match self.geometric(rhs, metric) {
            Maybe::Just(product) => product,
            Maybe::Nothing => return Maybe::Nothing,
        };
        if product.grade() == 0 {
            Maybe::Just(product)
        } else {
            Maybe::Nothing
        }
    }

    /// The grade (or step) of the blade: the number of its distinct factors.
    pub fn grade(self) -> (r: usize)
        ensures
            r == self@.grade(),
            r <= N,
    {
        let mut grade: usize = 0;
        let mut i: usize = 0;
        while i < N
            invariant
                i <= N,
                grade == count_below(self.unit@, i as int),
                grade <= i,
            decreases N - i,
        {
            if self.unit[i] {
                grade += 1;
            }
            i += 1;
        }
        grade
    }

    /// The number of generators that are not a factor.
    pub fn anti_grade(self) -> (r: usize)
        ensures
            r == self@.anti_grade(),
            r <= N,
    {
        N - self.grade()
    }

    /// Renders the blade in `e`-notation: a minus for a negative sign, then
    /// `i` for the pseudoscalar and otherwise `e` followed by the indices of
    /// the factors in ascending order.
    pub fn to_string(&self) -> (r: String)
        ensures
            r@ == self@.text(),
    {
        let mut out = self.sign.to_string();
        proof {
            reveal_strlit("i");
            reveal_strlit("e");
        }
        if self.grade() == N {
            out.append("i");
            assert(out@ =~= self@.text());
        } else {
            out.append("e");
            let ghost head = out@;
            let mut i: usize = 0;
            while i < N
                invariant
                    i <= N,
                    out@ == head + indices_text(self.unit@, i as int),
                decreases N - i,
            {
                if self.unit[i] {
                    push_decimal(&mut out, i);
                }
                assert(out@ =~= head + indices_text(self.unit@, i + 1));
                i += 1;
            }
            assert(out@ =~= self@.text());
        }
        out
    }
}

impl<const N: usize> Basis<N> {
    /// The zero blade.
    pub fn zero() -> (r: Self)
        ensures
            r is Nothing,
    {
        Maybe::Nothing
    }

    /// The scalar unit.
    pub fn one() -> (r: Self)
        ensures
            r@ == Maybe::Just(one(N as nat)),
    {
        Maybe::Just(NonzeroBasis::one())
    }

    /// The unit pseudoscalar.
    pub fn pseudoscalar() -> (r: Self)
        ensures
            r@ == Maybe::Just(pseudoscalar(N as nat)),
    {
        Maybe::Just(NonzeroBasis::pseudoscalar())
    }

    /// The geometric product; zero when an operand is zero.
    pub fn geometric(self, rhs: Self, metric: Metric<N>) -> (r: Self)
        ensures
            r@ == self@.geometric(rhs@, metric@),
            self is Nothing || rhs is Nothing ==> r is Nothing,
    {
        match (self, rhs) {
            (Maybe::Just(a), Maybe::Just(b)) => a.geometric(b, metric),
            _ => Maybe::Nothing,
        }
    }

    /// The exterior product; zero when an operand is zero.
    pub fn exterior(self, rhs: Self, metric: Metric<N>) -> (r: Self)
        ensures
            r@ == self@.exterior(rhs@, metric@),
            self is Nothing || rhs is Nothing ==> r is Nothing,
    {
        match (self, rhs) {
            (Maybe::Just(a), Maybe::Just(b)) => a.exterior(b, metric),
            _ => Maybe::Nothing,
        }
    }

    /// The regressive product; zero when an operand is zero.
    pub fn regressive(self, rhs: Self, metric: Metric<N>) -> (r: Self)
        ensures
            r@ == self@.regressive(rhs@, metric@),
            self is Nothing || rhs is Nothing ==> r is Nothing,
    {
        match (self, rhs) {
            (Maybe::Just(a), Maybe::Just(b)) => a.regressive(b, metric),
            _ => Maybe::Nothing,
        }
    }

    /// The left contraction; zero when an operand is zero.
    pub fn left_contraction(self, rhs: Self, metric: Metric<N>) -> (r: Self)
        ensures
            r@ == self@.left_contraction(rhs@, metric@),
            self is Nothing || rhs is Nothing ==> r is Nothing,
    {
        match (self, rhs) {
            (Maybe::Just(a), Maybe::Just(b)) => a.left_contraction(b, metric),
            _ => Maybe::Nothing,
        }
    }

    /// The right contraction; zero when an operand is zero.
    pub fn right_contraction(self, rhs: Self, metric: Metric<N>) -> (r: Self)
        ensures
            r@ == self@.right_contraction(rhs@, metric@),
            self is Nothing || rhs is Nothing ==> r is Nothing,
    {
        match (self, rhs) {
            (Maybe::Just(a), Maybe::Just(b)) => a.right_contraction(b, metric),
            _ => Maybe::Nothing,
        }
    }

    /// The dot product; zero when an operand is zero.
    pub fn dot(self, rhs: Self, metric: Metric<N>) -> (r: Self)
        ensures
            r@ == self@.dot(rhs@, metric@),
            self is Nothing || rhs is Nothing ==> r is Nothing,
    {
        match (self, rhs) {
            (Maybe::Just(a), Maybe::Just(b)) => a.dot(b, metric),
            _ => Maybe::Nothing,
        }
    }

    /// The inner product; zero when an operand is zero.
    pub fn inner(self, rhs: Self, metric: Metric<N>) -> (r: Self)
        ensures
            r@ == self@.inner(rhs@, metric@),
            self is Nothing || rhs is Nothing ==> r is Nothing,
    {
        match (self, rhs) {
            (Maybe::Just(a), Maybe::Just(b)) => a.inner(b, metric),
            _ => Maybe::Nothing,
        }
    }

    /// The scalar product; zero when an operand is zero.
    pub fn scalar(self, rhs: Self, metric: Metric<N>) -> (r: Self)
        ensures
            r@ == self@.scalar(rhs@, metric@),
            self is Nothing || rhs is Nothing ==> r is Nothing,
    {
        match (self, rhs) {
            (Maybe::Just(a), Maybe::Just(b)) => a.scalar(b, metric),
            _ => Maybe::Nothing,
        }
    }

    /// The grade of the blade; the zero blade has none.
    pub fn grade(self) -> (r: Maybe<usize>)
        ensures
            match r {
                Maybe::Just(grade) => self@.grade() == Maybe::Just(grade as nat) && grade <= N,
                Maybe::Nothing => self is Nothing,
            },
    {
        match self {
            Maybe::Just(blade) => Maybe::Just(blade.grade()),
            Maybe::Nothing => Maybe::Nothing,
        }
    }

    /// The anti-grade of the blade; the zero blade has none.
    pub fn anti_grade(self) -> (r: Maybe<usize>)
        ensures
            match r {
                Maybe::Just(grade) => self@.anti_grade() == Maybe::Just(grade as int) && grade
                    <= N,
                Maybe::Nothing => self is Nothing,
            },
    {
        match self {
            Maybe::Just(blade) => Maybe::Just(blade.anti_grade()),
            Maybe::Nothing => Maybe::Nothing,
        }
    }

    /// Reversion; zero stays zero.
    pub fn reverse(self) -> (r: Self)
        ensures
            r@ == self@.reverse(),
    {
        match self {
            Maybe::Just(blade) => Maybe::Just(blade.reverse()),
            Maybe::Nothing => Maybe::Nothing,
        }
    }

    /// Grade involution; zero stays zero.
    pub fn involute(self) -> (r: Self)
        ensures
            r@ == self@.involute(),
    {
        match self {
            Maybe::Just(blade) => Maybe::Just(blade.involute()),
            Maybe::Nothing => Maybe::Nothing,
        }
    }

    /// Clifford conjugate; zero stays zero.
    pub fn conjugate(self) -> (r: Self)
        ensures
            r@ == self@.conjugate(),
    {
        self.reverse().involute()
    }

    /// The blade with the opposite sign; zero stays zero.
    pub fn neg(self) -> (r: Self)
        ensures
            r@ == self@.neg(),
    {
        match self {
            Maybe::Just(blade) => Maybe::Just(blade.neg()),
            Maybe::Nothing => Maybe::Nothing,
        }
    }

    /// The Poincare dual; zero stays zero.
    pub fn dual(self) -> (r: Self)
        ensures
            r@ == self@.dual(),
    {
        match self {
            Maybe::Just(blade) => Maybe::Just(blade.dual()),
            Maybe::Nothing => Maybe::Nothing,
        }
    }

    /// Renders the blade; the zero blade is written `0`.
    pub fn to_string(&self) -> (r: String)
        ensures
            r@ == self@.text(),
    {
        match self {
            Maybe::Just(blade) => blade.to_string(),
            Maybe::Nothing => {
                proof {
                    reveal_strlit("0");
                }
                let r = String::from_str("0");
                assert(r@ =~= seq!['0']);
                r
            },
        }
    }
}

} // verus!
