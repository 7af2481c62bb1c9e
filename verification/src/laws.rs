//! Algebraic laws of blades, proved over the model.

use crate::maybe::Maybe;
use crate::metric::Square;
use crate::model::{
    BladeView, annihilated, complement, count_below, generator, merged, negatives_below, null_at,
    reversal_flips, shared, shared_below, swaps_below, transpositions,
};
use crate::sign::Sign;
use vstd::prelude::*;

verus! {

// Counting factors

/// No more than `n` of the first `n` generators are factors.
pub proof fn lemma_count_below_bounded(unit: Seq<bool>, n: int)
    ensures
        count_below(unit, n) <= if n < 0 {
            0
        } else {
            n
        },
    decreases n,
{
    if n > 0 {
        lemma_count_below_bounded(unit, n - 1);
    }
}

/// The grade of a blade lies between zero and the dimension.
pub proof fn lemma_grade_bounded(blade: BladeView)
    ensures
        0 <= blade.grade() <= blade.dim(),
        0 <= blade.anti_grade() <= blade.dim(),
{
    lemma_count_below_bounded(blade.unit, blade.unit.len() as int);
}

/// A generator is either a factor of a blade or of its dual.
pub proof fn lemma_count_below_complement(unit: Seq<bool>, n: int)
    requires
        0 <= n <= unit.len(),
    ensures
        count_below(unit, n) + count_below(complement(unit), n) == n,
    decreases n,
{
    if n > 0 {
        lemma_count_below_complement(unit, n - 1);
    }
}

/// The grade of the dual is the anti-grade.
pub proof fn lemma_dual_grade(blade: BladeView)
    ensures
        blade.dual().grade() == blade.anti_grade(),
        blade.dual().dim() == blade.dim(),
{
    lemma_count_below_complement(blade.unit, blade.unit.len() as int);
}

/// Taking the dual twice gives the blade back, sign included.
pub proof fn lemma_dual_involution(blade: BladeView)
    ensures
        blade.dual().dual() == blade,
{
    assert(complement(complement(blade.unit)) =~= blade.unit);
}

// Reversion, grade involution and conjugation

/// The number of transpositions that reverse `r` factors: the last one
/// passes the `r - 1` others, and so on.
pub open spec fn reversal_swaps(r: nat) -> nat
    decreases r,
{
    if r == 0 {
        0
    } else {
        reversal_swaps((r - 1) as nat) + (r - 1) as nat
    }
}

/// Reversing `r` factors takes `r (r - 1) / 2` transpositions.
pub proof fn lemma_reversal_swaps_closed_form(r: nat)
    ensures
        r * (r - 1) == 2 * reversal_swaps(r),
        r * (r - 1) / 2 == reversal_swaps(r),
    decreases r,
{
    if r == 0 {
        assert(r * (r - 1) == 0) by (nonlinear_arith)
            requires
                r == 0,
        ;
    } else {
        let p = (r - 1) as nat;
        lemma_reversal_swaps_closed_form(p);
        assert(r * (r - 1) == p * (p - 1) + 2 * p) by (nonlinear_arith)
            requires
                p == r - 1,
        ;
    }
}

/// The number of transpositions that reverse `r` factors is odd exactly when
/// `r` leaves a remainder of 2 or 3 on division by 4.
pub proof fn lemma_reversal_swaps_parity(r: nat)
    ensures
        (reversal_swaps(r) % 2 == 1) <==> (r % 4 >= 2),
    decreases r,
{
    if r > 0 {
        lemma_reversal_swaps_parity((r - 1) as nat);
    }
}

/// Reversion changes the sign of the blades whose grade leaves a remainder
/// of 2 or 3 on division by 4, and of no others.
pub proof fn lemma_reverse_parity(r: nat)
    ensures
        reversal_flips(r) <==> (r * (r - 1) / 2) % 2 == 1,
        reversal_flips(r) <==> r % 4 >= 2,
        reversal_flips(r) <==> reversal_swaps(r) % 2 == 1,
{
    reveal(reversal_flips);
    lemma_reversal_swaps_closed_form(r);
    lemma_reversal_swaps_parity(r);
}

/// Reversion squares to the identity.
pub proof fn lemma_reverse_involution(blade: BladeView)
    ensures
        blade.reverse().reverse() == blade,
{
}

/// Grade involution squares to the identity.
pub proof fn lemma_involute_involution(blade: BladeView)
    ensures
        blade.involute().involute() == blade,
{
}

/// Clifford conjugation squares to the identity, and it does not matter
/// whether reversion or grade involution is applied first.
pub proof fn lemma_conjugate_involution(blade: BladeView)
    ensures
        blade.conjugate().conjugate() == blade,
        blade.conjugate() == blade.involute().reverse(),
{
}

// Vanishing products

/// The zero blade absorbs under the geometric product, on either side.
pub proof fn lemma_geometric_zero_absorbs(blade: Maybe<BladeView>, metric: Seq<Square>)
    ensures
        blade.geometric(Maybe::Nothing, metric) == Maybe::<BladeView>::Nothing,
        Maybe::<BladeView>::Nothing.geometric(blade, metric) == Maybe::<BladeView>::Nothing,
{
}

/// The zero blade absorbs under every derived product, on either side.
pub proof fn lemma_products_zero_absorbs(blade: Maybe<BladeView>, metric: Seq<Square>)
    ensures
        blade.exterior(Maybe::Nothing, metric) == Maybe::<BladeView>::Nothing,
        Maybe::<BladeView>::Nothing.exterior(blade, metric) == Maybe::<BladeView>::Nothing,
        blade.regressive(Maybe::Nothing, metric) == Maybe::<BladeView>::Nothing,
        Maybe::<BladeView>::Nothing.regressive(blade, metric) == Maybe::<BladeView>::Nothing,
        blade.left_contraction(Maybe::Nothing, metric) == Maybe::<BladeView>::Nothing,
        Maybe::<BladeView>::Nothing.left_contraction(blade, metric) == Maybe::<BladeView>::Nothing,
        blade.right_contraction(Maybe::Nothing, metric) == Maybe::<BladeView>::Nothing,
        Maybe::<BladeView>::Nothing.right_contraction(blade, metric) == Maybe::<
            BladeView,
        >::Nothing,
        blade.dot(Maybe::Nothing, metric) == Maybe::<BladeView>::Nothing,
        Maybe::<BladeView>::Nothing.dot(blade, metric) == Maybe::<BladeView>::Nothing,
        blade.inner(Maybe::Nothing, metric) == Maybe::<BladeView>::Nothing,
        Maybe::<BladeView>::Nothing.inner(blade, metric) == Maybe::<BladeView>::Nothing,
        blade.scalar(Maybe::Nothing, metric) == Maybe::<BladeView>::Nothing,
        Maybe::<BladeView>::Nothing.scalar(blade, metric) == Maybe::<BladeView>::Nothing,
{
}

/// A shared factor that squares to zero annihilates the geometric product,
/// whatever the other factors are; and only such a factor does.
pub proof fn lemma_null_factor_annihilates(
    lhs: BladeView,
    rhs: BladeView,
    metric: Seq<Square>,
    axis: int,
)
    requires
        0 <= axis < lhs.dim(),
        axis < rhs.dim(),
        axis < metric.len(),
        lhs.unit[axis],
        rhs.unit[axis],
        metric[axis] == Square::Zero,
    ensures
        lhs.geometric(rhs, metric) == Maybe::<BladeView>::Nothing,
{
    assert(null_at(lhs.unit, rhs.unit, metric, axis));
}

/// The geometric product vanishes exactly when some shared factor squares
/// to zero.
pub proof fn lemma_geometric_vanishes(lhs: BladeView, rhs: BladeView, metric: Seq<Square>)
    ensures
        lhs.geometric(rhs, metric) is Nothing <==> exists|axis: int|
            0 <= axis < lhs.dim() && axis < rhs.dim() && axis < metric.len() && lhs.unit[axis]
                && rhs.unit[axis] && #[trigger] metric[axis] == Square::Zero,
{
    if lhs.geometric(rhs, metric) is Nothing {
        let axis = choose|axis: int| null_at(lhs.unit, rhs.unit, metric, axis);
        assert(metric[axis] == Square::Zero);
    }
    if exists|axis: int|
        0 <= axis < lhs.dim() && axis < rhs.dim() && axis < metric.len() && lhs.unit[axis]
            && rhs.unit[axis] && #[trigger] metric[axis] == Square::Zero {
        let axis = choose|axis: int|
            0 <= axis < lhs.dim() && axis < rhs.dim() && axis < metric.len() && lhs.unit[axis]
                && rhs.unit[axis] && #[trigger] metric[axis] == Square::Zero;
        assert(null_at(lhs.unit, rhs.unit, metric, axis));
    }
}

// Grade and sign of the geometric product

/// Every factor of either operand is a factor of the product, except the
/// shared ones, which cancel in pairs.
pub proof fn lemma_merged_count(lhs: Seq<bool>, rhs: Seq<bool>, n: int)
    requires
        0 <= n <= lhs.len(),
        n <= rhs.len(),
    ensures
        count_below(merged(lhs, rhs), n) + 2 * shared_below(lhs, rhs, n) == count_below(lhs, n)
            + count_below(rhs, n),
    decreases n,
{
    if n > 0 {
        lemma_merged_count(lhs, rhs, n - 1);
    }
}

/// The grade of a geometric product: the grades of the operands add up, less
/// two for every shared factor.
pub proof fn lemma_geometric_grade(lhs: BladeView, rhs: BladeView, metric: Seq<Square>)
    requires
        lhs.dim() == rhs.dim(),
    ensures
        lhs.geometric(rhs, metric) matches Maybe::Just(product) ==> product.dim() == lhs.dim()
            && product.grade() + 2 * shared_below(lhs.unit, rhs.unit, lhs.dim() as int)
            == lhs.grade() + rhs.grade(),
{
    lemma_merged_count(lhs.unit, rhs.unit, lhs.dim() as int);
}

/// The sign of a product follows the signs of its operands: negating an
/// operand negates the product.
pub proof fn lemma_geometric_neg(a: BladeView, b: BladeView, metric: Seq<Square>)
    ensures
        a.neg().geometric(b, metric) == a.geometric(b, metric).neg(),
        a.geometric(b.neg(), metric) == a.geometric(b, metric).neg(),
        a.neg().geometric(b.neg(), metric) == a.geometric(b, metric),
{
}

/// The shared factors that square to `-1` do not depend on the order of the
/// operands.
pub proof fn lemma_negatives_symmetric(a: Seq<bool>, b: Seq<bool>, metric: Seq<Square>, n: int)
    requires
        a.len() == b.len(),
    ensures
        negatives_below(a, b, metric, n) == negatives_below(b, a, metric, n),
        shared_below(a, b, n) == shared_below(b, a, n),
    decreases n,
{
    if n > 0 {
        lemma_negatives_symmetric(a, b, metric, n - 1);
    }
}

/// Of two distinct factors, one of each operand, exactly one pair has to be
/// transposed, whichever operand comes first: the transpositions of the two
/// orders and the shared factors add up to the product of the grades.
pub proof fn lemma_swaps_both_orders(lhs: Seq<bool>, rhs: Seq<bool>, n: int)
    requires
        0 <= n <= lhs.len(),
        n <= rhs.len(),
    ensures
        swaps_below(lhs, rhs, n) + swaps_below(rhs, lhs, n) + shared_below(lhs, rhs, n)
            == count_below(lhs, n) * count_below(rhs, n),
    decreases n,
{
    if n <= 0 {
        assert(count_below(lhs, n) * count_below(rhs, n) == 0) by (nonlinear_arith)
            requires
                count_below(lhs, n) == 0,
        ;
    } else {
        lemma_swaps_both_orders(lhs, rhs, n - 1);
        let l = count_below(lhs, n - 1);
        let r = count_below(rhs, n - 1);
        assert((l + 1) * r == l * r + r && l * (r + 1) == l * r + l && (l + 1) * (r + 1) == l * r
            + l + r + 1) by (nonlinear_arith);
    }
}

/// Exchanging the operands of the geometric product changes at most the
/// sign: it is reversed once for every pair of distinct factors, one of each
/// operand.
pub proof fn lemma_geometric_exchange(a: BladeView, b: BladeView, metric: Seq<Square>)
    requires
        a.dim() == b.dim(),
    ensures
        b.geometric(a, metric) == a.geometric(b, metric).neg_if(
            (a.grade() * b.grade() - shared_below(a.unit, b.unit, a.dim() as int)) % 2 == 1,
        ),
{
    let n = a.dim() as int;
    if annihilated(a.unit, b.unit, metric) {
        let k = choose|k: int| null_at(a.unit, b.unit, metric, k);
        assert(null_at(b.unit, a.unit, metric, k));
    }
    if annihilated(b.unit, a.unit, metric) {
        let k = choose|k: int| null_at(b.unit, a.unit, metric, k);
        assert(null_at(a.unit, b.unit, metric, k));
    }
    assert(merged(a.unit, b.unit) =~= merged(b.unit, a.unit));
    lemma_negatives_symmetric(a.unit, b.unit, metric, n);
    lemma_swaps_both_orders(a.unit, b.unit, n);
}

// The exterior product

/// No factor is counted as shared exactly when no generator below `n` is a
/// factor of both operands.
pub proof fn lemma_shared_below_zero(lhs: Seq<bool>, rhs: Seq<bool>, n: int)
    requires
        0 <= n <= lhs.len(),
        n <= rhs.len(),
    ensures
        shared_below(lhs, rhs, n) == 0 <==> forall|axis: int|
            0 <= axis < n ==> !#[trigger] shared(lhs, rhs, axis),
    decreases n,
{
    if n > 0 {
        lemma_shared_below_zero(lhs, rhs, n - 1);
        if shared_below(lhs, rhs, n) == 0 {
            assert forall|axis: int| 0 <= axis < n implies !#[trigger] shared(lhs, rhs, axis) by {
                if axis == n - 1 {
                }
            }
        }
    }
}

/// Without shared factors no square enters the sign.
pub proof fn lemma_negatives_below_disjoint(
    lhs: Seq<bool>,
    rhs: Seq<bool>,
    metric: Seq<Square>,
    n: int,
)
    requires
        forall|axis: int| 0 <= axis < n ==> !#[trigger] shared(lhs, rhs, axis),
    ensures
        negatives_below(lhs, rhs, metric, n) == 0,
    decreases n,
{
    if n > 0 {
        lemma_negatives_below_disjoint(lhs, rhs, metric, n - 1);
    }
}

/// Whether two blades have no factor in common.
pub open spec fn disjoint(lhs: BladeView, rhs: BladeView) -> bool {
    forall|axis: int| !#[trigger] shared(lhs.unit, rhs.unit, axis)
}

/// The exterior product is the geometric product of blades without a common
/// factor, and zero for all others. In particular it does not depend on the
/// metric.
pub proof fn lemma_exterior_disjoint(lhs: BladeView, rhs: BladeView, metric: Seq<Square>)
    requires
        lhs.dim() == rhs.dim(),
    ensures
        disjoint(lhs, rhs) ==> lhs.exterior(rhs, metric) == lhs.geometric(rhs, metric)
            && lhs.exterior(rhs, metric) == Maybe::Just(
            BladeView {
                sign: lhs.sign.mul(rhs.sign).flipped(transpositions(lhs.unit, rhs.unit)),
                unit: merged(lhs.unit, rhs.unit),
            },
        ),
        !disjoint(lhs, rhs) ==> lhs.exterior(rhs, metric) == Maybe::<BladeView>::Nothing,
{
    let n = lhs.dim() as int;
    lemma_merged_count(lhs.unit, rhs.unit, n);
    lemma_shared_below_zero(lhs.unit, rhs.unit, n);
    if disjoint(lhs, rhs) {
        lemma_negatives_below_disjoint(lhs.unit, rhs.unit, metric, n);
        assert forall|axis: int| !null_at(lhs.unit, rhs.unit, metric, axis) by {
            assert(!shared(lhs.unit, rhs.unit, axis));
        }
    } else {
        let axis = choose|axis: int| shared(lhs.unit, rhs.unit, axis);
        assert(shared(lhs.unit, rhs.unit, axis));
        assert(shared_below(lhs.unit, rhs.unit, n) != 0);
    }
}

/// The exterior product is commutative up to a sign: exchanging the operands
/// reverses the sign exactly when both grades are odd.
pub proof fn lemma_exterior_exchange(lhs: BladeView, rhs: BladeView, metric: Seq<Square>)
    requires
        lhs.dim() == rhs.dim(),
    ensures
        (lhs.grade() * rhs.grade()) % 2 == 0 ==> rhs.exterior(lhs, metric) == lhs.exterior(
            rhs,
            metric,
        ),
        (lhs.grade() * rhs.grade()) % 2 == 1 ==> rhs.exterior(lhs, metric) == lhs.exterior(
            rhs,
            metric,
        ).neg(),
{
    let n = lhs.dim() as int;
    lemma_exterior_disjoint(lhs, rhs, metric);
    lemma_exterior_disjoint(rhs, lhs, metric);
    if disjoint(lhs, rhs) {
        assert forall|axis: int| !#[trigger] shared(rhs.unit, lhs.unit, axis) by {
            assert(!shared(lhs.unit, rhs.unit, axis));
        }
        lemma_swaps_both_orders(lhs.unit, rhs.unit, n);
        lemma_shared_below_zero(lhs.unit, rhs.unit, n);
        assert(merged(lhs.unit, rhs.unit) =~= merged(rhs.unit, lhs.unit));
    } else {
        let axis = choose|axis: int| shared(lhs.unit, rhs.unit, axis);
        assert(shared(rhs.unit, lhs.unit, axis));
    }
}

/// A generator has one factor: itself.
pub proof fn lemma_generator_count(dim: nat, axis: int, n: int)
    requires
        0 <= axis < dim,
        0 <= n <= dim,
    ensures
        count_below(generator(dim, axis).unit, n) == if axis < n {
            1nat
        } else {
            0nat
        },
    decreases n,
{
    if n > 0 {
        lemma_generator_count(dim, axis, n - 1);
    }
}

/// A generator passes the factors of the other operand that lie below it.
pub proof fn lemma_generator_swaps(dim: nat, axis: int, rhs: Seq<bool>, n: int)
    requires
        0 <= axis < dim,
        0 <= n <= dim,
    ensures
        swaps_below(generator(dim, axis).unit, rhs, n) == if axis < n {
            count_below(rhs, axis)
        } else {
            0nat
        },
    decreases n,
{
    if n > 0 {
        lemma_generator_swaps(dim, axis, rhs, n - 1);
    }
}

/// The exterior product of two distinct generators is the blade of both,
/// positive when they come in ascending order and negative otherwise. This
/// holds in every metric.
pub proof fn lemma_exterior_generators(dim: nat, i: int, j: int, metric: Seq<Square>)
    requires
        0 <= i < dim,
        0 <= j < dim,
        i != j,
    ensures
        generator(dim, i).exterior(generator(dim, j), metric) == Maybe::Just(
            BladeView {
                sign: if i < j {
                    Sign::Pos
                } else {
                    Sign::Neg
                },
                unit: Seq::new(dim, |axis: int| axis == i || axis == j),
            },
        ),
{
    let lhs = generator(dim, i);
    let rhs = generator(dim, j);
    lemma_exterior_disjoint(lhs, rhs, metric);
    assert(disjoint(lhs, rhs));
    lemma_generator_swaps(dim, i, rhs.unit, dim as int);
    lemma_generator_count(dim, j, i);
    assert(merged(lhs.unit, rhs.unit) =~= Seq::new(dim, |axis: int| axis == i || axis == j));
}

/// Distinct generators anticommute under the exterior product:
/// `ei ^ ej = -(ej ^ ei)`, in a Euclidean metric as in every other.
pub proof fn lemma_exterior_anticommutes(dim: nat, i: int, j: int, metric: Seq<Square>)
    requires
        0 <= i < dim,
        0 <= j < dim,
        i != j,
    ensures
        generator(dim, i).exterior(generator(dim, j), metric) == generator(dim, j).exterior(
            generator(dim, i),
            metric,
        ).neg(),
        generator(dim, i).exterior(generator(dim, j), metric) is Just,
{
    lemma_exterior_generators(dim, i, j, metric);
    lemma_exterior_generators(dim, j, i, metric);
    assert(Seq::new(dim, |axis: int| axis == i || axis == j) =~= Seq::new(
        dim,
        |axis: int| axis == j || axis == i,
    ));
}

// Associativity

/// The factors of a product of three blades do not depend on the grouping.
pub proof fn lemma_merged_associative(a: Seq<bool>, b: Seq<bool>, c: Seq<bool>)
    requires
        a.len() == b.len(),
        b.len() == c.len(),
    ensures
        merged(merged(a, b), c) == merged(a, merged(b, c)),
{
    assert(merged(merged(a, b), c) =~= merged(a, merged(b, c)));
}

/// A factor of three blades is cancelled by the first product and shared
/// with the third blade, or the other way round: a generator that is a
/// factor of at least two of them is shared once, in either grouping.
pub proof fn lemma_annihilated_associative(
    a: Seq<bool>,
    b: Seq<bool>,
    c: Seq<bool>,
    metric: Seq<Square>,
)
    requires
        a.len() == b.len(),
        b.len() == c.len(),
    ensures
        (annihilated(a, b, metric) || annihilated(merged(a, b), c, metric)) <==> (annihilated(
            b,
            c,
            metric,
        ) || annihilated(a, merged(b, c), metric)),
{
    if annihilated(a, b, metric) {
        let k = choose|k: int| null_at(a, b, metric, k);
        if c[k] {
            assert(null_at(b, c, metric, k));
        } else {
            assert(null_at(a, merged(b, c), metric, k));
        }
    }
    if annihilated(merged(a, b), c, metric) {
        let k = choose|k: int| null_at(merged(a, b), c, metric, k);
        if b[k] {
            assert(null_at(b, c, metric, k));
        } else {
            assert(null_at(a, merged(b, c), metric, k));
        }
    }
    if annihilated(b, c, metric) {
        let k = choose|k: int| null_at(b, c, metric, k);
        if a[k] {
            assert(null_at(a, b, metric, k));
        } else {
            assert(null_at(merged(a, b), c, metric, k));
        }
    }
    if annihilated(a, merged(b, c), metric) {
        let k = choose|k: int| null_at(a, merged(b, c), metric, k);
        if b[k] {
            assert(null_at(a, b, metric, k));
        } else {
            assert(null_at(merged(a, b), c, metric, k));
        }
    }
}

/// The squares that enter the sign of a product of three blades are the
/// same in either grouping.
pub proof fn lemma_negatives_associative(
    a: Seq<bool>,
    b: Seq<bool>,
    c: Seq<bool>,
    metric: Seq<Square>,
    n: int,
)
    requires
        a.len() == b.len(),
        b.len() == c.len(),
        0 <= n <= a.len(),
    ensures
        negatives_below(a, b, metric, n) + negatives_below(merged(a, b), c, metric, n)
            == negatives_below(b, c, metric, n) + negatives_below(a, merged(b, c), metric, n),
    decreases n,
{
    if n > 0 {
        lemma_negatives_associative(a, b, c, metric, n - 1);
    }
}

/// Up to parity, the factors of a product pass a third blade as the factors
/// of its operands do.
pub proof fn lemma_swaps_merged_left(a: Seq<bool>, b: Seq<bool>, c: Seq<bool>, n: int)
    requires
        a.len() == b.len(),
        0 <= n <= a.len(),
    ensures
        swaps_below(merged(a, b), c, n) % 2 == (swaps_below(a, c, n) + swaps_below(b, c, n)) % 2,
    decreases n,
{
    if n > 0 {
        lemma_swaps_merged_left(a, b, c, n - 1);
    }
}

/// Up to parity, a blade passes the factors of a product as it passes the
/// factors of its operands.
pub proof fn lemma_swaps_merged_right(a: Seq<bool>, b: Seq<bool>, c: Seq<bool>, n: int)
    requires
        b.len() == c.len(),
        0 <= n <= a.len(),
        n <= b.len(),
    ensures
        swaps_below(a, merged(b, c), n) % 2 == (swaps_below(a, b, n) + swaps_below(a, c, n)) % 2,
    decreases n,
{
    if n > 0 {
        lemma_swaps_merged_right(a, b, c, n - 1);
        lemma_merged_count(b, c, n - 1);
    }
}

/// The geometric product is associative.
pub proof fn lemma_geometric_associative(
    a: BladeView,
    b: BladeView,
    c: BladeView,
    metric: Seq<Square>,
)
    requires
        a.dim() == b.dim(),
        b.dim() == c.dim(),
    ensures
        a.geometric(b, metric).geometric(Maybe::Just(c), metric) == Maybe::Just(a).geometric(
            b.geometric(c, metric),
            metric,
        ),
{
    let n = a.dim() as int;
    let ab = merged(a.unit, b.unit);
    let bc = merged(b.unit, c.unit);
    lemma_annihilated_associative(a.unit, b.unit, c.unit, metric);
    lemma_merged_associative(a.unit, b.unit, c.unit);
    lemma_negatives_associative(a.unit, b.unit, c.unit, metric, n);
    lemma_swaps_merged_left(a.unit, b.unit, c.unit, n);
    lemma_swaps_merged_right(a.unit, b.unit, c.unit, n);
    let first = swaps_below(a.unit, b.unit, n) + negatives_below(a.unit, b.unit, metric, n);
    let outer = swaps_below(ab, c.unit, n) + negatives_below(ab, c.unit, metric, n);
    let second = swaps_below(b.unit, c.unit, n) + negatives_below(b.unit, c.unit, metric, n);
    let inner = swaps_below(a.unit, bc, n) + negatives_below(a.unit, bc, metric, n);
    assert((first + outer) % 2 == (second + inner) % 2);
}

/// The geometric product of blades that may vanish is associative.
pub proof fn lemma_geometric_associative_with_zero(
    a: Maybe<BladeView>,
    b: Maybe<BladeView>,
    c: Maybe<BladeView>,
    metric: Seq<Square>,
    dim: nat,
)
    requires
        a matches Maybe::Just(blade) ==> blade.dim() == dim,
        b matches Maybe::Just(blade) ==> blade.dim() == dim,
        c matches Maybe::Just(blade) ==> blade.dim() == dim,
    ensures
        a.geometric(b, metric).geometric(c, metric) == a.geometric(b.geometric(c, metric), metric),
{
    match (a, b, c) {
        (Maybe::Just(x), Maybe::Just(y), Maybe::Just(z)) => {
            lemma_geometric_associative(x, y, z, metric);
        },
        _ => {},
    }
}

// Reversion of a product, contractions and the regressive product

/// Reversing `x + y` factors reverses the first `x`, reverses the last `y`
/// and lets every one of the first pass every one of the last.
pub proof fn lemma_reversal_swaps_add(x: nat, y: nat)
    ensures
        reversal_swaps(x + y) == reversal_swaps(x) + reversal_swaps(y) + x * y,
    decreases y,
{
    if y == 0 {
        assert(x * y == 0) by (nonlinear_arith)
            requires
                y == 0,
        ;
    } else {
        let p = (y - 1) as nat;
        lemma_reversal_swaps_add(x, p);
        assert(x * y == x * p + x) by (nonlinear_arith)
            requires
                p == y - 1,
        ;
    }
}

/// Removing pairs of factors changes the sign of the reversion once for
/// every pair.
pub proof fn lemma_reversal_flips_cancelled(grade: nat, pairs: nat)
    ensures
        reversal_swaps(grade + 2 * pairs) % 2 == (reversal_swaps(grade) + pairs) % 2,
{
    lemma_reversal_swaps_add(grade, 2 * pairs);
    lemma_reversal_swaps_parity(2 * pairs);
    assert(grade * (2 * pairs) == 2 * (grade * pairs)) by (nonlinear_arith);
}

/// The parity that makes reversion an antiautomorphism. Two blades of
/// grades `left` and `right` with `pairs` common factors have a product of
/// grade `product`; merging them takes `forth` transpositions in one order
/// and `back` in the other.
pub proof fn lemma_reversal_parity_of_product(
    left: nat,
    right: nat,
    product: nat,
    pairs: nat,
    forth: nat,
    back: nat,
)
    requires
        product + 2 * pairs == left + right,
        forth + back + pairs == left * right,
    ensures
        (forth + reversal_swaps(product)) % 2 == (back + reversal_swaps(left) + reversal_swaps(
            right,
        )) % 2,
{
    lemma_reversal_swaps_add(left, right);
    lemma_reversal_flips_cancelled(product, pairs);
    let both = left * right;
    let whole = reversal_swaps(left + right);
    assert(whole == reversal_swaps(left) + reversal_swaps(right) + both);
    assert(whole % 2 == (reversal_swaps(product) + pairs) % 2);
}

/// Reversion is an antiautomorphism of the geometric product: the reverse
/// of a product is the product of the reverses in the opposite order.
pub proof fn lemma_reverse_geometric(a: BladeView, b: BladeView, metric: Seq<Square>)
    requires
        a.dim() == b.dim(),
    ensures
        a.geometric(b, metric).reverse() == b.reverse().geometric(a.reverse(), metric),
{
    let n = a.dim() as int;
    let pairs = shared_below(a.unit, b.unit, n);
    let product = a.geometric(b, metric);
    let turns_left = reversal_flips(a.grade());
    let turns_right = reversal_flips(b.grade());
    let exchange = (a.grade() * b.grade() - pairs) % 2 == 1;
    assert(b.reverse().geometric(a.reverse(), metric) == product.neg_if(exchange).neg_if(
        turns_left,
    ).neg_if(turns_right)) by {
        lemma_geometric_exchange(a, b, metric);
        lemma_geometric_neg(b, a, metric);
    }
    if let Maybe::Just(blade) = product {
        assert(reversal_flips(blade.grade()) == ((exchange != turns_left) != turns_right)) by {
            lemma_merged_count(a.unit, b.unit, n);
            lemma_swaps_both_orders(a.unit, b.unit, n);
            lemma_reversal_parity_of_product(
                a.grade(),
                b.grade(),
                blade.grade(),
                pairs,
                swaps_below(a.unit, b.unit, n),
                swaps_below(b.unit, a.unit, n),
            );
            lemma_reverse_parity(a.grade());
            lemma_reverse_parity(b.grade());
            lemma_reverse_parity(blade.grade());
        }
    }
}

/// The right contraction is the part of the geometric product whose grade
/// is that of the left operand less that of the right one. It vanishes when
/// the right operand has the higher grade.
pub proof fn lemma_right_contraction_graded(a: BladeView, b: BladeView, metric: Seq<Square>)
    requires
        a.dim() == b.dim(),
    ensures
        a.right_contraction(b, metric) == a.graded(b, metric, a.grade() - b.grade()),
{
    lemma_reverse_geometric(a, b, metric);
    match a.geometric(b, metric) {
        Maybe::Just(product) => {
            lemma_reverse_involution(product);
        },
        Maybe::Nothing => {},
    }
}

/// The contractions and the scalar product agree on blades of the same
/// grade, and there the inner and the dot product agree with them unless
/// the blades are scalars.
pub proof fn lemma_products_of_equal_grade(a: BladeView, b: BladeView, metric: Seq<Square>)
    requires
        a.dim() == b.dim(),
        a.grade() == b.grade(),
    ensures
        a.left_contraction(b, metric) == a.scalar(b, metric),
        a.right_contraction(b, metric) == a.scalar(b, metric),
        a.dot(b, metric) == a.scalar(b, metric),
        a.grade() > 0 ==> a.inner(b, metric) == a.scalar(b, metric),
{
    lemma_right_contraction_graded(a, b, metric);
}

/// The regressive product of two blades that together hold every generator
/// is the blade of their common factors; all other regressive products are
/// zero.
pub proof fn lemma_regressive_meet(a: BladeView, b: BladeView, metric: Seq<Square>)
    requires
        a.dim() == b.dim(),
    ensures
        match a.regressive(b, metric) {
            Maybe::Just(meet) => {
                &&& forall|axis: int| 0 <= axis < a.dim() ==> a.unit[axis] || b.unit[axis]
                &&& meet.unit == Seq::new(a.dim(), |axis: int| a.unit[axis] && b.unit[axis])
                &&& meet.sign == a.sign.mul(b.sign).flipped(
                    transpositions(complement(a.unit), complement(b.unit)),
                )
            },
            Maybe::Nothing => exists|axis: int|
                0 <= axis < a.dim() && !a.unit[axis] && !#[trigger] b.unit[axis],
        },
{
    let n = a.dim();
    let x = a.dual();
    let y = b.dual();
    lemma_exterior_disjoint(x, y, metric);
    if disjoint(x, y) {
        assert forall|axis: int| 0 <= axis < n implies a.unit[axis] || b.unit[axis] by {
            assert(!shared(x.unit, y.unit, axis));
        }
        assert(complement(merged(x.unit, y.unit)) =~= Seq::new(
            n,
            |axis: int| a.unit[axis] && b.unit[axis],
        ));
    } else {
        let axis = choose|axis: int| shared(x.unit, y.unit, axis);
        assert(!a.unit[axis] && !b.unit[axis]);
    }
}

} // verus!
