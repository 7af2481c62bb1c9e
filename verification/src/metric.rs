//! The signature of an algebra: how each generator squares.

use crate::text::{decimal, push_decimal};
use vstd::prelude::*;
use vstd::std_specs::cmp::PartialEqSpecImpl;
use vstd::string::StringExecFns;

verus! {

/// How one generator squares under the geometric product.
#[derive(Clone, Copy, Debug, PartialEq, Eq, Structural)]
pub enum Square {
    /// `e * e = 1`
    Pos,
    /// `e * e = -1`
    Neg,
    /// `e * e = 0`
    Zero,
}

impl Square {
    /// The value of the square, as it is written: `1`, `-1` or `0`.
    pub open spec fn text(self) -> Seq<char> {
        match self {
            Square::Pos => seq!['1'],
            Square::Neg => seq!['-', '1'],
            Square::Zero => seq!['0'],
        }
    }

    /// The value of the square, as it is written.
    pub fn as_str(&self) -> (r: &'static str)
        ensures
            r@ == self.text(),
    {
        proof {
            reveal_strlit("1");
            reveal_strlit("-1");
            reveal_strlit("0");
        }
        let r = match self {
            Square::Pos => "1",
            Square::Neg => "-1",
            Square::Zero => "0",
        };
        assert(r@ =~= self.text());
        r
    }
}

/// The squares of the `N` generators of an algebra, in the order of their
/// indices.
#[derive(Clone, Copy, Debug, Eq)]
pub struct Metric<const N: usize>(pub [Square; N]);

impl<const N: usize> PartialEq for Metric<N> {
    /// Two metrics are equal when every generator squares alike in both.
    fn eq(&self, other: &Self) -> (r: bool) {
        let mut i: usize = 0;
        while i < N
            invariant
                i <= N,
                forall|k: int| 0 <= k < i ==> self.0@[k] == other.0@[k],
            decreases N - i,
        {
            if self.0[i] != other.0[i] {
                return false;
            }
            i += 1;
        }
        assert(self.0@ =~= other.0@);
        true
    }
}

impl<const N: usize> PartialEqSpecImpl for Metric<N> {
    open spec fn obeys_eq_spec() -> bool {
        true
    }

    open spec fn eq_spec(&self, other: &Self) -> bool {
        self@ == other@
    }
}

impl<const N: usize> View for Metric<N> {
    type V = Seq<Square>;

    open spec fn view(&self) -> Seq<Square> {
        self.0@
    }
}

/// What a metric writes for the generator `axis`: its name, a superscript
/// two, an equals sign, the value of the square and a space.
pub open spec fn axis_text(axis: nat, square: Square) -> Seq<char> {
    seq!['e'] + decimal(axis) + seq!['\u{b2}', '='] + square.text() + seq![' ']
}

/// The text of the first `n` generators of a metric, one after the other.
pub open spec fn metric_text(squares: Seq<Square>, n: nat) -> Seq<char>
    recommends
        n <= squares.len(),
    decreases n,
{
    if n == 0 {
        Seq::empty()
    } else {
        metric_text(squares, (n - 1) as nat) + axis_text((n - 1) as nat, squares[n - 1])
    }
}

impl<const N: usize> Metric<N> {
    /// The square of the generator `axis`.
    pub fn get(&self, axis: usize) -> (r: Square)
        requires
            axis < N,
        ensures
            r == self@[axis as int],
    {
        self.0[axis]
    }

    /// Renders the metric, one entry per generator.
    pub fn to_string(&self) -> (r: String)
        ensures
            r@ == metric_text(self@, N as nat),
    {
        let mut out = String::new();
        let mut i: usize = 0;
        while i < N
            invariant
                i <= N,
                out@ == metric_text(self@, i as nat),
            decreases N - i,
        {
            proof {
                reveal_strlit("e");
                reveal_strlit("\u{b2}=");
                reveal_strlit(" ");
            }
            let ghost before = out@;
            out.append("e");
            push_decimal(&mut out, i);
            out.append("\u{b2}=");
            out.append(self.0[i].as_str());
            out.append(" ");
            assert(out@ =~= before + axis_text(i as nat, self@[i as int]));
            i += 1;
        }
        out
    }
}

} // verus!
