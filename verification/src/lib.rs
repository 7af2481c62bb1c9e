//! Exact arithmetic on the basis blades of a Clifford algebra.
//!
//! A blade is a product of distinct orthogonal generators `e0, e1, ...` of an
//! algebra whose signature is given by a [`metric::Metric`]. The crate computes
//! how two blades combine under the geometric product and the products derived
//! from it, together with grade, duality and the involutions. Every executable
//! function carries a contract over the mathematical model in [`model`], and
//! the algebraic laws that relate them are proved in [`laws`].

pub mod algebra;
pub mod basis;
pub mod common;
pub mod laws;
pub mod maybe;
pub mod metric;
pub mod model;
pub mod sign;
pub mod text;

