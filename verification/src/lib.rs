//! Computational mathematics toolkit: the decision and bookkeeping logic of a
//! set of numerical-methods programs (linear systems, approximation,
//! interpolation, nonlinear equations, ODEs and descriptive statistics).
//!
//! Real numbers never enter this library. Where a method orders or compares
//! samples, each sample is represented by an `i64` ordering key whose order
//! and equality are those of the number; `ranking::ordering_key` computes it
//! from the number's IEEE-754 bit pattern.
pub mod ranking;
pub mod statistics;
pub mod input;
pub mod linear;
pub mod text;
pub mod approximation;
pub mod nonlinear;
pub mod differential;
