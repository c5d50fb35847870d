//! Fixed-point models of automated-market-maker bonding curves.
//!
//! The crate evaluates invariant solvers of constant-function market makers
//! over wide unsigned integer domains: a 256-bit fixed-point representation,
//! a full-precision multiply-divide primitive, two bounded-iteration
//! invariant solvers, and a sampling harness that isolates per-point
//! failures so one failing sample does not abort a batch.

pub mod wide;

pub mod vyper;

pub mod functions;

pub mod yearn;

pub mod curve;

pub mod maths;

pub mod sampler;
