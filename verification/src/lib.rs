//! Special-function evaluators: gamma and incomplete gamma, the scaled
//! complementary error function, the imaginary-axis Faddeeva function, and
//! the real branches of the Lambert W function.
//!
//! Each evaluator stitches together several approximation techniques, each
//! valid on one sub-interval of the domain.  Picking the regime, validating
//! the domain, and indexing the interpolation tables are exact integer
//! computations on the 64-bit encoding of a double-precision argument, and
//! this crate verifies them: every planner below takes the argument's bit
//! pattern, returns the evaluation strategy the argument falls under, and
//! proves that the partition is exhaustive, that table lookups stay in
//! bounds, and that the domain checks accept exactly the documented domain.
//! The floating-point arithmetic that a strategy then performs is outside
//! what the verifier can reason about and lives with the callers.

pub mod erfcx;
pub mod faddeeva;
pub mod gamma;
pub mod ieee;
pub mod lambert;
