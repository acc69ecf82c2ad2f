//! Equilibrium pH of an aqueous mixture of acids and bases, each possibly polyprotic.
//!
//! Logarithmic quantities (pH, pK, the solvent's self-ionization pK) are fixed-point
//! integers with `numeric::P_SCALE` decimal places; linear quantities (concentrations,
//! dissociation constants, the charge imbalance) are decimals (`numeric::Dec`).
//!
//! - `numeric`: the decimal value type and the decimal arithmetic used throughout.
//! - `types`: species (`AcidBase`) and solvent (`SolProperties`) records.
//! - `calculator`: the charge-balance evaluator and the bisection root finder.
//! - `scan`: a grid search over the two halves of `[0, 14)`.
#![allow(non_snake_case)]

pub mod numeric;
pub mod types;
pub mod calculator;
pub mod scan;
