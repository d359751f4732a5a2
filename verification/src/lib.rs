//! An engine for population-based stochastic local search: independently
//! evolving populations of candidate solutions, each running a greedy
//! hill climb with an adaptive mutation-rate schedule, coordinated in
//! synchronized rounds until a configurable stopping criterion is met.
//!
//! Fitness values, mutation rates and improvement factors are integers;
//! rates and factors are fixed-point numbers with unit
//! [`population::SCALE`], so that every rule of the engine is a statement
//! about plain arithmetic.

pub mod individual;
pub mod population;
pub mod simulation;
pub mod simulation_builder;
