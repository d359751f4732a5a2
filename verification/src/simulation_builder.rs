//! A helper to build (configure) a valid simulation, one setting at a time.

use vstd::prelude::*;
use crate::individual::Individual;
use crate::population::Population;
use crate::simulation::{Simulation, SimulationResult, SimulationType};

verus! {

/// A configuration error found when the simulation is finalized.
#[derive(Clone, Copy, Debug, PartialEq, Eq, Structural)]
pub enum Error {
    /// The configured number of iterations is too low: it must be at
    /// least 10.
    EndIterationTooLow,
}

/// A helper to build (configure) a valid simulation.
pub struct SimulationBuilder<T> {
    /// The simulation under construction.
    pub simulation: Simulation<T>,
}

impl<T: Individual + Clone> SimulationBuilder<T> {
    /// Start with this method: a default simulation with an
    /// `EndIteration(10)` criterion, two worker threads, an empty habitat,
    /// and an empty result whose summary scalars sit at their maxima until
    /// a run fills them.
    pub fn new() -> (b: SimulationBuilder<T>)
        ensures
            b.simulation.type_of_simulation == SimulationType::EndIteration(10),
            b.simulation.num_of_threads == 2,
            b.simulation.habitat@.len() == 0,
            b.simulation.total_time_in_ms == 0,
            b.simulation.simulation_result.improvement_factor == u64::MAX,
            b.simulation.simulation_result.original_fitness == u64::MAX,
            b.simulation.simulation_result.fittest@.len() == 0,
            b.simulation.simulation_result.iteration_counter == 0,
    {
        SimulationBuilder {
            simulation: Simulation {
                type_of_simulation: SimulationType::EndIteration(10),
                num_of_threads: 2,
                habitat: Vec::new(),
                total_time_in_ms: 0,
                simulation_result: SimulationResult {
                    improvement_factor: u64::MAX,
                    original_fitness: u64::MAX,
                    fittest: Vec::new(),
                    iteration_counter: 0,
                },
            },
        }
    }

    /// Set the total number of rounds to run and thus the criterion to
    /// `EndIteration`.
    pub fn iterations(self, iterations: u32) -> (b: SimulationBuilder<T>)
        ensures
            b.simulation.type_of_simulation == SimulationType::EndIteration(iterations),
            b.simulation.num_of_threads == self.simulation.num_of_threads,
            b.simulation.habitat == self.simulation.habitat,
            b.simulation.total_time_in_ms == self.simulation.total_time_in_ms,
            b.simulation.simulation_result == self.simulation.simulation_result,
    {
        let mut s = self.simulation;
        s.type_of_simulation = SimulationType::EndIteration(iterations);
        SimulationBuilder { simulation: s }
    }

    /// Set the improvement-factor stop criterion (fixed point, unit
    /// `SCALE`) and thus the criterion to `EndFactor`.
    pub fn factor(self, factor: u64) -> (b: SimulationBuilder<T>)
        ensures
            b.simulation.type_of_simulation == SimulationType::EndFactor(factor),
            b.simulation.num_of_threads == self.simulation.num_of_threads,
            b.simulation.habitat == self.simulation.habitat,
            b.simulation.total_time_in_ms == self.simulation.total_time_in_ms,
            b.simulation.simulation_result == self.simulation.simulation_result,
    {
        let mut s = self.simulation;
        s.type_of_simulation = SimulationType::EndFactor(factor);
        SimulationBuilder { simulation: s }
    }

    /// Set the target-fitness stop criterion and thus the criterion to
    /// `EndFitness`.
    pub fn fitness(self, fitness: u64) -> (b: SimulationBuilder<T>)
        ensures
            b.simulation.type_of_simulation == SimulationType::EndFitness(fitness),
            b.simulation.num_of_threads == self.simulation.num_of_threads,
            b.simulation.habitat == self.simulation.habitat,
            b.simulation.total_time_in_ms == self.simulation.total_time_in_ms,
            b.simulation.simulation_result == self.simulation.simulation_result,
    {
        let mut s = self.simulation;
        s.type_of_simulation = SimulationType::EndFitness(fitness);
        SimulationBuilder { simulation: s }
    }

    /// Set the number of worker threads a driver should use.
    pub fn threads(self, threads: usize) -> (b: SimulationBuilder<T>)
        ensures
            b.simulation.num_of_threads == threads,
            b.simulation.type_of_simulation == self.simulation.type_of_simulation,
            b.simulation.habitat == self.simulation.habitat,
            b.simulation.total_time_in_ms == self.simulation.total_time_in_ms,
            b.simulation.simulation_result == self.simulation.simulation_result,
    {
        let mut s = self.simulation;
        s.num_of_threads = threads;
        SimulationBuilder { simulation: s }
    }

    /// Add a population to the habitat.
    pub fn add_population(self, population: Population<T>) -> (b: SimulationBuilder<T>)
        ensures
            b.simulation.habitat@ == self.simulation.habitat@.push(population),
            b.simulation.type_of_simulation == self.simulation.type_of_simulation,
            b.simulation.num_of_threads == self.simulation.num_of_threads,
            b.simulation.total_time_in_ms == self.simulation.total_time_in_ms,
            b.simulation.simulation_result == self.simulation.simulation_result,
    {
        let mut s = self.simulation;
        s.habitat.push(population);
        SimulationBuilder { simulation: s }
    }

    /// Check the configuration: an `EndIteration` bound below 10 is
    /// rejected with `EndIterationTooLow` — and nothing else is — while
    /// every other configuration yields the simulation exactly as built.
    pub fn finalize(self) -> (r: Result<Simulation<T>, Error>)
        ensures
            r is Err <==> (self.simulation.type_of_simulation matches SimulationType::EndIteration(
                n,
            ) && n < 10),
            match r {
                Result::Ok(s) => s == self.simulation,
                Result::Err(e) => e == Error::EndIterationTooLow,
            },
    {
        match self.simulation.type_of_simulation {
            SimulationType::EndIteration(n) if n < 10 => Err(Error::EndIterationTooLow),
            _ => Ok(self.simulation),
        }
    }
}

} // verus!
