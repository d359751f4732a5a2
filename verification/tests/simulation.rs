use darwin::individual::Individual;
use darwin::population::{Population, SCALE};
use darwin::simulation::{improvement, partition_round_robin, SimulationType};
use darwin::simulation_builder::SimulationBuilder;

#[derive(Clone)]
struct Idle {
    value: u64,
}

impl Individual for Idle {
    fn mutate(&mut self) {}

    fn calculate_fitness(&self) -> u64 {
        self.value
    }
}

#[derive(Clone)]
struct Halving {
    value: u64,
}

impl Individual for Halving {
    fn mutate(&mut self) {
        self.value = self.value / 2;
    }

    fn calculate_fitness(&self) -> u64 {
        self.value
    }
}

fn idle_population(id: u32, value: u64) -> Population<Idle> {
    Population::new(id, vec![Idle { value }], 1500, 5, 5, 20)
}

#[test]
fn improvement_factor_formula() {
    assert_eq!(improvement(230, 460), 500);
    assert_eq!(improvement(460, 460), SCALE);
    assert_eq!(improvement(0, 460), 0);
    assert_eq!(improvement(1, 3), 333);
    // An original fitness of zero reports 1.0 by convention.
    assert_eq!(improvement(0, 0), SCALE);
    // The quotient is clamped into u64.
    assert_eq!(improvement(u64::MAX, 1), u64::MAX);
}

#[test]
fn end_iteration_runs_exactly_that_many_rounds() {
    let mut sim = SimulationBuilder::new()
        .iterations(10)
        .add_population(idle_population(0, 50))
        .add_population(idle_population(1, 30))
        .finalize()
        .expect("a valid configuration");
    sim.run();
    assert_eq!(sim.simulation_result.iteration_counter, 10);
    assert_eq!(sim.simulation_result.original_fitness, 30);
    assert_eq!(sim.simulation_result.fittest.len(), 2);
    assert_eq!(sim.simulation_result.fittest[0].id, 0);
    assert_eq!(sim.simulation_result.fittest[0].fitness, 50);
    assert_eq!(sim.simulation_result.fittest[1].id, 1);
    assert_eq!(sim.simulation_result.fittest[1].fitness, 30);
}

#[test]
fn identity_mutation_gives_improvement_factor_one() {
    let mut sim = SimulationBuilder::new()
        .iterations(12)
        .add_population(idle_population(0, 50))
        .add_population(idle_population(1, 30))
        .add_population(idle_population(2, 90))
        .finalize()
        .expect("a valid configuration");
    sim.run();
    // No candidate ever changes, so every best-known fitness is constant
    // and the improvement factor is exactly 1.0.
    assert_eq!(sim.simulation_result.improvement_factor, SCALE);
    assert_eq!(sim.simulation_result.original_fitness, 30);
    assert_eq!(sim.simulation_result.fittest[0].fitness, 50);
    assert_eq!(sim.simulation_result.fittest[1].fitness, 30);
    assert_eq!(sim.simulation_result.fittest[2].fitness, 90);
}

#[test]
fn end_factor_stops_once_the_ratio_is_reached() {
    let mut sim = SimulationBuilder::new()
        .factor(500)
        .add_population(Population::new(0, vec![Halving { value: 1000 }], 1500, 5, 5, 20))
        .finalize()
        .expect("a valid configuration");
    sim.run();
    // The first round halves 1000 to 500, exactly the 0.5 target.
    assert_eq!(sim.simulation_result.iteration_counter, 1);
    assert_eq!(sim.simulation_result.original_fitness, 1000);
    assert_eq!(sim.simulation_result.improvement_factor, 500);
}

#[test]
fn end_fitness_stops_once_any_population_reaches_the_target() {
    let mut sim = SimulationBuilder::new()
        .fitness(100)
        .add_population(Population::new(0, vec![Halving { value: 1000 }], 1500, 5, 5, 20))
        .add_population(Population::new(1, vec![Halving { value: 5000 }], 1500, 5, 5, 20))
        .finalize()
        .expect("a valid configuration");
    sim.run();
    // Rounds halve the first population's best: 500, 250, 125, 62 — and
    // the second one's in step: 2500, 1250, 625, 312.
    assert_eq!(sim.simulation_result.iteration_counter, 4);
    assert_eq!(sim.simulation_result.fittest[0].fitness, 62);
    assert_eq!(sim.simulation_result.fittest[1].fitness, 312);
    assert!(sim.simulation_result.improvement_factor <= SCALE);
}

#[test]
fn run_until_stops_at_the_cap_when_the_target_is_unreachable() {
    let mut sim = SimulationBuilder::new()
        .fitness(0)
        .add_population(idle_population(0, 5))
        .finalize()
        .expect("a valid configuration");
    sim.run_until(7);
    assert_eq!(sim.simulation_result.iteration_counter, 7);
    assert_eq!(sim.simulation_result.fittest[0].fitness, 5);
    assert_eq!(sim.simulation_result.improvement_factor, SCALE);
}

#[test]
fn record_functions_fill_the_snapshot() {
    let mut sim = SimulationBuilder::new()
        .add_population(idle_population(0, 50))
        .add_population(idle_population(1, 30))
        .finalize()
        .expect("a valid configuration");
    sim.record_original_fitness();
    assert_eq!(sim.simulation_result.original_fitness, 30);
    sim.record_result(3);
    assert_eq!(sim.simulation_result.iteration_counter, 3);
    assert_eq!(sim.simulation_result.improvement_factor, SCALE);
    assert_eq!(sim.simulation_result.fittest.len(), 2);
    assert_eq!(sim.simulation_result.fittest[0].id, 0);
    assert_eq!(sim.simulation_result.fittest[0].fitness, 50);
    assert_eq!(sim.simulation_result.fittest[1].id, 1);
    assert_eq!(sim.simulation_result.fittest[1].fitness, 30);
}

#[test]
fn global_best_is_the_minimum_over_the_habitat() {
    let sim = SimulationBuilder::new()
        .add_population(idle_population(0, 50))
        .add_population(idle_population(1, 30))
        .add_population(idle_population(2, 90))
        .finalize()
        .expect("a valid configuration");
    assert_eq!(sim.global_best(), 30);
}

#[test]
fn round_robin_partition_of_five_over_four() {
    let parts = partition_round_robin(5, 4);
    assert_eq!(parts.len(), 4);
    assert_eq!(parts[0], vec![0, 4]);
    assert_eq!(parts[1], vec![1]);
    assert_eq!(parts[2], vec![2]);
    assert_eq!(parts[3], vec![3]);
}

#[test]
fn round_robin_partition_covers_every_index_exactly_once() {
    for (n, k) in [(5usize, 4usize), (0, 2), (3, 5), (6, 1), (12, 3)] {
        let parts = partition_round_robin(n, k);
        assert_eq!(parts.len(), k);
        let mut seen = vec![0usize; n];
        for part in &parts {
            for &i in part {
                assert!(i < n);
                seen[i] += 1;
            }
        }
        for (i, count) in seen.iter().enumerate() {
            assert_eq!(*count, 1, "index {} must be driven exactly once", i);
        }
    }
}

#[test]
fn criterion_variants_compare_by_value() {
    assert_eq!(SimulationType::EndIteration(10), SimulationType::EndIteration(10));
    assert_ne!(SimulationType::EndIteration(10), SimulationType::EndIteration(11));
    assert_ne!(
        SimulationType::EndFactor(500),
        SimulationType::EndFitness(500)
    );
}
