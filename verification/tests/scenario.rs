use darwin::individual::Individual;
use darwin::population::Population;
use darwin::simulation_builder::SimulationBuilder;

/// A travelling-salesman candidate over a fixed set of 20 points: the tour
/// is a permutation of point indices, a mutation swaps two positions drawn
/// from a small deterministic generator, and the fitness is the tour length
/// in thousandths of a distance unit (lower is better).
#[derive(Clone)]
struct Tour {
    cities: Vec<(f64, f64)>,
    order: Vec<usize>,
    seed: u64,
}

impl Tour {
    fn next_index(&mut self) -> usize {
        self.seed = self
            .seed
            .wrapping_mul(6364136223846793005)
            .wrapping_add(1442695040888963407);
        ((self.seed >> 33) as usize) % self.order.len()
    }
}

impl Individual for Tour {
    fn mutate(&mut self) {
        let a = self.next_index();
        let b = self.next_index();
        self.order.swap(a, b);
    }

    fn calculate_fitness(&self) -> u64 {
        let mut total = 0.0f64;
        for i in 0..self.order.len() {
            let (x1, y1) = self.cities[self.order[i]];
            let (x2, y2) = self.cities[self.order[(i + 1) % self.order.len()]];
            total += ((x1 - x2) * (x1 - x2) + (y1 - y2) * (y1 - y2)).sqrt();
        }
        (total * 1000.0) as u64
    }
}

/// 20 points on a circle of radius 50: the shortest tour is the one that
/// follows the circle, with length close to the circumference (about 313),
/// so a target of 460 is demanding but reachable.
fn circle_cities() -> Vec<(f64, f64)> {
    let mut cities = Vec::new();
    for i in 0..20 {
        let angle = (i as f64) * std::f64::consts::PI * 2.0 / 20.0;
        cities.push((50.0 * angle.cos(), 50.0 * angle.sin()));
    }
    cities
}

fn scrambled_tour(seed: u64) -> Tour {
    let mut t = Tour {
        cities: circle_cities(),
        order: (0..20).collect(),
        seed,
    };
    for _ in 0..40 {
        t.mutate();
    }
    t
}

#[test]
fn five_populations_hunt_a_target_tour_length() {
    let mut builder = SimulationBuilder::new().fitness(460_000).threads(4);
    for id in 0..5u32 {
        let mut candidates = Vec::new();
        for c in 0..100u64 {
            candidates.push(scrambled_tour(1 + 997 * (id as u64) + c));
        }
        builder = builder.add_population(Population::new(id, candidates, 1020, 10, 10, 100));
    }
    let mut sim = builder.finalize().expect("a valid configuration");
    // The run must end: either some population reaches the target, or the
    // safety cap of 3000 rounds ends it cleanly.
    sim.run_until(3000);
    let result = &sim.simulation_result;
    assert_eq!(result.fittest.len(), 5);
    for (i, entry) in result.fittest.iter().enumerate() {
        assert_eq!(entry.id, i as u32);
    }
    let reached = result.fittest.iter().any(|e| e.fitness <= 460_000);
    assert!(reached || result.iteration_counter == 3000);
    if !reached {
        assert_eq!(result.iteration_counter, 3000);
    }
    assert!(result.improvement_factor <= 1000);
}
