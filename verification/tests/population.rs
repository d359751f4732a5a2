use darwin::individual::Individual;
use darwin::population::{Population, RATE_CAP, SCALE};

#[derive(Clone)]
struct Idle {
    value: u64,
}

impl Individual for Idle {
    fn mutate(&mut self) {}

    fn calculate_fitness(&self) -> u64 {
        self.value
    }
}

/// A candidate that a single mutation always makes strictly worse, so every
/// evolution step is non-improving.
#[derive(Clone)]
struct Worsening {
    spoiled: bool,
}

impl Individual for Worsening {
    fn mutate(&mut self) {
        self.spoiled = true;
    }

    fn calculate_fitness(&self) -> u64 {
        if self.spoiled {
            100
        } else {
            10
        }
    }
}

/// A candidate whose mutation halves its value, so every step improves
/// until the value reaches zero.
#[derive(Clone)]
struct Halving {
    value: u64,
}

impl Individual for Halving {
    fn mutate(&mut self) {
        self.value = self.value / 2;
    }

    fn calculate_fitness(&self) -> u64 {
        self.value
    }
}

#[test]
fn new_scores_all_candidates_and_starts_at_the_fittest() {
    let candidates = vec![
        Idle { value: 5 },
        Idle { value: 3 },
        Idle { value: 9 },
    ];
    let p = Population::new(7, candidates, 2000, 3, 2, 5);
    assert_eq!(p.id, 7);
    assert_eq!(p.candidates.len(), 3);
    assert_eq!(p.accepted_fitness, 3);
    assert_eq!(p.best_known_fitness, 3);
    assert_eq!(p.current_mutation_rate, SCALE);
    assert_eq!(p.mutation_growth_factor, 2000);
    assert_eq!(p.reset_counter, 0);
    assert_eq!(p.reset_limit, 3);
    assert_eq!(p.reset_limit_start, 3);
    assert_eq!(p.reset_limit_increment, 2);
    assert_eq!(p.reset_limit_end, 5);
}

#[test]
fn best_known_fitness_never_rises_across_steps() {
    let mut p = Population::new(0, vec![Halving { value: 1024 }], 1500, 4, 1, 8);
    let mut previous = p.best_known_fitness;
    for _ in 0..50 {
        p.step();
        assert!(p.best_known_fitness <= previous);
        previous = p.best_known_fitness;
    }
    assert_eq!(p.best_known_fitness, 0);
}

#[test]
fn reset_fires_after_exactly_reset_limit_non_improving_steps() {
    let mut p = Population::new(0, vec![Worsening { spoiled: false }], 2000, 3, 2, 5);
    assert_eq!(p.accepted_fitness, 10);
    // Two non-improving steps: the streak counts up, nothing else moves.
    p.step();
    assert_eq!(p.reset_counter, 1);
    assert_eq!(p.current_mutation_rate, SCALE);
    assert_eq!(p.reset_limit, 3);
    p.step();
    assert_eq!(p.reset_counter, 2);
    assert_eq!(p.current_mutation_rate, SCALE);
    // The third step reaches the limit: the rate strictly increases, the
    // streak returns to zero, and the limit advances by its increment.
    p.step();
    assert_eq!(p.reset_counter, 0);
    assert_eq!(p.current_mutation_rate, 2000);
    assert_eq!(p.reset_limit, 5);
    // The accepted candidate reverted to the best-known record.
    assert_eq!(p.accepted_fitness, 10);
    assert_eq!(p.best_known_fitness, 10);
}

#[test]
fn reset_limit_never_exceeds_its_end_value() {
    let mut p = Population::new(0, vec![Worsening { spoiled: false }], 2000, 3, 2, 5);
    for _ in 0..100 {
        p.step();
        assert!(p.reset_limit <= p.reset_limit_end);
        assert!(p.reset_limit >= p.reset_limit_start);
        assert!(p.current_mutation_rate <= RATE_CAP);
    }
    // After the first reset the limit is pinned at its end value.
    assert_eq!(p.reset_limit, 5);
}

#[test]
fn mutation_rate_never_decreases() {
    let mut p = Population::new(0, vec![Worsening { spoiled: false }], 1250, 2, 1, 4);
    let mut previous = p.current_mutation_rate;
    for _ in 0..40 {
        p.step();
        assert!(p.current_mutation_rate >= previous);
        previous = p.current_mutation_rate;
    }
    assert!(p.current_mutation_rate > SCALE);
}

#[test]
fn identity_mutation_keeps_everything_still() {
    let mut p = Population::new(0, vec![Idle { value: 42 }], 1500, 2, 1, 4);
    for _ in 0..20 {
        p.step();
        assert_eq!(p.best_known_fitness, 42);
        assert_eq!(p.accepted_fitness, 42);
        // An identity mutation is an accepted (non-worsening) outcome, so
        // the streak never builds up and no reset ever fires.
        assert_eq!(p.reset_counter, 0);
        assert_eq!(p.current_mutation_rate, SCALE);
        assert_eq!(p.reset_limit, 2);
    }
}

#[test]
fn apply_outcome_follows_the_greedy_acceptance_policy() {
    let mut p = Population::new(0, vec![Idle { value: 10 }], 2000, 2, 1, 4);
    // A better outcome is accepted and improves the record.
    p.apply_outcome(Idle { value: 4 }, 4);
    assert_eq!(p.accepted_fitness, 4);
    assert_eq!(p.best_known_fitness, 4);
    assert_eq!(p.reset_counter, 0);
    // A worse outcome is rejected and lengthens the streak.
    p.apply_outcome(Idle { value: 9 }, 9);
    assert_eq!(p.accepted_fitness, 4);
    assert_eq!(p.best_known_fitness, 4);
    assert_eq!(p.reset_counter, 1);
    // The second rejection reaches the limit of 2: reset.
    p.apply_outcome(Idle { value: 9 }, 9);
    assert_eq!(p.reset_counter, 0);
    assert_eq!(p.current_mutation_rate, 2000);
    assert_eq!(p.reset_limit, 3);
    assert_eq!(p.accepted_fitness, 4);
    // An equal outcome is accepted (greedy acceptance takes ties).
    p.apply_outcome(Idle { value: 4 }, 4);
    assert_eq!(p.accepted_fitness, 4);
    assert_eq!(p.reset_counter, 0);
}
