//! The run controller: a habitat of populations advanced in synchronized
//! rounds until the active stopping criterion is met, then aggregated into
//! an immutable result snapshot.

use vstd::prelude::*;
use vstd::arithmetic::div_mod::{
    lemma_div_is_ordered, lemma_div_multiples_vanish, lemma_div_pos_is_pos,
    lemma_fundamental_div_mod, lemma_fundamental_div_mod_converse, lemma_mod_bound,
};
use vstd::arithmetic::mul::lemma_mul_inequality;
use crate::individual::Individual;
use crate::population::{
    min_int, run_unchanged, schedule_wf, step_schedule, Population, Schedule, SCALE,
};

verus! {

/// The stopping criterion of a run; exactly one is active.
///
/// `EndIteration(n)` stops after `n` completed rounds. `EndFactor(f)` stops
/// once the improvement factor — final best over original best, fixed point
/// with unit `SCALE` — is at most `f`. `EndFitness(f)` stops once any
/// population's best-known fitness is at most `f`.
#[derive(Clone, Copy, Debug, PartialEq, Eq, Structural)]
pub enum SimulationType {
    EndIteration(u32),
    EndFactor(u64),
    EndFitness(u64),
}

/// The fittest candidate one population ended with.
pub struct PopulationFittest<T> {
    pub id: u32,
    pub candidate: T,
    pub fitness: u64,
}

/// The immutable snapshot produced once a run stops: the fittest candidate
/// of every population in habitat order, plus the summary scalars.
pub struct SimulationResult<T> {
    /// Fixed point (unit `SCALE`): final global best over original best.
    pub improvement_factor: u64,
    /// The global best fitness before the first round.
    pub original_fitness: u64,
    /// One entry per population, in habitat order.
    pub fittest: Vec<PopulationFittest<T>>,
    /// Completed rounds when the run stopped.
    pub iteration_counter: u32,
}

/// The run controller: owns the habitat, the stopping criterion, and the
/// result snapshot. `num_of_threads` is advice to a driver that spreads the
/// habitat over workers; the rounds it runs are the ones specified here.
pub struct Simulation<T> {
    pub type_of_simulation: SimulationType,
    pub num_of_threads: usize,
    pub habitat: Vec<Population<T>>,
    /// Elapsed wall-clock time, recorded by the caller; reporting only.
    pub total_time_in_ms: u64,
    pub simulation_result: SimulationResult<T>,
}

/// The lowest best-known fitness across a non-empty habitat.
pub open spec fn spec_global_best<T>(h: Seq<Population<T>>) -> int
    decreases h.len(),
{
    if h.len() <= 1 {
        h[0].best_known_fitness as int
    } else {
        min_int(h[0].best_known_fitness as int, spec_global_best(h.drop_first()))
    }
}

/// The global best of a non-empty habitat is one of its populations'
/// best-known fitness values, and no population's is lower.
pub proof fn lemma_global_best_bounds<T>(h: Seq<Population<T>>)
    requires
        h.len() >= 1,
    ensures
        forall|i: int|
            0 <= i < h.len() ==> spec_global_best(h) <= (#[trigger] h[i]).best_known_fitness as int,
        exists|i: int|
            0 <= i < h.len() && spec_global_best(h) == (#[trigger] h[i]).best_known_fitness as int,
    decreases h.len(),
{
    if h.len() > 1 {
        lemma_global_best_bounds(h.drop_first());
        assert forall|i: int|
            0 <= i < h.len() implies spec_global_best(h) <= (#[trigger] h[i]).best_known_fitness
            as int by {
            if i > 0 {
                assert(h.drop_first()[i - 1] == h[i]);
            }
        }
        let j = choose|j: int|
            0 <= j < h.drop_first().len() && spec_global_best(h.drop_first()) == (#[trigger] h
                .drop_first()[j]).best_known_fitness as int;
        if spec_global_best(h) == h[0].best_known_fitness as int {
            assert(spec_global_best(h) == h[0].best_known_fitness as int);
        } else {
            assert(h.drop_first()[j] == h[j + 1]);
            assert(spec_global_best(h) == (h[j + 1]).best_known_fitness as int);
        }
    } else {
        assert(spec_global_best(h) == (h[0]).best_known_fitness as int);
    }
}

/// The improvement factor in fixed point (unit `SCALE`): best over
/// original, rounded down, clamped into `u64`; by convention 1.0 when the
/// original fitness was already 0.
pub open spec fn improvement_of(best: int, original: int) -> int {
    if original == 0 {
        SCALE as int
    } else {
        min_int((best * (SCALE as int)) / original, u64::MAX as int)
    }
}

/// Compute the improvement factor of `best` over `original`.
pub fn improvement(best: u64, original: u64) -> (r: u64)
    ensures
        r == improvement_of(best as int, original as int),
{
    if original == 0 {
        SCALE
    } else {
        proof {
            assert((best as int) * (SCALE as int) <= (u64::MAX as int) * (SCALE as int))
                by (nonlinear_arith)
                requires
                    0 <= best <= u64::MAX as int,
            ;
            lemma_div_pos_is_pos((best as int) * (SCALE as int), original as int);
        }
        let wide: u128 = ((best as u128) * (SCALE as u128)) / (original as u128);
        if wide > (u64::MAX as u128) {
            u64::MAX
        } else {
            wide as u64
        }
    }
}

/// A best fitness no worse than the original one gives an improvement
/// factor of at most 1.0 (`SCALE`).
pub proof fn lemma_improvement_le_scale(best: int, original: int)
    requires
        0 <= best <= original <= u64::MAX,
    ensures
        improvement_of(best, original) <= SCALE,
{
    if original != 0 {
        lemma_mul_inequality(best, original, SCALE as int);
        lemma_div_is_ordered(best * (SCALE as int), original * (SCALE as int), original);
        lemma_div_multiples_vanish(SCALE as int, original);
    }
}

/// The improvement factor of an unchanged best fitness is exactly 1.0.
pub proof fn lemma_improvement_of_equal(best: int)
    requires
        0 <= best <= u64::MAX,
    ensures
        improvement_of(best, best) == SCALE,
{
    if best != 0 {
        lemma_div_multiples_vanish(SCALE as int, best);
    }
}

/// Law: a run in which every step's mutated clone scores exactly the
/// then-accepted fitness — the outcome of an identity `mutate` under a
/// deterministic fitness function — leaves the best-known fitness where it
/// started over any number of steps, and the improvement factor of such a
/// run is exactly 1.0 (`SCALE` in fixed point).
pub proof fn lemma_no_op_mutation_constant_run(s: Schedule, n: nat)
    requires
        schedule_wf(s),
    ensures
        run_unchanged(s, n).best_fitness == s.best_fitness,
        improvement_of(run_unchanged(s, n).best_fitness, s.best_fitness) == SCALE,
{
    crate::population::lemma_unchanged_outcomes_keep_best(s, n);
    lemma_improvement_of_equal(s.best_fitness);
}

/// What one synchronized round does to one population: exactly one
/// evolution step, with some observed clone fitness, and nothing else.
pub open spec fn stepped_once<T>(before: Population<T>, after: Population<T>) -> bool {
    &&& exists|f: int|
        0 <= f <= u64::MAX && after.schedule() == step_schedule(before.schedule(), f)
    &&& after.best_known_fitness <= before.best_known_fitness
    &&& after.current_mutation_rate >= before.current_mutation_rate
    &&& before.reset_limit <= after.reset_limit <= after.reset_limit_end
    &&& after.id == before.id
    &&& after.candidates == before.candidates
    &&& after.mutation_growth_factor == before.mutation_growth_factor
    &&& after.reset_limit_start == before.reset_limit_start
    &&& after.reset_limit_increment == before.reset_limit_increment
    &&& after.reset_limit_end == before.reset_limit_end
}

/// What any number of rounds does to one population: the best-known
/// fitness never rises, the mutation rate never falls, the reset limit
/// stays between its old value and its end value, and the identity and
/// configuration knobs never move.
pub open spec fn evolved<T>(before: Population<T>, after: Population<T>) -> bool {
    &&& after.best_known_fitness <= before.best_known_fitness
    &&& after.current_mutation_rate >= before.current_mutation_rate
    &&& before.reset_limit <= after.reset_limit <= after.reset_limit_end
    &&& after.id == before.id
    &&& after.candidates == before.candidates
    &&& after.mutation_growth_factor == before.mutation_growth_factor
    &&& after.reset_limit_start == before.reset_limit_start
    &&& after.reset_limit_increment == before.reset_limit_increment
    &&& after.reset_limit_end == before.reset_limit_end
}

/// The stopping criterion `criterion`, evaluated against a habitat
/// snapshot, the recorded original fitness, and a completed round count.
pub open spec fn stop_at<T>(
    criterion: SimulationType,
    habitat: Seq<Population<T>>,
    original: u64,
    rounds: u32,
) -> bool {
    match criterion {
        SimulationType::EndIteration(r) => rounds >= r,
        SimulationType::EndFactor(f) => improvement_of(
            spec_global_best(habitat),
            original as int,
        ) <= f,
        SimulationType::EndFitness(f) => exists|i: int|
            0 <= i < habitat.len() && (#[trigger] habitat[i]).best_known_fitness <= f,
    }
}

/// Two habitat snapshots exactly one synchronized round apart: the same
/// populations, each one evolution step further.
pub open spec fn round_apart<T>(before: Seq<Population<T>>, after: Seq<Population<T>>) -> bool {
    &&& before.len() == after.len()
    &&& forall|i: int| 0 <= i < before.len() ==> stepped_once(before[i], #[trigger] after[i])
}

/// A faithful round history of a run that stopped after `ic` rounds:
/// `hs[r]` is the habitat after `r` completed rounds, each snapshot one
/// synchronized round after the previous one, and the stopping criterion
/// fails at every round boundary before the last — the run stopped at the
/// first boundary where it held, or at its round cap.
pub open spec fn round_history<T>(
    hs: Seq<Seq<Population<T>>>,
    criterion: SimulationType,
    original: u64,
    ic: int,
) -> bool {
    &&& hs.len() == ic + 1
    &&& forall|r: int| 0 <= r < ic ==> round_apart(#[trigger] hs[r], hs[r + 1])
    &&& forall|r: int| 1 <= r < ic ==> !stop_at(criterion, #[trigger] hs[r], original, r as u32)
}

impl<T> Simulation<T> {
    /// Every population of the habitat is well formed.
    pub open spec fn habitat_wf(&self) -> bool {
        forall|i: int| 0 <= i < self.habitat@.len() ==> (#[trigger] self.habitat@[i]).wf()
    }

    /// Whether the active stopping criterion holds after `rounds` completed
    /// rounds, against the original fitness recorded in the result.
    pub open spec fn stop_spec(&self, rounds: u32) -> bool {
        stop_at(
            self.type_of_simulation,
            self.habitat@,
            self.simulation_result.original_fitness,
            rounds,
        )
    }
}

impl<T: Individual + Clone> Simulation<T> {
    /// The lowest best-known fitness across the habitat.
    pub fn global_best(&self) -> (r: u64)
        requires
            self.habitat@.len() >= 1,
        ensures
            r as int == spec_global_best(self.habitat@),
    {
        let mut best: u64 = self.habitat[0].best_known_fitness;
        let mut i: usize = 1;
        while i < self.habitat.len()
            invariant
                1 <= i <= self.habitat@.len(),
                forall|j: int|
                    0 <= j < i ==> best <= (#[trigger] self.habitat@[j]).best_known_fitness,
                exists|j: int|
                    0 <= j < i && best == (#[trigger] self.habitat@[j]).best_known_fitness,
            decreases self.habitat@.len() - i,
        {
            let b = self.habitat[i].best_known_fitness;
            if b < best {
                best = b;
            }
            i = i + 1;
        }
        proof {
            lemma_global_best_bounds(self.habitat@);
            let j = choose|j: int|
                0 <= j < self.habitat@.len() && best == (#[trigger] self.habitat@[j]).best_known_fitness;
            let j2 = choose|j2: int|
                0 <= j2 < self.habitat@.len() && spec_global_best(self.habitat@) == (
                #[trigger] self.habitat@[j2]).best_known_fitness as int;
            assert(best <= self.habitat@[j2].best_known_fitness);
        }
        best
    }

    /// Whether the stopping criterion holds after `rounds` completed rounds.
    pub fn stop_reached(&self, rounds: u32) -> (r: bool)
        requires
            self.habitat@.len() >= 1,
        ensures
            r == self.stop_spec(rounds),
    {
        match self.type_of_simulation {
            SimulationType::EndIteration(r) => rounds >= r,
            SimulationType::EndFactor(f) => {
                let best = self.global_best();
                improvement(best, self.simulation_result.original_fitness) <= f
            },
            SimulationType::EndFitness(f) => {
                let mut i: usize = 0;
                let mut found: bool = false;
                while i < self.habitat.len()
                    invariant
                        i <= self.habitat@.len(),
                        found == exists|j: int|
                            0 <= j < i && (#[trigger] self.habitat@[j]).best_known_fitness <= f,
                    decreases self.habitat@.len() - i,
                {
                    if self.habitat[i].best_known_fitness <= f {
                        found = true;
                    }
                    i = i + 1;
                }
                found
            },
        }
    }

    /// One synchronized round: every population of the habitat executes
    /// exactly one evolution step; nothing else moves.
    pub fn run_round(&mut self)
        requires
            old(self).habitat_wf(),
        ensures
            final(self).habitat_wf(),
            final(self).habitat@.len() == old(self).habitat@.len(),
            forall|i: int|
                0 <= i < final(self).habitat@.len() ==> stepped_once(
                    old(self).habitat@[i],
                    #[trigger] final(self).habitat@[i],
                ),
            final(self).type_of_simulation == old(self).type_of_simulation,
            final(self).num_of_threads == old(self).num_of_threads,
            final(self).total_time_in_ms == old(self).total_time_in_ms,
            final(self).simulation_result == old(self).simulation_result,
    {
        let ghost init = self.habitat@;
        let n = self.habitat.len();
        let mut i: usize = 0;
        while i < n
            invariant
                i <= n,
                n == self.habitat@.len(),
                init.len() == n,
                forall|j: int| i <= j < n ==> self.habitat@[j] == init[j],
                forall|j: int| 0 <= j < n ==> (#[trigger] init[j]).wf(),
                forall|j: int| 0 <= j < i ==> (#[trigger] self.habitat@[j]).wf(),
                forall|j: int|
                    0 <= j < i ==> stepped_once(init[j], #[trigger] self.habitat@[j]),
                self.type_of_simulation == old(self).type_of_simulation,
                self.num_of_threads == old(self).num_of_threads,
                self.total_time_in_ms == old(self).total_time_in_ms,
                self.simulation_result == old(self).simulation_result,
            decreases n - i,
        {
            proof {
                assert(self.habitat@[i as int] == init[i as int]);
                assert(init[i as int].wf());
            }
            let p = &mut self.habitat[i];
            p.step();
            i = i + 1;
        }
    }

    /// Record the habitat's current global best fitness as the run's
    /// original fitness; a driver calls this once, before the first round.
    pub fn record_original_fitness(&mut self)
        requires
            old(self).habitat@.len() >= 1,
        ensures
            final(self).simulation_result.original_fitness as int == spec_global_best(
                old(self).habitat@,
            ),
            final(self).habitat == old(self).habitat,
            final(self).type_of_simulation == old(self).type_of_simulation,
            final(self).num_of_threads == old(self).num_of_threads,
            final(self).total_time_in_ms == old(self).total_time_in_ms,
            final(self).simulation_result.improvement_factor == old(
                self,
            ).simulation_result.improvement_factor,
            final(self).simulation_result.fittest == old(self).simulation_result.fittest,
            final(self).simulation_result.iteration_counter == old(
                self,
            ).simulation_result.iteration_counter,
    {
        let original = self.global_best();
        self.simulation_result.original_fitness = original;
    }

    /// Fill the result snapshot after the last round: the completed round
    /// count, the improvement factor of the current global best over the
    /// recorded original fitness, and the fittest candidate of every
    /// population in habitat order.
    pub fn record_result(&mut self, rounds: u32)
        requires
            old(self).habitat@.len() >= 1,
        ensures
            final(self).habitat == old(self).habitat,
            final(self).simulation_result.iteration_counter == rounds,
            final(self).simulation_result.original_fitness == old(
                self,
            ).simulation_result.original_fitness,
            final(self).simulation_result.improvement_factor as int == improvement_of(
                spec_global_best(final(self).habitat@),
                final(self).simulation_result.original_fitness as int,
            ),
            final(self).simulation_result.fittest@.len() == final(self).habitat@.len(),
            forall|i: int|
                0 <= i < final(self).habitat@.len() ==> (#[trigger] final(self).simulation_result.fittest@[i]).id == final(self).habitat@[i].id && final(self).simulation_result.fittest@[i].fitness == final(self).habitat@[i].best_known_fitness,
            final(self).type_of_simulation == old(self).type_of_simulation,
            final(self).num_of_threads == old(self).num_of_threads,
            final(self).total_time_in_ms == old(self).total_time_in_ms,
    {
        self.simulation_result.iteration_counter = rounds;
        let best = self.global_best();
        let original = self.simulation_result.original_fitness;
        self.simulation_result.improvement_factor = improvement(best, original);
        let mut fittest: Vec<PopulationFittest<T>> = Vec::new();
        let mut i: usize = 0;
        while i < self.habitat.len()
            invariant
                i <= self.habitat@.len(),
                fittest@.len() == i,
                forall|j: int|
                    0 <= j < i ==> (#[trigger] fittest@[j]).id == self.habitat@[j].id
                        && fittest@[j].fitness == self.habitat@[j].best_known_fitness,
            decreases self.habitat@.len() - i,
        {
            let p = &self.habitat[i];
            fittest.push(
                PopulationFittest {
                    id: p.id,
                    candidate: p.best_known_candidate.clone(),
                    fitness: p.best_known_fitness,
                },
            );
            i = i + 1;
        }
        self.simulation_result.fittest = fittest;
    }

    /// Run synchronized rounds until the stopping criterion holds or
    /// `max_rounds` rounds have completed — the criterion is checked only
    /// at round boundaries, so the run stops at the first boundary where it
    /// holds — then populate the result snapshot: the original (pre-run)
    /// global best fitness, the fittest candidate of every population in
    /// habitat order, the improvement factor, and the number of completed
    /// rounds. Under an `EndIteration` criterion within the cap, that
    /// number is pinned exactly.
    pub fn run_until(&mut self, max_rounds: u32)
        requires
            old(self).habitat_wf(),
            old(self).habitat@.len() >= 1,
            max_rounds >= 1,
        ensures
            final(self).habitat_wf(),
            final(self).habitat@.len() == old(self).habitat@.len(),
            forall|i: int|
                0 <= i < final(self).habitat@.len() ==> evolved(
                    old(self).habitat@[i],
                    #[trigger] final(self).habitat@[i],
                ),
            final(self).simulation_result.original_fitness as int == spec_global_best(
                old(self).habitat@,
            ),
            1 <= final(self).simulation_result.iteration_counter <= max_rounds,
            final(self).stop_spec(final(self).simulation_result.iteration_counter) || final(self).simulation_result.iteration_counter == max_rounds,
            old(self).type_of_simulation is EndIteration
                && old(self).type_of_simulation->EndIteration_0 <= max_rounds
                ==> final(self).simulation_result.iteration_counter == (
            if old(self).type_of_simulation->EndIteration_0 >= 1 {
                old(self).type_of_simulation->EndIteration_0
            } else {
                1u32
            }),
            exists|hs: Seq<Seq<Population<T>>>|
                #[trigger] round_history(
                    hs,
                    old(self).type_of_simulation,
                    final(self).simulation_result.original_fitness,
                    final(self).simulation_result.iteration_counter as int,
                ) && hs[0] == old(self).habitat@
                    && hs[final(self).simulation_result.iteration_counter as int]
                    == final(self).habitat@,
            final(self).simulation_result.improvement_factor as int == improvement_of(
                spec_global_best(final(self).habitat@),
                final(self).simulation_result.original_fitness as int,
            ),
            final(self).simulation_result.improvement_factor <= SCALE,
            final(self).simulation_result.fittest@.len() == final(self).habitat@.len(),
            forall|i: int|
                0 <= i < final(self).habitat@.len() ==> (#[trigger] final(self).simulation_result.fittest@[i]).id == final(self).habitat@[i].id && final(self).simulation_result.fittest@[i].fitness == final(self).habitat@[i].best_known_fitness,
            final(self).type_of_simulation == old(self).type_of_simulation,
            final(self).num_of_threads == old(self).num_of_threads,
            final(self).total_time_in_ms == old(self).total_time_in_ms,
    {
        self.record_original_fitness();
        let ghost original = self.simulation_result.original_fitness;
        let ghost init = self.habitat@;
        let ghost mut hs: Seq<Seq<Population<T>>> = seq![init];
        let mut rounds: u32 = 0;
        loop
            invariant_except_break
                rounds < max_rounds,
                self.type_of_simulation is EndIteration ==> rounds == 0 || rounds
                    < self.type_of_simulation->EndIteration_0,
                forall|r: int|
                    1 <= r <= rounds ==> !stop_at(
                        self.type_of_simulation,
                        #[trigger] hs[r],
                        original,
                        r as u32,
                    ),
            invariant
                self.habitat_wf(),
                self.habitat@.len() == init.len(),
                init.len() >= 1,
                forall|i: int|
                    0 <= i < init.len() ==> evolved(init[i], #[trigger] self.habitat@[i]),
                rounds <= max_rounds,
                original as int == spec_global_best(init),
                self.simulation_result.original_fitness == original,
                hs.len() == rounds + 1,
                hs[0] == init,
                hs[rounds as int] == self.habitat@,
                forall|r: int| 0 <= r < rounds ==> round_apart(#[trigger] hs[r], hs[r + 1]),
                forall|r: int|
                    1 <= r < rounds ==> !stop_at(
                        self.type_of_simulation,
                        #[trigger] hs[r],
                        original,
                        r as u32,
                    ),
                self.type_of_simulation == old(self).type_of_simulation,
                self.num_of_threads == old(self).num_of_threads,
                self.total_time_in_ms == old(self).total_time_in_ms,
            ensures
                1 <= rounds,
                self.stop_spec(rounds) || rounds == max_rounds,
                self.type_of_simulation is EndIteration
                    && self.type_of_simulation->EndIteration_0 <= max_rounds ==> rounds == (
                if self.type_of_simulation->EndIteration_0 >= 1 {
                    self.type_of_simulation->EndIteration_0
                } else {
                    1u32
                }),
            decreases max_rounds - rounds,
        {
            let ghost prev = self.habitat@;
            self.run_round();
            proof {
                assert forall|i: int| 0 <= i < init.len() implies evolved(
                    init[i],
                    #[trigger] self.habitat@[i],
                ) by {
                    assert(stepped_once(prev[i], self.habitat@[i]));
                    assert(evolved(init[i], prev[i]));
                }
                assert(round_apart(prev, self.habitat@));
                hs = hs.push(self.habitat@);
            }
            rounds = rounds + 1;
            let stop_now = self.stop_reached(rounds);
            if stop_now || rounds >= max_rounds {
                break ;
            }
        }
        proof {
            lemma_global_best_bounds(init);
            lemma_global_best_bounds(self.habitat@);
            let j = choose|j: int|
                0 <= j < init.len() && spec_global_best(init) == (#[trigger] init[j]).best_known_fitness as int;
            assert(evolved(init[j], self.habitat@[j]));
            assert(spec_global_best(self.habitat@) <= self.habitat@[j].best_known_fitness as int);
            lemma_improvement_le_scale(spec_global_best(self.habitat@), original as int);
        }
        self.record_result(rounds);
        proof {
            assert(round_history(
                hs,
                old(self).type_of_simulation,
                self.simulation_result.original_fitness,
                self.simulation_result.iteration_counter as int,
            ));
        }
    }

    /// Run until the stopping criterion holds. The round counter is a
    /// `u32`, so every run is bounded by its range: a criterion that never
    /// comes true ends the run after `u32::MAX` completed rounds.
    pub fn run(&mut self)
        requires
            old(self).habitat_wf(),
            old(self).habitat@.len() >= 1,
        ensures
            final(self).habitat_wf(),
            final(self).habitat@.len() == old(self).habitat@.len(),
            forall|i: int|
                0 <= i < final(self).habitat@.len() ==> evolved(
                    old(self).habitat@[i],
                    #[trigger] final(self).habitat@[i],
                ),
            final(self).simulation_result.original_fitness as int == spec_global_best(
                old(self).habitat@,
            ),
            1 <= final(self).simulation_result.iteration_counter,
            final(self).stop_spec(final(self).simulation_result.iteration_counter) || final(self).simulation_result.iteration_counter == u32::MAX,
            old(self).type_of_simulation is EndIteration
                ==> final(self).simulation_result.iteration_counter == (
            if old(self).type_of_simulation->EndIteration_0 >= 1 {
                old(self).type_of_simulation->EndIteration_0
            } else {
                1u32
            }),
            exists|hs: Seq<Seq<Population<T>>>|
                #[trigger] round_history(
                    hs,
                    old(self).type_of_simulation,
                    final(self).simulation_result.original_fitness,
                    final(self).simulation_result.iteration_counter as int,
                ) && hs[0] == old(self).habitat@
                    && hs[final(self).simulation_result.iteration_counter as int]
                    == final(self).habitat@,
            final(self).simulation_result.improvement_factor as int == improvement_of(
                spec_global_best(final(self).habitat@),
                final(self).simulation_result.original_fitness as int,
            ),
            final(self).simulation_result.improvement_factor <= SCALE,
            final(self).simulation_result.fittest@.len() == final(self).habitat@.len(),
            forall|i: int|
                0 <= i < final(self).habitat@.len() ==> (#[trigger] final(self).simulation_result.fittest@[i]).id == final(self).habitat@[i].id && final(self).simulation_result.fittest@[i].fitness == final(self).habitat@[i].best_known_fitness,
            final(self).type_of_simulation == old(self).type_of_simulation,
            final(self).num_of_threads == old(self).num_of_threads,
            final(self).total_time_in_ms == old(self).total_time_in_ms,
    {
        self.run_until(u32::MAX)
    }
}

/// Spread `n` population indices over `k` workers, round-robin: worker `j`
/// drives the indices `j`, `j + k`, `j + 2k`, and so on below `n`. The
/// clauses pin every slot of every part and each part's length exactly.
pub fn partition_round_robin(n: usize, k: usize) -> (parts: Vec<Vec<usize>>)
    requires
        1 <= k,
        n + k <= usize::MAX,
    ensures
        parts@.len() == k,
        forall|j: int|
            0 <= j < k ==> forall|l: int|
                0 <= l < (#[trigger] parts@[j])@.len() ==> (#[trigger] parts@[j]@[l]) == l * k + j,
        forall|j: int| 0 <= j < k ==> (#[trigger] parts@[j])@.len() * k + j >= n,
        forall|j: int|
            0 <= j < k && j < n ==> (#[trigger] parts@[j])@.len() >= 1 && ((parts@[j]@.len() - 1)
                * k + j) < n,
        forall|j: int| 0 <= j < k && j >= n ==> (#[trigger] parts@[j])@.len() == 0,
{
    let mut parts: Vec<Vec<usize>> = Vec::new();
    let mut j: usize = 0;
    while j < k
        invariant
            1 <= k,
            n + k <= usize::MAX,
            j <= k,
            parts@.len() == j,
            forall|q: int|
                0 <= q < j ==> forall|l: int|
                    0 <= l < (#[trigger] parts@[q])@.len() ==> (#[trigger] parts@[q]@[l]) == l * k
                        + q,
            forall|q: int| 0 <= q < j ==> (#[trigger] parts@[q])@.len() * k + q >= n,
            forall|q: int|
                0 <= q < j && q < n ==> (#[trigger] parts@[q])@.len() >= 1 && ((parts@[q]@.len()
                    - 1) * k + q) < n,
            forall|q: int| 0 <= q < j && q >= n ==> (#[trigger] parts@[q])@.len() == 0,
        decreases k - j,
    {
        let mut part: Vec<usize> = Vec::new();
        proof {
            assert(part@.len() == 0);
            assert(part@.len() * k == 0) by (nonlinear_arith)
                requires
                    part@.len() == 0,
            ;
        }
        let mut idx: usize = j;
        while idx < n
            invariant
                1 <= k,
                n + k <= usize::MAX,
                j < k,
                part@.len() * k + j == idx,
                idx >= j,
                forall|l: int| 0 <= l < part@.len() ==> (#[trigger] part@[l]) == l * k + j,
                part@.len() >= 1 ==> ((part@.len() - 1) * k + j) < n,
            decreases n + k - idx,
        {
            part.push(idx);
            proof {
                assert((part@.len()) * (k as int) == (part@.len() - 1) * (k as int) + k)
                    by (nonlinear_arith);
            }
            idx = idx + k;
        }
        proof {
            if j >= n {
                if part@.len() >= 1 {
                    assert(part@.len() * (k as int) >= k) by (nonlinear_arith)
                        requires
                            part@.len() >= 1,
                            k >= 1,
                    ;
                }
            }
        }
        parts.push(part);
        j = j + 1;
    }
    parts
}

/// Law: round-robin partitioning drives every population exactly once per
/// round — every index below `n` stands in exactly one part, at exactly
/// one slot: index `i` is slot `i / k` of part `i % k` and of no other.
pub proof fn lemma_round_robin_covers_once(parts: &Vec<Vec<usize>>, n: usize, k: usize, i: usize)
    requires
        1 <= k,
        parts@.len() == k,
        forall|j: int|
            0 <= j < k ==> forall|l: int|
                0 <= l < (#[trigger] parts@[j])@.len() ==> (#[trigger] parts@[j]@[l]) == l * k + j,
        forall|j: int| 0 <= j < k ==> (#[trigger] parts@[j])@.len() * k + j >= n,
        i < n,
    ensures
        0 <= (i as int) % (k as int) < k,
        0 <= (i as int) / (k as int) < parts@[(i as int) % (k as int)]@.len(),
        parts@[(i as int) % (k as int)]@[(i as int) / (k as int)] == i,
        forall|j: int, l: int|
            0 <= j < k && 0 <= l < parts@[j]@.len() && (#[trigger] parts@[j]@[l]) == i ==> j == (
            i as int) % (k as int) && l == (i as int) / (k as int),
{
    let ki = k as int;
    let ii = i as int;
    let j0 = ii % ki;
    let l0 = ii / ki;
    lemma_fundamental_div_mod(ii, ki);
    lemma_mod_bound(ii, ki);
    lemma_div_pos_is_pos(ii, ki);
    let len0 = parts@[j0]@.len() as int;
    assert(len0 * ki + j0 >= n);
    assert(l0 * ki + j0 == ii);
    assert(l0 < len0) by (nonlinear_arith)
        requires
            len0 * ki + j0 > l0 * ki + j0,
            ki >= 1,
            l0 >= 0,
    ;
    assert(parts@[j0]@[l0] == l0 * ki + j0);
    assert forall|j: int, l: int|
        0 <= j < k && 0 <= l < parts@[j]@.len() && (#[trigger] parts@[j]@[l]) == i implies j == j0
        && l == l0 by {
        assert(parts@[j]@[l] == l * ki + j);
        lemma_fundamental_div_mod_converse(ii, ki, l, j);
    }
}

} // verus!
