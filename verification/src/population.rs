//! A population: one accepted candidate under a greedy hill climb, plus the
//! adaptive mutation-rate schedule and reset-cycle bookkeeping that drive it.

use vstd::prelude::*;
use vstd::arithmetic::div_mod::{lemma_div_is_ordered, lemma_hoist_over_denominator};
use crate::individual::Individual;

verus! {

/// Fixed-point unit for mutation rates, growth factors and improvement
/// factors: a stored value of `SCALE` stands for the real number 1.0.
pub const SCALE: u64 = 1000;

/// Mutation rates saturate here, which keeps the per-step mutation count
/// (`current_mutation_rate / SCALE`) within an iterable range.
pub const RATE_CAP: u64 = 1_000_000_000_000;

/// An independently evolving population: the candidates it was built from,
/// the currently accepted candidate of its hill climb, the best candidate
/// seen so far, and the numeric schedule that controls mutation intensity
/// and reset cycles.
pub struct Population<T> {
    pub id: u32,
    /// The initial candidates, kept as supplied at construction.
    pub candidates: Vec<T>,
    /// The currently accepted candidate.
    pub accepted_candidate: T,
    /// Fitness of the accepted candidate, as last observed.
    pub accepted_fitness: u64,
    /// Fixed-point (unit `SCALE`); at least 1.0, non-decreasing, saturating
    /// at `RATE_CAP`. One evolution step applies `rate / SCALE` mutations.
    pub current_mutation_rate: u64,
    /// Fixed-point (unit `SCALE`); strictly above 1.0. Each reset cycle
    /// multiplies the mutation rate by this factor.
    pub mutation_growth_factor: u64,
    /// Consecutive non-improving steps since the last acceptance or reset.
    pub reset_counter: u64,
    /// Current threshold of non-improving steps that triggers a reset.
    pub reset_limit: u64,
    pub reset_limit_start: u64,
    /// Added to the threshold at each reset cycle.
    pub reset_limit_increment: u64,
    /// The threshold never grows past this value.
    pub reset_limit_end: u64,
    /// The lowest fitness ever observed in this population.
    pub best_known_fitness: u64,
    /// The candidate that scored `best_known_fitness`.
    pub best_known_candidate: T,
}

/// The numeric schedule state of a population, as one mathematical value.
pub ghost struct Schedule {
    pub accepted_fitness: int,
    pub best_fitness: int,
    pub rate: int,
    pub growth: int,
    pub counter: int,
    pub limit: int,
    pub limit_start: int,
    pub limit_increment: int,
    pub limit_end: int,
}

pub open spec fn min_int(a: int, b: int) -> int {
    if a <= b {
        a
    } else {
        b
    }
}

/// The mutation rate after one reset cycle: multiplied by the growth factor
/// in fixed point, saturating at `RATE_CAP`.
pub open spec fn grown_rate(rate: int, growth: int) -> int {
    let raw = (rate * growth) / (SCALE as int);
    if raw > RATE_CAP as int {
        RATE_CAP as int
    } else {
        raw
    }
}

/// Well-formedness of a schedule: the reset limit sits between its start
/// and end values, the rate is at least 1.0 and at most the cap, the growth
/// factor is strictly above 1.0, the best-known fitness never exceeds the
/// accepted one, and the streak counter is zero or strictly below the limit.
pub open spec fn schedule_wf(s: Schedule) -> bool {
    &&& 0 <= s.best_fitness <= s.accepted_fitness <= u64::MAX
    &&& SCALE <= s.rate <= RATE_CAP
    &&& SCALE < s.growth <= u64::MAX
    &&& (s.counter == 0 || 0 < s.counter < s.limit)
    &&& 0 <= s.limit_start <= s.limit <= s.limit_end <= u64::MAX
    &&& 0 <= s.limit_increment <= u64::MAX
}

/// Greedy acceptance: an outcome no worse than the accepted fitness
/// replaces it (improving the best-known record when it does) and clears
/// the streak; any other outcome lengthens the streak by one.
pub open spec fn accept_step(s: Schedule, f: int) -> Schedule {
    if f <= s.accepted_fitness {
        Schedule {
            accepted_fitness: f,
            best_fitness: min_int(f, s.best_fitness),
            counter: 0,
            ..s
        }
    } else {
        Schedule { counter: s.counter + 1, ..s }
    }
}

/// The escalation applied once the streak reaches the limit: revert to the
/// best-known record, clear the streak, grow the mutation rate, and advance
/// the limit, capped at its end value.
pub open spec fn reset_step(s: Schedule) -> Schedule {
    if s.counter >= s.limit {
        Schedule {
            accepted_fitness: s.best_fitness,
            counter: 0,
            rate: grown_rate(s.rate, s.growth),
            limit: min_int(s.limit + s.limit_increment, s.limit_end),
            ..s
        }
    } else {
        s
    }
}

/// One full evolution step of the schedule, given the fitness `f` that the
/// mutated clone scored.
pub open spec fn step_schedule(s: Schedule, f: int) -> Schedule {
    reset_step(accept_step(s, f))
}

impl<T> Population<T> {
    /// The numeric schedule state of this population.
    pub open spec fn schedule(&self) -> Schedule {
        Schedule {
            accepted_fitness: self.accepted_fitness as int,
            best_fitness: self.best_known_fitness as int,
            rate: self.current_mutation_rate as int,
            growth: self.mutation_growth_factor as int,
            counter: self.reset_counter as int,
            limit: self.reset_limit as int,
            limit_start: self.reset_limit_start as int,
            limit_increment: self.reset_limit_increment as int,
            limit_end: self.reset_limit_end as int,
        }
    }

    /// A population is well formed when its schedule is and it holds at
    /// least one candidate.
    pub open spec fn wf(&self) -> bool {
        &&& schedule_wf(self.schedule())
        &&& self.candidates@.len() >= 1
    }
}

/// Growing a well-formed rate never shrinks it, never leaves
/// `[SCALE, RATE_CAP]`, and strictly increases it below the cap.
pub proof fn lemma_grown_rate_bounds(rate: int, growth: int)
    requires
        SCALE <= rate <= RATE_CAP,
        SCALE < growth,
    ensures
        rate <= grown_rate(rate, growth) <= RATE_CAP,
        rate < RATE_CAP ==> rate < grown_rate(rate, growth),
{
    let s = SCALE as int;
    let raw = (rate * growth) / s;
    assert(rate * growth >= rate * s + rate) by (nonlinear_arith)
        requires
            growth >= s + 1,
            rate >= 0,
    ;
    lemma_div_is_ordered(rate * s + rate, rate * growth, s);
    lemma_hoist_over_denominator(rate, rate, SCALE as nat);
    assert((rate * s + rate) / s == rate + rate / s);
    lemma_div_is_ordered(s, rate, s);
    assert(raw >= rate + 1);
}

/// Law: one evolution step — whatever fitness the mutated clone scores —
/// keeps the schedule well formed, never worsens the best-known fitness,
/// never lowers the mutation rate, never moves the reset limit backwards or
/// past its end value, and leaves the configuration knobs untouched.
pub proof fn lemma_step_schedule_monotone(s: Schedule, f: int)
    requires
        schedule_wf(s),
        0 <= f <= u64::MAX,
    ensures
        schedule_wf(step_schedule(s, f)),
        step_schedule(s, f).best_fitness <= s.best_fitness,
        step_schedule(s, f).rate >= s.rate,
        s.limit <= step_schedule(s, f).limit <= s.limit_end,
        step_schedule(s, f).growth == s.growth,
        step_schedule(s, f).limit_start == s.limit_start,
        step_schedule(s, f).limit_increment == s.limit_increment,
        step_schedule(s, f).limit_end == s.limit_end,
{
    let a = accept_step(s, f);
    if a.counter >= a.limit {
        lemma_grown_rate_bounds(s.rate, s.growth);
    }
}

/// The schedule after a whole run of steps, given the observed fitness
/// values of every step's mutated clone, in order.
pub open spec fn run_schedule(s: Schedule, fs: Seq<int>) -> Schedule
    decreases fs.len(),
{
    if fs.len() == 0 {
        s
    } else {
        run_schedule(step_schedule(s, fs[0]), fs.drop_first())
    }
}

/// Running one more step at the end of a run is one step after the run.
pub proof fn lemma_run_schedule_snoc(s: Schedule, fs: Seq<int>, f: int)
    ensures
        run_schedule(s, fs.push(f)) == step_schedule(run_schedule(s, fs), f),
    decreases fs.len(),
{
    assert(fs.push(f)[0] == if fs.len() == 0 { f } else { fs[0] });
    if fs.len() == 0 {
        assert(fs.push(f).drop_first() =~= Seq::<int>::empty());
        assert(run_schedule(s, fs.push(f)) == run_schedule(
            step_schedule(s, f),
            Seq::<int>::empty(),
        ));
        assert(run_schedule(step_schedule(s, f), Seq::<int>::empty()) == step_schedule(s, f));
        assert(run_schedule(s, fs) == s);
    } else {
        assert(fs.push(f).drop_first() =~= fs.drop_first().push(f));
        lemma_run_schedule_snoc(step_schedule(s, fs[0]), fs.drop_first(), f);
        assert(run_schedule(s, fs.push(f)) == run_schedule(
            step_schedule(s, fs[0]),
            fs.drop_first().push(f),
        ));
        assert(run_schedule(s, fs) == run_schedule(step_schedule(s, fs[0]), fs.drop_first()));
    }
}

/// Law: over any number of steps, whatever fitness values the mutated
/// clones score, the best-known fitness never increases, the mutation rate
/// never decreases, and the reset limit never leaves the range between its
/// current value and its end value.
pub proof fn lemma_run_schedule_monotone(s: Schedule, fs: Seq<int>)
    requires
        schedule_wf(s),
        forall|i: int| 0 <= i < fs.len() ==> 0 <= #[trigger] fs[i] <= u64::MAX,
    ensures
        schedule_wf(run_schedule(s, fs)),
        run_schedule(s, fs).best_fitness <= s.best_fitness,
        run_schedule(s, fs).rate >= s.rate,
        s.limit <= run_schedule(s, fs).limit <= s.limit_end,
        run_schedule(s, fs).growth == s.growth,
        run_schedule(s, fs).limit_start == s.limit_start,
        run_schedule(s, fs).limit_increment == s.limit_increment,
        run_schedule(s, fs).limit_end == s.limit_end,
    decreases fs.len(),
{
    if fs.len() > 0 {
        lemma_step_schedule_monotone(s, fs[0]);
        let rest = fs.drop_first();
        assert forall|i: int| 0 <= i < rest.len() implies 0 <= #[trigger] rest[i] <= u64::MAX by {
            assert(rest[i] == fs[i + 1]);
        }
        lemma_run_schedule_monotone(step_schedule(s, fs[0]), rest);
    }
}

/// The schedule after `n` steps in which every mutated clone scores exactly
/// the fitness that is accepted at that moment.
pub open spec fn run_unchanged(s: Schedule, n: nat) -> Schedule
    decreases n,
{
    if n == 0 {
        s
    } else {
        run_unchanged(step_schedule(s, s.accepted_fitness), (n - 1) as nat)
    }
}

/// Law: when every mutated clone scores exactly the accepted fitness — as
/// an identity `mutate` together with a deterministic fitness function
/// yields — the best-known fitness stays constant over any number of steps.
pub proof fn lemma_unchanged_outcomes_keep_best(s: Schedule, n: nat)
    requires
        schedule_wf(s),
    ensures
        schedule_wf(run_unchanged(s, n)),
        run_unchanged(s, n).best_fitness == s.best_fitness,
    decreases n,
{
    if n > 0 {
        lemma_step_schedule_monotone(s, s.accepted_fitness);
        let s1 = step_schedule(s, s.accepted_fitness);
        assert(s1.best_fitness == s.best_fitness);
        lemma_unchanged_outcomes_keep_best(s1, (n - 1) as nat);
    }
}

/// After `m` consecutive non-improving steps, with `m` still below the
/// reset limit and the streak initially clear, only the streak counter has
/// moved: it counts exactly `m`.
pub proof fn lemma_streak_prefix(s: Schedule, fs: Seq<int>, m: int)
    requires
        schedule_wf(s),
        s.counter == 0,
        1 <= s.limit,
        fs.len() <= s.limit,
        0 <= m <= fs.len(),
        m < s.limit,
        forall|i: int| 0 <= i < fs.len() ==> s.accepted_fitness < #[trigger] fs[i] <= u64::MAX,
    ensures
        run_schedule(s, fs.take(m)) == (Schedule { counter: m, ..s }),
    decreases m,
{
    if m == 0 {
        assert(fs.take(0) =~= Seq::<int>::empty());
        assert((Schedule { counter: 0, ..s }) == s);
    } else {
        lemma_streak_prefix(s, fs, m - 1);
        assert(fs.take(m) =~= fs.take(m - 1).push(fs[m - 1]));
        lemma_run_schedule_snoc(s, fs.take(m - 1), fs[m - 1]);
    }
}

/// Law: starting with a clear streak, a run of exactly `reset_limit`
/// consecutive non-improving steps leaves the fitness record, the mutation
/// rate and the limit untouched while the streak counts up, and the step
/// that reaches the limit fires one reset cycle: the streak returns to 0,
/// the accepted fitness reverts to the best-known one, the reset limit
/// advances by its increment (capped at its end value), and the mutation
/// rate strictly increases whenever it was below `RATE_CAP`.
pub proof fn lemma_streak_triggers_reset(s: Schedule, fs: Seq<int>)
    requires
        schedule_wf(s),
        s.counter == 0,
        1 <= s.limit,
        fs.len() == s.limit,
        forall|i: int| 0 <= i < fs.len() ==> s.accepted_fitness < #[trigger] fs[i] <= u64::MAX,
    ensures
        forall|m: int|
            0 <= m < fs.len() ==> run_schedule(s, fs.take(m)) == (Schedule { counter: m, ..s }),
        run_schedule(s, fs) == (Schedule {
            accepted_fitness: s.best_fitness,
            counter: 0,
            rate: grown_rate(s.rate, s.growth),
            limit: min_int(s.limit + s.limit_increment, s.limit_end),
            ..s
        }),
        s.rate < RATE_CAP ==> run_schedule(s, fs).rate > s.rate,
{
    assert forall|m: int| 0 <= m < fs.len() implies run_schedule(s, fs.take(m)) == (Schedule {
        counter: m,
        ..s
    }) by {
        lemma_streak_prefix(s, fs, m);
    }
    let last = s.limit - 1;
    lemma_streak_prefix(s, fs, last);
    assert(fs =~= fs.take(last).push(fs[last]));
    lemma_run_schedule_snoc(s, fs.take(last), fs[last]);
    lemma_grown_rate_bounds(s.rate, s.growth);
}

impl<T: Individual + Clone> Population<T> {
    /// Create a population over the given candidates: every candidate is
    /// scored and the fittest becomes the accepted one, the best-known
    /// record starts there, the mutation rate starts at 1.0 (`SCALE`), and
    /// the reset schedule starts at `reset_limit_start`.
    pub fn new(
        id: u32,
        candidates: Vec<T>,
        mutation_growth_factor: u64,
        reset_limit_start: u64,
        reset_limit_increment: u64,
        reset_limit_end: u64,
    ) -> (p: Population<T>)
        requires
            candidates@.len() >= 1,
            SCALE < mutation_growth_factor,
            reset_limit_start <= reset_limit_end,
        ensures
            p.wf(),
            p.id == id,
            p.candidates == candidates,
            p.accepted_fitness == p.best_known_fitness,
            p.current_mutation_rate == SCALE,
            p.mutation_growth_factor == mutation_growth_factor,
            p.reset_counter == 0,
            p.reset_limit == reset_limit_start,
            p.reset_limit_start == reset_limit_start,
            p.reset_limit_increment == reset_limit_increment,
            p.reset_limit_end == reset_limit_end,
    {
        let mut best_index: usize = 0;
        let mut best_fitness: u64 = candidates[0].calculate_fitness();
        let mut i: usize = 1;
        while i < candidates.len()
            invariant
                1 <= i <= candidates@.len(),
                best_index < candidates@.len(),
            decreases candidates@.len() - i,
        {
            let f = candidates[i].calculate_fitness();
            if f < best_fitness {
                best_fitness = f;
                best_index = i;
            }
            i = i + 1;
        }
        let accepted_candidate = candidates[best_index].clone();
        let best_known_candidate = candidates[best_index].clone();
        Population {
            id,
            candidates,
            accepted_candidate,
            accepted_fitness: best_fitness,
            current_mutation_rate: SCALE,
            mutation_growth_factor,
            reset_counter: 0,
            reset_limit: reset_limit_start,
            reset_limit_start,
            reset_limit_increment,
            reset_limit_end,
            best_known_fitness: best_fitness,
            best_known_candidate,
        }
    }

    /// Grow the mutation rate by the growth factor in fixed point,
    /// saturating at `RATE_CAP`.
    fn grow_rate(rate: u64, growth: u64) -> (r: u64)
        requires
            SCALE <= rate <= RATE_CAP,
            SCALE < growth,
        ensures
            r == grown_rate(rate as int, growth as int),
    {
        proof {
            assert((rate as int) * (growth as int) <= (RATE_CAP as int) * (u64::MAX as int))
                by (nonlinear_arith)
                requires
                    0 <= rate <= RATE_CAP as int,
                    0 <= growth <= u64::MAX as int,
            ;
        }
        let wide: u128 = ((rate as u128) * (growth as u128)) / (SCALE as u128);
        proof {
            lemma_grown_rate_bounds(rate as int, growth as int);
        }
        if wide > (RATE_CAP as u128) {
            RATE_CAP
        } else {
            wide as u64
        }
    }

    /// Record the outcome of one mutated clone: greedy acceptance followed
    /// by the reset-cycle check. The schedule moves exactly as
    /// [`step_schedule`] says; the accepted candidate becomes the clone on
    /// acceptance and reverts to the best-known snapshot on a reset.
    pub fn apply_outcome(&mut self, clone: T, clone_fitness: u64)
        requires
            old(self).wf(),
        ensures
            final(self).wf(),
            final(self).schedule() == step_schedule(old(self).schedule(), clone_fitness as int),
            final(self).id == old(self).id,
            final(self).candidates == old(self).candidates,
    {
        proof {
            lemma_step_schedule_monotone(self.schedule(), clone_fitness as int);
        }
        if clone_fitness <= self.accepted_fitness {
            if clone_fitness < self.best_known_fitness {
                self.best_known_fitness = clone_fitness;
                self.best_known_candidate = clone.clone();
            }
            self.accepted_fitness = clone_fitness;
            self.accepted_candidate = clone;
            self.reset_counter = 0;
        } else {
            self.reset_counter = self.reset_counter + 1;
        }
        if self.reset_counter >= self.reset_limit {
            self.accepted_candidate = self.best_known_candidate.clone();
            self.accepted_fitness = self.best_known_fitness;
            self.reset_counter = 0;
            self.current_mutation_rate = Self::grow_rate(
                self.current_mutation_rate,
                self.mutation_growth_factor,
            );
            let room: u64 = self.reset_limit_end - self.reset_limit;
            if self.reset_limit_increment < room {
                self.reset_limit = self.reset_limit + self.reset_limit_increment;
            } else {
                self.reset_limit = self.reset_limit_end;
            }
        }
    }

    /// One evolution step: clone the accepted candidate, perturb the clone
    /// `current_mutation_rate / SCALE` times (at least once), score it, and
    /// apply greedy acceptance plus the reset-cycle policy. The observed
    /// fitness is up to the candidate implementation, so the contract holds
    /// for every outcome it may produce.
    pub fn step(&mut self)
        requires
            old(self).wf(),
        ensures
            final(self).wf(),
            exists|f: int|
                0 <= f <= u64::MAX && final(self).schedule() == step_schedule(
                    old(self).schedule(),
                    f,
                ),
            final(self).best_known_fitness <= old(self).best_known_fitness,
            final(self).current_mutation_rate >= old(self).current_mutation_rate,
            old(self).reset_limit <= final(self).reset_limit <= final(self).reset_limit_end,
            final(self).id == old(self).id,
            final(self).candidates == old(self).candidates,
            final(self).mutation_growth_factor == old(self).mutation_growth_factor,
            final(self).reset_limit_start == old(self).reset_limit_start,
            final(self).reset_limit_increment == old(self).reset_limit_increment,
            final(self).reset_limit_end == old(self).reset_limit_end,
    {
        let mut clone = self.accepted_candidate.clone();
        let count: u64 = self.current_mutation_rate / SCALE;
        let mut i: u64 = 0;
        while i < count
            invariant
                i <= count,
            decreases count - i,
        {
            clone.mutate();
            i = i + 1;
        }
        let clone_fitness = clone.calculate_fitness();
        proof {
            lemma_step_schedule_monotone(self.schedule(), clone_fitness as int);
        }
        self.apply_outcome(clone, clone_fitness);
    }
}

} // verus!
