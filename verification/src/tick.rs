//! One tick of the agent model, taken step by step.
//!
//! A tick runs the course of the infections, moves every agent, meets every
//! pair of agents once, and counts. Whether two agents
//! touch and where a wall stands is for the caller to measure, so the tick
//! comes as a dialogue: [`Tick::proceed`] names the next thing to do, the
//! caller does it and asks again. The order of a tick, and who is met, moved
//! or infected in it, is decided here; see [`step`].

use vstd::prelude::*;
use crate::census::Counts;
use crate::disease::{advanced, contacted, integrates, no_regress, response_of, tally};
use crate::disease::{Individual, Response, Rules, Simulation, State};
use crate::pairs::{pair_at, pair_count, Pairs};

verus! {

/// What the caller is to do next.
#[derive(Clone, Copy, Debug, PartialEq, Eq, Structural)]
pub enum Action {
    /// Move this agent along its velocity and let the walls answer.
    Integrate(usize),
    /// Measure whether these two agents touch, and say so in the next call.
    Probe(usize, usize),
    /// These two have touched. Exchange their momentum if the response says
    /// so, then integrate each of them again as far as it says.
    Resolve(usize, usize, Response),
    /// The tick is over; these are the counts to show.
    Finish(Counts),
}

/// Where a tick stands.
#[derive(Clone, Copy, Debug, PartialEq, Eq, Structural)]
pub enum Stage {
    /// The agents from this index on have not been moved yet.
    Integrating(usize),
    /// Between two pairs.
    Walking,
    /// The caller was asked whether these two touch.
    Probed(usize, usize),
    /// The counts have been handed out.
    Done,
}

/// The result of one step: the population after it, where the tick then
/// stands, how many pairs it has probed, and what the caller is to do.
pub ghost struct Step {
    pub population: Seq<Individual>,
    pub stage: Stage,
    pub position: nat,
    pub action: Action,
}

/// The first agent at or after `from` that the integrator moves, or the
/// length of the population if there is none. Under the default rules that
/// is `from` itself: every agent is moved, see [`integrates`].
pub open spec fn first_mobile(population: Seq<Individual>, rules: Rules, from: nat) -> nat
    decreases population.len() - from,
{
    if from >= population.len() {
        population.len()
    } else if integrates(population[from as int].state, rules) {
        from
    } else {
        first_mobile(population, rules, from + 1)
    }
}

/// The step that takes up the next pair: a probe of the pair at `position`
/// among `total` agents, or the end of the tick when all pairs are through.
pub open spec fn walk_on(population: Seq<Individual>, position: nat, total: nat) -> Step {
    if position < pair_count(total) {
        let pair = pair_at(position);
        Step {
            population,
            stage: Stage::Probed(pair.0 as usize, pair.1 as usize),
            position: position + 1,
            action: Action::Probe(pair.0 as usize, pair.1 as usize),
        }
    } else {
        Step { population, stage: Stage::Done, position, action: Action::Finish(tally(population)) }
    }
}

/// One step of a tick.
///
/// While integrating, the agents are moved one by one in the order of their
/// indices, every one of them unless the rules leave the dead where they
/// fell; when none is left the pairs begin. Each pair is probed in the order of
/// [`crate::pairs`]. A pair reported as touching has its contact applied and
/// is resolved before the next pair is taken up; a pair reported apart is
/// passed over. `touching` is looked at only as the answer to a probe. After
/// the last pair the population is counted, and a tick that is over stays
/// over.
pub open spec fn step(
    population: Seq<Individual>,
    rules: Rules,
    stage: Stage,
    position: nat,
    total: nat,
    touching: bool,
) -> Step {
    match stage {
        Stage::Integrating(from) => {
            let k = first_mobile(population, rules, from as nat);
            if k < population.len() {
                Step {
                    population,
                    stage: Stage::Integrating((k + 1) as usize),
                    position,
                    action: Action::Integrate(k as usize),
                }
            } else {
                walk_on(population, position, total)
            }
        },
        Stage::Walking => walk_on(population, position, total),
        Stage::Probed(i, j) => {
            if touching {
                Step {
                    population: contacted(population, i as int, j as int),
                    stage: Stage::Walking,
                    position,
                    action: Action::Resolve(i, j, response_of(population, rules, i as int, j as int)),
                }
            } else {
                walk_on(population, position, total)
            }
        },
        Stage::Done => Step {
            population,
            stage: Stage::Done,
            position,
            action: Action::Finish(tally(population)),
        },
    }
}

/// How much of a tick is left at most, counted in steps.
pub open spec fn work(stage: Stage, position: nat, len: nat, total: nat) -> nat {
    let pairs = 2 * (pair_count(total) - position);
    match stage {
        Stage::Integrating(from) => if from < len {
            (len - from + pairs + 2) as nat
        } else {
            (pairs + 2) as nat
        },
        Stage::Walking => (pairs + 1) as nat,
        Stage::Probed(_, _) => (pairs + 2) as nat,
        Stage::Done => 0,
    }
}

/// `first_mobile` finds an agent that is moved and passes over none that
/// is: what it skips is dead, and skipped only where the rules leave the dead
/// where they fell.
pub proof fn lemma_first_mobile(population: Seq<Individual>, rules: Rules, from: nat)
    requires
        from <= population.len(),
    ensures
        from <= first_mobile(population, rules, from) <= population.len(),
        first_mobile(population, rules, from) < population.len() ==> integrates(
            population[first_mobile(population, rules, from) as int].state,
            rules,
        ),
        forall|k: int|
            from <= k < first_mobile(population, rules, from) ==> !rules.dead_move && (
            #[trigger] population[k]).state == State::Dead,
        rules.dead_move && from < population.len() ==> first_mobile(population, rules, from)
            == from,
    decreases population.len() - from,
{
    if from < population.len() && !integrates(population[from as int].state, rules) {
        lemma_first_mobile(population, rules, from + 1);
    }
}

/// Under rules that move the dead, the opening of a tick asks for every
/// agent to be integrated, dead or alive, in the order of the indices: at
/// stage `Integrating(k)` with `k` below the length the step is
/// `Integrate(k)`.
pub proof fn lemma_everyone_is_integrated(
    population: Seq<Individual>,
    rules: Rules,
    k: usize,
    position: nat,
    total: nat,
    touching: bool,
)
    requires
        rules.dead_move,
        k < population.len(),
    ensures
        step(population, rules, Stage::Integrating(k), position, total, touching).action
            == Action::Integrate(k),
        step(population, rules, Stage::Integrating(k), position, total, touching).stage
            == Stage::Integrating((k + 1) as usize),
        step(population, rules, Stage::Integrating(k), position, total, touching).population
            == population,
{
}

/// Every step of a tick that is not over uses up some of the work that is
/// left, whatever the caller answers. So a tick ends: after at most
/// `len + 2 * pair_count(total) + 2` steps it hands out the counts. It does
/// so exactly when it is done, and no step adds or removes an agent or probes
/// beyond the last pair.
pub proof fn lemma_step_progress(
    population: Seq<Individual>,
    rules: Rules,
    stage: Stage,
    position: nat,
    total: nat,
    touching: bool,
)
    requires
        position <= pair_count(total),
        population.len() <= usize::MAX,
    ensures
        ({
            let next = step(population, rules, stage, position, total, touching);
            &&& next.population.len() == population.len()
            &&& next.position <= pair_count(total)
            &&& next.action is Finish <==> next.stage == Stage::Done
            &&& stage != Stage::Done ==> work(next.stage, next.position, population.len(), total)
                < work(stage, position, population.len(), total)
        }),
{
    if let Stage::Integrating(from) = stage {
        if from <= population.len() {
            lemma_first_mobile(population, rules, from as nat);
        }
    }
}

/// A tick in progress.
pub struct Tick {
    stage: Stage,
    walk: Pairs,
}

impl Tick {
    /// Where the tick stands.
    pub closed spec fn stage(&self) -> Stage {
        self.stage
    }

    /// How many pairs the tick has probed.
    pub closed spec fn position(&self) -> nat {
        self.walk.position()
    }

    /// The number of agents whose pairs the tick walks.
    pub closed spec fn total(&self) -> nat {
        self.walk.total()
    }

    /// Opens a tick of length `dt`: runs the course of every infection, see
    /// [`Simulation::advance`], and stands before the first agent to move.
    pub fn begin(sim: &mut Simulation, dt: u64, draws: &Vec<u32>) -> (tick: Tick)
        requires
            draws@.len() == old(sim)@.len(),
        ensures
            final(sim)@ == advanced(old(sim)@, dt, old(sim).rules(), draws@),
            final(sim).rules() == old(sim).rules(),
            no_regress(old(sim)@, final(sim)@),
            tick.stage() == Stage::Integrating(0),
            tick.position() == 0,
            tick.total() == old(sim)@.len(),
    {
        sim.advance(dt, draws);
        Tick { stage: Stage::Integrating(0), walk: Pairs::new(sim.len()) }
    }

    /// Takes one step, see [`step`]: names what the caller is to do next and
    /// applies to the population what the step decides. `touching` answers
    /// the probe that the call before this one asked for, if it asked.
    pub fn proceed(&mut self, sim: &mut Simulation, touching: bool) -> (action: Action)
        ensures
            ({
                let next = step(
                    old(sim)@,
                    old(sim).rules(),
                    old(self).stage(),
                    old(self).position(),
                    old(self).total(),
                    touching,
                );
                &&& final(sim)@ == next.population
                &&& final(self).stage() == next.stage
                &&& final(self).position() == next.position
                &&& action == next.action
            }),
            final(self).total() == old(self).total(),
            final(self).position() <= pair_count(final(self).total()),
            final(sim).rules() == old(sim).rules(),
            no_regress(old(sim)@, final(sim)@),
    {
        proof {
            use_type_invariant(&self.walk);
            self.walk.lemma_position();
        }
        match self.stage {
            Stage::Integrating(from) => {
                let n = sim.len();
                let mut k = from;
                while k < n && !sim.moves(k)
                    invariant
                        n == sim@.len(),
                        first_mobile(sim@, sim.rules(), k as nat) == first_mobile(
                            sim@,
                            sim.rules(),
                            from as nat,
                        ),
                    decreases n - k,
                {
                    k += 1;
                }
                if k < n {
                    self.stage = Stage::Integrating(k + 1);
                    return Action::Integrate(k);
                }
            },
            Stage::Walking => {},
            Stage::Probed(i, j) => {
                if touching {
                    let response = sim.contact(i, j);
                    self.stage = Stage::Walking;
                    return Action::Resolve(i, j, response);
                }
            },
            Stage::Done => {
                return Action::Finish(sim.census());
            },
        }
        match self.walk.next() {
            Some((i, j)) => {
                self.stage = Stage::Probed(i, j);
                Action::Probe(i, j)
            },
            None => {
                self.stage = Stage::Done;
                Action::Finish(sim.census())
            },
        }
    }
}

} // verus!
