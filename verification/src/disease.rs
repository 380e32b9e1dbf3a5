//! A bounded population of agents that carry a contagion.
//!
//! The population is fixed at construction: nobody is ever removed, and
//! [`State::Dead`] is a state like the others, so an agent keeps its index for
//! good. This module holds what a tick decides about states: how an infection
//! runs its course ([`Individual::age`]), what a contact does
//! ([`Simulation::contact`]), who is moved ([`Individual::moves`]) and how
//! a wall answers ([`bounce`]). Positions and velocities stay with the caller.

use vstd::prelude::*;
use crate::census::Counts;
use crate::chance::{is_within, within};

verus! {

/// The course of the contagion in one agent.
#[derive(Clone, Copy, Debug, PartialEq, Eq, Structural)]
pub enum State {
    Healthy,
    Infected,
    Cured,
    Dead,
}

impl State {
    /// How far along the course a state lies. `Cured` and `Dead` are both
    /// final and share the last stage.
    pub open spec fn stage(self) -> nat {
        match self {
            State::Healthy => 0,
            State::Infected => 1,
            State::Cured => 2,
            State::Dead => 2,
        }
    }

    /// `later` is this state or one further along the course. This is the
    /// partial order `Healthy < Infected < {Cured, Dead}`.
    pub open spec fn leads_to(self, later: State) -> bool {
        self == later || self.stage() < later.stage()
    }

    /// No transition leaves a final state.
    pub open spec fn is_final(self) -> bool {
        self == State::Cured || self == State::Dead
    }
}

/// What the population is configured with.
#[derive(Clone, Copy, Debug, PartialEq, Eq, Structural)]
pub struct Rules {
    /// How long an infection lasts, in the caller's time units.
    pub time_to_heal: u64,
    /// The rate a healing draw is held against; see [`crate::chance`].
    pub death_rate: u64,
    /// With this off nobody dies: every infection ends in `Cured`.
    pub enable_death: bool,
    /// With this off a contact only transmits.
    pub enable_collision_physics: bool,
    /// Whether the dead still answer a collision. Off by default: a contact
    /// with a dead agent then changes no velocity.
    pub dead_collide: bool,
    /// Whether the dead are still moved. On by default: a dead agent keeps
    /// its place in the population and is integrated like any other, walls
    /// included. With this off the dead stay where they fell.
    pub dead_move: bool,
}

impl Rules {
    /// The default configuration: nobody dies, contacts collide elastically,
    /// and the dead are moved but passed through.
    pub fn new(time_to_heal: u64) -> (rules: Rules)
        ensures
            rules == (Rules {
                time_to_heal,
                death_rate: 0,
                enable_death: false,
                enable_collision_physics: true,
                dead_collide: false,
                dead_move: true,
            }),
    {
        Rules {
            time_to_heal,
            death_rate: 0,
            enable_death: false,
            enable_collision_physics: true,
            dead_collide: false,
            dead_move: true,
        }
    }
}

/// How an infection that has run its time ends for a given draw: in death if
/// death is enabled and the draw does not exceed the death rate, in a cure
/// otherwise.
pub open spec fn outcome(draw: u32, rules: Rules) -> State {
    if rules.enable_death && is_within(draw, rules.death_rate) {
        State::Dead
    } else {
        State::Cured
    }
}

/// A contact transmits when one side is `Infected` and the other `Healthy`.
pub open spec fn transmits(a: State, b: State) -> bool {
    (a == State::Infected && b == State::Healthy) || (a == State::Healthy && b == State::Infected)
}

/// The state of an agent in state `me` after touching one in state `other`.
pub open spec fn after_contact(me: State, other: State) -> State {
    if transmits(me, other) {
        State::Infected
    } else {
        me
    }
}

/// Whether two agents in contact exchange momentum.
pub open spec fn collides(a: State, b: State, rules: Rules) -> bool {
    rules.enable_collision_physics && (rules.dead_collide || (a != State::Dead && b
        != State::Dead))
}

/// Whether the integrator moves an agent in the given state: always, unless
/// the agent is dead and the rules leave the dead where they fell.
pub open spec fn integrates(state: State, rules: Rules) -> bool {
    rules.dead_move || state != State::Dead
}

/// What the caller owes two agents that have touched.
#[derive(Clone, Copy, Debug, PartialEq, Eq, Structural)]
pub struct Response {
    /// Exchange the velocity components along the line between the two.
    pub collide: bool,
    /// Integrate the first agent again: a collision may have sent it past a
    /// wall within the same tick.
    pub moves_first: bool,
    /// Integrate the second agent again.
    pub moves_second: bool,
}

impl Response {
    /// The answer to a contact that was none.
    pub open spec fn nothing() -> Response {
        Response { collide: false, moves_first: false, moves_second: false }
    }
}

/// The answer to a contact of agents in states `a` and `b`: whether they
/// collide, and for each whether it is integrated again, which every agent
/// is that the integrator moves at all, see [`integrates`].
pub open spec fn answer_to(a: State, b: State, rules: Rules) -> Response {
    Response {
        collide: collides(a, b, rules),
        moves_first: integrates(a, rules),
        moves_second: integrates(b, rules),
    }
}

/// Decides how an infection ends, see [`outcome`].
pub fn heal(draw: u32, rules: &Rules) -> (state: State)
    ensures
        state == outcome(draw, *rules),
{
    if rules.enable_death && within(draw, rules.death_rate) {
        State::Dead
    } else {
        State::Cured
    }
}

/// One agent, as far as the contagion goes.
#[derive(Clone, Copy, Debug, PartialEq, Eq, Structural)]
pub struct Individual {
    pub state: State,
    /// Time spent infected so far. The clock stops at `u64::MAX`.
    pub infected_for: u64,
}

impl Individual {
    /// The clock of an infected agent after `dt` more time units.
    pub open spec fn clock_after(self, dt: u64) -> u64 {
        if self.infected_for + dt <= u64::MAX {
            (self.infected_for + dt) as u64
        } else {
            u64::MAX
        }
    }

    /// The infection has run its time once `dt` more units have passed.
    pub open spec fn due(self, dt: u64, rules: Rules) -> bool {
        self.state == State::Infected && self.infected_for + dt >= rules.time_to_heal
    }

    /// The agent one tick of length `dt` later. Only an infected agent
    /// changes: its clock advances, and when due it heals or dies by `draw`.
    pub open spec fn aged(self, dt: u64, rules: Rules, draw: u32) -> Individual {
        if self.state != State::Infected {
            self
        } else {
            Individual {
                state: if self.due(dt, rules) {
                    outcome(draw, rules)
                } else {
                    State::Infected
                },
                infected_for: self.clock_after(dt),
            }
        }
    }

    /// A healthy agent that was never infected.
    pub fn new() -> (fresh: Individual)
        ensures
            fresh == (Individual { state: State::Healthy, infected_for: 0 }),
    {
        Individual { state: State::Healthy, infected_for: 0 }
    }

    /// Advances the agent by one tick of length `dt`; `draw` decides between
    /// death and cure if the infection ends in this tick.
    pub fn age(&mut self, dt: u64, rules: &Rules, draw: u32)
        ensures
            *final(self) == old(self).aged(dt, *rules, draw),
            old(self).state.leads_to(final(self).state),
    {
        if self.state == State::Infected {
            let clock: u64 = if dt > u64::MAX - self.infected_for {
                u64::MAX
            } else {
                self.infected_for + dt
            };
            self.infected_for = clock;
            if clock >= rules.time_to_heal {
                self.state = heal(draw, rules);
            }
        }
    }

    /// Whether the integrator moves this agent, see [`integrates`]. Under
    /// the default rules it moves every agent, the dead too.
    pub fn moves(&self, rules: &Rules) -> (yes: bool)
        ensures
            yes == integrates(self.state, *rules),
    {
        rules.dead_move || self.state != State::Dead
    }
}

/// What a wall does to one axis of an agent's motion.
#[derive(Clone, Copy, Debug, PartialEq, Eq, Structural)]
pub enum Bounce {
    /// The agent is clear of both walls: nothing changes.
    Free,
    /// Reflect the velocity and put the agent against the lower wall.
    Low,
    /// Reflect the velocity and put the agent against the upper wall.
    High,
}

/// The answer of the walls on one axis, given whether the agent now reaches
/// below the lower wall and whether it reaches above the upper one. In an
/// arena narrower than an agent both can hold; the upper wall then wins, and
/// the velocity is still reflected once only.
pub open spec fn wall_answer(below: bool, above: bool) -> Bounce {
    if above {
        Bounce::High
    } else if below {
        Bounce::Low
    } else {
        Bounce::Free
    }
}

/// Decides the boundary response on one axis, see [`wall_answer`]. The two
/// axes are decided independently, so an agent in a corner bounces on both.
pub fn bounce(below: bool, above: bool) -> (answer: Bounce)
    ensures
        answer == wall_answer(below, above),
        answer == Bounce::Free <==> !below && !above,
{
    if above {
        Bounce::High
    } else if below {
        Bounce::Low
    } else {
        Bounce::Free
    }
}

/// How many agents of a population are in the given state.
pub open spec fn count(population: Seq<Individual>, state: State) -> nat
    decreases population.len(),
{
    if population.len() == 0 {
        0
    } else {
        count(population.drop_last(), state) + if population.last().state == state {
            1nat
        } else {
            0nat
        }
    }
}

/// The population a simulation starts with: `rows * cols` healthy agents laid
/// out row by row, except that the one in the middle row and middle column is
/// infected.
pub open spec fn seeded(rows: nat, cols: nat) -> Seq<Individual> {
    Seq::new(
        rows * cols,
        |k: int|
            Individual {
                state: if k / (cols as int) == rows / 2 && k % (cols as int) == cols / 2 {
                    State::Infected
                } else {
                    State::Healthy
                },
                infected_for: 0,
            },
    )
}

/// A population one tick of length `dt` later, each agent aged with the draw
/// at its own index.
pub open spec fn advanced(
    population: Seq<Individual>,
    dt: u64,
    rules: Rules,
    draws: Seq<u32>,
) -> Seq<Individual> {
    Seq::new(population.len(), |k: int| population[k].aged(dt, rules, draws[k]))
}

/// A population after agents `i` and `j` have touched.
pub open spec fn met(population: Seq<Individual>, i: int, j: int) -> Seq<Individual> {
    let a = population[i];
    let b = population[j];
    population.update(i, Individual { state: after_contact(a.state, b.state), ..a }).update(
        j,
        Individual { state: after_contact(b.state, a.state), ..b },
    )
}

/// `i` and `j` name two different agents of the population.
pub open spec fn is_pair(population: Seq<Individual>, i: int, j: int) -> bool {
    i != j && 0 <= i < population.len() && 0 <= j < population.len()
}

/// A population after a contact of `i` and `j` was reported. Where the two
/// are no pair nothing changes.
pub open spec fn contacted(population: Seq<Individual>, i: int, j: int) -> Seq<Individual> {
    if is_pair(population, i, j) {
        met(population, i, j)
    } else {
        population
    }
}

/// What the caller owes `i` and `j` after their contact was reported, going
/// by their states before it. Where the two are no pair it owes nothing.
pub open spec fn response_of(
    population: Seq<Individual>,
    rules: Rules,
    i: int,
    j: int,
) -> Response {
    if is_pair(population, i, j) {
        answer_to(population[i].state, population[j].state, rules)
    } else {
        Response::nothing()
    }
}

/// The census of a population.
pub open spec fn tally(population: Seq<Individual>) -> Counts {
    Counts {
        healthy: count(population, State::Healthy) as usize,
        infected: count(population, State::Infected) as usize,
        cured: count(population, State::Cured) as usize,
        dead: count(population, State::Dead) as usize,
    }
}

/// No agent of `after` is in an earlier state than it was in `before`.
pub open spec fn no_regress(before: Seq<Individual>, after: Seq<Individual>) -> bool {
    &&& before.len() == after.len()
    &&& forall|k: int|
        0 <= k < before.len() ==> (#[trigger] before[k]).state.leads_to(after[k].state)
}

/// `leads_to` is a partial order on the states: every state leads to itself,
/// two states that lead to each other are one, and what is reached in two
/// steps is reached in one.
pub proof fn lemma_leads_to_partial_order(a: State, b: State, c: State)
    ensures
        a.leads_to(a),
        a.leads_to(b) && b.leads_to(a) ==> a == b,
        a.leads_to(b) && b.leads_to(c) ==> a.leads_to(c),
{
}

/// A final state leads nowhere else: the cured and the dead stay so.
pub proof fn lemma_final_stays(a: State, b: State)
    requires
        a.is_final(),
        a.leads_to(b),
    ensures
        a == b,
{
}

/// Along the course of the contagion nothing runs backward: whatever the
/// rules and the draw, an agent one tick later is in the state it was in or
/// in a later one, and a healthy agent stays healthy.
pub proof fn lemma_aged_forward(agent: Individual, dt: u64, rules: Rules, draw: u32)
    ensures
        agent.state.leads_to(agent.aged(dt, rules, draw).state),
        agent.state == State::Healthy ==> agent.aged(dt, rules, draw) == agent,
{
}

/// A contact moves neither side backward, and changes a side only by
/// infecting it.
pub proof fn lemma_contact_forward(me: State, other: State)
    ensures
        me.leads_to(after_contact(me, other)),
        after_contact(me, other) == me || after_contact(me, other) == State::Infected,
        me.is_final() ==> after_contact(me, other) == me,
{
}

/// Populations that do not regress step by step do not regress over the
/// whole run.
pub proof fn lemma_no_regress_chain(
    first: Seq<Individual>,
    second: Seq<Individual>,
    third: Seq<Individual>,
)
    requires
        no_regress(first, second),
        no_regress(second, third),
    ensures
        no_regress(first, third),
{
    assert forall|k: int| 0 <= k < first.len() implies (#[trigger] first[k]).state.leads_to(
        third[k].state,
    ) by {
        lemma_leads_to_partial_order(first[k].state, second[k].state, third[k].state);
        assert(second[k].state.leads_to(third[k].state));
    }
}

/// Every agent is in exactly one of the four states: the four counts add up
/// to the size of the population.
pub proof fn lemma_count_total(population: Seq<Individual>)
    ensures
        count(population, State::Healthy) + count(population, State::Infected) + count(
            population,
            State::Cured,
        ) + count(population, State::Dead) == population.len(),
    decreases population.len(),
{
    if population.len() > 0 {
        lemma_count_total(population.drop_last());
    }
}

/// The census of a population that a machine can hold is exact: each field
/// of [`tally`] is the number of agents in that state, and the fields add up
/// to the size of the population.
pub proof fn lemma_tally(population: Seq<Individual>)
    requires
        population.len() <= usize::MAX,
    ensures
        tally(population).healthy == count(population, State::Healthy),
        tally(population).infected == count(population, State::Infected),
        tally(population).cured == count(population, State::Cured),
        tally(population).dead == count(population, State::Dead),
        tally(population).total() == population.len(),
{
    lemma_count_total(population);
}

/// Splits a population parameter into the rows and columns of the starting
/// layout: a square with that many agents a side.
pub fn find_partition(n: i32) -> (shape: (usize, usize))
    requires
        0 <= n,
    ensures
        shape.0 == n,
        shape.1 == n,
{
    (n as usize, n as usize)
}

/// The states of a population and the rules it runs under.
pub struct Simulation {
    individuals: Vec<Individual>,
    rules: Rules,
}

impl View for Simulation {
    type V = Seq<Individual>;

    closed spec fn view(&self) -> Seq<Individual> {
        self.individuals@
    }
}

impl Simulation {
    /// The rules the population runs under; they never change.
    pub closed spec fn rules(&self) -> Rules {
        self.rules
    }

    /// A population of `population * population` agents, see [`seeded`].
    pub fn new(rules: Rules, population: i32) -> (sim: Simulation)
        requires
            0 <= population,
            population * population <= usize::MAX,
        ensures
            sim@ == seeded(population as nat, population as nat),
            sim.rules() == rules,
    {
        let (rows, cols) = find_partition(population);
        let total: usize = rows * cols;
        let mut individuals: Vec<Individual> = Vec::new();
        let mut k: usize = 0;
        while k < total
            invariant
                k <= total,
                total == rows * cols,
                individuals@ == seeded(rows as nat, cols as nat).take(k as int),
            decreases total - k,
        {
            assert(cols != 0) by (nonlinear_arith)
                requires
                    k < rows * cols,
            ;
            let seed = k / cols == rows / 2 && k % cols == cols / 2;
            let state = if seed {
                State::Infected
            } else {
                State::Healthy
            };
            individuals.push(Individual { state, infected_for: 0 });
            k += 1;
        }
        Simulation { individuals, rules }
    }

    /// The number of agents.
    pub fn len(&self) -> (n: usize)
        ensures
            n == self@.len(),
    {
        self.individuals.len()
    }

    /// The agent at index `i`, if there is one.
    pub fn individual(&self, i: usize) -> (found: Option<Individual>)
        ensures
            found == if i < self@.len() {
                Some(self@[i as int])
            } else {
                None
            },
    {
        if i < self.individuals.len() {
            Some(self.individuals[i])
        } else {
            None
        }
    }

    /// Whether the integrator moves the agent at index `i`: it does if
    /// there is one, unless the rules leave the dead where they fell and the
    /// agent is dead.
    pub fn moves(&self, i: usize) -> (yes: bool)
        ensures
            yes == (i < self@.len() && integrates(self@[i as int].state, self.rules())),
    {
        i < self.individuals.len() && self.individuals[i].moves(&self.rules)
    }

    /// Runs the course of every infection for one tick of length `dt`. The
    /// draw at an agent's index decides its fate if its infection ends now;
    /// the other draws go unused. Nobody becomes infected here.
    pub fn advance(&mut self, dt: u64, draws: &Vec<u32>)
        requires
            draws@.len() == old(self)@.len(),
        ensures
            final(self)@ == advanced(old(self)@, dt, old(self).rules(), draws@),
            final(self).rules() == old(self).rules(),
            no_regress(old(self)@, final(self)@),
    {
        let n = self.individuals.len();
        let mut k: usize = 0;
        while k < n
            invariant
                k <= n,
                n == old(self)@.len(),
                draws@.len() == n,
                self.individuals@.len() == n,
                self.rules == old(self).rules,
                forall|m: int|
                    0 <= m < k ==> self.individuals@[m] == old(self)@[m].aged(
                        dt,
                        self.rules,
                        draws@[m],
                    ),
                forall|m: int| k <= m < n ==> self.individuals@[m] == old(self)@[m],
            decreases n - k,
        {
            let mut agent = self.individuals[k];
            agent.age(dt, &self.rules, draws[k]);
            self.individuals.set(k, agent);
            k += 1;
        }
    }

    /// Applies the contact of agents `i` and `j`: if one is infected and the
    /// other healthy, both are infected afterwards. The answer says what the
    /// caller owes the two, see [`answer_to`]. A pair that is none (equal or
    /// missing indices) changes nothing and is owed nothing, see
    /// [`contacted`] and [`response_of`].
    pub fn contact(&mut self, i: usize, j: usize) -> (answer: Response)
        ensures
            final(self)@ == contacted(old(self)@, i as int, j as int),
            answer == response_of(old(self)@, old(self).rules(), i as int, j as int),
            final(self).rules() == old(self).rules(),
            no_regress(old(self)@, final(self)@),
    {
        let n = self.individuals.len();
        if i == j || i >= n || j >= n {
            return Response { collide: false, moves_first: false, moves_second: false };
        }
        let a = self.individuals[i];
        let b = self.individuals[j];
        let passes = (a.state == State::Infected && b.state == State::Healthy) || (a.state
            == State::Healthy && b.state == State::Infected);
        if passes {
            self.individuals.set(i, Individual { state: State::Infected, infected_for: a.infected_for });
            self.individuals.set(j, Individual { state: State::Infected, infected_for: b.infected_for });
        }
        Response {
            collide: self.rules.enable_collision_physics && (self.rules.dead_collide || (a.state
                != State::Dead && b.state != State::Dead)),
            moves_first: a.moves(&self.rules),
            moves_second: b.moves(&self.rules),
        }
    }

    /// Counts the agents by state.
    pub fn census(&self) -> (counts: Counts)
        ensures
            counts == tally(self@),
            counts.healthy == count(self@, State::Healthy),
            counts.infected == count(self@, State::Infected),
            counts.cured == count(self@, State::Cured),
            counts.dead == count(self@, State::Dead),
            counts.total() == self@.len(),
    {
        let n = self.individuals.len();
        let mut counts = Counts { healthy: 0, infected: 0, cured: 0, dead: 0 };
        let mut k: usize = 0;
        while k < n
            invariant
                k <= n,
                n == self.individuals@.len(),
                counts.healthy == count(self.individuals@.take(k as int), State::Healthy),
                counts.infected == count(self.individuals@.take(k as int), State::Infected),
                counts.cured == count(self.individuals@.take(k as int), State::Cured),
                counts.dead == count(self.individuals@.take(k as int), State::Dead),
                counts.total() == k,
            decreases n - k,
        {
            proof {
                let upto = self.individuals@.take(k + 1);
                assert(upto.drop_last() == self.individuals@.take(k as int));
                assert(upto.last() == self.individuals@[k as int]);
            }
            match self.individuals[k].state {
                State::Healthy => {
                    counts.healthy += 1;
                },
                State::Infected => {
                    counts.infected += 1;
                },
                State::Cured => {
                    counts.cured += 1;
                },
                State::Dead => {
                    counts.dead += 1;
                },
            }
            k += 1;
        }
        proof {
            assert(self.individuals@.take(n as int) == self.individuals@);
        }
        counts
    }
}

} // verus!
