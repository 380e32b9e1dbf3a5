use simkernel::census::Counts;
use simkernel::chance::UNIT;
use simkernel::disease::{bounce, find_partition, heal, Bounce, Individual, Response, Rules, Simulation, State};
use simkernel::pairs::Pairs;

fn rules(time_to_heal: u64) -> Rules {
    Rules::new(time_to_heal)
}

fn deadly(time_to_heal: u64, death_rate: u64) -> Rules {
    Rules { death_rate, enable_death: true, ..Rules::new(time_to_heal) }
}

fn states(sim: &Simulation) -> Vec<State> {
    (0..sim.len()).map(|i| sim.individual(i).unwrap().state).collect()
}

fn stage(state: State) -> u8 {
    match state {
        State::Healthy => 0,
        State::Infected => 1,
        State::Cured | State::Dead => 2,
    }
}

/// Infects agents pairwise until `sim` has the wanted infected ones: agent 4
/// of a population of nine starts infected.
fn infect(sim: &mut Simulation, who: usize) {
    let source = states(sim).iter().position(|s| *s == State::Infected).unwrap();
    sim.contact(who, source);
}

#[test]
fn default_rules() {
    let r = Rules::new(14);
    assert_eq!(r.time_to_heal, 14);
    assert_eq!(r.death_rate, 0);
    assert!(!r.enable_death);
    assert!(r.enable_collision_physics);
    assert!(!r.dead_collide);
    assert!(r.dead_move);
}

#[test]
fn a_fresh_individual_is_healthy() {
    assert_eq!(Individual::new(), Individual { state: State::Healthy, infected_for: 0 });
}

#[test]
fn healing_is_a_cure_unless_death_is_enabled() {
    assert_eq!(heal(0, &rules(5)), State::Cured);
    assert_eq!(heal(u32::MAX, &rules(5)), State::Cured);
    let off = Rules { death_rate: UNIT, ..Rules::new(5) };
    assert_eq!(heal(0, &off), State::Cured);
}

#[test]
fn healing_kills_when_the_draw_does_not_exceed_the_death_rate() {
    let r = deadly(5, 100);
    assert_eq!(heal(0, &r), State::Dead);
    assert_eq!(heal(99, &r), State::Dead);
    assert_eq!(heal(100, &r), State::Dead);
    assert_eq!(heal(101, &r), State::Cured);
    assert_eq!(heal(u32::MAX, &r), State::Cured);
}

#[test]
fn a_death_rate_of_zero_still_kills_on_the_draw_zero() {
    let r = deadly(5, 0);
    assert_eq!(heal(0, &r), State::Dead);
    assert_eq!(heal(1, &r), State::Cured);
}

#[test]
fn only_the_infected_age() {
    for state in [State::Healthy, State::Cured, State::Dead] {
        let mut agent = Individual { state, infected_for: 3 };
        agent.age(1000, &deadly(1, UNIT), 0);
        assert_eq!(agent, Individual { state, infected_for: 3 });
    }
}

#[test]
fn an_infection_lasts_until_the_time_to_heal() {
    let r = rules(10);
    let mut agent = Individual { state: State::Infected, infected_for: 0 };
    agent.age(4, &r, 0);
    assert_eq!(agent, Individual { state: State::Infected, infected_for: 4 });
    agent.age(5, &r, 0);
    assert_eq!(agent, Individual { state: State::Infected, infected_for: 9 });
    agent.age(1, &r, 0);
    assert_eq!(agent, Individual { state: State::Cured, infected_for: 10 });
    agent.age(1, &r, 0);
    assert_eq!(agent, Individual { state: State::Cured, infected_for: 10 });
}

#[test]
fn a_tick_of_no_length_changes_nothing_before_the_time() {
    let mut agent = Individual { state: State::Infected, infected_for: 2 };
    agent.age(0, &rules(3), 0);
    assert_eq!(agent, Individual { state: State::Infected, infected_for: 2 });
}

#[test]
fn a_time_to_heal_of_zero_heals_at_once() {
    let mut agent = Individual { state: State::Infected, infected_for: 0 };
    agent.age(0, &rules(0), 0);
    assert_eq!(agent.state, State::Cured);
}

#[test]
fn the_draw_decides_between_death_and_cure() {
    let r = deadly(2, UNIT / 2);
    let mut dies = Individual { state: State::Infected, infected_for: 1 };
    dies.age(1, &r, (UNIT / 2) as u32);
    assert_eq!(dies, Individual { state: State::Dead, infected_for: 2 });
    let mut lives = Individual { state: State::Infected, infected_for: 1 };
    lives.age(1, &r, (UNIT / 2 + 1) as u32);
    assert_eq!(lives, Individual { state: State::Cured, infected_for: 2 });
}

#[test]
fn the_clock_stops_at_the_largest_duration() {
    let r = rules(u64::MAX);
    let mut agent = Individual { state: State::Infected, infected_for: u64::MAX - 2 };
    agent.age(1, &r, 0);
    assert_eq!(agent, Individual { state: State::Infected, infected_for: u64::MAX - 1 });
    let mut late = Individual { state: State::Infected, infected_for: u64::MAX - 2 };
    late.age(100, &r, 0);
    assert_eq!(late, Individual { state: State::Cured, infected_for: u64::MAX });
}

#[test]
fn everybody_is_moved_the_dead_too() {
    let r = rules(5);
    for state in [State::Healthy, State::Infected, State::Cured, State::Dead] {
        assert!(Individual { state, infected_for: 0 }.moves(&r), "{:?}", state);
    }
}

#[test]
fn the_dead_stay_where_the_rules_leave_them() {
    let r = Rules { dead_move: false, ..rules(5) };
    assert!(Individual { state: State::Healthy, infected_for: 0 }.moves(&r));
    assert!(Individual { state: State::Infected, infected_for: 0 }.moves(&r));
    assert!(Individual { state: State::Cured, infected_for: 0 }.moves(&r));
    assert!(!Individual { state: State::Dead, infected_for: 0 }.moves(&r));
}

#[test]
fn walls_answer_each_axis() {
    assert_eq!(bounce(false, false), Bounce::Free);
    assert_eq!(bounce(true, false), Bounce::Low);
    assert_eq!(bounce(false, true), Bounce::High);
}

#[test]
fn the_upper_wall_wins_in_a_narrow_arena() {
    assert_eq!(bounce(true, true), Bounce::High);
}

#[test]
fn partition_is_a_square() {
    assert_eq!(find_partition(0), (0, 0));
    assert_eq!(find_partition(1), (1, 1));
    assert_eq!(find_partition(3), (3, 3));
    assert_eq!(find_partition(40), (40, 40));
}

#[test]
fn a_population_starts_with_its_middle_infected() {
    let sim = Simulation::new(rules(10), 3);
    assert_eq!(sim.len(), 9);
    for i in 0..9 {
        let expected = if i == 4 { State::Infected } else { State::Healthy };
        assert_eq!(sim.individual(i), Some(Individual { state: expected, infected_for: 0 }));
    }
    assert_eq!(sim.individual(9), None);
}

#[test]
fn the_middle_of_an_even_square() {
    let sim = Simulation::new(rules(10), 4);
    assert_eq!(sim.len(), 16);
    let infected: Vec<usize> = (0..16).filter(|&i| states(&sim)[i] == State::Infected).collect();
    // row 2, column 2
    assert_eq!(infected, vec![10]);
    let two = Simulation::new(rules(10), 2);
    assert_eq!(states(&two), vec![State::Healthy, State::Healthy, State::Healthy, State::Infected]);
}

#[test]
fn a_population_of_one_is_infected() {
    let sim = Simulation::new(rules(10), 1);
    assert_eq!(states(&sim), vec![State::Infected]);
}

#[test]
fn an_empty_population() {
    let mut sim = Simulation::new(rules(10), 0);
    assert_eq!(sim.len(), 0);
    assert_eq!(sim.individual(0), None);
    sim.advance(1, &vec![]);
    assert_eq!(sim.census(), Counts { healthy: 0, infected: 0, cured: 0, dead: 0 });
    assert_eq!(sim.contact(0, 1), Response { collide: false, moves_first: false, moves_second: false });
}

#[test]
fn contact_infects_the_healthy_side() {
    let mut sim = Simulation::new(rules(10), 3);
    let answer = sim.contact(4, 0);
    assert_eq!(answer, Response { collide: true, moves_first: true, moves_second: true });
    assert_eq!(sim.individual(0).unwrap().state, State::Infected);
    assert_eq!(sim.individual(4).unwrap().state, State::Infected);
    // either order
    sim.contact(8, 0);
    assert_eq!(sim.individual(8).unwrap().state, State::Infected);
    assert_eq!(sim.census(), Counts { healthy: 6, infected: 3, cured: 0, dead: 0 });
}

#[test]
fn contact_between_the_healthy_only_collides() {
    let mut sim = Simulation::new(rules(10), 3);
    let before = states(&sim);
    let answer = sim.contact(1, 0);
    assert_eq!(answer, Response { collide: true, moves_first: true, moves_second: true });
    assert_eq!(states(&sim), before);
}

#[test]
fn contact_keeps_the_clock() {
    let mut sim = Simulation::new(rules(10), 3);
    sim.advance(3, &vec![0; 9]);
    sim.contact(4, 5);
    assert_eq!(sim.individual(4), Some(Individual { state: State::Infected, infected_for: 3 }));
    assert_eq!(sim.individual(5), Some(Individual { state: State::Infected, infected_for: 0 }));
}

#[test]
fn the_cured_are_immune() {
    let mut sim = Simulation::new(rules(1), 3);
    sim.advance(1, &vec![0; 9]);
    assert_eq!(sim.individual(4).unwrap().state, State::Cured);
    let answer = sim.contact(4, 3);
    assert_eq!(answer, Response { collide: true, moves_first: true, moves_second: true });
    assert_eq!(sim.census(), Counts { healthy: 8, infected: 0, cured: 1, dead: 0 });
    // and cannot be infected again
    let mut other = Simulation::new(rules(1), 3);
    other.contact(4, 3);
    other.advance(1, &vec![0; 9]);
    assert_eq!(other.census(), Counts { healthy: 7, infected: 0, cured: 2, dead: 0 });
    other.contact(4, 3);
    assert_eq!(other.census(), Counts { healthy: 7, infected: 0, cured: 2, dead: 0 });
}

#[test]
fn the_dead_neither_transmit_nor_collide_but_are_moved() {
    let mut sim = Simulation::new(deadly(1, UNIT), 3);
    sim.advance(1, &vec![0; 9]);
    assert_eq!(sim.individual(4).unwrap().state, State::Dead);
    let answer = sim.contact(4, 3);
    assert_eq!(answer, Response { collide: false, moves_first: true, moves_second: true });
    let answer = sim.contact(3, 4);
    assert_eq!(answer, Response { collide: false, moves_first: true, moves_second: true });
    assert_eq!(sim.census(), Counts { healthy: 8, infected: 0, cured: 0, dead: 1 });
}

#[test]
fn the_dead_are_not_moved_after_a_contact_where_the_rules_leave_them() {
    let r = Rules { dead_move: false, ..deadly(1, UNIT) };
    let mut sim = Simulation::new(r, 3);
    sim.advance(1, &vec![0; 9]);
    assert_eq!(sim.individual(4).unwrap().state, State::Dead);
    let answer = sim.contact(4, 3);
    assert_eq!(answer, Response { collide: false, moves_first: false, moves_second: true });
    let answer = sim.contact(3, 4);
    assert_eq!(answer, Response { collide: false, moves_first: true, moves_second: false });
    assert_eq!(sim.census(), Counts { healthy: 8, infected: 0, cured: 0, dead: 1 });
}

#[test]
fn the_dead_collide_when_told_to() {
    let r = Rules { dead_collide: true, ..deadly(1, UNIT) };
    let mut sim = Simulation::new(r, 3);
    sim.advance(1, &vec![0; 9]);
    let answer = sim.contact(4, 3);
    assert_eq!(answer, Response { collide: true, moves_first: true, moves_second: true });
    assert_eq!(sim.individual(3).unwrap().state, State::Healthy);
    // colliding and staying put are decided apart
    let r = Rules { dead_collide: true, dead_move: false, ..deadly(1, UNIT) };
    let mut sim = Simulation::new(r, 3);
    sim.advance(1, &vec![0; 9]);
    let answer = sim.contact(4, 3);
    assert_eq!(answer, Response { collide: true, moves_first: false, moves_second: true });
}

#[test]
fn no_collision_without_collision_physics() {
    let r = Rules { enable_collision_physics: false, dead_collide: true, ..rules(10) };
    let mut sim = Simulation::new(r, 3);
    let answer = sim.contact(4, 3);
    assert_eq!(answer, Response { collide: false, moves_first: true, moves_second: true });
    // the contact still transmits
    assert_eq!(sim.individual(3).unwrap().state, State::Infected);
}

#[test]
fn a_pair_that_is_none_changes_nothing() {
    let mut sim = Simulation::new(rules(10), 3);
    let before = states(&sim);
    let nothing = Response { collide: false, moves_first: false, moves_second: false };
    assert_eq!(sim.contact(4, 4), nothing);
    assert_eq!(sim.contact(4, 9), nothing);
    assert_eq!(sim.contact(9, 4), nothing);
    assert_eq!(sim.contact(usize::MAX, 0), nothing);
    assert_eq!(states(&sim), before);
}

#[test]
fn advance_uses_the_draw_at_each_index() {
    let mut sim = Simulation::new(deadly(2, 50), 3);
    infect(&mut sim, 0);
    infect(&mut sim, 8);
    let mut draws = vec![0u32; 9];
    draws[0] = 50;
    draws[4] = 51;
    draws[8] = 0;
    sim.advance(1, &draws);
    assert_eq!(sim.census(), Counts { healthy: 6, infected: 3, cured: 0, dead: 0 });
    sim.advance(1, &draws);
    assert_eq!(sim.individual(0), Some(Individual { state: State::Dead, infected_for: 2 }));
    assert_eq!(sim.individual(4), Some(Individual { state: State::Cured, infected_for: 2 }));
    assert_eq!(sim.individual(8), Some(Individual { state: State::Dead, infected_for: 2 }));
    assert_eq!(sim.census(), Counts { healthy: 6, infected: 0, cured: 1, dead: 2 });
}

#[test]
fn nobody_falls_ill_without_contact() {
    let mut sim = Simulation::new(deadly(1_000_000, UNIT), 5);
    for _ in 0..50 {
        sim.advance(7, &vec![0; 25]);
    }
    assert_eq!(sim.census(), Counts { healthy: 24, infected: 1, cured: 0, dead: 0 });
    assert_eq!(sim.individual(12), Some(Individual { state: State::Infected, infected_for: 350 }));
}

#[test]
fn census_counts_everybody() {
    let mut sim = Simulation::new(deadly(3, 10), 6);
    let mut draw = 1u32;
    for tick in 0..12usize {
        let draws: Vec<u32> = (0..36)
            .map(|_| {
                draw = draw.wrapping_mul(1664525).wrapping_add(1013904223);
                draw % 40
            })
            .collect();
        sim.advance(1, &draws);
        sim.contact((tick * 7) % 36, (tick * 11 + 1) % 36);
        let counts = sim.census();
        assert_eq!(counts.healthy + counts.infected + counts.cured + counts.dead, 36);
        let seen = states(&sim);
        assert_eq!(counts.healthy, seen.iter().filter(|s| **s == State::Healthy).count());
        assert_eq!(counts.infected, seen.iter().filter(|s| **s == State::Infected).count());
        assert_eq!(counts.cured, seen.iter().filter(|s| **s == State::Cured).count());
        assert_eq!(counts.dead, seen.iter().filter(|s| **s == State::Dead).count());
    }
}

#[test]
fn no_agent_ever_goes_backward() {
    let mut sim = Simulation::new(deadly(4, UNIT / 3), 7);
    let n = sim.len();
    let mut draw = 12345u32;
    let mut before = states(&sim);
    for _ in 0..40 {
        let draws: Vec<u32> = (0..n)
            .map(|_| {
                draw = draw.wrapping_mul(1664525).wrapping_add(1013904223);
                draw
            })
            .collect();
        sim.advance(1, &draws);
        let mut walk = Pairs::new(n);
        while let Some((i, j)) = walk.next() {
            draw = draw.wrapping_mul(1664525).wrapping_add(1013904223);
            if draw % 5 == 0 {
                sim.contact(i, j);
            }
        }
        let after = states(&sim);
        for k in 0..n {
            assert!(
                before[k] == after[k] || stage(before[k]) < stage(after[k]),
                "agent {} went from {:?} to {:?}",
                k,
                before[k],
                after[k]
            );
        }
        before = after;
    }
    let counts = sim.census();
    assert_eq!(counts.infected, 0);
    assert!(counts.cured > 0 && counts.dead > 0);
}

/// Two agents of equal mass on a collision course: the kernel says that they
/// collide and are both integrated again, and the exchange along the line
/// between them swaps their velocities.
#[test]
fn head_on_contact_exchanges_velocities() {
    let radius = 7.5f64;
    let mut pos = [(10.0f64, 50.0f64), (20.0f64, 50.0f64)];
    let mut vel = [(1.0f64, 0.0f64), (-1.0f64, 0.0f64)];
    // agents 1 and 0 of a population of nine are both healthy
    let mut sim = Simulation::new(rules(1000), 3);
    let (a, b) = (1usize, 0usize);
    let dt = 1.0f64;
    for k in 0..2 {
        pos[k].0 += vel[k].0 * dt;
        pos[k].1 += vel[k].1 * dt;
    }
    let d = (pos[1].0 - pos[0].0, pos[1].1 - pos[0].1);
    let distance = (d.0 * d.0 + d.1 * d.1).sqrt();
    assert!(distance < 2.0 * radius);
    let answer = sim.contact(a, b);
    assert_eq!(answer, Response { collide: true, moves_first: true, moves_second: true });
    let e = (d.0 / distance, d.1 / distance);
    let a_par = vel[0].0 * e.0 + vel[0].1 * e.1;
    let b_par = vel[1].0 * e.0 + vel[1].1 * e.1;
    vel[0] = (vel[0].0 + e.0 * (b_par - a_par), vel[0].1 + e.1 * (b_par - a_par));
    vel[1] = (vel[1].0 + e.0 * (a_par - b_par), vel[1].1 + e.1 * (a_par - b_par));
    assert_eq!(vel[0], (-1.0, 0.0));
    assert_eq!(vel[1], (1.0, 0.0));
    assert_eq!(states(&sim)[a], State::Healthy);
    assert_eq!(states(&sim)[b], State::Healthy);
}

#[test]
fn the_population_says_who_moves() {
    let mut sim = Simulation::new(deadly(1, UNIT), 3);
    assert!((0..9).all(|i| sim.moves(i)));
    assert!(!sim.moves(9));
    assert!(!sim.moves(usize::MAX));
    sim.advance(1, &vec![0; 9]);
    assert_eq!(sim.individual(4).unwrap().state, State::Dead);
    assert!((0..9).all(|i| sim.moves(i)));

    let mut still = Simulation::new(Rules { dead_move: false, ..deadly(1, UNIT) }, 3);
    still.advance(1, &vec![0; 9]);
    assert!(!still.moves(4));
    assert!(still.moves(3));
    assert!(!still.moves(9));
}
