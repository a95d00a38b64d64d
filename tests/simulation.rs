use evo_sim::agent::{drift, jitter_channel, offspring, Agent, Color, Environment};
use evo_sim::clock::TickClock;
use evo_sim::population::{breed, keep_newest, step_population, survivors, Breeding};
use evo_sim::simulation::{Population, Settings, Simulation};

fn agent(t: i64, o: i64) -> Agent {
    Agent { temperature: t, oxygen: o, color: Color::white() }
}

fn scenario_settings() -> Settings {
    let mut s = Settings::new();
    s.temperature = 0;
    s.oxygen = 0;
    s.tolerance_radius = 100;
    s.left = Breeding { reproduction_rate: 1, mutation_spread: 0 };
    s.right = Breeding { reproduction_rate: 1, mutation_spread: 0 };
    s.max_population = 128;
    s.running = true;
    s
}

#[test]
fn clock_firing_doubles_lone_agent() {
    let mut sim = Simulation::new(scenario_settings());
    sim.tick(1000);
    for p in [Population::Left, Population::Right] {
        assert_eq!(sim.population_count(p), 2);
        for a in sim.agents(p) {
            assert_eq!((a.temperature, a.oxygen), (0, 0));
        }
    }
}

#[test]
fn warm_environment_moves_agent_down() {
    let mut s = scenario_settings();
    s.temperature = 10;
    let mut sim = Simulation::new(s);
    sim.tick(1000);
    // Ten whole units, held in thousandths.
    assert_eq!(sim.agents(Population::Left)[0].temperature, -10_000);
    assert_eq!(sim.agents(Population::Right)[0].temperature, -10_000);
}

#[test]
fn narrowed_radius_culls_everyone() {
    let mut s = scenario_settings();
    s.temperature = 10;
    let mut sim = Simulation::new(s);
    sim.tick(1000);
    assert!(sim.agents(Population::Left).iter().all(|a| a.temperature == -10_000 && a.oxygen == 0));
    sim.set_tolerance_radius(5);
    sim.tick(1);
    assert_eq!(sim.population_count(Population::Left), 0);
    assert_eq!(sim.population_count(Population::Right), 0);
}

#[test]
fn cap_holds_after_every_tick() {
    let mut s = scenario_settings();
    s.left = Breeding { reproduction_rate: 4, mutation_spread: 1 };
    s.right = Breeding { reproduction_rate: 3, mutation_spread: 0 };
    s.max_population = 10;
    let mut sim = Simulation::new(s);
    for _ in 0..8 {
        sim.tick(1000);
        assert!(sim.population_count(Population::Left) <= 10);
        assert!(sim.population_count(Population::Right) <= 10);
    }
    assert_eq!(sim.population_count(Population::Right), 10);
}

#[test]
fn zero_spread_population_stays_within_radius() {
    let mut s = scenario_settings();
    s.temperature = 3;
    s.oxygen = 2;
    s.tolerance_radius = 40;
    let mut sim = Simulation::new(s);
    for _ in 0..20 {
        sim.tick(400);
        for a in sim.agents(Population::Left) {
            let (t, o) = (a.temperature as i128, a.oxygen as i128);
            assert!(t * t + o * o <= 40_000 * 40_000);
        }
    }
}

#[test]
fn paused_ticks_change_nothing() {
    let mut sim = Simulation::new(scenario_settings());
    sim.set_temperature(7);
    sim.tick(2500);
    let before: Vec<Agent> = sim.agents(Population::Left).clone();
    let clock_before = sim.clock.elapsed_ms;
    sim.set_running(false);
    for d in [0u64, 1, 999, 1000, 123_456] {
        sim.tick(d);
    }
    assert!(*sim.agents(Population::Left) == before);
    assert_eq!(sim.clock.elapsed_ms, clock_before);
}

#[test]
fn zero_spread_children_clone_their_parent() {
    let parents = vec![agent(3000, -2000), agent(-7000, 1000)];
    let kids = breed(&parents, 3, 0);
    assert_eq!(kids.len(), 6);
    for (k, c) in kids.iter().enumerate() {
        let p = parents[k / 3];
        assert_eq!((c.temperature, c.oxygen), (p.temperature, p.oxygen));
        assert!((c.color.r as i64 - p.color.r as i64).abs() <= 50 && c.color.r <= 1000);
    }
}

#[test]
fn mutation_draws_vary_within_spread() {
    let parents = vec![agent(0, 0)];
    let kids = breed(&parents, 200, 5);
    assert_eq!(kids.len(), 200);
    for c in &kids {
        assert!(c.temperature % 1000 == 0 && c.temperature.abs() <= 5000);
        assert!(c.oxygen % 1000 == 0 && c.oxygen.abs() <= 5000);
    }
    assert!(kids.iter().any(|c| c.temperature != -5000));
    assert!(kids.iter().any(|c| c.color.r != 950));
}

#[test]
fn clock_fires_every_fourth_quarter_second() {
    let mut c = TickClock::new();
    let fired: Vec<bool> = (0..8).map(|_| c.advance(250)).collect();
    assert_eq!(fired, vec![false, false, false, true, false, false, false, true]);
    assert_eq!(c.elapsed_ms, 0);
}

#[test]
fn clock_keeps_remainder() {
    let mut c = TickClock::new();
    let fired: Vec<bool> = (0..7).map(|_| c.advance(300)).collect();
    assert_eq!(fired, vec![false, false, false, true, false, false, true]);
    assert_eq!(c.elapsed_ms, 100);
    assert!(c.advance(5_000_000));
    assert_eq!(c.elapsed_ms, 100);
}

#[test]
fn reproduction_only_on_firing_ticks() {
    let mut sim = Simulation::new(scenario_settings());
    let counts: Vec<usize> = (0..8)
        .map(|_| {
            sim.tick(500);
            sim.population_count(Population::Left)
        })
        .collect();
    assert_eq!(counts, vec![1, 2, 2, 4, 4, 8, 8, 16]);
}

#[test]
fn drift_follows_environment() {
    let env = Environment { temperature: 3, oxygen: 1 };
    let b = drift(&agent(5000, 2000), &env, 100, 500).unwrap();
    assert_eq!((b.temperature, b.oxygen), (6000, 3500));
}

#[test]
fn drift_rounds_down() {
    let env = Environment { temperature: 0, oxygen: 0 };
    assert_eq!(drift(&agent(1, 0), &env, 100, 1).unwrap().temperature, 1);
    assert_eq!(drift(&agent(-1, 0), &env, 100, 1).unwrap().temperature, -2);
}

#[test]
fn drift_radius_boundary() {
    let env = Environment { temperature: 0, oxygen: 0 };
    assert!(drift(&agent(100_000, 0), &env, 100, 0).is_some());
    assert!(drift(&agent(60_000, 80_000), &env, 100, 0).is_some());
    assert!(drift(&agent(100_001, 0), &env, 100, 0).is_none());
}

#[test]
fn survivors_keep_order() {
    let env = Environment { temperature: 0, oxygen: 0 };
    let agents = vec![agent(1000, 0), agent(200_000, 0), agent(0, -3000)];
    let s = survivors(&agents, &env, 100, 0);
    assert_eq!(s, vec![agent(1000, 0), agent(0, -3000)]);
}

#[test]
fn offspring_applies_draws() {
    let parent = Agent { temperature: 4000, oxygen: -1000, color: Color { r: 1000, g: 0, b: 500 } };
    let c = offspring(&parent, 2, -3, 50, -50, 10);
    assert_eq!((c.temperature, c.oxygen), (6000, -4000));
    assert_eq!(c.color, Color { r: 1000, g: 0, b: 510 });
}

#[test]
fn color_channel_is_clamped() {
    assert_eq!(jitter_channel(980, 50), 1000);
    assert_eq!(jitter_channel(20, -50), 0);
    assert_eq!(jitter_channel(500, -7), 493);
}

#[test]
fn keep_newest_drops_oldest() {
    let pool = vec![agent(1, 0), agent(2, 0), agent(3, 0), agent(4, 0)];
    assert_eq!(keep_newest(pool.clone(), 2), vec![agent(3, 0), agent(4, 0)]);
    assert_eq!(keep_newest(pool.clone(), 4), pool);
    assert_eq!(keep_newest(pool, 0), vec![]);
}

#[test]
fn step_places_children_after_survivors() {
    let env = Environment { temperature: 0, oxygen: 0 };
    let mut agents = vec![agent(1000, 0), agent(0, 2000)];
    let b = Breeding { reproduction_rate: 2, mutation_spread: 0 };
    step_population(&mut agents, &env, 100, &b, 5, 0, true);
    let want: Vec<(i64, i64)> = vec![(0, 2000), (1000, 0), (1000, 0), (0, 2000), (0, 2000)];
    let got: Vec<(i64, i64)> = agents.iter().map(|a| (a.temperature, a.oxygen)).collect();
    assert_eq!(got, want);
}

#[test]
fn settings_start_paused() {
    let s = Settings::new();
    assert!(!s.running);
    assert_eq!(s.tolerance_radius, 100);
    assert_eq!(s.max_population, 128);
    let mut sim = Simulation::new(s);
    sim.tick(1000);
    assert_eq!(sim.population_count(Population::Left), 1);
    assert_eq!(sim.clock.elapsed_ms, 0);
}

#[test]
fn setters_touch_one_population() {
    let mut sim = Simulation::new(Settings::new());
    sim.set_reproduction_rate(Population::Right, 4);
    sim.set_mutation_spread(Population::Left, 0);
    sim.set_max_population(7);
    sim.set_oxygen(60);
    assert_eq!(sim.settings.breeding(Population::Right).reproduction_rate, 4);
    assert_eq!(sim.settings.breeding(Population::Left).reproduction_rate, 1);
    assert_eq!(sim.settings.breeding(Population::Left).mutation_spread, 0);
    assert_eq!(sim.settings.breeding(Population::Right).mutation_spread, 1);
    assert_eq!(sim.settings.max_population, 7);
    assert_eq!(sim.settings.environment().oxygen, 60);
}
