use vstd::prelude::*;
use crate::agent::{within_radius, Agent, Environment};
use crate::clock::{elapsed_after, fires, TickClock};
use crate::population::{all_within, is_newborn, is_step, step_population, Breeding};

verus! {

/// One of the two populations.
#[derive(Clone, Copy, Debug, PartialEq, Eq, Structural)]
pub enum Population {
    Left,
    Right,
}

/// The parameters that the presentation layer may change between ticks.
#[derive(Clone, Copy, Debug)]
pub struct Settings {
    /// Global temperature, in whole units.
    pub temperature: i32,
    /// Global oxygen level, in whole units.
    pub oxygen: i32,
    /// Distance from the origin, in whole units, beyond which agents die.
    pub tolerance_radius: u32,
    pub left: Breeding,
    pub right: Breeding,
    /// Largest number of agents that each population keeps after a tick.
    pub max_population: u32,
    pub running: bool,
}

impl Settings {
    /// The starting parameters: a neutral environment, a radius of 100
    /// units, one child per parent with a mutation spread of one unit, a cap
    /// of 128, and the simulation paused.
    pub fn new() -> (r: Settings)
        ensures
            r.temperature == 0,
            r.oxygen == 0,
            r.tolerance_radius == 100,
            r.left.reproduction_rate == 1 && r.left.mutation_spread == 1,
            r.right.reproduction_rate == 1 && r.right.mutation_spread == 1,
            r.max_population == 128,
            !r.running,
    {
        Settings {
            temperature: 0,
            oxygen: 0,
            tolerance_radius: 100,
            left: Breeding { reproduction_rate: 1, mutation_spread: 1 },
            right: Breeding { reproduction_rate: 1, mutation_spread: 1 },
            max_population: 128,
            running: false,
        }
    }

    pub open spec fn breeding_spec(&self, p: Population) -> Breeding {
        match p {
            Population::Left => self.left,
            Population::Right => self.right,
        }
    }

    pub open spec fn environment_spec(&self) -> Environment {
        Environment { temperature: self.temperature, oxygen: self.oxygen }
    }

    /// The breeding parameters of population `p`.
    pub fn breeding(&self, p: Population) -> (r: Breeding)
        ensures
            r == self.breeding_spec(p),
    {
        match p {
            Population::Left => self.left,
            Population::Right => self.right,
        }
    }

    /// The environment that moves every agent.
    pub fn environment(&self) -> (r: Environment)
        ensures
            r == self.environment_spec(),
    {
        Environment { temperature: self.temperature, oxygen: self.oxygen }
    }
}

/// Two populations under shared settings and one shared reproduction clock.
pub struct Simulation {
    pub settings: Settings,
    pub clock: TickClock,
    pub left: Vec<Agent>,
    pub right: Vec<Agent>,
}

impl Simulation {
    pub open spec fn agents_spec(&self, p: Population) -> Seq<Agent> {
        match p {
            Population::Left => self.left@,
            Population::Right => self.right@,
        }
    }

    pub open spec fn wf(&self) -> bool {
        &&& self.clock.wf()
        &&& forall|k: int| 0 <= k < self.left.len() ==> (#[trigger] self.left[k]).wf()
        &&& forall|k: int| 0 <= k < self.right.len() ==> (#[trigger] self.right[k]).wf()
    }

    /// Whether `after` is what one tick of `delta_ms` milliseconds makes of
    /// `before` while running: the clock advances once and both populations
    /// step with the same answer from it.
    pub open spec fn ticked(before: Simulation, after: Simulation, delta_ms: int) -> bool {
        let fired = fires(before.clock.elapsed_ms as int, delta_ms);
        let st = before.settings;
        &&& after.settings == st
        &&& after.clock.elapsed_ms == elapsed_after(before.clock.elapsed_ms as int, delta_ms)
        &&& forall|p: Population| is_step(
            #[trigger] before.agents_spec(p),
            after.agents_spec(p),
            st.environment_spec(),
            st.tolerance_radius as int,
            st.breeding_spec(p),
            st.max_population as int,
            delta_ms,
            fired,
        )
    }

    /// Each population starts as one white agent at the origin, under
    /// `settings`.
    pub fn new(settings: Settings) -> (r: Simulation)
        ensures
            r.wf(),
            r.settings == settings,
            r.clock.elapsed_ms == 0,
            r.left@ == seq![Agent::seed_spec()],
            r.right@ == seq![Agent::seed_spec()],
    {
        Simulation {
            settings,
            clock: TickClock::new(),
            left: vec![Agent::seed()],
            right: vec![Agent::seed()],
        }
    }

    /// Advances the simulation by `delta_ms` milliseconds. While paused
    /// nothing changes, the clock included.
    pub fn tick(&mut self, delta_ms: u64)
        requires
            old(self).wf(),
        ensures
            final(self).wf(),
            !old(self).settings.running ==> *final(self) == *old(self),
            old(self).settings.running ==> Simulation::ticked(*old(self), *final(self), delta_ms as int),
            old(self).settings.running ==> forall|p: Population|
                (#[trigger] final(self).agents_spec(p)).len() <= final(self).settings.max_population,
            old(self).settings.running ==> forall|p: Population, i: int|
                0 <= i < final(self).agents_spec(p).len() && !is_newborn(
                    i,
                    old(self).agents_spec(p),
                    old(self).settings.environment_spec(),
                    old(self).settings.tolerance_radius as int,
                    delta_ms as int,
                    old(self).settings.max_population as int,
                    old(self).settings.breeding_spec(p).reproduction_rate as int,
                    fires(old(self).clock.elapsed_ms as int, delta_ms as int),
                ) ==> within_radius(
                    (#[trigger] final(self).agents_spec(p)[i]).temperature as int,
                    final(self).agents_spec(p)[i].oxygen as int,
                    final(self).settings.tolerance_radius as int,
                ),
            forall|p: Population| old(self).settings.running && #[trigger] final(self).settings.breeding_spec(p).mutation_spread == 0
                ==> all_within(final(self).agents_spec(p), final(self).settings.tolerance_radius as int),
    {
        if !self.settings.running {
            return;
        }
        let fired = self.clock.advance(delta_ms);
        let env = self.settings.environment();
        let radius = self.settings.tolerance_radius;
        let max = self.settings.max_population;
        step_population(&mut self.left, &env, radius, &self.settings.left, max, delta_ms, fired);
        step_population(&mut self.right, &env, radius, &self.settings.right, max, delta_ms, fired);
    }

    /// Number of live agents of population `p`.
    pub fn population_count(&self, p: Population) -> (r: usize)
        ensures
            r == self.agents_spec(p).len(),
    {
        match p {
            Population::Left => self.left.len(),
            Population::Right => self.right.len(),
        }
    }

    /// The live agents of population `p`, for display.
    pub fn agents(&self, p: Population) -> (r: &Vec<Agent>)
        ensures
            r@ == self.agents_spec(p),
    {
        match p {
            Population::Left => &self.left,
            Population::Right => &self.right,
        }
    }
    /// Whether `after` differs from `before` in its settings alone.
    pub open spec fn only_settings_changed(before: Simulation, after: Simulation) -> bool {
        &&& after.clock == before.clock
        &&& after.left@ == before.left@
        &&& after.right@ == before.right@
    }

    pub fn set_temperature(&mut self, v: i32)
        ensures
            final(self).settings == (Settings { temperature: v, ..old(self).settings }),
            Simulation::only_settings_changed(*old(self), *final(self)),
    {
        self.settings.temperature = v;
    }

    pub fn set_oxygen(&mut self, v: i32)
        ensures
            final(self).settings == (Settings { oxygen: v, ..old(self).settings }),
            Simulation::only_settings_changed(*old(self), *final(self)),
    {
        self.settings.oxygen = v;
    }

    pub fn set_tolerance_radius(&mut self, v: u32)
        ensures
            final(self).settings == (Settings { tolerance_radius: v, ..old(self).settings }),
            Simulation::only_settings_changed(*old(self), *final(self)),
    {
        self.settings.tolerance_radius = v;
    }

    pub fn set_max_population(&mut self, v: u32)
        ensures
            final(self).settings == (Settings { max_population: v, ..old(self).settings }),
            Simulation::only_settings_changed(*old(self), *final(self)),
    {
        self.settings.max_population = v;
    }

    pub fn set_running(&mut self, v: bool)
        ensures
            final(self).settings == (Settings { running: v, ..old(self).settings }),
            Simulation::only_settings_changed(*old(self), *final(self)),
    {
        self.settings.running = v;
    }

    pub fn set_reproduction_rate(&mut self, p: Population, v: u32)
        ensures
            final(self).settings.breeding_spec(p).reproduction_rate == v,
            final(self).settings.breeding_spec(p).mutation_spread
                == old(self).settings.breeding_spec(p).mutation_spread,
            forall|o: Population| o != p ==> #[trigger] final(self).settings.breeding_spec(o)
                == old(self).settings.breeding_spec(o),
            final(self).settings.environment_spec() == old(self).settings.environment_spec(),
            final(self).settings.tolerance_radius == old(self).settings.tolerance_radius,
            final(self).settings.max_population == old(self).settings.max_population,
            final(self).settings.running == old(self).settings.running,
            Simulation::only_settings_changed(*old(self), *final(self)),
    {
        match p {
            Population::Left => self.settings.left.reproduction_rate = v,
            Population::Right => self.settings.right.reproduction_rate = v,
        }
    }

    pub fn set_mutation_spread(&mut self, p: Population, v: u32)
        ensures
            final(self).settings.breeding_spec(p).mutation_spread == v,
            final(self).settings.breeding_spec(p).reproduction_rate
                == old(self).settings.breeding_spec(p).reproduction_rate,
            forall|o: Population| o != p ==> #[trigger] final(self).settings.breeding_spec(o)
                == old(self).settings.breeding_spec(o),
            final(self).settings.environment_spec() == old(self).settings.environment_spec(),
            final(self).settings.tolerance_radius == old(self).settings.tolerance_radius,
            final(self).settings.max_population == old(self).settings.max_population,
            final(self).settings.running == old(self).settings.running,
            Simulation::only_settings_changed(*old(self), *final(self)),
    {
        match p {
            Population::Left => self.settings.left.mutation_spread = v,
            Population::Right => self.settings.right.mutation_spread = v,
        }
    }
}

} // verus!
