use rand::Rng;
use vstd::prelude::*;
use crate::agent::{
    abs, drift, drift_oxygen, drift_temperature, is_offspring_of, offspring, within_radius,
    Agent, Environment, COLOR_JITTER, STATE_SCALE,
};

verus! {

/// Largest coordinate, in thousandths of a unit, of an agent that lies within
/// a tolerance radius that a `u32` can hold.
pub const RADIUS_LIMIT: i64 = 4_294_967_295_000;

/// Relies on rand's `thread_rng().gen_range(lo..=hi)`, which returns a value
/// of the closed range and panics only where the range is empty.
#[verifier::external_body]
fn draw_between(lo: i64, hi: i64) -> (r: i64)
    requires
        lo <= hi,
    ensures
        lo <= r <= hi,
{
    rand::thread_rng().gen_range(lo..=hi)
}

/// An agent after drift, with its coordinates as the drift rule gives them.
pub open spec fn drifted(a: Agent, env: Environment, delta_ms: int) -> Agent {
    Agent {
        temperature: drift_temperature(a.temperature as int, env.temperature as int, delta_ms) as i64,
        oxygen: drift_oxygen(a.oxygen as int, env.oxygen as int, delta_ms) as i64,
        color: a.color,
    }
}

/// Whether an agent is still within `radius` after drift.
pub open spec fn survives(a: Agent, env: Environment, radius: int, delta_ms: int) -> bool {
    within_radius(
        drift_temperature(a.temperature as int, env.temperature as int, delta_ms),
        drift_oxygen(a.oxygen as int, env.oxygen as int, delta_ms),
        radius,
    )
}

/// The agents of `s`, in order, after drift, without those that drifted
/// beyond `radius`.
pub open spec fn survivors_of(s: Seq<Agent>, env: Environment, radius: int, delta_ms: int) -> Seq<Agent>
    decreases s.len(),
{
    if s.len() == 0 {
        Seq::empty()
    } else {
        let rest = survivors_of(s.drop_last(), env, radius, delta_ms);
        if survives(s.last(), env, radius, delta_ms) {
            rest.push(drifted(s.last(), env, delta_ms))
        } else {
            rest
        }
    }
}

/// The last `max` agents of `s`, or all of them where there are no more.
pub open spec fn newest(s: Seq<Agent>, max: int) -> Seq<Agent> {
    if s.len() > max {
        s.subrange(s.len() - max, s.len() as int)
    } else {
        s
    }
}

/// Whether an agent lies in the square that any agent within a `u32` radius
/// lies in.
pub open spec fn in_radius_box(a: Agent) -> bool {
    abs(a.temperature as int) <= RADIUS_LIMIT && abs(a.oxygen as int) <= RADIUS_LIMIT
}

/// Drifts each agent for `delta_ms` milliseconds and keeps, in order, those
/// that stay within `radius` units of the origin.
pub fn survivors(agents: &Vec<Agent>, env: &Environment, radius: u32, delta_ms: u64) -> (r: Vec<Agent>)
    requires
        forall|k: int| 0 <= k < agents.len() ==> (#[trigger] agents[k]).wf(),
    ensures
        r@ == survivors_of(agents@, *env, radius as int, delta_ms as int),
        forall|k: int| 0 <= k < r.len() ==> (#[trigger] r[k]).wf() && in_radius_box(r[k])
            && within_radius(r[k].temperature as int, r[k].oxygen as int, radius as int),
{
    let mut r: Vec<Agent> = Vec::new();
    let mut i: usize = 0;
    while i < agents.len()
        invariant
            i <= agents.len(),
            forall|k: int| 0 <= k < agents.len() ==> (#[trigger] agents[k]).wf(),
            r@ == survivors_of(agents@.subrange(0, i as int), *env, radius as int, delta_ms as int),
            forall|k: int| 0 <= k < r.len() ==> (#[trigger] r[k]).wf() && in_radius_box(r[k])
                && within_radius(r[k].temperature as int, r[k].oxygen as int, radius as int),
        decreases agents.len() - i,
    {
        let ghost prefix = agents@.subrange(0, i as int + 1);
        assert(prefix.drop_last() == agents@.subrange(0, i as int));
        assert(prefix.last() == agents[i as int]);
        match drift(&agents[i], env, radius, delta_ms) {
            Some(b) => {
                assert(b == drifted(agents[i as int], *env, delta_ms as int));
                r.push(b);
            },
            None => {},
        }
        i += 1;
    }
    assert(agents@.subrange(0, agents.len() as int) == agents@);
    r
}

/// For each parent in turn, `rate` children, each with its coordinates moved
/// by a whole number of units drawn from `-spread..=spread` on each axis and
/// its color channels moved by a drawn jitter.
pub fn breed(parents: &Vec<Agent>, rate: u32, spread: u32) -> (r: Vec<Agent>)
    requires
        forall|k: int| 0 <= k < parents.len() ==> (#[trigger] parents[k]).wf() && in_radius_box(parents[k]),
    ensures
        r.len() == parents.len() * rate,
        forall|k: int| 0 <= k < r.len() ==> (#[trigger] r[k]).wf()
            && is_offspring_of(r[k], parents[k / rate as int], spread as int),
        spread == 0 ==> forall|k: int| 0 <= k < r.len() ==>
            (#[trigger] r[k]).temperature == parents[k / rate as int].temperature
            && r[k].oxygen == parents[k / rate as int].oxygen,
{
    let mut r: Vec<Agent> = Vec::new();
    let mut i: usize = 0;
    let s: i64 = spread as i64;
    while i < parents.len()
        invariant
            i <= parents.len(),
            s == spread,
            forall|k: int| 0 <= k < parents.len() ==> (#[trigger] parents[k]).wf() && in_radius_box(parents[k]),
            r.len() == i * rate,
            forall|k: int| 0 <= k < r.len() ==> (#[trigger] r[k]).wf()
                && is_offspring_of(r[k], parents[k / rate as int], spread as int),
        decreases parents.len() - i,
    {
        let mut j: u32 = 0;
        while j < rate
            invariant
                i < parents.len(),
                j <= rate,
                s == spread,
                parents[i as int].wf() && in_radius_box(parents[i as int]),
                r.len() == i * rate + j,
                forall|k: int| 0 <= k < r.len() ==> (#[trigger] r[k]).wf()
                    && is_offspring_of(r[k], parents[k / rate as int], spread as int),
            decreases rate - j,
        {
            let dt = draw_between(-s, s);
            let dox = draw_between(-s, s);
            let dr = draw_between(-COLOR_JITTER, COLOR_JITTER);
            let dg = draw_between(-COLOR_JITTER, COLOR_JITTER);
            let db = draw_between(-COLOR_JITTER, COLOR_JITTER);
            let child = offspring(&parents[i], dt, dox, dr, dg, db);
            proof {
                vstd::arithmetic::div_mod::lemma_fundamental_div_mod_converse(
                    (i * rate + j) as int, rate as int, i as int, j as int);
                vstd::arithmetic::div_mod::lemma_mod_multiples_basic(dt as int, STATE_SCALE as int);
                vstd::arithmetic::div_mod::lemma_mod_multiples_basic(dox as int, STATE_SCALE as int);
                assert(dt * STATE_SCALE == STATE_SCALE * dt);
                assert(dox * STATE_SCALE == STATE_SCALE * dox);
            }
            r.push(child);
            j += 1;
        }
        proof {
            vstd::arithmetic::mul::lemma_mul_is_distributive_add_other_way(rate as int, i as int, 1);
        }
        i += 1;
    }
    if spread == 0 {
        assert forall|k: int| 0 <= k < r.len() implies
            (#[trigger] r[k]).temperature == parents[k / rate as int].temperature
            && r[k].oxygen == parents[k / rate as int].oxygen by {
            assert(is_offspring_of(r[k], parents[k / rate as int], 0));
        }
    }
    r
}

/// The last `max` agents of `pool`, in order: where there are too many, the
/// oldest go first.
pub fn keep_newest(pool: Vec<Agent>, max: usize) -> (r: Vec<Agent>)
    ensures
        r@ == newest(pool@, max as int),
{
    if pool.len() <= max {
        return pool;
    }
    let start: usize = pool.len() - max;
    let mut r: Vec<Agent> = Vec::new();
    let mut i: usize = start;
    while i < pool.len()
        invariant
            start <= i <= pool.len(),
            start == pool.len() - max,
            r@ == pool@.subrange(start as int, i as int),
        decreases pool.len() - i,
    {
        r.push(pool[i]);
        i += 1;
    }
    r
}

/// The breeding parameters of one population.
#[derive(Clone, Copy, Debug)]
pub struct Breeding {
    /// Children of each surviving parent each time the clock fires.
    pub reproduction_rate: u32,
    /// Largest mutation, in whole units, on each axis of a child.
    pub mutation_spread: u32,
}

/// Number of agents born in a step from `n` parents.
pub open spec fn born(n: int, rate: int, fired: bool) -> int {
    if fired { n * rate } else { 0 }
}

/// Number of agents that the cap removes from a pool of `n`.
pub open spec fn excess(n: int, max: int) -> int {
    if n > max { n - max } else { 0 }
}

/// Whether position `i` of the population after a step from `agents` holds
/// an agent born in that step.
pub open spec fn is_newborn(
    i: int,
    agents: Seq<Agent>,
    env: Environment,
    radius: int,
    delta_ms: int,
    max: int,
    rate: int,
    fired: bool,
) -> bool {
    let s = survivors_of(agents, env, radius, delta_ms);
    i + excess(s.len() + born(s.len() as int, rate, fired), max) >= s.len()
}

/// With a mutation spread of zero, a child sits exactly where its parent was
/// when it reproduced.
pub proof fn lemma_zero_spread_clones(child: Agent, parent: Agent)
    requires
        is_offspring_of(child, parent, 0),
    ensures
        child.temperature == parent.temperature,
        child.oxygen == parent.oxygen,
{
}

/// Whether `after` is what one step may make of `before`: the survivors of
/// drift, in order, followed where the clock fired by `rate` children of each
/// survivor in turn, of which the oldest are removed beyond `max`. Every
/// agent of `after` is well formed.
pub open spec fn is_step(
    before: Seq<Agent>,
    after: Seq<Agent>,
    env: Environment,
    radius: int,
    breeding: Breeding,
    max: int,
    delta_ms: int,
    fired: bool,
) -> bool {
    let s = survivors_of(before, env, radius, delta_ms);
    let rate = breeding.reproduction_rate as int;
    let n = s.len() + born(s.len() as int, rate, fired);
    let x = excess(n, max);
    &&& after.len() == n - x
    &&& forall|i: int| 0 <= i < after.len() ==> {
        &&& (#[trigger] after[i]).wf()
        &&& i + x < s.len() ==> after[i] == s[i + x]
        &&& i + x >= s.len() ==> is_offspring_of(after[i], s[(i + x - s.len()) / rate], breeding.mutation_spread as int)
    }
}

/// Whether every agent of `s` lies within `radius` units of the origin.
pub open spec fn all_within(s: Seq<Agent>, radius: int) -> bool {
    forall|i: int| 0 <= i < s.len() ==> within_radius(
        (#[trigger] s[i]).temperature as int,
        s[i].oxygen as int,
        radius,
    )
}

/// One step of a population: every agent drifts for `delta_ms` milliseconds
/// and those beyond `radius` are removed; where the clock `fired`, each
/// survivor then gets `breeding.reproduction_rate` children, placed after all
/// survivors; last, the oldest agents are removed until at most `max` remain.
pub fn step_population(
    agents: &mut Vec<Agent>,
    env: &Environment,
    radius: u32,
    breeding: &Breeding,
    max: u32,
    delta_ms: u64,
    fired: bool,
)
    requires
        forall|k: int| 0 <= k < old(agents).len() ==> (#[trigger] old(agents)[k]).wf(),
    ensures
        is_step(
            old(agents)@,
            final(agents)@,
            *env,
            radius as int,
            *breeding,
            max as int,
            delta_ms as int,
            fired,
        ),
        final(agents).len() <= max,
        forall|i: int| 0 <= i < final(agents).len() && !is_newborn(
            i,
            old(agents)@,
            *env,
            radius as int,
            delta_ms as int,
            max as int,
            breeding.reproduction_rate as int,
            fired,
        ) ==> within_radius(
            (#[trigger] final(agents)[i]).temperature as int,
            final(agents)[i].oxygen as int,
            radius as int,
        ),
        breeding.mutation_spread == 0 ==> all_within(final(agents)@, radius as int),
{
    let s = survivors(agents, env, radius, delta_ms);
    let ghost sv = s@;
    let ghost mut kv: Seq<Agent> = Seq::empty();
    let mut pool = s;
    if fired {
        let mut kids = breed(&pool, breeding.reproduction_rate, breeding.mutation_spread);
        proof {
            kv = kids@;
        }
        pool.append(&mut kids);
    }
    *agents = keep_newest(pool, max as usize);
    proof {
        let rate = breeding.reproduction_rate as int;
        let x = excess(sv.len() + born(sv.len() as int, rate, fired), max as int);
        if breeding.mutation_spread == 0 {
            assert forall|i: int| 0 <= i < agents.len() implies within_radius(
                (#[trigger] agents[i]).temperature as int,
                agents[i].oxygen as int,
                radius as int,
            ) by {
                if i + x >= sv.len() {
                    let j = i + x - sv.len();
                    let p = j / rate;
                    assert(agents[i] == kv[j]);
                    assert(j < sv.len() * rate);
                    assert(0 <= p < sv.len()) by (nonlinear_arith)
                        requires 0 <= j < sv.len() * rate, p == j / rate, rate > 0;
                    assert(kv[j].temperature == sv[p].temperature && kv[j].oxygen == sv[p].oxygen);
                }
            }
        }
    }
}

} // verus!
