use vstd::prelude::*;

verus! {

/// Agent coordinates are held in thousandths of a unit, so that drift over a
/// fraction of a second is not lost.
pub const STATE_SCALE: i64 = 1000;

/// Bound on each coordinate of a stored agent, in thousandths of a unit.
/// Survivors lie within the tolerance radius (at most `u32::MAX` units) and an
/// offspring adds at most `u32::MAX` units of mutation on each axis.
pub const STATE_LIMIT: i64 = 8_796_093_022_208;

/// Largest value of a color channel, in thousandths.
pub const CHANNEL_MAX: i64 = 1000;

/// Largest change of a color channel at one birth, in thousandths.
pub const COLOR_JITTER: i64 = 50;

/// An inherited color, each channel in thousandths of full intensity.
#[derive(Clone, Copy, Debug, PartialEq, Eq, Structural)]
pub struct Color {
    pub r: u16,
    pub g: u16,
    pub b: u16,
}

/// One individual: its temperature and oxygen coordinates (in thousandths of
/// a unit) and its color.
#[derive(Clone, Copy, Debug, PartialEq, Eq, Structural)]
pub struct Agent {
    pub temperature: i64,
    pub oxygen: i64,
    pub color: Color,
}

pub open spec fn abs(x: int) -> int {
    if x < 0 { -x } else { x }
}

pub open spec fn clamp_channel(x: int) -> int {
    if x < 0 { 0 } else if x > CHANNEL_MAX { CHANNEL_MAX as int } else { x }
}

/// The environment that moves agents: the global temperature and oxygen level,
/// in whole units.
#[derive(Clone, Copy, Debug)]
pub struct Environment {
    pub temperature: i32,
    pub oxygen: i32,
}

/// Change of a coordinate that moves at `rate` thousandths per second for
/// `delta_ms` milliseconds, rounded down to a whole thousandth.
pub open spec fn drift_amount(rate: int, delta_ms: int) -> int {
    (rate * delta_ms) / 1000
}

/// Temperature coordinate after drift: it moves at the difference between the
/// agent's own temperature and the environment's.
pub open spec fn drift_temperature(t: int, env_temperature: int, delta_ms: int) -> int {
    t + drift_amount(t - STATE_SCALE * env_temperature, delta_ms)
}

/// Oxygen coordinate after drift: it moves at the sum of the agent's own
/// oxygen and the environment's.
pub open spec fn drift_oxygen(o: int, env_oxygen: int, delta_ms: int) -> int {
    o + drift_amount(o + STATE_SCALE * env_oxygen, delta_ms)
}

/// Whether a point lies within `radius` whole units of the origin.
pub open spec fn within_radius(t: int, o: int, radius: int) -> bool {
    t * t + o * o <= (STATE_SCALE * radius) * (STATE_SCALE * radius)
}

/// Whether `child` may be a child of `parent` under mutation spread `spread`:
/// each coordinate moved by a whole number of units, at most `spread`, and
/// each color channel moved by at most the jitter and stayed in range.
pub open spec fn is_offspring_of(child: Agent, parent: Agent, spread: int) -> bool {
    &&& (child.temperature - parent.temperature) % (STATE_SCALE as int) == 0
    &&& abs(child.temperature - parent.temperature) <= STATE_SCALE * spread
    &&& (child.oxygen - parent.oxygen) % (STATE_SCALE as int) == 0
    &&& abs(child.oxygen - parent.oxygen) <= STATE_SCALE * spread
    &&& channel_inherited(child.color.r as int, parent.color.r as int)
    &&& channel_inherited(child.color.g as int, parent.color.g as int)
    &&& channel_inherited(child.color.b as int, parent.color.b as int)
}

pub open spec fn channel_inherited(c: int, p: int) -> bool {
    0 <= c <= CHANNEL_MAX && abs(c - p) <= COLOR_JITTER
}

impl Color {
    pub open spec fn wf(&self) -> bool {
        self.r <= CHANNEL_MAX && self.g <= CHANNEL_MAX && self.b <= CHANNEL_MAX
    }

    /// Full intensity on every channel.
    pub fn white() -> (r: Color)
        ensures
            r.wf(),
            r.r == CHANNEL_MAX && r.g == CHANNEL_MAX && r.b == CHANNEL_MAX,
    {
        Color { r: 1000, g: 1000, b: 1000 }
    }
}

impl Agent {
    pub open spec fn wf(&self) -> bool {
        &&& abs(self.temperature as int) <= STATE_LIMIT
        &&& abs(self.oxygen as int) <= STATE_LIMIT
        &&& self.color.wf()
    }

    pub open spec fn seed_spec() -> Agent {
        Agent { temperature: 0, oxygen: 0, color: Color { r: 1000, g: 1000, b: 1000 } }
    }

    /// A white agent at the origin, as each population starts.
    pub fn seed() -> (r: Agent)
        ensures
            r.wf(),
            r == Agent::seed_spec(),
    {
        Agent { temperature: 0, oxygen: 0, color: Color::white() }
    }
}

/// A color channel moved by `delta` thousandths and kept within range.
pub fn jitter_channel(c: u16, delta: i64) -> (r: u16)
    requires
        c <= CHANNEL_MAX,
        abs(delta as int) <= COLOR_JITTER,
    ensures
        r == clamp_channel(c + delta),
{
    let x: i64 = c as i64 + delta;
    if x < 0 {
        0
    } else if x > CHANNEL_MAX {
        1000
    } else {
        x as u16
    }
}

/// The child of `parent` for the given draws: `dt` and `dox` whole units of
/// mutation on the two axes, and `dr`, `dg`, `db` thousandths of change on
/// the color channels, each channel clamped to its range.
pub fn offspring(parent: &Agent, dt: i64, dox: i64, dr: i64, dg: i64, db: i64) -> (r: Agent)
    requires
        parent.wf(),
        abs(parent.temperature + STATE_SCALE * dt) <= STATE_LIMIT,
        abs(parent.oxygen + STATE_SCALE * dox) <= STATE_LIMIT,
        abs(dr as int) <= COLOR_JITTER,
        abs(dg as int) <= COLOR_JITTER,
        abs(db as int) <= COLOR_JITTER,
    ensures
        r.wf(),
        r.temperature == parent.temperature + STATE_SCALE * dt,
        r.oxygen == parent.oxygen + STATE_SCALE * dox,
        r.color.r == clamp_channel(parent.color.r + dr),
        r.color.g == clamp_channel(parent.color.g + dg),
        r.color.b == clamp_channel(parent.color.b + db),
{
    Agent {
        temperature: parent.temperature + STATE_SCALE * dt,
        oxygen: parent.oxygen + STATE_SCALE * dox,
        color: Color {
            r: jitter_channel(parent.color.r, dr),
            g: jitter_channel(parent.color.g, dg),
            b: jitter_channel(parent.color.b, db),
        },
    }
}

/// `x / 1000` rounded down.
fn floor_div_scale(x: i128) -> (r: i128)
    requires
        -0x1_0000_0000_0000_0000_0000_0000_0000 <= x <= 0x1_0000_0000_0000_0000_0000_0000_0000,
    ensures
        r == x / 1000,
{
    if x >= 0 {
        x / 1000
    } else {
        let q: i128 = (-x + 999) / 1000;
        proof {
            let xi = x as int;
            let qi = q as int;
            assert(qi == (-xi + 999) / 1000);
            vstd::arithmetic::div_mod::lemma_fundamental_div_mod(-xi + 999, 1000);
            vstd::arithmetic::div_mod::lemma_fundamental_div_mod(xi, 1000);
            vstd::arithmetic::div_mod::lemma_mod_bound(-xi + 999, 1000);
            vstd::arithmetic::div_mod::lemma_mod_bound(xi, 1000);
            vstd::arithmetic::div_mod::lemma_fundamental_div_mod_converse(xi, 1000, -qi, xi + 1000 * qi);
        }
        -q
    }
}

/// Whether `(t, o)` lies within `radius` whole units of the origin, for
/// coordinates already known to fit the arithmetic.
fn is_within(t: i128, o: i128, radius: u32) -> (r: bool)
    requires
        abs(t as int) <= 0x1_0000_0000_0000_0000_0000_0000_0000,
        abs(o as int) <= 0x1_0000_0000_0000_0000_0000_0000_0000,
    ensures
        r == within_radius(t as int, o as int, radius as int),
{
    let lim: i128 = 1000 * radius as i128;
    if t > lim || t < -lim || o > lim || o < -lim {
        proof {
            let (ti, oi, li) = (t as int, o as int, lim as int);
            assert(ti * ti >= 0 && oi * oi >= 0) by (nonlinear_arith);
            if abs(ti) > li {
                assert(abs(ti) * abs(ti) > li * li) by (nonlinear_arith)
                    requires abs(ti) > li, li >= 0;
                assert(ti * ti == abs(ti) * abs(ti)) by (nonlinear_arith);
            } else {
                assert(abs(oi) * abs(oi) > li * li) by (nonlinear_arith)
                    requires abs(oi) > li, li >= 0;
                assert(oi * oi == abs(oi) * abs(oi)) by (nonlinear_arith);
            }
        }
        false
    } else {
        proof {
            let (ti, oi, li) = (t as int, o as int, lim as int);
            assert(ti * ti <= li * li) by (nonlinear_arith)
                requires -li <= ti <= li;
            assert(oi * oi <= li * li) by (nonlinear_arith)
                requires -li <= oi <= li;
            assert(li * li <= 0x1_0000_0000_0000_0000_0000_0000) by (nonlinear_arith)
                requires 0 <= li <= 1000 * 0xffff_ffff;
            assert(ti * ti <= 0x1_0000_0000_0000_0000_0000_0000);
            assert(oi * oi <= 0x1_0000_0000_0000_0000_0000_0000);
            assert(ti * ti >= 0 && oi * oi >= 0) by (nonlinear_arith);
        }
        let tt: i128 = t * t;
        let oo: i128 = o * o;
        tt + oo <= lim * lim
    }
}

/// An agent after drifting for `delta_ms` milliseconds in `env`, or `None`
/// where it ends up beyond `radius` units from the origin.
pub fn drift(a: &Agent, env: &Environment, radius: u32, delta_ms: u64) -> (r: Option<Agent>)
    requires
        a.wf(),
    ensures
        ({
            let t = drift_temperature(a.temperature as int, env.temperature as int, delta_ms as int);
            let o = drift_oxygen(a.oxygen as int, env.oxygen as int, delta_ms as int);
            match r {
                Some(b) => within_radius(t, o, radius as int) && b.temperature == t
                    && b.oxygen == o && b.color == a.color && b.wf()
                    && abs(t) <= STATE_SCALE * radius && abs(o) <= STATE_SCALE * radius,
                None => !within_radius(t, o, radius as int),
            }
        }),
{
    let rate_t: i128 = a.temperature as i128 - 1000 * env.temperature as i128;
    let rate_o: i128 = a.oxygen as i128 + 1000 * env.oxygen as i128;
    let dt: i128 = delta_ms as i128;
    proof {
        assert(abs(rate_t as int) * dt <= 0x1_0000_0000_0000 * 0x1_0000_0000_0000_0000) by (nonlinear_arith)
            requires abs(rate_t as int) <= 0x1_0000_0000_0000, 0 <= dt <= 0x1_0000_0000_0000_0000;
        assert(abs(rate_o as int) * dt <= 0x1_0000_0000_0000 * 0x1_0000_0000_0000_0000) by (nonlinear_arith)
            requires abs(rate_o as int) <= 0x1_0000_0000_0000, 0 <= dt <= 0x1_0000_0000_0000_0000;
        assert(abs(rate_t * dt) == abs(rate_t as int) * dt) by (nonlinear_arith)
            requires dt >= 0;
        assert(abs(rate_o * dt) == abs(rate_o as int) * dt) by (nonlinear_arith)
            requires dt >= 0;
    }
    let t: i128 = a.temperature as i128 + floor_div_scale(rate_t * dt);
    let o: i128 = a.oxygen as i128 + floor_div_scale(rate_o * dt);
    if is_within(t, o, radius) {
        proof {
            let (ti, oi, li) = (t as int, o as int, STATE_SCALE * radius);
            assert(abs(ti) <= li && abs(oi) <= li) by (nonlinear_arith)
                requires ti * ti + oi * oi <= li * li, li >= 0;
        }
        Some(Agent { temperature: t as i64, oxygen: o as i64, color: a.color })
    } else {
        None
    }
}

} // verus!
