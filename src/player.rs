use vstd::prelude::*;
use crate::grid::TileGrid;
use crate::actor::{
    Actor, HALF_UNIT, ROUND_BIAS, moved_h, moved_v, grounded, free, steps, round_units, unit_dir,
    abs_nat, lemma_steps_path, law_move_h_clear, law_move_v_clear,
};

verus! {

/// Running speed, in thousandths of a world unit per second.
pub const RUN_SPEED: i64 = 200_000;

/// Downward acceleration, in thousandths of a world unit per second squared.
pub const GRAVITY: i64 = 2_000_000;

/// Upward speed given by a jump, in thousandths of a world unit per second.
pub const JUMP_SPEED: i64 = 700_000;

/// Largest speed along either axis, in thousandths of a world unit per
/// second, that a player can hold.
pub const MAX_SPEED: i64 = 1_000_000_000;

/// Longest tick, in microseconds.
pub const MAX_TICK: i64 = 10_000_000;

/// The keys held during a tick.
#[derive(Clone, Copy, Debug, PartialEq, Eq)]
pub struct Input {
    pub left: bool,
    pub right: bool,
    pub jump: bool,
    pub start: bool,
}

/// The player: its actor and its velocity, in thousandths of a world unit
/// per second (x grows to the right, y downwards).
#[derive(Clone, Copy, Debug, PartialEq, Eq)]
pub struct Player {
    pub actor: Actor,
    pub vx: i64,
    pub vy: i64,
}

/// Horizontal velocity for the keys held: one direction alone runs that
/// way, neither or both stand still.
pub open spec fn run_velocity(i: Input) -> int {
    if i.left && !i.right {
        -RUN_SPEED
    } else if i.right && !i.left {
        RUN_SPEED as int
    } else {
        0
    }
}

/// Speed that gravity adds over `dt` microseconds.
pub open spec fn gravity_gain(dt: int) -> int {
    GRAVITY * dt / 1_000_000
}

/// Vertical velocity for the tick: a jump from the ground, rest on the
/// ground, or gravity added in the air.
pub open spec fn fall_velocity(vy: int, on_ground: bool, jump: bool, dt: int) -> int {
    if on_ground && jump {
        -JUMP_SPEED
    } else if on_ground {
        0
    } else {
        vy + gravity_gain(dt)
    }
}

/// The player after one tick of `dt` microseconds with keys `i`: the new
/// velocity is chosen from the ground state at the start of the tick, then
/// the actor moves horizontally and then vertically.
pub open spec fn stepped(g: TileGrid, p: Player, i: Input, dt: int) -> Player {
    let vx = run_velocity(i);
    let vy = fall_velocity(p.vy as int, grounded(g, p.actor), i.jump, dt);
    let a1 = moved_h(g, p.actor, vx * dt);
    Player { actor: moved_v(g, a1, vy * dt), vx: vx as i64, vy: vy as i64 }
}

/// The speed that a tick of `dt` microseconds gives `p` on grid `g` stays
/// within the largest speed: a player in the air gains gravity's speed.
pub open spec fn fall_fits(g: TileGrid, p: Player, dt: int) -> bool {
    !grounded(g, p.actor) ==> p.vy + gravity_gain(dt) <= MAX_SPEED
}

impl Player {
    pub open spec fn wf(&self) -> bool {
        &&& self.actor.wf()
        &&& -MAX_SPEED <= self.vx <= MAX_SPEED
        &&& -MAX_SPEED <= self.vy <= MAX_SPEED
    }

    /// A player at rest with actor `actor`.
    pub fn new(actor: Actor) -> (r: Player)
        requires
            actor.wf(),
        ensures
            r.wf(),
            r == (Player { actor, vx: 0, vy: 0 }),
    {
        Player { actor, vx: 0, vy: 0 }
    }

    /// Whether a tick of `dt` microseconds on grid `g` keeps this player's
    /// speed within the largest speed.
    pub fn can_update(&self, g: &TileGrid, dt: i64) -> (r: bool)
        requires
            g.wf(),
            self.wf(),
            0 <= dt <= MAX_TICK,
        ensures
            r == fall_fits(*g, *self, dt as int),
    {
        if g.on_ground(&self.actor) {
            true
        } else {
            self.vy <= MAX_SPEED - GRAVITY / 1_000_000 * dt
        }
    }

    /// Advances the player by one tick of `dt` microseconds on grid `g`.
    pub fn update(&mut self, g: &TileGrid, input: Input, dt: i64)
        requires
            g.wf(),
            old(self).wf(),
            0 <= dt <= MAX_TICK,
            fall_fits(*g, *old(self), dt as int),
        ensures
            *final(self) == stepped(*g, *old(self), input, dt as int),
            final(self).wf(),
    {
        self.vx = if input.left && !input.right {
            -RUN_SPEED
        } else if input.right && !input.left {
            RUN_SPEED
        } else {
            0
        };
        let on_ground = g.on_ground(&self.actor);
        if on_ground {
            self.vy = 0;
        } else {
            let gain = GRAVITY / 1_000_000 * dt;
            proof {
                assert(gain == gravity_gain(dt as int));
            }
            self.vy = self.vy + gain;
        }
        if input.jump && on_ground {
            self.vy = -JUMP_SPEED;
        }
        proof {
            assert(-10_000_000_000_000_000 <= self.vx * dt <= 10_000_000_000_000_000) by (nonlinear_arith)
                requires
                    -MAX_SPEED <= self.vx <= MAX_SPEED,
                    0 <= dt <= MAX_TICK,
            ;
            assert(-10_000_000_000_000_000 <= self.vy * dt <= 10_000_000_000_000_000) by (nonlinear_arith)
                requires
                    -MAX_SPEED <= self.vy <= MAX_SPEED,
                    0 <= dt <= MAX_TICK,
            ;
        }
        g.move_h(&mut self.actor, self.vx * dt);
        g.move_v(&mut self.actor, self.vy * dt);
    }
}

/// A jump is decided on the ground state at the start of the tick: a
/// grounded player who presses jump leaves with the jump speed, and if that
/// lifts it by a unit or more from a place that was clear, it is no longer
/// grounded after the tick.
pub proof fn law_jump_leaves_ground(g: TileGrid, p: Player, i: Input, dt: int)
    requires
        g.wf(),
        p.wf(),
        0 <= dt <= MAX_TICK,
        grounded(g, p.actor),
        i.jump,
        !g.hits(p.actor.x as int, p.actor.y as int, p.actor.w as int, p.actor.h as int),
    ensures
        stepped(g, p, i, dt).vy == -JUMP_SPEED,
        stepped(g, p, i, dt).actor.y < p.actor.y ==> !grounded(g, stepped(g, p, i, dt).actor),
{
    let q = stepped(g, p, i, dt);
    let a = p.actor;
    let vx = run_velocity(i);
    let mh = round_units(a.rem_x + vx * dt);
    lemma_steps_path(g, a.x as int, a.y as int, a.w as int, a.h as int, unit_dir(mh), 0, abs_nat(mh));
    let kh = steps(g, a.x as int, a.y as int, a.w as int, a.h as int, unit_dir(mh), 0, abs_nat(mh));
    let a1 = moved_h(g, a, vx * dt);
    assert(free(g, a1.x as int, a1.y as int, a1.w as int, a1.h as int)) by {
        if kh >= 1 {
            assert(free(g, a.x + unit_dir(mh) * kh, a.y + 0 * kh, a.w as int, a.h as int));
        } else {
            assert(a1.x == a.x);
        }
    }
    let vy = -JUMP_SPEED;
    let mv = round_units(a1.rem_y + vy * dt);
    lemma_steps_path(g, a1.x as int, a1.y as int, a1.w as int, a1.h as int, 0, unit_dir(mv), abs_nat(mv));
    let kv = steps(g, a1.x as int, a1.y as int, a1.w as int, a1.h as int, 0, unit_dir(mv), abs_nat(mv));
    if q.actor.y < p.actor.y {
        assert(unit_dir(mv) == -1);
        assert(kv >= 1);
        if kv >= 2 {
            let j = kv - 1;
            assert(free(g, a1.x + 0 * j, a1.y + unit_dir(mv) * j, a1.w as int, a1.h as int));
        }
    }
}

/// A tick of zero length moves no player, whatever its keys and speed.
pub proof fn law_zero_tick_keeps_place(g: TileGrid, p: Player, i: Input)
    requires
        g.wf(),
        p.wf(),
    ensures
        stepped(g, p, i, 0).actor.x == p.actor.x,
        stepped(g, p, i, 0).actor.y == p.actor.y,
{
    lemma_round_small(p.actor.rem_x as int);
    lemma_round_small(p.actor.rem_y as int);
    let vx = run_velocity(i);
    assert(vx * 0 == 0);
    let vy = fall_velocity(p.vy as int, grounded(g, p.actor), i.jump, 0);
    assert(vy * 0 == 0);
}

proof fn lemma_round_small(t: int)
    requires
        -HALF_UNIT <= t <= HALF_UNIT,
    ensures
        round_units(t) == 0,
{
    if t >= 0 {
        vstd::arithmetic::div_mod::lemma_basic_div(t + ROUND_BIAS, 1_000_000_000);
    } else {
        vstd::arithmetic::div_mod::lemma_basic_div(-t + ROUND_BIAS, 1_000_000_000);
    }
}

/// In the air, gravity adds to the speed the player already has: after a
/// jump it accumulates from the jump speed, whether or not jump is held.
pub proof fn law_gravity_accumulates(g: TileGrid, p: Player, i: Input, dt: int)
    requires
        p.wf(),
        0 <= dt <= MAX_TICK,
        fall_fits(g, p, dt),
        !grounded(g, p.actor),
    ensures
        stepped(g, p, i, dt).vy == p.vy + gravity_gain(dt),
        stepped(g, p, i, dt).vx == run_velocity(i),
{
}

/// A player that starts clear of every blocking cell ends the tick clear of
/// them, however far its speed would carry it, and passes through none on
/// either axis.
pub proof fn law_tick_stays_clear(g: TileGrid, p: Player, i: Input, dt: int)
    requires
        g.wf(),
        p.wf(),
        !g.hits(p.actor.x as int, p.actor.y as int, p.actor.w as int, p.actor.h as int),
    ensures
        !g.hits(
            stepped(g, p, i, dt).actor.x as int,
            stepped(g, p, i, dt).actor.y as int,
            p.actor.w as int,
            p.actor.h as int,
        ),
        forall|x: int|
            (p.actor.x < x <= stepped(g, p, i, dt).actor.x || stepped(g, p, i, dt).actor.x <= x
                < p.actor.x) ==> !#[trigger] g.hits(x, p.actor.y as int, p.actor.w as int, p.actor.h as int),
        forall|y: int|
            (p.actor.y < y <= stepped(g, p, i, dt).actor.y || stepped(g, p, i, dt).actor.y <= y
                < p.actor.y) ==> !#[trigger] g.hits(
                stepped(g, p, i, dt).actor.x as int,
                y,
                p.actor.w as int,
                p.actor.h as int,
            ),
{
    let vx = run_velocity(i);
    let vy = fall_velocity(p.vy as int, grounded(g, p.actor), i.jump, dt);
    law_move_h_clear(g, p.actor, vx * dt);
    let a1 = moved_h(g, p.actor, vx * dt);
    law_move_v_clear(g, a1, vy * dt);
}

} // verus!
