use vstd::prelude::*;
use crate::grid::{TileGrid, COORD_LIMIT, SIZE_LIMIT, rect_ok};

verus! {

/// Sub-units in one world unit: displacements and remainders are kept in these.
pub const SUBUNITS: i64 = 1_000_000_000;

/// Half a world unit, in sub-units.
pub const HALF_UNIT: i64 = 500_000_000;

/// What is added before a division rounds down, so that amounts of half a
/// unit or less round to zero.
pub const ROUND_BIAS: i64 = 499_999_999;

/// Largest displacement one move may ask for, in sub-units.
pub const MAX_DELTA: i64 = 10_000_000_000_000_000;

/// A rectangle that lies within the coordinate limits.
pub open spec fn in_limits(x: int, y: int, w: int, h: int) -> bool {
    -COORD_LIMIT <= x <= COORD_LIMIT && -COORD_LIMIT <= y <= COORD_LIMIT && 1 <= w <= SIZE_LIMIT
        && 1 <= h <= SIZE_LIMIT
}

/// A place where an actor may stand: within the limits, overlapping no
/// blocking cell.
pub open spec fn free(g: TileGrid, x: int, y: int, w: int, h: int) -> bool {
    in_limits(x, y, w, h) && !g.hits(x, y, w, h)
}

/// How many unit steps of direction `(dx, dy)`, out of at most `n`, an actor
/// at `(x, y)` takes before the next one would end in a place that is not free.
pub open spec fn steps(g: TileGrid, x: int, y: int, w: int, h: int, dx: int, dy: int, n: nat) -> nat
    decreases n,
{
    if n == 0 {
        0
    } else if !free(g, x + dx, y + dy, w, h) {
        0
    } else {
        1 + steps(g, x + dx, y + dy, w, h, dx, dy, (n - 1) as nat)
    }
}

/// A sub-unit amount rounded to the nearest whole units, halves toward zero.
pub open spec fn round_units(t: int) -> int {
    if t >= 0 {
        (t + ROUND_BIAS) / (SUBUNITS as int)
    } else {
        -((-t + ROUND_BIAS) / (SUBUNITS as int))
    }
}

pub open spec fn unit_dir(m: int) -> int {
    if m < 0 {
        -1
    } else {
        1
    }
}

pub open spec fn abs_nat(m: int) -> nat {
    if m < 0 {
        (-m) as nat
    } else {
        m as nat
    }
}

/// A movable rectangle: its top-left corner and size in world units, and the
/// part of earlier moves, in sub-units, that has not yet made a whole unit.
#[derive(Clone, Copy, Debug, PartialEq, Eq)]
pub struct Actor {
    pub x: i64,
    pub y: i64,
    pub w: i64,
    pub h: i64,
    pub rem_x: i64,
    pub rem_y: i64,
}

impl Actor {
    pub open spec fn wf(&self) -> bool {
        &&& in_limits(self.x as int, self.y as int, self.w as int, self.h as int)
        &&& -HALF_UNIT <= self.rem_x <= HALF_UNIT
        &&& -HALF_UNIT <= self.rem_y <= HALF_UNIT
    }

    /// An actor of size `w` by `h` at `(x, y)`, with nothing left over from
    /// earlier moves; `None` where the rectangle is outside the limits.
    pub fn new(x: i64, y: i64, w: i64, h: i64) -> (r: Option<Actor>)
        ensures
            r is Some <==> in_limits(x as int, y as int, w as int, h as int),
            r matches Some(a) ==> (a.wf() && a.x == x && a.y == y && a.w == w && a.h == h
                && a.rem_x == 0 && a.rem_y == 0),
    {
        if x < -COORD_LIMIT || x > COORD_LIMIT || y < -COORD_LIMIT || y > COORD_LIMIT || w < 1
            || w > SIZE_LIMIT || h < 1 || h > SIZE_LIMIT {
            None
        } else {
            Some(Actor { x, y, w, h, rem_x: 0, rem_y: 0 })
        }
    }
}

/// The actor after a horizontal move by `dx` sub-units.
pub open spec fn moved_h(g: TileGrid, a: Actor, dx: int) -> Actor {
    let t = a.rem_x + dx;
    let m = round_units(t);
    let k = steps(g, a.x as int, a.y as int, a.w as int, a.h as int, unit_dir(m), 0, abs_nat(m));
    Actor {
        x: (a.x + unit_dir(m) * k) as i64,
        y: a.y,
        w: a.w,
        h: a.h,
        rem_x: (t - m * SUBUNITS) as i64,
        rem_y: a.rem_y,
    }
}

/// The actor after a vertical move by `dy` sub-units.
pub open spec fn moved_v(g: TileGrid, a: Actor, dy: int) -> Actor {
    let t = a.rem_y + dy;
    let m = round_units(t);
    let k = steps(g, a.x as int, a.y as int, a.w as int, a.h as int, 0, unit_dir(m), abs_nat(m));
    Actor {
        x: a.x,
        y: (a.y + unit_dir(m) * k) as i64,
        w: a.w,
        h: a.h,
        rem_x: a.rem_x,
        rem_y: (t - m * SUBUNITS) as i64,
    }
}

/// Whether a horizontal move by `dx` covers all the whole units it asks for.
pub open spec fn full_h(g: TileGrid, a: Actor, dx: int) -> bool {
    let m = round_units(a.rem_x + dx);
    steps(g, a.x as int, a.y as int, a.w as int, a.h as int, unit_dir(m), 0, abs_nat(m))
        == abs_nat(m)
}

/// Whether a vertical move by `dy` covers all the whole units it asks for.
pub open spec fn full_v(g: TileGrid, a: Actor, dy: int) -> bool {
    let m = round_units(a.rem_y + dy);
    steps(g, a.x as int, a.y as int, a.w as int, a.h as int, 0, unit_dir(m), abs_nat(m))
        == abs_nat(m)
}

/// The actor stands on something: one unit lower it would overlap a blocking cell.
pub open spec fn grounded(g: TileGrid, a: Actor) -> bool {
    g.hits(a.x as int, a.y as int + 1, a.w as int, a.h as int)
}

proof fn lemma_round(t: int)
    ensures
        -HALF_UNIT <= t - round_units(t) * SUBUNITS <= HALF_UNIT,
        t >= 0 ==> round_units(t) >= 0,
        t < 0 ==> round_units(t) <= 0,
        -HALF_UNIT <= t <= HALF_UNIT ==> round_units(t) == 0,
{
    if t >= 0 {
        vstd::arithmetic::div_mod::lemma_fundamental_div_mod(t + ROUND_BIAS, SUBUNITS as int);
        vstd::arithmetic::div_mod::lemma_mod_bound(t + ROUND_BIAS, SUBUNITS as int);
        vstd::arithmetic::div_mod::lemma_div_pos_is_pos(t + ROUND_BIAS, SUBUNITS as int);
        if t <= HALF_UNIT {
            vstd::arithmetic::div_mod::lemma_basic_div(t + ROUND_BIAS, SUBUNITS as int);
        }
    } else {
        vstd::arithmetic::div_mod::lemma_fundamental_div_mod(-t + ROUND_BIAS, SUBUNITS as int);
        vstd::arithmetic::div_mod::lemma_mod_bound(-t + ROUND_BIAS, SUBUNITS as int);
        vstd::arithmetic::div_mod::lemma_div_pos_is_pos(-t + ROUND_BIAS, SUBUNITS as int);
        if -t <= HALF_UNIT {
            vstd::arithmetic::div_mod::lemma_basic_div(-t + ROUND_BIAS, SUBUNITS as int);
        }
    }
}

/// Every place that a run of steps passes through, or stops in, is free; and
/// where the run stops short, the next step would not be.
pub proof fn lemma_steps_path(g: TileGrid, x: int, y: int, w: int, h: int, dx: int, dy: int, n: nat)
    ensures
        steps(g, x, y, w, h, dx, dy, n) <= n,
        forall|i: int|
            1 <= i <= steps(g, x, y, w, h, dx, dy, n) ==> #[trigger] free(
                g,
                x + dx * i,
                y + dy * i,
                w,
                h,
            ),
        steps(g, x, y, w, h, dx, dy, n) < n ==> !free(
            g,
            x + dx * (steps(g, x, y, w, h, dx, dy, n) + 1),
            y + dy * (steps(g, x, y, w, h, dx, dy, n) + 1),
            w,
            h,
        ),
    decreases n,
{
    if n > 0 && free(g, x + dx, y + dy, w, h) {
        lemma_steps_path(g, x + dx, y + dy, w, h, dx, dy, (n - 1) as nat);
        let k = steps(g, x, y, w, h, dx, dy, n);
        assert forall|i: int| 1 <= i <= k implies #[trigger] free(g, x + dx * i, y + dy * i, w, h) by {
            if i > 1 {
                let j = i - 1;
                assert(free(g, (x + dx) + dx * j, (y + dy) + dy * j, w, h));
                assert((x + dx) + dx * j == x + dx * i) by (nonlinear_arith)
                    requires
                        j == i - 1,
                ;
                assert((y + dy) + dy * j == y + dy * i) by (nonlinear_arith)
                    requires
                        j == i - 1,
                ;
            }
        }
        let k1 = steps(g, x + dx, y + dy, w, h, dx, dy, (n - 1) as nat);
        assert((x + dx) + dx * (k1 + 1) == x + dx * (k + 1)) by (nonlinear_arith)
            requires
                k == k1 + 1,
        ;
        assert((y + dy) + dy * (k1 + 1) == y + dy * (k + 1)) by (nonlinear_arith)
            requires
                k == k1 + 1,
        ;
    } else {
        assert(dx * 1 == dx && dy * 1 == dy);
    }
}

/// A horizontal move, whatever its size, passes only through places clear
/// of every blocking cell: each whole unit that it covers ends clear, so an
/// actor that starts clear ends clear, and none goes through a wall.
pub proof fn law_move_h_clear(g: TileGrid, a: Actor, dx: int)
    requires
        g.wf(),
        a.wf(),
    ensures
        moved_h(g, a, dx).wf(),
        forall|x: int|
            (a.x < x <= moved_h(g, a, dx).x || moved_h(g, a, dx).x <= x < a.x) ==> !#[trigger] g.hits(
                x,
                a.y as int,
                a.w as int,
                a.h as int,
            ),
        !g.hits(a.x as int, a.y as int, a.w as int, a.h as int) ==> !g.hits(
            moved_h(g, a, dx).x as int,
            a.y as int,
            a.w as int,
            a.h as int,
        ),
{
    let m = round_units(a.rem_x + dx);
    lemma_round(a.rem_x + dx);
    let d = unit_dir(m);
    lemma_steps_path(g, a.x as int, a.y as int, a.w as int, a.h as int, d, 0, abs_nat(m));
    let k = steps(g, a.x as int, a.y as int, a.w as int, a.h as int, d, 0, abs_nat(m));
    if k >= 1 {
        assert(free(g, a.x + d * k, a.y + 0 * k, a.w as int, a.h as int));
    }
    if d == 1 {
        assert(d * k == k);
    } else {
        assert(d * k == -k);
    }
    assert forall|x: int|
        (a.x < x <= moved_h(g, a, dx).x || moved_h(g, a, dx).x <= x < a.x) implies !#[trigger] g.hits(
        x,
        a.y as int,
        a.w as int,
        a.h as int,
    ) by {
        let i = if x > a.x { x - a.x } else { a.x - x };
        if d == 1 {
            assert(d * i == i);
        } else {
            assert(d * i == -i);
        }
        assert(0 * i == 0);
        assert(free(g, a.x + d * i, a.y + 0 * i, a.w as int, a.h as int));
    }
}

/// A vertical move, whatever its size, passes only through places clear of
/// every blocking cell, as a horizontal one does.
pub proof fn law_move_v_clear(g: TileGrid, a: Actor, dy: int)
    requires
        g.wf(),
        a.wf(),
    ensures
        moved_v(g, a, dy).wf(),
        forall|y: int|
            (a.y < y <= moved_v(g, a, dy).y || moved_v(g, a, dy).y <= y < a.y) ==> !#[trigger] g.hits(
                a.x as int,
                y,
                a.w as int,
                a.h as int,
            ),
        !g.hits(a.x as int, a.y as int, a.w as int, a.h as int) ==> !g.hits(
            a.x as int,
            moved_v(g, a, dy).y as int,
            a.w as int,
            a.h as int,
        ),
{
    let m = round_units(a.rem_y + dy);
    lemma_round(a.rem_y + dy);
    let d = unit_dir(m);
    lemma_steps_path(g, a.x as int, a.y as int, a.w as int, a.h as int, 0, d, abs_nat(m));
    let k = steps(g, a.x as int, a.y as int, a.w as int, a.h as int, 0, d, abs_nat(m));
    if k >= 1 {
        assert(free(g, a.x + 0 * k, a.y + d * k, a.w as int, a.h as int));
    }
    if d == 1 {
        assert(d * k == k);
    } else {
        assert(d * k == -k);
    }
    assert forall|y: int|
        (a.y < y <= moved_v(g, a, dy).y || moved_v(g, a, dy).y <= y < a.y) implies !#[trigger] g.hits(
        a.x as int,
        y,
        a.w as int,
        a.h as int,
    ) by {
        let i = if y > a.y { y - a.y } else { a.y - y };
        if d == 1 {
            assert(d * i == i);
        } else {
            assert(d * i == -i);
        }
        assert(0 * i == 0);
        assert(free(g, a.x + 0 * i, a.y + d * i, a.w as int, a.h as int));
    }
}

impl TileGrid {
    /// Steps an actor of size `w` by `h` from `(x, y)` in direction
    /// `(dx, dy)` at most `n` times, each only into a free place; returns the
    /// number of steps taken.
    fn slide(&self, x: i64, y: i64, w: i64, h: i64, dx: i64, dy: i64, n: i64) -> (k: i64)
        requires
            self.wf(),
            in_limits(x as int, y as int, w as int, h as int),
            (dx == 0 && (dy == 1 || dy == -1)) || (dy == 0 && (dx == 1 || dx == -1)),
            0 <= n,
        ensures
            k == steps(*self, x as int, y as int, w as int, h as int, dx as int, dy as int, n as nat),
    {
        let mut cx: i64 = x;
        let mut cy: i64 = y;
        let mut k: i64 = 0;
        let mut left: i64 = n;
        while left > 0
            invariant
                self.wf(),
                (dx == 0 && (dy == 1 || dy == -1)) || (dy == 0 && (dx == 1 || dx == -1)),
                in_limits(cx as int, cy as int, w as int, h as int),
                0 <= left,
                0 <= k,
                k + left == n,
                steps(*self, x as int, y as int, w as int, h as int, dx as int, dy as int, n as nat)
                    == k + steps(*self, cx as int, cy as int, w as int, h as int, dx as int, dy as int, left as nat),
            decreases left,
        {
            let nx = cx + dx;
            let ny = cy + dy;
            if nx < -COORD_LIMIT || nx > COORD_LIMIT || ny < -COORD_LIMIT || ny > COORD_LIMIT {
                return k;
            }
            if self.collides(nx, ny, w, h) {
                return k;
            }
            cx = nx;
            cy = ny;
            k = k + 1;
            left = left - 1;
        }
        k
    }

    /// Moves `a` horizontally by `dx` sub-units: the whole units that the
    /// leftover and `dx` round to are taken one at a time, stopping before the
    /// first that would end overlapping a blocking cell. Returns whether all
    /// of them were taken.
    pub fn move_h(&self, a: &mut Actor, dx: i64) -> (r: bool)
        requires
            self.wf(),
            old(a).wf(),
            -MAX_DELTA <= dx <= MAX_DELTA,
        ensures
            *final(a) == moved_h(*self, *old(a), dx as int),
            final(a).wf(),
            r == full_h(*self, *old(a), dx as int),
    {
        let t = a.rem_x + dx;
        let m = round_exec(t);
        proof {
            lemma_round(t as int);
        }
        let d: i64 = if m < 0 { -1 } else { 1 };
        let n: i64 = if m < 0 { -m } else { m };
        let k = self.slide(a.x, a.y, a.w, a.h, d, 0, n);
        proof {
            lemma_steps_path(*self, a.x as int, a.y as int, a.w as int, a.h as int, d as int, 0, n as nat);
            assert(free(*self, a.x + d * k, a.y + 0 * k, a.w as int, a.h as int) || k == 0);
        }
        a.x = a.x + d * k;
        a.rem_x = t - m * SUBUNITS;
        k == n
    }

    /// Moves `a` vertically by `dy` sub-units, as `move_h` does horizontally.
    pub fn move_v(&self, a: &mut Actor, dy: i64) -> (r: bool)
        requires
            self.wf(),
            old(a).wf(),
            -MAX_DELTA <= dy <= MAX_DELTA,
        ensures
            *final(a) == moved_v(*self, *old(a), dy as int),
            final(a).wf(),
            r == full_v(*self, *old(a), dy as int),
    {
        let t = a.rem_y + dy;
        let m = round_exec(t);
        proof {
            lemma_round(t as int);
        }
        let d: i64 = if m < 0 { -1 } else { 1 };
        let n: i64 = if m < 0 { -m } else { m };
        let k = self.slide(a.x, a.y, a.w, a.h, 0, d, n);
        proof {
            lemma_steps_path(*self, a.x as int, a.y as int, a.w as int, a.h as int, 0, d as int, n as nat);
            assert(free(*self, a.x + 0 * k, a.y + d * k, a.w as int, a.h as int) || k == 0);
        }
        a.y = a.y + d * k;
        a.rem_y = t - m * SUBUNITS;
        k == n
    }

    /// Whether `a` stands on a blocking cell: one unit lower it would overlap one.
    pub fn on_ground(&self, a: &Actor) -> (r: bool)
        requires
            self.wf(),
            a.wf(),
        ensures
            r == grounded(*self, *a),
    {
        self.collides(a.x, a.y + 1, a.w, a.h)
    }
}

fn round_exec(t: i64) -> (m: i64)
    requires
        -MAX_DELTA - HALF_UNIT <= t <= MAX_DELTA + HALF_UNIT,
    ensures
        m == round_units(t as int),
        -10_000_001 <= m <= 10_000_001,
{
    proof {
        lemma_round(t as int);
    }
    if t >= 0 {
        let m = (t + ROUND_BIAS) / SUBUNITS;
        proof {
            vstd::arithmetic::div_mod::lemma_div_is_ordered((t + ROUND_BIAS) as int, (MAX_DELTA + SUBUNITS) as int, SUBUNITS as int);
        }
        m
    } else {
        let m = (-t + ROUND_BIAS) / SUBUNITS;
        proof {
            vstd::arithmetic::div_mod::lemma_div_is_ordered((-t + ROUND_BIAS) as int, (MAX_DELTA + SUBUNITS) as int, SUBUNITS as int);
        }
        -m
    }
}

} // verus!
