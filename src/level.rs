use vstd::prelude::*;
use crate::grid::{TileGrid, COORD_LIMIT};
use crate::actor::Actor;
use crate::player::{Player, Input, stepped, fall_fits, law_zero_tick_keeps_place, MAX_TICK};

verus! {

/// The screens the game goes through.
#[derive(Clone, Copy, Debug, PartialEq, Eq, Structural)]
pub enum CurrentLevel {
    Menu,
    Level1,
    Level2,
    Level3,
    End,
}

/// An axis-aligned area with integer corners, such as a level's goal.
#[derive(Clone, Copy, Debug, PartialEq, Eq)]
pub struct Rect {
    pub x: i64,
    pub y: i64,
    pub w: i64,
    pub h: i64,
}

impl Rect {
    pub open spec fn wf(&self) -> bool {
        -COORD_LIMIT <= self.x <= COORD_LIMIT && -COORD_LIMIT <= self.y <= COORD_LIMIT && 0
            <= self.w <= COORD_LIMIT && 0 <= self.h <= COORD_LIMIT
    }
}

/// The rectangles of `a` and `b` meet, edges included.
pub open spec fn touches(a: Actor, b: Rect) -> bool {
    a.x <= b.x + b.w && b.x <= a.x + a.w && a.y <= b.y + b.h && b.y <= a.y + a.h
}

/// The rectangles of two actors meet, edges included.
pub open spec fn actors_touch(a: Actor, b: Actor) -> bool {
    a.x <= b.x + b.w && b.x <= a.x + a.w && a.y <= b.y + b.h && b.y <= a.y + a.h
}

/// Some enemy's rectangle meets the player's.
pub open spec fn enemy_contact(enemies: Seq<Actor>, p: Actor) -> bool {
    exists|j: int| 0 <= j < enemies.len() && actors_touch(p, #[trigger] enemies[j])
}

/// What a tick of a level reports: the screen to show next, and whether the
/// player met an enemy.
#[derive(Clone, Copy, Debug, PartialEq, Eq)]
pub struct LevelStep {
    pub next: CurrentLevel,
    pub enemy_contact: bool,
}

/// One playable map: its grid, its player, its enemies (which do not move),
/// the goal that ends it, and the screens it is and leads to.
pub struct Level {
    pub grid: TileGrid,
    pub player: Player,
    pub enemies: Vec<Actor>,
    pub goal: Rect,
    pub current: CurrentLevel,
    pub next: CurrentLevel,
}

/// What a tick of `dt` microseconds of level `l` reports, judged on the
/// player's place at the start of the tick: meeting an enemy keeps the level
/// and reports it, else reaching the goal in a tick of some length leads to
/// the next screen, else the level stays.
pub open spec fn level_outcome(l: Level, dt: int) -> LevelStep {
    if enemy_contact(l.enemies@, l.player.actor) {
        LevelStep { next: l.current, enemy_contact: true }
    } else if dt > 0 && touches(l.player.actor, l.goal) {
        LevelStep { next: l.next, enemy_contact: false }
    } else {
        LevelStep { next: l.current, enemy_contact: false }
    }
}

/// `after` is level `before` after one tick: only the player has changed,
/// and as the player's own tick says.
pub open spec fn level_stepped(before: Level, after: Level, i: Input, dt: int) -> bool {
    &&& after.grid == before.grid
    &&& after.enemies@ == before.enemies@
    &&& after.goal == before.goal
    &&& after.current == before.current
    &&& after.next == before.next
    &&& after.player == stepped(before.grid, before.player, i, dt)
}

impl Level {
    pub open spec fn wf(&self) -> bool {
        &&& self.grid.wf()
        &&& self.player.wf()
        &&& self.goal.wf()
        &&& forall|j: int| 0 <= j < self.enemies@.len() ==> (#[trigger] self.enemies@[j]).wf()
    }

    pub fn new(
        grid: TileGrid,
        player: Player,
        enemies: Vec<Actor>,
        goal: Rect,
        current: CurrentLevel,
        next: CurrentLevel,
    ) -> (r: Level)
        requires
            grid.wf(),
            player.wf(),
            goal.wf(),
            forall|j: int| 0 <= j < enemies@.len() ==> (#[trigger] enemies@[j]).wf(),
        ensures
            r.wf(),
            r.grid == grid,
            r.player == player,
            r.enemies@ == enemies@,
            r.goal == goal,
            r.current == current,
            r.next == next,
    {
        Level { grid, player, enemies, goal, current, next }
    }

    /// Whether some enemy's rectangle meets that of `p`.
    pub fn touches_enemy(&self, p: &Actor) -> (r: bool)
        requires
            self.wf(),
            p.wf(),
        ensures
            r == enemy_contact(self.enemies@, *p),
    {
        let mut j: usize = 0;
        while j < self.enemies.len()
            invariant
                self.wf(),
                p.wf(),
                j <= self.enemies@.len(),
                forall|k: int| 0 <= k < j ==> !actors_touch(*p, #[trigger] self.enemies@[k]),
            decreases self.enemies@.len() - j,
        {
            let e = &self.enemies[j];
            proof {
                assert(self.enemies@[j as int].wf());
            }
            if p.x <= e.x + e.w && e.x <= p.x + p.w && p.y <= e.y + e.h && e.y <= p.y + p.h {
                proof {
                    assert(actors_touch(*p, self.enemies@[j as int]));
                }
                return true;
            }
            j = j + 1;
        }
        false
    }

    /// Whether a tick of `dt` microseconds keeps the player's speed within
    /// the largest speed.
    pub fn can_update(&self, dt: i64) -> (r: bool)
        requires
            self.wf(),
            0 <= dt <= MAX_TICK,
        ensures
            r == fall_fits(self.grid, self.player, dt as int),
    {
        self.player.can_update(&self.grid, dt)
    }

    /// One tick of `dt` microseconds: the player moves, then the contacts
    /// seen at the start of the tick decide what comes next. A tick of zero
    /// length leads nowhere, even for a player already on the goal.
    pub fn update(&mut self, input: Input, dt: i64) -> (r: LevelStep)
        requires
            old(self).wf(),
            0 <= dt <= MAX_TICK,
            fall_fits(old(self).grid, old(self).player, dt as int),
        ensures
            final(self).wf(),
            level_stepped(*old(self), *final(self), input, dt as int),
            r == level_outcome(*old(self), dt as int),
    {
        let start = self.player.actor;
        let contact = self.touches_enemy(&start);
        self.player.update(&self.grid, input, dt);
        if contact {
            LevelStep { next: self.current, enemy_contact: true }
        } else if dt > 0 && start.x <= self.goal.x + self.goal.w && self.goal.x <= start.x + start.w
            && start.y <= self.goal.y + self.goal.h && self.goal.y <= start.y + start.h {
            LevelStep { next: self.next, enemy_contact: false }
        } else {
            LevelStep { next: self.current, enemy_contact: false }
        }
    }
}

/// A tick of zero length changes nothing that is seen: the player keeps its
/// place, the enemies and the goal stay, and the level makes no transition.
pub proof fn law_zero_tick_level(before: Level, after: Level, i: Input)
    requires
        before.wf(),
        level_stepped(before, after, i, 0),
    ensures
        after.player.actor.x == before.player.actor.x,
        after.player.actor.y == before.player.actor.y,
        after.enemies@ == before.enemies@,
        after.goal == before.goal,
        level_outcome(before, 0).next == before.current,
{
    law_zero_tick_keeps_place(before.grid, before.player, i);
}

/// A player on the goal, meeting no enemy, leads in a tick of some length
/// to the level's next screen rather than staying on this one.
pub proof fn law_goal_leads_next(l: Level, dt: int)
    requires
        dt > 0,
        touches(l.player.actor, l.goal),
        !enemy_contact(l.enemies@, l.player.actor),
    ensures
        level_outcome(l, dt).next == l.next,
        !level_outcome(l, dt).enemy_contact,
{
}

} // verus!
