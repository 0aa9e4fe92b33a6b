use vstd::prelude::*;
use crate::level::{CurrentLevel, Level, level_outcome, level_stepped};
use crate::player::{Input, MAX_TICK, fall_fits};

verus! {

/// Which entry of the level list plays screen `c`, if any does.
pub open spec fn level_slot(c: CurrentLevel) -> Option<nat> {
    match c {
        CurrentLevel::Level1 => Some(0nat),
        CurrentLevel::Level2 => Some(1nat),
        CurrentLevel::Level3 => Some(2nat),
        _ => None,
    }
}

/// The screen after the menu: the start key leads to the first level.
pub open spec fn menu_next(i: Input) -> CurrentLevel {
    if i.start {
        CurrentLevel::Level1
    } else {
        CurrentLevel::Menu
    }
}

/// The whole game: the screen shown, and the levels that play the screens
/// `Level1`, `Level2` and `Level3`, in that order.
pub struct Game {
    pub current: CurrentLevel,
    pub levels: Vec<Level>,
}

/// The level that plays the current screen, if any, can take a tick of
/// `dt` microseconds with its player's speed within the largest speed.
pub open spec fn tick_fits(g: Game, dt: int) -> bool {
    match level_slot(g.current) {
        Some(k) => k < g.levels@.len() ==> fall_fits(
            g.levels@[k as int].grid,
            g.levels@[k as int].player,
            dt,
        ),
        None => true,
    }
}

impl Game {
    pub open spec fn wf(&self) -> bool {
        forall|j: int| 0 <= j < self.levels@.len() ==> (#[trigger] self.levels@[j]).wf()
    }

    /// A game that starts at the menu.
    pub fn new(levels: Vec<Level>) -> (r: Game)
        requires
            forall|j: int| 0 <= j < levels@.len() ==> (#[trigger] levels@[j]).wf(),
        ensures
            r.wf(),
            r.current == CurrentLevel::Menu,
            r.levels@ == levels@,
    {
        Game { current: CurrentLevel::Menu, levels }
    }

    /// Which entry of the level list plays screen `c`, if any does.
    pub fn slot_of(c: CurrentLevel) -> (r: Option<usize>)
        ensures
            r matches Some(k) ==> level_slot(c) == Some(k as nat),
            r is None ==> level_slot(c) is None,
    {
        match c {
            CurrentLevel::Level1 => Some(0),
            CurrentLevel::Level2 => Some(1),
            CurrentLevel::Level3 => Some(2),
            _ => None,
        }
    }

    /// Whether `tick` may be called with `dt` microseconds.
    pub fn can_tick(&self, dt: i64) -> (r: bool)
        requires
            self.wf(),
            0 <= dt <= MAX_TICK,
        ensures
            r == tick_fits(*self, dt as int),
    {
        match Game::slot_of(self.current) {
            Some(k) => {
                if k < self.levels.len() {
                    self.levels[k].can_update(dt)
                } else {
                    true
                }
            },
            None => true,
        }
    }

    /// One tick of `dt` microseconds. The menu only waits for the start key
    /// and the end screen for nothing; on a playable screen the level that
    /// plays it is updated and the screen it reports is adopted. A screen
    /// with no level waits. Returns whether the player met an enemy.
    pub fn tick(&mut self, input: Input, dt: i64) -> (r: bool)
        requires
            old(self).wf(),
            0 <= dt <= MAX_TICK,
            tick_fits(*old(self), dt as int),
        ensures
            final(self).wf(),
            final(self).levels@.len() == old(self).levels@.len(),
            old(self).current == CurrentLevel::Menu ==> (final(self).current == menu_next(input)
                && final(self).levels@ == old(self).levels@ && !r),
            old(self).current == CurrentLevel::End ==> (final(self).current == CurrentLevel::End
                && final(self).levels@ == old(self).levels@ && !r),
            match level_slot(old(self).current) {
                Some(k) => if k < old(self).levels@.len() {
                    &&& level_stepped(old(self).levels@[k as int], final(self).levels@[k as int], input, dt as int)
                    &&& forall|j: int| 0 <= j < old(self).levels@.len() && j != k ==>
                        final(self).levels@[j] == old(self).levels@[j]
                    &&& final(self).current == level_outcome(old(self).levels@[k as int], dt as int).next
                    &&& r == level_outcome(old(self).levels@[k as int], dt as int).enemy_contact
                } else {
                    final(self).current == old(self).current && final(self).levels@ == old(self).levels@ && !r
                },
                None => true,
            },
    {
        match self.current {
            CurrentLevel::Menu => {
                if input.start {
                    self.current = CurrentLevel::Level1;
                }
                false
            },
            CurrentLevel::End => false,
            _ => {
                match Game::slot_of(self.current) {
                    Some(k) => {
                        if k < self.levels.len() {
                            let ghost before = self.levels@;
                            let mut level = self.levels.remove(k);
                            proof {
                                assert(level == before[k as int]);
                            }
                            let step = level.update(input, dt);
                            self.levels.insert(k, level);
                            proof {
                                assert forall|j: int| 0 <= j < self.levels@.len() implies (#[trigger] self.levels@[j]).wf() by {
                                    if j != k {
                                        assert(self.levels@[j] == before[j]);
                                    }
                                }
                            }
                            self.current = step.next;
                            step.enemy_contact
                        } else {
                            false
                        }
                    },
                    None => false,
                }
            },
        }
    }
}

} // verus!
