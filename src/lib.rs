// A platformer's rules in whole units: a static grid of blocking cells
// (`grid`), rectangles that move one unit at a time and stop at the first
// blocking cell (`actor`), the player's run, gravity and jump (`player`), a
// level's contacts and goal (`level`), and the screen sequence (`game`).
use vstd::prelude::*;

pub mod grid;
pub mod actor;
pub mod player;
pub mod level;
pub mod game;

verus! {

} // verus!
