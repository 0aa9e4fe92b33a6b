use coma_platformer::actor::Actor;
use coma_platformer::game::Game;
use coma_platformer::grid::TileGrid;
use coma_platformer::level::{CurrentLevel, Level, Rect};
use coma_platformer::player::{Input, Player};

const FRAME: i64 = 16_667;

fn no_keys() -> Input {
    Input { left: false, right: false, jump: false, start: false }
}

/// A 10 by 10 grid of 32-unit cells whose row 5 is solid, with a one-cell
/// wall at column 8 on rows 0 to 4.
fn floor_grid() -> TileGrid {
    let mut cells = vec![false; 100];
    for cx in 0..10 {
        cells[5 * 10 + cx] = true;
    }
    for cy in 0..5 {
        cells[cy * 10 + 8] = true;
    }
    TileGrid::from_cells(cells, 10, 32).unwrap()
}

fn actor_at(x: i64, y: i64) -> Actor {
    Actor::new(x, y, 32, 32).unwrap()
}

fn level_with(player_at: (i64, i64), enemies: Vec<Actor>, goal: Rect) -> Level {
    let p = Player::new(actor_at(player_at.0, player_at.1));
    Level::new(floor_grid(), p, enemies, goal, CurrentLevel::Level1, CurrentLevel::Level2)
}

fn far_goal() -> Rect {
    Rect { x: 5000, y: 5000, w: 32, h: 32 }
}

#[test]
fn grid_rejects_ragged_or_empty_shapes() {
    assert!(TileGrid::from_cells(vec![false; 10], 0, 32).is_none());
    assert!(TileGrid::from_cells(vec![false; 10], 3, 32).is_none());
    assert!(TileGrid::from_cells(vec![false; 10], 5, 0).is_none());
    let g = TileGrid::from_cells(vec![false; 10], 5, 16).unwrap();
    assert_eq!(g.rows, 2);
    assert_eq!(g.cols, 5);
}

#[test]
fn blocking_cells_and_outside() {
    let g = floor_grid();
    assert!(g.blocking(0, 5));
    assert!(g.blocking(8, 0));
    assert!(!g.blocking(0, 0));
    assert!(!g.blocking(10, 5));
    assert!(!g.blocking(0, 10));
}

#[test]
fn collides_on_overlap_only() {
    let g = floor_grid();
    // Resting exactly on the floor touches it but does not overlap.
    assert!(!g.collides(0, 128, 32, 32));
    assert!(g.collides(0, 129, 32, 32));
    // A rectangle partly outside the grid still sees the cells inside it.
    assert!(g.collides(-20, 150, 32, 32));
    assert!(!g.collides(-100, 150, 32, 32));
    assert!(!g.collides(0, 400, 32, 32));
    // A rectangle wider than a cell that spans the wall column.
    assert!(g.collides(240, 0, 100, 10));
    assert!(!g.collides(0, 0, 256, 10));
}

#[test]
fn actor_new_rejects_bad_sizes() {
    assert!(Actor::new(0, 0, 0, 32).is_none());
    assert!(Actor::new(0, 0, 32, -1).is_none());
    assert!(Actor::new(2_000_000_000_000, 0, 32, 32).is_none());
    let a = Actor::new(-5, 7, 3, 4).unwrap();
    assert_eq!((a.x, a.y, a.w, a.h, a.rem_x, a.rem_y), (-5, 7, 3, 4, 0, 0));
}

#[test]
fn large_horizontal_move_stops_at_thin_wall() {
    let g = floor_grid();
    let mut a = actor_at(100, 96);
    // A thousand units to the right: far past the one-cell wall at x 256..288.
    let full = g.move_h(&mut a, 1_000 * 1_000_000_000);
    assert!(!full);
    assert_eq!(a.x, 224);
    assert_eq!(a.y, 96);
    assert!(!g.collides(a.x, a.y, a.w, a.h));
    // And back to the left, past the grid's edge, where nothing blocks.
    let full = g.move_h(&mut a, -300 * 1_000_000_000);
    assert!(full);
    assert_eq!(a.x, -76);
}

#[test]
fn large_vertical_move_stops_on_floor() {
    let g = floor_grid();
    let mut a = actor_at(0, 0);
    let full = g.move_v(&mut a, 500 * 1_000_000_000);
    assert!(!full);
    assert_eq!(a.y, 128);
    assert!(!g.collides(a.x, a.y, a.w, a.h));
    assert!(g.on_ground(&a));
}

#[test]
fn moves_round_halves_toward_zero_and_keep_leftover() {
    let g = floor_grid();
    let mut a = actor_at(0, 0);
    assert!(g.move_h(&mut a, 400_000_000));
    assert_eq!((a.x, a.rem_x), (0, 400_000_000));
    assert!(g.move_h(&mut a, 100_000_000));
    assert_eq!((a.x, a.rem_x), (0, 500_000_000));
    assert!(g.move_h(&mut a, 100_000_000));
    assert_eq!((a.x, a.rem_x), (1, -400_000_000));
    assert!(g.move_h(&mut a, -1_000_000_000));
    assert_eq!((a.x, a.rem_x), (0, -400_000_000));
    assert!(g.move_h(&mut a, -100_000_000));
    assert_eq!((a.x, a.rem_x), (0, -500_000_000));
    // A request of nothing never moves, even on half a unit owed.
    assert!(g.move_h(&mut a, 0));
    assert_eq!((a.x, a.rem_x), (0, -500_000_000));
}

#[test]
fn on_ground_is_the_overlap_one_unit_lower() {
    let g = floor_grid();
    assert!(g.on_ground(&actor_at(0, 128)));
    assert!(!g.on_ground(&actor_at(0, 127)));
    assert!(!g.on_ground(&actor_at(-40, 128)));
}

#[test]
fn at_rest_on_floor_stays_put() {
    let g = floor_grid();
    let mut p = Player::new(actor_at(64, 128));
    p.vy = 12_345;
    p.update(&g, no_keys(), FRAME);
    assert_eq!((p.vx, p.vy), (0, 0));
    assert_eq!((p.actor.x, p.actor.y), (64, 128));
}

#[test]
fn airborne_falls_under_gravity() {
    let g = floor_grid();
    let mut p = Player::new(actor_at(64, 48));
    p.update(&g, no_keys(), FRAME);
    // 2000 units/s^2 for 1/60 s: 33.334 units/s, in thousandths.
    assert_eq!(p.vy, 33_334);
    // 33.334 * 0.016667 = 0.5556 units: one whole unit down, the rest owed.
    assert_eq!(p.actor.y, 49);
    assert_eq!(p.actor.rem_y, 33_334 * FRAME - 1_000_000_000);
}

#[test]
fn fall_is_clamped_by_floor() {
    let g = floor_grid();
    let mut p = Player::new(actor_at(64, 127));
    p.vy = 600_000;
    p.update(&g, no_keys(), FRAME);
    assert_eq!(p.actor.y, 128);
    assert!(g.on_ground(&p.actor));
}

#[test]
fn jump_from_ground_then_gravity_from_jump_speed() {
    let g = floor_grid();
    let mut p = Player::new(actor_at(64, 128));
    let jump = Input { left: false, right: false, jump: true, start: false };
    p.update(&g, jump, FRAME);
    assert_eq!(p.vy, -700_000);
    // 700 * 0.016667 = 11.67 units: twelve whole units up.
    assert_eq!(p.actor.y, 116);
    assert!(!g.on_ground(&p.actor));
    p.update(&g, no_keys(), FRAME);
    assert_eq!(p.vy, -700_000 + 33_334);
}

#[test]
fn jump_in_the_air_does_nothing() {
    let g = floor_grid();
    let mut p = Player::new(actor_at(64, 40));
    let jump = Input { left: false, right: false, jump: true, start: false };
    p.update(&g, jump, FRAME);
    assert_eq!(p.vy, 33_334);
}

#[test]
fn run_keys_set_horizontal_speed() {
    let g = floor_grid();
    let mut p = Player::new(actor_at(64, 128));
    p.update(&g, Input { left: true, right: false, jump: false, start: false }, FRAME);
    assert_eq!(p.vx, -200_000);
    // 200 * 0.016667 = 3.33 units.
    assert_eq!(p.actor.x, 61);
    p.update(&g, Input { left: false, right: true, jump: false, start: false }, FRAME);
    assert_eq!(p.vx, 200_000);
    p.update(&g, Input { left: true, right: true, jump: false, start: false }, FRAME);
    assert_eq!(p.vx, 0);
}

#[test]
fn fall_speed_accumulates_up_to_the_bound() {
    let g = floor_grid();
    let mut p = Player::new(actor_at(64, -1_000_000));
    p.vy = 999_900_000;
    assert!(p.can_update(&g, FRAME));
    p.update(&g, no_keys(), FRAME);
    assert_eq!(p.vy, 999_933_334);
    p.vy = 999_999_000;
    assert!(!p.can_update(&g, FRAME));
    // On the ground there is no fall to bound.
    let mut q = Player::new(actor_at(64, 128));
    q.vy = 999_999_000;
    assert!(q.can_update(&g, FRAME));
}

#[test]
fn idle_tick_on_half_leftover_stays_put() {
    let g = floor_grid();
    let mut p = Player::new(actor_at(64, 128));
    p.actor.rem_x = -500_000_000;
    p.update(&g, no_keys(), 2_500);
    assert_eq!((p.actor.x, p.actor.y), (64, 128));
    p.update(&g, no_keys(), FRAME);
    assert_eq!((p.actor.x, p.actor.y), (64, 128));
    assert_eq!((p.vx, p.vy), (0, 0));
}

#[test]
fn zero_tick_changes_nothing() {
    let mut l = level_with((64, 40), vec![], far_goal());
    l.player.vy = 50_000;
    l.player.actor.rem_x = 500_000_000;
    l.player.actor.rem_y = -500_000_000;
    assert!(l.can_update(0));
    let step = l.update(no_keys(), 0);
    assert_eq!(step.next, CurrentLevel::Level1);
    assert!(!step.enemy_contact);
    assert_eq!((l.player.actor.x, l.player.actor.y), (64, 40));
}

#[test]
fn goal_reached_leads_to_next_level() {
    let goal = Rect { x: 0, y: 0, w: 200, h: 200 };
    let mut l = level_with((64, 40), vec![], goal);
    let step = l.update(no_keys(), FRAME);
    assert_eq!(step.next, CurrentLevel::Level2);
    assert!(!step.enemy_contact);
}

#[test]
fn zero_tick_on_goal_stays() {
    let goal = Rect { x: 0, y: 0, w: 200, h: 200 };
    let mut l = level_with((64, 40), vec![], goal);
    let step = l.update(no_keys(), 0);
    assert_eq!(step.next, CurrentLevel::Level1);
    assert!(!step.enemy_contact);
    assert_eq!((l.player.actor.x, l.player.actor.y), (64, 40));
    // A tick of some length then leads on.
    assert_eq!(l.update(no_keys(), FRAME).next, CurrentLevel::Level2);
}

#[test]
fn zero_tick_still_reports_enemy_contact() {
    let goal = Rect { x: 0, y: 0, w: 200, h: 200 };
    let mut l = level_with((64, 40), vec![actor_at(80, 50)], goal);
    let step = l.update(no_keys(), 0);
    assert!(step.enemy_contact);
    assert_eq!(step.next, CurrentLevel::Level1);
}

#[test]
fn goal_edge_counts_as_reached() {
    let goal = Rect { x: 96, y: 40, w: 32, h: 32 };
    let mut l = level_with((64, 40), vec![], goal);
    assert_eq!(l.update(no_keys(), FRAME).next, CurrentLevel::Level2);
}

#[test]
fn enemy_contact_is_reported_and_keeps_level() {
    let goal = Rect { x: 0, y: 0, w: 200, h: 200 };
    let enemies = vec![actor_at(500, 0), actor_at(80, 50)];
    let mut l = level_with((64, 40), enemies, goal);
    assert!(l.touches_enemy(&l.player.actor));
    let step = l.update(no_keys(), FRAME);
    assert!(step.enemy_contact);
    assert_eq!(step.next, CurrentLevel::Level1);
}

#[test]
fn far_enemy_is_no_contact() {
    let mut l = level_with((64, 40), vec![actor_at(200, 40)], far_goal());
    let step = l.update(no_keys(), FRAME);
    assert!(!step.enemy_contact);
    assert_eq!(step.next, CurrentLevel::Level1);
}

#[test]
fn menu_runs_no_level() {
    let mut game = Game::new(vec![level_with((64, 40), vec![], far_goal())]);
    assert_eq!(game.current, CurrentLevel::Menu);
    assert!(!game.tick(no_keys(), FRAME));
    assert_eq!(game.current, CurrentLevel::Menu);
    let start = Input { left: false, right: false, jump: false, start: true };
    assert!(!game.tick(start, FRAME));
    assert_eq!(game.current, CurrentLevel::Level1);
    assert_eq!((game.levels[0].player.actor.y, game.levels[0].player.vy), (40, 0));
    game.tick(no_keys(), FRAME);
    assert_eq!(game.levels[0].player.vy, 33_334);
}

#[test]
fn game_follows_levels_to_the_end() {
    let first = level_with((64, 40), vec![], Rect { x: 0, y: 0, w: 200, h: 200 });
    let p = Player::new(actor_at(64, 40));
    let second = Level::new(
        floor_grid(),
        p,
        vec![],
        Rect { x: 0, y: 0, w: 200, h: 200 },
        CurrentLevel::Level2,
        CurrentLevel::End,
    );
    let mut game = Game::new(vec![first, second]);
    assert!(game.can_tick(FRAME));
    game.tick(Input { left: false, right: false, jump: false, start: true }, FRAME);
    game.tick(no_keys(), FRAME);
    assert_eq!(game.current, CurrentLevel::Level2);
    // The second level's player has not moved yet.
    assert_eq!(game.levels[1].player.actor.y, 40);
    game.tick(no_keys(), FRAME);
    assert_eq!(game.current, CurrentLevel::End);
    let before = game.levels[1].player;
    game.tick(Input { left: true, right: false, jump: true, start: true }, FRAME);
    assert_eq!(game.current, CurrentLevel::End);
    assert_eq!(game.levels[1].player, before);
}

#[test]
fn screen_without_level_waits() {
    let mut game = Game::new(vec![]);
    game.current = CurrentLevel::Level3;
    assert!(!game.tick(no_keys(), FRAME));
    assert_eq!(game.current, CurrentLevel::Level3);
    assert_eq!(Game::slot_of(CurrentLevel::Level3), Some(2));
    assert_eq!(Game::slot_of(CurrentLevel::Menu), None);
}
