use quads_jam_2024::consts::VIRTUAL_HEIGHT;
use quads_jam_2024::consts::VIRTUAL_WIDTH;
use quads_jam_2024::input::Input;
use quads_jam_2024::math::Segment;
use quads_jam_2024::math::Vec2;
use quads_jam_2024::scene::gameplay::Asteroid;
use quads_jam_2024::scene::gameplay::Bullet;
use quads_jam_2024::scene::gameplay::Circle;
use quads_jam_2024::scene::gameplay::Gameplay;
use quads_jam_2024::scene::gameplay::Outcome;
use quads_jam_2024::scene::gameplay::Rect;

const SECOND: u32 = 1_000_000;

fn held(up: bool, down: bool, left: bool, right: bool) -> Input {
    let mut input = Input::idle();
    input.held.up = up;
    input.held.down = down;
    input.held.left = left;
    input.held.right = right;
    input
}

fn shot() -> Input {
    let mut input = Input::idle();
    input.held.confirm = true;
    input.pressed.confirm = true;
    input
}

#[test]
fn asteroid_edges_come_top_left_bottom_right() {
    let asteroid = Asteroid { rect: Rect::new(10, 20, 30, 40) };
    assert_eq!(
        asteroid.to_segments(),
        vec![
            Segment { src: Vec2::new(10, 20), dst: Vec2::new(40, 20) },
            Segment { src: Vec2::new(10, 20), dst: Vec2::new(10, 60) },
            Segment { src: Vec2::new(10, 60), dst: Vec2::new(40, 60) },
            Segment { src: Vec2::new(40, 20), dst: Vec2::new(40, 60) },
        ]
    );
}

#[test]
fn disc_overlaps_rectangle_up_to_its_border() {
    let rect = Rect::new(0, 0, 10, 10);
    assert!(Circle::new(5, 5, 0).overlaps_rect(&rect));
    assert!(Circle::new(15, 5, 5).overlaps_rect(&rect));
    assert!(!Circle::new(16, 5, 5).overlaps_rect(&rect));
    assert!(Circle::new(-5, 5, 5).overlaps_rect(&rect));
    assert!(!Circle::new(5, -6, 5).overlaps_rect(&rect));
    // Off a corner the distance to the corner counts: 3, 4, 5.
    assert!(Circle::new(13, 14, 5).overlaps_rect(&rect));
    assert!(!Circle::new(13, 14, 4).overlaps_rect(&rect));
    assert!(!Circle::new(14, 14, 5).overlaps_rect(&rect));
}

#[test]
fn new_arena_holds_player_walls_and_one_asteroid() {
    let game = Gameplay::new();
    assert_eq!(game.player_position(), Vec2::new(300_000, 300_000));
    assert_eq!(
        game.walls(),
        &vec![
            Segment { src: Vec2::new(0, 0), dst: Vec2::new(1_280_000, 0) },
            Segment { src: Vec2::new(0, 720_000), dst: Vec2::new(1_280_000, 720_000) },
        ]
    );
    assert_eq!(
        game.asteroids(),
        &vec![Asteroid { rect: Rect::new(300_000, 600_000, 30_000, 30_000) }]
    );
    assert!(game.bullets().is_empty());
    assert!(!game.is_paused());
    assert_eq!(VIRTUAL_WIDTH, 1_280_000);
    assert_eq!(VIRTUAL_HEIGHT, 720_000);
}

#[test]
fn player_moves_right_at_300_pixels_per_second() {
    let mut game = Gameplay::new();
    game.player_movement(&held(false, false, false, true), SECOND);
    assert_eq!(game.player_position(), Vec2::new(600_000, 300_000));
}

#[test]
fn player_is_kept_inside_the_arena() {
    let mut game = Gameplay::new();
    let right = held(false, false, false, true);
    game.player_movement(&right, 3 * SECOND);
    game.player_movement(&right, 233_334);
    assert_eq!(game.player_position(), Vec2::new(1_270_000, 300_000));
    game.player_movement(&right, SECOND);
    assert_eq!(game.player_position(), Vec2::new(1_280_000, 300_000));
    game.player_movement(&held(true, false, true, false), u32::MAX);
    assert_eq!(game.player_position(), Vec2::new(0, 0));
    game.player_movement(&held(false, true, false, true), u32::MAX);
    assert_eq!(game.player_position(), Vec2::new(1_280_000, 720_000));
}

#[test]
fn player_without_direction_stays() {
    let mut game = Gameplay::new();
    game.player_movement(&Input::idle(), SECOND);
    assert_eq!(game.player_position(), Vec2::new(300_000, 300_000));
    game.player_movement(&held(true, true, true, true), SECOND);
    assert_eq!(game.player_position(), Vec2::new(300_000, 300_000));
    // Signals that were only pressed, not held, move nothing.
    let mut pressed = Input::idle();
    pressed.pressed.right = true;
    game.player_movement(&pressed, SECOND);
    assert_eq!(game.player_position(), Vec2::new(300_000, 300_000));
}

#[test]
fn player_moves_as_far_along_a_diagonal() {
    let mut game = Gameplay::new();
    game.player_movement(&held(false, true, false, true), SECOND);
    // 300 / sqrt(2) = 212.132034...
    assert_eq!(game.player_position(), Vec2::new(512_132, 512_132));
    game.player_movement(&held(true, false, true, false), SECOND / 2);
    // 150 / sqrt(2) = 106.066017...
    assert_eq!(game.player_position(), Vec2::new(406_066, 406_066));
}

#[test]
fn opposite_signals_cancel_along_their_axis_only() {
    let mut game = Gameplay::new();
    game.player_movement(&held(true, false, true, true), SECOND / 10);
    assert_eq!(game.player_position(), Vec2::new(300_000, 270_000));
}

#[test]
fn a_shot_adds_one_bullet_ahead_of_the_player() {
    let mut game = Gameplay::new();
    game.player_attack(&shot(), SECOND);
    assert_eq!(game.bullets(), &vec![Bullet { circle: Circle::new(310_000, 300_000, 5_000) }]);
}

#[test]
fn a_held_shot_fires_once() {
    let mut game = Gameplay::new();
    game.player_attack(&shot(), 0);
    let mut still_held = Input::idle();
    still_held.held.confirm = true;
    game.player_attack(&still_held, 0);
    game.player_attack(&still_held, 0);
    assert_eq!(game.bullets().len(), 1);
}

#[test]
fn bullets_fly_right_at_200_pixels_per_second() {
    let mut game = Gameplay::new();
    game.player_attack(&shot(), SECOND);
    game.player_attack(&shot(), SECOND / 2);
    assert_eq!(
        game.bullets(),
        &vec![
            Bullet { circle: Circle::new(410_000, 300_000, 5_000) },
            Bullet { circle: Circle::new(310_000, 300_000, 5_000) },
        ]
    );
}

#[test]
fn bullets_past_the_right_edge_are_kept() {
    let mut game = Gameplay::new();
    game.player_attack(&shot(), 0);
    game.player_attack(&shot(), 100_000);
    // The first stands at 330, the second at 310 pixels.
    game.player_attack(&Input::idle(), 5_000_000);
    assert_eq!(
        game.bullets(),
        &vec![
            Bullet { circle: Circle::new(1_330_000, 300_000, 5_000) },
            Bullet { circle: Circle::new(1_310_000, 300_000, 5_000) },
        ]
    );
}

#[test]
fn bullets_stop_at_the_end_of_the_grid() {
    let mut game = Gameplay::new();
    game.player_attack(&shot(), 0);
    game.player_attack(&Input::idle(), u32::MAX);
    game.player_attack(&shot(), u32::MAX);
    assert_eq!(
        game.bullets(),
        &vec![
            Bullet { circle: Circle::new(1_718_296_918, 300_000, 5_000) },
            Bullet { circle: Circle::new(310_000, 300_000, 5_000) },
        ]
    );
    game.player_attack(&Input::idle(), u32::MAX);
    assert_eq!(
        game.bullets(),
        &vec![
            Bullet { circle: Circle::new(i32::MAX, 300_000, 5_000) },
            Bullet { circle: Circle::new(859_303_459, 300_000, 5_000) },
        ]
    );
    game.player_attack(&Input::idle(), 1);
    assert_eq!(game.bullets()[0], Bullet { circle: Circle::new(i32::MAX, 300_000, 5_000) });
}

#[test]
fn asteroids_drift_left_at_50_pixels_per_second() {
    let mut game = Gameplay::new();
    game.asteroid_movement(SECOND);
    assert_eq!(
        game.asteroids(),
        &vec![Asteroid { rect: Rect::new(250_000, 600_000, 30_000, 30_000) }]
    );
    game.asteroid_movement(16_667);
    assert_eq!(
        game.asteroids(),
        &vec![Asteroid { rect: Rect::new(249_167, 600_000, 30_000, 30_000) }]
    );
}

#[test]
fn asteroids_past_the_left_edge_are_kept() {
    let mut game = Gameplay::new();
    game.spawn_asteroid_from(0, 0);
    game.asteroid_movement(7_000_000);
    assert_eq!(
        game.asteroids(),
        &vec![
            Asteroid { rect: Rect::new(-50_000, 600_000, 30_000, 30_000) },
            Asteroid { rect: Rect::new(930_000, 0, 30_000, 20_000) },
        ]
    );
}

#[test]
fn asteroids_stop_at_the_end_of_the_grid() {
    let mut game = Gameplay::new();
    for _ in 0..10 {
        game.asteroid_movement(u32::MAX);
    }
    assert_eq!(
        game.asteroids(),
        &vec![Asteroid { rect: Rect::new(-2_147_183_640, 600_000, 30_000, 30_000) }]
    );
    game.asteroid_movement(u32::MAX);
    assert_eq!(
        game.asteroids(),
        &vec![Asteroid { rect: Rect::new(i32::MIN, 600_000, 30_000, 30_000) }]
    );
    game.asteroid_movement(1_000_000);
    assert_eq!(game.asteroids()[0].rect.x, i32::MIN);
    // An asteroid at the end of the grid still has its four edges.
    assert_eq!(game.collidable().len(), 6);
}

#[test]
fn spawned_asteroid_is_shaped_by_the_two_numbers() {
    let mut game = Gameplay::new();
    game.spawn_asteroid_from(0, 0);
    game.spawn_asteroid_from(u32::MAX, u32::MAX);
    game.spawn_asteroid_from(u32::MAX / 2, u32::MAX / 2);
    game.spawn_asteroid_from(u32::MAX / 720 + 1, u32::MAX / 180 + 1);
    assert_eq!(
        game.asteroids()[1..],
        vec![
            Asteroid { rect: Rect::new(1_280_000, 0, 30_000, 20_000) },
            Asteroid { rect: Rect::new(1_280_000, 719_000, 30_000, 199_000) },
            Asteroid { rect: Rect::new(1_280_000, 359_000, 30_000, 109_000) },
            Asteroid { rect: Rect::new(1_280_000, 1_000, 30_000, 21_000) },
        ]
    );
}

#[test]
fn random_asteroid_is_within_the_ranges() {
    let mut game = Gameplay::new();
    for _ in 0..50 {
        game.spawn_asteroid();
    }
    assert_eq!(game.asteroids().len(), 51);
    for asteroid in &game.asteroids()[1..] {
        let rect = asteroid.rect;
        assert_eq!(rect.x, 1_280_000);
        assert_eq!(rect.w, 30_000);
        assert!(0 <= rect.y && rect.y < 720_000 && rect.y % 1000 == 0);
        assert!(20_000 <= rect.h && rect.h < 200_000 && rect.h % 1000 == 0);
    }
}

#[test]
fn one_asteroid_comes_in_per_second() {
    let mut game = Gameplay::new();
    let idle = Input::idle();
    // None has come in yet: the first is due at once.
    let first = game.update_with(&idle, 5_000_000, 0, 0, 0);
    assert!(first.spawned);
    assert_eq!(game.asteroids().len(), 2);
    let soon = game.update_with(&idle, 5_500_000, 0, 0, 0);
    assert!(!soon.spawned);
    let on_the_second = game.update_with(&idle, 6_000_000, 0, 0, 0);
    assert!(!on_the_second.spawned);
    assert_eq!(game.asteroids().len(), 2);
    let past_it = game.update_with(&idle, 6_000_001, 0, 7, 9);
    assert!(past_it.spawned);
    assert_eq!(game.asteroids().len(), 3);
    let same_instant = game.update_with(&idle, 6_000_001, 0, 0, 0);
    assert!(!same_instant.spawned);
    // A long gap still brings one asteroid, not one per second missed.
    let late = game.update_with(&idle, 60_000_000, 0, 0, 0);
    assert!(late.spawned);
    assert_eq!(game.asteroids().len(), 4);
    let clock_ran_back = game.update_with(&idle, 0, 0, 0, 0);
    assert!(!clock_ran_back.spawned);
    let at_the_end = game.update_with(&idle, u64::MAX, 0, 0, 0);
    assert!(at_the_end.spawned);
    let after_the_end = game.update_with(&idle, u64::MAX, 0, 0, 0);
    assert!(!after_the_end.spawned);
    assert_eq!(game.asteroids().len(), 5);
}

#[test]
fn new_asteroid_does_not_drift_in_its_first_frame() {
    let mut game = Gameplay::new();
    game.update_with(&Input::idle(), 0, SECOND, 0, 0);
    assert_eq!(
        game.asteroids(),
        &vec![
            Asteroid { rect: Rect::new(250_000, 600_000, 30_000, 30_000) },
            Asteroid { rect: Rect::new(1_280_000, 0, 30_000, 20_000) },
        ]
    );
}

#[test]
fn frame_moves_player_bullets_and_asteroids() {
    let mut game = Gameplay::new();
    let mut input = held(false, false, false, true);
    input.pressed.confirm = true;
    let outcome = game.update_with(&input, 0, SECOND / 10, 0, 0);
    assert_eq!(
        outcome,
        Outcome { paused: false, pause_opened: false, collision: false, spawned: true }
    );
    assert_eq!(game.player_position(), Vec2::new(330_000, 300_000));
    // The bullet starts ahead of where the player stands after the move.
    assert_eq!(game.bullets(), &vec![Bullet { circle: Circle::new(340_000, 300_000, 5_000) }]);
    assert_eq!(game.asteroids()[0], Asteroid { rect: Rect::new(295_000, 600_000, 30_000, 30_000) });
}

#[test]
fn random_frame_does_what_the_given_numbers_would() {
    let mut random = Gameplay::new();
    let input = held(false, true, false, false);
    let outcome = random.update(&input, 0, SECOND / 10);
    assert!(outcome.spawned);
    let mut given = Gameplay::new();
    given.update_with(&input, 0, SECOND / 10, 0, 0);
    assert_eq!(random.player_position(), given.player_position());
    assert_eq!(random.asteroids().len(), 2);
    assert_eq!(random.asteroids()[0], given.asteroids()[0]);
    assert_eq!(random.asteroids()[1].rect.x, 1_280_000);
    let quiet = random.update(&input, SECOND as u64 / 2, SECOND / 10);
    assert!(!quiet.spawned);
    assert_eq!(random.asteroids().len(), 2);
}

#[test]
fn collision_is_reported_when_the_disc_reaches_an_asteroid() {
    let mut game = Gameplay::new();
    let down = held(false, true, false, false);
    // 294.999 pixels down: the disc ends one unit short of the asteroid.
    game.player_movement(&down, 983_330);
    assert_eq!(game.player_position(), Vec2::new(300_000, 594_999));
    assert!(!game.collision());
    game.player_movement(&down, 4);
    assert_eq!(game.player_position(), Vec2::new(300_000, 595_000));
    assert!(game.collision());
}

#[test]
fn frame_reports_collision_after_the_moves() {
    let mut game = Gameplay::new();
    // After a second the player stands level with the top of the asteroid,
    // which has drifted 50 pixels away and spans 250 to 280 pixels.
    let before = game.update_with(&held(false, true, false, false), 0, SECOND, 0, 0);
    assert_eq!(game.player_position(), Vec2::new(300_000, 600_000));
    assert!(!before.collision);
    // A tenth of a second to the left brings the player to 270 pixels, over
    // the asteroid, which then spans 245 to 275.
    let after = game.update_with(&held(false, false, true, false), 0, SECOND / 10, 0, 0);
    assert_eq!(game.player_position(), Vec2::new(270_000, 600_000));
    assert_eq!(game.asteroids()[0].rect.x, 245_000);
    assert!(after.collision);
}

#[test]
fn asteroid_just_past_the_left_edge_still_collides() {
    let mut game = Gameplay::new();
    game.update_with(&held(false, false, true, false), 0, SECOND, 0, 0);
    game.update_with(&held(false, true, false, false), 0, SECOND, 0, 0);
    assert_eq!(game.player_position(), Vec2::new(0, 600_000));
    // The first asteroid ends with its right edge one pixel left of the
    // arena, within the disc of the player at the edge.
    let outcome = game.update_with(&Input::idle(), 0, 4_620_000, 0, 0);
    assert_eq!(game.asteroids()[0].rect, Rect::new(-31_000, 600_000, 30_000, 30_000));
    assert!(outcome.collision);
    let gone = game.update_with(&Input::idle(), 0, 100_000, 0, 0);
    assert_eq!(game.asteroids()[0].rect.x, -36_000);
    assert!(!gone.collision);
}

#[test]
fn long_frame_adds_one_asteroid_and_keeps_the_others_in_place() {
    let mut game = Gameplay::new();
    let first = game.update_with(&Input::idle(), 0, 7_000_000, 5, 6);
    assert!(first.spawned);
    assert_eq!(
        game.asteroids(),
        &vec![
            Asteroid { rect: Rect::new(-50_000, 600_000, 30_000, 30_000) },
            Asteroid { rect: Rect::new(1_280_000, 0, 30_000, 20_000) },
        ]
    );
    let second = game.update_with(&Input::idle(), 0, 7_000_000, 5, 6);
    assert!(!second.spawned);
    assert_eq!(
        game.asteroids(),
        &vec![
            Asteroid { rect: Rect::new(-400_000, 600_000, 30_000, 30_000) },
            Asteroid { rect: Rect::new(930_000, 0, 30_000, 20_000) },
        ]
    );
}

#[test]
fn frame_without_a_shot_keeps_every_bullet() {
    let mut game = Gameplay::new();
    game.update_with(&shot(), 0, 0, 0, 0);
    let mut still_held = Input::idle();
    still_held.held.confirm = true;
    game.update_with(&still_held, 0, 5_000_000, 0, 0);
    assert_eq!(game.bullets(), &vec![Bullet { circle: Circle::new(1_310_000, 300_000, 5_000) }]);
    game.update(&still_held, 0, 5_000_000);
    assert_eq!(game.bullets(), &vec![Bullet { circle: Circle::new(2_310_000, 300_000, 5_000) }]);
}

#[test]
fn pause_gates_the_frame() {
    let mut game = Gameplay::new();
    game.set_paused(true);
    let mut input = held(false, false, false, true);
    input.pressed.confirm = true;
    input.pressed.pause = true;
    let outcome = game.update_with(&input, 9_000_000, SECOND, 1, 2);
    assert_eq!(
        outcome,
        Outcome { paused: true, pause_opened: false, collision: false, spawned: false }
    );
    assert_eq!(game.player_position(), Vec2::new(300_000, 300_000));
    assert_eq!(game.asteroids().len(), 1);
    assert_eq!(game.asteroids()[0].rect.x, 300_000);
    assert!(game.bullets().is_empty());
    assert!(game.is_paused());
    assert_eq!(game.draw(&vec![Vec2::new(0, -1)]), None);
    let random = game.update(&input, 9_000_000, SECOND);
    assert!(random.paused);
    assert_eq!(game.asteroids().len(), 1);
    game.set_paused(false);
    assert_eq!(game.draw(&vec![Vec2::new(0, -1)]), Some(vec![Vec2::new(300_000, 0)]));
}

#[test]
fn pause_opens_for_the_frames_to_come() {
    let mut game = Gameplay::new();
    let mut input = held(false, false, false, true);
    input.pressed.pause = true;
    let opening = game.update_with(&input, 0, SECOND, 0, 0);
    assert!(!opening.paused);
    assert!(opening.pause_opened);
    assert!(game.is_paused());
    assert_eq!(game.player_position(), Vec2::new(600_000, 300_000));
    let next = game.update_with(&input, 0, SECOND, 0, 0);
    assert!(next.paused);
    assert!(!next.pause_opened);
    assert_eq!(game.player_position(), Vec2::new(600_000, 300_000));
}

#[test]
fn collidable_segments_are_walls_then_asteroid_edges() {
    let mut game = Gameplay::new();
    game.spawn_asteroid_from(0, 0);
    assert_eq!(
        game.collidable(),
        vec![
            Segment { src: Vec2::new(0, 0), dst: Vec2::new(1_280_000, 0) },
            Segment { src: Vec2::new(0, 720_000), dst: Vec2::new(1_280_000, 720_000) },
            Segment { src: Vec2::new(300_000, 600_000), dst: Vec2::new(330_000, 600_000) },
            Segment { src: Vec2::new(300_000, 600_000), dst: Vec2::new(300_000, 630_000) },
            Segment { src: Vec2::new(300_000, 630_000), dst: Vec2::new(330_000, 630_000) },
            Segment { src: Vec2::new(330_000, 600_000), dst: Vec2::new(330_000, 630_000) },
            Segment { src: Vec2::new(1_280_000, 0), dst: Vec2::new(1_310_000, 0) },
            Segment { src: Vec2::new(1_280_000, 0), dst: Vec2::new(1_280_000, 20_000) },
            Segment { src: Vec2::new(1_280_000, 20_000), dst: Vec2::new(1_310_000, 20_000) },
            Segment { src: Vec2::new(1_310_000, 0), dst: Vec2::new(1_310_000, 20_000) },
        ]
    );
}

#[test]
fn visibility_gives_the_nearest_hit_of_each_ray_in_order() {
    let game = Gameplay::new();
    let up = Vec2::new(0, -1000);
    let right = Vec2::new(1000, 0);
    let down = Vec2::new(0, 1000);
    let down_right = Vec2::new(707, 707);
    let seen = game.compute_visibility(&vec![up, right, down, down_right]);
    // The ray to the right runs between the two walls and meets nothing.
    assert_eq!(
        seen,
        vec![Vec2::new(300_000, 0), Vec2::new(300_000, 600_000), Vec2::new(720_000, 720_000)]
    );
    assert_eq!(game.compute_visibility(&Vec::new()), Vec::new());
}

#[test]
fn visibility_follows_the_asteroids() {
    let mut game = Gameplay::new();
    let down_right = vec![Vec2::new(1, 20)];
    // The ray passes x = 315 pixels at y = 600: on top of the asteroid.
    assert_eq!(game.compute_visibility(&down_right), vec![Vec2::new(315_000, 600_000)]);
    game.asteroid_movement(SECOND);
    // The asteroid now spans 250 to 280 pixels: the ray goes on to the wall.
    assert_eq!(game.compute_visibility(&down_right), vec![Vec2::new(321_000, 720_000)]);
}

#[test]
fn visibility_asked_twice_answers_the_same() {
    let mut game = Gameplay::new();
    game.update_with(&held(false, true, false, true), 0, 123_457, 1_234_567_890, 987_654_321);
    let mut directions = Vec::new();
    for i in -20..=20 {
        for j in -20..=20 {
            directions.push(Vec2::new(i * 37, j * 41));
        }
    }
    let once = game.compute_visibility(&directions);
    let again = game.compute_visibility(&directions);
    assert!(!once.is_empty());
    assert!(once.len() <= directions.len());
    assert_eq!(once, again);
    assert_eq!(game.draw(&directions), Some(once));
}
