use arena_engine::entity::{KinematicData, PlayerCtrl, Projectile, ProjectileType};
use arena_engine::fixed::Fixed;
use arena_engine::game::Game;
use arena_engine::vector::{Heading, Vec2};

fn raw(value: i64) -> Fixed {
    Fixed { raw: value }
}

fn whole(x: i32, y: i32) -> Vec2 {
    Vec2 { x: Fixed::from_int(x), y: Fixed::from_int(y) }
}

fn east() -> Heading {
    Heading { cos: Fixed::from_int(1), sin: Fixed::from_int(0) }
}

fn north() -> Heading {
    Heading { cos: Fixed::from_int(0), sin: Fixed::from_int(1) }
}

/// One tick in which every projectile is given the heading of angle 0.
fn tick(game: &mut Game, dt: Fixed, headings: &[Heading]) -> bool {
    let shot_headings = vec![east(); game.projectiles.len()];
    game.physics(dt, headings, &shot_headings)
}

fn shot(at: Vec2, velocity: Vec2, bullet: ProjectileType) -> Projectile {
    Projectile {
        kinematics: KinematicData { velocity, ..KinematicData::at_rest(at) },
        bullet,
        origin: 0,
    }
}

fn fire(metal: Option<bool>, laser: Option<bool>) -> PlayerCtrl {
    PlayerCtrl { metal_bullet: metal, laser_bullet: laser, ..PlayerCtrl::absent() }
}

#[test]
fn empty_arena_ticks() {
    let mut game = Game::new();
    assert!(tick(&mut game, Fixed::from_int(1), &[]));
    assert!(game.players.is_empty());
    assert!(game.projectiles.is_empty());
}

#[test]
fn tick_is_not_taken_without_a_heading_for_each_player_and_projectile() {
    let mut game = Game::new();
    game.initialize_player(whole(0, 0));
    game.initialize_player(whole(1, 0));
    game.process_player_input(0, fire(Some(true), Some(true)));
    game.players[0].kinematics.velocity = whole(1, 1);
    game.projectiles.push(shot(whole(0, 0), whole(1, 0), ProjectileType::Metal));
    let refused: [(Vec<Heading>, Vec<Heading>); 6] = [
        (vec![], vec![east()]),
        (vec![east()], vec![east()]),
        (vec![east(), east(), east()], vec![east()]),
        (vec![east(), east()], vec![]),
        (vec![east(), east()], vec![east(), east()]),
        (vec![east()], vec![east(), east()]),
    ];
    for (headings, shot_headings) in refused {
        assert!(!game.physics(Fixed::from_int(1), &headings, &shot_headings));
        assert_eq!(game.players.len(), 2);
        assert_eq!(game.players[0].kinematics.location, whole(0, 0));
        assert_eq!(game.players[0].health, Fixed::from_int(100));
        assert_eq!(game.players[0].energy, Fixed::from_int(100));
        assert_eq!(game.players[1].health, Fixed::from_int(100));
        assert_eq!(game.projectiles.len(), 1);
        assert_eq!(game.projectiles[0], shot(whole(0, 0), whole(1, 0), ProjectileType::Metal));
    }
    assert!(game.physics(Fixed::from_int(1), &[east(), east()], &[east()]));
    assert_eq!(game.projectiles.len(), 3);
}

fn powered(at: Vec2, thrust: i32, theta: i64, bullet: ProjectileType) -> Projectile {
    Projectile {
        kinematics: KinematicData {
            acceleration: Fixed::from_int(thrust),
            theta: raw(theta),
            ..KinematicData::at_rest(at)
        },
        bullet,
        origin: 0,
    }
}

#[test]
fn powered_projectile_is_pushed_along_its_heading() {
    let mut game = Game::new();
    game.initialize_player(whole(0, 0));
    game.projectiles.push(powered(whole(25, 0), 10, 3_141_593, ProjectileType::Metal));
    let dt = Fixed::from_int(1);
    assert_eq!(game.next_shot_angles(dt), vec![raw(3_141_593)]);
    let west = Heading { cos: Fixed::from_int(-1), sin: Fixed::from_int(0) };
    assert!(game.physics(dt, &[east()], &[west]));
    assert_eq!(game.projectiles[0].kinematics.location, whole(15, 0));
    assert_eq!(game.projectiles[0].kinematics.velocity, whole(-10, 0));
    assert_eq!(game.projectiles[0].kinematics.acceleration, Fixed::from_int(10));
    assert_eq!(game.projectiles[0].bullet, ProjectileType::Deactivated);
    assert_eq!(game.players[0].health, Fixed::from_int(92));
}

#[test]
fn powered_projectile_strikes_where_integration_brings_it() {
    // Pushed away from the ship it would have struck at rest.
    let mut game = Game::new();
    game.initialize_player(whole(0, 0));
    game.projectiles.push(powered(whole(17, 0), 10, 0, ProjectileType::Laser));
    assert!(game.physics(Fixed::from_int(1), &[east()], &[east()]));
    assert_eq!(game.projectiles[0].kinematics.location, whole(27, 0));
    assert_eq!(game.projectiles[0].bullet, ProjectileType::Laser);
    assert_eq!(game.players[0].health, Fixed::from_int(100));
}

#[test]
fn each_projectile_flies_along_its_own_heading() {
    let mut game = Game::new();
    game.projectiles.push(powered(whole(0, 0), 2, 0, ProjectileType::Metal));
    game.projectiles.push(powered(whole(0, 0), 2, 1_570_796, ProjectileType::Metal));
    game.projectiles.push(powered(whole(0, 0), 2, 0, ProjectileType::Deactivated));
    let dt = raw(500_000);
    assert_eq!(game.next_shot_angles(dt), vec![raw(0), raw(1_570_796), raw(0)]);
    assert!(game.physics(dt, &[], &[east(), north(), north()]));
    assert_eq!(game.projectiles[0].kinematics.velocity, whole(1, 0));
    assert_eq!(
        game.projectiles[0].kinematics.location,
        Vec2 { x: raw(500_000), y: raw(0) }
    );
    assert_eq!(game.projectiles[1].kinematics.velocity, whole(0, 1));
    assert_eq!(
        game.projectiles[1].kinematics.location,
        Vec2 { x: raw(0), y: raw(500_000) }
    );
    assert_eq!(game.projectiles[2], powered(whole(0, 0), 2, 0, ProjectileType::Deactivated));
}

#[test]
fn projectile_turns_as_it_flies() {
    let mut game = Game::new();
    let mut spinning = shot(whole(500, 0), whole(0, 0), ProjectileType::Laser);
    spinning.kinematics.theta = raw(1_000_000);
    spinning.kinematics.omega = raw(2_000_000);
    spinning.kinematics.alpha = raw(4_000_000);
    game.projectiles.push(spinning);
    let dt = raw(500_000);
    let angles = game.next_shot_angles(dt);
    assert_eq!(angles, vec![raw(3_000_000)]);
    assert!(game.physics(dt, &[], &[north()]));
    assert_eq!(game.projectiles[0].kinematics.omega, raw(4_000_000));
    assert_eq!(game.projectiles[0].kinematics.theta, angles[0]);
    assert_eq!(game.projectiles[0].kinematics.location, whole(500, 0));
}

#[test]
fn fired_projectile_flies_the_same_along_every_heading() {
    let mut one = Game::new();
    one.initialize_player(whole(0, 0));
    one.process_player_input(0, fire(Some(true), Some(true)));
    let mut other = Game::new();
    other.initialize_player(whole(0, 0));
    other.process_player_input(0, fire(Some(true), Some(true)));
    assert!(one.physics(raw(20_000), &[north()], &[]));
    assert!(other.physics(raw(20_000), &[north()], &[]));
    assert!(one.physics(raw(20_000), &[north()], &[east(), east()]));
    assert!(other.physics(raw(20_000), &[north()], &[north(), raw_heading(-3, 5)]));
    assert_eq!(one.projectiles, other.projectiles);
    assert_eq!(one.players[0].health, other.players[0].health);
}

fn raw_heading(cos: i32, sin: i32) -> Heading {
    Heading { cos: Fixed::from_int(cos), sin: Fixed::from_int(sin) }
}

#[test]
fn metal_slug_takes_eight_and_is_deactivated() {
    let mut game = Game::new();
    game.initialize_player(whole(100, 0));
    game.projectiles.push(shot(whole(70, 0), whole(20, 0), ProjectileType::Metal));
    assert!(tick(&mut game, Fixed::from_int(1), &[east()]));
    assert_eq!(game.players[0].health, Fixed::from_int(92));
    assert_eq!(game.projectiles.len(), 1);
    assert_eq!(game.projectiles[0].bullet, ProjectileType::Deactivated);
    assert_eq!(game.projectiles[0].kinematics.location, whole(90, 0));
}

#[test]
fn laser_bolt_takes_one_and_is_deactivated() {
    let mut game = Game::new();
    game.initialize_player(whole(100, 0));
    game.projectiles.push(shot(whole(70, 0), whole(20, 0), ProjectileType::Laser));
    assert!(tick(&mut game, Fixed::from_int(1), &[east()]));
    assert_eq!(game.players[0].health, Fixed::from_int(99));
    assert_eq!(game.projectiles[0].bullet, ProjectileType::Deactivated);
}

#[test]
fn deactivated_projectile_never_strikes_again() {
    let mut game = Game::new();
    game.initialize_player(whole(100, 0));
    game.projectiles.push(shot(whole(90, 0), whole(0, 0), ProjectileType::Metal));
    assert!(tick(&mut game, Fixed::from_int(1), &[east()]));
    assert_eq!(game.players[0].health, Fixed::from_int(92));
    let spent = game.projectiles[0];
    assert_eq!(spent.bullet, ProjectileType::Deactivated);
    for _ in 0..5 {
        assert!(tick(&mut game, Fixed::from_int(1), &[east()]));
        assert_eq!(game.players[0].health, Fixed::from_int(92));
        assert_eq!(game.projectiles[0], spent);
    }
}

#[test]
fn deactivated_projectile_does_not_move() {
    let mut game = Game::new();
    let marker = shot(whole(5, 5), whole(1, 1), ProjectileType::Deactivated);
    game.projectiles.push(marker);
    assert!(tick(&mut game, Fixed::from_int(1), &[]));
    assert_eq!(game.projectiles[0], marker);
}

#[test]
fn one_projectile_strikes_every_ship_it_overlaps() {
    let mut game = Game::new();
    game.initialize_player(whole(0, 0));
    game.initialize_player(whole(10, 0));
    game.initialize_player(whole(200, 0));
    game.projectiles.push(shot(whole(5, 0), whole(0, 0), ProjectileType::Metal));
    assert!(tick(&mut game, Fixed::from_int(1), &[east(), east(), east()]));
    assert_eq!(game.players[0].health, Fixed::from_int(92));
    assert_eq!(game.players[1].health, Fixed::from_int(92));
    assert_eq!(game.players[2].health, Fixed::from_int(100));
    assert_eq!(game.projectiles[0].bullet, ProjectileType::Deactivated);
}

#[test]
fn several_projectiles_add_up_on_one_ship() {
    let mut game = Game::new();
    game.initialize_player(whole(0, 0));
    game.projectiles.push(shot(whole(1, 0), whole(0, 0), ProjectileType::Metal));
    game.projectiles.push(shot(whole(0, 1), whole(0, 0), ProjectileType::Laser));
    game.projectiles.push(shot(whole(300, 0), whole(0, 0), ProjectileType::Metal));
    game.projectiles.push(shot(whole(0, -1), whole(0, 0), ProjectileType::Metal));
    assert!(tick(&mut game, Fixed::from_int(1), &[east()]));
    assert_eq!(game.players[0].health, Fixed::from_int(83));
    assert_eq!(game.projectiles[0].bullet, ProjectileType::Deactivated);
    assert_eq!(game.projectiles[1].bullet, ProjectileType::Deactivated);
    assert_eq!(game.projectiles[2].bullet, ProjectileType::Metal);
    assert_eq!(game.projectiles[3].bullet, ProjectileType::Deactivated);
}

#[test]
fn projectile_that_misses_flies_on() {
    let mut game = Game::new();
    game.initialize_player(whole(0, 0));
    game.projectiles.push(shot(whole(100, 100), whole(3, -4), ProjectileType::Laser));
    assert!(tick(&mut game, raw(500_000), &[east()]));
    assert_eq!(game.players[0].health, Fixed::from_int(100));
    assert_eq!(game.projectiles[0].bullet, ProjectileType::Laser);
    assert_eq!(
        game.projectiles[0].kinematics.location,
        Vec2 { x: raw(101_500_000), y: Fixed::from_int(98) }
    );
    assert_eq!(game.projectiles[0].kinematics.velocity, whole(3, -4));
}

#[test]
fn projectile_strikes_where_it_is_after_its_flight() {
    let mut game = Game::new();
    game.initialize_player(whole(0, 0));
    // Overlaps the ship before the flight, not after it.
    game.projectiles.push(shot(whole(10, 0), whole(100, 0), ProjectileType::Metal));
    assert!(tick(&mut game, Fixed::from_int(1), &[east()]));
    assert_eq!(game.players[0].health, Fixed::from_int(100));
    assert_eq!(game.projectiles[0].bullet, ProjectileType::Metal);
}

#[test]
fn health_goes_below_zero() {
    let mut game = Game::new();
    game.initialize_player(whole(0, 0));
    game.players[0].health = Fixed::from_int(3);
    game.projectiles.push(shot(whole(0, 0), whole(0, 0), ProjectileType::Metal));
    assert!(tick(&mut game, Fixed::from_int(1), &[east()]));
    assert_eq!(game.players[0].health, Fixed::from_int(-5));
}

#[test]
fn health_stops_at_the_lowest_value() {
    let mut game = Game::new();
    game.initialize_player(whole(0, 0));
    game.players[0].health = raw(i64::MIN + 3);
    game.projectiles.push(shot(whole(0, 0), whole(0, 0), ProjectileType::Metal));
    game.projectiles.push(shot(whole(0, 0), whole(0, 0), ProjectileType::Metal));
    assert!(tick(&mut game, Fixed::from_int(1), &[east()]));
    assert_eq!(game.players[0].health, raw(i64::MIN));
}

#[test]
fn ship_firing_both_fires_a_slug_then_a_bolt() {
    let mut game = Game::new();
    let id = game.initialize_player(whole(10, 20));
    assert!(game.process_player_input(id, fire(Some(true), Some(true))));
    game.players[0].kinematics.velocity = whole(3, 4);
    let heading = Heading { cos: raw(600_000), sin: raw(800_000) };
    assert!(tick(&mut game, Fixed::from_int(1), &[heading]));
    assert_eq!(game.players[0].kinematics.location, whole(13, 24));
    assert_eq!(game.projectiles.len(), 2);
    let slug = game.projectiles[0];
    assert_eq!(slug.bullet, ProjectileType::Metal);
    assert_eq!(slug.origin, id);
    assert_eq!(slug.kinematics.location, Vec2 { x: raw(18_400_000), y: raw(31_200_000) });
    assert_eq!(slug.kinematics.velocity, Vec2 { x: raw(8_400_000), y: raw(11_200_000) });
    let bolt = game.projectiles[1];
    assert_eq!(bolt.bullet, ProjectileType::Laser);
    assert_eq!(bolt.origin, id);
    assert_eq!(bolt.kinematics.location, Vec2 { x: raw(25_600_000), y: raw(40_800_000) });
    assert_eq!(bolt.kinematics.velocity, Vec2 { x: raw(15_600_000), y: raw(20_800_000) });
    assert_eq!(slug, Projectile::metal(game.players[0].kinematics, heading, id));
    assert_eq!(bolt, Projectile::laser(game.players[0].kinematics, heading, id));
}

#[test]
fn ship_fires_only_what_is_set() {
    let mut game = Game::new();
    for _ in 0..4 {
        game.initialize_player(whole(0, 0));
    }
    game.process_player_input(1, fire(Some(true), None));
    game.process_player_input(2, fire(Some(false), Some(true)));
    game.process_player_input(3, fire(Some(true), Some(true)));
    assert!(tick(&mut game, Fixed::from_int(1), &[east(), east(), north(), east()]));
    let kinds: Vec<(ProjectileType, usize)> =
        game.projectiles.iter().map(|shot| (shot.bullet, shot.origin)).collect();
    assert_eq!(
        kinds,
        vec![
            (ProjectileType::Metal, 1),
            (ProjectileType::Laser, 2),
            (ProjectileType::Metal, 3),
            (ProjectileType::Laser, 3),
        ]
    );
    assert_eq!(game.projectiles[1].kinematics.location, whole(0, 16));
    assert_eq!(game.projectiles[3].kinematics.location, whole(16, 0));
}

#[test]
fn ship_keeps_firing_every_tick_until_told_otherwise() {
    let mut game = Game::new();
    game.initialize_player(whole(500, 500));
    game.process_player_input(0, fire(Some(true), None));
    assert!(tick(&mut game, raw(20_000), &[north()]));
    assert!(tick(&mut game, raw(20_000), &[north()]));
    assert_eq!(game.projectiles.len(), 2);
    game.process_player_input(0, fire(Some(false), None));
    assert!(tick(&mut game, raw(20_000), &[north()]));
    assert_eq!(game.projectiles.len(), 2);
}

#[test]
fn fired_projectile_does_not_fly_in_the_tick_it_is_fired() {
    let mut game = Game::new();
    game.initialize_player(whole(0, 0));
    game.process_player_input(0, fire(Some(true), None));
    assert!(tick(&mut game, Fixed::from_int(1), &[east()]));
    assert_eq!(game.projectiles[0].kinematics.location, whole(4, 0));
    assert_eq!(game.projectiles[0].kinematics.velocity, whole(4, 0));
    assert_eq!(game.players[0].health, Fixed::from_int(100));
}

#[test]
fn idle_ship_pays_the_idle_cost() {
    let mut game = Game::new();
    game.initialize_player(whole(0, 0));
    assert!(tick(&mut game, raw(20_000), &[east()]));
    assert_eq!(game.players[0].energy, raw(99_990_000));
    assert!(tick(&mut game, raw(20_000), &[east()]));
    assert_eq!(game.players[0].energy, raw(99_980_000));
}

#[test]
fn upkeep_is_thrust_and_torque_and_idle_cost() {
    let mut game = Game::new();
    game.initialize_player(whole(0, 0));
    game.process_player_input(
        0,
        PlayerCtrl {
            thrust: Some(Fixed::from_int(-2)),
            torque: Some(raw(500_000)),
            ..PlayerCtrl::absent()
        },
    );
    assert_eq!(game.players[0].upkeep(), raw(2_510_000));
    assert!(tick(&mut game, raw(20_000), &[east()]));
    assert_eq!(game.players[0].energy, raw(97_490_000));
}

#[test]
fn firing_costs_nothing_more() {
    let mut game = Game::new();
    game.initialize_player(whole(0, 0));
    game.process_player_input(0, fire(Some(true), Some(true)));
    assert!(tick(&mut game, raw(20_000), &[east()]));
    assert_eq!(game.players[0].energy, raw(99_990_000));
}

#[test]
fn energy_stops_at_the_lowest_value() {
    let mut game = Game::new();
    game.initialize_player(whole(0, 0));
    game.players[0].energy = raw(i64::MIN + 1);
    assert!(tick(&mut game, raw(20_000), &[east()]));
    assert_eq!(game.players[0].energy, raw(i64::MIN));
}

#[test]
fn used_up_ship_is_still_moved_and_struck() {
    let mut game = Game::new();
    game.initialize_player(whole(0, 0));
    game.players[0].health = raw(0);
    game.players[0].energy = raw(-1);
    game.players[0].kinematics.velocity = whole(1, 0);
    game.projectiles.push(shot(whole(0, 0), whole(0, 0), ProjectileType::Laser));
    assert!(tick(&mut game, Fixed::from_int(1), &[east()]));
    assert_eq!(game.players[0].health, Fixed::from_int(-1));
    assert_eq!(game.players[0].energy, raw(-10_001));
    assert_eq!(game.players[0].kinematics.location, whole(1, 0));
}

#[test]
fn each_ship_moves_along_its_own_heading() {
    let mut game = Game::new();
    game.initialize_player(whole(0, 0));
    game.initialize_player(whole(100, 100));
    let push = PlayerCtrl { thrust: Some(Fixed::from_int(2)), ..PlayerCtrl::absent() };
    game.process_player_input(0, push.clone());
    game.process_player_input(1, push);
    assert!(tick(&mut game, Fixed::from_int(1), &[east(), north()]));
    assert_eq!(game.players[0].kinematics.velocity, whole(2, 0));
    assert_eq!(game.players[0].kinematics.location, whole(2, 0));
    assert_eq!(game.players[1].kinematics.velocity, whole(0, 2));
    assert_eq!(game.players[1].kinematics.location, whole(100, 102));
}

#[test]
fn next_angles_are_the_angles_after_the_tick() {
    let mut game = Game::new();
    game.initialize_player(whole(0, 0));
    game.initialize_player(whole(1, 1));
    game.players[1].kinematics.theta = raw(1_000_000);
    game.players[1].kinematics.omega = raw(2_000_000);
    game.players[1].kinematics.alpha = raw(4_000_000);
    let dt = raw(500_000);
    let angles = game.next_angles(dt);
    assert_eq!(angles, vec![raw(0), raw(3_000_000)]);
    assert!(tick(&mut game, dt, &[east(), east()]));
    assert_eq!(game.players[0].kinematics.theta, angles[0]);
    assert_eq!(game.players[1].kinematics.theta, angles[1]);
    assert_eq!(game.players[1].kinematics.omega, raw(4_000_000));
}

#[test]
fn spawn_point_lies_on_the_spawn_circle() {
    assert_eq!(Game::spawn_point(east()), whole(1024, 0));
    assert_eq!(Game::spawn_point(north()), whole(0, 1024));
    let bearing = Heading { cos: raw(-600_000), sin: raw(800_000) };
    assert_eq!(
        Game::spawn_point(bearing),
        Vec2 { x: raw(-614_400_000), y: raw(819_200_000) }
    );
    for bearing in [east(), north(), bearing, Heading { cos: raw(280_000), sin: raw(-960_000) }] {
        let spawn = Game::spawn_point(bearing);
        assert_eq!(spawn.distance_key(Vec2::zero()), 1_048_576_000_000_000_000);
        assert_eq!(spawn.length(), Fixed::from_int(1024));
    }
}

#[test]
fn new_player_is_at_rest_and_full() {
    let mut game = Game::new();
    assert_eq!(game.initialize_player(whole(3, 4)), 0);
    assert_eq!(game.initialize_player(whole(5, 6)), 1);
    assert_eq!(game.players.len(), 2);
    let player = &game.players[1];
    assert_eq!(player.kinematics, KinematicData::at_rest(whole(5, 6)));
    assert_eq!(player.name, "[UNKNOWN]");
    assert_eq!(player.health, Fixed::from_int(100));
    assert_eq!(player.energy, Fixed::from_int(100));
    assert_eq!(player.inputs.name, None);
    assert_eq!(player.inputs.thrust, None);
    assert_eq!(player.inputs.torque, None);
    assert_eq!(player.inputs.metal_bullet, None);
    assert_eq!(player.inputs.laser_bullet, None);
    assert!(game.projectiles.is_empty());
}
