use arcade::asteroid::{splits_left, Asteroid, ASTEROID_SIZE};
use arcade::asteroids::{
    AsteroidsFrame, AsteroidsInput, AsteroidsSession, AsteroidsState, ASTEROID_COUNT,
};
use arcade::collision::{strike_one, sweep_all};
use arcade::flow::Flow;
use arcade::geometry::{Heading, Screen, Vector2};
use arcade::ship::{Bullet, Ship, ShipInput};

fn field() -> Screen {
    Screen::new(1_000_000, 600_000).unwrap()
}

fn still() -> Heading {
    Heading { sin: 0, cos: 0 }
}

fn rock(x: i64, y: i64, sides: u8, size: i64) -> Asteroid {
    Asteroid { position: Vector2 { x, y }, sides, size, rotation: 10_000 }
}

fn shot(x: i64, y: i64) -> Bullet {
    Bullet::new(Vector2 { x, y }, 0, still(), 0)
}

fn no_keys() -> ShipInput {
    ShipInput { thrust: false, left: false, right: false, fire: false, shield: false }
}

fn idle() -> AsteroidsInput {
    AsteroidsInput {
        start: false,
        restart: false,
        pause: false,
        quit: false,
        quit_held: false,
        ship: no_keys(),
    }
}

fn frame(now: u64, rocks: usize) -> AsteroidsFrame {
    AsteroidsFrame {
        now,
        seed: 11,
        ship_heading: Heading::up(),
        asteroid_headings: vec![still(); rocks],
    }
}

/// A running session with three large asteroids far from the ship.
fn running() -> AsteroidsSession {
    let mut s = AsteroidsSession::new(field(), 0, 3);
    s.state = AsteroidsState::Running;
    s.asteroids = vec![
        rock(200_000, 150_000, 12, ASTEROID_SIZE),
        rock(800_000, 150_000, 18, ASTEROID_SIZE),
        rock(800_000, 450_000, 24, ASTEROID_SIZE),
    ];
    s
}

#[test]
fn splits_left_follows_the_classes() {
    let expected: [(u8, u8); 14] = [
        (24, 3),
        (12, 3),
        (11, 2),
        (9, 2),
        (8, 1),
        (6, 1),
        (5, 0),
        (3, 0),
        (2, 0),
        (0, 0),
        (25, 0),
        (255, 0),
        (18, 3),
        (10, 2),
    ];
    for (sides, left) in expected {
        assert_eq!(splits_left(sides), left);
    }
}

#[test]
fn new_asteroid_is_of_the_largest_class_inside_the_margins() {
    let screen = field();
    let _ = Ship::new(&screen, 0, 42);
    for _ in 0..200 {
        let a = Asteroid::new(&screen);
        assert_eq!(a.size, 100_000);
        assert_eq!(splits_left(a.sides), 3);
        assert!(35_000 <= a.position.x && a.position.x <= 964_000);
        assert!(35_000 <= a.position.y && a.position.y <= 564_000);
        assert!(-360_000 <= a.rotation && a.rotation <= 359_000);
    }
}

#[test]
fn new_asteroids_differ_from_the_lower_bounds_of_their_draws() {
    let screen = field();
    let _ = Ship::new(&screen, 0, 42);
    let mut at_low_x: u32 = 0;
    let mut at_low_rotation: u32 = 0;
    let mut distinct_x: Vec<i64> = Vec::new();
    for _ in 0..50 {
        let a = Asteroid::new(&screen);
        if a.position.x == 35_000 {
            at_low_x += 1;
        }
        if a.rotation == -360_000 {
            at_low_rotation += 1;
        }
        if !distinct_x.contains(&a.position.x) {
            distinct_x.push(a.position.x);
        }
    }
    assert!(at_low_x < 50);
    assert!(at_low_rotation < 50);
    assert!(distinct_x.len() > 10);
}

#[test]
fn same_seed_gives_the_same_asteroids() {
    let a = AsteroidsSession::new(field(), 0, 99);
    let first: Vec<Asteroid> = a.asteroids.clone();
    let b = AsteroidsSession::new(field(), 0, 99);
    assert_eq!(first, b.asteroids);
    let c = AsteroidsSession::new(field(), 0, 100);
    assert_ne!(first, c.asteroids);
}

#[test]
fn collided_excludes_the_size_itself() {
    let a = rock(500_000, 300_000, 12, 100_000);
    assert!(a.collided(&Vector2 { x: 500_000, y: 300_000 }));
    assert!(a.collided(&Vector2 { x: 599_999, y: 300_000 }));
    assert!(!a.collided(&Vector2 { x: 600_000, y: 300_000 }));
    assert!(!a.collided(&Vector2 { x: 500_000, y: 200_000 }));
    assert!(a.collided(&Vector2 { x: 440_000, y: 220_001 }));
    assert!(!a.collided(&Vector2 { x: 440_000, y: 220_000 }));
}

#[test]
fn collided_is_false_for_an_asteroid_without_size() {
    let a = rock(500_000, 300_000, 3, 0);
    assert!(!a.collided(&Vector2 { x: 500_000, y: 300_000 }));
}

#[test]
fn resize_with_halves_the_size_and_turns_both_halves() {
    let mut a = Asteroid {
        position: Vector2 { x: 123_000, y: 456_000 },
        sides: 20,
        size: 100_000,
        rotation: -45_500,
    };
    let spawn = a.resize_with(10, 9);
    assert_eq!(
        a,
        Asteroid {
            position: Vector2 { x: 123_000, y: 456_000 },
            sides: 10,
            size: 50_000,
            rotation: -91_000,
        }
    );
    assert_eq!(
        spawn,
        Some(Asteroid {
            position: Vector2 { x: 123_000, y: 456_000 },
            sides: 9,
            size: 50_000,
            rotation: -136_500,
        })
    );
}

#[test]
fn resize_with_rounds_an_odd_size_down() {
    let mut a = rock(100_000, 100_000, 7, 12_501);
    let spawn = a.resize_with(4, 3).unwrap();
    assert_eq!(a.size, 6_250);
    assert_eq!(spawn.size, 6_250);
    assert_eq!(a.rotation, 20_000);
    assert_eq!(spawn.rotation, 30_000);
}

#[test]
fn resize_with_leaves_the_smallest_class_alone() {
    let mut a = rock(100_000, 100_000, 4, 12_500);
    let before = a;
    assert_eq!(a.resize_with(3, 3), None);
    assert_eq!(a, before);
    let mut three = rock(100_000, 100_000, 3, 1);
    assert_eq!(three.resize_with(5, 5), None);
    assert_eq!(three, rock(100_000, 100_000, 3, 1));
}

#[test]
fn largest_asteroid_splits_three_times_and_is_then_removed() {
    let _ = Ship::new(&field(), 0, 5);
    for sides in [12u8, 17, 24] {
        let mut a = rock(300_000, 300_000, sides, ASTEROID_SIZE);
        let first = a.resize().unwrap();
        assert_eq!((splits_left(a.sides), splits_left(first.sides)), (2, 2));
        assert_eq!((a.size, first.size), (50_000, 50_000));
        assert_eq!((a.rotation, first.rotation), (20_000, 30_000));
        let second = a.resize().unwrap();
        assert_eq!((splits_left(a.sides), splits_left(second.sides)), (1, 1));
        assert_eq!((a.size, second.size), (25_000, 25_000));
        assert_eq!((a.rotation, second.rotation), (40_000, 60_000));
        let third = a.resize().unwrap();
        assert_eq!((splits_left(a.sides), splits_left(third.sides)), (0, 0));
        assert_eq!((a.size, third.size), (12_500, 12_500));
        assert_eq!((a.rotation, third.rotation), (80_000, 120_000));
        assert!((3..=5).contains(&a.sides) && (3..=5).contains(&third.sides));
        let settled = a;
        assert_eq!(a.resize(), None);
        assert_eq!(a, settled);
        assert_eq!(a.position, Vector2 { x: 300_000, y: 300_000 });
        assert_eq!(third.position, Vector2 { x: 300_000, y: 300_000 });
    }
}

#[test]
fn resize_draws_sides_of_the_next_class() {
    let _ = Ship::new(&field(), 0, 8);
    for _ in 0..100 {
        let mut large = rock(300_000, 300_000, 12, ASTEROID_SIZE);
        let spawn = large.resize().unwrap();
        assert!((9..=11).contains(&large.sides) && (9..=11).contains(&spawn.sides));
        let mut medium = rock(300_000, 300_000, 9, 50_000);
        let spawn = medium.resize().unwrap();
        assert!((6..=8).contains(&medium.sides) && (6..=8).contains(&spawn.sides));
    }
}

#[test]
fn mv_with_moves_along_the_heading() {
    let screen = field();
    let mut a = rock(500_000, 300_000, 12, ASTEROID_SIZE);
    a.mv_with(Heading::up(), 4_000, &screen);
    assert_eq!(a.position, Vector2 { x: 500_000, y: 296_000 });
    a.mv_with(Heading { sin: 1_000, cos: 0 }, 4_500, &screen);
    assert_eq!(a.position, Vector2 { x: 504_500, y: 296_000 });
    a.mv_with(Heading { sin: -600, cos: -800 }, 5_000, &screen);
    assert_eq!(a.position, Vector2 { x: 501_500, y: 300_000 });
    assert_eq!((a.sides, a.size, a.rotation), (12, ASTEROID_SIZE, 10_000));
}

#[test]
fn mv_with_wraps_at_the_edges() {
    let screen = field();
    let mut a = rock(999_000, 1_000, 12, ASTEROID_SIZE);
    a.mv_with(Heading { sin: 1_000, cos: 1_000 }, 4_000, &screen);
    assert_eq!(a.position, Vector2 { x: 0, y: 600_000 });
    let mut b = rock(1_000, 599_000, 12, ASTEROID_SIZE);
    b.mv_with(Heading { sin: -1_000, cos: -1_000 }, 4_000, &screen);
    assert_eq!(b.position, Vector2 { x: 1_000_000, y: 0 });
}

#[test]
fn mv_drifts_faster_the_smaller_the_class() {
    let screen = field();
    let _ = Ship::new(&screen, 0, 21);
    let classes: [(u8, i64); 5] = [(12, 4_000), (9, 5_000), (6, 6_000), (3, 7_000), (5, 7_000)];
    for (sides, low) in classes {
        let mut moved: Vec<i64> = Vec::new();
        for _ in 0..60 {
            let mut a = rock(500_000, 300_000, sides, 10_000);
            a.mv(Heading { sin: 1_000, cos: 0 }, &screen);
            let step: i64 = a.position.x - 500_000;
            assert!(low <= step && step <= low + 1_000);
            assert_eq!(a.position.y, 300_000);
            if !moved.contains(&step) {
                moved.push(step);
            }
        }
        assert!(moved.len() > 5);
    }
}

#[test]
fn new_ship_stands_in_the_middle() {
    let ship = Ship::new(&field(), 1_234, 1);
    assert_eq!(ship.position, Vector2 { x: 500_000, y: 300_000 });
    assert_eq!(ship.rotation, 0);
    assert!(ship.bullets.is_empty());
    assert!(!ship.has_shield);
    assert_eq!(ship.last_time_shot, 1_234);
}

#[test]
fn shoot_waits_for_more_than_the_delay() {
    let mut ship = Ship::new(&field(), 1_000, 1);
    ship.shoot(Heading::up(), 1_050);
    assert_eq!(ship.bullets.len(), 0);
    ship.shoot(Heading::up(), 1_100);
    assert_eq!(ship.bullets.len(), 0);
    assert_eq!(ship.last_time_shot, 1_000);
    ship.shoot(Heading::up(), 1_101);
    assert_eq!(ship.bullets.len(), 1);
    assert_eq!(ship.last_time_shot, 1_101);
    assert_eq!(
        ship.bullets[0],
        Bullet {
            position: Vector2 { x: 500_000, y: 300_000 },
            rotation: 0,
            heading: Heading::up(),
            time_shot_out: 1_101,
            collided: false,
        }
    );
}

#[test]
fn two_fire_keys_within_the_delay_bring_one_bullet() {
    let mut ship = Ship::new(&field(), 0, 1);
    ship.shoot(Heading::up(), 500);
    ship.shoot(Heading::up(), 599);
    assert_eq!(ship.bullets.len(), 1);
    ship.shoot(Heading::up(), 600);
    assert_eq!(ship.bullets.len(), 1);
    ship.shoot(Heading::up(), 601);
    assert_eq!(ship.bullets.len(), 2);
}

#[test]
fn shoot_does_nothing_when_the_clock_runs_backwards() {
    let mut ship = Ship::new(&field(), 5_000, 1);
    ship.shoot(Heading::up(), 10);
    assert!(ship.bullets.is_empty());
    assert_eq!(ship.last_time_shot, 5_000);
}

#[test]
fn ship_mv_thrusts_along_the_heading() {
    let screen = field();
    let mut ship = Ship::new(&screen, 0, 1);
    let keys = ShipInput { thrust: true, ..no_keys() };
    ship.mv(&keys, Heading::up(), 10, &screen);
    assert_eq!(ship.position, Vector2 { x: 500_000, y: 296_000 });
    ship.mv(&keys, Heading { sin: 1_000, cos: 0 }, 20, &screen);
    assert_eq!(ship.position, Vector2 { x: 504_000, y: 296_000 });
    ship.mv(&keys, Heading { sin: 707, cos: -707 }, 30, &screen);
    assert_eq!(ship.position, Vector2 { x: 506_828, y: 298_828 });
    ship.mv(&no_keys(), Heading::up(), 40, &screen);
    assert_eq!(ship.position, Vector2 { x: 506_828, y: 298_828 });
}

#[test]
fn ship_mv_wraps_at_the_edges() {
    let screen = field();
    let mut ship = Ship::new(&screen, 0, 1);
    ship.position = Vector2 { x: 999_000, y: 2_000 };
    let keys = ShipInput { thrust: true, ..no_keys() };
    ship.mv(&keys, Heading { sin: 1_000, cos: 1_000 }, 10, &screen);
    assert_eq!(ship.position, Vector2 { x: 0, y: 600_000 });
}

#[test]
fn ship_mv_turns_five_degrees_for_each_key() {
    let screen = field();
    let mut ship = Ship::new(&screen, 0, 1);
    let left = ShipInput { left: true, ..no_keys() };
    let right = ShipInput { right: true, ..no_keys() };
    let both = ShipInput { left: true, right: true, ..no_keys() };
    ship.mv(&left, Heading::up(), 10, &screen);
    assert_eq!(ship.rotation, -5_000);
    ship.mv(&right, Heading::up(), 20, &screen);
    ship.mv(&right, Heading::up(), 30, &screen);
    assert_eq!(ship.rotation, 5_000);
    ship.mv(&both, Heading::up(), 40, &screen);
    assert_eq!(ship.rotation, 5_000);
    ship.mv(&no_keys(), Heading::up(), 50, &screen);
    assert_eq!(ship.rotation, 5_000);
}

#[test]
fn ship_mv_turns_on_past_a_full_turn() {
    let screen = field();
    let mut ship = Ship::new(&screen, 0, 1);
    let left = ShipInput { left: true, ..no_keys() };
    let right = ShipInput { right: true, ..no_keys() };
    ship.rotation = 358_000;
    ship.mv(&right, Heading::up(), 10, &screen);
    assert_eq!(ship.rotation, 363_000);
    ship.rotation = -358_000;
    ship.mv(&left, Heading::up(), 20, &screen);
    assert_eq!(ship.rotation, -363_000);
    ship.rotation = 720_000;
    ship.mv(&right, Heading::up(), 30, &screen);
    assert_eq!(ship.rotation, 725_000);
    for _ in 0..200 {
        ship.mv(&right, Heading::up(), 40, &screen);
    }
    assert_eq!(ship.rotation, 1_725_000);
}

#[test]
fn can_turn_tells_whether_the_rotation_has_room() {
    let screen = field();
    let mut ship = Ship::new(&screen, 0, 1);
    let left = ShipInput { left: true, ..no_keys() };
    let right = ShipInput { right: true, ..no_keys() };
    let both = ShipInput { left: true, right: true, ..no_keys() };
    assert!(ship.can_turn(&left) && ship.can_turn(&right) && ship.can_turn(&both));
    ship.rotation = 9_000_000_000_000_000_000;
    assert!(ship.can_turn(&left));
    assert!(!ship.can_turn(&right));
    assert!(ship.can_turn(&both));
    assert!(ship.can_turn(&no_keys()));
    ship.rotation = 8_999_999_999_999_995_000;
    assert!(ship.can_turn(&right));
    ship.rotation = 8_999_999_999_999_995_001;
    assert!(!ship.can_turn(&right));
    ship.rotation = -9_000_000_000_000_000_000;
    assert!(!ship.can_turn(&left));
    assert!(ship.can_turn(&right));
    assert!(ship.can_turn(&both));
    ship.rotation = i64::MAX;
    assert!(!ship.can_turn(&no_keys()) && !ship.can_turn(&right) && !ship.can_turn(&left));
    ship.rotation = i64::MIN;
    assert!(!ship.can_turn(&no_keys()) && !ship.can_turn(&right) && !ship.can_turn(&left));
}

#[test]
fn shield_is_up_while_its_key_is_held_and_no_shot_is_asked() {
    let screen = field();
    let mut ship = Ship::new(&screen, 0, 1);
    let shield = ShipInput { shield: true, ..no_keys() };
    let both = ShipInput { shield: true, fire: true, ..no_keys() };
    ship.mv(&shield, Heading::up(), 10, &screen);
    assert!(ship.has_shield);
    ship.mv(&both, Heading::up(), 20, &screen);
    assert!(!ship.has_shield);
    ship.mv(&shield, Heading::up(), 30, &screen);
    assert!(ship.has_shield);
    ship.mv(&no_keys(), Heading::up(), 40, &screen);
    assert!(!ship.has_shield);
}

#[test]
fn ship_mv_fires_from_where_the_thrust_took_it() {
    let screen = field();
    let mut ship = Ship::new(&screen, 0, 1);
    ship.rotation = 90_000;
    let keys = ShipInput { thrust: true, fire: true, right: true, ..no_keys() };
    let east = Heading { sin: 1_000, cos: 0 };
    ship.mv(&keys, east, 500, &screen);
    assert_eq!(ship.rotation, 95_000);
    assert_eq!(
        ship.bullets,
        vec![Bullet {
            position: Vector2 { x: 504_000, y: 300_000 },
            rotation: 90_000,
            heading: east,
            time_shot_out: 500,
            collided: false,
        }]
    );
    assert_eq!(ship.last_time_shot, 500);
}

#[test]
fn bullet_update_with_moves_both_ways_and_wraps() {
    let screen = field();
    let mut b = Bullet::new(Vector2 { x: 500_000, y: 300_000 }, 0, Heading::up(), 0);
    b.update_with(7_000, -8_000, &screen);
    assert_eq!(b.position, Vector2 { x: 500_000, y: 292_000 });
    let mut c = Bullet::new(
        Vector2 { x: 500_000, y: 300_000 },
        30_000,
        Heading { sin: 500, cos: 866 },
        0,
    );
    c.update_with(7_000, -8_000, &screen);
    assert_eq!(c.position, Vector2 { x: 503_500, y: 293_072 });
    let mut d = Bullet::new(Vector2 { x: 998_000, y: 3_000 }, 45_000, Heading { sin: 707, cos: 707 }, 0);
    d.update_with(10_000, -10_000, &screen);
    assert_eq!(d.position, Vector2 { x: 0, y: 600_000 });
    assert_eq!((d.rotation, d.time_shot_out, d.collided), (45_000, 0, false));
}

#[test]
fn bullet_update_steps_between_five_and_ten_units() {
    let screen = field();
    let _ = Ship::new(&screen, 0, 77);
    let mut steps: Vec<(i64, i64)> = Vec::new();
    for _ in 0..100 {
        let mut b = Bullet::new(
            Vector2 { x: 500_000, y: 300_000 },
            0,
            Heading { sin: 1_000, cos: 1_000 },
            0,
        );
        b.update(&screen);
        let dx: i64 = b.position.x - 500_000;
        let dy: i64 = b.position.y - 300_000;
        assert!(5_000 <= dx && dx <= 10_000);
        assert!(-10_000 <= dy && dy <= -5_000);
        if !steps.contains(&(dx, dy)) {
            steps.push((dx, dy));
        }
    }
    assert!(steps.len() > 10);
}

#[test]
fn bullet_expires_when_its_range_has_passed_and_not_before() {
    let b = Bullet::new(Vector2 { x: 0, y: 0 }, 0, Heading::up(), 2_000);
    assert!(!b.expired(2_000));
    assert!(!b.expired(2_999));
    assert!(b.expired(3_000));
    assert!(b.expired(3_001));
    assert!(!b.expired(0));
    assert!(b.expired(u64::MAX));
}

#[test]
fn retain_bullets_keeps_the_live_ones_in_order() {
    let mut ship = Ship::new(&field(), 0, 1);
    let mut hit = shot(1, 1);
    hit.collided = true;
    let mut old = shot(2, 2);
    old.time_shot_out = 500;
    let mut young = shot(3, 3);
    young.time_shot_out = 501;
    let mut later = shot(4, 4);
    later.time_shot_out = 1_400;
    let mut ahead = shot(5, 5);
    ahead.time_shot_out = 9_000;
    ship.bullets = vec![hit, old, young, later, ahead];
    ship.retain_bullets(1_500);
    assert_eq!(ship.bullets, vec![young, later, ahead]);
    ship.retain_bullets(1_501);
    assert_eq!(ship.bullets, vec![later, ahead]);
    ship.retain_bullets(20_000);
    assert!(ship.bullets.is_empty());
}

#[test]
fn update_bullets_moves_every_bullet() {
    let screen = field();
    let mut ship = Ship::new(&screen, 0, 13);
    for k in 0..5 {
        ship.bullets.push(Bullet::new(
            Vector2 { x: 100_000 * (k + 1), y: 300_000 },
            0,
            Heading::up(),
            0,
        ));
    }
    ship.update_bullets(&screen);
    assert_eq!(ship.bullets.len(), 5);
    for k in 0..5 {
        let b = ship.bullets[k as usize];
        assert_eq!(b.position.x, 100_000 * (k + 1));
        assert!(290_000 <= b.position.y && b.position.y <= 295_000);
    }
    assert_eq!(ship.position, Vector2 { x: 500_000, y: 300_000 });
}

#[test]
fn strike_one_splits_once_for_each_bullet_that_still_reaches() {
    let mut a = rock(300_000, 300_000, 12, ASTEROID_SIZE);
    // The second bullet is 60 units away: inside the full size, outside the
    // half size that the first bullet leaves.
    let bullets = vec![shot(300_000, 300_000), shot(360_000, 300_000), shot(300_000, 310_000)];
    let mut marks = vec![false, true, false];
    let mut spawned: Vec<Asteroid> = vec![rock(1, 1, 3, 10)];
    let gone = strike_one(&mut a, &bullets, &mut marks, &mut spawned);
    assert!(!gone);
    assert_eq!(marks, vec![true, true, true]);
    assert_eq!((a.size, a.rotation, splits_left(a.sides)), (25_000, 40_000, 1));
    assert_eq!(spawned.len(), 3);
    assert_eq!(spawned[0], rock(1, 1, 3, 10));
    assert_eq!(
        (spawned[1].size, spawned[1].rotation, splits_left(spawned[1].sides)),
        (50_000, 30_000, 2)
    );
    assert_eq!(
        (spawned[2].size, spawned[2].rotation, splits_left(spawned[2].sides)),
        (25_000, 60_000, 1)
    );
    assert_eq!(spawned[2].position, Vector2 { x: 300_000, y: 300_000 });
}

#[test]
fn strike_one_marks_only_the_bullets_that_hit() {
    let mut a = rock(300_000, 300_000, 4, 12_500);
    let bullets = vec![shot(400_000, 300_000), shot(300_000, 305_000), shot(312_500, 300_000)];
    let mut marks = vec![false, false, false];
    let mut spawned: Vec<Asteroid> = Vec::new();
    let gone = strike_one(&mut a, &bullets, &mut marks, &mut spawned);
    assert!(gone);
    assert_eq!(marks, vec![false, true, false]);
    assert!(spawned.is_empty());
    assert_eq!(a, rock(300_000, 300_000, 4, 12_500));
}

#[test]
fn four_bullets_at_its_place_clear_a_largest_asteroid() {
    let mut a = rock(300_000, 300_000, 24, ASTEROID_SIZE);
    let bullets = vec![shot(300_000, 300_000); 4];
    let mut marks = vec![false; 4];
    let mut spawned: Vec<Asteroid> = Vec::new();
    assert!(strike_one(&mut a, &bullets, &mut marks, &mut spawned));
    assert_eq!(marks, vec![true; 4]);
    assert_eq!(spawned.len(), 3);
    assert_eq!(splits_left(a.sides), 0);
    let mut b = rock(300_000, 300_000, 24, ASTEROID_SIZE);
    let three = vec![shot(300_000, 300_000); 3];
    let mut marks = vec![false; 3];
    let mut spawned: Vec<Asteroid> = Vec::new();
    assert!(!strike_one(&mut b, &three, &mut marks, &mut spawned));
    assert_eq!(spawned.len(), 3);
}

#[test]
fn sweep_all_puts_survivors_first_and_the_split_off_after_them() {
    let screen = field();
    let mut rocks = vec![
        rock(100_000, 100_000, 4, 12_500),
        rock(300_000, 300_000, 12, ASTEROID_SIZE),
        rock(700_000, 100_000, 7, 25_000),
        rock(900_000, 500_000, 9, 50_000),
    ];
    let bullets = vec![
        shot(100_000, 100_000),
        shot(700_000, 110_000),
        shot(500_000, 500_000),
        shot(300_000, 300_000),
    ];
    let ship = Vector2 { x: 500_000, y: 300_000 };
    let (marks, touched) = sweep_all(&mut rocks, &bullets, &ship, &screen);
    assert!(!touched);
    assert_eq!(marks, vec![true, true, false, true]);
    assert_eq!(rocks.len(), 5);
    let seen: Vec<(i64, i64, u8, i64, i64)> = rocks
        .iter()
        .map(|a| (a.position.x, a.position.y, splits_left(a.sides), a.size, a.rotation))
        .collect();
    assert_eq!(
        seen,
        vec![
            (300_000, 300_000, 2, 50_000, 20_000),
            (700_000, 100_000, 0, 12_500, 20_000),
            (900_000, 500_000, 2, 50_000, 10_000),
            (300_000, 300_000, 2, 50_000, 30_000),
            (700_000, 100_000, 0, 12_500, 30_000),
        ]
    );
}

#[test]
fn sweep_all_measures_the_ship_against_the_sizes_after_the_hits() {
    let screen = field();
    let ship = Vector2 { x: 500_000, y: 300_000 };
    let mut near = vec![rock(560_000, 300_000, 12, ASTEROID_SIZE)];
    let (_, touched) = sweep_all(&mut near, &Vec::new(), &ship, &screen);
    assert!(touched);
    let mut halved = vec![rock(560_000, 300_000, 12, ASTEROID_SIZE)];
    let (marks, touched) = sweep_all(&mut halved, &vec![shot(560_000, 300_000)], &ship, &screen);
    assert_eq!(marks, vec![true]);
    assert!(!touched);
    assert_eq!(halved.len(), 2);
}

#[test]
fn sweep_all_lets_a_removed_asteroid_still_touch_the_ship() {
    let screen = field();
    let ship = Vector2 { x: 500_000, y: 300_000 };
    let mut rocks = vec![rock(505_000, 300_000, 3, 12_500)];
    let (marks, touched) = sweep_all(&mut rocks, &vec![shot(505_000, 300_000)], &ship, &screen);
    assert_eq!(marks, vec![true]);
    assert!(touched);
    assert!(rocks.is_empty());
}

#[test]
fn sweep_all_without_bullets_changes_nothing() {
    let screen = field();
    let mut rocks = vec![rock(100_000, 100_000, 4, 12_500), rock(300_000, 300_000, 12, 100_000)];
    let before = rocks.clone();
    let (marks, touched) =
        sweep_all(&mut rocks, &Vec::new(), &Vector2 { x: 900_000, y: 500_000 }, &screen);
    assert!(marks.is_empty());
    assert!(!touched);
    assert_eq!(rocks, before);
    let mut none: Vec<Asteroid> = Vec::new();
    let (marks, touched) =
        sweep_all(&mut none, &vec![shot(1, 1)], &Vector2 { x: 900_000, y: 500_000 }, &screen);
    assert_eq!(marks, vec![false]);
    assert!(!touched);
    assert!(none.is_empty());
}

#[test]
fn new_session_starts_with_three_largest_asteroids() {
    let s = AsteroidsSession::new(field(), 700, 4);
    assert_eq!(s.state, AsteroidsState::Startup);
    assert_eq!(s.screen, field());
    assert_eq!(s.asteroids.len(), ASTEROID_COUNT);
    assert_eq!(s.asteroids.len(), 3);
    for a in &s.asteroids {
        assert_eq!(splits_left(a.sides), 3);
        assert_eq!(a.size, ASTEROID_SIZE);
    }
    assert_eq!(s.ship.position, Vector2 { x: 500_000, y: 300_000 });
    assert_eq!(s.ship.last_time_shot, 700);
    assert!(s.ship.bullets.is_empty());
}

#[test]
fn start_screen_waits_begins_or_leaves() {
    let mut s = AsteroidsSession::new(field(), 0, 4);
    let rocks = s.asteroids.clone();
    assert_eq!(s.step(&idle(), &frame(10, 0)), Flow::Next);
    assert_eq!(s.state, AsteroidsState::Startup);
    let busy = AsteroidsInput {
        quit: true,
        quit_held: true,
        restart: true,
        ship: ShipInput { thrust: true, left: true, right: false, fire: true, shield: true },
        ..idle()
    };
    assert_eq!(s.step(&busy, &frame(20, 0)), Flow::Next);
    assert_eq!(s.state, AsteroidsState::Startup);
    let leave = AsteroidsInput { pause: true, start: true, ..idle() };
    assert_eq!(s.step(&leave, &frame(30, 0)), Flow::Leave);
    assert_eq!(s.state, AsteroidsState::Startup);
    let start = AsteroidsInput { start: true, ..idle() };
    assert_eq!(s.step(&start, &frame(40, 0)), Flow::Countdown);
    assert_eq!(s.state, AsteroidsState::Running);
    assert_eq!(s.asteroids, rocks);
    assert!(s.ship.bullets.is_empty());
    assert_eq!(s.ship.position, Vector2 { x: 500_000, y: 300_000 });
}

#[test]
fn pause_freezes_everything_until_it_ends() {
    let mut s = running();
    s.ship.bullets = vec![shot(10_000, 10_000)];
    let pause = AsteroidsInput { pause: true, ..idle() };
    assert_eq!(s.step(&pause, &frame(10, 3)), Flow::Next);
    assert_eq!(s.state, AsteroidsState::Paused);
    let rocks = s.asteroids.clone();
    let bullets = s.ship.bullets.clone();
    let busy = AsteroidsInput {
        start: true,
        restart: true,
        quit_held: true,
        ship: ShipInput { thrust: true, left: true, right: false, fire: true, shield: true },
        ..idle()
    };
    assert_eq!(s.step(&busy, &frame(5_000, 0)), Flow::Next);
    assert_eq!(s.state, AsteroidsState::Paused);
    assert_eq!(s.asteroids, rocks);
    assert_eq!(s.ship.bullets, bullets);
    assert_eq!(s.ship.rotation, 0);
    let quit = AsteroidsInput { quit: true, pause: true, ..idle() };
    assert_eq!(s.step(&quit, &frame(5_100, 0)), Flow::Leave);
    assert_eq!(s.state, AsteroidsState::Paused);
    assert_eq!(s.step(&pause, &frame(5_200, 0)), Flow::Countdown);
    assert_eq!(s.state, AsteroidsState::Running);
    assert_eq!(s.asteroids, rocks);
}

#[test]
fn end_screens_restart_or_leave() {
    for end in [AsteroidsState::Win, AsteroidsState::Lose] {
        let mut s = running();
        s.state = end;
        s.asteroids.truncate(1);
        s.ship.bullets = vec![shot(1, 1)];
        s.ship.rotation = 45_000;
        assert_eq!(s.step(&idle(), &frame(100, 0)), Flow::Next);
        assert_eq!(s.state, end);
        assert_eq!(s.asteroids.len(), 1);
        let leave = AsteroidsInput { quit_held: true, ..idle() };
        assert_eq!(s.step(&leave, &frame(200, 0)), Flow::Leave);
        assert_eq!(s.state, end);
        assert_eq!(s.ship.bullets.len(), 1);
        let pressed = AsteroidsInput { quit: true, start: true, pause: true, ..idle() };
        assert_eq!(s.step(&pressed, &frame(250, 0)), Flow::Next);
        assert_eq!(s.state, end);
        let again = AsteroidsInput { restart: true, ..idle() };
        assert_eq!(s.step(&again, &frame(300, 0)), Flow::Next);
        assert_eq!(s.state, AsteroidsState::Startup);
        assert_eq!(s.asteroids.len(), 3);
        for a in &s.asteroids {
            assert_eq!((splits_left(a.sides), a.size), (3, ASTEROID_SIZE));
        }
        assert!(s.ship.bullets.is_empty());
        assert_eq!(s.ship.rotation, 0);
        assert_eq!(s.ship.last_time_shot, 300);
        s.state = end;
        let both = AsteroidsInput { restart: true, quit_held: true, ..idle() };
        assert_eq!(s.step(&both, &frame(400, 0)), Flow::Leave);
        assert_eq!(s.state, AsteroidsState::Startup);
    }
}

#[test]
fn accepts_asks_for_one_valid_heading_for_each_asteroid_in_play() {
    let mut s = running();
    assert!(s.accepts(&idle(), &frame(0, 3)));
    assert!(!s.accepts(&idle(), &frame(0, 2)));
    assert!(!s.accepts(&idle(), &frame(0, 4)));
    let mut bent = frame(0, 3);
    bent.asteroid_headings[2] = Heading { sin: 0, cos: 1_001 };
    assert!(!s.accepts(&idle(), &bent));
    let mut off = frame(0, 3);
    off.ship_heading = Heading { sin: -1_001, cos: 0 };
    assert!(!s.accepts(&idle(), &off));
    s.state = AsteroidsState::Paused;
    assert!(s.accepts(&idle(), &frame(0, 0)));
    assert!(s.accepts(&idle(), &bent));
    assert!(!s.accepts(&idle(), &off));
}

#[test]
fn accepts_asks_for_room_to_turn_in_play() {
    let mut s = running();
    let right = AsteroidsInput { ship: ShipInput { right: true, ..no_keys() }, ..idle() };
    let left = AsteroidsInput { ship: ShipInput { left: true, ..no_keys() }, ..idle() };
    assert!(s.accepts(&right, &frame(0, 3)));
    s.ship.rotation = 9_000_000_000_000_000_000;
    assert!(!s.accepts(&right, &frame(0, 3)));
    assert!(s.accepts(&left, &frame(0, 3)));
    assert!(s.accepts(&idle(), &frame(0, 3)));
    s.state = AsteroidsState::Paused;
    assert!(s.accepts(&right, &frame(0, 3)));
}

#[test]
fn play_steers_flies_drifts_and_keeps_running() {
    let mut s = running();
    let keys = AsteroidsInput {
        ship: ShipInput { thrust: true, fire: true, left: true, ..no_keys() },
        ..idle()
    };
    let mut f = frame(500, 3);
    f.asteroid_headings = vec![Heading { sin: 1_000, cos: 0 }; 3];
    assert_eq!(s.step(&keys, &f), Flow::Next);
    assert_eq!(s.state, AsteroidsState::Running);
    assert_eq!(s.ship.position, Vector2 { x: 500_000, y: 296_000 });
    assert_eq!(s.ship.rotation, -5_000);
    assert_eq!(s.ship.bullets.len(), 1);
    let b = s.ship.bullets[0];
    assert_eq!(b.position.x, 500_000);
    assert!(286_000 <= b.position.y && b.position.y <= 291_000);
    assert_eq!((b.time_shot_out, b.collided), (500, false));
    let starts: [i64; 3] = [200_000, 800_000, 800_000];
    for k in 0..3 {
        let dx: i64 = s.asteroids[k].position.x - starts[k];
        assert!(4_000 <= dx && dx <= 5_000);
    }
}

#[test]
fn play_drops_bullets_at_the_end_of_their_range() {
    let mut s = running();
    let mut young = shot(10_000, 10_000);
    young.time_shot_out = 1;
    s.ship.bullets = vec![shot(20_000, 20_000), young];
    assert_eq!(s.step(&idle(), &frame(999, 3)), Flow::Next);
    assert_eq!(s.ship.bullets, vec![shot(20_000, 20_000), young]);
    assert_eq!(s.step(&idle(), &frame(1_000, 3)), Flow::Next);
    assert_eq!(s.ship.bullets, vec![young]);
    assert_eq!(s.step(&idle(), &frame(1_001, 3)), Flow::Next);
    assert!(s.ship.bullets.is_empty());
}

#[test]
fn play_pauses_after_the_frame_was_played() {
    let mut s = running();
    s.ship.bullets = vec![shot(200_000, 150_000)];
    let pause = AsteroidsInput { pause: true, ..idle() };
    assert_eq!(s.step(&pause, &frame(0, 3)), Flow::Next);
    assert_eq!(s.state, AsteroidsState::Paused);
    assert_eq!(s.asteroids.len(), 4);
    assert!(s.ship.bullets.is_empty());
}

#[test]
fn touching_an_asteroid_without_the_shield_loses() {
    let mut s = running();
    s.asteroids.push(rock(500_000, 399_999, 12, ASTEROID_SIZE));
    assert_eq!(s.step(&idle(), &frame(0, 4)), Flow::Next);
    assert_eq!(s.state, AsteroidsState::Lose);
}

#[test]
fn an_asteroid_exactly_its_size_away_does_not_touch() {
    let mut s = running();
    s.asteroids.push(rock(500_000, 400_000, 12, ASTEROID_SIZE));
    assert_eq!(s.step(&idle(), &frame(0, 4)), Flow::Next);
    assert_eq!(s.state, AsteroidsState::Running);
}

#[test]
fn the_shield_saves_the_ship_unless_it_fires() {
    let mut s = running();
    s.asteroids.push(rock(500_000, 350_000, 12, ASTEROID_SIZE));
    let shielded = AsteroidsInput { ship: ShipInput { shield: true, ..no_keys() }, ..idle() };
    assert_eq!(s.step(&shielded, &frame(0, 4)), Flow::Next);
    assert_eq!(s.state, AsteroidsState::Running);
    assert!(s.ship.has_shield);
    let firing =
        AsteroidsInput { ship: ShipInput { shield: true, fire: true, ..no_keys() }, ..idle() };
    let mut f = frame(10, 4);
    f.ship_heading = still();
    assert_eq!(s.step(&firing, &f), Flow::Next);
    assert_eq!(s.state, AsteroidsState::Lose);
}

#[test]
fn losing_comes_before_winning_and_pausing() {
    let mut s = running();
    s.asteroids = vec![rock(505_000, 300_000, 3, 12_500)];
    s.ship.bullets = vec![shot(505_000, 300_000)];
    let pause = AsteroidsInput { pause: true, ..idle() };
    assert_eq!(s.step(&pause, &frame(0, 1)), Flow::Next);
    assert!(s.asteroids.is_empty());
    assert_eq!(s.state, AsteroidsState::Lose);
}

#[test]
fn winning_comes_before_pausing() {
    let mut s = running();
    s.asteroids = vec![rock(100_000, 100_000, 3, 12_500)];
    s.ship.bullets = vec![shot(100_000, 100_000)];
    let pause = AsteroidsInput { pause: true, ..idle() };
    assert_eq!(s.step(&pause, &frame(0, 1)), Flow::Next);
    assert!(s.asteroids.is_empty());
    assert_eq!(s.state, AsteroidsState::Win);
}

#[test]
fn clearing_all_three_asteroids_wins() {
    let mut s = running();
    let places: [(i64, i64); 3] = [(200_000, 150_000), (800_000, 150_000), (800_000, 450_000)];
    let mut expected: Vec<usize> = Vec::new();
    // One bullet at an asteroid's place hits everything that lies there: the
    // count there goes 1, 2, 4, 8 and then 0.
    for left in [2usize, 1, 0] {
        for here in [2usize, 4, 8, 0] {
            expected.push(left + here);
        }
    }
    let mut seen: Vec<usize> = Vec::new();
    let mut hits: usize = 0;
    let mut now: u64 = 0;
    for (x, y) in places {
        for _ in 0..4 {
            assert_eq!(s.state, AsteroidsState::Running);
            let there: usize = s
                .asteroids
                .iter()
                .filter(|a| a.position == Vector2 { x, y })
                .count();
            hits += there;
            s.ship.bullets = vec![Bullet::new(Vector2 { x, y }, 0, still(), now)];
            let f = frame(now, s.asteroids.len());
            assert!(s.accepts(&idle(), &f));
            assert_eq!(s.step(&idle(), &f), Flow::Next);
            assert!(s.ship.bullets.is_empty());
            seen.push(s.asteroids.len());
            now += 16;
        }
    }
    assert_eq!(seen, expected);
    assert_eq!(hits, 45);
    assert_eq!(s.state, AsteroidsState::Win);
}

#[test]
fn a_full_clearing_takes_one_asteroid_off_the_count() {
    let screen = field();
    let ship = Vector2 { x: 500_000, y: 300_000 };
    let mut rocks = vec![
        rock(200_000, 150_000, 12, ASTEROID_SIZE),
        rock(800_000, 150_000, 18, ASTEROID_SIZE),
        rock(800_000, 450_000, 24, ASTEROID_SIZE),
    ];
    let mut counts: Vec<usize> = Vec::new();
    for _ in 0..4 {
        let (marks, touched) = sweep_all(&mut rocks, &vec![shot(200_000, 150_000)], &ship, &screen);
        assert_eq!(marks, vec![true]);
        assert!(!touched);
        counts.push(rocks.len());
    }
    assert_eq!(counts, vec![4, 6, 10, 2]);
    assert_eq!(rocks[0].position, Vector2 { x: 800_000, y: 150_000 });
    assert_eq!(rocks[1].position, Vector2 { x: 800_000, y: 450_000 });
}

#[test]
fn strike_one_leaves_an_asteroid_that_no_bullet_met_as_it_is() {
    for sides in [3u8, 5, 7, 11, 13, 24] {
        let mut a = rock(300_000, 300_000, sides, 40_000);
        let before = a;
        let bullets = vec![shot(340_000, 300_000), shot(100_000, 100_000)];
        let mut marks = vec![false, false];
        let mut spawned: Vec<Asteroid> = Vec::new();
        assert!(!strike_one(&mut a, &bullets, &mut marks, &mut spawned));
        assert_eq!(a, before);
        assert_eq!(marks, vec![false, false]);
        assert!(spawned.is_empty());
    }
}

#[test]
fn sweep_all_leaves_the_asteroids_that_no_bullet_met_as_they_are() {
    let screen = field();
    let first = rock(100_000, 100_000, 5, 12_500);
    let second = rock(300_000, 300_000, 23, ASTEROID_SIZE);
    let third = rock(700_000, 100_000, 4, 12_500);
    let fourth = rock(900_000, 500_000, 11, 50_000);
    let fifth = rock(900_000, 100_000, 3, 12_500);
    let mut rocks = vec![first, second, third, fourth, fifth];
    let bullets = vec![shot(100_000, 100_000), shot(900_000, 100_000)];
    let ship = Vector2 { x: 500_000, y: 300_000 };
    let (marks, touched) = sweep_all(&mut rocks, &bullets, &ship, &screen);
    assert_eq!(marks, vec![true, true]);
    assert!(!touched);
    assert_eq!(rocks, vec![second, third, fourth]);
}

#[test]
fn play_leaves_the_sides_of_the_asteroids_that_no_bullet_met() {
    let mut s = running();
    s.ship.bullets = vec![shot(800_000, 150_000)];
    assert_eq!(s.step(&idle(), &frame(0, 3)), Flow::Next);
    assert_eq!(s.asteroids.len(), 4);
    assert_eq!(s.asteroids[0], rock(200_000, 150_000, 12, ASTEROID_SIZE));
    assert_eq!(s.asteroids[2], rock(800_000, 450_000, 24, ASTEROID_SIZE));
    assert_eq!(splits_left(s.asteroids[1].sides), 2);
    assert_eq!(splits_left(s.asteroids[3].sides), 2);
}

/// Hits the asteroid at place `i` of the row once, alone.
fn hit_one(row: &mut Vec<Asteroid>, i: usize) {
    let mut a = row[i];
    let bullets = vec![shot(a.position.x, a.position.y)];
    let mut marks = vec![false];
    let mut spawned: Vec<Asteroid> = Vec::new();
    let gone = strike_one(&mut a, &bullets, &mut marks, &mut spawned);
    assert_eq!(marks, vec![true]);
    if gone {
        assert!(spawned.is_empty());
        row.remove(i);
    } else {
        assert_eq!(spawned.len(), 1);
        row[i] = a;
        row.push(spawned[0]);
    }
}

#[test]
fn fifteen_single_hits_clear_a_largest_asteroid_in_any_order() {
    let stranger = rock(800_000, 450_000, 9, 50_000);
    for order in 0..3u32 {
        let mut row = vec![stranger, rock(200_000, 150_000, 12, ASTEROID_SIZE)];
        let mut hits: u32 = 0;
        let mut most: usize = row.len();
        while row.len() > 1 {
            let family: Vec<usize> = (0..row.len())
                .filter(|&j| row[j].position == Vector2 { x: 200_000, y: 150_000 })
                .collect();
            let i: usize = match order {
                0 => family[0],
                1 => family[family.len() - 1],
                _ => family[(hits as usize * 7) % family.len()],
            };
            hit_one(&mut row, i);
            hits += 1;
            most = most.max(row.len());
            assert!(hits <= 15);
        }
        assert_eq!(hits, 15);
        assert!(most <= 2 + 7);
        assert_eq!(row, vec![stranger]);
    }
}

#[test]
fn a_frame_with_one_hit_on_a_splitting_asteroid_adds_one_asteroid() {
    let mut s = running();
    let mut far = shot(500_000, 550_000);
    far.time_shot_out = 5;
    s.ship.bullets = vec![far, shot(800_000, 450_000), shot(20_000, 580_000)];
    assert_eq!(s.step(&idle(), &frame(10, 3)), Flow::Next);
    assert_eq!(s.asteroids.len(), 4);
    assert_eq!(s.ship.bullets, vec![far, shot(20_000, 580_000)]);
    assert_eq!(s.asteroids[0], rock(200_000, 150_000, 12, ASTEROID_SIZE));
    assert_eq!(s.asteroids[1], rock(800_000, 150_000, 18, ASTEROID_SIZE));
    let halved = s.asteroids[2];
    let spawn = s.asteroids[3];
    assert_eq!((halved.position, halved.size, halved.rotation), (
        Vector2 { x: 800_000, y: 450_000 },
        50_000,
        20_000,
    ));
    assert_eq!((spawn.position, spawn.size, spawn.rotation), (
        Vector2 { x: 800_000, y: 450_000 },
        50_000,
        30_000,
    ));
}

#[test]
fn a_frame_with_one_hit_on_a_smallest_asteroid_removes_it() {
    let mut s = running();
    let small = rock(500_000, 100_000, 4, 12_500);
    s.asteroids.insert(1, small);
    s.ship.bullets = vec![shot(20_000, 580_000), shot(500_000, 100_000)];
    assert_eq!(s.step(&idle(), &frame(10, 4)), Flow::Next);
    assert_eq!(
        s.asteroids,
        vec![
            rock(200_000, 150_000, 12, ASTEROID_SIZE),
            rock(800_000, 150_000, 18, ASTEROID_SIZE),
            rock(800_000, 450_000, 24, ASTEROID_SIZE),
        ]
    );
    assert_eq!(s.ship.bullets, vec![shot(20_000, 580_000)]);
    assert_eq!(s.state, AsteroidsState::Running);
}
