use pong::ball::{
    ceil_sqrt, check_collision, flip_handler, paddle_collision, serve_velocity, update, Ball,
    Flip, Respawn, SERVE_AXIS_MAX, SERVE_AXIS_MIN, MAX_X, MAX_Y, MIN_X, MIN_Y, SPEED,
};
use pong::enemy::{self, Enemy};
use pong::last_mouse_position;
use pong::player::{self, Player};
use pong::resolution::{Resolution, HALF_RESOLUTION_X, HALF_RESOLUTION_Y};
use pong::score::{self, CreateScore, Scorer};
use pong::velocity::{update_transform, Vec2, Velocity};
use pong::zaphkiel::{exponential_decay, RETAIN_ONE};
use pong::{Frame, Pong};

fn still_frame(serve: Vec2) -> Frame {
    Frame { cursor: None, player_retain: RETAIN_ONE, enemy_retain: RETAIN_ONE, serve }
}

#[test]
fn decay_halves_the_distance() {
    assert_eq!(exponential_decay(100_000, 0, 500_000), 50_000);
    assert_eq!(exponential_decay(0, 1_000, 250_000), 750);
    assert_eq!(exponential_decay(-3_000, 1_000, 500_000), -1_000);
}

#[test]
fn decay_stays_between_start_and_goal() {
    for retain in [0u64, 1, 333_333, 999_999, RETAIN_ONE] {
        let r = exponential_decay(-7_000, 12_345, retain);
        assert!(-7_000 <= r && r <= 12_345);
        let r = exponential_decay(12_345, -7_000, retain);
        assert!(-7_000 <= r && r <= 12_345);
    }
}

#[test]
fn decay_edges() {
    assert_eq!(exponential_decay(4_200, 4_200, 123_456), 4_200);
    assert_eq!(exponential_decay(4_200, -10, RETAIN_ONE), 4_200);
    assert_eq!(exponential_decay(4_200, -10, 0), -10);
}

#[test]
fn ceil_sqrt_values() {
    assert_eq!(ceil_sqrt(0), 0);
    assert_eq!(ceil_sqrt(1), 1);
    assert_eq!(ceil_sqrt(2), 2);
    assert_eq!(ceil_sqrt(4), 2);
    assert_eq!(ceil_sqrt(5), 3);
    assert_eq!(ceil_sqrt(132_500_000_000), 364_006);
    assert_eq!(ceil_sqrt(250_000_000_000), 500_000);
}

#[test]
fn serve_along_the_x_axis() {
    let v = serve_velocity(Vec2::new(1_000_000, 0));
    assert_eq!(v, Velocity(Vec2::new(14_423, 4_121)));
    let v = serve_velocity(Vec2::new(0, -1_000_000));
    assert_eq!(v, Velocity(Vec2::new(4_121, -14_423)));
}

#[test]
fn serve_keeps_signs_and_speed() {
    let cases = [
        (Vec2::new(-707_107, 707_107), Vec2::new(-10_607, 10_607)),
        (Vec2::new(-600_000, -800_000), Vec2::new(-9_603, -11_523)),
    ];
    for (direction, expected) in cases {
        let v = serve_velocity(direction);
        assert_eq!(v.0, expected);
    }
    for (dx, dy) in [(1_000_000, 0), (-707_107, 707_107), (-600_000, -800_000), (0, 0), (1_000_000, 1_000_000), (-1_000_000, 0)] {
        let v = serve_velocity(Vec2::new(dx, dy)).0;
        let length2 = v.x * v.x + v.y * v.y;
        assert!(length2 <= (SPEED + 1) * (SPEED + 1));
        assert!(length2 >= (SPEED - 1) * (SPEED - 1));
        assert!(SERVE_AXIS_MIN <= v.x.abs() && v.x.abs() <= SERVE_AXIS_MAX);
        assert!(SERVE_AXIS_MIN <= v.y.abs() && v.y.abs() <= SERVE_AXIS_MAX);
        assert_eq!(v.x > 0, dx >= 0);
        assert_eq!(v.y > 0, dy >= 0);
    }
}

#[test]
fn bounds_of_the_arena() {
    assert_eq!(Resolution::full(), Resolution { x: 1_024_000, y: 480_000 });
    assert_eq!(Resolution::half(), Resolution { x: HALF_RESOLUTION_X, y: HALF_RESOLUTION_Y });
    assert_eq!((MIN_X, MAX_X), (-499_000, 499_000));
    assert_eq!((MIN_Y, MAX_Y), (-232_000, 232_000));
    assert_eq!((player::MIN_Y, player::MAX_Y), (-209_500, 209_500));
    assert_eq!((enemy::MIN_X, enemy::MIN_Y), (504_000, -209_500));
}

#[test]
fn velocity_moves_a_point() {
    let mut p = Vec2::new(10, -20);
    update_transform(&mut p, &Velocity(Vec2::new(12_000, -3)));
    assert_eq!(p, Vec2::new(12_010, -23));
}

#[test]
fn ball_above_the_ceiling_bounces() {
    let mut ball = Ball { translation: Vec2::new(0, 250_000), velocity: Velocity(Vec2::new(1, 2)) };
    let mut flips = Vec::new();
    let mut scores = Vec::new();
    update(&mut ball, &mut flips, &mut scores);
    assert_eq!(ball.translation, Vec2::new(0, MAX_Y));
    assert_eq!(flips, vec![Flip { x: false, y: true }]);
    assert!(scores.is_empty());
}

#[test]
fn ball_inside_does_not_bounce() {
    let mut ball = Ball { translation: Vec2::new(5, MIN_Y), velocity: Velocity(Vec2::new(1, 2)) };
    let mut flips = Vec::new();
    let mut scores = Vec::new();
    update(&mut ball, &mut flips, &mut scores);
    assert_eq!(ball.translation, Vec2::new(5, MIN_Y));
    assert_eq!(flips, vec![Flip { x: false, y: false }]);
    assert!(scores.is_empty());
}

#[test]
fn ball_past_a_side_line_scores_once() {
    let mut ball = Ball { translation: Vec2::new(MIN_X, 0), velocity: Velocity(Vec2::new(1, 2)) };
    let mut flips = Vec::new();
    let mut scores = Vec::new();
    update(&mut ball, &mut flips, &mut scores);
    assert_eq!(scores, vec![CreateScore { scorer: Scorer::Enemy }]);

    let mut ball = Ball { translation: Vec2::new(900_000, -900_000), velocity: Velocity(Vec2::new(1, 2)) };
    let mut scores = Vec::new();
    update(&mut ball, &mut flips, &mut scores);
    assert_eq!(scores, vec![CreateScore { scorer: Scorer::Player }]);
    assert_eq!(ball.translation, Vec2::new(900_000, MIN_Y));
}

#[test]
fn boxes_touching_at_an_edge_collide() {
    let half = Vec2::new(5, 5);
    assert!(check_collision(Vec2::new(0, 0), half, Vec2::new(10, 0), half));
    assert!(!check_collision(Vec2::new(0, 0), half, Vec2::new(11, 0), half));
    assert!(!check_collision(Vec2::new(0, 0), half, Vec2::new(0, -11), half));
    assert!(check_collision(Vec2::new(-3, 4), half, Vec2::new(2, -2), Vec2::new(1, 1)));
}

#[test]
fn ball_on_a_paddle_flips_x() {
    let ball = Ball { translation: Vec2::new(-500_000, 25_000), velocity: Velocity(Vec2::new(-7, 3)) };
    let mut flips = Vec::new();
    let paddles = [Player::spawn().translation, Enemy::spawn().translation];
    assert!(paddle_collision(&ball, &paddles, &mut flips));
    assert_eq!(flips, vec![Flip { x: true, y: false }]);

    let ball = Ball { translation: Vec2::new(-500_000, 40_000), velocity: Velocity(Vec2::new(-7, 3)) };
    let mut flips = Vec::new();
    assert!(!paddle_collision(&ball, &paddles, &mut flips));
    assert!(flips.is_empty());
}

#[test]
fn flips_apply_in_order() {
    let mut v = Velocity(Vec2::new(3, -4));
    let mut flips = vec![Flip { x: true, y: true }, Flip { x: true, y: false }];
    flip_handler(&mut flips, &mut v);
    assert!(flips.is_empty());
    assert_eq!(v, Velocity(Vec2::new(3, 4)));

    let mut none = Vec::new();
    flip_handler(&mut none, &mut v);
    assert_eq!(v, Velocity(Vec2::new(3, 4)));
}

#[test]
fn each_score_sends_one_respawn() {
    let mut plugin = score::Plugin::new();
    plugin.create_score.push(CreateScore { scorer: Scorer::Player });
    plugin.create_score.push(CreateScore { scorer: Scorer::Enemy });
    let mut respawns = Vec::new();
    let scorers = plugin.create_score_handler(&mut respawns);
    assert_eq!(scorers, vec![Scorer::Player, Scorer::Enemy]);
    assert_eq!(respawns, vec![Respawn, Respawn]);
    assert!(plugin.create_score.is_empty());

    let scorers = plugin.create_score_handler(&mut respawns);
    assert!(scorers.is_empty());
    assert_eq!(respawns.len(), 2);
}

#[test]
fn respawn_serves_from_the_centre() {
    let mut plugin = pong::ball::Plugin::new();
    let mut ball = Ball { translation: Vec2::new(600_000, 7), velocity: Velocity(Vec2::new(12_000, 0)) };
    plugin.respawn_handler(&mut ball, Vec2::new(1_000_000, 0));
    assert_eq!(ball.translation, Vec2::new(600_000, 7));

    plugin.respawns.push(Respawn);
    plugin.respawns.push(Respawn);
    plugin.respawn_handler(&mut ball, Vec2::new(1_000_000, 0));
    assert!(plugin.respawns.is_empty());
    assert_eq!(ball.translation, Vec2::new(0, 0));
    assert_eq!(ball.velocity, Velocity(Vec2::new(14_423, 4_121)));
}

#[test]
fn pointer_keeps_its_last_place() {
    let mut plugin = last_mouse_position::Plugin::new();
    plugin.pre_update(Some(Vec2::new(3, 4)));
    plugin.pre_update(None);
    assert_eq!(plugin.last_mouse_position.0, Vec2::new(3, 4));
    plugin.pre_update(Some(Vec2::new(5, 6)));
    assert_eq!(plugin.last_mouse_position.0, Vec2::new(5, 6));
}

#[test]
fn player_follows_the_pointer() {
    let mut p = Player::spawn();
    p.handle_input(0, 500_000);
    assert_eq!(p.translation.y, 120_000);
    p.handle_input(480_000, 0);
    assert_eq!(p.translation.y, -240_000);
    p.restrict();
    assert_eq!(p.translation, Vec2::new(-504_000, -209_500));
}

#[test]
fn paddle_inside_bounds_is_unchanged() {
    let mut p = Player { translation: Vec2::new(-504_000, 100_000) };
    p.restrict();
    assert_eq!(p.translation.y, 100_000);
    let mut p = Player { translation: Vec2::new(-504_000, 300_000) };
    p.restrict();
    assert_eq!(p.translation.y, 209_500);
    let mut e = Enemy { translation: Vec2::new(0, -300_000) };
    e.restrict();
    assert_eq!(e.translation, Vec2::new(504_000, -209_500));
}

#[test]
fn enemy_remembers_its_edge() {
    let mut plugin = enemy::Plugin::new();
    let mut e = Enemy { translation: Vec2::new(504_000, 100_000) };
    plugin.update(&mut e, Vec2::new(-1_000, 50_000), 500_000);
    assert_eq!(plugin.last_direction, Some(1));
    assert_eq!(e.translation.y, 140_000);

    e.translation.y = -50_000;
    plugin.update(&mut e, Vec2::new(-1_000, 50_000), 500_000);
    assert_eq!(plugin.last_direction, Some(1));
    assert_eq!(e.translation.y, -10_000);

    plugin.update(&mut e, Vec2::new(0, -30_000), 500_000);
    assert_eq!(plugin.last_direction, None);
    assert_eq!(e.translation.y, -20_000);

    e.translation.y = -5;
    plugin.update(&mut e, Vec2::new(-1, 0), RETAIN_ONE);
    assert_eq!(plugin.last_direction, Some(-1));
    assert_eq!(e.translation.y, -2_005);
}

#[test]
fn enemy_speed_is_clamped() {
    let mut plugin = enemy::Plugin::new();
    let mut e = Enemy { translation: Vec2::new(504_000, 0) };
    plugin.update(&mut e, Vec2::new(10, 0), 0);
    assert_eq!(e.translation.y, -2_000);
    let mut e = Enemy { translation: Vec2::new(504_000, 0) };
    plugin.update(&mut e, Vec2::new(10, 200_000), 0);
    assert_eq!(e.translation.y, 40_000);
}

#[test]
fn new_game_starts_at_the_centre() {
    let g = Pong::new(Vec2::new(1_000_000, 0));
    assert_eq!(g.ball.translation, Vec2::new(0, 0));
    assert_eq!(g.ball.velocity, Velocity(Vec2::new(14_423, 4_121)));
    assert_eq!(g.player.translation, Vec2::new(-504_000, 0));
    assert_eq!(g.enemy.translation, Vec2::new(504_000, 0));
    assert_eq!(g.enemy_state.last_direction, None);
}

#[test]
fn ball_reaching_the_right_line_scores_for_the_player() {
    let mut g = Pong::new(Vec2::new(1_000_000, 0));
    g.ball.translation = Vec2::new(490_000, 0);
    g.ball.velocity = Velocity(Vec2::new(12_000, 0));
    let report = g.step(&still_frame(Vec2::new(0, -1_000_000)));
    assert_eq!(report.scorers, vec![Scorer::Player]);
    assert_eq!(g.ball.translation, Vec2::new(0, 0));
    assert_eq!(g.ball.velocity, Velocity(Vec2::new(4_121, -14_423)));
    assert!(g.ball_events.respawns.is_empty());
}

#[test]
fn ball_moves_and_bounces_within_a_frame() {
    let mut g = Pong::new(Vec2::new(1_000_000, 0));
    g.ball.translation = Vec2::new(100_000, 230_000);
    g.ball.velocity = Velocity(Vec2::new(12_000, 5_000));
    let report = g.step(&still_frame(Vec2::new(1_000_000, 0)));
    assert!(report.scorers.is_empty());
    assert!(!report.bonk);
    assert_eq!(g.ball.translation, Vec2::new(112_000, MAX_Y));
    assert_eq!(g.ball.velocity, Velocity(Vec2::new(12_000, -5_000)));
}

#[test]
fn ball_hitting_the_enemy_and_the_floor_flips_both() {
    let mut g = Pong::new(Vec2::new(1_000_000, 0));
    g.enemy.translation = Vec2::new(504_000, -209_500);
    g.ball.translation = Vec2::new(490_000, -225_000);
    g.ball.velocity = Velocity(Vec2::new(4_000, -10_000));
    let report = g.step(&still_frame(Vec2::new(1_000_000, 0)));
    assert!(report.bonk);
    assert!(report.scorers.is_empty());
    assert_eq!(g.ball.translation, Vec2::new(494_000, MIN_Y));
    assert_eq!(g.ball.velocity, Velocity(Vec2::new(-4_000, 10_000)));
}

#[test]
fn ball_keeps_within_floor_and_ceiling() {
    let mut g = Pong::new(Vec2::new(-600_000, -800_000));
    for _ in 0..500 {
        let frame = Frame {
            cursor: Some(Vec2::new(10_000, 400_000)),
            player_retain: 700_000,
            enemy_retain: 850_000,
            serve: Vec2::new(-600_000, -800_000),
        };
        g.step(&frame);
        assert!(MIN_Y <= g.ball.translation.y && g.ball.translation.y <= MAX_Y);
        assert!(MIN_X < g.ball.translation.x && g.ball.translation.x < MAX_X);
        assert!(player::MIN_Y <= g.player.translation.y && g.player.translation.y <= player::MAX_Y);
        assert!(enemy::MIN_Y <= g.enemy.translation.y && g.enemy.translation.y <= enemy::MAX_Y);
    }
}

#[test]
fn decay_moves_strictly_when_the_distance_survives_rounding() {
    let r = exponential_decay(1_000_000, 0, 999_999);
    assert_eq!(r, 999_999);
    let r = exponential_decay(-2_000, 0, 500_000);
    assert!(-2_000 < r && r < 0);
    assert_eq!(exponential_decay(1, 0, 500_000), 0);
}
