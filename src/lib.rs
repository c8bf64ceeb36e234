//! A Pong-style arcade simulation stepped one frame at a time.
//!
//! All lengths are fixed-point integers counting thousandths of a world unit,
//! so an arena of 1024 by 480 units is `1_024_000` by `480_000`.
use vstd::prelude::*;

pub mod resolution;
pub mod zaphkiel;
pub mod velocity;
pub mod score;
pub mod ball;
pub mod player;
pub mod enemy;
pub mod last_mouse_position;

use crate::ball::{
    hits_paddle, is_direction, is_serve, serve_speed_ok, out_of_bounds_y, Ball, Flip,
    MAX_X, MAX_Y, MIN_X, MIN_Y, SPEED,
};
use crate::enemy::{direction_ok, steer_spec, sticky_direction, target_spec, Enemy};
use crate::player::{pointer_target, Player};
use crate::resolution::{RESOLUTION_X, RESOLUTION_Y};
use crate::score::Scorer;
use crate::velocity::{update_transform, Vec2};
use crate::zaphkiel::{abs_spec, clamp_spec, decay_spec, RETAIN_ONE};

verus! {

/// What the host hands the simulation for one frame.
#[derive(Debug, Clone, Copy, PartialEq, Eq, Structural)]
pub struct Frame {
    /// The pointer's place in the window, counted from its top left corner,
    /// or `None` when the pointer is not over it.
    pub cursor: Option<Vec2>,
    /// Share of the player's distance to the pointer that this frame keeps,
    /// out of `RETAIN_ONE`.
    pub player_retain: u64,
    /// Share of the enemy's distance to its target that this frame keeps,
    /// out of `RETAIN_ONE`.
    pub enemy_retain: u64,
    /// A unit direction, scaled by `DIRECTION_ONE`, to serve along if the
    /// ball is served again this frame.
    pub serve: Vec2,
}

/// What happened in a frame, for the host to report.
#[derive(Debug, PartialEq, Eq)]
pub struct FrameReport {
    /// The ball touched a paddle.
    pub bonk: bool,
    /// Who won a point, in order.
    pub scorers: Vec<Scorer>,
}

/// The whole game: the arena, the ball, both paddles and the state that
/// lives from frame to frame.
#[derive(Debug, PartialEq, Eq)]
pub struct Pong {
    pub resolution: resolution::Plugin,
    pub last_mouse_position: last_mouse_position::Plugin,
    pub ball_events: ball::Plugin,
    pub score: score::Plugin,
    pub enemy_state: enemy::Plugin,
    pub ball: Ball,
    pub player: Player,
    pub enemy: Enemy,
}

pub open spec fn in_window(p: Vec2) -> bool {
    0 <= p.x <= RESOLUTION_X && 0 <= p.y <= RESOLUTION_Y
}

pub open spec fn frame_ok(frame: Frame) -> bool {
    &&& frame.cursor matches Some(p) ==> in_window(p)
    &&& frame.player_retain <= RETAIN_ONE
    &&& frame.enemy_retain <= RETAIN_ONE
    &&& is_direction(frame.serve)
}

/// The scores that a ball at column `x` wins.
pub open spec fn scores_at(x: int) -> Seq<Scorer> {
    (if x <= MIN_X { seq![Scorer::Enemy] } else { seq![] })
        + (if x >= MAX_X { seq![Scorer::Player] } else { seq![] })
}

impl Pong {
    /// Between frames: the ball is between the side lines and between floor
    /// and ceiling, slower than a serve on each axis; both paddles are inside
    /// their bounds; no event is pending.
    pub open spec fn wf(&self) -> bool {
        &&& MIN_X < self.ball.translation.x < MAX_X
        &&& MIN_Y <= self.ball.translation.y <= MAX_Y
        &&& abs_spec(self.ball.velocity.0.x as int) < SPEED
        &&& abs_spec(self.ball.velocity.0.y as int) < SPEED
        &&& player::in_bounds(self.player.translation)
        &&& enemy::in_bounds(self.enemy.translation)
        &&& direction_ok(self.enemy_state.last_direction)
        &&& in_window(self.last_mouse_position.last_mouse_position.0)
        &&& self.ball_events.flips@.len() == 0
        &&& self.ball_events.respawns@.len() == 0
        &&& self.score.create_score@.len() == 0
        &&& self.resolution.resolution.x == RESOLUTION_X
        &&& self.resolution.resolution.y == RESOLUTION_Y
    }

    /// A game with the ball at the centre, served along `serve`, and both
    /// paddles at mid height.
    pub fn new(serve: Vec2) -> (g: Pong)
        requires
            is_direction(serve),
        ensures
            g.wf(),
            g.ball.translation == Vec2::zero_spec(),
            is_serve(serve, g.ball.velocity),
            serve_speed_ok(g.ball.velocity),
            g.player.translation.y == 0,
            g.enemy.translation.y == 0,
            g.enemy_state.last_direction.is_none(),
    {
        Pong {
            resolution: resolution::Plugin::new(),
            last_mouse_position: last_mouse_position::Plugin::new(),
            ball_events: ball::Plugin::new(),
            score: score::Plugin::new(),
            enemy_state: enemy::Plugin::new(),
            ball: Ball::spawn(serve),
            player: Player::spawn(),
            enemy: Enemy::spawn(),
        }
    }

    /// Runs one frame: the ball moves; the paddles steer; the ball bounces
    /// off floor, ceiling and paddles; points are scored and the ball is
    /// served again.
    pub fn step(&mut self, frame: &Frame) -> (report: FrameReport)
        requires
            old(self).wf(),
            frame_ok(*frame),
        ensures
            final(self).wf(),
            ({
                let x = old(self).ball.translation.x + old(self).ball.velocity.0.x;
                let y = old(self).ball.translation.y + old(self).ball.velocity.0.y;
                let landed = Vec2 { x: x as i64, y: clamp_spec(y, MIN_Y as int, MAX_Y as int) as i64 };
                let v = old(self).ball.velocity.0;
                &&& report.scorers@ == scores_at(x)
                &&& report.bonk == hits_paddle(landed, seq![final(self).player.translation, final(self).enemy.translation])
                &&& report.scorers@.len() > 0 ==> {
                    &&& final(self).ball.translation == Vec2::zero_spec()
                    &&& is_serve(frame.serve, final(self).ball.velocity)
                    &&& serve_speed_ok(final(self).ball.velocity)
                }
                &&& report.scorers@.len() == 0 ==> {
                    &&& final(self).ball.translation == landed
                    &&& final(self).ball.velocity.0.x == if report.bonk { -v.x } else { v.x as int }
                    &&& final(self).ball.velocity.0.y == if out_of_bounds_y(y) { -v.y } else { v.y as int }
                }
            }),
            final(self).last_mouse_position.last_mouse_position.0 == match frame.cursor {
                Some(p) => p,
                None => old(self).last_mouse_position.last_mouse_position.0,
            },
            final(self).player.translation.x == old(self).player.translation.x,
            final(self).player.translation.y == clamp_spec(
                decay_spec(
                    old(self).player.translation.y as int,
                    pointer_target(final(self).last_mouse_position.last_mouse_position.0.y as int),
                    frame.player_retain as int,
                ),
                player::MIN_Y as int,
                player::MAX_Y as int,
            ),
            final(self).enemy.translation.x == old(self).enemy.translation.x,
            final(self).enemy.translation.y == clamp_spec(
                steer_spec(
                    old(self).enemy.translation.y as int,
                    target_spec(
                        old(self).enemy_state.last_direction,
                        old(self).enemy.translation.y as int,
                        Vec2 {
                            x: (old(self).ball.translation.x + old(self).ball.velocity.0.x) as i64,
                            y: (old(self).ball.translation.y + old(self).ball.velocity.0.y) as i64,
                        },
                    ),
                    frame.enemy_retain as int,
                ),
                enemy::MIN_Y as int,
                enemy::MAX_Y as int,
            ),
            old(self).ball.translation.x + old(self).ball.velocity.0.x < 0 ==> final(self).enemy_state.last_direction
                == Some(sticky_direction(old(self).enemy_state.last_direction, old(self).enemy.translation.y as int) as i64),
            old(self).ball.translation.x + old(self).ball.velocity.0.x >= 0 ==> final(self).enemy_state.last_direction.is_none(),
            old(self).ball.translation.x + old(self).ball.velocity.0.x < 0 && old(self).enemy_state.last_direction.is_some()
                ==> final(self).enemy_state.last_direction == old(self).enemy_state.last_direction,
    {
        // Before the frame: the pointer and the ball's motion.
        self.last_mouse_position.pre_update(frame.cursor);
        update_transform(&mut self.ball.translation, &self.ball.velocity);

        // The frame: paddles steer, the ball meets floor, ceiling and side lines.
        let mouse_y = self.last_mouse_position.last_mouse_position.0.y;
        self.player.handle_input(mouse_y, frame.player_retain);
        self.player.restrict();
        self.enemy_state.update(&mut self.enemy, self.ball.translation, frame.enemy_retain);
        ball::update(&mut self.ball, &mut self.ball_events.flips, &mut self.score.create_score);

        // After the frame: paddles, bounces, points and serves.
        let ghost landed = self.ball.translation;
        let ghost v0 = self.ball.velocity;
        let ghost pending = self.score.create_score@;
        proof {
            let x = old(self).ball.translation.x + old(self).ball.velocity.0.x;
            assert(pending.len() == scores_at(x).len());
            assert(forall|i: int| 0 <= i < pending.len() ==> #[trigger] pending[i].scorer == scores_at(x)[i]);
        }
        self.enemy.restrict();
        let paddles = [self.player.translation, self.enemy.translation];
        let bonk = ball::paddle_collision(&self.ball, &paddles, &mut self.ball_events.flips);
        let ghost flips = self.ball_events.flips@;
        proof {
            ball::lemma_flips_keep_magnitude(flips, v0);
        }
        ball::flip_handler(&mut self.ball_events.flips, &mut self.ball.velocity);
        let scorers = self.score.create_score_handler(&mut self.ball_events.respawns);
        self.ball_events.respawn_handler(&mut self.ball, frame.serve);

        proof {
            let x = old(self).ball.translation.x + old(self).ball.velocity.0.x;
            assert(scorers@ =~= scores_at(x));
            let y = old(self).ball.translation.y + old(self).ball.velocity.0.y;
            let lv = Vec2 { x: x as i64, y: clamp_spec(y, MIN_Y as int, MAX_Y as int) as i64 };
            assert(landed == lv);
            assert(paddles@ =~= seq![self.player.translation, self.enemy.translation]);
            assert(bonk == hits_paddle(lv, seq![self.player.translation, self.enemy.translation]));
            if scorers@.len() == 0 {
                assert(self.ball.translation == lv);
                let f0 = Flip { x: false, y: out_of_bounds_y(y) };
                if bonk {
                    assert(flips =~= seq![f0, Flip { x: true, y: false }]);
                    assert(flips.drop_last() =~= seq![f0]);
                    assert(flips.drop_last().drop_last() =~= seq![]);
                } else {
                    assert(flips =~= seq![f0]);
                    assert(flips.drop_last() =~= seq![]);
                }
                let v = old(self).ball.velocity.0;
                assert(v0.0 == v);
                reveal_with_fuel(ball::apply_flips, 3);
                assert(self.ball.velocity.0.x == if bonk { -v.x } else { v.x as int });
                assert(self.ball.velocity.0.y == if out_of_bounds_y(y) { -v.y } else { v.y as int });
            }
        }
        FrameReport { bonk, scorers }
    }
}

} // verus!
