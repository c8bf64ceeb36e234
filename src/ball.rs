use vstd::prelude::*;
use crate::resolution::{HALF_RESOLUTION_X, HALF_RESOLUTION_Y};
use crate::score::{CreateScore, Scorer};
use crate::velocity::{Vec2, Velocity};
use crate::zaphkiel::{abs_spec, clamp_spec, in_coord_range, sign_spec, COORD_LIMIT};

verus! {

/// Radius of the ball.
pub const RADIUS: i64 = 5_000;
/// Length of the ball's velocity when it is served.
pub const SPEED: i64 = 15_000;
/// Gap kept between the ball and the arena's edge.
pub const PADDING: i64 = 3_000;

/// Half the thickness of a paddle, as the ball sees it.
pub const PADDLE_HALF_WIDTH: i64 = crate::player::RADIUS;
/// Half the length of a paddle, as the ball sees it.
pub const PADDLE_HALF_LENGTH: i64 = crate::player::HALF_LENGTH;

/// The ball scores for the enemy at or left of this line.
pub const MIN_X: i64 = RADIUS + PADDING + RADIUS - HALF_RESOLUTION_X;
/// The ball scores for the player at or right of this line.
pub const MAX_X: i64 = HALF_RESOLUTION_X - (RADIUS + PADDING + RADIUS);
/// The ball bounces off the floor here.
pub const MIN_Y: i64 = RADIUS + PADDING - HALF_RESOLUTION_Y;
/// The ball bounces off the ceiling here.
pub const MAX_Y: i64 = HALF_RESOLUTION_Y - (RADIUS + PADDING);

/// Fixed-point one for the components of a serving direction.
pub const DIRECTION_ONE: i64 = 1_000_000;
/// Smallest share of the serve that either axis gets, out of `DIRECTION_ONE`.
pub const SHARE_MIN: i64 = 100_000;
/// Largest share of the serve that either axis gets, out of `DIRECTION_ONE`.
pub const SHARE_MAX: i64 = 350_000;

/// The ball: where it is and how it moves.
#[derive(Debug, Clone, Copy, PartialEq, Eq, Structural)]
pub struct Ball {
    pub translation: Vec2,
    pub velocity: Velocity,
}

/// Asks to invert the named axes of the ball's velocity.
#[derive(Debug, Clone, Copy, PartialEq, Eq, Structural)]
pub struct Flip {
    pub x: bool,
    pub y: bool,
}

/// Asks to serve the ball again from the centre.
#[derive(Debug, Clone, Copy, PartialEq, Eq, Structural)]
pub struct Respawn;

/// Holds the ball's pending flips and respawns.
#[derive(Debug, PartialEq, Eq)]
pub struct Plugin {
    pub flips: Vec<Flip>,
    pub respawns: Vec<Respawn>,
}

/// The ball went below the floor or above the ceiling.
pub open spec fn out_of_bounds_y(y: int) -> bool {
    y < MIN_Y || y > MAX_Y
}

/// Axis-aligned boxes, given by centre and half extents, touch or overlap.
pub open spec fn overlaps(a_position: Vec2, a_half: Vec2, b_position: Vec2, b_half: Vec2) -> bool {
    &&& a_position.x - a_half.x <= b_position.x + b_half.x
    &&& a_position.x + a_half.x >= b_position.x - b_half.x
    &&& a_position.y - a_half.y <= b_position.y + b_half.y
    &&& a_position.y + a_half.y >= b_position.y - b_half.y
}

/// Both coordinates lie in the range that the arithmetic accepts.
pub open spec fn in_coord_pair(p: Vec2) -> bool {
    in_coord_range(p.x) && in_coord_range(p.y)
}

pub open spec fn ball_half() -> Vec2 {
    Vec2 { x: RADIUS, y: RADIUS }
}

pub open spec fn paddle_half() -> Vec2 {
    Vec2 { x: PADDLE_HALF_WIDTH, y: PADDLE_HALF_LENGTH }
}

/// The ball touches at least one of the paddles.
pub open spec fn hits_paddle(ball: Vec2, paddles: Seq<Vec2>) -> bool {
    exists|i: int| 0 <= i < paddles.len() && overlaps(ball, ball_half(), #[trigger] paddles[i], paddle_half())
}

/// The velocity with the axes that `f` names inverted.
pub open spec fn apply_flip(f: Flip, v: Velocity) -> Velocity {
    Velocity(
        Vec2 {
            x: if f.x { (-v.0.x) as i64 } else { v.0.x },
            y: if f.y { (-v.0.y) as i64 } else { v.0.y },
        },
    )
}

/// The velocity after applying the flips in order.
pub open spec fn apply_flips(flips: Seq<Flip>, v: Velocity) -> Velocity
    decreases flips.len(),
{
    if flips.len() == 0 {
        v
    } else {
        apply_flip(flips.last(), apply_flips(flips.drop_last(), v))
    }
}

/// Flips change signs only.
pub proof fn lemma_flips_keep_magnitude(flips: Seq<Flip>, v: Velocity)
    requires
        v.0.x > i64::MIN,
        v.0.y > i64::MIN,
    ensures
        abs_spec(apply_flips(flips, v).0.x as int) == abs_spec(v.0.x as int),
        abs_spec(apply_flips(flips, v).0.y as int) == abs_spec(v.0.y as int),
    decreases flips.len(),
{
    if flips.len() > 0 {
        lemma_flips_keep_magnitude(flips.drop_last(), v);
    }
}

/// Keeps the ball between floor and ceiling, asks for a bounce when it went
/// past either, and scores when it reached either side line.
pub fn update(ball: &mut Ball, flip: &mut Vec<Flip>, create_score: &mut Vec<CreateScore>)
    ensures
        final(ball).translation.x == old(ball).translation.x,
        final(ball).translation.y == clamp_spec(old(ball).translation.y as int, MIN_Y as int, MAX_Y as int),
        final(ball).velocity == old(ball).velocity,
        final(flip)@ == old(flip)@.push(Flip { x: false, y: out_of_bounds_y(old(ball).translation.y as int) }),
        final(create_score)@ == old(create_score)@
            + (if old(ball).translation.x <= MIN_X { seq![CreateScore { scorer: Scorer::Enemy }] } else { seq![] })
            + (if old(ball).translation.x >= MAX_X { seq![CreateScore { scorer: Scorer::Player }] } else { seq![] }),
{
    let x = ball.translation.x;
    let y = ball.translation.y;

    ball.translation.y = if y < MIN_Y {
        MIN_Y
    } else if y > MAX_Y {
        MAX_Y
    } else {
        y
    };

    let y_flag = y < MIN_Y || y > MAX_Y;
    flip.push(Flip { x: false, y: y_flag });

    let enemy_score = x <= MIN_X;
    let player_score = x >= MAX_X;

    let ghost before = create_score@;
    if enemy_score {
        create_score.push(CreateScore { scorer: Scorer::Enemy });
    }
    let ghost middle = create_score@;
    if player_score {
        create_score.push(CreateScore { scorer: Scorer::Player });
    }
    proof {
        let e: Seq<CreateScore> = if x <= MIN_X { seq![CreateScore { scorer: Scorer::Enemy }] } else { seq![] };
        let p: Seq<CreateScore> = if x >= MAX_X { seq![CreateScore { scorer: Scorer::Player }] } else { seq![] };
        assert(middle =~= before + e);
        assert(create_score@ =~= middle + p);
    }
}

/// Whether two axis-aligned boxes, given by centre and half extents, touch or overlap.
pub fn check_collision(a_position: Vec2, a_half_extends: Vec2, b_position: Vec2, b_half_extends: Vec2) -> (r: bool)
    requires
        in_coord_range(a_position.x),
        in_coord_range(a_position.y),
        in_coord_range(b_position.x),
        in_coord_range(b_position.y),
        0 <= a_half_extends.x <= COORD_LIMIT,
        0 <= a_half_extends.y <= COORD_LIMIT,
        0 <= b_half_extends.x <= COORD_LIMIT,
        0 <= b_half_extends.y <= COORD_LIMIT,
    ensures
        r == overlaps(a_position, a_half_extends, b_position, b_half_extends),
{
    let a_min_x = a_position.x - a_half_extends.x;
    let a_max_x = a_position.x + a_half_extends.x;
    let a_min_y = a_position.y - a_half_extends.y;
    let a_max_y = a_position.y + a_half_extends.y;
    let b_min_x = b_position.x - b_half_extends.x;
    let b_max_x = b_position.x + b_half_extends.x;
    let b_min_y = b_position.y - b_half_extends.y;
    let b_max_y = b_position.y + b_half_extends.y;

    let x_overlaps = a_min_x <= b_max_x && a_max_x >= b_min_x;
    let y_overlaps = a_min_y <= b_max_y && a_max_y >= b_min_y;
    x_overlaps && y_overlaps
}

/// Asks to invert the ball's horizontal velocity when it touches any paddle.
pub fn paddle_collision(ball: &Ball, paddles: &[Vec2], flip: &mut Vec<Flip>) -> (bonk: bool)
    requires
        in_coord_range(ball.translation.x),
        in_coord_range(ball.translation.y),
        forall|i: int| 0 <= i < paddles@.len() ==> #[trigger] in_coord_pair(paddles@[i]),
    ensures
        bonk == hits_paddle(ball.translation, paddles@),
        final(flip)@ == if bonk { old(flip)@.push(Flip { x: true, y: false }) } else { old(flip)@ },
{
    let mut hit = false;
    let mut i: usize = 0;
    while i < paddles.len()
        invariant
            0 <= i <= paddles@.len(),
            flip@ == old(flip)@,
            forall|j: int| 0 <= j < paddles@.len() ==> #[trigger] in_coord_pair(paddles@[j]),
            in_coord_range(ball.translation.x),
            in_coord_range(ball.translation.y),
            hit == exists|j: int| 0 <= j < i && overlaps(ball.translation, ball_half(), #[trigger] paddles@[j], paddle_half()),
        decreases paddles@.len() - i,
    {
        assert(in_coord_pair(paddles@[i as int]));
        let touches = check_collision(
            ball.translation,
            Vec2 { x: RADIUS, y: RADIUS },
            paddles[i],
            Vec2 { x: PADDLE_HALF_WIDTH, y: PADDLE_HALF_LENGTH },
        );
        proof {
            if touches {
                assert(overlaps(ball.translation, ball_half(), paddles@[i as int], paddle_half()));
            }
        }
        hit = hit || touches;
        i = i + 1;
    }
    if hit {
        flip.push(Flip { x: true, y: false });
    }
    hit
}

/// Applies every pending flip to the ball's velocity and drops them.
pub fn flip_handler(flips: &mut Vec<Flip>, velocity: &mut Velocity)
    requires
        old(velocity).0.x > i64::MIN,
        old(velocity).0.y > i64::MIN,
    ensures
        final(flips)@.len() == 0,
        *final(velocity) == apply_flips(old(flips)@, *old(velocity)),
{
    if flips.len() == 0 {
        return;
    }
    let n = flips.len();
    let mut i: usize = 0;
    while i < n
        invariant
            n == flips@.len(),
            flips@ == old(flips)@,
            0 <= i <= n,
            old(velocity).0.x > i64::MIN,
            old(velocity).0.y > i64::MIN,
            *velocity == apply_flips(flips@.take(i as int), *old(velocity)),
        decreases n - i,
    {
        proof {
            lemma_flips_keep_magnitude(flips@.take(i as int), *old(velocity));
            assert(flips@.take(i as int + 1).drop_last() =~= flips@.take(i as int));
        }
        let f = flips[i];
        if f.x {
            velocity.0.x = -velocity.0.x;
        }
        if f.y {
            velocity.0.y = -velocity.0.y;
        }
        i = i + 1;
    }
    assert(flips@.take(n as int) =~= flips@);
    flips.clear();
}


/// `root` is the smallest integer whose square reaches `n`.
pub open spec fn is_ceil_sqrt(n: int, root: int) -> bool {
    &&& 0 <= root
    &&& root * root >= n
    &&& root == 0 || (root - 1) * (root - 1) < n
}

proof fn lemma_square_monotonic(a: int, b: int)
    requires
        0 <= a <= b,
    ensures
        a * a <= b * b,
{
    assert(a * a <= b * b) by (nonlinear_arith)
        requires 0 <= a <= b;
}

/// Smallest integer whose square is at least `n`.
pub fn ceil_sqrt(n: u64) -> (root: u64)
    requires
        n <= 250_000_000_000,
    ensures
        is_ceil_sqrt(n as int, root as int),
        root <= 500_000,
{
    let mut lo: u64 = 0;
    let mut hi: u64 = 500_000;
    while lo < hi
        invariant
            n <= 250_000_000_000,
            lo <= hi <= 500_000,
            hi * hi >= n,
            lo == 0 || (lo - 1) * (lo - 1) < n,
        decreases hi - lo,
    {
        let mid = lo + (hi - lo) / 2;
        proof {
            lemma_square_monotonic(mid as int, 500_000);
        }
        if mid * mid >= n {
            hi = mid;
        } else {
            lo = mid + 1;
        }
    }
    lo
}

/// Share of the serve that goes to an axis whose direction component is `c`:
/// `|c|` remapped from `[0, DIRECTION_ONE]` onto `[SHARE_MIN, SHARE_MAX]`.
pub open spec fn share_spec(c: int) -> int {
    SHARE_MIN + abs_spec(c) * (SHARE_MAX - SHARE_MIN) / (DIRECTION_ONE as int)
}

pub open spec fn is_direction(d: Vec2) -> bool {
    &&& -DIRECTION_ONE <= d.x <= DIRECTION_ONE
    &&& -DIRECTION_ONE <= d.y <= DIRECTION_ONE
}

/// Least that either axis of a serve gets: `SPEED * 0.10 / hypot(0.10, 0.35)`,
/// rounded down.
pub const SERVE_AXIS_MIN: i64 = 4_120;
/// Most that either axis of a serve gets: `SPEED * 0.35 / hypot(0.10, 0.35)`,
/// rounded up.
pub const SERVE_AXIS_MAX: i64 = 14_423;

/// `n * SPEED / root` rounded to the nearest integer, halves up.
pub open spec fn scaled_share(n: int, root: int) -> int {
    (2 * n * SPEED + root) / (2 * root)
}

/// A serve along `direction`: each axis keeps its sign and gets its share,
/// and the shares are scaled so that the velocity is `SPEED` long, each
/// component rounded to the nearest thousandth.
pub open spec fn is_serve(direction: Vec2, v: Velocity) -> bool {
    let a = share_spec(direction.x as int);
    let b = share_spec(direction.y as int);
    exists|root: int|
        #[trigger] is_ceil_sqrt(a * a + b * b, root) && root > 0
            && v.0.x == sign_spec(direction.x as int) * scaled_share(a, root)
            && v.0.y == sign_spec(direction.y as int) * scaled_share(b, root)
}

/// Each axis gets between `SERVE_AXIS_MIN` and `SERVE_AXIS_MAX` of the
/// speed, and the length is `SPEED` to within one thousandth.
pub open spec fn serve_speed_ok(v: Velocity) -> bool {
    &&& SERVE_AXIS_MIN <= abs_spec(v.0.x as int) <= SERVE_AXIS_MAX
    &&& SERVE_AXIS_MIN <= abs_spec(v.0.y as int) <= SERVE_AXIS_MAX
    &&& (SPEED - 1) * (SPEED - 1) <= v.0.x * v.0.x + v.0.y * v.0.y <= (SPEED + 1) * (SPEED + 1)
}

proof fn lemma_share_range(c: int)
    requires
        -DIRECTION_ONE <= c <= DIRECTION_ONE,
    ensures
        SHARE_MIN <= share_spec(c) <= SHARE_MAX,
{
    let m = abs_spec(c);
    assert(0 <= m * (SHARE_MAX - SHARE_MIN) <= DIRECTION_ONE * (SHARE_MAX - SHARE_MIN)) by (nonlinear_arith)
        requires 0 <= m <= DIRECTION_ONE;
    assert(m * (SHARE_MAX - SHARE_MIN) / (DIRECTION_ONE as int) <= SHARE_MAX - SHARE_MIN) by (nonlinear_arith)
        requires 0 <= m * (SHARE_MAX - SHARE_MIN) <= DIRECTION_ONE * (SHARE_MAX - SHARE_MIN);
}

/// What the shares and their rounded square root satisfy.
proof fn lemma_root_facts(a: int, b: int, root: int)
    requires
        SHARE_MIN <= a <= SHARE_MAX,
        SHARE_MIN <= b <= SHARE_MAX,
        is_ceil_sqrt(a * a + b * b, root),
    ensures
        141_422 <= root <= 500_000,
        a < root,
        b < root,
        1000 * (a + b) <= 1415 * root,
{
    assert(a * a + b * b >= 20_000_000_000) by (nonlinear_arith)
        requires SHARE_MIN <= a, SHARE_MIN <= b;
    assert(root >= 141_422) by (nonlinear_arith)
        requires root * root >= 20_000_000_000, root >= 0;
    assert(a * a + b * b <= 245_000_000_000) by (nonlinear_arith)
        requires 0 <= a <= SHARE_MAX, 0 <= b <= SHARE_MAX;
    assert(root <= 500_000) by (nonlinear_arith)
        requires root == 0 || (root - 1) * (root - 1) < 245_000_000_000, root >= 0;
    assert(a < root) by (nonlinear_arith)
        requires a >= 0, root >= 0, a * a + b * b <= root * root, b >= SHARE_MIN;
    assert(b < root) by (nonlinear_arith)
        requires b >= 0, root >= 0, a * a + b * b <= root * root, a >= SHARE_MIN;
    assert((a + b) * (a + b) <= 2 * (root * root)) by (nonlinear_arith)
        requires a * a + b * b <= root * root;
    if 1000 * (a + b) > 1415 * root {
        assert(false) by (nonlinear_arith)
            requires
                1000 * (a + b) > 1415 * root,
                (a + b) * (a + b) <= 2 * (root * root),
                root > 0;
    }
}

/// The rounded share is within half a step of the exact one.
proof fn lemma_rounding(n: int, root: int)
    requires
        0 <= n,
        0 < root,
    ensures
        -root < 2 * root * scaled_share(n, root) - 2 * n * SPEED <= root,
        scaled_share(n, root) >= 0,
{
    let q = scaled_share(n, root);
    assert(2 * root * q <= 2 * n * SPEED + root < 2 * root * q + 2 * root) by (nonlinear_arith)
        requires q == (2 * n * SPEED + root) / (2 * root), root > 0, n >= 0;
    assert(q >= 0) by (nonlinear_arith)
        requires q == (2 * n * SPEED + root) / (2 * root), root > 0, n >= 0;
}

/// `(2 * root * u)^2` split over `2 * n * SPEED` and the rounding error `d`.
proof fn lemma_square_split(root: int, u: int, n: int, d: int)
    requires
        d == 2 * root * u - 2 * n * SPEED,
    ensures
        4 * (root * root) * (u * u) == 4 * (SPEED * SPEED) * (n * n) + 4 * SPEED * (n * d) + d * d,
{
    let x = 2 * root * u;
    assert(x * x == 4 * (root * root) * (u * u)) by (nonlinear_arith)
        requires x == 2 * root * u;
    assert(x * x == 4 * (SPEED * SPEED) * (n * n) + 4 * SPEED * (n * d) + d * d) by (nonlinear_arith)
        requires x == 2 * n * SPEED + d;
}

/// The rounded components make a vector `SPEED` long, to within one.
proof fn lemma_serve_length(a: int, b: int, root: int)
    requires
        SHARE_MIN <= a <= SHARE_MAX,
        SHARE_MIN <= b <= SHARE_MAX,
        is_ceil_sqrt(a * a + b * b, root),
    ensures
        ({
            let u = scaled_share(a, root);
            let w = scaled_share(b, root);
            (SPEED - 1) * (SPEED - 1) <= u * u + w * w <= (SPEED + 1) * (SPEED + 1)
        }),
{
    lemma_root_facts(a, b, root);
    lemma_rounding(a, root);
    lemma_rounding(b, root);
    let u = scaled_share(a, root);
    let w = scaled_share(b, root);
    let d = 2 * root * u - 2 * a * SPEED;
    let e = 2 * root * w - 2 * b * SPEED;
    let n = a * a + b * b;
    let l2 = root * root;
    // (2 root)^2 |v|^2 written over the exact shares and the rounding errors.
    lemma_square_split(root, u, a, d);
    lemma_square_split(root, w, b, e);
    assert(4 * l2 * (u * u + w * w) == 4 * l2 * (u * u) + 4 * l2 * (w * w)) by (nonlinear_arith);
    assert(4 * (SPEED * SPEED) * n == 4 * (SPEED * SPEED) * (a * a) + 4 * (SPEED * SPEED) * (b * b)) by (nonlinear_arith)
        requires n == a * a + b * b;
    assert(4 * SPEED * (a * d + b * e) == 4 * SPEED * (a * d) + 4 * SPEED * (b * e)) by (nonlinear_arith);
    assert(4 * l2 * (u * u + w * w) == 4 * (SPEED * SPEED) * n + 4 * SPEED * (a * d + b * e) + d * d + e * e);
    assert(-(a + b) * root <= a * d + b * e <= (a + b) * root) by (nonlinear_arith)
        requires -root < d <= root, -root < e <= root, a >= 0, b >= 0;
    assert(d * d + e * e <= 2 * l2) by (nonlinear_arith)
        requires -root < d <= root, -root < e <= root, l2 == root * root;
    assert((a + b) * root <= 2 * l2) by (nonlinear_arith)
        requires a < root, b < root, l2 == root * root, a >= 0, b >= 0;
    assert(1000 * ((a + b) * root) <= 1415 * l2) by (nonlinear_arith)
        requires 1000 * (a + b) <= 1415 * root, root > 0, l2 == root * root;
    // Above: n <= root^2.
    assert(4 * l2 * (u * u + w * w) <= 4 * l2 * ((SPEED + 1) * (SPEED + 1))) by (nonlinear_arith)
        requires
            4 * l2 * (u * u + w * w) == 4 * (SPEED * SPEED) * n + 4 * SPEED * (a * d + b * e) + d * d + e * e,
            n <= l2,
            a * d + b * e <= (a + b) * root,
            (a + b) * root <= 2 * l2,
            d * d + e * e <= 2 * l2;
    // Below: (root - 1)^2 < n.
    assert((root - 1) * (root - 1) == l2 - 2 * root + 1) by (nonlinear_arith)
        requires l2 == root * root;
    assert(4 * (SPEED * SPEED) * n >= 4 * (SPEED * SPEED) * (l2 - 2 * root + 2)) by (nonlinear_arith)
        requires n >= l2 - 2 * root + 2;
    assert(l2 >= 141_422 * root) by (nonlinear_arith)
        requires root >= 141_422, l2 == root * root;
    assert(d * d + e * e >= 0) by (nonlinear_arith);
    assert(4 * (SPEED * SPEED) == 900_000_000);
    assert(4 * ((SPEED - 1) * (SPEED - 1)) == 899_880_004);
    assert(4 * l2 * ((SPEED - 1) * (SPEED - 1)) == 899_880_004 * l2) by (nonlinear_arith);
    assert(4 * (SPEED * SPEED) * n == 900_000_000 * n) by (nonlinear_arith);
    assert(4 * (SPEED * SPEED) * (l2 - 2 * root + 2) == 900_000_000 * (l2 - 2 * root + 2)) by (nonlinear_arith);
    assert(4 * SPEED * (a * d + b * e) == 60_000 * (a * d + b * e));
    let m = (a + b) * root;
    let k = a * d + b * e;
    assert(-(a + b) * root == -m) by (nonlinear_arith)
        requires m == (a + b) * root;
    assert(k >= -m && 1000 * m <= 1415 * l2);
    assert(4 * l2 * (u * u + w * w) >= 4 * l2 * ((SPEED - 1) * (SPEED - 1)));
    assert(u * u + w * w <= (SPEED + 1) * (SPEED + 1)) by (nonlinear_arith)
        requires 4 * l2 * (u * u + w * w) <= 4 * l2 * ((SPEED + 1) * (SPEED + 1)), l2 > 0;
    assert(u * u + w * w >= (SPEED - 1) * (SPEED - 1)) by (nonlinear_arith)
        requires 4 * l2 * (u * u + w * w) >= 4 * l2 * ((SPEED - 1) * (SPEED - 1)), l2 > 0;
}

/// Either axis gets between `SERVE_AXIS_MIN` and `SERVE_AXIS_MAX`.
proof fn lemma_serve_axis(a: int, b: int, root: int)
    requires
        SHARE_MIN <= a <= SHARE_MAX,
        SHARE_MIN <= b <= SHARE_MAX,
        is_ceil_sqrt(a * a + b * b, root),
    ensures
        SERVE_AXIS_MIN <= scaled_share(a, root) <= SERVE_AXIS_MAX,
{
    lemma_root_facts(a, b, root);
    let q = scaled_share(a, root);
    // Below: 30000 a >= 8239 root, since (30000 a - 8239)^2 >= 8239^2 (a^2 + b^2) > 8239^2 (root - 1)^2.
    let t = 832_118_879 * a - 494_340_000;
    assert(a * t >= 8_321_139_356_000_000_000) by (nonlinear_arith)
        requires a >= 100_000, t >= 83_211_393_560_000;
    assert((30_000 * a - 8_239) * (30_000 * a - 8_239) >= 67_881_121 * (a * a + b * b)) by (nonlinear_arith)
        requires
            a * t >= 8_321_139_356_000_000_000,
            t == 832_118_879 * a - 494_340_000,
            0 <= b <= SHARE_MAX;
    assert(30_000 * a >= 8_239 * root) by (nonlinear_arith)
        requires
            (30_000 * a - 8_239) * (30_000 * a - 8_239) >= 67_881_121 * (a * a + b * b),
            (root - 1) * (root - 1) < a * a + b * b,
            a >= 100_000,
            root >= 1;
    assert(q >= SERVE_AXIS_MIN) by (nonlinear_arith)
        requires 30_000 * a >= 8_239 * root, root > 0, q == (2 * a * SPEED + root) / (2 * root);
    // Above: 28847 root > 30000 a, since 28847^2 (a^2 + b^2) > 30000^2 a^2.
    assert(832_149_409 * (a * a + b * b) > 900_000_000 * (a * a)) by (nonlinear_arith)
        requires SHARE_MIN <= b, 0 <= a <= SHARE_MAX;
    assert(28_847 * root > 30_000 * a) by (nonlinear_arith)
        requires
            832_149_409 * (a * a + b * b) > 900_000_000 * (a * a),
            root * root >= a * a + b * b,
            root > 0,
            a >= 0;
    assert(q <= SERVE_AXIS_MAX) by (nonlinear_arith)
        requires 28_847 * root > 30_000 * a, root > 0, q == (2 * a * SPEED + root) / (2 * root), a >= 0;
}

/// A serving velocity along `direction`, a unit vector scaled by
/// `DIRECTION_ONE`. Neither axis is ever left without speed or given all of
/// it, so the ball never moves straight along an axis.
pub fn serve_velocity(direction: Vec2) -> (v: Velocity)
    requires
        is_direction(direction),
    ensures
        is_serve(direction, v),
        (v.0.x > 0) == (direction.x >= 0),
        (v.0.y > 0) == (direction.y >= 0),
        serve_speed_ok(v),
{
    let ax: i64 = if direction.x < 0 { -direction.x } else { direction.x };
    let ay: i64 = if direction.y < 0 { -direction.y } else { direction.y };
    let nx: i64 = SHARE_MIN + ax * (SHARE_MAX - SHARE_MIN) / DIRECTION_ONE;
    let ny: i64 = SHARE_MIN + ay * (SHARE_MAX - SHARE_MIN) / DIRECTION_ONE;
    proof {
        lemma_share_range(direction.x as int);
        lemma_share_range(direction.y as int);
        lemma_square_monotonic(nx as int, SHARE_MAX as int);
        lemma_square_monotonic(ny as int, SHARE_MAX as int);
    }
    let root = ceil_sqrt((nx * nx + ny * ny) as u64);
    proof {
        assert(nx * nx + ny * ny == ny * ny + nx * nx);
        lemma_root_facts(nx as int, ny as int, root as int);
        lemma_serve_axis(nx as int, ny as int, root as int);
        lemma_serve_axis(ny as int, nx as int, root as int);
        lemma_serve_length(nx as int, ny as int, root as int);
    }
    let magnitude_x: i64 = ((2 * (nx as u64) * (SPEED as u64) + root) / (2 * root)) as i64;
    let magnitude_y: i64 = ((2 * (ny as u64) * (SPEED as u64) + root) / (2 * root)) as i64;
    let vx: i64 = if direction.x >= 0 { magnitude_x } else { -magnitude_x };
    let vy: i64 = if direction.y >= 0 { magnitude_y } else { -magnitude_y };
    proof {
        assert(magnitude_x == scaled_share(nx as int, root as int));
        assert(magnitude_y == scaled_share(ny as int, root as int));
        assert(vx * vx == magnitude_x * magnitude_x) by (nonlinear_arith)
            requires vx == magnitude_x || vx == -magnitude_x;
        assert(vy * vy == magnitude_y * magnitude_y) by (nonlinear_arith)
            requires vy == magnitude_y || vy == -magnitude_y;
        assert(nx == share_spec(direction.x as int));
        assert(ny == share_spec(direction.y as int));
        assert(vx == sign_spec(direction.x as int) * scaled_share(nx as int, root as int));
        assert(vy == sign_spec(direction.y as int) * scaled_share(ny as int, root as int));
        assert(is_ceil_sqrt((nx * nx + ny * ny) as int, root as int));
    }
    Velocity(Vec2 { x: vx, y: vy })
}

impl Ball {
    /// A ball at the centre, served along `direction`.
    pub fn spawn(direction: Vec2) -> (b: Ball)
        requires
            is_direction(direction),
        ensures
            b.translation.x == 0,
            b.translation.y == 0,
            is_serve(direction, b.velocity),
            serve_speed_ok(b.velocity),
    {
        Ball { translation: Vec2::zero(), velocity: serve_velocity(direction) }
    }
}

impl Plugin {
    pub fn new() -> (r: Plugin)
        ensures
            r.flips@.len() == 0,
            r.respawns@.len() == 0,
    {
        Plugin { flips: Vec::new(), respawns: Vec::new() }
    }

    /// When a respawn is pending, drops every pending respawn and serves the
    /// ball again from the centre along `direction`; otherwise does nothing.
    pub fn respawn_handler(&mut self, ball: &mut Ball, direction: Vec2)
        requires
            is_direction(direction),
        ensures
            final(self).flips == old(self).flips,
            final(self).respawns@.len() == 0,
            old(self).respawns@.len() == 0 ==> *final(ball) == *old(ball),
            old(self).respawns@.len() > 0 ==> {
                &&& final(ball).translation.x == 0
                &&& final(ball).translation.y == 0
                &&& is_serve(direction, final(ball).velocity)
                &&& serve_speed_ok(final(ball).velocity)
            },
    {
        if self.respawns.len() == 0 {
            return;
        }
        self.respawns.clear();
        ball.translation = Vec2::zero();
        ball.velocity = serve_velocity(direction);
    }
}

} // verus!
