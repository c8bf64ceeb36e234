use vstd::prelude::*;

verus! {

/// Decay rate of the player's smoothing, per second.
pub const DECAY: i64 = 16;

/// Fixed-point one for a retention factor: a factor of `RETAIN_ONE` keeps the
/// whole distance to the goal, a factor of zero drops it.
pub const RETAIN_ONE: u64 = 1_000_000;

/// Largest magnitude of a coordinate that the smoothing accepts.
pub const COORD_LIMIT: i64 = 1_099_511_627_776;

pub open spec fn clamp_spec(v: int, lo: int, hi: int) -> int {
    if v < lo {
        lo
    } else if v > hi {
        hi
    } else {
        v
    }
}

pub open spec fn abs_spec(v: int) -> int {
    if v < 0 { -v } else { v }
}

/// `1` for zero and above, `-1` below.
pub open spec fn sign_spec(v: int) -> int {
    if v >= 0 { 1 } else { -1 }
}

pub open spec fn in_coord_range(v: i64) -> bool {
    -COORD_LIMIT <= v <= COORD_LIMIT
}

/// `goal + (current - goal) * retain / RETAIN_ONE`, the remaining distance
/// rounded toward the goal.
pub open spec fn decay_spec(current: int, goal: int, retain: int) -> int {
    if current >= goal {
        goal + (current - goal) * retain / (RETAIN_ONE as int)
    } else {
        goal - (goal - current) * retain / (RETAIN_ONE as int)
    }
}

/// One step of exponential smoothing from `current` toward `goal`.
///
/// `retain` is the share of the distance that survives the step, that is
/// `exp(-decay * dt)` scaled by `RETAIN_ONE`: as `dt` grows it falls toward
/// zero and the result toward `goal`.
pub fn exponential_decay(current: i64, goal: i64, retain: u64) -> (r: i64)
    requires
        in_coord_range(current),
        in_coord_range(goal),
        retain <= RETAIN_ONE,
    ensures
        r == decay_spec(current as int, goal as int, retain as int),
        current <= goal ==> current <= r <= goal,
        goal <= current ==> goal <= r <= current,
        current == goal ==> r == goal,
        retain == RETAIN_ONE ==> r == current,
        retain == 0 ==> r == goal,
{
    if current >= goal {
        let diff = (current - goal) as u64;
        proof {
            lemma_share_le(diff as int, retain as int);
        }
        let kept = diff * retain / RETAIN_ONE;
        goal + kept as i64
    } else {
        let diff = (goal - current) as u64;
        proof {
            lemma_share_le(diff as int, retain as int);
        }
        let kept = diff * retain / RETAIN_ONE;
        goal - kept as i64
    }
}

proof fn lemma_share_le(d: int, k: int)
    requires
        0 <= d <= 2 * COORD_LIMIT,
        0 <= k <= RETAIN_ONE,
    ensures
        0 <= d * k <= d * (RETAIN_ONE as int),
        d * k <= 2 * COORD_LIMIT * (RETAIN_ONE as int),
        0 <= d * k / (RETAIN_ONE as int) <= d,
        k == RETAIN_ONE ==> d * k / (RETAIN_ONE as int) == d,
        k == 0 ==> d * k / (RETAIN_ONE as int) == 0,
{
    assert(0 <= d * k <= d * (RETAIN_ONE as int)) by (nonlinear_arith)
        requires 0 <= d, 0 <= k <= RETAIN_ONE;
    assert(d * (RETAIN_ONE as int) <= 2 * COORD_LIMIT * (RETAIN_ONE as int)) by (nonlinear_arith)
        requires 0 <= d <= 2 * COORD_LIMIT;
    assert(d * k / (RETAIN_ONE as int) <= d) by (nonlinear_arith)
        requires 0 <= d * k <= d * (RETAIN_ONE as int);
    if k == RETAIN_ONE {
        assert(d * k / (RETAIN_ONE as int) == d) by (nonlinear_arith)
            requires k == RETAIN_ONE;
    }
}

/// The smoothed value stays between the start and the goal, meets the goal
/// when it starts there, keeps the start when nothing decays, and reaches the
/// goal when everything does. It leaves the start whenever some of the
/// distance decays, and stops short of the goal whenever the distance that
/// remains is at least one after rounding down.
pub proof fn lemma_decay_between(current: i64, goal: i64, retain: u64)
    requires
        in_coord_range(current),
        in_coord_range(goal),
        retain <= RETAIN_ONE,
    ensures
        ({
            let r = decay_spec(current as int, goal as int, retain as int);
            &&& current <= goal ==> current <= r <= goal
            &&& goal <= current ==> goal <= r <= current
            &&& current == goal ==> r == goal
            &&& retain == RETAIN_ONE ==> r == current
            &&& retain == 0 ==> r == goal
            &&& current != goal && retain < RETAIN_ONE ==> r != current
            &&& abs_spec(current - goal) * retain >= RETAIN_ONE ==> r != goal
        }),
{
    let d = abs_spec(current - goal);
    lemma_share_le(d, retain as int);
    if current != goal && retain < RETAIN_ONE {
        assert(d * retain / (RETAIN_ONE as int) < d) by (nonlinear_arith)
            requires d > 0, 0 <= retain < RETAIN_ONE;
    }
    if d * retain >= RETAIN_ONE {
        assert(d * retain / (RETAIN_ONE as int) >= 1) by (nonlinear_arith)
            requires d * retain >= RETAIN_ONE;
    }
}

} // verus!
