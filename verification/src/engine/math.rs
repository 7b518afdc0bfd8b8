use vstd::prelude::*;
use crate::engine::datatypes::Position;

verus! {

/// `root` is the square root of `n`, rounded down.
pub open spec fn is_int_sqrt(n: int, root: int) -> bool {
    0 <= root && root * root <= n < (root + 1) * (root + 1)
}

/// The square root of `n`, rounded down.
pub open spec fn int_sqrt(n: int) -> int {
    choose|root: int| is_int_sqrt(n, root)
}

/// A number has at most one rounded square root.
pub proof fn lemma_int_sqrt_unique(n: int, a: int, b: int)
    requires
        is_int_sqrt(n, a),
        is_int_sqrt(n, b),
    ensures
        a == b,
{
    if a < b {
        assert((a + 1) * (a + 1) <= b * b) by (nonlinear_arith)
            requires
                0 <= a,
                a + 1 <= b,
        ;
    } else if b < a {
        assert((b + 1) * (b + 1) <= a * a) by (nonlinear_arith)
            requires
                0 <= b,
                b + 1 <= a,
        ;
    }
}

/// The square root of `n`, rounded down.
pub fn isqrt(n: u128) -> (root: u128)
    ensures
        is_int_sqrt(n as int, root as int),
        root == int_sqrt(n as int),
        root < 0x1_0000_0000_0000_0000,
{
    let mut low: u128 = 0;
    let mut high: u128 = 0x1_0000_0000_0000_0000;
    assert(n < high * high) by (nonlinear_arith)
        requires
            high == 0x1_0000_0000_0000_0000,
            n <= u128::MAX,
    ;
    while high - low > 1
        invariant
            low < high <= 0x1_0000_0000_0000_0000,
            low * low <= n < high * high,
        decreases high - low,
    {
        let middle: u128 = low + (high - low) / 2;
        assert(middle * middle <= 0xffff_ffff_ffff_ffff * 0xffff_ffff_ffff_ffff) by (nonlinear_arith)
            requires
                0 <= middle <= 0xffff_ffff_ffff_ffff,
        ;
        if middle * middle <= n {
            low = middle;
        } else {
            high = middle;
        }
    }
    proof {
        assert(high == low + 1);
        assert(is_int_sqrt(n as int, low as int));
        lemma_int_sqrt_unique(n as int, low as int, int_sqrt(n as int));
    }
    low
}

/// The square of the distance between two points.
pub open spec fn distance_squared(from: Position, to: Position) -> int {
    (to.x - from.x) * (to.x - from.x) + (to.y - from.y) * (to.y - from.y)
}

/// The distance between two points, rounded down.
pub open spec fn distance(from: Position, to: Position) -> int {
    int_sqrt(distance_squared(from, to))
}

/// The part `step / length` of `offset`, rounded towards zero.
pub open spec fn scaled(offset: int, step: int, length: int) -> int {
    if offset >= 0 {
        (offset * step) / length
    } else {
        -((-offset * step) / length)
    }
}

/// A coordinate brought into the range that can be written down.
pub open spec fn clamp_coordinate(coordinate: int) -> int {
    if coordinate < i32::MIN {
        i32::MIN as int
    } else if coordinate > i32::MAX {
        i32::MAX as int
    } else {
        coordinate
    }
}

/// Where one arrives after `step` units on the straight line from `from`
/// towards `to`, going on past it where the step is longer than the way. One
/// stays where the two points are the same.
pub open spec fn step_towards(from: Position, to: Position, step: int) -> Position {
    let length = distance(from, to);
    if length == 0 {
        from
    } else {
        Position {
            x: clamp_coordinate(from.x + scaled(to.x - from.x, step, length)) as i32,
            y: clamp_coordinate(from.y + scaled(to.y - from.y, step, length)) as i32,
        }
    }
}

/// The square of the distance between two points.
pub fn squared_distance(from: Position, to: Position) -> (squared: u128)
    ensures
        squared == distance_squared(from, to),
{
    let dx: i64 = to.x as i64 - from.x as i64;
    let dy: i64 = to.y as i64 - from.y as i64;
    let ax: u128 = if dx >= 0 { dx as u128 } else { (-dx) as u128 };
    let ay: u128 = if dy >= 0 { dy as u128 } else { (-dy) as u128 };
    assert(ax * ax <= 0xffff_ffff * 0xffff_ffff && ax * ax == dx * dx) by (nonlinear_arith)
        requires
            0 <= ax <= 0xffff_ffff,
            ax == dx || ax == -dx,
    ;
    assert(ay * ay <= 0xffff_ffff * 0xffff_ffff && ay * ay == dy * dy) by (nonlinear_arith)
        requires
            0 <= ay <= 0xffff_ffff,
            ay == dy || ay == -dy,
    ;
    ax * ax + ay * ay
}

/// A coordinate after a step: `from`, moved by the part `step / length` of
/// its offset to `to`.
pub fn moved_coordinate(from: i32, to: i32, step: u64, length: u128) -> (arrived: i32)
    requires
        0 < length,
    ensures
        arrived == clamp_coordinate(from + scaled(to - from, step as int, length as int)),
{
    let offset: i64 = to as i64 - from as i64;
    let magnitude: u128 = if offset >= 0 { offset as u128 } else { (-offset) as u128 };
    assert(magnitude * step <= 0xffff_ffff * 0xffff_ffff_ffff_ffff) by (nonlinear_arith)
        requires
            0 <= magnitude <= 0xffff_ffff,
            0 <= step <= 0xffff_ffff_ffff_ffff,
    ;
    let product: u128 = magnitude * (step as u128);
    let part: u128 = product / length;
    assert(part <= product) by (nonlinear_arith)
        requires
            part == product / length,
            0 < length,
            0 <= product,
    ;
    let moved: i128 = if offset >= 0 {
        from as i128 + part as i128
    } else {
        from as i128 - part as i128
    };
    if moved < i32::MIN as i128 {
        i32::MIN
    } else if moved > i32::MAX as i128 {
        i32::MAX
    } else {
        moved as i32
    }
}

/// Where one arrives after `step` units on the straight line from `from`
/// towards `to`.
pub fn moved_towards(from: Position, to: Position, step: u64) -> (arrived: Position)
    ensures
        arrived == step_towards(from, to, step as int),
{
    let length: u128 = isqrt(squared_distance(from, to));
    if length == 0 {
        from
    } else {
        Position {
            x: moved_coordinate(from.x, to.x, step, length),
            y: moved_coordinate(from.y, to.y, step, length),
        }
    }
}

/// Every number from zero on has a rounded square root.
pub proof fn lemma_int_sqrt_exists(n: int)
    requires
        0 <= n,
    ensures
        is_int_sqrt(n, int_sqrt(n)),
    decreases n,
{
    if n == 0 {
        assert(is_int_sqrt(0, 0));
    } else {
        lemma_int_sqrt_exists(n - 1);
        let below = int_sqrt(n - 1);
        if (below + 1) * (below + 1) <= n {
            assert(n < (below + 2) * (below + 2)) by (nonlinear_arith)
                requires
                    n - 1 < (below + 1) * (below + 1),
                    0 <= below,
            ;
            assert(is_int_sqrt(n, below + 1));
        } else {
            assert(is_int_sqrt(n, below));
        }
    }
}

/// Along each axis a step ends between where it started and `step` units
/// past its target.
pub proof fn lemma_step_stays_between(from: Position, to: Position, step: int)
    requires
        0 <= step,
    ensures
        ({
            let arrived = step_towards(from, to, step);
            &&& to.x >= from.x ==> from.x <= arrived.x <= to.x + step
            &&& to.x <= from.x ==> to.x - step <= arrived.x <= from.x
            &&& to.y >= from.y ==> from.y <= arrived.y <= to.y + step
            &&& to.y <= from.y ==> to.y - step <= arrived.y <= from.y
        }),
{
    let dx = to.x - from.x;
    let dy = to.y - from.y;
    let n = dx * dx + dy * dy;
    assert(n >= 0) by (nonlinear_arith)
        requires
            n == dx * dx + dy * dy,
    ;
    lemma_int_sqrt_exists(n);
    let length = distance(from, to);
    if length != 0 {
        lemma_scaled_general(dx, dy, step);
        lemma_scaled_general(dy, dx, step);
        assert(dy * dy + dx * dx == n) by (nonlinear_arith)
            requires
                n == dx * dx + dy * dy,
        ;
    }
}

/// Along each axis a step moves by `step` units at most, towards the target.
pub proof fn lemma_scaled_general(offset: int, other: int, step: int)
    requires
        0 <= step,
        int_sqrt(offset * offset + other * other) != 0,
    ensures
        ({
            let length = int_sqrt(offset * offset + other * other);
            &&& offset >= 0 ==> 0 <= scaled(offset, step, length) <= step
            &&& offset <= 0 ==> -step <= scaled(offset, step, length) <= 0
        }),
{
    let n = offset * offset + other * other;
    assert(n >= 0) by (nonlinear_arith)
        requires
            n == offset * offset + other * other,
    ;
    lemma_int_sqrt_exists(n);
    let length = int_sqrt(n);
    let magnitude = if offset >= 0 { offset } else { -offset };
    assert(magnitude * magnitude <= n) by (nonlinear_arith)
        requires
            n == offset * offset + other * other,
            magnitude == offset || magnitude == -offset,
    ;
    assert(magnitude <= length) by (nonlinear_arith)
        requires
            magnitude * magnitude <= n,
            n < (length + 1) * (length + 1),
            0 <= magnitude,
            0 <= length,
    ;
    assert(0 <= (magnitude * step) / length <= step) by (nonlinear_arith)
        requires
            0 <= magnitude <= length,
            0 < length,
            0 <= step,
    ;
    if offset == 0 {
        assert((offset * step) / length == 0) by (nonlinear_arith)
            requires
                offset == 0,
                0 < length,
        ;
    } else if offset > 0 {
        assert(scaled(offset, step, length) == (magnitude * step) / length);
    } else {
        assert(scaled(offset, step, length) == -((magnitude * step) / length));
    }
}

} // verus!
