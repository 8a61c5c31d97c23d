//! Fixed-point plane geometry.
//!
//! Positions are whole numbers of thousandths of a game unit, directions are
//! vectors whose unit length is one million, and time is counted in
//! nanoseconds. Every operation is exact integer arithmetic with division
//! rounding toward zero, so the same inputs give the same game on every
//! machine.

use vstd::prelude::*;

verus! {

/// Position units in one game unit.
pub const POSITION_UNIT: i32 = 1000;

/// Length of a unit direction vector.
pub const DIRECTION_UNIT: i32 = 1_000_000;

/// Divisor that turns `direction * speed * nanoseconds` into position units:
/// one million for the direction scale and one million for nanoseconds per
/// millisecond of a unit travelled.
pub const TRAVEL_DIVISOR: i128 = 1_000_000_000_000;

/// Blend weight that stands for "all the way to the target".
pub const BLEND_ONE: u32 = 100_000_000;

/// Share of the blend weight contributed by each unit of speed
/// (`0.0003` of `BLEND_ONE`).
pub const BLEND_PER_SPEED: u64 = 30_000;

/// Factor by which a vector is enlarged before its length is taken, so that
/// the integer square root loses nothing that shows in a direction.
pub const LENGTH_SCALE: i128 = 0x8000_0000;

/// A bound on the magnitude of the sum or the difference of two
/// coordinates.
pub const MAX_SPAN: i64 = 0x1_0000_0000;

/// Length of a unit vector while a rotation is turned: a thousand times
/// finer than a direction, so that the roundings on the way do not show in
/// the result.
pub const FINE_UNIT: i32 = 1_000_000_000;

/// How often the arc between two rotations is halved when one is turned
/// toward the other. What is left of the arc after that is less than the
/// fine unit resolves.
pub const ARC_HALVINGS: u32 = 30;

/// `n / d` rounded toward zero, for a positive divisor.
pub open spec fn quotient_toward_zero(n: int, d: int) -> int {
    if n >= 0 {
        n / d
    } else {
        -((-n) / d)
    }
}

/// `r` is the integer square root of `n`: the largest whole number whose
/// square does not exceed `n`.
pub open spec fn is_floor_sqrt(n: int, r: int) -> bool {
    0 <= r && r * r <= n && n < (r + 1) * (r + 1)
}

/// The integer square root of `n` (meaningful for `n >= 0`).
pub open spec fn floor_sqrt(n: int) -> int {
    choose|r: int| is_floor_sqrt(n, r)
}

/// Confines a wide coordinate to the representable world.
pub open spec fn clamp_coordinate(v: int) -> int {
    if v < i32::MIN as int {
        i32::MIN as int
    } else if v > i32::MAX as int {
        i32::MAX as int
    } else {
        v
    }
}

/// Position units travelled along one axis in `dt_ns` nanoseconds at `speed`
/// game units per second, for that axis' component of the direction.
pub open spec fn travel(direction: int, speed: int, dt_ns: int) -> int {
    quotient_toward_zero(direction * speed * dt_ns, TRAVEL_DIVISOR as int)
}

/// The follow blend weight `clamp01(10 * dt + 0.0003 * speed)` as a share of
/// `BLEND_ONE`, for `dt_ns` nanoseconds and `speed` game units per second.
pub open spec fn blend_weight(dt_ns: int, speed: int) -> int {
    let raw = dt_ns + BLEND_PER_SPEED as int * speed;
    if raw >= BLEND_ONE as int {
        BLEND_ONE as int
    } else {
        raw
    }
}

/// A weight confined to `0 ..= BLEND_ONE`.
pub open spec fn effective_weight(weight: int) -> int {
    if weight >= BLEND_ONE as int {
        BLEND_ONE as int
    } else if weight < 0 {
        0
    } else {
        weight
    }
}

/// Linear blend of one coordinate: `from` moved toward `to` by the share
/// `weight / BLEND_ONE` of their difference.
pub open spec fn blend(from: int, to: int, weight: int) -> int {
    from + quotient_toward_zero((to - from) * effective_weight(weight), BLEND_ONE as int)
}

/// A point of the plane, in position units.
#[derive(Clone, Copy, PartialEq, Eq, Debug, Structural)]
pub struct Position {
    pub x: i32,
    pub y: i32,
}

/// A heading: zero, or a vector of length `DIRECTION_UNIT` up to rounding.
/// Used both for the direction of travel and, as a unit complex number, for
/// the rotation of an entity.
#[derive(Clone, Copy, PartialEq, Eq, Debug, Structural)]
pub struct Direction {
    pub x: i32,
    pub y: i32,
}

/// Where an entity is and which way it faces.
#[derive(Clone, Copy, PartialEq, Eq, Debug, Structural)]
pub struct Transform {
    pub translation: Position,
    pub rotation: Direction,
}

/// The length of the vector `(dx, dy)` in units of one `LENGTH_SCALE`th,
/// rounded down.
pub open spec fn scaled_length(dx: int, dy: int) -> int {
    floor_sqrt((dx * dx + dy * dy) * (LENGTH_SCALE as int * LENGTH_SCALE as int))
}

/// The vector `(dx, dy)` scaled to the length `unit`, or zero for the zero
/// vector.
pub open spec fn rescaled(dx: int, dy: int, unit: int) -> Direction {
    if dx == 0 && dy == 0 {
        Direction { x: 0, y: 0 }
    } else {
        let len = scaled_length(dx, dy);
        Direction {
            x: quotient_toward_zero(dx * unit * LENGTH_SCALE as int, len) as i32,
            y: quotient_toward_zero(dy * unit * LENGTH_SCALE as int, len) as i32,
        }
    }
}

/// The vector `(dx, dy)` scaled to unit length, or zero for the zero vector.
pub open spec fn normalized(dx: int, dy: int) -> Direction {
    rescaled(dx, dy, DIRECTION_UNIT as int)
}

/// The rotation half way along the shorter arc from `from` to `to`, at
/// the fine unit: their sum rescaled. Half way between opposite rotations
/// is `from` turned a quarter counterclockwise.
pub open spec fn bisector(from: Direction, to: Direction) -> Direction {
    if from.x + to.x == 0 && from.y + to.y == 0 {
        rescaled(-from.y, from.x as int, FINE_UNIT as int)
    } else {
        rescaled(from.x + to.x, from.y + to.y, FINE_UNIT as int)
    }
}

/// `from` turned toward `to`, both at the fine unit, along the shorter arc
/// by the share `weight / BLEND_ONE` of the angle between them, found by
/// halving the arc `halvings` times. A share below the half lies between `from` and the
/// rotation half way, at twice the share of that arc; any other lies
/// between the rotation half way and `to`. When the halvings are used up
/// the nearer end is taken.
pub open spec fn turned(from: Direction, to: Direction, weight: int, halvings: nat) -> Direction
    decreases halvings,
{
    if weight <= 0 {
        from
    } else if weight >= BLEND_ONE as int {
        to
    } else if halvings == 0 {
        if 2 * weight < BLEND_ONE as int {
            from
        } else {
            to
        }
    } else if 2 * weight < BLEND_ONE as int {
        turned(from, bisector(from, to), 2 * weight, (halvings - 1) as nat)
    } else {
        turned(bisector(from, to), to, 2 * weight - BLEND_ONE as int, (halvings - 1) as nat)
    }
}

impl Position {
    /// Squared Euclidean distance to `other`.
    pub open spec fn distance_squared(self, other: Position) -> int {
        (self.x - other.x) * (self.x - other.x) + (self.y - other.y) * (self.y - other.y)
    }

    /// The Euclidean distance to `other` is less than `reach`.
    pub open spec fn closer_than(self, other: Position, reach: int) -> bool {
        reach > 0 && self.distance_squared(other) < reach * reach
    }

    /// The Euclidean distance to `other` is more than `reach`.
    pub open spec fn farther_than(self, other: Position, reach: int) -> bool {
        reach < 0 || self.distance_squared(other) > reach * reach
    }

    /// This position moved along `direction` for `dt_ns` nanoseconds at
    /// `speed`, stopping at the edge of the world.
    pub open spec fn advanced(self, direction: Direction, speed: int, dt_ns: int) -> Position {
        Position {
            x: clamp_coordinate(self.x + travel(direction.x as int, speed, dt_ns)) as i32,
            y: clamp_coordinate(self.y + travel(direction.y as int, speed, dt_ns)) as i32,
        }
    }

    /// This position blended toward `target` by `weight`.
    pub open spec fn blended(self, target: Position, weight: int) -> Position {
        Position {
            x: blend(self.x as int, target.x as int, weight) as i32,
            y: blend(self.y as int, target.y as int, weight) as i32,
        }
    }

    /// The centre of the world.
    pub fn origin() -> (p: Position)
        ensures
            p == (Position { x: 0, y: 0 }),
    {
        Position { x: 0, y: 0 }
    }

    /// Whether `other` lies strictly within `reach` of this position.
    pub fn is_closer_than(&self, other: &Position, reach: i32) -> (r: bool)
        ensures
            r == self.closer_than(*other, reach as int),
    {
        if reach <= 0 {
            return false;
        }
        let d: i128 = squared_distance(self, other);
        proof {
            lemma_span_square(reach as int);
        }
        let limit: i128 = reach as i128 * reach as i128;
        d < limit
    }

    /// Whether `other` lies strictly beyond `reach` of this position.
    pub fn is_farther_than(&self, other: &Position, reach: i32) -> (r: bool)
        ensures
            r == self.farther_than(*other, reach as int),
    {
        if reach < 0 {
            return true;
        }
        let d: i128 = squared_distance(self, other);
        proof {
            lemma_span_square(reach as int);
        }
        let limit: i128 = reach as i128 * reach as i128;
        d > limit
    }

    /// Moves along `direction` for `dt_ns` nanoseconds at `speed` game units
    /// per second.
    pub fn advance(&self, direction: &Direction, speed: u32, dt_ns: u64) -> (p: Position)
        ensures
            p == self.advanced(*direction, speed as int, dt_ns as int),
    {
        Position {
            x: advance_coordinate(self.x, direction.x, speed, dt_ns),
            y: advance_coordinate(self.y, direction.y, speed, dt_ns),
        }
    }

    /// Blends toward `target` by `weight` out of `BLEND_ONE`.
    pub fn blend_toward(&self, target: &Position, weight: u32) -> (p: Position)
        ensures
            p == self.blended(*target, weight as int),
    {
        Position {
            x: blend_coordinate(self.x, target.x, weight),
            y: blend_coordinate(self.y, target.y, weight),
        }
    }
}

impl Direction {
    /// The heading that stands for "no direction yet".
    pub open spec fn zero_spec() -> Direction {
        Direction { x: 0, y: 0 }
    }

    /// The heading along the positive X axis: the identity rotation.
    pub open spec fn east_spec() -> Direction {
        Direction { x: DIRECTION_UNIT, y: 0 }
    }

    /// No component is longer than the unit.
    pub open spec fn within_unit(self) -> bool {
        &&& -DIRECTION_UNIT <= self.x <= DIRECTION_UNIT
        &&& -DIRECTION_UNIT <= self.y <= DIRECTION_UNIT
    }

    /// The rotation that turns the positive X axis onto this heading: the
    /// heading itself, and the identity for the zero heading.
    pub open spec fn as_rotation(self) -> Direction {
        if self == Direction::zero_spec() {
            Direction::east_spec()
        } else {
            self
        }
    }

    /// This rotation at the fine unit.
    pub open spec fn refined(self) -> Direction {
        rescaled(self.x as int, self.y as int, FINE_UNIT as int)
    }

    /// This rotation blended toward `target` by `weight`: the spherical
    /// blend, which turns it along the shorter arc by the share
    /// `weight / BLEND_ONE` of the angle between the two. No weight leaves
    /// the rotation as it is, the full weight gives the target, and between
    /// equal rotations nothing turns. Any other blend is worked out at the
    /// fine unit and scaled back to a direction.
    pub open spec fn blended(self, target: Direction, weight: int) -> Direction {
        if weight <= 0 || self == target {
            self
        } else if weight >= BLEND_ONE as int {
            target
        } else {
            let fine = turned(self.refined(), target.refined(), weight, ARC_HALVINGS as nat);
            normalized(fine.x as int, fine.y as int)
        }
    }

    #[verifier::when_used_as_spec(zero_spec)]
    pub fn zero() -> (d: Direction)
        ensures
            d == Direction::zero_spec(),
    {
        Direction { x: 0, y: 0 }
    }

    #[verifier::when_used_as_spec(east_spec)]
    pub fn east() -> (d: Direction)
        ensures
            d == Direction::east_spec(),
    {
        Direction { x: DIRECTION_UNIT, y: 0 }
    }

    /// The unit heading from `from` to `to`, zero where they coincide. No
    /// component of it exceeds the unit.
    pub fn between(from: &Position, to: &Position) -> (d: Direction)
        ensures
            d == normalized(to.x - from.x, to.y - from.y),
            d.within_unit(),
            (d == Direction::zero_spec()) == (*from == *to),
    {
        proof {
            lemma_normalized_zero(to.x - from.x, to.y - from.y);
        }
        normalize(to.x as i64 - from.x as i64, to.y as i64 - from.y as i64)
    }

    /// The rotation for this heading.
    pub fn to_rotation(&self) -> (r: Direction)
        ensures
            r == self.as_rotation(),
    {
        if self.x == 0 && self.y == 0 {
            Direction::east()
        } else {
            *self
        }
    }

    /// Turns this rotation toward `target` by the share `weight` out of
    /// `BLEND_ONE` of the angle between them. No weight leaves the rotation
    /// as it is, the full weight gives the target.
    pub fn blend_toward(&self, target: &Direction, weight: u32) -> (d: Direction)
        ensures
            d == self.blended(*target, weight as int),
            weight == 0 ==> d == *self,
            weight >= BLEND_ONE ==> d == *target,
    {
        if weight == 0 || (self.x == target.x && self.y == target.y) {
            return *self;
        }
        if weight >= BLEND_ONE {
            return *target;
        }
        let mut from = rescale(self.x as i64, self.y as i64, FINE_UNIT);
        let mut to = rescale(target.x as i64, target.y as i64, FINE_UNIT);
        let mut share: u32 = weight;
        let mut left: u32 = ARC_HALVINGS;
        while left > 0 && 0 < share && share < BLEND_ONE
            invariant
                share <= BLEND_ONE,
                turned(from, to, share as int, left as nat) == turned(
                    self.refined(),
                    target.refined(),
                    weight as int,
                    ARC_HALVINGS as nat,
                ),
            decreases left,
        {
            let mid = halfway(&from, &to);
            if share < BLEND_ONE - share {
                to = mid;
                share = 2 * share;
            } else {
                from = mid;
                share = share - (BLEND_ONE - share);
            }
            left = left - 1;
        }
        let fine = if share < BLEND_ONE - share {
            from
        } else {
            to
        };
        normalize(fine.x as i64, fine.y as i64)
    }
}

impl Transform {
    /// This transform blended toward `target` by `weight`, position and
    /// rotation alike.
    pub open spec fn blended(self, target: Transform, weight: int) -> Transform {
        Transform {
            translation: self.translation.blended(target.translation, weight),
            rotation: self.rotation.blended(target.rotation, weight),
        }
    }

    /// The transform at the origin with the identity rotation.
    pub open spec fn identity_spec() -> Transform {
        Transform { translation: Position { x: 0, y: 0 }, rotation: Direction::east_spec() }
    }

    #[verifier::when_used_as_spec(identity_spec)]
    pub fn identity() -> (t: Transform)
        ensures
            t == Transform::identity_spec(),
    {
        Transform { translation: Position::origin(), rotation: Direction::east() }
    }

    /// Blends position and rotation toward `target` by `weight` out of
    /// `BLEND_ONE`.
    pub fn blend_toward(&self, target: &Transform, weight: u32) -> (t: Transform)
        ensures
            t == self.blended(*target, weight as int),
    {
        Transform {
            translation: self.translation.blend_toward(&target.translation, weight),
            rotation: self.rotation.blend_toward(&target.rotation, weight),
        }
    }
}

/// The square of a whole number never decreases as its magnitude grows.
proof fn lemma_square_monotonic(a: int, b: int)
    requires
        0 <= a <= b,
    ensures
        a * a <= b * b,
{
    assert(a * a <= b * b) by (nonlinear_arith)
        requires
            0 <= a <= b,
    ;
}

/// A number has at most one integer square root.
pub proof fn lemma_floor_sqrt_unique(n: int, r: int, q: int)
    requires
        is_floor_sqrt(n, r),
        is_floor_sqrt(n, q),
    ensures
        r == q,
{
    if r < q {
        lemma_square_monotonic(r + 1, q);
    } else if q < r {
        lemma_square_monotonic(q + 1, r);
    }
}

/// The integer square root of `n`.
pub fn integer_sqrt(n: u128) -> (r: u64)
    ensures
        is_floor_sqrt(n as int, r as int),
        r as int == floor_sqrt(n as int),
{
    let mut lo: u128 = 0;
    let mut hi: u128 = 0x1_0000_0000_0000_0000;
    assert(0x1_0000_0000_0000_0000int * 0x1_0000_0000_0000_0000int
        == 0x1_0000_0000_0000_0000_0000_0000_0000_0000int) by (nonlinear_arith);
    while hi - lo > 1
        invariant
            lo < hi <= 0x1_0000_0000_0000_0000,
            lo * lo <= n,
            n < hi * hi,
        decreases hi - lo,
    {
        let mid: u128 = lo + (hi - lo) / 2;
        assert(mid * mid <= 0xFFFF_FFFF_FFFF_FFFFint * 0xFFFF_FFFF_FFFF_FFFFint)
            by (nonlinear_arith)
            requires
                0 <= mid <= 0xFFFF_FFFF_FFFF_FFFFint,
        ;
        assert(0xFFFF_FFFF_FFFF_FFFFint * 0xFFFF_FFFF_FFFF_FFFFint < u128::MAX)
            by (nonlinear_arith);
        if mid * mid <= n {
            lo = mid;
        } else {
            hi = mid;
        }
    }
    proof {
        assert(hi == lo + 1);
        assert(is_floor_sqrt(n as int, lo as int));
        lemma_floor_sqrt_unique(n as int, lo as int, floor_sqrt(n as int));
    }
    lo as u64
}

/// `n / d` rounded toward zero.
fn divide_toward_zero(n: i128, d: i128) -> (q: i128)
    requires
        d > 0,
        n > i128::MIN,
    ensures
        q == quotient_toward_zero(n as int, d as int),
{
    if n >= 0 {
        n / d
    } else {
        -((-n) / d)
    }
}

/// Squared distance between two positions.
fn squared_distance(a: &Position, b: &Position) -> (d: i128)
    ensures
        d == a.distance_squared(*b),
        0 <= d <= 2 * (MAX_SPAN as int * MAX_SPAN as int),
{
    let dx: i128 = a.x as i128 - b.x as i128;
    let dy: i128 = a.y as i128 - b.y as i128;
    proof {
        lemma_span_square(dx as int);
        lemma_span_square(dy as int);
    }
    dx * dx + dy * dy
}

/// The square of a coordinate difference is bounded.
proof fn lemma_span_square(d: int)
    requires
        -(MAX_SPAN as int) <= d <= MAX_SPAN as int,
    ensures
        0 <= d * d <= MAX_SPAN as int * MAX_SPAN as int,
        MAX_SPAN as int * MAX_SPAN as int == 0x1_0000_0000_0000_0000int,
{
    assert(0 <= d * d <= 0x1_0000_0000int * 0x1_0000_0000int) by (nonlinear_arith)
        requires
            -0x1_0000_0000int <= d <= 0x1_0000_0000int,
    ;
    assert(0x1_0000_0000int * 0x1_0000_0000int == 0x1_0000_0000_0000_0000int) by (nonlinear_arith);
}

/// A component of a vector scaled by the vector's length stays within the
/// unit.
proof fn lemma_unit_component(d: int, other: int, len: int, unit: int)
    requires
        d != 0 || other != 0,
        is_floor_sqrt((d * d + other * other) * (LENGTH_SCALE as int * LENGTH_SCALE as int), len),
        unit >= 1,
    ensures
        len >= 1,
        -unit <= quotient_toward_zero(d * unit * LENGTH_SCALE as int, len) <= unit,
{
    let scale = LENGTH_SCALE as int;
    let n = d * d + other * other;
    let m = if d >= 0 { d } else { -d };
    let long = m * scale;
    assert(other * other >= 0) by (nonlinear_arith);
    assert(m * m == d * d) by (nonlinear_arith)
        requires
            m == d || m == -d,
    ;
    assert(n >= 1) by (nonlinear_arith)
        requires
            n == d * d + other * other,
            d != 0 || other != 0,
    ;
    assert(long * long == (m * m) * (scale * scale)) by (nonlinear_arith)
        requires
            long == m * scale,
    ;
    assert((m * m) * (scale * scale) <= n * (scale * scale)) by (nonlinear_arith)
        requires
            m * m <= n,
            scale > 0,
    ;
    assert(n * (scale * scale) >= 1) by (nonlinear_arith)
        requires
            n >= 1,
            scale >= 1,
    ;
    if len < 1 {
        assert((len + 1) * (len + 1) == 1) by (nonlinear_arith)
            requires
                len == 0,
        ;
    }
    assert(long >= 0) by (nonlinear_arith)
        requires
            long == m * scale,
            m >= 0,
            scale > 0,
    ;
    if len < long {
        lemma_square_monotonic(len + 1, long);
    }
    assert(long <= len);
    assert(long * unit <= len * unit) by (nonlinear_arith)
        requires
            0 <= long <= len,
            unit > 0,
    ;
    assert(0 <= long * unit) by (nonlinear_arith)
        requires
            0 <= long,
            unit > 0,
    ;
    vstd::arithmetic::div_mod::lemma_div_is_ordered(long * unit, len * unit, len);
    vstd::arithmetic::div_mod::lemma_div_is_ordered(0, long * unit, len);
    vstd::arithmetic::div_mod::lemma_div_multiples_vanish(unit, len);
    assert((len * unit) / len == unit);
    assert(0int / len == 0) by (nonlinear_arith)
        requires
            len >= 1,
    ;
    assert(0 <= (long * unit) / len <= unit);
    if d >= 0 {
        assert(d * unit * scale == long * unit) by (nonlinear_arith)
            requires
                long == d * scale,
        ;
    } else {
        assert(-(d * unit * scale) == long * unit) by (nonlinear_arith)
            requires
                long == -d * scale,
        ;
        assert(d * unit * scale <= 0) by (nonlinear_arith)
            requires
                d < 0,
                unit > 0,
                scale > 0,
        ;
    }
}

/// The rotation half way between two rotations.
fn halfway(from: &Direction, to: &Direction) -> (d: Direction)
    ensures
        d == bisector(*from, *to),
{
    let sx: i64 = from.x as i64 + to.x as i64;
    let sy: i64 = from.y as i64 + to.y as i64;
    if sx == 0 && sy == 0 {
        rescale(-(from.y as i64), from.x as i64, FINE_UNIT)
    } else {
        rescale(sx, sy, FINE_UNIT)
    }
}

/// Scales `(dx, dy)` to unit length.
fn normalize(dx: i64, dy: i64) -> (d: Direction)
    requires
        -MAX_SPAN <= dx <= MAX_SPAN,
        -MAX_SPAN <= dy <= MAX_SPAN,
    ensures
        d == normalized(dx as int, dy as int),
        d.within_unit(),
{
    rescale(dx, dy, DIRECTION_UNIT)
}

/// Scales `(dx, dy)` to the length `unit`.
fn rescale(dx: i64, dy: i64, unit: i32) -> (d: Direction)
    requires
        -MAX_SPAN <= dx <= MAX_SPAN,
        -MAX_SPAN <= dy <= MAX_SPAN,
        unit >= 1,
    ensures
        d == rescaled(dx as int, dy as int, unit as int),
        -unit <= d.x <= unit,
        -unit <= d.y <= unit,
{
    if dx == 0 && dy == 0 {
        return Direction { x: 0, y: 0 };
    }
    proof {
        lemma_span_square(dx as int);
        lemma_span_square(dy as int);
    }
    let n: i128 = dx as i128 * dx as i128 + dy as i128 * dy as i128;
    assert(n * (LENGTH_SCALE as int * LENGTH_SCALE as int) <= 0x2_0000_0000_0000_0000int
        * 0x4000_0000_0000_0000int) by (nonlinear_arith)
        requires
            0 <= n <= 0x2_0000_0000_0000_0000int,
            LENGTH_SCALE as int * LENGTH_SCALE as int == 0x4000_0000_0000_0000int,
    ;
    let enlarged: u128 = n as u128 * (LENGTH_SCALE * LENGTH_SCALE) as u128;
    let len: u64 = integer_sqrt(enlarged);
    proof {
        lemma_unit_component(dx as int, dy as int, len as int, unit as int);
        assert(dy * dy + dx * dx == dx * dx + dy * dy);
        lemma_unit_component(dy as int, dx as int, len as int, unit as int);
        lemma_enlarged_component(dx as int, unit as int);
        lemma_enlarged_component(dy as int, unit as int);
    }
    let x: i128 = divide_toward_zero(dx as i128 * unit as i128 * LENGTH_SCALE, len as i128);
    let y: i128 = divide_toward_zero(dy as i128 * unit as i128 * LENGTH_SCALE, len as i128);
    Direction { x: x as i32, y: y as i32 }
}

/// A coordinate difference enlarged by the unit and the length scale fits
/// the arithmetic.
proof fn lemma_enlarged_component(d: int, unit: int)
    requires
        -(MAX_SPAN as int) <= d <= MAX_SPAN as int,
        1 <= unit <= 0x8000_0000,
    ensures
        -(MAX_SPAN as int) * 0x8000_0000 <= d * unit <= MAX_SPAN as int * 0x8000_0000,
        -(MAX_SPAN as int) * 0x8000_0000 * 0x8000_0000 <= d * unit * LENGTH_SCALE as int
            <= MAX_SPAN as int * 0x8000_0000 * 0x8000_0000,
{
    let span = MAX_SPAN as int;
    assert(-span * 0x8000_0000 <= d * unit <= span * 0x8000_0000) by (nonlinear_arith)
        requires
            -span <= d <= span,
            1 <= unit <= 0x8000_0000,
            span >= 0,
    ;
    assert(d * unit * LENGTH_SCALE as int == (d * unit) * 0x8000_0000);
}

/// One coordinate moved by `travel` and confined to the world.
fn advance_coordinate(from: i32, direction: i32, speed: u32, dt_ns: u64) -> (r: i32)
    ensures
        r as int == clamp_coordinate(from + travel(direction as int, speed as int, dt_ns as int)),
{
    assert(-0x8000_0000int * 0xFFFF_FFFFint <= direction as int * speed as int
        <= 0x8000_0000int * 0xFFFF_FFFFint) by (nonlinear_arith)
        requires
            -0x8000_0000int <= direction as int <= 0x7FFF_FFFFint,
            0 <= speed as int <= 0xFFFF_FFFFint,
    ;
    assert(-0x8000_0000int * 0xFFFF_FFFFint * 0xFFFF_FFFF_FFFF_FFFFint
        <= (direction as int * speed as int) * dt_ns as int
        <= 0x8000_0000int * 0xFFFF_FFFFint * 0xFFFF_FFFF_FFFF_FFFFint) by (nonlinear_arith)
        requires
            -0x8000_0000int * 0xFFFF_FFFFint <= direction as int * speed as int
                <= 0x8000_0000int * 0xFFFF_FFFFint,
            0 <= dt_ns as int <= 0xFFFF_FFFF_FFFF_FFFFint,
    ;
    let per_second: i128 = direction as i128 * speed as i128;
    let scaled: i128 = per_second * dt_ns as i128;
    let moved: i128 = divide_toward_zero(scaled, TRAVEL_DIVISOR);
    proof {
        lemma_quotient_bounded(scaled as int, TRAVEL_DIVISOR as int);
    }
    let target: i128 = from as i128 + moved;
    if target < i32::MIN as i128 {
        i32::MIN
    } else if target > i32::MAX as i128 {
        i32::MAX
    } else {
        target as i32
    }
}

/// A quotient rounded toward zero is no larger in magnitude than the
/// dividend.
proof fn lemma_quotient_bounded(n: int, d: int)
    requires
        d >= 1,
    ensures
        n >= 0 ==> 0 <= quotient_toward_zero(n, d) <= n,
        n <= 0 ==> n <= quotient_toward_zero(n, d) <= 0,
{
    let m = if n >= 0 { n } else { -n };
    vstd::arithmetic::div_mod::lemma_div_is_ordered_by_denominator(m, 1, d);
    vstd::arithmetic::div_mod::lemma_div_is_ordered(0, m, d);
    assert(0int / d == 0) by (nonlinear_arith)
        requires
            d >= 1,
    ;
    assert(m / 1 == m);
}

/// The share `weight / BLEND_ONE` of a difference is no larger in magnitude
/// than the difference and has its sign.
proof fn lemma_blend_between(diff: int, weight: int)
    requires
        0 <= weight <= BLEND_ONE as int,
    ensures
        diff >= 0 ==> 0 <= quotient_toward_zero(diff * weight, BLEND_ONE as int) <= diff,
        diff <= 0 ==> diff <= quotient_toward_zero(diff * weight, BLEND_ONE as int) <= 0,
{
    let one = BLEND_ONE as int;
    let m = if diff >= 0 { diff } else { -diff };
    assert(0 <= m * weight <= m * one) by (nonlinear_arith)
        requires
            0 <= m,
            0 <= weight <= one,
    ;
    vstd::arithmetic::div_mod::lemma_div_is_ordered(m * weight, m * one, one);
    vstd::arithmetic::div_mod::lemma_div_is_ordered(0, m * weight, one);
    vstd::arithmetic::div_mod::lemma_div_multiples_vanish(m, one);
    assert(m * one == one * m) by (nonlinear_arith);
    assert(0int / one == 0) by (nonlinear_arith)
        requires
            one >= 1,
    ;
    if diff >= 0 {
        assert(diff * weight == m * weight);
    } else {
        assert(-(diff * weight) == m * weight) by (nonlinear_arith)
            requires
                m == -diff,
        ;
        assert(diff * weight <= 0) by (nonlinear_arith)
            requires
                diff <= 0,
                weight >= 0,
        ;
    }
}

/// No share of a difference is nothing, and the full share is all of it.
proof fn lemma_blend_ends(diff: int)
    ensures
        quotient_toward_zero(diff * 0, BLEND_ONE as int) == 0,
        quotient_toward_zero(diff * BLEND_ONE as int, BLEND_ONE as int) == diff,
{
    let one = BLEND_ONE as int;
    let m = if diff >= 0 { diff } else { -diff };
    assert(diff * 0 == 0) by (nonlinear_arith);
    assert(0int / one == 0) by (nonlinear_arith)
        requires
            one >= 1,
    ;
    vstd::arithmetic::div_mod::lemma_div_multiples_vanish(m, one);
    assert(m * one == one * m) by (nonlinear_arith);
    if diff >= 0 {
        assert(diff * one == m * one);
        assert(m * one >= 0) by (nonlinear_arith)
            requires
                m >= 0,
                one >= 1,
        ;
    } else {
        assert(-(diff * one) == m * one) by (nonlinear_arith)
            requires
                m == -diff,
        ;
        assert(diff * one < 0) by (nonlinear_arith)
            requires
                diff < 0,
                one >= 1,
        ;
    }
}

/// Only the zero vector normalizes to zero.
proof fn lemma_normalized_zero(dx: int, dy: int)
    requires
        -(MAX_SPAN as int) <= dx <= MAX_SPAN as int,
        -(MAX_SPAN as int) <= dy <= MAX_SPAN as int,
    ensures
        (normalized(dx, dy) == Direction::zero_spec()) == (dx == 0 && dy == 0),
{
    if dx != 0 || dy != 0 {
        let scale = LENGTH_SCALE as int;
        let unit = DIRECTION_UNIT as int;
        let n = dx * dx + dy * dy;
        lemma_span_square(dx);
        lemma_span_square(dy);
        assert(n * (scale * scale) >= 0) by (nonlinear_arith)
            requires
                n >= 0,
                scale > 0,
        ;
        lemma_floor_sqrt_exists(n * (scale * scale));
        let len = scaled_length(dx, dy);
        lemma_unit_component(dx, dy, len, unit);
        assert(dy * dy + dx * dx == n);
        lemma_unit_component(dy, dx, len, unit);
        let ax = if dx >= 0 { dx } else { -dx };
        let ay = if dy >= 0 { dy } else { -dy };
        let big = if ax >= ay { ax } else { ay };
        let long = big * scale;
        assert(ax * ax == dx * dx) by (nonlinear_arith)
            requires
                ax == dx || ax == -dx,
        ;
        assert(ay * ay == dy * dy) by (nonlinear_arith)
            requires
                ay == dy || ay == -dy,
        ;
        assert(n <= 2 * (big * big)) by (nonlinear_arith)
            requires
                n == ax * ax + ay * ay,
                0 <= ax <= big,
                0 <= ay <= big,
        ;
        assert(n * (scale * scale) <= 2 * (long * long)) by (nonlinear_arith)
            requires
                n <= 2 * (big * big),
                long == big * scale,
                scale > 0,
        ;
        assert(long >= 1) by (nonlinear_arith)
            requires
                long == big * scale,
                big >= 1,
                scale >= 1,
        ;
        assert(len <= 2 * long) by {
            if len > 2 * long {
                lemma_square_monotonic(2 * long + 1, len);
                assert((2 * long + 1) * (2 * long + 1) > 2 * (long * long)) by (nonlinear_arith)
                    requires
                        long >= 1,
                ;
            }
        }
        assert(long * unit >= len) by (nonlinear_arith)
            requires
                long >= 1,
                len <= 2 * long,
                unit == 1_000_000,
        ;
        vstd::arithmetic::div_mod::lemma_div_is_ordered(len, long * unit, len);
        vstd::arithmetic::div_mod::lemma_div_multiples_vanish(1, len);
        assert(len * 1 == len);
        assert((long * unit) / len >= 1);
        if ax >= ay {
            if dx >= 0 {
                assert(dx * unit * scale == long * unit) by (nonlinear_arith)
                    requires
                        long == dx * scale,
                ;
            } else {
                assert(-(dx * unit * scale) == long * unit) by (nonlinear_arith)
                    requires
                        long == -dx * scale,
                ;
                assert(dx * unit * scale < 0) by (nonlinear_arith)
                    requires
                        dx < 0,
                        unit == 1_000_000,
                        scale == 0x8000_0000,
                ;
            }
            assert(quotient_toward_zero(dx * unit * scale, len) != 0);
        } else {
            if dy >= 0 {
                assert(dy * unit * scale == long * unit) by (nonlinear_arith)
                    requires
                        long == dy * scale,
                ;
            } else {
                assert(-(dy * unit * scale) == long * unit) by (nonlinear_arith)
                    requires
                        long == -dy * scale,
                ;
                assert(dy * unit * scale < 0) by (nonlinear_arith)
                    requires
                        dy < 0,
                        unit == 1_000_000,
                        scale == 0x8000_0000,
                ;
            }
            assert(quotient_toward_zero(dy * unit * scale, len) != 0);
        }
    }
}

/// Every number that is not negative has an integer square root.
pub proof fn lemma_floor_sqrt_exists(n: int)
    requires
        n >= 0,
    ensures
        is_floor_sqrt(n, floor_sqrt(n)),
    decreases n,
{
    if n == 0 {
        assert(is_floor_sqrt(0, 0));
    } else {
        lemma_floor_sqrt_exists(n - 1);
        let r = floor_sqrt(n - 1);
        if n < (r + 1) * (r + 1) {
            assert(is_floor_sqrt(n, r));
        } else {
            assert((r + 2) * (r + 2) > (r + 1) * (r + 1)) by (nonlinear_arith)
                requires
                    r >= 0,
            ;
            assert(is_floor_sqrt(n, r + 1));
        }
    }
}

/// The follow blend weight for one tick.
pub fn follow_weight(dt_ns: u64, speed: u32) -> (w: u32)
    ensures
        w as int == blend_weight(dt_ns as int, speed as int),
        w <= BLEND_ONE,
{
    assert(BLEND_PER_SPEED as int * speed as int <= 30_000 * 0xFFFF_FFFFint) by (nonlinear_arith)
        requires
            BLEND_PER_SPEED as int == 30_000,
            0 <= speed as int <= 0xFFFF_FFFFint,
    ;
    let raw: u128 = dt_ns as u128 + BLEND_PER_SPEED as u128 * speed as u128;
    if raw >= BLEND_ONE as u128 {
        BLEND_ONE
    } else {
        raw as u32
    }
}

/// One coordinate blended toward a target. The result lies between the two,
/// at the start for no weight and at the target for the full weight.
pub fn blend_coordinate(from: i32, to: i32, weight: u32) -> (r: i32)
    ensures
        r as int == blend(from as int, to as int, weight as int),
        from <= to ==> from <= r <= to,
        to <= from ==> to <= r <= from,
        weight == 0 ==> r == from,
        weight >= BLEND_ONE ==> r == to,
{
    let w: i128 = if weight >= BLEND_ONE { BLEND_ONE as i128 } else { weight as i128 };
    let diff: i128 = to as i128 - from as i128;
    assert(-(MAX_SPAN as int) * BLEND_ONE as int <= diff * w <= MAX_SPAN as int * BLEND_ONE as int)
        by (nonlinear_arith)
        requires
            -(MAX_SPAN as int) <= diff <= MAX_SPAN as int,
            0 <= w <= BLEND_ONE as int,
    ;
    let share: i128 = divide_toward_zero(diff * w, BLEND_ONE as i128);
    proof {
        lemma_blend_between(diff as int, w as int);
        lemma_blend_ends(diff as int);
    }
    (from as i128 + share) as i32
}

} // verus!
