//! Integer geometry: positions in micrometres, angles in millidegrees.
use vstd::prelude::*;

verus! {

/// Millidegrees in a full turn.
pub const FULL_TURN: i64 = 360000;

/// Millidegrees in a half turn.
pub const HALF_TURN: i64 = 180000;

/// The blending factor that stands for 1; factors are given in millionths.
pub const LAMBDA_ONE: i64 = 1000000;

/// Fixed-point scale of `TAN_TABLE`.
pub const TAN_SCALE: u128 = 4294967296;

/// `tan(k/4 degrees)` scaled by `TAN_SCALE` and rounded, for `k` in `0..=180`.
pub const TAN_TABLE: [u64; 181] = [
    0, 18740449, 37481612, 56224202, 74968933, 93716520, 112467677, 131223119, 149983563,
    168749725, 187522322, 206302073, 225089698, 243885917, 262691453, 281507029, 300333370,
    319171203, 338021257, 356884261, 375760949, 394652054, 413558313, 432480466, 451419253,
    470375420, 489349712, 508342879, 527355674, 546388852, 565443172, 584519395, 603618289,
    622740620, 641887163, 661058693, 680255991, 699479842, 718731033, 738010359, 757318616,
    776656606, 796025137, 815425019, 834857071, 854322113, 873820972, 893354482, 912923481,
    932528812, 952171326, 971851878, 991571331, 1011330552, 1031130419, 1050971811, 1070855618,
    1090782736, 1110754067, 1130770522, 1150833018, 1170942482, 1191099847, 1211306054, 1231562054,
    1251868805, 1272227273, 1292638436, 1313103278, 1333622794, 1354197987, 1374829871, 1395519469,
    1416267816, 1437075955, 1457944940, 1478875838, 1499869725, 1520927688, 1542050827, 1563240253,
    1584497089, 1605822471, 1627217546, 1648683477, 1670221435, 1691832610, 1713518202, 1735279427,
    1757117513, 1779033704, 1801029260, 1823105454, 1845263575, 1867504930, 1889830840, 1912242643,
    1934741693, 1957329363, 1980007044, 2002776142, 2025638083, 2048594314, 2071646297, 2094795517,
    2118043477, 2141391701, 2164841734, 2188395142, 2212053513, 2235818457, 2259691608, 2283674620,
    2307769174, 2331976973, 2356299747, 2380739248, 2405297257, 2429975579, 2454776048, 2479700525,
    2504750896, 2529929081, 2555237026, 2580676708, 2606250134, 2631959344, 2657806408, 2683793431,
    2709922549, 2736195935, 2762615796, 2789184375, 2815903950, 2842776839, 2869805398, 2896992021,
    2924339143, 2951849240, 2979524831, 3007368477, 3035382783, 3063570399, 3091934022, 3120476397,
    3149200315, 3178108618, 3207204198, 3236490001, 3265969024, 3295644319, 3325518994, 3355596215,
    3385879205, 3416371248, 3447075690, 3477995939, 3509135469, 3540497818, 3572086594, 3603905474,
    3635958206, 3668248612, 3700780589, 3733558110, 3766585228, 3799866077, 3833404875, 3867205923,
    3901273613, 3935612425, 3970226930, 4005121798, 4040301793, 4075771779, 4111536726, 4147601706,
    4183971902, 4220652607, 4257649230, 4294967296,
];

/// Clamps an integer into the range of `i32`.
pub open spec fn clamp32(v: int) -> int {
    if v < -2147483648 {
        -2147483648
    } else if v > 2147483647 {
        2147483647
    } else {
        v
    }
}

/// The representative of `m` in `[0, FULL_TURN)`.
pub open spec fn normalize(m: int) -> int {
    m % (FULL_TURN as int)
}

/// Whether `r` is the integer square root of `n`, rounded down.
pub open spec fn is_sqrt_floor(n: int, r: int) -> bool {
    0 <= r && r * r <= n < (r + 1) * (r + 1)
}

/// The largest `r <= k` with `r * r <= n`.
pub open spec fn sqrt_below(n: int, k: int) -> int
    decreases k,
{
    if k <= 0 || k * k <= n {
        k
    } else {
        sqrt_below(n, k - 1)
    }
}

/// The square root of `n`, rounded down.
pub open spec fn sqrt_floor(n: int) -> int {
    sqrt_below(n, n)
}

/// `a + (b - a) * lambda`, with `lambda` in millionths, rounded down.
pub open spec fn lerp(a: int, b: int, lambda: int) -> int {
    a + (b - a) * lambda / (LAMBDA_ONE as int)
}

/// A 2D vector; each component is in micrometres.
#[derive(Clone, Copy, Debug, PartialEq, Eq, Structural)]
pub struct Point {
    pub x: i32,
    pub y: i32,
}

/// Squared Euclidean length of the vector `(x, y)`.
pub open spec fn len_sq(x: int, y: int) -> int {
    x * x + y * y
}

/// Euclidean distance between two points, rounded down to a micrometre.
pub open spec fn dist(a: Point, b: Point) -> int {
    sqrt_floor(len_sq(a.x - b.x, a.y - b.y))
}

fn clamp_to_i32(v: i64) -> (r: i32)
    ensures
        r == clamp32(v as int),
{
    if v < -2147483648 {
        -2147483648
    } else if v > 2147483647 {
        2147483647
    } else {
        v as i32
    }
}

proof fn lemma_sqrt_below(n: int, k: int, r: int)
    requires
        is_sqrt_floor(n, r),
        k >= r,
    ensures
        sqrt_below(n, k) == r,
    decreases k,
{
    if k > r {
        assert(k * k >= (r + 1) * (r + 1)) by (nonlinear_arith)
            requires
                k >= r + 1,
                r >= 0,
        ;
        lemma_sqrt_below(n, k - 1, r);
    }
}

/// The square root of `n`, rounded down.
pub fn isqrt(n: u128) -> (r: u64)
    ensures
        r == sqrt_floor(n as int),
{
    let mut lo: u128 = 0;
    let mut hi: u128 = 18446744073709551616;
    assert(n < hi * hi);
    while hi - lo > 1
        invariant
            lo < hi <= 18446744073709551616,
            lo * lo <= n,
            n < hi * hi,
        decreases hi - lo,
    {
        let mid: u128 = lo + (hi - lo) / 2;
        assert(mid * mid <= 18446744073709551615u128 * 18446744073709551615u128) by (nonlinear_arith)
            requires
                mid < 18446744073709551616,
        ;
        if mid * mid <= n {
            lo = mid;
        } else {
            hi = mid;
        }
    }
    proof {
        assert(hi == lo + 1);
        assert(lo <= n) by (nonlinear_arith)
            requires
                lo * lo <= n,
        ;
        lemma_sqrt_below(n as int, n as int, lo as int);
    }
    lo as u64
}

impl Point {
    /// The point `(x, y)`.
    pub fn new(x: i32, y: i32) -> (r: Point)
        ensures
            r.x == x,
            r.y == y,
    {
        Point { x, y }
    }

    /// The zero vector.
    pub open spec fn zero_spec() -> Point {
        Point { x: 0, y: 0 }
    }

    /// The zero vector.
    pub fn zero() -> (r: Point)
        ensures
            r == Point::zero_spec(),
    {
        Point { x: 0, y: 0 }
    }

    /// Componentwise sum, saturating at the range of `i32`.
    pub open spec fn plus_spec(self, o: Point) -> Point {
        Point { x: clamp32(self.x + o.x) as i32, y: clamp32(self.y + o.y) as i32 }
    }

    /// Componentwise difference, saturating at the range of `i32`.
    pub open spec fn minus_spec(self, o: Point) -> Point {
        Point { x: clamp32(self.x - o.x) as i32, y: clamp32(self.y - o.y) as i32 }
    }

    /// This point blended towards `o` by `lambda` millionths.
    pub open spec fn lerp_spec(self, o: Point, lambda: int) -> Point {
        Point { x: lerp(self.x as int, o.x as int, lambda) as i32, y: lerp(self.y as int, o.y as int, lambda) as i32 }
    }

    /// Componentwise sum, saturating at the range of `i32`.
    pub fn plus(self, o: Point) -> (r: Point)
        ensures
            r == self.plus_spec(o),
            r.x == clamp32(self.x + o.x),
            r.y == clamp32(self.y + o.y),
    {
        Point {
            x: clamp_to_i32(self.x as i64 + o.x as i64),
            y: clamp_to_i32(self.y as i64 + o.y as i64),
        }
    }

    /// Componentwise difference, saturating at the range of `i32`.
    pub fn minus(self, o: Point) -> (r: Point)
        ensures
            r == self.minus_spec(o),
            r.x == clamp32(self.x - o.x),
            r.y == clamp32(self.y - o.y),
    {
        Point {
            x: clamp_to_i32(self.x as i64 - o.x as i64),
            y: clamp_to_i32(self.y as i64 - o.y as i64),
        }
    }

    /// This point blended towards `o` by `lambda` millionths, rounding down.
    pub fn lerp_to(self, o: Point, lambda: i64) -> (r: Point)
        requires
            0 <= lambda <= LAMBDA_ONE,
        ensures
            r == self.lerp_spec(o, lambda as int),
    {
        Point { x: lerp_i32(self.x, o.x, lambda), y: lerp_i32(self.y, o.y, lambda) }
    }

    /// The squared Euclidean length.
    pub fn square_length(self) -> (r: u64)
        ensures
            r == len_sq(self.x as int, self.y as int),
    {
        let x = self.x as i64;
        let y = self.y as i64;
        assert(x * x <= 4611686018427387904) by (nonlinear_arith)
            requires
                -2147483648 <= x <= 2147483647,
        ;
        assert(y * y <= 4611686018427387904) by (nonlinear_arith)
            requires
                -2147483648 <= y <= 2147483647,
        ;
        assert(x * x >= 0 && y * y >= 0) by (nonlinear_arith);
        ((x * x) as u64) + ((y * y) as u64)
    }

    /// The Euclidean length, rounded down.
    pub fn length(self) -> (r: u64)
        ensures
            r == sqrt_floor(len_sq(self.x as int, self.y as int)),
    {
        isqrt(self.square_length() as u128)
    }
}

/// The squared distance between two points.
pub fn distance_sq(a: Point, b: Point) -> (r: u128)
    ensures
        r == len_sq(a.x - b.x, a.y - b.y),
{
    let dx = a.x as i128 - b.x as i128;
    let dy = a.y as i128 - b.y as i128;
    assert(dx * dx <= 18446744073709551616 && dx * dx >= 0) by (nonlinear_arith)
        requires
            -4294967296 <= dx <= 4294967296,
    ;
    assert(dy * dy <= 18446744073709551616 && dy * dy >= 0) by (nonlinear_arith)
        requires
            -4294967296 <= dy <= 4294967296,
    ;
    (dx * dx + dy * dy) as u128
}

/// The distance between two points, rounded down to a micrometre.
pub fn distance(a: Point, b: Point) -> (r: u64)
    ensures
        r == dist(a, b),
{
    isqrt(distance_sq(a, b))
}

/// `floor(a / n)`.
pub fn div_floor(a: i64, n: i64) -> (r: i64)
    requires
        n > 0,
    ensures
        r == a as int / n as int,
{
    if a >= 0 {
        ((a as u64) / (n as u64)) as i64
    } else {
        let p: u64 = (-(a as i128)) as u64;
        let q: u64 = p / (n as u64);
        let m: u64 = p % (n as u64);
        proof {
            let (pi, ni, qi, mi) = (p as int, n as int, q as int, m as int);
            vstd::arithmetic::div_mod::lemma_fundamental_div_mod(pi, ni);
            assert(pi == ni * qi + mi);
            vstd::arithmetic::mul::lemma_mul_is_commutative(ni, qi);
            if m == 0 {
                assert(a as int == (-qi) * ni + 0) by (nonlinear_arith)
                    requires
                        a as int == -pi,
                        pi == qi * ni + mi,
                        mi == 0,
                ;
                vstd::arithmetic::div_mod::lemma_fundamental_div_mod_converse(
                    a as int, ni, -qi, 0);
                assert(qi <= pi) by (nonlinear_arith)
                    requires
                        pi == qi * ni,
                        ni >= 1,
                        qi >= 0,
                ;
            } else {
                assert(a as int == (-qi - 1) * ni + (ni - mi)) by (nonlinear_arith)
                    requires
                        a as int == -pi,
                        pi == qi * ni + mi,
                ;
                vstd::arithmetic::div_mod::lemma_fundamental_div_mod_converse(
                    a as int, ni, -qi - 1, ni - mi);
                assert(qi + 1 <= pi) by (nonlinear_arith)
                    requires
                        pi == qi * ni + mi,
                        ni >= 1,
                        qi >= 0,
                        mi >= 1,
                ;
            }
        }
        if m == 0 {
            (-(q as i128)) as i64
        } else {
            (-(q as i128) - 1) as i64
        }
    }
}

/// Blends `a` towards `b` by `lambda` millionths, rounding down.
pub fn lerp_i32(a: i32, b: i32, lambda: i64) -> (r: i32)
    requires
        0 <= lambda <= LAMBDA_ONE,
    ensures
        r == lerp(a as int, b as int, lambda as int),
{
    let d = b as i64 - a as i64;
    assert(-4294967296 * 1000000 <= d * lambda <= 4294967296 * 1000000) by (nonlinear_arith)
        requires
            -4294967296 <= d <= 4294967296,
            0 <= lambda <= 1000000,
    ;
    let step = div_floor(d * lambda, LAMBDA_ONE);
    proof {
        lemma_lerp_between(a as int, b as int, lambda as int);
    }
    (a as i64 + step) as i32
}

/// A blend lies between its two ends.
pub proof fn lemma_lerp_between(a: int, b: int, lambda: int)
    requires
        0 <= lambda <= LAMBDA_ONE,
    ensures
        a <= b ==> a <= lerp(a, b, lambda) <= b,
        b <= a ==> b <= lerp(a, b, lambda) <= a,
        lerp(a, b, 0) == a,
        lerp(a, b, LAMBDA_ONE as int) == b,
{
    let d = b - a;
    let one = LAMBDA_ONE as int;
    if d >= 0 {
        assert(0 <= d * lambda <= d * one) by (nonlinear_arith)
            requires
                d >= 0,
                0 <= lambda <= one,
        ;
        vstd::arithmetic::div_mod::lemma_div_is_ordered(0, d * lambda, one);
        vstd::arithmetic::div_mod::lemma_div_is_ordered(d * lambda, d * one, one);
        vstd::arithmetic::div_mod::lemma_div_multiples_vanish(d, one);
    } else {
        assert(d * one <= d * lambda <= 0) by (nonlinear_arith)
            requires
                d < 0,
                0 <= lambda <= one,
        ;
        vstd::arithmetic::div_mod::lemma_div_is_ordered(d * lambda, 0, one);
        vstd::arithmetic::div_mod::lemma_div_is_ordered(d * one, d * lambda, one);
        vstd::arithmetic::div_mod::lemma_div_multiples_vanish(d, one);
    }
    assert(d * one / one == d) by {
        vstd::arithmetic::div_mod::lemma_div_multiples_vanish(d, one);
    }
}


/// `m` reduced into `[0, FULL_TURN)`.
fn normalize_wide(m: i128) -> (r: i64)
    requires
        -170141183460469231731687303715884105727 <= m,
    ensures
        r == normalize(m as int),
        0 <= r < FULL_TURN,
{
    let f: u128 = 360000;
    if m >= 0 {
        ((m as u128) % f) as i64
    } else {
        let p: u128 = (-m) as u128;
        let k: u128 = p % f;
        let q: u128 = p / f;
        proof {
            let (pi, qi, ki, fi) = (p as int, q as int, k as int, f as int);
            vstd::arithmetic::div_mod::lemma_fundamental_div_mod(pi, fi);
            vstd::arithmetic::mul::lemma_mul_is_commutative(fi, qi);
            if k == 0 {
                vstd::arithmetic::div_mod::lemma_fundamental_div_mod_converse_mod(
                    m as int, fi, -qi, 0);
            } else {
                vstd::arithmetic::div_mod::lemma_fundamental_div_mod_converse_mod(
                    m as int, fi, -qi - 1, fi - ki);
            }
        }
        if k == 0 {
            0
        } else {
            (f - k) as i64
        }
    }
}

/// Unsigned angular distance of `m` from zero: `min(m, FULL_TURN - m)`.
pub open spec fn abs_spec(m: int) -> int {
    if FULL_TURN - m < m {
        FULL_TURN - m
    } else {
        m
    }
}

/// The blend of two normalized angles along the shorter arc between them; a tie goes to the arc
/// that starts at the lower of the two.
pub open spec fn interpolate_spec(a: int, b: int, lambda: int) -> int {
    if a - b > HALF_TURN {
        normalize(lerp(a, b + FULL_TURN, lambda))
    } else if b - a > HALF_TURN {
        normalize(lerp(a + FULL_TURN, b, lambda))
    } else {
        normalize(lerp(a, b, lambda))
    }
}

/// An angle, taken modulo a full turn, held in millidegrees in `[0, FULL_TURN)`.
#[derive(Clone, Copy, Debug, PartialEq, Eq, Structural)]
pub struct Angle {
    mdeg: i64,
}

impl Angle {
    #[verifier::type_invariant]
    spec fn wf(self) -> bool {
        0 <= self.mdeg < FULL_TURN
    }

    /// The representative in millidegrees.
    pub closed spec fn view(self) -> int {
        self.mdeg as int
    }

    /// The angle of `m` millidegrees, as a value.
    pub closed spec fn of(m: int) -> Angle {
        Angle { mdeg: normalize(m) as i64 }
    }

    /// `Angle::of(m)` holds the representative of `m`.
    pub proof fn lemma_of(m: int)
        ensures
            Angle::of(m)@ == normalize(m),
    {
    }

    /// The angle of `m` millidegrees; whole turns are dropped.
    pub fn from_millidegrees(m: i64) -> (r: Angle)
        ensures
            r == Angle::of(m as int),
            r@ == normalize(m as int),
            0 <= r@ < FULL_TURN,
    {
        Angle { mdeg: normalize_wide(m as i128) }
    }

    /// The angle of `d` degrees; whole turns are dropped.
    pub fn from_degrees(d: i64) -> (r: Angle)
        ensures
            r == Angle::of(d * 1000),
            r@ == normalize(d * 1000),
            0 <= r@ < FULL_TURN,
    {
        Angle { mdeg: normalize_wide(d as i128 * 1000) }
    }

    /// The representative in millidegrees, in `[0, FULL_TURN)`.
    pub fn to_millidegrees(&self) -> (r: i64)
        ensures
            r == self@,
            0 <= r < FULL_TURN,
    {
        proof {
            use_type_invariant(self);
        }
        self.mdeg
    }

    /// The representative in whole degrees, rounded down, in `[0, 360)`.
    pub fn to_degrees(&self) -> (r: i64)
        ensures
            r == self@ / 1000,
            0 <= r < 360,
    {
        proof {
            use_type_invariant(self);
        }
        self.mdeg / 1000
    }

    /// The unsigned distance from this angle to zero, in `[0, HALF_TURN]`.
    pub fn abs(&self) -> (r: UAngle)
        ensures
            r@ == abs_spec(self@),
            0 <= r@ <= HALF_TURN,
    {
        proof {
            use_type_invariant(self);
        }
        let m = if FULL_TURN - self.mdeg < self.mdeg {
            FULL_TURN - self.mdeg
        } else {
            self.mdeg
        };
        UAngle { mdeg: m }
    }

    /// The sum of two angles.
    pub fn plus(self, o: Angle) -> (r: Angle)
        ensures
            r == Angle::of(self@ + o@),
            r@ == normalize(self@ + o@),
    {
        proof {
            use_type_invariant(self);
            use_type_invariant(o);
        }
        Angle::from_millidegrees(self.mdeg + o.mdeg)
    }

    /// The difference of two angles.
    pub fn minus(self, o: Angle) -> (r: Angle)
        ensures
            r == Angle::of(self@ - o@),
            r@ == normalize(self@ - o@),
    {
        proof {
            use_type_invariant(self);
            use_type_invariant(o);
        }
        Angle::from_millidegrees(self.mdeg - o.mdeg)
    }

    /// The opposite angle.
    pub fn negated(self) -> (r: Angle)
        ensures
            r == Angle::of(-self@),
            r@ == normalize(-self@),
    {
        proof {
            use_type_invariant(self);
        }
        Angle::from_millidegrees(-self.mdeg)
    }

    /// `(1 - lambda) * self + lambda * other` along the shorter arc, with `lambda` in millionths.
    pub fn interpolate(&self, other: Angle, lambda: i64) -> (r: Angle)
        requires
            0 <= lambda <= LAMBDA_ONE,
        ensures
            r@ == interpolate_spec(self@, other@, lambda as int),
            r == Angle::of(interpolate_spec(self@, other@, lambda as int)),
    {
        proof {
            use_type_invariant(self);
            use_type_invariant(other);
        }
        let mut a = self.mdeg;
        let mut b = other.mdeg;
        if a - b > HALF_TURN {
            b = b + FULL_TURN;
        } else if b - a > HALF_TURN {
            a = a + FULL_TURN;
        }
        let d = b - a;
        assert(-1000000000000 <= d * lambda <= 1000000000000) by (nonlinear_arith)
            requires
                -1000000 <= d <= 1000000,
                0 <= lambda <= 1000000,
        ;
        let step = div_floor(d * lambda, LAMBDA_ONE);
        proof {
            lemma_lerp_between(a as int, b as int, lambda as int);
        }
        Angle::from_millidegrees(a + step)
    }
}

/// An unsigned angular magnitude, held in millidegrees in `[0, FULL_TURN)`.
#[derive(Clone, Copy, Debug, PartialEq, Eq, Structural)]
pub struct UAngle {
    mdeg: i64,
}

impl UAngle {
    #[verifier::type_invariant]
    spec fn wf(self) -> bool {
        0 <= self.mdeg < FULL_TURN
    }

    /// The magnitude in millidegrees.
    pub closed spec fn view(self) -> int {
        self.mdeg as int
    }

    /// The magnitude of `m` millidegrees; whole turns are dropped.
    pub fn from_millidegrees(m: u32) -> (r: UAngle)
        ensures
            r@ == normalize(m as int),
            0 <= r@ < FULL_TURN,
    {
        UAngle { mdeg: normalize_wide(m as i128) }
    }

    /// The magnitude of `d` degrees; whole turns are dropped.
    pub fn from_degrees(d: u32) -> (r: UAngle)
        ensures
            r@ == normalize(d * 1000),
            0 <= r@ < FULL_TURN,
    {
        UAngle { mdeg: normalize_wide(d as i128 * 1000) }
    }

    /// The magnitude in millidegrees.
    pub fn to_millidegrees(&self) -> (r: i64)
        ensures
            r == self@,
            0 <= r < FULL_TURN,
    {
        proof {
            use_type_invariant(self);
        }
        self.mdeg
    }

    /// The sum of two magnitudes; whole turns are dropped, as when one is made.
    pub fn plus(self, o: UAngle) -> (r: UAngle)
        ensures
            r@ == normalize(self@ + o@),
            0 <= r@ < FULL_TURN,
    {
        proof {
            use_type_invariant(self);
            use_type_invariant(o);
        }
        UAngle { mdeg: normalize_wide((self.mdeg + o.mdeg) as i128) }
    }

    /// The magnitude in whole degrees, rounded down.
    pub fn to_degrees(&self) -> (r: i64)
        ensures
            r == self@ / 1000,
    {
        proof {
            use_type_invariant(self);
        }
        self.mdeg / 1000
    }
}

/// One of the four cardinal directions.
#[derive(Clone, Copy, Debug, PartialEq, Eq, Hash, Structural)]
pub enum Direction {
    Up,
    Down,
    Left,
    Right,
}

/// The cardinal direction within `t` millidegrees of the normalized angle `a`, if any.
pub open spec fn direction_of(a: int, t: int) -> Option<Direction> {
    if 0 <= a <= t {
        Some(Direction::Right)
    } else if 90000 - t <= a <= 90000 + t {
        Some(Direction::Up)
    } else if 180000 - t <= a <= 180000 + t {
        Some(Direction::Left)
    } else if 270000 - t <= a <= 270000 + t {
        Some(Direction::Down)
    } else if FULL_TURN - t <= a <= FULL_TURN {
        Some(Direction::Right)
    } else {
        None
    }
}

impl Direction {
    /// The canonical angle of the direction, in millidegrees.
    pub open spec fn mdeg(self) -> int {
        match self {
            Direction::Right => 0,
            Direction::Up => 90000,
            Direction::Left => 180000,
            Direction::Down => 270000,
        }
    }

    /// Rounds an angle to the cardinal direction within `threshold` of it, if there is one.
    pub fn from_angle(angle: Angle, threshold: UAngle) -> (r: Option<Direction>)
        requires
            threshold@ <= 45000,
        ensures
            r == direction_of(angle@, threshold@),
    {
        let t = threshold.to_millidegrees();
        let a = angle.to_millidegrees();
        if 0 <= a && a <= t {
            Some(Direction::Right)
        } else if 90000 - t <= a && a <= 90000 + t {
            Some(Direction::Up)
        } else if 180000 - t <= a && a <= 180000 + t {
            Some(Direction::Left)
        } else if 270000 - t <= a && a <= 270000 + t {
            Some(Direction::Down)
        } else if FULL_TURN - t <= a && a <= FULL_TURN {
            Some(Direction::Right)
        } else {
            None
        }
    }

    /// The canonical angle of the direction.
    pub fn to_angle(&self) -> (r: Angle)
        ensures
            r == Angle::of(self.mdeg()),
            r@ == self.mdeg(),
    {
        match *self {
            Direction::Right => Angle::from_degrees(0),
            Direction::Up => Angle::from_degrees(90),
            Direction::Left => Angle::from_degrees(180),
            Direction::Down => Angle::from_degrees(270),
        }
    }
}

/// The quarter degree `k` below the slope `b / a`: the last `k < 180` from `j - 1` on such that
/// `TAN_TABLE[k] <= b / a`, scanning upwards from `j`.
pub open spec fn tan_segment(a: int, b: int, j: int) -> int
    decreases 180 - j,
{
    if j >= 180 || TAN_TABLE@[j] * a > b * TAN_SCALE {
        j - 1
    } else {
        tan_segment(a, b, j + 1)
    }
}

/// The direction in millidegrees, in `[0, 45000]`, of a vector `(a, b)` with `0 <= b <= a`:
/// the quarter degree below it in `TAN_TABLE`, plus the position of the slope between that entry
/// and the next, taken as linear and rounded to the nearest millidegree.
pub open spec fn octant_mdeg(a: int, b: int) -> int {
    let k = tan_segment(a, b, 1);
    let num = 250 * (b * TAN_SCALE - TAN_TABLE@[k] * a);
    let den = (TAN_TABLE@[k + 1] - TAN_TABLE@[k]) * a;
    if den <= 0 {
        250 * k
    } else {
        250 * k + (2 * num + den) / (2 * den)
    }
}

/// The direction in millidegrees, in `[0, 90000]`, of a vector `(a, b)` with `a, b >= 0`.
pub open spec fn quadrant_mdeg(a: int, b: int) -> int {
    if b <= a {
        octant_mdeg(a, b)
    } else {
        90000 - octant_mdeg(b, a)
    }
}

/// The direction of the vector `(x, y)` in millidegrees, measured counterclockwise from the
/// positive x axis; zero for the zero vector.
pub open spec fn vector_mdeg(x: int, y: int) -> int {
    let q = quadrant_mdeg(if x < 0 { -x } else { x }, if y < 0 { -y } else { y });
    if x == 0 && y == 0 {
        0
    } else if y >= 0 {
        if x >= 0 { q } else { 180000 - q }
    } else {
        if x < 0 { 180000 + q } else { 360000 - q }
    }
}

proof fn lemma_segment_end(a: int, b: int, j: int)
    requires
        1 <= j <= 180,
    ensures
        0 <= tan_segment(a, b, j) < 180,
        tan_segment(a, b, j) >= j - 1,
        tan_segment(a, b, j) + 1 < 180 ==> TAN_TABLE@[tan_segment(a, b, j) + 1] * a > b * TAN_SCALE,
        tan_segment(a, b, j) >= j ==> TAN_TABLE@[tan_segment(a, b, j)] * a <= b * TAN_SCALE,
    decreases 180 - j,
{
    if j < 180 && TAN_TABLE@[j] * a <= b * TAN_SCALE {
        lemma_segment_end(a, b, j + 1);
    }
}

/// Whether the slope `b / a` reaches `TAN_TABLE[j]`.
fn slope_reaches(j: usize, a: u64, b: u64) -> (r: bool)
    requires
        j < 181,
    ensures
        r == (TAN_TABLE@[j as int] * (a as int) <= (b as int) * TAN_SCALE),
{
    let t = TAN_TABLE[j] as u128;
    assert(t * (a as u128) <= 18446744073709551615 * 18446744073709551615) by (nonlinear_arith)
        requires
            t <= 18446744073709551615,
            a <= 18446744073709551615,
    ;
    t * (a as u128) <= (b as u128) * TAN_SCALE
}

/// The direction in millidegrees of a vector `(a, b)` with `0 <= b <= a`.
fn octant_angle(a: u64, b: u64) -> (r: i64)
    requires
        b <= a,
    ensures
        r == octant_mdeg(a as int, b as int),
        0 <= r <= 45000,
{
    let ghost ai = a as int;
    let ghost bi = b as int;
    let mut j: usize = 1;
    assert(TAN_TABLE@[0] == 0);
    assert(TAN_TABLE@[180] == 4294967296);
    assert(TAN_TABLE@[0] * ai == 0);
    let mut more = slope_reaches(1, a, b);
    while j < 180 && more
        invariant
            ai == a as int,
            bi == b as int,
            1 <= j <= 180,
            more == (j < 180 && TAN_TABLE@[j as int] * ai <= bi * TAN_SCALE),
            tan_segment(ai, bi, 1) == tan_segment(ai, bi, j as int),
            TAN_TABLE@[j - 1] * ai <= bi * TAN_SCALE,
            TAN_TABLE@[0] == 0,
            TAN_TABLE@[180] == 4294967296,
        decreases 180 - j,
    {
        assert(tan_segment(ai, bi, j as int) == tan_segment(ai, bi, j + 1));
        j = j + 1;
        if j < 180 {
            more = slope_reaches(j, a, b);
        } else {
            more = false;
        }
    }
    let k = j - 1;
    proof {
        lemma_segment_end(ai, bi, j as int);
        assert(tan_segment(ai, bi, j as int) == k);
    }
    let lo = TAN_TABLE[k] as u128;
    let hi = TAN_TABLE[k + 1] as u128;
    assert(lo <= 4294967296 && hi <= 4294967296);
    assert(hi * (a as u128) >= (b as u128) * TAN_SCALE) by {
        if k + 1 == 180 {
            assert(hi == 4294967296);
            assert(hi * ai >= bi * 4294967296) by (nonlinear_arith)
                requires
                    hi == 4294967296,
                    bi <= ai,
            ;
        }
    }
    assert(lo * (a as u128) <= 4294967296 * 18446744073709551616) by (nonlinear_arith)
        requires
            lo <= 4294967296,
            a < 18446744073709551616,
    ;
    assert(hi * (a as u128) <= 4294967296 * 18446744073709551616) by (nonlinear_arith)
        requires
            hi <= 4294967296,
            a < 18446744073709551616,
    ;
    let below = lo * (a as u128);
    let above = hi * (a as u128);
    let target = (b as u128) * TAN_SCALE;
    if above <= below {
        assert(hi * ai - lo * ai <= 0);
        assert((hi - lo) * ai <= 0) by (nonlinear_arith)
            requires
                hi * ai - lo * ai <= 0,
        ;
        return 250 * k as i64;
    }
    let num = 250 * (target - below);
    let den = above - below;
    proof {
        assert(den == (hi - lo) * ai) by (nonlinear_arith)
            requires
                den == hi * ai - lo * ai,
        ;
        assert(num <= 250 * den);
        assert((2 * num + den) / (2 * den) <= 250) by (nonlinear_arith)
            requires
                num <= 250 * den,
                den > 0,
                num >= 0,
        ;
        assert((2 * num + den) / (2 * den) >= 0) by (nonlinear_arith)
            requires
                den > 0,
                num >= 0,
        ;
    }
    let frac = (2 * num + den) / (2 * den);
    250 * k as i64 + frac as i64
}

fn abs_u64(x: i64) -> (r: u64)
    ensures
        r == if x < 0 { -x } else { x as int },
{
    if x < 0 {
        (-(x as i128)) as u64
    } else {
        x as u64
    }
}

/// The direction of the vector `(x, y)` in millidegrees, measured counterclockwise from the
/// positive x axis.
pub fn vector_angle(x: i64, y: i64) -> (r: Angle)
    ensures
        r@ == normalize(vector_mdeg(x as int, y as int)),
        r == Angle::of(vector_mdeg(x as int, y as int)),
{
    let ax = abs_u64(x);
    let ay = abs_u64(y);
    let q = if ay <= ax {
        octant_angle(ax, ay)
    } else {
        90000 - octant_angle(ay, ax)
    };
    let d = if x == 0 && y == 0 {
        0
    } else if y >= 0 {
        if x >= 0 { q } else { 180000 - q }
    } else {
        if x < 0 { 180000 + q } else { 360000 - q }
    };
    Angle::from_millidegrees(d)
}

/// The rounded-down square root of `n` is at most any `b` with `n <= b * b`.
pub proof fn lemma_sqrt_floor_bound(n: int, b: int)
    requires
        0 <= n <= b * b,
        b >= 0,
    ensures
        0 <= sqrt_floor(n) <= b,
{
    lemma_sqrt_floor_exists(n);
    let r = sqrt_floor(n);
    if r > b {
        assert(r * r > b * b) by (nonlinear_arith)
            requires
                r > b,
                b >= 0,
        ;
    }
}

/// `sqrt_floor(n)` is the rounded-down square root of `n`.
pub proof fn lemma_sqrt_floor_exists(n: int)
    requires
        n >= 0,
    ensures
        is_sqrt_floor(n, sqrt_floor(n)),
{
    assert(n < (n + 1) * (n + 1)) by (nonlinear_arith)
        requires
            n >= 0,
    ;
    lemma_sqrt_below_spec(n, n);
}

proof fn lemma_sqrt_below_spec(n: int, k: int)
    requires
        n >= 0,
        k >= 0,
        n < (k + 1) * (k + 1),
    ensures
        is_sqrt_floor(n, sqrt_below(n, k)),
    decreases k,
{
    if k * k > n {
        assert(k > 0) by (nonlinear_arith)
            requires
                k * k > n,
                n >= 0,
                k >= 0,
        ;
        lemma_sqrt_below_spec(n, k - 1);
    } else {
        assert(k * k >= 0) by (nonlinear_arith);
    }
}

/// An angle does not change when whole turns are added to it.
pub proof fn law_angle_ignores_whole_turns(m: int, k: int)
    ensures
        normalize(m) == normalize(m + FULL_TURN * k),
        Angle::of(m) == Angle::of(m + FULL_TURN * k),
{
    vstd::arithmetic::div_mod::lemma_mod_multiples_vanish(k, m, FULL_TURN as int);
    vstd::arithmetic::mul::lemma_mul_is_commutative(FULL_TURN as int, k);
}

/// Interpolating by zero gives the first angle, and by one the second.
pub proof fn law_interpolate_ends(a: int, b: int)
    requires
        0 <= a < FULL_TURN,
        0 <= b < FULL_TURN,
    ensures
        interpolate_spec(a, b, 0) == a,
        interpolate_spec(a, b, LAMBDA_ONE as int) == b,
{
    lemma_lerp_between(a, b, 0);
    lemma_lerp_between(a, b + FULL_TURN, 0);
    lemma_lerp_between(a + FULL_TURN, b, 0);
    lemma_lerp_between(a, b, LAMBDA_ONE as int);
    lemma_lerp_between(a, b + FULL_TURN, LAMBDA_ONE as int);
    lemma_lerp_between(a + FULL_TURN, b, LAMBDA_ONE as int);
    vstd::arithmetic::div_mod::lemma_mod_multiples_vanish(1, a, FULL_TURN as int);
    vstd::arithmetic::div_mod::lemma_mod_multiples_vanish(1, b, FULL_TURN as int);
}

/// Rounding the canonical angle of a direction gives that direction back, at any threshold up
/// to 45 degrees.
pub proof fn law_direction_round_trip(d: Direction, t: int)
    requires
        0 <= t <= 45000,
    ensures
        direction_of(d.mdeg(), t) == Some(d),
{
}

} // verus!
