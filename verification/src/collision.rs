//! Continuous-motion collision detection between circular colliders.
//!
//! Positions over a cycle are sampled at equally spaced time points; at each
//! sample every collider's Cartesian position is computed and every
//! interacting pair is tested against the sum of the two radii. Geometry is
//! computed in fixed-point integer arithmetic: Cartesian coordinates carry a
//! scale of 4096, and circular arcs use an integer rational approximation of
//! the sine. Misses between samples are an accepted property of the
//! sampling model, which the specification below defines exactly.

use vstd::prelude::*;

use crate::hex::{HexIndex, HexRotation};

verus! {

/// The fixed-point scale applied to Cartesian coordinates.
pub const SCALE: i64 = 4096;

/// Horizontal distance between hex columns, in Cartesian units.
pub const HEX_WIDTH: i64 = 82;

/// Vertical distance between hex rows, in Cartesian units.
pub const HEX_HEIGHT: i64 = 71;

/// Coordinates of colliders handed to the detector stay within this bound.
pub const MOVE_BOUND: i32 = 0x400000;

/// The unscaled Cartesian abscissa of a hex position.
pub open spec fn cart_x(p: (int, int)) -> int {
    82 * p.0 + 41 * p.1
}

/// The unscaled Cartesian ordinate of a hex position.
pub open spec fn cart_y(p: (int, int)) -> int {
    71 * p.1
}

/// A collider type. Different colliders have different radii, and arm
/// grippers interact only with chamber walls.
#[derive(Copy, Clone, Eq, PartialEq, Debug, Structural)]
pub enum ColliderType {
    Atom,
    ArmBase,
    ArmGripper,
    ProducedAtom,
    ChamberWall,
}

/// The radius of each collider type, in Cartesian units.
pub open spec fn spec_radius(ty: ColliderType) -> int {
    match ty {
        ColliderType::Atom => 29,
        ColliderType::ArmBase => 20,
        ColliderType::ArmGripper => 20,
        ColliderType::ProducedAtom => 15,
        ColliderType::ChamberWall => 20,
    }
}

/// The interaction radius of a pair: the sum of the radii, or `None` where
/// the pair does not interact (a gripper against anything but a wall).
pub open spec fn spec_radius_with(a: ColliderType, b: ColliderType) -> Option<int> {
    if (a == ColliderType::ArmGripper && b != ColliderType::ChamberWall) || (b
        == ColliderType::ArmGripper && a != ColliderType::ChamberWall) {
        None
    } else {
        Some(spec_radius(a) + spec_radius(b))
    }
}

impl ColliderType {
    /// The radius of this collider type, in Cartesian units.
    pub fn radius(self) -> (res: i64)
        ensures
            res as int == spec_radius(self),
    {
        match self {
            ColliderType::Atom => 29,
            ColliderType::ArmBase => 20,
            ColliderType::ArmGripper => 20,
            ColliderType::ProducedAtom => 15,
            ColliderType::ChamberWall => 20,
        }
    }

    /// The interaction radius with another collider, if the pair interacts.
    pub fn radius_with(self, other: ColliderType) -> (res: Option<i64>)
        ensures
            match spec_radius_with(self, other) {
                Some(r) => res is Some && res->0 as int == r,
                None => res is None,
            },
    {
        let self_gripper = match self {
            ColliderType::ArmGripper => true,
            _ => false,
        };
        let other_gripper = match other {
            ColliderType::ArmGripper => true,
            _ => false,
        };
        let self_wall = match self {
            ColliderType::ChamberWall => true,
            _ => false,
        };
        let other_wall = match other {
            ColliderType::ChamberWall => true,
            _ => false,
        };
        if (self_gripper && !other_wall) || (other_gripper && !self_wall) {
            None
        } else {
            Some(self.radius() + other.radius())
        }
    }
}

/// A movement that a collider makes over one cycle.
#[derive(Copy, Clone, Eq, PartialEq, Debug)]
pub enum Movement {
    /// Stationary at a hex.
    Stay { at: HexIndex },
    /// Linear Cartesian interpolation between two hexes.
    Translate { start: HexIndex, end: HexIndex },
    /// A circular arc: the offset from the pivot is rotated by the rotation
    /// angle, scaled by the interpolation fraction.
    Rotate { start: HexIndex, around: HexIndex, rotation: HexRotation },
}

/// Truncating division: the quotient rounded toward zero.
pub open spec fn spec_div_trunc(n: int, d: int) -> int {
    if n >= 0 {
        n / d
    } else {
        -((-n) / d)
    }
}

/// Truncating division on machine integers.
pub fn div_trunc(n: i64, d: u64) -> (res: i64)
    requires
        d > 0,
        n > i64::MIN,
    ensures
        res as int == spec_div_trunc(n as int, d as int),
        n >= 0 ==> 0 <= res <= n,
        n < 0 ==> n <= res <= 0,
{
    if n >= 0 {
        let q = (n as u64) / d;
        proof {
            vstd::arithmetic::div_mod::lemma_div_nonincreasing(n as int, d as int);
            vstd::arithmetic::div_mod::lemma_div_pos_is_pos(n as int, d as int);
        }
        q as i64
    } else {
        let m = (-n) as u64;
        let q = m / d;
        proof {
            vstd::arithmetic::div_mod::lemma_div_nonincreasing(m as int, d as int);
            vstd::arithmetic::div_mod::lemma_div_pos_is_pos(m as int, d as int);
        }
        -(q as i64)
    }
}

/// The integer sine approximation, scaled by 4096, for an angle given as a
/// nonnegative rational number of degrees `num / den`, reduced into one full
/// turn. On `[0, 180]` degrees it is the rational approximation
/// `4 x (180 - x) / (40500 - x (180 - x))`, exact at multiples of ninety
/// degrees; the second half-turn is its negation.
pub open spec fn spec_sin_scaled(num: int, den: int) -> int {
    let m = num % (360 * den);
    if m <= 180 * den {
        spec_sin_half(m, den)
    } else {
        -spec_sin_half(m - 180 * den, den)
    }
}

/// The sine approximation on the first half-turn, `0 <= n <= 180 d`.
pub open spec fn spec_sin_half(n: int, d: int) -> int {
    let p = n * (180 * d - n);
    (4 * p * 4096) / (40500 * d * d - p)
}

/// The sine approximation on the first half-turn, computed.
fn sin_half(n: u64, d: u64) -> (res: i64)
    requires
        1 <= d <= 256,
        n <= 180 * d,
    ensures
        res as int == spec_sin_half(n as int, d as int),
        0 <= res <= 4096,
{
    proof {
        assert(n * ((180 * (d as int)) - n) <= 46080 * 46080) by (nonlinear_arith)
            requires
                0 <= n <= 180 * (d as int),
                1 <= (d as int) <= 256,
        ;
    }
    let p = n * (180 * d - n);
    proof {
        assert(n * ((180 * (d as int)) - n) <= 8100 * d * d) by (nonlinear_arith)
            requires
                0 <= n <= 180 * (d as int),
                1 <= d,
        ;
        assert(40500 * (d as int) * (d as int) - p >= 32400 * (d as int) * (d as int))
            by (nonlinear_arith)
            requires
                p == n * ((180 * (d as int)) - n),
                0 <= n <= 180 * (d as int),
                1 <= (d as int) <= 256,
        ;
        assert(32400 * (d as int) * (d as int) >= 32400) by (nonlinear_arith)
            requires
                1 <= (d as int) <= 256,
        ;
        assert(40500 * (d as int) * (d as int) <= 40500 * 256 * 256) by (nonlinear_arith)
            requires
                1 <= (d as int) <= 256,
        ;
    }
    let denom = 40500 * d * d - p;
    let q = (4 * p * 4096) / denom;
    proof {
        let pp = p as int;
        let dd = denom as int;
        vstd::arithmetic::div_mod::lemma_div_pos_is_pos(4 * pp * 4096, dd);
        assert((4 * pp * 4096) / dd <= 4096) by {
            vstd::arithmetic::div_mod::lemma_fundamental_div_mod(4 * pp * 4096, dd);
            let qq = (4 * pp * 4096) / dd;
            assert(qq * dd <= 4 * pp * 4096) by (nonlinear_arith)
                requires
                    4 * pp * 4096 == dd * qq + (4 * pp * 4096) % dd,
                    dd > 0,
                    (4 * pp * 4096) % dd >= 0,
            ;
            if qq > 4096 {
                assert(qq * dd > 4096 * dd) by (nonlinear_arith)
                    requires
                        qq > 4096,
                        dd > 0,
                ;
                assert(4096 * dd >= 4 * pp * 4096) by (nonlinear_arith)
                    requires
                        dd >= 4 * pp - pp ==> true,
                        pp + dd >= 40500 * (d as int) * (d as int) - pp + pp,
                        dd == 40500 * (d as int) * (d as int) - pp,
                        pp <= 8100 * (d as int) * (d as int),
                        1 <= (d as int),
                ;
            }
        };
    }
    q as i64
}

/// The sine approximation over any nonnegative angle, computed.
fn sin_scaled(num: u64, den: u64) -> (res: i64)
    requires
        1 <= den <= 256,
        num <= 0x20000000,
    ensures
        res as int == spec_sin_scaled(num as int, den as int),
        -4096 <= res <= 4096,
{
    let m = num % (360 * den);
    proof {
        assert(m == (num as int) % (360 * (den as int)));
        assert(m < 360 * den) by {
            vstd::arithmetic::div_mod::lemma_mod_bound(num as int, 360 * (den as int));
        };
    }
    if m <= 180 * den {
        sin_half(m, den)
    } else {
        -sin_half(m - 180 * den, den)
    }
}

/// The cosine, as the sine advanced a quarter turn.
pub open spec fn spec_cos_scaled(num: int, den: int) -> int {
    spec_sin_scaled(num + 90 * den, den)
}

fn cos_scaled(num: u64, den: u64) -> (res: i64)
    requires
        1 <= den <= 256,
        num <= 0xFFFFFFF,
    ensures
        res as int == spec_cos_scaled(num as int, den as int),
        -4096 <= res <= 4096,
{
    sin_scaled(num + 90 * den, den)
}

impl Movement {
    /// Every hex this movement mentions is within `MOVE_BOUND`, and a
    /// rotation is reduced.
    pub open spec fn in_range(self) -> bool {
        match self {
            Movement::Stay { at } => move_coord_ok(at),
            Movement::Translate { start, end } => move_coord_ok(start) && move_coord_ok(end),
            Movement::Rotate { start, around, rotation } => move_coord_ok(start) && move_coord_ok(
                around,
            ) && rotation.wf(),
        }
    }

    /// The scaled Cartesian position of this movement at sample `i` of
    /// `steps`: stationary positions stay put, translations interpolate
    /// linearly, rotations swing the offset from the pivot through the
    /// rotation angle times the elapsed fraction.
    pub open spec fn spec_pos_at(self, i: int, steps: int) -> (int, int) {
        match self {
            Movement::Stay { at } => (cart_x(at@) * 4096, cart_y(at@) * 4096),
            Movement::Translate { start, end } => {
                let x0 = cart_x(start@);
                let y0 = cart_y(start@);
                let x1 = cart_x(end@);
                let y1 = cart_y(end@);
                (
                    x0 * 4096 + spec_div_trunc((x1 - x0) * 4096 * i, steps),
                    y0 * 4096 + spec_div_trunc((y1 - y0) * 4096 * i, steps),
                )
            },
            Movement::Rotate { start, around, rotation } => {
                let num = 60 * (rotation.turns as int) * i;
                let c = spec_cos_scaled(num, steps);
                let s = spec_sin_scaled(num, steps);
                let tx = cart_x(start@) - cart_x(around@);
                let ty = cart_y(start@) - cart_y(around@);
                (
                    cart_x(around@) * 4096 + tx * c + ty * s,
                    cart_y(around@) * 4096 - tx * s + ty * c,
                )
            },
        }
    }

    /// The scaled Cartesian position at sample `i` of `steps`, computed.
    pub fn pos_at(self, i: u32, steps: u32) -> (res: (i64, i64))
        requires
            1 <= steps <= 256,
            i <= steps,
            self.in_range(),
        ensures
            (res.0 as int, res.1 as int) == self.spec_pos_at(i as int, steps as int),
            -0x10000000000000 <= res.0 <= 0x10000000000000,
            -0x10000000000000 <= res.1 <= 0x10000000000000,
    {
        match self {
            Movement::Stay { at } => (cart_x_scaled(at), cart_y_scaled(at)),
            Movement::Translate { start, end } => {
                let x0 = cart_x_e(start);
                let y0 = cart_y_e(start);
                let x1 = cart_x_e(end);
                let y1 = cart_y_e(end);
                proof {
                    assert((x1 - x0) * 4096 * (i as int) <= 0x40000000 * 4096 * 256
                        && (x1 - x0) * 4096 * (i as int) >= -(0x40000000 * 4096 * 256)
                        && (y1 - y0) * 4096 * (i as int) <= 0x40000000 * 4096 * 256
                        && (y1 - y0) * 4096 * (i as int) >= -(0x40000000 * 4096 * 256))
                        by (nonlinear_arith)
                        requires
                            -0x40000000 <= x1 - x0 <= 0x40000000,
                            -0x40000000 <= y1 - y0 <= 0x40000000,
                            0 <= (i as int) <= 256,
                    ;
                }
                let x = x0 * 4096 + div_trunc((x1 - x0) * 4096 * (i as i64), steps as u64);
                let y = y0 * 4096 + div_trunc((y1 - y0) * 4096 * (i as i64), steps as u64);
                (x, y)
            },
            Movement::Rotate { start, around, rotation } => {
                proof {
                    assert(60 * (rotation.turns as int) * (i as int) <= 60 * 5 * 256)
                        by (nonlinear_arith)
                        requires
                            0 <= (rotation.turns as int) <= 5,
                            0 <= (i as int) <= 256,
                    ;
                }
                let num: u64 = 60 * (rotation.turns() as u64) * (i as u64);
                let c = cos_scaled(num, steps as u64);
                let s = sin_scaled(num, steps as u64);
                let tx = cart_x_e(start) - cart_x_e(around);
                let ty = cart_y_e(start) - cart_y_e(around);
                proof {
                    assert(tx * (c as int) <= 0x40000000 * 4096 && tx * (c as int) >= -(0x40000000
                        * 4096) && ty * (s as int) <= 0x40000000 * 4096 && ty * (s as int) >= -(
                    0x40000000 * 4096) && tx * (s as int) <= 0x40000000 * 4096 && tx * (s as int)
                        >= -(0x40000000 * 4096) && ty * (c as int) <= 0x40000000 * 4096 && ty * (
                    c as int) >= -(0x40000000 * 4096)) by (nonlinear_arith)
                        requires
                            -0x40000000 <= tx <= 0x40000000,
                            -0x40000000 <= ty <= 0x40000000,
                            -4096 <= (c as int) <= 4096,
                            -4096 <= (s as int) <= 4096,
                    ;
                }
                let x = cart_x_e(around) * 4096 + tx * c + ty * s;
                let y = cart_y_e(around) * 4096 - tx * s + ty * c;
                (x, y)
            },
        }
    }
}

/// Whether a hex is within the detector's coordinate bound.
pub open spec fn move_coord_ok(h: HexIndex) -> bool {
    -MOVE_BOUND <= h@.0 <= MOVE_BOUND && -MOVE_BOUND <= h@.1 <= MOVE_BOUND
}

/// The unscaled Cartesian abscissa, computed.
fn cart_x_e(h: HexIndex) -> (res: i64)
    requires
        move_coord_ok(h),
    ensures
        res as int == cart_x(h@),
        -0x20000000 <= res <= 0x20000000,
{
    82 * (h.q as i64) + 41 * (h.r as i64)
}

/// The unscaled Cartesian ordinate, computed.
fn cart_y_e(h: HexIndex) -> (res: i64)
    requires
        move_coord_ok(h),
    ensures
        res as int == cart_y(h@),
        -0x20000000 <= res <= 0x20000000,
{
    71 * (h.r as i64)
}

/// The scaled Cartesian abscissa, computed.
fn cart_x_scaled(h: HexIndex) -> (res: i64)
    requires
        move_coord_ok(h),
    ensures
        res as int == cart_x(h@) * 4096,
        -0x20000000000 <= res <= 0x20000000000,
{
    cart_x_e(h) * 4096
}

/// The scaled Cartesian ordinate, computed.
fn cart_y_scaled(h: HexIndex) -> (res: i64)
    requires
        move_coord_ok(h),
    ensures
        res as int == cart_y(h@) * 4096,
        -0x20000000000 <= res <= 0x20000000000,
{
    cart_y_e(h) * 4096
}

/// A collider on the board: a type and the movement it makes this cycle.
#[derive(Copy, Clone, PartialEq, Debug)]
pub struct Collider {
    pub ty: ColliderType,
    pub movement: Movement,
}

/// The squared distance between two points.
pub open spec fn spec_dist2(a: (int, int), b: (int, int)) -> int {
    (a.0 - b.0) * (a.0 - b.0) + (a.1 - b.1) * (a.1 - b.1)
}

/// Whether two colliders overlap at sample `i` of `steps`: their scaled
/// squared distance is below the scaled squared interaction radius.
pub open spec fn spec_colliding_pair(c1: Collider, c2: Collider, i: int, steps: int) -> bool {
    match spec_radius_with(c1.ty, c2.ty) {
        None => false,
        Some(r) => spec_dist2(
            c1.movement.spec_pos_at(i, steps),
            c2.movement.spec_pos_at(i, steps),
        ) < r * r * 4096 * 4096,
    }
}

/// Whether anything in the list of colliders collides at any of the sample
/// points `0 ..= steps`.
pub open spec fn spec_collides(cs: Seq<Collider>, steps: int) -> bool {
    exists|i: int, l: int, r: int|
        0 <= i <= steps && 0 <= l < cs.len() && 0 <= r < cs.len() && l != r
            && spec_colliding_pair(cs[l], cs[r], i, steps)
}

/// Test whether anything in this list of colliders collides during the
/// cycle, sampling `steps + 1` equally spaced time points.
#[verifier::loop_isolation(false)]
pub fn collides(colliders: &Vec<Collider>, steps: u32) -> (res: bool)
    requires
        1 <= steps <= 256,
        forall|k: int|
            0 <= k < colliders@.len() ==> (#[trigger] colliders@[k]).movement.in_range(),
    ensures
        res == spec_collides(colliders@, steps as int),
{
    let n = colliders.len();
    let mut i: u32 = 0;
    while i <= steps
        invariant
            i <= steps + 1,
            forall|i2: int, l2: int, r2: int|
                0 <= i2 < i as int && 0 <= l2 < n && 0 <= r2 < n && l2 != r2
                    ==> !spec_colliding_pair(
                    colliders@[l2],
                    colliders@[r2],
                    i2,
                    steps as int,
                ),
        decreases steps - i + 1,
    {
        let mut xs: Vec<i64> = Vec::new();
        let mut ys: Vec<i64> = Vec::new();
        let mut k: usize = 0;
        while k < n
            invariant
                k <= n,
                xs@.len() == k as int,
                ys@.len() == k as int,
                i <= steps,
                forall|k2: int|
                    0 <= k2 < k as int ==> (xs@[k2] as int, ys@[k2] as int) == (
                    #[trigger] colliders@[k2]).movement.spec_pos_at(i as int, steps as int)
                        && -0x10000000000000 <= xs@[k2] <= 0x10000000000000 && -0x10000000000000
                        <= ys@[k2] <= 0x10000000000000,
            decreases n - k,
        {
            let p = colliders[k].movement.pos_at(i, steps);
            xs.push(p.0);
            ys.push(p.1);
            k = k + 1;
        }
        let mut l: usize = 0;
        while l < n
            invariant
                l <= n,
                i <= steps,
                xs@.len() == n,
                ys@.len() == n,
                forall|k2: int|
                    0 <= k2 < n ==> (xs@[k2] as int, ys@[k2] as int) == (
                    #[trigger] colliders@[k2]).movement.spec_pos_at(i as int, steps as int)
                        && -0x10000000000000 <= xs@[k2] <= 0x10000000000000 && -0x10000000000000
                        <= ys@[k2] <= 0x10000000000000,
                forall|l2: int, r2: int|
                    0 <= l2 < l as int && 0 <= r2 < n && l2 != r2 ==> !spec_colliding_pair(
                        colliders@[l2],
                        colliders@[r2],
                        i as int,
                        steps as int,
                    ),
            decreases n - l,
        {
            let mut r: usize = 0;
            while r < n
                invariant
                    l < n,
                    r <= n,
                    i <= steps,
                    xs@.len() == n,
                    ys@.len() == n,
                    forall|k2: int|
                        0 <= k2 < n ==> (xs@[k2] as int, ys@[k2] as int) == (
                        #[trigger] colliders@[k2]).movement.spec_pos_at(i as int, steps as int)
                            && -0x10000000000000 <= xs@[k2] <= 0x10000000000000 && -0x10000000000000
                            <= ys@[k2] <= 0x10000000000000,
                    forall|r2: int|
                        0 <= r2 < r as int && l as int != r2 ==> !spec_colliding_pair(
                            colliders@[l as int],
                            colliders@[r2],
                            i as int,
                            steps as int,
                        ),
                decreases n - r,
            {
                if l != r {
                    match colliders[l].ty.radius_with(colliders[r].ty) {
                        None => {
                        },
                        Some(radius) => {
                            let dx = (xs[l] as i128) - (xs[r] as i128);
                            let dy = (ys[l] as i128) - (ys[r] as i128);
                            proof {
                                assert(dx * dx + dy * dy <= 2 * (0x100000000000000 * 0x100000000000000)
                                    && dx * dx >= 0 && dy * dy >= 0) by (nonlinear_arith)
                                    requires
                                        -0x100000000000000 <= (dx as int) <= 0x100000000000000,
                                        -0x100000000000000 <= (dy as int) <= 0x100000000000000,
                                ;
                            }
                            let d2 = dx * dx + dy * dy;
                            proof {
                                assert(spec_radius(colliders@[l as int].ty) <= 29 && spec_radius(
                                    colliders@[l as int].ty,
                                ) >= 0);
                                assert(spec_radius(colliders@[r as int].ty) <= 29 && spec_radius(
                                    colliders@[r as int].ty,
                                ) >= 0);
                                assert((radius as int) * (radius as int) <= 58 * 58 && (radius
                                    as int) * (radius as int) >= 0) by (nonlinear_arith)
                                    requires
                                        0 <= (radius as int) <= 58,
                                ;
                            }
                            let rad2 = (radius as i128) * (radius as i128) * 4096 * 4096;
                            if d2 < rad2 {
                                proof {
                                    assert(spec_colliding_pair(
                                        colliders@[l as int],
                                        colliders@[r as int],
                                        i as int,
                                        steps as int,
                                    ));
                                }
                                return true;
                            }
                        },
                    }
                }
                r = r + 1;
            }
            l = l + 1;
        }
        i = i + 1;
    }
    false
}

/// Two stationary atom colliders, of radius twenty-nine each, collide
/// exactly when their squared Cartesian distance is below the square of
/// fifty-eight: at distance fifty-eight or more they never collide, below it
/// they always do, whatever the sample count.
pub proof fn lemma_stationary_atoms_collide(a: HexIndex, b: HexIndex, steps: int)
    requires
        1 <= steps,
    ensures
        spec_collides(
            seq![
                Collider { ty: ColliderType::Atom, movement: Movement::Stay { at: a } },
                Collider { ty: ColliderType::Atom, movement: Movement::Stay { at: b } },
            ],
            steps,
        ) <==> spec_dist2((cart_x(a@), cart_y(a@)), (cart_x(b@), cart_y(b@))) < 3364,
{
    let cs = seq![
        Collider { ty: ColliderType::Atom, movement: Movement::Stay { at: a } },
        Collider { ty: ColliderType::Atom, movement: Movement::Stay { at: b } },
    ];
    let d2 = spec_dist2((cart_x(a@), cart_y(a@)), (cart_x(b@), cart_y(b@)));
    let dxa = cart_x(a@) - cart_x(b@);
    let dya = cart_y(a@) - cart_y(b@);
    assert forall|i: int| 0 <= i <= steps implies (spec_colliding_pair(cs[0], cs[1], i, steps) <==> d2
        < 3364) by {
        let sd2 = spec_dist2(
            cs[0].movement.spec_pos_at(i, steps),
            cs[1].movement.spec_pos_at(i, steps),
        );
        assert(sd2 == (dxa * 4096) * (dxa * 4096) + (dya * 4096) * (dya * 4096));
        assert(sd2 == d2 * 4096 * 4096) by (nonlinear_arith)
            requires
                sd2 == (dxa * 4096) * (dxa * 4096) + (dya * 4096) * (dya * 4096),
                d2 == dxa * dxa + dya * dya,
        ;
        assert(d2 * 4096 * 4096 < 3364 * 4096 * 4096 <==> d2 < 3364) by (nonlinear_arith);
        assert(spec_radius_with(ColliderType::Atom, ColliderType::Atom) == Some(58int));
        assert(58int * 58 * 4096 * 4096 == 3364 * 4096 * 4096) by (nonlinear_arith);
    }
    assert forall|i: int| 0 <= i <= steps implies (spec_colliding_pair(cs[1], cs[0], i, steps) <==> d2
        < 3364) by {
        let sd2 = spec_dist2(
            cs[1].movement.spec_pos_at(i, steps),
            cs[0].movement.spec_pos_at(i, steps),
        );
        assert(sd2 == (dxa * 4096) * (dxa * 4096) + (dya * 4096) * (dya * 4096)) by (nonlinear_arith)
            requires
                sd2 == ((cart_x(b@) - cart_x(a@)) * 4096) * ((cart_x(b@) - cart_x(a@)) * 4096) + ((
                cart_y(b@) - cart_y(a@)) * 4096) * ((cart_y(b@) - cart_y(a@)) * 4096),
                dxa == cart_x(a@) - cart_x(b@),
                dya == cart_y(a@) - cart_y(b@),
        ;
        assert(sd2 == d2 * 4096 * 4096) by (nonlinear_arith)
            requires
                sd2 == (dxa * 4096) * (dxa * 4096) + (dya * 4096) * (dya * 4096),
                d2 == dxa * dxa + dya * dya,
        ;
        assert(d2 * 4096 * 4096 < 3364 * 4096 * 4096 <==> d2 < 3364) by (nonlinear_arith);
        assert(spec_radius_with(ColliderType::Atom, ColliderType::Atom) == Some(58int));
        assert(58int * 58 * 4096 * 4096 == 3364 * 4096 * 4096) by (nonlinear_arith);
    }
    if d2 < 3364 {
        assert(spec_colliding_pair(cs[0], cs[1], 0, steps));
        assert(spec_collides(cs, steps));
    }
    if spec_collides(cs, steps) {
        let (i, l, r) = choose|i: int, l: int, r: int|
            0 <= i <= steps && 0 <= l < cs.len() && 0 <= r < cs.len() && l != r
                && spec_colliding_pair(cs[l], cs[r], i, steps);
        assert(l == 0 && r == 1 || l == 1 && r == 0);
        assert(d2 < 3364);
    }
}

} // verus!
