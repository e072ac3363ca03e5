//! Axial hex-grid coordinates and sixty-degree rotations.
//!
//! A `HexIndex` is an axial pair `(q, r)`; the implicit third coordinate
//! `s = -q - r` is always derived, never stored. A `HexRotation` is a number
//! of clockwise sixty-degree steps, kept reduced modulo six.

use vstd::prelude::*;

verus! {

/// Coordinates are kept within this bound so that rotating a point around a
/// pivot (subtract, up to five clockwise steps, add back) never overflows
/// an `i32`.
pub const COORD_BOUND: i32 = 0x1000_0000;

/// A position or offset on a hex grid, in axial coordinates.
#[derive(Copy, Clone, Debug, PartialEq, Eq, Hash, Structural)]
pub struct HexIndex {
    /// Position along the horizontal Q axis.
    pub q: i32,
    /// Position along the up-right R axis.
    pub r: i32,
}

impl View for HexIndex {
    type V = (int, int);

    open spec fn view(&self) -> (int, int) {
        (self.q as int, self.r as int)
    }
}

/// One clockwise sixty-degree step around the origin: `(q, r)` maps to
/// `(-r, -s)`, that is `(-r, q + r)`.
pub open spec fn rot_cw(p: (int, int)) -> (int, int) {
    (-p.1, p.0 + p.1)
}

/// `n` clockwise steps around the origin.
pub open spec fn rot_n(p: (int, int), n: nat) -> (int, int)
    decreases n,
{
    if n == 0 {
        p
    } else {
        rot_cw(rot_n(p, (n - 1) as nat))
    }
}

pub open spec fn hex_add(a: (int, int), b: (int, int)) -> (int, int) {
    (a.0 + b.0, a.1 + b.1)
}

pub open spec fn hex_sub(a: (int, int), b: (int, int)) -> (int, int) {
    (a.0 - b.0, a.1 - b.1)
}

/// `n` clockwise steps around the pivot `c`: subtract the pivot, rotate,
/// add the pivot back.
pub open spec fn rot_around(p: (int, int), c: (int, int), n: nat) -> (int, int) {
    hex_add(rot_n(hex_sub(p, c), n), c)
}

/// True when both coordinates are within `COORD_BOUND`.
pub open spec fn coords_ok(p: (int, int)) -> bool {
    &&& -COORD_BOUND <= p.0 <= COORD_BOUND
    &&& -COORD_BOUND <= p.1 <= COORD_BOUND
}

/// Every coordinate of every rotation of `p` is bounded by `|p.0| + |p.1|`.
pub proof fn lemma_rot_n_bounded(p: (int, int), n: nat, b: int)
    requires
        -b <= p.0 <= b,
        -b <= p.1 <= b,
        -b <= p.0 + p.1 <= b,
    ensures
        -b <= rot_n(p, n).0 <= b,
        -b <= rot_n(p, n).1 <= b,
        -b <= rot_n(p, n).0 + rot_n(p, n).1 <= b,
    decreases n,
{
    if n > 0 {
        lemma_rot_n_bounded(p, (n - 1) as nat, b);
    }
}

/// Rotating first by `a` steps and then by `b` steps is the same as rotating
/// by `a + b` steps.
pub proof fn lemma_rot_n_compose(p: (int, int), a: nat, b: nat)
    ensures
        rot_n(rot_n(p, a), b) == rot_n(p, a + b),
    decreases b,
{
    if b > 0 {
        lemma_rot_n_compose(p, a, (b - 1) as nat);
    }
}

/// Six clockwise steps are the identity.
pub proof fn lemma_rot_n_period(p: (int, int))
    ensures
        rot_n(p, 6) == p,
{
    reveal_with_fuel(rot_n, 7);
}

/// Any whole number of full turns is the identity.
pub proof fn lemma_rot_n_full_turns(p: (int, int), k: nat)
    ensures
        rot_n(p, 6 * k) == p,
    decreases k,
{
    if k > 0 {
        lemma_rot_n_full_turns(p, (k - 1) as nat);
        lemma_rot_n_compose(p, 6 * (k - 1) as nat, 6);
        lemma_rot_n_period(rot_n(p, 6 * (k - 1) as nat));
    }
}

/// Rotation around a pivot composes the same way as rotation around the
/// origin.
pub proof fn lemma_rot_around_compose(p: (int, int), c: (int, int), a: nat, b: nat)
    ensures
        rot_around(rot_around(p, c, a), c, b) == rot_around(p, c, a + b),
{
    assert(hex_sub(hex_add(rot_n(hex_sub(p, c), a), c), c) == rot_n(hex_sub(p, c), a));
    lemma_rot_n_compose(hex_sub(p, c), a, b);
}

/// Rotating a point by `r` steps, six times in a row, returns the point
/// unchanged, for any pivot.
pub proof fn lemma_rotate_six_times(p: (int, int), c: (int, int), r: nat)
    ensures
        rot_around(
            rot_around(
                rot_around(
                    rot_around(rot_around(rot_around(p, c, r), c, r), c, r),
                    c,
                    r,
                ),
                c,
                r,
            ),
            c,
            r,
        ) == p,
{
    lemma_rot_around_compose(p, c, r, r);
    lemma_rot_around_compose(p, c, r + r, r);
    lemma_rot_around_compose(p, c, r + r + r, r);
    lemma_rot_around_compose(p, c, r + r + r + r, r);
    lemma_rot_around_compose(p, c, r + r + r + r + r, r);
    lemma_rot_n_full_turns(hex_sub(p, c), r);
    assert(hex_add(hex_sub(p, c), c) == p);
}

/// Rotating by `r` steps and then by `(6 - r) % 6` steps is the identity,
/// for any pivot and any reduced rotation `r < 6`.
pub proof fn lemma_rotate_inverse(p: (int, int), c: (int, int), r: nat)
    requires
        r < 6,
    ensures
        rot_around(rot_around(p, c, r), c, ((6 - r) % 6) as nat) == p,
{
    lemma_rot_around_compose(p, c, r, ((6 - r) % 6) as nat);
    if r == 0 {
        assert(rot_n(hex_sub(p, c), 0) == hex_sub(p, c));
    } else {
        lemma_rot_n_period(hex_sub(p, c));
    }
    assert(hex_add(hex_sub(p, c), c) == p);
}

impl HexIndex {
    /// The implicit S coordinate, `-q - r`.
    pub fn s(self) -> (res: i32)
        requires
            i32::MIN <= -self@.0 <= i32::MAX,
            i32::MIN <= -self@.0 - self@.1 <= i32::MAX,
        ensures
            res as int == -self@.0 - self@.1,
    {
        -self.q - self.r
    }

    /// One clockwise sixty-degree step around the origin.
    pub fn rotated_cw(self) -> (res: HexIndex)
        requires
            i32::MIN <= -self@.1 <= i32::MAX,
            i32::MIN <= self@.0 + self@.1 <= i32::MAX,
        ensures
            res@ == rot_cw(self@),
    {
        HexIndex { q: -self.r, r: self.q + self.r }
    }

    /// One counter-clockwise sixty-degree step around the origin.
    pub fn rotated_ccw(self) -> (res: HexIndex)
        requires
            i32::MIN <= -self@.0 <= i32::MAX,
            i32::MIN <= self@.0 + self@.1 <= i32::MAX,
        ensures
            res@ == rot_n(self@, 5),
    {
        let res = HexIndex { q: self.q + self.r, r: -self.q };
        proof {
            reveal_with_fuel(rot_n, 6);
        }
        res
    }

    /// Component-wise sum.
    pub fn plus(self, rhs: HexIndex) -> (res: HexIndex)
        requires
            i32::MIN <= self@.0 + rhs@.0 <= i32::MAX,
            i32::MIN <= self@.1 + rhs@.1 <= i32::MAX,
        ensures
            res@ == hex_add(self@, rhs@),
    {
        HexIndex { q: self.q + rhs.q, r: self.r + rhs.r }
    }

    /// Component-wise difference.
    pub fn minus(self, rhs: HexIndex) -> (res: HexIndex)
        requires
            i32::MIN <= self@.0 - rhs@.0 <= i32::MAX,
            i32::MIN <= self@.1 - rhs@.1 <= i32::MAX,
        ensures
            res@ == hex_sub(self@, rhs@),
    {
        HexIndex { q: self.q - rhs.q, r: self.r - rhs.r }
    }

    /// Rotate around the pivot `around` by `by` clockwise steps.
    pub fn rotated(self, around: HexIndex, by: HexRotation) -> (res: HexIndex)
        requires
            by.wf(),
            coords_ok(self@),
            coords_ok(around@),
        ensures
            res@ == rot_around(self@, around@, by.turns as nat),
    {
        proof {
            lemma_rot_n_bounded(
                hex_sub(self@, around@),
                by.turns as nat,
                4 * COORD_BOUND,
            );
        }
        let mut offset = self.minus(around);
        let mut i: u8 = 0;
        while i < by.turns
            invariant
                i <= by.turns,
                by.turns < 6,
                coords_ok(self@),
                coords_ok(around@),
                offset@ == rot_n(hex_sub(self@, around@), i as nat),
            decreases by.turns - i,
        {
            proof {
                lemma_rot_n_bounded(hex_sub(self@, around@), i as nat, 4 * COORD_BOUND);
            }
            offset = offset.rotated_cw();
            i = i + 1;
        }
        offset.plus(around)
    }
}

/// A rotation on a hex grid: a number of clockwise sixty-degree steps,
/// reduced modulo six.
#[derive(Copy, Clone, Debug, PartialEq, Eq, Hash, Structural)]
pub struct HexRotation {
    /// Number of clockwise steps; well-formed values keep this below six.
    pub turns: u8,
}

impl HexRotation {
    /// A well-formed rotation is already reduced modulo six.
    pub open spec fn wf(self) -> bool {
        self.turns < 6
    }

    /// Reduce an unsigned number of steps modulo six.
    pub fn from_unsigned(turns: u64) -> (res: HexRotation)
        ensures
            res.turns as int == (turns as int) % 6,
            res.wf(),
    {
        HexRotation { turns: (turns % 6) as u8 }
    }

    /// Reduce a signed number of steps modulo six, into `0..6`.
    pub fn from_signed(turns: i64) -> (res: HexRotation)
        ensures
            res.turns as int == (turns as int) % 6,
            res.wf(),
    {
        if turns >= 0 {
            Self::from_unsigned(turns as u64)
        } else {
            let mag: u64 = (-(turns as i128)) as u64;
            let m: u64 = mag % 6;
            let t: u8 = ((6 - m) % 6) as u8;
            proof {
                let ti = turns as int;
                vstd::arithmetic::div_mod::lemma_mod_sub_multiples_vanish(ti, 6);
                assert(-(mag as int) == ti);
                vstd::arithmetic::div_mod::lemma_fundamental_div_mod(mag as int, 6);
                vstd::arithmetic::div_mod::lemma_add_mod_noop(
                    -(6 * ((mag as int) / 6)),
                    -(m as int),
                    6,
                );
                vstd::arithmetic::div_mod::lemma_mod_self_0(6);
                vstd::arithmetic::div_mod::lemma_mul_mod_noop_left(-((mag as int) / 6), 6, 6);
                assert(ti % 6 == (-(m as int)) % 6) by {
                    assert(ti == -(6 * ((mag as int) / 6)) + (-(m as int)));
                };
                vstd::arithmetic::div_mod::lemma_mod_add_multiples_vanish(-(m as int), 6);
                assert((-(m as int)) % 6 == (6 - m as int) % 6);
                if m == 0 {
                    vstd::arithmetic::div_mod::lemma_mod_self_0(6);
                } else {
                    vstd::arithmetic::div_mod::lemma_small_mod((6 - m) as nat, 6);
                }
            }
            HexRotation { turns: t }
        }
    }

    /// The number of clockwise steps.
    pub fn turns(self) -> (res: u8)
        ensures
            res == self.turns,
    {
        self.turns
    }

    /// Rotation sum, modulo six.
    pub fn plus(self, rhs: HexRotation) -> (res: HexRotation)
        requires
            self.wf(),
            rhs.wf(),
        ensures
            res.turns as int == (self.turns + rhs.turns) % 6,
            res.wf(),
    {
        HexRotation { turns: (self.turns + rhs.turns) % 6 }
    }

    /// Rotation difference, modulo six.
    pub fn minus(self, rhs: HexRotation) -> (res: HexRotation)
        requires
            self.wf(),
            rhs.wf(),
        ensures
            res.turns as int == (self.turns - rhs.turns) % 6,
            res.wf(),
    {
        let t = (self.turns + 6 - rhs.turns) % 6;
        proof {
            vstd::arithmetic::div_mod::lemma_mod_add_multiples_vanish(
                self.turns - rhs.turns,
                6,
            );
        }
        HexRotation { turns: t }
    }

    /// The inverse rotation: adding it undoes this rotation.
    pub fn inverse(self) -> (res: HexRotation)
        requires
            self.wf(),
        ensures
            res.wf(),
            (self.turns + res.turns) % 6 == 0,
    {
        HexRotation { turns: (6 - self.turns) % 6 }
    }
}

} // verus!
