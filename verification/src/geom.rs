//! Fixed-point 2-D geometry: affine transforms and axis-aligned
//! bounding boxes.
//!
//! One user unit is `SCALE` coordinate units, so all coordinates,
//! including the translation entries of a transform, are integers in
//! units of `1 / SCALE`. The linear entries `a`, `b`, `c`, `d` of a
//! transform are dimensionless and also scaled by `SCALE`, so the
//! identity transform has `a == d == SCALE`.
//!
//! All coordinates and transform entries are kept within
//! `[-COORD_LIMIT, COORD_LIMIT]`; results that would leave that range
//! saturate at its ends. This keeps every intermediate product inside
//! `i64` no matter how deep a scene tree gets.

use vstd::prelude::*;

verus! {

/// Number of coordinate units in one user unit.
pub const SCALE: i64 = 65536;

/// Largest magnitude a coordinate or transform entry may have.
pub const COORD_LIMIT: i64 = 0x4000_0000;

/// Truncating division (rounds toward zero, as Rust's `/` does),
/// defined for a positive divisor.
pub open spec fn tdiv(n: int, d: int) -> int {
    if n >= 0 {
        n / d
    } else {
        -((-n) / d)
    }
}

/// Saturate a value into the coordinate range.
pub open spec fn spec_clip(v: int) -> int {
    if v < -COORD_LIMIT {
        -COORD_LIMIT as int
    } else if v > COORD_LIMIT {
        COORD_LIMIT as int
    } else {
        v
    }
}

/// True of values inside the coordinate range.
pub open spec fn in_range(v: int) -> bool {
    -COORD_LIMIT <= v <= COORD_LIMIT
}

/// Saturate a value into the coordinate range.
pub fn clip(v: i64) -> (r: i64)
    ensures
        r == spec_clip(v as int),
{
    if v < -COORD_LIMIT {
        -COORD_LIMIT
    } else if v > COORD_LIMIT {
        COORD_LIMIT
    } else {
        v
    }
}

/// The product of two values is bounded by the product of their bounds.
pub proof fn lemma_mul_bound(a: int, b: int, m: int, n: int)
    by (nonlinear_arith)
    requires
        -m <= a <= m,
        -n <= b <= n,
        0 <= m,
        0 <= n,
    ensures
        -(m * n) <= a * b <= m * n,
{
}

/// Truncating division by `SCALE`.
fn div_scale(n: i64) -> (r: i64)
    requires
        n > i64::MIN,
    ensures
        r == tdiv(n as int, SCALE as int),
{
    if n >= 0 {
        let q: i64 = n / SCALE;
        q
    } else {
        let m: i64 = -n;
        let q: i64 = m / SCALE;
        assert(q == (-(n as int)) / (SCALE as int));
        -q
    }
}

/// A 2-D affine transform. A point `(x, y)` maps to
/// `((a*x + c*y)/SCALE + e, (b*x + d*y)/SCALE + f)`.
#[derive(Clone, Copy, Debug, PartialEq, Eq, Structural)]
pub struct Transform {
    pub a: i64,
    pub b: i64,
    pub c: i64,
    pub d: i64,
    pub e: i64,
    pub f: i64,
}

impl Transform {
    /// All six entries are inside the coordinate range.
    pub open spec fn wf(self) -> bool {
        &&& in_range(self.a as int)
        &&& in_range(self.b as int)
        &&& in_range(self.c as int)
        &&& in_range(self.d as int)
        &&& in_range(self.e as int)
        &&& in_range(self.f as int)
    }

    /// The identity transform.
    pub fn identity() -> (r: Transform)
        ensures
            r == (Transform { a: SCALE, b: 0i64, c: 0i64, d: SCALE, e: 0i64, f: 0i64 }),
            r.wf(),
    {
        Transform { a: SCALE, b: 0, c: 0, d: SCALE, e: 0, f: 0 }
    }

    /// Build a transform from its six entries, saturated into range.
    pub fn new(a: i64, b: i64, c: i64, d: i64, e: i64, f: i64) -> (r: Transform)
        ensures
            r.a == spec_clip(a as int),
            r.b == spec_clip(b as int),
            r.c == spec_clip(c as int),
            r.d == spec_clip(d as int),
            r.e == spec_clip(e as int),
            r.f == spec_clip(f as int),
            r.wf(),
    {
        Transform {
            a: clip(a),
            b: clip(b),
            c: clip(c),
            d: clip(d),
            e: clip(e),
            f: clip(f),
        }
    }
}

/// Numerator of the x coordinate that `t` maps `(x, y)` to, with the
/// division by `SCALE` left undone: `SCALE` times the exact result.
pub open spec fn apply_num_x(t: Transform, x: int, y: int) -> int {
    t.a * x + t.c * y + SCALE * t.e
}

/// Numerator of the y coordinate that `t` maps `(x, y)` to.
pub open spec fn apply_num_y(t: Transform, x: int, y: int) -> int {
    t.b * x + t.d * y + SCALE * t.f
}

/// The x coordinate `t` maps `(x, y)` to, truncated to the coordinate
/// grid and saturated into range.
pub open spec fn spec_apply_x(t: Transform, x: int, y: int) -> int {
    spec_clip(tdiv(t.a * x + t.c * y, SCALE as int) + t.e)
}

/// The y coordinate `t` maps `(x, y)` to.
pub open spec fn spec_apply_y(t: Transform, x: int, y: int) -> int {
    spec_clip(tdiv(t.b * x + t.d * y, SCALE as int) + t.f)
}

impl Transform {
    /// Map a point's x coordinate through this transform.
    pub fn apply_x(&self, x: i64, y: i64) -> (r: i64)
        requires
            self.wf(),
            in_range(x as int),
            in_range(y as int),
        ensures
            r == spec_apply_x(*self, x as int, y as int),
            in_range(r as int),
    {
        proof {
            lemma_mul_bound(self.a as int, x as int, COORD_LIMIT as int, COORD_LIMIT as int);
            lemma_mul_bound(self.c as int, y as int, COORD_LIMIT as int, COORD_LIMIT as int);
        }
        let n: i64 = self.a * x + self.c * y;
        let q: i64 = div_scale(n);
        clip(q + self.e)
    }

    /// Map a point's y coordinate through this transform.
    pub fn apply_y(&self, x: i64, y: i64) -> (r: i64)
        requires
            self.wf(),
            in_range(x as int),
            in_range(y as int),
        ensures
            r == spec_apply_y(*self, x as int, y as int),
            in_range(r as int),
    {
        proof {
            lemma_mul_bound(self.b as int, x as int, COORD_LIMIT as int, COORD_LIMIT as int);
            lemma_mul_bound(self.d as int, y as int, COORD_LIMIT as int, COORD_LIMIT as int);
        }
        let n: i64 = self.b * x + self.d * y;
        let q: i64 = div_scale(n);
        clip(q + self.f)
    }
}

/// Entries of the composition `p` after `c`, before the division by
/// `SCALE` that brings them back to the common scale. `raw_e` and
/// `raw_f` carry one factor of `SCALE` more than a stored translation.
pub open spec fn compose_raw_a(p: Transform, c: Transform) -> int {
    p.a * c.a + p.c * c.b
}

pub open spec fn compose_raw_b(p: Transform, c: Transform) -> int {
    p.b * c.a + p.d * c.b
}

pub open spec fn compose_raw_c(p: Transform, c: Transform) -> int {
    p.a * c.c + p.c * c.d
}

pub open spec fn compose_raw_d(p: Transform, c: Transform) -> int {
    p.b * c.c + p.d * c.d
}

pub open spec fn compose_raw_e(p: Transform, c: Transform) -> int {
    p.a * c.e + p.c * c.f + SCALE * p.e
}

pub open spec fn compose_raw_f(p: Transform, c: Transform) -> int {
    p.b * c.e + p.d * c.f + SCALE * p.f
}

impl Transform {
    /// Compose `self` after `child`: the returned transform maps a point
    /// the way `child` maps it and then `self` maps the result. Entries
    /// are truncated back to the common scale and saturated into range.
    pub fn compose(&self, child: &Transform) -> (r: Transform)
        requires
            self.wf(),
            child.wf(),
        ensures
            r.a == spec_clip(tdiv(compose_raw_a(*self, *child), SCALE as int)),
            r.b == spec_clip(tdiv(compose_raw_b(*self, *child), SCALE as int)),
            r.c == spec_clip(tdiv(compose_raw_c(*self, *child), SCALE as int)),
            r.d == spec_clip(tdiv(compose_raw_d(*self, *child), SCALE as int)),
            r.e == spec_clip(tdiv(compose_raw_e(*self, *child), SCALE as int)),
            r.f == spec_clip(tdiv(compose_raw_f(*self, *child), SCALE as int)),
            r.wf(),
    {
        proof {
            let lim = COORD_LIMIT as int;
            lemma_mul_bound(self.a as int, child.a as int, lim, lim);
            lemma_mul_bound(self.b as int, child.a as int, lim, lim);
            lemma_mul_bound(self.c as int, child.b as int, lim, lim);
            lemma_mul_bound(self.d as int, child.b as int, lim, lim);
            lemma_mul_bound(self.a as int, child.c as int, lim, lim);
            lemma_mul_bound(self.b as int, child.c as int, lim, lim);
            lemma_mul_bound(self.c as int, child.d as int, lim, lim);
            lemma_mul_bound(self.d as int, child.d as int, lim, lim);
            lemma_mul_bound(self.a as int, child.e as int, lim, lim);
            lemma_mul_bound(self.b as int, child.e as int, lim, lim);
            lemma_mul_bound(self.c as int, child.f as int, lim, lim);
            lemma_mul_bound(self.d as int, child.f as int, lim, lim);
        }
        let ra: i64 = self.a * child.a + self.c * child.b;
        let rb: i64 = self.b * child.a + self.d * child.b;
        let rc: i64 = self.a * child.c + self.c * child.d;
        let rd: i64 = self.b * child.c + self.d * child.d;
        let re: i64 = self.a * child.e + self.c * child.f + SCALE * self.e;
        let rf: i64 = self.b * child.e + self.d * child.f + SCALE * self.f;
        Transform {
            a: clip(div_scale(ra)),
            b: clip(div_scale(rb)),
            c: clip(div_scale(rc)),
            d: clip(div_scale(rd)),
            e: clip(div_scale(re)),
            f: clip(div_scale(rf)),
        }
    }
}

/// Composing transforms follows function application order: the
/// composition of a parent transform `p` after a child transform `c`
/// maps a point exactly as mapping it by `c` and then by `p`. The
/// statement clears all denominators: both sides are `SCALE * SCALE`
/// times the exact mapped x coordinate.
pub proof fn lemma_compose_applies_x(p: Transform, c: Transform, x: int, y: int)
    ensures
        compose_raw_a(p, c) * x + compose_raw_c(p, c) * y + SCALE * compose_raw_e(p, c)
            == p.a * apply_num_x(c, x, y) + p.c * apply_num_y(c, x, y) + SCALE * SCALE * p.e,
{
    let pa = p.a as int;
    let pc = p.c as int;
    let pe = p.e as int;
    let ca = c.a as int;
    let cb = c.b as int;
    let cc = c.c as int;
    let cd = c.d as int;
    let ce = c.e as int;
    let cf = c.f as int;
    let s = SCALE as int;
    assert((pa * ca + pc * cb) * x == pa * (ca * x) + pc * (cb * x)) by (nonlinear_arith);
    assert((pa * cc + pc * cd) * y == pa * (cc * y) + pc * (cd * y)) by (nonlinear_arith);
    assert(s * (pa * ce + pc * cf + s * pe)
        == s * (pa * ce) + s * (pc * cf) + s * (s * pe)) by (nonlinear_arith);
    assert(s * (pa * ce) == pa * (s * ce)) by (nonlinear_arith);
    assert(s * (pc * cf) == pc * (s * cf)) by (nonlinear_arith);
    assert(s * (s * pe) == s * s * pe) by (nonlinear_arith);
    assert(pa * (ca * x + cc * y + s * ce) == pa * (ca * x) + pa * (cc * y) + pa * (s * ce))
        by (nonlinear_arith);
    assert(pc * (cb * x + cd * y + s * cf) == pc * (cb * x) + pc * (cd * y) + pc * (s * cf))
        by (nonlinear_arith);
}

/// The same composition law for the y coordinate.
pub proof fn lemma_compose_applies_y(p: Transform, c: Transform, x: int, y: int)
    ensures
        compose_raw_b(p, c) * x + compose_raw_d(p, c) * y + SCALE * compose_raw_f(p, c)
            == p.b * apply_num_x(c, x, y) + p.d * apply_num_y(c, x, y) + SCALE * SCALE * p.f,
{
    let pb = p.b as int;
    let pd = p.d as int;
    let pf = p.f as int;
    let ca = c.a as int;
    let cb = c.b as int;
    let cc = c.c as int;
    let cd = c.d as int;
    let ce = c.e as int;
    let cf = c.f as int;
    let s = SCALE as int;
    assert((pb * ca + pd * cb) * x == pb * (ca * x) + pd * (cb * x)) by (nonlinear_arith);
    assert((pb * cc + pd * cd) * y == pb * (cc * y) + pd * (cd * y)) by (nonlinear_arith);
    assert(s * (pb * ce + pd * cf + s * pf)
        == s * (pb * ce) + s * (pd * cf) + s * (s * pf)) by (nonlinear_arith);
    assert(s * (pb * ce) == pb * (s * ce)) by (nonlinear_arith);
    assert(s * (pd * cf) == pd * (s * cf)) by (nonlinear_arith);
    assert(s * (s * pf) == s * s * pf) by (nonlinear_arith);
    assert(pb * (ca * x + cc * y + s * ce) == pb * (ca * x) + pb * (cc * y) + pb * (s * ce))
        by (nonlinear_arith);
    assert(pd * (cb * x + cd * y + s * cf) == pd * (cb * x) + pd * (cd * y) + pd * (s * cf))
        by (nonlinear_arith);
}

/// The smaller of two values.
pub open spec fn imin(a: int, b: int) -> int {
    if a <= b {
        a
    } else {
        b
    }
}

/// The larger of two values.
pub open spec fn imax(a: int, b: int) -> int {
    if a >= b {
        a
    } else {
        b
    }
}

/// An axis-aligned bounding box. `Empty` is the distinguished state of
/// a box no geometry has contributed to yet; it is not a zero-area box
/// at the origin.
#[derive(Clone, Copy, Debug, PartialEq, Eq, Structural)]
pub enum BBox {
    Empty,
    Rect { x0: i64, y0: i64, x1: i64, y1: i64 },
}

impl BBox {
    /// A non-empty box has ordered corners inside the coordinate range.
    pub open spec fn wf(self) -> bool {
        match self {
            BBox::Empty => true,
            BBox::Rect { x0, y0, x1, y1 } => {
                &&& in_range(x0 as int)
                &&& in_range(y0 as int)
                &&& in_range(x1 as int)
                &&& in_range(y1 as int)
                &&& x0 <= x1
                &&& y0 <= y1
            },
        }
    }

    /// The empty box, where every group and shape render starts.
    pub fn new_bbox() -> (r: BBox)
        ensures
            r == BBox::Empty,
    {
        BBox::Empty
    }
}

/// The smallest box containing both arguments; the empty box is the
/// neutral element.
pub open spec fn spec_union(a: BBox, b: BBox) -> BBox {
    match (a, b) {
        (BBox::Empty, _) => b,
        (_, BBox::Empty) => a,
        (
            BBox::Rect { x0: ax0, y0: ay0, x1: ax1, y1: ay1 },
            BBox::Rect { x0: bx0, y0: by0, x1: bx1, y1: by1 },
        ) => BBox::Rect {
            x0: imin(ax0 as int, bx0 as int) as i64,
            y0: imin(ay0 as int, by0 as int) as i64,
            x1: imax(ax1 as int, bx1 as int) as i64,
            y1: imax(ay1 as int, by1 as int) as i64,
        },
    }
}

impl BBox {
    /// Expand this box to also contain `other`.
    pub fn expand(&self, other: &BBox) -> (r: BBox)
        ensures
            r == spec_union(*self, *other),
    {
        match (self, other) {
            (BBox::Empty, _) => *other,
            (_, BBox::Empty) => *self,
            (
                BBox::Rect { x0: ax0, y0: ay0, x1: ax1, y1: ay1 },
                BBox::Rect { x0: bx0, y0: by0, x1: bx1, y1: by1 },
            ) => BBox::Rect {
                x0: if *ax0 <= *bx0 { *ax0 } else { *bx0 },
                y0: if *ay0 <= *by0 { *ay0 } else { *by0 },
                x1: if *ax1 >= *bx1 { *ax1 } else { *bx1 },
                y1: if *ay1 >= *by1 { *ay1 } else { *by1 },
            },
        }
    }
}

/// The box `t` maps `b` to: the bounding box of the four mapped
/// corners. The empty box stays empty.
pub open spec fn spec_transform_bbox(b: BBox, t: Transform) -> BBox {
    match b {
        BBox::Empty => BBox::Empty,
        BBox::Rect { x0, y0, x1, y1 } => {
            let px0 = spec_apply_x(t, x0 as int, y0 as int);
            let px1 = spec_apply_x(t, x1 as int, y0 as int);
            let px2 = spec_apply_x(t, x0 as int, y1 as int);
            let px3 = spec_apply_x(t, x1 as int, y1 as int);
            let py0 = spec_apply_y(t, x0 as int, y0 as int);
            let py1 = spec_apply_y(t, x1 as int, y0 as int);
            let py2 = spec_apply_y(t, x0 as int, y1 as int);
            let py3 = spec_apply_y(t, x1 as int, y1 as int);
            BBox::Rect {
                x0: imin(imin(px0, px1), imin(px2, px3)) as i64,
                y0: imin(imin(py0, py1), imin(py2, py3)) as i64,
                x1: imax(imax(px0, px1), imax(px2, px3)) as i64,
                y1: imax(imax(py0, py1), imax(py2, py3)) as i64,
            }
        },
    }
}

impl BBox {
    /// Map this box into the parent coordinate space through `t`.
    pub fn transform(&self, t: &Transform) -> (r: BBox)
        requires
            self.wf(),
            t.wf(),
        ensures
            r == spec_transform_bbox(*self, *t),
            r.wf(),
    {
        match self {
            BBox::Empty => BBox::Empty,
            BBox::Rect { x0, y0, x1, y1 } => {
                let px0 = t.apply_x(*x0, *y0);
                let px1 = t.apply_x(*x1, *y0);
                let px2 = t.apply_x(*x0, *y1);
                let px3 = t.apply_x(*x1, *y1);
                let py0 = t.apply_y(*x0, *y0);
                let py1 = t.apply_y(*x1, *y0);
                let py2 = t.apply_y(*x0, *y1);
                let py3 = t.apply_y(*x1, *y1);
                let mx0a = if px0 <= px1 { px0 } else { px1 };
                let mx0b = if px2 <= px3 { px2 } else { px3 };
                let mx0 = if mx0a <= mx0b { mx0a } else { mx0b };
                let my0a = if py0 <= py1 { py0 } else { py1 };
                let my0b = if py2 <= py3 { py2 } else { py3 };
                let my0 = if my0a <= my0b { my0a } else { my0b };
                let mx1a = if px0 >= px1 { px0 } else { px1 };
                let mx1b = if px2 >= px3 { px2 } else { px3 };
                let mx1 = if mx1a >= mx1b { mx1a } else { mx1b };
                let my1a = if py0 >= py1 { py0 } else { py1 };
                let my1b = if py2 >= py3 { py2 } else { py3 };
                let my1 = if my1a >= my1b { my1a } else { my1b };
                BBox::Rect { x0: mx0, y0: my0, x1: mx1, y1: my1 }
            },
        }
    }
}

/// Box union is commutative: accumulating children's boxes in either
/// order gives the same box.
pub proof fn lemma_union_comm(a: BBox, b: BBox)
    ensures
        spec_union(a, b) == spec_union(b, a),
{
}

/// Box union is associative: grouping does not matter when folding
/// children's boxes together.
pub proof fn lemma_union_assoc(a: BBox, b: BBox, c: BBox)
    ensures
        spec_union(spec_union(a, b), c) == spec_union(a, spec_union(b, c)),
{
}

/// The empty box is the neutral element of union.
pub proof fn lemma_union_empty(a: BBox)
    ensures
        spec_union(BBox::Empty, a) == a,
        spec_union(a, BBox::Empty) == a,
{
}

} // verus!
