//! Rays, segments and their intersection on the integer grid.
//!
//! Coordinates are whole numbers of grid units. Cross products are taken in
//! unbounded integers in contracts and in 128 bits in code, so every vector
//! of `i32` coordinates is admissible. Where two lines meet between grid
//! points, the meeting point is rounded down to the grid in each coordinate.

use vstd::prelude::*;

verus! {

/// A point or a displacement of the grid.
#[derive(Clone, Copy, Debug, PartialEq, Eq, Structural)]
pub struct Vec2 {
    pub x: i32,
    pub y: i32,
}

impl Vec2 {
    pub fn new(x: i32, y: i32) -> (v: Vec2)
        ensures
            v.x == x,
            v.y == y,
    {
        Vec2 { x, y }
    }
}

/// The cross product `v × w` of two plane vectors.
pub open spec fn cross(vx: int, vy: int, wx: int, wy: int) -> int {
    vx * wy - vy * wx
}

fn cross_wide(vx: i64, vy: i64, wx: i64, wy: i64) -> (c: i128)
    requires
        -0x1_0000_0000 <= vx <= 0x1_0000_0000,
        -0x1_0000_0000 <= vy <= 0x1_0000_0000,
        -0x1_0000_0000 <= wx <= 0x1_0000_0000,
        -0x1_0000_0000 <= wy <= 0x1_0000_0000,
    ensures
        c == cross(vx as int, vy as int, wx as int, wy as int),
        -0x2_0000_0000_0000_0000 <= c <= 0x2_0000_0000_0000_0000,
{
    let a: i128 = vx as i128;
    let b: i128 = vy as i128;
    let c: i128 = wx as i128;
    let d: i128 = wy as i128;
    assert(-0x1_0000_0000_0000_0000 <= a * d <= 0x1_0000_0000_0000_0000) by (nonlinear_arith)
        requires
            -0x1_0000_0000 <= a <= 0x1_0000_0000,
            -0x1_0000_0000 <= d <= 0x1_0000_0000,
    ;
    assert(-0x1_0000_0000_0000_0000 <= b * c <= 0x1_0000_0000_0000_0000) by (nonlinear_arith)
        requires
            -0x1_0000_0000 <= b <= 0x1_0000_0000,
            -0x1_0000_0000 <= c <= 0x1_0000_0000,
    ;
    a * d - b * c
}

/// A half-line: every point `origin + t * dir` with `t >= 0`.
#[derive(Clone, Copy, Debug, PartialEq, Eq, Structural)]
pub struct Ray {
    pub origin: Vec2,
    pub dir: Vec2,
}

/// The bounded line from `src` to `dst`: every point `src + u * (dst - src)`
/// with `0 <= u <= 1`.
#[derive(Clone, Copy, Debug, PartialEq, Eq, Structural)]
pub struct Segment {
    pub src: Vec2,
    pub dst: Vec2,
}

impl Segment {
    /// First coordinate of the direction `dst - src`.
    pub open spec fn dir_x(self) -> int {
        self.dst.x - self.src.x
    }

    /// Second coordinate of the direction `dst - src`.
    pub open spec fn dir_y(self) -> int {
        self.dst.y - self.src.y
    }
}

impl Ray {
    /// `dir × (dst - src)`: zero exactly when the ray and the segment are
    /// parallel, or one of them has no length.
    pub open spec fn denominator(self, seg: Segment) -> int {
        cross(self.dir.x as int, self.dir.y as int, seg.dir_x(), seg.dir_y())
    }

    /// `(src - origin) × (dst - src)`: the ray's parameter `t` at the meeting
    /// point of the two lines is this over the denominator.
    pub open spec fn ray_numerator(self, seg: Segment) -> int {
        cross(seg.src.x - self.origin.x, seg.src.y - self.origin.y, seg.dir_x(), seg.dir_y())
    }

    /// `(src - origin) × dir`: the segment's parameter `u` at the meeting
    /// point of the two lines is this over the denominator.
    pub open spec fn segment_numerator(self, seg: Segment) -> int {
        cross(
            seg.src.x - self.origin.x,
            seg.src.y - self.origin.y,
            self.dir.x as int,
            self.dir.y as int,
        )
    }

    /// No single meeting point: the lines are parallel and apart, or lie on
    /// one another, or a direction is zero.
    pub open spec fn parallel(self, seg: Segment) -> bool {
        self.denominator(seg) == 0
    }

    /// The ray and the segment lie on one line.
    pub open spec fn collinear(self, seg: Segment) -> bool {
        self.denominator(seg) == 0 && self.segment_numerator(seg) == 0
    }

    /// The absolute value of the denominator.
    pub open spec fn scale(self, seg: Segment) -> int {
        if self.denominator(seg) < 0 {
            -self.denominator(seg)
        } else {
            self.denominator(seg)
        }
    }

    /// `t * scale`, where `t` is the ray's parameter at the meeting point.
    pub open spec fn scaled_t(self, seg: Segment) -> int {
        if self.denominator(seg) < 0 {
            -self.ray_numerator(seg)
        } else {
            self.ray_numerator(seg)
        }
    }

    /// `u * scale`, where `u` is the segment's parameter at the meeting point.
    pub open spec fn scaled_u(self, seg: Segment) -> int {
        if self.denominator(seg) < 0 {
            -self.segment_numerator(seg)
        } else {
            self.segment_numerator(seg)
        }
    }

    /// The lines meet in one point, at `t >= 0` on the ray and at
    /// `0 <= u <= 1` on the segment.
    pub open spec fn hits(self, seg: Segment) -> bool {
        &&& !self.parallel(seg)
        &&& 0 <= self.scaled_t(seg)
        &&& 0 <= self.scaled_u(seg) <= self.scale(seg)
    }

    /// First coordinate of `origin + t * dir`, rounded down.
    pub open spec fn hit_x(self, seg: Segment) -> int {
        self.origin.x + (self.scaled_t(seg) * self.dir.x) / self.scale(seg)
    }

    /// Second coordinate of `origin + t * dir`, rounded down.
    pub open spec fn hit_y(self, seg: Segment) -> int {
        self.origin.y + (self.scaled_t(seg) * self.dir.y) / self.scale(seg)
    }

    /// The meeting point on the grid. Where the ray hits, both coordinates
    /// lie between those of the segment's ends.
    pub open spec fn hit_point(self, seg: Segment) -> Vec2 {
        Vec2 { x: self.hit_x(seg) as i32, y: self.hit_y(seg) as i32 }
    }

    /// What the ray meets on the segment: the hit point, or nothing.
    pub open spec fn meet(self, seg: Segment) -> Option<Vec2> {
        if self.hits(seg) {
            Some(self.hit_point(seg))
        } else {
            None
        }
    }

    /// Square of the distance from the origin to the hit point on `seg`.
    pub open spec fn hit_distance(self, seg: Segment) -> int {
        distance_squared(self.origin, self.hit_point(seg))
    }

    /// Among the first `n` segments, `j` is the one whose hit point is
    /// nearest to the origin; of several at the same distance, the last.
    pub open spec fn is_nearest_among(self, segs: Seq<Segment>, n: int, j: int) -> bool {
        &&& 0 <= j < n <= segs.len()
        &&& self.hits(segs[j])
        &&& forall|k: int|
            0 <= k < n && self.hits(#[trigger] segs[k]) ==> {
                ||| self.hit_distance(segs[j]) < self.hit_distance(segs[k])
                ||| (self.hit_distance(segs[j]) == self.hit_distance(segs[k]) && k <= j)
            }
    }

    /// `j` is the segment with the nearest hit point; of several at the same
    /// distance, the last.
    pub open spec fn is_nearest(self, segs: Seq<Segment>, j: int) -> bool {
        self.is_nearest_among(segs, segs.len() as int, j)
    }

    /// The nearest point that the ray hits on any of the segments, or
    /// nothing where it hits none.
    pub open spec fn nearest_hit(self, segs: Seq<Segment>) -> Option<Vec2> {
        if exists|j: int| self.is_nearest(segs, j) {
            Some(self.hit_point(segs[choose|j: int| self.is_nearest(segs, j)]))
        } else {
            None
        }
    }
}

/// Square of the distance between two points.
pub open spec fn distance_squared(a: Vec2, b: Vec2) -> int {
    (b.x - a.x) * (b.x - a.x) + (b.y - a.y) * (b.y - a.y)
}

/// Cramer's rule for `t * r - u * s == a`, cleared of the division: with
/// `d = r × s`, `t = a × s` and `u = a × r`, `a * d == t * r - u * s`.
proof fn lemma_cramer(ax: int, ay: int, rx: int, ry: int, sx: int, sy: int)
    ensures
        ax * cross(rx, ry, sx, sy) == cross(ax, ay, sx, sy) * rx - cross(ax, ay, rx, ry) * sx,
        ay * cross(rx, ry, sx, sy) == cross(ax, ay, sx, sy) * ry - cross(ax, ay, rx, ry) * sy,
{
    let d = rx * sy - ry * sx;
    let t = ax * sy - ay * sx;
    let u = ax * ry - ay * rx;
    assert(ax * d == ax * (rx * sy) - ax * (ry * sx)) by (nonlinear_arith)
        requires
            d == rx * sy - ry * sx,
    ;
    assert(ay * d == ay * (rx * sy) - ay * (ry * sx)) by (nonlinear_arith)
        requires
            d == rx * sy - ry * sx,
    ;
    assert(t * rx == (ax * sy) * rx - (ay * sx) * rx) by (nonlinear_arith)
        requires
            t == ax * sy - ay * sx,
    ;
    assert(t * ry == (ax * sy) * ry - (ay * sx) * ry) by (nonlinear_arith)
        requires
            t == ax * sy - ay * sx,
    ;
    assert(u * sx == (ax * ry) * sx - (ay * rx) * sx) by (nonlinear_arith)
        requires
            u == ax * ry - ay * rx,
    ;
    assert(u * sy == (ax * ry) * sy - (ay * rx) * sy) by (nonlinear_arith)
        requires
            u == ax * ry - ay * rx,
    ;
    assert((ax * sy) * rx == ax * (rx * sy)) by (nonlinear_arith);
    assert((ax * ry) * sx == ax * (ry * sx)) by (nonlinear_arith);
    assert((ay * sx) * rx == (ay * rx) * sx) by (nonlinear_arith);
    assert((ay * sx) * ry == ay * (ry * sx)) by (nonlinear_arith);
    assert((ay * rx) * sy == ay * (rx * sy)) by (nonlinear_arith);
    assert((ax * sy) * ry == (ax * ry) * sy) by (nonlinear_arith);
}

/// Where the two lines meet, seen from either: for every ray and segment
/// `origin * D + T * dir == src * D + U * (dst - src)` in both coordinates,
/// with `D` the denominator and `T`, `U` the two numerators.
pub proof fn lemma_meeting_point(ray: Ray, seg: Segment)
    ensures
        ray.origin.x * ray.denominator(seg) + ray.ray_numerator(seg) * ray.dir.x == seg.src.x
            * ray.denominator(seg) + ray.segment_numerator(seg) * seg.dir_x(),
        ray.origin.y * ray.denominator(seg) + ray.ray_numerator(seg) * ray.dir.y == seg.src.y
            * ray.denominator(seg) + ray.segment_numerator(seg) * seg.dir_y(),
        ray.origin.x * ray.scale(seg) + ray.scaled_t(seg) * ray.dir.x == seg.src.x * ray.scale(seg)
            + ray.scaled_u(seg) * seg.dir_x(),
        ray.origin.y * ray.scale(seg) + ray.scaled_t(seg) * ray.dir.y == seg.src.y * ray.scale(seg)
            + ray.scaled_u(seg) * seg.dir_y(),
{
    let px = ray.origin.x as int;
    let py = ray.origin.y as int;
    let rx = ray.dir.x as int;
    let ry = ray.dir.y as int;
    let qx = seg.src.x as int;
    let qy = seg.src.y as int;
    let sx = seg.dir_x();
    let sy = seg.dir_y();
    let d = rx * sy - ry * sx;
    let t = (qx - px) * sy - (qy - py) * sx;
    let u = (qx - px) * ry - (qy - py) * rx;
    lemma_cramer(qx - px, qy - py, rx, ry, sx, sy);
    assert((qx - px) * d == qx * d - px * d) by (nonlinear_arith);
    assert((qy - py) * d == qy * d - py * d) by (nonlinear_arith);
    assert(px * (-d) + (-t) * rx == qx * (-d) + (-u) * sx) by (nonlinear_arith)
        requires
            px * d + t * rx == qx * d + u * sx,
    ;
    assert(py * (-d) + (-t) * ry == qy * (-d) + (-u) * sy) by (nonlinear_arith)
        requires
            py * d + t * ry == qy * d + u * sy,
    ;
}

/// A point `q + (u / d) * s` with `0 <= u <= d`, rounded down, lies between
/// `q` and `q + s`.
proof fn lemma_rounded_between(a: int, b: int, q: int, s: int, u: int, d: int)
    requires
        d > 0,
        0 <= u <= d,
        a * d + b == q * d + u * s,
    ensures
        s >= 0 ==> q <= a + b / d <= q + s,
        s <= 0 ==> q + s <= a + b / d <= q,
        d * (a + b / d) <= a * d + b < d * (a + b / d) + d,
{
    let n = a * d + b;
    assert(n / d == a + b / d && d * (n / d) <= n < d * (n / d) + d) by {
        vstd::arithmetic::div_mod::lemma_hoist_over_denominator(b, a, d as nat);
        vstd::arithmetic::div_mod::lemma_fundamental_div_mod(n, d);
        vstd::arithmetic::div_mod::lemma_mod_bound(n, d);
    }
    if s >= 0 {
        assert(q * d <= n <= (q + s) * d) by (nonlinear_arith)
            requires
                n == q * d + u * s,
                0 <= u <= d,
                s >= 0,
        ;
        assert(q <= n / d <= q + s) by (nonlinear_arith)
            requires
                d > 0,
                q * d <= n <= (q + s) * d,
                d * (n / d) <= n < d * (n / d) + d,
        ;
    }
    if s <= 0 {
        assert((q + s) * d <= n <= q * d) by (nonlinear_arith)
            requires
                n == q * d + u * s,
                0 <= u <= d,
                s <= 0,
        ;
        assert(q + s <= n / d <= q) by (nonlinear_arith)
            requires
                d > 0,
                (q + s) * d <= n <= q * d,
                d * (n / d) <= n < d * (n / d) + d,
        ;
    }
}

/// `n / d`, rounded down, for a positive `d`.
fn floor_div(n: i128, d: i128) -> (q: i128)
    requires
        d > 0,
    ensures
        q == (n as int) / (d as int),
{
    proof {
        let q = (n as int) / (d as int);
        vstd::arithmetic::div_mod::lemma_fundamental_div_mod(n as int, d as int);
        vstd::arithmetic::div_mod::lemma_mod_bound(n as int, d as int);
        assert((n >= 0 ==> 0 <= q <= n) && (n < 0 ==> n <= q < 0)) by (nonlinear_arith)
            requires
                d >= 1,
                d * q <= n < d * q + d,
        ;
    }
    match n.checked_div_euclid(d) {
        Some(q) => q,
        // A positive divisor is not zero, and the quotient is no larger
        // than `n`.
        None => vstd::pervasive::unreached(),
    }
}

/// One coordinate of the meeting point: `origin + (t * dir) / scale`, rounded
/// down, where `q`, `s`, `u` describe the same point from the segment's side.
fn rounded(origin: i32, dir: i32, t: i128, scale: i128, Ghost(q): Ghost<int>, Ghost(s): Ghost<int>, Ghost(u): Ghost<int>) -> (c: i32)
    requires
        0 < scale <= 0x2_0000_0000_0000_0000,
        0 <= t <= 0x2_0000_0000_0000_0000,
        0 <= u <= scale,
        origin * scale + t * dir == q * scale + u * s,
        i32::MIN <= q <= i32::MAX,
        i32::MIN <= q + s <= i32::MAX,
    ensures
        c == origin + (t * dir) / (scale as int),
{
    let wide: i128 = dir as i128;
    assert(-0x1_0000_0000_0000_0000_0000_0000 <= t * wide <= 0x1_0000_0000_0000_0000_0000_0000)
        by (nonlinear_arith)
        requires
            0 <= t <= 0x2_0000_0000_0000_0000,
            -0x8000_0000 <= wide <= 0x8000_0000,
    ;
    let product: i128 = t * wide;
    proof {
        lemma_rounded_between(origin as int, product as int, q, s, u, scale as int);
    }
    (origin as i128 + floor_div(product, scale)) as i32
}

impl Ray {
    /// The point where this ray meets `segment`, if it does.
    ///
    /// There is a point exactly when the two lines cross in a single point
    /// that lies on the ray (`t >= 0`) and on the segment (`0 <= u <= 1`); it
    /// is `origin + t * dir`, each coordinate rounded down to the grid. A ray
    /// and a segment that are parallel never meet here, not even when they
    /// lie on one line and overlap.
    pub fn intersection(&self, segment: &Segment) -> (res: Option<Vec2>)
        ensures
            res == self.meet(*segment),
            self.parallel(*segment) ==> res.is_none(),
            self.collinear(*segment) ==> res.is_none(),
            res matches Some(p) ==> {
                &&& p.x == self.hit_x(*segment)
                &&& p.y == self.hit_y(*segment)
            },
    {
        let rx: i64 = self.dir.x as i64;
        let ry: i64 = self.dir.y as i64;
        let sx: i64 = segment.dst.x as i64 - segment.src.x as i64;
        let sy: i64 = segment.dst.y as i64 - segment.src.y as i64;
        let ax: i64 = segment.src.x as i64 - self.origin.x as i64;
        let ay: i64 = segment.src.y as i64 - self.origin.y as i64;
        let r_x_s: i128 = cross_wide(rx, ry, sx, sy);
        let a_x_s: i128 = cross_wide(ax, ay, sx, sy);
        let a_x_r: i128 = cross_wide(ax, ay, rx, ry);
        if r_x_s == 0 {
            return None;
        }
        let scale: i128 = if r_x_s < 0 { -r_x_s } else { r_x_s };
        let t: i128 = if r_x_s < 0 { -a_x_s } else { a_x_s };
        let u: i128 = if r_x_s < 0 { -a_x_r } else { a_x_r };
        if t < 0 || u < 0 || u > scale {
            return None;
        }
        proof {
            lemma_meeting_point(*self, *segment);
        }
        let x: i32 = rounded(
            self.origin.x,
            self.dir.x,
            t,
            scale,
            Ghost(segment.src.x as int),
            Ghost(segment.dir_x()),
            Ghost(u as int),
        );
        let y: i32 = rounded(
            self.origin.y,
            self.dir.y,
            t,
            scale,
            Ghost(segment.src.y as int),
            Ghost(segment.dir_y()),
            Ghost(u as int),
        );
        Some(Vec2 { x, y })
    }
}

/// A hit lies on the ray and on the segment. Cleared of the division by
/// `scale`, the ray's parameter `t` is not negative, the segment's parameter
/// `u` lies between 0 and 1, and `origin + t * dir` is the same point as
/// `src + u * (dst - src)`. The hit point is that point rounded down to the
/// grid, and lies between the segment's ends in each coordinate.
pub proof fn lemma_hit_lies_on_ray_and_segment(ray: Ray, seg: Segment)
    requires
        ray.hits(seg),
    ensures
        ray.scale(seg) > 0,
        0 <= ray.scaled_t(seg),
        0 <= ray.scaled_u(seg) <= ray.scale(seg),
        ray.origin.x * ray.scale(seg) + ray.scaled_t(seg) * ray.dir.x == seg.src.x * ray.scale(seg)
            + ray.scaled_u(seg) * seg.dir_x(),
        ray.origin.y * ray.scale(seg) + ray.scaled_t(seg) * ray.dir.y == seg.src.y * ray.scale(seg)
            + ray.scaled_u(seg) * seg.dir_y(),
        ray.scale(seg) * ray.hit_x(seg) <= ray.origin.x * ray.scale(seg) + ray.scaled_t(seg)
            * ray.dir.x < ray.scale(seg) * ray.hit_x(seg) + ray.scale(seg),
        ray.scale(seg) * ray.hit_y(seg) <= ray.origin.y * ray.scale(seg) + ray.scaled_t(seg)
            * ray.dir.y < ray.scale(seg) * ray.hit_y(seg) + ray.scale(seg),
        seg.src.x <= ray.hit_x(seg) <= seg.dst.x || seg.dst.x <= ray.hit_x(seg) <= seg.src.x,
        seg.src.y <= ray.hit_y(seg) <= seg.dst.y || seg.dst.y <= ray.hit_y(seg) <= seg.src.y,
        ray.hit_point(seg).x == ray.hit_x(seg),
        ray.hit_point(seg).y == ray.hit_y(seg),
{
    lemma_meeting_point(ray, seg);
    lemma_rounded_between(
        ray.origin.x as int,
        ray.scaled_t(seg) * ray.dir.x,
        seg.src.x as int,
        seg.dir_x(),
        ray.scaled_u(seg),
        ray.scale(seg),
    );
    lemma_rounded_between(
        ray.origin.y as int,
        ray.scaled_t(seg) * ray.dir.y,
        seg.src.y as int,
        seg.dir_y(),
        ray.scaled_u(seg),
        ray.scale(seg),
    );
}

/// A ray parallel to a segment meets it nowhere.
pub proof fn lemma_parallel_never_hits(ray: Ray, seg: Segment)
    requires
        ray.parallel(seg),
    ensures
        !ray.hits(seg),
        ray.meet(seg).is_none(),
{
}

/// A ray on the line of a segment meets it nowhere, whether or not the two
/// overlap.
pub proof fn lemma_collinear_never_hits(ray: Ray, seg: Segment)
    requires
        ray.collinear(seg),
    ensures
        !ray.hits(seg),
        ray.meet(seg).is_none(),
{
}

fn distance_squared_wide(a: Vec2, b: Vec2) -> (d: i128)
    ensures
        d == distance_squared(a, b),
{
    let dx: i128 = b.x as i128 - a.x as i128;
    let dy: i128 = b.y as i128 - a.y as i128;
    assert(0 <= dx * dx <= 0x1_0000_0000_0000_0000) by (nonlinear_arith)
        requires
            -0x1_0000_0000 <= dx <= 0x1_0000_0000,
    ;
    assert(0 <= dy * dy <= 0x1_0000_0000_0000_0000) by (nonlinear_arith)
        requires
            -0x1_0000_0000 <= dy <= 0x1_0000_0000,
    ;
    dx * dx + dy * dy
}

/// At most one segment is the nearest.
pub proof fn lemma_nearest_is_unique(ray: Ray, segs: Seq<Segment>, n: int, i: int, j: int)
    requires
        ray.is_nearest_among(segs, n, i),
        ray.is_nearest_among(segs, n, j),
    ensures
        i == j,
{
    let _ = segs[i];
    let _ = segs[j];
}

/// The nearest hit is a hit, and no hit is nearer: where the ray hits any
/// of the segments, `nearest_hit` is the hit point on one of them, and the
/// hit point on every other that is hit is as far or farther. Where it hits
/// none of its own, it hits none.
pub proof fn lemma_nearest_hit_is_nearest(ray: Ray, segs: Seq<Segment>)
    ensures
        match ray.nearest_hit(segs) {
            Some(point) => exists|j: int|
                {
                    &&& 0 <= j < segs.len()
                    &&& ray.hits(#[trigger] segs[j])
                    &&& point == ray.hit_point(segs[j])
                    &&& forall|k: int|
                        0 <= k < segs.len() && ray.hits(#[trigger] segs[k])
                            ==> ray.hit_distance(segs[j]) <= ray.hit_distance(segs[k])
                },
            None => forall|k: int| 0 <= k < segs.len() ==> !ray.hits(#[trigger] segs[k]),
        },
{
    if exists|j: int| ray.is_nearest(segs, j) {
        let j = choose|j: int| ray.is_nearest(segs, j);
        assert(ray.hits(segs[j]));
        assert forall|k: int| 0 <= k < segs.len() && ray.hits(#[trigger] segs[k]) implies ray.hit_distance(
            segs[j],
        ) <= ray.hit_distance(segs[k]) by {}
    } else {
        lemma_some_hit_is_nearest(ray, segs, segs.len() as int);
        assert forall|k: int| 0 <= k < segs.len() implies !ray.hits(#[trigger] segs[k]) by {
            if ray.hits(segs[k]) {
                let j = choose|j: int| #[trigger] ray.is_nearest_among(segs, segs.len() as int, j);
                assert(ray.is_nearest(segs, j));
            }
        }
    }
}

/// Among the first `n` segments, if any is hit then one is the nearest.
proof fn lemma_some_hit_is_nearest(ray: Ray, segs: Seq<Segment>, n: int)
    requires
        0 <= n <= segs.len(),
    ensures
        (exists|j: int| #[trigger] ray.is_nearest_among(segs, n, j)) || (forall|k: int|
            0 <= k < n ==> !ray.hits(#[trigger] segs[k])),
    decreases n,
{
    if n > 0 {
        lemma_some_hit_is_nearest(ray, segs, n - 1);
        let last = n - 1;
        let m = n - 1;
        if ray.hits(segs[last]) {
            if exists|j: int| #[trigger] ray.is_nearest_among(segs, m, j) {
                let j = choose|j: int| #[trigger] ray.is_nearest_among(segs, m, j);
                if ray.hit_distance(segs[j]) >= ray.hit_distance(segs[last]) {
                    assert(ray.is_nearest_among(segs, n, last));
                } else {
                    assert(ray.is_nearest_among(segs, n, j));
                }
            } else {
                assert(ray.is_nearest_among(segs, n, last));
            }
        } else {
            if exists|j: int| #[trigger] ray.is_nearest_among(segs, m, j) {
                let j = choose|j: int| #[trigger] ray.is_nearest_among(segs, m, j);
                assert(ray.is_nearest_among(segs, n, j));
            }
        }
    }
}

impl Ray {
    /// The nearest of the points where this ray meets any of `segments`.
    ///
    /// Distances are compared as squares, exactly. Where two segments are hit
    /// at the same distance, the one later in `segments` gives the point.
    pub fn nearest_intersection(&self, segments: &Vec<Segment>) -> (res: Option<Vec2>)
        ensures
            res == self.nearest_hit(segments@),
            res.is_none() <==> forall|k: int|
                0 <= k < segments@.len() ==> !self.hits(#[trigger] segments@[k]),
    {
        let mut best: Option<Vec2> = None;
        let mut best_distance: i128 = 0;
        let ghost mut at: int = 0;
        let mut i: usize = 0;
        while i < segments.len()
            invariant
                i <= segments@.len(),
                best.is_none() ==> forall|k: int|
                    0 <= k < i ==> !self.hits(#[trigger] segments@[k]),
                best matches Some(p) ==> {
                    &&& self.is_nearest_among(segments@, i as int, at)
                    &&& p == self.hit_point(segments@[at])
                    &&& best_distance == self.hit_distance(segments@[at])
                },
            decreases segments@.len() - i,
        {
            match self.intersection(&segments[i]) {
                Some(p) => {
                    let d: i128 = distance_squared_wide(self.origin, p);
                    if best.is_none() || best_distance >= d {
                        best = Some(p);
                        best_distance = d;
                        proof {
                            at = i as int;
                        }
                    }
                },
                None => {},
            }
            i += 1;
        }
        proof {
            if best.is_some() {
                assert(self.is_nearest(segments@, at));
                let chosen = choose|j: int| self.is_nearest(segments@, j);
                lemma_nearest_is_unique(*self, segments@, segments@.len() as int, at, chosen);
            } else {
                assert forall|j: int| !self.is_nearest(segments@, j) by {
                    if 0 <= j < segments@.len() {
                        let _ = segments@[j];
                    }
                }
            }
        }
        best
    }
}

/// `r` is the square root of `n`, rounded down.
pub open spec fn is_floor_sqrt(r: int, n: int) -> bool {
    0 <= r && r * r <= n < (r + 1) * (r + 1)
}

/// The square root of `n`, rounded down.
pub open spec fn floor_sqrt(n: int) -> int {
    choose|r: int| is_floor_sqrt(r, n)
}

/// A number has at most one rounded square root.
pub proof fn lemma_floor_sqrt_is_unique(r: int, n: int)
    requires
        is_floor_sqrt(r, n),
    ensures
        floor_sqrt(n) == r,
{
    let c = floor_sqrt(n);
    assert(is_floor_sqrt(c, n));
    if c < r {
        assert((c + 1) * (c + 1) <= r * r) by (nonlinear_arith)
            requires
                0 <= c,
                c + 1 <= r,
        ;
    }
    if r < c {
        assert((r + 1) * (r + 1) <= c * c) by (nonlinear_arith)
            requires
                0 <= r,
                r + 1 <= c,
        ;
    }
}

/// The square root of `n`, rounded down, found by bisection.
pub fn isqrt(n: u64) -> (r: u64)
    ensures
        r == floor_sqrt(n as int),
        is_floor_sqrt(r as int, n as int),
        r < 0x1_0000_0000,
{
    let mut low: u64 = 0;
    let mut high: u64 = 0x1_0000_0000;
    while high - low > 1
        invariant
            low < high <= 0x1_0000_0000,
            low * low <= n,
            n < high * high,
        decreases high - low,
    {
        let mid: u64 = low + (high - low) / 2;
        assert(mid * mid <= 0xffff_ffff * 0xffff_ffff) by (nonlinear_arith)
            requires
                0 <= mid <= 0xffff_ffff,
        ;
        if mid * mid <= n {
            low = mid;
        } else {
            high = mid;
        }
    }
    proof {
        lemma_floor_sqrt_is_unique(low as int, n as int);
    }
    low
}

} // verus!
