use vstd::prelude::*;

verus! {

/// A point in source coordinates (east, north, up).
#[derive(Clone, Copy, Debug, PartialEq, Eq, Structural)]
pub struct Point3 {
    pub x: i32,
    pub y: i32,
    pub z: i32,
}

/// A vector in a wider range: render-space positions and offsets.
#[derive(Clone, Copy, Debug, PartialEq, Eq, Structural)]
pub struct Vec3 {
    pub x: i64,
    pub y: i64,
    pub z: i64,
}

/// Lower and upper corners of an axis-aligned box.
#[derive(Clone, Copy, Debug, PartialEq, Eq, Structural)]
pub struct Aabb {
    pub lower: Point3,
    pub upper: Point3,
}

pub open spec fn min_i(a: i32, b: i32) -> i32 {
    if a <= b { a } else { b }
}

pub open spec fn max_i(a: i32, b: i32) -> i32 {
    if a >= b { a } else { b }
}

/// The smallest box holding both boxes.
pub open spec fn merged(a: Aabb, b: Aabb) -> Aabb {
    Aabb {
        lower: Point3 {
            x: min_i(a.lower.x, b.lower.x),
            y: min_i(a.lower.y, b.lower.y),
            z: min_i(a.lower.z, b.lower.z),
        },
        upper: Point3 {
            x: max_i(a.upper.x, b.upper.x),
            y: max_i(a.upper.y, b.upper.y),
            z: max_i(a.upper.z, b.upper.z),
        },
    }
}

/// The box of one point.
pub open spec fn point_box(p: Point3) -> Aabb {
    Aabb { lower: p, upper: p }
}

/// The bounding box of a non-empty sequence of points.
pub open spec fn bounds_of(s: Seq<Point3>) -> Aabb
    decreases s.len(),
{
    if s.len() <= 1 {
        point_box(s[0])
    } else {
        merged(bounds_of(s.drop_last()), point_box(s.last()))
    }
}

/// The bounding box of a non-empty sequence of boxes.
pub open spec fn union_of(s: Seq<Aabb>) -> Aabb
    decreases s.len(),
{
    if s.len() <= 1 {
        s[0]
    } else {
        merged(union_of(s.drop_last()), s.last())
    }
}

pub open spec fn wf_box(b: Aabb) -> bool {
    b.lower.x <= b.upper.x && b.lower.y <= b.upper.y && b.lower.z <= b.upper.z
}

/// Midpoint of `l..=u`, rounded down.
pub open spec fn mid(l: int, u: int) -> int {
    l + (u - l) / 2
}

pub open spec fn center_spec(b: Aabb) -> Point3 {
    Point3 {
        x: mid(b.lower.x as int, b.upper.x as int) as i32,
        y: mid(b.lower.y as int, b.upper.y as int) as i32,
        z: mid(b.lower.z as int, b.upper.z as int) as i32,
    }
}

pub open spec fn volume_spec(b: Aabb) -> int {
    (b.upper.x - b.lower.x) * (b.upper.y - b.lower.y) * (b.upper.z - b.lower.z)
}

pub proof fn lemma_bounds_wf(s: Seq<Point3>)
    requires
        s.len() > 0,
    ensures
        wf_box(bounds_of(s)),
    decreases s.len(),
{
    if s.len() > 1 {
        lemma_bounds_wf(s.drop_last());
    }
}

pub proof fn lemma_union_wf(s: Seq<Aabb>)
    requires
        s.len() > 0,
        forall|i: int| 0 <= i < s.len() ==> wf_box(#[trigger] s[i]),
    ensures
        wf_box(union_of(s)),
    decreases s.len(),
{
    if s.len() > 1 {
        lemma_union_wf(s.drop_last());
    }
}

fn min_of(a: i32, b: i32) -> (r: i32)
    ensures
        r == min_i(a, b),
{
    if a <= b { a } else { b }
}

fn max_of(a: i32, b: i32) -> (r: i32)
    ensures
        r == max_i(a, b),
{
    if a >= b { a } else { b }
}

impl Aabb {
    /// The box of a single point.
    pub fn from_point(p: Point3) -> (r: Aabb)
        ensures
            r == point_box(p),
    {
        Aabb { lower: p, upper: p }
    }

    /// Union of two boxes.
    pub fn merge(&self, other: &Aabb) -> (r: Aabb)
        ensures
            r == merged(*self, *other),
    {
        Aabb {
            lower: Point3 {
                x: min_of(self.lower.x, other.lower.x),
                y: min_of(self.lower.y, other.lower.y),
                z: min_of(self.lower.z, other.lower.z),
            },
            upper: Point3 {
                x: max_of(self.upper.x, other.upper.x),
                y: max_of(self.upper.y, other.upper.y),
                z: max_of(self.upper.z, other.upper.z),
            },
        }
    }

    /// Center of the box, each coordinate rounded down.
    pub fn center(&self) -> (r: Point3)
        requires
            wf_box(*self),
        ensures
            r == center_spec(*self),
            self.lower.x <= r.x <= self.upper.x,
            self.lower.y <= r.y <= self.upper.y,
            self.lower.z <= r.z <= self.upper.z,
    {
        Point3 {
            x: mid_of(self.lower.x, self.upper.x),
            y: mid_of(self.lower.y, self.upper.y),
            z: mid_of(self.lower.z, self.upper.z),
        }
    }

    /// Width of the box along each axis.
    pub fn extents(&self) -> (r: (u64, u64, u64))
        requires
            wf_box(*self),
        ensures
            r.0 == self.upper.x - self.lower.x,
            r.1 == self.upper.y - self.lower.y,
            r.2 == self.upper.z - self.lower.z,
    {
        (
            (self.upper.x as i64 - self.lower.x as i64) as u64,
            (self.upper.y as i64 - self.lower.y as i64) as u64,
            (self.upper.z as i64 - self.lower.z as i64) as u64,
        )
    }

    /// Product of the three extents.
    pub fn volume(&self) -> (r: u128)
        requires
            wf_box(*self),
        ensures
            r == volume_spec(*self),
            r < 0x1_0000_0000_0000_0000_0000_0000,
    {
        let (dx, dy, dz) = self.extents();
        let a = dx as u128;
        let b = dy as u128;
        let c = dz as u128;
        assert(a * b <= 0xffff_ffff * 0xffff_ffff) by (nonlinear_arith)
            requires a <= 0xffff_ffff, b <= 0xffff_ffff;
        assert(a * b * c < 0x1_0000_0000_0000_0000_0000_0000) by (nonlinear_arith)
            requires a * b <= 0xffff_ffff * 0xffff_ffff, c <= 0xffff_ffff;
        a * b * c
    }
}

fn mid_of(l: i32, u: i32) -> (r: i32)
    requires
        l <= u,
    ensures
        r == mid(l as int, u as int),
        l <= r <= u,
{
    let d: i64 = u as i64 - l as i64;
    (l as i64 + d / 2) as i32
}

/// The bounding box of a non-empty list of points.
pub fn bounds_of_points(points: &Vec<Point3>) -> (r: Aabb)
    requires
        points@.len() > 0,
    ensures
        r == bounds_of(points@),
        wf_box(r),
{
    let mut acc = Aabb::from_point(points[0]);
    let mut i: usize = 1;
    while i < points.len()
        invariant
            1 <= i <= points@.len(),
            acc == bounds_of(points@.take(i as int)),
        decreases points@.len() - i,
    {
        assert(points@.take(i as int + 1).drop_last() =~= points@.take(i as int));
        acc = acc.merge(&Aabb::from_point(points[i]));
        i = i + 1;
    }
    assert(points@.take(i as int) =~= points@);
    proof {
        lemma_bounds_wf(points@);
    }
    acc
}

/// Source axes (east, north, up) to render axes (right, up, back).
pub open spec fn reorient_spec(x: int, y: int, z: int) -> (int, int, int) {
    (x, z, -y)
}

/// Render axes back to source axes.
pub open spec fn unorient_spec(x: int, y: int, z: int) -> (int, int, int) {
    (x, -z, y)
}

pub open spec fn vec_of(t: (int, int, int)) -> Vec3 {
    Vec3 { x: t.0 as i64, y: t.1 as i64, z: t.2 as i64 }
}

/// Reorientation followed by its inverse, in either order, gives back the point.
pub proof fn lemma_reorient_round_trip(x: int, y: int, z: int)
    ensures
        ({
            let r = reorient_spec(x, y, z);
            unorient_spec(r.0, r.1, r.2)
        }) == (x, y, z),
        ({
            let u = unorient_spec(x, y, z);
            reorient_spec(u.0, u.1, u.2)
        }) == (x, y, z),
{
}

/// The point `p - origin`, in render axes.
pub open spec fn render_position(p: Point3, origin: Point3) -> Vec3 {
    vec_of(reorient_spec(p.x - origin.x, p.y - origin.y, p.z - origin.z))
}

/// Shifts a source point by the origin and turns it into render axes.
pub fn to_render(p: Point3, origin: Point3) -> (r: Vec3)
    ensures
        r == render_position(p, origin),
{
    let dx: i64 = p.x as i64 - origin.x as i64;
    let dy: i64 = p.y as i64 - origin.y as i64;
    let dz: i64 = p.z as i64 - origin.z as i64;
    Vec3 { x: dx, y: dz, z: -dy }
}

/// The source point at render offset `v` from the origin.
pub open spec fn source_position(origin: Point3, v: Point3) -> Vec3 {
    let u = unorient_spec(v.x as int, v.y as int, v.z as int);
    Vec3 {
        x: (origin.x + u.0) as i64,
        y: (origin.y + u.1) as i64,
        z: (origin.z + u.2) as i64,
    }
}

/// Adds a render-space offset to the origin, in source axes.
pub fn from_render(origin: Point3, v: Point3) -> (r: Vec3)
    ensures
        r == source_position(origin, v),
{
    Vec3 {
        x: origin.x as i64 + v.x as i64,
        y: origin.y as i64 - v.z as i64,
        z: origin.z as i64 + v.y as i64,
    }
}

} // verus!
