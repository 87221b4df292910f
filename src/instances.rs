use vstd::prelude::*;
use crate::cloud::PointCloud;
use crate::geometry::{Aabb, Point3, Vec3, bounds_of, render_position, to_render, volume_spec, wf_box};
use crate::spatial::SpatialReference;

verus! {

/// One render primitive: an axis-aligned box in render space.
#[derive(Clone, Copy, Debug, PartialEq, Eq, Structural)]
pub struct RenderInstance {
    pub min: Vec3,
    pub max: Vec3,
    /// Packed RGBA, red in the low byte.
    pub color: u32,
    pub depth_bias: u32,
}

pub open spec fn is_cube_root(r: int, q: int) -> bool {
    0 <= r && r * r * r <= q < (r + 1) * (r + 1) * (r + 1)
}

/// The integer cube root of `q`, rounded down.
pub open spec fn cbrt_floor(q: int) -> int {
    choose|r: int| is_cube_root(r, q)
}

proof fn lemma_cube_monotone(a: int, b: int)
    requires
        0 <= a <= b,
    ensures
        a * a * a <= b * b * b,
{
    assert(a * a <= b * b) by (nonlinear_arith)
        requires 0 <= a <= b;
    assert(a * a * a <= b * b * b) by (nonlinear_arith)
        requires 0 <= a <= b, a * a <= b * b, 0 <= a * a;
}

/// At most one integer is the cube root of `q` rounded down.
pub proof fn lemma_cube_root_unique(a: int, b: int, q: int)
    requires
        is_cube_root(a, q),
        is_cube_root(b, q),
    ensures
        a == b,
{
    if a < b {
        lemma_cube_monotone(a + 1, b);
    } else if b < a {
        lemma_cube_monotone(b + 1, a);
    }
}

/// Integer cube root by bisection.
pub fn icbrt(q: u128) -> (r: u64)
    requires
        q < 0x1_0000_0000_0000_0000_0000_0000,
    ensures
        r == cbrt_floor(q as int),
        is_cube_root(r as int, q as int),
        r < 0x1_0000_0000,
{
    let mut lo: u128 = 0;
    let mut hi: u128 = 0x1_0000_0000;
    assert(hi * hi * hi == 0x1_0000_0000_0000_0000_0000_0000) by (nonlinear_arith)
        requires hi == 0x1_0000_0000;
    while lo + 1 < hi
        invariant
            lo < hi <= 0x1_0000_0000,
            lo * lo * lo <= q,
            q < hi * hi * hi,
        decreases hi - lo,
    {
        let mid = lo + (hi - lo) / 2;
        assert(mid * mid * mid < 0x1_0000_0000_0000_0000_0000_0000) by (nonlinear_arith)
            requires mid < 0x1_0000_0000;
        assert(mid * mid < 0x1_0000_0000_0000_0000) by (nonlinear_arith)
            requires mid < 0x1_0000_0000;
        if mid * mid * mid <= q {
            lo = mid;
        } else {
            hi = mid;
        }
    }
    proof {
        assert(is_cube_root(lo as int, q as int));
        lemma_cube_root_unique(lo as int, cbrt_floor(q as int), q as int);
    }
    lo as u64
}

/// Half the side of each box: a tenth of the cube root of the volume per point.
pub open spec fn half_extent_spec(b: Aabb, n: int) -> int {
    cbrt_floor(volume_spec(b) / n) / 10
}

pub fn half_extent(b: &Aabb, n: usize) -> (r: u64)
    requires
        wf_box(*b),
        n > 0,
    ensures
        r == half_extent_spec(*b, n as int),
        r < 0x1_0000_0000,
{
    let v = b.volume();
    icbrt(v / n as u128) / 10
}

/// The origin points are shifted by; zero while none is set.
pub open spec fn origin_of(sr: SpatialReference) -> Point3 {
    match sr.origin {
        Some(o) => o,
        None => Point3 { x: 0, y: 0, z: 0 },
    }
}

pub open spec fn instance_spec(p: Point3, origin: Point3, h: int, color: u32) -> RenderInstance {
    let c = render_position(p, origin);
    RenderInstance {
        min: Vec3 { x: (c.x - h) as i64, y: (c.y - h) as i64, z: (c.z - h) as i64 },
        max: Vec3 { x: (c.x + h) as i64, y: (c.y + h) as i64, z: (c.z + h) as i64 },
        color,
        depth_bias: 0,
    }
}

/// One box per point, in point order, coloured by the colour at the same index.
pub open spec fn instances_spec(pc: PointCloud, sr: SpatialReference, colors: Seq<u32>) -> Seq<RenderInstance> {
    let pts = pc.points();
    let h = half_extent_spec(bounds_of(pts), pts.len() as int);
    Seq::new(pts.len(), |i: int| instance_spec(pts[i], origin_of(sr), h, colors[i]))
}

/// Builds the render boxes of `pc` in the frame `sr`, with `colors` index-aligned
/// with the points.
pub fn generate(pc: &PointCloud, sr: &SpatialReference, colors: &Vec<u32>) -> (r: Vec<RenderInstance>)
    requires
        colors@.len() == pc.points().len(),
    ensures
        r@ == instances_spec(*pc, *sr, colors@),
{
    let pts = pc.collect_points();
    let origin = match sr.origin {
        Some(o) => o,
        None => Point3 { x: 0, y: 0, z: 0 },
    };
    let mut out: Vec<RenderInstance> = Vec::new();
    if pts.len() == 0 {
        assert(out@ =~= instances_spec(*pc, *sr, colors@));
        return out;
    }
    let b = crate::geometry::bounds_of_points(&pts);
    let h = half_extent(&b, pts.len()) as i64;
    let ghost hs = half_extent_spec(bounds_of(pts@), pts@.len() as int);
    let mut i: usize = 0;
    while i < pts.len()
        invariant
            pts@ == pc.points(),
            colors@.len() == pts@.len(),
            origin == origin_of(*sr),
            h == hs,
            0 <= h < 0x1_0000_0000,
            i <= pts@.len(),
            out@ == Seq::new(i as nat, |k: int| instance_spec(pts@[k], origin, hs, colors@[k])),
        decreases pts@.len() - i,
    {
        let c = to_render(pts[i], origin);
        let inst = RenderInstance {
            min: Vec3 { x: c.x - h, y: c.y - h, z: c.z - h },
            max: Vec3 { x: c.x + h, y: c.y + h, z: c.z + h },
            color: colors[i],
            depth_bias: 0,
        };
        out.push(inst);
        i = i + 1;
        assert(out@ =~= Seq::new(i as nat, |k: int| instance_spec(pts@[k], origin, hs, colors@[k])));
    }
    assert(out@ =~= instances_spec(*pc, *sr, colors@));
    out
}

} // verus!
