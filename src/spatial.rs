use vstd::prelude::*;
use crate::cloud::PointCloud;
use crate::geometry::{
    Aabb, Point3, Vec3, bounds_of, center_spec, lemma_union_wf, source_position, union_of,
    wf_box, from_render,
};
use crate::store::PointCloudStore;

verus! {

/// The local frame: the origin subtracted from every rendered point, and the
/// camera focus in source coordinates.
#[derive(Clone, Copy, Debug, PartialEq, Eq, Structural)]
pub struct SpatialReference {
    pub origin: Option<Point3>,
    pub focus: Vec3,
}

/// Camera framing values reported on a reset.
#[derive(Clone, Copy, Debug, PartialEq, Eq, Structural)]
pub struct FramingHint {
    /// The larger of the north and up extents.
    pub depth_scale: u64,
    /// The larger of the east and north extents.
    pub horizontal_scale: u64,
}

pub open spec fn point_vec(p: Point3) -> Vec3 {
    Vec3 { x: p.x as i64, y: p.y as i64, z: p.z as i64 }
}

/// The frame after a load: the first non-empty cloud fixes the origin at
/// its center; later loads leave it be.
pub open spec fn establish_spec(sr: SpatialReference, pc: PointCloud) -> SpatialReference {
    if sr.origin is None && pc.points().len() > 0 {
        let c = center_spec(bounds_of(pc.points()));
        SpatialReference { origin: Some(c), focus: point_vec(c) }
    } else {
        sr
    }
}

/// Boxes of the non-empty clouds, in order.
pub open spec fn boxes_of(clouds: Seq<PointCloud>) -> Seq<Aabb>
    decreases clouds.len(),
{
    if clouds.len() == 0 {
        Seq::empty()
    } else if clouds.last().points().len() > 0 {
        boxes_of(clouds.drop_last()).push(bounds_of(clouds.last().points()))
    } else {
        boxes_of(clouds.drop_last())
    }
}

pub open spec fn max_u(a: int, b: int) -> int {
    if a >= b { a } else { b }
}

pub open spec fn hint_spec(b: Aabb) -> FramingHint {
    let dx = b.upper.x - b.lower.x;
    let dy = b.upper.y - b.lower.y;
    let dz = b.upper.z - b.lower.z;
    FramingHint { depth_scale: max_u(dy, dz) as u64, horizontal_scale: max_u(dx, dy) as u64 }
}

proof fn lemma_boxes_wf(clouds: Seq<PointCloud>)
    ensures
        forall|i: int| 0 <= i < boxes_of(clouds).len() ==> wf_box(#[trigger] boxes_of(clouds)[i]),
    decreases clouds.len(),
{
    if clouds.len() > 0 {
        lemma_boxes_wf(clouds.drop_last());
        if clouds.last().points().len() > 0 {
            crate::geometry::lemma_bounds_wf(clouds.last().points());
            let prev = boxes_of(clouds.drop_last());
            let b = bounds_of(clouds.last().points());
            assert(boxes_of(clouds) == prev.push(b));
            assert forall|i: int| 0 <= i < prev.push(b).len() implies wf_box(#[trigger] prev.push(b)[i]) by {
                if i < prev.len() {
                    assert(prev.push(b)[i] == prev[i]);
                }
            }
        } else {
            assert(boxes_of(clouds) == boxes_of(clouds.drop_last()));
        }
    }
}

impl SpatialReference {
    /// An empty frame: no origin yet, focus at zero.
    pub fn new() -> (r: Self)
        ensures
            r.origin is None,
            r.focus == (Vec3 { x: 0, y: 0, z: 0 }),
    {
        SpatialReference { origin: None, focus: Vec3 { x: 0, y: 0, z: 0 } }
    }

    /// Fixes the origin at the center of `pc` if no origin is set yet.
    pub fn establish(&mut self, pc: &PointCloud)
        ensures
            *final(self) == establish_spec(*old(self), *pc),
    {
        if self.origin.is_none() {
            if let Some(b) = pc.aabb() {
                let c = b.center();
                self.origin = Some(c);
                self.focus = Vec3 { x: c.x as i64, y: c.y as i64, z: c.z as i64 };
            }
        }
    }

    /// Moves the origin and focus to the center of all held data. Returns the
    /// framing values, or `None` with nothing changed when no point is held.
    pub fn reset(&mut self, store: &PointCloudStore) -> (r: Option<FramingHint>)
        requires
            store.wf(),
        ensures
            boxes_of(store.clouds()).len() == 0 ==> r is None && *final(self) == *old(self),
            boxes_of(store.clouds()).len() > 0 ==> ({
                let u = union_of(boxes_of(store.clouds()));
                &&& r == Some(hint_spec(u))
                &&& final(self).origin == Some(center_spec(u))
                &&& final(self).focus == point_vec(center_spec(u))
            }),
    {
        let mut acc: Option<Aabb> = None;
        let n = store.len();
        let mut i: usize = 0;
        while i < n
            invariant
                store.wf(),
                n == store.clouds().len(),
                i <= n,
                boxes_of(store.clouds().take(i as int)).len() == 0 ==> acc is None,
                boxes_of(store.clouds().take(i as int)).len() > 0 ==> acc == Some(union_of(boxes_of(store.clouds().take(i as int)))),
            decreases n - i,
        {
            let pc = store.cloud_at(i);
            assert(store.clouds().take(i as int + 1).drop_last() =~= store.clouds().take(i as int));
            if let Some(b) = pc.aabb() {
                let ghost prev = boxes_of(store.clouds().take(i as int));
                acc = match acc {
                    Some(a) => Some(a.merge(&b)),
                    None => Some(b),
                };
                assert(prev.push(b).drop_last() =~= prev);
            }
            i = i + 1;
        }
        assert(store.clouds().take(n as int) =~= store.clouds());
        match acc {
            None => None,
            Some(u) => {
                proof {
                    lemma_boxes_wf(store.clouds());
                    lemma_union_wf(boxes_of(store.clouds()));
                }
                let c = u.center();
                self.origin = Some(c);
                self.focus = Vec3 { x: c.x as i64, y: c.y as i64, z: c.z as i64 };
                let (dx, dy, dz) = u.extents();
                Some(FramingHint {
                    depth_scale: if dy >= dz { dy } else { dz },
                    horizontal_scale: if dx >= dy { dx } else { dy },
                })
            },
        }
    }

    /// Sets the focus from the camera's render-space offset from the origin.
    /// Without an origin nothing changes.
    pub fn track_camera(&mut self, offset: Point3)
        ensures
            old(self).origin matches Some(o) ==> *final(self) == (SpatialReference {
                origin: old(self).origin,
                focus: source_position(o, offset),
            }),
            old(self).origin is None ==> *final(self) == *old(self),
    {
        if let Some(o) = self.origin {
            self.focus = from_render(o, offset);
        }
    }
}

/// Once set, the origin stays through later loads.
pub proof fn lemma_origin_sticky(sr: SpatialReference, first: PointCloud, second: PointCloud)
    requires
        sr.origin is None,
        first.points().len() > 0,
    ensures
        establish_spec(sr, first).origin == Some(center_spec(bounds_of(first.points()))),
        establish_spec(establish_spec(sr, first), second) == establish_spec(sr, first),
{
}

} // verus!
