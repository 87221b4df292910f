use vstd::prelude::*;
use crate::cloud::PointCloud;
use crate::color::{
    ColorWarning, GRADIENT_STEPS, Rgba8, color_table, map_colors, strategy_color, strategy_column,
    strategy_spec, turbo_samples, warning_matches,
};
use crate::geometry::bounds_of;
use crate::instances::{RenderInstance, generate, half_extent_spec, instance_spec, instances_spec, origin_of};
use crate::spatial::{SpatialReference, establish_spec};
use crate::store::PointCloudStore;

verus! {

/// What one refresh hands to the renderer.
#[derive(Debug)]
pub struct Frame {
    pub instances: Vec<RenderInstance>,
    pub warning: Option<ColorWarning>,
}

/// Colours of `pc` for attribute `name` with the turbo gradient.
pub open spec fn frame_colors(pc: PointCloud, name: Seq<char>) -> Seq<u32> {
    color_table(pc, strategy_spec(pc.schema@, name), turbo_samples(GRADIENT_STEPS as nat))
}

/// Rebuilds the render boxes of `collection` after the store changed: fixes
/// the origin on the first load, colours the points by `attribute`, and
/// emits one box per point. `None` when the collection is not held.
pub fn refresh(
    store: &PointCloudStore,
    sr: &mut SpatialReference,
    collection: &String,
    attribute: &String,
) -> (r: Option<Frame>)
    requires
        store.wf(),
    ensures
        !store@.contains_key(collection@) ==> r is None && *final(sr) == *old(sr),
        store@.contains_key(collection@) ==> {
            let pc = store@[collection@];
            &&& *final(sr) == establish_spec(*old(sr), pc)
            &&& r matches Some(f) && f.instances@ == instances_spec(pc, *final(sr), frame_colors(pc, attribute@))
                && warning_matches(strategy_spec(pc.schema@, attribute@), attribute@, f.warning)
        },
{
    match store.get(collection) {
        None => None,
        Some(pc) => {
            sr.establish(pc);
            let mapping = map_colors(pc, attribute);
            proof { lemma_colors_len(*pc, strategy_spec(pc.schema@, attribute@), turbo_samples(GRADIENT_STEPS as nat)); }
            let instances = generate(pc, sr, &mapping.colors);
            Some(Frame { instances, warning: mapping.warning })
        },
    }
}

proof fn lemma_colors_len(pc: PointCloud, s: crate::color::ColorStrategy, palette: Seq<Rgba8>)
    ensures
        color_table(pc, s, palette).len() == pc.points().len(),
{
}

/// Colour mapping and box generation depend on their inputs alone: two
/// results for the same cloud, attribute and frame are equal.
pub proof fn lemma_refresh_deterministic(
    pc: PointCloud,
    sr: SpatialReference,
    name: Seq<char>,
    colors1: Seq<u32>,
    colors2: Seq<u32>,
    boxes1: Seq<RenderInstance>,
    boxes2: Seq<RenderInstance>,
)
    requires
        colors1 == frame_colors(pc, name),
        colors2 == frame_colors(pc, name),
        boxes1 == instances_spec(pc, sr, colors1),
        boxes2 == instances_spec(pc, sr, colors2),
    ensures
        colors1 == colors2,
        boxes1 == boxes2,
{
}

/// Box `i` and colour `i` come from the same point: box `i` is built from
/// point `i` and carries colour `i`, and colour `i` is computed from point
/// `i`'s attribute value.
pub proof fn lemma_index_alignment(pc: PointCloud, sr: SpatialReference, palette: Seq<Rgba8>, name: Seq<char>, i: int)
    requires
        0 <= i < pc.points().len(),
    ensures
        ({
            let s = strategy_spec(pc.schema@, name);
            let colors = color_table(pc, s, palette);
            let h = half_extent_spec(bounds_of(pc.points()), pc.points().len() as int);
            &&& instances_spec(pc, sr, colors)[i] == instance_spec(pc.points()[i], origin_of(sr), h, colors[i])
            &&& instances_spec(pc, sr, colors)[i].color == colors[i]
            &&& strategy_column(s) matches Some(c) ==> colors[i] == strategy_color(
                s,
                pc.column(c)[i],
                bounds_of(pc.points()).lower.z as int,
                bounds_of(pc.points()).upper.z as int,
                palette,
            )
        }),
{
}

} // verus!
