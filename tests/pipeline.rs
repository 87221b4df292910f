use crux_viewer::cloud::{ColumnKind, ColumnSpec, PointBatch, PointCloud};
use crux_viewer::color::{map_colors, map_colors_with, elevation_sample, ColorStrategy, ColorWarning};
use crux_viewer::geometry::{from_render, to_render, bounds_of_points, Aabb, Point3, Vec3};
use crux_viewer::instances::{generate, half_extent, icbrt};
use crux_viewer::loading::{Completion, LoadError, LoadTaskManager};
use crux_viewer::pipeline::refresh;
use crux_viewer::spatial::{FramingHint, SpatialReference};
use crux_viewer::store::PointCloudStore;

const ORANGE: u32 = 0xFF00_A5FF;

fn p(x: i32, y: i32, z: i32) -> Point3 {
    Point3 { x, y, z }
}

fn pack(c: [u8; 4]) -> u32 {
    u32::from_le_bytes(c)
}

fn turbo(t: f64) -> u32 {
    pack(colorgrad::turbo().at(t).to_rgba8())
}

fn cloud(cols: Vec<(&str, ColumnKind)>, batches: Vec<(Vec<Point3>, Vec<Vec<i64>>)>) -> PointCloud {
    PointCloud {
        schema: cols
            .into_iter()
            .map(|(n, k)| ColumnSpec { name: n.to_string(), kind: k })
            .collect(),
        batches: batches
            .into_iter()
            .map(|(positions, columns)| PointBatch { positions, columns })
            .collect(),
    }
}

fn z_cloud(zs: &[i32]) -> PointCloud {
    let pts: Vec<Point3> = zs.iter().enumerate().map(|(i, z)| p(i as i32, 0, *z)).collect();
    let col: Vec<i64> = zs.iter().map(|z| *z as i64).collect();
    cloud(vec![("z", ColumnKind::Float)], vec![(pts, vec![col])])
}

#[test]
fn elevation_ends_take_gradient_ends() {
    let pc = z_cloud(&[0, 10]);
    let m = map_colors(&pc, &"z".to_string());
    assert_eq!(m.colors, vec![turbo(0.0), turbo(1.0)]);
    assert_eq!(m.warning, None);
    assert_ne!(turbo(0.0), turbo(1.0));
}

#[test]
fn elevation_degenerate_range_gives_midpoint() {
    let pc = z_cloud(&[5, 5, 5]);
    let m = map_colors(&pc, &"z".to_string());
    assert_eq!(m.colors, vec![turbo(0.5); 3]);
    assert_eq!(m.warning, None);
}

#[test]
fn elevation_middle_value() {
    let pc = z_cloud(&[0, 5, 10]);
    let m = map_colors(&pc, &"z".to_string());
    assert_eq!(m.colors[1], turbo(0.5));
    assert_eq!(elevation_sample(5, 0, 10), 128);
    assert_eq!(elevation_sample(1, 0, 10), 26);
    assert_eq!(elevation_sample(-3, 0, 10), 0);
    assert_eq!(elevation_sample(30, 0, 10), 256);
    assert_eq!(elevation_sample(7, 4, 4), 128);
}

#[test]
fn missing_attribute_falls_back_with_one_warning() {
    let pc = z_cloud(&[1, 2, 3, 4]);
    let m = map_colors(&pc, &"rgb".to_string());
    assert_eq!(m.colors, vec![ORANGE; 4]);
    assert_eq!(m.warning, Some(ColorWarning::AttributeMissing("rgb".to_string())));
}

#[test]
fn unsupported_attribute_falls_back_with_one_warning() {
    let pc = cloud(
        vec![("return_number", ColumnKind::UInt8)],
        vec![(vec![p(0, 0, 0), p(1, 1, 1)], vec![vec![1, 2]])],
    );
    let m = map_colors(&pc, &"return_number".to_string());
    assert_eq!(m.colors, vec![ORANGE; 2]);
    assert_eq!(
        m.warning,
        Some(ColorWarning::AttributeUnsupported("return_number".to_string()))
    );
}

#[test]
fn classification_of_wrong_type_is_unsupported() {
    let pc = cloud(
        vec![("classification", ColumnKind::UInt16)],
        vec![(vec![p(0, 0, 0)], vec![vec![2]])],
    );
    assert_eq!(ColorStrategy::resolve(&pc.schema, &"classification".to_string()), ColorStrategy::Unsupported);
    let m = map_colors(&pc, &"classification".to_string());
    assert_eq!(m.colors, vec![ORANGE]);
}

#[test]
fn classification_palette() {
    let pc = cloud(
        vec![("x", ColumnKind::Float), ("classification", ColumnKind::UInt8)],
        vec![(
            vec![p(0, 0, 0), p(1, 0, 0), p(2, 0, 0), p(3, 0, 0)],
            vec![vec![0, 1, 2, 3], vec![0, 2, 9, 7]],
        )],
    );
    assert_eq!(
        ColorStrategy::resolve(&pc.schema, &"classification".to_string()),
        ColorStrategy::Classification(1)
    );
    let m = map_colors(&pc, &"classification".to_string());
    assert_eq!(
        m.colors,
        vec![
            pack([127, 127, 127, 255]),
            pack([127, 127, 0, 255]),
            pack([0, 0, 255, 255]),
            ORANGE
        ]
    );
}

#[test]
fn intensity_grey_levels() {
    let pc = cloud(
        vec![("intensity", ColumnKind::UInt16)],
        vec![(vec![p(0, 0, 0), p(1, 0, 0), p(2, 0, 0), p(3, 0, 0)], vec![vec![0, 100, 255, 1000]])],
    );
    let palette = vec![(0u8, 0u8, 0u8, 0u8); 257];
    let m = map_colors_with(&pc, &"intensity".to_string(), &palette);
    assert_eq!(
        m.colors,
        vec![
            pack([0, 0, 0, 255]),
            pack([100, 100, 100, 255]),
            pack([255, 255, 255, 255]),
            pack([255, 255, 255, 255])
        ]
    );
}

#[test]
fn palette_argument_is_sampled() {
    let pc = z_cloud(&[0, 10]);
    let palette: Vec<(u8, u8, u8, u8)> = (0..257).map(|i| (i as u8, 0, 0, 255)).collect();
    let m = map_colors_with(&pc, &"z".to_string(), &palette);
    assert_eq!(m.colors, vec![pack([0, 0, 0, 255]), pack([0, 0, 0, 255])]);
    let pc = z_cloud(&[0, 4, 10]);
    let m = map_colors_with(&pc, &"z".to_string(), &palette);
    assert_eq!(m.colors[1], pack([102, 0, 0, 255]));
}

#[test]
fn boxes_align_with_colours_across_batches() {
    let pc = cloud(
        vec![("classification", ColumnKind::UInt8)],
        vec![
            (vec![p(0, 0, 0), p(10, 0, 0)], vec![vec![0, 9]]),
            (vec![p(0, 10, 10)], vec![vec![4]]),
        ],
    );
    let mut store = PointCloudStore::new();
    store.install("default".to_string(), pc);
    let mut sr = SpatialReference::new();
    let f = refresh(&store, &mut sr, &"default".to_string(), &"classification".to_string()).unwrap();
    assert_eq!(sr.origin, Some(p(5, 5, 5)));
    assert_eq!(f.instances.len(), 3);
    // volume 1000 over 3 points: cube root of 333 is 6, a tenth of it rounds to 0
    let expected = [
        (Vec3 { x: -5, y: -5, z: 5 }, pack([127, 127, 127, 255])),
        (Vec3 { x: 5, y: -5, z: 5 }, pack([0, 0, 255, 255])),
        (Vec3 { x: -5, y: 5, z: -5 }, pack([0, 255, 0, 255])),
    ];
    for (inst, (pos, color)) in f.instances.iter().zip(expected.iter()) {
        assert_eq!(inst.min, *pos);
        assert_eq!(inst.max, *pos);
        assert_eq!(inst.color, *color);
        assert_eq!(inst.depth_bias, 0);
    }
}

#[test]
fn generate_uses_half_extent() {
    let pc = z_cloud(&[0, 1000]);
    // box 1 x 0 x 1000 has no volume
    let sr = SpatialReference { origin: Some(p(0, 0, 0)), focus: Vec3 { x: 0, y: 0, z: 0 } };
    let out = generate(&pc, &sr, &vec![1, 2]);
    assert_eq!(out[1].min, Vec3 { x: 1, y: 1000, z: 0 });
    let pts = vec![p(0, 0, 0), p(1000, 1000, 1000)];
    let b = bounds_of_points(&pts);
    assert_eq!(half_extent(&b, 1), 100);
    assert_eq!(half_extent(&b, 8), 50);
    let pc = cloud(vec![], vec![(pts, vec![])]);
    let out = generate(&pc, &sr, &vec![7, 8]);
    // cube root of 500000000 is 793
    assert_eq!(out[0].min, Vec3 { x: -79, y: -79, z: -79 });
    assert_eq!(out[1].max, Vec3 { x: 1079, y: 1079, z: -921 });
    assert_eq!(out[1].color, 8);
}

#[test]
fn cube_roots() {
    assert_eq!(icbrt(0), 0);
    assert_eq!(icbrt(26), 2);
    assert_eq!(icbrt(27), 3);
    assert_eq!(icbrt(1_000_000), 100);
    assert_eq!(icbrt((1u128 << 96) - 1), (1u64 << 32) - 1);
}

#[test]
fn refresh_twice_gives_same_frame() {
    let mut store = PointCloudStore::new();
    store.install("default".to_string(), z_cloud(&[3, -8, 12, 40]));
    let mut sr = SpatialReference::new();
    let a = refresh(&store, &mut sr, &"default".to_string(), &"z".to_string()).unwrap();
    let b = refresh(&store, &mut sr, &"default".to_string(), &"z".to_string()).unwrap();
    assert_eq!(a.instances, b.instances);
    assert_eq!(a.warning, b.warning);
}

#[test]
fn refresh_without_collection_changes_nothing() {
    let store = PointCloudStore::new();
    let mut sr = SpatialReference::new();
    assert!(refresh(&store, &mut sr, &"default".to_string(), &"z".to_string()).is_none());
    assert_eq!(sr, SpatialReference::new());
}

#[test]
fn origin_sticks_until_reset() {
    let mut store = PointCloudStore::new();
    let mut sr = SpatialReference::new();
    let name = "default".to_string();
    store.install(name.clone(), cloud(vec![], vec![(vec![p(0, 0, 0), p(10, 20, 30)], vec![])]));
    refresh(&store, &mut sr, &name, &"z".to_string());
    assert_eq!(sr.origin, Some(p(5, 10, 15)));
    store.install(name.clone(), cloud(vec![], vec![(vec![p(100, 100, 100), p(300, 300, 300)], vec![])]));
    refresh(&store, &mut sr, &name, &"z".to_string());
    assert_eq!(sr.origin, Some(p(5, 10, 15)));
    let hint = sr.reset(&store);
    assert_eq!(sr.origin, Some(p(200, 200, 200)));
    assert_eq!(sr.focus, Vec3 { x: 200, y: 200, z: 200 });
    assert_eq!(hint, Some(FramingHint { depth_scale: 200, horizontal_scale: 200 }));
}

#[test]
fn reset_merges_all_collections() {
    let mut store = PointCloudStore::new();
    store.install("a".to_string(), cloud(vec![], vec![(vec![p(0, 0, 0), p(10, 2, 4)], vec![])]));
    store.install("b".to_string(), cloud(vec![], vec![(vec![p(-10, 40, 1)], vec![])]));
    store.install("c".to_string(), cloud(vec![], vec![]));
    let mut sr = SpatialReference::new();
    let hint = sr.reset(&store).unwrap();
    assert_eq!(sr.origin, Some(p(0, 20, 2)));
    assert_eq!(hint, FramingHint { depth_scale: 40, horizontal_scale: 40 });
}

#[test]
fn reset_without_points_changes_nothing() {
    let mut store = PointCloudStore::new();
    store.install("c".to_string(), cloud(vec![], vec![]));
    let mut sr = SpatialReference::new();
    assert_eq!(sr.reset(&store), None);
    assert_eq!(sr, SpatialReference::new());
}

#[test]
fn camera_offset_moves_focus_in_source_axes() {
    let mut sr = SpatialReference::new();
    sr.track_camera(p(1, 2, 3));
    assert_eq!(sr.focus, Vec3 { x: 0, y: 0, z: 0 });
    sr.origin = Some(p(100, 200, 300));
    sr.track_camera(p(1, 2, 3));
    assert_eq!(sr.focus, Vec3 { x: 101, y: 197, z: 302 });
}

#[test]
fn reorientation_round_trip() {
    let origin = p(-7, 13, 1_000_000);
    for q in [p(0, 0, 0), p(123, -456, 789), p(i32::MAX, i32::MIN, 5)] {
        let v = to_render(q, origin);
        if let (Ok(x), Ok(y), Ok(z)) = (i32::try_from(v.x), i32::try_from(v.y), i32::try_from(v.z)) {
            let back = from_render(origin, p(x, y, z));
            assert_eq!(back, Vec3 { x: q.x as i64, y: q.y as i64, z: q.z as i64 });
        }
    }
    assert_eq!(to_render(p(1, 2, 3), p(0, 0, 0)), Vec3 { x: 1, y: 3, z: -2 });
}

#[test]
fn failing_load_leaves_store_untouched() {
    let mut store = PointCloudStore::new();
    store.install("a".to_string(), z_cloud(&[1]));
    let mut mgr = LoadTaskManager::new();
    mgr.enqueue("http://h/points?p=0.1".to_string(), "a".to_string());
    mgr.enqueue("http://h/points".to_string(), "b".to_string());
    assert!(mgr.can_drain());
    let orders = mgr.drain_and_spawn();
    assert_eq!(orders.len(), 2);
    assert_eq!(orders[0].id, 0);
    assert_eq!(orders[1].id, 1);
    assert_eq!(orders[1].url, "http://h/points");
    assert!(mgr.drain_and_spawn().is_empty());
    let c = mgr.complete(&mut store, 0, Err(LoadError::Transport("refused".to_string())));
    assert!(matches!(c, Completion::Failed(LoadError::Transport(_))));
    let c = mgr.complete(&mut store, 1, Ok(z_cloud(&[4, 5])));
    assert!(matches!(c, Completion::Installed(ref n) if n == "b"));
    assert_eq!(store.len(), 2);
    assert_eq!(store.get(&"a".to_string()).unwrap().num_points(), 1);
    assert_eq!(store.get(&"b".to_string()).unwrap().num_points(), 2);
    assert!(matches!(mgr.complete(&mut store, 1, Ok(z_cloud(&[9]))), Completion::Unknown));
    assert_eq!(store.get(&"b".to_string()).unwrap().num_points(), 2);
}

#[test]
fn last_finished_load_wins() {
    let mut store = PointCloudStore::new();
    let mut mgr = LoadTaskManager::new();
    mgr.enqueue("u1".to_string(), "default".to_string());
    mgr.enqueue("u2".to_string(), "default".to_string());
    mgr.drain_and_spawn();
    mgr.complete(&mut store, 1, Ok(z_cloud(&[1, 2, 3])));
    mgr.complete(&mut store, 0, Ok(z_cloud(&[1])));
    assert_eq!(store.len(), 1);
    assert_eq!(store.get(&"default".to_string()).unwrap().num_points(), 1);
    let c = mgr.complete(&mut store, 0, Err(LoadError::Decode("bad".to_string())));
    assert!(matches!(c, Completion::Unknown));
}

#[test]
fn boxes_merge_and_center() {
    let a = Aabb::from_point(p(0, 5, -4));
    let b = a.merge(&Aabb::from_point(p(9, -5, 4)));
    assert_eq!(b, Aabb { lower: p(0, -5, -4), upper: p(9, 5, 4) });
    assert_eq!(b.center(), p(4, 0, 0));
    assert_eq!(b.extents(), (9, 10, 8));
    assert_eq!(b.volume(), 720);
    let wide = Aabb { lower: p(i32::MIN, i32::MIN, -3), upper: p(i32::MAX, i32::MAX, -3) };
    assert_eq!(wide.center(), p(-1, -1, -3));
}
