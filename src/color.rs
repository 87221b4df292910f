use vstd::prelude::*;
use crate::cloud::{ColumnKind, ColumnSpec, PointCloud, lemma_column_len};
use crate::geometry::bounds_of;

verus! {

/// An RGBA colour with 8 bits per channel.
pub type Rgba8 = (u8, u8, u8, u8);

/// Number of evenly spaced samples taken from the gradient.
pub const GRADIENT_STEPS: usize = 257;

/// Index of the sample at the middle of the gradient.
pub const GRADIENT_MID: usize = 128;

/// What `colorgrad::turbo().colors(n)` returns, as 8-bit channels.
pub uninterp spec fn turbo_samples(n: nat) -> Seq<Rgba8>;

/// Relies on colorgrad's `turbo()` gradient and `Gradient::colors`: `n` colours
/// at evenly spaced positions from 0 to 1, both ends included, converted with
/// `Color::to_rgba8`.
#[verifier::external_body]
fn turbo_palette(n: usize) -> (r: Vec<Rgba8>)
    ensures
        r@ == turbo_samples(n as nat),
        r@.len() == n,
{
    colorgrad::turbo().colors(n).iter().map(|c| {
        let [r, g, b, a] = c.to_rgba8();
        (r, g, b, a)
    }).collect()
}

/// Packs channels little-endian: red in the low byte, alpha in the high byte.
pub open spec fn pack(c: Rgba8) -> u32 {
    (c.0 as int + c.1 as int * 0x100 + c.2 as int * 0x1_0000 + c.3 as int * 0x100_0000) as u32
}

pub fn pack_rgba(c: Rgba8) -> (r: u32)
    ensures
        r == pack(c),
{
    c.0 as u32 + c.1 as u32 * 0x100 + c.2 as u32 * 0x1_0000 + c.3 as u32 * 0x100_0000
}

/// Colour of points whose attribute cannot be mapped (orange).
pub open spec fn fallback_rgba() -> Rgba8 {
    (255, 165, 0, 255)
}

/// Palette of classification codes; unknown codes take the fallback colour.
pub open spec fn class_rgba(code: i64) -> Rgba8 {
    if code == 0 {
        (127, 127, 127, 255)
    } else if code == 1 {
        (244, 244, 219, 255)
    } else if code == 2 {
        (127, 127, 0, 255)
    } else if code == 3 {
        (51, 204, 51, 255)
    } else if code == 4 {
        (0, 255, 0, 255)
    } else if code == 5 {
        (0, 127, 0, 255)
    } else if code == 6 {
        (127, 0, 0, 255)
    } else if code == 9 {
        (0, 0, 255, 255)
    } else if code == 11 {
        (63, 63, 63, 255)
    } else {
        fallback_rgba()
    }
}

pub fn fallback_color() -> (r: Rgba8)
    ensures
        r == fallback_rgba(),
{
    (255, 165, 0, 255)
}

pub fn class_color(code: i64) -> (r: Rgba8)
    ensures
        r == class_rgba(code),
{
    match code {
        0 => (127, 127, 127, 255),
        1 => (244, 244, 219, 255),
        2 => (127, 127, 0, 255),
        3 => (51, 204, 51, 255),
        4 => (0, 255, 0, 255),
        5 => (0, 127, 0, 255),
        6 => (127, 0, 0, 255),
        9 => (0, 0, 255, 255),
        11 => (63, 63, 63, 255),
        _ => fallback_color(),
    }
}

/// Grey level of an intensity: the value over 255, saturating at white.
pub open spec fn intensity_rgba(v: i64) -> Rgba8 {
    let g: u8 = if v <= 0 { 0 } else if v >= 255 { 255 } else { v as u8 };
    (g, g, g, 255)
}

pub fn intensity_color(v: i64) -> (r: Rgba8)
    ensures
        r == intensity_rgba(v),
{
    let g: u8 = if v <= 0 { 0 } else if v >= 255 { 255 } else { v as u8 };
    (g, g, g, 255)
}

/// Sample index for `v` on the range `lo..=hi`: the position `(v - lo) / (hi - lo)`
/// scaled to the last sample and rounded to nearest, clamped to the ends.
/// A range of zero width gives the middle sample.
pub open spec fn elevation_index(v: int, lo: int, hi: int) -> int {
    let last = GRADIENT_STEPS - 1;
    if hi <= lo {
        GRADIENT_MID as int
    } else if v <= lo {
        0
    } else if v >= hi {
        last
    } else {
        ((v - lo) * 2 * last + (hi - lo)) / (2 * (hi - lo))
    }
}

pub fn elevation_sample(v: i64, lo: i32, hi: i32) -> (r: usize)
    ensures
        r == elevation_index(v as int, lo as int, hi as int),
        r < GRADIENT_STEPS,
{
    if hi <= lo {
        GRADIENT_MID
    } else if v <= lo as i64 {
        0
    } else if v >= hi as i64 {
        GRADIENT_STEPS - 1
    } else {
        let d: i64 = v - lo as i64;
        let w: i64 = hi as i64 - lo as i64;
        assert(0 < d < w <= 0xffff_ffff);
        let q: i64 = (d * 512 + w) / (2 * w);
        assert(q < 257) by (nonlinear_arith)
            requires 0 < d < w, q == (d * 512 + w) / (2 * w);
        assert(q >= 0) by (nonlinear_arith)
            requires 0 < d < w, q == (d * 512 + w) / (2 * w);
        q as usize
    }
}

/// How the colours of one attribute are found.
#[derive(Clone, Copy, Debug, PartialEq, Eq, Structural)]
pub enum ColorStrategy {
    /// Palette lookup of the 8-bit column at this schema index.
    Classification(usize),
    /// Grey levels of the 16-bit column at this schema index.
    Intensity(usize),
    /// Gradient over the vertical range, from the float column at this index.
    Elevation(usize),
    /// The column exists but no mapping is defined for it.
    Unsupported,
    /// No column has the name.
    Missing,
}

/// Why the fallback colour was used.
#[derive(Clone, Debug, PartialEq, Eq)]
pub enum ColorWarning {
    AttributeMissing(String),
    AttributeUnsupported(String),
}

/// Index of the first column named `name`, looking from `i` on.
pub open spec fn find_column(schema: Seq<ColumnSpec>, name: Seq<char>, i: int) -> Option<int>
    decreases schema.len() - i,
{
    if i < 0 || i >= schema.len() {
        None
    } else if schema[i].name@ == name {
        Some(i)
    } else {
        find_column(schema, name, i + 1)
    }
}

pub open spec fn strategy_spec(schema: Seq<ColumnSpec>, name: Seq<char>) -> ColorStrategy {
    match find_column(schema, name, 0) {
        None => ColorStrategy::Missing,
        Some(c) => {
            let kind = schema[c].kind;
            if name == "classification"@ && kind == ColumnKind::UInt8 {
                ColorStrategy::Classification(c as usize)
            } else if name == "intensity"@ && kind == ColumnKind::UInt16 {
                ColorStrategy::Intensity(c as usize)
            } else if name == "z"@ && kind == ColumnKind::Float {
                ColorStrategy::Elevation(c as usize)
            } else {
                ColorStrategy::Unsupported
            }
        },
    }
}

proof fn lemma_find_column_range(schema: Seq<ColumnSpec>, name: Seq<char>, i: int)
    ensures
        find_column(schema, name, i) matches Some(c) ==> i <= c < schema.len() && schema[c].name@ == name,
    decreases schema.len() - i,
{
    if 0 <= i < schema.len() && schema[i].name@ != name {
        lemma_find_column_range(schema, name, i + 1);
    }
}

fn column_named(schema: &Vec<ColumnSpec>, name: &String) -> (r: Option<usize>)
    ensures
        r is None <==> find_column(schema@, name@, 0) is None,
        r matches Some(c) ==> find_column(schema@, name@, 0) == Some(c as int) && c < schema@.len(),
{
    let mut i: usize = 0;
    while i < schema.len()
        invariant
            i <= schema@.len(),
            find_column(schema@, name@, 0) == find_column(schema@, name@, i as int),
        decreases schema@.len() - i,
    {
        if schema[i].name == *name {
            proof { lemma_find_column_range(schema@, name@, i as int); }
            return Some(i);
        }
        i = i + 1;
    }
    None
}

fn same_text(a: &String, lit: &str) -> (r: bool)
    ensures
        r == (a@ == lit@),
{
    let b = lit.to_owned();
    *a == b
}

impl ColorStrategy {
    /// Picks the strategy for `name` from the schema.
    pub fn resolve(schema: &Vec<ColumnSpec>, name: &String) -> (r: ColorStrategy)
        ensures
            r == strategy_spec(schema@, name@),
    {
        proof { lemma_find_column_range(schema@, name@, 0); }
        match column_named(schema, name) {
            None => ColorStrategy::Missing,
            Some(c) => {
                let kind = schema[c].kind;
                if same_text(name, "classification") && kind == ColumnKind::UInt8 {
                    ColorStrategy::Classification(c)
                } else if same_text(name, "intensity") && kind == ColumnKind::UInt16 {
                    ColorStrategy::Intensity(c)
                } else if same_text(name, "z") && kind == ColumnKind::Float {
                    ColorStrategy::Elevation(c)
                } else {
                    ColorStrategy::Unsupported
                }
            },
        }
    }
}

/// The column a strategy reads, if any.
pub open spec fn strategy_column(s: ColorStrategy) -> Option<int> {
    match s {
        ColorStrategy::Classification(c) => Some(c as int),
        ColorStrategy::Intensity(c) => Some(c as int),
        ColorStrategy::Elevation(c) => Some(c as int),
        _ => None,
    }
}

/// Colour of one value under a strategy, with `lo..=hi` the vertical range.
pub open spec fn strategy_color(s: ColorStrategy, v: i64, lo: int, hi: int, palette: Seq<Rgba8>) -> u32 {
    match s {
        ColorStrategy::Classification(_) => pack(class_rgba(v)),
        ColorStrategy::Intensity(_) => pack(intensity_rgba(v)),
        ColorStrategy::Elevation(_) => pack(palette[elevation_index(v as int, lo, hi)]),
        _ => pack(fallback_rgba()),
    }
}

/// One colour per point of `pc`, in point order.
pub open spec fn color_table(pc: PointCloud, s: ColorStrategy, palette: Seq<Rgba8>) -> Seq<u32> {
    let n = pc.points().len();
    let b = bounds_of(pc.points());
    match strategy_column(s) {
        Some(c) => Seq::new(n, |i: int| strategy_color(s, pc.column(c)[i], b.lower.z as int, b.upper.z as int, palette)),
        None => Seq::new(n, |i: int| pack(fallback_rgba())),
    }
}

/// The warning that goes with a strategy.
pub open spec fn warning_matches(s: ColorStrategy, name: Seq<char>, w: Option<ColorWarning>) -> bool {
    match s {
        ColorStrategy::Missing => w matches Some(ColorWarning::AttributeMissing(n)) && n@ == name,
        ColorStrategy::Unsupported => w matches Some(ColorWarning::AttributeUnsupported(n)) && n@ == name,
        _ => w is None,
    }
}

/// Colours of all points, and at most one warning for the whole cloud.
#[derive(Debug)]
pub struct ColorMapping {
    pub colors: Vec<u32>,
    pub warning: Option<ColorWarning>,
}

fn color_values(s: ColorStrategy, vals: &Vec<i64>, lo: i32, hi: i32, palette: &Vec<Rgba8>) -> (r: Vec<u32>)
    requires
        palette@.len() == GRADIENT_STEPS,
    ensures
        r@ == Seq::new(vals@.len(), |k: int| strategy_color(s, vals@[k], lo as int, hi as int, palette@)),
{
    let mut out: Vec<u32> = Vec::new();
    let mut i: usize = 0;
    while i < vals.len()
        invariant
            i <= vals@.len(),
            palette@.len() == GRADIENT_STEPS,
            out@ == Seq::new(i as nat, |k: int| strategy_color(s, vals@[k], lo as int, hi as int, palette@)),
        decreases vals@.len() - i,
    {
        let v = vals[i];
        let c = match s {
            ColorStrategy::Classification(_) => class_color(v),
            ColorStrategy::Intensity(_) => intensity_color(v),
            ColorStrategy::Elevation(_) => palette[elevation_sample(v, lo, hi)],
            _ => fallback_color(),
        };
        out.push(pack_rgba(c));
        i = i + 1;
        assert(out@ =~= Seq::new(i as nat, |k: int| strategy_color(s, vals@[k], lo as int, hi as int, palette@)));
    }
    assert(out@ =~= Seq::new(vals@.len(), |k: int| strategy_color(s, vals@[k], lo as int, hi as int, palette@)));
    out
}

fn fallback_values(n: usize) -> (r: Vec<u32>)
    ensures
        r@ == Seq::new(n as nat, |i: int| pack(fallback_rgba())),
{
    let c = pack_rgba(fallback_color());
    let mut out: Vec<u32> = Vec::new();
    let mut i: usize = 0;
    while i < n
        invariant
            i <= n,
            c == pack(fallback_rgba()),
            out@ == Seq::new(i as nat, |k: int| pack(fallback_rgba())),
        decreases n - i,
    {
        out.push(c);
        i = i + 1;
        assert(out@ =~= Seq::new(i as nat, |k: int| pack(fallback_rgba())));
    }
    out
}

/// Maps attribute `name` of `pc` to one colour per point, sampling the
/// vertical gradient from `palette`.
pub fn map_colors_with(pc: &PointCloud, name: &String, palette: &Vec<Rgba8>) -> (r: ColorMapping)
    requires
        pc.wf(),
        palette@.len() == GRADIENT_STEPS,
    ensures
        r.colors@ == color_table(*pc, strategy_spec(pc.schema@, name@), palette@),
        warning_matches(strategy_spec(pc.schema@, name@), name@, r.warning),
{
    let s = ColorStrategy::resolve(&pc.schema, name);
    proof { lemma_find_column_range(pc.schema@, name@, 0); }
    match s {
        ColorStrategy::Classification(c) | ColorStrategy::Intensity(c) | ColorStrategy::Elevation(c) => {
            let vals = pc.collect_column(c);
            proof { lemma_column_len(pc, c as int); }
            let (lo, hi) = match pc.aabb() {
                Some(a) => (a.lower.z, a.upper.z),
                None => (0i32, 0i32),
            };
            let colors = color_values(s, &vals, lo, hi, palette);
            assert(colors@ =~= color_table(*pc, s, palette@));
            ColorMapping { colors, warning: None }
        },
        ColorStrategy::Unsupported => {
            let n = pc.collect_points().len();
            ColorMapping { colors: fallback_values(n), warning: Some(ColorWarning::AttributeUnsupported(name.clone())) }
        },
        ColorStrategy::Missing => {
            let n = pc.collect_points().len();
            ColorMapping { colors: fallback_values(n), warning: Some(ColorWarning::AttributeMissing(name.clone())) }
        },
    }
}

/// Maps attribute `name` of `pc` to one colour per point, with the turbo
/// gradient for the vertical coordinate.
pub fn map_colors(pc: &PointCloud, name: &String) -> (r: ColorMapping)
    requires
        pc.wf(),
    ensures
        r.colors@ == color_table(*pc, strategy_spec(pc.schema@, name@), turbo_samples(GRADIENT_STEPS as nat)),
        warning_matches(strategy_spec(pc.schema@, name@), name@, r.warning),
{
    let palette = turbo_palette(GRADIENT_STEPS);
    map_colors_with(pc, name, &palette)
}

} // verus!
