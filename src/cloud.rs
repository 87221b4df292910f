use vstd::prelude::*;
use crate::geometry::{Aabb, Point3, bounds_of, bounds_of_points, wf_box};

verus! {

/// Primitive type of a column.
#[derive(Clone, Copy, Debug, PartialEq, Eq, Structural)]
pub enum ColumnKind {
    /// A floating-point column, held in the fixed-point unit of the coordinates.
    Float,
    UInt8,
    UInt16,
    /// Any other primitive type; its values are carried but never read.
    Other,
}

/// Name and type of one column.
#[derive(Clone, Debug)]
pub struct ColumnSpec {
    pub name: String,
    pub kind: ColumnKind,
}

/// One contiguous block of points: positions and attribute columns, index-aligned.
#[derive(Clone, Debug)]
pub struct PointBatch {
    pub positions: Vec<Point3>,
    /// Values of each column, in schema order.
    pub columns: Vec<Vec<i64>>,
}

/// An ordered set of batches sharing one schema.
#[derive(Clone, Debug)]
pub struct PointCloud {
    pub schema: Vec<ColumnSpec>,
    pub batches: Vec<PointBatch>,
}

pub open spec fn value_fits(kind: ColumnKind, v: i64) -> bool {
    match kind {
        ColumnKind::Float => i32::MIN <= v <= i32::MAX,
        ColumnKind::UInt8 => 0 <= v <= 255,
        ColumnKind::UInt16 => 0 <= v <= 65535,
        ColumnKind::Other => true,
    }
}

pub open spec fn batch_wf(schema: Seq<ColumnSpec>, b: PointBatch) -> bool {
    &&& b.columns@.len() == schema.len()
    &&& forall|c: int| 0 <= c < schema.len() ==> (#[trigger] b.columns@[c])@.len() == b.positions@.len()
    &&& forall|c: int, j: int|
        0 <= c < schema.len() && 0 <= j < b.positions@.len() ==> value_fits(
            schema[c].kind,
            #[trigger] b.columns@[c]@[j],
        )
}

/// The positions of each batch.
pub open spec fn batch_positions(batches: Seq<PointBatch>) -> Seq<Seq<Point3>> {
    Seq::new(batches.len(), |b: int| batches[b].positions@)
}

/// The values of column `c` in each batch.
pub open spec fn batch_columns(batches: Seq<PointBatch>, c: int) -> Seq<Seq<i64>> {
    Seq::new(batches.len(), |b: int| batches[b].columns@[c]@)
}

impl PointCloud {
    pub open spec fn wf(&self) -> bool {
        forall|b: int| 0 <= b < self.batches@.len() ==> batch_wf(self.schema@, #[trigger] self.batches@[b])
    }

    /// All points, batch after batch, in iteration order.
    pub open spec fn points(&self) -> Seq<Point3> {
        batch_positions(self.batches@).flatten_alt()
    }

    /// All values of column `c`, in the same order as `points`.
    pub open spec fn column(&self, c: int) -> Seq<i64> {
        batch_columns(self.batches@, c).flatten_alt()
    }
}

/// Flattening sequences of equal lengths gives sequences of equal length.
pub proof fn lemma_flat_len<A, B>(s: Seq<Seq<A>>, t: Seq<Seq<B>>)
    requires
        s.len() == t.len(),
        forall|i: int| 0 <= i < s.len() ==> (#[trigger] s[i]).len() == t[i].len(),
    ensures
        s.flatten_alt().len() == t.flatten_alt().len(),
    decreases s.len(),
{
    if s.len() > 0 {
        lemma_flat_len(s.drop_last(), t.drop_last());
    }
}

/// A column's values line up with the points.
pub proof fn lemma_column_len(pc: &PointCloud, c: int)
    requires
        pc.wf(),
        0 <= c < pc.schema@.len(),
    ensures
        pc.column(c).len() == pc.points().len(),
{
    let s = batch_columns(pc.batches@, c);
    let t = batch_positions(pc.batches@);
    assert forall|i: int| 0 <= i < s.len() implies (#[trigger] s[i]).len() == t[i].len() by {
        assert(batch_wf(pc.schema@, pc.batches@[i]));
    }
    lemma_flat_len(s, t);
}

pub proof fn lemma_flatten_push<A>(s: Seq<Seq<A>>, n: int)
    requires
        0 <= n < s.len(),
    ensures
        s.take(n + 1).flatten_alt() == s.take(n).flatten_alt() + s[n],
{
    assert(s.take(n + 1).drop_last() =~= s.take(n));
}

impl PointCloud {
    /// Number of points over all batches.
    pub fn num_points(&self) -> (r: usize)
        requires
            self.points().len() <= usize::MAX,
        ensures
            r == self.points().len(),
    {
        let mut n: usize = 0;
        let mut b: usize = 0;
        while b < self.batches.len()
            invariant
                b <= self.batches@.len(),
                n == batch_positions(self.batches@).take(b as int).flatten_alt().len(),
                self.points().len() <= usize::MAX,
            decreases self.batches@.len() - b,
        {
            proof {
                lemma_flatten_push(batch_positions(self.batches@), b as int);
                lemma_prefix_len_le(batch_positions(self.batches@), b as int + 1);
            }
            n = n + self.batches[b].positions.len();
            b = b + 1;
        }
        assert(batch_positions(self.batches@).take(b as int) =~= batch_positions(self.batches@));
        n
    }

    /// All points, batch after batch.
    pub fn collect_points(&self) -> (r: Vec<Point3>)
        ensures
            r@ == self.points(),
    {
        let mut out: Vec<Point3> = Vec::new();
        let mut b: usize = 0;
        while b < self.batches.len()
            invariant
                b <= self.batches@.len(),
                out@ == batch_positions(self.batches@).take(b as int).flatten_alt(),
            decreases self.batches@.len() - b,
        {
            let batch = &self.batches[b];
            let ghost before = out@;
            let mut j: usize = 0;
            while j < batch.positions.len()
                invariant
                    j <= batch.positions@.len(),
                    out@ == before + batch.positions@.take(j as int),
                decreases batch.positions@.len() - j,
            {
                out.push(batch.positions[j]);
                j = j + 1;
                assert(out@ =~= before + batch.positions@.take(j as int));
            }
            proof {
                lemma_flatten_push(batch_positions(self.batches@), b as int);
                assert(batch.positions@.take(j as int) =~= batch.positions@);
            }
            b = b + 1;
        }
        assert(batch_positions(self.batches@).take(b as int) =~= batch_positions(self.batches@));
        out
    }

    /// All values of column `c`, batch after batch.
    pub fn collect_column(&self, c: usize) -> (r: Vec<i64>)
        requires
            self.wf(),
            c < self.schema@.len(),
        ensures
            r@ == self.column(c as int),
    {
        let mut out: Vec<i64> = Vec::new();
        let mut b: usize = 0;
        while b < self.batches.len()
            invariant
                self.wf(),
                c < self.schema@.len(),
                b <= self.batches@.len(),
                out@ == batch_columns(self.batches@, c as int).take(b as int).flatten_alt(),
            decreases self.batches@.len() - b,
        {
            let batch = &self.batches[b];
            assert(batch_wf(self.schema@, self.batches@[b as int]));
            let col = &batch.columns[c];
            let ghost before = out@;
            let mut j: usize = 0;
            while j < col.len()
                invariant
                    j <= col@.len(),
                    out@ == before + col@.take(j as int),
                decreases col@.len() - j,
            {
                out.push(col[j]);
                j = j + 1;
                assert(out@ =~= before + col@.take(j as int));
            }
            proof {
                lemma_flatten_push(batch_columns(self.batches@, c as int), b as int);
                assert(col@.take(j as int) =~= col@);
            }
            b = b + 1;
        }
        assert(batch_columns(self.batches@, c as int).take(b as int) =~= batch_columns(self.batches@, c as int));
        out
    }

    /// Bounding box of all points; `None` when the cloud holds no point.
    pub fn aabb(&self) -> (r: Option<Aabb>)
        ensures
            self.points().len() == 0 <==> r is None,
            r matches Some(a) ==> a == bounds_of(self.points()) && wf_box(a),
    {
        let pts = self.collect_points();
        if pts.len() == 0 {
            None
        } else {
            Some(bounds_of_points(&pts))
        }
    }
}

proof fn lemma_prefix_len_le<A>(s: Seq<Seq<A>>, n: int)
    requires
        0 <= n <= s.len(),
    ensures
        s.take(n).flatten_alt().len() <= s.flatten_alt().len(),
    decreases s.len() - n,
{
    if n < s.len() {
        lemma_prefix_len_le(s, n + 1);
        lemma_flatten_push(s, n);
    } else {
        assert(s.take(n) =~= s);
    }
}

} // verus!
