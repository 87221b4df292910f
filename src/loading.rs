use vstd::prelude::*;
use crate::cloud::PointCloud;
use crate::store::PointCloudStore;

verus! {

/// Why a load unit failed.
#[derive(Clone, Debug, PartialEq, Eq)]
pub enum LoadError {
    /// The request failed or the server answered with an error.
    Transport(String),
    /// The body is not a well-formed point-cloud stream.
    Decode(String),
}

/// A URL to fetch and the collection its result goes to.
#[derive(Clone, Debug)]
pub struct LoadRequest {
    pub url: String,
    pub collection: String,
}

/// A unit of work to start in the background.
#[derive(Clone, Debug)]
pub struct SpawnOrder {
    pub id: u64,
    pub url: String,
}

/// What a finished unit did to the store.
#[derive(Debug)]
pub enum Completion {
    /// The cloud was installed under this collection.
    Installed(String),
    /// The load failed; the store is unchanged.
    Failed(LoadError),
    /// No unit in flight has this id.
    Unknown,
}

/// Pending requests and units in flight, each with the collection it fills.
#[derive(Debug)]
pub struct LoadTaskManager {
    pending: Vec<LoadRequest>,
    in_flight: Vec<(u64, String)>,
    next_id: u64,
}

/// The store after a unit finishes: a success replaces the collection, a
/// failure leaves everything as it was.
pub open spec fn apply_outcome(
    m: Map<Seq<char>, PointCloud>,
    collection: Seq<char>,
    outcome: Result<PointCloud, LoadError>,
) -> Map<Seq<char>, PointCloud> {
    match outcome {
        Ok(pc) => m.insert(collection, pc),
        Err(_) => m,
    }
}

impl LoadTaskManager {
    pub closed spec fn pending(&self) -> Seq<LoadRequest> {
        self.pending@
    }

    /// Ids of the units in flight, with their collections.
    pub closed spec fn in_flight(&self) -> Seq<(u64, Seq<char>)> {
        Seq::new(self.in_flight@.len(), |i: int| (self.in_flight@[i].0, self.in_flight@[i].1@))
    }

    pub closed spec fn next_id(&self) -> u64 {
        self.next_id
    }

    pub fn new() -> (r: Self)
        ensures
            r.pending().len() == 0,
            r.in_flight().len() == 0,
            r.next_id() == 0,
    {
        LoadTaskManager { pending: Vec::new(), in_flight: Vec::new(), next_id: 0 }
    }

    /// Queues a request; nothing starts until the next drain.
    pub fn enqueue(&mut self, url: String, collection: String)
        ensures
            final(self).pending() == old(self).pending().push(LoadRequest { url, collection }),
            final(self).in_flight() == old(self).in_flight(),
            final(self).next_id() == old(self).next_id(),
    {
        self.pending.push(LoadRequest { url, collection });
    }

    /// Whether the pending requests all fit in the remaining id space.
    pub fn can_drain(&self) -> (r: bool)
        ensures
            r == (self.next_id() + self.pending().len() <= u64::MAX),
    {
        self.pending.len() as u64 <= u64::MAX - self.next_id
    }

    /// Takes every pending request, in order, as a unit to start; each gets a
    /// fresh id and is then in flight.
    pub fn drain_and_spawn(&mut self) -> (r: Vec<SpawnOrder>)
        requires
            old(self).next_id() + old(self).pending().len() <= u64::MAX,
        ensures
            r@.len() == old(self).pending().len(),
            forall|i: int| 0 <= i < r@.len() ==> (#[trigger] r@[i]).id == old(self).next_id() + i
                && r@[i].url@ == old(self).pending()[i].url@,
            final(self).pending().len() == 0,
            final(self).in_flight() == old(self).in_flight() + Seq::new(
                old(self).pending().len(),
                |i: int| ((old(self).next_id() + i) as u64, old(self).pending()[i].collection@),
            ),
            final(self).next_id() == old(self).next_id() + old(self).pending().len(),
    {
        let ghost start = self.next_id;
        let ghost flight0 = self.in_flight();
        let ghost pend = self.pending@;
        let mut orders: Vec<SpawnOrder> = Vec::new();
        let mut i: usize = 0;
        while i < self.pending.len()
            invariant
                self.pending@ == pend,
                i <= pend.len(),
                start + pend.len() <= u64::MAX,
                self.next_id == start + i,
                orders@.len() == i,
                forall|k: int| 0 <= k < i ==> (#[trigger] orders@[k]).id == start + k && orders@[k].url@ == pend[k].url@,
                self.in_flight() == flight0 + Seq::new(i as nat, |k: int| ((start + k) as u64, pend[k].collection@)),
            decreases pend.len() - i,
        {
            let req = &self.pending[i];
            orders.push(SpawnOrder { id: self.next_id, url: req.url.clone() });
            let c = req.collection.clone();
            let ghost fl = self.in_flight@;
            let ghost prev = self.in_flight();
            let ghost cv = c@;
            assert(cv == pend[i as int].collection@);
            self.in_flight.push((self.next_id, c));
            assert(self.in_flight@.drop_last() == fl);
            assert(self.in_flight@.last().1@ == cv);
            assert(self.in_flight@.last().0 == start + i);
            assert(self.in_flight() =~= prev.push(((start + i) as u64, cv)));
            self.next_id = self.next_id + 1;
            i = i + 1;
            assert(self.in_flight() =~= flight0 + Seq::new(i as nat, |k: int| ((start + k) as u64, pend[k].collection@)));
        }
        self.pending.clear();
        orders
    }

    fn find_unit(&self, id: u64) -> (r: Option<usize>)
        ensures
            r matches Some(k) ==> k < self.in_flight@.len() && self.in_flight@[k as int].0 == id
                && forall|j: int| 0 <= j < k ==> (#[trigger] self.in_flight@[j]).0 != id,
            r is None ==> forall|j: int| 0 <= j < self.in_flight@.len() ==> (#[trigger] self.in_flight@[j]).0 != id,
    {
        let mut k: usize = 0;
        while k < self.in_flight.len()
            invariant
                k <= self.in_flight@.len(),
                forall|j: int| 0 <= j < k ==> (#[trigger] self.in_flight@[j]).0 != id,
            decreases self.in_flight@.len() - k,
        {
            if self.in_flight[k].0 == id {
                return Some(k);
            }
            k = k + 1;
        }
        None
    }

    /// Records that unit `id` finished with `outcome`: it leaves the in-flight
    /// set, and on success its cloud replaces its collection in the store.
    pub fn complete(&mut self, store: &mut PointCloudStore, id: u64, outcome: Result<PointCloud, LoadError>) -> (r: Completion)
        requires
            old(store).wf(),
            outcome matches Ok(pc) ==> pc.wf(),
        ensures
            final(store).wf(),
            final(self).pending() == old(self).pending(),
            final(self).next_id() == old(self).next_id(),
            (forall|k: int| 0 <= k < old(self).in_flight().len() ==> (#[trigger] old(self).in_flight()[k]).0 != id)
                ==> r is Unknown && final(self).in_flight() == old(self).in_flight() && final(store)@ == old(store)@,
            forall|k: int| 0 <= k < old(self).in_flight().len() && (#[trigger] old(self).in_flight()[k]).0 == id
                && (forall|j: int| 0 <= j < k ==> (#[trigger] old(self).in_flight()[j]).0 != id) ==> {
                    &&& final(self).in_flight() == old(self).in_flight().remove(k)
                    &&& final(store)@ == apply_outcome(old(store)@, old(self).in_flight()[k].1, outcome)
                    &&& match outcome {
                        Ok(_) => r matches Completion::Installed(c) && c@ == old(self).in_flight()[k].1,
                        Err(e) => r == Completion::Failed(e),
                    }
                },
    {
        let k = match self.find_unit(id) {
            Some(k) => k,
            None => {
                assert forall|j: int| 0 <= j < old(self).in_flight().len() implies (#[trigger] old(self).in_flight()[j]).0 != id by {
                    assert(self.in_flight@[j].0 != id);
                }
                return Completion::Unknown;
            },
        };
        let ghost before = self.in_flight();
        assert(before[k as int].0 == id);
        let (_, collection) = self.in_flight.remove(k);
        assert(self.in_flight() =~= before.remove(k as int));
        assert(collection@ == before[k as int].1);
        proof {
            assert forall|k2: int| 0 <= k2 < before.len() && (#[trigger] before[k2]).0 == id
                && (forall|j: int| 0 <= j < k2 ==> (#[trigger] before[j]).0 != id) implies k2 == k by {
                if k2 < k {
                    assert(self.in_flight@.len() + 1 == before.len());
                    assert(old(self).in_flight@[k2].0 != id);
                } else if k2 > k {
                    assert(before[k as int].0 == id);
                }
            }
        }
        match outcome {
            Ok(pc) => {
                let c = collection.clone();
                store.install(collection, pc);
                Completion::Installed(c)
            },
            Err(e) => Completion::Failed(e),
        }
    }
}

/// A failing unit and a succeeding one, finishing in either order, leave the
/// store as the success alone would: the failure touches nothing, also not
/// its own collection.
pub proof fn lemma_load_isolation(
    m: Map<Seq<char>, PointCloud>,
    failing: Seq<char>,
    error: LoadError,
    succeeding: Seq<char>,
    pc: PointCloud,
)
    ensures
        apply_outcome(apply_outcome(m, failing, Err(error)), succeeding, Ok(pc)) == m.insert(succeeding, pc),
        apply_outcome(apply_outcome(m, succeeding, Ok(pc)), failing, Err(error)) == m.insert(succeeding, pc),
        failing != succeeding ==> apply_outcome(apply_outcome(m, failing, Err(error)), succeeding, Ok(pc)).contains_key(failing)
            == m.contains_key(failing),
        failing != succeeding && m.contains_key(failing) ==> apply_outcome(
            apply_outcome(m, failing, Err(error)),
            succeeding,
            Ok(pc),
        )[failing] == m[failing],
{
}

} // verus!
