use vstd::prelude::*;
use crate::cloud::PointCloud;

verus! {

/// Decoded point clouds by collection name; a newer load replaces an older one.
#[derive(Debug)]
pub struct PointCloudStore {
    entries: Vec<(String, PointCloud)>,
}

pub open spec fn names_unique(s: Seq<(String, PointCloud)>) -> bool {
    forall|i: int, j: int| 0 <= i < j < s.len() ==> (#[trigger] s[i]).0@ != (#[trigger] s[j]).0@
}

pub open spec fn map_of(s: Seq<(String, PointCloud)>) -> Map<Seq<char>, PointCloud>
    decreases s.len(),
{
    if s.len() == 0 {
        Map::empty()
    } else {
        map_of(s.drop_last()).insert(s.last().0@, s.last().1)
    }
}

proof fn lemma_map_of_dom(s: Seq<(String, PointCloud)>, k: Seq<char>)
    ensures
        map_of(s).contains_key(k) <==> exists|i: int| 0 <= i < s.len() && (#[trigger] s[i]).0@ == k,
    decreases s.len(),
{
    if s.len() > 0 {
        lemma_map_of_dom(s.drop_last(), k);
        if map_of(s.drop_last()).contains_key(k) {
            let i = choose|i: int| 0 <= i < s.drop_last().len() && (#[trigger] s.drop_last()[i]).0@ == k;
            assert(s[i] == s.drop_last()[i]);
        }
        if exists|i: int| 0 <= i < s.len() && (#[trigger] s[i]).0@ == k {
            let i = choose|i: int| 0 <= i < s.len() && (#[trigger] s[i]).0@ == k;
            if i < s.len() - 1 {
                assert(s.drop_last()[i] == s[i]);
            }
        }
    }
}

proof fn lemma_map_of_update(s: Seq<(String, PointCloud)>, i: int, e: (String, PointCloud))
    requires
        names_unique(s),
        0 <= i < s.len(),
        s[i].0@ == e.0@,
    ensures
        map_of(s.update(i, e)) == map_of(s).insert(e.0@, e.1),
        names_unique(s.update(i, e)),
    decreases s.len(),
{
    let t = s.update(i, e);
    if i == s.len() - 1 {
        assert(t.drop_last() =~= s.drop_last());
        assert(map_of(t) =~= map_of(s).insert(e.0@, e.1));
    } else {
        assert(t.drop_last() =~= s.drop_last().update(i, e));
        lemma_map_of_update(s.drop_last(), i, e);
        assert(s.last().0@ != e.0@);
        assert(map_of(t) =~= map_of(s).insert(e.0@, e.1));
    }
}

impl PointCloudStore {
    pub closed spec fn view(&self) -> Map<Seq<char>, PointCloud> {
        map_of(self.entries@)
    }

    /// The held clouds, in an order fixed between changes.
    pub closed spec fn clouds(&self) -> Seq<PointCloud> {
        Seq::new(self.entries@.len(), |i: int| self.entries@[i].1)
    }

    pub closed spec fn wf(&self) -> bool {
        &&& names_unique(self.entries@)
        &&& forall|i: int| 0 <= i < self.entries@.len() ==> (#[trigger] self.entries@[i]).1.wf()
    }

    pub fn new() -> (r: Self)
        ensures
            r.wf(),
            r@ == Map::<Seq<char>, PointCloud>::empty(),
    {
        PointCloudStore { entries: Vec::new() }
    }

    fn find(&self, name: &String) -> (r: Option<usize>)
        ensures
            r matches Some(i) ==> i < self.entries@.len() && self.entries@[i as int].0@ == name@,
            r is None ==> forall|i: int| 0 <= i < self.entries@.len() ==> (#[trigger] self.entries@[i]).0@ != name@,
    {
        let mut i: usize = 0;
        while i < self.entries.len()
            invariant
                i <= self.entries@.len(),
                forall|j: int| 0 <= j < i ==> (#[trigger] self.entries@[j]).0@ != name@,
            decreases self.entries@.len() - i,
        {
            if self.entries[i].0 == *name {
                return Some(i);
            }
            i = i + 1;
        }
        None
    }

    /// The cloud held under `name`.
    pub fn get(&self, name: &String) -> (r: Option<&PointCloud>)
        requires
            self.wf(),
        ensures
            r is None <==> !self@.contains_key(name@),
            r matches Some(pc) ==> *pc == self@[name@] && pc.wf(),
    {
        proof {
            lemma_map_of_dom(self.entries@, name@);
        }
        match self.find(name) {
            Some(i) => {
                proof {
                    lemma_map_of_update(self.entries@, i as int, self.entries@[i as int]);
                    assert(self.entries@.update(i as int, self.entries@[i as int]) =~= self.entries@);
                }
                Some(&self.entries[i].1)
            },
            None => None,
        }
    }

    /// Installs `pc` under `name`, replacing what was there.
    pub fn install(&mut self, name: String, pc: PointCloud)
        requires
            old(self).wf(),
            pc.wf(),
        ensures
            final(self).wf(),
            final(self)@ == old(self)@.insert(name@, pc),
    {
        match self.find(&name) {
            Some(i) => {
                proof {
                    lemma_map_of_update(self.entries@, i as int, (name, pc));
                }
                self.entries.set(i, (name, pc));
            },
            None => {
                let ghost s = self.entries@;
                self.entries.push((name, pc));
                assert(self.entries@.drop_last() =~= s);
            },
        }
    }

    /// Number of collections held.
    pub fn len(&self) -> (r: usize)
        requires
            self.wf(),
        ensures
            r == self@.len(),
            r == self.clouds().len(),
    {
        proof { lemma_map_len(self.entries@); }
        self.entries.len()
    }

    /// The cloud at position `i` in an order fixed between changes.
    pub fn cloud_at(&self, i: usize) -> (r: &PointCloud)
        requires
            self.wf(),
            i < self.clouds().len(),
        ensures
            *r == self.clouds()[i as int],
            r.wf(),
    {
        proof {
            lemma_map_len(self.entries@);
        }
        &self.entries[i].1
    }
}

impl PointCloudStore {
    /// Collection names in the order of `clouds`.
    pub closed spec fn names(&self) -> Seq<Seq<char>> {
        Seq::new(self.entries@.len(), |i: int| self.entries@[i].0@)
    }

    /// `clouds` lists exactly the values of the map: cloud `i` is held under
    /// name `i`, and every held name is among `names`.
    pub proof fn lemma_clouds_are_values(&self)
        requires
            self.wf(),
        ensures
            self.clouds().len() == self@.len(),
            self.names().len() == self.clouds().len(),
            forall|i: int| 0 <= i < self.clouds().len() ==> self@.contains_key(#[trigger] self.names()[i])
                && self@[self.names()[i]] == self.clouds()[i],
            forall|k: Seq<char>| #[trigger] self@.contains_key(k) ==> exists|i: int|
                0 <= i < self.names().len() && self.names()[i] == k,
    {
        let s = self.entries@;
        lemma_map_len(s);
        assert forall|i: int| 0 <= i < self.clouds().len() implies self@.contains_key(#[trigger] self.names()[i])
            && self@[self.names()[i]] == self.clouds()[i] by {
            self.lemma_entry_in_map(i);
        }
        assert forall|k: Seq<char>| #[trigger] self@.contains_key(k) implies exists|i: int|
            0 <= i < self.names().len() && self.names()[i] == k by {
            lemma_map_of_dom(s, k);
            let i = choose|i: int| 0 <= i < s.len() && (#[trigger] s[i]).0@ == k;
            assert(self.names()[i] == k);
        }
    }

    proof fn lemma_entry_in_map(&self, i: int)
        requires
            self.wf(),
            0 <= i < self.entries@.len(),
        ensures
            self@.contains_key(self.entries@[i].0@),
            self@[self.entries@[i].0@] == self.clouds()[i],
    {
        let s = self.entries@;
        lemma_map_of_update(s, i, s[i]);
        assert(s.update(i, s[i]) =~= s);
    }
}

proof fn lemma_map_len(s: Seq<(String, PointCloud)>)
    requires
        names_unique(s),
    ensures
        map_of(s).len() == s.len(),
        map_of(s).dom().finite(),
    decreases s.len(),
{
    if s.len() > 0 {
        lemma_map_len(s.drop_last());
        lemma_map_of_dom(s.drop_last(), s.last().0@);
        if map_of(s.drop_last()).contains_key(s.last().0@) {
            let i = choose|i: int| 0 <= i < s.drop_last().len() && (#[trigger] s.drop_last()[i]).0@ == s.last().0@;
            assert(s[i] == s.drop_last()[i]);
        }
    }
}

} // verus!
