//! The snapshot of watched video identifiers that the pipeline deduplicates
//! against, and an in-memory store that owns one.

use vstd::prelude::*;

use crate::ports::{StoreError, VideoStore};
use crate::video::VideoId;

verus! {

/// The set of identifier tokens a sequence of identifiers denotes.
pub open spec fn ids_as_set(s: Seq<VideoId>) -> Set<Seq<char>> {
    Set::new(|t: Seq<char>| exists|i: int| 0 <= i < s.len() && s[i]@ == t)
}

/// A set of watched video identifiers. Marking is idempotent: inserting an
/// identifier that is already present leaves the set unchanged.
#[derive(Debug)]
pub struct WatchedSet {
    ids: Vec<VideoId>,
}

impl View for WatchedSet {
    type V = Set<Seq<char>>;

    closed spec fn view(&self) -> Set<Seq<char>> {
        ids_as_set(self.ids@)
    }
}

impl WatchedSet {
    /// The empty set.
    pub fn new() -> (r: WatchedSet)
        ensures
            r@ == Set::<Seq<char>>::empty(),
    {
        let r = WatchedSet { ids: Vec::new() };
        proof {
            assert(r@ =~= Set::<Seq<char>>::empty());
        }
        r
    }

    /// Whether the identifier has been marked watched.
    pub fn contains(&self, id: &VideoId) -> (r: bool)
        ensures
            r == self@.contains(id@),
    {
        let mut i: usize = 0;
        while i < self.ids.len()
            invariant
                i <= self.ids.len(),
                forall|j: int| 0 <= j < i ==> self.ids@[j]@ != id@,
            decreases self.ids.len() - i,
        {
            if &self.ids[i] == id {
                return true;
            }
            i += 1;
        }
        false
    }

    /// Mark an identifier watched; a no-op when it is already present.
    pub fn insert(&mut self, id: VideoId)
        ensures
            final(self)@ == old(self)@.insert(id@),
    {
        if self.contains(&id) {
            proof {
                assert(self@ =~= old(self)@.insert(id@));
            }
            return;
        }
        let ghost before = self.ids@;
        self.ids.push(id);
        proof {
            assert forall|t: Seq<char>| self@.contains(t) <==> old(self)@.insert(id@).contains(
                t,
            ) by {
                if t == id@ {
                    assert(self.ids@[before.len() as int]@ == t);
                } else if self@.contains(t) {
                    let i = choose|i: int| 0 <= i < self.ids@.len() && self.ids@[i]@ == t;
                    assert(before[i]@ == t);
                } else if old(self)@.contains(t) {
                    let i = choose|i: int| 0 <= i < before.len() && before[i]@ == t;
                    assert(self.ids@[i]@ == t);
                }
            }
            assert(self@ =~= old(self)@.insert(id@));
        }
    }

    /// A copy of the set, element by element.
    pub fn duplicate(&self) -> (r: WatchedSet)
        ensures
            r@ == self@,
    {
        let mut ids: Vec<VideoId> = Vec::new();
        let mut i: usize = 0;
        while i < self.ids.len()
            invariant
                i <= self.ids.len(),
                ids@.len() == i,
                forall|j: int| 0 <= j < i ==> ids@[j] == self.ids@[j],
            decreases self.ids.len() - i,
        {
            ids.push(self.ids[i].clone());
            i += 1;
        }
        let r = WatchedSet { ids };
        proof {
            assert(r.ids@ =~= self.ids@);
        }
        r
    }
}

/// A watched store held entirely in memory: loading returns a copy of the
/// set, marking inserts and never fails. Persistent stores at the system's
/// edge implement the same interface around it.
#[derive(Debug)]
pub struct MemoryStore {
    inner: WatchedSet,
}

impl MemoryStore {
    /// A store that has seen nothing watched yet.
    pub fn new() -> (r: MemoryStore)
        ensures
            r.watched() == Set::<Seq<char>>::empty(),
    {
        MemoryStore { inner: WatchedSet::new() }
    }
}

impl VideoStore for MemoryStore {
    closed spec fn watched(&self) -> Set<Seq<char>> {
        self.inner@
    }

    fn load_watched(&self) -> (r: Result<WatchedSet, StoreError>) {
        Ok(self.inner.duplicate())
    }

    fn mark_watched(&mut self, video_id: &VideoId) -> (r: Result<(), StoreError>) {
        self.inner.insert(video_id.clone());
        Ok(())
    }
}

} // verus!
