use vstd::prelude::*;

verus! {

/// In-memory map from a transaction hash (hex text) to the signed transaction
/// and its builder state, waiting to be broadcast.
///
/// The entries live in a vector with unique keys, since std's hash map
/// offers no specification over `String` keys that a proof could use; the
/// ghost map is the abstract content that every contract speaks of.
pub struct PendingCache<T> {
    entries: Vec<(String, T)>,
    contents: Ghost<Map<Seq<char>, T>>,
}

impl<T> View for PendingCache<T> {
    type V = Map<Seq<char>, T>;

    closed spec fn view(&self) -> Map<Seq<char>, T> {
        self.contents@
    }
}

impl<T> PendingCache<T> {
    /// The key of the `i`-th stored entry.
    pub closed spec fn key_at(&self, i: int) -> Seq<char> {
        self.entries@[i].0@
    }

    /// Keys are unique and the ghost map holds exactly the stored pairs.
    pub closed spec fn wf(&self) -> bool {
        &&& self.contents@.dom().finite()
        &&& forall|i: int, j: int|
            0 <= i < self.entries@.len() && 0 <= j < self.entries@.len() && i != j
                ==> #[trigger] self.key_at(i) != #[trigger] self.key_at(j)
        &&& forall|k: Seq<char>|
            #[trigger] self.contents@.dom().contains(k) <==> exists|i: int|
                0 <= i < self.entries@.len() && #[trigger] self.key_at(i) == k
        &&& forall|i: int|
            0 <= i < self.entries@.len() ==> self.contents@[#[trigger] self.key_at(i)]
                == self.entries@[i].1
    }

    /// An empty cache.
    pub fn new() -> (r: Self)
        ensures
            r.wf(),
            r@ == Map::<Seq<char>, T>::empty(),
    {
        PendingCache { entries: Vec::new(), contents: Ghost(Map::empty()) }
    }

    /// Position of the entry stored under `hash`, if any.
    fn find(&self, hash: &String) -> (r: Option<usize>)
        requires
            self.wf(),
        ensures
            match r {
                Some(i) => i < self.entries@.len() && self.key_at(i as int) == hash@,
                None => !self@.dom().contains(hash@),
            },
    {
        let mut i: usize = 0;
        while i < self.entries.len()
            invariant
                self.wf(),
                i <= self.entries@.len(),
                forall|j: int| 0 <= j < i ==> #[trigger] self.key_at(j) != hash@,
            decreases self.entries@.len() - i,
        {
            if self.entries[i].0 == *hash {
                return Some(i);
            }
            i = i + 1;
        }
        None
    }

    /// Whether an entry is stored under `hash`.
    pub fn contains(&self, hash: &String) -> (r: bool)
        requires
            self.wf(),
        ensures
            r == self@.dom().contains(hash@),
    {
        match self.find(hash) {
            Some(i) => {
                assert(self.contents@.dom().contains(self.key_at(i as int)));
                true
            },
            None => false,
        }
    }

    /// Whether the cache holds no entry at all.
    pub fn is_empty(&self) -> (r: bool)
        requires
            self.wf(),
        ensures
            r == (self@.dom() == Set::<Seq<char>>::empty()),
    {
        if self.entries.len() == 0 {
            assert(self@.dom() =~= Set::<Seq<char>>::empty());
            true
        } else {
            assert(self@.dom().contains(self.key_at(0)));
            false
        }
    }

    /// The hashes of all stored entries, each once.
    pub fn hashes(&self) -> (r: Vec<String>)
        requires
            self.wf(),
        ensures
            forall|k: Seq<char>|
                self@.dom().contains(k) <==> exists|i: int| 0 <= i < r@.len() && #[trigger] r@[i]@ == k,
            forall|i: int, j: int|
                0 <= i < r@.len() && 0 <= j < r@.len() && i != j ==> #[trigger] r@[i]@ != #[trigger] r@[j]@,
    {
        let mut out: Vec<String> = Vec::new();
        let mut i: usize = 0;
        while i < self.entries.len()
            invariant
                self.wf(),
                i <= self.entries@.len(),
                out@.len() == i,
                forall|j: int| 0 <= j < i ==> #[trigger] out@[j]@ == self.key_at(j),
            decreases self.entries@.len() - i,
        {
            out.push(self.entries[i].0.clone());
            i = i + 1;
        }
        assert forall|k: Seq<char>| self@.dom().contains(k) implies exists|i: int|
            0 <= i < out@.len() && #[trigger] out@[i]@ == k by {
            let i = choose|i: int| 0 <= i < self.entries@.len() && #[trigger] self.key_at(i) == k;
            assert(out@[i]@ == k);
        }
        assert forall|i: int, j: int|
            0 <= i < out@.len() && 0 <= j < out@.len() && i != j implies #[trigger] out@[i]@
                != #[trigger] out@[j]@ by {
            assert(self.key_at(i) != self.key_at(j));
        }
        assert forall|k: Seq<char>| (exists|i: int| 0 <= i < out@.len() && #[trigger] out@[i]@ == k)
            implies self@.dom().contains(k) by {
            let i = choose|i: int| 0 <= i < out@.len() && #[trigger] out@[i]@ == k;
            assert(self.key_at(i) == k);
        }
        out
    }

    /// Stores `item` under `hash`, replacing what was stored there.
    pub fn insert(&mut self, hash: String, item: T)
        requires
            old(self).wf(),
        ensures
            final(self).wf(),
            final(self)@ == old(self)@.insert(hash@, item),
    {
        let ghost key = hash@;
        match self.find(&hash) {
            Some(i) => {
                let ghost pre = *self;
                let ghost new_map = self.contents@.insert(key, item);
                self.entries.set(i, (hash, item));
                self.contents = Ghost(new_map);
                assert forall|j: int| 0 <= j < self.entries@.len() implies #[trigger] self.key_at(j)
                    == pre.key_at(j) by {}
                assert forall|k: Seq<char>| #[trigger] self.contents@.dom().contains(k) implies exists|j: int|
                    0 <= j < self.entries@.len() && #[trigger] self.key_at(j) == k by {
                    if k != key {
                        let j = choose|j: int| 0 <= j < pre.entries@.len() && #[trigger] pre.key_at(j) == k;
                        assert(self.key_at(j) == k);
                    } else {
                        assert(self.key_at(i as int) == k);
                    }
                }
            },
            None => {
                let ghost pre = *self;
                let ghost new_map = self.contents@.insert(key, item);
                let ghost n = self.entries@.len() as int;
                self.entries.push((hash, item));
                self.contents = Ghost(new_map);
                assert forall|j: int| 0 <= j < n implies #[trigger] self.key_at(j) == pre.key_at(j) by {}
                assert(self.key_at(n) == key);
                assert forall|k: Seq<char>| #[trigger] self.contents@.dom().contains(k) implies exists|j: int|
                    0 <= j < self.entries@.len() && #[trigger] self.key_at(j) == k by {
                    if k != key {
                        let j = choose|j: int| 0 <= j < pre.entries@.len() && #[trigger] pre.key_at(j) == k;
                        assert(self.key_at(j) == k);
                    } else {
                        assert(self.key_at(n) == k);
                    }
                }
                assert forall|j: int| 0 <= j < n implies #[trigger] self.key_at(j) != key by {
                    assert(pre.contents@.dom().contains(pre.key_at(j)));
                }
            },
        }
        assert(self.contents@ =~= old(self)@.insert(hash@, item));
    }

    /// Takes out the entry stored under `hash`.
    pub fn remove(&mut self, hash: &String) -> (r: Option<T>)
        requires
            old(self).wf(),
        ensures
            final(self).wf(),
            final(self)@ == old(self)@.remove(hash@),
            match r {
                Some(item) => old(self)@.dom().contains(hash@) && item == old(self)@[hash@],
                None => !old(self)@.dom().contains(hash@),
            },
    {
        match self.find(hash) {
            Some(i) => {
                let ghost pre = *self;
                let ghost key = hash@;
                assert(pre.contents@.dom().contains(pre.key_at(i as int)));
                let pair = self.entries.remove(i);
                self.contents = Ghost(pre.contents@.remove(key));
                assert forall|j: int| 0 <= j < self.entries@.len() implies #[trigger] self.key_at(j)
                    == if j < i { pre.key_at(j) } else { pre.key_at(j + 1) } by {}
                assert forall|j: int| 0 <= j < self.entries@.len() implies #[trigger] self.key_at(j)
                    != key by {
                    if j < i {
                        assert(pre.key_at(j) != pre.key_at(i as int));
                    } else {
                        assert(pre.key_at(j + 1) != pre.key_at(i as int));
                    }
                }
                assert forall|k: Seq<char>| #[trigger] self.contents@.dom().contains(k) implies exists|j: int|
                    0 <= j < self.entries@.len() && #[trigger] self.key_at(j) == k by {
                    let j = choose|j: int| 0 <= j < pre.entries@.len() && #[trigger] pre.key_at(j) == k;
                    if j < i {
                        assert(self.key_at(j) == k);
                    } else {
                        assert(j != i);
                        assert(self.key_at(j - 1) == k);
                    }
                }
                assert forall|j: int, l: int|
                    0 <= j < self.entries@.len() && 0 <= l < self.entries@.len() && j != l
                        implies #[trigger] self.key_at(j) != #[trigger] self.key_at(l) by {
                    let pj = if j < i { j } else { j + 1 };
                    let pl = if l < i { l } else { l + 1 };
                    assert(pre.key_at(pj) != pre.key_at(pl));
                }
                assert forall|j: int| 0 <= j < self.entries@.len() implies self.contents@[
                    #[trigger] self.key_at(j)] == self.entries@[j].1 by {
                    let pj = if j < i { j } else { j + 1 };
                    assert(pre.contents@[pre.key_at(pj)] == pre.entries@[pj].1);
                }
                Some(pair.1)
            },
            None => {
                assert(self.contents@ =~= self.contents@.remove(hash@));
                None
            },
        }
    }

    /// Drops every entry.
    pub fn clear(&mut self)
        requires
            old(self).wf(),
        ensures
            final(self).wf(),
            final(self)@ == Map::<Seq<char>, T>::empty(),
    {
        self.entries.clear();
        self.contents = Ghost(Map::empty());
    }
}

} // verus!
