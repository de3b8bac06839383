//! A map that keeps its entries ordered by key.

use vstd::prelude::*;

verus! {

/// Keys that are told apart, and ordered, by a number.
pub trait Rank: Copy {
    spec fn rank(self) -> int;

    /// Two keys of one rank are the same key.
    proof fn lemma_rank_injective(a: Self, b: Self)
        requires
            a.rank() == b.rank(),
        ensures
            a == b,
    ;

    fn less(&self, other: &Self) -> (r: bool)
        ensures
            r == (self.rank() < other.rank()),
    ;
}

/// Whether the keys rise from each entry to the next.
pub open spec fn rising<K: Rank, V>(entries: Seq<(K, V)>) -> bool {
    forall|i: int, j: int|
        0 <= i < j < entries.len() ==> (#[trigger] entries[i]).0.rank() < (
        #[trigger] entries[j]).0.rank()
}

/// What `entries` hold under each key.
pub open spec fn contents<K, V>(entries: Seq<(K, V)>) -> Map<K, V>
    decreases entries.len(),
{
    if entries.len() == 0 {
        Map::empty()
    } else {
        contents(entries.drop_last()).insert(entries.last().0, entries.last().1)
    }
}

/// A map from `K` to `V`, held as entries that rise by key.
pub struct Table<K: Rank, V> {
    entries: Vec<(K, V)>,
}

impl<K: Rank, V> View for Table<K, V> {
    type V = Map<K, V>;

    closed spec fn view(&self) -> Map<K, V> {
        contents(self.entries@)
    }
}

/// Entries that rise by key hold each key that they carry, with its value.
pub proof fn lemma_contents<K: Rank, V>(entries: Seq<(K, V)>)
    requires
        rising(entries),
    ensures
        forall|i: int|
            0 <= i < entries.len() ==> contents(entries).contains_key(
                (#[trigger] entries[i]).0,
            ) && contents(entries)[entries[i].0] == entries[i].1,
        forall|k: K| #[trigger]
            contents(entries).contains_key(k) ==> exists|i: int|
                0 <= i < entries.len() && (#[trigger] entries[i]).0 == k,
        contents(entries).dom().finite(),
        contents(entries).dom().len() == entries.len(),
    decreases entries.len(),
{
    if entries.len() > 0 {
        let init = entries.drop_last();
        let last = entries.last();
        lemma_contents(init);
        assert forall|i: int| 0 <= i < entries.len() implies contents(entries).contains_key(
            (#[trigger] entries[i]).0,
        ) && contents(entries)[entries[i].0] == entries[i].1 by {
            if i < init.len() {
                assert(init[i] == entries[i]);
                assert(entries[i].0.rank() < entries[entries.len() - 1].0.rank());
            }
        }
        assert forall|k: K| #[trigger] contents(entries).contains_key(k) implies exists|i: int|
            0 <= i < entries.len() && (#[trigger] entries[i]).0 == k by {
            if contents(init).contains_key(k) {
                let i = choose|i: int| 0 <= i < init.len() && (#[trigger] init[i]).0 == k;
                assert(entries[i].0 == k);
            } else {
                assert(entries[entries.len() - 1].0 == k);
            }
        }
        if contents(init).contains_key(last.0) {
            let i = choose|i: int| 0 <= i < init.len() && (#[trigger] init[i]).0 == last.0;
            assert(entries[i].0.rank() < entries[entries.len() - 1].0.rank());
        }
    }
}

/// A map that holds just what the entries carry is what they hold.
proof fn lemma_contents_are<K: Rank, V>(entries: Seq<(K, V)>, m: Map<K, V>)
    requires
        rising(entries),
        forall|i: int|
            0 <= i < entries.len() ==> m.contains_key((#[trigger] entries[i]).0) && m[entries[i].0]
                == entries[i].1,
        forall|k: K| #[trigger]
            m.contains_key(k) ==> exists|i: int|
                0 <= i < entries.len() && (#[trigger] entries[i]).0 == k,
    ensures
        contents(entries) == m,
{
    lemma_contents(entries);
    assert forall|k: K| #[trigger] contents(entries).contains_key(k) == m.contains_key(k) by {
        if contents(entries).contains_key(k) {
            let i = choose|i: int| 0 <= i < entries.len() && (#[trigger] entries[i]).0 == k;
            assert(m.contains_key(entries[i].0));
        }
        if m.contains_key(k) {
            let i = choose|i: int| 0 <= i < entries.len() && (#[trigger] entries[i]).0 == k;
            assert(contents(entries).contains_key(entries[i].0));
        }
    }
    assert forall|k: K| contents(entries).contains_key(k) implies contents(entries)[k]
        == m[k] by {
        let i = choose|i: int| 0 <= i < entries.len() && (#[trigger] entries[i]).0 == k;
        assert(m[entries[i].0] == entries[i].1);
    }
    assert(contents(entries) =~= m);
}

proof fn lemma_replace<K: Rank, V>(entries: Seq<(K, V)>, at: int, value: V)
    requires
        rising(entries),
        0 <= at < entries.len(),
    ensures
        rising(entries.update(at, (entries[at].0, value))),
        contents(entries.update(at, (entries[at].0, value))) == contents(entries).insert(
            entries[at].0,
            value,
        ),
{
    let key = entries[at].0;
    let after = entries.update(at, (key, value));
    lemma_contents(entries);
    let m = contents(entries).insert(key, value);
    assert forall|i: int| 0 <= i < after.len() implies m.contains_key((#[trigger] after[i]).0)
        && m[after[i].0] == after[i].1 by {
        assert(contents(entries).contains_key(entries[i].0));
    }
    assert forall|k: K| #[trigger] m.contains_key(k) implies exists|i: int|
        0 <= i < after.len() && (#[trigger] after[i]).0 == k by {
        if k == key {
            assert(after[at].0 == k);
        } else {
            let i = choose|i: int| 0 <= i < entries.len() && (#[trigger] entries[i]).0 == k;
            assert(after[i].0 == k);
        }
    }
    lemma_contents_are(after, m);
}

proof fn lemma_put<K: Rank, V>(entries: Seq<(K, V)>, at: int, key: K, value: V)
    requires
        rising(entries),
        0 <= at <= entries.len(),
        forall|j: int| 0 <= j < at ==> (#[trigger] entries[j]).0.rank() < key.rank(),
        forall|j: int| at <= j < entries.len() ==> key.rank() < (#[trigger] entries[j]).0.rank(),
    ensures
        !contents(entries).contains_key(key),
        rising(entries.insert(at, (key, value))),
        contents(entries.insert(at, (key, value))) == contents(entries).insert(key, value),
{
    let after = entries.insert(at, (key, value));
    lemma_contents(entries);
    let m = contents(entries).insert(key, value);
    assert(forall|i: int| 0 <= i < at ==> after[i] == entries[i]);
    assert(after[at] == (key, value));
    assert(forall|i: int| at < i < after.len() ==> after[i] == entries[i - 1]);
    assert forall|i: int| 0 <= i < after.len() implies m.contains_key((#[trigger] after[i]).0)
        && m[after[i].0] == after[i].1 by {
        if i < at {
            assert(contents(entries).contains_key(entries[i].0));
        } else if i > at {
            assert(contents(entries).contains_key(entries[i - 1].0));
        }
    }
    assert forall|k: K| #[trigger] m.contains_key(k) implies exists|i: int|
        0 <= i < after.len() && (#[trigger] after[i]).0 == k by {
        if k == key {
            assert(after[at].0 == k);
        } else {
            let i = choose|i: int| 0 <= i < entries.len() && (#[trigger] entries[i]).0 == k;
            if i < at {
                assert(after[i].0 == k);
            } else {
                assert(after[i + 1].0 == k);
            }
        }
    }
    lemma_contents_are(after, m);
}

proof fn lemma_drop<K: Rank, V>(entries: Seq<(K, V)>, at: int)
    requires
        rising(entries),
        0 <= at < entries.len(),
    ensures
        rising(entries.remove(at)),
        contents(entries.remove(at)) == contents(entries).remove(entries[at].0),
{
    let key = entries[at].0;
    let after = entries.remove(at);
    lemma_contents(entries);
    let m = contents(entries).remove(key);
    assert(forall|i: int| 0 <= i < at ==> after[i] == entries[i]);
    assert(forall|i: int| at <= i < after.len() ==> after[i] == entries[i + 1]);
    assert forall|i: int| 0 <= i < after.len() implies m.contains_key((#[trigger] after[i]).0)
        && m[after[i].0] == after[i].1 by {
        if i < at {
            assert(contents(entries).contains_key(entries[i].0));
        } else {
            assert(contents(entries).contains_key(entries[i + 1].0));
        }
    }
    assert forall|k: K| #[trigger] m.contains_key(k) implies exists|i: int|
        0 <= i < after.len() && (#[trigger] after[i]).0 == k by {
        let i = choose|i: int| 0 <= i < entries.len() && (#[trigger] entries[i]).0 == k;
        if i < at {
            assert(after[i].0 == k);
        } else {
            assert(after[i - 1].0 == k);
        }
    }
    lemma_contents_are(after, m);
}

impl<K: Rank, V> Table<K, V> {
    #[verifier::type_invariant]
    closed spec fn wf(self) -> bool {
        rising(self.entries@)
    }

    pub fn new() -> (r: Self)
        ensures
            r@ == Map::<K, V>::empty(),
    {
        Table { entries: Vec::new() }
    }

    /// Where `key` stands, or where it would have to be put.
    fn find(&self, key: &K) -> (r: Result<usize, usize>)
        ensures
            match r {
                Ok(i) => i < self.entries@.len() && self.entries@[i as int].0 == *key,
                Err(i) => {
                    &&& i <= self.entries@.len()
                    &&& forall|j: int|
                        0 <= j < i ==> (#[trigger] self.entries@[j]).0.rank() < key.rank()
                    &&& forall|j: int|
                        i <= j < self.entries@.len() ==> key.rank() < (
                        #[trigger] self.entries@[j]).0.rank()
                },
            },
    {
        proof {
            use_type_invariant(self);
        }
        let mut low: usize = 0;
        let mut high: usize = self.entries.len();
        while low < high
            invariant
                low <= high <= self.entries@.len(),
                rising(self.entries@),
                forall|j: int| 0 <= j < low ==> (#[trigger] self.entries@[j]).0.rank() < key.rank(),
                forall|j: int|
                    high <= j < self.entries@.len() ==> key.rank() < (
                    #[trigger] self.entries@[j]).0.rank(),
            decreases high - low,
        {
            let mid: usize = low + (high - low) / 2;
            let here = &self.entries[mid].0;
            if here.less(key) {
                low = mid + 1;
            } else if key.less(here) {
                high = mid;
            } else {
                proof {
                    K::lemma_rank_injective(*here, *key);
                }
                return Ok(mid);
            }
        }
        Err(low)
    }

    pub fn contains_key(&self, key: &K) -> (r: bool)
        ensures
            r == self@.contains_key(*key),
    {
        proof {
            use_type_invariant(self);
            lemma_contents(self.entries@);
        }
        self.find(key).is_ok()
    }

    pub fn get(&self, key: &K) -> (r: Option<&V>)
        ensures
            match r {
                Some(v) => self@.contains_key(*key) && self@[*key] == *v,
                None => !self@.contains_key(*key),
            },
    {
        proof {
            use_type_invariant(self);
            lemma_contents(self.entries@);
        }
        match self.find(key) {
            Ok(i) => Some(&self.entries[i].1),
            Err(_) => None,
        }
    }

    /// Puts `value` under `key`; hands back what stood there.
    pub fn insert(&mut self, key: K, value: V) -> (r: Option<V>)
        ensures
            final(self)@ == old(self)@.insert(key, value),
            r == old(self)@.get(key),
    {
        proof {
            use_type_invariant(&*self);
            lemma_contents(self.entries@);
        }
        match self.find(&key) {
            Ok(i) => {
                proof {
                    lemma_replace(self.entries@, i as int, value);
                }
                let mut entries: Vec<(K, V)> = Vec::new();
                std::mem::swap(&mut self.entries, &mut entries);
                let mut entry = (key, value);
                std::mem::swap(&mut entries[i], &mut entry);
                self.entries = entries;
                Some(entry.1)
            },
            Err(i) => {
                proof {
                    lemma_put(self.entries@, i as int, key, value);
                }
                let mut entries: Vec<(K, V)> = Vec::new();
                std::mem::swap(&mut self.entries, &mut entries);
                entries.insert(i, (key, value));
                self.entries = entries;
                None
            },
        }
    }

    /// Takes out what stands under `key`.
    pub fn remove(&mut self, key: &K) -> (r: Option<V>)
        ensures
            final(self)@ == old(self)@.remove(*key),
            r == old(self)@.get(*key),
    {
        proof {
            use_type_invariant(&*self);
            lemma_contents(self.entries@);
        }
        match self.find(key) {
            Ok(i) => {
                proof {
                    lemma_drop(self.entries@, i as int);
                }
                let mut entries: Vec<(K, V)> = Vec::new();
                std::mem::swap(&mut self.entries, &mut entries);
                let entry = entries.remove(i);
                self.entries = entries;
                Some(entry.1)
            },
            Err(_) => {
                assert(self@.remove(*key) =~= self@);
                None
            },
        }
    }

    /// All entries, by rising key.
    pub fn into_entries(self) -> (r: Vec<(K, V)>)
        ensures
            rising(r@),
            contents(r@) == self@,
    {
        proof {
            use_type_invariant(&self);
        }
        self.entries
    }

    /// All keys, in rising order.
    pub fn into_keys(self) -> (r: Vec<K>)
        ensures
            r@.to_set() == self@.dom(),
            forall|i: int, j: int|
                0 <= i < j < r@.len() ==> (#[trigger] r@[i]).rank() < (#[trigger] r@[j]).rank(),
    {
        proof {
            use_type_invariant(&self);
            lemma_contents(self.entries@);
        }
        let mut keys: Vec<K> = Vec::new();
        let mut i: usize = 0;
        while i < self.entries.len()
            invariant
                i <= self.entries@.len(),
                keys@.len() == i,
                forall|j: int| 0 <= j < i ==> #[trigger] keys@[j] == self.entries@[j].0,
            decreases self.entries@.len() - i,
        {
            keys.push(self.entries[i].0);
            i = i + 1;
        }
        assert forall|k: K| keys@.to_set().contains(k) == self@.dom().contains(k) by {
            if self@.dom().contains(k) {
                assert(contents(self.entries@).contains_key(k));
                let j = choose|j: int|
                    0 <= j < self.entries@.len() && (#[trigger] self.entries@[j]).0 == k;
                assert(keys@[j] == k);
            }
            if keys@.contains(k) {
                let j = choose|j: int| 0 <= j < keys@.len() && keys@[j] == k;
                assert(contents(self.entries@).contains_key(self.entries@[j].0));
            }
        }
        assert(keys@.to_set() =~= self@.dom());
        assert forall|i: int, j: int| 0 <= i < j < keys@.len() implies (#[trigger] keys@[i]).rank()
            < (#[trigger] keys@[j]).rank() by {
            assert(self.entries@[i].0.rank() < self.entries@[j].0.rank());
        }
        keys
    }
}

} // verus!
