//! Device buffers that are kept by the key of the host buffer they were made from.

use vstd::prelude::*;

use crate::keys::{DeviceBytesKey, DeviceStateKey};

verus! {

/// A buffer and its key.
#[derive(Debug)]
pub struct CacheEntry<K, V> {
    pub key: K,
    pub buf: V,
}

/// Buffers by key, each key once.
#[derive(Debug)]
pub struct KeyedBufs<K, V> {
    pub entries: Vec<CacheEntry<K, V>>,
}

impl<K, V> KeyedBufs<K, V> {
    /// No key occurs twice.
    pub open spec fn wf(self) -> bool {
        forall|i: int, j: int|
            0 <= i < j < self.entries@.len() ==> (#[trigger] self.entries@[i]).key != (
            #[trigger] self.entries@[j]).key
    }

    pub open spec fn holds_at(self, i: int, k: K) -> bool {
        0 <= i < self.entries@.len() && self.entries@[i].key == k
    }

    /// The buffer of each key.
    pub open spec fn view(self) -> Map<K, V> {
        Map::new(
            |k: K| exists|i: int| self.holds_at(i, k),
            |k: K| self.entries@[choose|i: int| self.holds_at(i, k)].buf,
        )
    }

    pub proof fn lemma_entry(self, i: int)
        requires
            self.wf(),
            0 <= i < self.entries@.len(),
        ensures
            self@.dom().contains(self.entries@[i].key),
            self@[self.entries@[i].key] == self.entries@[i].buf,
    {
        let k = self.entries@[i].key;
        assert(self.holds_at(i, k));
        let c = choose|c: int| self.holds_at(c, k);
        if c < i {
            assert(self.entries@[c].key != self.entries@[i].key);
        }
        if i < c {
            assert(self.entries@[i].key != self.entries@[c].key);
        }
    }

    pub fn new() -> (c: KeyedBufs<K, V>)
        ensures
            c.wf(),
            c@ == Map::<K, V>::empty(),
    {
        let c = KeyedBufs { entries: Vec::new() };
        assert(c@ =~= Map::<K, V>::empty());
        c
    }

    /// The number of keys.
    pub fn len(&self) -> (n: usize)
        requires
            self.wf(),
        ensures
            n == self@.dom().len(),
            self@.dom().finite(),
    {
        proof {
            self.lemma_len(self.entries@.len());
        }
        self.entries.len()
    }

    proof fn lemma_len(self, n: nat)
        requires
            self.wf(),
            n <= self.entries@.len(),
        ensures
            ({
                let keys = Set::new(|k: K| exists|i: int| i < n && self.holds_at(i, k));
                &&& keys.finite()
                &&& keys.len() == n
                &&& n == self.entries@.len() ==> keys == self@.dom()
            }),
        decreases n,
    {
        let keys = Set::new(|k: K| exists|i: int| i < n && self.holds_at(i, k));
        if n == 0 {
            assert(keys =~= Set::<K>::empty());
        } else {
            let m = (n - 1) as nat;
            let fewer = Set::new(|k: K| exists|i: int| i < m && self.holds_at(i, k));
            self.lemma_len(m);
            let last = self.entries@[m as int].key;
            assert(self.holds_at(m as int, last));
            assert forall|k: K| keys.contains(k) == fewer.insert(last).contains(k) by {
                if keys.contains(k) {
                    let i = choose|i: int| i < n && self.holds_at(i, k);
                    if i < m {
                        assert(fewer.contains(k));
                    }
                }
                if fewer.contains(k) {
                    let i = choose|i: int| i < m && self.holds_at(i, k);
                    assert(i < n && self.holds_at(i, k));
                }
            }
            assert(keys =~= fewer.insert(last));
            assert(!fewer.contains(last)) by {
                if fewer.contains(last) {
                    let i = choose|i: int| i < m && self.holds_at(i, last);
                    assert(self.entries@[i].key != self.entries@[m as int].key);
                }
            }
        }
        if n == self.entries@.len() {
            assert forall|k: K| keys.contains(k) == self@.dom().contains(k) by {
                if keys.contains(k) {
                    let i = choose|i: int| i < n && self.holds_at(i, k);
                    assert(self.holds_at(i, k));
                }
                if self@.dom().contains(k) {
                    let i = choose|i: int| self.holds_at(i, k);
                    assert(i < n && self.holds_at(i, k));
                }
            }
            assert(keys =~= self@.dom());
        }
    }

    /// Appends a key that is not there.
    fn append(&mut self, key: K, buf: V)
        requires
            old(self).wf(),
            !old(self)@.dom().contains(key),
        ensures
            final(self).wf(),
            final(self)@ == old(self)@.insert(key, buf),
    {
        let ghost before = *self;
        self.entries.push(CacheEntry { key, buf });
        proof {
            let n = before.entries@.len() as int;
            assert forall|i: int, j: int| 0 <= i < j < self.entries@.len() implies (
            #[trigger] self.entries@[i]).key != (#[trigger] self.entries@[j]).key by {
                assert(before.entries@[i] == self.entries@[i]);
                if j == n {
                    before.lemma_entry(i);
                } else {
                    assert(before.entries@[j] == self.entries@[j]);
                }
            }
            let want = before@.insert(key, buf);
            assert forall|k: K| self@.dom().contains(k) == want.dom().contains(k) by {
                if self@.dom().contains(k) {
                    let i = choose|i: int| self.holds_at(i, k);
                    if i < n {
                        assert(before.holds_at(i, k));
                    }
                }
                if before@.dom().contains(k) {
                    let i = choose|i: int| before.holds_at(i, k);
                    assert(self.holds_at(i, k));
                }
                assert(self.holds_at(n, key));
            }
            assert forall|k: K| self@.dom().contains(k) implies self@[k] == want[k] by {
                let i = choose|i: int| self.holds_at(i, k);
                self.lemma_entry(i);
                if i < n {
                    before.lemma_entry(i);
                    assert(before.entries@[i] == self.entries@[i]);
                }
            }
            assert(self@ =~= want);
        }
    }

    /// Replaces the buffer at a place.
    fn replace_at(&mut self, i: usize, buf: V)
        requires
            old(self).wf(),
            i < old(self).entries@.len(),
        ensures
            final(self).wf(),
            final(self)@ == old(self)@.insert(old(self).entries@[i as int].key, buf),
    {
        let ghost before = *self;
        let ghost key = self.entries@[i as int].key;
        self.entries[i].buf = buf;
        proof {
            assert forall|j: int| 0 <= j < self.entries@.len() implies (
            #[trigger] self.entries@[j]).key == before.entries@[j].key by {}
            assert forall|a: int, b: int| 0 <= a < b < self.entries@.len() implies (
            #[trigger] self.entries@[a]).key != (#[trigger] self.entries@[b]).key by {
                assert(before.entries@[a].key != before.entries@[b].key);
            }
            let want = before@.insert(key, buf);
            before.lemma_entry(i as int);
            assert forall|k: K| self@.dom().contains(k) == want.dom().contains(k) by {
                if self@.dom().contains(k) {
                    let j = choose|j: int| self.holds_at(j, k);
                    assert(before.holds_at(j, k));
                }
                if before@.dom().contains(k) {
                    let j = choose|j: int| before.holds_at(j, k);
                    assert(self.holds_at(j, k));
                }
            }
            assert forall|k: K| self@.dom().contains(k) implies self@[k] == want[k] by {
                let j = choose|j: int| self.holds_at(j, k);
                self.lemma_entry(j);
                before.lemma_entry(j);
                if j != i {
                    assert(self.entries@[j].buf == before.entries@[j].buf);
                    if j < i {
                        assert(before.entries@[j].key != before.entries@[i as int].key);
                    } else {
                        assert(before.entries@[i as int].key != before.entries@[j].key);
                    }
                }
            }
            assert(self@ =~= want);
        }
    }
}

/// Weights that were uploaded: a weight is uploaded once, and what was uploaded first
/// stays.
#[derive(Debug)]
pub struct DeviceCache<V> {
    pub bufs: KeyedBufs<DeviceBytesKey, V>,
}

impl<V> DeviceCache<V> {
    pub open spec fn wf(self) -> bool {
        self.bufs.wf()
    }

    pub open spec fn view(self) -> Map<DeviceBytesKey, V> {
        self.bufs@
    }

    pub fn new() -> (c: DeviceCache<V>)
        ensures
            c.wf(),
            c@ == Map::<DeviceBytesKey, V>::empty(),
    {
        DeviceCache { bufs: KeyedBufs::new() }
    }

    /// The number of weights.
    pub fn len(&self) -> (n: usize)
        requires
            self.wf(),
        ensures
            n == self@.dom().len(),
            self@.dom().finite(),
    {
        self.bufs.len()
    }

    fn find(&self, key: &DeviceBytesKey) -> (r: Option<usize>)
        requires
            self.wf(),
        ensures
            match r {
                Some(i) => i < self.bufs.entries@.len() && self.bufs.entries@[i as int].key == *key
                    && self@.dom().contains(*key) && self@[*key]
                    == self.bufs.entries@[i as int].buf,
                None => !self@.dom().contains(*key),
            },
    {
        let mut i: usize = 0;
        while i < self.bufs.entries.len()
            invariant
                self.wf(),
                i <= self.bufs.entries@.len(),
                forall|j: int| 0 <= j < i ==> (#[trigger] self.bufs.entries@[j]).key != *key,
            decreases self.bufs.entries@.len() - i,
        {
            if self.bufs.entries[i].key == *key {
                proof {
                    self.bufs.lemma_entry(i as int);
                }
                return Some(i);
            }
            i = i + 1;
        }
        None
    }

    /// The buffer of a weight, if it has been uploaded.
    pub fn get(&self, key: &DeviceBytesKey) -> (r: Option<&V>)
        requires
            self.wf(),
        ensures
            match r {
                Some(v) => self@.dom().contains(*key) && *v == self@[*key],
                None => !self@.dom().contains(*key),
            },
    {
        match self.find(key) {
            Some(i) => Some(&self.bufs.entries[i].buf),
            None => None,
        }
    }

    /// Keeps an uploaded weight, unless another upload of it came first.
    pub fn or_insert(&mut self, key: DeviceBytesKey, buf: V)
        requires
            old(self).wf(),
        ensures
            final(self).wf(),
            final(self)@ == kept(old(self)@, key, buf),
            final(self)@.dom() == old(self)@.dom().insert(key),
            forall|k: DeviceBytesKey| #[trigger]
                old(self)@.dom().contains(k) ==> final(self)@[k] == old(self)@[k],
            !old(self)@.dom().contains(key) ==> final(self)@[key] == buf,
    {
        if self.find(&key).is_none() {
            self.bufs.append(key, buf);
        }
    }
}

/// The cache once an upload has come in.
pub open spec fn kept<V>(m: Map<DeviceBytesKey, V>, key: DeviceBytesKey, buf: V) -> Map<
    DeviceBytesKey,
    V,
> {
    if m.dom().contains(key) {
        m
    } else {
        m.insert(key, buf)
    }
}

/// The cache once a run of uploads has come in.
pub open spec fn kept_all<V>(
    m: Map<DeviceBytesKey, V>,
    uploads: Seq<(DeviceBytesKey, V)>,
) -> Map<DeviceBytesKey, V>
    decreases uploads.len(),
{
    if uploads.len() == 0 {
        m
    } else {
        kept(kept_all(m, uploads.drop_last()), uploads.last().0, uploads.last().1)
    }
}

/// A weight that is there stays as it is, whatever is uploaded later.
pub proof fn law_kept_weight_stays<V>(
    m: Map<DeviceBytesKey, V>,
    uploads: Seq<(DeviceBytesKey, V)>,
    key: DeviceBytesKey,
)
    requires
        m.dom().contains(key),
    ensures
        kept_all(m, uploads).dom().contains(key),
        kept_all(m, uploads)[key] == m[key],
    decreases uploads.len(),
{
    if uploads.len() > 0 {
        law_kept_weight_stays(m, uploads.drop_last(), key);
    }
}

/// Of several uploads of a weight that was not there, the first is the one that is kept.
pub proof fn law_first_upload_wins<V>(
    m: Map<DeviceBytesKey, V>,
    uploads: Seq<(DeviceBytesKey, V)>,
    first: int,
)
    requires
        0 <= first < uploads.len(),
        !m.dom().contains(uploads[first].0),
        forall|j: int| 0 <= j < first ==> (#[trigger] uploads[j]).0 != uploads[first].0,
    ensures
        kept_all(m, uploads).dom().contains(uploads[first].0),
        kept_all(m, uploads)[uploads[first].0] == uploads[first].1,
    decreases uploads.len(),
{
    let fewer = uploads.drop_last();
    if first == uploads.len() - 1 {
        lemma_not_uploaded(m, fewer, uploads[first].0);
    } else {
        assert(fewer[first] == uploads[first]);
        assert forall|j: int| 0 <= j < first implies (#[trigger] fewer[j]).0 != fewer[first].0 by {
            assert(fewer[j] == uploads[j]);
        }
        law_first_upload_wins(m, fewer, first);
    }
}

proof fn lemma_not_uploaded<V>(
    m: Map<DeviceBytesKey, V>,
    uploads: Seq<(DeviceBytesKey, V)>,
    key: DeviceBytesKey,
)
    requires
        !m.dom().contains(key),
        forall|j: int| 0 <= j < uploads.len() ==> (#[trigger] uploads[j]).0 != key,
    ensures
        !kept_all(m, uploads).dom().contains(key),
    decreases uploads.len(),
{
    if uploads.len() > 0 {
        let fewer = uploads.drop_last();
        assert forall|j: int| 0 <= j < fewer.len() implies (#[trigger] fewer[j]).0 != key by {
            assert(fewer[j] == uploads[j]);
        }
        lemma_not_uploaded(m, fewer, key);
        assert(uploads[uploads.len() - 1].0 != key);
    }
}

/// State buffers: uploaded when they are first seen, and again at the start of a
/// sequence.
#[derive(Debug)]
pub struct StateCache<V> {
    pub bufs: KeyedBufs<DeviceStateKey, V>,
}

impl<V> StateCache<V> {
    pub open spec fn wf(self) -> bool {
        self.bufs.wf()
    }

    pub open spec fn view(self) -> Map<DeviceStateKey, V> {
        self.bufs@
    }

    pub fn new() -> (c: StateCache<V>)
        ensures
            c.wf(),
            c@ == Map::<DeviceStateKey, V>::empty(),
    {
        StateCache { bufs: KeyedBufs::new() }
    }

    fn find(&self, key: &DeviceStateKey) -> (r: Option<usize>)
        requires
            self.wf(),
        ensures
            match r {
                Some(i) => i < self.bufs.entries@.len() && self.bufs.entries@[i as int].key == *key
                    && self@.dom().contains(*key) && self@[*key]
                    == self.bufs.entries@[i as int].buf,
                None => !self@.dom().contains(*key),
            },
    {
        let mut i: usize = 0;
        while i < self.bufs.entries.len()
            invariant
                self.wf(),
                i <= self.bufs.entries@.len(),
                forall|j: int| 0 <= j < i ==> (#[trigger] self.bufs.entries@[j]).key != *key,
            decreases self.bufs.entries@.len() - i,
        {
            if self.bufs.entries[i].key == *key {
                proof {
                    self.bufs.lemma_entry(i as int);
                }
                return Some(i);
            }
            i = i + 1;
        }
        None
    }

    /// Whether the host's copy of the state has to be uploaded before a step.
    pub fn needs_upload(&self, key: &DeviceStateKey, sequence_pos: usize) -> (r: bool)
        requires
            self.wf(),
        ensures
            r == (sequence_pos == 0 || !self@.dom().contains(*key)),
    {
        sequence_pos == 0 || self.find(key).is_none()
    }

    /// Keeps an uploaded state in place of an earlier one.
    pub fn insert(&mut self, key: DeviceStateKey, buf: V)
        requires
            old(self).wf(),
        ensures
            final(self).wf(),
            final(self)@ == old(self)@.insert(key, buf),
    {
        match self.find(&key) {
            Some(i) => {
                self.bufs.replace_at(i, buf);
            },
            None => {
                self.bufs.append(key, buf);
            },
        }
    }

    /// The state on the device.
    pub fn get(&self, key: &DeviceStateKey) -> (r: Option<&V>)
        requires
            self.wf(),
        ensures
            match r {
                Some(v) => self@.dom().contains(*key) && *v == self@[*key],
                None => !self@.dom().contains(*key),
            },
    {
        match self.find(key) {
            Some(i) => Some(&self.bufs.entries[i].buf),
            None => None,
        }
    }
}

/// An upload brings its weight, unless it was there, and leaves every other weight alone.
pub proof fn law_upload<V>(
    m: Map<DeviceBytesKey, V>,
    key: DeviceBytesKey,
    buf: V,
    other: DeviceBytesKey,
)
    requires
        other != key,
    ensures
        kept(m, key, buf).dom().contains(key),
        kept(m, key, buf).dom().contains(other) <==> m.dom().contains(other),
        m.dom().contains(other) ==> kept(m, key, buf)[other] == m[other],
        m.dom().contains(key) ==> kept(m, key, buf)[key] == m[key],
        !m.dom().contains(key) ==> kept(m, key, buf)[key] == buf,
        kept(kept(m, key, buf), key, buf) == kept(m, key, buf),
{
}

} // verus!
