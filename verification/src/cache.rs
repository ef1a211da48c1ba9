//! The key/value cache layer.
//!
//! Adapters use a pluggable get/put store for idempotency and dedup
//! bookkeeping.  The store is organized in named buckets; each bucket keeps a
//! bounded history of revisions per key (the last ten, by default).  Buckets
//! are created lazily: `init` fetches the named bucket and creates it only if
//! it is absent, so initializing the same bucket twice neither fails nor
//! duplicates it.

use vstd::prelude::*;

verus! {

/// How many revisions per key a bucket keeps by default.
pub const DEFAULT_HISTORY: usize = 10;

/// Errors raised by cache operations.
#[derive(Debug)]
pub enum Error {
    /// The key has never been set (the buffer that came back is empty).
    EmptyBuffer,
    /// The cache was used before `init` attached it to a bucket.
    MissingCacheStore,
    /// The bucket this cache was attached to no longer exists in the store.
    BucketMissing,
    /// A required configuration attribute was not provided to the builder.
    MissingRequiredAttribute(String),
}

/// Model of a bucket: its history depth and its keyed revision lists,
/// oldest revision first.
#[verifier::ext_equal]
pub struct BucketView {
    pub history: nat,
    pub entries: Seq<(Seq<u8>, Seq<Seq<u8>>)>,
}

/// One named bucket: per-key revision lists with a bounded depth.
pub struct Bucket {
    /// How many revisions of each key are retained.
    pub history: usize,
    /// Key to revisions, oldest first.
    pub entries: Vec<(Vec<u8>, Vec<Vec<u8>>)>,
}

impl View for Bucket {
    type V = BucketView;

    open spec fn view(&self) -> BucketView {
        BucketView {
            history: self.history as nat,
            entries: self.entries@.map_values(
                |e: (Vec<u8>, Vec<Vec<u8>>)| (e.0@, e.1@.map_values(|v: Vec<u8>| v@)),
            ),
        }
    }
}

/// The backing store: the named buckets that exist.
pub struct Registry {
    /// Bucket name to bucket.
    pub buckets: Vec<(Vec<u8>, Bucket)>,
}

impl View for Registry {
    type V = Seq<(Seq<u8>, BucketView)>;

    open spec fn view(&self) -> Seq<(Seq<u8>, BucketView)> {
        self.buckets@.map_values(|e: (Vec<u8>, Bucket)| (e.0@, e.1@))
    }
}

/// Whether an association list holds a given key.
pub open spec fn spec_has<V>(entries: Seq<(Seq<u8>, V)>, key: Seq<u8>) -> bool {
    exists|i: int| 0 <= i < entries.len() && (#[trigger] entries[i]).0 == key
}

/// No key occurs twice.
pub open spec fn unique_keys<V>(entries: Seq<(Seq<u8>, V)>) -> bool {
    forall|i: int, j: int|
        0 <= i < j < entries.len() ==> (#[trigger] entries[i]).0 != (#[trigger] entries[j]).0
}

/// What fetch-or-create does to the store: an existing bucket is left
/// alone; an absent one is created empty with the default history depth.
pub open spec fn spec_init(
    reg: Seq<(Seq<u8>, BucketView)>,
    bucket: Seq<u8>,
) -> Seq<(Seq<u8>, BucketView)> {
    if spec_has(reg, bucket) {
        reg
    } else {
        reg.push((bucket, BucketView { history: DEFAULT_HISTORY as nat, entries: Seq::empty() }))
    }
}

/// What storing one revision does to a revision list: append, then keep only
/// the most recent `history` revisions.
pub open spec fn spec_push_rev(revs: Seq<Seq<u8>>, v: Seq<u8>, history: nat) -> Seq<Seq<u8>> {
    if revs.push(v).len() <= history {
        revs.push(v)
    } else {
        revs.push(v).skip(revs.push(v).len() - history)
    }
}

/// The position of a key in an association list (meaningful under
/// [`spec_has`]; unique under [`unique_keys`]).
pub open spec fn spec_index_of<V>(entries: Seq<(Seq<u8>, V)>, key: Seq<u8>) -> int {
    choose|i: int| 0 <= i < entries.len() && (#[trigger] entries[i]).0 == key
}

/// What storing one revision does to a bucket: the key's revision list gains
/// the value, bounded by the bucket's history depth; an unseen key is added.
pub open spec fn spec_bucket_put(b: BucketView, key: Seq<u8>, v: Seq<u8>) -> BucketView {
    if spec_has(b.entries, key) {
        let j = spec_index_of(b.entries, key);
        BucketView {
            history: b.history,
            entries: b.entries.update(j, (key, spec_push_rev(b.entries[j].1, v, b.history))),
        }
    } else {
        BucketView {
            history: b.history,
            entries: b.entries.push((key, spec_push_rev(Seq::empty(), v, b.history))),
        }
    }
}

/// What storing one revision does to the whole store: only the named bucket
/// changes, and only at the stored key.
pub open spec fn spec_put(
    reg: Seq<(Seq<u8>, BucketView)>,
    name: Seq<u8>,
    key: Seq<u8>,
    v: Seq<u8>,
) -> Seq<(Seq<u8>, BucketView)> {
    if spec_has(reg, name) {
        let i = spec_index_of(reg, name);
        reg.update(i, (name, spec_bucket_put(reg[i].1, key, v)))
    } else {
        reg
    }
}

/// The latest revision of a key in the named bucket, if any.
pub open spec fn spec_get(
    reg: Seq<(Seq<u8>, BucketView)>,
    name: Seq<u8>,
    key: Seq<u8>,
) -> Option<Seq<u8>> {
    if spec_has(reg, name) {
        let b = reg[spec_index_of(reg, name)].1;
        if spec_has(b.entries, key) {
            let revs = b.entries[spec_index_of(b.entries, key)].1;
            if revs.len() > 0 {
                Some(revs.last())
            } else {
                None
            }
        } else {
            None
        }
    } else {
        None
    }
}

impl Registry {
    /// A store with no buckets.
    pub fn new() -> (r: Registry)
        ensures
            r@ == Seq::<(Seq<u8>, BucketView)>::empty(),
            r.wf(),
    {
        let r = Registry { buckets: Vec::new() };
        proof {
            assert(r@ =~= Seq::<(Seq<u8>, BucketView)>::empty());
        }
        r
    }

    /// Internal consistency: bucket names are unique, so are the keys
    /// within each bucket, and every bucket retains at least one revision
    /// per key.
    pub open spec fn wf(&self) -> bool {
        &&& unique_keys(self@)
        &&& forall|i: int|
            0 <= i < self@.len() ==> unique_keys((#[trigger] self@[i]).1.entries)
        &&& forall|i: int| 0 <= i < self@.len() ==> (#[trigger] self@[i]).1.history >= 1
    }

    fn find_bucket(&self, name: &Vec<u8>) -> (r: Option<usize>)
        ensures
            r matches Some(i) ==> i < self@.len() && self@[i as int].0 == name@,
            r is None ==> forall|j: int| 0 <= j < self@.len() ==> (#[trigger] self@[j]).0 != name@,
    {
        let mut i: usize = 0;
        while i < self.buckets.len()
            invariant
                i <= self.buckets@.len(),
                forall|j: int| 0 <= j < i ==> (#[trigger] self@[j]).0 != name@,
            decreases self.buckets@.len() - i,
        {
            if crate::text::bytes_eq(&self.buckets[i].0, name) {
                proof {
                    assert(self@[i as int].0 == name@);
                }
                return Some(i);
            }
            i = i + 1;
        }
        None
    }
}

/// A cache handle: configured with a credentials path, attached to one
/// bucket of the backing store by `init`.
#[derive(Debug)]
pub struct Cache {
    credentials_path: String,
    store: Option<Vec<u8>>,
}

impl Cache {
    /// The configured credentials path.
    pub closed spec fn spec_credentials_path(&self) -> Seq<char> {
        self.credentials_path@
    }

    /// The bucket this cache is attached to, once `init` has run.
    pub closed spec fn spec_store(&self) -> Option<Seq<u8>> {
        match self.store {
            Some(ref b) => Some(b@),
            None => None,
        }
    }

    /// Fetch-or-create the named bucket and attach this cache to it.
    /// Creating is lazy and idempotent: an existing bucket is fetched as it
    /// is, an absent one is created empty with the default history depth;
    /// either way the returned cache is usable and no duplicate appears.
    pub fn init(self, registry: &mut Registry, bucket: &Vec<u8>) -> (r: Result<Cache, Error>)
        requires
            old(registry).wf(),
        ensures
            final(registry).wf(),
            final(registry)@ == spec_init(old(registry)@, bucket@),
            r matches Ok(c) && c.spec_store() == Some(bucket@) && c.spec_credentials_path()
                == self.spec_credentials_path(),
    {
        match registry.find_bucket(bucket) {
            Some(_) => {
                proof {
                    assert(spec_has(registry@, bucket@));
                }
            },
            None => {
                proof {
                    assert(!spec_has(registry@, bucket@));
                }
                let ghost old_reg = registry@;
                registry.buckets.push(
                    (
                        crate::text::clone_bytes(bucket),
                        Bucket { history: DEFAULT_HISTORY, entries: Vec::new() },
                    ),
                );
                proof {
                    assert(registry@ =~~= spec_init(old_reg, bucket@));
                    assert forall|i: int, j: int| 0 <= i < j < registry@.len() implies (
                    #[trigger] registry@[i]).0 != (#[trigger] registry@[j]).0 by {
                        if j == registry@.len() - 1 {
                            assert(registry@[i] == old_reg[i]);
                        }
                    }
                    assert forall|k: int| 0 <= k < registry@.len() implies unique_keys(
                        (#[trigger] registry@[k]).1.entries,
                    ) by {
                        if k < old_reg.len() {
                            assert(registry@[k] == old_reg[k]);
                        } else {
                            assert(registry@[k].1.entries.len() == 0);
                        }
                    }
                    assert forall|k: int| 0 <= k < registry@.len() implies (
                    #[trigger] registry@[k]).1.history >= 1 by {
                        if k < old_reg.len() {
                            assert(registry@[k] == old_reg[k]);
                        } else {
                            assert(registry@[k].1.history == DEFAULT_HISTORY as nat);
                        }
                    }
                }
            },
        }
        Ok(Cache { credentials_path: self.credentials_path, store: Some(crate::text::clone_bytes(bucket)) })
    }

    /// Store a value under a key in this cache's bucket: the key's revision
    /// history gains the value, bounded by the bucket's history depth.
    /// Fails if the cache was never initialized or its bucket is gone.
    pub fn put(&self, registry: &mut Registry, key: &Vec<u8>, value: Vec<u8>) -> (r: Result<
        (),
        Error,
    >)
        requires
            old(registry).wf(),
        ensures
            final(registry).wf(),
            match self.spec_store() {
                None => r matches Err(Error::MissingCacheStore) && final(registry)@ == old(
                    registry,
                )@,
                Some(name) => if spec_has(old(registry)@, name) {
                    r is Ok && final(registry)@ == spec_put(old(registry)@, name, key@, value@)
                } else {
                    r matches Err(Error::BucketMissing) && final(registry)@ == old(registry)@
                },
            },
    {
        let name = match &self.store {
            None => {
                return Err(Error::MissingCacheStore);
            },
            Some(name) => name,
        };
        let i = match registry.find_bucket(name) {
            None => {
                return Err(Error::BucketMissing);
            },
            Some(i) => i,
        };
        let ghost old_reg = registry@;
        let ghost spec_i = spec_index_of(old_reg, name@);
        proof {
            assert(spec_has(old_reg, name@));
            assert(old_reg[spec_i].0 == name@);
            assert(spec_i == i as int);
            assert(unique_keys(old_reg[i as int].1.entries));
        }
        let mut entry = registry.buckets.remove(i);
        let ghost bucket_view = entry.1@;
        proof {
            assert(bucket_view == old_reg[i as int].1);
        }
        let history = entry.1.history;
        match find_entry(&entry.1.entries, key) {
            Some(j) => {
                proof {
                    assert(bucket_view.entries[j as int].0 == key@);
                    assert(spec_has(bucket_view.entries, key@));
                    assert(spec_index_of(bucket_view.entries, key@) == j as int) by {
                        let c = spec_index_of(bucket_view.entries, key@);
                        assert(bucket_view.entries[c].0 == key@);
                        if c < j as int {
                            assert(bucket_view.entries[c].0 != bucket_view.entries[j as int].0);
                        }
                        if c > j as int {
                            assert(bucket_view.entries[j as int].0 != bucket_view.entries[c].0);
                        }
                    }
                }
                let mut kv = entry.1.entries.remove(j);
                let ghost revs0 = bucket_view.entries[j as int].1.push(value@);
                kv.1.push(value);
                proof {
                    assert(kv.1@.map_values(|v: Vec<u8>| v@) =~= revs0);
                    assert(revs0.skip(0) =~= revs0);
                }
                proof {
                    assert(kv.0@ == key@);
                }
                while kv.1.len() > history
                    invariant
                        kv.1@.map_values(|v: Vec<u8>| v@) == revs0.skip(
                            revs0.len() - kv.1@.len(),
                        ),
                        kv.1@.len() <= revs0.len(),
                        revs0.len() > history ==> kv.1@.len() >= history,
                        revs0.len() <= history ==> kv.1@.len() == revs0.len(),
                        kv.0@ == key@,
                    decreases kv.1@.len(),
                {
                    let ghost before = kv.1@.map_values(|v: Vec<u8>| v@);
                    kv.1.remove(0);
                    proof {
                        assert(kv.1@.map_values(|v: Vec<u8>| v@) =~= before.skip(1));
                        assert(before.skip(1) =~= revs0.skip(revs0.len() - kv.1@.len()));
                    }
                }
                proof {
                    if revs0.len() <= history as nat {
                        assert(kv.1@.len() == revs0.len());
                        assert(revs0.skip(0) =~= revs0);
                    } else {
                        assert(kv.1@.len() == history);
                    }
                    assert(kv.1@.map_values(|v: Vec<u8>| v@) =~= spec_push_rev(
                        bucket_view.entries[j as int].1,
                        value@,
                        history as nat,
                    ));
                }
                proof {
                    assert(kv.0@ == key@);
                }
                entry.1.entries.insert(j, kv);
                proof {
                    assert(entry.1@.entries =~~= bucket_view.entries.update(
                        j as int,
                        (key@, spec_push_rev(bucket_view.entries[j as int].1, value@, history as nat)),
                    ));
                    assert(entry.1@ =~~= spec_bucket_put(bucket_view, key@, value@));
                    assert forall|a: int, b: int|
                        0 <= a < b < entry.1@.entries.len() implies (
                    #[trigger] entry.1@.entries[a]).0 != (#[trigger] entry.1@.entries[b]).0 by {
                        assert(entry.1@.entries[a].0 == bucket_view.entries[a].0);
                        assert(entry.1@.entries[b].0 == bucket_view.entries[b].0);
                    }
                }
            },
            None => {
                proof {
                    assert(!spec_has(bucket_view.entries, key@));
                }
                let mut revs: Vec<Vec<u8>> = Vec::new();
                revs.push(value);
                let ghost revs0 = seq![revs@.map_values(|v: Vec<u8>| v@)[0]];
                proof {
                    assert(revs@.map_values(|v: Vec<u8>| v@) =~= Seq::<Seq<u8>>::empty().push(
                        revs@[0]@,
                    ));
                }
                while revs.len() > history
                    invariant
                        revs@.len() <= 1,
                        revs@.len() == 1 ==> revs@.map_values(|v: Vec<u8>| v@)
                            == Seq::<Seq<u8>>::empty().push(value@),
                        history >= 1 ==> revs@.len() == 1,
                    decreases revs@.len(),
                {
                    revs.remove(0);
                    proof {
                        assert(revs@.map_values(|v: Vec<u8>| v@) =~= Seq::<Seq<u8>>::empty());
                    }
                }
                proof {
                    if history == 0 {
                        assert(revs@.len() == 0);
                        assert(revs@.map_values(|v: Vec<u8>| v@) =~= Seq::<Seq<u8>>::empty());
                        assert(Seq::<Seq<u8>>::empty().push(value@).skip(1) =~= Seq::<
                            Seq<u8>,
                        >::empty());
                    }
                    assert(revs@.map_values(|v: Vec<u8>| v@) =~= spec_push_rev(
                        Seq::empty(),
                        value@,
                        history as nat,
                    ));
                }
                entry.1.entries.push((crate::text::clone_bytes(key), revs));
                proof {
                    assert(entry.1@ =~~= spec_bucket_put(bucket_view, key@, value@));
                    assert forall|a: int, b: int|
                        0 <= a < b < entry.1@.entries.len() implies (
                    #[trigger] entry.1@.entries[a]).0 != (#[trigger] entry.1@.entries[b]).0 by {
                        if b == entry.1@.entries.len() - 1 {
                            assert(entry.1@.entries[a].0 == bucket_view.entries[a].0);
                        } else {
                            assert(entry.1@.entries[a].0 == bucket_view.entries[a].0);
                            assert(entry.1@.entries[b].0 == bucket_view.entries[b].0);
                        }
                    }
                }
            },
        }
        let ghost new_bucket = entry.1@;
        registry.buckets.insert(i, entry);
        proof {
            assert(registry@ =~~= spec_put(old_reg, name@, key@, value@));
            assert forall|a: int, b: int| 0 <= a < b < registry@.len() implies (
            #[trigger] registry@[a]).0 != (#[trigger] registry@[b]).0 by {
                assert(registry@[a].0 == old_reg[a].0);
                assert(registry@[b].0 == old_reg[b].0);
            }
            assert forall|k: int| 0 <= k < registry@.len() implies unique_keys(
                (#[trigger] registry@[k]).1.entries,
            ) by {
                if k == i as int {
                    assert(registry@[k].1 == new_bucket);
                } else {
                    assert(registry@[k] == old_reg[k]);
                }
            }
            assert forall|k: int| 0 <= k < registry@.len() implies (
            #[trigger] registry@[k]).1.history >= 1 by {
                if k == i as int {
                    assert(registry@[k].1 == new_bucket);
                    assert(new_bucket.history == bucket_view.history);
                } else {
                    assert(registry@[k] == old_reg[k]);
                }
            }
        }
        Ok(())
    }

    /// Fetch the latest stored revision of a key from this cache's bucket.
    /// Fails with an empty-buffer error when the key has never been set, and
    /// if the cache was never initialized or its bucket is gone.
    pub fn get(&self, registry: &Registry, key: &Vec<u8>) -> (r: Result<Vec<u8>, Error>)
        requires
            registry.wf(),
        ensures
            match self.spec_store() {
                None => r matches Err(Error::MissingCacheStore),
                Some(name) => if spec_has(registry@, name) {
                    match spec_get(registry@, name, key@) {
                        Some(v) => r matches Ok(b) && b@ == v,
                        None => r matches Err(Error::EmptyBuffer),
                    }
                } else {
                    r matches Err(Error::BucketMissing)
                },
            },
    {
        let name = match &self.store {
            None => {
                return Err(Error::MissingCacheStore);
            },
            Some(name) => name,
        };
        let i = match registry.find_bucket(name) {
            None => {
                return Err(Error::BucketMissing);
            },
            Some(i) => i,
        };
        proof {
            assert(spec_has(registry@, name@));
            assert(spec_index_of(registry@, name@) == i as int);
        }
        let bucket = &registry.buckets[i].1;
        match find_entry(&bucket.entries, key) {
            None => {
                proof {
                    assert(!spec_has(bucket@.entries, key@));
                }
                Err(Error::EmptyBuffer)
            },
            Some(j) => {
                proof {
                    assert(bucket@ == registry@[i as int].1);
                    assert(unique_keys(bucket@.entries));
                    assert(bucket@.entries[j as int].0 == key@);
                    assert(spec_has(bucket@.entries, key@));
                    assert(spec_index_of(bucket@.entries, key@) == j as int) by {
                        let c = spec_index_of(bucket@.entries, key@);
                        assert(bucket@.entries[c].0 == key@);
                        if c < j as int {
                            assert(bucket@.entries[c].0 != bucket@.entries[j as int].0);
                        }
                        if c > j as int {
                            assert(bucket@.entries[j as int].0 != bucket@.entries[c].0);
                        }
                    }
                }
                let revs = &bucket.entries[j].1;
                if revs.len() == 0 {
                    Err(Error::EmptyBuffer)
                } else {
                    let v = crate::text::clone_bytes(&revs[revs.len() - 1]);
                    proof {
                        assert(bucket@.entries[j as int].1.last() == revs@[revs@.len() - 1]@);
                    }
                    Ok(v)
                }
            },
        }
    }
}

fn find_entry(entries: &Vec<(Vec<u8>, Vec<Vec<u8>>)>, key: &Vec<u8>) -> (r: Option<usize>)
    ensures
        r matches Some(j) ==> j < entries@.len() && entries@[j as int].0@ == key@,
        r is None ==> forall|j: int| 0 <= j < entries@.len() ==> (#[trigger] entries@[j]).0@
            != key@,
{
    let mut i: usize = 0;
    while i < entries.len()
        invariant
            i <= entries@.len(),
            forall|j: int| 0 <= j < i ==> (#[trigger] entries@[j]).0@ != key@,
        decreases entries@.len() - i,
    {
        if crate::text::bytes_eq(&entries[i].0, key) {
            return Some(i);
        }
        i = i + 1;
    }
    None
}

/// Builder for a [`Cache`].
pub struct CacheBuilder {
    credentials_path: Option<String>,
}

impl CacheBuilder {
    /// The credentials path set so far.
    pub closed spec fn spec_credentials_path(&self) -> Option<Seq<char>> {
        match self.credentials_path {
            Some(ref p) => Some(p@),
            None => None,
        }
    }

    /// Creates a new `CacheBuilder` with no attribute set.
    pub fn new() -> (r: CacheBuilder)
        ensures
            r.spec_credentials_path() is None,
    {
        CacheBuilder { credentials_path: None }
    }

    /// Sets the path of the credentials file used to reach the backing
    /// store.
    pub fn credentials_path(self, credentials_path: String) -> (r: CacheBuilder)
        ensures
            r.spec_credentials_path() == Some(credentials_path@),
    {
        CacheBuilder { credentials_path: Some(credentials_path) }
    }

    /// Builds the `Cache`, not yet attached to any bucket.  Fails when the
    /// required credentials path was not provided.
    pub fn build(self) -> (r: Result<Cache, Error>)
        ensures
            r is Ok <==> self.spec_credentials_path() is Some,
            r matches Ok(c) ==> c.spec_credentials_path() == self.spec_credentials_path()->0
                && c.spec_store() is None,
            r matches Err(e) ==> e matches Error::MissingRequiredAttribute(s) && s@
                == "credentials"@,
    {
        match self.credentials_path {
            Some(p) => Ok(Cache { credentials_path: p, store: None }),
            None => Err(Error::MissingRequiredAttribute("credentials".to_owned())),
        }
    }
}

/// Idempotent bucket creation: initializing the same bucket name a second
/// time finds the bucket that the first initialization ensured and leaves
/// the store exactly as it was — the bucket exists, usable, unduplicated.
pub proof fn lemma_init_idempotent(reg: Seq<(Seq<u8>, BucketView)>, bucket: Seq<u8>)
    ensures
        spec_has(spec_init(reg, bucket), bucket),
        spec_init(spec_init(reg, bucket), bucket) == spec_init(reg, bucket),
{
    if !spec_has(reg, bucket) {
        let r2 = spec_init(reg, bucket);
        assert(r2[reg.len() as int].0 == bucket);
        assert(spec_has(r2, bucket));
    }
}

} // verus!
