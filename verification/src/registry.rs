//! The registry of downloads in flight, by content hash.
//!
//! A request that misses the cache looks its hash up here. The first one
//! registers a handle and starts the download; those that follow find that
//! handle and attach to the same download. The owner keeps the registry
//! behind a lock, so each operation is atomic.

use vstd::prelude::*;
use crate::digest::same_digest;

verus! {

/// What a request finds in the registry.
#[derive(Debug, PartialEq, Eq)]
pub enum Lookup<H> {
    /// A download of this hash is in flight: a copy of its handle.
    Existing(H),
    /// No download of this hash was in flight. The handle that came with
    /// the request is now registered, and the request is to start the
    /// download.
    Inserted,
}

/// One download in flight.
struct Entry<H> {
    hash: [u8; 20],
    handle: H,
}

/// The downloads in flight: at most one handle for each content hash.
pub struct Registry<H> {
    entries: Vec<Entry<H>>,
    model: Ghost<Map<Seq<u8>, H>>,
}

/// The registry after a request for `hash` that brings `handle`: a hash
/// that is registered keeps the handle it has.
pub open spec fn after_lookup<H>(registry: Map<Seq<u8>, H>, hash: Seq<u8>, handle: H) -> Map<
    Seq<u8>,
    H,
> {
    if registry.contains_key(hash) {
        registry
    } else {
        registry.insert(hash, handle)
    }
}

impl<H> View for Registry<H> {
    type V = Map<Seq<u8>, H>;

    closed spec fn view(&self) -> Map<Seq<u8>, H> {
        self.model@
    }
}

impl<H> Registry<H> {
    /// The entries are the model, and no hash has two of them.
    pub closed spec fn wf(&self) -> bool {
        &&& forall|i: int|
            0 <= i < self.entries@.len() ==> self.model@.contains_key(
                #[trigger] self.entries@[i].hash@,
            ) && self.model@[self.entries@[i].hash@] == self.entries@[i].handle
        &&& forall|k: Seq<u8>|
            self.model@.contains_key(k) ==> exists|i: int|
                0 <= i < self.entries@.len() && #[trigger] self.entries@[i].hash@ == k
        &&& forall|i: int, j: int|
            0 <= i < j < self.entries@.len() ==> self.entries@[i].hash@ != self.entries@[j].hash@
    }

    /// A registry with no download in flight.
    pub fn new() -> (registry: Registry<H>)
        ensures
            registry.wf(),
            registry@ == Map::<Seq<u8>, H>::empty(),
    {
        Registry { entries: Vec::new(), model: Ghost(Map::empty()) }
    }

    /// Where the entry of `hash` stands, if it has one.
    fn position(&self, hash: &[u8; 20]) -> (at: Option<usize>)
        requires
            self.wf(),
        ensures
            match at {
                Some(i) => i < self.entries@.len() && self.entries@[i as int].hash@ == hash@,
                None => !self@.contains_key(hash@),
            },
    {
        let mut i: usize = 0;
        while i < self.entries.len()
            invariant
                i <= self.entries@.len(),
                forall|k: int| 0 <= k < i ==> self.entries@[k].hash@ != hash@,
            decreases self.entries@.len() - i,
        {
            if same_digest(&self.entries[i].hash, hash) {
                return Some(i);
            }
            i = i + 1;
        }
        None
    }

    /// Whether a download of `hash` is in flight.
    pub fn contains(&self, hash: &[u8; 20]) -> (found: bool)
        requires
            self.wf(),
        ensures
            found == self@.contains_key(hash@),
    {
        self.position(hash).is_some()
    }

    /// How many downloads are in flight.
    pub fn len(&self) -> (count: usize)
        requires
            self.wf(),
        ensures
            self@.dom().finite(),
            count == self@.dom().len(),
    {
        proof {
            self.lemma_count();
        }
        self.entries.len()
    }

    /// The registry holds as many hashes as it has entries.
    proof fn lemma_count(&self)
        requires
            self.wf(),
        ensures
            self@.dom().finite(),
            self@.dom().len() == self.entries@.len(),
    {
        let hashes = self.entries@.map_values(|e: Entry<H>| e.hash@);
        assert(hashes.no_duplicates());
        assert(hashes.to_set() =~= self@.dom()) by {
            assert forall|k: Seq<u8>| self@.dom().contains(k) implies hashes.to_set().contains(
                k,
            ) by {
                let i = choose|i: int|
                    0 <= i < self.entries@.len() && #[trigger] self.entries@[i].hash@ == k;
                assert(hashes[i] == k);
            }
            assert forall|k: Seq<u8>| hashes.to_set().contains(k) implies self@.dom().contains(
                k,
            ) by {
                let i = choose|i: int| 0 <= i < hashes.len() && hashes[i] == k;
                assert(self.entries@[i].hash@ == k);
            }
        }
        hashes.unique_seq_to_set();
    }

    /// Look `hash` up and register `handle` for it if it has none, in one
    /// step. A request that finds a handle gets a copy of it, and the
    /// registry stays as it is.
    pub fn lookup_or_insert(&mut self, hash: [u8; 20], handle: H) -> (found: Lookup<H>) where
        H: Clone,

        requires
            old(self).wf(),
        ensures
            final(self).wf(),
            final(self)@ == after_lookup(old(self)@, hash@, handle),
            match found {
                Lookup::Existing(copy) => old(self)@.contains_key(hash@) && cloned(
                    old(self)@[hash@],
                    copy,
                ),
                Lookup::Inserted => !old(self)@.contains_key(hash@),
            },
    {
        match self.position(&hash) {
            Some(i) => Lookup::Existing(self.entries[i].handle.clone()),
            None => {
                self.entries.push(Entry { hash, handle });
                proof {
                    self.model@ = self.model@.insert(hash@, handle);
                }
                assert(self.wf()) by {
                    let n = old(self).entries@.len() as int;
                    assert forall|k: Seq<u8>| self.model@.contains_key(k) implies exists|i: int|
                        0 <= i < self.entries@.len() && #[trigger] self.entries@[i].hash@
                            == k by {
                        if k == hash@ {
                            assert(self.entries@[n].hash@ == k);
                        } else {
                            let i = choose|i: int|
                                0 <= i < n && #[trigger] old(self).entries@[i].hash@ == k;
                            assert(self.entries@[i].hash@ == k);
                        }
                    }
                    assert forall|i: int| 0 <= i < self.entries@.len() implies self.model@.contains_key(
                    #[trigger] self.entries@[i].hash@) && self.model@[self.entries@[i].hash@]
                        == self.entries@[i].handle by {
                        if i < n {
                            assert(self.entries@[i] == old(self).entries@[i]);
                        }
                    }
                }
                Lookup::Inserted
            },
        }
    }

    /// Take the entry of `hash` out, if it has one. Removing twice is
    /// removing once.
    pub fn remove(&mut self, hash: &[u8; 20])
        requires
            old(self).wf(),
        ensures
            final(self).wf(),
            final(self)@ == old(self)@.remove(hash@),
    {
        match self.position(hash) {
            Some(i) => {
                self.entries.swap_remove(i);
                proof {
                    self.model@ = self.model@.remove(hash@);
                }
                assert(self.wf()) by {
                    let before = old(self).entries@;
                    let n = before.len() as int;
                    assert forall|j: int| 0 <= j < self.entries@.len() implies #[trigger] self.entries@[j]
                        == before[if j == i { n - 1 } else { j }] by {}
                    assert forall|k: Seq<u8>| self.model@.contains_key(k) implies exists|j: int|
                        0 <= j < self.entries@.len() && #[trigger] self.entries@[j].hash@
                            == k by {
                        let b = choose|b: int| 0 <= b < n && #[trigger] before[b].hash@ == k;
                        if b == n - 1 {
                            assert(self.entries@[i as int].hash@ == k);
                        } else {
                            assert(self.entries@[b].hash@ == k);
                        }
                    }
                }
            },
            None => {
                assert(self@.remove(hash@) =~= self@);
            },
        }
    }
}

/// The registry after the requests have been served in order. A request
/// is a hash and the handle that it brings.
pub open spec fn after_requests<H>(
    registry: Map<Seq<u8>, H>,
    requests: Seq<(Seq<u8>, H)>,
) -> Map<Seq<u8>, H>
    decreases requests.len(),
{
    if requests.len() == 0 {
        registry
    } else {
        after_lookup(
            after_requests(registry, requests.drop_last()),
            requests.last().0,
            requests.last().1,
        )
    }
}

/// How many of the requests, served in order, were told to start the
/// download of `hash`.
pub open spec fn started<H>(
    registry: Map<Seq<u8>, H>,
    requests: Seq<(Seq<u8>, H)>,
    hash: Seq<u8>,
) -> nat
    decreases requests.len(),
{
    if requests.len() == 0 {
        0
    } else if requests.last().0 == hash && !after_requests(
        registry,
        requests.drop_last(),
    ).contains_key(hash) {
        started(registry, requests.drop_last(), hash) + 1
    } else {
        started(registry, requests.drop_last(), hash)
    }
}

/// Whether one of the requests is for `hash`.
pub open spec fn requested<H>(requests: Seq<(Seq<u8>, H)>, hash: Seq<u8>) -> bool {
    exists|i: int| 0 <= i < requests.len() && (#[trigger] requests[i]).0 == hash
}

/// Coalescing: in whatever order requests are served, and whatever other
/// hashes are asked for in between, as long as no entry is removed exactly
/// one of the requests for a hash that was not registered is told to start
/// its download, and none of the requests for a hash that was. Every
/// request for the hash finds it registered afterwards.
pub proof fn lemma_coalescing<H>(
    registry: Map<Seq<u8>, H>,
    requests: Seq<(Seq<u8>, H)>,
    hash: Seq<u8>,
)
    ensures
        started(registry, requests, hash) == (if requested(requests, hash)
            && !registry.contains_key(hash) {
            1nat
        } else {
            0nat
        }),
        after_requests(registry, requests).contains_key(hash) <==> registry.contains_key(hash)
            || requested(requests, hash),
    decreases requests.len(),
{
    if requests.len() > 0 {
        let shorter = requests.drop_last();
        lemma_coalescing(registry, shorter, hash);
        if requested(shorter, hash) {
            let i = choose|i: int| 0 <= i < shorter.len() && (#[trigger] shorter[i]).0 == hash;
            assert(requests[i].0 == hash);
        }
        if requests.last().0 == hash {
            assert(requests[requests.len() - 1].0 == hash);
        }
        if requested(requests, hash) && requests.last().0 != hash {
            let i = choose|i: int| 0 <= i < requests.len() && (#[trigger] requests[i]).0 == hash;
            assert(shorter[i].0 == hash);
        }
    }
}

/// The handle that the requests for a hash attach to is the one that the
/// first of them brought: a later request never replaces a handle.
pub proof fn lemma_first_handle_stays<H>(
    registry: Map<Seq<u8>, H>,
    requests: Seq<(Seq<u8>, H)>,
    hash: Seq<u8>,
)
    requires
        registry.contains_key(hash),
    ensures
        after_requests(registry, requests).contains_key(hash),
        after_requests(registry, requests)[hash] == registry[hash],
    decreases requests.len(),
{
    if requests.len() > 0 {
        lemma_first_handle_stays(registry, requests.drop_last(), hash);
    }
}

} // verus!
