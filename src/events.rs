use vstd::prelude::*;

use crate::store::{accepts_url, client_open};
use crate::table::{KeyView, Table};

verus! {

/// Poll interval, in milliseconds, when none is given.
pub const DEFAULT_POLLING_RATE: u64 = 1000;

/// The address of the store when none is given.
pub const DEFAULT_REDIS_URL: &'static str = "redis://127.0.0.1/";

/// The value a callback is invoked with when `lookup` is the outcome of a
/// lookup of `k` and `cache` holds the values observed so far.
///
/// A failed lookup (`None`) reports nothing. A successful one reports its
/// value unless the cache already holds exactly that value for `k`.
pub open spec fn notification(
    cache: Map<KeyView, Seq<char>>,
    k: KeyView,
    lookup: Option<Seq<char>>,
) -> Option<Seq<char>> {
    match lookup {
        Some(v) => if cache.contains_key(k) && cache[k] == v {
            None
        } else {
            Some(v)
        },
        None => None,
    }
}

/// The observation cache after `lookup` was observed for `k`.
pub open spec fn next_cache(
    cache: Map<KeyView, Seq<char>>,
    k: KeyView,
    lookup: Option<Seq<char>>,
) -> Map<KeyView, Seq<char>> {
    match notification(cache, k, lookup) {
        Some(v) => cache.insert(k, v),
        None => cache,
    }
}

/// What one lookup of `k` reports, when `watched` are the watched keys:
/// nothing for a key that is not watched.
pub open spec fn reported(
    watched: Set<KeyView>,
    cache: Map<KeyView, Seq<char>>,
    k: KeyView,
    lookup: Option<Seq<char>>,
) -> Option<Seq<char>> {
    if watched.contains(k) {
        notification(cache, k, lookup)
    } else {
        None
    }
}

/// The observation cache after one lookup of `k`; a key that is not watched
/// leaves it unchanged.
pub open spec fn after_lookup(
    watched: Set<KeyView>,
    cache: Map<KeyView, Seq<char>>,
    k: KeyView,
    lookup: Option<Seq<char>>,
) -> Map<KeyView, Seq<char>> {
    if watched.contains(k) {
        next_cache(cache, k, lookup)
    } else {
        cache
    }
}

/// Why the poller could not begin.
#[derive(Debug, PartialEq, Eq, Structural)]
pub enum StartError {
    /// The configured store address is not one the store client accepts.
    InvalidAddress,
}

/// The watch engine: a registry of watched (hash, field) keys with one
/// callback each, and a cache of the value last observed for each key.
///
/// The poller drives it: for every watched key it looks the field up in the
/// store and hands the outcome to [`RedisEvents::observe`], which says whether
/// the key's callback is to be invoked, and with what value.
pub struct RedisEvents<C> {
    registered: Table<C>,
    redis_url: String,
    polling_rate: u64,
    previous_values: Table<String>,
    started: bool,
}

impl<C> RedisEvents<C> {
    /// The registered callback of each watched key.
    pub closed spec fn watches(&self) -> Map<KeyView, C> {
        self.registered.map()
    }

    /// The value last observed for each key that was ever read successfully.
    pub closed spec fn cache(&self) -> Map<KeyView, Seq<char>> {
        Map::new(
            |k: KeyView| self.previous_values.map().contains_key(k),
            |k: KeyView| self.previous_values.map()[k]@,
        )
    }

    pub closed spec fn url(&self) -> Seq<char> {
        self.redis_url@
    }

    pub closed spec fn rate(&self) -> u64 {
        self.polling_rate
    }

    pub closed spec fn is_started(&self) -> bool {
        self.started
    }

    /// Every cached key is a watched key.
    pub closed spec fn wf(&self) -> bool {
        &&& self.registered.wf()
        &&& self.previous_values.wf()
        &&& self.cache().dom().subset_of(self.watches().dom())
    }

    /// An engine with nothing watched, for the store at `redis_url`, polling
    /// every `polling_rate` milliseconds (default 1000).
    pub fn new_with_url(redis_url: &str, polling_rate: Option<u64>) -> (r: Self)
        ensures
            r.wf(),
            r.watches() == Map::<KeyView, C>::empty(),
            r.cache() == Map::<KeyView, Seq<char>>::empty(),
            r.url() == redis_url@,
            r.rate() == polling_rate.unwrap_or(DEFAULT_POLLING_RATE),
            !r.is_started(),
    {
        let r = RedisEvents {
            registered: Table::new(),
            redis_url: redis_url.to_owned(),
            polling_rate: polling_rate.unwrap_or(DEFAULT_POLLING_RATE),
            previous_values: Table::new(),
            started: false,
        };
        assert(r.cache() =~= Map::<KeyView, Seq<char>>::empty());
        r
    }

    /// An engine with nothing watched, for the store at the local default
    /// address, polling every `polling_rate` milliseconds (default 1000).
    pub fn new(polling_rate: Option<u64>) -> (r: Self)
        ensures
            r.wf(),
            r.watches() == Map::<KeyView, C>::empty(),
            r.cache() == Map::<KeyView, Seq<char>>::empty(),
            r.url() == DEFAULT_REDIS_URL@,
            r.rate() == polling_rate.unwrap_or(DEFAULT_POLLING_RATE),
            !r.is_started(),
    {
        Self::new_with_url(DEFAULT_REDIS_URL, polling_rate)
    }

    /// Watches `field` of `hash` with `callback`, replacing any callback
    /// registered for that key before.
    pub fn register(&mut self, hash: &str, field: &str, callback: C)
        requires
            old(self).wf(),
        ensures
            final(self).wf(),
            final(self).watches() == old(self).watches().insert((hash@, field@), callback),
            final(self).cache() == old(self).cache(),
            final(self).url() == old(self).url(),
            final(self).rate() == old(self).rate(),
            final(self).is_started() == old(self).is_started(),
    {
        self.registered.insert(hash.to_owned(), field.to_owned(), callback);
    }

    /// The value last observed for `field` of `hash`; `None` while it is
    /// still unknown.
    pub fn get_value(&self, hash: &str, field: &str) -> (r: Option<String>)
        requires
            self.wf(),
        ensures
            match r {
                Some(s) => self.cache().contains_key((hash@, field@)) && s@ == self.cache()[(
                    hash@,
                    field@,
                )],
                None => !self.cache().contains_key((hash@, field@)),
            },
    {
        let h = hash.to_owned();
        let f = field.to_owned();
        match self.previous_values.get(&h, &f) {
            Some(s) => Some(s.clone()),
            None => None,
        }
    }

    /// The callback registered for `field` of `hash`, if it is watched.
    pub fn callback(&self, hash: &str, field: &str) -> (r: Option<&C>)
        requires
            self.wf(),
        ensures
            match r {
                Some(c) => self.watches().contains_key((hash@, field@)) && *c == self.watches()[(
                    hash@,
                    field@,
                )],
                None => !self.watches().contains_key((hash@, field@)),
            },
    {
        let h = hash.to_owned();
        let f = field.to_owned();
        self.registered.get(&h, &f)
    }

    /// The watched keys, each once, in the order they were first registered:
    /// the sweep of one poll cycle.
    pub fn watched_keys(&self) -> (r: Vec<(String, String)>)
        requires
            self.wf(),
        ensures
            forall|i: int|
                0 <= i < r@.len() ==> self.watches().contains_key(
                    (#[trigger] r@[i].0@, r@[i].1@),
                ),
            forall|k: KeyView|
                #![trigger self.watches().contains_key(k)]
                self.watches().contains_key(k) ==> exists|i: int|
                    0 <= i < r@.len() && (r@[i].0@, r@[i].1@) == k,
            forall|i: int, j: int|
                0 <= i < j < r@.len() ==> (#[trigger] r@[i].0@, r@[i].1@) != (
                    #[trigger] r@[j].0@,
                    r@[j].1@,
                ),
    {
        proof {
            self.registered.lemma_rows_are_keys();
        }
        let n: usize = self.registered.len();
        let mut r: Vec<(String, String)> = Vec::new();
        let mut i: usize = 0;
        while i < n
            invariant
                n == self.registered.rows().len(),
                i <= n,
                r@.len() == i,
                forall|j: int|
                    0 <= j < i ==> (#[trigger] r@[j].0@, r@[j].1@) == self.registered.rows()[j].key(),
            decreases n - i,
        {
            let k = self.registered.key_at(i);
            r.push(k);
            i = i + 1;
        }
        assert forall|k: KeyView| #[trigger] self.watches().contains_key(k) implies exists|i: int|
            0 <= i < r@.len() && (r@[i].0@, r@[i].1@) == k by {
            let i = choose|i: int|
                0 <= i < self.registered.rows().len() && self.registered.rows()[i].key() == k;
            assert((r@[i].0@, r@[i].1@) == k);
        }
        r
    }

    /// Takes the outcome of one lookup of `field` of `hash`: `Some` with the
    /// value read, or `None` when the lookup failed.
    ///
    /// Returns the value the key's callback is to be invoked with, if any,
    /// and records it as the key's last observed value. A key that is not
    /// watched is left alone.
    pub fn observe(&mut self, hash: &str, field: &str, lookup: Option<String>) -> (r: Option<
        String,
    >)
        requires
            old(self).wf(),
        ensures
            final(self).wf(),
            final(self).watches() == old(self).watches(),
            final(self).url() == old(self).url(),
            final(self).rate() == old(self).rate(),
            final(self).is_started() == old(self).is_started(),
            r.deep_view() == reported(
                old(self).watches().dom(),
                old(self).cache(),
                (hash@, field@),
                lookup.deep_view(),
            ),
            final(self).cache() == after_lookup(
                old(self).watches().dom(),
                old(self).cache(),
                (hash@, field@),
                lookup.deep_view(),
            ),
    {
        let h = hash.to_owned();
        let f = field.to_owned();
        if self.registered.find(&h, &f).is_none() {
            return None;
        }
        match lookup {
            None => None,
            Some(value) => {
                let changed = match self.previous_values.get(&h, &f) {
                    Some(prev) => *prev != value,
                    None => true,
                };
                if changed {
                    let ghost old_cache = self.cache();
                    let reported = value.clone();
                    self.previous_values.insert(h, f, value);
                    assert(self.cache() =~= old_cache.insert((hash@, field@), reported@));
                    Some(reported)
                } else {
                    None
                }
            },
        }
    }

    /// Marks the poller as started; true only on the first call, so that a
    /// second start does not run a second poller.
    pub fn mark_started(&mut self) -> (first: bool)
        requires
            old(self).wf(),
        ensures
            final(self).wf(),
            first == !old(self).is_started(),
            final(self).is_started(),
            final(self).watches() == old(self).watches(),
            final(self).cache() == old(self).cache(),
            final(self).url() == old(self).url(),
            final(self).rate() == old(self).rate(),
    {
        let first = !self.started;
        self.started = true;
        first
    }

    /// The store address this engine polls.
    pub fn redis_url(&self) -> (r: &str)
        ensures
            r@ == self.url(),
    {
        self.redis_url.as_str()
    }

    /// The poll interval, in milliseconds.
    pub fn polling_rate(&self) -> (r: u64)
        ensures
            r == self.rate(),
    {
        self.polling_rate
    }

    /// A store client for the configured address; fails when the address
    /// is not one the client accepts. Does not connect.
    pub fn open_client(&self) -> (r: Result<redis::Client, StartError>)
        ensures
            r is Ok <==> accepts_url(self.url()),
            r is Err ==> r == Err::<redis::Client, StartError>(StartError::InvalidAddress),
    {
        match client_open(self.redis_url.as_str()) {
            Ok(c) => Ok(c),
            Err(_) => Err(StartError::InvalidAddress),
        }
    }
}

} // verus!
