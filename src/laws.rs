use vstd::prelude::*;

use crate::events::{after_lookup, reported, RedisEvents};
use crate::table::KeyView;

verus! {

/// One lookup made by the poller: the key, and the value read (`None` when
/// the lookup failed).
pub type Lookup = (KeyView, Option<Seq<char>>);

/// The observation cache after the poller handed `lookups` over in order.
pub open spec fn cache_after(
    watched: Set<KeyView>,
    cache: Map<KeyView, Seq<char>>,
    lookups: Seq<Lookup>,
) -> Map<KeyView, Seq<char>>
    decreases lookups.len(),
{
    if lookups.len() == 0 {
        cache
    } else {
        cache_after(
            watched,
            after_lookup(watched, cache, lookups[0].0, lookups[0].1),
            lookups.drop_first(),
        )
    }
}

/// The values that `k`'s callback is invoked with while the poller hands
/// `lookups` over in order, one per invocation.
pub open spec fn reports_for(
    watched: Set<KeyView>,
    cache: Map<KeyView, Seq<char>>,
    lookups: Seq<Lookup>,
    k: KeyView,
) -> Seq<Seq<char>>
    decreases lookups.len(),
{
    if lookups.len() == 0 {
        Seq::empty()
    } else {
        let here: Seq<Seq<char>> = if lookups[0].0 == k {
            match reported(watched, cache, lookups[0].0, lookups[0].1) {
                Some(v) => seq![v],
                None => Seq::empty(),
            }
        } else {
            Seq::empty()
        };
        here + reports_for(
            watched,
            after_lookup(watched, cache, lookups[0].0, lookups[0].1),
            lookups.drop_first(),
            k,
        )
    }
}

/// A key that no lookup reads successfully stays unknown, and its callback
/// is never invoked.
pub proof fn lemma_unread_key_stays_unknown(
    watched: Set<KeyView>,
    cache: Map<KeyView, Seq<char>>,
    lookups: Seq<Lookup>,
    k: KeyView,
)
    requires
        !cache.contains_key(k),
        forall|i: int| 0 <= i < lookups.len() && #[trigger] lookups[i].0 == k ==> lookups[i].1 is None,
    ensures
        !cache_after(watched, cache, lookups).contains_key(k),
        reports_for(watched, cache, lookups, k).len() == 0,
    decreases lookups.len(),
{
    if lookups.len() > 0 {
        let next = after_lookup(watched, cache, lookups[0].0, lookups[0].1);
        let rest = lookups.drop_first();
        assert(!next.contains_key(k));
        assert forall|i: int| 0 <= i < rest.len() && #[trigger] rest[i].0 == k implies rest[i].1 is None by {
            assert(rest[i] == lookups[i + 1]);
        }
        lemma_unread_key_stays_unknown(watched, next, rest, k);
    }
}

/// The first successful lookup of a watched key invokes its callback exactly
/// once, with the value read, and makes that value the key's last value.
pub proof fn lemma_first_read_is_reported(
    watched: Set<KeyView>,
    cache: Map<KeyView, Seq<char>>,
    k: KeyView,
    v: Seq<char>,
)
    requires
        watched.contains(k),
        !cache.contains_key(k),
    ensures
        reported(watched, cache, k, Some(v)) == Some(v),
        reports_for(watched, cache, seq![(k, Some(v))], k) == seq![v],
        cache_after(watched, cache, seq![(k, Some(v))]).contains_key(k),
        cache_after(watched, cache, seq![(k, Some(v))])[k] == v,
{
    let l: Seq<Lookup> = seq![(k, Some(v))];
    let next = after_lookup(watched, cache, k, Some(v));
    assert(l[0] == (k, Some(v)));
    assert(l.drop_first().len() == 0);
    assert(reports_for(watched, next, l.drop_first(), k) == Seq::<Seq<char>>::empty());
    assert(cache_after(watched, next, l.drop_first()) == next);
    assert(seq![v] + Seq::<Seq<char>>::empty() =~= seq![v]);
}

/// Once a key's last value is `v`, lookups of it that fail or read `v`
/// invoke no callback and leave its last value at `v`.
pub proof fn lemma_settled_key_is_quiet(
    watched: Set<KeyView>,
    cache: Map<KeyView, Seq<char>>,
    lookups: Seq<Lookup>,
    k: KeyView,
    v: Seq<char>,
)
    requires
        cache.contains_key(k),
        cache[k] == v,
        forall|i: int|
            0 <= i < lookups.len() && #[trigger] lookups[i].0 == k ==> lookups[i].1 is None
                || lookups[i].1 == Some(v),
    ensures
        cache_after(watched, cache, lookups).contains_key(k),
        cache_after(watched, cache, lookups)[k] == v,
        reports_for(watched, cache, lookups, k).len() == 0,
    decreases lookups.len(),
{
    if lookups.len() > 0 {
        let next = after_lookup(watched, cache, lookups[0].0, lookups[0].1);
        let rest = lookups.drop_first();
        assert(lookups[0].0 == k ==> lookups[0].1 is None || lookups[0].1 == Some(v));
        assert(next.contains_key(k) && next[k] == v);
        assert forall|i: int| 0 <= i < rest.len() && #[trigger] rest[i].0 == k implies rest[i].1 is None
            || rest[i].1 == Some(v) by {
            assert(rest[i] == lookups[i + 1]);
        }
        lemma_settled_key_is_quiet(watched, next, rest, k, v);
    }
}

/// When every successful lookup of a watched key reads the same value `v`,
/// and at least one does, the key's callback is invoked at most once: once
/// if its last value was not `v`, never if it was. Its last value is then
/// `v`.
pub proof fn lemma_repeated_value_reported_once(
    watched: Set<KeyView>,
    cache: Map<KeyView, Seq<char>>,
    lookups: Seq<Lookup>,
    k: KeyView,
    v: Seq<char>,
)
    requires
        watched.contains(k),
        forall|i: int| 0 <= i < lookups.len() && #[trigger] lookups[i].0 == k ==> lookups[i].1 == Some(v),
        exists|i: int| 0 <= i < lookups.len() && #[trigger] lookups[i].0 == k,
    ensures
        reports_for(watched, cache, lookups, k).len() == if cache.contains_key(k) && cache[k] == v {
            0int
        } else {
            1int
        },
        cache_after(watched, cache, lookups).contains_key(k),
        cache_after(watched, cache, lookups)[k] == v,
    decreases lookups.len(),
{
    let next = after_lookup(watched, cache, lookups[0].0, lookups[0].1);
    let rest = lookups.drop_first();
    assert forall|i: int| 0 <= i < rest.len() && #[trigger] rest[i].0 == k implies rest[i].1 == Some(
        v,
    ) by {
        assert(rest[i] == lookups[i + 1]);
    }
    if lookups[0].0 == k {
        assert(next.contains_key(k) && next[k] == v);
        lemma_settled_key_is_quiet(watched, next, rest, k, v);
    } else {
        let i = choose|i: int| 0 <= i < lookups.len() && #[trigger] lookups[i].0 == k;
        assert(rest[i - 1] == lookups[i]);
        lemma_repeated_value_reported_once(watched, next, rest, k, v);
    }
}

/// When a watched key whose last value differs from `b` is read as `b`, its
/// callback is invoked exactly once, with `b`; its last value is then `b`
/// for as long as later lookups fail or read `b` again.
pub proof fn lemma_change_reported_once(
    watched: Set<KeyView>,
    cache: Map<KeyView, Seq<char>>,
    k: KeyView,
    b: Seq<char>,
    later: Seq<Lookup>,
)
    requires
        watched.contains(k),
        cache.contains_key(k),
        cache[k] != b,
        forall|i: int|
            0 <= i < later.len() && #[trigger] later[i].0 == k ==> later[i].1 is None
                || later[i].1 == Some(b),
    ensures
        reported(watched, cache, k, Some(b)) == Some(b),
        reports_for(watched, cache, seq![(k, Some(b))] + later, k) == seq![b],
        cache_after(watched, cache, seq![(k, Some(b))] + later).contains_key(k),
        cache_after(watched, cache, seq![(k, Some(b))] + later)[k] == b,
{
    let l: Seq<Lookup> = seq![(k, Some(b))] + later;
    let next = after_lookup(watched, cache, k, Some(b));
    assert(l[0] == (k, Some(b)));
    assert(l.drop_first() =~= later);
    lemma_settled_key_is_quiet(watched, next, later, k, b);
    assert(reports_for(watched, next, later, k) =~= Seq::<Seq<char>>::empty());
    assert(seq![b] + Seq::<Seq<char>>::empty() =~= seq![b]);
}

/// Registering a second callback for a key replaces the first: the registry
/// is as if only the second had been registered, so the second is the one
/// invoked on the key's next change.
pub proof fn lemma_register_replaces<C>(
    e0: RedisEvents<C>,
    e1: RedisEvents<C>,
    e2: RedisEvents<C>,
    k: KeyView,
    first: C,
    second: C,
)
    requires
        e1.watches() == e0.watches().insert(k, first),
        e2.watches() == e1.watches().insert(k, second),
    ensures
        e2.watches() == e0.watches().insert(k, second),
        e2.watches().contains_key(k),
        e2.watches()[k] == second,
{
    assert(e2.watches() =~= e0.watches().insert(k, second));
}

} // verus!
