//! Traffic accounting: turning the cumulative byte counters that WireGuard
//! reports into the traffic used since the previous reading, and keeping a
//! time-indexed record of it.

use vstd::prelude::*;
use std::collections::BTreeMap;
use crate::strmap::StrMap;
use crate::wireguardapi::{Transfer, UsageMap};

verus! {

/// The counters under the users' names: each peer's counters are stored
/// under its name, going through the peers in ascending key order, so that
/// of two peers with the same name the later one's counters stand.
pub open spec fn labelled(
    keys: Seq<Seq<char>>,
    values: Seq<Transfer>,
    names: Map<Seq<char>, String>,
) -> Map<Seq<char>, Transfer>
    decreases keys.len(),
{
    if keys.len() == 0 {
        Map::empty()
    } else {
        labelled(keys.drop_last(), values.drop_last(), names).insert(
            names[keys.last()]@,
            values.last(),
        )
    }
}

/// The counters of `stats` under the names that `names` gives its keys.
pub open spec fn labelled_stats(stats: UsageMap, names: StrMap<String>) -> Map<Seq<char>, Transfer> {
    labelled(stats.keys(), stats.values(), names@)
}

/// Every key of `stats` has a name.
pub open spec fn has_all_names(stats: Map<Seq<char>, Transfer>, names: Map<Seq<char>, String>) -> bool {
    forall|k: Seq<char>| #[trigger] stats.contains_key(k) ==> names.contains_key(k)
}

/// The counters last seen for `k`, or zero where none were seen.
pub open spec fn previous(cache: Map<Seq<char>, Transfer>, k: Seq<char>) -> Transfer {
    if cache.contains_key(k) {
        cache[k]
    } else {
        (0, 0)
    }
}

/// No counter went down since it was last seen.
pub open spec fn counters_not_reset(
    raw: Map<Seq<char>, Transfer>,
    cache: Map<Seq<char>, Transfer>,
) -> bool {
    forall|k: Seq<char>|
        #[trigger] raw.contains_key(k) && cache.contains_key(k) ==> cache[k].0 <= raw[k].0
            && cache[k].1 <= raw[k].1
}

/// The traffic of each user in `raw` since the counters in `cache`.
pub open spec fn usage_since(
    raw: Map<Seq<char>, Transfer>,
    cache: Map<Seq<char>, Transfer>,
) -> Map<Seq<char>, Transfer> {
    Map::new(
        |k: Seq<char>| raw.contains_key(k),
        |k: Seq<char>|
            ((raw[k].0 - previous(cache, k).0) as u64, (raw[k].1 - previous(cache, k).1) as u64),
    )
}

/// The counters remembered after a reading: the new counters of every user
/// in `raw`, and zero for every remembered user missing from it.
pub open spec fn cache_after(
    raw: Map<Seq<char>, Transfer>,
    cache: Map<Seq<char>, Transfer>,
) -> Map<Seq<char>, Transfer> {
    Map::new(
        |k: Seq<char>| raw.contains_key(k) || cache.contains_key(k),
        |k: Seq<char>|
            if raw.contains_key(k) {
                raw[k]
            } else {
                (0u64, 0u64)
            },
    )
}

/// Whether every key of `stats` has a name in `names`.
pub fn all_labelled(stats: &UsageMap, names: &StrMap<String>) -> (b: bool)
    requires
        stats.wf(),
        names.wf(),
    ensures
        b == has_all_names(stats@, names@),
{
    proof { stats.lemma_listing(); }
    let n = stats.len();
    let mut i: usize = 0;
    while i < n
        invariant
            stats.wf(),
            names.wf(),
            n == stats.keys().len(),
            i <= n,
            forall|j: int| 0 <= j < i ==> names@.contains_key(#[trigger] stats.keys()[j]),
        decreases n - i,
    {
        if !names.contains_key(stats.key_at(i).as_str()) {
            proof {
                stats.lemma_listing();
                assert(stats@.contains_key(stats.keys()[i as int]));
            }
            return false;
        }
        i = i + 1;
    }
    proof {
        stats.lemma_listing();
        assert forall|k: Seq<char>| #[trigger] stats@.contains_key(k) implies names@.contains_key(
            k,
        ) by {
            let j = choose|j: int| 0 <= j < stats.keys().len() && stats.keys()[j] == k;
        }
    }
    true
}

/// Whether no counter of `raw` is below the one remembered in `cache`.
pub fn counters_consistent(raw: &UsageMap, cache: &UsageMap) -> (b: bool)
    requires
        raw.wf(),
        cache.wf(),
    ensures
        b == counters_not_reset(raw@, cache@),
{
    proof { raw.lemma_listing(); }
    let n = raw.len();
    let mut i: usize = 0;
    while i < n
        invariant
            raw.wf(),
            cache.wf(),
            n == raw.keys().len(),
            i <= n,
            forall|j: int|
                0 <= j < i ==> {
                    let k = #[trigger] raw.keys()[j];
                    cache@.contains_key(k) ==> cache@[k].0 <= raw@[k].0 && cache@[k].1 <= raw@[k].1
                },
        decreases n - i,
    {
        proof { raw.lemma_listing(); }
        let key = raw.key_at(i);
        let now = *raw.value_at(i);
        assert(raw@.contains_key(raw.keys()[i as int]));
        match cache.get(key.as_str()) {
            Some(last) => {
                if last.0 > now.0 || last.1 > now.1 {
                    return false;
                }
            },
            None => {},
        }
        i = i + 1;
    }
    proof {
        raw.lemma_listing();
        assert forall|k: Seq<char>|
            #[trigger] raw@.contains_key(k) && cache@.contains_key(k) implies cache@[k].0
            <= raw@[k].0 && cache@[k].1 <= raw@[k].1 by {
            let j = choose|j: int| 0 <= j < raw.keys().len() && raw.keys()[j] == k;
            assert(raw.keys()[j] == k);
        }
    }
    true
}

/// Puts the counters of every peer under its user's name, as the usage
/// reading does with the peer names it keeps.
pub fn label_stats(stats: &UsageMap, names: &StrMap<String>) -> (r: UsageMap)
    requires
        stats.wf(),
        names.wf(),
        has_all_names(stats@, names@),
    ensures
        r.wf(),
        r@ == labelled_stats(*stats, *names),
{
    proof { stats.lemma_listing(); }
    let n = stats.len();
    let mut r: UsageMap = StrMap::new();
    let mut i: usize = 0;
    assert(stats.keys().take(0) =~= Seq::<Seq<char>>::empty());
    while i < n
        invariant
            stats.wf(),
            names.wf(),
            has_all_names(stats@, names@),
            n == stats.keys().len(),
            n == stats.values().len(),
            i <= n,
            r.wf(),
            r@ == labelled(stats.keys().take(i as int), stats.values().take(i as int), names@),
        decreases n - i,
    {
        proof { stats.lemma_listing(); }
        let key = stats.key_at(i);
        assert(stats@.contains_key(stats.keys()[i as int]));
        let name = names.get(key.as_str()).unwrap().clone();
        let v = *stats.value_at(i);
        r.insert(name, v);
        assert(stats.keys().take(i + 1).drop_last() =~= stats.keys().take(i as int));
        assert(stats.values().take(i + 1).drop_last() =~= stats.values().take(i as int));
        i = i + 1;
    }
    assert(stats.keys().take(n as int) =~= stats.keys());
    assert(stats.values().take(n as int) =~= stats.values());
    r
}


/// The traffic of each user since the last reading, and the counters to
/// remember for the next one: the new counters of every user in `raw`, and
/// zero for every remembered user that `raw` no longer lists.
pub fn compute_usage(raw: &UsageMap, cache: &mut UsageMap) -> (data: UsageMap)
    requires
        raw.wf(),
        old(cache).wf(),
        counters_not_reset(raw@, old(cache)@),
    ensures
        data.wf(),
        final(cache).wf(),
        data@ == usage_since(raw@, old(cache)@),
        final(cache)@ == cache_after(raw@, old(cache)@),
        forall|k: Seq<char>| #[trigger] data@.contains_key(k) ==> data@[k].0 + previous(old(cache)@, k).0
            == raw@[k].0 && data@[k].1 + previous(old(cache)@, k).1 == raw@[k].1,
{
    proof {
        raw.lemma_listing();
        cache.lemma_listing();
    }
    let ghost old_cache = cache@;
    let n = raw.len();
    let mut data: UsageMap = StrMap::new();
    let mut fresh: UsageMap = StrMap::new();
    let mut i: usize = 0;
    assert(raw.keys().take(0) =~= Seq::<Seq<char>>::empty());
    assert(data@ =~= usage_since(raw@, old_cache).restrict(raw.keys().take(0).to_set()));
    assert(fresh@ =~= raw@.restrict(raw.keys().take(0).to_set()));
    while i < n
        invariant
            raw.wf(),
            cache.wf(),
            cache@ == old_cache,
            counters_not_reset(raw@, old_cache),
            n == raw.keys().len(),
            i <= n,
            data.wf(),
            fresh.wf(),
            data@ == usage_since(raw@, old_cache).restrict(raw.keys().take(i as int).to_set()),
            fresh@ == raw@.restrict(raw.keys().take(i as int).to_set()),
        decreases n - i,
    {
        proof { raw.lemma_listing(); }
        let key = raw.key_at(i);
        let now = *raw.value_at(i);
        let last = match cache.get(key.as_str()) {
            Some(v) => *v,
            None => (0u64, 0u64),
        };
        let ghost k = key@;
        assert(raw@.contains_key(raw.keys()[i as int]));
        assert(raw@.contains_key(k) && raw@[k] == now);
        assert(last == previous(old_cache, k));
        let used = (now.0 - last.0, now.1 - last.1);
        data.insert(key.clone(), used);
        fresh.insert(key.clone(), now);
        proof {
            let t0 = raw.keys().take(i as int);
            let t1 = raw.keys().take(i + 1);
            assert(t1 =~= t0.push(k));
            t0.lemma_push_to_set_commute(k);
            assert(data@ =~= usage_since(raw@, old_cache).restrict(t1.to_set()));
            assert(fresh@ =~= raw@.restrict(t1.to_set()));
        }
        i = i + 1;
    }
    proof {
        assert(raw.keys().take(n as int) =~= raw.keys());
        assert(raw.keys().to_set() =~= raw@.dom());
        assert(data@ =~= usage_since(raw@, old_cache));
        assert(fresh@ =~= raw@);
        cache.lemma_listing();
    }
    let m = cache.len();
    let mut j: usize = 0;
    assert(cache.keys().take(0) =~= Seq::<Seq<char>>::empty());
    while j < m
        invariant
            raw.wf(),
            cache.wf(),
            cache@ == old_cache,
            m == cache.keys().len(),
            j <= m,
            fresh.wf(),
            fresh@ == cache_after(raw@, old_cache.restrict(cache.keys().take(j as int).to_set())),
        decreases m - j,
    {
        proof { cache.lemma_listing(); }
        let key = cache.key_at(j);
        let ghost k = key@;
        if !raw.contains_key(key.as_str()) {
            fresh.insert(key.clone(), (0u64, 0u64));
        }
        proof {
            let t0 = cache.keys().take(j as int);
            let t1 = cache.keys().take(j + 1);
            assert(t1 =~= t0.push(k));
            t0.lemma_push_to_set_commute(k);
            assert(old_cache.contains_key(k));
            assert(fresh@ =~= cache_after(raw@, old_cache.restrict(t1.to_set())));
        }
        j = j + 1;
    }
    proof {
        assert(cache.keys().take(m as int) =~= cache.keys());
        assert(cache.keys().to_set() =~= old_cache.dom());
        assert(old_cache.restrict(cache.keys().to_set()) =~= old_cache);
    }
    *cache = fresh;
    data
}

/// Records the usage `data` read at `time`, unless a record for `time`
/// already exists; says whether it recorded it.
pub fn append_to_map(store: &mut BTreeMap<u64, UsageMap>, time: u64, data: UsageMap) -> (added: bool)
    ensures
        added == !old(store)@.contains_key(time),
        added ==> final(store)@ == old(store)@.insert(time, data),
        !added ==> final(store)@ == old(store)@,
{
    if store.contains_key(&time) {
        false
    } else {
        store.insert(time, data);
        true
    }
}


/// One usage reading: puts the peers' counters `stats` under their users'
/// names, works out each user's traffic since the counters remembered in
/// `cache`, remembers the new counters, and records the traffic under
/// `time` in `store` unless `time` is already recorded there. Says whether
/// it recorded (and so whether the record has to be written out).
pub fn get_usage_data(
    stats: &UsageMap,
    names: &StrMap<String>,
    cache: &mut UsageMap,
    store: &mut BTreeMap<u64, UsageMap>,
    time: u64,
) -> (recorded: bool)
    requires
        stats.wf(),
        names.wf(),
        has_all_names(stats@, names@),
        old(cache).wf(),
        counters_not_reset(labelled_stats(*stats, *names), old(cache)@),
    ensures
        final(cache).wf(),
        final(cache)@ == cache_after(labelled_stats(*stats, *names), old(cache)@),
        recorded == !old(store)@.contains_key(time),
        recorded ==> {
            &&& final(store)@.dom() == old(store)@.dom().insert(time)
            &&& final(store)@[time].wf()
            &&& final(store)@[time]@ == usage_since(labelled_stats(*stats, *names), old(cache)@)
            &&& forall|t: u64| t != time && #[trigger] old(store)@.contains_key(t) ==> final(store)@[t]
                == old(store)@[t]
        },
        !recorded ==> final(store)@ == old(store)@,
{
    let raw = label_stats(stats, names);
    let data = compute_usage(&raw, cache);
    let ghost d = data;
    let recorded = append_to_map(store, time, data);
    proof {
        if recorded {
            assert(final(store)@[time] == d);
        }
    }
    recorded
}

/// Traffic adds up over readings: where a user's counters never go down,
/// the traffic of two consecutive readings together is the growth of the
/// counters from before the first reading to the second.
pub proof fn lemma_usage_accumulates(
    raw1: Map<Seq<char>, Transfer>,
    raw2: Map<Seq<char>, Transfer>,
    cache: Map<Seq<char>, Transfer>,
    k: Seq<char>,
)
    requires
        counters_not_reset(raw1, cache),
        counters_not_reset(raw2, cache_after(raw1, cache)),
        raw1.contains_key(k),
        raw2.contains_key(k),
    ensures
        usage_since(raw1, cache)[k].0 + usage_since(raw2, cache_after(raw1, cache))[k].0 == raw2[k].0
            - previous(cache, k).0,
        usage_since(raw1, cache)[k].1 + usage_since(raw2, cache_after(raw1, cache))[k].1 == raw2[k].1
            - previous(cache, k).1,
{
    assert(cache_after(raw1, cache).contains_key(k));
}

/// Counters that did not move are no reset: any counters are consistent
/// with themselves.
pub proof fn lemma_unchanged_counters_consistent(m: Map<Seq<char>, Transfer>)
    ensures
        counters_not_reset(m, m),
{
}

/// Counters that did not go down are no reset: wherever every remembered
/// counter is at most the new one, the reading is consistent.
pub proof fn lemma_growing_counters_consistent(
    raw: Map<Seq<char>, Transfer>,
    cache: Map<Seq<char>, Transfer>,
)
    requires
        forall|k: Seq<char>|
            raw.contains_key(k) && cache.contains_key(k) ==> #[trigger] cache[k].0 <= raw[k].0
                && cache[k].1 <= raw[k].1,
    ensures
        counters_not_reset(raw, cache),
{
}

/// Reading the same counters twice: the second reading is consistent with
/// what the first one remembered, and every user in it used nothing.
pub proof fn lemma_repeated_reading_uses_nothing(
    raw: Map<Seq<char>, Transfer>,
    cache: Map<Seq<char>, Transfer>,
    k: Seq<char>,
)
    requires
        raw.contains_key(k),
    ensures
        counters_not_reset(raw, cache_after(raw, cache)),
        usage_since(raw, cache_after(raw, cache))[k] == (0u64, 0u64),
{
    assert(cache_after(raw, cache).contains_key(k));
}

} // verus!
