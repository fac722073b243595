//! Time-bounded lookup cache shielding the external data providers from
//! duplicate queries.
//!
//! The cache is a key-to-value store whose entries expire a fixed
//! time-to-live after insertion. Eviction is lazy: an entry past its
//! time-to-live is never returned by a read, which is all the observable
//! behaviour the pipeline depends on. Reads and writes take the current time
//! as an explicit parameter, so the expiry rule is part of the contract
//! rather than of a hidden clock.

use vstd::prelude::*;

verus! {

/// Seconds an entry stays retrievable after insertion (one hour).
pub const CACHE_TTL_SECONDS: u64 = 3600;

struct CacheEntry<V> {
    key: String,
    value: V,
    inserted_at: u64,
}

/// A memoized key-to-value store with per-entry expiry. Writes append, reads
/// scan from the most recent write, so the newest entry for a key always
/// wins.
pub struct LookupCache<V> {
    entries: Vec<CacheEntry<V>>,
}

/// The map a sequence of writes denotes: later writes overwrite earlier ones.
spec fn entries_map<V>(s: Seq<CacheEntry<V>>) -> Map<Seq<char>, (V, u64)>
    decreases s.len(),
{
    if s.len() == 0 {
        Map::empty()
    } else {
        entries_map(s.drop_last()).insert(
            s.last().key@,
            (s.last().value, s.last().inserted_at),
        )
    }
}

impl<V> View for LookupCache<V> {
    type V = Map<Seq<char>, (V, u64)>;

    closed spec fn view(&self) -> Map<Seq<char>, (V, u64)> {
        entries_map(self.entries@)
    }
}

/// An entry inserted at `inserted_at` is still valid at `now`.
pub open spec fn entry_fresh(inserted_at: u64, now: u64) -> bool {
    inserted_at <= now < inserted_at + CACHE_TTL_SECONDS
}

/// What a read at time `now` returns from the cache state `m`: the stored
/// value while it is fresh, nothing once the time-to-live has elapsed.
pub open spec fn spec_lookup<V>(m: Map<Seq<char>, (V, u64)>, key: Seq<char>, now: u64) -> Option<
    V,
> {
    if m.contains_key(key) && entry_fresh(m[key].1, now) {
        Some(m[key].0)
    } else {
        None
    }
}

proof fn lemma_entries_map_last_match<V>(s: Seq<CacheEntry<V>>, key: Seq<char>, i: int)
    requires
        0 <= i < s.len(),
        s[i].key@ == key,
        forall|j: int| i < j < s.len() ==> s[j].key@ != key,
    ensures
        entries_map(s).contains_key(key),
        entries_map(s)[key] == (s[i].value, s[i].inserted_at),
    decreases s.len(),
{
    if i < s.len() - 1 {
        lemma_entries_map_last_match(s.drop_last(), key, i);
    }
}

proof fn lemma_entries_map_no_match<V>(s: Seq<CacheEntry<V>>, key: Seq<char>)
    requires
        forall|j: int| 0 <= j < s.len() ==> s[j].key@ != key,
    ensures
        !entries_map(s).contains_key(key),
    decreases s.len(),
{
    if s.len() > 0 {
        lemma_entries_map_no_match(s.drop_last(), key);
    }
}

/// The entries of `s` whose key is not `key`, in order.
spec fn without_key<V>(s: Seq<CacheEntry<V>>, key: Seq<char>) -> Seq<CacheEntry<V>>
    decreases s.len(),
{
    if s.len() == 0 {
        Seq::empty()
    } else {
        let rest = without_key(s.drop_last(), key);
        if s.last().key@ == key {
            rest
        } else {
            rest.push(s.last())
        }
    }
}

/// Dropping every entry of one key removes exactly that key from the map.
proof fn lemma_entries_map_without_key<V>(s: Seq<CacheEntry<V>>, key: Seq<char>)
    ensures
        entries_map(without_key(s, key)) == entries_map(s).remove(key),
    decreases s.len(),
{
    if s.len() == 0 {
        assert(entries_map(without_key(s, key)) =~= entries_map(s).remove(key));
    } else {
        lemma_entries_map_without_key(s.drop_last(), key);
        if s.last().key@ == key {
            assert(entries_map(s.drop_last()).remove(key) =~= entries_map(s).remove(key));
        } else {
            let pushed = without_key(s.drop_last(), key).push(s.last());
            assert(pushed.drop_last() =~= without_key(s.drop_last(), key));
            assert(pushed.last() == s.last());
            assert(entries_map(s.drop_last()).remove(key).insert(
                s.last().key@,
                (s.last().value, s.last().inserted_at),
            ) =~= entries_map(s).remove(key));
        }
    }
}

/// Filtering a key out distributes over concatenation.
proof fn lemma_without_key_concat<V>(a: Seq<CacheEntry<V>>, b: Seq<CacheEntry<V>>, key: Seq<char>)
    ensures
        without_key(a + b, key) == without_key(a, key) + without_key(b, key),
    decreases b.len(),
{
    if b.len() == 0 {
        assert(a + b =~= a);
        assert(without_key(a, key) + without_key(b, key) =~= without_key(a, key));
    } else {
        lemma_without_key_concat(a, b.drop_last(), key);
        assert((a + b).drop_last() =~= a + b.drop_last());
        assert((a + b).last() == b.last());
        if b.last().key@ == key {
        } else {
            assert(without_key(a, key) + without_key(b, key) =~= (without_key(a, key)
                + without_key(b.drop_last(), key)).push(b.last()));
        }
    }
}

impl<V> LookupCache<V> {
    /// An empty cache.
    pub fn new() -> (r: Self)
        ensures
            r@ == Map::<Seq<char>, (V, u64)>::empty(),
    {
        LookupCache { entries: Vec::new() }
    }

    /// Reads the value stored under `key`, provided its time-to-live has not
    /// elapsed at `now`. An expired entry is treated as absent.
    pub fn get(&self, key: &String, now: u64) -> (r: Option<&V>)
        ensures
            match r {
                Some(v) => spec_lookup(self@, key@, now) == Some(*v),
                None => spec_lookup(self@, key@, now) is None,
            },
    {
        let mut i = self.entries.len();
        while i > 0
            invariant
                i <= self.entries.len(),
                forall|j: int| i <= j < self.entries@.len() ==> self.entries@[j].key@ != key@,
            decreases i,
        {
            i = i - 1;
            let entry = &self.entries[i];
            if entry.key == *key {
                proof {
                    lemma_entries_map_last_match(self.entries@, key@, i as int);
                }
                if entry.inserted_at <= now && now - entry.inserted_at < CACHE_TTL_SECONDS {
                    return Some(&entry.value);
                } else {
                    return None;
                }
            }
        }
        proof {
            lemma_entries_map_no_match(self.entries@, key@);
        }
        None
    }

    /// Stores `value` under `key` as of time `now`. Any earlier entry for
    /// the same key is dropped, so superseded entries never accumulate.
    #[verifier::loop_isolation(false)]
    pub fn put(&mut self, key: String, value: V, now: u64)
        ensures
            final(self)@ == old(self)@.insert(key@, (value, now)),
    {
        let ghost orig = self.entries@;
        let ghost k = key@;
        let mut i = self.entries.len();
        proof {
            assert(orig.skip(orig.len() as int) =~= Seq::<CacheEntry<V>>::empty());
            assert(self.entries@ =~= orig.take(i as int) + without_key(
                orig.skip(i as int),
                k,
            ));
        }
        while i > 0
            invariant
                i <= orig.len(),
                self.entries@ == orig.take(i as int) + without_key(orig.skip(i as int), k),
            decreases i,
        {
            i = i - 1;
            proof {
                assert(orig.take(i + 1)[i as int] == orig[i as int]);
                assert((orig.take(i + 1) + without_key(orig.skip(i + 1), k))[i as int] == orig[i
                    as int]);
                assert(orig.skip(i as int) =~= seq![orig[i as int]] + orig.skip(i + 1));
                lemma_without_key_concat(seq![orig[i as int]], orig.skip(i + 1), k);
                assert(seq![orig[i as int]].drop_last() =~= Seq::<CacheEntry<V>>::empty());
            }
            if self.entries[i].key == key {
                let _stale = self.entries.remove(i);
                proof {
                    assert(without_key(seq![orig[i as int]], k) =~= Seq::<CacheEntry<V>>::empty());
                    assert((orig.take(i + 1) + without_key(orig.skip(i + 1), k)).remove(i as int)
                        =~= orig.take(i as int) + without_key(orig.skip(i as int), k));
                }
            } else {
                proof {
                    assert(without_key(seq![orig[i as int]], k) =~= seq![orig[i as int]]);
                    assert(orig.take(i + 1) + without_key(orig.skip(i + 1), k) =~= orig.take(
                        i as int,
                    ) + without_key(orig.skip(i as int), k));
                }
            }
        }
        proof {
            assert(orig.skip(0) =~= orig);
            assert(orig.take(0) + without_key(orig, k) =~= without_key(orig, k));
        }
        let entry = CacheEntry { key, value, inserted_at: now };
        self.entries.push(entry);
        proof {
            assert(self.entries@.drop_last() =~= without_key(orig, k));
            lemma_entries_map_without_key(orig, k);
            assert(entries_map(orig).remove(k).insert(k, (value, now)) =~= entries_map(
                orig,
            ).insert(k, (value, now)));
        }
    }
}

/// Law: within the time-to-live window, a read of a recorded key returns
/// exactly the recorded value, so a caller that checks the cache first never
/// issues a second fetch for an identical query.
pub proof fn lemma_cache_idempotent<V>(
    m: Map<Seq<char>, (V, u64)>,
    key: Seq<char>,
    value: V,
    stored: u64,
    now: u64,
)
    requires
        stored <= now < stored + CACHE_TTL_SECONDS,
    ensures
        spec_lookup(m.insert(key, (value, stored)), key, now) == Some(value),
{
}

/// Law: once the time-to-live has elapsed, a read finds nothing, whatever
/// was cached, so the caller must fetch afresh.
pub proof fn lemma_cache_expiry<V>(
    m: Map<Seq<char>, (V, u64)>,
    key: Seq<char>,
    value: V,
    stored: u64,
    now: u64,
)
    requires
        now >= stored + CACHE_TTL_SECONDS,
    ensures
        spec_lookup(m.insert(key, (value, stored)), key, now) is None,
{
}

} // verus!
