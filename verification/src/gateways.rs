//! The two cache-fronted clients for the external data providers: how a
//! lookup consults the cache, how a provider response is classified, and how
//! the order-independent combo cache key is built. The network transport is
//! the caller's; it hands these functions the transport outcome as plain
//! values.

use vstd::prelude::*;
use vstd::relations::sorted_by;
use vstd::seq_lib::lemma_sorted_unique;
use vstd::string::StringExecFns;

use crate::cache::{spec_lookup, LookupCache};
use crate::models::{ComboList, ComboListIncluded, ComboListRequest, ScryfallQuery};
use crate::text::{lemma_lex_leq_total_ordering, lex_leq, sort_strings};
use crate::validation_results::lemma_deep_view_push;

verus! {

/// The oracle answer distilled from a transport outcome: `success` is
/// whether the provider answered with a success status, `parsed` the decoded
/// body if it decoded at all. Zero results, a failure status and an
/// undecodable body all mean "no match"; only the first card's oracle text
/// counts as a match.
pub open spec fn spec_oracle_result(success: bool, parsed: Option<ScryfallQuery>) -> Option<
    String,
> {
    if success {
        match parsed {
            Some(q) => if q.data@.len() > 0 {
                Some(q.data@[0].oracle_text)
            } else {
                None
            },
            None => None,
        }
    } else {
        None
    }
}

/// Distils a provider response into the cached oracle answer.
pub fn classify_oracle_response(success: bool, parsed: Option<ScryfallQuery>) -> (r: Option<
    String,
>)
    ensures
        r == spec_oracle_result(success, parsed),
{
    if !success {
        return None;
    }
    match parsed {
        None => None,
        Some(q) => {
            if q.data.len() > 0 {
                Some(q.data[0].oracle_text.clone())
            } else {
                None
            }
        },
    }
}

/// Distils a combo-discovery transport outcome. `None` stands for a
/// transport failure; otherwise the pair carries the provider's success
/// status and the decoded body, if it decoded at all. Combo discovery is
/// best-effort: every kind of failure — transport, status, or an
/// undecodable body — yields the empty combo set rather than an error, so a
/// combo check never fails a run.
pub fn classify_combo_response(outcome: Option<(bool, Option<ComboListRequest>)>) -> (r:
    ComboList)
    ensures
        match outcome {
            Some((success, parsed)) => match parsed {
                Some(req) => if success {
                    r == req.results
                } else {
                    r.included@ == Seq::<ComboListIncluded>::empty()
                },
                None => r.included@ == Seq::<ComboListIncluded>::empty(),
            },
            None => r.included@ == Seq::<ComboListIncluded>::empty(),
        },
{
    match outcome {
        Some((success, parsed)) => {
            if success {
                match parsed {
                    Some(req) => req.results,
                    None => ComboList { included: Vec::new() },
                }
            } else {
                ComboList { included: Vec::new() }
            }
        },
        None => ComboList { included: Vec::new() },
    }
}

/// A sorted run of names with adjacent duplicates removed.
pub open spec fn dedup_adjacent(s: Seq<Seq<char>>) -> Seq<Seq<char>>
    decreases s.len(),
{
    if s.len() == 0 {
        Seq::empty()
    } else {
        let rest = dedup_adjacent(s.drop_last());
        if s.len() >= 2 && s.last() == s[s.len() - 2] {
            rest
        } else {
            rest.push(s.last())
        }
    }
}

/// Names joined with a pipe between consecutive entries.
pub open spec fn pipe_join(s: Seq<Seq<char>>) -> Seq<char>
    decreases s.len(),
{
    if s.len() == 0 {
        Seq::empty()
    } else if s.len() == 1 {
        s[0]
    } else {
        pipe_join(s.drop_last()) + seq!['|'] + s.last()
    }
}

/// The combo cache key of a card pool: the names sorted, deduplicated, and
/// pipe-joined, so that pools with the same cards share one key whatever
/// their order.
pub open spec fn spec_combo_key(names: Seq<Seq<char>>) -> Seq<char> {
    pipe_join(dedup_adjacent(names.sort_by(lex_leq())))
}

/// Removes adjacent duplicates from a sorted list of names.
#[verifier::loop_isolation(false)]
fn dedup_sorted(v: &Vec<String>) -> (r: Vec<String>)
    ensures
        r.deep_view() == dedup_adjacent(v.deep_view()),
{
    let mut r: Vec<String> = Vec::new();
    let mut i: usize = 0;
    proof {
        assert(v.deep_view().take(0) =~= Seq::<Seq<char>>::empty());
    }
    while i < v.len()
        invariant
            i <= v.len(),
            r.deep_view() == dedup_adjacent(v.deep_view().take(i as int)),
        decreases v.len() - i,
    {
        let ghost dv = v.deep_view();
        proof {
            assert(dv.take(i + 1).drop_last() =~= dv.take(i as int));
            assert(dv.take(i + 1).last() == dv[i as int]);
        }
        if i > 0 && v[i] == v[i - 1] {
            proof {
                assert(dv.take(i + 1)[i - 1] == dv[i - 1]);
            }
        } else {
            let ghost pre = r;
            let name = v[i].clone();
            let ghost nv = name;
            r.push(name);
            proof {
                lemma_deep_view_push(r, pre, nv);
                if i > 0 {
                    assert(dv.take(i + 1)[i - 1] == dv[i - 1]);
                }
            }
        }
        i = i + 1;
    }
    proof {
        assert(v.deep_view().take(v@.len() as int) =~= v.deep_view());
    }
    r
}

/// Joins names with a pipe between consecutive entries.
#[verifier::loop_isolation(false)]
fn join_pipe(v: &Vec<String>) -> (r: String)
    ensures
        r@ == pipe_join(v.deep_view()),
{
    let mut r = String::new();
    let mut i: usize = 0;
    proof {
        assert(pipe_join(v.deep_view().take(0)) =~= Seq::<char>::empty());
    }
    while i < v.len()
        invariant
            i <= v.len(),
            r@ == pipe_join(v.deep_view().take(i as int)),
        decreases v.len() - i,
    {
        let ghost dv = v.deep_view();
        proof {
            assert(dv.take(i + 1).drop_last() =~= dv.take(i as int));
            assert(dv.take(i + 1).last() == dv[i as int]);
        }
        if i > 0 {
            r.append("|");
            proof {
                reveal_strlit("|");
                assert("|"@ =~= seq!['|']);
            }
        }
        r.append(v[i].as_str());
        i = i + 1;
    }
    proof {
        assert(v.deep_view().take(v@.len() as int) =~= v.deep_view());
    }
    r
}

/// Builds the combo cache key for a card pool.
pub fn combo_cache_key(names: Vec<String>) -> (r: String)
    ensures
        r@ == spec_combo_key(names.deep_view()),
{
    let ghost original = names.deep_view();
    let mut sorted = names;
    sort_strings(&mut sorted);
    proof {
        lemma_lex_leq_total_ordering();
        original.lemma_sort_by_ensures(lex_leq());
        lemma_sorted_unique(sorted.deep_view(), original.sort_by(lex_leq()), lex_leq());
        assert(sorted.deep_view() == original.sort_by(lex_leq()));
    }
    let deduped = dedup_sorted(&sorted);
    join_pipe(&deduped)
}

/// The cache-fronted client of the card-oracle-text provider. Its state is
/// the cache: a map from query to the recorded answer and its insertion
/// time.
pub struct OracleGateway {
    cache: LookupCache<Option<String>>,
}

impl View for OracleGateway {
    type V = Map<Seq<char>, (Option<String>, u64)>;

    closed spec fn view(&self) -> Map<Seq<char>, (Option<String>, u64)> {
        self.cache@
    }
}

impl OracleGateway {
    /// A gateway with an empty cache.
    pub fn new() -> (r: Self)
        ensures
            r@ == Map::<Seq<char>, (Option<String>, u64)>::empty(),
    {
        OracleGateway { cache: LookupCache::new() }
    }

    /// The recorded answer for `query`, while it is fresh at `now`. `None`
    /// means the caller must fetch (and then record the outcome); the
    /// freshness rule guarantees no answer is ever served past its
    /// time-to-live.
    pub fn cached(&self, query: &String, now: u64) -> (r: Option<&Option<String>>)
        ensures
            match r {
                Some(v) => spec_lookup(self@, query@, now) == Some(*v),
                None => spec_lookup(self@, query@, now) is None,
            },
    {
        self.cache.get(query, now)
    }

    /// Records a fetched answer under its query as of time `now`.
    pub fn record(&mut self, query: String, outcome: Option<String>, now: u64)
        ensures
            final(self)@ == old(self)@.insert(query@, (outcome, now)),
    {
        self.cache.put(query, outcome, now);
    }
}

/// The cache-fronted client of the combo-discovery provider, keyed by the
/// combo cache key of the card pool.
pub struct ComboGateway {
    cache: LookupCache<ComboList>,
}

impl View for ComboGateway {
    type V = Map<Seq<char>, (ComboList, u64)>;

    closed spec fn view(&self) -> Map<Seq<char>, (ComboList, u64)> {
        self.cache@
    }
}

impl ComboGateway {
    /// A gateway with an empty cache.
    pub fn new() -> (r: Self)
        ensures
            r@ == Map::<Seq<char>, (ComboList, u64)>::empty(),
    {
        ComboGateway { cache: LookupCache::new() }
    }

    /// The recorded combo set for a pool key, while it is fresh at `now`.
    pub fn cached(&self, key: &String, now: u64) -> (r: Option<&ComboList>)
        ensures
            match r {
                Some(v) => spec_lookup(self@, key@, now) == Some(*v),
                None => spec_lookup(self@, key@, now) is None,
            },
    {
        self.cache.get(key, now)
    }

    /// Records a fetched combo set under its pool key as of time `now`.
    pub fn record(&mut self, key: String, combos: ComboList, now: u64)
        ensures
            final(self)@ == old(self)@.insert(key@, (combos, now)),
    {
        self.cache.put(key, combos, now);
    }
}

} // verus!
