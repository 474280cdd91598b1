//! Resolution of difficulty ids to beatmap ids: a persistent cache answers
//! first, the remote beatmap API answers the rest.
use vstd::prelude::*;
use crate::decimal::{decimal, with_decimal};
use crate::ids::{normalize_ids, strictly_increasing};
use crate::json::{json_u64_field, u64_field_of_json};

verus! {

/// Why a resolution failed; no partial result is ever returned.
#[derive(Clone, Copy, Debug, PartialEq, Eq, Structural)]
pub enum ResolveError {
    /// No difficulty id was given.
    EmptyInput,
    /// The remote API could not be reached, or answered with a non-success status.
    RemoteLookupFailed,
    /// The remote API answered, but without a numeric `beatmapset_id`.
    MalformedResponse,
}

/// The beatmap API's URL for one difficulty.
pub open spec fn beatmap_api_url(difficulty_id: u64) -> Seq<char> {
    "https://osu.ppy.sh/api/v2/beatmaps/"@ + decimal(difficulty_id as nat)
}

/// The URL at which the beatmap API describes the difficulty `beatmap_id`.
pub fn fetch_beatmap_id_url(beatmap_id: u64) -> (r: String)
    ensures
        r@ == beatmap_api_url(beatmap_id),
{
    with_decimal("https://osu.ppy.sh/api/v2/beatmaps/", beatmap_id)
}

/// The ids to resolve: `difficulty_ids` sorted without repeats; an empty list
/// is refused.
pub fn resolution_ids(difficulty_ids: &[u64]) -> (r: Result<Vec<u64>, ResolveError>)
    ensures
        difficulty_ids@.len() == 0 <==> r == Err::<Vec<u64>, ResolveError>(ResolveError::EmptyInput),
        difficulty_ids@.len() > 0 ==> (r matches Ok(ids) && strictly_increasing(ids@) && ids@.to_set()
            == difficulty_ids@.to_set()),
{
    if difficulty_ids.len() == 0 {
        Err(ResolveError::EmptyInput)
    } else {
        let ids = normalize_ids(difficulty_ids);
        assert(difficulty_ids@.to_set().contains(difficulty_ids@[0]));
        assert(ids@.to_set().contains(difficulty_ids@[0]));
        Ok(ids)
    }
}

/// The beatmap ids that the cache answered, in the order of the ids.
pub open spec fn cache_hits(cached: Seq<Option<u64>>) -> Seq<u64>
    decreases cached.len(),
{
    if cached.len() == 0 {
        Seq::empty()
    } else {
        let rest = cache_hits(cached.drop_last());
        match cached.last() {
            Some(b) => rest.push(b),
            None => rest,
        }
    }
}

/// The ids that the cache did not answer, in their order.
pub open spec fn cache_misses(ids: Seq<u64>, cached: Seq<Option<u64>>) -> Seq<u64>
    decreases ids.len(),
{
    if ids.len() == 0 || cached.len() != ids.len() {
        Seq::empty()
    } else {
        let rest = cache_misses(ids.drop_last(), cached.drop_last());
        if cached.last() is None {
            rest.push(ids.last())
        } else {
            rest
        }
    }
}

/// Splits `ids` by what the cache held for each (`cached[k]` for `ids[k]`)
/// into the beatmap ids found and the ids still to look up.
pub fn partition_by_cache(ids: &[u64], cached: &[Option<u64>]) -> (r: (Vec<u64>, Vec<u64>))
    requires
        ids@.len() == cached@.len(),
    ensures
        r.0@ == cache_hits(cached@),
        r.1@ == cache_misses(ids@, cached@),
{
    let mut hits: Vec<u64> = Vec::new();
    let mut misses: Vec<u64> = Vec::new();
    let mut i: usize = 0;
    while i < ids.len()
        invariant
            0 <= i <= ids@.len(),
            ids@.len() == cached@.len(),
            hits@ == cache_hits(cached@.subrange(0, i as int)),
            misses@ == cache_misses(ids@.subrange(0, i as int), cached@.subrange(0, i as int)),
        decreases ids@.len() - i,
    {
        match cached[i] {
            Some(b) => hits.push(b),
            None => misses.push(ids[i]),
        }
        assert(cached@.subrange(0, i + 1).drop_last() =~= cached@.subrange(0, i as int));
        assert(ids@.subrange(0, i + 1).drop_last() =~= ids@.subrange(0, i as int));
        i = i + 1;
    }
    assert(cached@.subrange(0, i as int) =~= cached@);
    assert(ids@.subrange(0, i as int) =~= ids@);
    (hits, misses)
}

/// The outcome of one remote lookup, given the status it got (`None` when the
/// API could not be reached) and the `beatmapset_id` read from its body.
pub fn outcome_of_lookup(status: Option<u16>, beatmapset_id: Option<u64>) -> (r: Result<
    u64,
    ResolveError,
>)
    ensures
        r == (match status {
            Some(s) if s == 200 => match beatmapset_id {
                Some(b) => Ok(b),
                None => Err(ResolveError::MalformedResponse),
            },
            _ => Err(ResolveError::RemoteLookupFailed),
        }),
{
    match status {
        Some(s) => {
            if s != 200 {
                Err(ResolveError::RemoteLookupFailed)
            } else {
                match beatmapset_id {
                    Some(b) => Ok(b),
                    None => Err(ResolveError::MalformedResponse),
                }
            }
        },
        None => Err(ResolveError::RemoteLookupFailed),
    }
}

/// The outcome of one remote lookup from its status and body.
pub fn lookup_outcome(status: Option<u16>, body: &[u8]) -> (r: Result<u64, ResolveError>)
    ensures
        r == (match status {
            Some(s) if s == 200 => match json_u64_field(body@, "beatmapset_id"@) {
                Some(b) => Ok(b),
                None => Err(ResolveError::MalformedResponse),
            },
            _ => Err(ResolveError::RemoteLookupFailed),
        }),
{
    match status {
        Some(s) => {
            if s != 200 {
                Err(ResolveError::RemoteLookupFailed)
            } else {
                outcome_of_lookup(status, u64_field_of_json(body, "beatmapset_id"))
            }
        },
        None => Err(ResolveError::RemoteLookupFailed),
    }
}

/// The first failed lookup, if any.
pub open spec fn first_failure(lookups: Seq<Result<u64, ResolveError>>) -> Option<ResolveError>
    decreases lookups.len(),
{
    if lookups.len() == 0 {
        None
    } else {
        match lookups[0] {
            Err(e) => Some(e),
            Ok(_) => first_failure(lookups.drop_first()),
        }
    }
}

/// The resolved ids: the cache hits, then the looked-up ids in order; or the
/// first failure among the lookups, and nothing else.
pub fn combine_resolution(hits: Vec<u64>, lookups: &[Result<u64, ResolveError>]) -> (r: Result<
    Vec<u64>,
    ResolveError,
>)
    requires
        hits@.len() + lookups@.len() <= usize::MAX,
    ensures
        match first_failure(lookups@) {
            Some(e) => r == Err::<Vec<u64>, ResolveError>(e),
            None => r matches Ok(ids) && ids@ == hits@ + lookups@.map_values(
                |l: Result<u64, ResolveError>| l->Ok_0,
            ),
        },
{
    let mut out = hits;
    let ghost h = out@;
    let mut i: usize = 0;
    assert(lookups@.subrange(0, lookups@.len() as int) =~= lookups@);
    while i < lookups.len()
        invariant
            0 <= i <= lookups@.len(),
            first_failure(lookups@) == first_failure(lookups@.subrange(i as int, lookups@.len() as int)),
            out@ == h + lookups@.subrange(0, i as int).map_values(
                |l: Result<u64, ResolveError>| l->Ok_0,
            ),
        decreases lookups@.len() - i,
    {
        let ghost tail = lookups@.subrange(i as int, lookups@.len() as int);
        assert(tail.drop_first() =~= lookups@.subrange(i + 1, lookups@.len() as int));
        match lookups[i] {
            Ok(b) => {
                out.push(b);
                assert(out@ =~= h + lookups@.subrange(0, i + 1).map_values(
                    |l: Result<u64, ResolveError>| l->Ok_0,
                ));
            },
            Err(e) => {
                return Err(e);
            },
        }
        i = i + 1;
    }
    assert(lookups@.subrange(0, i as int) =~= lookups@);
    Ok(out)
}

/// What a cache holds for each of `ids`.
pub open spec fn cache_answers(ids: Seq<u64>, cache: Map<u64, u64>) -> Seq<Option<u64>> {
    ids.map_values(|i: u64| if cache.contains_key(i) { Some(cache[i]) } else { None })
}

/// The ids resolved from `cache`, with `remote` answering the misses: the
/// hits, then the looked-up ids.
pub open spec fn resolution_of(ids: Seq<u64>, cache: Map<u64, u64>, remote: Map<u64, u64>) -> Seq<
    u64,
> {
    cache_hits(cache_answers(ids, cache)) + cache_misses(ids, cache_answers(ids, cache)).map_values(
        |i: u64| remote[i],
    )
}

/// The cache after that resolution wrote back what `remote` answered.
pub open spec fn cache_after(ids: Seq<u64>, cache: Map<u64, u64>, remote: Map<u64, u64>) -> Map<
    u64,
    u64,
> {
    cache.union_prefer_right(remote.restrict(cache_misses(ids, cache_answers(ids, cache)).to_set()))
}

proof fn lemma_misses_contain(ids: Seq<u64>, cached: Seq<Option<u64>>, x: u64)
    requires
        ids.len() == cached.len(),
    ensures
        cache_misses(ids, cached).contains(x) <==> exists|k: int|
            0 <= k < ids.len() && ids[k] == x && #[trigger] cached[k] is None,
    decreases ids.len(),
{
    if ids.len() > 0 {
        let rest = cache_misses(ids.drop_last(), cached.drop_last());
        lemma_misses_contain(ids.drop_last(), cached.drop_last(), x);
        let n = ids.len() - 1;
        if cache_misses(ids, cached).contains(x) {
            let m = choose|m: int| 0 <= m < cache_misses(ids, cached).len() && cache_misses(ids, cached)[m] == x;
            if m < rest.len() {
                assert(rest[m] == x);
                let k = choose|k: int| 0 <= k < n && ids.drop_last()[k] == x && #[trigger] cached.drop_last()[k] is None;
                assert(ids[k] == x && cached[k] is None);
            } else {
                assert(ids[n] == x && cached[n] is None);
            }
        }
        if exists|k: int| 0 <= k < ids.len() && ids[k] == x && #[trigger] cached[k] is None {
            let k = choose|k: int| 0 <= k < ids.len() && ids[k] == x && #[trigger] cached[k] is None;
            if k < n {
                assert(ids.drop_last()[k] == x && cached.drop_last()[k] is None);
                let m = choose|m: int| 0 <= m < rest.len() && rest[m] == x;
                assert(cache_misses(ids, cached)[m] == x);
            } else {
                assert(cache_misses(ids, cached).last() == x);
            }
        }
    }
}

proof fn lemma_hits_contain(cached: Seq<Option<u64>>, v: u64)
    ensures
        cache_hits(cached).contains(v) <==> exists|k: int|
            0 <= k < cached.len() && #[trigger] cached[k] == Some(v),
    decreases cached.len(),
{
    if cached.len() > 0 {
        let rest = cache_hits(cached.drop_last());
        lemma_hits_contain(cached.drop_last(), v);
        let n = cached.len() - 1;
        if cache_hits(cached).contains(v) {
            let m = choose|m: int| 0 <= m < cache_hits(cached).len() && cache_hits(cached)[m] == v;
            if m < rest.len() {
                assert(rest[m] == v);
                let k = choose|k: int| 0 <= k < n && #[trigger] cached.drop_last()[k] == Some(v);
                assert(cached[k] == Some(v));
            } else {
                assert(cached[n] == Some(v));
            }
        }
        if exists|k: int| 0 <= k < cached.len() && #[trigger] cached[k] == Some(v) {
            let k = choose|k: int| 0 <= k < cached.len() && #[trigger] cached[k] == Some(v);
            if k < n {
                assert(cached.drop_last()[k] == Some(v));
                let m = choose|m: int| 0 <= m < rest.len() && rest[m] == v;
                assert(cache_hits(cached)[m] == v);
            } else {
                assert(cache_hits(cached).last() == v);
            }
        }
    }
}

proof fn lemma_not_missed(ids: Seq<u64>, cache: Map<u64, u64>, x: u64)
    requires
        cache.contains_key(x),
    ensures
        !cache_misses(ids, cache_answers(ids, cache)).to_set().contains(x),
{
    let a = cache_answers(ids, cache);
    lemma_misses_contain(ids, a, x);
    if cache_misses(ids, a).contains(x) {
        let k = choose|k: int| 0 <= k < ids.len() && ids[k] == x && #[trigger] a[k] is None;
        assert(a[k] == Some(cache[x]));
    }
}

proof fn lemma_misses_increasing(ids: Seq<u64>, cached: Seq<Option<u64>>)
    requires
        ids.len() == cached.len(),
        strictly_increasing(ids),
    ensures
        strictly_increasing(cache_misses(ids, cached)),
    decreases ids.len(),
{
    if ids.len() > 0 {
        let rest = cache_misses(ids.drop_last(), cached.drop_last());
        lemma_misses_increasing(ids.drop_last(), cached.drop_last());
        if cached.last() is None {
            let m = cache_misses(ids, cached);
            assert forall|a: int, b: int| 0 <= a < b < m.len() implies m[a] < m[b] by {
                if b == m.len() - 1 {
                    assert(rest.contains(m[a]));
                    lemma_misses_contain(ids.drop_last(), cached.drop_last(), m[a]);
                    let k = choose|k: int| 0 <= k < ids.len() - 1 && ids.drop_last()[k] == m[a]
                        && #[trigger] cached.drop_last()[k] is None;
                    assert(ids[k] == m[a]);
                } else {
                    assert(m[a] == rest[a] && m[b] == rest[b]);
                }
            }
        }
    }
}

/// For a normalised id list, the remote API is asked exactly once for each
/// id that the cache does not hold, and never for one that it holds.
pub proof fn lemma_one_lookup_per_uncached_id(ids: Seq<u64>, cache: Map<u64, u64>)
    requires
        strictly_increasing(ids),
    ensures
        strictly_increasing(cache_misses(ids, cache_answers(ids, cache))),
        forall|x: u64|
            #[trigger] cache_misses(ids, cache_answers(ids, cache)).contains(x) <==> (ids.contains(x)
                && !cache.contains_key(x)),
{
    let a = cache_answers(ids, cache);
    lemma_misses_increasing(ids, a);
    assert forall|x: u64|
        #[trigger] cache_misses(ids, a).contains(x) <==> (ids.contains(x) && !cache.contains_key(
            x,
        )) by {
        lemma_misses_contain(ids, a, x);
        if ids.contains(x) && !cache.contains_key(x) {
            let k = choose|k: int| 0 <= k < ids.len() && ids[k] == x;
            assert(a[k] is None);
        }
    }
}

/// Resolving the same ids again, from the cache that the first resolution
/// wrote back, asks the remote API for nothing and yields the same beatmap
/// ids, whatever the remote API would now answer.
pub proof fn lemma_resolution_idempotent(
    ids: Seq<u64>,
    cache: Map<u64, u64>,
    remote: Map<u64, u64>,
    later_remote: Map<u64, u64>,
)
    requires
        forall|i: u64|
            #[trigger] cache_misses(ids, cache_answers(ids, cache)).contains(i)
                ==> remote.contains_key(i),
    ensures
        cache_misses(ids, cache_answers(ids, cache_after(ids, cache, remote))).len() == 0,
        resolution_of(ids, cache_after(ids, cache, remote), later_remote).to_set()
            == resolution_of(ids, cache, remote).to_set(),
{
    let a1 = cache_answers(ids, cache);
    let m1 = cache_misses(ids, a1);
    let c2 = cache_after(ids, cache, remote);
    let a2 = cache_answers(ids, c2);
    let m2 = cache_misses(ids, a2);
    assert forall|k: int| 0 <= k < ids.len() implies #[trigger] a2[k] is Some && a2[k] == Some(
        c2[ids[k]],
    ) by {
        let x = ids[k];
        if !cache.contains_key(x) {
            assert(a1[k] is None);
            lemma_misses_contain(ids, a1, x);
            assert(m1.contains(x));
            assert(m1.to_set().contains(x));
        }
    }
    assert(m2 =~= Seq::<u64>::empty()) by {
        if m2.len() > 0 {
            lemma_misses_contain(ids, a2, m2[0]);
            assert(m2.contains(m2[0]));
        }
    }
    let r1 = resolution_of(ids, cache, remote);
    let r2 = resolution_of(ids, c2, later_remote);
    let h1 = cache_hits(a1);
    let h2 = cache_hits(a2);
    let f1 = m1.map_values(|i: u64| remote[i]);
    assert(r2 =~= h2);
    assert forall|v: u64| r2.contains(v) <==> r1.contains(v) by {
        lemma_hits_contain(a2, v);
        lemma_hits_contain(a1, v);
        if r2.contains(v) {
            let k = choose|k: int| 0 <= k < a2.len() && #[trigger] a2[k] == Some(v);
            let x = ids[k];
            if cache.contains_key(x) {
                lemma_not_missed(ids, cache, x);
                assert(a1[k] == Some(v));
                assert(h1.contains(v));
                let m = choose|m: int| 0 <= m < h1.len() && h1[m] == v;
                assert(r1[m] == v);
            } else {
                assert(a1[k] is None);
                lemma_misses_contain(ids, a1, x);
                let j = choose|j: int| 0 <= j < m1.len() && m1[j] == x;
                assert(f1[j] == v);
                assert(r1[h1.len() + j] == v);
            }
        }
        if r1.contains(v) {
            let m = choose|m: int| 0 <= m < r1.len() && r1[m] == v;
            if m < h1.len() {
                assert(h1[m] == v);
                assert(h1.contains(v));
                let k = choose|k: int| 0 <= k < a1.len() && #[trigger] a1[k] == Some(v);
                lemma_not_missed(ids, cache, ids[k]);
                assert(a2[k] == Some(v));
            } else {
                let j = m - h1.len();
                assert(f1[j] == v);
                let x = m1[j];
                assert(m1.contains(x));
                lemma_misses_contain(ids, a1, x);
                let k = choose|k: int| 0 <= k < ids.len() && ids[k] == x && #[trigger] a1[k] is None;
                assert(m1.to_set().contains(x));
                assert(a2[k] == Some(v));
            }
        }
    }
    assert(r2.to_set() =~= r1.to_set());
}

} // verus!
