//! The mirror sequencer: a fixed, priority-ordered list of download mirrors
//! walked by a cursor.
use vstd::prelude::*;
use crate::decimal::{decimal, with_decimal};

verus! {

/// How many mirrors a download may try.
pub const MIRROR_COUNT: usize = 3;

/// A download mirror; the declaration order is the priority order.
#[derive(Clone, Copy, Debug, PartialEq, Eq, Structural)]
pub enum BeatmapEndpoint {
    Catboy,
    Chimu,
    Nerinyan,
}

/// The mirror tried at position `rank` (counted from zero) of the priority order.
pub open spec fn endpoint_at(rank: nat) -> BeatmapEndpoint {
    if rank == 0 {
        BeatmapEndpoint::Catboy
    } else if rank == 1 {
        BeatmapEndpoint::Chimu
    } else {
        BeatmapEndpoint::Nerinyan
    }
}

/// What the `tried`-th call on a fresh sequencer for `beatmap_id` yields:
/// a URL while mirrors remain, `None` once all have been handed out.
pub open spec fn next_url_outcome(beatmap_id: u64, tried: nat) -> Option<Seq<char>> {
    if tried < MIRROR_COUNT {
        Some(endpoint_at(tried).download_url(beatmap_id))
    } else {
        None
    }
}

/// The outcomes of `calls` successive calls on a fresh sequencer.
pub open spec fn fresh_outcomes(beatmap_id: u64, calls: nat) -> Seq<Option<Seq<char>>> {
    Seq::new(calls, |i: int| next_url_outcome(beatmap_id, i as nat))
}

/// A sequencer for `beatmap_id` as `BeatmapUrlProvider::new` makes it.
pub open spec fn fresh_provider(beatmap_id: u64) -> BeatmapUrlProvider {
    BeatmapUrlProvider { beatmap_id, endpoint: 0 }
}

/// The sequencer after one call of `get_next_url`.
pub open spec fn after_call(p: BeatmapUrlProvider) -> BeatmapUrlProvider {
    if p.endpoint < MIRROR_COUNT {
        BeatmapUrlProvider { beatmap_id: p.beatmap_id, endpoint: (p.endpoint + 1) as usize }
    } else {
        p
    }
}

/// The outcomes of `calls` successive calls of `get_next_url` on `p`.
pub open spec fn provider_outcomes(p: BeatmapUrlProvider, calls: nat) -> Seq<Option<Seq<char>>>
    decreases calls,
{
    if calls == 0 {
        Seq::empty()
    } else {
        seq![next_url_outcome(p.beatmap_id, p.endpoint as nat)] + provider_outcomes(
            after_call(p),
            (calls - 1) as nat,
        )
    }
}

impl BeatmapEndpoint {
    pub open spec fn url_prefix(self) -> Seq<char> {
        match self {
            BeatmapEndpoint::Catboy => "https://catboy.best/d/"@,
            BeatmapEndpoint::Chimu => "https://chimu.moe/d/"@,
            BeatmapEndpoint::Nerinyan => "https://proxy.nerinyan.moe/d/"@,
        }
    }

    pub open spec fn download_url(self, beatmap_id: u64) -> Seq<char> {
        self.url_prefix() + decimal(beatmap_id as nat)
    }

    /// The URL at which this mirror serves the archive of `beatmap_id`.
    pub fn get_download_url(&self, beatmap_id: u64) -> (r: String)
        ensures
            r@ == self.download_url(beatmap_id),
    {
        match self {
            BeatmapEndpoint::Chimu => with_decimal("https://chimu.moe/d/", beatmap_id),
            BeatmapEndpoint::Catboy => with_decimal("https://catboy.best/d/", beatmap_id),
            BeatmapEndpoint::Nerinyan => with_decimal("https://proxy.nerinyan.moe/d/", beatmap_id),
        }
    }
}

fn endpoint_of_rank(rank: usize) -> (r: BeatmapEndpoint)
    requires
        rank < MIRROR_COUNT,
    ensures
        r == endpoint_at(rank as nat),
{
    if rank == 0 {
        BeatmapEndpoint::Catboy
    } else if rank == 1 {
        BeatmapEndpoint::Chimu
    } else {
        BeatmapEndpoint::Nerinyan
    }
}

/// Every mirror has been handed out; the download cannot go on.
#[derive(Clone, Copy, Debug, PartialEq, Eq, Structural)]
pub struct OutOfMirrors;

/// Hands out the download URLs of one beatmap, one mirror per call, in
/// priority order.
#[derive(Debug)]
pub struct BeatmapUrlProvider {
    pub beatmap_id: u64,
    /// How many mirrors have been handed out so far.
    pub endpoint: usize,
}

impl BeatmapUrlProvider {
    /// The beatmap whose URLs are handed out.
    pub open spec fn target(&self) -> u64 {
        self.beatmap_id
    }

    /// How many mirrors have been handed out so far.
    pub open spec fn tried(&self) -> nat {
        self.endpoint as nat
    }

    /// The beatmap whose URLs are handed out.
    pub fn id(&self) -> (r: u64)
        ensures
            r == self.target(),
    {
        self.beatmap_id
    }

    pub fn new(beatmap_id: u64) -> (r: Self)
        ensures
            r == fresh_provider(beatmap_id),
            r.target() == beatmap_id,
            r.tried() == 0,
    {
        BeatmapUrlProvider { beatmap_id, endpoint: 0 }
    }

    /// The next mirror's URL, or `OutOfMirrors` once every mirror was tried.
    pub fn get_next_url(&mut self) -> (r: Result<String, OutOfMirrors>)
        ensures
            final(self).target() == old(self).target(),
            *final(self) == after_call(*old(self)),
            match r {
                Ok(url) => next_url_outcome(old(self).target(), old(self).tried()) == Some(url@)
                    && final(self).tried() == old(self).tried() + 1,
                Err(_) => next_url_outcome(old(self).target(), old(self).tried()) is None
                    && final(self).tried() == old(self).tried(),
            },
    {
        if self.endpoint < MIRROR_COUNT {
            let url = endpoint_of_rank(self.endpoint).get_download_url(self.beatmap_id);
            self.endpoint = self.endpoint + 1;
            Ok(url)
        } else {
            Err(OutOfMirrors)
        }
    }
}

/// Distinct mirrors give distinct URLs for the same beatmap.
proof fn lemma_urls_distinct(a: BeatmapEndpoint, b: BeatmapEndpoint, beatmap_id: u64)
    requires
        a != b,
    ensures
        a.download_url(beatmap_id) != b.download_url(beatmap_id),
{
    reveal_strlit("https://catboy.best/d/");
    reveal_strlit("https://chimu.moe/d/");
    reveal_strlit("https://proxy.nerinyan.moe/d/");
    let d = decimal(beatmap_id as nat);
    let ua = a.download_url(beatmap_id);
    let ub = b.download_url(beatmap_id);
    assert(ua[8] == a.url_prefix()[8]);
    assert(ub[8] == b.url_prefix()[8]);
    assert(ua[9] == a.url_prefix()[9]);
    assert(ub[9] == b.url_prefix()[9]);
    if ua == ub {
        assert(ua[8] == ub[8] && ua[9] == ub[9]);
    }
}

/// A fresh sequencer for any beatmap hands out exactly one URL per mirror,
/// in the fixed priority order and never the same one twice, and then
/// reports exhaustion on every later call. The outcomes depend on the beatmap
/// id alone, so every fresh sequencer for that id yields the same order.
pub proof fn lemma_sequencer_exhaustive(beatmap_id: u64, calls: nat)
    requires
        calls >= MIRROR_COUNT,
    ensures
        fresh_outcomes(beatmap_id, calls).len() == calls,
        forall|i: int|
            0 <= i < calls ==> (#[trigger] fresh_outcomes(beatmap_id, calls)[i] is Some <==> i
                < MIRROR_COUNT),
        forall|i: int|
            0 <= i < MIRROR_COUNT ==> #[trigger] fresh_outcomes(beatmap_id, calls)[i] == Some(
                endpoint_at(i as nat).download_url(beatmap_id),
            ),
        forall|i: int, j: int|
            0 <= i < j < MIRROR_COUNT ==> #[trigger] fresh_outcomes(beatmap_id, calls)[i]
                != #[trigger] fresh_outcomes(beatmap_id, calls)[j],
{
    assert forall|i: int, j: int|
        0 <= i < j < MIRROR_COUNT implies #[trigger] fresh_outcomes(beatmap_id, calls)[i]
        != #[trigger] fresh_outcomes(beatmap_id, calls)[j] by {
        lemma_urls_distinct(endpoint_at(i as nat), endpoint_at(j as nat), beatmap_id);
    }
}

proof fn lemma_outcomes_from(p: BeatmapUrlProvider, calls: nat)
    requires
        p.endpoint <= MIRROR_COUNT,
    ensures
        provider_outcomes(p, calls) =~= Seq::new(
            calls,
            |i: int| next_url_outcome(p.beatmap_id, (p.endpoint + i) as nat),
        ),
    decreases calls,
{
    if calls > 0 {
        let q = after_call(p);
        lemma_outcomes_from(q, (calls - 1) as nat);
        assert forall|i: int| 0 <= i < calls implies #[trigger] provider_outcomes(p, calls)[i]
            == next_url_outcome(p.beatmap_id, (p.endpoint + i) as nat) by {
            if i > 0 {
                assert(provider_outcomes(p, calls)[i] == provider_outcomes(q, (calls - 1) as nat)[i
                    - 1]);
            }
        }
    }
}

/// Every sequencer that `new` makes for a beatmap yields, call after call,
/// exactly the outcomes of `fresh_outcomes`: the candidate order is the same
/// for every construction.
pub proof fn lemma_sequencer_stable(beatmap_id: u64, calls: nat)
    ensures
        provider_outcomes(fresh_provider(beatmap_id), calls) == fresh_outcomes(beatmap_id, calls),
{
    lemma_outcomes_from(fresh_provider(beatmap_id), calls);
    assert(provider_outcomes(fresh_provider(beatmap_id), calls) =~= fresh_outcomes(beatmap_id, calls));
}

} // verus!
