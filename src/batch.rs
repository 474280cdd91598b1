//! The decisions of serving one request: which ids, which maps to download,
//! and whether the batch as a whole succeeded.
use vstd::prelude::*;
use vstd::string::StringExecFns;
use crate::download::DownloadError;
use crate::ids::{normalize_ids, strictly_increasing};
use crate::store::{absent_maps, find_non_downloaded_maps, listing_names};

verus! {

/// Which kind of id a request lists.
#[derive(Clone, Copy, Debug, PartialEq, Eq, Structural)]
pub enum IdType {
    /// Beatmap (set) ids, which name stored archives directly.
    Beatmap,
    /// Difficulty ids, to be resolved to beatmap ids first.
    Difficulty,
}

/// A request: ids, and which kind of id they are.
#[derive(Debug)]
pub struct ServeMapsRequest {
    pub maps: Vec<u64>,
    pub id_type: IdType,
}

/// Reads the id-type tag of a request: `"difficulty"` selects difficulty ids,
/// `"beatmap"` and every other tag beatmap ids.
pub fn id_type_from_string(s: &str) -> (r: IdType)
    ensures
        r == (if s@ == "difficulty"@ { IdType::Difficulty } else { IdType::Beatmap }),
{
    let tag = String::from_str(s);
    let difficulty = String::from_str("difficulty");
    if tag == difficulty {
        IdType::Difficulty
    } else {
        IdType::Beatmap
    }
}

/// The maps that a request needs: `map_list` sorted without repeats, and
/// among them those whose file the directory listing `downloaded` lacks.
pub fn plan_downloads(map_list: &[u64], downloaded: &[String]) -> (r: (Vec<u64>, Vec<u64>))
    ensures
        strictly_increasing(r.0@),
        r.0@.to_set() == map_list@.to_set(),
        r.1@ == absent_maps(r.0@, listing_names(downloaded@)),
{
    let maps = normalize_ids(map_list);
    let absent = find_non_downloaded_maps(maps.as_slice(), downloaded);
    (maps, absent)
}

/// The first failure in a list of outcomes.
pub open spec fn first_download_failure(results: Seq<Result<(), DownloadError>>) -> Option<
    DownloadError,
>
    decreases results.len(),
{
    if results.len() == 0 {
        None
    } else {
        match results[0] {
            Err(e) => Some(e),
            Ok(_) => first_download_failure(results.drop_first()),
        }
    }
}

/// The outcome of a batch of downloads: success when every download
/// succeeded, else the first failure listed.
pub fn batch_outcome(results: &[Result<(), DownloadError>]) -> (r: Result<(), DownloadError>)
    ensures
        r == (match first_download_failure(results@) {
            Some(e) => Err(e),
            None => Ok(()),
        }),
        r is Ok <==> forall|k: int| 0 <= k < results@.len() ==> #[trigger] results@[k] is Ok,
{
    let mut i: usize = 0;
    assert(results@.subrange(0, results@.len() as int) =~= results@);
    while i < results.len()
        invariant
            0 <= i <= results@.len(),
            first_download_failure(results@) == first_download_failure(
                results@.subrange(i as int, results@.len() as int),
            ),
            forall|k: int| 0 <= k < i ==> #[trigger] results@[k] is Ok,
        decreases results@.len() - i,
    {
        let ghost tail = results@.subrange(i as int, results@.len() as int);
        assert(tail.drop_first() =~= results@.subrange(i + 1, results@.len() as int));
        match results[i] {
            Ok(()) => {},
            Err(e) => {
                return Err(e);
            },
        }
        i = i + 1;
    }
    Ok(())
}

} // verus!
