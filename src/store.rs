//! The map store: one `<id>.osz` file per beatmap in the map directory.
//! Which maps are present is decided from a listing of the directory.
use vstd::prelude::*;
use vstd::string::StringExecFns;
use crate::decimal::{decimal, with_decimal};

verus! {

/// The map directory, relative to the working directory.
pub const MAP_DIRECTORY: &'static str = "osu_maps";

/// The file name under which the archive of `beatmap_id` is stored.
pub open spec fn map_file_name_spec(beatmap_id: u64) -> Seq<char> {
    decimal(beatmap_id as nat) + ".osz"@
}

/// The path, from the working directory, of the stored archive of `beatmap_id`.
pub open spec fn map_file_path_spec(beatmap_id: u64) -> Seq<char> {
    "./osu_maps/"@ + map_file_name_spec(beatmap_id)
}

/// The name of the temporary file into which download session `token`
/// writes the archive of `beatmap_id` before publishing it.
pub open spec fn partial_file_name_spec(beatmap_id: u64, token: u64) -> Seq<char> {
    decimal(beatmap_id as nat) + ".osz.part"@ + decimal(token as nat)
}

/// The path of that temporary file.
pub open spec fn partial_file_path_spec(beatmap_id: u64, token: u64) -> Seq<char> {
    "./osu_maps/"@ + partial_file_name_spec(beatmap_id, token)
}

/// Whether a directory listing holds the file of `beatmap_id`. Files appear
/// under this name only once complete: downloads write elsewhere and then
/// publish the finished file under it.
pub open spec fn is_stored(listing: Seq<Seq<char>>, beatmap_id: u64) -> bool {
    listing.contains(map_file_name_spec(beatmap_id))
}

/// The ids of `ids` whose file the listing lacks, in the order of `ids`.
pub open spec fn absent_maps(ids: Seq<u64>, listing: Seq<Seq<char>>) -> Seq<u64>
    decreases ids.len(),
{
    if ids.len() == 0 {
        Seq::empty()
    } else {
        let rest = absent_maps(ids.drop_last(), listing);
        if is_stored(listing, ids.last()) {
            rest
        } else {
            rest.push(ids.last())
        }
    }
}

/// The names of a directory listing, as character sequences.
pub open spec fn listing_names(listing: Seq<String>) -> Seq<Seq<char>> {
    listing.map_values(|s: String| s@)
}

/// The map directory's path.
pub fn map_directory() -> (r: String)
    ensures
        r@ == "./osu_maps"@,
{
    String::from_str("./osu_maps")
}

/// The file name of the stored archive of `beatmap_id`.
pub fn map_file_name(beatmap_id: u64) -> (r: String)
    ensures
        r@ == map_file_name_spec(beatmap_id),
{
    let mut s = with_decimal("", beatmap_id);
    s.append(".osz");
    proof {
        reveal_strlit("");
    }
    assert(s@ =~= map_file_name_spec(beatmap_id));
    s
}

/// The path of the stored archive of `beatmap_id`.
pub fn map_file_path(beatmap_id: u64) -> (r: String)
    ensures
        r@ == map_file_path_spec(beatmap_id),
{
    let mut s = map_directory();
    s.append("/");
    let name = map_file_name(beatmap_id);
    s.append(name.as_str());
    proof {
        reveal_strlit("./osu_maps");
        reveal_strlit("/");
        reveal_strlit("./osu_maps/");
    }
    assert(s@ =~= map_file_path_spec(beatmap_id));
    s
}

/// The path of the temporary file of download session `token` for `beatmap_id`.
pub fn partial_file_path(beatmap_id: u64, token: u64) -> (r: String)
    ensures
        r@ == partial_file_path_spec(beatmap_id, token),
{
    let mut s = with_decimal("./osu_maps/", beatmap_id);
    s.append(".osz.part");
    let t = with_decimal("", token);
    s.append(t.as_str());
    proof {
        reveal_strlit("");
    }
    assert(s@ =~= partial_file_path_spec(beatmap_id, token));
    s
}

/// Whether `listing` holds a name equal to `name`.
pub fn listing_contains(listing: &[String], name: &String) -> (r: bool)
    ensures
        r == listing_names(listing@).contains(name@),
{
    let mut j: usize = 0;
    while j < listing.len()
        invariant
            0 <= j <= listing@.len(),
            forall|k: int| 0 <= k < j ==> listing@[k]@ != name@,
        decreases listing@.len() - j,
    {
        if listing[j] == *name {
            assert(listing_names(listing@)[j as int] == name@);
            return true;
        }
        j = j + 1;
    }
    assert forall|k: int| 0 <= k < listing_names(listing@).len() implies
        listing_names(listing@)[k] != name@ by {
        assert(listing_names(listing@)[k] == listing@[k]@);
    }
    false
}

/// The ids among `beatmap_ids` whose archive is not in the directory listing
/// `downloaded`, in the order given.
pub fn find_non_downloaded_maps(beatmap_ids: &[u64], downloaded: &[String]) -> (r: Vec<u64>)
    ensures
        r@ == absent_maps(beatmap_ids@, listing_names(downloaded@)),
{
    let ghost listing = listing_names(downloaded@);
    let mut absent: Vec<u64> = Vec::new();
    let mut i: usize = 0;
    while i < beatmap_ids.len()
        invariant
            0 <= i <= beatmap_ids@.len(),
            listing == listing_names(downloaded@),
            absent@ == absent_maps(beatmap_ids@.subrange(0, i as int), listing),
        decreases beatmap_ids@.len() - i,
    {
        let id = beatmap_ids[i];
        let name = map_file_name(id);
        let present = listing_contains(downloaded, &name);
        if !present {
            absent.push(id);
        }
        assert(beatmap_ids@.subrange(0, i + 1).drop_last() =~= beatmap_ids@.subrange(0, i as int));
        i = i + 1;
    }
    assert(beatmap_ids@.subrange(0, i as int) =~= beatmap_ids@);
    absent
}

/// An id is reported absent exactly when the listing lacks its file, so once a
/// partially written file has been removed, the map is reported absent again.
pub proof fn lemma_absent_iff_not_stored(ids: Seq<u64>, listing: Seq<Seq<char>>, beatmap_id: u64)
    requires
        ids.contains(beatmap_id),
    ensures
        absent_maps(ids, listing).contains(beatmap_id) <==> !is_stored(listing, beatmap_id),
    decreases ids.len(),
{
    let rest = absent_maps(ids.drop_last(), listing);
    if ids.last() == beatmap_id {
        if !is_stored(listing, beatmap_id) {
            assert(absent_maps(ids, listing).last() == beatmap_id);
        } else {
            lemma_absent_members(ids.drop_last(), listing);
        }
    } else {
        let k = choose|k: int| 0 <= k < ids.len() && ids[k] == beatmap_id;
        assert(ids.drop_last()[k] == beatmap_id);
        lemma_absent_iff_not_stored(ids.drop_last(), listing, beatmap_id);
        if rest.contains(beatmap_id) {
            let m = choose|m: int| 0 <= m < rest.len() && rest[m] == beatmap_id;
            if !is_stored(listing, ids.last()) {
                assert(absent_maps(ids, listing)[m] == beatmap_id);
            }
        }
    }
}

proof fn lemma_decimal_ends_in_digit(n: nat)
    ensures
        decimal(n).len() > 0,
        decimal(n).last() != 'z',
    decreases n,
{
    if n >= 10 {
        lemma_decimal_ends_in_digit(n / 10);
    }
}

/// A temporary file of a download never counts as a stored map, whatever the
/// rest of the listing holds: a map still being written is reported absent.
pub proof fn lemma_partial_files_never_stored(
    listing: Seq<Seq<char>>,
    beatmap_id: u64,
    token: u64,
    any_id: u64,
)
    ensures
        is_stored(listing.push(partial_file_name_spec(beatmap_id, token)), any_id) == is_stored(
            listing,
            any_id,
        ),
{
    reveal_strlit(".osz");
    let partial = partial_file_name_spec(beatmap_id, token);
    let name = map_file_name_spec(any_id);
    lemma_decimal_ends_in_digit(token as nat);
    assert(partial.last() == decimal(token as nat).last());
    assert(name.last() == 'z');
    let extended = listing.push(partial);
    if extended.contains(name) {
        let k = choose|k: int| 0 <= k < extended.len() && extended[k] == name;
        if k < listing.len() {
            assert(listing[k] == name);
        }
    }
    if listing.contains(name) {
        let k = choose|k: int| 0 <= k < listing.len() && listing[k] == name;
        assert(extended[k] == name);
    }
}

/// Every id reported absent is one whose file the listing lacks.
proof fn lemma_absent_members(ids: Seq<u64>, listing: Seq<Seq<char>>)
    ensures
        forall|k: int|
            0 <= k < absent_maps(ids, listing).len() ==> !is_stored(
                listing,
                #[trigger] absent_maps(ids, listing)[k],
            ),
    decreases ids.len(),
{
    if ids.len() > 0 {
        lemma_absent_members(ids.drop_last(), listing);
        let rest = absent_maps(ids.drop_last(), listing);
        assert forall|k: int| 0 <= k < absent_maps(ids, listing).len() implies !is_stored(
            listing,
            #[trigger] absent_maps(ids, listing)[k],
        ) by {
            if k < rest.len() {
                assert(absent_maps(ids, listing)[k] == rest[k]);
            }
        }
    }
}

} // verus!
