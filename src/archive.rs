//! Packing of stored maps into one zip archive, one uncompressed entry per
//! map, in the order given.
use vstd::prelude::*;
use crate::decimal::{decimal, with_decimal};

verus! {

#[verifier::external_type_specification]
#[verifier::external_body]
pub struct ExZipError(zip::result::ZipError);

#[verifier::external_type_specification]
#[verifier::external_body]
pub struct ExIoError(std::io::Error);

/// A zip archive being written in memory. The writer is held in a private
/// field: Verus cannot take `zip::ZipWriter` as a declared type, since its
/// declaration carries the bounds `Write + Seek` of std's io traits.
#[verifier::external_body]
pub struct ArchiveWriter {
    inner: zip::ZipWriter<std::io::Cursor<Vec<u8>>>,
}

/// The entries written so far: each entry's name and data.
pub uninterp spec fn archive_entries(w: ArchiveWriter) -> Seq<(Seq<char>, Seq<u8>)>;

/// Whether the writer still accepts entries: it has not been finished, and
/// no write has failed on it.
pub uninterp spec fn archive_open(w: ArchiveWriter) -> bool;

/// The bytes of the zip archive that holds `entries`, stored uncompressed,
/// in that order.
pub uninterp spec fn stored_zip(entries: Seq<(Seq<char>, Seq<u8>)>) -> Seq<u8>;

/// Relies on zip::ZipWriter::new over an empty in-memory cursor: an open
/// writer with no entries.
#[verifier::external_body]
fn new_archive() -> (r: ArchiveWriter)
    ensures
        archive_entries(r) == Seq::<(Seq<char>, Seq<u8>)>::empty(),
        archive_open(r),
{
    ArchiveWriter { inner: zip::ZipWriter::new(std::io::Cursor::new(Vec::new())) }
}

/// Relies on zip::ZipWriter::start_file with stored compression: on an open
/// in-memory writer it succeeds, and a new, empty entry named `name` follows
/// the earlier ones.
#[verifier::external_body]
fn start_entry(w: &mut ArchiveWriter, name: &String) -> (r: Result<(), zip::result::ZipError>)
    ensures
        archive_open(*old(w)) ==> r is Ok,
        r is Ok ==> archive_open(*final(w)) && archive_entries(*final(w)) == archive_entries(
            *old(w),
        ).push((name@, Seq::<u8>::empty())),
{
    let options = zip::write::FileOptions::default().compression_method(
        zip::CompressionMethod::Stored,
    );
    w.inner.start_file(name.as_str(), options)
}

/// Relies on std::io::Write::write_all on zip::ZipWriter: an empty `data`
/// changes nothing; otherwise, on success, `data` is appended to the entry
/// last started. With no entry started it fails; on an open writer it
/// succeeds while the entry stays within `u32::MAX` bytes.
#[verifier::external_body]
fn write_entry_data(w: &mut ArchiveWriter, data: &[u8]) -> (r: Result<(), std::io::Error>)
    ensures
        data@.len() == 0 ==> r is Ok && *final(w) == *old(w),
        data@.len() > 0 && archive_open(*old(w)) && archive_entries(*old(w)).len() > 0
            && archive_entries(*old(w)).last().1.len() + data@.len() <= u32::MAX ==> r is Ok,
        data@.len() > 0 && r is Ok ==> archive_entries(*old(w)).len() > 0 && archive_open(
            *final(w),
        ) && archive_entries(*final(w)) == archive_entries(*old(w)).drop_last().push(
            (archive_entries(*old(w)).last().0, archive_entries(*old(w)).last().1 + data@),
        ),
{
    std::io::Write::write_all(&mut w.inner, data)
}

/// Relies on zip::ZipWriter::finish and Cursor::into_inner: on an open
/// in-memory writer it succeeds with the bytes of the finished archive.
#[verifier::external_body]
fn finish_archive(w: &mut ArchiveWriter) -> (r: Result<Vec<u8>, zip::result::ZipError>)
    ensures
        archive_open(*old(w)) ==> r is Ok,
        r matches Ok(bytes) ==> bytes@ == stored_zip(archive_entries(*old(w))),
{
    match w.inner.finish() {
        Ok(cursor) => Ok(cursor.into_inner()),
        Err(e) => Err(e),
    }
}

/// The archive could not be written.
#[derive(Clone, Copy, Debug, PartialEq, Eq, Structural)]
pub struct ArchiveError;

/// The entries of the archive of the maps `beatmap_ids` whose stored files
/// hold `contents`: each named by its beatmap id, in the order given.
pub open spec fn map_entries(beatmap_ids: Seq<u64>, contents: Seq<Seq<u8>>) -> Seq<
    (Seq<char>, Seq<u8>),
> {
    Seq::new(beatmap_ids.len(), |k: int| (decimal(beatmap_ids[k] as nat), contents[k]))
}

/// Packs the maps `beatmap_ids`, whose stored files hold `contents`
/// (`contents[k]` for `beatmap_ids[k]`), into one zip archive with an
/// uncompressed entry per map, named by its id, in the order given. It
/// succeeds whenever no map is larger than `u32::MAX` bytes.
pub fn zip_beatmaps(beatmap_ids: &[u64], contents: &[Vec<u8>]) -> (r: Result<Vec<u8>, ArchiveError>)
    requires
        beatmap_ids@.len() == contents@.len(),
    ensures
        (forall|k: int| 0 <= k < contents@.len() ==> #[trigger] contents@[k]@.len() <= u32::MAX)
            ==> r is Ok,
        r matches Ok(bytes) ==> bytes@ == stored_zip(
            map_entries(beatmap_ids@, contents@.map_values(|c: Vec<u8>| c@)),
        ),
{
    let ghost all = contents@.map_values(|c: Vec<u8>| c@);
    let mut zip = new_archive();
    let mut i: usize = 0;
    while i < beatmap_ids.len()
        invariant
            0 <= i <= beatmap_ids@.len(),
            beatmap_ids@.len() == contents@.len(),
            all == contents@.map_values(|c: Vec<u8>| c@),
            archive_open(zip),
            archive_entries(zip) == map_entries(
                beatmap_ids@.subrange(0, i as int),
                all.subrange(0, i as int),
            ),
        decreases beatmap_ids@.len() - i,
    {
        let name = with_decimal("", beatmap_ids[i]);
        proof {
            reveal_strlit("");
            assert(name@ =~= decimal(beatmap_ids@[i as int] as nat));
        }
        match start_entry(&mut zip, &name) {
            Ok(()) => {},
            Err(_) => {
                return Err(ArchiveError);
            },
        }
        let ghost started = archive_entries(zip);
        match write_entry_data(&mut zip, contents[i].as_slice()) {
            Ok(()) => {},
            Err(_) => {
                return Err(ArchiveError);
            },
        }
        proof {
            if contents@[i as int]@.len() == 0 {
                assert(started.last().1 + contents@[i as int]@ =~= started.last().1);
                assert(started.drop_last().push(started.last()) =~= started);
            }
        }
        assert(archive_entries(zip) =~= map_entries(
            beatmap_ids@.subrange(0, i + 1),
            all.subrange(0, i + 1),
        ));
        i = i + 1;
    }
    assert(beatmap_ids@.subrange(0, i as int) =~= beatmap_ids@);
    assert(all.subrange(0, i as int) =~= all);
    match finish_archive(&mut zip) {
        Ok(bytes) => Ok(bytes),
        Err(_) => Err(ArchiveError),
    }
}

} // verus!
