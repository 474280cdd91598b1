use std::io::Read;

use osu_zipifier::archive::zip_beatmaps;
use osu_zipifier::batch::{batch_outcome, id_type_from_string, plan_downloads, IdType};
use osu_zipifier::decimal::with_decimal;
use osu_zipifier::download::{CreateOutcome, DownloadAction, DownloadError, DownloadEvent, MapDownload};
use osu_zipifier::ids::normalize_ids;
use osu_zipifier::mirrors::{BeatmapEndpoint, BeatmapUrlProvider, OutOfMirrors};
use osu_zipifier::resolve::{
    combine_resolution, fetch_beatmap_id_url, lookup_outcome, outcome_of_lookup, partition_by_cache,
    resolution_ids, ResolveError,
};
use osu_zipifier::store::{
    find_non_downloaded_maps, map_directory, map_file_name, map_file_path, partial_file_path,
};
use osu_zipifier::token::parse_token_response;

fn fetch(url: &str) -> DownloadAction {
    DownloadAction::Fetch(url.to_string())
}

fn unzip(bytes: &[u8]) -> Vec<(String, Vec<u8>)> {
    let mut archive = zip::ZipArchive::new(std::io::Cursor::new(bytes.to_vec())).unwrap();
    let mut out = Vec::new();
    for k in 0..archive.len() {
        let mut file = archive.by_index(k).unwrap();
        assert_eq!(file.compression(), zip::CompressionMethod::Stored);
        let mut data = Vec::new();
        file.read_to_end(&mut data).unwrap();
        out.push((file.name().to_string(), data));
    }
    out
}

#[test]
fn decimal_rendering() {
    assert_eq!(with_decimal("", 0), "0");
    assert_eq!(with_decimal("x", 1234567890), "x1234567890");
    assert_eq!(with_decimal("", u64::MAX), "18446744073709551615");
}

#[test]
fn endpoint_urls() {
    assert_eq!(BeatmapEndpoint::Catboy.get_download_url(5), "https://catboy.best/d/5");
    assert_eq!(BeatmapEndpoint::Chimu.get_download_url(5), "https://chimu.moe/d/5");
    assert_eq!(BeatmapEndpoint::Nerinyan.get_download_url(5), "https://proxy.nerinyan.moe/d/5");
}

#[test]
fn sequencer_yields_each_mirror_once_then_exhausts() {
    let mut p = BeatmapUrlProvider::new(222);
    assert_eq!(p.beatmap_id, 222);
    assert_eq!(p.get_next_url(), Ok("https://catboy.best/d/222".to_string()));
    assert_eq!(p.get_next_url(), Ok("https://chimu.moe/d/222".to_string()));
    assert_eq!(p.get_next_url(), Ok("https://proxy.nerinyan.moe/d/222".to_string()));
    assert_eq!(p.get_next_url(), Err(OutOfMirrors));
    assert_eq!(p.get_next_url(), Err(OutOfMirrors));
}

#[test]
fn sequencer_order_is_stable_across_constructions() {
    let mut a = BeatmapUrlProvider::new(9);
    let mut b = BeatmapUrlProvider::new(9);
    for _ in 0..4 {
        assert_eq!(a.get_next_url(), b.get_next_url());
    }
}

#[test]
fn api_url() {
    assert_eq!(fetch_beatmap_id_url(42), "https://osu.ppy.sh/api/v2/beatmaps/42");
}

#[test]
fn store_names_and_paths() {
    assert_eq!(map_directory(), "./osu_maps");
    assert_eq!(map_file_name(111), "111.osz");
    assert_eq!(map_file_path(111), "./osu_maps/111.osz");
    assert_eq!(partial_file_path(111, 42), "./osu_maps/111.osz.part42");
}

#[test]
fn missing_maps_from_listing() {
    let listing = vec!["111.osz".to_string(), "notes.txt".to_string(), "3.osz".to_string()];
    assert_eq!(find_non_downloaded_maps(&[111, 222, 3, 33], &listing), vec![222, 33]);
    assert_eq!(find_non_downloaded_maps(&[], &listing), Vec::<u64>::new());
    assert_eq!(find_non_downloaded_maps(&[1, 2], &[]), vec![1, 2]);
    // a name without the extension does not count as the map
    assert_eq!(find_non_downloaded_maps(&[111], &["111".to_string()]), vec![111]);
    assert_eq!(find_non_downloaded_maps(&[111], &["111.osz.part4".to_string()]), vec![111]);
}

#[test]
fn normalization_sorts_and_dedups() {
    assert_eq!(normalize_ids(&[3, 1, 3, 2, 1]), vec![1, 2, 3]);
    assert_eq!(normalize_ids(&[]), Vec::<u64>::new());
    assert_eq!(normalize_ids(&[u64::MAX, 0]), vec![0, u64::MAX]);
}

#[test]
fn download_tries_mirrors_in_order() {
    let (mut d, a) = MapDownload::start(222, 1);
    assert_eq!(a, fetch("https://catboy.best/d/222"));
    assert_eq!(d.on_event(DownloadEvent::MirrorFailed), fetch("https://chimu.moe/d/222"));
    assert_eq!(d.on_event(DownloadEvent::BodyReceived), DownloadAction::CreateTemporary("./osu_maps/222.osz.part1".to_string()));
    assert_eq!(d.on_event(DownloadEvent::TemporaryCreated), DownloadAction::WriteBody);
    assert_eq!(
        d.on_event(DownloadEvent::WriteSucceeded),
        DownloadAction::Publish("./osu_maps/222.osz.part1".to_string(), "./osu_maps/222.osz".to_string())
    );
    assert_eq!(d.on_event(DownloadEvent::Published(CreateOutcome::Created)), DownloadAction::RemoveTemporary("./osu_maps/222.osz.part1".to_string()));
    assert_eq!(d.on_event(DownloadEvent::RemoveFinished), DownloadAction::Finish(Ok(())));
}

#[test]
fn download_exhausts_mirrors() {
    let (mut d, _) = MapDownload::start(1, 0);
    assert_eq!(d.on_event(DownloadEvent::MirrorFailed), fetch("https://chimu.moe/d/1"));
    assert_eq!(d.on_event(DownloadEvent::MirrorFailed), fetch("https://proxy.nerinyan.moe/d/1"));
    assert_eq!(d.on_event(DownloadEvent::MirrorFailed), DownloadAction::Finish(Err(DownloadError::NoMirrorAvailable)));
}

#[test]
fn download_yields_to_existing_file() {
    let (mut d, _) = MapDownload::start(7, 2);
    d.on_event(DownloadEvent::BodyReceived);
    d.on_event(DownloadEvent::TemporaryCreated);
    d.on_event(DownloadEvent::WriteSucceeded);
    assert_eq!(d.on_event(DownloadEvent::Published(CreateOutcome::AlreadyExists)), DownloadAction::RemoveTemporary("./osu_maps/7.osz.part2".to_string()));
    assert_eq!(d.on_event(DownloadEvent::RemoveFinished), DownloadAction::Finish(Ok(())));
}

#[test]
fn failed_write_removes_partial_file() {
    let (mut d, _) = MapDownload::start(7, 3);
    d.on_event(DownloadEvent::BodyReceived);
    d.on_event(DownloadEvent::TemporaryCreated);
    assert_eq!(d.on_event(DownloadEvent::WriteFailed), DownloadAction::RemoveTemporary("./osu_maps/7.osz.part3".to_string()));
    assert_eq!(d.on_event(DownloadEvent::RemoveFinished), DownloadAction::Finish(Err(DownloadError::LocalIo)));
    // a temporary file never counts as the map, so the map stays absent
    assert_eq!(find_non_downloaded_maps(&[7], &["7.osz.part3".to_string()]), vec![7]);
    assert_eq!(find_non_downloaded_maps(&[7], &["8.osz".to_string()]), vec![7]);
}

#[test]
fn download_other_failures() {
    let (mut d, _) = MapDownload::start(7, 0);
    assert_eq!(d.on_event(DownloadEvent::BodyFailed), DownloadAction::Finish(Err(DownloadError::BodyUnreadable)));
    let (mut d, _) = MapDownload::start(7, 0);
    d.on_event(DownloadEvent::BodyReceived);
    assert_eq!(d.on_event(DownloadEvent::CreateFailed), DownloadAction::Finish(Err(DownloadError::LocalIo)));
    let (mut d, _) = MapDownload::start(7, 0);
    d.on_event(DownloadEvent::BodyReceived);
    d.on_event(DownloadEvent::TemporaryCreated);
    d.on_event(DownloadEvent::WriteSucceeded);
    assert_eq!(d.on_event(DownloadEvent::PublishFailed), DownloadAction::RemoveTemporary("./osu_maps/7.osz.part0".to_string()));
    assert_eq!(d.on_event(DownloadEvent::RemoveFinished), DownloadAction::Finish(Err(DownloadError::LocalIo)));
    let (mut d, _) = MapDownload::start(7, 0);
    assert_eq!(d.on_event(DownloadEvent::WriteSucceeded), DownloadAction::Finish(Err(DownloadError::OutOfOrder)));
}

#[test]
fn resolution_rejects_empty_input() {
    assert_eq!(resolution_ids(&[]), Err(ResolveError::EmptyInput));
    assert_eq!(resolution_ids(&[5, 2, 5]), Ok(vec![2, 5]));
}

#[test]
fn cache_partition() {
    let (hits, misses) = partition_by_cache(&[1, 2, 3, 4], &[Some(10), None, Some(30), None]);
    assert_eq!(hits, vec![10, 30]);
    assert_eq!(misses, vec![2, 4]);
}

#[test]
fn lookup_outcomes() {
    assert_eq!(lookup_outcome(Some(200), br#"{"id": 9, "beatmapset_id": 222}"#), Ok(222));
    assert_eq!(lookup_outcome(Some(404), br#"{"beatmapset_id": 222}"#), Err(ResolveError::RemoteLookupFailed));
    assert_eq!(lookup_outcome(None, b""), Err(ResolveError::RemoteLookupFailed));
    assert_eq!(lookup_outcome(Some(200), br#"{"id": 9}"#), Err(ResolveError::MalformedResponse));
    assert_eq!(lookup_outcome(Some(200), br#"{"beatmapset_id": "222"}"#), Err(ResolveError::MalformedResponse));
    assert_eq!(lookup_outcome(Some(200), b"not json"), Err(ResolveError::MalformedResponse));
    assert_eq!(outcome_of_lookup(Some(200), Some(3)), Ok(3));
    assert_eq!(outcome_of_lookup(Some(200), None), Err(ResolveError::MalformedResponse));
    assert_eq!(outcome_of_lookup(Some(500), Some(3)), Err(ResolveError::RemoteLookupFailed));
}

#[test]
fn combining_lookups() {
    assert_eq!(combine_resolution(vec![10], &[Ok(20), Ok(30)]), Ok(vec![10, 20, 30]));
    assert_eq!(
        combine_resolution(vec![10], &[Ok(20), Err(ResolveError::MalformedResponse), Err(ResolveError::RemoteLookupFailed)]),
        Err(ResolveError::MalformedResponse)
    );
    assert_eq!(combine_resolution(vec![], &[]), Ok(vec![]));
}

#[test]
fn warm_cache_resolves_without_lookups() {
    // first pass: the cache misses, one lookup answers
    let ids = resolution_ids(&[77]).unwrap();
    let (hits, misses) = partition_by_cache(&ids, &[None]);
    assert_eq!(misses, vec![77]);
    let first = combine_resolution(hits, &[lookup_outcome(Some(200), br#"{"beatmapset_id": 222}"#)]).unwrap();
    // second pass: the cache holds what the first wrote back
    let (hits, misses) = partition_by_cache(&ids, &[Some(222)]);
    assert!(misses.is_empty());
    let second = combine_resolution(hits, &[]).unwrap();
    assert_eq!(first, second);
}

#[test]
fn id_type_tags() {
    assert_eq!(id_type_from_string("beatmap"), IdType::Beatmap);
    assert_eq!(id_type_from_string("difficulty"), IdType::Difficulty);
    assert_eq!(id_type_from_string("Difficulty"), IdType::Beatmap);
    assert_eq!(id_type_from_string(""), IdType::Beatmap);
}

#[test]
fn batch_outcomes() {
    assert_eq!(batch_outcome(&[]), Ok(()));
    assert_eq!(batch_outcome(&[Ok(()), Ok(())]), Ok(()));
    assert_eq!(
        batch_outcome(&[Ok(()), Err(DownloadError::LocalIo), Err(DownloadError::NoMirrorAvailable)]),
        Err(DownloadError::LocalIo)
    );
}

#[test]
fn archive_round_trip() {
    let bytes = zip_beatmaps(&[111, 222], &[vec![1, 2, 3], vec![9; 1000]]).unwrap();
    assert_eq!(
        unzip(&bytes),
        vec![("111".to_string(), vec![1, 2, 3]), ("222".to_string(), vec![9; 1000])]
    );
    // packing is deterministic
    assert_eq!(zip_beatmaps(&[111, 222], &[vec![1, 2, 3], vec![9; 1000]]).unwrap(), bytes);
}

#[test]
fn archive_keeps_empty_maps() {
    let bytes = zip_beatmaps(&[5], &[vec![]]).unwrap();
    assert_eq!(unzip(&bytes), vec![("5".to_string(), vec![])]);
}

#[test]
fn archive_of_nothing() {
    let bytes = zip_beatmaps(&[], &[]).unwrap();
    assert!(unzip(&bytes).is_empty());
}

#[test]
fn serve_beatmap_request_downloads_only_missing() {
    let (maps, absent) = plan_downloads(&[222, 111, 222], &["111.osz".to_string()]);
    assert_eq!(maps, vec![111, 222]);
    assert_eq!(absent, vec![222]);
    let (mut d, a) = MapDownload::start(222, 5);
    assert_eq!(a, fetch("https://catboy.best/d/222"));
    assert_eq!(d.on_event(DownloadEvent::MirrorFailed), fetch("https://chimu.moe/d/222"));
    assert_eq!(d.on_event(DownloadEvent::BodyReceived), DownloadAction::CreateTemporary("./osu_maps/222.osz.part5".to_string()));
    assert_eq!(d.on_event(DownloadEvent::TemporaryCreated), DownloadAction::WriteBody);
    assert_eq!(
        d.on_event(DownloadEvent::WriteSucceeded),
        DownloadAction::Publish("./osu_maps/222.osz.part5".to_string(), "./osu_maps/222.osz".to_string())
    );
    d.on_event(DownloadEvent::Published(CreateOutcome::Created));
    assert_eq!(d.on_event(DownloadEvent::RemoveFinished), DownloadAction::Finish(Ok(())));
    assert_eq!(batch_outcome(&[Ok(())]), Ok(()));
    let bytes = zip_beatmaps(&maps, &[b"first".to_vec(), b"second".to_vec()]).unwrap();
    assert_eq!(
        unzip(&bytes),
        vec![("111".to_string(), b"first".to_vec()), ("222".to_string(), b"second".to_vec())]
    );
}

#[test]
fn serve_difficulty_request_resolves_once() {
    assert_eq!(id_type_from_string("difficulty"), IdType::Difficulty);
    let ids = resolution_ids(&[9001]).unwrap();
    let (hits, misses) = partition_by_cache(&ids, &[None]);
    assert_eq!(misses.len(), 1);
    assert_eq!(fetch_beatmap_id_url(misses[0]), "https://osu.ppy.sh/api/v2/beatmaps/9001");
    let resolved = combine_resolution(hits, &[lookup_outcome(Some(200), br#"{"beatmapset_id": 222}"#)]).unwrap();
    let (maps, absent) = plan_downloads(&resolved, &["111.osz".to_string()]);
    assert_eq!(maps, vec![222]);
    assert_eq!(absent, vec![222]);
}

#[test]
fn token_responses() {
    assert_eq!(
        parse_token_response(br#"{"token_type": "Bearer", "expires_in": 86400, "access_token": "abc"}"#),
        Some(("abc".to_string(), 86400))
    );
    assert_eq!(parse_token_response(br#"{"expires_in": 86400}"#), None);
    assert_eq!(parse_token_response(br#"{"access_token": "abc", "expires_in": -1}"#), None);
    assert_eq!(parse_token_response(b"[]"), None);
}
