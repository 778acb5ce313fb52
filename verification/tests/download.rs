use valedesk_core::checksum::sha256_hex;
use valedesk_core::text::{eq_ignore_ascii_case, to_ascii_lower};
use valedesk_core::download::{
    check_download, finish_download, handle_download_start, plan_download, Campaign,
    CampaignStep, DownloadEvent, DownloadPlan, DownloadProgress, PendingDownload, SingleFlight,
};
use valedesk_core::errors::{AudioModelsError, ContextValue, ErrorCode};
use valedesk_core::manifest::{MacosManifest, ModelFile, ModelManifest, ModelSpec};
use valedesk_core::readiness::{DiskSnapshot, FileProbe};

const ABC_SHA256: &str = "ba7816bf8f01cfea414140de5dae2223b00361a396177a9cb410ff61f20015ad";
const EMPTY_SHA256: &str = "e3b0c44298fc1c149afbf4c8996fb92427ae41e4649b934ca495991b7852b855";

fn file(path: &str, sha256: &str, size: u64) -> ModelFile {
    ModelFile {
        path: path.to_string(),
        download_url: format!("https://example.test/{}", path),
        sha256: sha256.to_string(),
        size,
    }
}

fn model(key: &str, repo: &str, files: Vec<ModelFile>) -> ModelSpec {
    ModelSpec {
        key: key.to_string(),
        repo_dirname: repo.to_string(),
        model_id: key.to_string(),
        source_page_url: String::new(),
        macos: MacosManifest { revision_sha: "r".to_string(), files },
    }
}

fn probe(repo: &str, path: &str, len: u64) -> FileProbe {
    FileProbe { repo_dirname: repo.to_string(), path: path.to_string(), is_file: true, len }
}

fn pending(path: &str, sha256: &str, size: u64) -> PendingDownload {
    PendingDownload {
        repo_dirname: "repo".to_string(),
        path: path.to_string(),
        download_url: format!("https://example.test/{}", path),
        expected_sha256: sha256.to_string(),
        expected_size: size,
    }
}

fn text_of(e: &AudioModelsError, name: &str) -> String {
    for entry in &e.context {
        if entry.name == name {
            if let ContextValue::Text(t) = &entry.value {
                return t.clone();
            }
        }
    }
    panic!("no text entry {}", name)
}

fn number_of(e: &AudioModelsError, name: &str) -> u64 {
    for entry in &e.context {
        if entry.name == name {
            if let ContextValue::Number(n) = &entry.value {
                return *n;
            }
        }
    }
    panic!("no number entry {}", name)
}

fn progress_of(e: &DownloadEvent) -> DownloadProgress {
    match e {
        DownloadEvent::Progress(p) => *p,
        other => panic!("{:?}", other),
    }
}

#[test]
fn sha256_of_known_inputs() {
    assert_eq!(sha256_hex(b"abc"), ABC_SHA256);
    assert_eq!(sha256_hex(b""), EMPTY_SHA256);
}

#[test]
fn ascii_case_is_ignored() {
    assert!(eq_ignore_ascii_case("abcDEF012", "ABCdef012"));
    assert!(!eq_ignore_ascii_case("abc", "abd"));
    assert!(!eq_ignore_ascii_case("abc", "abcd"));
    assert!(!eq_ignore_ascii_case("k", "\u{212A}"));
    assert_eq!(to_ascii_lower('A'), 'a');
    assert_eq!(to_ascii_lower('Z'), 'z');
    assert_eq!(to_ascii_lower('@'), '@');
    assert_eq!(to_ascii_lower('['), '[');
    assert_eq!(to_ascii_lower('é'), 'é');
}

#[test]
fn a_file_that_matches_passes() {
    assert!(check_download("/t/a.partial", "u", ABC_SHA256, 3, 3, ABC_SHA256).is_ok());
    let upper = ABC_SHA256.to_uppercase();
    assert!(check_download("/t/a.partial", "u", &format!("  {}\n", upper), 3, 3, ABC_SHA256).is_ok());
}

#[test]
fn a_blank_checksum_is_not_verified() {
    assert!(check_download("/t/a.partial", "u", "", 3, 3, "whatever").is_ok());
    assert!(check_download("/t/a.partial", "u", "   ", 3, 3, "").is_ok());
}

#[test]
fn a_wrong_size_is_a_size_mismatch() {
    let e = check_download("/t/a.partial", "https://u", ABC_SHA256, 3, 4, ABC_SHA256).unwrap_err();
    assert_eq!(e.code, ErrorCode::SizeMismatch);
    assert_eq!(e.message, "Downloaded file size does not match expected value");
    assert_eq!(text_of(&e, "path"), "/t/a.partial");
    assert_eq!(number_of(&e, "expectedSize"), 3);
    assert_eq!(number_of(&e, "actualSize"), 4);
    assert_eq!(text_of(&e, "url"), "https://u");
}

#[test]
fn a_wrong_checksum_is_a_sha256_mismatch() {
    let flipped = sha256_hex(b"abd");
    let e = check_download("/t/a.partial", "u", ABC_SHA256, 3, 3, &flipped).unwrap_err();
    assert_eq!(e.code, ErrorCode::Sha256Mismatch);
    assert_eq!(e.message, "Downloaded file SHA256 does not match expected value");
    assert_eq!(text_of(&e, "path"), "/t/a.partial");
    assert_eq!(text_of(&e, "expectedSha256"), ABC_SHA256);
    assert_eq!(text_of(&e, "actualSha256"), flipped);
}

#[test]
fn the_size_is_checked_before_the_checksum() {
    let e = check_download("p", "u", ABC_SHA256, 3, 2, EMPTY_SHA256).unwrap_err();
    assert_eq!(e.code, ErrorCode::SizeMismatch);
}

#[test]
fn one_campaign_at_a_time() {
    let mut guard = SingleFlight::new();
    assert!(!guard.is_busy());
    assert!(guard.try_begin().is_ok());
    assert!(guard.is_busy());
    let e = guard.try_begin().unwrap_err();
    assert_eq!(e.code, ErrorCode::InvalidState);
    assert_eq!(e.message, "Download is already in progress");
    assert!(guard.is_busy());
    guard.end();
    assert!(!guard.is_busy());
    assert!(guard.try_begin().is_ok());
}

#[test]
fn only_the_missing_file_is_fetched() {
    let manifest = ModelManifest {
        models: vec![model(
            "asr",
            "repo",
            vec![file("big.bin", ABC_SHA256, 10_000_000), file("small.bin", EMPTY_SHA256, 5_000_000)],
        )],
    };
    let disk = DiskSnapshot { entries: vec![probe("repo", "big.bin", 10_000_000)] };
    let mut guard = SingleFlight::new();
    let start = handle_download_start(&mut guard, &["asr"], &manifest, &disk);
    assert!(guard.is_busy());
    assert_eq!(start.events.len(), 1);
    assert_eq!(
        progress_of(&start.events[0]),
        DownloadProgress { bytes_downloaded: 10_000_000, bytes_total: 15_000_000 }
    );
    let campaign = start.campaign.unwrap();
    assert_eq!(campaign.remaining(), 1);
    let mut transfer = match campaign.step() {
        CampaignStep::Fetch(t) => t,
        other => panic!("{:?}", other),
    };
    assert_eq!(transfer.request().path, "small.bin");
    assert_eq!(transfer.temp_path(), "small.bin.partial");
    let mut last = 10_000_000;
    let chunk = vec![0u8; 1_000_000];
    for _ in 0..5 {
        let p = transfer.on_chunk(&chunk);
        assert_eq!(p.bytes_total, 15_000_000);
        assert_eq!(p.bytes_downloaded, last + 1_000_000);
        last = p.bytes_downloaded;
    }
    assert_eq!(last, 15_000_000);
    let expected = sha256_hex(&vec![0u8; 5_000_000]);
    let wrong = transfer.request().expected_sha256.clone();
    assert!(wrong != expected);
    let e = transfer.finish(5_000_000, "/m/repo/small.bin.partial").unwrap_err();
    assert_eq!(e.code, ErrorCode::Sha256Mismatch);
    assert_eq!(text_of(&e, "actualSha256"), expected);
    let events = finish_download(&mut guard, Err(e));
    assert!(!guard.is_busy());
    assert_eq!(events.len(), 1);
    assert!(matches!(events[0], DownloadEvent::Error(_)));
}

#[test]
fn a_campaign_runs_to_done() {
    let (campaign, first) =
        Campaign::new(vec![pending("a.bin", ABC_SHA256, 3), pending("b.bin", "", 2)], 15, 10);
    assert_eq!(first, DownloadProgress { bytes_downloaded: 10, bytes_total: 15 });
    assert_eq!(campaign.progress(), first);
    let mut transfer = match campaign.step() {
        CampaignStep::Fetch(t) => t,
        other => panic!("{:?}", other),
    };
    assert_eq!(transfer.progress().bytes_downloaded, 10);
    assert_eq!(transfer.on_chunk(b"a").bytes_downloaded, 11);
    assert_eq!(transfer.on_chunk(b"").bytes_downloaded, 11);
    assert_eq!(transfer.on_chunk(b"bc").bytes_downloaded, 13);
    let verified = transfer.finish(3, "a.bin.partial").unwrap();
    assert_eq!(verified.request().path, "a.bin");
    assert_eq!(verified.temp_path(), "a.bin.partial");
    let campaign = verified.installed();
    assert_eq!(campaign.remaining(), 1);
    assert_eq!(campaign.progress().bytes_downloaded, 13);
    let mut transfer = match campaign.step() {
        CampaignStep::Fetch(t) => t,
        other => panic!("{:?}", other),
    };
    assert_eq!(transfer.request().path, "b.bin");
    assert_eq!(transfer.on_chunk(b"zz").bytes_downloaded, 15);
    let campaign = transfer.finish(2, "b.bin.partial").unwrap().installed();
    assert_eq!(campaign.remaining(), 0);
    let last = match campaign.step() {
        CampaignStep::Finished(p) => p,
        other => panic!("{:?}", other),
    };
    assert_eq!(last, DownloadProgress { bytes_downloaded: 15, bytes_total: 15 });
    let mut guard = SingleFlight::new();
    assert!(guard.try_begin().is_ok());
    let events = finish_download(&mut guard, Ok(last));
    assert!(!guard.is_busy());
    assert_eq!(events.len(), 2);
    assert_eq!(progress_of(&events[0]), last);
    assert!(matches!(events[1], DownloadEvent::Done));
    assert_eq!(events[0].event_type(), "audio.models.download.progress");
    assert_eq!(events[1].event_type(), "audio.models.download.done");
}

#[test]
fn an_interrupted_transfer_of_the_wrong_size_is_rejected() {
    let (campaign, _) = Campaign::new(vec![pending("a.bin", "", 10)], 10, 0);
    let mut transfer = match campaign.step() {
        CampaignStep::Fetch(t) => t,
        other => panic!("{:?}", other),
    };
    transfer.on_chunk(b"1234");
    let e = transfer.finish(4, "a.bin.partial").unwrap_err();
    assert_eq!(e.code, ErrorCode::SizeMismatch);
    assert_eq!(number_of(&e, "actualSize"), 4);
    assert_eq!(number_of(&e, "expectedSize"), 10);
}

#[test]
fn progress_stops_at_the_largest_value() {
    let (campaign, _) = Campaign::new(vec![pending("a.bin", "", 1)], u64::MAX, u64::MAX - 1);
    let mut transfer = match campaign.step() {
        CampaignStep::Fetch(t) => t,
        other => panic!("{:?}", other),
    };
    assert_eq!(transfer.on_chunk(b"abc").bytes_downloaded, u64::MAX);
}

#[test]
fn a_path_without_a_file_name_fails_the_campaign() {
    let (campaign, _) = Campaign::new(vec![pending("dir/", "", 1)], 1, 0);
    match campaign.step() {
        CampaignStep::Invalid(e) => {
            assert_eq!(e.code, ErrorCode::ManifestInvalid);
            assert_eq!(e.message, "Manifest file path has no filename");
            assert_eq!(text_of(&e, "path"), "dir/");
        }
        other => panic!("{:?}", other),
    }
}

#[test]
fn everything_present_is_complete_at_once() {
    let manifest = ModelManifest {
        models: vec![model("asr", "repo", vec![file("a", "", 4), file("b", "", 6)])],
    };
    let disk = DiskSnapshot { entries: vec![probe("repo", "a", 4), probe("repo", "b", 6)] };
    let mut guard = SingleFlight::new();
    let start = handle_download_start(&mut guard, &["asr"], &manifest, &disk);
    assert!(!guard.is_busy());
    assert!(start.campaign.is_none());
    assert_eq!(start.events.len(), 2);
    assert_eq!(
        progress_of(&start.events[0]),
        DownloadProgress { bytes_downloaded: 10, bytes_total: 10 }
    );
    assert!(matches!(start.events[1], DownloadEvent::Done));
}

#[test]
fn a_second_request_is_turned_away() {
    let manifest = ModelManifest { models: vec![model("asr", "repo", vec![file("a", "", 4)])] };
    let disk = DiskSnapshot { entries: vec![] };
    let mut guard = SingleFlight::new();
    let first = handle_download_start(&mut guard, &["asr"], &manifest, &disk);
    assert!(first.campaign.is_some());
    let second = handle_download_start(&mut guard, &["asr"], &manifest, &disk);
    assert!(guard.is_busy());
    assert!(second.campaign.is_none());
    assert_eq!(second.events.len(), 1);
    match &second.events[0] {
        DownloadEvent::Error(e) => {
            assert_eq!(e.code, ErrorCode::InvalidState);
            assert_eq!(second.events[0].event_type(), "audio.models.download.error");
        }
        other => panic!("{:?}", other),
    }
}

#[test]
fn a_required_model_without_files_stops_the_campaign() {
    let manifest = ModelManifest {
        models: vec![model("vad", "v", vec![file("x", "", 1)]), model("asr", "repo", vec![])],
    };
    let mut guard = SingleFlight::new();
    let start =
        handle_download_start(&mut guard, &["asr", "vad"], &manifest, &DiskSnapshot { entries: vec![] });
    assert!(!guard.is_busy());
    assert!(start.campaign.is_none());
    match &start.events[0] {
        DownloadEvent::Error(e) => {
            assert_eq!(e.code, ErrorCode::ManifestIncomplete);
            assert_eq!(e.message, "Model manifest has a required model with no files");
            assert_eq!(text_of(e, "modelKey"), "asr");
            match &e.context[1].value {
                ContextValue::List(l) => assert_eq!(l, &vec!["macos.files".to_string()]),
                other => panic!("{:?}", other),
            }
        }
        other => panic!("{:?}", other),
    }
}

#[test]
fn the_plan_rejects_violations() {
    let d = DiskSnapshot { entries: vec![] };
    let blank = ModelManifest { models: vec![model("asr", " ", vec![file("a", "", 1)])] };
    match plan_download(&["asr"], &blank, &d) {
        DownloadPlan::Rejected(e) => {
            assert_eq!(e.code, ErrorCode::InvalidArgs);
            assert_eq!(e.message, "repo_dirname is required");
        }
        other => panic!("{:?}", other),
    }
    let bad = ModelManifest { models: vec![model("asr", "r", vec![file("/abs", "", 1)])] };
    match plan_download(&["asr"], &bad, &d) {
        DownloadPlan::Rejected(e) => assert_eq!(e.code, ErrorCode::ManifestInvalid),
        other => panic!("{:?}", other),
    }
}

#[test]
fn the_worklist_keeps_the_order_of_the_manifest() {
    let manifest = ModelManifest {
        models: vec![
            model("a", "ra", vec![file("1", "s1", 1), file("2", "s2", 2)]),
            model("skip", "rs", vec![file("9", "", 9)]),
            model("b", "rb", vec![file("3", "s3", 4)]),
        ],
    };
    let disk = DiskSnapshot { entries: vec![probe("ra", "1", 1), probe("ra", "2", 3)] };
    match plan_download(&["b", "a"], &manifest, &disk) {
        DownloadPlan::Fetch { pending, bytes_total, bytes_present } => {
            assert_eq!(bytes_total, 7);
            assert_eq!(bytes_present, 1);
            assert_eq!(pending.len(), 2);
            assert_eq!(pending[0].repo_dirname, "ra");
            assert_eq!(pending[0].path, "2");
            assert_eq!(pending[0].expected_sha256, "s2");
            assert_eq!(pending[0].expected_size, 2);
            assert_eq!(pending[0].download_url, "https://example.test/2");
            assert_eq!(pending[1].repo_dirname, "rb");
            assert_eq!(pending[1].path, "3");
        }
        other => panic!("{:?}", other),
    }
}
