use valedesk_core::errors::{AudioModelsError, ContextValue, ErrorCode};
use valedesk_core::manifest::{
    required_model_keys, MacosManifest, ModelFile, ModelManifest, ModelSpec,
};
use valedesk_core::readiness::{
    get_status, handle_status_get, is_required, manifest_verdict, probe_targets, DiskSnapshot,
    FileProbe,
};
use valedesk_core::status::AudioModelsStatus;

fn file(path: &str, size: u64) -> ModelFile {
    ModelFile {
        path: path.to_string(),
        download_url: format!("https://example.test/{}", path),
        sha256: String::new(),
        size,
    }
}

fn model(key: &str, repo: &str, files: Vec<ModelFile>) -> ModelSpec {
    ModelSpec {
        key: key.to_string(),
        repo_dirname: repo.to_string(),
        model_id: format!("org/{}", key),
        source_page_url: format!("https://example.test/{}", key),
        macos: MacosManifest { revision_sha: "abc123".to_string(), files },
    }
}

fn two_models() -> ModelManifest {
    ModelManifest {
        models: vec![
            model("asr", "asr-repo", vec![file("encoder.bin", 100), file("sub/decoder.bin", 50)]),
            model("other", "other-repo", vec![file("x.bin", 1)]),
            model("vad", "vad-repo", vec![file("vad.onnx", 7)]),
        ],
    }
}

fn probe(repo: &str, path: &str, is_file: bool, len: u64) -> FileProbe {
    FileProbe { repo_dirname: repo.to_string(), path: path.to_string(), is_file, len }
}

fn disk(entries: Vec<FileProbe>) -> DiskSnapshot {
    DiskSnapshot { entries }
}

fn text_of(e: &AudioModelsError, name: &str) -> String {
    for entry in &e.context {
        if entry.name == name {
            if let ContextValue::Text(t) = &entry.value {
                return t.clone();
            }
        }
    }
    panic!("no text entry {}", name)
}

#[test]
fn no_required_keys_is_a_settings_error() {
    let e = get_status(&[], &two_models(), "/m", &disk(vec![])).unwrap_err();
    assert_eq!(e.code, ErrorCode::SettingsInvalid);
    assert_eq!(e.code.as_str(), "settings_invalid");
    assert_eq!(e.message, "No required models configured");
    assert!(e.context.is_empty());
}

#[test]
fn a_manifest_without_models_is_incomplete() {
    let m = ModelManifest { models: vec![] };
    match get_status(&["asr"], &m, "/m", &disk(vec![])).unwrap() {
        AudioModelsStatus::ManifestIncomplete { message, missing } => {
            assert_eq!(message, "Model manifest has no models");
            assert_eq!(missing, vec!["models".to_string()]);
        }
        other => panic!("{:?}", other),
    }
}

#[test]
fn an_unknown_required_key_is_a_manifest_error() {
    let e = get_status(&["asr", "nope", "nada"], &two_models(), "/m", &disk(vec![])).unwrap_err();
    assert_eq!(e.code, ErrorCode::ManifestInvalid);
    assert_eq!(e.message, "Required model key does not exist in manifest");
    assert_eq!(text_of(&e, "model_key"), "nope");
    match &e.context[1].value {
        ContextValue::List(keys) => {
            assert_eq!(keys, &vec!["asr".to_string(), "other".to_string(), "vad".to_string()])
        }
        other => panic!("{:?}", other),
    }
    assert_eq!(e.context[1].name, "available_keys");
}

#[test]
fn missing_fields_are_all_listed() {
    let mut m = two_models();
    m.models[0].model_id = "  ".to_string();
    m.models[0].macos.revision_sha = String::new();
    m.models[1].repo_dirname = String::new();
    m.models[2].repo_dirname = "\t".to_string();
    m.models[2].source_page_url = String::new();
    m.models[2].macos.files.clear();
    match get_status(&["vad", "asr"], &m, "/m", &disk(vec![])).unwrap() {
        AudioModelsStatus::ManifestIncomplete { message, missing } => {
            assert_eq!(message, "Model manifest is missing required fields to determine readiness");
            assert_eq!(
                missing,
                vec![
                    "models[0].model_id".to_string(),
                    "models[0].macos.revision_sha".to_string(),
                    "models[2].repo_dirname".to_string(),
                    "models[2].source_page_url".to_string(),
                    "models[2].macos.files".to_string(),
                ]
            );
        }
        other => panic!("{:?}", other),
    }
}

#[test]
fn a_required_model_without_files_is_incomplete() {
    let mut m = two_models();
    m.models[2].macos.files.clear();
    let full = disk(vec![
        probe("asr-repo", "encoder.bin", true, 100),
        probe("asr-repo", "sub/decoder.bin", true, 50),
    ]);
    match get_status(&["asr", "vad"], &m, "/m", &full).unwrap() {
        AudioModelsStatus::ManifestIncomplete { missing, .. } => {
            assert_eq!(missing, vec!["models[2].macos.files".to_string()]);
        }
        other => panic!("{:?}", other),
    }
}

#[test]
fn a_traversing_path_is_a_hard_failure() {
    for bad in ["../../etc/passwd", "/etc/passwd", "ok/../../x"] {
        let mut m = two_models();
        m.models[2].macos.files.push(file(bad, 3));
        let full = disk(vec![
            probe("asr-repo", "encoder.bin", true, 100),
            probe("asr-repo", "sub/decoder.bin", true, 50),
            probe("vad-repo", "vad.onnx", true, 7),
            probe("vad-repo", bad, true, 3),
        ]);
        let e = get_status(&["asr", "vad"], &m, "/m", &full).unwrap_err();
        assert_eq!(e.code, ErrorCode::ManifestInvalid);
        assert_eq!(e.message, "Manifest contains an invalid relative path");
        assert_eq!(text_of(&e, "path"), bad);
        assert!(probe_targets(&["asr", "vad"], &m).is_empty());
    }
}

#[test]
fn a_traversing_directory_name_is_rejected() {
    let mut m = two_models();
    m.models[0].repo_dirname = "../outside".to_string();
    let e = get_status(&["asr"], &m, "/m", &disk(vec![])).unwrap_err();
    assert_eq!(e.code, ErrorCode::InvalidArgs);
    assert_eq!(e.message, "repo_dirname must be a relative path without '..'");
    assert_eq!(text_of(&e, "repo_dirname"), "../outside");
}

#[test]
fn violations_of_models_that_are_not_required_do_not_count() {
    let mut m = two_models();
    m.models[1].macos.files.push(file("../x", 3));
    let full = disk(vec![
        probe("asr-repo", "encoder.bin", true, 100),
        probe("asr-repo", "sub/decoder.bin", true, 50),
    ]);
    assert!(get_status(&["asr"], &m, "/m", &full).unwrap().is_ready());
}

#[test]
fn nothing_on_disk_is_not_installed() {
    match get_status(&["asr", "vad"], &two_models(), "/models", &disk(vec![])).unwrap() {
        AudioModelsStatus::NotInstalled {
            models_dir,
            total_files,
            present_files,
            total_bytes,
            present_bytes,
            models,
        } => {
            assert_eq!(models_dir, "/models");
            assert_eq!(total_files, 3);
            assert_eq!(present_files, 0);
            assert_eq!(total_bytes, 157);
            assert_eq!(present_bytes, 0);
            assert_eq!(models.len(), 2);
            assert_eq!(models[0].key, "asr");
            assert_eq!(models[0].repo_dirname, "asr-repo");
            assert_eq!(models[0].revision_sha, "abc123");
            assert_eq!(models[0].total_files, 2);
            assert_eq!(models[0].total_bytes, 150);
            assert_eq!(models[1].key, "vad");
            assert_eq!(models[1].total_files, 1);
            assert_eq!(models[1].total_bytes, 7);
        }
        other => panic!("{:?}", other),
    }
}

#[test]
fn a_file_of_the_wrong_size_counts_as_absent() {
    let partial = disk(vec![
        probe("asr-repo", "encoder.bin", true, 100),
        probe("asr-repo", "sub/decoder.bin", true, 49),
        probe("vad-repo", "vad.onnx", true, 7),
    ]);
    match get_status(&["asr", "vad"], &two_models(), "/models", &partial).unwrap() {
        AudioModelsStatus::NotInstalled {
            total_files, present_files, total_bytes, present_bytes, models, ..
        } => {
            assert_eq!(total_files, 3);
            assert_eq!(present_files, 2);
            assert_eq!(total_bytes, 157);
            assert_eq!(present_bytes, 107);
            assert_eq!(models[0].present_files, 1);
            assert_eq!(models[0].present_bytes, 100);
            assert_eq!(models[1].present_files, 1);
            assert_eq!(models[1].present_bytes, 7);
        }
        other => panic!("{:?}", other),
    }
}

#[test]
fn a_directory_in_place_of_a_file_counts_as_absent() {
    let d = disk(vec![
        probe("asr-repo", "encoder.bin", false, 100),
        probe("asr-repo", "sub/decoder.bin", true, 50),
    ]);
    match get_status(&["asr"], &two_models(), "/models", &d).unwrap() {
        AudioModelsStatus::NotInstalled { present_files, present_bytes, .. } => {
            assert_eq!(present_files, 1);
            assert_eq!(present_bytes, 50);
        }
        other => panic!("{:?}", other),
    }
}

#[test]
fn a_file_found_under_another_model_does_not_count() {
    let d = disk(vec![
        probe("vad-repo", "encoder.bin", true, 100),
        probe("asr-repo", "sub/decoder.bin", true, 50),
    ]);
    assert!(!get_status(&["asr"], &two_models(), "/models", &d).unwrap().is_ready());
}

#[test]
fn the_first_entry_for_a_path_counts() {
    let d = disk(vec![
        probe("asr-repo", "encoder.bin", true, 99),
        probe("asr-repo", "encoder.bin", true, 100),
        probe("asr-repo", "sub/decoder.bin", true, 50),
    ]);
    assert!(!get_status(&["asr"], &two_models(), "/models", &d).unwrap().is_ready());
    let snapshot = disk(vec![probe("a", "b", true, 1), probe("a", "b", false, 2)]);
    assert_eq!(snapshot.lookup("a", "b").unwrap().len, 1);
    assert!(snapshot.lookup("a", "c").is_none());
}

#[test]
fn everything_in_place_is_ready() {
    let full = disk(vec![
        probe("vad-repo", "vad.onnx", true, 7),
        probe("asr-repo", "sub/decoder.bin", true, 50),
        probe("asr-repo", "encoder.bin", true, 100),
    ]);
    match get_status(&["vad", "asr"], &two_models(), "/models", &full).unwrap() {
        AudioModelsStatus::Ready { models_dir, total_files, total_bytes, models } => {
            assert_eq!(models_dir, "/models");
            assert_eq!(total_files, 3);
            assert_eq!(total_bytes, 157);
            assert_eq!(models.len(), 2);
            assert_eq!(models[0].key, "asr");
            assert_eq!(models[0].present_files, 2);
            assert_eq!(models[0].present_bytes, 150);
            assert_eq!(models[1].key, "vad");
        }
        other => panic!("{:?}", other),
    }
}

#[test]
fn byte_counts_stop_at_the_largest_value() {
    let m = ModelManifest {
        models: vec![model("asr", "r", vec![file("a", u64::MAX - 1), file("b", 5)])],
    };
    let d = disk(vec![probe("r", "a", true, u64::MAX - 1), probe("r", "b", true, 5)]);
    match get_status(&["asr"], &m, "/m", &d).unwrap() {
        AudioModelsStatus::Ready { total_bytes, models, .. } => {
            assert_eq!(total_bytes, u64::MAX);
            assert_eq!(models[0].present_bytes, u64::MAX);
        }
        other => panic!("{:?}", other),
    }
}

#[test]
fn the_verdict_needs_no_disk() {
    assert!(manifest_verdict(&["asr", "vad"], &two_models()).is_none());
    assert!(matches!(manifest_verdict(&[], &two_models()), Some(Err(_))));
    assert!(matches!(
        manifest_verdict(&["asr"], &ModelManifest { models: vec![] }),
        Some(Ok(AudioModelsStatus::ManifestIncomplete { .. }))
    ));
    assert!(matches!(manifest_verdict(&["zzz"], &two_models()), Some(Err(_))));
}

#[test]
fn the_targets_are_the_files_of_the_required_models() {
    let targets = probe_targets(&["vad", "asr"], &two_models());
    let listed: Vec<(String, String)> =
        targets.iter().map(|t| (t.repo_dirname.clone(), t.path.clone())).collect();
    assert_eq!(
        listed,
        vec![
            ("asr-repo".to_string(), "encoder.bin".to_string()),
            ("asr-repo".to_string(), "sub/decoder.bin".to_string()),
            ("vad-repo".to_string(), "vad.onnx".to_string()),
        ]
    );
}

#[test]
fn required_keys() {
    assert!(is_required(&["a", "b"], "b"));
    assert!(!is_required(&["a", "b"], "c"));
    assert!(!is_required(&[], "a"));
    assert_eq!(required_model_keys(), vec!["asr_tdt_v3", "silero_vad_v6"]);
}

#[test]
fn a_failed_query_is_announced_as_an_error_status() {
    let failed = get_status(&[], &two_models(), "/m", &disk(vec![]));
    match handle_status_get(failed) {
        AudioModelsStatus::Error { code, message, context } => {
            assert_eq!(code, ErrorCode::SettingsInvalid);
            assert_eq!(message, "No required models configured");
            assert!(context.is_empty());
        }
        other => panic!("{:?}", other),
    }
    let ok = get_status(&["asr"], &two_models(), "/m", &disk(vec![]));
    assert!(matches!(handle_status_get(ok), AudioModelsStatus::NotInstalled { .. }));
}

#[test]
fn error_codes_on_the_wire() {
    let all = [
        (ErrorCode::ManifestInvalid, "manifest_invalid"),
        (ErrorCode::ManifestIncomplete, "manifest_incomplete"),
        (ErrorCode::PathResolveFailed, "path_resolve_failed"),
        (ErrorCode::IoFailed, "io_failed"),
        (ErrorCode::HttpFailed, "http_failed"),
        (ErrorCode::SizeMismatch, "size_mismatch"),
        (ErrorCode::Sha256Mismatch, "sha256_mismatch"),
        (ErrorCode::SettingsInvalid, "settings_invalid"),
        (ErrorCode::InvalidArgs, "invalid_args"),
        (ErrorCode::InvalidState, "invalid_state"),
    ];
    for (code, name) in all {
        assert_eq!(code.as_str(), name);
    }
}
