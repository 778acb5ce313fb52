use valedesk_core::dictation::{
    check_models, check_sidecar, dictation_start, dictation_stop, find_sidecar, finish_stop,
    init_command, mic_start_command, mic_stop_command, models_dir_failure, on_stdout_line,
    on_stdout_read_error, on_stop_io_failed, sidecar_not_found_message, step_for,
    DictationEvent, DictationManager, ErrorContext, ExitReport, ReaderStep, SessionFlags,
    StartCheck, StartDecision, StopDecision, StopStage,
};
use valedesk_core::errors::{AudioModelsError, ErrorCode};
use valedesk_core::events::{Number, ParseFailure, ParseFailureKind, SidecarEvent};
use valedesk_core::status::AudioModelsStatus;

fn error_parts(e: &DictationEvent) -> (&str, &str, &str, &ErrorContext) {
    match e {
        DictationEvent::Error { dictation_id, code, message, context } => {
            (dictation_id.as_str(), code.as_str(), message.as_str(), context)
        }
        other => panic!("{:?}", other),
    }
}

#[test]
fn a_start_with_an_empty_id_fails() {
    let mut m = DictationManager::new();
    for id in ["", "   ", "\t\n"] {
        match dictation_start(&mut m, id, false) {
            StartDecision::Rejected(msg) => {
                assert_eq!(msg, "[audio.dictation.start] dictationId is required")
            }
            other => panic!("{:?}", other),
        }
    }
    assert!(m.active_id().is_none());
}

#[test]
fn a_start_with_no_session_goes_on() {
    let mut m = DictationManager::new();
    assert!(matches!(dictation_start(&mut m, "d1", false), StartDecision::Proceed { reap: None }));
    assert!(matches!(dictation_start(&mut m, "d1", true), StartDecision::Proceed { reap: None }));
    assert!(m.active_id().is_none());
    m.session_started("d1");
    assert_eq!(m.active_id(), Some("d1"));
}

#[test]
fn a_start_while_running_is_answered_with_invalid_state() {
    let mut m = DictationManager::new();
    m.session_started("d1");
    match dictation_start(&mut m, "d1", false) {
        StartDecision::AlreadyRunning(event) => {
            assert_eq!(event.event_type(), "audio.dictation.error");
            let (id, code, message, context) = error_parts(&event);
            assert_eq!(id, "d1");
            assert_eq!(code, "invalid_state");
            assert_eq!(message, "Dictation is already running");
            match context {
                ErrorContext::ActiveDictation { active_dictation_id } => {
                    assert_eq!(active_dictation_id, "d1")
                }
                other => panic!("{:?}", other),
            }
        }
        other => panic!("{:?}", other),
    }
    assert_eq!(m.active_id(), Some("d1"));
    match dictation_start(&mut m, "d2", false) {
        StartDecision::AlreadyRunning(event) => {
            let (id, _, _, context) = error_parts(&event);
            assert_eq!(id, "d2");
            assert!(matches!(context, ErrorContext::ActiveDictation { active_dictation_id } if active_dictation_id == "d1"));
        }
        other => panic!("{:?}", other),
    }
    assert_eq!(m.active_id(), Some("d1"));
}

#[test]
fn a_finished_session_is_reaped_on_start() {
    let mut m = DictationManager::new();
    m.session_started("old");
    match dictation_start(&mut m, "new", true) {
        StartDecision::Proceed { reap } => assert_eq!(reap, Some("old".to_string())),
        other => panic!("{:?}", other),
    }
    assert!(m.active_id().is_none());
}

fn not_installed() -> AudioModelsStatus {
    AudioModelsStatus::NotInstalled {
        models_dir: "/m".to_string(),
        total_files: 2,
        present_files: 1,
        total_bytes: 10,
        present_bytes: 4,
        models: vec![],
    }
}

#[test]
fn a_start_without_models_reports_model_not_ready_and_spawns_nothing() {
    match check_models("d1", Ok(not_installed())) {
        StartCheck::Report(event) => {
            let (id, code, message, context) = error_parts(&event);
            assert_eq!(id, "d1");
            assert_eq!(code, "model_not_ready");
            assert_eq!(message, "Speech models are not ready; download them in Settings → Audio");
            match context {
                ErrorContext::Status { status } => {
                    assert!(matches!(status, AudioModelsStatus::NotInstalled { present_files: 1, .. }))
                }
                other => panic!("{:?}", other),
            }
        }
        other => panic!("{:?}", other),
    }
    let incomplete = AudioModelsStatus::ManifestIncomplete { message: "m".to_string(), missing: vec![] };
    assert!(matches!(check_models("d1", Ok(incomplete)), StartCheck::Report(_)));
}

#[test]
fn a_start_with_ready_models_goes_on() {
    let ready = AudioModelsStatus::Ready {
        models_dir: "/m".to_string(),
        total_files: 2,
        total_bytes: 10,
        models: vec![],
    };
    assert!(matches!(check_models("d1", Ok(ready)), StartCheck::Proceed));
}

#[test]
fn a_failed_readiness_query_fails_the_start() {
    let e = AudioModelsError {
        code: ErrorCode::IoFailed,
        message: "Failed to create models dir".to_string(),
        context: vec![],
    };
    assert_eq!(
        models_dir_failure(&e),
        "[audio.dictation.start] Failed to resolve models dir: Failed to create models dir (io_failed)"
    );
    match check_models("d1", Err(e)) {
        StartCheck::Rejected(msg) => assert_eq!(
            msg,
            "[audio.dictation.start] Failed to check audio model status: Failed to create models dir (io_failed)"
        ),
        other => panic!("{:?}", other),
    }
}

#[test]
fn the_recognizer_is_found_by_its_prefix() {
    let names = vec![
        "host".to_string(),
        "my-asr-sidecar".to_string(),
        "asr-sidecar-x86_64".to_string(),
        "asr-sidecar".to_string(),
    ];
    assert_eq!(find_sidecar(&names), Some(2));
    assert_eq!(find_sidecar(&vec!["host".to_string(), "asr-sideca".to_string()]), None);
    assert_eq!(find_sidecar(&vec![]), None);
    assert_eq!(
        sidecar_not_found_message("/opt/app"),
        "[audio.dictation] asr-sidecar binary not found in /opt/app. Build it via scripts/build_asr_sidecar.sh"
    );
}

#[test]
fn a_missing_recognizer_is_reported() {
    assert!(matches!(check_sidecar("d1", "/opt/app/asr-sidecar", true), StartCheck::Proceed));
    match check_sidecar("d1", "/opt/app/asr-sidecar", false) {
        StartCheck::Report(event) => {
            let (id, code, message, context) = error_parts(&event);
            assert_eq!(id, "d1");
            assert_eq!(code, "sidecar_not_found");
            assert_eq!(message, "asr-sidecar binary not found");
            assert!(matches!(context, ErrorContext::ExpectedPath { expected_path } if expected_path == "/opt/app/asr-sidecar"));
        }
        other => panic!("{:?}", other),
    }
}

#[test]
fn the_commands_are_the_protocol_s() {
    let init: serde_json::Value = serde_json::from_str(&init_command()).unwrap();
    assert_eq!(init.get("cmd").and_then(|v| v.as_str()), Some("init"));
    let config = init.get("config").unwrap();
    assert_eq!(config.get("sample_rate").and_then(|v| v.as_u64()), Some(16000));
    assert_eq!(config.get("mode").and_then(|v| v.as_str()), Some("mic"));
    assert_eq!(config.get("model_key").and_then(|v| v.as_str()), Some("asr_tdt_v3"));
    let start: serde_json::Value = serde_json::from_str(&mic_start_command()).unwrap();
    assert_eq!(start.get("cmd").and_then(|v| v.as_str()), Some("mic_start"));
    assert_eq!(start.get("device_id").and_then(|v| v.as_str()), Some("default"));
    assert_eq!(mic_stop_command(), r#"{"cmd":"mic_stop"}"#);
    assert!(!init_command().contains('\n'));
}

#[test]
fn stopping_twice_with_no_session_succeeds_and_emits_nothing() {
    let mut m = DictationManager::new();
    assert!(matches!(dictation_stop(&mut m, "d1"), StopDecision::Ignored));
    assert!(matches!(dictation_stop(&mut m, "d1"), StopDecision::Ignored));
    assert!(m.active_id().is_none());
}

#[test]
fn stopping_the_active_session_takes_it_out() {
    let mut m = DictationManager::new();
    m.session_started("d1");
    match dictation_stop(&mut m, "d1") {
        StopDecision::Stop { command } => assert_eq!(command, r#"{"cmd":"mic_stop"}"#),
        other => panic!("{:?}", other),
    }
    assert!(m.active_id().is_none());
    assert!(matches!(dictation_stop(&mut m, "d1"), StopDecision::Ignored));
}

#[test]
fn stopping_another_session_fails() {
    let mut m = DictationManager::new();
    m.session_started("d1");
    match dictation_stop(&mut m, "d2") {
        StopDecision::Rejected(msg) => assert_eq!(
            msg,
            "[audio.dictation.stop] dictationId does not match active session (active=d1)"
        ),
        other => panic!("{:?}", other),
    }
    assert_eq!(m.active_id(), Some("d1"));
    match dictation_stop(&mut m, " ") {
        StopDecision::Rejected(msg) => {
            assert_eq!(msg, "[audio.dictation.stop] dictationId is required")
        }
        other => panic!("{:?}", other),
    }
    assert_eq!(m.active_id(), Some("d1"));
    m.clear();
    assert!(m.active_id().is_none());
}

#[test]
fn done_is_emitted_exactly_once() {
    let mut flags = SessionFlags::new();
    assert!(!flags.done_emitted());
    let mut emitted = 0;
    for _ in 0..4 {
        if let Some(event) = flags.emit_done_once("d1") {
            assert!(matches!(&event, DictationEvent::Done { dictation_id } if dictation_id == "d1"));
            assert_eq!(event.event_type(), "audio.dictation.done");
            emitted += 1;
        }
        assert!(flags.done_emitted());
    }
    assert_eq!(emitted, 1);
}

#[test]
fn blank_and_log_lines_are_skipped() {
    let mut flags = SessionFlags::new();
    assert!(matches!(on_stdout_line(&mut flags, "d1", "\r\n"), ReaderStep::Skip));
    assert!(matches!(on_stdout_line(&mut flags, "d1", "   \n"), ReaderStep::Skip));
    assert!(matches!(on_stdout_line(&mut flags, "d1", "{\"t\":\"log\",\"msg\":\"x\"}\n"), ReaderStep::Skip));
    assert!(!flags.had_error());
}

#[test]
fn events_are_forwarded_with_the_session_id() {
    let mut flags = SessionFlags::new();
    match on_stdout_line(&mut flags, "d1", "  {\"t\":\"partial\",\"text\":\"he\",\"unstable\":\"e\"}\r\n") {
        ReaderStep::Forward(DictationEvent::Partial { dictation_id, text, unstable }) => {
            assert_eq!(dictation_id, "d1");
            assert_eq!(text, "he");
            assert_eq!(unstable, Some("e".to_string()));
        }
        other => panic!("{:?}", other),
    }
    match on_stdout_line(&mut flags, "d1", "{\"t\":\"final\",\"text\":\"hello\",\"start\":1.5}\n") {
        ReaderStep::Forward(event) => {
            assert_eq!(event.event_type(), "audio.dictation.final");
            match event {
                DictationEvent::Final { dictation_id, text, start, end } => {
                    assert_eq!(dictation_id, "d1");
                    assert_eq!(text, "hello");
                    assert_eq!(start, Some(Number { bits: 1.5f64.to_bits() }));
                    assert_eq!(end, None);
                }
                other => panic!("{:?}", other),
            }
        }
        other => panic!("{:?}", other),
    }
    match on_stdout_line(&mut flags, "d1", "{\"t\":\"audio_level\",\"level\":0.5}") {
        ReaderStep::Forward(DictationEvent::AudioLevel { dictation_id, level }) => {
            assert_eq!(dictation_id, "d1");
            assert_eq!(f64::from_bits(level.bits), 0.5);
        }
        other => panic!("{:?}", other),
    }
    assert!(!flags.had_error());
}

#[test]
fn a_line_that_is_no_json_ends_the_session() {
    let mut flags = SessionFlags::new();
    match on_stdout_line(&mut flags, "d1", " oops \n") {
        ReaderStep::Stop(event) => {
            let (id, code, message, context) = error_parts(&event);
            assert_eq!(id, "d1");
            assert_eq!(code, "sidecar_invalid_json");
            assert_eq!(message, "Failed to parse sidecar stdout line");
            match context {
                ErrorContext::Parse { error, line } => {
                    assert_eq!(line, "oops");
                    assert!(error.starts_with("[audio.dictation] sidecar_invalid_json: "));
                    assert!(error.ends_with("; line=oops"));
                }
                other => panic!("{:?}", other),
            }
        }
        other => panic!("{:?}", other),
    }
    assert!(flags.had_error());
}

#[test]
fn a_line_that_breaks_the_protocol_ends_the_session() {
    let mut flags = SessionFlags::new();
    match on_stdout_line(&mut flags, "d1", "{\"t\":\"nope\"}\n") {
        ReaderStep::Stop(event) => {
            let (_, code, _, context) = error_parts(&event);
            assert_eq!(code, "sidecar_invalid_schema");
            assert!(matches!(context, ErrorContext::Parse { line, .. } if line == "{\"t\":\"nope\"}"));
        }
        other => panic!("{:?}", other),
    }
    assert!(flags.had_error());
}

#[test]
fn an_error_of_the_recognizer_is_handed_on_and_ends_the_session() {
    let mut flags = SessionFlags::new();
    match on_stdout_line(&mut flags, "d1", "{\"t\":\"error\",\"code\":\"mic_denied\",\"msg\":\"no\",\"context\":{\"a\":1}}\n") {
        ReaderStep::Stop(event) => {
            let (id, code, message, context) = error_parts(&event);
            assert_eq!(id, "d1");
            assert_eq!(code, "mic_denied");
            assert_eq!(message, "no");
            match context {
                ErrorContext::Sidecar { context } => {
                    assert_eq!(context.as_ref().unwrap().get("a").and_then(|v| v.as_u64()), Some(1))
                }
                other => panic!("{:?}", other),
            }
        }
        other => panic!("{:?}", other),
    }
    assert!(flags.had_error());
    assert!(!flags.done_emitted());
}

#[test]
fn a_decoded_line_decides_the_step() {
    let failed = Err(ParseFailure { kind: ParseFailureKind::InvalidSchema, message: "why".to_string() });
    match step_for("d9", "the line", failed) {
        ReaderStep::Stop(event) => {
            let (id, code, _, context) = error_parts(&event);
            assert_eq!(id, "d9");
            assert_eq!(code, "sidecar_invalid_schema");
            assert!(matches!(context, ErrorContext::Parse { error, line } if error == "why" && line == "the line"));
        }
        other => panic!("{:?}", other),
    }
    assert!(matches!(
        step_for("d9", "l", Ok(SidecarEvent::Log { msg: "m".to_string() })),
        ReaderStep::Skip
    ));
}

#[test]
fn stream_failures_are_surfaced() {
    let mut flags = SessionFlags::new();
    let event = on_stdout_read_error(&mut flags, "d1", "broken pipe");
    let (id, code, message, context) = error_parts(&event);
    assert_eq!((id, code, message), ("d1", "sidecar_io_failed", "Failed while reading sidecar stdout"));
    assert!(matches!(context, ErrorContext::Io { error } if error == "broken pipe"));
    assert!(flags.had_error());

    let mut flags = SessionFlags::new();
    let event = on_stop_io_failed(&mut flags, "d1", StopStage::Write, "e1");
    assert_eq!(error_parts(&event).2, "Failed to write mic_stop to sidecar stdin");
    assert!(flags.had_error());
    let event = on_stop_io_failed(&mut flags, "d1", StopStage::Flush, "e2");
    assert_eq!(error_parts(&event).1, "sidecar_io_failed");
    assert_eq!(error_parts(&event).2, "Failed to flush sidecar stdin");
}

fn exit(success: bool, code: Option<i32>, stderr: &str) -> ExitReport {
    ExitReport { success, code, stderr: stderr.to_string() }
}

#[test]
fn a_clean_stop_emits_done() {
    let mut flags = SessionFlags::new();
    let events = finish_stop(&mut flags, "d1", &exit(true, Some(0), ""));
    assert_eq!(events.len(), 1);
    assert!(matches!(&events[0], DictationEvent::Done { dictation_id } if dictation_id == "d1"));
    assert!(flags.done_emitted());
    assert!(!flags.had_error());
}

#[test]
fn a_failed_exit_is_reported_before_done() {
    let mut flags = SessionFlags::new();
    let events = finish_stop(&mut flags, "d1", &exit(false, Some(3), "boom"));
    assert_eq!(events.len(), 2);
    let (id, code, message, context) = error_parts(&events[0]);
    assert_eq!((id, code, message), ("d1", "sidecar_failed", "asr-sidecar exited with non-zero status"));
    assert!(matches!(context, ErrorContext::Exit { exit_code: 3, stderr } if stderr == "boom"));
    assert!(matches!(&events[1], DictationEvent::Done { .. }));
    assert!(flags.had_error());

    let mut flags = SessionFlags::new();
    let events = finish_stop(&mut flags, "d1", &exit(false, None, ""));
    assert!(matches!(error_parts(&events[0]).3, ErrorContext::Exit { exit_code: -1, .. }));
}

#[test]
fn a_failed_exit_after_an_error_is_not_reported_again() {
    let mut flags = SessionFlags::new();
    flags.mark_error();
    let events = finish_stop(&mut flags, "d1", &exit(false, Some(1), "x"));
    assert_eq!(events.len(), 1);
    assert!(matches!(&events[0], DictationEvent::Done { .. }));
}

#[test]
fn a_stop_after_the_reader_ended_emits_no_second_done() {
    let mut flags = SessionFlags::new();
    assert!(flags.emit_done_once("d1").is_some());
    assert!(finish_stop(&mut flags, "d1", &exit(true, Some(0), "")).is_empty());
    let events = finish_stop(&mut flags, "d1", &exit(false, Some(2), ""));
    assert_eq!(events.len(), 1);
    assert_eq!(error_parts(&events[0]).1, "sidecar_failed");
}
