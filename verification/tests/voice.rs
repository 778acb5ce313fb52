use valedesk_core::text::{contains, ends_with};
use valedesk_core::voice::{
    build_models_url, build_silence_wav_16k_mono, build_transcription_url, normalize_base_url,
    silence_wav_16k_mono,
};
use valedesk_core::voice::build_healthcheck_urls;
use valedesk_core::text::lex_lt;
use valedesk_core::voice::guess_extension_from_mime;
use valedesk_core::voice::model_name;
use valedesk_core::voice::WarmupState;
use valedesk_core::voice::extract_models;

#[test]
fn base_addresses_are_normalized() {
    assert_eq!(normalize_base_url("  http://host:8000/v1///  "), "http://host:8000/v1");
    assert_eq!(normalize_base_url("http://host"), "http://host");
    assert_eq!(normalize_base_url(" / "), "");
    assert_eq!(normalize_base_url("http://host/ /"), "http://host/ ");
}

#[test]
fn transcription_addresses() {
    assert_eq!(build_transcription_url("http://h"), Ok("http://h/v1/audio/transcriptions".to_string()));
    assert_eq!(build_transcription_url("http://h/v1/"), Ok("http://h/v1/audio/transcriptions".to_string()));
    assert_eq!(build_transcription_url("http://h/v1/x"), Ok("http://h/v1/x/audio/transcriptions".to_string()));
    assert_eq!(build_transcription_url("http://h/v10"), Ok("http://h/v10/v1/audio/transcriptions".to_string()));
    assert_eq!(build_transcription_url("  "), Err("[voice] baseUrl is empty".to_string()));
    assert_eq!(build_transcription_url("///"), Err("[voice] baseUrl is empty".to_string()));
}

#[test]
fn model_addresses() {
    assert_eq!(build_models_url("http://h"), Ok("http://h/v1/models".to_string()));
    assert_eq!(build_models_url("http://h/v1"), Ok("http://h/v1/models".to_string()));
    assert_eq!(build_models_url("http://h/v1/api/"), Ok("http://h/v1/api/models".to_string()));
    assert_eq!(build_models_url(""), Err("[voice.models] baseUrl is empty".to_string()));
}

#[test]
fn suffixes_and_substrings() {
    assert!(ends_with("a/v1", "/v1"));
    assert!(!ends_with("a/v1/", "/v1"));
    assert!(ends_with("abc", ""));
    assert!(!ends_with("v1", "/v1"));
    assert!(contains("a/v1/b", "/v1/"));
    assert!(contains("/v1/", "/v1/"));
    assert!(!contains("a/v1", "/v1/"));
    assert!(contains("abc", ""));
    assert!(contains("", ""));
    assert!(!contains("", "a"));
    assert!(contains("aab", "ab"));
}

fn reference_wav(duration_ms: u32) -> Vec<u8> {
    let data_len: u32 = 16 * duration_ms * 2;
    let mut out = Vec::new();
    out.extend_from_slice(b"RIFF");
    out.extend_from_slice(&(36 + data_len).to_le_bytes());
    out.extend_from_slice(b"WAVE");
    out.extend_from_slice(b"fmt ");
    out.extend_from_slice(&16u32.to_le_bytes());
    out.extend_from_slice(&1u16.to_le_bytes());
    out.extend_from_slice(&1u16.to_le_bytes());
    out.extend_from_slice(&16_000u32.to_le_bytes());
    out.extend_from_slice(&32_000u32.to_le_bytes());
    out.extend_from_slice(&2u16.to_le_bytes());
    out.extend_from_slice(&16u16.to_le_bytes());
    out.extend_from_slice(b"data");
    out.extend_from_slice(&data_len.to_le_bytes());
    out.resize(44 + data_len as usize, 0u8);
    out
}

#[test]
fn silence_is_a_pcm_file() {
    for d in [0u32, 1, 800, 1000] {
        assert_eq!(build_silence_wav_16k_mono(d), reference_wav(d), "{}", d);
    }
    let wav = build_silence_wav_16k_mono(800);
    assert_eq!(wav.len(), 44 + 25_600);
    assert_eq!(&wav[40..44], &25_600u32.to_le_bytes());
}

#[test]
fn silence_beyond_the_arithmetic_is_refused() {
    assert!(silence_wav_16k_mono(268_436).is_none());
    assert!(silence_wav_16k_mono(u32::MAX).is_none());
    assert_eq!(silence_wav_16k_mono(10), Some(reference_wav(10)));
}

#[test]
fn health_check_addresses_are_in_order_and_distinct() {
    for b in ["http://h", "http://h/v1", "http://h/v1/v1/", "  ", "/v1", "http://é/v1", "v1", "http://h/v1/x"] {
        assert_eq!(build_healthcheck_urls(b), reference_urls(b), "{:?}", b);
    }
    assert_eq!(
        build_healthcheck_urls("http://h/v1"),
        vec![
            "http://h/health".to_string(),
            "http://h/v1/health".to_string(),
            "http://h/v1/models".to_string(),
            "http://h/v1/v1/health".to_string(),
            "http://h/v1/v1/models".to_string(),
        ]
    );
}

#[test]
fn the_order_of_strings() {
    let samples = ["", "a", "ab", "b", "B", "é", "z", "a/", "a0", "\u{10000}", "\u{FFFF}"];
    for a in samples {
        for b in samples {
            assert_eq!(lex_lt(a, b), a < b, "{:?} {:?}", a, b);
        }
    }
}

#[test]
fn extensions_by_media_type() {
    assert_eq!(guess_extension_from_mime("audio/webm;codecs=opus"), "webm");
    assert_eq!(guess_extension_from_mime("audio/OGG"), "ogg");
    assert_eq!(guess_extension_from_mime("audio/x-wav"), "wav");
    assert_eq!(guess_extension_from_mime("audio/mp4"), "m4a");
    assert_eq!(guess_extension_from_mime("audio/x-M4A"), "m4a");
    assert_eq!(guess_extension_from_mime("audio/webm+ogg"), "webm");
    assert_eq!(guess_extension_from_mime("audio/flac"), "bin");
    assert_eq!(guess_extension_from_mime(""), "bin");
}

#[test]
fn the_model_of_a_request() {
    assert_eq!(model_name("  "), "deepdml/faster-whisper-large-v3-turbo-ct2");
    assert_eq!(model_name(" whisper-1 "), "whisper-1");
}

#[test]
fn warm_ups_are_not_repeated() {
    let mut w = WarmupState::new();
    assert!(!w.try_start_warmup("  ", "m"));
    assert!(!w.try_start_warmup("http://h", ""));
    assert!(w.try_start_warmup(" http://h ", "m"));
    assert!(!w.try_start_warmup("http://h", "m"));
    assert!(!w.try_start_warmup("http://other", "m"));
    w.mark_warmup_success(" http://h", "m ");
    w.finish_warmup();
    assert!(!w.try_start_warmup("http://h", " m"));
    assert!(w.try_start_warmup("http://h", "m2"));
    w.finish_warmup();
    w.mark_warmup_success("", "m2");
    assert!(!w.try_start_warmup("http://h", "m"));
    assert!(w.try_start_warmup("http://h2", "m"));
}

#[test]
fn model_names_in_an_answer() {
    let parse = |s: &str| serde_json::from_str::<serde_json::Value>(s).unwrap();
    assert_eq!(
        extract_models(&parse(r#"{"data":[{"id":" a "},{"id":"b","name":"x"},{"name":"c"},{"id":7,"name":"d"},"e",5,{"id":"a"},{"id":"  "}]}"#)),
        vec!["a", "b", "c", "d", "e"]
    );
    assert_eq!(extract_models(&parse(r#"["m1","m2","m1"]"#)), vec!["m1", "m2"]);
    assert_eq!(extract_models(&parse(r#"{"data":5,"models":["z"]}"#)), vec!["z"]);
    assert_eq!(extract_models(&parse(r#"{"data":[],"models":["z"]}"#)), Vec::<String>::new());
    assert_eq!(extract_models(&parse(r#"{"other":["z"]}"#)), Vec::<String>::new());
    assert_eq!(extract_models(&parse("3")), Vec::<String>::new());
}

fn reference_urls(base_url: &str) -> Vec<String> {
    let base = base_url.trim().trim_end_matches('/').to_string();
    if base.is_empty() {
        return vec![];
    }
    let mut urls = vec![
        format!("{base}/health"),
        format!("{base}/v1/health"),
        format!("{base}/v1/models"),
    ];
    if base.ends_with("/v1") {
        let root = base.trim_end_matches("/v1");
        urls.push(format!("{root}/health"));
        urls.push(format!("{root}/v1/models"));
    }
    urls.sort();
    urls.dedup();
    urls
}
