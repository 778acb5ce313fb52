use valedesk_core::transcription::{VoiceEvent, VoiceSessions, VoiceStep};

fn request(step: VoiceStep) -> valedesk_core::transcription::VoiceRequest {
    match step {
        VoiceStep::Transcribe(r) => r,
        other => panic!("{:?}", other),
    }
}

#[test]
fn an_empty_session_id_fails() {
    let mut s = VoiceSessions::new();
    match s.transcribe_voice_stream("aGk=", "audio/webm", "  ", "m", false, 10_000) {
        VoiceStep::Rejected(m) => assert_eq!(m, "[transcribe_voice_stream] sessionId is empty"),
        other => panic!("{:?}", other),
    }
}

#[test]
fn a_chunk_that_is_no_base64_fails() {
    let mut s = VoiceSessions::new();
    match s.transcribe_voice_stream("!!!", "audio/webm", "s1", "m", false, 10_000) {
        VoiceStep::Rejected(m) => {
            assert!(m.starts_with("[transcribe_voice_stream] invalid base64: "), "{}", m);
            assert!(m.len() > "[transcribe_voice_stream] invalid base64: ".len());
        }
        other => panic!("{:?}", other),
    }
}

#[test]
fn chunks_add_up_and_are_sent_at_most_every_second_and_a_half() {
    let mut s = VoiceSessions::new();
    let r = request(s.transcribe_voice_stream(" aGVs ", " audio/webm ", "s1", " ", false, 10_000));
    assert_eq!(r.bytes, b"hel");
    assert_eq!(r.audio_mime, "audio/webm");
    assert_eq!(r.model, "deepdml/faster-whisper-large-v3-turbo-ct2");
    assert_eq!(r.session_id, "s1");
    assert!(!r.is_final);
    assert!(matches!(
        s.transcribe_voice_stream("bG8=", "", "s1", "m", false, 11_499),
        VoiceStep::Wait
    ));
    let r = request(s.transcribe_voice_stream("", "", "s1", " whisper ", false, 11_500));
    assert_eq!(r.bytes, b"hello");
    assert_eq!(r.audio_mime, "audio/webm");
    assert_eq!(r.model, "whisper");
    assert!(matches!(s.transcribe_voice_stream("", "", "s1", "m", false, 11_000), VoiceStep::Wait));
}

#[test]
fn the_first_chunk_of_a_session_waits_while_the_clock_is_young() {
    let mut s = VoiceSessions::new();
    assert!(matches!(s.transcribe_voice_stream("aGk=", "", "s1", "m", false, 1_499), VoiceStep::Wait));
    let r = request(s.transcribe_voice_stream("", "audio/ogg", "s1", "m", true, 1_499));
    assert_eq!(r.bytes, b"hi");
    assert_eq!(r.audio_mime, "audio/ogg");
    assert!(r.is_final);
}

#[test]
fn the_media_type_of_the_call_stands_in_for_a_missing_one() {
    let mut s = VoiceSessions::new();
    let r = request(s.transcribe_voice_stream("aGk=", "  ", "s1", "m", true, 5_000));
    assert_eq!(r.audio_mime, "  ");
}

#[test]
fn a_fresh_partial_of_the_whole_audio_is_the_final_one() {
    let mut s = VoiceSessions::new();
    let r = request(s.transcribe_voice_stream("aGk=", "audio/webm", "s1", "m", false, 10_000));
    match s.on_transcribed("s1", Ok("hi there".to_string()), r.bytes.len(), false, 10_400) {
        VoiceEvent::Partial { session_id, text } => {
            assert_eq!(session_id, "s1");
            assert_eq!(text, "hi there");
        }
        other => panic!("{:?}", other),
    }
    match s.transcribe_voice_stream("", "", "s1", "m", true, 12_400) {
        VoiceStep::Report(event) => {
            assert_eq!(event.event_type(), "voice.transcription.final");
            assert!(matches!(event, VoiceEvent::Final { text, .. } if text == "hi there"));
        }
        other => panic!("{:?}", other),
    }
    let r = request(s.transcribe_voice_stream("eA==", "", "s1", "m", true, 12_500));
    assert_eq!(r.bytes, b"x");
}

#[test]
fn a_stale_or_short_partial_is_not_the_final_one() {
    let mut s = VoiceSessions::new();
    let r = request(s.transcribe_voice_stream("aGk=", "", "s1", "m", false, 10_000));
    s.on_transcribed("s1", Ok("hi".to_string()), r.bytes.len(), false, 10_400);
    let r = request(s.transcribe_voice_stream("", "", "s1", "m", true, 12_401));
    assert!(r.is_final);

    let r = request(s.transcribe_voice_stream("aGk=", "", "s2", "m", false, 10_000));
    s.on_transcribed("s2", Ok("hi".to_string()), r.bytes.len(), false, 10_400);
    let r = request(s.transcribe_voice_stream("IQ==", "", "s2", "m", true, 10_500));
    assert_eq!(r.bytes, b"hi!");
}

#[test]
fn an_unavailable_server_ends_the_session() {
    let mut s = VoiceSessions::new();
    assert_eq!(s.last_status(), None);
    assert!(s.set_status(true));
    assert!(!s.set_status(true));
    request(s.transcribe_voice_stream("aGk=", "", "s1", "m", false, 10_000));
    assert!(s.set_status(false));
    match s.transcribe_voice_stream("aGk=", "", "s1", "m", false, 20_000) {
        VoiceStep::Report(event) => {
            assert_eq!(event.event_type(), "voice.transcription.error");
            assert!(matches!(event, VoiceEvent::Error { session_id, message } if session_id == "s1" && message == "[voice] server unavailable"));
        }
        other => panic!("{:?}", other),
    }
    assert!(s.set_status(true));
    let r = request(s.transcribe_voice_stream("eA==", "", "s1", "m", true, 30_000));
    assert_eq!(r.bytes, b"x");
}

#[test]
fn answers_of_the_server() {
    let mut s = VoiceSessions::new();
    match s.on_transcribed("s1", Ok("t".to_string()), 3, true, 1) {
        VoiceEvent::Final { session_id, text } => {
            assert_eq!(session_id, "s1");
            assert_eq!(text, "t");
        }
        other => panic!("{:?}", other),
    }
    assert!(matches!(s.on_transcribed("gone", Ok("t".to_string()), 3, false, 1), VoiceEvent::Partial { .. }));
    let r = request(s.transcribe_voice_stream("aGk=", "", "s1", "m", false, 10_000));
    assert_eq!(r.bytes, b"hi");
    let event = s.on_transcribed("s1", Err("[voice] http 500".to_string()), 2, false, 10_100);
    assert!(matches!(&event, VoiceEvent::Error { message, .. } if message == "[voice] http 500"));
    let r = request(s.transcribe_voice_stream("eA==", "", "s1", "m", true, 10_200));
    assert_eq!(r.bytes, b"x");
}

#[test]
fn sessions_are_kept_apart() {
    let mut s = VoiceSessions::new();
    request(s.transcribe_voice_stream("YQ==", "", "a", "m", false, 10_000));
    request(s.transcribe_voice_stream("Yg==", "", "b", "m", false, 10_000));
    s.drop_session("a");
    let r = request(s.transcribe_voice_stream("Yw==", "", "b", "m", true, 10_100));
    assert_eq!(r.bytes, b"bc");
    let r = request(s.transcribe_voice_stream("Yw==", "", "a", "m", true, 10_100));
    assert_eq!(r.bytes, b"c");
}
