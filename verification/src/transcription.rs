//! Streaming transcription: the audio of each session as it arrives in
//! chunks, and what each chunk leads to.
//!
//! The requests to the server are the caller's. The caller hands over each
//! chunk with the time, carries out what is decided, and reports what the
//! server answered.

use crate::events::text_option_view;
use crate::text::{blank, is_blank, join2, str_eq, trim, trimmed};
use crate::voice::{default_model, model_name};
use vstd::prelude::*;

verus! {

/// Trusted: `base64::DecodeError`, why a text is no Base64.
#[verifier::external_type_specification]
#[verifier::external_body]
pub struct ExDecodeError(base64::DecodeError);

/// What the standard Base64 alphabet with padding decodes a text to, or why
/// it does not.
pub uninterp spec fn base64_decoded(text: Seq<char>) -> Result<Seq<u8>, base64::DecodeError>;

/// The message of a decoding error.
pub uninterp spec fn base64_error_text(e: base64::DecodeError) -> Seq<char>;

/// Decodes Base64.
///
/// Trusted: `Engine::decode` of `base64::engine::general_purpose::STANDARD`,
/// which depends on the text alone.
#[verifier::external_body]
pub(crate) fn decode_base64(text: &str) -> (r: Result<Vec<u8>, base64::DecodeError>)
    ensures
        match r {
            Ok(bytes) => base64_decoded(text@) == Ok::<Seq<u8>, base64::DecodeError>(bytes@),
            Err(e) => base64_decoded(text@) == Err::<Seq<u8>, base64::DecodeError>(e),
        },
{
    base64::Engine::decode(&base64::engine::general_purpose::STANDARD, text)
}

/// The message of a decoding error.
///
/// Trusted: the `Display` of `base64::DecodeError`.
#[verifier::external_body]
pub(crate) fn decode_error_text(e: &base64::DecodeError) -> (s: String)
    ensures
        s@ == base64_error_text(*e),
{
    e.to_string()
}

/// The audio of one session so far.
#[derive(Clone, Debug)]
pub struct VoiceBuffer {
    pub bytes: Vec<u8>,
    /// When the audio was last sent for a partial transcription.
    pub last_sent_ms: u64,
    pub audio_mime: String,
    /// The last partial transcription, with its time and the length of the
    /// audio that it was made of.
    pub last_partial_text: Option<String>,
    pub last_partial_ms: u64,
    pub last_partial_bytes_len: usize,
}

/// What a `VoiceBuffer` stands for.
pub struct VoiceBufferView {
    pub bytes: Seq<u8>,
    pub last_sent_ms: u64,
    pub audio_mime: Seq<char>,
    pub last_partial_text: Option<Seq<char>>,
    pub last_partial_ms: u64,
    pub last_partial_bytes_len: usize,
}

impl View for VoiceBuffer {
    type V = VoiceBufferView;

    open spec fn view(&self) -> VoiceBufferView {
        VoiceBufferView {
            bytes: self.bytes@,
            last_sent_ms: self.last_sent_ms,
            audio_mime: self.audio_mime@,
            last_partial_text: text_option_view(self.last_partial_text),
            last_partial_ms: self.last_partial_ms,
            last_partial_bytes_len: self.last_partial_bytes_len,
        }
    }
}

/// The buffer of a session of which nothing has arrived.
pub open spec fn empty_buffer() -> VoiceBufferView {
    VoiceBufferView {
        bytes: seq![],
        last_sent_ms: 0,
        audio_mime: seq![],
        last_partial_text: None,
        last_partial_ms: 0,
        last_partial_bytes_len: 0,
    }
}

/// The buffers of the sessions, and whether the server was last seen
/// available.
#[derive(Debug)]
pub struct VoiceSessions {
    entries: Vec<(String, VoiceBuffer)>,
    last_status: Option<bool>,
}

/// What a `VoiceSessions` stands for.
pub struct VoiceSessionsView {
    pub buffers: Map<Seq<char>, VoiceBufferView>,
    pub last_status: Option<bool>,
}

/// The buffers by session: of two entries for one session the later counts.
pub open spec fn buffers_of(entries: Seq<(String, VoiceBuffer)>) -> Map<Seq<char>, VoiceBufferView>
    decreases entries.len(),
{
    if entries.len() == 0 {
        Map::empty()
    } else {
        buffers_of(entries.drop_last()).insert(entries.last().0@, entries.last().1@)
    }
}

impl View for VoiceSessions {
    type V = VoiceSessionsView;

    closed spec fn view(&self) -> VoiceSessionsView {
        VoiceSessionsView { buffers: buffers_of(self.entries@), last_status: self.last_status }
    }
}

/// The buffer of a session, empty where the session has none.
pub open spec fn buffer_or_empty(buffers: Map<Seq<char>, VoiceBufferView>, session: Seq<char>) -> VoiceBufferView {
    if buffers.dom().contains(session) {
        buffers[session]
    } else {
        empty_buffer()
    }
}

/// The entries without those of a session.
pub open spec fn without_session(entries: Seq<(String, VoiceBuffer)>, session: Seq<char>) -> Seq<
    (String, VoiceBuffer),
>
    decreases entries.len(),
{
    if entries.len() == 0 {
        seq![]
    } else if entries.last().0@ != session {
        without_session(entries.drop_last(), session).push(entries.last())
    } else {
        without_session(entries.drop_last(), session)
    }
}

/// Leaving out the entries of a session removes its buffer.
proof fn lemma_without(entries: Seq<(String, VoiceBuffer)>, session: Seq<char>)
    ensures
        buffers_of(without_session(entries, session)) == buffers_of(entries).remove(session),
    decreases entries.len(),
{
    if entries.len() == 0 {
        assert(buffers_of(entries).remove(session) =~= Map::<
            Seq<char>,
            VoiceBufferView,
        >::empty());
    } else {
        let shorter = entries.drop_last();
        let last = entries.last();
        lemma_without(shorter, session);
        if last.0@ != session {
            let kept = without_session(shorter, session).push(last);
            assert(kept.drop_last() =~= without_session(shorter, session));
            assert(kept.last() == last);
            assert(buffers_of(kept) =~= buffers_of(entries).remove(session));
        } else {
            assert(buffers_of(without_session(shorter, session)) =~= buffers_of(entries).remove(
                session,
            ));
        }
    }
}

impl VoiceSessions {
    /// No session, the server not seen yet.
    pub fn new() -> (s: VoiceSessions)
        ensures
            s@ == (VoiceSessionsView { buffers: Map::empty(), last_status: None }),
    {
        VoiceSessions { entries: Vec::new(), last_status: None }
    }

    /// Whether the server was last seen available.
    pub fn last_status(&self) -> (r: Option<bool>)
        ensures
            r == self@.last_status,
    {
        self.last_status
    }

    /// Notes whether the server was seen available, and says whether that
    /// is news.
    pub fn set_status(&mut self, available: bool) -> (changed: bool)
        ensures
            final(self)@ == (VoiceSessionsView { last_status: Some(available), ..old(self)@ }),
            changed == (old(self)@.last_status != Some(available)),
    {
        let changed = match self.last_status {
            Some(was) => was != available,
            None => true,
        };
        self.last_status = Some(available);
        changed
    }

    /// Takes the buffer of a session out, leaving the session without one.
    fn take(&mut self, session: &str) -> (r: VoiceBuffer)
        ensures
            r@ == buffer_or_empty(old(self)@.buffers, session@),
            final(self)@ == (VoiceSessionsView {
                buffers: old(self)@.buffers.remove(session@),
                ..old(self)@
            }),
    {
        let ghost all = self.entries@;
        let mut found = VoiceBuffer {
            bytes: Vec::new(),
            last_sent_ms: 0,
            audio_mime: String::new(),
            last_partial_text: None,
            last_partial_ms: 0,
            last_partial_bytes_len: 0,
        };
        let mut kept: Vec<(String, VoiceBuffer)> = Vec::new();
        let ghost mut i: int = 0;
        proof {
            assert(all.take(0) =~= Seq::<(String, VoiceBuffer)>::empty());
            assert(kept@ =~= without_session(all.take(0), session@));
            assert(buffers_of(all.take(0)) =~= Map::<Seq<char>, VoiceBufferView>::empty());
            assert(all.skip(0) =~= all);
        }
        while self.entries.len() > 0
            invariant
                0 <= i <= all.len(),
                self.entries@ == all.skip(i),
                self.last_status == old(self).last_status,
                kept@ == without_session(all.take(i), session@),
                found@ == buffer_or_empty(buffers_of(all.take(i)), session@),
            decreases self.entries.len(),
        {
            let entry = self.entries.remove(0);
            proof {
                let prefix = all.take(i);
                assert(entry == all[i]);
                assert(self.entries@ =~= all.skip(i + 1));
                assert(all.take(i + 1).drop_last() =~= prefix);
                assert(all.take(i + 1).last() == entry);
            }
            if str_eq(entry.0.as_str(), session) {
                found = entry.1;
            } else {
                kept.push(entry);
            }
            proof {
                i = i + 1;
            }
        }
        proof {
            assert(all.take(i) =~= all);
            lemma_without(all, session@);
        }
        self.entries = kept;
        found
    }

    /// Puts the buffer of a session in, in place of the one it had.
    fn put(&mut self, session: &str, buffer: VoiceBuffer)
        ensures
            final(self)@ == (VoiceSessionsView {
                buffers: old(self)@.buffers.insert(session@, buffer@),
                ..old(self)@
            }),
    {
        let ghost before = self.entries@;
        let entry = (session.to_owned(), buffer);
        self.entries.push(entry);
        proof {
            assert(self.entries@.drop_last() =~= before);
            assert(self.entries@.last() == entry);
        }
    }

    /// Forgets a session.
    pub fn drop_session(&mut self, session: &str)
        ensures
            final(self)@ == (VoiceSessionsView {
                buffers: old(self)@.buffers.remove(session@),
                ..old(self)@
            }),
    {
        let _ = self.take(session);
    }
}

/// A request to transcribe the audio of a session.
#[derive(Clone, Debug)]
pub struct VoiceRequest {
    pub session_id: String,
    pub bytes: Vec<u8>,
    pub audio_mime: String,
    pub model: String,
    /// The transcription is the last of the session.
    pub is_final: bool,
}

/// What a `VoiceRequest` stands for.
pub struct VoiceRequestView {
    pub session_id: Seq<char>,
    pub bytes: Seq<u8>,
    pub audio_mime: Seq<char>,
    pub model: Seq<char>,
    pub is_final: bool,
}

impl View for VoiceRequest {
    type V = VoiceRequestView;

    open spec fn view(&self) -> VoiceRequestView {
        VoiceRequestView {
            session_id: self.session_id@,
            bytes: self.bytes@,
            audio_mime: self.audio_mime@,
            model: self.model@,
            is_final: self.is_final,
        }
    }
}

/// An event of a transcription, for the host's event channel.
#[derive(Clone, Debug)]
pub enum VoiceEvent {
    Partial { session_id: String, text: String },
    Final { session_id: String, text: String },
    Error { session_id: String, message: String },
}

/// What a `VoiceEvent` stands for.
pub enum VoiceEventView {
    Partial { session_id: Seq<char>, text: Seq<char> },
    Final { session_id: Seq<char>, text: Seq<char> },
    Error { session_id: Seq<char>, message: Seq<char> },
}

impl View for VoiceEvent {
    type V = VoiceEventView;

    open spec fn view(&self) -> VoiceEventView {
        match self {
            VoiceEvent::Partial { session_id, text } => VoiceEventView::Partial {
                session_id: session_id@,
                text: text@,
            },
            VoiceEvent::Final { session_id, text } => VoiceEventView::Final {
                session_id: session_id@,
                text: text@,
            },
            VoiceEvent::Error { session_id, message } => VoiceEventView::Error {
                session_id: session_id@,
                message: message@,
            },
        }
    }
}

impl VoiceEvent {
    /// The name of the event on the host's channel.
    pub open spec fn channel_name(self) -> Seq<char> {
        match self {
            VoiceEvent::Partial { .. } => "voice.transcription.partial"@,
            VoiceEvent::Final { .. } => "voice.transcription.final"@,
            VoiceEvent::Error { .. } => "voice.transcription.error"@,
        }
    }

    /// The name of the event on the host's channel.
    pub fn event_type(&self) -> (s: &'static str)
        ensures
            s@ == self.channel_name(),
    {
        match self {
            VoiceEvent::Partial { .. } => "voice.transcription.partial",
            VoiceEvent::Final { .. } => "voice.transcription.final",
            VoiceEvent::Error { .. } => "voice.transcription.error",
        }
    }
}

/// What a chunk of audio leads to.
#[derive(Clone, Debug)]
pub enum VoiceStep {
    /// The call fails with this message.
    Rejected(String),
    /// This event is emitted and nothing is sent.
    Report(VoiceEvent),
    /// Nothing yet: the last partial transcription was asked for too
    /// recently.
    Wait,
    /// The audio is to be sent for transcription.
    Transcribe(VoiceRequest),
}

/// What a `VoiceStep` stands for.
pub enum VoiceStepView {
    Rejected(Seq<char>),
    Report(VoiceEventView),
    Wait,
    Transcribe(VoiceRequestView),
}

impl View for VoiceStep {
    type V = VoiceStepView;

    open spec fn view(&self) -> VoiceStepView {
        match self {
            VoiceStep::Rejected(m) => VoiceStepView::Rejected(m@),
            VoiceStep::Report(e) => VoiceStepView::Report(e@),
            VoiceStep::Wait => VoiceStepView::Wait,
            VoiceStep::Transcribe(r) => VoiceStepView::Transcribe(r@),
        }
    }
}

/// `a - b`, or zero where `b` is the larger.
pub open spec fn elapsed(a: u64, b: u64) -> int {
    if a >= b {
        a - b
    } else {
        0
    }
}

/// The buffer of a session once a chunk has arrived: the decoded audio
/// after what was there, and the media type where one is named.
pub open spec fn with_chunk(
    b: VoiceBufferView,
    chunk: Option<Seq<u8>>,
    audio_mime: Seq<char>,
) -> VoiceBufferView {
    VoiceBufferView {
        bytes: match chunk {
            Some(bytes) => b.bytes + bytes,
            None => b.bytes,
        },
        audio_mime: if trimmed(audio_mime).len() > 0 {
            trimmed(audio_mime)
        } else {
            b.audio_mime
        },
        ..b
    }
}

/// The last partial transcription stands for the whole audio and is fresh
/// enough to be the final one.
pub open spec fn partial_is_final(b: VoiceBufferView, now: u64) -> bool {
    b.last_partial_text is Some && b.last_partial_bytes_len == b.bytes.len() && elapsed(
        now,
        b.last_partial_ms,
    ) <= 2000
}

/// The request for the audio of a buffer.
pub open spec fn request_for(
    session_id: Seq<char>,
    b: VoiceBufferView,
    audio_mime: Seq<char>,
    model: Seq<char>,
    is_final: bool,
) -> VoiceRequestView {
    VoiceRequestView {
        session_id,
        bytes: b.bytes,
        audio_mime: if is_blank(b.audio_mime) {
            audio_mime
        } else {
            b.audio_mime
        },
        model: if trimmed(model).len() == 0 {
            default_model()
        } else {
            trimmed(model)
        },
        is_final,
    }
}

/// What a chunk of audio leads to, and the sessions after it, given what
/// the chunk decodes to.
///
/// An empty session id fails the call. While the server is unavailable the
/// session is forgotten and that is reported. A chunk that is no Base64 fails
/// the call. A chunk that is not the last is sent for a partial
/// transcription at most once in a second and a half. The last chunk ends
/// the session: where the last partial transcription stands for the whole
/// audio and is at most two seconds old, it is the final one; else the
/// audio is sent once more.
pub open spec fn stream_of(
    st: VoiceSessionsView,
    audio_chunk_b64: Seq<char>,
    audio_mime: Seq<char>,
    session_id: Seq<char>,
    model: Seq<char>,
    is_final: bool,
    now: u64,
    decoded: Result<Seq<u8>, base64::DecodeError>,
) -> (VoiceStepView, VoiceSessionsView) {
    if is_blank(session_id) {
        (VoiceStepView::Rejected("[transcribe_voice_stream] sessionId is empty"@), st)
    } else if st.last_status == Some(false) {
        (
            VoiceStepView::Report(
                VoiceEventView::Error { session_id, message: "[voice] server unavailable"@ },
            ),
            VoiceSessionsView { buffers: st.buffers.remove(session_id), ..st },
        )
    } else if !is_blank(audio_chunk_b64) && decoded is Err {
        (
            VoiceStepView::Rejected(
                "[transcribe_voice_stream] invalid base64: "@ + base64_error_text(decoded->Err_0),
            ),
            st,
        )
    } else {
        let chunk = if is_blank(audio_chunk_b64) {
            None
        } else {
            Some(decoded->Ok_0)
        };
        let b = with_chunk(buffer_or_empty(st.buffers, session_id), chunk, audio_mime);
        if !is_final && elapsed(now, b.last_sent_ms) < 1500 {
            (VoiceStepView::Wait, VoiceSessionsView { buffers: st.buffers.insert(session_id, b), ..st })
        } else if !is_final {
            let sent = VoiceBufferView { last_sent_ms: now, ..b };
            (
                VoiceStepView::Transcribe(request_for(session_id, sent, audio_mime, model, false)),
                VoiceSessionsView { buffers: st.buffers.insert(session_id, sent), ..st },
            )
        } else if partial_is_final(b, now) {
            (
                VoiceStepView::Report(
                    VoiceEventView::Final { session_id, text: b.last_partial_text->0 },
                ),
                VoiceSessionsView { buffers: st.buffers.remove(session_id), ..st },
            )
        } else {
            (
                VoiceStepView::Transcribe(request_for(session_id, b, audio_mime, model, true)),
                VoiceSessionsView { buffers: st.buffers.remove(session_id), ..st },
            )
        }
    }
}

/// What a decoding result stands for.
pub open spec fn decoded_bytes_view(r: Result<Vec<u8>, base64::DecodeError>) -> Result<
    Seq<u8>,
    base64::DecodeError,
> {
    match r {
        Ok(bytes) => Ok(bytes@),
        Err(e) => Err(e),
    }
}

/// What the server's answer to a request leads to: the event to emit, and
/// the sessions after it. A partial transcription is noted with its time
/// and the length of the audio, where the session still has a buffer. A
/// failure forgets the session.
pub open spec fn answered_of(
    st: VoiceSessionsView,
    session_id: Seq<char>,
    answer: Result<Seq<char>, Seq<char>>,
    bytes_len: usize,
    is_final: bool,
    now: u64,
) -> (VoiceEventView, VoiceSessionsView) {
    match answer {
        Ok(text) => if is_final {
            (VoiceEventView::Final { session_id, text }, st)
        } else if st.buffers.dom().contains(session_id) {
            (
                VoiceEventView::Partial { session_id, text },
                VoiceSessionsView {
                    buffers: st.buffers.insert(
                        session_id,
                        VoiceBufferView {
                            last_partial_text: Some(text),
                            last_partial_ms: now,
                            last_partial_bytes_len: bytes_len,
                            ..st.buffers[session_id]
                        },
                    ),
                    ..st
                },
            )
        } else {
            (VoiceEventView::Partial { session_id, text }, st)
        },
        Err(message) => (
            VoiceEventView::Error { session_id, message },
            VoiceSessionsView { buffers: st.buffers.remove(session_id), ..st },
        ),
    }
}

impl VoiceSessions {
    /// Decides whether a session has a buffer.
    fn has(&self, session: &str) -> (r: bool)
        ensures
            r == self@.buffers.dom().contains(session@),
    {
        let mut i: usize = 0;
        proof {
            assert(self.entries@.take(0) =~= Seq::<(String, VoiceBuffer)>::empty());
        }
        let mut found = false;
        while i < self.entries.len()
            invariant
                i <= self.entries.len(),
                found == buffers_of(self.entries@.take(i as int)).dom().contains(session@),
            decreases self.entries.len() - i,
        {
            proof {
                let next = self.entries@.take(i + 1);
                assert(next.drop_last() =~= self.entries@.take(i as int));
                assert(next.last() == self.entries@[i as int]);
            }
            if str_eq(self.entries[i].0.as_str(), session) {
                found = true;
            }
            i += 1;
        }
        proof {
            assert(self.entries@.take(i as int) =~= self.entries@);
        }
        found
    }

    /// Decides what a chunk of audio leads to, from what the chunk decodes
    /// to.
    pub fn stream_chunk(
        &mut self,
        audio_chunk_b64: &str,
        audio_mime: &str,
        session_id: &str,
        model: &str,
        is_final: bool,
        now: u64,
        decoded: Result<Vec<u8>, base64::DecodeError>,
    ) -> (step: VoiceStep)
        ensures
            (step@, final(self)@) == stream_of(
                old(self)@,
                audio_chunk_b64@,
                audio_mime@,
                session_id@,
                model@,
                is_final,
                now,
                decoded_bytes_view(decoded),
            ),
    {
        if blank(session_id) {
            return VoiceStep::Rejected("[transcribe_voice_stream] sessionId is empty".to_owned());
        }
        match self.last_status {
            Some(false) => {
                self.drop_session(session_id);
                return VoiceStep::Report(
                    VoiceEvent::Error {
                        session_id: session_id.to_owned(),
                        message: "[voice] server unavailable".to_owned(),
                    },
                );
            },
            _ => {},
        }
        let has_chunk = !blank(audio_chunk_b64);
        let mut arrived: Vec<u8> = match decoded {
            Ok(bytes) => bytes,
            Err(e) => {
                if has_chunk {
                    let text = decode_error_text(&e);
                    return VoiceStep::Rejected(
                        join2("[transcribe_voice_stream] invalid base64: ", text.as_str()),
                    );
                }
                Vec::new()
            },
        };
        let mime = trim(audio_mime);
        let mut b = self.take(session_id);
        let ghost start = b@;
        if has_chunk {
            b.bytes.append(&mut arrived);
        }
        if mime.as_str().unicode_len() > 0 {
            b.audio_mime = mime;
        }
        proof {
            let chunk = if is_blank(audio_chunk_b64@) {
                None
            } else {
                Some(decoded_bytes_view(decoded)->Ok_0)
            };
            assert(b@.bytes =~= with_chunk(start, chunk, audio_mime@).bytes);
            assert(b@ == with_chunk(start, chunk, audio_mime@));
        }
        if !is_final {
            let since: u64 = if now >= b.last_sent_ms {
                now - b.last_sent_ms
            } else {
                0
            };
            if since < 1500 {
                self.put(session_id, b);
                assert(self@.buffers =~= old(self)@.buffers.insert(session_id@, b@));
                return VoiceStep::Wait;
            }
            b.last_sent_ms = now;
        }
        let request_mime = if blank(b.audio_mime.as_str()) {
            audio_mime.to_owned()
        } else {
            b.audio_mime.clone()
        };
        if is_final {
            let VoiceBuffer {
                bytes,
                last_sent_ms: _,
                audio_mime: _,
                last_partial_text,
                last_partial_ms,
                last_partial_bytes_len,
            } = b;
            let age: u64 = if now >= last_partial_ms {
                now - last_partial_ms
            } else {
                0
            };
            match last_partial_text {
                Some(text) => {
                    if last_partial_bytes_len == bytes.len() && age <= 2000 {
                        return VoiceStep::Report(
                            VoiceEvent::Final { session_id: session_id.to_owned(), text },
                        );
                    }
                },
                None => {},
            }
            VoiceStep::Transcribe(
                VoiceRequest {
                    session_id: session_id.to_owned(),
                    bytes,
                    audio_mime: request_mime,
                    model: model_name(model),
                    is_final: true,
                },
            )
        } else {
            let bytes = b.bytes.clone();
            let ghost sent = b@;
            self.put(session_id, b);
            assert(self@.buffers =~= old(self)@.buffers.insert(session_id@, sent));
            VoiceStep::Transcribe(
                VoiceRequest {
                    session_id: session_id.to_owned(),
                    bytes,
                    audio_mime: request_mime,
                    model: model_name(model),
                    is_final: false,
                },
            )
        }
    }

    /// Decides what a chunk of audio leads to: the chunk is Base64.
    pub fn transcribe_voice_stream(
        &mut self,
        audio_chunk_b64: &str,
        audio_mime: &str,
        session_id: &str,
        model: &str,
        is_final: bool,
        now: u64,
    ) -> (step: VoiceStep)
        ensures
            (step@, final(self)@) == stream_of(
                old(self)@,
                audio_chunk_b64@,
                audio_mime@,
                session_id@,
                model@,
                is_final,
                now,
                base64_decoded(trimmed(audio_chunk_b64@)),
            ),
    {
        let chunk = trim(audio_chunk_b64);
        let decoded = decode_base64(chunk.as_str());
        self.stream_chunk(audio_chunk_b64, audio_mime, session_id, model, is_final, now, decoded)
    }

    /// Takes note of the server's answer to a request, and gives the event
    /// to emit.
    pub fn on_transcribed(
        &mut self,
        session_id: &str,
        answer: Result<String, String>,
        bytes_len: usize,
        is_final: bool,
        now: u64,
    ) -> (event: VoiceEvent)
        ensures
            (event@, final(self)@) == answered_of(
                old(self)@,
                session_id@,
                match answer {
                    Ok(text) => Ok::<Seq<char>, Seq<char>>(text@),
                    Err(message) => Err::<Seq<char>, Seq<char>>(message@),
                },
                bytes_len,
                is_final,
                now,
            ),
    {
        match answer {
            Ok(text) => {
                if is_final {
                    VoiceEvent::Final { session_id: session_id.to_owned(), text }
                } else {
                    if self.has(session_id) {
                        let mut b = self.take(session_id);
                        b.last_partial_text = Some(text.clone());
                        b.last_partial_ms = now;
                        b.last_partial_bytes_len = bytes_len;
                        let ghost noted = b@;
                        self.put(session_id, b);
                        assert(self@.buffers =~= old(self)@.buffers.insert(session_id@, noted));
                    }
                    VoiceEvent::Partial { session_id: session_id.to_owned(), text }
                }
            },
            Err(message) => {
                self.drop_session(session_id);
                VoiceEvent::Error { session_id: session_id.to_owned(), message }
            },
        }
    }
}

} // verus!
