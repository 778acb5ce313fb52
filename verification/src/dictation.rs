//! The dictation session supervisor: which session is active, what a start
//! or stop request leads to, what each line of the recognizer becomes, and
//! the flags that make a session's end observable exactly once.
//!
//! The recognizer process, its streams and the threads that read them belong
//! to the caller. The caller reports what it observed and carries out what
//! is decided here.

use crate::errors::{AudioModelsError, AudioModelsErrorView};
use crate::events::{
    decode_of, parse_sidecar_event_line, text_option_view, Number, SidecarEvent,
    SidecarEventView,
};
use crate::json::json_parse;
use crate::status::{AudioModelsStatus, AudioModelsStatusView};
use crate::text::{blank, is_blank, join3, starts_with, str_eq, trim, trimmed};
use vstd::prelude::*;

verus! {

/// The structured context of a dictation error.
#[derive(Debug)]
pub enum ErrorContext {
    /// The session that is running already.
    ActiveDictation { active_dictation_id: String },
    /// The readiness of the models.
    Status { status: AudioModelsStatus },
    /// Where the recognizer was looked for.
    ExpectedPath { expected_path: String },
    /// Why a line could not be decoded, and the line.
    Parse { error: String, line: String },
    /// Why reading or writing a stream failed.
    Io { error: String },
    /// How the recognizer exited, and what it wrote to its error stream.
    Exit { exit_code: i32, stderr: String },
    /// What the recognizer gave as context; absent counts as an empty object.
    Sidecar { context: Option<serde_json::Value> },
}

/// What an `ErrorContext` stands for.
pub enum ErrorContextView {
    ActiveDictation { active_dictation_id: Seq<char> },
    Status { status: AudioModelsStatusView },
    ExpectedPath { expected_path: Seq<char> },
    Parse { error: Seq<char>, line: Seq<char> },
    Io { error: Seq<char> },
    Exit { exit_code: i32, stderr: Seq<char> },
    Sidecar { context: Option<serde_json::Value> },
}

impl View for ErrorContext {
    type V = ErrorContextView;

    open spec fn view(&self) -> ErrorContextView {
        match self {
            ErrorContext::ActiveDictation { active_dictation_id } => {
                ErrorContextView::ActiveDictation { active_dictation_id: active_dictation_id@ }
            },
            ErrorContext::Status { status } => ErrorContextView::Status { status: status@ },
            ErrorContext::ExpectedPath { expected_path } => ErrorContextView::ExpectedPath {
                expected_path: expected_path@,
            },
            ErrorContext::Parse { error, line } => ErrorContextView::Parse {
                error: error@,
                line: line@,
            },
            ErrorContext::Io { error } => ErrorContextView::Io { error: error@ },
            ErrorContext::Exit { exit_code, stderr } => ErrorContextView::Exit {
                exit_code: *exit_code,
                stderr: stderr@,
            },
            ErrorContext::Sidecar { context } => ErrorContextView::Sidecar { context: *context },
        }
    }
}

/// An event of a dictation session, for the host's event channel.
#[derive(Debug)]
pub enum DictationEvent {
    Partial { dictation_id: String, text: String, unstable: Option<String> },
    Final { dictation_id: String, text: String, start: Option<Number>, end: Option<Number> },
    AudioLevel { dictation_id: String, level: Number },
    Error { dictation_id: String, code: String, message: String, context: ErrorContext },
    Done { dictation_id: String },
}

/// What a `DictationEvent` stands for.
pub enum DictationEventView {
    Partial { dictation_id: Seq<char>, text: Seq<char>, unstable: Option<Seq<char>> },
    Final { dictation_id: Seq<char>, text: Seq<char>, start: Option<Number>, end: Option<Number> },
    AudioLevel { dictation_id: Seq<char>, level: Number },
    Error { dictation_id: Seq<char>, code: Seq<char>, message: Seq<char>, context: ErrorContextView },
    Done { dictation_id: Seq<char> },
}

impl View for DictationEvent {
    type V = DictationEventView;

    open spec fn view(&self) -> DictationEventView {
        match self {
            DictationEvent::Partial { dictation_id, text, unstable } => DictationEventView::Partial {
                dictation_id: dictation_id@,
                text: text@,
                unstable: text_option_view(*unstable),
            },
            DictationEvent::Final { dictation_id, text, start, end } => DictationEventView::Final {
                dictation_id: dictation_id@,
                text: text@,
                start: *start,
                end: *end,
            },
            DictationEvent::AudioLevel { dictation_id, level } => DictationEventView::AudioLevel {
                dictation_id: dictation_id@,
                level: *level,
            },
            DictationEvent::Error { dictation_id, code, message, context } => {
                DictationEventView::Error {
                    dictation_id: dictation_id@,
                    code: code@,
                    message: message@,
                    context: context@,
                }
            },
            DictationEvent::Done { dictation_id } => DictationEventView::Done {
                dictation_id: dictation_id@,
            },
        }
    }
}

impl DictationEvent {
    /// The name of the event on the host's channel.
    pub open spec fn channel_name(self) -> Seq<char> {
        match self {
            DictationEvent::Partial { .. } => "audio.dictation.partial"@,
            DictationEvent::Final { .. } => "audio.dictation.final"@,
            DictationEvent::AudioLevel { .. } => "audio.dictation.audio_level"@,
            DictationEvent::Error { .. } => "audio.dictation.error"@,
            DictationEvent::Done { .. } => "audio.dictation.done"@,
        }
    }

    /// The name of the event on the host's channel.
    pub fn event_type(&self) -> (s: &'static str)
        ensures
            s@ == self.channel_name(),
    {
        match self {
            DictationEvent::Partial { .. } => "audio.dictation.partial",
            DictationEvent::Final { .. } => "audio.dictation.final",
            DictationEvent::AudioLevel { .. } => "audio.dictation.audio_level",
            DictationEvent::Error { .. } => "audio.dictation.error",
            DictationEvent::Done { .. } => "audio.dictation.done",
        }
    }
}

/// An error event.
pub open spec fn error_event(
    dictation_id: Seq<char>,
    code: Seq<char>,
    message: Seq<char>,
    context: ErrorContextView,
) -> DictationEventView {
    DictationEventView::Error { dictation_id, code, message, context }
}

/// An error event.
fn make_error(dictation_id: &str, code: &str, message: &str, context: ErrorContext) -> (e:
    DictationEvent)
    ensures
        e@ == error_event(dictation_id@, code@, message@, context@),
{
    DictationEvent::Error {
        dictation_id: dictation_id.to_owned(),
        code: code.to_owned(),
        message: message.to_owned(),
        context,
    }
}

/// The two one-way flags of a session: whether its `done` event is out, and
/// whether an error was surfaced. Neither ever goes back.
#[derive(Debug)]
pub struct SessionFlags {
    done_emitted: bool,
    had_error: bool,
}

/// What a `SessionFlags` stands for.
pub struct SessionFlagsView {
    pub done_emitted: bool,
    pub had_error: bool,
}

impl View for SessionFlags {
    type V = SessionFlagsView;

    closed spec fn view(&self) -> SessionFlagsView {
        SessionFlagsView { done_emitted: self.done_emitted, had_error: self.had_error }
    }
}

/// The number of `done` events that `n` termination paths emit one after
/// another, from a session whose flag is `done_emitted`.
pub open spec fn done_events(done_emitted: bool, n: nat) -> nat
    decreases n,
{
    if n == 0 {
        0
    } else {
        (if done_emitted {
            0nat
        } else {
            1nat
        }) + done_events(true, (n - 1) as nat)
    }
}

/// Once the `done` event is out, no termination path emits another.
pub proof fn lemma_done_stays_out(n: nat)
    ensures
        done_events(true, n) == 0,
    decreases n,
{
    if n > 0 {
        lemma_done_stays_out((n - 1) as nat);
    }
}

/// However many termination paths a session runs through (end of stream,
/// parse error, stop, exit), exactly one `done` event is emitted.
pub proof fn law_done_exactly_once(n: nat)
    requires
        n >= 1,
    ensures
        done_events(false, n) == 1,
{
    lemma_done_stays_out((n - 1) as nat);
}

impl SessionFlags {
    /// The flags of a session that has just started.
    pub fn new() -> (flags: SessionFlags)
        ensures
            flags@ == (SessionFlagsView { done_emitted: false, had_error: false }),
    {
        SessionFlags { done_emitted: false, had_error: false }
    }

    /// An error was surfaced.
    pub fn had_error(&self) -> (r: bool)
        ensures
            r == self@.had_error,
    {
        self.had_error
    }

    /// The `done` event is out.
    pub fn done_emitted(&self) -> (r: bool)
        ensures
            r == self@.done_emitted,
    {
        self.done_emitted
    }

    /// Notes that an error was surfaced.
    pub fn mark_error(&mut self)
        ensures
            final(self)@ == (SessionFlagsView { had_error: true, ..old(self)@ }),
    {
        self.had_error = true;
    }

    /// Ends the session on one termination path: gives the `done` event if
    /// it is not out yet, and nothing if it is.
    pub fn emit_done_once(&mut self, dictation_id: &str) -> (r: Option<DictationEvent>)
        ensures
            final(self)@ == (SessionFlagsView { done_emitted: true, ..old(self)@ }),
            old(self)@.done_emitted ==> r is None,
            !old(self)@.done_emitted ==> (r matches Some(e) && e@ == (DictationEventView::Done {
                dictation_id: dictation_id@,
            })),
            (if r is Some {
                1nat
            } else {
                0nat
            }) == done_events(old(self)@.done_emitted, 1),
    {
        assert(done_events(true, 0) == 0);
        if self.done_emitted {
            None
        } else {
            self.done_emitted = true;
            Some(DictationEvent::Done { dictation_id: dictation_id.to_owned() })
        }
    }

    /// Surfaces an error: notes it and gives the event to emit.
    pub fn emit_error(
        &mut self,
        dictation_id: &str,
        code: &str,
        message: &str,
        context: ErrorContext,
    ) -> (e: DictationEvent)
        ensures
            final(self)@ == (SessionFlagsView { had_error: true, ..old(self)@ }),
            e@ == error_event(dictation_id@, code@, message@, context@),
    {
        self.had_error = true;
        make_error(dictation_id, code, message, context)
    }
}

/// The supervisor's slot: the id of the active session, if there is one.
#[derive(Debug)]
pub struct DictationManager {
    session: Option<String>,
}

impl View for DictationManager {
    type V = Option<Seq<char>>;

    /// The id of the active session.
    closed spec fn view(&self) -> Option<Seq<char>> {
        text_option_view(self.session)
    }
}

/// What a start request leads to, before the models are looked at.
#[derive(Debug)]
pub enum StartDecision {
    /// The request is malformed: the call fails with this message.
    Rejected(String),
    /// A session is running: this event is emitted and the call succeeds.
    AlreadyRunning(DictationEvent),
    /// The start goes on. Where `reap` names a session, that session's
    /// process has exited and is to be reaped first.
    Proceed { reap: Option<String> },
}

/// What a `StartDecision` stands for.
pub enum StartDecisionView {
    Rejected(Seq<char>),
    AlreadyRunning(DictationEventView),
    Proceed { reap: Option<Seq<char>> },
}

impl View for StartDecision {
    type V = StartDecisionView;

    open spec fn view(&self) -> StartDecisionView {
        match self {
            StartDecision::Rejected(m) => StartDecisionView::Rejected(m@),
            StartDecision::AlreadyRunning(e) => StartDecisionView::AlreadyRunning(e@),
            StartDecision::Proceed { reap } => StartDecisionView::Proceed {
                reap: text_option_view(*reap),
            },
        }
    }
}

/// The event for a start request while a session is running.
pub open spec fn already_running_event(dictation_id: Seq<char>, active: Seq<char>) -> DictationEventView {
    error_event(
        dictation_id,
        "invalid_state"@,
        "Dictation is already running"@,
        ErrorContextView::ActiveDictation { active_dictation_id: active },
    )
}

/// What a start request leads to, and the slot after it. `active_exited`
/// says that the process of the active session has exited, or could not be
/// asked; it counts only while a session is active.
pub open spec fn start_of(session: Option<Seq<char>>, dictation_id: Seq<char>, active_exited: bool) -> (
    StartDecisionView,
    Option<Seq<char>>,
) {
    if is_blank(dictation_id) {
        (StartDecisionView::Rejected("[audio.dictation.start] dictationId is required"@), session)
    } else {
        match session {
            None => (StartDecisionView::Proceed { reap: None }, None),
            Some(active) => if active_exited {
                (StartDecisionView::Proceed { reap: Some(active) }, None)
            } else {
                (
                    StartDecisionView::AlreadyRunning(already_running_event(dictation_id, active)),
                    session,
                )
            },
        }
    }
}

/// What a stop request leads to.
#[derive(Debug)]
pub enum StopDecision {
    /// The request is malformed or names another session: the call fails
    /// with this message.
    Rejected(String),
    /// No session is active: the call succeeds and nothing is emitted.
    Ignored,
    /// The session is taken out of the slot and the recognizer is asked to
    /// stop with this command.
    Stop { command: String },
}

/// What a `StopDecision` stands for.
pub enum StopDecisionView {
    Rejected(Seq<char>),
    Ignored,
    Stop { command: Seq<char> },
}

impl View for StopDecision {
    type V = StopDecisionView;

    open spec fn view(&self) -> StopDecisionView {
        match self {
            StopDecision::Rejected(m) => StopDecisionView::Rejected(m@),
            StopDecision::Ignored => StopDecisionView::Ignored,
            StopDecision::Stop { command } => StopDecisionView::Stop { command: command@ },
        }
    }
}

/// The command that initialises the recognizer.
pub open spec fn init_command_text() -> Seq<char> {
    "{\"cmd\":\"init\",\"config\":{\"sample_rate\":16000,\"mode\":\"mic\",\"model_key\":\"asr_tdt_v3\"}}"@
}

/// The command that opens the microphone.
pub open spec fn mic_start_command_text() -> Seq<char> {
    "{\"cmd\":\"mic_start\",\"device_id\":\"default\"}"@
}

/// The command that closes the microphone.
pub open spec fn mic_stop_command_text() -> Seq<char> {
    "{\"cmd\":\"mic_stop\"}"@
}

/// What a stop request leads to, and the slot after it.
pub open spec fn stop_of(session: Option<Seq<char>>, dictation_id: Seq<char>) -> (
    StopDecisionView,
    Option<Seq<char>>,
) {
    if is_blank(dictation_id) {
        (StopDecisionView::Rejected("[audio.dictation.stop] dictationId is required"@), session)
    } else {
        match session {
            None => (StopDecisionView::Ignored, None),
            Some(active) => if active != dictation_id {
                (
                    StopDecisionView::Rejected(
                        "[audio.dictation.stop] dictationId does not match active session (active="@
                            + active + ")"@,
                    ),
                    session,
                )
            } else {
                (StopDecisionView::Stop { command: mic_stop_command_text() }, None)
            },
        }
    }
}

/// Stopping with no session active succeeds and emits nothing, however often
/// it is asked.
pub proof fn law_stop_is_idempotent(first: Seq<char>, second: Seq<char>)
    requires
        !is_blank(first),
        !is_blank(second),
    ensures
        stop_of(None, first) == (StopDecisionView::Ignored, None::<Seq<char>>),
        stop_of(stop_of(None, first).1, second) == (StopDecisionView::Ignored, None::<Seq<char>>),
{
}

/// A start request while a session is running leaves that session as it is.
pub proof fn law_running_session_is_kept(active: Seq<char>, dictation_id: Seq<char>)
    requires
        !is_blank(dictation_id),
    ensures
        start_of(Some(active), dictation_id, false) == (
            StartDecisionView::AlreadyRunning(already_running_event(dictation_id, active)),
            Some(active),
        ),
{
}

impl DictationManager {
    /// A supervisor without a session.
    pub fn new() -> (m: DictationManager)
        ensures
            m@ is None,
    {
        DictationManager { session: None }
    }

    /// The id of the active session.
    pub fn active_id(&self) -> (r: Option<&str>)
        ensures
            match r {
                Some(id) => self@ == Some(id@),
                None => self@ is None,
            },
    {
        match &self.session {
            Some(id) => Some(id.as_str()),
            None => None,
        }
    }

    /// Puts a session that has started into the slot.
    pub fn session_started(&mut self, dictation_id: &str)
        ensures
            final(self)@ == Some(dictation_id@),
    {
        self.session = Some(dictation_id.to_owned());
    }

    /// Empties the slot.
    pub fn clear(&mut self)
        ensures
            final(self)@ is None,
    {
        self.session = None;
    }
}

/// Decides what a start request leads to, before the models are looked at.
/// An empty id fails the call. A session whose process has exited is taken
/// out of the slot to be reaped. A session that is still running stays, and
/// the request is answered with an `invalid_state` event that names it.
pub fn dictation_start(manager: &mut DictationManager, dictation_id: &str, active_exited: bool) -> (d:
    StartDecision)
    ensures
        (d@, final(manager)@) == start_of(old(manager)@, dictation_id@, active_exited),
{
    if blank(dictation_id) {
        return StartDecision::Rejected("[audio.dictation.start] dictationId is required".to_owned());
    }
    let session = manager.session.take();
    match session {
        None => StartDecision::Proceed { reap: None },
        Some(active) => {
            if active_exited {
                StartDecision::Proceed { reap: Some(active) }
            } else {
                let event = make_error(
                    dictation_id,
                    "invalid_state",
                    "Dictation is already running",
                    ErrorContext::ActiveDictation { active_dictation_id: active.clone() },
                );
                manager.session = Some(active);
                StartDecision::AlreadyRunning(event)
            }
        },
    }
}

/// Decides what a stop request leads to. An empty id, or the id of another
/// session than the active one, fails the call. With no session active the
/// request is ignored. Otherwise the session leaves the slot and the
/// recognizer is asked to stop.
pub fn dictation_stop(manager: &mut DictationManager, dictation_id: &str) -> (d: StopDecision)
    ensures
        (d@, final(manager)@) == stop_of(old(manager)@, dictation_id@),
{
    if blank(dictation_id) {
        return StopDecision::Rejected("[audio.dictation.stop] dictationId is required".to_owned());
    }
    let session = manager.session.take();
    match session {
        None => StopDecision::Ignored,
        Some(active) => {
            if !str_eq(active.as_str(), dictation_id) {
                let message = join3(
                    "[audio.dictation.stop] dictationId does not match active session (active=",
                    active.as_str(),
                    ")",
                );
                manager.session = Some(active);
                StopDecision::Rejected(message)
            } else {
                StopDecision::Stop { command: mic_stop_command() }
            }
        },
    }
}

/// The command that initialises the recognizer.
pub fn init_command() -> (s: String)
    ensures
        s@ == init_command_text(),
{
    "{\"cmd\":\"init\",\"config\":{\"sample_rate\":16000,\"mode\":\"mic\",\"model_key\":\"asr_tdt_v3\"}}".to_owned()
}

/// The command that opens the microphone.
pub fn mic_start_command() -> (s: String)
    ensures
        s@ == mic_start_command_text(),
{
    "{\"cmd\":\"mic_start\",\"device_id\":\"default\"}".to_owned()
}

/// The command that closes the microphone.
pub fn mic_stop_command() -> (s: String)
    ensures
        s@ == mic_stop_command_text(),
{
    "{\"cmd\":\"mic_stop\"}".to_owned()
}

/// What one stage of a start leads to.
#[derive(Debug)]
pub enum StartCheck {
    /// The call fails with this message.
    Rejected(String),
    /// This event is emitted, the call succeeds, and nothing is spawned.
    Report(DictationEvent),
    /// The start goes on.
    Proceed,
}

/// What a `StartCheck` stands for.
pub enum StartCheckView {
    Rejected(Seq<char>),
    Report(DictationEventView),
    Proceed,
}

impl View for StartCheck {
    type V = StartCheckView;

    open spec fn view(&self) -> StartCheckView {
        match self {
            StartCheck::Rejected(m) => StartCheckView::Rejected(m@),
            StartCheck::Report(e) => StartCheckView::Report(e@),
            StartCheck::Proceed => StartCheckView::Proceed,
        }
    }
}

/// The message of a start that failed on an asset error.
pub open spec fn asset_failure(what: Seq<char>, e: AudioModelsErrorView) -> Seq<char> {
    "[audio.dictation.start] Failed to "@ + what + ": "@ + e.message + " ("@ + e.code.wire_name()
        + ")"@
}

/// The event for a start while the models are not ready.
pub open spec fn model_not_ready_event(dictation_id: Seq<char>, status: AudioModelsStatusView) -> DictationEventView {
    error_event(
        dictation_id,
        "model_not_ready"@,
        "Speech models are not ready; download them in Settings \u{2192} Audio"@,
        ErrorContextView::Status { status },
    )
}

/// What the readiness of the models means for a start: a failed query fails
/// the call; anything but `Ready` is reported with the full status and
/// nothing is spawned.
pub open spec fn models_check_of(
    dictation_id: Seq<char>,
    status: Result<AudioModelsStatusView, AudioModelsErrorView>,
) -> StartCheckView {
    match status {
        Err(e) => StartCheckView::Rejected(asset_failure("check audio model status"@, e)),
        Ok(s) => if s is Ready {
            StartCheckView::Proceed
        } else {
            StartCheckView::Report(model_not_ready_event(dictation_id, s))
        },
    }
}

/// The message of a start that failed on an asset error.
fn asset_failure_message(what: &str, e: &AudioModelsError) -> (s: String)
    ensures
        s@ == asset_failure(what@, e@),
{
    let mut s = join3("[audio.dictation.start] Failed to ", what, ": ");
    s.append(e.message.as_str());
    s.append(" (");
    s.append(e.code.as_str());
    s.append(")");
    s
}

/// Decides from the readiness of the models whether a start goes on.
pub fn check_models(dictation_id: &str, status: Result<AudioModelsStatus, AudioModelsError>) -> (c:
    StartCheck)
    ensures
        c@ == models_check_of(dictation_id@, crate::readiness::outcome_view(status)),
{
    match status {
        Err(e) => StartCheck::Rejected(asset_failure_message("check audio model status", &e)),
        Ok(s) => {
            if s.is_ready() {
                StartCheck::Proceed
            } else {
                StartCheck::Report(
                    make_error(
                        dictation_id,
                        "model_not_ready",
                        "Speech models are not ready; download them in Settings \u{2192} Audio",
                        ErrorContext::Status { status: s },
                    ),
                )
            }
        },
    }
}

/// The message of a start that could not resolve the models directory.
pub fn models_dir_failure(e: &AudioModelsError) -> (s: String)
    ensures
        s@ == asset_failure("resolve models dir"@, e@),
{
    asset_failure_message("resolve models dir", e)
}

/// A file name that the recognizer's executable may have.
pub open spec fn is_sidecar_name(name: Seq<char>) -> bool {
    "asr-sidecar"@.is_prefix_of(name)
}

/// `names[i]` is the first name that the recognizer's executable may have.
pub open spec fn is_first_sidecar(names: Seq<Seq<char>>, i: int) -> bool {
    &&& 0 <= i < names.len()
    &&& is_sidecar_name(names[i])
    &&& forall|j: int| 0 <= j < i ==> !is_sidecar_name(#[trigger] names[j])
}

/// Finds the recognizer's executable among the names of the files beside
/// the host's executable: the first whose name begins with `asr-sidecar`.
pub fn find_sidecar(names: &Vec<String>) -> (r: Option<usize>)
    ensures
        r matches Some(i) ==> is_first_sidecar(crate::errors::strings_view(names@), i as int),
        r is None ==> forall|j: int|
            0 <= j < names.len() ==> !is_sidecar_name(
                #[trigger] crate::errors::strings_view(names@)[j],
            ),
{
    let ghost view = crate::errors::strings_view(names@);
    let mut i: usize = 0;
    while i < names.len()
        invariant
            i <= names.len(),
            view == crate::errors::strings_view(names@),
            forall|j: int| 0 <= j < i ==> !is_sidecar_name(#[trigger] view[j]),
        decreases names.len() - i,
    {
        assert(view[i as int] == names@[i as int]@);
        if starts_with(names[i].as_str(), "asr-sidecar") {
            return Some(i);
        }
        i += 1;
    }
    None
}

/// The message of a start that found no recognizer beside the host.
pub fn sidecar_not_found_message(dir: &str) -> (s: String)
    ensures
        s@ == "[audio.dictation] asr-sidecar binary not found in "@ + dir@
            + ". Build it via scripts/build_asr_sidecar.sh"@,
{
    join3(
        "[audio.dictation] asr-sidecar binary not found in ",
        dir,
        ". Build it via scripts/build_asr_sidecar.sh",
    )
}

/// The event for a start whose recognizer is not where it was found.
pub open spec fn sidecar_missing_event(dictation_id: Seq<char>, path: Seq<char>) -> DictationEventView {
    error_event(
        dictation_id,
        "sidecar_not_found"@,
        "asr-sidecar binary not found"@,
        ErrorContextView::ExpectedPath { expected_path: path },
    )
}

/// Decides from the recognizer's path whether a start goes on: where
/// nothing exists at the path, that is reported and nothing is spawned.
pub fn check_sidecar(dictation_id: &str, path: &str, exists: bool) -> (c: StartCheck)
    ensures
        exists ==> c@ == StartCheckView::Proceed,
        !exists ==> c@ == StartCheckView::Report(sidecar_missing_event(dictation_id@, path@)),
{
    if exists {
        StartCheck::Proceed
    } else {
        StartCheck::Report(
            make_error(
                dictation_id,
                "sidecar_not_found",
                "asr-sidecar binary not found",
                ErrorContext::ExpectedPath { expected_path: path.to_owned() },
            ),
        )
    }
}

/// What the reader of the recognizer's output does with a line.
#[derive(Debug)]
pub enum ReaderStep {
    /// Nothing: the line is blank, or a log line.
    Skip,
    /// The event is emitted and reading goes on.
    Forward(DictationEvent),
    /// The event, an error, is emitted and reading ends.
    Stop(DictationEvent),
}

/// What a `ReaderStep` stands for.
pub enum ReaderStepView {
    Skip,
    Forward(DictationEventView),
    Stop(DictationEventView),
}

impl View for ReaderStep {
    type V = ReaderStepView;

    open spec fn view(&self) -> ReaderStepView {
        match self {
            ReaderStep::Skip => ReaderStepView::Skip,
            ReaderStep::Forward(e) => ReaderStepView::Forward(e@),
            ReaderStep::Stop(e) => ReaderStepView::Stop(e@),
        }
    }
}

/// What the reader does with a decoded line. A line that failed to decode
/// ends the session with the failure's code; an error of the recognizer is
/// handed on as it is and ends the session too; a log line is ignored.
pub open spec fn step_of(
    dictation_id: Seq<char>,
    line: Seq<char>,
    decoded: Result<SidecarEventView, crate::events::ParseFailureView>,
) -> ReaderStepView {
    match decoded {
        Err(f) => ReaderStepView::Stop(
            error_event(
                dictation_id,
                f.kind.wire_name(),
                "Failed to parse sidecar stdout line"@,
                ErrorContextView::Parse { error: f.message, line },
            ),
        ),
        Ok(SidecarEventView::Partial { text, unstable }) => ReaderStepView::Forward(
            DictationEventView::Partial { dictation_id, text, unstable },
        ),
        Ok(SidecarEventView::Final { text, start, end }) => ReaderStepView::Forward(
            DictationEventView::Final { dictation_id, text, start, end },
        ),
        Ok(SidecarEventView::AudioLevel { level }) => ReaderStepView::Forward(
            DictationEventView::AudioLevel { dictation_id, level },
        ),
        Ok(SidecarEventView::Error { code, msg, context }) => ReaderStepView::Stop(
            error_event(dictation_id, code, msg, ErrorContextView::Sidecar { context }),
        ),
        Ok(SidecarEventView::Log { msg }) => ReaderStepView::Skip,
    }
}

/// What the reader does with a line as it was read: a line that is blank
/// once trimmed is skipped, any other is decoded.
pub open spec fn line_step_of(
    dictation_id: Seq<char>,
    line: Seq<char>,
    parsed: Result<serde_json::Value, serde_json::Error>,
) -> ReaderStepView {
    let cleaned = trimmed(line);
    if cleaned.len() == 0 {
        ReaderStepView::Skip
    } else {
        step_of(dictation_id, cleaned, decode_of(cleaned, parsed))
    }
}

/// Decides what the reader does with a decoded line.
pub fn step_for(
    dictation_id: &str,
    line: &str,
    decoded: Result<SidecarEvent, crate::events::ParseFailure>,
) -> (step: ReaderStep)
    ensures
        step@ == step_of(dictation_id@, line@, crate::events::decoded_view(decoded)),
{
    match decoded {
        Err(f) => ReaderStep::Stop(
            make_error(
                dictation_id,
                f.kind.as_str(),
                "Failed to parse sidecar stdout line",
                ErrorContext::Parse { error: f.message, line: line.to_owned() },
            ),
        ),
        Ok(SidecarEvent::Partial { text, unstable }) => ReaderStep::Forward(
            DictationEvent::Partial { dictation_id: dictation_id.to_owned(), text, unstable },
        ),
        Ok(SidecarEvent::Final { text, start, end }) => ReaderStep::Forward(
            DictationEvent::Final { dictation_id: dictation_id.to_owned(), text, start, end },
        ),
        Ok(SidecarEvent::AudioLevel { level }) => ReaderStep::Forward(
            DictationEvent::AudioLevel { dictation_id: dictation_id.to_owned(), level },
        ),
        Ok(SidecarEvent::Error { code, msg, context }) => ReaderStep::Stop(
            make_error(
                dictation_id,
                code.as_str(),
                msg.as_str(),
                ErrorContext::Sidecar { context },
            ),
        ),
        Ok(SidecarEvent::Log { msg }) => ReaderStep::Skip,
    }
}

/// Decides what the reader does with a line of the recognizer's output, and
/// notes the error where the line ends the session.
pub fn on_stdout_line(flags: &mut SessionFlags, dictation_id: &str, line: &str) -> (step:
    ReaderStep)
    ensures
        step@ == line_step_of(dictation_id@, line@, json_parse(trimmed(line@))),
        final(flags)@ == (SessionFlagsView {
            had_error: old(flags)@.had_error || step@ is Stop,
            ..old(flags)@
        }),
{
    let cleaned = trim(line);
    if cleaned.as_str().unicode_len() == 0 {
        return ReaderStep::Skip;
    }
    let decoded = parse_sidecar_event_line(cleaned.as_str());
    let step = step_for(dictation_id, cleaned.as_str(), decoded);
    match &step {
        ReaderStep::Stop(_) => {
            flags.had_error = true;
        },
        _ => {},
    }
    step
}

/// The event for a stream of the recognizer that could not be read or
/// written.
pub open spec fn io_failed_event(dictation_id: Seq<char>, message: Seq<char>, error: Seq<char>) -> DictationEventView {
    error_event(dictation_id, "sidecar_io_failed"@, message, ErrorContextView::Io { error })
}

/// Surfaces that reading the recognizer's output failed, which ends the
/// session.
pub fn on_stdout_read_error(flags: &mut SessionFlags, dictation_id: &str, error: &str) -> (e:
    DictationEvent)
    ensures
        e@ == io_failed_event(dictation_id@, "Failed while reading sidecar stdout"@, error@),
        final(flags)@ == (SessionFlagsView { had_error: true, ..old(flags)@ }),
{
    flags.emit_error(
        dictation_id,
        "sidecar_io_failed",
        "Failed while reading sidecar stdout",
        ErrorContext::Io { error: error.to_owned() },
    )
}

/// Which step of asking the recognizer to stop failed.
#[derive(Clone, Copy, Debug, PartialEq, Eq, Structural)]
pub enum StopStage {
    Write,
    Flush,
}

impl StopStage {
    /// What the failure of this step is called.
    pub open spec fn failure_message(self) -> Seq<char> {
        match self {
            StopStage::Write => "Failed to write mic_stop to sidecar stdin"@,
            StopStage::Flush => "Failed to flush sidecar stdin"@,
        }
    }
}

/// Surfaces that the recognizer could not be asked to stop. The process is
/// then killed and reaped.
pub fn on_stop_io_failed(
    flags: &mut SessionFlags,
    dictation_id: &str,
    stage: StopStage,
    error: &str,
) -> (e: DictationEvent)
    ensures
        e@ == io_failed_event(dictation_id@, stage.failure_message(), error@),
        final(flags)@ == (SessionFlagsView { had_error: true, ..old(flags)@ }),
{
    let message = match stage {
        StopStage::Write => "Failed to write mic_stop to sidecar stdin",
        StopStage::Flush => "Failed to flush sidecar stdin",
    };
    flags.emit_error(
        dictation_id,
        "sidecar_io_failed",
        message,
        ErrorContext::Io { error: error.to_owned() },
    )
}

/// How the recognizer's process ended.
#[derive(Clone, Debug)]
pub struct ExitReport {
    /// It exited successfully.
    pub success: bool,
    /// Its exit code, where it has one.
    pub code: Option<i32>,
    /// What it wrote to its error stream.
    pub stderr: String,
}

/// The exit code to report: `-1` where the process has none.
pub open spec fn reported_code(code: Option<i32>) -> i32 {
    match code {
        Some(c) => c,
        None => -1i32,
    }
}

/// The event for a recognizer that exited unsuccessfully.
pub open spec fn sidecar_failed_event(dictation_id: Seq<char>, code: Option<i32>, stderr: Seq<char>) -> DictationEventView {
    error_event(
        dictation_id,
        "sidecar_failed"@,
        "asr-sidecar exited with non-zero status"@,
        ErrorContextView::Exit { exit_code: reported_code(code), stderr },
    )
}

/// The events that end a stopped session: `sidecar_failed` where the process
/// exited unsuccessfully and no error was surfaced before, then `done`
/// unless it is out already.
pub open spec fn stop_events(
    flags: SessionFlagsView,
    dictation_id: Seq<char>,
    success: bool,
    code: Option<i32>,
    stderr: Seq<char>,
) -> Seq<DictationEventView> {
    (if !success && !flags.had_error {
        seq![sidecar_failed_event(dictation_id, code, stderr)]
    } else {
        seq![]
    }) + (if flags.done_emitted {
        seq![]
    } else {
        seq![DictationEventView::Done { dictation_id }]
    })
}

/// What a list of events stands for.
pub open spec fn events_view(v: Seq<DictationEvent>) -> Seq<DictationEventView> {
    v.map_values(|e: DictationEvent| e@)
}

/// Ends a stopped session once its process has exited and its readers are
/// joined: gives the events to emit, in order.
pub fn finish_stop(flags: &mut SessionFlags, dictation_id: &str, exit: &ExitReport) -> (events:
    Vec<DictationEvent>)
    ensures
        events_view(events@) == stop_events(
            old(flags)@,
            dictation_id@,
            exit.success,
            exit.code,
            exit.stderr@,
        ),
        final(flags)@ == (SessionFlagsView {
            done_emitted: true,
            had_error: old(flags)@.had_error || !exit.success,
        }),
{
    let mut events: Vec<DictationEvent> = Vec::new();
    let ghost first: Seq<DictationEventView> = Seq::empty();
    if !exit.success && !flags.had_error {
        let code: i32 = match exit.code {
            Some(c) => c,
            None => -1i32,
        };
        let event = flags.emit_error(
            dictation_id,
            "sidecar_failed",
            "asr-sidecar exited with non-zero status",
            ErrorContext::Exit { exit_code: code, stderr: exit.stderr.clone() },
        );
        events.push(event);
        assert(events_view(events@) =~= seq![event@]);
    } else {
        assert(events_view(events@) =~= Seq::<DictationEventView>::empty());
    }
    let ghost listed = events@;
    match flags.emit_done_once(dictation_id) {
        Some(done) => {
            events.push(done);
            assert(events_view(events@) =~= events_view(listed) + seq![done@]);
        },
        None => {
            assert(events_view(events@) =~= events_view(listed) + Seq::<DictationEventView>::empty());
        },
    }
    events
}

} // verus!
