//! Errors of the asset subsystem: a machine-readable code, a message for
//! people, and structured context for diagnostics.

use vstd::prelude::*;

verus! {

/// The closed set of codes that an asset error can carry.
#[derive(Clone, Copy, Debug, PartialEq, Eq, Structural)]
pub enum ErrorCode {
    ManifestInvalid,
    ManifestIncomplete,
    PathResolveFailed,
    IoFailed,
    HttpFailed,
    SizeMismatch,
    Sha256Mismatch,
    SettingsInvalid,
    InvalidArgs,
    InvalidState,
}

impl ErrorCode {
    /// The code as it is written on the event channel.
    pub open spec fn wire_name(self) -> Seq<char> {
        match self {
            ErrorCode::ManifestInvalid => "manifest_invalid"@,
            ErrorCode::ManifestIncomplete => "manifest_incomplete"@,
            ErrorCode::PathResolveFailed => "path_resolve_failed"@,
            ErrorCode::IoFailed => "io_failed"@,
            ErrorCode::HttpFailed => "http_failed"@,
            ErrorCode::SizeMismatch => "size_mismatch"@,
            ErrorCode::Sha256Mismatch => "sha256_mismatch"@,
            ErrorCode::SettingsInvalid => "settings_invalid"@,
            ErrorCode::InvalidArgs => "invalid_args"@,
            ErrorCode::InvalidState => "invalid_state"@,
        }
    }

    /// The code as it is written on the event channel.
    pub fn as_str(&self) -> (s: &'static str)
        ensures
            s@ == self.wire_name(),
    {
        match self {
            ErrorCode::ManifestInvalid => "manifest_invalid",
            ErrorCode::ManifestIncomplete => "manifest_incomplete",
            ErrorCode::PathResolveFailed => "path_resolve_failed",
            ErrorCode::IoFailed => "io_failed",
            ErrorCode::HttpFailed => "http_failed",
            ErrorCode::SizeMismatch => "size_mismatch",
            ErrorCode::Sha256Mismatch => "sha256_mismatch",
            ErrorCode::SettingsInvalid => "settings_invalid",
            ErrorCode::InvalidArgs => "invalid_args",
            ErrorCode::InvalidState => "invalid_state",
        }
    }
}

/// One value of an error's context.
#[derive(Clone, Debug)]
pub enum ContextValue {
    Text(String),
    Number(u64),
    List(Vec<String>),
}

/// What a `ContextValue` stands for.
pub enum ContextValueView {
    Text(Seq<char>),
    Number(u64),
    List(Seq<Seq<char>>),
}

/// The character sequences of a list of strings.
pub open spec fn strings_view(v: Seq<String>) -> Seq<Seq<char>> {
    v.map_values(|s: String| s@)
}

/// The character sequences of a list of string slices.
pub open spec fn strs_view(v: Seq<&str>) -> Seq<Seq<char>> {
    v.map_values(|s: &str| s@)
}

impl View for ContextValue {
    type V = ContextValueView;

    open spec fn view(&self) -> ContextValueView {
        match self {
            ContextValue::Text(s) => ContextValueView::Text(s@),
            ContextValue::Number(n) => ContextValueView::Number(*n),
            ContextValue::List(v) => ContextValueView::List(strings_view(v@)),
        }
    }
}

/// One named value of an error's context.
#[derive(Clone, Debug)]
pub struct ContextEntry {
    pub name: String,
    pub value: ContextValue,
}

/// What a `ContextEntry` stands for.
pub struct ContextEntryView {
    pub name: Seq<char>,
    pub value: ContextValueView,
}

impl View for ContextEntry {
    type V = ContextEntryView;

    open spec fn view(&self) -> ContextEntryView {
        ContextEntryView { name: self.name@, value: self.value@ }
    }
}

/// What a list of context entries stands for.
pub open spec fn context_view(v: Seq<ContextEntry>) -> Seq<ContextEntryView> {
    v.map_values(|e: ContextEntry| e@)
}

/// A context entry that holds text.
pub open spec fn text_entry(name: Seq<char>, value: Seq<char>) -> ContextEntryView {
    ContextEntryView { name, value: ContextValueView::Text(value) }
}

/// A context entry that holds a number.
pub open spec fn number_entry(name: Seq<char>, value: u64) -> ContextEntryView {
    ContextEntryView { name, value: ContextValueView::Number(value) }
}

/// A context entry that holds a list of texts.
pub open spec fn list_entry(name: Seq<char>, value: Seq<Seq<char>>) -> ContextEntryView {
    ContextEntryView { name, value: ContextValueView::List(value) }
}

impl ContextEntry {
    /// A context entry that holds text.
    pub fn text(name: &str, value: &str) -> (e: ContextEntry)
        ensures
            e@ == text_entry(name@, value@),
    {
        ContextEntry { name: name.to_owned(), value: ContextValue::Text(value.to_owned()) }
    }

    /// A context entry that holds a number.
    pub fn number(name: &str, value: u64) -> (e: ContextEntry)
        ensures
            e@ == number_entry(name@, value),
    {
        ContextEntry { name: name.to_owned(), value: ContextValue::Number(value) }
    }

    /// A context entry that holds a list of texts.
    pub fn list(name: &str, value: Vec<String>) -> (e: ContextEntry)
        ensures
            e@ == list_entry(name@, strings_view(value@)),
    {
        ContextEntry { name: name.to_owned(), value: ContextValue::List(value) }
    }
}

/// An error of the asset subsystem.
#[derive(Clone, Debug)]
pub struct AudioModelsError {
    pub code: ErrorCode,
    pub message: String,
    pub context: Vec<ContextEntry>,
}

/// What an `AudioModelsError` stands for.
pub struct AudioModelsErrorView {
    pub code: ErrorCode,
    pub message: Seq<char>,
    pub context: Seq<ContextEntryView>,
}

impl View for AudioModelsError {
    type V = AudioModelsErrorView;

    open spec fn view(&self) -> AudioModelsErrorView {
        AudioModelsErrorView {
            code: self.code,
            message: self.message@,
            context: context_view(self.context@),
        }
    }
}

impl AudioModelsError {
    /// An error without context.
    pub fn bare(code: ErrorCode, message: &str) -> (e: AudioModelsError)
        ensures
            e@ == (AudioModelsErrorView { code, message: message@, context: seq![] }),
    {
        let e = AudioModelsError { code, message: message.to_owned(), context: Vec::new() };
        assert(context_view(e.context@) =~= seq![]);
        e
    }

    /// An error with one context entry.
    pub fn with1(code: ErrorCode, message: &str, a: ContextEntry) -> (e: AudioModelsError)
        ensures
            e@ == (AudioModelsErrorView { code, message: message@, context: seq![a@] }),
    {
        let mut context: Vec<ContextEntry> = Vec::new();
        context.push(a);
        assert(context_view(context@) =~= seq![a@]);
        AudioModelsError { code, message: message.to_owned(), context }
    }

    /// An error with two context entries.
    pub fn with2(code: ErrorCode, message: &str, a: ContextEntry, b: ContextEntry) -> (e:
        AudioModelsError)
        ensures
            e@ == (AudioModelsErrorView { code, message: message@, context: seq![a@, b@] }),
    {
        let mut context: Vec<ContextEntry> = Vec::new();
        context.push(a);
        context.push(b);
        assert(context_view(context@) =~= seq![a@, b@]);
        AudioModelsError { code, message: message.to_owned(), context }
    }

    /// An error with three context entries.
    pub fn with3(
        code: ErrorCode,
        message: &str,
        a: ContextEntry,
        b: ContextEntry,
        c: ContextEntry,
    ) -> (e: AudioModelsError)
        ensures
            e@ == (AudioModelsErrorView { code, message: message@, context: seq![a@, b@, c@] }),
    {
        let mut context: Vec<ContextEntry> = Vec::new();
        context.push(a);
        context.push(b);
        context.push(c);
        assert(context_view(context@) =~= seq![a@, b@, c@]);
        AudioModelsError { code, message: message.to_owned(), context }
    }

    /// An error with four context entries.
    pub fn with4(
        code: ErrorCode,
        message: &str,
        a: ContextEntry,
        b: ContextEntry,
        c: ContextEntry,
        d: ContextEntry,
    ) -> (e: AudioModelsError)
        ensures
            e@ == (AudioModelsErrorView {
                code,
                message: message@,
                context: seq![a@, b@, c@, d@],
            }),
    {
        let mut context: Vec<ContextEntry> = Vec::new();
        context.push(a);
        context.push(b);
        context.push(c);
        context.push(d);
        assert(context_view(context@) =~= seq![a@, b@, c@, d@]);
        AudioModelsError { code, message: message.to_owned(), context }
    }
}

} // verus!
