//! The recognizer's wire protocol: one JSON object per line, told apart by
//! its member `t`.

use crate::json::{
    error_text, json_error_text, json_is_object, json_member, json_number, json_parse, json_text,
    parse_json, value_clone, value_is_object, value_member, value_number, value_text,
};
use crate::text::{join2, join3, str_eq};
use vstd::prelude::*;

verus! {

/// A JSON number, held as the bits of its IEEE 754 double-precision value.
#[derive(Clone, Copy, Debug, PartialEq, Eq, Structural)]
pub struct Number {
    pub bits: u64,
}

/// One line of the recognizer, decoded.
#[derive(Debug)]
pub enum SidecarEvent {
    /// Text that may still change, with its unstable tail where given.
    Partial { text: String, unstable: Option<String> },
    /// Text that is settled, with its time span where given.
    Final { text: String, start: Option<Number>, end: Option<Number> },
    /// The input level.
    AudioLevel { level: Number },
    /// The recognizer failed. `context` is absent where the line gave none.
    Error { code: String, msg: String, context: Option<serde_json::Value> },
    /// A log line, which is deliberately ignored.
    Log { msg: String },
}

/// What a `SidecarEvent` stands for.
pub enum SidecarEventView {
    Partial { text: Seq<char>, unstable: Option<Seq<char>> },
    Final { text: Seq<char>, start: Option<Number>, end: Option<Number> },
    AudioLevel { level: Number },
    Error { code: Seq<char>, msg: Seq<char>, context: Option<serde_json::Value> },
    Log { msg: Seq<char> },
}

/// What an optional string stands for.
pub open spec fn text_option_view(s: Option<String>) -> Option<Seq<char>> {
    match s {
        Some(s) => Some(s@),
        None => None,
    }
}

impl View for SidecarEvent {
    type V = SidecarEventView;

    open spec fn view(&self) -> SidecarEventView {
        match self {
            SidecarEvent::Partial { text, unstable } => SidecarEventView::Partial {
                text: text@,
                unstable: text_option_view(*unstable),
            },
            SidecarEvent::Final { text, start, end } => SidecarEventView::Final {
                text: text@,
                start: *start,
                end: *end,
            },
            SidecarEvent::AudioLevel { level } => SidecarEventView::AudioLevel { level: *level },
            SidecarEvent::Error { code, msg, context } => SidecarEventView::Error {
                code: code@,
                msg: msg@,
                context: *context,
            },
            SidecarEvent::Log { msg } => SidecarEventView::Log { msg: msg@ },
        }
    }
}

/// Why a line could not be decoded.
#[derive(Clone, Copy, Debug, PartialEq, Eq, Structural)]
pub enum ParseFailureKind {
    /// The line is no JSON: the transport is corrupt.
    InvalidJson,
    /// The line is JSON but not of the protocol.
    InvalidSchema,
}

impl ParseFailureKind {
    /// The error code of the failure on the event channel.
    pub open spec fn wire_name(self) -> Seq<char> {
        match self {
            ParseFailureKind::InvalidJson => "sidecar_invalid_json"@,
            ParseFailureKind::InvalidSchema => "sidecar_invalid_schema"@,
        }
    }

    /// The error code of the failure on the event channel.
    pub fn as_str(&self) -> (s: &'static str)
        ensures
            s@ == self.wire_name(),
    {
        match self {
            ParseFailureKind::InvalidJson => "sidecar_invalid_json",
            ParseFailureKind::InvalidSchema => "sidecar_invalid_schema",
        }
    }
}

/// A line that could not be decoded.
#[derive(Clone, Debug)]
pub struct ParseFailure {
    pub kind: ParseFailureKind,
    pub message: String,
}

/// What a `ParseFailure` stands for.
pub struct ParseFailureView {
    pub kind: ParseFailureKind,
    pub message: Seq<char>,
}

impl View for ParseFailure {
    type V = ParseFailureView;

    open spec fn view(&self) -> ParseFailureView {
        ParseFailureView { kind: self.kind, message: self.message@ }
    }
}

/// The failure for a line that is no JSON.
pub open spec fn json_failure(error: Seq<char>, line: Seq<char>) -> ParseFailureView {
    ParseFailureView {
        kind: ParseFailureKind::InvalidJson,
        message: "[audio.dictation] sidecar_invalid_json: "@ + error + "; line="@ + line,
    }
}

/// The failure for a line that is not of the protocol.
pub open spec fn schema_failure(detail: Seq<char>, line: Seq<char>) -> ParseFailureView {
    ParseFailureView {
        kind: ParseFailureKind::InvalidSchema,
        message: "[audio.dictation] sidecar_invalid_schema: "@ + detail + "; line="@ + line,
    }
}

/// The string under a key of an object; none where the member is missing or
/// no string.
pub open spec fn text_member(v: serde_json::Value, key: Seq<char>) -> Option<Seq<char>> {
    match json_member(v, key) {
        Some(member) => json_text(member),
        None => None,
    }
}

/// The number under a key of an object; none where the member is missing or
/// no number.
pub open spec fn number_member(v: serde_json::Value, key: Seq<char>) -> Option<Number> {
    match json_member(v, key) {
        Some(member) => match json_number(member) {
            Some(bits) => Some(Number { bits }),
            None => None,
        },
        None => None,
    }
}

/// The event that an object with the discriminant `t` stands for.
pub open spec fn event_of(v: serde_json::Value, t: Seq<char>, line: Seq<char>) -> Result<
    SidecarEventView,
    ParseFailureView,
> {
    if t == "partial"@ {
        match text_member(v, "text"@) {
            Some(text) => Ok(
                SidecarEventView::Partial { text, unstable: text_member(v, "unstable"@) },
            ),
            None => Err(schema_failure("partial missing text"@, line)),
        }
    } else if t == "final"@ {
        match text_member(v, "text"@) {
            Some(text) => Ok(
                SidecarEventView::Final {
                    text,
                    start: number_member(v, "start"@),
                    end: number_member(v, "end"@),
                },
            ),
            None => Err(schema_failure("final missing text"@, line)),
        }
    } else if t == "audio_level"@ {
        match number_member(v, "level"@) {
            Some(level) => Ok(SidecarEventView::AudioLevel { level }),
            None => Err(schema_failure("audio_level missing level"@, line)),
        }
    } else if t == "log"@ {
        Ok(
            SidecarEventView::Log {
                msg: match text_member(v, "msg"@) {
                    Some(msg) => msg,
                    None => Seq::<char>::empty(),
                },
            },
        )
    } else if t == "error"@ {
        match text_member(v, "code"@) {
            None => Err(schema_failure("error missing code"@, line)),
            Some(code) => match text_member(v, "msg"@) {
                None => Err(schema_failure("error missing msg"@, line)),
                Some(msg) => Ok(
                    SidecarEventView::Error { code, msg, context: json_member(v, "context"@) },
                ),
            },
        }
    } else {
        Err(schema_failure("unknown t value: "@ + t, line))
    }
}

/// What a line decodes to, given what the JSON parser made of it. A parse
/// error is a failure of the transport. Anything but an object, an object
/// without a string `t`, an unknown `t` and a missing required member are
/// failures of the protocol.
pub open spec fn decode_of(
    line: Seq<char>,
    parsed: Result<serde_json::Value, serde_json::Error>,
) -> Result<SidecarEventView, ParseFailureView> {
    match parsed {
        Err(e) => Err(json_failure(json_error_text(e), line)),
        Ok(v) => if !json_is_object(v) {
            Err(schema_failure("line is not a JSON object"@, line))
        } else {
            match text_member(v, "t"@) {
                None => Err(schema_failure("missing t"@, line)),
                Some(t) => event_of(v, t, line),
            }
        },
    }
}

/// What the outcome of decoding stands for.
pub open spec fn decoded_view(r: Result<SidecarEvent, ParseFailure>) -> Result<
    SidecarEventView,
    ParseFailureView,
> {
    match r {
        Ok(event) => Ok(event@),
        Err(failure) => Err(failure@),
    }
}

/// The string under a key of an object.
fn text_at(v: &serde_json::Value, key: &str) -> (r: Option<String>)
    ensures
        text_option_view(r) == text_member(*v, key@),
{
    match value_member(v, key) {
        Some(member) => match value_text(member) {
            Some(s) => Some(s.to_owned()),
            None => None,
        },
        None => None,
    }
}

/// The number under a key of an object.
fn number_at(v: &serde_json::Value, key: &str) -> (r: Option<Number>)
    ensures
        r == number_member(*v, key@),
{
    match value_member(v, key) {
        Some(member) => match value_number(member) {
            Some(bits) => Some(Number { bits }),
            None => None,
        },
        None => None,
    }
}

/// The failure for a line that is not of the protocol.
fn schema_error(detail: &str, line: &str) -> (r: ParseFailure)
    ensures
        r@ == schema_failure(detail@, line@),
{
    let head = join2("[audio.dictation] sidecar_invalid_schema: ", detail);
    ParseFailure {
        kind: ParseFailureKind::InvalidSchema,
        message: join3(head.as_str(), "; line=", line),
    }
}

/// The event that an object with the discriminant `t` stands for.
fn decode_object(v: &serde_json::Value, t: &str, line: &str) -> (r: Result<
    SidecarEvent,
    ParseFailure,
>)
    ensures
        decoded_view(r) == event_of(*v, t@, line@),
{
    if str_eq(t, "partial") {
        match text_at(v, "text") {
            Some(text) => Ok(SidecarEvent::Partial { text, unstable: text_at(v, "unstable") }),
            None => Err(schema_error("partial missing text", line)),
        }
    } else if str_eq(t, "final") {
        match text_at(v, "text") {
            Some(text) => Ok(
                SidecarEvent::Final {
                    text,
                    start: number_at(v, "start"),
                    end: number_at(v, "end"),
                },
            ),
            None => Err(schema_error("final missing text", line)),
        }
    } else if str_eq(t, "audio_level") {
        match number_at(v, "level") {
            Some(level) => Ok(SidecarEvent::AudioLevel { level }),
            None => Err(schema_error("audio_level missing level", line)),
        }
    } else if str_eq(t, "log") {
        let msg = match text_at(v, "msg") {
            Some(msg) => msg,
            None => String::new(),
        };
        Ok(SidecarEvent::Log { msg })
    } else if str_eq(t, "error") {
        match text_at(v, "code") {
            None => Err(schema_error("error missing code", line)),
            Some(code) => match text_at(v, "msg") {
                None => Err(schema_error("error missing msg", line)),
                Some(msg) => {
                    let context = match value_member(v, "context") {
                        Some(c) => Some(value_clone(c)),
                        None => None,
                    };
                    Ok(SidecarEvent::Error { code, msg, context })
                },
            },
        }
    } else {
        let detail = join2("unknown t value: ", t);
        Err(schema_error(detail.as_str(), line))
    }
}

/// Decodes a line from what the JSON parser made of it.
pub fn decode_event(line: &str, parsed: Result<serde_json::Value, serde_json::Error>) -> (r:
    Result<SidecarEvent, ParseFailure>)
    ensures
        decoded_view(r) == decode_of(line@, parsed),
{
    match parsed {
        Err(e) => {
            let error = error_text(&e);
            let head = join2("[audio.dictation] sidecar_invalid_json: ", error.as_str());
            Err(
                ParseFailure {
                    kind: ParseFailureKind::InvalidJson,
                    message: join3(head.as_str(), "; line=", line),
                },
            )
        },
        Ok(v) => {
            if !value_is_object(&v) {
                return Err(schema_error("line is not a JSON object", line));
            }
            match text_at(&v, "t") {
                None => Err(schema_error("missing t", line)),
                Some(t) => decode_object(&v, t.as_str(), line),
            }
        },
    }
}

/// Decodes one trimmed, non-empty line of the recognizer. Decoding reads
/// nothing but the line.
pub fn parse_sidecar_event_line(line: &str) -> (r: Result<SidecarEvent, ParseFailure>)
    ensures
        decoded_view(r) == decode_of(line@, json_parse(line@)),
{
    decode_event(line, parse_json(line))
}

} // verus!
