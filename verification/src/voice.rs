//! Addresses of the transcription server's endpoints, and the silent audio
//! that warms the server up.

use crate::errors::strings_view;
use crate::events::text_member;
use crate::json::{
    json_items, json_member, json_text, value_items, value_member, value_text,
};
use crate::text::{
    ascii_lowercase, ascii_lowered, chars_of, contains, ends_with, has_substring, join2,
    lemma_lex_total, lex_less, lex_lt, str_eq, string_of, strip_trailing, trim, trimmed,
    without_trailing,
};
use vstd::prelude::*;

verus! {

/// A base address without the white space around it and without the
/// slashes at its end.
pub open spec fn normalized(base_url: Seq<char>) -> Seq<char> {
    without_trailing(trimmed(base_url), '/')
}

/// A base address that names a version of the interface already: it ends
/// with `/v1` or holds `/v1/`.
pub open spec fn names_version(base: Seq<char>) -> bool {
    "/v1"@.is_suffix_of(base) || has_substring(base, "/v1/"@)
}

/// The address of an endpoint below a base address: `/v1` is put before the
/// endpoint unless the base names the version already. An empty base has no
/// endpoints.
pub open spec fn endpoint_of(base_url: Seq<char>, endpoint: Seq<char>) -> Option<Seq<char>> {
    let base = normalized(base_url);
    if base.len() == 0 {
        None
    } else if names_version(base) {
        Some(base + endpoint)
    } else {
        Some(base + "/v1"@ + endpoint)
    }
}

/// A base address without the white space around it and without the
/// slashes at its end.
pub fn normalize_base_url(base_url: &str) -> (s: String)
    ensures
        s@ == normalized(base_url@),
{
    let t = trim(base_url);
    strip_trailing(t.as_str(), '/')
}

/// The address of an endpoint below a base address.
fn endpoint(base_url: &str, path: &str) -> (r: Option<String>)
    ensures
        crate::events::text_option_view(r) == endpoint_of(base_url@, path@),
{
    let base = normalize_base_url(base_url);
    if base.as_str().unicode_len() == 0 {
        return None;
    }
    if ends_with(base.as_str(), "/v1") || contains(base.as_str(), "/v1/") {
        Some(join2(base.as_str(), path))
    } else {
        let versioned = join2(base.as_str(), "/v1");
        Some(join2(versioned.as_str(), path))
    }
}

/// What the outcome of building an address stands for.
pub open spec fn address_view(r: Result<String, String>) -> Result<Seq<char>, Seq<char>> {
    match r {
        Ok(s) => Ok(s@),
        Err(e) => Err(e@),
    }
}

/// The address to send audio to for transcription.
pub fn build_transcription_url(base_url: &str) -> (r: Result<String, String>)
    ensures
        address_view(r) == match endpoint_of(base_url@, "/audio/transcriptions"@) {
            Some(url) => Ok::<Seq<char>, Seq<char>>(url),
            None => Err("[voice] baseUrl is empty"@),
        },
{
    match endpoint(base_url, "/audio/transcriptions") {
        Some(url) => Ok(url),
        None => Err("[voice] baseUrl is empty".to_owned()),
    }
}

/// The address that lists the server's models.
pub fn build_models_url(base_url: &str) -> (r: Result<String, String>)
    ensures
        address_view(r) == match endpoint_of(base_url@, "/models"@) {
            Some(url) => Ok::<Seq<char>, Seq<char>>(url),
            None => Err("[voice.models] baseUrl is empty"@),
        },
{
    match endpoint(base_url, "/models") {
        Some(url) => Ok(url),
        None => Err("[voice.models] baseUrl is empty".to_owned()),
    }
}

/// The longest duration of silence, in milliseconds, whose sample count
/// still fits the arithmetic of 32 bits.
pub open spec fn max_silence_ms() -> u32 {
    268_435
}

/// The four bytes of `n`, the lowest first.
pub open spec fn le_bytes(n: u32) -> Seq<u8> {
    seq![
        (n % 256) as u8,
        ((n / 256) % 256) as u8,
        ((n / 65536) % 256) as u8,
        ((n / 16777216) % 256) as u8,
    ]
}

/// The header of a PCM file of one channel, 16 bits a sample and 16000
/// samples a second, that holds `data_len` bytes of samples.
pub open spec fn wav_header(data_len: u32) -> Seq<u8> {
    seq![0x52u8, 0x49, 0x46, 0x46] + le_bytes((36 + data_len) as u32) + seq![
        0x57u8,
        0x41,
        0x56,
        0x45,
        0x66,
        0x6D,
        0x74,
        0x20,
    ] + le_bytes(16) + seq![1u8, 0, 1, 0] + le_bytes(16000) + le_bytes(32000) + seq![
        2u8,
        0,
        16,
        0,
        0x64,
        0x61,
        0x74,
        0x61,
    ] + le_bytes(data_len)
}

/// Silence of the given duration as a PCM file: the header, then two zero
/// bytes for each of the `16 * duration_ms` samples.
pub open spec fn silence_wav(duration_ms: u32) -> Seq<u8> {
    wav_header((32 * duration_ms) as u32) + Seq::new((32 * duration_ms) as nat, |i: int| 0u8)
}

/// Appends the four bytes of `n`, the lowest first.
fn push_le(out: &mut Vec<u8>, n: u32)
    ensures
        final(out)@ == old(out)@ + le_bytes(n),
{
    out.push((n % 256) as u8);
    out.push(((n / 256) % 256) as u8);
    out.push(((n / 65536) % 256) as u8);
    out.push(((n / 16777216) % 256) as u8);
    assert(out@ =~= old(out)@ + le_bytes(n));
}

/// Appends the bytes of `tag`.
fn push_tag(out: &mut Vec<u8>, a: u8, b: u8, c: u8, d: u8)
    ensures
        final(out)@ == old(out)@ + seq![a, b, c, d],
{
    out.push(a);
    out.push(b);
    out.push(c);
    out.push(d);
    assert(out@ =~= old(out)@ + seq![a, b, c, d]);
}

/// Silence of the given duration as a PCM file of one channel, 16 bits a
/// sample, 16000 samples a second.
pub fn build_silence_wav_16k_mono(duration_ms: u32) -> (out: Vec<u8>)
    requires
        duration_ms <= max_silence_ms(),
    ensures
        out@ == silence_wav(duration_ms),
        out@.len() == 44 + 32 * duration_ms,
{
    let data_len: u32 = 32 * duration_ms;
    let mut out: Vec<u8> = Vec::new();
    push_tag(&mut out, 0x52, 0x49, 0x46, 0x46);
    push_le(&mut out, 36 + data_len);
    push_tag(&mut out, 0x57, 0x41, 0x56, 0x45);
    push_tag(&mut out, 0x66, 0x6D, 0x74, 0x20);
    push_le(&mut out, 16);
    push_tag(&mut out, 1, 0, 1, 0);
    push_le(&mut out, 16000);
    push_le(&mut out, 32000);
    push_tag(&mut out, 2, 0, 16, 0);
    push_tag(&mut out, 0x64, 0x61, 0x74, 0x61);
    push_le(&mut out, data_len);
    assert(out@ =~= wav_header(data_len));
    let ghost header = out@;
    let mut i: u32 = 0;
    while i < data_len
        invariant
            i <= data_len,
            out@ == header + Seq::new(i as nat, |k: int| 0u8),
        decreases data_len - i,
    {
        out.push(0u8);
        assert(out@ =~= header + Seq::new((i + 1) as nat, |k: int| 0u8));
        i += 1;
    }
    out
}

/// Silence of the given duration, where the duration is within what the
/// arithmetic holds; nothing otherwise.
pub fn silence_wav_16k_mono(duration_ms: u32) -> (r: Option<Vec<u8>>)
    ensures
        duration_ms <= max_silence_ms() ==> (r matches Some(out) && out@ == silence_wav(
            duration_ms,
        )),
        duration_ms > max_silence_ms() ==> r is None,
{
    if duration_ms <= 268_435 {
        Some(build_silence_wav_16k_mono(duration_ms))
    } else {
        None
    }
}

/// The file extension for audio of a media type: by the name of a format
/// that the type holds, without regard to the case of ASCII letters.
pub open spec fn extension_of(mime: Seq<char>) -> Seq<char> {
    let m = ascii_lowered(mime);
    if has_substring(m, "webm"@) {
        "webm"@
    } else if has_substring(m, "ogg"@) {
        "ogg"@
    } else if has_substring(m, "wav"@) {
        "wav"@
    } else if has_substring(m, "mp4"@) || has_substring(m, "m4a"@) {
        "m4a"@
    } else {
        "bin"@
    }
}

/// Guesses the file extension for audio of a media type.
pub fn guess_extension_from_mime(mime: &str) -> (r: &'static str)
    ensures
        r@ == extension_of(mime@),
{
    let m = ascii_lowercase(mime);
    if contains(m.as_str(), "webm") {
        "webm"
    } else if contains(m.as_str(), "ogg") {
        "ogg"
    } else if contains(m.as_str(), "wav") {
        "wav"
    } else if contains(m.as_str(), "mp4") || contains(m.as_str(), "m4a") {
        "m4a"
    } else {
        "bin"
    }
}

/// The model that transcribes where a request names none.
pub open spec fn default_model() -> Seq<char> {
    "deepdml/faster-whisper-large-v3-turbo-ct2"@
}

/// The model that a request is sent with: the one it names, trimmed, or the
/// default where it names none.
pub fn model_name(model: &str) -> (r: String)
    ensures
        r@ == if trimmed(model@).len() == 0 {
            default_model()
        } else {
            trimmed(model@)
        },
{
    let t = trim(model);
    if t.as_str().unicode_len() == 0 {
        "deepdml/faster-whisper-large-v3-turbo-ct2".to_owned()
    } else {
        t
    }
}

/// Which warm-ups of the server are under way or done, so that the same
/// warm-up is not asked for again and again.
#[derive(Debug)]
pub struct WarmupState {
    in_flight: bool,
    last_success: Option<(String, String)>,
}

/// What a `WarmupState` stands for.
pub struct WarmupStateView {
    /// A warm-up is under way.
    pub in_flight: bool,
    /// The server and model of the last warm-up that succeeded.
    pub last_success: Option<(Seq<char>, Seq<char>)>,
}

impl View for WarmupState {
    type V = WarmupStateView;

    closed spec fn view(&self) -> WarmupStateView {
        WarmupStateView {
            in_flight: self.in_flight,
            last_success: match self.last_success {
                Some(key) => Some((key.0@, key.1@)),
                None => None,
            },
        }
    }
}

/// Whether a warm-up of this server and model may start: both are named,
/// none is under way, and the last success was for another pair.
pub open spec fn may_warm_up(state: WarmupStateView, base_url: Seq<char>, model: Seq<char>) -> bool {
    &&& trimmed(base_url).len() > 0
    &&& trimmed(model).len() > 0
    &&& !state.in_flight
    &&& state.last_success != Some((trimmed(base_url), trimmed(model)))
}

impl WarmupState {
    /// No warm-up under way, none done.
    pub fn new() -> (state: WarmupState)
        ensures
            state@ == (WarmupStateView { in_flight: false, last_success: None }),
    {
        WarmupState { in_flight: false, last_success: None }
    }

    /// Starts a warm-up if one may start, and says whether it did.
    pub fn try_start_warmup(&mut self, base_url: &str, model: &str) -> (started: bool)
        ensures
            started == may_warm_up(old(self)@, base_url@, model@),
            final(self)@ == (WarmupStateView {
                in_flight: old(self)@.in_flight || started,
                ..old(self)@
            }),
    {
        let base = trim(base_url);
        let name = trim(model);
        if base.as_str().unicode_len() == 0 || name.as_str().unicode_len() == 0 {
            return false;
        }
        if self.in_flight {
            return false;
        }
        let same = match &self.last_success {
            Some(key) => str_eq(key.0.as_str(), base.as_str()) && str_eq(
                key.1.as_str(),
                name.as_str(),
            ),
            None => false,
        };
        if same {
            return false;
        }
        self.in_flight = true;
        true
    }

    /// Notes that the warm-up under way has ended.
    pub fn finish_warmup(&mut self)
        ensures
            final(self)@ == (WarmupStateView { in_flight: false, ..old(self)@ }),
    {
        self.in_flight = false;
    }

    /// Notes that a warm-up of this server and model succeeded. A pair with
    /// a blank name is not noted.
    pub fn mark_warmup_success(&mut self, base_url: &str, model: &str)
        ensures
            final(self)@ == if trimmed(base_url@).len() == 0 || trimmed(model@).len() == 0 {
                old(self)@
            } else {
                WarmupStateView {
                    last_success: Some((trimmed(base_url@), trimmed(model@))),
                    ..old(self)@
                }
            },
    {
        let base = trim(base_url);
        let name = trim(model);
        if base.as_str().unicode_len() == 0 || name.as_str().unicode_len() == 0 {
            return ;
        }
        self.last_success = Some((base, name));
    }
}

/// `s` without every `/v1` at its end.
pub open spec fn without_version(s: Seq<char>) -> Seq<char>
    decreases s.len(),
{
    if "/v1"@.is_suffix_of(s) && "/v1"@.len() == 3 {
        without_version(s.take(s.len() - 3))
    } else {
        s
    }
}

/// `s` without every `/v1` at its end.
fn strip_version(s: &str) -> (r: String)
    ensures
        r@ == without_version(s@),
{
    let v = chars_of(s);
    let mut end: usize = v.len();
    proof {
        reveal_strlit("/v1");
        assert(v@.take(end as int) =~= v@);
    }
    while end >= 3 && v[end - 3] == '/' && v[end - 2] == 'v' && v[end - 1] == '1'
        invariant
            end <= v.len(),
            "/v1"@.len() == 3,
            "/v1"@[0] == '/',
            "/v1"@[1] == 'v',
            "/v1"@[2] == '1',
            without_version(v@) == without_version(v@.take(end as int)),
        decreases end,
    {
        proof {
            let cur = v@.take(end as int);
            assert(cur.subrange(cur.len() - 3, cur.len() as int) =~= "/v1"@);
            assert(cur.take(cur.len() - 3) =~= v@.take(end - 3));
        }
        end -= 3;
    }
    proof {
        let cur = v@.take(end as int);
        if "/v1"@.is_suffix_of(cur) {
            let tail = cur.subrange(cur.len() - 3, cur.len() as int);
            assert(tail[0] == cur[cur.len() - 3]);
            assert(tail[1] == cur[cur.len() - 2]);
            assert(tail[2] == cur[cur.len() - 1]);
        }
        assert(cur =~= v@.subrange(0, end as int));
    }
    string_of(&v, 0, end)
}

/// The addresses at which a server may answer a health check, before they
/// are put in order: the health and model endpoints below the base, and,
/// for a base that ends with `/v1`, those below the base without it.
pub open spec fn health_candidates(base: Seq<char>) -> Seq<Seq<char>> {
    if base.len() == 0 {
        seq![]
    } else if "/v1"@.is_suffix_of(base) {
        seq![
            base + "/health"@,
            base + "/v1/health"@,
            base + "/v1/models"@,
            without_version(base) + "/health"@,
            without_version(base) + "/v1/models"@,
        ]
    } else {
        seq![base + "/health"@, base + "/v1/health"@, base + "/v1/models"@]
    }
}

/// The texts stand in ascending order, none twice.
pub open spec fn strictly_ascending(items: Seq<Seq<char>>) -> bool {
    forall|i: int| 0 <= i < items.len() - 1 ==> lex_less(#[trigger] items[i], items[i + 1])
}

/// Puts a text into a list in ascending order, unless the list holds it.
fn insert_ascending(out: &mut Vec<String>, s: String)
    requires
        strictly_ascending(strings_view(old(out)@)),
    ensures
        strictly_ascending(strings_view(final(out)@)),
        forall|x: Seq<char>|
            strings_view(final(out)@).contains(x) <==> (strings_view(old(out)@).contains(x) || x
                == s@),
{
    let ghost before = strings_view(out@);
    let mut i: usize = 0;
    while i < out.len() && lex_lt(out[i].as_str(), s.as_str())
        invariant
            i <= out.len(),
            before == strings_view(out@),
            forall|j: int| 0 <= j < i ==> lex_less(#[trigger] before[j], s@),
        decreases out.len() - i,
    {
        assert(before[i as int] == out@[i as int]@);
        i += 1;
    }
    if i < out.len() {
        assert(before[i as int] == out@[i as int]@);
        if str_eq(out[i].as_str(), s.as_str()) {
            assert(before.contains(s@));
            return ;
        }
    }
    out.insert(i, s);
    proof {
        let after = strings_view(out@);
        assert(after =~= before.insert(i as int, s@));
        if i < before.len() {
            lemma_lex_total(before[i as int], s@);
        }
        assert forall|k: int| 0 <= k < after.len() - 1 implies lex_less(
            #[trigger] after[k],
            after[k + 1],
        ) by {
            if k + 1 < i {
                assert(after[k] == before[k]);
                assert(after[k + 1] == before[k + 1]);
            } else if k + 1 == i {
                assert(after[k] == before[k]);
            } else if k == i {
                assert(after[k + 1] == before[k]);
            } else {
                assert(after[k] == before[k - 1]);
                assert(after[k + 1] == before[k]);
            }
        }
        assert forall|x: Seq<char>| after.contains(x) <==> (before.contains(x) || x == s@) by {
            if after.contains(x) {
                let k = choose|k: int| 0 <= k < after.len() && after[k] == x;
                if k < i {
                    assert(before[k] == x);
                } else if k > i {
                    assert(before[k - 1] == x);
                }
            }
            if before.contains(x) {
                let k = choose|k: int| 0 <= k < before.len() && before[k] == x;
                if k < i {
                    assert(after[k] == x);
                } else {
                    assert(after[k + 1] == x);
                }
            }
            if x == s@ {
                assert(after[i as int] == x);
            }
        }
    }
}

/// The addresses at which a server may answer a health check: in ascending
/// order, each once.
pub fn build_healthcheck_urls(base_url: &str) -> (urls: Vec<String>)
    ensures
        strictly_ascending(strings_view(urls@)),
        forall|x: Seq<char>|
            strings_view(urls@).contains(x) <==> health_candidates(normalized(base_url@)).contains(
                x,
            ),
{
    let base = normalize_base_url(base_url);
    let ghost candidates = health_candidates(base@);
    let mut urls: Vec<String> = Vec::new();
    assert(strings_view(urls@) =~= Seq::<Seq<char>>::empty());
    if base.as_str().unicode_len() == 0 {
        return urls;
    }
    let a = join2(base.as_str(), "/health");
    let b = join2(base.as_str(), "/v1/health");
    let c = join2(base.as_str(), "/v1/models");
    assert(candidates[0] == a@ && candidates[1] == b@ && candidates[2] == c@);
    insert_ascending(&mut urls, a);
    insert_ascending(&mut urls, b);
    insert_ascending(&mut urls, c);
    if ends_with(base.as_str(), "/v1") {
        let root = strip_version(base.as_str());
        let d = join2(root.as_str(), "/health");
        let e = join2(root.as_str(), "/v1/models");
        assert(candidates[3] == d@ && candidates[4] == e@);
        insert_ascending(&mut urls, d);
        insert_ascending(&mut urls, e);
        assert forall|x: Seq<char>| strings_view(urls@).contains(x) <==> candidates.contains(
            x,
        ) by {
            if candidates.contains(x) {
                let k = choose|k: int| 0 <= k < candidates.len() && candidates[k] == x;
                assert(k == 0 || k == 1 || k == 2 || k == 3 || k == 4);
            }
        }
    } else {
        assert forall|x: Seq<char>| strings_view(urls@).contains(x) <==> candidates.contains(
            x,
        ) by {
            if candidates.contains(x) {
                let k = choose|k: int| 0 <= k < candidates.len() && candidates[k] == x;
                assert(k == 0 || k == 1 || k == 2);
            }
        }
    }
    urls
}

/// The array under a key of an object; none where the member is missing or
/// no array.
pub open spec fn items_member(v: serde_json::Value, key: Seq<char>) -> Option<
    Seq<serde_json::Value>,
> {
    match json_member(v, key) {
        Some(member) => json_items(member),
        None => None,
    }
}

/// The entries of a server's list of models: the answer itself where it is
/// an array, else its member `data`, else its member `models`.
pub open spec fn model_entries(v: serde_json::Value) -> Seq<serde_json::Value> {
    match json_items(v) {
        Some(items) => items,
        None => match items_member(v, "data"@) {
            Some(items) => items,
            None => match items_member(v, "models"@) {
                Some(items) => items,
                None => seq![],
            },
        },
    }
}

/// The name that an entry gives: the entry itself where it is a string,
/// else its member `id`, else its member `name`.
pub open spec fn entry_name(item: serde_json::Value) -> Option<Seq<char>> {
    match json_text(item) {
        Some(name) => Some(name),
        None => match text_member(item, "id"@) {
            Some(name) => Some(name),
            None => text_member(item, "name"@),
        },
    }
}

/// The names that the entries give, trimmed: each once, in the order in
/// which it first comes, blank ones left out.
pub open spec fn names_of(items: Seq<serde_json::Value>) -> Seq<Seq<char>>
    decreases items.len(),
{
    if items.len() == 0 {
        seq![]
    } else {
        let before = names_of(items.drop_last());
        match entry_name(items.last()) {
            Some(name) => if trimmed(name).len() > 0 && !before.contains(trimmed(name)) {
                before.push(trimmed(name))
            } else {
                before
            },
            None => before,
        }
    }
}

/// The array under a key of an object.
fn items_at<'a>(v: &'a serde_json::Value, key: &str) -> (r: Option<&'a Vec<serde_json::Value>>)
    ensures
        match r {
            Some(items) => items_member(*v, key@) == Some(items@),
            None => items_member(*v, key@) is None,
        },
{
    match value_member(v, key) {
        Some(member) => value_items(member),
        None => None,
    }
}

/// The string under a key of an object.
fn name_at<'a>(v: &'a serde_json::Value, key: &str) -> (r: Option<&'a str>)
    ensures
        match r {
            Some(s) => text_member(*v, key@) == Some(s@),
            None => text_member(*v, key@) is None,
        },
{
    match value_member(v, key) {
        Some(member) => value_text(member),
        None => None,
    }
}

/// Decides whether the list holds the text.
fn holds(list: &Vec<String>, s: &str) -> (r: bool)
    ensures
        r == strings_view(list@).contains(s@),
{
    let mut i: usize = 0;
    while i < list.len()
        invariant
            i <= list.len(),
            forall|j: int| 0 <= j < i ==> strings_view(list@)[j] != s@,
        decreases list.len() - i,
    {
        if str_eq(list[i].as_str(), s) {
            assert(strings_view(list@)[i as int] == s@);
            return true;
        }
        i += 1;
    }
    false
}

/// The names of the models in a server's answer.
pub fn extract_models(value: &serde_json::Value) -> (out: Vec<String>)
    ensures
        strings_view(out@) == names_of(model_entries(*value)),
{
    let mut out: Vec<String> = Vec::new();
    assert(strings_view(out@) =~= Seq::<Seq<char>>::empty());
    let items = match value_items(value) {
        Some(items) => items,
        None => match items_at(value, "data") {
            Some(items) => items,
            None => match items_at(value, "models") {
                Some(items) => items,
                None => {
                    return out;
                },
            },
        },
    };
    let mut i: usize = 0;
    assert(items@.take(0) =~= Seq::<serde_json::Value>::empty());
    while i < items.len()
        invariant
            i <= items.len(),
            strings_view(out@) == names_of(items@.take(i as int)),
        decreases items.len() - i,
    {
        let item = &items[i];
        proof {
            let next = items@.take(i + 1);
            assert(next.drop_last() =~= items@.take(i as int));
            assert(next.last() == *item);
        }
        let name = match value_text(item) {
            Some(name) => Some(name),
            None => match name_at(item, "id") {
                Some(name) => Some(name),
                None => name_at(item, "name"),
            },
        };
        match name {
            Some(name) => {
                let t = trim(name);
                if t.as_str().unicode_len() > 0 && !holds(&out, t.as_str()) {
                    let ghost before = out@;
                    out.push(t);
                    assert(strings_view(out@) =~= strings_view(before).push(t@));
                }
            },
            None => {},
        }
        i += 1;
    }
    assert(items@.take(i as int) =~= items@);
    out
}

} // verus!
