//! Readiness of the model assets: the manifest held against what is on
//! disk, and the classification that follows.
//!
//! Nothing here touches the disk. The caller looks at the paths that
//! `probe_targets` lists and hands over what it found as a `DiskSnapshot`.

use crate::errors::{
    list_entry, strings_view, strs_view, text_entry, AudioModelsError, AudioModelsErrorView,
    ContextEntry, ErrorCode,
};
use crate::manifest::{
    model_keys, ModelFile, ModelFileView, ModelManifest, ModelManifestView, ModelSpec,
    ModelSpecView,
};
use crate::paths::{escapes, path_escapes};
use crate::status::{
    statuses_view, AudioModelsStatus, AudioModelsStatusView, ModelInstallStatus,
    ModelInstallStatusView,
};
use crate::text::{blank, decimal, decimal_string, is_blank, join3, str_eq};
use vstd::prelude::*;

verus! {

/// What was found at one path below the models directory.
#[derive(Clone, Debug)]
pub struct FileProbe {
    /// The model's directory, as the manifest names it.
    pub repo_dirname: String,
    /// The file's path within that directory, as the manifest names it.
    pub path: String,
    /// A regular file is there.
    pub is_file: bool,
    /// Its length in bytes.
    pub len: u64,
}

/// What a `FileProbe` stands for.
pub struct FileProbeView {
    pub repo_dirname: Seq<char>,
    pub path: Seq<char>,
    pub is_file: bool,
    pub len: u64,
}

impl View for FileProbe {
    type V = FileProbeView;

    open spec fn view(&self) -> FileProbeView {
        FileProbeView {
            repo_dirname: self.repo_dirname@,
            path: self.path@,
            is_file: self.is_file,
            len: self.len,
        }
    }
}

/// What the caller found on disk. A path that is not listed holds nothing;
/// of two entries for one path the first counts.
#[derive(Clone, Debug)]
pub struct DiskSnapshot {
    pub entries: Vec<FileProbe>,
}

impl View for DiskSnapshot {
    type V = Seq<FileProbeView>;

    open spec fn view(&self) -> Seq<FileProbeView> {
        self.entries@.map_values(|p: FileProbe| p@)
    }
}

/// What the snapshot holds for a path, if anything.
pub open spec fn found(disk: Seq<FileProbeView>, repo_dirname: Seq<char>, path: Seq<char>) -> Option<
    FileProbeView,
>
    decreases disk.len(),
{
    if disk.len() == 0 {
        None
    } else if disk[0].repo_dirname == repo_dirname && disk[0].path == path {
        Some(disk[0])
    } else {
        found(disk.drop_first(), repo_dirname, path)
    }
}

/// A model file is present when a regular file stands at its path and has
/// exactly the declared size. Its content is not looked at.
pub open spec fn is_present(disk: Seq<FileProbeView>, repo_dirname: Seq<char>, file: ModelFileView) -> bool {
    match found(disk, repo_dirname, file.path) {
        Some(probe) => probe.is_file && probe.len == file.size,
        None => false,
    }
}

impl DiskSnapshot {
    /// A snapshot in which every path is empty.
    pub fn new() -> (disk: DiskSnapshot)
        ensures
            disk@ == Seq::<FileProbeView>::empty(),
    {
        let disk = DiskSnapshot { entries: Vec::new() };
        assert(disk@ =~= Seq::<FileProbeView>::empty());
        disk
    }

    /// Records what was found at one path.
    pub fn record(&mut self, probe: FileProbe)
        ensures
            final(self)@ == old(self)@.push(probe@),
    {
        self.entries.push(probe);
        assert(self@ =~= old(self)@.push(probe@));
    }

    /// What the snapshot holds for a path, if anything.
    pub fn lookup(&self, repo_dirname: &str, path: &str) -> (r: Option<&FileProbe>)
        ensures
            match r {
                Some(probe) => found(self@, repo_dirname@, path@) == Some(probe@),
                None => found(self@, repo_dirname@, path@) is None,
            },
    {
        let mut i: usize = 0;
        assert(self@.skip(0) =~= self@);
        while i < self.entries.len()
            invariant
                i <= self.entries.len(),
                found(self@, repo_dirname@, path@) == found(
                    self@.skip(i as int),
                    repo_dirname@,
                    path@,
                ),
            decreases self.entries.len() - i,
        {
            let probe = &self.entries[i];
            proof {
                let rest = self@.skip(i as int);
                assert(rest[0] == probe@);
                assert(rest.drop_first() =~= self@.skip(i + 1));
            }
            if str_eq(probe.repo_dirname.as_str(), repo_dirname) && str_eq(
                probe.path.as_str(),
                path,
            ) {
                return Some(probe);
            }
            i += 1;
        }
        None
    }

    /// Decides whether a model file is present.
    pub fn holds(&self, repo_dirname: &str, file: &ModelFile) -> (r: bool)
        ensures
            r == is_present(self@, repo_dirname@, file@),
    {
        match self.lookup(repo_dirname, file.path.as_str()) {
            Some(probe) => probe.is_file && probe.len == file.size,
            None => false,
        }
    }
}

/// The query names no model.
pub open spec fn err_no_required_models() -> AudioModelsErrorView {
    AudioModelsErrorView {
        code: ErrorCode::SettingsInvalid,
        message: "No required models configured"@,
        context: seq![],
    }
}

/// The manifest has no model of a required key.
pub open spec fn err_unknown_key(key: Seq<char>, available: Seq<Seq<char>>) -> AudioModelsErrorView {
    AudioModelsErrorView {
        code: ErrorCode::ManifestInvalid,
        message: "Required model key does not exist in manifest"@,
        context: seq![text_entry("model_key"@, key), list_entry("available_keys"@, available)],
    }
}

/// A model's directory name is blank.
pub open spec fn err_repo_dirname_required(name: Seq<char>) -> AudioModelsErrorView {
    AudioModelsErrorView {
        code: ErrorCode::InvalidArgs,
        message: "repo_dirname is required"@,
        context: seq![text_entry("repo_dirname"@, name)],
    }
}

/// A model's directory name may lead out of the models directory.
pub open spec fn err_repo_dirname_escapes(name: Seq<char>) -> AudioModelsErrorView {
    AudioModelsErrorView {
        code: ErrorCode::InvalidArgs,
        message: "repo_dirname must be a relative path without '..'"@,
        context: seq![text_entry("repo_dirname"@, name)],
    }
}

/// A file's path may lead out of its model's directory.
pub open spec fn err_bad_path(path: Seq<char>) -> AudioModelsErrorView {
    AudioModelsErrorView {
        code: ErrorCode::ManifestInvalid,
        message: "Manifest contains an invalid relative path"@,
        context: seq![text_entry("path"@, path)],
    }
}

/// Some model of the manifest has this key.
pub open spec fn knows_key(models: Seq<ModelSpecView>, key: Seq<char>) -> bool {
    exists|i: int| 0 <= i < models.len() && (#[trigger] models[i]).key == key
}

/// Every required key has a model.
pub open spec fn all_keys_known(models: Seq<ModelSpecView>, keys: Seq<Seq<char>>) -> bool {
    forall|i: int| 0 <= i < keys.len() ==> knows_key(models, #[trigger] keys[i])
}

/// `keys[i]` is the first required key without a model.
pub open spec fn is_first_unknown(models: Seq<ModelSpecView>, keys: Seq<Seq<char>>, i: int) -> bool {
    &&& 0 <= i < keys.len()
    &&& !knows_key(models, keys[i])
    &&& forall|j: int| 0 <= j < i ==> knows_key(models, #[trigger] keys[j])
}

/// The first required key without a model, where there is one.
pub open spec fn first_unknown_key(models: Seq<ModelSpecView>, keys: Seq<Seq<char>>) -> Seq<char> {
    keys[choose|i: int| is_first_unknown(models, keys, i)]
}

/// The dotted name of a field of the model at position `idx`.
pub open spec fn field_path(idx: nat, field: Seq<char>) -> Seq<char> {
    "models["@ + decimal(idx) + "]."@ + field
}

/// One entry if `lacking`, none otherwise.
pub open spec fn missing_if(lacking: bool, idx: nat, field: Seq<char>) -> Seq<Seq<char>> {
    if lacking {
        seq![field_path(idx, field)]
    } else {
        seq![]
    }
}

/// The fields that the model at position `idx` lacks, in a fixed order.
pub open spec fn missing_of(m: ModelSpecView, idx: nat) -> Seq<Seq<char>> {
    missing_if(is_blank(m.key), idx, "key"@) + missing_if(
        is_blank(m.repo_dirname),
        idx,
        "repo_dirname"@,
    ) + missing_if(is_blank(m.model_id), idx, "model_id"@) + missing_if(
        is_blank(m.source_page_url),
        idx,
        "source_page_url"@,
    ) + missing_if(is_blank(m.macos.revision_sha), idx, "macos.revision_sha"@) + missing_if(
        m.macos.files.len() == 0,
        idx,
        "macos.files"@,
    )
}

/// The fields that the required models lack: model by model in the order of
/// the manifest, every omission listed.
pub open spec fn missing_fields(keys: Seq<Seq<char>>, models: Seq<ModelSpecView>) -> Seq<Seq<char>>
    decreases models.len(),
{
    if models.len() == 0 {
        seq![]
    } else {
        missing_fields(keys, models.drop_last()) + if keys.contains(models.last().key) {
            missing_of(models.last(), (models.len() - 1) as nat)
        } else {
            seq![]
        }
    }
}

/// The status that says that the manifest has no models at all.
pub open spec fn status_no_models() -> AudioModelsStatusView {
    AudioModelsStatusView::ManifestIncomplete {
        message: "Model manifest has no models"@,
        missing: seq!["models"@],
    }
}

/// The status that names the fields that required models lack.
pub open spec fn status_missing_fields(missing: Seq<Seq<char>>) -> AudioModelsStatusView {
    AudioModelsStatusView::ManifestIncomplete {
        message: "Model manifest is missing required fields to determine readiness"@,
        missing,
    }
}

/// What the manifest alone decides, before the disk is looked at: `None` where
/// it decides nothing.
pub open spec fn verdict_of(keys: Seq<Seq<char>>, manifest: ModelManifestView) -> Option<
    Result<AudioModelsStatusView, AudioModelsErrorView>,
> {
    if keys.len() == 0 {
        Some(Err(err_no_required_models()))
    } else if manifest.models.len() == 0 {
        Some(Ok(status_no_models()))
    } else if !all_keys_known(manifest.models, keys) {
        Some(
            Err(
                err_unknown_key(
                    first_unknown_key(manifest.models, keys),
                    model_keys(manifest.models),
                ),
            ),
        )
    } else if missing_fields(keys, manifest.models).len() > 0 {
        Some(Ok(status_missing_fields(missing_fields(keys, manifest.models))))
    } else {
        None
    }
}

/// What a query's outcome stands for.
pub open spec fn outcome_view(r: Result<AudioModelsStatus, AudioModelsError>) -> Result<
    AudioModelsStatusView,
    AudioModelsErrorView,
> {
    match r {
        Ok(status) => Ok(status@),
        Err(error) => Err(error@),
    }
}

/// What an early verdict stands for.
pub open spec fn verdict_view(r: Option<Result<AudioModelsStatus, AudioModelsError>>) -> Option<
    Result<AudioModelsStatusView, AudioModelsErrorView>,
> {
    match r {
        Some(outcome) => Some(outcome_view(outcome)),
        None => None,
    }
}

/// Decides whether `key` is among the required keys.
pub fn is_required(required_keys: &[&str], key: &str) -> (r: bool)
    ensures
        r == strs_view(required_keys@).contains(key@),
{
    let mut i: usize = 0;
    while i < required_keys.len()
        invariant
            i <= required_keys.len(),
            forall|j: int| 0 <= j < i ==> strs_view(required_keys@)[j] != key@,
        decreases required_keys.len() - i,
    {
        if str_eq(required_keys[i], key) {
            assert(strs_view(required_keys@)[i as int] == key@);
            return true;
        }
        i += 1;
    }
    false
}

/// Decides whether the manifest has a model of this key.
fn has_model(manifest: &ModelManifest, key: &str) -> (r: bool)
    ensures
        r == knows_key(manifest@.models, key@),
{
    let mut i: usize = 0;
    while i < manifest.models.len()
        invariant
            i <= manifest.models.len(),
            forall|j: int| 0 <= j < i ==> manifest@.models[j].key != key@,
        decreases manifest.models.len() - i,
    {
        if str_eq(manifest.models[i].key.as_str(), key) {
            assert(manifest@.models[i as int].key == key@);
            return true;
        }
        i += 1;
    }
    false
}

/// The position of the first required key without a model.
fn find_unknown_key(required_keys: &[&str], manifest: &ModelManifest) -> (r: Option<usize>)
    ensures
        r is None <==> all_keys_known(manifest@.models, strs_view(required_keys@)),
        r matches Some(i) ==> i < required_keys.len() && strs_view(required_keys@)[i as int]
            == first_unknown_key(manifest@.models, strs_view(required_keys@)),
{
    let ghost keys = strs_view(required_keys@);
    let mut i: usize = 0;
    while i < required_keys.len()
        invariant
            i <= required_keys.len(),
            keys == strs_view(required_keys@),
            forall|j: int| 0 <= j < i ==> knows_key(manifest@.models, #[trigger] keys[j]),
        decreases required_keys.len() - i,
    {
        if !has_model(manifest, required_keys[i]) {
            proof {
                assert(keys[i as int] == required_keys@[i as int]@);
                assert(is_first_unknown(manifest@.models, keys, i as int));
                let k = choose|k: int| is_first_unknown(manifest@.models, keys, k);
                assert(k == i) by {
                    if k < i {
                        assert(knows_key(manifest@.models, keys[k]));
                    }
                    if i < k {
                        assert(knows_key(manifest@.models, keys[i as int]));
                    }
                }
            }
            return Some(i);
        }
        assert(keys[i as int] == required_keys@[i as int]@);
        i += 1;
    }
    None
}

/// The keys of the manifest's models, in order.
fn available_keys(manifest: &ModelManifest) -> (v: Vec<String>)
    ensures
        strings_view(v@) == model_keys(manifest@.models),
{
    let mut v: Vec<String> = Vec::new();
    let mut i: usize = 0;
    assert(strings_view(v@) =~= model_keys(manifest@.models).take(0));
    while i < manifest.models.len()
        invariant
            i <= manifest.models.len(),
            strings_view(v@) == model_keys(manifest@.models).take(i as int),
        decreases manifest.models.len() - i,
    {
        let key = manifest.models[i].key.clone();
        let ghost before = v@;
        v.push(key);
        proof {
            assert(key@ == manifest@.models[i as int].key);
            assert(strings_view(v@) =~= strings_view(before).push(key@));
            assert(model_keys(manifest@.models).take(i + 1) =~= model_keys(
                manifest@.models,
            ).take(i as int).push(key@));
        }
        i += 1;
    }
    assert(model_keys(manifest@.models).take(i as int) =~= model_keys(manifest@.models));
    v
}

/// Notes the field as missing if `lacking`.
fn note_missing(out: &mut Vec<String>, lacking: bool, idx: usize, field: &str)
    ensures
        strings_view(final(out)@) == strings_view(old(out)@) + missing_if(
            lacking,
            idx as nat,
            field@,
        ),
{
    if lacking {
        let number = decimal_string(idx as u64);
        let mut name = join3("models[", number.as_str(), "].");
        name.append(field);
        out.push(name);
        assert(strings_view(out@) =~= strings_view(old(out)@) + missing_if(
            lacking,
            idx as nat,
            field@,
        ));
    } else {
        assert(strings_view(out@) =~= strings_view(old(out)@) + missing_if(
            lacking,
            idx as nat,
            field@,
        ));
    }
}

/// Notes the fields that the model at position `idx` lacks.
fn note_missing_of(out: &mut Vec<String>, m: &ModelSpec, idx: usize)
    ensures
        strings_view(final(out)@) == strings_view(old(out)@) + missing_of(m@, idx as nat),
{
    note_missing(out, blank(m.key.as_str()), idx, "key");
    note_missing(out, blank(m.repo_dirname.as_str()), idx, "repo_dirname");
    note_missing(out, blank(m.model_id.as_str()), idx, "model_id");
    note_missing(out, blank(m.source_page_url.as_str()), idx, "source_page_url");
    note_missing(out, blank(m.macos.revision_sha.as_str()), idx, "macos.revision_sha");
    assert(m@.macos.files.len() == m.macos.files@.len());
    note_missing(out, m.macos.files.len() == 0, idx, "macos.files");
    assert(strings_view(out@) =~= strings_view(old(out)@) + missing_of(m@, idx as nat));
}

/// The fields that the required models lack.
fn collect_missing(required_keys: &[&str], manifest: &ModelManifest) -> (out: Vec<String>)
    ensures
        strings_view(out@) == missing_fields(strs_view(required_keys@), manifest@.models),
{
    let ghost keys = strs_view(required_keys@);
    let ghost models = manifest@.models;
    let mut out: Vec<String> = Vec::new();
    let mut idx: usize = 0;
    assert(strings_view(out@) =~= missing_fields(keys, models.take(0)));
    while idx < manifest.models.len()
        invariant
            idx <= manifest.models.len(),
            keys == strs_view(required_keys@),
            models == manifest@.models,
            strings_view(out@) == missing_fields(keys, models.take(idx as int)),
        decreases manifest.models.len() - idx,
    {
        let m = &manifest.models[idx];
        proof {
            let upto = models.take(idx + 1);
            assert(upto.drop_last() =~= models.take(idx as int));
            assert(upto.last() == m@);
        }
        if is_required(required_keys, m.key.as_str()) {
            note_missing_of(&mut out, m, idx);
        } else {
            assert(strings_view(out@) + Seq::<Seq<char>>::empty() =~= strings_view(out@));
        }
        idx += 1;
    }
    assert(models.take(idx as int) =~= models);
    out
}

/// What the manifest alone decides about a query, before the disk is looked
/// at: an error, an incomplete manifest, or nothing yet.
pub fn manifest_verdict(required_keys: &[&str], manifest: &ModelManifest) -> (r: Option<
    Result<AudioModelsStatus, AudioModelsError>,
>)
    ensures
        verdict_view(r) == verdict_of(strs_view(required_keys@), manifest@),
{
    if required_keys.len() == 0 {
        return Some(
            Err(AudioModelsError::bare(ErrorCode::SettingsInvalid, "No required models configured")),
        );
    }
    if manifest.models.len() == 0 {
        let mut missing: Vec<String> = Vec::new();
        missing.push("models".to_owned());
        assert(strings_view(missing@) =~= seq!["models"@]);
        return Some(
            Ok(
                AudioModelsStatus::ManifestIncomplete {
                    message: "Model manifest has no models".to_owned(),
                    missing,
                },
            ),
        );
    }
    match find_unknown_key(required_keys, manifest) {
        Some(i) => {
            let available = available_keys(manifest);
            return Some(
                Err(
                    AudioModelsError::with2(
                        ErrorCode::ManifestInvalid,
                        "Required model key does not exist in manifest",
                        ContextEntry::text("model_key", required_keys[i]),
                        ContextEntry::list("available_keys", available),
                    ),
                ),
            );
        },
        None => {},
    }
    let missing = collect_missing(required_keys, manifest);
    if missing.len() > 0 {
        return Some(
            Ok(
                AudioModelsStatus::ManifestIncomplete {
                    message: "Model manifest is missing required fields to determine readiness".to_owned(),
                    missing,
                },
            ),
        );
    }
    None
}

/// Every file path stays within its model's directory.
pub open spec fn paths_contained(files: Seq<ModelFileView>) -> bool {
    forall|j: int| 0 <= j < files.len() ==> !escapes((#[trigger] files[j]).path)
}

/// `files[j]` is the first file whose path may lead out of the directory.
pub open spec fn is_first_bad_path(files: Seq<ModelFileView>, j: int) -> bool {
    &&& 0 <= j < files.len()
    &&& escapes(files[j].path)
    &&& forall|k: int| 0 <= k < j ==> !escapes((#[trigger] files[k]).path)
}

/// The first path that may lead out of the directory, where there is one.
pub open spec fn first_bad_path(files: Seq<ModelFileView>) -> Seq<char> {
    files[choose|j: int| is_first_bad_path(files, j)].path
}

/// Why a model's files cannot be looked for on disk, if anything forbids it:
/// its directory name is blank or may lead out of the models directory, or
/// one of its file paths may lead out of that directory.
pub open spec fn model_violation(m: ModelSpecView) -> Option<AudioModelsErrorView> {
    if is_blank(m.repo_dirname) {
        Some(err_repo_dirname_required(m.repo_dirname))
    } else if escapes(m.repo_dirname) {
        Some(err_repo_dirname_escapes(m.repo_dirname))
    } else if !paths_contained(m.macos.files) {
        Some(err_bad_path(first_bad_path(m.macos.files)))
    } else {
        None
    }
}

/// The violation of the first required model that has one.
pub open spec fn first_violation(keys: Seq<Seq<char>>, models: Seq<ModelSpecView>) -> Option<
    AudioModelsErrorView,
>
    decreases models.len(),
{
    if models.len() == 0 {
        None
    } else if keys.contains(models[0].key) && model_violation(models[0]) is Some {
        model_violation(models[0])
    } else {
        first_violation(keys, models.drop_first())
    }
}

/// What an optional error stands for.
pub open spec fn error_option_view(r: Option<AudioModelsError>) -> Option<AudioModelsErrorView> {
    match r {
        Some(e) => Some(e@),
        None => None,
    }
}

/// The position of the first file whose path may lead out of the directory.
fn find_bad_path(files: &Vec<ModelFile>) -> (r: Option<usize>)
    ensures
        r is None <==> paths_contained(crate::manifest::files_view(files@)),
        r matches Some(j) ==> j < files.len() && files@[j as int].path@ == first_bad_path(
            crate::manifest::files_view(files@),
        ),
{
    let ghost fv = crate::manifest::files_view(files@);
    let mut j: usize = 0;
    while j < files.len()
        invariant
            j <= files.len(),
            fv == crate::manifest::files_view(files@),
            forall|k: int| 0 <= k < j ==> !escapes((#[trigger] fv[k]).path),
        decreases files.len() - j,
    {
        if path_escapes(files[j].path.as_str()) {
            proof {
                assert(fv[j as int].path == files@[j as int].path@);
                assert(is_first_bad_path(fv, j as int));
                let k = choose|k: int| is_first_bad_path(fv, k);
                assert(k == j) by {
                    if k < j {
                        assert(!escapes(fv[k].path));
                    }
                    if j < k {
                        assert(!escapes(fv[j as int].path));
                    }
                }
            }
            return Some(j);
        }
        assert(fv[j as int].path == files@[j as int].path@);
        j += 1;
    }
    None
}

/// Why a model's files cannot be looked for on disk, if anything forbids it.
pub(crate) fn check_model(m: &ModelSpec) -> (r: Option<AudioModelsError>)
    ensures
        error_option_view(r) == model_violation(m@),
{
    if blank(m.repo_dirname.as_str()) {
        return Some(
            AudioModelsError::with1(
                ErrorCode::InvalidArgs,
                "repo_dirname is required",
                ContextEntry::text("repo_dirname", m.repo_dirname.as_str()),
            ),
        );
    }
    if path_escapes(m.repo_dirname.as_str()) {
        return Some(
            AudioModelsError::with1(
                ErrorCode::InvalidArgs,
                "repo_dirname must be a relative path without '..'",
                ContextEntry::text("repo_dirname", m.repo_dirname.as_str()),
            ),
        );
    }
    match find_bad_path(&m.macos.files) {
        Some(j) => Some(
            AudioModelsError::with1(
                ErrorCode::ManifestInvalid,
                "Manifest contains an invalid relative path",
                ContextEntry::text("path", m.macos.files[j].path.as_str()),
            ),
        ),
        None => None,
    }
}

/// The violation of the first required model that has one.
pub fn find_violation(required_keys: &[&str], manifest: &ModelManifest) -> (r: Option<
    AudioModelsError,
>)
    ensures
        error_option_view(r) == first_violation(strs_view(required_keys@), manifest@.models),
{
    let ghost keys = strs_view(required_keys@);
    let ghost models = manifest@.models;
    let mut i: usize = 0;
    assert(models.skip(0) =~= models);
    while i < manifest.models.len()
        invariant
            i <= manifest.models.len(),
            keys == strs_view(required_keys@),
            models == manifest@.models,
            first_violation(keys, models) == first_violation(keys, models.skip(i as int)),
        decreases manifest.models.len() - i,
    {
        let m = &manifest.models[i];
        proof {
            let rest = models.skip(i as int);
            assert(rest[0] == m@);
            assert(rest.drop_first() =~= models.skip(i + 1));
        }
        if is_required(required_keys, m.key.as_str()) {
            let found = check_model(m);
            if found.is_some() {
                return found;
            }
        }
        i += 1;
    }
    None
}

/// A number of bytes, held at the largest value that fits.
pub open spec fn clamp_u64(n: nat) -> u64 {
    if n > u64::MAX {
        u64::MAX
    } else {
        n as u64
    }
}

/// A number of files, held at the largest value that fits.
pub open spec fn clamp_usize(n: nat) -> usize {
    if n > usize::MAX {
        usize::MAX
    } else {
        n as usize
    }
}

/// The declared sizes of the files, added up.
pub open spec fn total_size(files: Seq<ModelFileView>) -> nat
    decreases files.len(),
{
    if files.len() == 0 {
        0
    } else {
        total_size(files.drop_last()) + files.last().size as nat
    }
}

/// How many of the files are present.
pub open spec fn present_count(disk: Seq<FileProbeView>, repo_dirname: Seq<char>, files: Seq<ModelFileView>) -> nat
    decreases files.len(),
{
    if files.len() == 0 {
        0
    } else {
        present_count(disk, repo_dirname, files.drop_last()) + if is_present(
            disk,
            repo_dirname,
            files.last(),
        ) {
            1nat
        } else {
            0nat
        }
    }
}

/// The declared sizes of the files that are present, added up.
pub open spec fn present_size(disk: Seq<FileProbeView>, repo_dirname: Seq<char>, files: Seq<ModelFileView>) -> nat
    decreases files.len(),
{
    if files.len() == 0 {
        0
    } else {
        present_size(disk, repo_dirname, files.drop_last()) + if is_present(
            disk,
            repo_dirname,
            files.last(),
        ) {
            files.last().size as nat
        } else {
            0nat
        }
    }
}

/// How much of one model the disk holds.
pub open spec fn model_status(disk: Seq<FileProbeView>, m: ModelSpecView) -> ModelInstallStatusView {
    ModelInstallStatusView {
        key: m.key,
        repo_dirname: m.repo_dirname,
        revision_sha: m.macos.revision_sha,
        total_files: clamp_usize(m.macos.files.len()),
        present_files: clamp_usize(present_count(disk, m.repo_dirname, m.macos.files)),
        total_bytes: clamp_u64(total_size(m.macos.files)),
        present_bytes: clamp_u64(present_size(disk, m.repo_dirname, m.macos.files)),
    }
}

/// The required models, in the order of the manifest.
pub open spec fn required_models(keys: Seq<Seq<char>>, models: Seq<ModelSpecView>) -> Seq<
    ModelSpecView,
>
    decreases models.len(),
{
    if models.len() == 0 {
        seq![]
    } else if keys.contains(models.last().key) {
        required_models(keys, models.drop_last()).push(models.last())
    } else {
        required_models(keys, models.drop_last())
    }
}

/// The number of files that the models declare.
pub open spec fn file_count(ms: Seq<ModelSpecView>) -> nat
    decreases ms.len(),
{
    if ms.len() == 0 {
        0
    } else {
        file_count(ms.drop_last()) + ms.last().macos.files.len()
    }
}

/// The number of declared files that are present.
pub open spec fn files_present(disk: Seq<FileProbeView>, ms: Seq<ModelSpecView>) -> nat
    decreases ms.len(),
{
    if ms.len() == 0 {
        0
    } else {
        files_present(disk, ms.drop_last()) + present_count(
            disk,
            ms.last().repo_dirname,
            ms.last().macos.files,
        )
    }
}

/// The number of bytes that the models declare.
pub open spec fn bytes_declared(ms: Seq<ModelSpecView>) -> nat
    decreases ms.len(),
{
    if ms.len() == 0 {
        0
    } else {
        bytes_declared(ms.drop_last()) + total_size(ms.last().macos.files)
    }
}

/// The number of declared bytes that are present.
pub open spec fn bytes_present(disk: Seq<FileProbeView>, ms: Seq<ModelSpecView>) -> nat
    decreases ms.len(),
{
    if ms.len() == 0 {
        0
    } else {
        bytes_present(disk, ms.drop_last()) + present_size(
            disk,
            ms.last().repo_dirname,
            ms.last().macos.files,
        )
    }
}

/// The status of each of the models.
pub open spec fn model_statuses(disk: Seq<FileProbeView>, ms: Seq<ModelSpecView>) -> Seq<
    ModelInstallStatusView,
> {
    ms.map_values(|m: ModelSpecView| model_status(disk, m))
}

/// The classification once the manifest is known to be sound: `Ready` when
/// as many files are present as are declared, `NotInstalled` otherwise. The
/// counts stop at the largest value that their type holds.
pub open spec fn installed_status(
    keys: Seq<Seq<char>>,
    models: Seq<ModelSpecView>,
    models_dir: Seq<char>,
    disk: Seq<FileProbeView>,
) -> AudioModelsStatusView {
    let required = required_models(keys, models);
    let total_files = clamp_usize(file_count(required));
    let present_files = clamp_usize(files_present(disk, required));
    let total_bytes = clamp_u64(bytes_declared(required));
    let present_bytes = clamp_u64(bytes_present(disk, required));
    if present_files != total_files {
        AudioModelsStatusView::NotInstalled {
            models_dir,
            total_files,
            present_files,
            total_bytes,
            present_bytes,
            models: model_statuses(disk, required),
        }
    } else {
        AudioModelsStatusView::Ready {
            models_dir,
            total_files,
            total_bytes,
            models: model_statuses(disk, required),
        }
    }
}

/// What a readiness query answers.
pub open spec fn status_of(
    keys: Seq<Seq<char>>,
    manifest: ModelManifestView,
    models_dir: Seq<char>,
    disk: Seq<FileProbeView>,
) -> Result<AudioModelsStatusView, AudioModelsErrorView> {
    match verdict_of(keys, manifest) {
        Some(outcome) => outcome,
        None => match first_violation(keys, manifest.models) {
            Some(error) => Err(error),
            None => Ok(installed_status(keys, manifest.models, models_dir, disk)),
        },
    }
}

/// Adding to a clamped count and clamping again is clamping the sum.
pub proof fn lemma_clamp_u64_add(a: nat, b: nat)
    ensures
        clamp_u64((clamp_u64(a) + clamp_u64(b)) as nat) == clamp_u64(a + b),
{
}

/// Adding to a clamped count and clamping again is clamping the sum.
pub proof fn lemma_clamp_usize_add(a: nat, b: nat)
    ensures
        clamp_usize((clamp_usize(a) + clamp_usize(b)) as nat) == clamp_usize(a + b),
{
}

/// No more files are present than are declared.
pub proof fn lemma_present_bounded(disk: Seq<FileProbeView>, repo_dirname: Seq<char>, files: Seq<ModelFileView>)
    ensures
        present_count(disk, repo_dirname, files) <= files.len(),
        present_size(disk, repo_dirname, files) <= total_size(files),
    decreases files.len(),
{
    if files.len() > 0 {
        lemma_present_bounded(disk, repo_dirname, files.drop_last());
    }
}

/// How much of one model the disk holds.
pub fn status_of_model(m: &ModelSpec, disk: &DiskSnapshot) -> (s: ModelInstallStatus)
    ensures
        s@ == model_status(disk@, m@),
{
    let ghost files = m@.macos.files;
    let ghost repo = m@.repo_dirname;
    let mut total_files: usize = 0;
    let mut present_files: usize = 0;
    let mut total_bytes: u64 = 0;
    let mut present_bytes: u64 = 0;
    let mut j: usize = 0;
    while j < m.macos.files.len()
        invariant
            j <= m.macos.files.len(),
            files == m@.macos.files,
            files.len() == m.macos.files.len(),
            repo == m.repo_dirname@,
            total_files == j,
            present_files == present_count(disk@, repo, files.take(j as int)),
            present_files <= j,
            total_bytes == clamp_u64(total_size(files.take(j as int))),
            present_bytes == clamp_u64(present_size(disk@, repo, files.take(j as int))),
        decreases m.macos.files.len() - j,
    {
        let f = &m.macos.files[j];
        proof {
            let upto = files.take(j + 1);
            assert(upto.drop_last() =~= files.take(j as int));
            assert(upto.last() == f@);
            lemma_clamp_u64_add(total_size(files.take(j as int)), f.size as nat);
            lemma_clamp_u64_add(present_size(disk@, repo, files.take(j as int)), f.size as nat);
        }
        total_files = total_files + 1;
        total_bytes = total_bytes.saturating_add(f.size);
        if disk.holds(m.repo_dirname.as_str(), f) {
            present_files = present_files + 1;
            present_bytes = present_bytes.saturating_add(f.size);
        }
        j += 1;
    }
    proof {
        assert(files.take(j as int) =~= files);
    }
    ModelInstallStatus {
        key: m.key.clone(),
        repo_dirname: m.repo_dirname.clone(),
        revision_sha: m.macos.revision_sha.clone(),
        total_files,
        present_files,
        total_bytes,
        present_bytes,
    }
}

/// The readiness of the required models.
///
/// Fails with `settings_invalid` where no key is required and with
/// `manifest_invalid` where a required key has no model. A manifest without
/// models, or one whose required models lack fields, is `ManifestIncomplete`.
/// A directory name or file path that may lead out of the models directory
/// fails with `invalid_args` or `manifest_invalid`, whatever the disk holds.
/// Otherwise the answer is `Ready` or `NotInstalled`, by sizes alone.
pub fn get_status(
    required_keys: &[&str],
    manifest: &ModelManifest,
    models_dir: &str,
    disk: &DiskSnapshot,
) -> (r: Result<AudioModelsStatus, AudioModelsError>)
    ensures
        outcome_view(r) == status_of(strs_view(required_keys@), manifest@, models_dir@, disk@),
{
    match manifest_verdict(required_keys, manifest) {
        Some(outcome) => {
            return outcome;
        },
        None => {},
    }
    match find_violation(required_keys, manifest) {
        Some(error) => {
            return Err(error);
        },
        None => {},
    }
    let ghost keys = strs_view(required_keys@);
    let ghost models = manifest@.models;
    let mut statuses: Vec<ModelInstallStatus> = Vec::new();
    let mut total_files: usize = 0;
    let mut present_files: usize = 0;
    let mut total_bytes: u64 = 0;
    let mut present_bytes: u64 = 0;
    let mut i: usize = 0;
    assert(statuses_view(statuses@) =~= model_statuses(
        disk@,
        required_models(keys, models.take(0)),
    ));
    while i < manifest.models.len()
        invariant
            i <= manifest.models.len(),
            keys == strs_view(required_keys@),
            models == manifest@.models,
            statuses_view(statuses@) == model_statuses(
                disk@,
                required_models(keys, models.take(i as int)),
            ),
            total_files == clamp_usize(file_count(required_models(keys, models.take(i as int)))),
            present_files == clamp_usize(
                files_present(disk@, required_models(keys, models.take(i as int))),
            ),
            total_bytes == clamp_u64(bytes_declared(required_models(keys, models.take(i as int)))),
            present_bytes == clamp_u64(
                bytes_present(disk@, required_models(keys, models.take(i as int))),
            ),
        decreases manifest.models.len() - i,
    {
        let m = &manifest.models[i];
        let ghost before = required_models(keys, models.take(i as int));
        proof {
            let upto = models.take(i + 1);
            assert(upto.drop_last() =~= models.take(i as int));
            assert(upto.last() == m@);
        }
        if is_required(required_keys, m.key.as_str()) {
            let status = status_of_model(m, disk);
            proof {
                let after = before.push(m@);
                assert(after.drop_last() =~= before);
                assert(after.last() == m@);
                lemma_clamp_usize_add(file_count(before), m@.macos.files.len());
                lemma_clamp_usize_add(
                    files_present(disk@, before),
                    present_count(disk@, m@.repo_dirname, m@.macos.files),
                );
                lemma_clamp_u64_add(bytes_declared(before), total_size(m@.macos.files));
                lemma_clamp_u64_add(
                    bytes_present(disk@, before),
                    present_size(disk@, m@.repo_dirname, m@.macos.files),
                );
            }
            total_files = total_files.saturating_add(status.total_files);
            present_files = present_files.saturating_add(status.present_files);
            total_bytes = total_bytes.saturating_add(status.total_bytes);
            present_bytes = present_bytes.saturating_add(status.present_bytes);
            let ghost listed = statuses@;
            statuses.push(status);
            proof {
                assert(statuses_view(statuses@) =~= statuses_view(listed).push(status@));
                assert(model_statuses(disk@, before.push(m@)) =~= model_statuses(
                    disk@,
                    before,
                ).push(model_status(disk@, m@)));
            }
        }
        i += 1;
    }
    proof {
        assert(models.take(i as int) =~= models);
    }
    if present_files != total_files {
        Ok(
            AudioModelsStatus::NotInstalled {
                models_dir: models_dir.to_owned(),
                total_files,
                present_files,
                total_bytes,
                present_bytes,
                models: statuses,
            },
        )
    } else {
        Ok(
            AudioModelsStatus::Ready {
                models_dir: models_dir.to_owned(),
                total_files,
                total_bytes,
                models: statuses,
            },
        )
    }
}

/// A path to look at: a file of a required model.
#[derive(Clone, Debug)]
pub struct ProbeTarget {
    pub repo_dirname: String,
    pub path: String,
}

/// What a `ProbeTarget` stands for.
pub struct ProbeTargetView {
    pub repo_dirname: Seq<char>,
    pub path: Seq<char>,
}

impl View for ProbeTarget {
    type V = ProbeTargetView;

    open spec fn view(&self) -> ProbeTargetView {
        ProbeTargetView { repo_dirname: self.repo_dirname@, path: self.path@ }
    }
}

/// What a list of targets stands for.
pub open spec fn targets_view(v: Seq<ProbeTarget>) -> Seq<ProbeTargetView> {
    v.map_values(|t: ProbeTarget| t@)
}

/// The files of one model, as targets.
pub open spec fn file_targets(m: ModelSpecView) -> Seq<ProbeTargetView> {
    m.macos.files.map_values(
        |f: ModelFileView| ProbeTargetView { repo_dirname: m.repo_dirname, path: f.path },
    )
}

/// The files of the models, as targets, in order.
pub open spec fn all_targets(ms: Seq<ModelSpecView>) -> Seq<ProbeTargetView>
    decreases ms.len(),
{
    if ms.len() == 0 {
        seq![]
    } else {
        all_targets(ms.drop_last()) + file_targets(ms.last())
    }
}

/// The paths that a query looks at: every file of every required model, and
/// none at all where some required model has a violation.
pub open spec fn targets_of(keys: Seq<Seq<char>>, models: Seq<ModelSpecView>) -> Seq<
    ProbeTargetView,
> {
    if first_violation(keys, models) is Some {
        seq![]
    } else {
        all_targets(required_models(keys, models))
    }
}

/// Where no required model has a violation, each one is sound.
pub proof fn lemma_no_violation(keys: Seq<Seq<char>>, models: Seq<ModelSpecView>, i: int)
    requires
        first_violation(keys, models) is None,
        0 <= i < models.len(),
        keys.contains(models[i].key),
    ensures
        model_violation(models[i]) is None,
    decreases models.len(),
{
    if i > 0 {
        let rest = models.drop_first();
        assert(rest[i - 1] == models[i]);
        lemma_no_violation(keys, rest, i - 1);
    }
}

/// The paths that a query looks at on disk. Each of them stays within the
/// models directory.
pub fn probe_targets(required_keys: &[&str], manifest: &ModelManifest) -> (targets: Vec<
    ProbeTarget,
>)
    ensures
        targets_view(targets@) == targets_of(strs_view(required_keys@), manifest@.models),
        forall|k: int|
            0 <= k < targets.len() ==> !escapes((#[trigger] targets@[k]).repo_dirname@)
                && !is_blank(targets@[k].repo_dirname@) && !escapes(targets@[k].path@),
{
    let ghost keys = strs_view(required_keys@);
    let ghost models = manifest@.models;
    let mut targets: Vec<ProbeTarget> = Vec::new();
    if find_violation(required_keys, manifest).is_some() {
        assert(targets_view(targets@) =~= Seq::<ProbeTargetView>::empty());
        return targets;
    }
    let mut i: usize = 0;
    assert(targets_view(targets@) =~= all_targets(required_models(keys, models.take(0))));
    while i < manifest.models.len()
        invariant
            i <= manifest.models.len(),
            keys == strs_view(required_keys@),
            models == manifest@.models,
            first_violation(keys, models) is None,
            targets_view(targets@) == all_targets(required_models(keys, models.take(i as int))),
            forall|k: int|
                0 <= k < targets.len() ==> !escapes((#[trigger] targets@[k]).repo_dirname@)
                    && !is_blank(targets@[k].repo_dirname@) && !escapes(targets@[k].path@),
        decreases manifest.models.len() - i,
    {
        let m = &manifest.models[i];
        let ghost before = required_models(keys, models.take(i as int));
        proof {
            let upto = models.take(i + 1);
            assert(upto.drop_last() =~= models.take(i as int));
            assert(upto.last() == m@);
        }
        if is_required(required_keys, m.key.as_str()) {
            proof {
                assert(models[i as int] == m@);
                lemma_no_violation(keys, models, i as int);
                let after = before.push(m@);
                assert(after.drop_last() =~= before);
                assert(after.last() == m@);
            }
            let ghost base = targets_view(targets@);
            let mut j: usize = 0;
            assert(m@.macos.files.take(0) =~= Seq::<ModelFileView>::empty());
            assert(file_targets(m@).take(0) =~= Seq::<ProbeTargetView>::empty());
            assert(base + file_targets(m@).take(0) =~= base);
            while j < m.macos.files.len()
                invariant
                    j <= m.macos.files.len(),
                    m@.macos.files.len() == m.macos.files.len(),
                    paths_contained(m@.macos.files),
                    !escapes(m.repo_dirname@),
                    !is_blank(m.repo_dirname@),
                    targets_view(targets@) == base + file_targets(m@).take(j as int),
                    forall|k: int|
                        0 <= k < targets.len() ==> !escapes(
                            (#[trigger] targets@[k]).repo_dirname@,
                        ) && !is_blank(targets@[k].repo_dirname@) && !escapes(targets@[k].path@),
                decreases m.macos.files.len() - j,
            {
                let f = &m.macos.files[j];
                let target = ProbeTarget {
                    repo_dirname: m.repo_dirname.clone(),
                    path: f.path.clone(),
                };
                let ghost listed = targets@;
                proof {
                    assert(m@.macos.files[j as int] == f@);
                    assert(!escapes(m@.macos.files[j as int].path));
                }
                targets.push(target);
                proof {
                    assert(targets_view(targets@) =~= targets_view(listed).push(target@));
                    assert(file_targets(m@).take(j + 1) =~= file_targets(m@).take(j as int).push(
                        target@,
                    ));
                    assert(base + file_targets(m@).take(j + 1) =~= (base + file_targets(m@).take(
                        j as int,
                    )).push(target@));
                }
                j += 1;
            }
            proof {
                assert(file_targets(m@).take(j as int) =~= file_targets(m@));
            }
        }
        i += 1;
    }
    proof {
        assert(models.take(i as int) =~= models);
    }
    targets
}

/// A required model lists each of the fields that it lacks.
proof fn lemma_missing_includes(keys: Seq<Seq<char>>, models: Seq<ModelSpecView>, i: int)
    requires
        0 <= i < models.len(),
        keys.contains(models[i].key),
    ensures
        missing_fields(keys, models).len() >= missing_of(models[i], i as nat).len(),
    decreases models.len(),
{
    if i < models.len() - 1 {
        let shorter = models.drop_last();
        assert(shorter[i] == models[i]);
        lemma_missing_includes(keys, shorter, i);
    }
}

/// A required model without files makes the manifest incomplete: where every
/// required key has a model, the query answers `ManifestIncomplete`, whatever
/// the disk holds.
pub proof fn law_empty_file_list_is_incomplete(
    keys: Seq<Seq<char>>,
    manifest: ModelManifestView,
    models_dir: Seq<char>,
    disk: Seq<FileProbeView>,
    i: int,
)
    requires
        all_keys_known(manifest.models, keys),
        0 <= i < manifest.models.len(),
        keys.contains(manifest.models[i].key),
        manifest.models[i].macos.files.len() == 0,
    ensures
        status_of(keys, manifest, models_dir, disk) matches Ok(
            AudioModelsStatusView::ManifestIncomplete { .. },
        ),
{
    lemma_missing_includes(keys, manifest.models, i);
    let m = manifest.models[i];
    assert(missing_if(m.macos.files.len() == 0, i as nat, "macos.files"@).len() == 1);
}

/// A file whose size on disk differs from the declared size counts as
/// absent, though it exists.
pub proof fn law_wrong_size_is_absent(
    disk: Seq<FileProbeView>,
    repo_dirname: Seq<char>,
    file: ModelFileView,
)
    requires
        found(disk, repo_dirname, file.path) matches Some(probe) && probe.len != file.size,
    ensures
        !is_present(disk, repo_dirname, file),
{
}

/// With a file absent, fewer files are present than are declared.
proof fn lemma_present_count_strict(
    disk: Seq<FileProbeView>,
    repo_dirname: Seq<char>,
    files: Seq<ModelFileView>,
    j: int,
)
    requires
        0 <= j < files.len(),
        !is_present(disk, repo_dirname, files[j]),
    ensures
        present_count(disk, repo_dirname, files) < files.len(),
    decreases files.len(),
{
    let shorter = files.drop_last();
    lemma_present_bounded(disk, repo_dirname, shorter);
    if j < files.len() - 1 {
        assert(shorter[j] == files[j]);
        lemma_present_count_strict(disk, repo_dirname, shorter, j);
    }
}

/// No more files are present than are declared, and fewer where a file of
/// one of the models is absent.
proof fn lemma_files_present_strict(disk: Seq<FileProbeView>, ms: Seq<ModelSpecView>, k: int, j: int)
    requires
        0 <= k < ms.len() ==> 0 <= j < ms[k].macos.files.len() && !is_present(
            disk,
            ms[k].repo_dirname,
            ms[k].macos.files[j],
        ),
    ensures
        files_present(disk, ms) <= file_count(ms),
        0 <= k < ms.len() ==> files_present(disk, ms) < file_count(ms),
    decreases ms.len(),
{
    if ms.len() > 0 {
        let shorter = ms.drop_last();
        let last = ms.last();
        lemma_present_bounded(disk, last.repo_dirname, last.macos.files);
        if 0 <= k < ms.len() - 1 {
            assert(shorter[k] == ms[k]);
            lemma_files_present_strict(disk, shorter, k, j);
        } else {
            lemma_files_present_strict(disk, shorter, -1, j);
            if k == ms.len() - 1 {
                lemma_present_count_strict(disk, last.repo_dirname, last.macos.files, j);
            }
        }
    }
}

/// A required model of the manifest is among the required models.
proof fn lemma_required_member(keys: Seq<Seq<char>>, models: Seq<ModelSpecView>, i: int) -> (k: int)
    requires
        0 <= i < models.len(),
        keys.contains(models[i].key),
    ensures
        0 <= k < required_models(keys, models).len(),
        required_models(keys, models)[k] == models[i],
    decreases models.len(),
{
    let shorter = models.drop_last();
    if i < models.len() - 1 {
        assert(shorter[i] == models[i]);
        let k = lemma_required_member(keys, shorter, i);
        k
    } else {
        required_models(keys, shorter).len() as int
    }
}

/// While a file of a required model is absent or has the wrong size, the
/// query does not answer `Ready`. The count of declared files has to fit in
/// a `usize`.
pub proof fn law_absent_file_is_not_ready(
    keys: Seq<Seq<char>>,
    manifest: ModelManifestView,
    models_dir: Seq<char>,
    disk: Seq<FileProbeView>,
    i: int,
    j: int,
)
    requires
        0 <= i < manifest.models.len(),
        keys.contains(manifest.models[i].key),
        0 <= j < manifest.models[i].macos.files.len(),
        !is_present(disk, manifest.models[i].repo_dirname, manifest.models[i].macos.files[j]),
        file_count(required_models(keys, manifest.models)) <= usize::MAX,
    ensures
        !(status_of(keys, manifest, models_dir, disk) matches Ok(
            AudioModelsStatusView::Ready { .. },
        )),
{
    let required = required_models(keys, manifest.models);
    let k = lemma_required_member(keys, manifest.models, i);
    lemma_files_present_strict(disk, required, k, j);
}

/// The first violation has the code `manifest_invalid` where some required
/// model has a file path that may lead out of its directory and the
/// directory names of the required models are sound.
proof fn lemma_violation_is_bad_path(keys: Seq<Seq<char>>, models: Seq<ModelSpecView>, i: int)
    requires
        0 <= i < models.len(),
        keys.contains(models[i].key),
        !paths_contained(models[i].macos.files),
        forall|k: int|
            0 <= k < models.len() && keys.contains((#[trigger] models[k]).key) ==> !is_blank(
                models[k].repo_dirname,
            ) && !escapes(models[k].repo_dirname),
    ensures
        first_violation(keys, models) matches Some(e) && e.code == ErrorCode::ManifestInvalid,
    decreases models.len(),
{
    if keys.contains(models[0].key) && model_violation(models[0]) is Some {
    } else {
        let rest = models.drop_first();
        assert(i > 0);
        assert(rest[i - 1] == models[i]);
        assert forall|k: int|
            0 <= k < rest.len() && keys.contains((#[trigger] rest[k]).key) implies !is_blank(
            rest[k].repo_dirname,
        ) && !escapes(rest[k].repo_dirname) by {
            assert(rest[k] == models[k + 1]);
        }
        lemma_violation_is_bad_path(keys, rest, i - 1);
    }
}

/// A file path that is absolute or holds a `..` segment is a hard failure:
/// once the manifest has passed the checks that need no disk, and the
/// directory names of the required models stay within the models directory,
/// the query fails with `manifest_invalid`, whatever the disk holds.
pub proof fn law_escaping_path_is_rejected(
    keys: Seq<Seq<char>>,
    manifest: ModelManifestView,
    models_dir: Seq<char>,
    disk: Seq<FileProbeView>,
    i: int,
    j: int,
)
    requires
        verdict_of(keys, manifest) is None,
        0 <= i < manifest.models.len(),
        keys.contains(manifest.models[i].key),
        0 <= j < manifest.models[i].macos.files.len(),
        escapes(manifest.models[i].macos.files[j].path),
        forall|k: int|
            0 <= k < manifest.models.len() && keys.contains((#[trigger] manifest.models[k]).key)
                ==> !escapes(manifest.models[k].repo_dirname),
    ensures
        status_of(keys, manifest, models_dir, disk) matches Err(e) && e.code
            == ErrorCode::ManifestInvalid,
        targets_of(keys, manifest.models).len() == 0,
{
    let models = manifest.models;
    assert forall|k: int|
        0 <= k < models.len() && keys.contains((#[trigger] models[k]).key) implies !is_blank(
        models[k].repo_dirname,
    ) && !escapes(models[k].repo_dirname) by {
        lemma_missing_includes(keys, models, k);
        if is_blank(models[k].repo_dirname) {
            assert(missing_if(true, k as nat, "repo_dirname"@).len() == 1);
        }
    }
    lemma_violation_is_bad_path(keys, models, i);
}

/// The status that stands for a failed query.
pub open spec fn error_status(e: AudioModelsErrorView) -> AudioModelsStatusView {
    AudioModelsStatusView::Error { code: e.code, message: e.message, context: e.context }
}

/// The status to announce for a query: its answer, or the status that
/// stands for its failure.
pub fn handle_status_get(outcome: Result<AudioModelsStatus, AudioModelsError>) -> (status:
    AudioModelsStatus)
    ensures
        status@ == match outcome_view(outcome) {
            Ok(s) => s,
            Err(e) => error_status(e),
        },
{
    match outcome {
        Ok(status) => status,
        Err(e) => {
            let AudioModelsError { code, message, context } = e;
            AudioModelsStatus::Error { code, message, context }
        },
    }
}

/// Decides whether a query names any model at all: one that names none
/// fails with `settings_invalid` before the manifest is looked at.
pub fn check_keys(required_keys: &[&str]) -> (r: Result<(), AudioModelsError>)
    ensures
        required_keys@.len() == 0 ==> (r matches Err(e) && e@ == err_no_required_models()),
        required_keys@.len() > 0 ==> r is Ok,
{
    if required_keys.len() == 0 {
        Err(AudioModelsError::bare(ErrorCode::SettingsInvalid, "No required models configured"))
    } else {
        Ok(())
    }
}

} // verus!
