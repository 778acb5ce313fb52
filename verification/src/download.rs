//! The asset downloader: what a campaign has to fetch, how far it has come,
//! and whether a fetched file may be moved into place.
//!
//! Nothing here touches the network or the disk. The caller streams each
//! file into its temporary sibling and reports what happened; the decisions
//! are taken here.

use crate::checksum::{
    absorbed, checksum_finish, checksum_new, checksum_update, hex_encode, hex_lower, sha256,
    Checksum,
};
use crate::errors::{
    list_entry, number_entry, strs_view, text_entry, AudioModelsError, AudioModelsErrorView,
    ContextEntry, ErrorCode,
};
use crate::manifest::{ModelFileView, ModelManifest, ModelManifestView, ModelSpec, ModelSpecView};
use crate::paths::{has_file_name, partial_path, temp_path};
use crate::readiness::{
    bytes_declared, bytes_present, clamp_u64, error_option_view, is_present, is_required,
    lemma_clamp_u64_add, model_violation, present_size, required_models, status_of_model,
    total_size, DiskSnapshot, FileProbeView,
};
use crate::text::{eq_ignore_ascii_case, is_blank, same_ignoring_case, trim, trimmed};
use vstd::prelude::*;

verus! {

/// How far a campaign has come, in bytes over all required files.
#[derive(Clone, Copy, Debug, PartialEq, Eq, Structural)]
pub struct DownloadProgress {
    pub bytes_downloaded: u64,
    pub bytes_total: u64,
}

/// A file that a campaign has to fetch.
#[derive(Clone, Debug)]
pub struct PendingDownload {
    /// The model's directory, relative to the models directory.
    pub repo_dirname: String,
    /// The file's path within that directory.
    pub path: String,
    pub download_url: String,
    pub expected_sha256: String,
    pub expected_size: u64,
}

/// What a `PendingDownload` stands for.
pub struct PendingDownloadView {
    pub repo_dirname: Seq<char>,
    pub path: Seq<char>,
    pub download_url: Seq<char>,
    pub expected_sha256: Seq<char>,
    pub expected_size: u64,
}

impl View for PendingDownload {
    type V = PendingDownloadView;

    open spec fn view(&self) -> PendingDownloadView {
        PendingDownloadView {
            repo_dirname: self.repo_dirname@,
            path: self.path@,
            download_url: self.download_url@,
            expected_sha256: self.expected_sha256@,
            expected_size: self.expected_size,
        }
    }
}

/// What a worklist stands for.
pub open spec fn worklist_view(v: Seq<PendingDownload>) -> Seq<PendingDownloadView> {
    v.map_values(|p: PendingDownload| p@)
}

/// A campaign is already under way.
pub open spec fn err_already_running() -> AudioModelsErrorView {
    AudioModelsErrorView {
        code: ErrorCode::InvalidState,
        message: "Download is already in progress"@,
        context: seq![],
    }
}

/// A required model declares no files.
pub open spec fn err_no_files(key: Seq<char>) -> AudioModelsErrorView {
    AudioModelsErrorView {
        code: ErrorCode::ManifestIncomplete,
        message: "Model manifest has a required model with no files"@,
        context: seq![text_entry("modelKey"@, key), list_entry("missing"@, seq!["macos.files"@])],
    }
}

/// Why a model cannot be downloaded, if anything forbids it: it declares no
/// files, or it has a violation.
pub open spec fn download_violation(m: ModelSpecView) -> Option<AudioModelsErrorView> {
    if m.macos.files.len() == 0 {
        Some(err_no_files(m.key))
    } else {
        model_violation(m)
    }
}

/// The download violation of the first required model that has one.
pub open spec fn first_download_violation(keys: Seq<Seq<char>>, models: Seq<ModelSpecView>) -> Option<
    AudioModelsErrorView,
>
    decreases models.len(),
{
    if models.len() == 0 {
        None
    } else if keys.contains(models[0].key) && download_violation(models[0]) is Some {
        download_violation(models[0])
    } else {
        first_download_violation(keys, models.drop_first())
    }
}

/// The entry of the worklist for one file.
pub open spec fn pending_for(m: ModelSpecView, f: ModelFileView) -> PendingDownloadView {
    PendingDownloadView {
        repo_dirname: m.repo_dirname,
        path: f.path,
        download_url: f.download_url,
        expected_sha256: f.sha256,
        expected_size: f.size,
    }
}

/// The files among the first `n` of a model that are not present, in order.
pub open spec fn pending_files(disk: Seq<FileProbeView>, m: ModelSpecView, n: nat) -> Seq<
    PendingDownloadView,
>
    decreases n,
{
    if n == 0 || n > m.macos.files.len() {
        seq![]
    } else {
        let f = m.macos.files[n - 1];
        let before = pending_files(disk, m, (n - 1) as nat);
        if is_present(disk, m.repo_dirname, f) {
            before
        } else {
            before.push(pending_for(m, f))
        }
    }
}

/// The files of the models that are not present: model by model, file by
/// file, in the order of the manifest.
pub open spec fn pending_of(disk: Seq<FileProbeView>, ms: Seq<ModelSpecView>) -> Seq<
    PendingDownloadView,
>
    decreases ms.len(),
{
    if ms.len() == 0 {
        seq![]
    } else {
        pending_of(disk, ms.drop_last()) + pending_files(
            disk,
            ms.last(),
            ms.last().macos.files.len(),
        )
    }
}

/// What a download request leads to.
#[derive(Debug)]
pub enum DownloadPlan {
    /// The manifest forbids the campaign.
    Rejected(AudioModelsError),
    /// Every required file is present: the campaign is complete at once.
    Complete(DownloadProgress),
    /// These files have to be fetched, in this order.
    Fetch { pending: Vec<PendingDownload>, bytes_total: u64, bytes_present: u64 },
}

/// What a `DownloadPlan` stands for.
pub enum DownloadPlanView {
    Rejected(AudioModelsErrorView),
    Complete(DownloadProgress),
    Fetch { pending: Seq<PendingDownloadView>, bytes_total: u64, bytes_present: u64 },
}

impl View for DownloadPlan {
    type V = DownloadPlanView;

    open spec fn view(&self) -> DownloadPlanView {
        match self {
            DownloadPlan::Rejected(e) => DownloadPlanView::Rejected(e@),
            DownloadPlan::Complete(p) => DownloadPlanView::Complete(*p),
            DownloadPlan::Fetch { pending, bytes_total, bytes_present } => DownloadPlanView::Fetch {
                pending: worklist_view(pending@),
                bytes_total: *bytes_total,
                bytes_present: *bytes_present,
            },
        }
    }
}

/// The plan for a download request: rejected where a required model has a
/// download violation; else the worklist of the files that are absent or
/// have the wrong size, with the bytes declared and the bytes present, both
/// held at the largest value that fits.
pub open spec fn plan_of(
    keys: Seq<Seq<char>>,
    manifest: ModelManifestView,
    disk: Seq<FileProbeView>,
) -> DownloadPlanView {
    match first_download_violation(keys, manifest.models) {
        Some(error) => DownloadPlanView::Rejected(error),
        None => {
            let required = required_models(keys, manifest.models);
            let bytes_total = clamp_u64(bytes_declared(required));
            let pending = pending_of(disk, required);
            if pending.len() == 0 {
                DownloadPlanView::Complete(
                    DownloadProgress { bytes_downloaded: bytes_total, bytes_total },
                )
            } else {
                DownloadPlanView::Fetch {
                    pending,
                    bytes_total,
                    bytes_present: clamp_u64(bytes_present(disk, required)),
                }
            }
        },
    }
}

/// Why a model cannot be downloaded, if anything forbids it.
fn check_download_model(m: &ModelSpec) -> (r: Option<AudioModelsError>)
    ensures
        error_option_view(r) == download_violation(m@),
{
    assert(m@.macos.files.len() == m.macos.files@.len());
    if m.macos.files.len() == 0 {
        let mut missing: Vec<String> = Vec::new();
        missing.push("macos.files".to_owned());
        assert(crate::errors::strings_view(missing@) =~= seq!["macos.files"@]);
        return Some(
            AudioModelsError::with2(
                ErrorCode::ManifestIncomplete,
                "Model manifest has a required model with no files",
                ContextEntry::text("modelKey", m.key.as_str()),
                ContextEntry::list("missing", missing),
            ),
        );
    }
    crate::readiness::check_model(m)
}

/// The download violation of the first required model that has one.
pub fn find_download_violation(required_keys: &[&str], manifest: &ModelManifest) -> (r: Option<
    AudioModelsError,
>)
    ensures
        error_option_view(r) == first_download_violation(
            strs_view(required_keys@),
            manifest@.models,
        ),
{
    let ghost keys = strs_view(required_keys@);
    let ghost models = manifest@.models;
    let mut i: usize = 0;
    assert(models.skip(0) =~= models);
    while i < manifest.models.len()
        invariant
            i <= manifest.models.len(),
            keys == strs_view(required_keys@),
            models == manifest@.models,
            first_download_violation(keys, models) == first_download_violation(
                keys,
                models.skip(i as int),
            ),
        decreases manifest.models.len() - i,
    {
        let m = &manifest.models[i];
        proof {
            let rest = models.skip(i as int);
            assert(rest[0] == m@);
            assert(rest.drop_first() =~= models.skip(i + 1));
        }
        if is_required(required_keys, m.key.as_str()) {
            let found = check_download_model(m);
            if found.is_some() {
                return found;
            }
        }
        i += 1;
    }
    None
}

/// Adds to the worklist the files of one model that are not present.
fn collect_pending(m: &ModelSpec, disk: &DiskSnapshot, pending: &mut Vec<PendingDownload>)
    ensures
        worklist_view(final(pending)@) == worklist_view(old(pending)@) + pending_files(
            disk@,
            m@,
            m@.macos.files.len(),
        ),
{
    let ghost base = worklist_view(pending@);
    let mut j: usize = 0;
    assert(base + pending_files(disk@, m@, 0) =~= base);
    while j < m.macos.files.len()
        invariant
            j <= m.macos.files.len(),
            m@.macos.files.len() == m.macos.files.len(),
            worklist_view(pending@) == base + pending_files(disk@, m@, j as nat),
        decreases m.macos.files.len() - j,
    {
        let f = &m.macos.files[j];
        assert(m@.macos.files[j as int] == f@);
        if !disk.holds(m.repo_dirname.as_str(), f) {
            let entry = PendingDownload {
                repo_dirname: m.repo_dirname.clone(),
                path: f.path.clone(),
                download_url: f.download_url.clone(),
                expected_sha256: f.sha256.clone(),
                expected_size: f.size,
            };
            let ghost listed = pending@;
            pending.push(entry);
            proof {
                assert(entry@ == pending_for(m@, f@));
                assert(worklist_view(pending@) =~= worklist_view(listed).push(entry@));
                assert(base + pending_files(disk@, m@, (j + 1) as nat) =~= (base + pending_files(
                    disk@,
                    m@,
                    j as nat,
                )).push(entry@));
            }
        }
        j += 1;
    }
}

/// Plans a download campaign for the required models.
///
/// Rejects the request where a required model declares no files
/// (`manifest_incomplete`), has a blank or escaping directory name
/// (`invalid_args`) or an escaping file path (`manifest_invalid`). Else the
/// files that are absent or have the wrong size make the worklist; where
/// there are none, the campaign is complete at once.
pub fn plan_download(required_keys: &[&str], manifest: &ModelManifest, disk: &DiskSnapshot) -> (plan:
    DownloadPlan)
    ensures
        plan@ == plan_of(strs_view(required_keys@), manifest@, disk@),
{
    match find_download_violation(required_keys, manifest) {
        Some(error) => {
            return DownloadPlan::Rejected(error);
        },
        None => {},
    }
    let ghost keys = strs_view(required_keys@);
    let ghost models = manifest@.models;
    let mut pending: Vec<PendingDownload> = Vec::new();
    let mut bytes_total: u64 = 0;
    let mut present: u64 = 0;
    let mut i: usize = 0;
    assert(worklist_view(pending@) =~= pending_of(disk@, required_models(keys, models.take(0))));
    while i < manifest.models.len()
        invariant
            i <= manifest.models.len(),
            keys == strs_view(required_keys@),
            models == manifest@.models,
            worklist_view(pending@) == pending_of(
                disk@,
                required_models(keys, models.take(i as int)),
            ),
            bytes_total == clamp_u64(bytes_declared(required_models(keys, models.take(i as int)))),
            present == clamp_u64(bytes_present(disk@, required_models(keys, models.take(i as int)))),
        decreases manifest.models.len() - i,
    {
        let m = &manifest.models[i];
        let ghost before = required_models(keys, models.take(i as int));
        proof {
            let upto = models.take(i + 1);
            assert(upto.drop_last() =~= models.take(i as int));
            assert(upto.last() == m@);
        }
        if is_required(required_keys, m.key.as_str()) {
            let status = status_of_model(m, disk);
            proof {
                let after = before.push(m@);
                assert(after.drop_last() =~= before);
                assert(after.last() == m@);
                lemma_clamp_u64_add(bytes_declared(before), total_size(m@.macos.files));
                lemma_clamp_u64_add(
                    bytes_present(disk@, before),
                    present_size(disk@, m@.repo_dirname, m@.macos.files),
                );
            }
            bytes_total = bytes_total.saturating_add(status.total_bytes);
            present = present.saturating_add(status.present_bytes);
            collect_pending(m, disk, &mut pending);
        }
        i += 1;
    }
    proof {
        assert(models.take(i as int) =~= models);
    }
    if pending.len() == 0 {
        DownloadPlan::Complete(DownloadProgress { bytes_downloaded: bytes_total, bytes_total })
    } else {
        DownloadPlan::Fetch { pending, bytes_total, bytes_present: present }
    }
}

/// The guard that lets one campaign run at a time.
#[derive(Debug)]
pub struct SingleFlight {
    busy: bool,
}

impl View for SingleFlight {
    type V = bool;

    /// A campaign holds the guard.
    closed spec fn view(&self) -> bool {
        self.busy
    }
}

impl SingleFlight {
    /// A guard that no campaign holds.
    pub fn new() -> (guard: SingleFlight)
        ensures
            !guard@,
    {
        SingleFlight { busy: false }
    }

    /// A campaign holds the guard.
    pub fn is_busy(&self) -> (r: bool)
        ensures
            r == self@,
    {
        self.busy
    }

    /// Takes the guard for a new campaign. Fails with `invalid_state` while
    /// another campaign holds it, which stays as it is: requests are not
    /// queued.
    pub fn try_begin(&mut self) -> (r: Result<(), AudioModelsError>)
        ensures
            final(self)@,
            old(self)@ ==> (r matches Err(e) && e@ == err_already_running()),
            !old(self)@ ==> r is Ok,
    {
        if self.busy {
            Err(AudioModelsError::bare(ErrorCode::InvalidState, "Download is already in progress"))
        } else {
            self.busy = true;
            Ok(())
        }
    }

    /// Releases the guard, at the end of a campaign however it ended.
    pub fn end(&mut self)
        ensures
            !final(self)@,
    {
        self.busy = false;
    }
}

/// A worklist entry's path has no file name to derive a temporary name from.
pub open spec fn err_no_file_name(path: Seq<char>) -> AudioModelsErrorView {
    AudioModelsErrorView {
        code: ErrorCode::ManifestInvalid,
        message: "Manifest file path has no filename"@,
        context: seq![text_entry("path"@, path)],
    }
}

/// The fetched file has the wrong size.
pub open spec fn err_size_mismatch(
    path: Seq<char>,
    expected_size: u64,
    actual_size: u64,
    url: Seq<char>,
) -> AudioModelsErrorView {
    AudioModelsErrorView {
        code: ErrorCode::SizeMismatch,
        message: "Downloaded file size does not match expected value"@,
        context: seq![
            text_entry("path"@, path),
            number_entry("expectedSize"@, expected_size),
            number_entry("actualSize"@, actual_size),
            text_entry("url"@, url),
        ],
    }
}

/// The fetched file has the wrong checksum.
pub open spec fn err_sha256_mismatch(
    path: Seq<char>,
    expected: Seq<char>,
    actual: Seq<char>,
) -> AudioModelsErrorView {
    AudioModelsErrorView {
        code: ErrorCode::Sha256Mismatch,
        message: "Downloaded file SHA256 does not match expected value"@,
        context: seq![
            text_entry("path"@, path),
            text_entry("expectedSha256"@, expected),
            text_entry("actualSha256"@, actual),
        ],
    }
}

/// Whether a fetched file may be moved into place. The size is held against
/// the declared size first. Then the checksum is held against the declared
/// one, trimmed, without regard to the case of letters; a blank declared
/// checksum is not verified.
pub open spec fn check_of(
    temp_path: Seq<char>,
    url: Seq<char>,
    expected_sha256: Seq<char>,
    expected_size: u64,
    actual_size: u64,
    actual_sha256: Seq<char>,
) -> Result<(), AudioModelsErrorView> {
    let expected = trimmed(expected_sha256);
    if actual_size != expected_size {
        Err(err_size_mismatch(temp_path, expected_size, actual_size, url))
    } else if expected.len() > 0 && !same_ignoring_case(actual_sha256, expected) {
        Err(err_sha256_mismatch(temp_path, expected, actual_sha256))
    } else {
        Ok(())
    }
}

/// What the outcome of a check stands for.
pub open spec fn check_view(r: Result<(), AudioModelsError>) -> Result<(), AudioModelsErrorView> {
    match r {
        Ok(()) => Ok(()),
        Err(e) => Err(e@),
    }
}

/// Decides whether a fetched file may be moved into place, from its size on
/// disk and its SHA-256 in hexadecimal.
pub fn check_download(
    temp_path: &str,
    url: &str,
    expected_sha256: &str,
    expected_size: u64,
    actual_size: u64,
    actual_sha256: &str,
) -> (r: Result<(), AudioModelsError>)
    ensures
        check_view(r) == check_of(
            temp_path@,
            url@,
            expected_sha256@,
            expected_size,
            actual_size,
            actual_sha256@,
        ),
{
    if actual_size != expected_size {
        return Err(
            AudioModelsError::with4(
                ErrorCode::SizeMismatch,
                "Downloaded file size does not match expected value",
                ContextEntry::text("path", temp_path),
                ContextEntry::number("expectedSize", expected_size),
                ContextEntry::number("actualSize", actual_size),
                ContextEntry::text("url", url),
            ),
        );
    }
    let expected = trim(expected_sha256);
    assert(expected@.len() == 0 <==> expected@ =~= Seq::<char>::empty());
    if expected.as_str().unicode_len() > 0 && !eq_ignore_ascii_case(
        actual_sha256,
        expected.as_str(),
    ) {
        return Err(
            AudioModelsError::with3(
                ErrorCode::Sha256Mismatch,
                "Downloaded file SHA256 does not match expected value",
                ContextEntry::text("path", temp_path),
                ContextEntry::text("expectedSha256", expected.as_str()),
                ContextEntry::text("actualSha256", actual_sha256),
            ),
        );
    }
    Ok(())
}

/// A file of the right size whose checksum differs from the declared one is
/// rejected with `sha256_mismatch`.
pub proof fn law_wrong_checksum_is_rejected(
    temp_path: Seq<char>,
    url: Seq<char>,
    expected_sha256: Seq<char>,
    size: u64,
    actual_sha256: Seq<char>,
)
    requires
        !is_blank(expected_sha256),
        !same_ignoring_case(actual_sha256, trimmed(expected_sha256)),
    ensures
        check_of(temp_path, url, expected_sha256, size, size, actual_sha256) matches Err(e)
            && e.code == ErrorCode::Sha256Mismatch,
{
    crate::text::lemma_blank_iff_trimmed_empty(expected_sha256);
}

/// A campaign between two files: the files still to fetch, and the
/// progress so far.
#[derive(Debug)]
pub struct Campaign {
    pending: Vec<PendingDownload>,
    bytes_total: u64,
    bytes_offset: u64,
}

/// What a `Campaign` stands for.
pub struct CampaignView {
    /// The files still to fetch, in order.
    pub pending: Seq<PendingDownloadView>,
    pub bytes_total: u64,
    /// The progress with the files installed so far.
    pub bytes_offset: u64,
}

impl View for Campaign {
    type V = CampaignView;

    closed spec fn view(&self) -> CampaignView {
        CampaignView {
            pending: worklist_view(self.pending@),
            bytes_total: self.bytes_total,
            bytes_offset: self.bytes_offset,
        }
    }
}

/// A file in flight: the campaign it belongs to, where it is streamed to,
/// and what has arrived of it.
#[derive(Debug)]
pub struct Transfer {
    campaign: Campaign,
    request: PendingDownload,
    temp_path: String,
    checksum: Option<Checksum>,
    bytes_downloaded: u64,
}

/// What a `Transfer` stands for.
pub struct TransferView {
    /// The campaign, with the files that follow this one.
    pub campaign: CampaignView,
    /// The file in flight.
    pub request: PendingDownloadView,
    /// Where the file is streamed to, relative to its model's directory.
    pub temp_path: Seq<char>,
    /// The bytes that have arrived, where the checksum is to be verified.
    pub received: Option<Seq<u8>>,
    /// The number of bytes that have arrived, held at the largest value that
    /// fits.
    pub bytes_downloaded: u64,
}

/// A file that has passed its checks and may be moved into place.
#[derive(Debug)]
pub struct Verified {
    campaign: Campaign,
    request: PendingDownload,
    temp_path: String,
    bytes_downloaded: u64,
}

/// What a `Verified` stands for.
pub struct VerifiedView {
    pub campaign: CampaignView,
    pub request: PendingDownloadView,
    pub temp_path: Seq<char>,
    pub bytes_downloaded: u64,
}

/// What a campaign does next.
#[derive(Debug)]
pub enum CampaignStep {
    /// Every file is installed. The progress is exactly the total.
    Finished(DownloadProgress),
    /// The next file cannot be fetched: the campaign fails.
    Invalid(AudioModelsError),
    /// The next file is to be fetched.
    Fetch(Transfer),
}

/// The progress of a campaign that has `streamed` bytes of the file in
/// flight.
pub open spec fn progress_at(campaign: CampaignView, streamed: u64) -> DownloadProgress {
    DownloadProgress {
        bytes_downloaded: clamp_u64((campaign.bytes_offset + streamed) as nat),
        bytes_total: campaign.bytes_total,
    }
}

impl Campaign {
    /// A campaign that has installed nothing yet, with the progress to
    /// announce at once: what is present already.
    pub fn new(pending: Vec<PendingDownload>, bytes_total: u64, bytes_present: u64) -> (r: (
        Campaign,
        DownloadProgress,
    ))
        ensures
            r.0@ == (CampaignView {
                pending: worklist_view(pending@),
                bytes_total,
                bytes_offset: bytes_present,
            }),
            r.1 == progress_at(r.0@, 0),
    {
        let campaign = Campaign { pending, bytes_total, bytes_offset: bytes_present };
        (campaign, DownloadProgress { bytes_downloaded: bytes_present, bytes_total })
    }

    /// The progress with the files installed so far.
    pub fn progress(&self) -> (p: DownloadProgress)
        ensures
            p == progress_at(self@, 0),
    {
        DownloadProgress { bytes_downloaded: self.bytes_offset, bytes_total: self.bytes_total }
    }

    /// The number of files still to fetch.
    pub fn remaining(&self) -> (n: usize)
        ensures
            n == self@.pending.len(),
    {
        self.pending.len()
    }

    /// What the campaign does next. With no file left it is finished, and
    /// the progress to announce is exactly the total. A next file whose path
    /// has no file name fails the campaign. Otherwise the next file is to be
    /// streamed into its sibling `<name>.partial`.
    pub fn step(self) -> (s: CampaignStep)
        ensures
            self@.pending.len() == 0 ==> s == CampaignStep::Finished(
                DownloadProgress {
                    bytes_downloaded: self@.bytes_total,
                    bytes_total: self@.bytes_total,
                },
            ),
            self@.pending.len() > 0 && !has_file_name(self@.pending[0].path) ==> (s matches CampaignStep::Invalid(
                e,
            ) && e@ == err_no_file_name(self@.pending[0].path)),
            self@.pending.len() > 0 && has_file_name(self@.pending[0].path) ==> (s matches CampaignStep::Fetch(
                t,
            ) && t@ == (TransferView {
                campaign: CampaignView { pending: self@.pending.drop_first(), ..self@ },
                request: self@.pending[0],
                temp_path: partial_path(self@.pending[0].path),
                received: if is_blank(self@.pending[0].expected_sha256) {
                    None
                } else {
                    Some(Seq::<u8>::empty())
                },
                bytes_downloaded: 0,
            }) && keeps_what_arrives(t@)),
    {
        let Campaign { mut pending, bytes_total, bytes_offset } = self;
        if pending.len() == 0 {
            return CampaignStep::Finished(
                DownloadProgress { bytes_downloaded: bytes_total, bytes_total },
            );
        }
        let ghost before = pending@;
        let request = pending.remove(0);
        proof {
            assert(worklist_view(before)[0] == request@);
            assert(worklist_view(pending@) =~= worklist_view(before).drop_first());
        }
        match temp_path(request.path.as_str()) {
            None => CampaignStep::Invalid(
                AudioModelsError::with1(
                    ErrorCode::ManifestInvalid,
                    "Manifest file path has no filename",
                    ContextEntry::text("path", request.path.as_str()),
                ),
            ),
            Some(temp) => {
                let checksum = if crate::text::blank(request.expected_sha256.as_str()) {
                    None
                } else {
                    Some(checksum_new())
                };
                CampaignStep::Fetch(
                    Transfer {
                        campaign: Campaign { pending, bytes_total, bytes_offset },
                        request,
                        temp_path: temp,
                        checksum,
                        bytes_downloaded: 0,
                    },
                )
            },
        }
    }
}

impl View for Transfer {
    type V = TransferView;

    closed spec fn view(&self) -> TransferView {
        TransferView {
            campaign: self.campaign@,
            request: self.request@,
            temp_path: self.temp_path@,
            received: match self.checksum {
                Some(c) => Some(absorbed(c)),
                None => None,
            },
            bytes_downloaded: self.bytes_downloaded,
        }
    }
}

/// What a finished transfer leads to: the file verified, or the error that
/// fails the campaign.
pub open spec fn finish_of(t: TransferView, temp_display: Seq<char>, actual_size: u64) -> Result<
    VerifiedView,
    AudioModelsErrorView,
> {
    let digest = match t.received {
        Some(data) => hex_lower(sha256(data)),
        None => Seq::<char>::empty(),
    };
    match check_of(
        temp_display,
        t.request.download_url,
        t.request.expected_sha256,
        t.request.expected_size,
        actual_size,
        digest,
    ) {
        Ok(()) => Ok(
            VerifiedView {
                campaign: t.campaign,
                request: t.request,
                temp_path: t.temp_path,
                bytes_downloaded: t.bytes_downloaded,
            },
        ),
        Err(e) => Err(e),
    }
}

/// A transfer that was cut short is rejected: where the size of what lies
/// on disk differs from the declared size, the transfer ends in
/// `size_mismatch` and no file is handed on to be moved into place.
pub proof fn law_interrupted_transfer_is_rejected(
    t: TransferView,
    temp_display: Seq<char>,
    actual_size: u64,
)
    requires
        actual_size != t.request.expected_size,
    ensures
        finish_of(t, temp_display, actual_size) matches Err(e) && e.code
            == ErrorCode::SizeMismatch,
{
}

/// A transfer keeps what arrives exactly where a checksum is declared, as
/// every transfer does that a campaign hands out.
pub open spec fn keeps_what_arrives(t: TransferView) -> bool {
    t.received is Some <==> !is_blank(t.request.expected_sha256)
}

/// Only a file that has passed its checks is handed on to be moved into
/// place: it has the declared size, and where a checksum is declared, what
/// arrived has that checksum.
pub proof fn law_only_checked_files_are_installed(
    t: TransferView,
    temp_display: Seq<char>,
    actual_size: u64,
)
    requires
        keeps_what_arrives(t),
        finish_of(t, temp_display, actual_size) is Ok,
    ensures
        actual_size == t.request.expected_size,
        t.received matches Some(data) ==> same_ignoring_case(
            hex_lower(sha256(data)),
            trimmed(t.request.expected_sha256),
        ),
{
    crate::text::lemma_blank_iff_trimmed_empty(t.request.expected_sha256);
}

/// What the outcome of a transfer stands for.
pub open spec fn finish_view(r: Result<Verified, AudioModelsError>) -> Result<
    VerifiedView,
    AudioModelsErrorView,
> {
    match r {
        Ok(v) => Ok(v@),
        Err(e) => Err(e@),
    }
}

impl Transfer {
    /// The worklist entry of the file in flight.
    pub fn request(&self) -> (r: &PendingDownload)
        ensures
            r@ == self@.request,
    {
        &self.request
    }

    /// Where the file is streamed to, relative to its model's directory.
    pub fn temp_path(&self) -> (r: &str)
        ensures
            r@ == self@.temp_path,
    {
        self.temp_path.as_str()
    }

    /// The progress with what has arrived of the file in flight.
    pub fn progress(&self) -> (p: DownloadProgress)
        ensures
            p == progress_at(self@.campaign, self@.bytes_downloaded),
    {
        DownloadProgress {
            bytes_downloaded: self.campaign.bytes_offset.saturating_add(self.bytes_downloaded),
            bytes_total: self.campaign.bytes_total,
        }
    }

    /// Takes note of a chunk that was written to the temporary file, and
    /// gives the progress to announce. The progress never goes back.
    pub fn on_chunk(&mut self, chunk: &[u8]) -> (p: DownloadProgress)
        ensures
            final(self)@.campaign == old(self)@.campaign,
            final(self)@.request == old(self)@.request,
            final(self)@.temp_path == old(self)@.temp_path,
            final(self)@.received == match old(self)@.received {
                Some(data) => Some(data + chunk@),
                None => None,
            },
            final(self)@.bytes_downloaded == clamp_u64(
                (old(self)@.bytes_downloaded + chunk@.len()) as nat,
            ),
            p == progress_at(final(self)@.campaign, final(self)@.bytes_downloaded),
            p.bytes_downloaded >= progress_at(
                old(self)@.campaign,
                old(self)@.bytes_downloaded,
            ).bytes_downloaded,
            keeps_what_arrives(old(self)@) ==> keeps_what_arrives(final(self)@),
    {
        let checksum = self.checksum.take();
        match checksum {
            Some(mut c) => {
                checksum_update(&mut c, chunk);
                self.checksum = Some(c);
            },
            None => {},
        }
        let len: usize = chunk.len();
        let added: u64 = if len as u128 > u64::MAX as u128 {
            u64::MAX
        } else {
            len as u64
        };
        self.bytes_downloaded = self.bytes_downloaded.saturating_add(added);
        DownloadProgress {
            bytes_downloaded: self.campaign.bytes_offset.saturating_add(self.bytes_downloaded),
            bytes_total: self.campaign.bytes_total,
        }
    }

    /// Ends the transfer once the stream has ended and the temporary file is
    /// flushed: decides from the file's size on disk and from the checksum
    /// of what arrived whether the file may be moved into place. On an error
    /// the temporary file is to be removed and the campaign has failed.
    /// `temp_display` is how the temporary file is named in an error.
    pub fn finish(self, actual_size: u64, temp_display: &str) -> (r: Result<
        Verified,
        AudioModelsError,
    >)
        ensures
            finish_view(r) == finish_of(self@, temp_display@, actual_size),
    {
        let Transfer { campaign, request, temp_path, checksum, bytes_downloaded } = self;
        let digest = match checksum {
            Some(c) => {
                let raw = checksum_finish(c);
                hex_encode(raw.as_slice())
            },
            None => String::new(),
        };
        match check_download(
            temp_display,
            request.download_url.as_str(),
            request.expected_sha256.as_str(),
            request.expected_size,
            actual_size,
            digest.as_str(),
        ) {
            Ok(()) => Ok(Verified { campaign, request, temp_path, bytes_downloaded }),
            Err(e) => Err(e),
        }
    }
}

impl View for Verified {
    type V = VerifiedView;

    closed spec fn view(&self) -> VerifiedView {
        VerifiedView {
            campaign: self.campaign@,
            request: self.request@,
            temp_path: self.temp_path@,
            bytes_downloaded: self.bytes_downloaded,
        }
    }
}

impl Verified {
    /// The worklist entry of the verified file.
    pub fn request(&self) -> (r: &PendingDownload)
        ensures
            r@ == self@.request,
    {
        &self.request
    }

    /// Where the verified file lies, relative to its model's directory.
    pub fn temp_path(&self) -> (r: &str)
        ensures
            r@ == self@.temp_path,
    {
        self.temp_path.as_str()
    }

    /// Takes note that the file was moved into place: the campaign goes on
    /// with the files that follow, its progress advanced by what was
    /// streamed.
    pub fn installed(self) -> (c: Campaign)
        ensures
            c@ == (CampaignView {
                bytes_offset: progress_at(self@.campaign, self@.bytes_downloaded).bytes_downloaded,
                ..self@.campaign
            }),
    {
        let Verified { campaign, request: _, temp_path: _, bytes_downloaded } = self;
        let Campaign { pending, bytes_total, bytes_offset } = campaign;
        Campaign { pending, bytes_total, bytes_offset: bytes_offset.saturating_add(bytes_downloaded) }
    }
}

/// An event of a download campaign, for the host's event channel.
#[derive(Debug)]
pub enum DownloadEvent {
    Progress(DownloadProgress),
    Done,
    Error(AudioModelsError),
}

/// What a `DownloadEvent` stands for.
pub enum DownloadEventView {
    Progress(DownloadProgress),
    Done,
    Error(AudioModelsErrorView),
}

impl View for DownloadEvent {
    type V = DownloadEventView;

    open spec fn view(&self) -> DownloadEventView {
        match self {
            DownloadEvent::Progress(p) => DownloadEventView::Progress(*p),
            DownloadEvent::Done => DownloadEventView::Done,
            DownloadEvent::Error(e) => DownloadEventView::Error(e@),
        }
    }
}

impl DownloadEvent {
    /// The name of the event on the host's channel.
    pub open spec fn channel_name(self) -> Seq<char> {
        match self {
            DownloadEvent::Progress(_) => "audio.models.download.progress"@,
            DownloadEvent::Done => "audio.models.download.done"@,
            DownloadEvent::Error(_) => "audio.models.download.error"@,
        }
    }

    /// The name of the event on the host's channel.
    pub fn event_type(&self) -> (s: &'static str)
        ensures
            s@ == self.channel_name(),
    {
        match self {
            DownloadEvent::Progress(_) => "audio.models.download.progress",
            DownloadEvent::Done => "audio.models.download.done",
            DownloadEvent::Error(_) => "audio.models.download.error",
        }
    }
}

/// What a list of events stands for.
pub open spec fn download_events_view(v: Seq<DownloadEvent>) -> Seq<DownloadEventView> {
    v.map_values(|e: DownloadEvent| e@)
}

/// What a download request has led to: the events to emit at once, and the
/// campaign to run where files have to be fetched.
#[derive(Debug)]
pub struct DownloadStart {
    pub events: Vec<DownloadEvent>,
    pub campaign: Option<Campaign>,
}

/// What a `DownloadStart` stands for.
pub struct DownloadStartView {
    pub events: Seq<DownloadEventView>,
    pub campaign: Option<CampaignView>,
}

impl View for DownloadStart {
    type V = DownloadStartView;

    open spec fn view(&self) -> DownloadStartView {
        DownloadStartView {
            events: download_events_view(self.events@),
            campaign: match self.campaign {
                Some(c) => Some(c@),
                None => None,
            },
        }
    }
}

/// What a download request leads to, and whether a campaign holds the guard
/// after it. While a campaign runs, a request is answered with
/// `invalid_state` and changes nothing. A rejected request is answered with
/// its error. With every file present the request is answered with full
/// progress and `done`. In both cases the guard is free again. Else the
/// campaign starts with the progress of what is present, and holds the guard.
pub open spec fn download_start_of(
    busy: bool,
    keys: Seq<Seq<char>>,
    manifest: ModelManifestView,
    disk: Seq<FileProbeView>,
) -> (DownloadStartView, bool) {
    if busy {
        (
            DownloadStartView {
                events: seq![DownloadEventView::Error(err_already_running())],
                campaign: None,
            },
            true,
        )
    } else {
        match plan_of(keys, manifest, disk) {
            DownloadPlanView::Rejected(e) => (
                DownloadStartView { events: seq![DownloadEventView::Error(e)], campaign: None },
                false,
            ),
            DownloadPlanView::Complete(p) => (
                DownloadStartView {
                    events: seq![DownloadEventView::Progress(p), DownloadEventView::Done],
                    campaign: None,
                },
                false,
            ),
            DownloadPlanView::Fetch { pending, bytes_total, bytes_present } => (
                DownloadStartView {
                    events: seq![
                        DownloadEventView::Progress(
                            DownloadProgress { bytes_downloaded: bytes_present, bytes_total },
                        ),
                    ],
                    campaign: Some(
                        CampaignView { pending, bytes_total, bytes_offset: bytes_present },
                    ),
                },
                true,
            ),
        }
    }
}

/// Answers a download request, given the manifest and what is on disk.
pub fn handle_download_start(
    guard: &mut SingleFlight,
    required_keys: &[&str],
    manifest: &ModelManifest,
    disk: &DiskSnapshot,
) -> (start: DownloadStart)
    ensures
        (start@, final(guard)@) == download_start_of(
            old(guard)@,
            strs_view(required_keys@),
            manifest@,
            disk@,
        ),
{
    let mut events: Vec<DownloadEvent> = Vec::new();
    match guard.try_begin() {
        Err(e) => {
            let event = DownloadEvent::Error(e);
            events.push(event);
            assert(download_events_view(events@) =~= seq![event@]);
            return DownloadStart { events, campaign: None };
        },
        Ok(()) => {},
    }
    match plan_download(required_keys, manifest, disk) {
        DownloadPlan::Rejected(e) => {
            guard.end();
            let event = DownloadEvent::Error(e);
            events.push(event);
            assert(download_events_view(events@) =~= seq![event@]);
            DownloadStart { events, campaign: None }
        },
        DownloadPlan::Complete(p) => {
            guard.end();
            events.push(DownloadEvent::Progress(p));
            events.push(DownloadEvent::Done);
            assert(download_events_view(events@) =~= seq![
                DownloadEventView::Progress(p),
                DownloadEventView::Done,
            ]);
            DownloadStart { events, campaign: None }
        },
        DownloadPlan::Fetch { pending, bytes_total, bytes_present } => {
            let (campaign, progress) = Campaign::new(pending, bytes_total, bytes_present);
            events.push(DownloadEvent::Progress(progress));
            assert(download_events_view(events@) =~= seq![DownloadEventView::Progress(progress)]);
            DownloadStart { events, campaign: Some(campaign) }
        },
    }
}

/// The events that end a campaign: the final progress and `done`, or the
/// error.
pub open spec fn finish_events(outcome: Result<DownloadProgress, AudioModelsErrorView>) -> Seq<
    DownloadEventView,
> {
    match outcome {
        Ok(p) => seq![DownloadEventView::Progress(p), DownloadEventView::Done],
        Err(e) => seq![DownloadEventView::Error(e)],
    }
}

/// What the outcome of a campaign stands for.
pub open spec fn campaign_outcome_view(r: Result<DownloadProgress, AudioModelsError>) -> Result<
    DownloadProgress,
    AudioModelsErrorView,
> {
    match r {
        Ok(p) => Ok(p),
        Err(e) => Err(e@),
    }
}

/// Ends a campaign, however it ended: releases the guard and gives the
/// events to emit.
pub fn finish_download(guard: &mut SingleFlight, outcome: Result<DownloadProgress, AudioModelsError>) -> (events:
    Vec<DownloadEvent>)
    ensures
        !final(guard)@,
        download_events_view(events@) == finish_events(campaign_outcome_view(outcome)),
{
    guard.end();
    let mut events: Vec<DownloadEvent> = Vec::new();
    match outcome {
        Ok(p) => {
            events.push(DownloadEvent::Progress(p));
            events.push(DownloadEvent::Done);
            assert(download_events_view(events@) =~= seq![
                DownloadEventView::Progress(p),
                DownloadEventView::Done,
            ]);
        },
        Err(e) => {
            let event = DownloadEvent::Error(e);
            events.push(event);
            assert(download_events_view(events@) =~= seq![event@]);
        },
    }
    events
}

} // verus!
