//! What a readiness query answers: for each required model how much of it is
//! on disk, and the classification that follows.

use crate::errors::{context_view, strings_view, ContextEntry, ContextEntryView, ErrorCode};
use vstd::prelude::*;

verus! {

/// How much of one model is installed.
#[derive(Clone, Debug)]
pub struct ModelInstallStatus {
    pub key: String,
    pub repo_dirname: String,
    pub revision_sha: String,
    pub total_files: usize,
    pub present_files: usize,
    pub total_bytes: u64,
    pub present_bytes: u64,
}

/// What a `ModelInstallStatus` stands for.
pub struct ModelInstallStatusView {
    pub key: Seq<char>,
    pub repo_dirname: Seq<char>,
    pub revision_sha: Seq<char>,
    pub total_files: usize,
    pub present_files: usize,
    pub total_bytes: u64,
    pub present_bytes: u64,
}

impl View for ModelInstallStatus {
    type V = ModelInstallStatusView;

    open spec fn view(&self) -> ModelInstallStatusView {
        ModelInstallStatusView {
            key: self.key@,
            repo_dirname: self.repo_dirname@,
            revision_sha: self.revision_sha@,
            total_files: self.total_files,
            present_files: self.present_files,
            total_bytes: self.total_bytes,
            present_bytes: self.present_bytes,
        }
    }
}

/// What a list of per-model statuses stands for.
pub open spec fn statuses_view(v: Seq<ModelInstallStatus>) -> Seq<ModelInstallStatusView> {
    v.map_values(|s: ModelInstallStatus| s@)
}

/// The readiness of the model assets.
#[derive(Clone, Debug)]
pub enum AudioModelsStatus {
    /// The manifest lacks what is needed to tell; `missing` names the fields.
    ManifestIncomplete { message: String, missing: Vec<String> },
    /// Some required file is absent or has the wrong size.
    NotInstalled {
        models_dir: String,
        total_files: usize,
        present_files: usize,
        total_bytes: u64,
        present_bytes: u64,
        models: Vec<ModelInstallStatus>,
    },
    /// Every required file is on disk with its declared size.
    Ready { models_dir: String, total_files: usize, total_bytes: u64, models: Vec<ModelInstallStatus> },
    /// The query failed.
    Error { code: ErrorCode, message: String, context: Vec<ContextEntry> },
}

/// What an `AudioModelsStatus` stands for.
pub enum AudioModelsStatusView {
    ManifestIncomplete { message: Seq<char>, missing: Seq<Seq<char>> },
    NotInstalled {
        models_dir: Seq<char>,
        total_files: usize,
        present_files: usize,
        total_bytes: u64,
        present_bytes: u64,
        models: Seq<ModelInstallStatusView>,
    },
    Ready {
        models_dir: Seq<char>,
        total_files: usize,
        total_bytes: u64,
        models: Seq<ModelInstallStatusView>,
    },
    Error { code: ErrorCode, message: Seq<char>, context: Seq<ContextEntryView> },
}

impl View for AudioModelsStatus {
    type V = AudioModelsStatusView;

    open spec fn view(&self) -> AudioModelsStatusView {
        match self {
            AudioModelsStatus::ManifestIncomplete { message, missing } => {
                AudioModelsStatusView::ManifestIncomplete {
                    message: message@,
                    missing: strings_view(missing@),
                }
            },
            AudioModelsStatus::NotInstalled {
                models_dir,
                total_files,
                present_files,
                total_bytes,
                present_bytes,
                models,
            } => AudioModelsStatusView::NotInstalled {
                models_dir: models_dir@,
                total_files: *total_files,
                present_files: *present_files,
                total_bytes: *total_bytes,
                present_bytes: *present_bytes,
                models: statuses_view(models@),
            },
            AudioModelsStatus::Ready { models_dir, total_files, total_bytes, models } => {
                AudioModelsStatusView::Ready {
                    models_dir: models_dir@,
                    total_files: *total_files,
                    total_bytes: *total_bytes,
                    models: statuses_view(models@),
                }
            },
            AudioModelsStatus::Error { code, message, context } => AudioModelsStatusView::Error {
                code: *code,
                message: message@,
                context: context_view(context@),
            },
        }
    }
}

impl AudioModelsStatus {
    /// The assets are ready for dictation.
    pub fn is_ready(&self) -> (r: bool)
        ensures
            r == (self@ is Ready),
    {
        match self {
            AudioModelsStatus::Ready { .. } => true,
            _ => false,
        }
    }
}

} // verus!
