//! The asset manifest: which model files the recognizer needs, where they
//! come from, and what size and checksum each must have.

use vstd::prelude::*;

verus! {

/// One file of a model.
#[derive(Clone, Debug)]
pub struct ModelFile {
    /// Where the file is installed, relative to the model's directory.
    pub path: String,
    pub download_url: String,
    /// Expected SHA-256 in hex. Blank: the checksum is not verified.
    pub sha256: String,
    /// Expected size in bytes.
    pub size: u64,
}

/// What a `ModelFile` stands for.
pub struct ModelFileView {
    pub path: Seq<char>,
    pub download_url: Seq<char>,
    pub sha256: Seq<char>,
    pub size: u64,
}

impl View for ModelFile {
    type V = ModelFileView;

    open spec fn view(&self) -> ModelFileView {
        ModelFileView {
            path: self.path@,
            download_url: self.download_url@,
            sha256: self.sha256@,
            size: self.size,
        }
    }
}

/// The files of a model on this platform, at one revision.
#[derive(Clone, Debug)]
pub struct MacosManifest {
    pub revision_sha: String,
    pub files: Vec<ModelFile>,
}

/// What a `MacosManifest` stands for.
pub struct MacosManifestView {
    pub revision_sha: Seq<char>,
    pub files: Seq<ModelFileView>,
}

/// What a list of model files stands for.
pub open spec fn files_view(v: Seq<ModelFile>) -> Seq<ModelFileView> {
    v.map_values(|f: ModelFile| f@)
}

impl View for MacosManifest {
    type V = MacosManifestView;

    open spec fn view(&self) -> MacosManifestView {
        MacosManifestView { revision_sha: self.revision_sha@, files: files_view(self.files@) }
    }
}

/// One model of the manifest.
#[derive(Clone, Debug)]
pub struct ModelSpec {
    /// Unique within the manifest.
    pub key: String,
    /// Directory of the model, relative to the models directory.
    pub repo_dirname: String,
    pub model_id: String,
    pub source_page_url: String,
    pub macos: MacosManifest,
}

/// What a `ModelSpec` stands for.
pub struct ModelSpecView {
    pub key: Seq<char>,
    pub repo_dirname: Seq<char>,
    pub model_id: Seq<char>,
    pub source_page_url: Seq<char>,
    pub macos: MacosManifestView,
}

impl View for ModelSpec {
    type V = ModelSpecView;

    open spec fn view(&self) -> ModelSpecView {
        ModelSpecView {
            key: self.key@,
            repo_dirname: self.repo_dirname@,
            model_id: self.model_id@,
            source_page_url: self.source_page_url@,
            macos: self.macos@,
        }
    }
}

/// What a list of models stands for.
pub open spec fn models_view(v: Seq<ModelSpec>) -> Seq<ModelSpecView> {
    v.map_values(|m: ModelSpec| m@)
}

/// The manifest: its models, in the order in which they are declared.
#[derive(Clone, Debug)]
pub struct ModelManifest {
    pub models: Vec<ModelSpec>,
}

/// What a `ModelManifest` stands for.
pub struct ModelManifestView {
    pub models: Seq<ModelSpecView>,
}

impl View for ModelManifest {
    type V = ModelManifestView;

    open spec fn view(&self) -> ModelManifestView {
        ModelManifestView { models: models_view(self.models@) }
    }
}

/// The keys of the models, in order.
pub open spec fn model_keys(models: Seq<ModelSpecView>) -> Seq<Seq<char>> {
    models.map_values(|m: ModelSpecView| m.key)
}

/// The keys of the models that dictation cannot do without.
pub open spec fn required_model_keys_view() -> Seq<Seq<char>> {
    seq!["asr_tdt_v3"@, "silero_vad_v6"@]
}

/// The keys of the models that dictation cannot do without.
pub fn required_model_keys() -> (keys: Vec<&'static str>)
    ensures
        crate::errors::strs_view(keys@) == required_model_keys_view(),
{
    let mut keys: Vec<&'static str> = Vec::new();
    keys.push("asr_tdt_v3");
    keys.push("silero_vad_v6");
    assert(crate::errors::strs_view(keys@) =~= required_model_keys_view());
    keys
}

} // verus!
