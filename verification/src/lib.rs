//! Verified core of a desktop assistant's speech subsystem: readiness of the
//! on-disk model assets, their download campaigns, the recognizer's wire
//! protocol and the supervision of dictation sessions.

pub mod checksum;
pub mod dictation;
pub mod download;
pub mod errors;
pub mod events;
pub mod json;
pub mod manifest;
pub mod paths;
pub mod readiness;
pub mod records;
pub mod sandbox;
pub mod schedule;
pub mod sessions;
pub mod status;
pub mod text;
pub mod transcription;
pub mod voice;
