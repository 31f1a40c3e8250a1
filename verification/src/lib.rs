//! Audio ingestion and transcription pipeline of a voice-memo service.

pub mod api_error;
pub mod audio_storage;
pub mod claims;
pub mod config;
pub mod database;
pub mod driver;
pub mod ledger;
pub mod models;
pub mod routes;
pub mod stt;
pub mod text;
pub mod whisper;
