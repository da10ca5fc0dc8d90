//! Content-decryption pipeline for a streaming client: per-track stream keys,
//! the chunked stream cipher, legacy stream URLs and the audio format model.

pub mod crypto;
pub mod text;
pub mod legacy_url;
pub mod models;
pub mod cli;
pub mod download;
pub mod session;
