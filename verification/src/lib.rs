//! Password-based AES-128 encryption of files and of image framebuffers under
//! one of four modes of operation: ECB, CBC, CFB and CTR.
//!
//! The block cipher, the hash and the random source come from other crates and
//! are reached through the small trusted layer in [`primitives`]. Everything
//! else is verified: key derivation, mode selection, the dispatch to the four
//! constructions, and the shaping of the output for flat and image payloads.

pub mod block;
pub mod primitives;
pub mod key;
pub mod modes;
pub mod failure;
pub mod selector;
pub mod engine;
pub mod payload;
pub mod laws;
