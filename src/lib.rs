//! Loading and resolving soundboard manifests.
//!
//! A manifest is TOML text listing audio clips with their playback
//! parameters and action buttons. Decoding turns the text into a
//! [`manifest::Manifest`]; resolution then makes every clip path absolute
//! against the manifest's own directory and fills in default names.
pub mod decode;
pub mod document;
pub mod error;
pub mod manifest;
pub mod paths;
pub mod resolve;
