//! Renaming files from templates.
//!
//! A file's *fragments* are named strings: some come from the file's
//! metadata, others from transformer programs that read the current fragments
//! and answer with more. A *template* such as `#date#_(#artist#|unknown).#extension#`
//! is rendered against the fragments to give the file's new name.
//!
//! This library holds the rules; it performs no I/O. Callers observe the
//! filesystem and run the transformers, and hand over what they saw.

pub mod text;
pub mod fragments;
pub mod template;
pub mod template_laws;
pub mod file_info;
pub mod json;
pub mod file;
pub mod args;

pub use file::File;
pub use file_info::FileInfo;
pub use fragments::Fragments;
pub use template::Template;
