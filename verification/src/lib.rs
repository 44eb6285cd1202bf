//! Core logic of a photo-folder cleanup tool.
//!
//! A RAW folder holds camera originals (extension `arw`); its `JPG` child
//! folder holds rendered copies (`jpg`/`jpeg`). A rendered copy whose
//! filename stem has no matching RAW original is a leftover and may be
//! deleted. This library contains the verified parts of that pipeline:
//! splitting a file's base name into stem and lowercased extension,
//! filtering directory listings by extension, computing the unmatched
//! candidates, classifying the result of a deletion attempt, and
//! rendering the report lines. Directory listing and the file-manager
//! automation calls themselves live outside the library.

pub mod dedup;
pub mod filename;
pub mod outcome;
pub mod pipeline;
pub mod scan;
pub mod seq_facts;
pub mod text;
