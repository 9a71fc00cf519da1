//! Data model and file-format logic for a GUI editor of espanso's
//! configuration and match files.
//!
//! The crate holds the pieces that do not touch a window or the file
//! system: the match-entry and configuration records, the YAML/JSON
//! text codecs for them, the edit-session state with its dirty
//! checking, and the validity rules for directories and file names.
//! A thin shell is expected to do the actual reading, writing and
//! rendering around these functions.

pub mod config;
pub mod config_codec;
pub mod match_codec;
pub mod matches;
pub mod num;
pub mod paths;
pub mod prefs;
pub mod quoted;
pub mod scan;
pub mod separators;
pub mod session;
pub mod text;
