//! Sorting of FLAC and Ogg files into an artist/album tree of MP3 files:
//! reading the tags that a probe reports, naming each output file, and
//! planning which conversions are still to be done.

use vstd::prelude::*;

mod commands;
mod json;
mod metadata;
mod naming;
mod plan;

pub use commands::{probe_options, transcode_options};
pub use json::{parse_json, Json, JsonError};
pub use metadata::{trim_index, ContainerFormat, Metadata};
pub use naming::{file_name, without_slashes, FILE_NAME_MAXIMUM_LENGTH};
pub use plan::{AlbumGroup, ConversionJob, Plan};

verus! {

#[verifier::external_type_specification]
#[verifier::external_body]
pub struct ExPathBuf(std::path::PathBuf);

/// The arguments of a run: the tree of media files and the tree of MP3
/// files that is built from it.
pub struct Cli {
    pub src: std::path::PathBuf,
    pub dst: std::path::PathBuf,
}

} // verus!
