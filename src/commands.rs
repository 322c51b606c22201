use vstd::prelude::*;

use crate::metadata::ContainerFormat;

verus! {

/// The probe's options before the file name: no banner, a JSON report of
/// the container format and of the streams.
pub open spec fn probe_options_of() -> Seq<Seq<char>> {
    seq!["-v"@, "quiet"@, "-print_format"@, "json"@, "-show_format"@, "-show_streams"@]
}

/// The transcoder's options between the input and the output file: Ogg
/// files need their first stream's tags mapped onto the output, FLAC files
/// carry theirs over by themselves.
pub open spec fn transcode_options_of(container_format: ContainerFormat) -> Seq<Seq<char>> {
    match container_format {
        ContainerFormat::Ogg => seq!["-map_metadata"@, "0:s:0"@],
        ContainerFormat::Flac => Seq::empty(),
    }
}

pub fn probe_options() -> (r: Vec<&'static str>)
    ensures
        r@.map_values(|s: &str| s@) == probe_options_of(),
{
    let r = vec!["-v", "quiet", "-print_format", "json", "-show_format", "-show_streams"];
    assert(r@.map_values(|s: &str| s@) =~= probe_options_of());
    r
}

pub fn transcode_options(container_format: ContainerFormat) -> (r: Vec<&'static str>)
    ensures
        r@.map_values(|s: &str| s@) == transcode_options_of(container_format),
{
    let r = match container_format {
        ContainerFormat::Ogg => vec!["-map_metadata", "0:s:0"],
        ContainerFormat::Flac => Vec::new(),
    };
    assert(r@.map_values(|s: &str| s@) =~= transcode_options_of(container_format));
    r
}

} // verus!
