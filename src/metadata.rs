use vstd::prelude::*;

use crate::json::{field, first_element, is_object, parse_json, parsed_json, text_field, Json, JsonError};

verus! {

/// The container formats whose files are converted.
#[derive(Debug, Clone, Copy, PartialEq, Eq, Structural)]
pub enum ContainerFormat {
    Ogg,
    Flac,
}

/// What is known of a media file: its container and the tags that place
/// it in the artist/album tree. A record exists only when every field could
/// be read.
#[derive(Debug, Clone)]
pub struct Metadata {
    pub container_format: ContainerFormat,
    pub title: String,
    pub album: String,
    pub album_artist: String,
    pub track: usize,
    pub disc: usize,
}

/// The mathematical value of a [`Metadata`] record.
pub struct MetadataView {
    pub container_format: ContainerFormat,
    pub title: Seq<char>,
    pub album: Seq<char>,
    pub album_artist: Seq<char>,
    pub track: nat,
    pub disc: nat,
}

impl View for Metadata {
    type V = MetadataView;

    open spec fn view(&self) -> MetadataView {
        MetadataView {
            container_format: self.container_format,
            title: self.title@,
            album: self.album@,
            album_artist: self.album_artist@,
            track: self.track as nat,
            disc: self.disc as nat,
        }
    }
}

/// Whether two string slices hold the same characters.
pub(crate) fn str_equals(a: &str, b: &str) -> (r: bool)
    ensures
        r == (a@ == b@),
{
    let n = a.unicode_len();
    if n != b.unicode_len() {
        return false;
    }
    let mut i: usize = 0;
    while i < n
        invariant
            n == a@.len(),
            n == b@.len(),
            i <= n,
            a@.subrange(0, i as int) == b@.subrange(0, i as int),
        decreases n - i,
    {
        if a.get_char(i) != b.get_char(i) {
            return false;
        }
        assert(a@.subrange(0, i + 1) =~= a@.subrange(0, i as int).push(a@[i as int]));
        assert(b@.subrange(0, i + 1) =~= b@.subrange(0, i as int).push(b@[i as int]));
        i = i + 1;
    }
    assert(a@ =~= a@.subrange(0, n as int));
    assert(b@ =~= b@.subrange(0, n as int));
    true
}

pub open spec fn ogg_name() -> Seq<char> {
    seq!['o', 'g', 'g']
}

pub open spec fn flac_name() -> Seq<char> {
    seq!['f', 'l', 'a', 'c']
}

/// The container format that a probe's format name stands for.
pub open spec fn format_of_name(name: Seq<char>) -> Option<ContainerFormat> {
    if name == ogg_name() {
        Some(ContainerFormat::Ogg)
    } else if name == flac_name() {
        Some(ContainerFormat::Flac)
    } else {
        None
    }
}

impl ContainerFormat {
    /// Recognises the format names "ogg" and "flac"; any other name is not
    /// a container format of this library.
    pub fn from_name(name: &str) -> (r: Option<Self>)
        ensures
            r == format_of_name(name@),
    {
        proof {
            reveal_strlit("ogg");
            reveal_strlit("flac");
        }
        if str_equals(name, "ogg") {
            assert("ogg"@ =~= ogg_name());
            Some(ContainerFormat::Ogg)
        } else if str_equals(name, "flac") {
            assert("flac"@ =~= flac_name());
            assert("ogg"@ =~= ogg_name());
            Some(ContainerFormat::Flac)
        } else {
            assert("flac"@ =~= flac_name());
            assert("ogg"@ =~= ogg_name());
            None
        }
    }
}

pub open spec fn is_digit(c: char) -> bool {
    '0' <= c && c <= '9'
}

/// The run of decimal digits that `s` starts with.
pub open spec fn leading_digits(s: Seq<char>) -> Seq<char>
    decreases s.len(),
{
    if s.len() > 0 && is_digit(s[0]) {
        seq![s[0]] + leading_digits(s.drop_first())
    } else {
        Seq::empty()
    }
}

pub open spec fn digit_value(c: char) -> nat {
    (c as u32 - '0' as u32) as nat
}

/// The number that a string of decimal digits denotes.
pub open spec fn digits_value(d: Seq<char>) -> nat
    decreases d.len(),
{
    if d.len() == 0 {
        0
    } else {
        digits_value(d.drop_last()) * 10 + digit_value(d.last())
    }
}

/// The number that a track or disc tag starts with (`7` of `7/20`), when
/// it starts with a digit and the number fits in `usize`.
pub open spec fn index_of(s: Seq<char>) -> Option<nat> {
    let d = leading_digits(s);
    if d.len() > 0 && digits_value(d) <= usize::MAX {
        Some(digits_value(d))
    } else {
        None
    }
}

proof fn lemma_leading_digits(s: Seq<char>, k: int)
    requires
        0 <= k <= s.len(),
        forall|j: int| 0 <= j < k ==> is_digit(s[j]),
        k == s.len() || !is_digit(s[k]),
    ensures
        leading_digits(s) == s.subrange(0, k),
    decreases k,
{
    if k > 0 {
        lemma_leading_digits(s.drop_first(), k - 1);
        assert(s.subrange(0, k) =~= seq![s[0]] + s.drop_first().subrange(0, k - 1));
    } else {
        assert(s.subrange(0, 0) =~= Seq::<char>::empty());
    }
}

proof fn lemma_digits_value_prefix(d: Seq<char>, i: int)
    requires
        0 <= i <= d.len(),
    ensures
        digits_value(d.subrange(0, i)) <= digits_value(d),
    decreases d.len(),
{
    if i < d.len() {
        lemma_digits_value_prefix(d.drop_last(), i);
        assert(d.drop_last().subrange(0, i) =~= d.subrange(0, i));
    } else {
        assert(d.subrange(0, i) =~= d);
    }
}

/// Filters a track number.
///
/// Useful because some `track` metadata tags include the total number of
/// tracks, like in `7/20` instead of just `7`. The same thing happens for
/// disc numbers.
pub fn trim_index(s: &str) -> (r: Option<&str>)
    ensures
        r matches Some(d) && d@ == leading_digits(s@),
{
    let n = s.unicode_len();
    let mut k: usize = 0;
    let mut stop = false;
    while k < n && !stop
        invariant
            n == s@.len(),
            k <= n,
            forall|j: int| 0 <= j < k ==> is_digit(s@[j]),
            stop ==> k < n && !is_digit(s@[k as int]),
        decreases n - k, if stop { 0int } else { 1int },
    {
        let c = s.get_char(k);
        if '0' <= c && c <= '9' {
            k = k + 1;
        } else {
            stop = true;
        }
    }
    proof {
        lemma_leading_digits(s@, k as int);
    }
    Some(s.substring_char(0, k))
}

/// The number that a string of decimal digits denotes, when it has a digit
/// and the number fits in `usize`.
fn parse_digits(d: &str) -> (r: Option<usize>)
    requires
        forall|j: int| 0 <= j < d@.len() ==> is_digit(d@[j]),
    ensures
        r == (if d@.len() > 0 && digits_value(d@) <= usize::MAX {
            Some(digits_value(d@) as usize)
        } else {
            None
        }),
{
    let n = d.unicode_len();
    if n == 0 {
        return None;
    }
    let mut v: usize = 0;
    let mut i: usize = 0;
    while i < n
        invariant
            n == d@.len(),
            i <= n,
            forall|j: int| 0 <= j < d@.len() ==> is_digit(d@[j]),
            v as nat == digits_value(d@.subrange(0, i as int)),
        decreases n - i,
    {
        let c = d.get_char(i);
        let g = (c as u32 - '0' as u32) as usize;
        assert(d@.subrange(0, i + 1).drop_last() =~= d@.subrange(0, i as int));
        assert(g as nat == digit_value(d@[i as int]));
        if v > (usize::MAX - g) / 10 {
            assert(v * 10 + g > usize::MAX) by (nonlinear_arith)
                requires
                    v > (usize::MAX - g) / 10,
                    g <= 9,
            ;
            proof {
                lemma_digits_value_prefix(d@, i + 1);
            }
            return None;
        }
        assert(v * 10 + g <= usize::MAX) by (nonlinear_arith)
            requires
                v <= (usize::MAX - g) / 10,
                g <= 9,
        ;
        v = v * 10 + g;
        i = i + 1;
    }
    assert(d@.subrange(0, n as int) =~= d@);
    Some(v)
}

/// The number that a track or disc tag starts with.
fn parse_index(s: &str) -> (r: Option<usize>)
    ensures
        r matches Some(v) ==> index_of(s@) == Some(v as nat),
        r is None ==> index_of(s@) is None,
{
    match trim_index(s) {
        Some(d) => {
            proof {
                lemma_leading_digits_are_digits(s@);
            }
            parse_digits(d)
        },
        None => None,
    }
}

proof fn lemma_leading_digits_are_digits(s: Seq<char>)
    ensures
        forall|j: int| 0 <= j < leading_digits(s).len() ==> is_digit(#[trigger] leading_digits(s)[j]),
    decreases s.len(),
{
    if s.len() > 0 && is_digit(s[0]) {
        lemma_leading_digits_are_digits(s.drop_first());
        let rest = leading_digits(s.drop_first());
        assert forall|j: int| 0 <= j < leading_digits(s).len() implies is_digit(
            #[trigger] leading_digits(s)[j],
        ) by {
            if j > 0 {
                assert(leading_digits(s)[j] == rest[j - 1]);
            }
        }
    }
}

/// The format section of a probe's report, when it is an object.
pub open spec fn format_section(root: Json) -> Option<Json> {
    match field(root, "format"@) {
        Some(f) => if is_object(f) {
            Some(f)
        } else {
            None
        },
        None => None,
    }
}

/// Where the tags of a file stand in a probe's report: in the format
/// section for FLAC, on the first stream for Ogg.
pub open spec fn tag_section(root: Json, container_format: ContainerFormat) -> Option<Json> {
    let t = match container_format {
        ContainerFormat::Flac => match format_section(root) {
            Some(f) => field(f, "tags"@),
            None => None,
        },
        ContainerFormat::Ogg => match field(root, "streams"@) {
            Some(streams) => match first_element(streams) {
                Some(s) => field(s, "tags"@),
                None => None,
            },
            None => None,
        },
    };
    match t {
        Some(x) => if is_object(x) {
            Some(x)
        } else {
            None
        },
        None => None,
    }
}

/// The track number of a tag section; required.
pub open spec fn track_of(tags: Json) -> Option<nat> {
    match text_field(tags, "track"@) {
        Some(s) => index_of(s),
        None => None,
    }
}

/// The disc number of a tag section; 1 where it is absent or not a number.
pub open spec fn disc_of(tags: Json) -> nat {
    match text_field(tags, "disc"@) {
        Some(s) => match index_of(s) {
            Some(n) => n,
            None => 1,
        },
        None => 1,
    }
}

/// The record that a probe's report describes, when it has every field.
pub open spec fn metadata_of(root: Json) -> Option<MetadataView> {
    match format_section(root) {
        None => None,
        Some(f) => match text_field(f, "format_name"@) {
            None => None,
            Some(name) => match format_of_name(name) {
                None => None,
                Some(cf) => match tag_section(root, cf) {
                    None => None,
                    Some(tags) => match (
                        text_field(tags, "TITLE"@),
                        text_field(tags, "ALBUM"@),
                        text_field(tags, "album_artist"@),
                        track_of(tags),
                    ) {
                        (Some(title), Some(album), Some(album_artist), Some(track)) => Some(
                            MetadataView {
                                container_format: cf,
                                title,
                                album,
                                album_artist,
                                track,
                                disc: disc_of(tags),
                            },
                        ),
                        _ => None,
                    },
                },
            },
        },
    }
}

/// A report whose tags have no disc member gives a record on disc 1.
pub proof fn lemma_absent_disc_is_one(root: Json, container_format: ContainerFormat, tags: Json)
    requires
        format_section(root) matches Some(f) && text_field(f, "format_name"@) matches Some(name)
            && format_of_name(name) == Some(container_format),
        tag_section(root, container_format) == Some(tags),
        field(tags, "disc"@) is None,
    ensures
        metadata_of(root) matches Some(m) ==> m.disc == 1,
{
}

/// A FLAC report whose format section's tags have no ALBUM member gives no
/// record.
pub proof fn lemma_flac_without_album(root: Json)
    requires
        format_section(root) matches Some(f) && text_field(f, "format_name"@) == Some(flac_name()),
        tag_section(root, ContainerFormat::Flac) matches Some(tags) ==> field(tags, "ALBUM"@) is None,
    ensures
        metadata_of(root) is None,
{
}

/// An Ogg report takes its record from the tags of its first stream: two
/// Ogg reports whose first streams carry the same tags give the same
/// record, whatever tags their format sections carry, and one whose first
/// stream carries no tags gives none.
pub proof fn lemma_ogg_tags_on_first_stream(a: Json, b: Json)
    requires
        format_section(a) matches Some(f) && text_field(f, "format_name"@) == Some(ogg_name()),
        format_section(b) matches Some(f) && text_field(f, "format_name"@) == Some(ogg_name()),
    ensures
        tag_section(a, ContainerFormat::Ogg) == tag_section(b, ContainerFormat::Ogg) ==> metadata_of(
            a,
        ) == metadata_of(b),
        tag_section(a, ContainerFormat::Ogg) is None ==> metadata_of(a) is None,
{
}

fn text_member(v: &Json, key: &str) -> (r: Option<String>)
    ensures
        r matches Some(s) ==> text_field(*v, key@) == Some(s@),
        r is None ==> text_field(*v, key@) is None,
{
    match v.get(key) {
        Some(x) => match x.as_str() {
            Some(s) => Some(s.to_owned()),
            None => None,
        },
        None => None,
    }
}

impl Metadata {
    /// Reads the record of a media file from what the probe printed of it:
    /// `None` when the probe failed on the file; an error when what it
    /// printed is not JSON; else the record, when the report holds one.
    pub fn new(probe_stdout: Option<&[u8]>) -> (r: Result<Option<Self>, JsonError>)
        ensures
            probe_stdout is None ==> r matches Ok(None),
            probe_stdout matches Some(b) ==> {
                &&& r is Err <==> parsed_json(b@) is None
                &&& r matches Ok(found) ==> parsed_json(b@) matches Some(root) && match found {
                    Some(m) => metadata_of(root) == Some(m@),
                    None => metadata_of(root) is None,
                }
            },
    {
        match probe_stdout {
            Some(bytes) => {
                let root = parse_json(bytes)?;
                Ok(Self::from_ffprobe_json(&root))
            },
            None => Ok(None),
        }
    }

    /// Reads the record from a probe's report; `None` at the first field
    /// that is missing or of the wrong kind.
    pub fn from_ffprobe_json(v: &Json) -> (r: Option<Self>)
        ensures
            r matches Some(m) ==> metadata_of(*v) == Some(m@),
            r is None ==> metadata_of(*v) is None,
    {
        let format = match v.get("format") {
            Some(f) => f,
            None => return None,
        };
        if !format.is_object() {
            return None;
        }
        let format_name = match text_member(format, "format_name") {
            Some(n) => n,
            None => return None,
        };
        let container_format = match ContainerFormat::from_name(format_name.as_str()) {
            Some(c) => c,
            None => return None,
        };
        // FLAC keeps its tags in the format section, Ogg on its first stream.
        let tags = match container_format {
            ContainerFormat::Flac => match format.get("tags") {
                Some(t) => t,
                None => return None,
            },
            ContainerFormat::Ogg => match v.get("streams") {
                Some(streams) => match streams.first() {
                    Some(first) => match first.get("tags") {
                        Some(t) => t,
                        None => return None,
                    },
                    None => return None,
                },
                None => return None,
            },
        };
        if !tags.is_object() {
            return None;
        }
        let title = match text_member(tags, "TITLE") {
            Some(s) => s,
            None => return None,
        };
        let album = match text_member(tags, "ALBUM") {
            Some(s) => s,
            None => return None,
        };
        let album_artist = match text_member(tags, "album_artist") {
            Some(s) => s,
            None => return None,
        };
        let track = match tags.get("track") {
            Some(x) => match x.as_str() {
                Some(s) => match parse_index(s) {
                    Some(n) => n,
                    None => return None,
                },
                None => return None,
            },
            None => return None,
        };
        let disc = match tags.get("disc") {
            Some(x) => match x.as_str() {
                Some(s) => match parse_index(s) {
                    Some(n) => n,
                    None => 1,
                },
                None => 1,
            },
            None => 1,
        };
        Some(Metadata { container_format, title, album, album_artist, track, disc })
    }
}

} // verus!
