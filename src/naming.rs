use vstd::prelude::*;

use crate::metadata::Metadata;

verus! {

/// The longest file name, in characters, that is ever produced.
pub const FILE_NAME_MAXIMUM_LENGTH: usize = 63;

pub open spec fn digit_chars() -> Seq<char> {
    seq!['0', '1', '2', '3', '4', '5', '6', '7', '8', '9']
}

/// The decimal digits of `n`, without leading zeros.
pub open spec fn decimal(n: nat) -> Seq<char>
    decreases n,
{
    if n < 10 {
        seq![digit_chars()[n as int]]
    } else {
        decimal(n / 10) + seq![digit_chars()[(n % 10) as int]]
    }
}

/// The decimal digits of `n`, padded with a zero to at least two digits.
pub open spec fn padded2(n: nat) -> Seq<char> {
    if n < 10 {
        seq!['0'] + decimal(n)
    } else {
        decimal(n)
    }
}

/// `s` with every slash turned into a hyphen.
pub open spec fn slashless(s: Seq<char>) -> Seq<char> {
    Seq::new(s.len(), |i: int| if s[i] == '/' { '-' } else { s[i] })
}

pub open spec fn disc_word() -> Seq<char> {
    seq!['D', 'i', 's', 'c', ' ']
}

pub open spec fn separator() -> Seq<char> {
    seq![' ', '-', ' ']
}

pub open spec fn extension() -> Seq<char> {
    seq!['.', 'm', 'p', '3']
}

pub open spec fn marker() -> Seq<char> {
    seq!['-', '-', '-']
}

/// The name `Disc {disc} - {track:02} - {title}.mp3` before any shortening.
pub open spec fn candidate_name(disc: nat, track: nat, title: Seq<char>) -> Seq<char> {
    disc_word() + decimal(disc) + separator() + padded2(track) + separator() + slashless(title)
        + extension()
}

/// The output file name: the candidate name when it is short enough, else
/// its first characters followed by `---.mp3`, in exactly the maximum length.
pub open spec fn file_name_of(disc: nat, track: nat, title: Seq<char>) -> Seq<char> {
    let c = candidate_name(disc, track, title);
    if c.len() <= FILE_NAME_MAXIMUM_LENGTH {
        c
    } else {
        c.subrange(0, FILE_NAME_MAXIMUM_LENGTH - 7) + marker() + extension()
    }
}

pub open spec fn ends_with(s: Seq<char>, t: Seq<char>) -> bool {
    t.len() <= s.len() && s.subrange(s.len() - t.len(), s.len() as int) == t
}

pub open spec fn has_no_slash(s: Seq<char>) -> bool {
    forall|i: int| 0 <= i < s.len() ==> s[i] != '/'
}

proof fn lemma_decimal_has_no_slash(n: nat)
    ensures
        has_no_slash(decimal(n)),
        decimal(n).len() >= 1,
    decreases n,
{
    if n >= 10 {
        lemma_decimal_has_no_slash(n / 10);
    }
}

proof fn lemma_candidate_ends_with_extension(disc: nat, track: nat, title: Seq<char>)
    ensures
        ends_with(candidate_name(disc, track, title), extension()),
{
    let c = candidate_name(disc, track, title);
    let front = disc_word() + decimal(disc) + separator() + padded2(track) + separator()
        + slashless(title);
    assert(c == front + extension());
    assert(c.subrange(c.len() - 4, c.len() as int) =~= extension());
}

/// Every file name is at most the maximum length and ends in `.mp3`.
pub proof fn lemma_file_name_bounded(disc: nat, track: nat, title: Seq<char>)
    ensures
        file_name_of(disc, track, title).len() <= FILE_NAME_MAXIMUM_LENGTH,
        ends_with(file_name_of(disc, track, title), extension()),
{
    lemma_candidate_ends_with_extension(disc, track, title);
    lemma_file_name_shortened(disc, track, title);
    let f = file_name_of(disc, track, title);
    if candidate_name(disc, track, title).len() > FILE_NAME_MAXIMUM_LENGTH {
        assert(f.subrange(56, 63) =~= marker() + extension());
        assert(f.subrange(59, 63) =~= f.subrange(56, 63).subrange(3, 7));
        assert(f.subrange(59, 63) =~= extension());
    }
}

/// A candidate name that fits is the file name itself, with no marker.
pub proof fn lemma_file_name_unshortened(disc: nat, track: nat, title: Seq<char>)
    requires
        candidate_name(disc, track, title).len() <= FILE_NAME_MAXIMUM_LENGTH,
    ensures
        file_name_of(disc, track, title) == candidate_name(disc, track, title),
{
}

/// A candidate name that is too long gives a file name of exactly the
/// maximum length that ends in `---.mp3`.
pub proof fn lemma_file_name_shortened(disc: nat, track: nat, title: Seq<char>)
    ensures
        candidate_name(disc, track, title).len() > FILE_NAME_MAXIMUM_LENGTH ==> {
            &&& file_name_of(disc, track, title).len() == FILE_NAME_MAXIMUM_LENGTH
            &&& ends_with(file_name_of(disc, track, title), marker() + extension())
        },
{
    let c = candidate_name(disc, track, title);
    if c.len() > FILE_NAME_MAXIMUM_LENGTH {
        let f = file_name_of(disc, track, title);
        assert(f == c.subrange(0, 56) + (marker() + extension()));
        assert(f.subrange(56, 63) =~= marker() + extension());
    }
}

/// No file name holds a slash.
pub proof fn lemma_file_name_has_no_slash(disc: nat, track: nat, title: Seq<char>)
    ensures
        has_no_slash(file_name_of(disc, track, title)),
{
    lemma_decimal_has_no_slash(disc);
    lemma_decimal_has_no_slash(track);
    let c = candidate_name(disc, track, title);
    assert(has_no_slash(padded2(track)));
    assert(has_no_slash(slashless(title)));
    assert(has_no_slash(disc_word()));
    assert(has_no_slash(separator()));
    assert(has_no_slash(extension()));
    assert(has_no_slash(marker()));
    assert forall|a: Seq<char>, b: Seq<char>|
        has_no_slash(a) && has_no_slash(b) implies #[trigger] has_no_slash(a + b) by {
        assert forall|i: int| 0 <= i < (a + b).len() implies (a + b)[i] != '/' by {
            if i >= a.len() {
                assert((a + b)[i] == b[i - a.len()]);
            }
        }
    }
    assert(has_no_slash(c));
    if c.len() > FILE_NAME_MAXIMUM_LENGTH {
        assert(has_no_slash(c.subrange(0, 56)));
    }
}

/// The decimal digits of `n`.
fn decimal_string(n: usize) -> (r: String)
    ensures
        r@ == decimal(n as nat),
    decreases n,
{
    let digits = "0123456789";
    proof {
        reveal_strlit("0123456789");
        assert(digits@ =~= digit_chars());
    }
    if n < 10 {
        String::from_str(digits.substring_char(n, n + 1))
    } else {
        let mut s = decimal_string(n / 10);
        let d = n % 10;
        s.append(digits.substring_char(d, d + 1));
        s
    }
}

/// Returns a string with slashes replaced with hyphens.
///
/// Useful because some song titles, stored as metadata tags in media files,
/// contain slashes and thus cannot be used as file names.
pub fn without_slashes(s: String) -> (r: String)
    ensures
        r@ == slashless(s@),
{
    let n = s.as_str().unicode_len();
    let mut r = String::new();
    let mut i: usize = 0;
    while i < n
        invariant
            n == s@.len(),
            i <= n,
            r@ == slashless(s@).subrange(0, i as int),
        decreases n - i,
    {
        let c = s.as_str().get_char(i);
        if c == '/' {
            proof {
                reveal_strlit("-");
            }
            r.append("-");
        } else {
            r.append(s.as_str().substring_char(i, i + 1));
        }
        assert(r@ =~= slashless(s@).subrange(0, i + 1));
        i = i + 1;
    }
    assert(r@ =~= slashless(s@));
    r
}

/// The name of the MP3 file that a song is converted into.
pub fn file_name(song: &Metadata) -> (r: String)
    ensures
        r@ == file_name_of(song.disc as nat, song.track as nat, song.title@),
{
    proof {
        reveal_strlit("Disc ");
        reveal_strlit(" - ");
        reveal_strlit(".mp3");
        reveal_strlit("---");
        reveal_strlit("0");
        assert("Disc "@ =~= disc_word());
        assert(" - "@ =~= separator());
        assert(".mp3"@ =~= extension());
        assert("---"@ =~= marker());
        assert("0"@ =~= seq!['0']);
    }
    let suffix = ".mp3";
    let mut s = String::from_str("Disc ");
    let disc = decimal_string(song.disc);
    s.append(disc.as_str());
    s.append(" - ");
    if song.track < 10 {
        s.append("0");
    }
    let track = decimal_string(song.track);
    s.append(track.as_str());
    s.append(" - ");
    let title = without_slashes(song.title.clone());
    s.append(title.as_str());
    s.append(suffix);
    assert(s@ =~= candidate_name(song.disc as nat, song.track as nat, song.title@));
    let n = s.as_str().unicode_len();
    if FILE_NAME_MAXIMUM_LENGTH < n {
        let more_indicator = "---";
        let kept = FILE_NAME_MAXIMUM_LENGTH - more_indicator.unicode_len() - suffix.unicode_len();
        let mut t = String::from_str(s.as_str().substring_char(0, kept));
        t.append(more_indicator);
        t.append(suffix);
        assert(t@ =~= file_name_of(song.disc as nat, song.track as nat, song.title@));
        t
    } else {
        s
    }
}

} // verus!
