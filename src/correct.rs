//! The plans of the auto-correct and save commands: the year and title that
//! name an album's folder, and the names that saving gives to its files.
use vstd::prelude::*;
use crate::models::{Album, Track};
use crate::naming::{folder_name, forbidden_in_name, sanitize_filename, year_prefix, year_range_prefix};
use crate::processor::{replace_pass, MetadataProcessorService};
use crate::renamer::RenamerService;
use crate::text::{
    append_chars, chars_of, decimal2, decimal2_chars, string_of, trim, trim_chars,
};

verus! {

/// A year of four digits in parentheses, and the whitespace after it, at the
/// start of a title.
pub const YEAR_PREFIX_PATTERN: &'static str = "^\\(\\d{4}\\)\\s*";

/// The earliest year among the tracks that have one.
pub open spec fn earliest_year(ts: Seq<Track>) -> Option<u32>
    decreases ts.len(),
{
    if ts.len() == 0 {
        None
    } else {
        let rest = earliest_year(ts.drop_last());
        match ts.last().year {
            Some(y) => match rest {
                Some(r) => Some(if y < r { y } else { r }),
                None => Some(y),
            },
            None => rest,
        }
    }
}

pub fn folder_year(tracks: &Vec<Track>) -> (r: Option<u32>)
    ensures
        r == earliest_year(tracks@),
{
    let mut best: Option<u32> = None;
    let mut i: usize = 0;
    while i < tracks.len()
        invariant
            i <= tracks.len(),
            best == earliest_year(tracks@.subrange(0, i as int)),
        decreases tracks.len() - i,
    {
        assert(tracks@.subrange(0, i + 1).drop_last() =~= tracks@.subrange(0, i as int));
        best = match tracks[i].year {
            Some(y) => match best {
                Some(b) => Some(if y < b { y } else { b }),
                None => Some(y),
            },
            None => best,
        };
        i = i + 1;
    }
    assert(tracks@.subrange(0, tracks.len() as int) =~= tracks@);
    best
}

/// The path without one trailing '/' or '\'.
pub open spec fn without_trailing_separator(p: Seq<char>) -> Seq<char> {
    if p.len() > 0 && (p.last() == '/' || p.last() == '\\') {
        p.drop_last()
    } else {
        p
    }
}

pub fn strip_trailing_separator(path: &String) -> (r: String)
    ensures
        r@ == without_trailing_separator(path@),
{
    let cs = chars_of(path.as_str());
    if cs.len() > 0 && (cs[cs.len() - 1] == '/' || cs[cs.len() - 1] == '\\') {
        let r = crate::text::slice_chars(&cs, 0, cs.len() - 1);
        assert(r@ =~= path@.drop_last());
        string_of(&r)
    } else {
        string_of(&cs)
    }
}

/// The title that names the folder: the album's own without a leading
/// "(yyyy) ", or the first track's album when that leaves nothing.
pub open spec fn folder_title(album_title: Seq<char>, track_album: Seq<char>) -> Seq<char> {
    let clean = if album_title.len() > 0 && album_title[0] == '(' {
        replace_pass(YEAR_PREFIX_PATTERN@, album_title, Seq::empty())
    } else {
        album_title
    };
    if trim(clean).len() == 0 {
        track_album
    } else {
        clean
    }
}

pub fn album_folder_title(album_title: &str, track_album: &str) -> (r: String)
    ensures
        r@ == folder_title(album_title@, track_album@),
{
    let tc = chars_of(album_title);
    let clean = if tc.len() > 0 && tc[0] == '(' {
        let empty: Vec<char> = Vec::new();
        match crate::processor::regex_replace_all(YEAR_PREFIX_PATTERN, album_title, string_of(&empty).as_str()) {
            Some(x) => x,
            None => string_of(&tc),
        }
    } else {
        string_of(&tc)
    };
    if trim_chars(&chars_of(clean.as_str())).len() == 0 {
        string_of(&chars_of(track_album))
    } else {
        clean
    }
}

/// The folder name that auto-correction gives an album with tracks: the
/// renamer's, from the first track's artist, the folder title and the
/// earliest year.
pub open spec fn auto_folder_name(album: Album) -> Option<Seq<char>> {
    if album.tracks@.len() == 0 {
        None
    } else {
        let first = album.tracks@[0];
        Some(
            folder_name(
                year_range_prefix(earliest_year(album.tracks@), None),
                first.artist@,
                folder_title(album.title@, first.album@),
            ),
        )
    }
}

pub fn auto_correct_folder_name(album: &Album) -> (r: Option<String>)
    ensures
        r matches Some(n) ==> auto_folder_name(*album) == Some(n@),
        r is None ==> auto_folder_name(*album) is None,
{
    if album.tracks.len() == 0 {
        return None;
    }
    let first = &album.tracks[0];
    let title = album_folder_title(album.title.as_str(), first.album.as_str());
    let renamer = RenamerService::new();
    Some(renamer.format_folder_name(first.artist.as_str(), title.as_str(), folder_year(&album.tracks), None))
}

/// The folder name that the metadata correction gives an album with tracks:
/// the processor's, from the first track's artist and album and the
/// earliest year.
pub open spec fn corrected_folder_name(album: Album) -> Option<Seq<char>> {
    if album.tracks@.len() == 0 {
        None
    } else {
        let first = album.tracks@[0];
        Some(folder_name(year_prefix(earliest_year(album.tracks@)), first.artist@, first.album@))
    }
}

pub fn correction_folder_name(album: &Album) -> (r: Option<String>)
    ensures
        r matches Some(n) ==> corrected_folder_name(*album) == Some(n@),
        r is None ==> corrected_folder_name(*album) is None,
{
    if album.tracks.len() == 0 {
        return None;
    }
    let first = &album.tracks[0];
    let processor = MetadataProcessorService::new();
    Some(processor.format_folder_name(first.artist.as_str(), first.album.as_str(), folder_year(&album.tracks)))
}

pub open spec fn name_safe(s: Seq<char>) -> Seq<char> {
    s.map_values(|c: char| if forbidden_in_name(c) { '_' } else { c })
}

/// The file name that saving gives a track: "NN - Title.ext", with the
/// number 0 when there is none and the title's forbidden characters
/// replaced.
pub open spec fn saved_file_name(n: Option<u32>, title: Seq<char>, ext: Seq<char>) -> Seq<char> {
    decimal2(
        match n {
            Some(x) => x as nat,
            None => 0,
        },
    ) + seq![' ', '-', ' '] + name_safe(title) + seq!['.'] + ext
}

pub fn saved_track_filename(track_number: Option<u32>, title: &str, ext: &str) -> (r: String)
    ensures
        r@ == saved_file_name(track_number, title@, ext@),
{
    let n: u32 = match track_number {
        Some(x) => x,
        None => 0,
    };
    let mut out = decimal2_chars(n as u64);
    out.push(' ');
    out.push('-');
    out.push(' ');
    append_chars(&mut out, &chars_of(sanitize_filename(title).as_str()));
    out.push('.');
    append_chars(&mut out, &chars_of(ext));
    assert(out@ =~= saved_file_name(track_number, title@, ext@));
    string_of(&out)
}

/// The folder name that saving gives an album: "Artist - Album", each with
/// its forbidden characters replaced.
pub open spec fn saved_folder_name(artist: Seq<char>, album: Seq<char>) -> Seq<char> {
    name_safe(artist) + seq![' ', '-', ' '] + name_safe(album)
}

pub fn saved_album_folder_name(artist: &str, album: &str) -> (r: String)
    ensures
        r@ == saved_folder_name(artist@, album@),
{
    let mut out = chars_of(sanitize_filename(artist).as_str());
    out.push(' ');
    out.push('-');
    out.push(' ');
    append_chars(&mut out, &chars_of(sanitize_filename(album).as_str()));
    assert(out@ =~= saved_folder_name(artist@, album@));
    string_of(&out)
}

} // verus!
