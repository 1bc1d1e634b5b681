//! The library's data: albums, tracks, case exceptions, playlists and the
//! results of scans and searches.
use vstd::prelude::*;

verus! {

#[derive(PartialEq, Eq, Structural, Clone, Copy, Debug)]
pub enum AlbumStatus {
    Clean,
    Dirty,
    Processing,
    Incomplete,
}

/// One audio file and its tags.
#[derive(Debug)]
pub struct Track {
    /// Full path of the file.
    pub path: String,
    pub filename: String,
    pub title: String,
    pub artist: String,
    pub album: String,
    pub year: Option<u32>,
    pub track_number: Option<u32>,
    pub genre: Option<String>,
    pub duration_sec: u64,
    /// Container format, such as "mp3" or "flac".
    pub format: String,
    pub bit_rate: Option<u32>,
    pub has_cover: bool,
    /// The tags as they were read, to compare against.
    pub original_metadata: Option<Box<Track>>,
    pub is_modified: bool,
}

impl Track {
    /// A track at `path` with no tags read yet.
    pub fn new(path: String, filename: String) -> (r: Self)
        ensures
            r.path@ == path@,
            r.filename@ == filename@,
            r.title@ == Seq::<char>::empty(),
            r.artist@ == Seq::<char>::empty(),
            r.album@ == Seq::<char>::empty(),
            r.year is None,
            r.track_number is None,
            r.genre is None,
            r.duration_sec == 0,
            r.format@ == Seq::<char>::empty(),
            r.bit_rate is None,
            !r.has_cover,
            r.original_metadata is None,
            !r.is_modified,
    {
        Track {
            path,
            filename,
            title: String::new(),
            artist: String::new(),
            album: String::new(),
            year: None,
            track_number: None,
            genre: None,
            duration_sec: 0,
            format: String::new(),
            bit_rate: None,
            has_cover: false,
            original_metadata: None,
            is_modified: false,
        }
    }
}

/// A folder of tracks.
#[derive(Debug)]
pub struct Album {
    /// Lower-case hexadecimal MD5 digest of the folder's path.
    pub id: String,
    /// Path of the folder.
    pub path: String,
    pub title: String,
    /// Main artist (album artist).
    pub artist: String,
    pub year: Option<u32>,
    pub cover_path: Option<String>,
    pub has_playlist: bool,
    pub tracks: Vec<Track>,
    pub status: AlbumStatus,
    /// Problems found by the last validation.
    pub issues: Vec<String>,
}

/// The 16 bytes of the MD5 digest of the UTF-8 encoding of these characters.
pub uninterp spec fn md5_of(s: Seq<char>) -> Seq<u8>;

/// Relies on `md5::compute`: the digest of the string's bytes, 16 bytes long.
#[verifier::external_body]
fn md5_digest(s: &str) -> (r: Vec<u8>)
    ensures
        r@ == md5_of(s@),
        r@.len() == 16,
{
    md5::compute(s).0.to_vec()
}

pub open spec fn hex_digit(d: nat) -> char {
    if d < 10 {
        crate::text::digit_char(d)
    } else if d == 10 {
        'a'
    } else if d == 11 {
        'b'
    } else if d == 12 {
        'c'
    } else if d == 13 {
        'd'
    } else if d == 14 {
        'e'
    } else {
        'f'
    }
}

/// Two lower-case hexadecimal digits for each byte.
pub open spec fn hex_of(b: Seq<u8>) -> Seq<char>
    decreases b.len(),
{
    if b.len() == 0 {
        Seq::empty()
    } else {
        hex_of(b.drop_last()).push(hex_digit(b.last() as nat / 16)).push(
            hex_digit(b.last() as nat % 16),
        )
    }
}

fn hex_char(d: u8) -> (r: char)
    requires
        d < 16,
    ensures
        r == hex_digit(d as nat),
{
    if d < 10 {
        crate::text::digit(d as u64)
    } else if d == 10 {
        'a'
    } else if d == 11 {
        'b'
    } else if d == 12 {
        'c'
    } else if d == 13 {
        'd'
    } else if d == 14 {
        'e'
    } else {
        'f'
    }
}

/// The bytes in lower-case hexadecimal, as `{:x}` prints a digest.
pub fn lower_hex(b: &Vec<u8>) -> (r: String)
    ensures
        r@ == hex_of(b@),
{
    let mut out: Vec<char> = Vec::new();
    let mut i: usize = 0;
    while i < b.len()
        invariant
            i <= b.len(),
            out@ == hex_of(b@.subrange(0, i as int)),
        decreases b.len() - i,
    {
        let x = b[i];
        out.push(hex_char(x / 16));
        out.push(hex_char(x % 16));
        assert(b@.subrange(0, i + 1).drop_last() =~= b@.subrange(0, i as int));
        i = i + 1;
    }
    assert(b@.subrange(0, b.len() as int) =~= b@);
    crate::text::string_of(&out)
}

impl Album {
    /// A new album for the folder at `path`, still being processed.
    pub fn new(path: String, title: String, artist: String) -> (r: Self)
        ensures
            r.id@ == hex_of(md5_of(path@)),
            r.path@ == path@,
            r.title@ == title@,
            r.artist@ == artist@,
            r.year is None,
            r.cover_path is None,
            !r.has_playlist,
            r.tracks@.len() == 0,
            r.status == AlbumStatus::Processing,
            r.issues@.len() == 0,
    {
        let digest = md5_digest(path.as_str());
        let id = lower_hex(&digest);
        Album {
            id,
            path,
            title,
            artist,
            year: None,
            cover_path: None,
            has_playlist: false,
            tracks: Vec::new(),
            status: AlbumStatus::Processing,
            issues: Vec::new(),
        }
    }
}

#[derive(Clone, Debug)]
pub enum AppError {
    Io(String),
    DatabaseError(String),
    Audio(String),
    Validation(String),
    Unknown(String),
}

/// A user's correction: `original` is written `corrected` in `category`
/// ("artist", "album" or "global").
#[derive(Clone, Debug)]
pub struct CaseException {
    pub id: Option<i64>,
    pub original: String,
    pub corrected: String,
    pub category: String,
}

impl CaseException {
    /// An exception not yet stored.
    pub fn new(original: String, corrected: String, category: String) -> (r: Self)
        ensures
            r.id is None,
            r.original@ == original@,
            r.corrected@ == corrected@,
            r.category@ == category@,
    {
        CaseException { id: None, original, corrected, category }
    }
}

#[derive(Clone, Debug)]
pub struct Playlist {
    pub name: String,
    pub path: String,
    pub track_count: usize,
}

#[derive(Clone, Debug)]
pub struct PlaylistTrack {
    pub path: String,
    pub title: String,
    pub artist: String,
    pub duration: u64,
}

#[derive(Debug)]
pub struct ScanResult {
    pub albums: Vec<Album>,
    pub errors: Vec<String>,
}

/// A cover found by a search: its address, where it was found, and its size
/// in pixels when known.
#[derive(Clone, Debug)]
pub struct CoverResult {
    pub url: String,
    pub source: String,
    pub size: Option<(u32, u32)>,
}

#[derive(Clone, Debug)]
pub struct MusicBrainzRelease {
    pub id: String,
    pub title: String,
    pub artist_credit: Option<Vec<ArtistCredit>>,
    pub date: Option<String>,
    pub country: Option<String>,
}

#[derive(Clone, Debug)]
pub struct ArtistCredit {
    pub name: String,
}

} // verus!
