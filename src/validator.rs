//! The validator: the issues of an album and the status they give it.
use vstd::prelude::*;
use crate::models::{Album, AlbumStatus, Track};
use crate::text::{
    append_chars, chars_of, decimal, decimal_chars, equal_chars, string_of, to_lower, to_upper, trim,
    trim_chars, lower_of, upper_of,
};

verus! {

pub const NO_COVER: &'static str = "Cover manquante";

pub const NO_PLAYLIST: &'static str = "Playlist manquante";

pub const NO_TRACKS: &'static str = "Aucune piste audio trouvée";

pub const NO_YEAR: &'static str = "Année manquante";

pub const MISSING_TITLE: &'static str = "Titre manquant (";

pub const MISSING_ARTIST: &'static str = "Artiste manquant (";

pub const MISSING_ALBUM: &'static str = "Album manquant (";

pub const MISSING_GENRE: &'static str = "Genre manquant (";

pub const TRACKS_SUFFIX: &'static str = " pistes)";

pub const NO_TRACK_NUMBERS: &'static str = "Numéros de piste manquants";

pub const JUNK_FILES: &'static str = "Fichiers inutiles détectés (";

pub const FILES_SUFFIX: &'static str = " fichiers)";

pub const BAD_FILE_NAMES: &'static str = "Noms de fichiers non conformes (";

pub const BAD_CASING: &'static str = "Problèmes de majuscules détectés (";

/// What only the file system can tell about an album's folder.
pub struct FolderFacts {
    /// Whether the album's recorded cover path names an existing file.
    pub cover_exists: bool,
    /// The cover image found in the folder, if any.
    pub found_cover: Option<String>,
    /// Whether the folder holds a playlist file.
    pub has_playlist: bool,
    /// How many junk files the folder holds, when it could be read.
    pub junk_files: Option<usize>,
}

/// The last component of a path read the Unix way, `cur` being the
/// component read so far and `last` the last one before it: empty and "."
/// components do not count.
pub open spec fn last_component(s: Seq<char>, cur: Seq<char>, last: Option<Seq<char>>) -> Option<
    Seq<char>,
>
    decreases s.len(),
{
    if s.len() == 0 {
        settle_component(cur, last)
    } else if s[0] == '/' {
        last_component(s.drop_first(), Seq::empty(), settle_component(cur, last))
    } else {
        last_component(s.drop_first(), cur.push(s[0]), last)
    }
}

pub open spec fn settle_component(cur: Seq<char>, last: Option<Seq<char>>) -> Option<Seq<char>> {
    if cur.len() == 0 || cur == seq!['.'] {
        last
    } else {
        Some(cur)
    }
}

/// The file name of a path, as `Path::file_name` gives it on Unix: its last
/// component, unless there is none or it is "..".
pub open spec fn file_name_of(p: Seq<char>) -> Option<Seq<char>> {
    match last_component(p, Seq::empty(), None) {
        Some(c) => if c == seq!['.', '.'] {
            None
        } else {
            Some(c)
        },
        None => None,
    }
}

fn path_file_name(p: &str) -> (r: Option<Vec<char>>)
    ensures
        r matches Some(n) ==> file_name_of(p@) == Some(n@),
        r is None ==> file_name_of(p@) is None,
{
    let s = chars_of(p);
    let n = s.len();
    let mut cur: Vec<char> = Vec::new();
    let mut last: Option<Vec<char>> = None;
    let mut i: usize = 0;
    let dot = vec!['.'];
    assert(dot@ =~= seq!['.']);
    assert(s@.subrange(0, n as int) =~= s@);
    assert(cur@ =~= Seq::<char>::empty());
    while i < n
        invariant
            i <= n == s.len(),
            dot@ == seq!['.'],
            last_component(s@.subrange(i as int, n as int), cur@, match last {
                Some(l) => Some(l@),
                None => None,
            }) == last_component(s@, Seq::empty(), None),
        decreases n - i,
    {
        assert(s@.subrange(i as int, n as int).drop_first() =~= s@.subrange(i + 1, n as int));
        if s[i] == '/' {
            if !(cur.len() == 0 || equal_chars(&cur, &dot)) {
                last = Some(cur);
            }
            cur = Vec::new();
            assert(cur@ =~= Seq::<char>::empty());
        } else {
            cur.push(s[i]);
        }
        i = i + 1;
    }
    if !(cur.len() == 0 || equal_chars(&cur, &dot)) {
        last = Some(cur);
    }
    match last {
        Some(c) => {
            let dots = vec!['.', '.'];
            assert(dots@ =~= seq!['.', '.']);
            if equal_chars(&c, &dots) {
                None
            } else {
                Some(c)
            }
        },
        None => None,
    }
}

/// The checks that are counted over an album's tracks.
#[derive(PartialEq, Eq, Structural, Clone, Copy, Debug)]
pub enum TrackCheck {
    BlankTitle,
    BlankArtist,
    BlankAlbum,
    BlankGenre,
    BadFileName,
    BadCasing,
}

pub open spec fn fails(t: Track, c: TrackCheck) -> bool {
    match c {
        TrackCheck::BlankTitle => blank(t.title@),
        TrackCheck::BlankArtist => blank(t.artist@),
        TrackCheck::BlankAlbum => blank(t.album@),
        TrackCheck::BlankGenre => genre_blank(t),
        TrackCheck::BadFileName => bad_file_name(t),
        TrackCheck::BadCasing => bad_casing(t),
    }
}

/// How many tracks fail the check.
pub open spec fn count_tracks(ts: Seq<Track>, c: TrackCheck) -> nat
    decreases ts.len(),
{
    if ts.len() == 0 {
        0
    } else {
        count_tracks(ts.drop_last(), c) + if fails(ts.last(), c) {
            1nat
        } else {
            0nat
        }
    }
}

pub open spec fn blank(s: Seq<char>) -> bool {
    trim(s).len() == 0
}

pub open spec fn year_missing(y: Option<u32>) -> bool {
    y is None || y == Some(0u32)
}

pub open spec fn genre_blank(t: Track) -> bool {
    match t.genre {
        Some(g) => blank(g@),
        None => true,
    }
}

/// A track whose file name does not start with a digit.
pub open spec fn bad_file_name(t: Track) -> bool {
    match file_name_of(t.path@) {
        Some(n) => !(n.len() > 0 && '0' <= n[0] && n[0] <= '9'),
        None => false,
    }
}

/// How many bytes UTF-8 takes for the character.
pub open spec fn utf8_width(c: char) -> nat {
    if (c as u32) < 0x80 {
        1
    } else if (c as u32) < 0x800 {
        2
    } else if (c as u32) < 0x10000 {
        3
    } else {
        4
    }
}

/// How many bytes UTF-8 takes for the characters.
pub open spec fn utf8_len(s: Seq<char>) -> nat
    decreases s.len(),
{
    if s.len() == 0 {
        0
    } else {
        utf8_len(s.drop_last()) + utf8_width(s.last())
    }
}

proof fn lemma_utf8_len_grows(s: Seq<char>, i: int)
    requires
        0 <= i <= s.len(),
    ensures
        utf8_len(s.subrange(0, i)) <= utf8_len(s),
    decreases s.len() - i,
{
    if i < s.len() {
        lemma_utf8_len_grows(s, i + 1);
        assert(s.subrange(0, i + 1).drop_last() =~= s.subrange(0, i));
    } else {
        assert(s.subrange(0, i) =~= s);
    }
}

/// Whether the characters take more than three bytes in UTF-8.
fn longer_than_three_bytes(s: &Vec<char>) -> (r: bool)
    ensures
        r == (utf8_len(s@) > 3),
{
    let mut total: usize = 0;
    let mut i: usize = 0;
    while i < s.len()
        invariant
            i <= s.len(),
            total == utf8_len(s@.subrange(0, i as int)),
            total <= 3,
        decreases s.len() - i,
    {
        let u = s[i] as u32;
        let w: usize = if u < 0x80 {
            1
        } else if u < 0x800 {
            2
        } else if u < 0x10000 {
            3
        } else {
            4
        };
        assert(s@.subrange(0, i + 1).drop_last() =~= s@.subrange(0, i as int));
        total = total + w;
        i = i + 1;
        if total > 3 {
            proof {
                lemma_utf8_len_grows(s@, i as int);
            }
            return true;
        }
    }
    assert(s@.subrange(0, s.len() as int) =~= s@);
    false
}

/// A title of more than three bytes written all in upper or all in lower
/// case.
pub open spec fn bad_casing(t: Track) -> bool {
    utf8_len(t.title@) > 3 && (t.title@ == upper_of(t.title@) || t.title@ == lower_of(
        t.title@,
    ))
}

pub open spec fn issue_if(cond: bool, msg: Seq<char>) -> Seq<Seq<char>> {
    if cond {
        seq![msg]
    } else {
        Seq::empty()
    }
}

pub open spec fn count_issue(n: nat, prefix: Seq<char>, suffix: Seq<char>) -> Seq<Seq<char>> {
    issue_if(n > 0, prefix + decimal(n) + suffix)
}

/// The issues found on the tags of an album with tracks.
pub open spec fn tag_issues(ts: Seq<Track>, year: Option<u32>) -> Seq<Seq<char>> {
    issue_if(
        year_missing(year) && exists|i: int| 0 <= i < ts.len() && year_missing(#[trigger] ts[i].year),
        NO_YEAR@,
    ) + count_issue(count_tracks(ts, TrackCheck::BlankTitle), MISSING_TITLE@, TRACKS_SUFFIX@)
        + count_issue(count_tracks(ts, TrackCheck::BlankArtist), MISSING_ARTIST@, TRACKS_SUFFIX@)
        + count_issue(count_tracks(ts, TrackCheck::BlankAlbum), MISSING_ALBUM@, TRACKS_SUFFIX@)
        + count_issue(count_tracks(ts, TrackCheck::BlankGenre), MISSING_GENRE@, TRACKS_SUFFIX@)
        + issue_if(
        exists|i: int| 0 <= i < ts.len() && year_missing(#[trigger] ts[i].track_number),
        NO_TRACK_NUMBERS@,
    )
}

pub open spec fn junk_issue(junk: Option<usize>) -> Seq<Seq<char>> {
    match junk {
        Some(n) => count_issue(n as nat, JUNK_FILES@, FILES_SUFFIX@),
        None => Seq::empty(),
    }
}

/// The issues found on the files of an album with tracks.
pub open spec fn file_issues(ts: Seq<Track>, junk: Option<usize>) -> Seq<Seq<char>> {
    junk_issue(junk) + count_issue(count_tracks(ts, TrackCheck::BadFileName), BAD_FILE_NAMES@, TRACKS_SUFFIX@)
        + count_issue(count_tracks(ts, TrackCheck::BadCasing), BAD_CASING@, TRACKS_SUFFIX@)
}

/// The cover an album keeps: its own when the file exists, else the one
/// found in its folder.
pub open spec fn kept_cover(cover: Option<String>, facts: FolderFacts) -> Option<Seq<char>> {
    if cover is Some && facts.cover_exists {
        Some(cover->0@)
    } else {
        match facts.found_cover {
            Some(c) => Some(c@),
            None => None,
        }
    }
}

/// All the issues of an album, in the order in which they are reported.
pub open spec fn album_issues(
    ts: Seq<Track>,
    year: Option<u32>,
    cover: Option<String>,
    facts: FolderFacts,
) -> Seq<Seq<char>> {
    issue_if(kept_cover(cover, facts) is None, NO_COVER@) + issue_if(
        !facts.has_playlist,
        NO_PLAYLIST@,
    ) + if ts.len() == 0 {
        seq![NO_TRACKS@]
    } else {
        tag_issues(ts, year) + file_issues(ts, facts.junk_files)
    }
}

pub open spec fn texts(v: Seq<String>) -> Seq<Seq<char>> {
    v.map_values(|s: String| s@)
}

pub open spec fn opt_text(o: Option<String>) -> Option<Seq<char>> {
    match o {
        Some(s) => Some(s@),
        None => None,
    }
}

fn push_issue(issues: &mut Vec<String>, msg: Vec<char>)
    ensures
        texts(final(issues)@) == texts(old(issues)@).push(msg@),
{
    issues.push(string_of(&msg));
    assert(texts(issues@) =~= texts(old(issues)@).push(msg@));
}

fn push_count_issue(issues: &mut Vec<String>, n: usize, prefix: &str, suffix: &str)
    ensures
        texts(final(issues)@) == texts(old(issues)@) + count_issue(n as nat, prefix@, suffix@),
{
    if n > 0 {
        let mut msg = chars_of(prefix);
        append_chars(&mut msg, &decimal_chars(n as u64));
        append_chars(&mut msg, &chars_of(suffix));
        push_issue(issues, msg);
    } else {
        assert(texts(issues@) =~= texts(issues@) + Seq::<Seq<char>>::empty());
    }
}

fn is_blank(s: &str) -> (r: bool)
    ensures
        r == blank(s@),
{
    trim_chars(&chars_of(s)).len() == 0
}

fn has_bad_file_name(t: &Track) -> (r: bool)
    ensures
        r == bad_file_name(*t),
{
    match path_file_name(t.path.as_str()) {
        Some(nc) => !(nc.len() > 0 && '0' <= nc[0] && nc[0] <= '9'),
        None => false,
    }
}

fn has_bad_casing(t: &Track) -> (r: bool)
    ensures
        r == bad_casing(*t),
{
    let upper = to_upper(t.title.as_str());
    let lower = to_lower(t.title.as_str());
    longer_than_three_bytes(&chars_of(t.title.as_str())) && (upper == t.title || lower
        == t.title)
}

pub struct ValidatorService;

impl ValidatorService {
    /// Finds the issues of `album` from its tags and what `facts` tells of
    /// its folder, settles its cover and playlist, and marks it Incomplete
    /// when it has no track, Dirty when it has issues, Clean otherwise.
    pub fn evaluate_album_status(album: &mut Album, facts: &FolderFacts)
        ensures
            texts(final(album).issues@) == album_issues(
                old(album).tracks@,
                old(album).year,
                old(album).cover_path,
                *facts,
            ),
            opt_text(final(album).cover_path) == kept_cover(old(album).cover_path, *facts),
            final(album).has_playlist == facts.has_playlist,
            final(album).status == if old(album).tracks@.len() == 0 {
                AlbumStatus::Incomplete
            } else if final(album).issues@.len() > 0 {
                AlbumStatus::Dirty
            } else {
                AlbumStatus::Clean
            },
            final(album).tracks@ == old(album).tracks@,
            final(album).year == old(album).year,
            final(album).path == old(album).path,
            final(album).title == old(album).title,
            final(album).artist == old(album).artist,
            final(album).id == old(album).id,
    {
        album.issues = Vec::new();
        assert(texts(album.issues@) =~= Seq::<Seq<char>>::empty());
        Self::check_cover(album, facts);
        Self::check_playlist(album, facts);
        if album.tracks.len() == 0 {
            album.status = AlbumStatus::Incomplete;
            push_issue(&mut album.issues, chars_of(NO_TRACKS));
            return;
        }
        Self::check_tags(album);
        Self::check_files(album, facts);
        if album.issues.len() > 0 {
            album.status = AlbumStatus::Dirty;
        } else {
            album.status = AlbumStatus::Clean;
        }
    }

    fn check_cover(album: &mut Album, facts: &FolderFacts)
        ensures
            opt_text(final(album).cover_path) == kept_cover(old(album).cover_path, *facts),
            texts(final(album).issues@) == texts(old(album).issues@) + issue_if(
                kept_cover(old(album).cover_path, *facts) is None,
                NO_COVER@,
            ),
            final(album).tracks@ == old(album).tracks@,
            final(album).year == old(album).year,
            final(album).path == old(album).path,
            final(album).title == old(album).title,
            final(album).artist == old(album).artist,
            final(album).id == old(album).id,
            final(album).has_playlist == old(album).has_playlist,
    {
        let cover_valid = album.cover_path.is_some() && facts.cover_exists;
        if !cover_valid {
            album.cover_path = match &facts.found_cover {
                Some(c) => Some(c.clone()),
                None => None,
            };
        }
        if album.cover_path.is_none() {
            push_issue(&mut album.issues, chars_of(NO_COVER));
        } else {
            assert(texts(album.issues@) =~= texts(album.issues@) + Seq::<Seq<char>>::empty());
        }
    }

    fn check_playlist(album: &mut Album, facts: &FolderFacts)
        ensures
            final(album).has_playlist == facts.has_playlist,
            texts(final(album).issues@) == texts(old(album).issues@) + issue_if(
                !facts.has_playlist,
                NO_PLAYLIST@,
            ),
            final(album).tracks@ == old(album).tracks@,
            final(album).year == old(album).year,
            final(album).path == old(album).path,
            final(album).title == old(album).title,
            final(album).artist == old(album).artist,
            final(album).id == old(album).id,
            final(album).cover_path == old(album).cover_path,
    {
        album.has_playlist = facts.has_playlist;
        if !album.has_playlist {
            push_issue(&mut album.issues, chars_of(NO_PLAYLIST));
        } else {
            assert(texts(album.issues@) =~= texts(album.issues@) + Seq::<Seq<char>>::empty());
        }
    }

    fn check_tags(album: &mut Album)
        ensures
            texts(final(album).issues@) == texts(old(album).issues@) + tag_issues(
                old(album).tracks@,
                old(album).year,
            ),
            final(album).tracks@ == old(album).tracks@,
            final(album).year == old(album).year,
            final(album).path == old(album).path,
            final(album).title == old(album).title,
            final(album).artist == old(album).artist,
            final(album).id == old(album).id,
            final(album).cover_path == old(album).cover_path,
            final(album).has_playlist == old(album).has_playlist,
    {
        let ghost ts = album.tracks@;
        let n = album.tracks.len();
        let mut any_year = false;
        let mut any_number = false;
        let mut titles: usize = 0;
        let mut artists: usize = 0;
        let mut albums: usize = 0;
        let mut genres: usize = 0;
        let mut i: usize = 0;
        while i < n
            invariant
                i <= n == album.tracks.len(),
                ts == album.tracks@,
                any_year == exists|k: int| 0 <= k < i && year_missing(#[trigger] ts[k].year),
                any_number == exists|k: int|
                    0 <= k < i && year_missing(#[trigger] ts[k].track_number),
                titles == count_tracks(ts.subrange(0, i as int), TrackCheck::BlankTitle),
                artists == count_tracks(ts.subrange(0, i as int), TrackCheck::BlankArtist),
                albums == count_tracks(ts.subrange(0, i as int), TrackCheck::BlankAlbum),
                genres == count_tracks(ts.subrange(0, i as int), TrackCheck::BlankGenre),
                titles <= i && artists <= i && albums <= i && genres <= i,
            decreases n - i,
        {
            let t = &album.tracks[i];
            let ghost sub = ts.subrange(0, i + 1);
            assert(sub.drop_last() =~= ts.subrange(0, i as int));
            assert(sub.last() == ts[i as int]);
            if t.year.is_none() || t.year == Some(0u32) {
                any_year = true;
            }
            if t.track_number.is_none() || t.track_number == Some(0u32) {
                any_number = true;
            }
            if is_blank(t.title.as_str()) {
                titles = titles + 1;
            }
            if is_blank(t.artist.as_str()) {
                artists = artists + 1;
            }
            if is_blank(t.album.as_str()) {
                albums = albums + 1;
            }
            let genre_is_blank = match &t.genre {
                Some(g) => is_blank(g.as_str()),
                None => true,
            };
            if genre_is_blank {
                genres = genres + 1;
            }
            i = i + 1;
        }
        assert(ts.subrange(0, n as int) =~= ts);
        let year_missing_here = album.year.is_none() || album.year == Some(0u32);
        let ghost before = texts(album.issues@);
        if year_missing_here && any_year {
            push_issue(&mut album.issues, chars_of(NO_YEAR));
        }
        push_count_issue(&mut album.issues, titles, MISSING_TITLE, TRACKS_SUFFIX);
        push_count_issue(&mut album.issues, artists, MISSING_ARTIST, TRACKS_SUFFIX);
        push_count_issue(&mut album.issues, albums, MISSING_ALBUM, TRACKS_SUFFIX);
        push_count_issue(&mut album.issues, genres, MISSING_GENRE, TRACKS_SUFFIX);
        if any_number {
            push_issue(&mut album.issues, chars_of(NO_TRACK_NUMBERS));
        }
        assert(texts(album.issues@) =~= before + tag_issues(ts, album.year));
    }

    fn check_files(album: &mut Album, facts: &FolderFacts)
        ensures
            texts(final(album).issues@) == texts(old(album).issues@) + file_issues(
                old(album).tracks@,
                facts.junk_files,
            ),
            final(album).tracks@ == old(album).tracks@,
            final(album).year == old(album).year,
            final(album).path == old(album).path,
            final(album).title == old(album).title,
            final(album).artist == old(album).artist,
            final(album).id == old(album).id,
            final(album).cover_path == old(album).cover_path,
            final(album).has_playlist == old(album).has_playlist,
    {
        let ghost ts = album.tracks@;
        let ghost before = texts(album.issues@);
        match facts.junk_files {
            Some(j) => push_count_issue(&mut album.issues, j, JUNK_FILES, FILES_SUFFIX),
            None => {
                assert(texts(album.issues@) =~= texts(album.issues@) + Seq::<Seq<char>>::empty());
            },
        }
        let n = album.tracks.len();
        let mut bad_names: usize = 0;
        let mut bad_case: usize = 0;
        let mut i: usize = 0;
        while i < n
            invariant
                i <= n == album.tracks.len(),
                ts == album.tracks@,
                bad_names == count_tracks(ts.subrange(0, i as int), TrackCheck::BadFileName),
                bad_case == count_tracks(ts.subrange(0, i as int), TrackCheck::BadCasing),
                bad_names <= i && bad_case <= i,
            decreases n - i,
        {
            let t = &album.tracks[i];
            let ghost sub = ts.subrange(0, i + 1);
            assert(sub.drop_last() =~= ts.subrange(0, i as int));
            assert(sub.last() == ts[i as int]);
            if has_bad_file_name(t) {
                bad_names = bad_names + 1;
            }
            if has_bad_casing(t) {
                bad_case = bad_case + 1;
            }
            i = i + 1;
        }
        assert(ts.subrange(0, n as int) =~= ts);
        push_count_issue(&mut album.issues, bad_names, BAD_FILE_NAMES, TRACKS_SUFFIX);
        push_count_issue(&mut album.issues, bad_case, BAD_CASING, TRACKS_SUFFIX);
        assert(texts(album.issues@) =~= before + file_issues(ts, facts.junk_files));
    }
}

} // verus!
