//! Grouping the tracks that a scan reads into albums, one per folder, and
//! ordering each album's tracks by number.
use vstd::prelude::*;
use crate::models::{hex_of, md5_of, Album, AlbumStatus, Track};
use crate::text::{chars_of, string_of};

verus! {

/// The artist of an album whose first track names none.
pub const UNKNOWN_ARTIST: &'static str = "Artiste Inconnu";

/// The key that orders an album's tracks: the track number, 0 when there is
/// none.
pub open spec fn number_key(t: Track) -> u32 {
    match t.track_number {
        Some(n) => n,
        None => 0,
    }
}

/// Where a track with key `k` goes in `s`: after the last track whose key
/// is at most `k`.
pub open spec fn insert_pos(s: Seq<Track>, k: u32) -> int
    decreases s.len(),
{
    if s.len() == 0 {
        0
    } else if number_key(s.last()) <= k {
        s.len() as int
    } else {
        insert_pos(s.drop_last(), k)
    }
}

/// The tracks stably sorted by number, as an insertion sort leaves them.
pub open spec fn sorted_by_number(s: Seq<Track>) -> Seq<Track>
    decreases s.len(),
{
    if s.len() == 0 {
        s
    } else {
        let r = sorted_by_number(s.drop_last());
        r.insert(insert_pos(r, number_key(s.last())), s.last())
    }
}

proof fn lemma_insert_pos_bounds(s: Seq<Track>, k: u32)
    ensures
        0 <= insert_pos(s, k) <= s.len(),
    decreases s.len(),
{
    if s.len() > 0 {
        lemma_insert_pos_bounds(s.drop_last(), k);
    }
}

proof fn lemma_sorted_len(s: Seq<Track>)
    ensures
        sorted_by_number(s).len() == s.len(),
    decreases s.len(),
{
    if s.len() > 0 {
        lemma_sorted_len(s.drop_last());
        lemma_insert_pos_bounds(sorted_by_number(s.drop_last()), number_key(s.last()));
    }
}

/// The tracks are in nondecreasing order of number.
pub open spec fn sorted_keys(s: Seq<Track>) -> bool {
    forall|i: int, j: int| 0 <= i < j < s.len() ==> number_key(s[i]) <= number_key(s[j])
}

proof fn lemma_insert_pos_splits(r: Seq<Track>, k: u32)
    requires
        sorted_keys(r),
    ensures
        forall|q: int| 0 <= q < insert_pos(r, k) ==> number_key(#[trigger] r[q]) <= k,
        forall|q: int| insert_pos(r, k) <= q < r.len() ==> number_key(#[trigger] r[q]) > k,
    decreases r.len(),
{
    lemma_insert_pos_bounds(r, k);
    if r.len() > 0 {
        let d = r.drop_last();
        assert(sorted_keys(d)) by {
            assert forall|i: int, j: int| 0 <= i < j < d.len() implies number_key(d[i])
                <= number_key(d[j]) by {
                assert(d[i] == r[i] && d[j] == r[j]);
            }
        }
        lemma_insert_pos_splits(d, k);
        if number_key(r.last()) <= k {
            assert forall|q: int| 0 <= q < r.len() implies number_key(#[trigger] r[q]) <= k by {
                if q < r.len() - 1 {
                    assert(number_key(r[q]) <= number_key(r[r.len() - 1]));
                }
            }
        } else {
            assert forall|q: int| 0 <= q < insert_pos(r, k) implies number_key(#[trigger] r[q])
                <= k by {
                assert(r[q] == d[q]);
            }
            assert forall|q: int| insert_pos(r, k) <= q < r.len() implies number_key(
                #[trigger] r[q],
            ) > k by {
                if q < r.len() - 1 {
                    assert(r[q] == d[q]);
                }
            }
        }
    }
}

/// Sorting by number leaves the tracks in nondecreasing order of number.
pub proof fn lemma_sorted_by_number_is_sorted(s: Seq<Track>)
    ensures
        sorted_keys(sorted_by_number(s)),
        sorted_by_number(s).len() == s.len(),
    decreases s.len(),
{
    lemma_sorted_len(s);
    if s.len() > 0 {
        let r = sorted_by_number(s.drop_last());
        let t = s.last();
        let k = number_key(t);
        lemma_sorted_by_number_is_sorted(s.drop_last());
        lemma_insert_pos_splits(r, k);
        lemma_insert_pos_bounds(r, k);
        let p = insert_pos(r, k);
        let out = r.insert(p, t);
        assert forall|i: int, j: int| 0 <= i < j < out.len() implies number_key(out[i])
            <= number_key(out[j]) by {
            if j < p {
                assert(out[i] == r[i] && out[j] == r[j]);
            } else if j == p {
                assert(out[i] == r[i]);
            } else if i < p {
                assert(out[i] == r[i] && out[j] == r[j - 1]);
            } else if i == p {
                assert(out[j] == r[j - 1]);
            } else {
                assert(out[i] == r[i - 1] && out[j] == r[j - 1]);
            }
        }
    }
}

fn key_of(t: &Track) -> (r: u32)
    ensures
        r == number_key(*t),
{
    match t.track_number {
        Some(n) => n,
        None => 0,
    }
}

/// The tracks stably sorted by track number.
pub fn sort_tracks(tracks: Vec<Track>) -> (r: Vec<Track>)
    ensures
        r@ == sorted_by_number(tracks@),
{
    let ghost orig = tracks@;
    let mut input = tracks;
    let mut out: Vec<Track> = Vec::new();
    let ghost mut i: int = 0;
    assert(orig.subrange(0, 0) =~= Seq::<Track>::empty());
    assert(orig.subrange(0, orig.len() as int) =~= orig);
    while input.len() > 0
        invariant
            0 <= i <= orig.len(),
            input@ == orig.subrange(i, orig.len() as int),
            out@ == sorted_by_number(orig.subrange(0, i)),
        decreases input.len(),
    {
        let t = input.remove(0);
        let k = key_of(&t);
        proof {
            lemma_sorted_len(orig.subrange(0, i));
        }
        let mut j: usize = out.len();
        assert(out@.subrange(0, j as int) =~= out@);
        while j > 0 && key_of(&out[j - 1]) > k
            invariant
                j <= out.len(),
                insert_pos(out@, k) == insert_pos(out@.subrange(0, j as int), k),
            decreases j,
        {
            assert(out@.subrange(0, j as int).drop_last() =~= out@.subrange(0, j - 1));
            j = j - 1;
        }
        assert(insert_pos(out@, k) == j);
        out.insert(j, t);
        proof {
            assert(orig.subrange(0, i + 1).drop_last() =~= orig.subrange(0, i));
            assert(orig.subrange(0, i + 1).last() == t);
            i = i + 1;
            assert(input@ =~= orig.subrange(i, orig.len() as int));
        }
    }
    proof {
        assert(i == orig.len());
    }
    out
}

/// `i` is the first album of the folder.
pub open spec fn is_first_album(albums: Seq<Album>, folder: Seq<char>, i: int) -> bool {
    0 <= i < albums.len() && albums[i].path@ == folder && forall|j: int|
        0 <= j < i ==> albums[j].path@ != folder
}

/// `b` is album `a` with track `t` added: an album's first track gives it
/// its title, artist and year when it names them.
pub open spec fn album_added(a: Album, b: Album, t: Track) -> bool {
    &&& b.tracks@ == a.tracks@.push(t)
    &&& b.path == a.path
    &&& b.id == a.id
    &&& b.status == a.status
    &&& b.cover_path == a.cover_path
    &&& b.has_playlist == a.has_playlist
    &&& b.issues == a.issues
    &&& if a.tracks@.len() == 0 {
        &&& b.title@ == (if t.album@.len() > 0 {
            t.album@
        } else {
            a.title@
        })
        &&& b.artist@ == (if t.artist@.len() > 0 {
            t.artist@
        } else {
            a.artist@
        })
        &&& b.year == t.year
    } else {
        &&& b.title == a.title
        &&& b.artist == a.artist
        &&& b.year == a.year
    }
}

/// `b` is a new album for the folder, titled after it, holding `t`.
pub open spec fn album_started(b: Album, folder: Seq<char>, folder_name: Seq<char>, t: Track) -> bool {
    &&& b.path@ == folder
    &&& b.id@ == hex_of(md5_of(folder))
    &&& b.tracks@ == seq![t]
    &&& b.title@ == (if t.album@.len() > 0 {
        t.album@
    } else {
        folder_name
    })
    &&& b.artist@ == (if t.artist@.len() > 0 {
        t.artist@
    } else {
        UNKNOWN_ARTIST@
    })
    &&& b.year == t.year
    &&& b.status == AlbumStatus::Processing
    &&& b.cover_path is None
    &&& !b.has_playlist
    &&& b.issues@.len() == 0
}

fn add_track(a: &mut Album, t: Track)
    ensures
        album_added(*old(a), *final(a), t),
{
    if a.tracks.len() == 0 {
        if !t.album.as_str().is_empty() {
            a.title = t.album.clone();
        }
        if !t.artist.as_str().is_empty() {
            a.artist = t.artist.clone();
        }
        a.year = t.year;
    }
    a.tracks.push(t);
}

/// Files a scanned track under the album of its folder, starting that
/// album, named after the folder, when it is the folder's first track.
pub fn add_to_album(albums: &mut Vec<Album>, folder: String, folder_name: String, track: Track)
    ensures
        (exists|i: int| 0 <= i < old(albums)@.len() && old(albums)@[i].path@ == folder@) ==> {
            let i = choose|i: int| is_first_album(old(albums)@, folder@, i);
            &&& is_first_album(old(albums)@, folder@, i)
            &&& final(albums)@.len() == old(albums)@.len()
            &&& forall|j: int| 0 <= j < old(albums)@.len() && j != i ==> final(albums)@[j] == old(albums)@[j]
            &&& album_added(old(albums)@[i], final(albums)@[i], track)
        },
        !(exists|i: int| 0 <= i < old(albums)@.len() && old(albums)@[i].path@ == folder@) ==> {
            &&& final(albums)@.len() == old(albums)@.len() + 1
            &&& forall|j: int| 0 <= j < old(albums)@.len() ==> final(albums)@[j] == old(albums)@[j]
            &&& album_started(final(albums)@.last(), folder@, folder_name@, track)
        },
{
    let mut k: usize = 0;
    while k < albums.len()
        invariant
            k <= albums.len(),
            albums@ == old(albums)@,
            forall|j: int| 0 <= j < k ==> albums@[j].path@ != folder@,
        decreases albums.len() - k,
    {
        if albums[k].path == folder {
            let ghost old_albums = albums@;
            proof {
                assert(is_first_album(old_albums, folder@, k as int));
                let c = choose|i: int| is_first_album(old_albums, folder@, i);
                assert(is_first_album(old_albums, folder@, c));
                if c < k {
                    assert(old_albums[c].path@ != folder@);
                } else if k < c {
                    assert(old_albums[k as int].path@ != folder@);
                }
            }
            let mut a = albums.remove(k);
            add_track(&mut a, track);
            albums.insert(k, a);
            assert(albums@ =~= old_albums.update(k as int, albums@[k as int]));
            return;
        }
        k = k + 1;
    }
    let unknown = string_of(&chars_of(UNKNOWN_ARTIST));
    let ghost t = track;
    let mut a = Album::new(folder, folder_name, unknown);
    add_track(&mut a, track);
    assert(a.tracks@ =~= seq![t]);
    albums.push(a);
}

/// Marks an album Incomplete when it has no track and Clean otherwise, and
/// orders its tracks by number.
pub fn finish_album(album: &mut Album)
    ensures
        final(album).status == if old(album).tracks@.len() == 0 {
            AlbumStatus::Incomplete
        } else {
            AlbumStatus::Clean
        },
        final(album).tracks@ == sorted_by_number(old(album).tracks@),
        final(album).path == old(album).path,
        final(album).id == old(album).id,
        final(album).title == old(album).title,
        final(album).artist == old(album).artist,
        final(album).year == old(album).year,
        final(album).cover_path == old(album).cover_path,
{
    if album.tracks.len() == 0 {
        album.status = AlbumStatus::Incomplete;
    } else {
        album.status = AlbumStatus::Clean;
    }
    let mut tracks: Vec<Track> = Vec::new();
    core::mem::swap(&mut tracks, &mut album.tracks);
    album.tracks = sort_tracks(tracks);
}

} // verus!
