//! The rules that sort the files of an album folder: audio, images,
//! playlists, junk, and which image becomes the cover.
use vstd::prelude::*;
use crate::naming::{is_listed, listed};
use crate::text::{append_chars, chars_of, equal_chars, lower_of, string_of, to_lower, words_of, views, split_words_of};

verus! {

pub const AUDIO_EXTENSIONS: &'static str = "mp3 flac ogg m4a wav";

/// What the scanner keeps besides audio: the usual image formats.
pub const KEPT_EXTENSIONS: &'static str = "mp3 flac ogg m4a wav jpg jpeg png";

pub const IMAGE_EXTENSIONS: &'static str = "jpg jpeg png bmp webp";

pub const PLAYLIST_EXTENSIONS: &'static str = "m3u m3u8 pls";

/// The images that the cleaner gathers before choosing a cover.
pub const CLEANER_IMAGE_EXTENSIONS: &'static str = "jpg jpeg bmp gif";

/// The names that an album's cover commonly has, in order of preference.
pub const COVER_NAMES: &'static str = "cover folder front album";

pub const JUNK_EXTENSIONS: &'static str = "nfo m3u txt url sfv ini db ds_store thumbs.db png tmp temp bak log md5 pdf doc docx gif bmp";

pub const JUNK_NAMES: &'static str = "desktop.ini .fuse_hidden ._metadata #recycle recycle.bin";

pub open spec fn cover_jpg() -> Seq<char> {
    seq!['c', 'o', 'v', 'e', 'r', '.', 'j', 'p', 'g']
}

pub open spec fn front_jpg() -> Seq<char> {
    seq!['f', 'r', 'o', 'n', 't', '.', 'j', 'p', 'g']
}

/// Whether the extension, in lower case, is one of the list's.
pub open spec fn ext_in(list: Seq<char>, ext: Option<Seq<char>>) -> bool {
    match ext {
        Some(e) => listed(list, lower_of(e)),
        None => false,
    }
}

fn ext_listed(list: &str, ext: Option<&str>) -> (r: bool)
    ensures
        r == ext_in(list@, match ext {
            Some(e) => Some(e@),
            None => None,
        }),
{
    match ext {
        Some(e) => is_listed(list, &chars_of(to_lower(e).as_str())),
        None => false,
    }
}

/// A file that the validator reports as junk: neither audio nor exactly
/// "cover.jpg".
pub open spec fn validator_junk(name: Seq<char>, ext: Option<Seq<char>>) -> bool {
    !ext_in(AUDIO_EXTENSIONS@, ext) && name != cover_jpg()
}

pub fn is_validator_junk(name: &str, ext: Option<&str>) -> (r: bool)
    ensures
        r == validator_junk(name@, match ext {
            Some(e) => Some(e@),
            None => None,
        }),
{
    let cover = vec!['c', 'o', 'v', 'e', 'r', '.', 'j', 'p', 'g'];
    assert(cover@ =~= cover_jpg());
    !ext_listed(AUDIO_EXTENSIONS, ext) && !equal_chars(&chars_of(name), &cover)
}

/// A file that the scanner reports as junk: neither audio nor an image it
/// keeps.
pub fn is_scanner_junk(ext: Option<&str>) -> (r: bool)
    ensures
        r == !ext_in(KEPT_EXTENSIONS@, match ext {
            Some(e) => Some(e@),
            None => None,
        }),
{
    !ext_listed(KEPT_EXTENSIONS, ext)
}

/// The audio formats that a scan reads.
pub fn is_audio(ext: Option<&str>) -> (r: bool)
    ensures
        r == ext_in(AUDIO_EXTENSIONS@, match ext {
            Some(e) => Some(e@),
            None => None,
        }),
{
    ext_listed(AUDIO_EXTENSIONS, ext)
}

pub fn is_image(ext: Option<&str>) -> (r: bool)
    ensures
        r == ext_in(IMAGE_EXTENSIONS@, match ext {
            Some(e) => Some(e@),
            None => None,
        }),
{
    ext_listed(IMAGE_EXTENSIONS, ext)
}

pub fn is_cleaner_image(ext: Option<&str>) -> (r: bool)
    ensures
        r == ext_in(CLEANER_IMAGE_EXTENSIONS@, match ext {
            Some(e) => Some(e@),
            None => None,
        }),
{
    ext_listed(CLEANER_IMAGE_EXTENSIONS, ext)
}

pub fn is_playlist(ext: Option<&str>) -> (r: bool)
    ensures
        r == ext_in(PLAYLIST_EXTENSIONS@, match ext {
            Some(e) => Some(e@),
            None => None,
        }),
{
    ext_listed(PLAYLIST_EXTENSIONS, ext)
}

/// A file that the cleaner deletes: a junk name or a junk extension, in any
/// case.
pub open spec fn cleaner_junk(name: Seq<char>, ext: Option<Seq<char>>) -> bool {
    listed(JUNK_NAMES@, lower_of(name)) || ext_in(JUNK_EXTENSIONS@, ext)
}

pub fn is_cleaner_junk(name: &str, ext: Option<&str>) -> (r: bool)
    ensures
        r == cleaner_junk(name@, match ext {
            Some(e) => Some(e@),
            None => None,
        }),
{
    is_listed(JUNK_NAMES, &chars_of(to_lower(name).as_str())) || ext_listed(JUNK_EXTENSIONS, ext)
}

/// The file names looked for first when searching a cover: each common name
/// with each image extension, names first.
pub open spec fn cover_candidate_names() -> Seq<Seq<char>> {
    let names = words_of(COVER_NAMES@);
    let exts = words_of(IMAGE_EXTENSIONS@);
    Seq::new(
        names.len() * exts.len(),
        |k: int| names[k / exts.len() as int] + seq!['.'] + exts[k % exts.len() as int],
    )
}

pub fn cover_candidates() -> (r: Vec<String>)
    ensures
        r@.map_values(|s: String| s@) == cover_candidate_names(),
{
    let names = split_words_of(&chars_of(COVER_NAMES));
    let exts = split_words_of(&chars_of(IMAGE_EXTENSIONS));
    let ghost ns = words_of(COVER_NAMES@);
    let ghost es = words_of(IMAGE_EXTENSIONS@);
    let mut out: Vec<String> = Vec::new();
    let mut i: usize = 0;
    while i < names.len()
        invariant
            i <= names.len(),
            views(names@) == ns,
            views(exts@) == es,
            out@.len() == i * es.len(),
            forall|k: int|
                0 <= k < out@.len() ==> #[trigger] out@[k]@ == ns[k / es.len() as int] + seq!['.']
                    + es[k % es.len() as int],
        decreases names.len() - i,
    {
        let mut j: usize = 0;
        while j < exts.len()
            invariant
                i < names.len(),
                j <= exts.len(),
                views(names@) == ns,
                views(exts@) == es,
                out@.len() == i * es.len() + j,
                forall|k: int|
                    0 <= k < out@.len() ==> #[trigger] out@[k]@ == ns[k / es.len() as int]
                        + seq!['.'] + es[k % es.len() as int],
            decreases exts.len() - j,
        {
            let mut name = names[i].clone();
            name.push('.');
            append_chars(&mut name, &exts[j]);
            let ghost k = out@.len() as int;
            proof {
                lemma_index_split(i as int, j as int, es.len() as int);
                assert(views(names@)[i as int] == names@[i as int]@);
                assert(views(exts@)[j as int] == exts@[j as int]@);
            }
            out.push(string_of(&name));
            j = j + 1;
        }
        proof {
            assert((i + 1) * es.len() == i * es.len() + es.len()) by (nonlinear_arith);
        }
        i = i + 1;
    }
    proof {
        let c = cover_candidate_names();
        assert(out@.map_values(|s: String| s@) =~= c);
    }
    out
}

proof fn lemma_index_split(i: int, j: int, n: int)
    requires
        0 <= i,
        0 <= j < n,
    ensures
        (i * n + j) / n == i,
        (i * n + j) % n == j,
{
    vstd::arithmetic::div_mod::lemma_fundamental_div_mod_converse(i * n + j, n, i, j);
}

/// The image that becomes the cover among images named `names` (in lower
/// case) with sizes `sizes`: the first "cover.jpg", else the first
/// "front.jpg", else the last of the largest.
pub open spec fn best_image(names: Seq<Seq<char>>, sizes: Seq<u64>) -> Option<int> {
    if names.len() == 0 {
        None
    } else if exists|i: int| 0 <= i < names.len() && names[i] == cover_jpg() {
        Some(first_named(names, cover_jpg()))
    } else if exists|i: int| 0 <= i < names.len() && names[i] == front_jpg() {
        Some(first_named(names, front_jpg()))
    } else {
        Some(last_largest(sizes))
    }
}

/// `i` is the first position of `n` among `names`.
pub open spec fn is_first_named(names: Seq<Seq<char>>, n: Seq<char>, i: int) -> bool {
    0 <= i < names.len() && names[i] == n && forall|j: int| 0 <= j < i ==> names[j] != n
}

pub open spec fn first_named(names: Seq<Seq<char>>, n: Seq<char>) -> int {
    choose|i: int| is_first_named(names, n, i)
}

/// `i` holds the largest size, and no later position holds as much.
pub open spec fn is_last_largest(sizes: Seq<u64>, i: int) -> bool {
    0 <= i < sizes.len() && (forall|j: int| 0 <= j < sizes.len() ==> sizes[j] <= sizes[i])
        && forall|j: int| i < j < sizes.len() ==> sizes[j] < sizes[i]
}

pub open spec fn last_largest(sizes: Seq<u64>) -> int {
    choose|i: int| is_last_largest(sizes, i)
}

proof fn lemma_first_named_unique(names: Seq<Seq<char>>, n: Seq<char>, a: int, b: int)
    requires
        is_first_named(names, n, a),
        is_first_named(names, n, b),
    ensures
        a == b,
{
    if a < b {
        assert(names[a] != n);
    } else if b < a {
        assert(names[b] != n);
    }
}

fn first_index_named(names: &Vec<String>, n: &Vec<char>) -> (r: Option<usize>)
    ensures
        r matches Some(i) ==> i < names.len() && names@[i as int]@ == n@ && forall|j: int|
            0 <= j < i ==> names@[j]@ != n@,
        r is None ==> forall|j: int| 0 <= j < names.len() ==> names@[j]@ != n@,
{
    let mut i: usize = 0;
    while i < names.len()
        invariant
            i <= names.len(),
            forall|j: int| 0 <= j < i ==> names@[j]@ != n@,
        decreases names.len() - i,
    {
        if equal_chars(&chars_of(names[i].as_str()), n) {
            return Some(i);
        }
        i = i + 1;
    }
    None
}

/// Which of the images to keep as the cover.
pub fn pick_cover(names: &Vec<String>, sizes: &Vec<u64>) -> (r: Option<usize>)
    requires
        names.len() == sizes.len(),
    ensures
        r matches Some(i) ==> best_image(names@.map_values(|s: String| s@), sizes@) == Some(
            i as int,
        ),
        r is None ==> best_image(names@.map_values(|s: String| s@), sizes@) is None,
{
    let ghost ns = names@.map_values(|s: String| s@);
    if names.len() == 0 {
        return None;
    }
    let cover = vec!['c', 'o', 'v', 'e', 'r', '.', 'j', 'p', 'g'];
    let front = vec!['f', 'r', 'o', 'n', 't', '.', 'j', 'p', 'g'];
    assert(cover@ =~= cover_jpg());
    assert(front@ =~= front_jpg());
    match first_index_named(names, &cover) {
        Some(i) => {
            assert(is_first_named(ns, cover_jpg(), i as int));
            assert(ns[i as int] == cover_jpg());
            proof {
                assert(is_first_named(ns, cover_jpg(), first_named(ns, cover_jpg())));
                lemma_first_named_unique(ns, cover_jpg(), i as int, first_named(ns, cover_jpg()));
            }
            return Some(i);
        },
        None => {
            assert(forall|j: int| 0 <= j < ns.len() ==> ns[j] != cover_jpg());
        },
    }
    match first_index_named(names, &front) {
        Some(i) => {
            assert(is_first_named(ns, front_jpg(), i as int));
            assert(ns[i as int] == front_jpg());
            proof {
                assert(is_first_named(ns, front_jpg(), first_named(ns, front_jpg())));
                lemma_first_named_unique(ns, front_jpg(), i as int, first_named(ns, front_jpg()));
            }
            return Some(i);
        },
        None => {
            assert(forall|j: int| 0 <= j < ns.len() ==> ns[j] != front_jpg());
        },
    }
    let mut best: usize = 0;
    let mut i: usize = 1;
    while i < sizes.len()
        invariant
            1 <= i <= sizes.len(),
            best < i,
            forall|j: int| 0 <= j < i ==> sizes@[j] <= sizes@[best as int],
            forall|j: int| best < j < i ==> sizes@[j] < sizes@[best as int],
        decreases sizes.len() - i,
    {
        if sizes[i] >= sizes[best] {
            best = i;
        }
        i = i + 1;
    }
    assert(ns.len() > 0);
    assert(is_last_largest(sizes@, best as int));
    proof {
        let c = last_largest(sizes@);
        assert(is_last_largest(sizes@, c));
        if c != best as int {
            if c < best {
                assert(sizes@[best as int] < sizes@[c]);
            } else {
                assert(sizes@[c] < sizes@[best as int]);
            }
        }
    }
    Some(best)
}

} // verus!
