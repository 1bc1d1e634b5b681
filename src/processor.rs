//! The metadata processor: cleans a track's tags, corrects their case and
//! applies the user's case exceptions.
use vstd::prelude::*;
use crate::models::{CaseException, Track};
use crate::naming::{
    case_corrected, correct_case, folder_name,
    folder_name_from, format_track_number_text, title_case, title_cased, track_file_name,
    track_file_name_from, track_number_formatted, year_prefix, year_prefix_chars,
};
use crate::text::{chars_of, lower_of, string_of, to_lower, trim, trim_chars};

verus! {

/// Connectors "feat", "feat.", "ft", "ft." and "with" between spaces.
pub const FEAT_PATTERN: &'static str = "(?i)\\s+(feat\\.?|ft\\.?|with)\\s+";

/// The connector "and" between spaces.
pub const AND_PATTERN: &'static str = "(?i)\\s+and\\s+";

/// A run of whitespace.
pub const SPACES_PATTERN: &'static str = "\\s+";

/// Whether `regex::Regex::new` accepts the pattern.
pub uninterp spec fn regex_compiles(pattern: Seq<char>) -> bool;

/// What `regex::Regex::replace_all` returns for the pattern, the text and the
/// replacement.
pub uninterp spec fn regex_replaced(pattern: Seq<char>, text: Seq<char>, rep: Seq<char>) -> Seq<
    char,
>;

/// Relies on `regex::Regex::new`, which fails on a pattern it does not
/// accept, and on `regex::Regex::replace_all`: every non-overlapping match in
/// `text` replaced by `rep`; the result depends on the three texts alone.
#[verifier::external_body]
pub(crate) fn regex_replace_all(pattern: &str, text: &str, rep: &str) -> (r: Option<String>)
    ensures
        r is Some <==> regex_compiles(pattern@),
        r matches Some(x) ==> x@ == regex_replaced(pattern@, text@, rep@),
{
    regex::Regex::new(pattern).ok().map(|re| re.replace_all(text, rep).into_owned())
}

/// One replacement pass, skipped when the pattern does not compile.
pub open spec fn replace_pass(pattern: Seq<char>, text: Seq<char>, rep: Seq<char>) -> Seq<char> {
    if regex_compiles(pattern) {
        regex_replaced(pattern, text, rep)
    } else {
        text
    }
}

/// A tag with its connectors normalised to " feat. " and " & ", its
/// whitespace runs collapsed to one space, and trimmed.
pub open spec fn cleaned(s: Seq<char>) -> Seq<char> {
    trim(
        replace_pass(
            SPACES_PATTERN@,
            replace_pass(
                AND_PATTERN@,
                replace_pass(FEAT_PATTERN@, s, seq![' ', 'f', 'e', 'a', 't', '.', ' ']),
                seq![' ', '&', ' '],
            ),
            seq![' '],
        ),
    )
}

fn replace_step(pattern: &str, text: String, rep: &Vec<char>) -> (r: String)
    ensures
        r@ == replace_pass(pattern@, text@, rep@),
{
    match regex_replace_all(pattern, text.as_str(), string_of(rep).as_str()) {
        Some(x) => x,
        None => text,
    }
}

pub fn clean_text(input: &str) -> (r: String)
    ensures
        r@ == cleaned(input@),
{
    let feat = vec![' ', 'f', 'e', 'a', 't', '.', ' '];
    let and = vec![' ', '&', ' '];
    let space = vec![' '];
    assert(feat@ =~= seq![' ', 'f', 'e', 'a', 't', '.', ' ']);
    assert(and@ =~= seq![' ', '&', ' ']);
    assert(space@ =~= seq![' ']);
    let s = string_of(&chars_of(input));
    let s = replace_step(FEAT_PATTERN, s, &feat);
    let s = replace_step(AND_PATTERN, s, &and);
    let s = replace_step(SPACES_PATTERN, s, &space);
    string_of(&trim_chars(&chars_of(s.as_str())))
}

/// The case exceptions, keyed by category and lower-case original text.
/// A later entry for a key overrides an earlier one.
pub struct ExceptionTable {
    entries: Vec<(String, String, String)>,
}

/// The correction for `(category, key)` among `entries`: the last entry
/// with that key.
pub open spec fn lookup(
    entries: Seq<(Seq<char>, Seq<char>, Seq<char>)>,
    category: Seq<char>,
    key: Seq<char>,
) -> Option<Seq<char>>
    decreases entries.len(),
{
    if entries.len() == 0 {
        None
    } else if entries.last().0 == category && entries.last().1 == key {
        Some(entries.last().2)
    } else {
        lookup(entries.drop_last(), category, key)
    }
}

impl ExceptionTable {
    pub closed spec fn entries(&self) -> Seq<(Seq<char>, Seq<char>, Seq<char>)> {
        self.entries@.map_values(|e: (String, String, String)| (e.0@, e.1@, e.2@))
    }

    /// The correction stored for a category and a lower-case text.
    pub open spec fn get_spec(&self, category: Seq<char>, key: Seq<char>) -> Option<Seq<char>> {
        lookup(self.entries(), category, key)
    }

    pub fn new() -> (r: Self)
        ensures
            forall|c: Seq<char>, k: Seq<char>| #[trigger] r.get_spec(c, k) is None,
    {
        let r = ExceptionTable { entries: Vec::new() };
        assert(r.entries() =~= Seq::<(Seq<char>, Seq<char>, Seq<char>)>::empty());
        r
    }

    /// Stores `corrected` for `(category, key)`, replacing what was there.
    pub fn insert(&mut self, category: String, key: String, corrected: String)
        ensures
            forall|c: Seq<char>, k: Seq<char>| #[trigger]
                final(self).get_spec(c, k) == if c == category@ && k == key@ {
                    Some(corrected@)
                } else {
                    old(self).get_spec(c, k)
                },
    {
        let ghost e = (category@, key@, corrected@);
        self.entries.push((category, key, corrected));
        assert(self.entries() =~= old(self).entries().push(e));
        assert forall|c: Seq<char>, k: Seq<char>| #[trigger]
            self.get_spec(c, k) == if c == category@ && k == key@ {
                Some(corrected@)
            } else {
                old(self).get_spec(c, k)
            } by {
            assert(self.entries().drop_last() =~= old(self).entries());
        }
    }

    /// The correction for `(category, key)`, if one is stored.
    pub fn get(&self, category: &String, key: &String) -> (r: Option<String>)
        ensures
            r matches Some(v) ==> self.get_spec(category@, key@) == Some(v@),
            r is None ==> self.get_spec(category@, key@) is None,
    {
        let mut i: usize = self.entries.len();
        assert(self.entries().subrange(0, i as int) =~= self.entries());
        while i > 0
            invariant
                i <= self.entries@.len(),
                lookup(self.entries(), category@, key@) == lookup(
                    self.entries().subrange(0, i as int),
                    category@,
                    key@,
                ),
            decreases i,
        {
            let e = &self.entries[i - 1];
            assert(self.entries().subrange(0, i as int).last() == (e.0@, e.1@, e.2@));
            assert(self.entries().subrange(0, i as int).drop_last() =~= self.entries().subrange(
                0,
                i - 1,
            ));
            if e.0 == *category && e.1 == *key {
                return Some(e.2.clone());
            }
            i = i - 1;
        }
        None
    }

    /// The table of a list of exceptions, each under its category and its
    /// original text in lower case; a later exception overrides an earlier one.
    pub fn from_exceptions(list: &Vec<CaseException>) -> (r: Self)
        ensures
            forall|c: Seq<char>, k: Seq<char>| #[trigger]
                r.get_spec(c, k) == exceptions_lookup(list@, c, k),
    {
        let mut t = ExceptionTable::new();
        let mut i: usize = 0;
        while i < list.len()
            invariant
                i <= list.len(),
                forall|c: Seq<char>, k: Seq<char>| #[trigger]
                    t.get_spec(c, k) == exceptions_lookup(list@.subrange(0, i as int), c, k),
            decreases list.len() - i,
        {
            let ex = &list[i];
            let key = to_lower(ex.original.as_str());
            t.insert(ex.category.clone(), key, ex.corrected.clone());
            assert(list@.subrange(0, i + 1).drop_last() =~= list@.subrange(0, i as int));
            i = i + 1;
        }
        assert(list@.subrange(0, list.len() as int) =~= list@);
        t
    }
}

/// The correction that a list of exceptions gives for `(category, key)`.
pub open spec fn exceptions_lookup(list: Seq<CaseException>, category: Seq<char>, key: Seq<char>) -> Option<
    Seq<char>,
>
    decreases list.len(),
{
    if list.len() == 0 {
        None
    } else if list.last().category@ == category && lower_of(list.last().original@) == key {
        Some(list.last().corrected@)
    } else {
        exceptions_lookup(list.drop_last(), category, key)
    }
}

pub open spec fn global_category() -> Seq<char> {
    seq!['g', 'l', 'o', 'b', 'a', 'l']
}

pub open spec fn artist_category() -> Seq<char> {
    seq!['a', 'r', 't', 'i', 's', 't']
}

pub open spec fn album_category() -> Seq<char> {
    seq!['a', 'l', 'b', 'u', 'm']
}

/// `value` replaced by the correction stored for its lower case under
/// `category`, if any.
pub open spec fn corrected_by(t: ExceptionTable, category: Seq<char>, value: Seq<char>) -> Seq<
    char,
> {
    match t.get_spec(category, lower_of(value)) {
        Some(c) => c,
        None => value,
    }
}

pub open spec fn opt_view(o: Option<String>) -> Option<Seq<char>> {
    match o {
        Some(s) => Some(s@),
        None => None,
    }
}

/// A genre cleaned and put in title case.
pub open spec fn cleaned_genre(g: Option<Seq<char>>) -> Option<Seq<char>> {
    match g {
        Some(x) => Some(title_cased(cleaned(x))),
        None => None,
    }
}

fn correct_with(t: &ExceptionTable, category: &String, value: String) -> (r: String)
    ensures
        r@ == corrected_by(*t, category@, value@),
{
    let key = to_lower(value.as_str());
    match t.get(category, &key) {
        Some(c) => c,
        None => value,
    }
}

fn same_text(a: &Option<String>, b: &Option<String>) -> (r: bool)
    ensures
        r == (opt_view(*a) == opt_view(*b)),
{
    match (a, b) {
        (Some(x), Some(y)) => *x == *y,
        (None, None) => true,
        _ => false,
    }
}

/// The processor of track metadata.
pub struct MetadataProcessorService;

impl MetadataProcessorService {
    pub fn new() -> (r: Self) {
        MetadataProcessorService
    }

    /// Cleans the title, artist, album and genre of `track`, corrects the
    /// case of the title and album, applies the exceptions, and marks the
    /// track modified when a tag now differs from the one originally read.
    pub fn nettoyer_track(&self, track: &mut Track, exceptions: &ExceptionTable)
        ensures
            final(track).title@ == corrected_by(
                *exceptions,
                global_category(),
                case_corrected(cleaned(old(track).title@)),
            ),
            final(track).artist@ == corrected_by(
                *exceptions,
                artist_category(),
                corrected_by(*exceptions, global_category(), cleaned(old(track).artist@)),
            ),
            final(track).album@ == corrected_by(
                *exceptions,
                album_category(),
                corrected_by(
                    *exceptions,
                    global_category(),
                    case_corrected(cleaned(old(track).album@)),
                ),
            ),
            opt_view(final(track).genre) == cleaned_genre(opt_view(old(track).genre)),
            final(track).is_modified == (old(track).is_modified || match old(
                track,
            ).original_metadata {
                Some(o) => final(track).title@ != o.title@ || final(track).artist@ != o.artist@
                    || final(track).album@ != o.album@ || opt_view(final(track).genre)
                    != opt_view(o.genre),
                None => false,
            }),
            final(track).path@ == old(track).path@,
            final(track).filename@ == old(track).filename@,
            final(track).year == old(track).year,
            final(track).track_number == old(track).track_number,
            final(track).duration_sec == old(track).duration_sec,
            final(track).format@ == old(track).format@,
            final(track).bit_rate == old(track).bit_rate,
            final(track).has_cover == old(track).has_cover,
            final(track).original_metadata == old(track).original_metadata,
    {
        track.title = self.nettoyer_chaine(track.title.as_str());
        track.artist = self.nettoyer_chaine(track.artist.as_str());
        track.album = self.nettoyer_chaine(track.album.as_str());
        let genre = match &track.genre {
            Some(g) => {
                let clean_g = self.nettoyer_chaine(g.as_str());
                Some(self.normalize_genre(clean_g.as_str()))
            },
            None => None,
        };
        track.genre = genre;
        track.title = self.corriger_casse(track.title.as_str());
        track.album = self.corriger_casse(track.album.as_str());
        self.appliquer_exceptions(track, exceptions);
        let modified = match &track.original_metadata {
            Some(o) => track.title != o.title || track.artist != o.artist || track.album != o.album
                || !same_text(&track.genre, &o.genre),
            None => false,
        };
        if modified {
            track.is_modified = true;
        }
    }

    /// Applies the global and artist exceptions to the artist, the global
    /// and album exceptions to the album, and the global ones to the title.
    fn appliquer_exceptions(&self, track: &mut Track, exceptions: &ExceptionTable)
        ensures
            final(track).artist@ == corrected_by(
                *exceptions,
                artist_category(),
                corrected_by(*exceptions, global_category(), old(track).artist@),
            ),
            final(track).album@ == corrected_by(
                *exceptions,
                album_category(),
                corrected_by(*exceptions, global_category(), old(track).album@),
            ),
            final(track).title@ == corrected_by(
                *exceptions,
                global_category(),
                old(track).title@,
            ),
            final(track).genre == old(track).genre,
            final(track).is_modified == old(track).is_modified,
            final(track).path == old(track).path,
            final(track).filename == old(track).filename,
            final(track).year == old(track).year,
            final(track).track_number == old(track).track_number,
            final(track).duration_sec == old(track).duration_sec,
            final(track).format == old(track).format,
            final(track).bit_rate == old(track).bit_rate,
            final(track).has_cover == old(track).has_cover,
            final(track).original_metadata == old(track).original_metadata,
    {
        let global = string_of(&vec!['g', 'l', 'o', 'b', 'a', 'l']);
        let artist = string_of(&vec!['a', 'r', 't', 'i', 's', 't']);
        let album = string_of(&vec!['a', 'l', 'b', 'u', 'm']);
        assert(global@ =~= global_category());
        assert(artist@ =~= artist_category());
        assert(album@ =~= album_category());
        let a = track.artist.clone();
        let a = correct_with(exceptions, &global, a);
        track.artist = correct_with(exceptions, &artist, a);
        let b = track.album.clone();
        let b = correct_with(exceptions, &global, b);
        track.album = correct_with(exceptions, &album, b);
        let t = track.title.clone();
        track.title = correct_with(exceptions, &global, t);
    }

    /// Normalises connectors and whitespace.
    fn nettoyer_chaine(&self, input: &str) -> (r: String)
        ensures
            r@ == cleaned(input@),
    {
        clean_text(input)
    }

    /// "(year) Title" for an album, the title in sentence case with the
    /// artist's own spelling kept, safe as a path component.
    pub fn format_folder_name(&self, artist: &str, album: &str, year: Option<u32>) -> (r: String)
        ensures
            r@ == folder_name(year_prefix(year), artist@, album@),
    {
        folder_name_from(&year_prefix_chars(year), artist, album)
    }

    /// "NN. Title.ext" for a track, safe as a file name.
    pub fn format_track_filename(
        &self,
        track_number: Option<u32>,
        title: &str,
        extension: &str,
    ) -> (r: String)
        ensures
            r@ == track_file_name(track_number, seq!['.', ' '], title@, extension@),
    {
        let sep = vec!['.', ' '];
        assert(sep@ =~= seq!['.', ' ']);
        track_file_name_from(track_number, &sep, title, extension)
    }

    /// Sentence case with Roman numerals, abbreviations and a lone "I" in
    /// upper case.
    pub fn corriger_casse(&self, texte: &str) -> (r: String)
        ensures
            r@ == case_corrected(texte@),
    {
        correct_case(texte)
    }

    /// A track number in two digits at least, or the text unchanged when it
    /// is no number.
    pub fn format_track_number(&self, track: &str) -> (r: String)
        ensures
            r@ == track_number_formatted(track@),
    {
        format_track_number_text(track)
    }

    /// Every word of the genre capitalised.
    pub fn normalize_genre(&self, genre: &str) -> (r: String)
        ensures
            r@ == title_cased(genre@),
    {
        title_case(genre)
    }
}

} // verus!
