//! The renamer: folder and file names for an album whose tracks may span
//! several years.
use vstd::prelude::*;
use crate::naming::{
    apply_sentence_case_with_exception, folder_name, folder_name_from, path_component,
    sanitize_path_component, sentence_case_except, track_file_name, track_file_name_from,
    year_range_prefix, year_range_prefix_chars,
};

verus! {

pub struct RenamerService;

impl RenamerService {
    pub fn new() -> (r: Self) {
        RenamerService
    }

    /// "(min-yy) Title", "(year) Title" or "Title" for an album, the title in
    /// sentence case with the artist's own spelling kept, safe as a path
    /// component.
    pub fn format_folder_name(
        &self,
        artist: &str,
        album: &str,
        year_min: Option<u32>,
        year_max: Option<u32>,
    ) -> (r: String)
        ensures
            r@ == folder_name(year_range_prefix(year_min, year_max), artist@, album@),
    {
        folder_name_from(&year_range_prefix_chars(year_min, year_max), artist, album)
    }

    /// "NN - Title.ext" for a track, safe as a file name.
    pub fn format_track_filename(
        &self,
        track_number: Option<u32>,
        title: &str,
        extension: &str,
    ) -> (r: String)
        ensures
            r@ == track_file_name(track_number, seq![' ', '-', ' '], title@, extension@),
    {
        let sep = vec![' ', '-', ' '];
        assert(sep@ =~= seq![' ', '-', ' ']);
        track_file_name_from(track_number, &sep, title, extension)
    }

    /// `name` made safe as one component of a path.
    pub fn sanitize_path_component(&self, name: &str) -> (r: String)
        ensures
            r@ == path_component(name@),
    {
        sanitize_path_component(name)
    }

    /// `text` in sentence case with `exception` spelled as given.
    pub fn apply_sentence_case_with_exception(&self, text: &str, exception: &str) -> (r: String)
        ensures
            r@ == sentence_case_except(text@, exception@),
    {
        apply_sentence_case_with_exception(text, exception)
    }
}

} // verus!
