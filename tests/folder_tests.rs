use tagotomatik::correct::{
    album_folder_title, auto_correct_folder_name, correction_folder_name, folder_year,
    saved_album_folder_name, saved_track_filename, strip_trailing_separator,
};
use tagotomatik::folder::{
    cover_candidates, is_cleaner_image, is_cleaner_junk, is_image, is_playlist, is_scanner_junk,
    is_validator_junk, pick_cover,
};
use tagotomatik::models::{Album, Track};
use tagotomatik::playlist::{count_playlist_entries, playlist_entries};

fn track(artist: &str, album: &str, year: Option<u32>) -> Track {
    let mut t = Track::new("/m/a/01.mp3".to_string(), "01.mp3".to_string());
    t.artist = artist.to_string();
    t.album = album.to_string();
    t.year = year;
    t
}

#[test]
fn validator_junk_keeps_audio_and_exact_cover() {
    assert!(!is_validator_junk("a.MP3", Some("MP3")));
    assert!(!is_validator_junk("cover.jpg", Some("jpg")));
    assert!(is_validator_junk("Cover.jpg", Some("jpg")));
    assert!(is_validator_junk("notes.txt", Some("txt")));
    assert!(is_validator_junk("README", None));
}

#[test]
fn extension_classes() {
    assert!(!is_scanner_junk(Some("PNG")));
    assert!(is_scanner_junk(Some("bmp")));
    assert!(is_image(Some("WebP")));
    assert!(!is_image(Some("gif")));
    assert!(is_cleaner_image(Some("gif")));
    assert!(is_playlist(Some("m3u8")));
    assert!(!is_playlist(None));
    assert!(is_cleaner_junk("Desktop.ini", Some("ini")));
    assert!(is_cleaner_junk("#recycle", None));
    assert!(is_cleaner_junk("scan.PDF", Some("PDF")));
    assert!(!is_cleaner_junk("01.flac", Some("flac")));
}

#[test]
fn cover_candidates_in_order() {
    let c = cover_candidates();
    assert_eq!(c.len(), 20);
    assert_eq!(c[0], "cover.jpg");
    assert_eq!(c[1], "cover.jpeg");
    assert_eq!(c[4], "cover.webp");
    assert_eq!(c[5], "folder.jpg");
    assert_eq!(c[19], "album.webp");
}

#[test]
fn pick_cover_prefers_cover_then_front_then_largest() {
    let names = vec!["a.jpg".to_string(), "front.jpg".to_string(), "cover.jpg".to_string()];
    assert_eq!(pick_cover(&names, &vec![9, 1, 1]), Some(2));
    let names = vec!["a.jpg".to_string(), "front.jpg".to_string()];
    assert_eq!(pick_cover(&names, &vec![9, 1]), Some(1));
    let names = vec!["a.jpg".to_string(), "b.jpg".to_string(), "c.jpg".to_string()];
    assert_eq!(pick_cover(&names, &vec![5, 7, 7]), Some(2));
    assert_eq!(pick_cover(&Vec::new(), &Vec::new()), None);
}

#[test]
fn earliest_year_of_tracks() {
    let ts = vec![track("a", "b", Some(2003)), track("a", "b", None), track("a", "b", Some(1999))];
    assert_eq!(folder_year(&ts), Some(1999));
    assert_eq!(folder_year(&vec![track("a", "b", None)]), None);
}

#[test]
fn folder_title_strips_year_prefix() {
    assert_eq!(album_folder_title("(2001) Title", "X"), "Title");
    assert_eq!(album_folder_title("(Live) Title", "X"), "(Live) Title");
    assert_eq!(album_folder_title("(2001)  ", "Fallback"), "Fallback");
    assert_eq!(album_folder_title("", "Fallback"), "Fallback");
    assert_eq!(strip_trailing_separator(&"/m/a/".to_string()), "/m/a");
    assert_eq!(strip_trailing_separator(&"/m/a".to_string()), "/m/a");
}

#[test]
fn auto_correct_folder_names() {
    let mut album = Album::new("/m/a".to_string(), "(2001) best OF".to_string(), "X".to_string());
    assert_eq!(auto_correct_folder_name(&album), None);
    album.tracks.push(track("Queen", "Greatest hits", Some(2001)));
    album.tracks.push(track("Queen", "Greatest hits", Some(1981)));
    assert_eq!(auto_correct_folder_name(&album), Some("(1981) Best of".to_string()));
    assert_eq!(correction_folder_name(&album), Some("(1981) Greatest hits".to_string()));
}

#[test]
fn saved_names() {
    assert_eq!(saved_track_filename(Some(4), "What? Now", "flac"), "04 - What_ Now.flac");
    assert_eq!(saved_track_filename(None, "A", "mp3"), "00 - A.mp3");
    assert_eq!(saved_album_folder_name("AC/DC", "Back: in"), "AC_DC - Back_ in");
}

#[test]
fn playlist_lines() {
    let text = "#EXTM3U\r\n a.mp3 \r\n\n#c\nb.flac";
    assert_eq!(playlist_entries(text), vec!["a.mp3".to_string(), "b.flac".to_string()]);
    assert_eq!(count_playlist_entries(text), 2);
    assert_eq!(count_playlist_entries(" #x\n"), 1);
    assert_eq!(playlist_entries(""), Vec::<String>::new());
}

#[test]
fn audio_extensions_any_case() {
    assert!(tagotomatik::folder::is_audio(Some("FLAC")));
    assert!(tagotomatik::folder::is_audio(Some("m4a")));
    assert!(!tagotomatik::folder::is_audio(Some("jpg")));
    assert!(!tagotomatik::folder::is_audio(None));
}
