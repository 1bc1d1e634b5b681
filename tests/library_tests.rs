use tagotomatik::models::{Album, AlbumStatus, CaseException, Track};
use tagotomatik::naming::{restore_exception, sanitize_filename};
use tagotomatik::processor::{ExceptionTable, MetadataProcessorService};
use tagotomatik::renamer::RenamerService;
use tagotomatik::validator::{FolderFacts, ValidatorService};

fn track(path: &str, title: &str) -> Track {
    let mut t = Track::new(path.to_string(), path.rsplit('/').next().unwrap().to_string());
    t.title = title.to_string();
    t.artist = "Artist".to_string();
    t.album = "Album".to_string();
    t.genre = Some("Rock".to_string());
    t.year = Some(2001);
    t.track_number = Some(1);
    t
}

#[test]
fn album_id_is_md5_of_path() {
    let a = Album::new("abc".to_string(), "T".to_string(), "A".to_string());
    assert_eq!(a.id, "900150983cd24fb0d6963f7d28e17f72");
    assert_eq!(a.status, AlbumStatus::Processing);
    let e = Album::new(String::new(), String::new(), String::new());
    assert_eq!(e.id, "d41d8cd98f00b204e9800998ecf8427e");
}

#[test]
fn case_exception_new_has_no_id() {
    let e = CaseException::new("acdc".to_string(), "AC/DC".to_string(), "artist".to_string());
    assert_eq!(e.id, None);
    assert_eq!(e.corrected, "AC/DC");
}

#[test]
fn sanitize_filename_replaces_forbidden() {
    assert_eq!(sanitize_filename("a/b\\c:d*e?f\"g<h>i|j"), "a_b_c_d_e_f_g_h_i_j");
    assert_eq!(sanitize_filename("plain"), "plain");
}

#[test]
fn renamer_year_ranges() {
    let r = RenamerService::new();
    assert_eq!(r.format_folder_name("X", "hits", Some(1999), Some(2003)), "(1999-03) Hits");
    assert_eq!(r.format_folder_name("X", "hits", Some(2000), Some(2000)), "(2000) Hits");
    assert_eq!(r.format_folder_name("X", "hits", None, Some(2007)), "(2007) Hits");
    assert_eq!(r.format_folder_name("X", "hits", Some(2007), None), "(2007) Hits");
    assert_eq!(r.format_folder_name("X", "hits", None, None), "Hits");
    assert_eq!(r.format_track_filename(Some(3), "Song", "mp3"), "03 - Song.mp3");
    assert_eq!(r.sanitize_path_component("a:b"), "a-b");
    assert_eq!(r.apply_sentence_case_with_exception("the ABBA gold", "ABBA"), "The ABBA gold");
}

#[test]
fn exception_table_later_entry_wins() {
    let mut t = ExceptionTable::new();
    t.insert("artist".to_string(), "abba".to_string(), "Abba".to_string());
    t.insert("artist".to_string(), "abba".to_string(), "ABBA".to_string());
    assert_eq!(t.get(&"artist".to_string(), &"abba".to_string()), Some("ABBA".to_string()));
    assert_eq!(t.get(&"album".to_string(), &"abba".to_string()), None);
    let list = vec![
        CaseException::new("Acdc".to_string(), "AC/DC".to_string(), "global".to_string()),
    ];
    let t2 = ExceptionTable::from_exceptions(&list);
    assert_eq!(t2.get(&"global".to_string(), &"acdc".to_string()), Some("AC/DC".to_string()));
}

#[test]
fn nettoyer_track_cleans_and_marks_modified() {
    let p = MetadataProcessorService::new();
    let mut original = track("/m/01 x.mp3", "back  in black");
    original.artist = "acdc  feat  bon and malcolm".to_string();
    let mut t = track("/m/01 x.mp3", "back  in black");
    t.artist = "acdc  feat  bon and malcolm".to_string();
    t.album = "highway to hell".to_string();
    t.genre = Some("hard   rock".to_string());
    t.original_metadata = Some(Box::new(original));
    let mut ex = ExceptionTable::new();
    ex.insert("global".to_string(), "highway to hell".to_string(), "Highway To Hell".to_string());
    p.nettoyer_track(&mut t, &ex);
    assert_eq!(t.title, "Back in black");
    assert_eq!(t.artist, "acdc feat. bon & malcolm");
    assert_eq!(t.album, "Highway To Hell");
    assert_eq!(t.genre, Some("Hard Rock".to_string()));
    assert!(t.is_modified);
}

#[test]
fn nettoyer_track_unchanged_is_not_modified() {
    let p = MetadataProcessorService::new();
    let original = track("/m/01 x.mp3", "Song");
    let mut t = track("/m/01 x.mp3", "Song");
    t.original_metadata = Some(Box::new(original));
    p.nettoyer_track(&mut t, &ExceptionTable::new());
    assert_eq!(t.title, "Song");
    assert!(!t.is_modified);
}

#[test]
fn empty_album_is_incomplete() {
    let mut a = Album::new("/m/x".to_string(), "X".to_string(), "Y".to_string());
    let facts = FolderFacts { cover_exists: false, found_cover: None, has_playlist: false, junk_files: Some(2) };
    ValidatorService::evaluate_album_status(&mut a, &facts);
    assert_eq!(a.status, AlbumStatus::Incomplete);
    assert_eq!(
        a.issues,
        vec!["Cover manquante", "Playlist manquante", "Aucune piste audio trouvée"]
    );
}

#[test]
fn clean_album_has_no_issue() {
    let mut a = Album::new("/m/x".to_string(), "X".to_string(), "Y".to_string());
    a.tracks.push(track("/m/x/01 Song.mp3", "Song"));
    let facts = FolderFacts {
        cover_exists: false,
        found_cover: Some("/m/x/cover.jpg".to_string()),
        has_playlist: true,
        junk_files: Some(0),
    };
    ValidatorService::evaluate_album_status(&mut a, &facts);
    assert_eq!(a.issues, Vec::<String>::new());
    assert_eq!(a.status, AlbumStatus::Clean);
    assert_eq!(a.cover_path, Some("/m/x/cover.jpg".to_string()));
    assert!(a.has_playlist);
}

#[test]
fn dirty_album_lists_each_issue() {
    let mut a = Album::new("/m/x".to_string(), "X".to_string(), "Y".to_string());
    let mut t1 = track("/m/x/Song.mp3", "SHOUTING");
    t1.year = None;
    t1.genre = None;
    t1.track_number = Some(0);
    let mut t2 = track("/m/x/02 b.mp3", "  ");
    t2.artist = String::new();
    a.tracks.push(t1);
    a.tracks.push(t2);
    a.cover_path = Some("/m/x/old.jpg".to_string());
    let facts = FolderFacts { cover_exists: true, found_cover: None, has_playlist: true, junk_files: Some(3) };
    ValidatorService::evaluate_album_status(&mut a, &facts);
    assert_eq!(a.status, AlbumStatus::Dirty);
    assert_eq!(a.cover_path, Some("/m/x/old.jpg".to_string()));
    assert_eq!(
        a.issues,
        vec![
            "Année manquante",
            "Titre manquant (1 pistes)",
            "Artiste manquant (1 pistes)",
            "Genre manquant (1 pistes)",
            "Numéros de piste manquants",
            "Fichiers inutiles détectés (3 fichiers)",
            "Noms de fichiers non conformes (1 pistes)",
            "Problèmes de majuscules détectés (1 pistes)",
        ]
    );
}

#[test]
fn file_name_rule_reads_unix_paths() {
    let mut a = Album::new("/m/x".to_string(), "X".to_string(), "Y".to_string());
    a.tracks.push(track("/m/x/01 ok.mp3/", "Song"));
    a.tracks.push(track("/m/x/..", "Song"));
    a.tracks.push(track("/m/x/./b.mp3/.", "Song"));
    let facts = FolderFacts { cover_exists: false, found_cover: Some("c".to_string()), has_playlist: true, junk_files: None };
    ValidatorService::evaluate_album_status(&mut a, &facts);
    assert_eq!(a.issues, vec!["Noms de fichiers non conformes (1 pistes)"]);
    assert_eq!(a.status, AlbumStatus::Dirty);
}

#[test]
fn restore_exception_writes_the_given_spelling() {
    let sc: Vec<char> = "The abba gold".chars().collect();
    let lower: Vec<char> = "the abba gold".chars().collect();
    let le: Vec<char> = "abba".chars().collect();
    let ex: Vec<char> = "ABBA".chars().collect();
    let r: String = restore_exception(&sc, &lower, &le, &ex).into_iter().collect();
    assert_eq!(r, "The ABBA gold");
    let missing: Vec<char> = "queen".chars().collect();
    let r2: String = restore_exception(&sc, &lower, &missing, &ex).into_iter().collect();
    assert_eq!(r2, "The abba gold");
}
