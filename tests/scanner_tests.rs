use tagotomatik::models::{AlbumStatus, Track};
use tagotomatik::scanner::{add_to_album, finish_album, sort_tracks};

fn track(path: &str, number: Option<u32>, album: &str, artist: &str) -> Track {
    let mut t = Track::new(path.to_string(), path.to_string());
    t.track_number = number;
    t.album = album.to_string();
    t.artist = artist.to_string();
    t.year = Some(1990);
    t
}

#[test]
fn sort_is_stable_by_number() {
    let ts = vec![
        track("c", Some(3), "", ""),
        track("none", None, "", ""),
        track("a", Some(1), "", ""),
        track("c2", Some(3), "", ""),
        track("b", Some(2), "", ""),
    ];
    let sorted: Vec<String> = sort_tracks(ts).into_iter().map(|t| t.path).collect();
    assert_eq!(sorted, vec!["none", "a", "b", "c", "c2"]);
}

#[test]
fn tracks_group_by_folder() {
    let mut albums = Vec::new();
    add_to_album(&mut albums, "/m/x".to_string(), "x".to_string(), track("/m/x/2", Some(2), "", ""));
    add_to_album(&mut albums, "/m/y".to_string(), "y".to_string(), track("/m/y/1", Some(1), "Why", "Band"));
    add_to_album(&mut albums, "/m/x".to_string(), "x".to_string(), track("/m/x/1", Some(1), "Ex", "Other"));
    assert_eq!(albums.len(), 2);
    assert_eq!(albums[0].title, "x");
    assert_eq!(albums[0].artist, "Artiste Inconnu");
    assert_eq!(albums[0].tracks.len(), 2);
    assert_eq!(albums[1].title, "Why");
    assert_eq!(albums[1].artist, "Band");
    assert_eq!(albums[1].year, Some(1990));
    for a in albums.iter_mut() {
        finish_album(a);
    }
    assert_eq!(albums[0].status, AlbumStatus::Clean);
    assert_eq!(albums[0].tracks[0].path, "/m/x/1");
    assert_eq!(albums[0].tracks[1].path, "/m/x/2");
}
