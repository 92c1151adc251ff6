//! The cache layer: etag-exact invalidation, fail-open reads, and the
//! re-verified downloaded flag.

use music_server::db::{Cache, CacheError};
use music_server::source_types::{Playlist, Song};

fn song(id: &str, downloaded: bool, url: &str) -> Song {
    Song {
        title: format!("title of {}", id),
        artists: vec![String::from("artist")],
        tags: vec![],
        id: String::from(id),
        duration: 100,
        url: String::from(url),
        downloaded,
    }
}

fn playlist(id: &str, size: u32) -> Playlist {
    Playlist { title: String::from("list"), tags: vec![], id: String::from(id), size }
}

#[test]
fn needs_update_false_iff_exact_triple_cached() {
    let mut cache = Cache::new();
    let source = String::from("Youtube");
    let etag = String::from("v1");
    let pl = playlist("pl-1", 1);
    let songs = vec![song("s1", false, "")];
    cache.add_playlist(&source, &pl, &songs, &etag).unwrap();

    assert!(!cache.needs_update(&pl.id, &source, &etag));
    // A different etag, id or source is not that triple.
    assert!(cache.needs_update(&pl.id, &source, &String::from("v2")));
    assert!(cache.needs_update(&String::from("other"), &source, &etag));
    assert!(cache.needs_update(&pl.id, &String::from("Spotify"), &etag));
}

#[test]
fn needs_update_true_when_store_unreachable() {
    let mut cache = Cache::new();
    let source = String::from("Youtube");
    let etag = String::from("v1");
    let pl = playlist("pl-1", 1);
    cache.add_playlist(&source, &pl, &vec![], &etag).unwrap();
    cache.set_available(false);
    assert!(cache.needs_update(&pl.id, &source, &etag));
}

#[test]
fn etag_change_forces_refetch_then_overwrite() {
    // A playlist cached under etag "v1"; the remote source then reports
    // "v2" for the same (id, source).
    let mut cache = Cache::new();
    let source = String::from("Youtube");
    let pl = playlist("pl-1", 1);
    cache
        .add_playlist(&source, &pl, &vec![song("s1", false, "")], &String::from("v1"))
        .unwrap();
    assert!(!cache.needs_update(&pl.id, &source, &String::from("v1")));

    // The etag no longer matches: a full remote re-fetch is due.
    assert!(cache.needs_update(&pl.id, &source, &String::from("v2")));

    // The re-fetch overwrites the cache with the new etag and contents.
    let refreshed = vec![song("s1", false, ""), song("s2", false, "")];
    let pl2 = playlist("pl-1", 2);
    cache.add_playlist(&source, &pl2, &refreshed, &String::from("v2")).unwrap();
    assert!(!cache.needs_update(&pl.id, &source, &String::from("v2")));
    assert!(cache.needs_update(&pl.id, &source, &String::from("v1")));
    let loaded = cache.load_playlist(&pl.id, &source).unwrap();
    assert_eq!(loaded.size, 2);
    let songs = cache.get_playlist_songs(&pl.id, &source).unwrap();
    assert_eq!(songs.len(), 2);
    assert_eq!(songs[1].id, String::from("s2"));
}

#[test]
fn load_playlist_fails_open() {
    let mut cache = Cache::new();
    assert_eq!(
        cache.load_playlist(&String::from("pl"), &String::from("src")),
        Err(CacheError::NotFound)
    );
    cache.set_available(false);
    assert_eq!(
        cache.load_playlist(&String::from("pl"), &String::from("src")),
        Err(CacheError::Unavailable)
    );
}

#[test]
fn remove_downloaded_keeps_unflagged_and_gone_files() {
    let mut cache = Cache::new();
    let source = String::from("Youtube");
    let pl = playlist("pl-1", 3);
    let cached = vec![
        song("s1", false, ""),
        song("s2", true, "/music/s2.opus"),
        song("s3", true, "/music/s3.opus"),
    ];
    cache.add_playlist(&source, &pl, &cached, &String::from("v1")).unwrap();

    // s2's local copy still exists, s3's was deleted out-of-band.
    let on_disk = vec![false, true, false];
    let pending = cache.remove_downloaded(&cached, &source, &on_disk).unwrap();

    // Never a song flagged downloaded whose file exists; always the
    // unflagged one; the stale flag of s3 is not trusted.
    assert_eq!(pending.len(), 2);
    assert_eq!(pending[0].id, String::from("s1"));
    assert_eq!(pending[1].id, String::from("s3"));
}

#[test]
fn remove_downloaded_reports_uncached_songs() {
    let cache = Cache::new();
    let source = String::from("Youtube");
    let stranger = vec![song("sX", false, "")];
    assert_eq!(
        cache.remove_downloaded(&stranger, &source, &vec![false]),
        Err(CacheError::NotFound)
    );
}

#[test]
fn update_songs_overwrites_only_song_rows() {
    let mut cache = Cache::new();
    let source = String::from("Youtube");
    let pl = playlist("pl-1", 1);
    let before = vec![song("s1", false, "")];
    cache.add_playlist(&source, &pl, &before, &String::from("v1")).unwrap();

    let mut done = song("s1", false, "");
    done.set_url(String::from("/music/s1.opus"));
    done.set_downloaded(true);
    cache.update_songs(&vec![done], &source).unwrap();

    let read_back = cache.get_playlist_songs(&pl.id, &source).unwrap();
    assert_eq!(read_back.len(), 1);
    assert!(read_back[0].downloaded);
    assert_eq!(read_back[0].url, String::from("/music/s1.opus"));
    // The playlist row and its etag are untouched.
    assert!(!cache.needs_update(&pl.id, &source, &String::from("v1")));
}

#[test]
fn writes_are_dropped_when_store_unreachable() {
    let mut cache = Cache::new();
    cache.set_available(false);
    let source = String::from("Youtube");
    assert_eq!(
        cache.add_playlist(&source, &playlist("pl", 0), &vec![], &String::from("v1")),
        Err(CacheError::Unavailable)
    );
    assert_eq!(
        cache.update_songs(&vec![], &source),
        Err(CacheError::Unavailable)
    );
}
