//! The client-side bridge and its helpers: catalog reconstruction from the
//! answer stream, selection arithmetic, key bindings, durations, and the
//! player-facing helpers.

use music_server::app::{compute_new_i, App};
use music_server::config::Config;
use music_server::event::{translate_event, Direction, Event, KeyInput, SeekMode};
use music_server::player::{clamp_volume, progress_percent, Repeat};
use music_server::request::{Answer, AnswerType, ObjRequest, Request, RequestType};
use music_server::source_types::{Playlist, Song, SourceError};
use music_server::utils::{duration_to_string, parse_duration, try_parse_duration};

fn playlist(id: &str) -> Playlist {
    Playlist { title: format!("list {}", id), tags: vec![], id: String::from(id), size: 1 }
}

fn song(id: &str) -> Song {
    Song {
        title: format!("song {}", id),
        artists: vec![],
        tags: vec![],
        id: String::from(id),
        duration: 60,
        url: String::new(),
        downloaded: false,
    }
}

#[test]
fn discovery_flow_builds_the_catalog() {
    let mut app = App::new();
    let discover = app.request_sources();
    assert_eq!(discover.client, String::from("all"));
    assert_eq!(discover.ty, RequestType::GetAll(ObjRequest::ClientList));

    // A source announces itself: it is added and asked for its playlists.
    let follow = app.handle_answer(Answer {
        client: String::from("Youtube"),
        data: AnswerType::Client(String::from("Youtube")),
    });
    assert_eq!(app.sources.len(), 1);
    assert_eq!(app.selected, Some(0));
    assert_eq!(follow.len(), 1);
    assert_eq!(follow[0].client, String::from("Youtube"));
    assert_eq!(follow[0].ty, RequestType::GetAll(ObjRequest::PlaylistList));

    // Its playlist list arrives: stored, and each playlist's songs are
    // requested.
    let follow = app.handle_answer(Answer {
        client: String::from("Youtube"),
        data: AnswerType::PlaylistList(vec![playlist("pl-1"), playlist("pl-2")]),
    });
    assert_eq!(app.sources[0].playlist.len(), 2);
    assert_eq!(follow.len(), 2);
    assert_eq!(
        follow[0].ty,
        RequestType::GetAll(ObjRequest::Playlist(String::from("pl-1")))
    );
    assert_eq!(
        follow[1].ty,
        RequestType::GetAll(ObjRequest::Playlist(String::from("pl-2")))
    );

    // The songs of one playlist arrive and are stored under it.
    let follow = app.handle_answer(Answer {
        client: String::from("Youtube"),
        data: AnswerType::Songs(playlist("pl-2"), vec![song("s1")]),
    });
    assert!(follow.is_empty());
    assert_eq!(app.sources[0].playlist[1].songs.len(), 1);
    assert_eq!(app.sources[0].playlist[0].songs.len(), 0);
}

#[test]
fn answers_from_unknown_sources_are_ignored() {
    let mut app = App::new();
    let follow = app.handle_answer(Answer {
        client: String::from("Stranger"),
        data: AnswerType::PlaylistList(vec![playlist("pl-1")]),
    });
    assert!(follow.is_empty());
    assert!(app.sources.is_empty());
}

#[test]
fn download_request_addresses_the_owning_source() {
    let app = App::new();
    let r = app.download_request(&String::from("Youtube"), &String::from("pl-1"));
    assert_eq!(r.client, String::from("Youtube"));
    assert_eq!(r.ty, RequestType::Download(ObjRequest::Playlist(String::from("pl-1"))));
}

#[test]
fn compute_new_i_moves_and_clamps() {
    assert_eq!(compute_new_i(None, -1, 10), 0);
    assert_eq!(compute_new_i(None, 3, 10), 3);
    assert_eq!(compute_new_i(Some(4), 1, 10), 5);
    assert_eq!(compute_new_i(Some(0), -1, 10), 0);
    assert_eq!(compute_new_i(Some(9), 5, 10), 9);
    assert_eq!(compute_new_i(Some(2), -5, 10), 0);
}

#[test]
fn key_bindings_translate() {
    assert_eq!(translate_event(&KeyInput::Char('q')), Some(Event::Quit));
    assert_eq!(
        translate_event(&KeyInput::Char('j')),
        Some(Event::Move(Direction::Down))
    );
    assert_eq!(translate_event(&KeyInput::Char('f')), Some(Event::Volume(5)));
    assert_eq!(
        translate_event(&KeyInput::Right),
        Some(Event::Seek(SeekMode::Relative(5)))
    );
    assert_eq!(
        translate_event(&KeyInput::Char('(')),
        Some(Event::Seek(SeekMode::Percent(50)))
    );
    assert_eq!(translate_event(&KeyInput::Char('x')), None);
    assert_eq!(translate_event(&KeyInput::Other), None);
}

#[test]
fn parse_duration_reads_both_parts() {
    assert_eq!(parse_duration("PT1H2M3S"), 3723);
    assert_eq!(parse_duration("PT4M13S"), 253);
    assert_eq!(parse_duration("P1DT1S"), 86401);
    assert_eq!(parse_duration("P2Y"), 2 * 365 * 86400);
    assert_eq!(parse_duration("P1M"), 30 * 86400);
    // No date shape at all: zero.
    assert_eq!(parse_duration("nonsense"), 0);
    // Date shape alone, time part absent.
    assert_eq!(parse_duration("P3D"), 3 * 86400);
}

#[test]
fn malformed_time_part_is_reported() {
    assert_eq!(try_parse_duration("PT1X"), None);
    assert_eq!(try_parse_duration("PT4M13S"), Some(253));
    assert_eq!(try_parse_duration("P3D"), Some(3 * 86400));
}

#[test]
fn duration_to_string_pads_fields() {
    assert_eq!(duration_to_string(0), String::from("00:00"));
    assert_eq!(duration_to_string(65), String::from("01:05"));
    assert_eq!(duration_to_string(3600), String::from("01:00:00"));
    assert_eq!(duration_to_string(3723), String::from("01:02:03"));
    assert_eq!(duration_to_string(366100), String::from("101:41:40"));
}

#[test]
fn volume_and_progress_are_clamped() {
    assert_eq!(clamp_volume(50, 5), 55);
    assert_eq!(clamp_volume(98, 5), 100);
    assert_eq!(clamp_volume(3, -5), 0);
    assert_eq!(progress_percent(30, 120), 25);
    assert_eq!(progress_percent(0, 120), 0);
    assert_eq!(progress_percent(30, 0), 0);
    assert_eq!(progress_percent(500, 120), 100);
}

#[test]
fn repeat_cycles_through_modes() {
    assert_eq!(Repeat::Off.cycle(), Repeat::Song);
    assert_eq!(Repeat::Song.cycle(), Repeat::Playlist);
    assert_eq!(Repeat::Playlist.cycle(), Repeat::Off);
    assert_eq!(Repeat::Off.label(), String::from("no"));
    assert_eq!(Repeat::Playlist.label(), String::from("playlist"));
}

#[test]
fn stock_config_has_documented_defaults() {
    let c = Config::default();
    assert_eq!(c.data_location, String::from("data"));
    assert_eq!(c.secrets_location, String::from("data/secrets"));
    assert_eq!(c.port, 8080);
    assert_eq!(c.yt_dlp_output_template, String::from("%(title)s.%(ext)s"));
    assert_eq!(c.spotify_id, String::new());
}

#[test]
fn new_songs_start_not_downloaded() {
    let s = Song::new(
        String::from("t"),
        vec![String::from("a")],
        vec![],
        String::from("id"),
        9,
        String::from("url"),
    );
    assert!(!s.downloaded);
    let d = Song::default();
    assert_eq!(d.duration, 0);
    assert!(d.artists.is_empty());
    let p = Playlist::default();
    assert_eq!(p.size, 0);
    let _ = SourceError::PlaylistNotFound;
}
