//! The shared dispatch rules: addressing, the routing table, and the
//! source-discovery fan-out.

use music_server::request::{
    Answer, AnswerType, Attr, ErrorType, ObjRequest, Request, RequestType,
};
use music_server::app::App;
use music_server::codec::{encode_answer, encode_request};
use music_server::framing::{
    frame_payload, read_answer_step, read_request_step, AnswerStep, FrameReader, ReadStep,
};
use music_server::source::{
    auth_reply, client_answer, find_playlist_by_id, is_addressed_to, playlist_list_answer,
    route_request, song_from_item, songs_answer, source_error_answer, DispatchAction,
};
use music_server::source_types::{Playlist, Song, SourceError};

fn req(client: &str, ty: RequestType) -> Request {
    Request { client: String::from(client), ty }
}

#[test]
fn addressing_accepts_own_name_and_sentinel() {
    let name = String::from("Youtube");
    assert!(is_addressed_to(&name, &req("Youtube", RequestType::Add)));
    assert!(is_addressed_to(&name, &req("all", RequestType::Add)));
    assert!(!is_addressed_to(&name, &req("Spotify", RequestType::Add)));
}

#[test]
fn routing_table_matches_the_adapter_contract() {
    let name = String::from("Youtube");
    assert_eq!(
        route_request(&name, &req("all", RequestType::GetAll(ObjRequest::PlaylistList))),
        DispatchAction::SendPlaylistList
    );
    assert_eq!(
        route_request(
            &name,
            &req("Youtube", RequestType::GetAll(ObjRequest::Playlist(String::from("pl-1"))))
        ),
        DispatchAction::SendSongs(String::from("pl-1"))
    );
    assert_eq!(
        route_request(
            &name,
            &req("Youtube", RequestType::Download(ObjRequest::Playlist(String::from("pl-2"))))
        ),
        DispatchAction::StartDownload(String::from("pl-2"))
    );
    assert_eq!(
        route_request(&name, &req("all", RequestType::GetAll(ObjRequest::ClientList))),
        DispatchAction::SendClientName
    );
    // Reserved operations are processed as no-ops, not errors.
    assert_eq!(route_request(&name, &req("Youtube", RequestType::SetAttr)), DispatchAction::NoOp);
    assert_eq!(
        route_request(&name, &req("Youtube", RequestType::Get(Attr::Url))),
        DispatchAction::NoOp
    );
    // A request for another adapter is silently ignored.
    assert_eq!(
        route_request(&name, &req("Spotify", RequestType::GetAll(ObjRequest::PlaylistList))),
        DispatchAction::Ignore
    );
}

#[test]
fn client_list_fanout_two_adapters() {
    // Two registered adapters, one discovery request addressed to "all":
    // each processes it, and exactly two Client answers come back, one
    // naming each adapter.
    let adapters = vec![String::from("A"), String::from("B")];
    let request = req("all", RequestType::GetAll(ObjRequest::ClientList));

    let mut answers: Vec<Answer> = Vec::new();
    for name in &adapters {
        match route_request(name, &request) {
            DispatchAction::SendClientName => answers.push(client_answer(name)),
            other => panic!("adapter {} must announce itself, got {:?}", name, other),
        }
    }
    assert_eq!(answers.len(), 2);
    assert_eq!(answers[0].data, AnswerType::Client(String::from("A")));
    assert_eq!(answers[1].data, AnswerType::Client(String::from("B")));
}

#[test]
fn non_matching_name_produces_no_answer() {
    let adapters = vec![String::from("A"), String::from("B")];
    let request = req("C", RequestType::GetAll(ObjRequest::ClientList));
    for name in &adapters {
        assert_eq!(route_request(name, &request), DispatchAction::Ignore);
    }
}

#[test]
fn discovery_round_trip_over_the_wire() {
    // The full path of the discovery scenario: a client sends
    // GetAll(ClientList) to "all" over a connection with two adapters.
    let mut client_app = App::new();
    let discover = client_app.request_sources();
    let wire_out = frame_payload(encode_request(&discover));

    // Server side: decode the frame, let each adapter dispatch it.
    let mut server_reader = FrameReader::new();
    server_reader.push_bytes(wire_out);
    let request = match read_request_step(&mut server_reader) {
        ReadStep::Got(r) => r,
        other => panic!("expected the discovery request, got {:?}", other),
    };
    let adapters = vec![String::from("A"), String::from("B")];
    let mut wire_back: Vec<u8> = Vec::new();
    for name in &adapters {
        if let DispatchAction::SendClientName = route_request(name, &request) {
            wire_back.extend(frame_payload(encode_answer(&client_answer(name))));
        }
    }

    // Client side: exactly two Client answers arrive, one per adapter, and
    // the bridge registers both sources.
    let mut client_reader = FrameReader::new();
    client_reader.push_bytes(wire_back);
    let mut got: usize = 0;
    loop {
        match read_answer_step(&mut client_reader) {
            AnswerStep::Got(ans) => {
                got += 1;
                client_app.handle_answer(ans);
            }
            AnswerStep::NeedMore => break,
            other => panic!("expected an answer, got {:?}", other),
        }
    }
    assert_eq!(got, 2);
    assert_eq!(client_app.sources.len(), 2);
    assert_eq!(client_app.sources[0].name, String::from("A"));
    assert_eq!(client_app.sources[1].name, String::from("B"));
}

#[test]
fn items_without_artists_are_not_materialized() {
    assert!(song_from_item(String::from("t"), String::new(), String::from("id")).is_none());
    let song = song_from_item(String::from("t"), String::from("artist"), String::from("id"))
        .expect("an owned item materializes");
    assert_eq!(song.artists, vec![String::from("artist")]);
    assert_eq!(song.duration, 0);
    assert!(!song.downloaded);
}

#[test]
fn auth_replies_route_to_the_asking_source() {
    let name = String::from("Spotify");
    let forwarded = req("Spotify", RequestType::Message(String::from("https://cb?code=1")));
    assert_eq!(auth_reply(&name, &forwarded), Some(String::from("https://cb?code=1")));
    let for_other = req("Youtube", RequestType::Message(String::from("x")));
    assert_eq!(auth_reply(&name, &for_other), None);
    let not_a_message = req("Spotify", RequestType::Add);
    assert_eq!(auth_reply(&name, &not_a_message), None);
}

#[test]
fn unknown_playlist_becomes_a_typed_error_answer() {
    let name = String::from("Youtube");
    let loaded = vec![Playlist {
        title: String::from("one"),
        tags: vec![],
        id: String::from("pl-1"),
        size: 0,
    }];
    assert_eq!(find_playlist_by_id(&loaded, &String::from("pl-1")), Ok(0));
    let missing = find_playlist_by_id(&loaded, &String::from("pl-9"));
    assert_eq!(missing, Err(SourceError::PlaylistNotFound));

    let answer = songs_answer(&name, Err(SourceError::PlaylistNotFound));
    assert_eq!(answer.client, name);
    assert_eq!(
        answer.data,
        AnswerType::Error(ErrorType::SourceError(SourceError::PlaylistNotFound))
    );
    let direct = source_error_answer(&name, SourceError::PlaylistNotFound);
    assert_eq!(direct.data, answer.data);
}

#[test]
fn resolved_playlist_becomes_a_songs_answer() {
    let name = String::from("Youtube");
    let pl = Playlist { title: String::from("one"), tags: vec![], id: String::from("pl-1"), size: 1 };
    let songs = vec![Song {
        title: String::from("t"),
        artists: vec![],
        tags: vec![],
        id: String::from("s1"),
        duration: 1,
        url: String::new(),
        downloaded: false,
    }];
    let answer = songs_answer(&name, Ok((pl, songs)));
    match answer.data {
        AnswerType::Songs(p, l) => {
            assert_eq!(p.id, String::from("pl-1"));
            assert_eq!(l.len(), 1);
        }
        other => panic!("expected songs, got {:?}", other),
    }
}

#[test]
fn playlist_list_answer_carries_the_enumeration() {
    let name = String::from("Spotify");
    let lists = vec![
        Playlist { title: String::from("a"), tags: vec![], id: String::from("1"), size: 0 },
        Playlist { title: String::from("b"), tags: vec![], id: String::from("2"), size: 0 },
    ];
    let answer = playlist_list_answer(&name, lists);
    match answer.data {
        AnswerType::PlaylistList(l) => assert_eq!(l.len(), 2),
        other => panic!("expected a playlist list, got {:?}", other),
    }
}
