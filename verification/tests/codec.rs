//! The wire codec and framing: round trips, malformed payloads, and the
//! read-loop behavior at stream close.

use music_server::codec::{encode_answer, encode_request, get_answer, handle_request, RequestError};
use music_server::framing::{
    frame_payload, prepare_message, AnswerStep, FrameEvent, FrameReader, ReadStep,
};
use music_server::request::{Answer, AnswerType, Attr, ErrorType, ObjRequest, Request, RequestType};
use music_server::source_types::{Playlist, Song, SourceError};

fn sample_song() -> Song {
    Song {
        title: String::from("Daydream"),
        artists: vec![String::from("A"), String::from("B")],
        tags: vec![String::from("rock")],
        id: String::from("song-1"),
        duration: 215,
        url: String::from("https://example/song-1"),
        downloaded: false,
    }
}

fn sample_playlist() -> Playlist {
    Playlist {
        title: String::from("Morning"),
        tags: vec![],
        id: String::from("pl-1"),
        size: 2,
    }
}

#[test]
fn request_round_trip_every_variant() {
    let cases = vec![
        RequestType::GetAll(ObjRequest::PlaylistList),
        RequestType::GetAll(ObjRequest::Playlist(String::from("pl-1"))),
        RequestType::GetAll(ObjRequest::Song),
        RequestType::GetAll(ObjRequest::Client(String::from("Youtube"))),
        RequestType::GetAll(ObjRequest::ClientList),
        RequestType::Error(String::from("boom")),
        RequestType::SetAttr,
        RequestType::Add,
        RequestType::Remove,
        RequestType::Get(Attr::Name),
        RequestType::Get(Attr::Url),
        RequestType::Get(Attr::Id),
        RequestType::Download(ObjRequest::Playlist(String::from("pl-2"))),
        RequestType::Message(String::from("auth code 123")),
    ];
    for ty in cases {
        let req = Request { client: String::from("all"), ty };
        let bytes = encode_request(&req);
        let back = handle_request(&bytes).expect("round trip must succeed");
        assert_eq!(back, req);
    }
}

#[test]
fn answer_round_trip_every_variant() {
    let cases = vec![
        AnswerType::PlaylistList(vec![sample_playlist()]),
        AnswerType::PlaylistList(vec![]),
        AnswerType::Playlist(sample_playlist()),
        AnswerType::Songs(sample_playlist(), vec![sample_song()]),
        AnswerType::Songs(sample_playlist(), vec![]),
        AnswerType::Song(sample_song()),
        AnswerType::Client(String::from("Spotify")),
        AnswerType::Message(String::from("hello")),
        AnswerType::Error(ErrorType::SourceError(SourceError::PlaylistNotFound)),
        AnswerType::DownloadFinish(sample_playlist()),
        AnswerType::DownloadProgress(sample_playlist(), 3, 10),
    ];
    for data in cases {
        let ans = Answer { client: String::from("Spotify"), data };
        let bytes = encode_answer(&ans);
        let back = get_answer(&bytes).expect("round trip must succeed");
        assert_eq!(back, ans);
    }
}

#[test]
fn round_trip_empty_artists_and_zero_duration() {
    let song = Song {
        title: String::new(),
        artists: vec![],
        tags: vec![],
        id: String::new(),
        duration: 0,
        url: String::new(),
        downloaded: true,
    };
    let ans = Answer { client: String::new(), data: AnswerType::Song(song) };
    let bytes = encode_answer(&ans);
    assert_eq!(get_answer(&bytes).unwrap(), ans);
}

#[test]
fn round_trip_non_ascii_text() {
    let req = Request {
        client: String::from("Yoùtúbé"),
        ty: RequestType::Message(String::from("héllo wörld ☃")),
    };
    let bytes = encode_request(&req);
    assert_eq!(handle_request(&bytes).unwrap(), req);
}

#[test]
fn unknown_tag_is_a_parse_error() {
    let req = Request {
        client: String::from("a"),
        ty: RequestType::SetAttr,
    };
    let mut bytes = encode_request(&req);
    // The operation tag sits right after the addressee; 200 is no known tag.
    let pos = bytes.len() - 1;
    bytes[pos] = 200;
    assert_eq!(handle_request(&bytes), Err(RequestError::ParseErr));
}

#[test]
fn truncated_payload_is_a_parse_error() {
    let req = Request {
        client: String::from("all"),
        ty: RequestType::GetAll(ObjRequest::Playlist(String::from("pl-1"))),
    };
    let mut bytes = encode_request(&req);
    bytes.pop();
    assert_eq!(handle_request(&bytes), Err(RequestError::ParseErr));
}

#[test]
fn trailing_bytes_are_a_parse_error() {
    let req = Request { client: String::from("all"), ty: RequestType::Add };
    let mut bytes = encode_request(&req);
    bytes.push(0);
    assert_eq!(handle_request(&bytes), Err(RequestError::ParseErr));
}

#[test]
fn encoded_request_has_exact_header_bytes() {
    // client "ab": length 2 as eight big-endian bytes, then 'a' and 'b' as
    // four-byte code points, then the Add tag.
    let req = Request { client: String::from("ab"), ty: RequestType::Add };
    let bytes = encode_request(&req);
    assert_eq!(
        bytes,
        vec![0, 0, 0, 0, 0, 0, 0, 2, 0, 0, 0, 0x61, 0, 0, 0, 0x62, 3]
    );
}

#[test]
fn frame_has_length_prefix() {
    let framed = frame_payload(vec![7, 8, 9]);
    assert_eq!(framed, vec![0, 0, 0, 0, 0, 0, 0, 3, 7, 8, 9]);
}

#[test]
fn prepare_message_frames_utf8_bytes() {
    let framed = prepare_message(String::from("hi"));
    assert_eq!(framed, vec![0, 0, 0, 0, 0, 0, 0, 2, 0x68, 0x69]);
}

#[test]
fn reader_reassembles_chunked_frames() {
    let req = Request { client: String::from("all"), ty: RequestType::Remove };
    let framed = frame_payload(encode_request(&req));
    let (first, second) = framed.split_at(5);

    let mut reader = FrameReader::new();
    reader.push_bytes(first.to_vec());
    assert!(matches!(reader.next_event(), FrameEvent::NeedMore));
    reader.push_bytes(second.to_vec());
    match reader.next_event() {
        FrameEvent::Frame(payload) => {
            assert_eq!(handle_request(&payload).unwrap(), req);
        }
        other => panic!("expected a frame, got {:?}", other),
    }
}

#[test]
fn zero_length_frame_closes_the_read_loop_cleanly() {
    let req = Request { client: String::from("all"), ty: RequestType::Add };
    let mut stream = frame_payload(encode_request(&req));
    stream.extend_from_slice(&[0, 0, 0, 0, 0, 0, 0, 0]);

    let mut reader = FrameReader::new();
    reader.push_bytes(stream);
    assert!(matches!(reader.next_event(), FrameEvent::Frame(_)));
    // The zero length arrives mid-stream: the loop terminates, no error.
    assert!(matches!(reader.next_event(), FrameEvent::Closed));
}

#[test]
fn read_step_drops_malformed_payload_and_continues() {
    let good = Request { client: String::from("all"), ty: RequestType::Add };
    let mut stream = frame_payload(vec![255, 255, 255]);
    stream.extend(frame_payload(encode_request(&good)));

    let mut reader = FrameReader::new();
    reader.push_bytes(stream);
    assert!(matches!(
        music_server::framing::read_request_step(&mut reader),
        ReadStep::Skipped
    ));
    match music_server::framing::read_request_step(&mut reader) {
        ReadStep::Got(req) => assert_eq!(req, good),
        other => panic!("expected the good request, got {:?}", other),
    }
    assert!(matches!(
        music_server::framing::read_request_step(&mut reader),
        ReadStep::NeedMore
    ));
}

#[test]
fn answer_read_step_parses_answers() {
    let ans = Answer {
        client: String::from("Youtube"),
        data: AnswerType::Client(String::from("Youtube")),
    };
    let mut reader = FrameReader::new();
    reader.push_bytes(frame_payload(encode_answer(&ans)));
    match music_server::framing::read_answer_step(&mut reader) {
        AnswerStep::Got(back) => assert_eq!(back, ans),
        other => panic!("expected the answer, got {:?}", other),
    }
}
