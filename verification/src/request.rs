//! The wire-level message vocabulary: the `Request` envelope a client sends
//! and the `Answer` envelope a source adapter sends back, together with the
//! closed sets of operations and payloads they carry.

use vstd::prelude::*;

use crate::source_types::{Playlist, PlaylistView, Song, SongView, SourceError};

verus! {

/// Attribute selector for the reserved `Get` operation.
#[derive(Clone, Copy, Debug, PartialEq, Eq, Structural)]
pub enum Attr {
    Name,
    Url,
    Id,
}

/// The object a `GetAll` or `Download` operation ranges over.
#[derive(Debug, PartialEq)]
pub enum ObjRequest {
    PlaylistList,
    Playlist(String),
    Song,
    Client(String),
    ClientList,
}

/// Mathematical image of an `ObjRequest`.
pub enum ObjRequestView {
    PlaylistList,
    Playlist(Seq<char>),
    Song,
    Client(Seq<char>),
    ClientList,
}

impl View for ObjRequest {
    type V = ObjRequestView;

    open spec fn view(&self) -> ObjRequestView {
        match self {
            ObjRequest::PlaylistList => ObjRequestView::PlaylistList,
            ObjRequest::Playlist(id) => ObjRequestView::Playlist(id@),
            ObjRequest::Song => ObjRequestView::Song,
            ObjRequest::Client(name) => ObjRequestView::Client(name@),
            ObjRequest::ClientList => ObjRequestView::ClientList,
        }
    }
}

/// The closed set of operations a client can request.
#[derive(Debug, PartialEq)]
pub enum RequestType {
    GetAll(ObjRequest),
    Error(String),
    SetAttr,
    Add,
    Remove,
    Get(Attr),
    Download(ObjRequest),
    Message(String),
}

/// Mathematical image of a `RequestType`.
pub enum RequestTypeView {
    GetAll(ObjRequestView),
    Error(Seq<char>),
    SetAttr,
    Add,
    Remove,
    Get(Attr),
    Download(ObjRequestView),
    Message(Seq<char>),
}

impl View for RequestType {
    type V = RequestTypeView;

    open spec fn view(&self) -> RequestTypeView {
        match self {
            RequestType::GetAll(o) => RequestTypeView::GetAll(o@),
            RequestType::Error(s) => RequestTypeView::Error(s@),
            RequestType::SetAttr => RequestTypeView::SetAttr,
            RequestType::Add => RequestTypeView::Add,
            RequestType::Remove => RequestTypeView::Remove,
            RequestType::Get(a) => RequestTypeView::Get(*a),
            RequestType::Download(o) => RequestTypeView::Download(o@),
            RequestType::Message(s) => RequestTypeView::Message(s@),
        }
    }
}

/// The error kinds an `Answer` can carry.
#[derive(Clone, Copy, Debug, PartialEq, Eq, Structural)]
pub enum ErrorType {
    SourceError(SourceError),
}

/// The closed set of payloads a source adapter can answer with.
/// `DownloadProgress(p, completed, total)` reports a running download;
/// `DownloadFinish(p)` is its terminal event.
#[derive(Debug, PartialEq)]
pub enum AnswerType {
    PlaylistList(Vec<Playlist>),
    Playlist(Playlist),
    Songs(Playlist, Vec<Song>),
    Song(Song),
    Client(String),
    Message(String),
    Error(ErrorType),
    DownloadFinish(Playlist),
    DownloadProgress(Playlist, u64, u64),
}

/// Mathematical image of an `AnswerType`.
pub enum AnswerTypeView {
    PlaylistList(Seq<PlaylistView>),
    Playlist(PlaylistView),
    Songs(PlaylistView, Seq<SongView>),
    Song(SongView),
    Client(Seq<char>),
    Message(Seq<char>),
    Error(ErrorType),
    DownloadFinish(PlaylistView),
    DownloadProgress(PlaylistView, u64, u64),
}

impl View for AnswerType {
    type V = AnswerTypeView;

    open spec fn view(&self) -> AnswerTypeView {
        match self {
            AnswerType::PlaylistList(l) => AnswerTypeView::PlaylistList(l.deep_view()),
            AnswerType::Playlist(p) => AnswerTypeView::Playlist(p@),
            AnswerType::Songs(p, songs) => AnswerTypeView::Songs(p@, songs.deep_view()),
            AnswerType::Song(s) => AnswerTypeView::Song(s@),
            AnswerType::Client(name) => AnswerTypeView::Client(name@),
            AnswerType::Message(m) => AnswerTypeView::Message(m@),
            AnswerType::Error(e) => AnswerTypeView::Error(*e),
            AnswerType::DownloadFinish(p) => AnswerTypeView::DownloadFinish(p@),
            AnswerType::DownloadProgress(p, c, t) => AnswerTypeView::DownloadProgress(p@, *c, *t),
        }
    }
}

/// A client-to-server envelope: `client` addresses one source by name, or
/// every source through the sentinel `"all"`.
#[derive(Debug, PartialEq)]
pub struct Request {
    pub client: String,
    pub ty: RequestType,
}

/// Mathematical image of a `Request`.
pub struct RequestView {
    pub client: Seq<char>,
    pub ty: RequestTypeView,
}

impl View for Request {
    type V = RequestView;

    open spec fn view(&self) -> RequestView {
        RequestView { client: self.client@, ty: self.ty@ }
    }
}

/// A server-to-client envelope: `client` names the source that produced the
/// payload.
#[derive(Debug, PartialEq)]
pub struct Answer {
    pub client: String,
    pub data: AnswerType,
}

/// Mathematical image of an `Answer`.
pub struct AnswerView {
    pub client: Seq<char>,
    pub data: AnswerTypeView,
}

impl View for Answer {
    type V = AnswerView;

    open spec fn view(&self) -> AnswerView {
        AnswerView { client: self.client@, data: self.data@ }
    }
}

impl Answer {
    pub fn new(client: String, data: AnswerType) -> (r: Answer)
        ensures
            r@.client == client@,
            r@.data == data@,
    {
        Answer { client, data }
    }
}

impl Clone for ObjRequest {
    fn clone(&self) -> (r: ObjRequest)
        ensures
            r@ == self@,
    {
        match self {
            ObjRequest::PlaylistList => ObjRequest::PlaylistList,
            ObjRequest::Playlist(id) => ObjRequest::Playlist(id.clone()),
            ObjRequest::Song => ObjRequest::Song,
            ObjRequest::Client(name) => ObjRequest::Client(name.clone()),
            ObjRequest::ClientList => ObjRequest::ClientList,
        }
    }
}

impl Clone for RequestType {
    fn clone(&self) -> (r: RequestType)
        ensures
            r@ == self@,
    {
        match self {
            RequestType::GetAll(o) => RequestType::GetAll(o.clone()),
            RequestType::Error(s) => RequestType::Error(s.clone()),
            RequestType::SetAttr => RequestType::SetAttr,
            RequestType::Add => RequestType::Add,
            RequestType::Remove => RequestType::Remove,
            RequestType::Get(a) => RequestType::Get(*a),
            RequestType::Download(o) => RequestType::Download(o.clone()),
            RequestType::Message(s) => RequestType::Message(s.clone()),
        }
    }
}

/// Copies a vector of playlists, element for element.
pub fn clone_playlist_vec(v: &Vec<Playlist>) -> (r: Vec<Playlist>)
    ensures
        r.deep_view() == v.deep_view(),
{
    let mut r: Vec<Playlist> = Vec::new();
    let mut i: usize = 0;
    while i < v.len()
        invariant
            i <= v.len(),
            r@.len() == i,
            forall|j: int| 0 <= j < i ==> r@[j]@ == v@[j]@,
        decreases v.len() - i,
    {
        r.push(v[i].clone());
        i = i + 1;
    }
    assert(r.deep_view() =~= v.deep_view());
    r
}

/// Copies a vector of songs, element for element.
pub fn clone_song_vec(v: &Vec<Song>) -> (r: Vec<Song>)
    ensures
        r.deep_view() == v.deep_view(),
{
    let mut r: Vec<Song> = Vec::new();
    let mut i: usize = 0;
    while i < v.len()
        invariant
            i <= v.len(),
            r@.len() == i,
            forall|j: int| 0 <= j < i ==> r@[j]@ == v@[j]@,
        decreases v.len() - i,
    {
        r.push(v[i].clone());
        i = i + 1;
    }
    assert(r.deep_view() =~= v.deep_view());
    r
}

impl Clone for AnswerType {
    fn clone(&self) -> (r: AnswerType)
        ensures
            r@ == self@,
    {
        match self {
            AnswerType::PlaylistList(l) => AnswerType::PlaylistList(clone_playlist_vec(l)),
            AnswerType::Playlist(p) => AnswerType::Playlist(p.clone()),
            AnswerType::Songs(p, songs) => AnswerType::Songs(p.clone(), clone_song_vec(songs)),
            AnswerType::Song(s) => AnswerType::Song(s.clone()),
            AnswerType::Client(name) => AnswerType::Client(name.clone()),
            AnswerType::Message(m) => AnswerType::Message(m.clone()),
            AnswerType::Error(e) => AnswerType::Error(*e),
            AnswerType::DownloadFinish(p) => AnswerType::DownloadFinish(p.clone()),
            AnswerType::DownloadProgress(p, c, t) => AnswerType::DownloadProgress(p.clone(), *c, *t),
        }
    }
}

impl Clone for Request {
    fn clone(&self) -> (r: Request)
        ensures
            r@ == self@,
    {
        Request { client: self.client.clone(), ty: self.ty.clone() }
    }
}

impl Clone for Answer {
    fn clone(&self) -> (r: Answer)
        ensures
            r@ == self@,
    {
        Answer { client: self.client.clone(), data: self.data.clone() }
    }
}

} // verus!
