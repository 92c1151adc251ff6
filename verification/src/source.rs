//! The shared request-dispatch rules every source adapter follows: a request
//! is processed iff its addressee is the adapter's own name or the sentinel
//! `"all"`, and the operation then selects what the adapter must do. The
//! adapter's remote calls happen elsewhere; these functions decide, and turn
//! resolutions into answers.

use vstd::prelude::*;

use crate::request::{Answer, AnswerType, ErrorType, ObjRequestView, Request, RequestTypeView};
use crate::source_types::{Playlist, Song, SourceError};
use vstd::string::StringExecFns;

verus! {

pub type SourceResult<T> = Result<T, SourceError>;

/// The addressee that every adapter accepts.
pub open spec fn spec_all_sentinel() -> Seq<char> {
    "all"@
}

/// A request is for the adapter named `name` iff it is addressed to that
/// name or to `"all"`.
pub open spec fn spec_is_addressed(name: Seq<char>, client: Seq<char>) -> bool {
    client == name || client == spec_all_sentinel()
}

/// What an adapter must do with one request.
#[derive(Debug, PartialEq)]
pub enum DispatchAction {
    /// Enumerate all playlists and answer with the list.
    SendPlaylistList,
    /// Resolve this playlist id and answer with its songs, or with the
    /// resolution error.
    SendSongs(String),
    /// Resolve this playlist id and start a download job for its songs, or
    /// answer with the resolution error.
    StartDownload(String),
    /// Answer with the adapter's own name, for source discovery.
    SendClientName,
    /// The request is addressed to another adapter: silently ignored.
    Ignore,
    /// Addressed to this adapter, but the operation is reserved: logged,
    /// nothing answered.
    NoOp,
}

/// Mathematical image of a `DispatchAction`.
pub enum DispatchActionView {
    SendPlaylistList,
    SendSongs(Seq<char>),
    StartDownload(Seq<char>),
    SendClientName,
    Ignore,
    NoOp,
}

impl View for DispatchAction {
    type V = DispatchActionView;

    open spec fn view(&self) -> DispatchActionView {
        match self {
            DispatchAction::SendPlaylistList => DispatchActionView::SendPlaylistList,
            DispatchAction::SendSongs(id) => DispatchActionView::SendSongs(id@),
            DispatchAction::StartDownload(id) => DispatchActionView::StartDownload(id@),
            DispatchAction::SendClientName => DispatchActionView::SendClientName,
            DispatchAction::Ignore => DispatchActionView::Ignore,
            DispatchAction::NoOp => DispatchActionView::NoOp,
        }
    }
}

/// The routing table of the adapter contract.
pub open spec fn spec_route(name: Seq<char>, req: crate::request::RequestView) -> DispatchActionView {
    if !spec_is_addressed(name, req.client) {
        DispatchActionView::Ignore
    } else {
        match req.ty {
            RequestTypeView::GetAll(ObjRequestView::PlaylistList) => DispatchActionView::SendPlaylistList,
            RequestTypeView::GetAll(ObjRequestView::Playlist(id)) => DispatchActionView::SendSongs(
                id,
            ),
            RequestTypeView::Download(ObjRequestView::Playlist(id)) => DispatchActionView::StartDownload(
                id,
            ),
            RequestTypeView::GetAll(ObjRequestView::ClientList) => DispatchActionView::SendClientName,
            _ => DispatchActionView::NoOp,
        }
    }
}

/// True iff the adapter named `name` must consider this request.
pub fn is_addressed_to(name: &String, request: &Request) -> (r: bool)
    ensures
        r == spec_is_addressed(name@, request@.client),
{
    let all = String::from_str("all");
    request.client == *name || request.client == all
}

/// Decides what the adapter named `name` must do with `request`, following
/// the routing table exactly: a request for another adapter is ignored, a
/// reserved operation is a logged no-op.
pub fn route_request(name: &String, request: &Request) -> (a: DispatchAction)
    ensures
        a@ == spec_route(name@, request@),
{
    if !is_addressed_to(name, request) {
        return DispatchAction::Ignore;
    }
    match &request.ty {
        crate::request::RequestType::GetAll(obj) => match obj {
            crate::request::ObjRequest::PlaylistList => DispatchAction::SendPlaylistList,
            crate::request::ObjRequest::Playlist(id) => DispatchAction::SendSongs(id.clone()),
            crate::request::ObjRequest::ClientList => DispatchAction::SendClientName,
            _ => DispatchAction::NoOp,
        },
        crate::request::RequestType::Download(obj) => match obj {
            crate::request::ObjRequest::Playlist(id) => DispatchAction::StartDownload(id.clone()),
            _ => DispatchAction::NoOp,
        },
        _ => DispatchAction::NoOp,
    }
}

/// Law: a request addressed to `"all"` is processed by every registered
/// adapter, and a request addressed to one name is ignored by every adapter
/// with a different name — none of them produces an answer.
pub proof fn lemma_dispatch_fanout(names: Seq<Seq<char>>, req: crate::request::RequestView)
    ensures
        req.client == spec_all_sentinel() ==> forall|i: int|
            0 <= i < names.len() ==> spec_route(#[trigger] names[i], req)
                !is Ignore,
        forall|i: int|
            0 <= i < names.len() && req.client != #[trigger] names[i] && req.client
                != spec_all_sentinel() ==> spec_route(names[i], req) is Ignore,
{
}

/// The `Songs` arm of the dispatch: turns the resolution of a playlist into
/// the answer the adapter sends — the playlist and its songs on success, a
/// typed source error otherwise, never a crash.
pub fn songs_answer(name: &String, resolution: SourceResult<(Playlist, Vec<Song>)>) -> (a: Answer)
    ensures
        a@.client == name@,
        match resolution {
            Ok((p, songs)) => a@.data == crate::request::AnswerTypeView::Songs(
                p@,
                songs.deep_view(),
            ),
            Err(e) => a@.data == crate::request::AnswerTypeView::Error(ErrorType::SourceError(e)),
        },
{
    match resolution {
        Ok((p, songs)) => Answer::new(name.clone(), AnswerType::Songs(p, songs)),
        Err(e) => Answer::new(name.clone(), AnswerType::Error(ErrorType::SourceError(e))),
    }
}

/// The `PlaylistList` arm: the full enumeration, under the adapter's name.
pub fn playlist_list_answer(name: &String, playlists: Vec<Playlist>) -> (a: Answer)
    ensures
        a@.client == name@,
        a@.data == crate::request::AnswerTypeView::PlaylistList(playlists.deep_view()),
{
    Answer::new(name.clone(), AnswerType::PlaylistList(playlists))
}

/// The `ClientList` arm: the adapter announces its own name, for source
/// discovery.
pub fn client_answer(name: &String) -> (a: Answer)
    ensures
        a@.client == name@,
        a@.data == crate::request::AnswerTypeView::Client(name@),
{
    Answer::new(name.clone(), AnswerType::Client(name.clone()))
}

/// A typed source error forwarded to the requesting client, under the
/// adapter's name.
pub fn source_error_answer(name: &String, err: SourceError) -> (a: Answer)
    ensures
        a@.client == name@,
        a@.data == crate::request::AnswerTypeView::Error(ErrorType::SourceError(err)),
{
    Answer::new(name.clone(), AnswerType::Error(ErrorType::SourceError(err)))
}

/// Materializes a song from one remote catalog item. An item without an
/// owning artist is a private or deleted entry and yields nothing; anything
/// else starts with no tags, no duration and no locator, to be backfilled by
/// a secondary lookup.
pub fn song_from_item(title: String, artist: String, id: String) -> (r: Option<Song>)
    ensures
        artist@.len() == 0 <==> r is None,
        r matches Some(s) ==> {
            &&& s@.title == title@
            &&& s@.artists == seq![artist@]
            &&& s@.tags == Seq::<Seq<char>>::empty()
            &&& s@.id == id@
            &&& s@.duration == 0
            &&& s@.url == Seq::<char>::empty()
            &&& !s@.downloaded
        },
{
    if artist.as_str().is_empty() {
        return None;
    }
    let mut artists: Vec<String> = Vec::new();
    artists.push(artist);
    let s = crate::source_types::Song::new(
        title,
        artists,
        Vec::new(),
        id,
        0,
        String::new(),
    );
    proof {
        assert(s@.artists =~= seq![artist@]);
        assert(s@.tags =~= Seq::<Seq<char>>::empty());
    }
    Some(s)
}

/// The out-of-band authentication flow: a client forwards the callback URL
/// or code as a `Message` request addressed to the source that asked for
/// it. This picks that text out, and nothing else.
pub fn auth_reply(name: &String, request: &Request) -> (r: Option<String>)
    ensures
        match request@.ty {
            RequestTypeView::Message(m) => if request@.client == name@ {
                r matches Some(url) && url@ == m
            } else {
                r is None
            },
            _ => r is None,
        },
{
    if !(request.client == *name) {
        return None;
    }
    match &request.ty {
        crate::request::RequestType::Message(url) => Some(url.clone()),
        _ => None,
    }
}

/// Resolves a playlist id against the adapter's loaded playlists: the first
/// match, or the typed not-found error that dispatch forwards to the client.
pub fn find_playlist_by_id(playlists: &Vec<Playlist>, id: &String) -> (r: SourceResult<usize>)
    ensures
        match r {
            Ok(i) => {
                &&& i < playlists@.len()
                &&& playlists@[i as int]@.id == id@
                &&& forall|j: int| 0 <= j < i ==> playlists@[j]@.id != id@
            },
            Err(e) => {
                &&& e == SourceError::PlaylistNotFound
                &&& forall|j: int| 0 <= j < playlists@.len() ==> playlists@[j]@.id != id@
            },
        },
{
    let mut i: usize = 0;
    while i < playlists.len()
        invariant
            i <= playlists@.len(),
            forall|j: int| 0 <= j < i ==> playlists@[j]@.id != id@,
        decreases playlists@.len() - i,
    {
        if playlists[i].id == *id {
            return Ok(i);
        }
        i = i + 1;
    }
    Err(SourceError::PlaylistNotFound)
}

} // verus!
