//! The client-side bridge: rebuilding the aggregated catalog from the
//! incoming answer stream, keeping per-source and per-playlist state and the
//! interface's selection, and producing the requests to send back out.

use vstd::prelude::*;

use crate::request::{
    Answer, AnswerTypeView, ObjRequest, ObjRequestView, Request, RequestType, RequestTypeView,
};
use crate::source_types::{Playlist, Song};
use vstd::string::StringExecFns;

verus! {

/// Which panel of the interface has focus.
#[derive(Clone, Copy, Debug, PartialEq, Eq, Structural)]
pub enum Panel {
    Sources,
    Playlists,
    Songs,
}

/// What the interface asks the bridge to do.
#[derive(Clone, Copy, Debug, PartialEq, Eq, Structural)]
pub enum Event {
    Move(Direction),
    Play,
    Pause,
    Stop,
    Shuffle,
    VolumeUp,
    VolumeDown,
    Download,
    Auto,
    Next,
    Prev,
    SeekForward,
    SeekBackward,
}

/// Where a movement event goes.
#[derive(Clone, Copy, Debug, PartialEq, Eq, Structural)]
pub enum Direction {
    Up,
    Down,
    RightPanel,
    LeftPanel,
    UpPanel,
    DownPanel,
}

/// The current selection: which source, which of its playlists, which song.
#[derive(Clone, Copy, Debug, PartialEq, Eq, Structural)]
pub struct Route {
    pub source: Option<usize>,
    pub playlist: Option<usize>,
    pub song: Option<usize>,
}

/// Moves a selection by `off` within a list of `max` entries, clamped to the
/// ends; from no selection, a negative step selects the top and any other
/// step lands `off` entries down.
pub fn compute_new_i(i: Option<usize>, off: i32, max: usize) -> (r: usize)
    requires
        i matches Some(x) ==> x <= i32::MAX && x + off <= i32::MAX && max >= 1,
    ensures
        i is None ==> r == (if off < 0 {
            0int
        } else {
            off as int
        }),
        i matches Some(x) ==> r == (if x + off < 0 {
            0int
        } else if x + off <= max - 1 {
            x + off
        } else {
            max - 1
        }),
{
    match i {
        None => {
            if off < 0 {
                0
            } else {
                off as usize
            }
        },
        Some(x) => {
            let res: i64 = x as i64 + off as i64;
            if res < 0 {
                0
            } else {
                let v = res as usize;
                if v <= max - 1 {
                    v
                } else {
                    max - 1
                }
            }
        },
    }
}

/// One playlist of one source, with its loaded songs and the interface's
/// selection within them.
#[derive(Debug)]
pub struct PlaylistWidget {
    pub playlist: Playlist,
    pub songs: Vec<Song>,
    pub selected: Option<usize>,
}

impl PlaylistWidget {
    /// A widget for a playlist whose songs are not loaded yet.
    pub fn from_playlist(playlist: Playlist) -> (w: PlaylistWidget)
        ensures
            w.playlist@ == playlist@,
            w.songs@.len() == 0,
            w.selected is None,
    {
        PlaylistWidget { playlist, songs: Vec::new(), selected: None }
    }

    /// Replaces the loaded songs.
    pub fn add_songs(&mut self, songs: Vec<Song>)
        ensures
            final(self).playlist == old(self).playlist,
            final(self).selected == old(self).selected,
            final(self).songs == songs,
    {
        self.songs = songs;
    }
}

/// One source and the playlists it reported, with the interface's selection
/// among them.
#[derive(Debug)]
pub struct SourceWidget {
    pub name: String,
    pub playlist: Vec<PlaylistWidget>,
    pub selected: Option<usize>,
}

impl SourceWidget {
    /// A widget for a freshly discovered source.
    pub fn new(name: String) -> (w: SourceWidget)
        ensures
            w.name@ == name@,
            w.playlist@.len() == 0,
            w.selected is None,
    {
        SourceWidget { name, playlist: Vec::new(), selected: None }
    }
}

/// The first source with this name, scanning from `i`.
pub open spec fn spec_find_source(sources: Seq<SourceWidget>, name: Seq<char>, i: int) -> Option<
    int,
>
    decreases sources.len() - i,
{
    if !(0 <= i < sources.len()) {
        None
    } else if sources[i].name@ == name {
        Some(i)
    } else {
        spec_find_source(sources, name, i + 1)
    }
}

/// The first playlist widget with this playlist id, scanning from `i`.
pub open spec fn spec_find_widget(ws: Seq<PlaylistWidget>, id: Seq<char>, i: int) -> Option<int>
    decreases ws.len() - i,
{
    if !(0 <= i < ws.len()) {
        None
    } else if ws[i].playlist@.id == id {
        Some(i)
    } else {
        spec_find_widget(ws, id, i + 1)
    }
}

/// The client's whole view of the catalog, plus the interface focus.
#[derive(Debug)]
pub struct App {
    pub sources: Vec<SourceWidget>,
    pub selected: Option<usize>,
    pub current_panel: Panel,
}

impl App {
    /// An empty view: no sources yet, focus on the source panel.
    pub fn new() -> (app: App)
        ensures
            app.sources@.len() == 0,
            app.selected is None,
            app.current_panel is Sources,
    {
        App { sources: Vec::new(), selected: None, current_panel: Panel::Sources }
    }

    /// The discovery request sent when the connection opens: every adapter
    /// is asked to announce itself.
    pub fn request_sources(&self) -> (r: Request)
        ensures
            r@.client == "all"@,
            r@.ty == RequestTypeView::GetAll(ObjRequestView::ClientList),
    {
        Request {
            client: String::from_str("all"),
            ty: RequestType::GetAll(ObjRequest::ClientList),
        }
    }

    /// The request that loads one playlist's songs from its source.
    pub fn load_playlist(&self, client: &String, playlist: &Playlist) -> (r: Request)
        ensures
            r@.client == client@,
            r@.ty == RequestTypeView::GetAll(ObjRequestView::Playlist(playlist@.id)),
    {
        Request {
            client: client.clone(),
            ty: RequestType::GetAll(ObjRequest::Playlist(playlist.id.clone())),
        }
    }

    /// The request that asks a source to download one playlist.
    pub fn download_request(&self, client: &String, playlist_id: &String) -> (r: Request)
        ensures
            r@.client == client@,
            r@.ty == RequestTypeView::Download(ObjRequestView::Playlist(playlist_id@)),
    {
        Request {
            client: client.clone(),
            ty: RequestType::Download(ObjRequest::Playlist(playlist_id.clone())),
        }
    }

    /// Index of the first source with this name, if any.
    fn find_source(&self, name: &String) -> (r: Option<usize>)
        ensures
            match spec_find_source(self.sources@, name@, 0) {
                Some(i) => r matches Some(ri) && ri == i && ri < self.sources@.len(),
                None => r is None,
            },
    {
        let mut j: usize = 0;
        while j < self.sources.len()
            invariant
                j <= self.sources@.len(),
                spec_find_source(self.sources@, name@, 0) == spec_find_source(
                    self.sources@,
                    name@,
                    j as int,
                ),
        decreases self.sources@.len() - j,
        {
            if self.sources[j].name == *name {
                return Some(j);
            }
            j = j + 1;
        }
        None
    }

    /// The selection as a route: a playlist only under a selected,
    /// existing source, and a song only under a selected, existing
    /// playlist.
    pub open spec fn spec_current_route(&self) -> Route {
        let source = self.selected;
        let playlist = match source {
            Some(i) => if i < self.sources@.len() {
                self.sources@[i as int].selected
            } else {
                None
            },
            None => None,
        };
        let song = match (source, playlist) {
            (Some(i), Some(j)) => if i < self.sources@.len() && j
                < self.sources@[i as int].playlist@.len() {
                self.sources@[i as int].playlist@[j as int].selected
            } else {
                None
            },
            _ => None,
        };
        Route { source, playlist, song }
    }

    /// Where the interface currently points.
    pub fn get_current_route(&self) -> (r: Route)
        ensures
            r == self.spec_current_route(),
    {
        let source = self.selected;
        let playlist = match source {
            Some(i) => if i < self.sources.len() {
                self.sources[i].selected
            } else {
                None
            },
            None => None,
        };
        let song = match (source, playlist) {
            (Some(i), Some(j)) => if i < self.sources.len() && j < self.sources[i].playlist.len() {
                self.sources[i].playlist[j].selected
            } else {
                None
            },
            _ => None,
        };
        Route { source, playlist, song }
    }

    /// Digests one answer from the stream and hands back the follow-up
    /// requests to send: a discovered source is added and asked for its
    /// playlists, a playlist list is stored and each playlist's songs are
    /// requested, and songs are stored. An answer from an unknown source or
    /// for an unknown playlist is ignored, as are the payloads the client
    /// does not render.
    pub fn handle_answer(&mut self, answer: Answer) -> (r: Vec<Request>)
        ensures
            final(self).current_panel == old(self).current_panel,
            match answer@.data {
                AnswerTypeView::Client(name) => {
                    &&& final(self).sources@.len() == old(self).sources@.len() + 1
                    &&& forall|i: int|
                        0 <= i < old(self).sources@.len() ==> final(self).sources@[i] == old(self).sources@[i]
                    &&& final(self).sources@.last().name@ == name
                    &&& final(self).sources@.last().playlist@.len() == 0
                    &&& final(self).sources@.last().selected is None
                    &&& final(self).selected == (if old(self).selected is None {
                        Some(0usize)
                    } else {
                        old(self).selected
                    })
                    &&& r@.len() == 1
                    &&& r@[0]@.client == name
                    &&& r@[0]@.ty == RequestTypeView::GetAll(ObjRequestView::PlaylistList)
                },
                AnswerTypeView::PlaylistList(l) => {
                    &&& final(self).selected == old(self).selected
                    &&& match spec_find_source(old(self).sources@, answer@.client, 0) {
                        None => final(self).sources@ == old(self).sources@ && r@.len() == 0,
                        Some(i) => {
                            &&& final(self).sources@.len() == old(self).sources@.len()
                            &&& forall|j: int|
                                0 <= j < old(self).sources@.len() && j != i ==> final(self).sources@[j] == old(self).sources@[j]
                            &&& final(self).sources@[i].name == old(self).sources@[i].name
                            &&& final(self).sources@[i].selected == old(self).sources@[i].selected
                            &&& final(self).sources@[i].playlist@.len() == l.len()
                            &&& forall|j: int|
                                0 <= j < l.len() ==> (#[trigger] final(self).sources@[i].playlist@[j]).playlist@ == l[j]
                                    && final(self).sources@[i].playlist@[j].songs@.len() == 0
                                    && final(self).sources@[i].playlist@[j].selected is None
                            &&& r@.len() == l.len()
                            &&& forall|j: int|
                                0 <= j < l.len() ==> (#[trigger] r@[j])@.client == answer@.client
                                    && r@[j]@.ty == RequestTypeView::GetAll(
                                    ObjRequestView::Playlist(l[j].id),
                                )
                        },
                    }
                },
                AnswerTypeView::Songs(p, songs) => {
                    &&& final(self).selected == old(self).selected
                    &&& r@.len() == 0
                    &&& match spec_find_source(old(self).sources@, answer@.client, 0) {
                        None => final(self).sources@ == old(self).sources@,
                        Some(i) => match spec_find_widget(old(self).sources@[i].playlist@, p.id, 0) {
                            None => final(self).sources@ == old(self).sources@,
                            Some(j) => {
                                &&& final(self).sources@.len() == old(self).sources@.len()
                                &&& forall|k: int|
                                    0 <= k < old(self).sources@.len() && k != i ==> final(self).sources@[k] == old(self).sources@[k]
                                &&& final(self).sources@[i].name == old(self).sources@[i].name
                                &&& final(self).sources@[i].selected == old(self).sources@[i].selected
                                &&& final(self).sources@[i].playlist@.len() == old(self).sources@[i].playlist@.len()
                                &&& forall|k: int|
                                    0 <= k < old(self).sources@[i].playlist@.len() && k != j
                                        ==> final(self).sources@[i].playlist@[k] == old(self).sources@[i].playlist@[k]
                                &&& final(self).sources@[i].playlist@[j].playlist == old(self).sources@[i].playlist@[j].playlist
                                &&& final(self).sources@[i].playlist@[j].selected == old(self).sources@[i].playlist@[j].selected
                                &&& final(self).sources@[i].playlist@[j].songs.deep_view()
                                    == songs
                            },
                        },
                    }
                },
                _ => *final(self) == *old(self) && r@.len() == 0,
            },
    {
        match answer.data {
            crate::request::AnswerType::Client(name) => {
                let mut r: Vec<Request> = Vec::new();
                r.push(
                    Request {
                        client: name.clone(),
                        ty: RequestType::GetAll(ObjRequest::PlaylistList),
                    },
                );
                self.sources.push(SourceWidget::new(name));
                if self.selected.is_none() {
                    self.selected = Some(0);
                }
                r
            },
            crate::request::AnswerType::PlaylistList(playlistlist) => {
                let r = match self.find_source(&answer.client) {
                    None => Vec::new(),
                    Some(i) => {
                        let mut widgets: Vec<PlaylistWidget> = Vec::new();
                        let mut requests: Vec<Request> = Vec::new();
                        let ghost l = playlistlist.deep_view();
                        let mut j: usize = 0;
                        while j < playlistlist.len()
                            invariant
                                j <= playlistlist@.len(),
                                l == playlistlist.deep_view(),
                                widgets@.len() == j,
                                forall|k: int|
                                    0 <= k < j ==> (#[trigger] widgets@[k]).playlist@ == l[k]
                                        && widgets@[k].songs@.len() == 0 && widgets@[k].selected
                                        is None,
                                requests@.len() == j,
                                forall|k: int|
                                    0 <= k < j ==> (#[trigger] requests@[k])@.client
                                        == answer@.client && requests@[k]@.ty
                                        == RequestTypeView::GetAll(
                                        ObjRequestView::Playlist(l[k].id),
                                    ),
                            decreases playlistlist@.len() - j,
                        {
                            let p = playlistlist[j].clone();
                            requests.push(self.load_playlist(&answer.client, &p));
                            widgets.push(PlaylistWidget::from_playlist(p));
                            j = j + 1;
                        }
                        self.sources[i].playlist = widgets;
                        requests
                    },
                };
                r
            },
            crate::request::AnswerType::Songs(p, songs) => {
                match self.find_source(&answer.client) {
                    None => (),
                    Some(i) => {
                        let src = &self.sources[i];
                        let mut j: usize = 0;
                        let mut hit: Option<usize> = None;
                        while j < src.playlist.len() && hit.is_none()
                            invariant
                                j <= src.playlist@.len(),
                                hit is None ==> spec_find_widget(src.playlist@, p@.id, 0)
                                    == spec_find_widget(src.playlist@, p@.id, j as int),
                                hit matches Some(h) ==> (spec_find_widget(src.playlist@, p@.id, 0)
                                    == Some(h as int) && h < src.playlist@.len()),
                            decreases src.playlist@.len() - j,
                        {
                            if src.playlist[j].playlist.id == p.id {
                                hit = Some(j);
                            }
                            j = j + 1;
                        }
                        match hit {
                            None => (),
                            Some(h) => {
                                self.sources[i].playlist[h].songs = songs;
                            },
                        }
                    },
                }
                Vec::new()
            },
            _ => Vec::new(),
        }
    }
}

} // verus!
