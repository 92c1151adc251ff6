//! The common data model every source adapter normalizes into: songs and
//! playlists, plus the error a source can report when asked for an unknown
//! playlist.

use vstd::prelude::*;

verus! {

/// Error reported by a source adapter; forwarded to clients as an
/// `AnswerType::Error` rather than crashing the adapter.
#[derive(Clone, Copy, Debug, PartialEq, Eq, Structural)]
pub enum SourceError {
    PlaylistNotFound,
}

/// One playable track, identified by `(id, source)` within the cache.
/// `duration` is the wall-clock length in whole seconds. `downloaded`
/// claims that `url` points at a locally accessible copy; the cache layer
/// re-verifies that claim rather than trusting it blindly.
#[derive(Debug, PartialEq)]
pub struct Song {
    pub title: String,
    pub artists: Vec<String>,
    pub tags: Vec<String>,
    pub id: String,
    pub duration: u64,
    pub url: String,
    pub downloaded: bool,
}

/// Mathematical image of a `Song`: every string becomes a character sequence.
pub struct SongView {
    pub title: Seq<char>,
    pub artists: Seq<Seq<char>>,
    pub tags: Seq<Seq<char>>,
    pub id: Seq<char>,
    pub duration: u64,
    pub url: Seq<char>,
    pub downloaded: bool,
}

impl View for Song {
    type V = SongView;

    open spec fn view(&self) -> SongView {
        SongView {
            title: self.title@,
            artists: self.artists.deep_view(),
            tags: self.tags.deep_view(),
            id: self.id@,
            duration: self.duration,
            url: self.url@,
            downloaded: self.downloaded,
        }
    }
}

impl DeepView for Song {
    type V = SongView;

    open spec fn deep_view(&self) -> SongView {
        self.view()
    }
}

/// A named, ordered collection owned by one source; `size` is the member
/// count the source reported. The etag that versions it lives in the cache
/// rows, not here, matching the wire representation.
#[derive(Debug, PartialEq)]
pub struct Playlist {
    pub title: String,
    pub tags: Vec<String>,
    pub id: String,
    pub size: u32,
}

/// Mathematical image of a `Playlist`.
pub struct PlaylistView {
    pub title: Seq<char>,
    pub tags: Seq<Seq<char>>,
    pub id: Seq<char>,
    pub size: u32,
}

impl View for Playlist {
    type V = PlaylistView;

    open spec fn view(&self) -> PlaylistView {
        PlaylistView {
            title: self.title@,
            tags: self.tags.deep_view(),
            id: self.id@,
            size: self.size,
        }
    }
}

impl DeepView for Playlist {
    type V = PlaylistView;

    open spec fn deep_view(&self) -> PlaylistView {
        self.view()
    }
}

/// Copies a vector of strings, element for element.
pub fn clone_string_vec(v: &Vec<String>) -> (r: Vec<String>)
    ensures
        r.deep_view() == v.deep_view(),
        r@.len() == v@.len(),
{
    let mut r: Vec<String> = Vec::new();
    let mut i: usize = 0;
    while i < v.len()
        invariant
            i <= v.len(),
            r@.len() == i,
            forall|j: int| 0 <= j < i ==> r@[j] == v@[j],
        decreases v.len() - i,
    {
        r.push(v[i].clone());
        i = i + 1;
    }
    assert(r.deep_view() =~= v.deep_view());
    r
}

impl Clone for Song {
    fn clone(&self) -> (r: Song)
        ensures
            r@ == self@,
    {
        Song {
            title: self.title.clone(),
            artists: clone_string_vec(&self.artists),
            tags: clone_string_vec(&self.tags),
            id: self.id.clone(),
            duration: self.duration,
            url: self.url.clone(),
            downloaded: self.downloaded,
        }
    }
}

impl Clone for Playlist {
    fn clone(&self) -> (r: Playlist)
        ensures
            r@ == self@,
    {
        Playlist {
            title: self.title.clone(),
            tags: clone_string_vec(&self.tags),
            id: self.id.clone(),
            size: self.size,
        }
    }
}

impl Song {
    /// A freshly materialized song is never marked downloaded; the flag only
    /// flips once a download job has produced a local copy.
    pub fn new(
        title: String,
        artists: Vec<String>,
        tags: Vec<String>,
        id: String,
        duration: u64,
        url: String,
    ) -> (r: Song)
        ensures
            r@.title == title@,
            r@.artists == artists.deep_view(),
            r@.tags == tags.deep_view(),
            r@.id == id@,
            r@.duration == duration,
            r@.url == url@,
            !r@.downloaded,
    {
        Song { title, artists, tags, id, duration, url, downloaded: false }
    }

    /// Records where a finished download put the local copy.
    pub fn set_url(&mut self, val: String)
        ensures
            final(self)@ == (SongView { url: val@, ..old(self)@ }),
    {
        self.url = val;
    }

    /// Flips the local-copy claim; the cache re-checks it before trusting it.
    pub fn set_downloaded(&mut self, val: bool)
        ensures
            final(self)@ == (SongView { downloaded: val, ..old(self)@ }),
    {
        self.downloaded = val;
    }
}

impl Default for Song {
    fn default() -> (r: Song)
        ensures
            r@.title == Seq::<char>::empty(),
            r@.artists == Seq::<Seq<char>>::empty(),
            r@.tags == Seq::<Seq<char>>::empty(),
            r@.id == Seq::<char>::empty(),
            r@.duration == 0,
            r@.url == Seq::<char>::empty(),
            !r@.downloaded,
    {
        let r = Song {
            title: String::new(),
            artists: Vec::new(),
            tags: Vec::new(),
            id: String::new(),
            duration: 0,
            url: String::new(),
            downloaded: false,
        };
        assert(r.artists.deep_view() =~= Seq::<Seq<char>>::empty());
        assert(r.tags.deep_view() =~= Seq::<Seq<char>>::empty());
        r
    }
}

impl Default for Playlist {
    fn default() -> (r: Playlist)
        ensures
            r@.title == Seq::<char>::empty(),
            r@.tags == Seq::<Seq<char>>::empty(),
            r@.id == Seq::<char>::empty(),
            r@.size == 0,
    {
        let r = Playlist { title: String::new(), tags: Vec::new(), id: String::new(), size: 0 };
        assert(r.tags.deep_view() =~= Seq::<Seq<char>>::empty());
        r
    }
}

} // verus!
