//! The cache layer: etag-keyed rows for playlists, songs and playlist
//! membership. Rows are appended and the newest row for a key is
//! authoritative, mirroring a store whose upserts replace by `(id, source)`.
//! The etag comparison is byte-exact, and every read fails open: an
//! unavailable store forces a remote refetch rather than blocking progress.

use vstd::prelude::*;

use crate::source_types::{Playlist, Song, SongView};

verus! {

/// Why a cache operation yielded nothing.
#[derive(Clone, Copy, Debug, PartialEq, Eq, Structural)]
pub enum CacheError {
    /// The backing store cannot be reached; readers fall back to a remote
    /// fetch, writers drop the write.
    Unavailable,
    /// No row matches the requested key.
    NotFound,
}

/// One cached playlist row.
pub struct PlaylistRow {
    pub id: String,
    pub title: String,
    pub size: u32,
    pub etag: String,
    pub source: String,
}

/// Mathematical image of a `PlaylistRow`.
pub struct PlaylistRowView {
    pub id: Seq<char>,
    pub title: Seq<char>,
    pub size: u32,
    pub etag: Seq<char>,
    pub source: Seq<char>,
}

impl View for PlaylistRow {
    type V = PlaylistRowView;

    open spec fn view(&self) -> PlaylistRowView {
        PlaylistRowView {
            id: self.id@,
            title: self.title@,
            size: self.size,
            etag: self.etag@,
            source: self.source@,
        }
    }
}

impl DeepView for PlaylistRow {
    type V = PlaylistRowView;

    open spec fn deep_view(&self) -> PlaylistRowView {
        self.view()
    }
}

/// One cached song row, keyed by the song's own id and its source.
pub struct SongRow {
    pub source: String,
    pub song: Song,
}

/// Mathematical image of a `SongRow`.
pub struct SongRowView {
    pub source: Seq<char>,
    pub song: SongView,
}

impl View for SongRow {
    type V = SongRowView;

    open spec fn view(&self) -> SongRowView {
        SongRowView { source: self.source@, song: self.song@ }
    }
}

impl DeepView for SongRow {
    type V = SongRowView;

    open spec fn deep_view(&self) -> SongRowView {
        self.view()
    }
}

/// The songs of one playlist, in playlist order, by song id.
pub struct MemberRow {
    pub playlist_id: String,
    pub source: String,
    pub song_ids: Vec<String>,
}

/// Mathematical image of a `MemberRow`.
pub struct MemberRowView {
    pub playlist_id: Seq<char>,
    pub source: Seq<char>,
    pub song_ids: Seq<Seq<char>>,
}

impl View for MemberRow {
    type V = MemberRowView;

    open spec fn view(&self) -> MemberRowView {
        MemberRowView {
            playlist_id: self.playlist_id@,
            source: self.source@,
            song_ids: self.song_ids.deep_view(),
        }
    }
}

impl DeepView for MemberRow {
    type V = MemberRowView;

    open spec fn deep_view(&self) -> MemberRowView {
        self.view()
    }
}

/// The whole cache: three row tables and the reachability of the store.
pub struct Cache {
    pub available: bool,
    pub playlists: Vec<PlaylistRow>,
    pub songs: Vec<SongRow>,
    pub members: Vec<MemberRow>,
}

/// Mathematical image of the cache.
pub struct CacheView {
    pub available: bool,
    pub playlists: Seq<PlaylistRowView>,
    pub songs: Seq<SongRowView>,
    pub members: Seq<MemberRowView>,
}

impl View for Cache {
    type V = CacheView;

    open spec fn view(&self) -> CacheView {
        CacheView {
            available: self.available,
            playlists: self.playlists.deep_view(),
            songs: self.songs.deep_view(),
            members: self.members.deep_view(),
        }
    }
}

// ---------------------------------------------------------------------------
// lookups: the newest row for a key is authoritative
// ---------------------------------------------------------------------------

/// The newest playlist row for `(id, source)`.
pub open spec fn spec_find_playlist(
    rows: Seq<PlaylistRowView>,
    id: Seq<char>,
    source: Seq<char>,
) -> Option<PlaylistRowView>
    decreases rows.len(),
{
    if rows.len() == 0 {
        None
    } else if rows.last().id == id && rows.last().source == source {
        Some(rows.last())
    } else {
        spec_find_playlist(rows.drop_last(), id, source)
    }
}

/// The newest cached song for `(id, source)`.
pub open spec fn spec_find_song(rows: Seq<SongRowView>, id: Seq<char>, source: Seq<char>) -> Option<
    SongView,
>
    decreases rows.len(),
{
    if rows.len() == 0 {
        None
    } else if rows.last().song.id == id && rows.last().source == source {
        Some(rows.last().song)
    } else {
        spec_find_song(rows.drop_last(), id, source)
    }
}

/// The newest membership row for `(playlist_id, source)`.
pub open spec fn spec_find_member(
    rows: Seq<MemberRowView>,
    playlist_id: Seq<char>,
    source: Seq<char>,
) -> Option<Seq<Seq<char>>>
    decreases rows.len(),
{
    if rows.len() == 0 {
        None
    } else if rows.last().playlist_id == playlist_id && rows.last().source == source {
        Some(rows.last().song_ids)
    } else {
        spec_find_member(rows.drop_last(), playlist_id, source)
    }
}

/// Appending a playlist row changes exactly the lookup of its own key.
pub proof fn lemma_find_playlist_push(
    rows: Seq<PlaylistRowView>,
    row: PlaylistRowView,
    id: Seq<char>,
    source: Seq<char>,
)
    ensures
        spec_find_playlist(rows.push(row), id, source) == if row.id == id && row.source == source {
            Some(row)
        } else {
            spec_find_playlist(rows, id, source)
        },
{
    assert(rows.push(row).last() == row);
    assert(rows.push(row).drop_last() =~= rows);
}

/// Appending a song row changes exactly the lookup of its own key.
pub proof fn lemma_find_song_push(
    rows: Seq<SongRowView>,
    row: SongRowView,
    id: Seq<char>,
    source: Seq<char>,
)
    ensures
        spec_find_song(rows.push(row), id, source) == if row.song.id == id && row.source == source {
            Some(row.song)
        } else {
            spec_find_song(rows, id, source)
        },
{
    assert(rows.push(row).last() == row);
    assert(rows.push(row).drop_last() =~= rows);
}

/// Appending a membership row changes exactly the lookup of its own key.
pub proof fn lemma_find_member_push(
    rows: Seq<MemberRowView>,
    row: MemberRowView,
    playlist_id: Seq<char>,
    source: Seq<char>,
)
    ensures
        spec_find_member(rows.push(row), playlist_id, source) == if row.playlist_id == playlist_id
            && row.source == source {
            Some(row.song_ids)
        } else {
            spec_find_member(rows, playlist_id, source)
        },
{
    assert(rows.push(row).last() == row);
    assert(rows.push(row).drop_last() =~= rows);
}

// ---------------------------------------------------------------------------
// the semantic contracts of the cache operations
// ---------------------------------------------------------------------------

/// The cache must be refetched unless it holds a row with exactly this
/// `(id, source, etag)` triple; an unreachable store always forces a refetch.
pub open spec fn spec_needs_update(
    c: CacheView,
    id: Seq<char>,
    source: Seq<char>,
    etag: Seq<char>,
) -> bool {
    ||| !c.available
    ||| !(match spec_find_playlist(c.playlists, id, source) {
        Some(row) => row.etag == etag,
        None => false,
    })
}

/// The newest cached song of each id in `batch`, where an id that appears
/// several times keeps its last occurrence, as repeated upserts would leave
/// it.
pub open spec fn spec_last_in_batch(batch: Seq<SongView>, id: Seq<char>) -> Option<SongView>
    decreases batch.len(),
{
    if batch.len() == 0 {
        None
    } else if batch.last().id == id {
        Some(batch.last())
    } else {
        spec_last_in_batch(batch.drop_last(), id)
    }
}

impl Cache {
    /// A fresh, reachable, empty cache.
    pub fn new() -> (r: Cache)
        ensures
            r@.available,
            r@.playlists == Seq::<PlaylistRowView>::empty(),
            r@.songs == Seq::<SongRowView>::empty(),
            r@.members == Seq::<MemberRowView>::empty(),
    {
        let r = Cache { available: true, playlists: Vec::new(), songs: Vec::new(), members: Vec::new() };
        assert(r@.playlists =~= Seq::<PlaylistRowView>::empty());
        assert(r@.songs =~= Seq::<SongRowView>::empty());
        assert(r@.members =~= Seq::<MemberRowView>::empty());
        r
    }

    /// Marks the backing store reachable or not; readers fail open on an
    /// unreachable store.
    pub fn set_available(&mut self, available: bool)
        ensures
            final(self)@ == (CacheView { available, ..old(self)@ }),
    {
        self.available = available;
    }

    /// True iff no cached row carries exactly this `(id, source, etag)`
    /// triple, or the store is unreachable: etag comparison is byte-exact,
    /// and cache failure never blocks a refetch.
    pub fn needs_update(&self, id: &String, source: &String, etag: &String) -> (r: bool)
        ensures
            r == spec_needs_update(self@, id@, source@, etag@),
    {
        if !self.available {
            return true;
        }
        match self.find_playlist_row(id, source) {
            Some(i) => {
                let row = &self.playlists[i];
                !(row.etag == *etag)
            },
            None => true,
        }
    }

    /// Index of the newest playlist row for `(id, source)`, scanning from
    /// the newest end.
    fn find_playlist_row(&self, id: &String, source: &String) -> (r: Option<usize>)
        ensures
            match spec_find_playlist(self@.playlists, id@, source@) {
                Some(row) => {
                    &&& r matches Some(i)
                    &&& i < self.playlists@.len()
                    &&& self.playlists@[i as int]@ == row
                },
                None => r is None,
            },
    {
        let ghost rows = self@.playlists;
        let mut i: usize = self.playlists.len();
        assert(rows.subrange(0, i as int) =~= rows);
        while i > 0
            invariant
                i <= self.playlists@.len(),
                rows == self@.playlists,
                spec_find_playlist(rows, id@, source@) == spec_find_playlist(
                    rows.subrange(0, i as int),
                    id@,
                    source@,
                ),
            decreases i,
        {
            i = i - 1;
            let row = &self.playlists[i];
            let hit = row.id == *id && row.source == *source;
            proof {
                assert(rows.subrange(0, i + 1).last() == rows[i as int]);
                assert(rows.subrange(0, i + 1).drop_last() =~= rows.subrange(0, i as int));
            }
            if hit {
                return Some(i);
            }
        }
        assert(rows.subrange(0, 0) =~= Seq::<PlaylistRowView>::empty());
        None
    }

    /// Index of the newest song row for `(id, source)`.
    fn find_song_row(&self, id: &String, source: &String) -> (r: Option<usize>)
        ensures
            match spec_find_song(self@.songs, id@, source@) {
                Some(sv) => {
                    &&& r matches Some(i)
                    &&& i < self.songs@.len()
                    &&& self.songs@[i as int]@.song == sv
                },
                None => r is None,
            },
    {
        let ghost rows = self@.songs;
        let mut i: usize = self.songs.len();
        assert(rows.subrange(0, i as int) =~= rows);
        while i > 0
            invariant
                i <= self.songs@.len(),
                rows == self@.songs,
                spec_find_song(rows, id@, source@) == spec_find_song(
                    rows.subrange(0, i as int),
                    id@,
                    source@,
                ),
            decreases i,
        {
            i = i - 1;
            let row = &self.songs[i];
            let hit = row.song.id == *id && row.source == *source;
            proof {
                assert(rows.subrange(0, i + 1).last() == rows[i as int]);
                assert(rows.subrange(0, i + 1).drop_last() =~= rows.subrange(0, i as int));
            }
            if hit {
                return Some(i);
            }
        }
        assert(rows.subrange(0, 0) =~= Seq::<SongRowView>::empty());
        None
    }

    /// Index of the newest membership row for `(playlist_id, source)`.
    fn find_member_row(&self, playlist_id: &String, source: &String) -> (r: Option<usize>)
        ensures
            match spec_find_member(self@.members, playlist_id@, source@) {
                Some(ids) => {
                    &&& r matches Some(i)
                    &&& i < self.members@.len()
                    &&& self.members@[i as int]@.song_ids == ids
                },
                None => r is None,
            },
    {
        let ghost rows = self@.members;
        let mut i: usize = self.members.len();
        assert(rows.subrange(0, i as int) =~= rows);
        while i > 0
            invariant
                i <= self.members@.len(),
                rows == self@.members,
                spec_find_member(rows, playlist_id@, source@) == spec_find_member(
                    rows.subrange(0, i as int),
                    playlist_id@,
                    source@,
                ),
            decreases i,
        {
            i = i - 1;
            let row = &self.members[i];
            let hit = row.playlist_id == *playlist_id && row.source == *source;
            proof {
                assert(rows.subrange(0, i + 1).last() == rows[i as int]);
                assert(rows.subrange(0, i + 1).drop_last() =~= rows.subrange(0, i as int));
            }
            if hit {
                return Some(i);
            }
        }
        assert(rows.subrange(0, 0) =~= Seq::<MemberRowView>::empty());
        None
    }

    /// Rebuilds the playlist metadata from its cached row; the caller falls
    /// back to a remote fetch on any error.
    pub fn load_playlist(&self, id: &String, source: &String) -> (r: Result<Playlist, CacheError>)
        ensures
            !self@.available ==> r matches Err(CacheError::Unavailable),
            self@.available ==> match spec_find_playlist(self@.playlists, id@, source@) {
                Some(row) => {
                    &&& r matches Ok(p)
                    &&& p@.title == row.title
                    &&& p@.id == id@
                    &&& p@.size == row.size
                    &&& p@.tags == Seq::<Seq<char>>::empty()
                },
                None => r matches Err(CacheError::NotFound),
            },
    {
        if !self.available {
            return Err(CacheError::Unavailable);
        }
        match self.find_playlist_row(id, source) {
            None => Err(CacheError::NotFound),
            Some(i) => {
                let row = &self.playlists[i];
                let p = Playlist {
                    title: row.title.clone(),
                    tags: Vec::new(),
                    id: id.clone(),
                    size: row.size,
                };
                assert(p@.tags =~= Seq::<Seq<char>>::empty());
                Ok(p)
            },
        }
    }
}

/// Resolves a list of song ids against the song table, in order; `None` as
/// soon as any id has no cached row.
pub open spec fn spec_resolve_ids(
    songs: Seq<SongRowView>,
    ids: Seq<Seq<char>>,
    source: Seq<char>,
) -> Option<Seq<SongView>>
    decreases ids.len(),
{
    if ids.len() == 0 {
        Some(Seq::empty())
    } else {
        match spec_find_song(songs, ids[0], source) {
            None => None,
            Some(s) => match spec_resolve_ids(songs, ids.subrange(1, ids.len() as int), source) {
                None => None,
                Some(tail) => Some(seq![s] + tail),
            },
        }
    }
}

/// The songs of one cached playlist, through its membership row.
pub open spec fn spec_songs_for(c: CacheView, id: Seq<char>, source: Seq<char>) -> Option<
    Seq<SongView>,
> {
    match spec_find_member(c.members, id, source) {
        None => None,
        Some(ids) => spec_resolve_ids(c.songs, ids, source),
    }
}

/// The filtering that backs `remove_downloaded`: each input song is replaced
/// by its cached row, kept iff that row's downloaded flag is false or its
/// local copy is gone (`disk[i]` reports whether it still resolves); `None`
/// as soon as an input song has no cached row.
pub open spec fn spec_remove_downloaded(
    songs: Seq<SongRowView>,
    batch: Seq<SongView>,
    disk: Seq<bool>,
    source: Seq<char>,
) -> Option<Seq<SongView>>
    decreases batch.len(),
{
    if batch.len() == 0 {
        Some(Seq::empty())
    } else {
        match spec_find_song(songs, batch[0].id, source) {
            None => None,
            Some(s) => match spec_remove_downloaded(
                songs,
                batch.subrange(1, batch.len() as int),
                disk.subrange(1, disk.len() as int),
                source,
            ) {
                None => None,
                Some(tail) => if !s.downloaded || !disk[0] {
                    Some(seq![s] + tail)
                } else {
                    Some(tail)
                },
            },
        }
    }
}

/// The ids of a batch of songs, in order.
pub open spec fn spec_song_ids(batch: Seq<SongView>) -> Seq<Seq<char>> {
    Seq::new(batch.len(), |i: int| batch[i].id)
}

/// Unfolding step for batch upserts: the newest occurrence of an id in
/// `batch.take(i + 1)` is `batch[i]` when the ids match, and otherwise
/// whatever it was in `batch.take(i)`.
proof fn lemma_last_in_batch_step(batch: Seq<SongView>, i: int, id: Seq<char>)
    requires
        0 <= i < batch.len(),
    ensures
        spec_last_in_batch(batch.take(i + 1), id) == if batch[i].id == id {
            Some(batch[i])
        } else {
            spec_last_in_batch(batch.take(i), id)
        },
{
    assert(batch.take(i + 1).last() == batch[i]);
    assert(batch.take(i + 1).drop_last() =~= batch.take(i));
}

impl Cache {
    /// Upserts every song of `batch` for `source`, in order, so that a later
    /// occurrence of an id replaces an earlier one.
    fn push_songs(&mut self, batch: &Vec<Song>, source: &String)
        ensures
            final(self)@.available == old(self)@.available,
            final(self)@.playlists == old(self)@.playlists,
            final(self)@.members == old(self)@.members,
            forall|id: Seq<char>, src: Seq<char>|
                #![trigger spec_find_song(final(self)@.songs, id, src)]
                spec_find_song(final(self)@.songs, id, src) == if src == source@ {
                    match spec_last_in_batch(batch.deep_view(), id) {
                        Some(s) => Some(s),
                        None => spec_find_song(old(self)@.songs, id, src),
                    }
                } else {
                    spec_find_song(old(self)@.songs, id, src)
                },
    {
        let ghost table0 = self@.songs;
        let ghost model = batch.deep_view();
        let mut i: usize = 0;
        while i < batch.len()
            invariant
                i <= batch.len(),
                model == batch.deep_view(),
                self@.available == old(self)@.available,
                self@.playlists == old(self)@.playlists,
                self@.members == old(self)@.members,
                table0 == old(self)@.songs,
                forall|id: Seq<char>, src: Seq<char>|
                    #![trigger spec_find_song(self@.songs, id, src)]
                    spec_find_song(self@.songs, id, src) == if src == source@ {
                        match spec_last_in_batch(model.take(i as int), id) {
                            Some(s) => Some(s),
                            None => spec_find_song(table0, id, src),
                        }
                    } else {
                        spec_find_song(table0, id, src)
                    },
            decreases batch.len() - i,
        {
            let ghost pre = self@.songs;
            let row = SongRow { source: source.clone(), song: batch[i].clone() };
            let ghost rv = row@;
            self.songs.push(row);
            proof {
                assert(self@.songs =~= pre.push(rv));
                assert(model.take(0) =~= Seq::<SongView>::empty());
                assert forall|id: Seq<char>, src: Seq<char>|
                    #![trigger spec_find_song(self@.songs, id, src)]
                    spec_find_song(self@.songs, id, src) == (if src == source@ {
                        match spec_last_in_batch(model.take(i + 1), id) {
                            Some(s) => Some(s),
                            None => spec_find_song(table0, id, src),
                        }
                    } else {
                        spec_find_song(table0, id, src)
                    }) by {
                    lemma_find_song_push(pre, rv, id, src);
                    lemma_last_in_batch_step(model, i as int, id);
                }
            }
            i = i + 1;
        }
        assert(model.take(batch.len() as int) =~= model);
    }

    /// Replaces the cached playlist row, its membership row and its song
    /// rows in one step, keyed by `(id, source)` — a reader never sees the
    /// playlist row without its songs. The stored etag versions the rows.
    pub fn add_playlist(
        &mut self,
        source: &String,
        playlist: &Playlist,
        songs: &Vec<Song>,
        etag: &String,
    ) -> (r: Result<(), CacheError>)
        ensures
            final(self)@.available == old(self)@.available,
            !old(self)@.available ==> (r matches Err(CacheError::Unavailable) && final(self)@
                == old(self)@),
            old(self)@.available ==> {
                &&& r matches Ok(u)
                &&& spec_find_playlist(final(self)@.playlists, playlist@.id, source@) == Some(
                    PlaylistRowView {
                        id: playlist@.id,
                        title: playlist@.title,
                        size: playlist@.size,
                        etag: etag@,
                        source: source@,
                    },
                )
                &&& forall|id: Seq<char>, src: Seq<char>|
                    #![trigger spec_find_playlist(final(self)@.playlists, id, src)]
                    !(id == playlist@.id && src == source@) ==> spec_find_playlist(
                        final(self)@.playlists,
                        id,
                        src,
                    ) == spec_find_playlist(old(self)@.playlists, id, src)
                &&& spec_find_member(final(self)@.members, playlist@.id, source@) == Some(
                    spec_song_ids(songs.deep_view()),
                )
                &&& forall|id: Seq<char>, src: Seq<char>|
                    #![trigger spec_find_member(final(self)@.members, id, src)]
                    !(id == playlist@.id && src == source@) ==> spec_find_member(
                        final(self)@.members,
                        id,
                        src,
                    ) == spec_find_member(old(self)@.members, id, src)
                &&& forall|id: Seq<char>, src: Seq<char>|
                    #![trigger spec_find_song(final(self)@.songs, id, src)]
                    spec_find_song(final(self)@.songs, id, src) == if src == source@ {
                        match spec_last_in_batch(songs.deep_view(), id) {
                            Some(s) => Some(s),
                            None => spec_find_song(old(self)@.songs, id, src),
                        }
                    } else {
                        spec_find_song(old(self)@.songs, id, src)
                    }
            },
    {
        if !self.available {
            return Err(CacheError::Unavailable);
        }
        let ghost plists0 = self@.playlists;
        let ghost members0 = self@.members;
        let prow = PlaylistRow {
            id: playlist.id.clone(),
            title: playlist.title.clone(),
            size: playlist.size,
            etag: etag.clone(),
            source: source.clone(),
        };
        let ghost prv = prow@;
        self.playlists.push(prow);
        proof {
            assert(self@.playlists =~= plists0.push(prv));
            assert forall|id: Seq<char>, src: Seq<char>|
                #![trigger spec_find_playlist(self@.playlists, id, src)]
                spec_find_playlist(self@.playlists, id, src) == (if id == playlist@.id && src
                    == source@ {
                    Some(prv)
                } else {
                    spec_find_playlist(plists0, id, src)
                }) by {
                lemma_find_playlist_push(plists0, prv, id, src);
            }
        }
        let mut ids: Vec<String> = Vec::new();
        let mut i: usize = 0;
        while i < songs.len()
            invariant
                i <= songs.len(),
                ids@.len() == i,
                forall|j: int| 0 <= j < i ==> ids@[j]@ == songs.deep_view()[j].id,
            decreases songs.len() - i,
        {
            ids.push(songs[i].id.clone());
            i = i + 1;
        }
        assert(ids.deep_view() =~= spec_song_ids(songs.deep_view()));
        let mrow = MemberRow {
            playlist_id: playlist.id.clone(),
            source: source.clone(),
            song_ids: ids,
        };
        let ghost mrv = mrow@;
        self.members.push(mrow);
        proof {
            assert(self@.members =~= members0.push(mrv));
            assert forall|id: Seq<char>, src: Seq<char>|
                #![trigger spec_find_member(self@.members, id, src)]
                spec_find_member(self@.members, id, src) == (if id == playlist@.id && src
                    == source@ {
                    Some(mrv.song_ids)
                } else {
                    spec_find_member(members0, id, src)
                }) by {
                lemma_find_member_push(members0, mrv, id, src);
            }
        }
        self.push_songs(songs, source);
        Ok(())
    }

    /// Upserts only the song rows — the post-download path that persists new
    /// locators and flags without rewriting the playlist. Dropped, not
    /// retried, when the store is unreachable.
    pub fn update_songs(&mut self, songs: &Vec<Song>, source: &String) -> (r: Result<
        (),
        CacheError,
    >)
        ensures
            final(self)@.available == old(self)@.available,
            !old(self)@.available ==> (r matches Err(CacheError::Unavailable) && final(self)@
                == old(self)@),
            old(self)@.available ==> {
                &&& r matches Ok(u)
                &&& final(self)@.playlists == old(self)@.playlists
                &&& final(self)@.members == old(self)@.members
                &&& forall|id: Seq<char>, src: Seq<char>|
                    #![trigger spec_find_song(final(self)@.songs, id, src)]
                    spec_find_song(final(self)@.songs, id, src) == if src == source@ {
                        match spec_last_in_batch(songs.deep_view(), id) {
                            Some(s) => Some(s),
                            None => spec_find_song(old(self)@.songs, id, src),
                        }
                    } else {
                        spec_find_song(old(self)@.songs, id, src)
                    }
            },
    {
        if !self.available {
            return Err(CacheError::Unavailable);
        }
        self.push_songs(songs, source);
        Ok(())
    }

    /// Reads back the songs of a cached playlist, in playlist order; any
    /// missing row makes the whole read a recoverable failure, on which the
    /// caller refetches remotely.
    pub fn get_playlist_songs(&self, id: &String, source: &String) -> (r: Result<
        Vec<Song>,
        CacheError,
    >)
        ensures
            !self@.available ==> r matches Err(CacheError::Unavailable),
            self@.available ==> match spec_songs_for(self@, id@, source@) {
                Some(l) => r matches Ok(v) && v.deep_view() == l,
                None => r matches Err(CacheError::NotFound),
            },
    {
        if !self.available {
            return Err(CacheError::Unavailable);
        }
        let mi = match self.find_member_row(id, source) {
            None => {
                return Err(CacheError::NotFound);
            },
            Some(mi) => mi,
        };
        let ghost ids = self@.members[mi as int].song_ids;
        let row = &self.members[mi];
        let n = row.song_ids.len();
        let mut acc: Vec<Song> = Vec::new();
        let mut j: usize = 0;
        proof {
            assert(ids.subrange(0, ids.len() as int) =~= ids);
            match spec_resolve_ids(self@.songs, ids, source@) {
                Some(l) => {
                    assert(Seq::<SongView>::empty() + l =~= l);
                    assert(acc.deep_view() =~= Seq::<SongView>::empty());
                },
                None => {},
            }
        }
        while j < n
            invariant
                j <= n,
                n == ids.len(),
                self@.available,
                mi < self.members@.len(),
                ids == self@.members[mi as int].song_ids,
                spec_find_member(self@.members, id@, source@) == Some(ids),
                spec_resolve_ids(self@.songs, ids, source@) == (match spec_resolve_ids(
                    self@.songs,
                    ids.subrange(j as int, ids.len() as int),
                    source@,
                ) {
                    Some(l) => Some::<Seq<SongView>>(acc.deep_view() + l),
                    None => None::<Seq<SongView>>,
                }),
            decreases n - j,
        {
            let row = &self.members[mi];
            let ghost tail = ids.subrange(j as int, ids.len() as int);
            proof {
                assert(tail[0] == ids[j as int]);
                assert(tail.subrange(1, tail.len() as int) =~= ids.subrange(
                    j + 1,
                    ids.len() as int,
                ));
            }
            match self.find_song_row(&row.song_ids[j], source) {
                None => {
                    return Err(CacheError::NotFound);
                },
                Some(k) => {
                    let ghost pre = acc.deep_view();
                    let ghost sv = self.songs@[k as int]@.song;
                    acc.push(self.songs[k].song.clone());
                    proof {
                        assert(acc.deep_view() =~= pre.push(sv));
                        match spec_resolve_ids(
                            self@.songs,
                            ids.subrange(j + 1, ids.len() as int),
                            source@,
                        ) {
                            Some(l2) => {
                                assert(pre + (seq![sv] + l2) =~= acc.deep_view() + l2);
                            },
                            None => {},
                        }
                    }
                },
            }
            j = j + 1;
        }
        assert(ids.subrange(n as int, ids.len() as int) =~= Seq::<Seq<char>>::empty());
        assert(acc.deep_view() + Seq::<SongView>::empty() =~= acc.deep_view());
        Ok(acc)
    }

    /// Filters `songs` down to those that still need downloading: a song is
    /// kept iff its cached row is not flagged downloaded, or its local copy
    /// no longer resolves — `on_disk[i]` reports, for the cached row of
    /// `songs[i]`, whether its locator still points at an existing local
    /// resource, so the stored flag is re-verified rather than trusted.
    /// Returned songs are the cached rows, in input order.
    pub fn remove_downloaded(
        &self,
        songs: &Vec<Song>,
        source: &String,
        on_disk: &Vec<bool>,
    ) -> (r: Result<Vec<Song>, CacheError>)
        requires
            on_disk@.len() == songs@.len(),
        ensures
            !self@.available ==> r matches Err(CacheError::Unavailable),
            self@.available ==> match spec_remove_downloaded(
                self@.songs,
                songs.deep_view(),
                on_disk@,
                source@,
            ) {
                Some(l) => r matches Ok(v) && v.deep_view() == l,
                None => r matches Err(CacheError::NotFound),
            },
    {
        if !self.available {
            return Err(CacheError::Unavailable);
        }
        let ghost batch = songs.deep_view();
        let ghost disk = on_disk@;
        let n = songs.len();
        let mut acc: Vec<Song> = Vec::new();
        let mut i: usize = 0;
        proof {
            assert(batch.subrange(0, batch.len() as int) =~= batch);
            assert(disk.subrange(0, disk.len() as int) =~= disk);
            match spec_remove_downloaded(self@.songs, batch, disk, source@) {
                Some(l) => {
                    assert(Seq::<SongView>::empty() + l =~= l);
                    assert(acc.deep_view() =~= Seq::<SongView>::empty());
                },
                None => {},
            }
        }
        while i < n
            invariant
                i <= n,
                n == batch.len() == disk.len(),
                batch == songs.deep_view(),
                disk == on_disk@,
                self@.available,
                spec_remove_downloaded(self@.songs, batch, disk, source@) == (
                match spec_remove_downloaded(
                    self@.songs,
                    batch.subrange(i as int, batch.len() as int),
                    disk.subrange(i as int, disk.len() as int),
                    source@,
                ) {
                    Some(l) => Some::<Seq<SongView>>(acc.deep_view() + l),
                    None => None::<Seq<SongView>>,
                }),
            decreases n - i,
        {
            let ghost btail = batch.subrange(i as int, batch.len() as int);
            let ghost dtail = disk.subrange(i as int, disk.len() as int);
            proof {
                assert(btail[0] == batch[i as int]);
                assert(dtail[0] == disk[i as int]);
                assert(btail.subrange(1, btail.len() as int) =~= batch.subrange(
                    i + 1,
                    batch.len() as int,
                ));
                assert(dtail.subrange(1, dtail.len() as int) =~= disk.subrange(
                    i + 1,
                    disk.len() as int,
                ));
            }
            match self.find_song_row(&songs[i].id, source) {
                None => {
                    return Err(CacheError::NotFound);
                },
                Some(k) => {
                    let cached = &self.songs[k];
                    let ghost sv = self.songs@[k as int]@.song;
                    if !cached.song.downloaded || !on_disk[i] {
                        let ghost pre = acc.deep_view();
                        acc.push(cached.song.clone());
                        proof {
                            assert(acc.deep_view() =~= pre.push(sv));
                            match spec_remove_downloaded(
                                self@.songs,
                                batch.subrange(i + 1, batch.len() as int),
                                disk.subrange(i + 1, disk.len() as int),
                                source@,
                            ) {
                                Some(l2) => {
                                    assert(pre + (seq![sv] + l2) =~= acc.deep_view() + l2);
                                },
                                None => {},
                            }
                        }
                    }
                },
            }
            i = i + 1;
        }
        assert(batch.subrange(n as int, batch.len() as int) =~= Seq::<SongView>::empty());
        assert(disk.subrange(n as int, disk.len() as int) =~= Seq::<bool>::empty());
        assert(acc.deep_view() + Seq::<SongView>::empty() =~= acc.deep_view());
        Ok(acc)
    }
}

/// Law: a song whose cached row is not flagged downloaded is always in the
/// result of `remove_downloaded`.
pub proof fn lemma_remove_downloaded_keeps_unflagged(
    songs: Seq<SongRowView>,
    batch: Seq<SongView>,
    disk: Seq<bool>,
    source: Seq<char>,
    res: Seq<SongView>,
    i: int,
)
    requires
        batch.len() == disk.len(),
        spec_remove_downloaded(songs, batch, disk, source) == Some(res),
        0 <= i < batch.len(),
        spec_find_song(songs, batch[i].id, source) matches Some(s) && !s.downloaded,
    ensures
        exists|k: int|
            0 <= k < res.len() && res[k] == spec_find_song(songs, batch[i].id, source)->Some_0,
    decreases batch.len(),
{
    let s0 = spec_find_song(songs, batch[0].id, source)->Some_0;
    let tail = spec_remove_downloaded(
        songs,
        batch.subrange(1, batch.len() as int),
        disk.subrange(1, disk.len() as int),
        source,
    )->Some_0;
    if i == 0 {
        let s = spec_find_song(songs, batch[i].id, source)->Some_0;
        assert(res == seq![s] + tail);
        assert(res[0] == s);
    } else {
        lemma_remove_downloaded_keeps_unflagged(
            songs,
            batch.subrange(1, batch.len() as int),
            disk.subrange(1, disk.len() as int),
            source,
            tail,
            i - 1,
        );
        assert(batch.subrange(1, batch.len() as int)[i - 1] == batch[i]);
        let k = choose|k: int|
            0 <= k < tail.len() && tail[k] == spec_find_song(songs, batch[i].id, source)->Some_0;
        if !s0.downloaded || !disk[0] {
            assert(res == seq![s0] + tail);
            assert(res[k + 1] == tail[k]);
        } else {
            assert(res == tail);
        }
    }
}

/// Law: everything `remove_downloaded` returns is the cached row of some
/// input song, and if that row claims a local copy, the copy was gone. The
/// returned index names that input song.
pub proof fn lemma_remove_downloaded_sound(
    songs: Seq<SongRowView>,
    batch: Seq<SongView>,
    disk: Seq<bool>,
    source: Seq<char>,
    res: Seq<SongView>,
    k: int,
) -> (i: int)
    requires
        batch.len() == disk.len(),
        spec_remove_downloaded(songs, batch, disk, source) == Some(res),
        0 <= k < res.len(),
    ensures
        0 <= i < batch.len(),
        spec_find_song(songs, batch[i].id, source) == Some(res[k]),
        res[k].downloaded ==> !disk[i],
    decreases batch.len(),
{
    assert(batch.len() > 0);
    let s0 = spec_find_song(songs, batch[0].id, source)->Some_0;
    let btail = batch.subrange(1, batch.len() as int);
    let dtail = disk.subrange(1, disk.len() as int);
    let inner = spec_remove_downloaded(songs, btail, dtail, source);
    assert(spec_find_song(songs, batch[0].id, source) is Some);
    assert(inner is Some);
    let tail = inner->Some_0;
    let kept = !s0.downloaded || !disk[0];
    if kept {
        assert(res == seq![s0] + tail);
    } else {
        assert(res == tail);
    }
    if kept && k == 0 {
        assert(res[0] == s0);
        0
    } else {
        let kk: int = if kept {
            k - 1
        } else {
            k
        };
        assert(0 <= kk < tail.len());
        assert(res[k] == tail[kk]);
        let j = lemma_remove_downloaded_sound(songs, btail, dtail, source, tail, kk);
        assert(btail[j] == batch[j + 1]);
        assert(dtail[j] == disk[j + 1]);
        j + 1
    }
}

} // verus!
