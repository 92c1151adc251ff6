//! The structural, self-describing encoding of the message vocabulary: every
//! `Request` and `Answer` is a tagged union written as a tag byte followed by
//! its fields, with counted lists and counted strings. Decoding undoes
//! encoding exactly — see `lemma_request_round_trip` and
//! `lemma_answer_round_trip` — and rejects unknown tags and truncated or
//! trailing bytes as a parse error rather than dropping data.

use vstd::prelude::*;

use crate::request::{
    Answer, AnswerType, AnswerTypeView, AnswerView, Attr, ErrorType, ObjRequest, ObjRequestView,
    Request, RequestType, RequestTypeView, RequestView,
};
use crate::source_types::{Playlist, PlaylistView, Song, SongView, SourceError};
use crate::wire::{
    dec_bool, dec_str, dec_u32, dec_u64, enc_bool, enc_str, enc_u32, enc_u64, lemma_dec_enc_bool,
    lemma_dec_enc_str, lemma_dec_enc_u32, lemma_dec_enc_u64, spec_dec_bool, spec_dec_str,
    spec_dec_u32, spec_dec_u64, spec_enc_bool, spec_enc_str, spec_enc_u32, spec_enc_u64,
};

verus! {

/// Error returned when an inbound message payload cannot be parsed. The
/// offending payload is dropped and the connection continues.
#[derive(Clone, Copy, Debug, PartialEq, Eq, Structural)]
pub enum RequestError {
    ParseErr,
}

pub type RequestResult<T> = Result<T, RequestError>;

// ---------------------------------------------------------------------------
// well-formedness: every counted length must fit its u64 prefix
// ---------------------------------------------------------------------------

pub open spec fn wf_str(s: Seq<char>) -> bool {
    s.len() <= u64::MAX
}

pub open spec fn wf_str_list(l: Seq<Seq<char>>) -> bool {
    &&& l.len() <= u64::MAX
    &&& forall|i: int| 0 <= i < l.len() ==> wf_str(#[trigger] l[i])
}

// ---------------------------------------------------------------------------
// lists of strings: a count, then each string
// ---------------------------------------------------------------------------

/// The encodings of the strings of `l`, one after the other.
pub open spec fn spec_enc_str_items(l: Seq<Seq<char>>) -> Seq<u8>
    decreases l.len(),
{
    if l.len() == 0 {
        Seq::empty()
    } else {
        spec_enc_str(l[0]) + spec_enc_str_items(l.subrange(1, l.len() as int))
    }
}

/// A list of strings is sent as its count, then its members.
pub open spec fn spec_enc_str_list(l: Seq<Seq<char>>) -> Seq<u8> {
    spec_enc_u64(l.len() as u64) + spec_enc_str_items(l)
}

/// Reads `n` strings from the front of `b`.
pub open spec fn spec_dec_str_items(n: nat, b: Seq<u8>) -> Option<(Seq<Seq<char>>, Seq<u8>)>
    decreases n,
{
    if n == 0 {
        Some((Seq::empty(), b))
    } else {
        match spec_dec_str(b) {
            Some((s, rest)) => match spec_dec_str_items((n - 1) as nat, rest) {
                Some((l, rest2)) => Some((seq![s] + l, rest2)),
                None => None,
            },
            None => None,
        }
    }
}

/// Reads a list of strings from the front of `b`.
pub open spec fn spec_dec_str_list(b: Seq<u8>) -> Option<(Seq<Seq<char>>, Seq<u8>)> {
    match spec_dec_u64(b) {
        Some((n, rest)) => spec_dec_str_items(n as nat, rest),
        None => None,
    }
}

proof fn lemma_dec_enc_str_items(l: Seq<Seq<char>>, rest: Seq<u8>)
    requires
        forall|i: int| 0 <= i < l.len() ==> wf_str(#[trigger] l[i]),
    ensures
        spec_dec_str_items(l.len(), spec_enc_str_items(l) + rest) == Some((l, rest)),
    decreases l.len(),
{
    if l.len() == 0 {
        assert(spec_enc_str_items(l) + rest =~= rest);
        assert(l =~= Seq::<Seq<char>>::empty());
    } else {
        let tail = l.subrange(1, l.len() as int);
        lemma_dec_enc_str_items(tail, rest);
        assert(spec_enc_str_items(l) + rest =~= spec_enc_str(l[0]) + (spec_enc_str_items(tail)
            + rest));
        lemma_dec_enc_str(l[0], spec_enc_str_items(tail) + rest);
        assert(seq![l[0]] + tail =~= l);
    }
}

pub proof fn lemma_dec_enc_str_list(l: Seq<Seq<char>>, rest: Seq<u8>)
    requires
        wf_str_list(l),
    ensures
        spec_dec_str_list(spec_enc_str_list(l) + rest) == Some((l, rest)),
{
    assert(spec_enc_str_list(l) + rest =~= spec_enc_u64(l.len() as u64) + (spec_enc_str_items(l)
        + rest));
    lemma_dec_enc_u64(l.len() as u64, spec_enc_str_items(l) + rest);
    lemma_dec_enc_str_items(l, rest);
}

/// Unfolding step used by the encoding loop.
proof fn lemma_enc_str_items_step(l: Seq<Seq<char>>, i: int)
    requires
        0 <= i < l.len(),
    ensures
        spec_enc_str_items(l.take(i + 1)) == spec_enc_str_items(l.take(i)) + spec_enc_str(l[i]),
    decreases i,
{
    if i == 0 {
        assert(l.take(1) =~= seq![l[0]]);
        assert(l.take(1)[0] == l[0]);
        assert(l.take(1).subrange(1, 1) =~= Seq::<Seq<char>>::empty());
        assert(spec_enc_str_items(l.take(0)) =~= Seq::<u8>::empty());
        assert(spec_enc_str_items(Seq::<Seq<char>>::empty()) =~= Seq::<u8>::empty());
        assert(spec_enc_str_items(l.take(1)) == spec_enc_str(l[0]) + spec_enc_str_items(
            l.take(1).subrange(1, 1),
        ));
        assert(spec_enc_str_items(l.take(1)) =~= spec_enc_str(l[0]) + Seq::<u8>::empty());
        assert(spec_enc_str_items(l.take(0)) + spec_enc_str(l[0]) =~= spec_enc_str(l[0])
            + Seq::<u8>::empty());
    } else {
        let t = l.subrange(1, l.len() as int);
        lemma_enc_str_items_step(t, i - 1);
        assert(l.take(i + 1).subrange(1, i + 1) =~= t.take(i));
        assert(l.take(i).subrange(1, i) =~= t.take(i - 1));
        assert(l.take(i + 1)[0] == l[0]);
        assert(l.take(i)[0] == l[0]);
        assert(t[i - 1] == l[i]);
        assert(spec_enc_str(l[0]) + (spec_enc_str_items(t.take(i - 1)) + spec_enc_str(l[i]))
            =~= (spec_enc_str(l[0]) + spec_enc_str_items(t.take(i - 1))) + spec_enc_str(l[i]));
    }
}

/// Appends the encoding of `l` to `out`.
pub fn enc_str_list(l: &Vec<String>, out: &mut Vec<u8>)
    ensures
        final(out)@ == old(out)@ + spec_enc_str_list(l.deep_view()),
{
    let ghost base = out@;
    let ghost model = l.deep_view();
    let len = l.len();
    assert(model.len() == len);
    enc_u64(len as u64, out);
    assert(out@ =~= base + spec_enc_u64(len as u64) + spec_enc_str_items(model.take(0)));
    let mut i: usize = 0;
    while i < len
        invariant
            len == l@.len(),
            model == l.deep_view(),
            model.len() == len,
            i <= len,
            out@ == base + spec_enc_u64(len as u64) + spec_enc_str_items(model.take(i as int)),
        decreases len - i,
    {
        assert(l@[i as int]@ == model[i as int]);
        enc_str(l[i].as_str(), out);
        proof {
            lemma_enc_str_items_step(model, i as int);
        }
        i = i + 1;
    }
    assert(model.take(len as int) =~= model);
    assert(base + spec_enc_u64(len as u64) + spec_enc_str_items(model) =~= base
        + spec_enc_str_list(model));
}

/// Reads a list of strings at `pos`; mirrors `spec_dec_str_list`.
pub fn dec_str_list(buf: &Vec<u8>, pos: usize) -> (r: Option<(Vec<String>, usize)>)
    requires
        pos <= buf@.len(),
    ensures
        match spec_dec_str_list(buf@.subrange(pos as int, buf@.len() as int)) {
            Some((l, rest)) => {
                &&& r matches Some((rl, np))
                &&& rl.deep_view() == l
                &&& pos <= np <= buf@.len()
                &&& buf@.subrange(np as int, buf@.len() as int) == rest
            },
            None => r is None,
        },
{
    let (n, start) = match dec_u64(buf, pos) {
        None => {
            return None;
        },
        Some(x) => x,
    };
    let mut acc: Vec<String> = Vec::new();
    let mut cur: usize = start;
    let mut left: u64 = n;
    proof {
        match spec_dec_str_items(n as nat, buf@.subrange(start as int, buf@.len() as int)) {
            Some((l, rest)) => {
                assert(Seq::<Seq<char>>::empty() + l =~= l);
                assert(acc.deep_view() =~= Seq::<Seq<char>>::empty());
            },
            None => {},
        }
    }
    loop
        invariant
            pos <= start <= cur <= buf@.len(),
            left <= n,
            spec_dec_str_list(buf@.subrange(pos as int, buf@.len() as int)) == spec_dec_str_items(
                n as nat,
                buf@.subrange(start as int, buf@.len() as int),
            ),
            spec_dec_str_items(n as nat, buf@.subrange(start as int, buf@.len() as int)) == (
            match spec_dec_str_items(left as nat, buf@.subrange(cur as int, buf@.len() as int)) {
                Some((l, rest)) => Some::<(Seq<Seq<char>>, Seq<u8>)>((acc.deep_view() + l, rest)),
                None => None::<(Seq<Seq<char>>, Seq<u8>)>,
            }),
        decreases left,
    {
        if left == 0 {
            assert(acc.deep_view() + Seq::<Seq<char>>::empty() =~= acc.deep_view());
            return Some((acc, cur));
        }
        match dec_str(buf, cur) {
            None => {
                return None;
            },
            Some((s, np)) => {
                let ghost pre = acc.deep_view();
                acc.push(s);
                assert(acc.deep_view() =~= pre.push(s@));
                proof {
                    let rest = buf@.subrange(np as int, buf@.len() as int);
                    match spec_dec_str_items((left - 1) as nat, rest) {
                        Some((l2, r2)) => {
                            assert(pre + (seq![s@] + l2) =~= acc.deep_view() + l2);
                        },
                        None => {},
                    }
                }
                cur = np;
                left = left - 1;
            },
        }
    }
}

// ---------------------------------------------------------------------------
// playlists
// ---------------------------------------------------------------------------

pub open spec fn wf_playlist(m: PlaylistView) -> bool {
    &&& wf_str(m.title)
    &&& wf_str_list(m.tags)
    &&& wf_str(m.id)
}

/// A playlist is sent as title, tags, id, then its declared size.
pub open spec fn spec_enc_playlist(m: PlaylistView) -> Seq<u8> {
    spec_enc_str(m.title) + spec_enc_str_list(m.tags) + spec_enc_str(m.id) + spec_enc_u32(m.size)
}

/// Reads a playlist from the front of `b`.
pub open spec fn spec_dec_playlist(b: Seq<u8>) -> Option<(PlaylistView, Seq<u8>)> {
    match spec_dec_str(b) {
        Some((title, b1)) => match spec_dec_str_list(b1) {
            Some((tags, b2)) => match spec_dec_str(b2) {
                Some((id, b3)) => match spec_dec_u32(b3) {
                    Some((size, b4)) => Some((PlaylistView { title, tags, id, size }, b4)),
                    None => None,
                },
                None => None,
            },
            None => None,
        },
        None => None,
    }
}

pub proof fn lemma_dec_enc_playlist(m: PlaylistView, rest: Seq<u8>)
    requires
        wf_playlist(m),
    ensures
        spec_dec_playlist(spec_enc_playlist(m) + rest) == Some((m, rest)),
{
    let a = spec_enc_str(m.title);
    let b = spec_enc_str_list(m.tags);
    let c = spec_enc_str(m.id);
    let d = spec_enc_u32(m.size);
    assert(spec_enc_playlist(m) + rest =~= a + (b + (c + (d + rest))));
    lemma_dec_enc_str(m.title, b + (c + (d + rest)));
    lemma_dec_enc_str_list(m.tags, c + (d + rest));
    lemma_dec_enc_str(m.id, d + rest);
    lemma_dec_enc_u32(m.size, rest);
}

/// Appends the encoding of `p` to `out`.
pub fn enc_playlist(p: &Playlist, out: &mut Vec<u8>)
    ensures
        final(out)@ == old(out)@ + spec_enc_playlist(p@),
{
    let ghost base = out@;
    enc_str(p.title.as_str(), out);
    enc_str_list(&p.tags, out);
    enc_str(p.id.as_str(), out);
    enc_u32(p.size, out);
    assert(out@ =~= base + spec_enc_playlist(p@));
}

/// Reads a playlist at `pos`; mirrors `spec_dec_playlist`.
pub fn dec_playlist(buf: &Vec<u8>, pos: usize) -> (r: Option<(Playlist, usize)>)
    requires
        pos <= buf@.len(),
    ensures
        match spec_dec_playlist(buf@.subrange(pos as int, buf@.len() as int)) {
            Some((m, rest)) => {
                &&& r matches Some((rp, np))
                &&& rp@ == m
                &&& pos <= np <= buf@.len()
                &&& buf@.subrange(np as int, buf@.len() as int) == rest
            },
            None => r is None,
        },
{
    let (title, p1) = match dec_str(buf, pos) {
        None => {
            return None;
        },
        Some(x) => x,
    };
    let (tags, p2) = match dec_str_list(buf, p1) {
        None => {
            return None;
        },
        Some(x) => x,
    };
    let (id, p3) = match dec_str(buf, p2) {
        None => {
            return None;
        },
        Some(x) => x,
    };
    let (size, p4) = match dec_u32(buf, p3) {
        None => {
            return None;
        },
        Some(x) => x,
    };
    Some((Playlist { title, tags, id, size }, p4))
}

// ---------------------------------------------------------------------------
// lists of playlists
// ---------------------------------------------------------------------------

pub open spec fn wf_playlist_list(l: Seq<PlaylistView>) -> bool {
    &&& l.len() <= u64::MAX
    &&& forall|i: int| 0 <= i < l.len() ==> wf_playlist(#[trigger] l[i])
}

/// The encodings of the playlists of `l`, one after the other.
pub open spec fn spec_enc_playlist_items(l: Seq<PlaylistView>) -> Seq<u8>
    decreases l.len(),
{
    if l.len() == 0 {
        Seq::empty()
    } else {
        spec_enc_playlist(l[0]) + spec_enc_playlist_items(l.subrange(1, l.len() as int))
    }
}

/// A list of playlists is sent as its count, then its members.
pub open spec fn spec_enc_playlist_list(l: Seq<PlaylistView>) -> Seq<u8> {
    spec_enc_u64(l.len() as u64) + spec_enc_playlist_items(l)
}

/// Reads `n` playlists from the front of `b`.
pub open spec fn spec_dec_playlist_items(n: nat, b: Seq<u8>) -> Option<
    (Seq<PlaylistView>, Seq<u8>),
>
    decreases n,
{
    if n == 0 {
        Some((Seq::empty(), b))
    } else {
        match spec_dec_playlist(b) {
            Some((p, rest)) => match spec_dec_playlist_items((n - 1) as nat, rest) {
                Some((l, rest2)) => Some((seq![p] + l, rest2)),
                None => None,
            },
            None => None,
        }
    }
}

/// Reads a list of playlists from the front of `b`.
pub open spec fn spec_dec_playlist_list(b: Seq<u8>) -> Option<(Seq<PlaylistView>, Seq<u8>)> {
    match spec_dec_u64(b) {
        Some((n, rest)) => spec_dec_playlist_items(n as nat, rest),
        None => None,
    }
}

#[verifier::rlimit(50)]
proof fn lemma_dec_enc_playlist_items(l: Seq<PlaylistView>, rest: Seq<u8>)
    requires
        forall|i: int| 0 <= i < l.len() ==> wf_playlist(#[trigger] l[i]),
    ensures
        spec_dec_playlist_items(l.len(), spec_enc_playlist_items(l) + rest) == Some((l, rest)),
    decreases l.len(),
{
    if l.len() == 0 {
        assert(spec_enc_playlist_items(l) + rest =~= rest);
        assert(l =~= Seq::<PlaylistView>::empty());
    } else {
        let tail = l.subrange(1, l.len() as int);
        lemma_dec_enc_playlist_items(tail, rest);
        assert(spec_enc_playlist_items(l) + rest =~= spec_enc_playlist(l[0]) + (
        spec_enc_playlist_items(tail) + rest));
        lemma_dec_enc_playlist(l[0], spec_enc_playlist_items(tail) + rest);
        assert(seq![l[0]] + tail =~= l);
    }
}

pub proof fn lemma_dec_enc_playlist_list(l: Seq<PlaylistView>, rest: Seq<u8>)
    requires
        wf_playlist_list(l),
    ensures
        spec_dec_playlist_list(spec_enc_playlist_list(l) + rest) == Some((l, rest)),
{
    assert(spec_enc_playlist_list(l) + rest =~= spec_enc_u64(l.len() as u64) + (
    spec_enc_playlist_items(l) + rest));
    lemma_dec_enc_u64(l.len() as u64, spec_enc_playlist_items(l) + rest);
    lemma_dec_enc_playlist_items(l, rest);
}

/// Unfolding step used by the encoding loop.
proof fn lemma_enc_playlist_items_step(l: Seq<PlaylistView>, i: int)
    requires
        0 <= i < l.len(),
    ensures
        spec_enc_playlist_items(l.take(i + 1)) == spec_enc_playlist_items(l.take(i))
            + spec_enc_playlist(l[i]),
    decreases i,
{
    if i == 0 {
        assert(l.take(1) =~= seq![l[0]]);
        assert(l.take(1)[0] == l[0]);
        assert(l.take(1).subrange(1, 1) =~= Seq::<PlaylistView>::empty());
        assert(spec_enc_playlist_items(l.take(0)) =~= Seq::<u8>::empty());
        assert(spec_enc_playlist_items(Seq::<PlaylistView>::empty()) =~= Seq::<u8>::empty());
        assert(spec_enc_playlist_items(l.take(1)) == spec_enc_playlist(l[0])
            + spec_enc_playlist_items(l.take(1).subrange(1, 1)));
        assert(spec_enc_playlist_items(l.take(1)) =~= spec_enc_playlist(l[0]) + Seq::<u8>::empty());
        assert(spec_enc_playlist_items(l.take(0)) + spec_enc_playlist(l[0]) =~= spec_enc_playlist(
            l[0],
        ) + Seq::<u8>::empty());
    } else {
        let t = l.subrange(1, l.len() as int);
        lemma_enc_playlist_items_step(t, i - 1);
        assert(l.take(i + 1).subrange(1, i + 1) =~= t.take(i));
        assert(l.take(i).subrange(1, i) =~= t.take(i - 1));
        assert(l.take(i + 1)[0] == l[0]);
        assert(l.take(i)[0] == l[0]);
        assert(t[i - 1] == l[i]);
        assert(spec_enc_playlist(l[0]) + (spec_enc_playlist_items(t.take(i - 1))
            + spec_enc_playlist(l[i])) =~= (spec_enc_playlist(l[0]) + spec_enc_playlist_items(
            t.take(i - 1),
        )) + spec_enc_playlist(l[i]));
    }
}

/// Appends the encoding of `l` to `out`.
pub fn enc_playlist_vec(l: &Vec<Playlist>, out: &mut Vec<u8>)
    ensures
        final(out)@ == old(out)@ + spec_enc_playlist_list(l.deep_view()),
{
    let ghost base = out@;
    let ghost model = l.deep_view();
    let len = l.len();
    assert(model.len() == len);
    enc_u64(len as u64, out);
    assert(out@ =~= base + spec_enc_u64(len as u64) + spec_enc_playlist_items(model.take(0)));
    let mut i: usize = 0;
    while i < len
        invariant
            len == l@.len(),
            model == l.deep_view(),
            model.len() == len,
            i <= len,
            out@ == base + spec_enc_u64(len as u64) + spec_enc_playlist_items(model.take(i as int)),
        decreases len - i,
    {
        assert(l@[i as int]@ == model[i as int]);
        enc_playlist(&l[i], out);
        proof {
            lemma_enc_playlist_items_step(model, i as int);
        }
        i = i + 1;
    }
    assert(model.take(len as int) =~= model);
    assert(base + spec_enc_u64(len as u64) + spec_enc_playlist_items(model) =~= base
        + spec_enc_playlist_list(model));
}

/// Reads a list of playlists at `pos`; mirrors `spec_dec_playlist_list`.
pub fn dec_playlist_vec(buf: &Vec<u8>, pos: usize) -> (r: Option<(Vec<Playlist>, usize)>)
    requires
        pos <= buf@.len(),
    ensures
        match spec_dec_playlist_list(buf@.subrange(pos as int, buf@.len() as int)) {
            Some((l, rest)) => {
                &&& r matches Some((rl, np))
                &&& rl.deep_view() == l
                &&& pos <= np <= buf@.len()
                &&& buf@.subrange(np as int, buf@.len() as int) == rest
            },
            None => r is None,
        },
{
    let (n, start) = match dec_u64(buf, pos) {
        None => {
            return None;
        },
        Some(x) => x,
    };
    let mut acc: Vec<Playlist> = Vec::new();
    let mut cur: usize = start;
    let mut left: u64 = n;
    proof {
        match spec_dec_playlist_items(n as nat, buf@.subrange(start as int, buf@.len() as int)) {
            Some((l, rest)) => {
                assert(Seq::<PlaylistView>::empty() + l =~= l);
                assert(acc.deep_view() =~= Seq::<PlaylistView>::empty());
            },
            None => {},
        }
    }
    loop
        invariant
            pos <= start <= cur <= buf@.len(),
            left <= n,
            spec_dec_playlist_list(buf@.subrange(pos as int, buf@.len() as int))
                == spec_dec_playlist_items(
                n as nat,
                buf@.subrange(start as int, buf@.len() as int),
            ),
            spec_dec_playlist_items(n as nat, buf@.subrange(start as int, buf@.len() as int)) == (
            match spec_dec_playlist_items(
                left as nat,
                buf@.subrange(cur as int, buf@.len() as int),
            ) {
                Some((l, rest)) => Some::<(Seq<PlaylistView>, Seq<u8>)>(
                    (acc.deep_view() + l, rest),
                ),
                None => None::<(Seq<PlaylistView>, Seq<u8>)>,
            }),
        decreases left,
    {
        if left == 0 {
            assert(acc.deep_view() + Seq::<PlaylistView>::empty() =~= acc.deep_view());
            return Some((acc, cur));
        }
        match dec_playlist(buf, cur) {
            None => {
                return None;
            },
            Some((p, np)) => {
                let ghost pre = acc.deep_view();
                let ghost pv = p@;
                acc.push(p);
                assert(acc.deep_view() =~= pre.push(pv));
                proof {
                    let rest = buf@.subrange(np as int, buf@.len() as int);
                    match spec_dec_playlist_items((left - 1) as nat, rest) {
                        Some((l2, r2)) => {
                            assert(pre + (seq![pv] + l2) =~= acc.deep_view() + l2);
                        },
                        None => {},
                    }
                }
                cur = np;
                left = left - 1;
            },
        }
    }
}

// ---------------------------------------------------------------------------
// songs
// ---------------------------------------------------------------------------

pub open spec fn wf_song(m: SongView) -> bool {
    &&& wf_str(m.title)
    &&& wf_str_list(m.artists)
    &&& wf_str_list(m.tags)
    &&& wf_str(m.id)
    &&& wf_str(m.url)
}

/// A song is sent as title, artists, tags, id, duration, url, then its
/// downloaded flag.
pub open spec fn spec_enc_song(m: SongView) -> Seq<u8> {
    spec_enc_str(m.title) + spec_enc_str_list(m.artists) + spec_enc_str_list(m.tags)
        + spec_enc_str(m.id) + spec_enc_u64(m.duration) + spec_enc_str(m.url) + spec_enc_bool(
        m.downloaded,
    )
}

/// Reads a song from the front of `b`.
pub open spec fn spec_dec_song(b: Seq<u8>) -> Option<(SongView, Seq<u8>)> {
    match spec_dec_str(b) {
        Some((title, b1)) => match spec_dec_str_list(b1) {
            Some((artists, b2)) => match spec_dec_str_list(b2) {
                Some((tags, b3)) => match spec_dec_str(b3) {
                    Some((id, b4)) => match spec_dec_u64(b4) {
                        Some((duration, b5)) => match spec_dec_str(b5) {
                            Some((url, b6)) => match spec_dec_bool(b6) {
                                Some((downloaded, b7)) => Some(
                                    (
                                        SongView {
                                            title,
                                            artists,
                                            tags,
                                            id,
                                            duration,
                                            url,
                                            downloaded,
                                        },
                                        b7,
                                    ),
                                ),
                                None => None,
                            },
                            None => None,
                        },
                        None => None,
                    },
                    None => None,
                },
                None => None,
            },
            None => None,
        },
        None => None,
    }
}

#[verifier::rlimit(50)]
pub proof fn lemma_dec_enc_song(m: SongView, rest: Seq<u8>)
    requires
        wf_song(m),
    ensures
        spec_dec_song(spec_enc_song(m) + rest) == Some((m, rest)),
{
    let a = spec_enc_str(m.title);
    let b = spec_enc_str_list(m.artists);
    let c = spec_enc_str_list(m.tags);
    let d = spec_enc_str(m.id);
    let e = spec_enc_u64(m.duration);
    let f = spec_enc_str(m.url);
    let g = spec_enc_bool(m.downloaded);
    assert(spec_enc_song(m) + rest =~= a + (b + (c + (d + (e + (f + (g + rest)))))));
    lemma_dec_enc_str(m.title, b + (c + (d + (e + (f + (g + rest))))));
    lemma_dec_enc_str_list(m.artists, c + (d + (e + (f + (g + rest)))));
    lemma_dec_enc_str_list(m.tags, d + (e + (f + (g + rest))));
    lemma_dec_enc_str(m.id, e + (f + (g + rest)));
    lemma_dec_enc_u64(m.duration, f + (g + rest));
    lemma_dec_enc_str(m.url, g + rest);
    lemma_dec_enc_bool(m.downloaded, rest);
}

/// Appends the encoding of `s` to `out`.
pub fn enc_song(s: &Song, out: &mut Vec<u8>)
    ensures
        final(out)@ == old(out)@ + spec_enc_song(s@),
{
    let ghost base = out@;
    enc_str(s.title.as_str(), out);
    enc_str_list(&s.artists, out);
    enc_str_list(&s.tags, out);
    enc_str(s.id.as_str(), out);
    enc_u64(s.duration, out);
    enc_str(s.url.as_str(), out);
    enc_bool(s.downloaded, out);
    assert(out@ =~= base + spec_enc_song(s@));
}

/// Reads a song at `pos`; mirrors `spec_dec_song`.
#[verifier::rlimit(50)]
pub fn dec_song(buf: &Vec<u8>, pos: usize) -> (r: Option<(Song, usize)>)
    requires
        pos <= buf@.len(),
    ensures
        match spec_dec_song(buf@.subrange(pos as int, buf@.len() as int)) {
            Some((m, rest)) => {
                &&& r matches Some((rs, np))
                &&& rs@ == m
                &&& pos <= np <= buf@.len()
                &&& buf@.subrange(np as int, buf@.len() as int) == rest
            },
            None => r is None,
        },
{
    let (title, p1) = match dec_str(buf, pos) {
        None => {
            return None;
        },
        Some(x) => x,
    };
    let (artists, p2) = match dec_str_list(buf, p1) {
        None => {
            return None;
        },
        Some(x) => x,
    };
    let (tags, p3) = match dec_str_list(buf, p2) {
        None => {
            return None;
        },
        Some(x) => x,
    };
    let (id, p4) = match dec_str(buf, p3) {
        None => {
            return None;
        },
        Some(x) => x,
    };
    let (duration, p5) = match dec_u64(buf, p4) {
        None => {
            return None;
        },
        Some(x) => x,
    };
    let (url, p6) = match dec_str(buf, p5) {
        None => {
            return None;
        },
        Some(x) => x,
    };
    let (downloaded, p7) = match dec_bool(buf, p6) {
        None => {
            return None;
        },
        Some(x) => x,
    };
    Some((Song { title, artists, tags, id, duration, url, downloaded }, p7))
}

// ---------------------------------------------------------------------------
// lists of songs
// ---------------------------------------------------------------------------

pub open spec fn wf_song_list(l: Seq<SongView>) -> bool {
    &&& l.len() <= u64::MAX
    &&& forall|i: int| 0 <= i < l.len() ==> wf_song(#[trigger] l[i])
}

/// The encodings of the songs of `l`, one after the other.
pub open spec fn spec_enc_song_items(l: Seq<SongView>) -> Seq<u8>
    decreases l.len(),
{
    if l.len() == 0 {
        Seq::empty()
    } else {
        spec_enc_song(l[0]) + spec_enc_song_items(l.subrange(1, l.len() as int))
    }
}

/// A list of songs is sent as its count, then its members.
pub open spec fn spec_enc_song_list(l: Seq<SongView>) -> Seq<u8> {
    spec_enc_u64(l.len() as u64) + spec_enc_song_items(l)
}

/// Reads `n` songs from the front of `b`.
pub open spec fn spec_dec_song_items(n: nat, b: Seq<u8>) -> Option<(Seq<SongView>, Seq<u8>)>
    decreases n,
{
    if n == 0 {
        Some((Seq::empty(), b))
    } else {
        match spec_dec_song(b) {
            Some((s, rest)) => match spec_dec_song_items((n - 1) as nat, rest) {
                Some((l, rest2)) => Some((seq![s] + l, rest2)),
                None => None,
            },
            None => None,
        }
    }
}

/// Reads a list of songs from the front of `b`.
pub open spec fn spec_dec_song_list(b: Seq<u8>) -> Option<(Seq<SongView>, Seq<u8>)> {
    match spec_dec_u64(b) {
        Some((n, rest)) => spec_dec_song_items(n as nat, rest),
        None => None,
    }
}

#[verifier::rlimit(100)]
proof fn lemma_dec_enc_song_items(l: Seq<SongView>, rest: Seq<u8>)
    requires
        forall|i: int| 0 <= i < l.len() ==> wf_song(#[trigger] l[i]),
    ensures
        spec_dec_song_items(l.len(), spec_enc_song_items(l) + rest) == Some((l, rest)),
    decreases l.len(),
{
    if l.len() == 0 {
        assert(spec_enc_song_items(l) + rest =~= rest);
        assert(l =~= Seq::<SongView>::empty());
    } else {
        let tail = l.subrange(1, l.len() as int);
        let x = spec_enc_song_items(tail) + rest;
        lemma_dec_enc_song_items(tail, rest);
        assert(spec_dec_song_items(tail.len(), x) == Some((tail, rest)));
        assert(spec_enc_song_items(l) + rest =~= spec_enc_song(l[0]) + x);
        lemma_dec_enc_song(l[0], x);
        assert(spec_dec_song(spec_enc_song_items(l) + rest) == Some((l[0], x)));
        assert(seq![l[0]] + tail =~= l);
        assert(spec_dec_song_items(l.len(), spec_enc_song_items(l) + rest) == Some((l, rest)));
    }
}

pub proof fn lemma_dec_enc_song_list(l: Seq<SongView>, rest: Seq<u8>)
    requires
        wf_song_list(l),
    ensures
        spec_dec_song_list(spec_enc_song_list(l) + rest) == Some((l, rest)),
{
    assert(spec_enc_song_list(l) + rest =~= spec_enc_u64(l.len() as u64) + (spec_enc_song_items(l)
        + rest));
    lemma_dec_enc_u64(l.len() as u64, spec_enc_song_items(l) + rest);
    lemma_dec_enc_song_items(l, rest);
}

/// Unfolding step used by the encoding loop.
proof fn lemma_enc_song_items_step(l: Seq<SongView>, i: int)
    requires
        0 <= i < l.len(),
    ensures
        spec_enc_song_items(l.take(i + 1)) == spec_enc_song_items(l.take(i)) + spec_enc_song(l[i]),
    decreases i,
{
    if i == 0 {
        assert(l.take(1) =~= seq![l[0]]);
        assert(l.take(1)[0] == l[0]);
        assert(l.take(1).subrange(1, 1) =~= Seq::<SongView>::empty());
        assert(spec_enc_song_items(l.take(0)) =~= Seq::<u8>::empty());
        assert(spec_enc_song_items(Seq::<SongView>::empty()) =~= Seq::<u8>::empty());
        assert(spec_enc_song_items(l.take(1)) == spec_enc_song(l[0]) + spec_enc_song_items(
            l.take(1).subrange(1, 1),
        ));
        assert(spec_enc_song_items(l.take(1)) =~= spec_enc_song(l[0]) + Seq::<u8>::empty());
        assert(spec_enc_song_items(l.take(0)) + spec_enc_song(l[0]) =~= spec_enc_song(l[0])
            + Seq::<u8>::empty());
    } else {
        let t = l.subrange(1, l.len() as int);
        lemma_enc_song_items_step(t, i - 1);
        assert(l.take(i + 1).subrange(1, i + 1) =~= t.take(i));
        assert(l.take(i).subrange(1, i) =~= t.take(i - 1));
        assert(l.take(i + 1)[0] == l[0]);
        assert(l.take(i)[0] == l[0]);
        assert(t[i - 1] == l[i]);
        assert(spec_enc_song(l[0]) + (spec_enc_song_items(t.take(i - 1)) + spec_enc_song(l[i]))
            =~= (spec_enc_song(l[0]) + spec_enc_song_items(t.take(i - 1))) + spec_enc_song(l[i]));
    }
}

/// Appends the encoding of `l` to `out`.
pub fn enc_song_vec(l: &Vec<Song>, out: &mut Vec<u8>)
    ensures
        final(out)@ == old(out)@ + spec_enc_song_list(l.deep_view()),
{
    let ghost base = out@;
    let ghost model = l.deep_view();
    let len = l.len();
    assert(model.len() == len);
    enc_u64(len as u64, out);
    assert(out@ =~= base + spec_enc_u64(len as u64) + spec_enc_song_items(model.take(0)));
    let mut i: usize = 0;
    while i < len
        invariant
            len == l@.len(),
            model == l.deep_view(),
            model.len() == len,
            i <= len,
            out@ == base + spec_enc_u64(len as u64) + spec_enc_song_items(model.take(i as int)),
        decreases len - i,
    {
        assert(l@[i as int]@ == model[i as int]);
        enc_song(&l[i], out);
        proof {
            lemma_enc_song_items_step(model, i as int);
        }
        i = i + 1;
    }
    assert(model.take(len as int) =~= model);
    assert(base + spec_enc_u64(len as u64) + spec_enc_song_items(model) =~= base
        + spec_enc_song_list(model));
}

/// Reads a list of songs at `pos`; mirrors `spec_dec_song_list`.
pub fn dec_song_vec(buf: &Vec<u8>, pos: usize) -> (r: Option<(Vec<Song>, usize)>)
    requires
        pos <= buf@.len(),
    ensures
        match spec_dec_song_list(buf@.subrange(pos as int, buf@.len() as int)) {
            Some((l, rest)) => {
                &&& r matches Some((rl, np))
                &&& rl.deep_view() == l
                &&& pos <= np <= buf@.len()
                &&& buf@.subrange(np as int, buf@.len() as int) == rest
            },
            None => r is None,
        },
{
    let (n, start) = match dec_u64(buf, pos) {
        None => {
            return None;
        },
        Some(x) => x,
    };
    let mut acc: Vec<Song> = Vec::new();
    let mut cur: usize = start;
    let mut left: u64 = n;
    proof {
        match spec_dec_song_items(n as nat, buf@.subrange(start as int, buf@.len() as int)) {
            Some((l, rest)) => {
                assert(Seq::<SongView>::empty() + l =~= l);
                assert(acc.deep_view() =~= Seq::<SongView>::empty());
            },
            None => {},
        }
    }
    loop
        invariant
            pos <= start <= cur <= buf@.len(),
            left <= n,
            spec_dec_song_list(buf@.subrange(pos as int, buf@.len() as int))
                == spec_dec_song_items(n as nat, buf@.subrange(start as int, buf@.len() as int)),
            spec_dec_song_items(n as nat, buf@.subrange(start as int, buf@.len() as int)) == (
            match spec_dec_song_items(left as nat, buf@.subrange(cur as int, buf@.len() as int)) {
                Some((l, rest)) => Some::<(Seq<SongView>, Seq<u8>)>((acc.deep_view() + l, rest)),
                None => None::<(Seq<SongView>, Seq<u8>)>,
            }),
        decreases left,
    {
        if left == 0 {
            assert(acc.deep_view() + Seq::<SongView>::empty() =~= acc.deep_view());
            return Some((acc, cur));
        }
        match dec_song(buf, cur) {
            None => {
                return None;
            },
            Some((s, np)) => {
                let ghost pre = acc.deep_view();
                let ghost sv = s@;
                acc.push(s);
                assert(acc.deep_view() =~= pre.push(sv));
                proof {
                    let rest = buf@.subrange(np as int, buf@.len() as int);
                    match spec_dec_song_items((left - 1) as nat, rest) {
                        Some((l2, r2)) => {
                            assert(pre + (seq![sv] + l2) =~= acc.deep_view() + l2);
                        },
                        None => {},
                    }
                }
                cur = np;
                left = left - 1;
            },
        }
    }
}

// ---------------------------------------------------------------------------
// tagged unions: attributes, objects, error kinds
// ---------------------------------------------------------------------------

/// Splits off the tag byte of a tagged union, if there is one.
pub open spec fn spec_dec_tag(b: Seq<u8>) -> Option<(u8, Seq<u8>)> {
    if b.len() >= 1 {
        Some((b[0], b.subrange(1, b.len() as int)))
    } else {
        None
    }
}

pub open spec fn spec_enc_attr(a: Attr) -> Seq<u8> {
    match a {
        Attr::Name => seq![0u8],
        Attr::Url => seq![1u8],
        Attr::Id => seq![2u8],
    }
}

pub open spec fn spec_dec_attr(b: Seq<u8>) -> Option<(Attr, Seq<u8>)> {
    match spec_dec_tag(b) {
        Some((t, rest)) => if t == 0 {
            Some((Attr::Name, rest))
        } else if t == 1 {
            Some((Attr::Url, rest))
        } else if t == 2 {
            Some((Attr::Id, rest))
        } else {
            None
        },
        None => None,
    }
}

pub proof fn lemma_dec_enc_attr(a: Attr, rest: Seq<u8>)
    ensures
        spec_dec_attr(spec_enc_attr(a) + rest) == Some((a, rest)),
{
    let b = spec_enc_attr(a) + rest;
    assert(b.subrange(1, b.len() as int) =~= rest);
}

/// Appends the encoding of `a` to `out`.
pub fn enc_attr(a: &Attr, out: &mut Vec<u8>)
    ensures
        final(out)@ == old(out)@ + spec_enc_attr(*a),
{
    let ghost base = out@;
    match a {
        Attr::Name => out.push(0u8),
        Attr::Url => out.push(1u8),
        Attr::Id => out.push(2u8),
    }
    assert(out@ =~= base + spec_enc_attr(*a));
}

/// Reads an attribute at `pos`; mirrors `spec_dec_attr`.
pub fn dec_attr(buf: &Vec<u8>, pos: usize) -> (r: Option<(Attr, usize)>)
    requires
        pos <= buf@.len(),
    ensures
        match spec_dec_attr(buf@.subrange(pos as int, buf@.len() as int)) {
            Some((a, rest)) => {
                &&& r matches Some((ra, np))
                &&& ra == a
                &&& pos <= np <= buf@.len()
                &&& buf@.subrange(np as int, buf@.len() as int) == rest
            },
            None => r is None,
        },
{
    let ghost tail = buf@.subrange(pos as int, buf@.len() as int);
    if pos >= buf.len() {
        return None;
    }
    let t = buf[pos];
    assert(tail[0] == buf@[pos as int]);
    assert(buf@.subrange(pos + 1, buf@.len() as int) =~= tail.subrange(1, tail.len() as int));
    if t == 0 {
        Some((Attr::Name, pos + 1))
    } else if t == 1 {
        Some((Attr::Url, pos + 1))
    } else if t == 2 {
        Some((Attr::Id, pos + 1))
    } else {
        None
    }
}

pub open spec fn spec_enc_error_type(e: ErrorType) -> Seq<u8> {
    match e {
        ErrorType::SourceError(SourceError::PlaylistNotFound) => seq![0u8, 0u8],
    }
}

pub open spec fn spec_dec_error_type(b: Seq<u8>) -> Option<(ErrorType, Seq<u8>)> {
    match spec_dec_tag(b) {
        Some((t, rest)) => if t == 0 {
            match spec_dec_tag(rest) {
                Some((k, rest2)) => if k == 0 {
                    Some((ErrorType::SourceError(SourceError::PlaylistNotFound), rest2))
                } else {
                    None
                },
                None => None,
            }
        } else {
            None
        },
        None => None,
    }
}

pub proof fn lemma_dec_enc_error_type(e: ErrorType, rest: Seq<u8>)
    ensures
        spec_dec_error_type(spec_enc_error_type(e) + rest) == Some((e, rest)),
{
    let b = spec_enc_error_type(e) + rest;
    assert(b.subrange(1, b.len() as int) =~= seq![0u8] + rest);
    assert((seq![0u8] + rest).subrange(1, rest.len() as int + 1) =~= rest);
}

/// Appends the encoding of `e` to `out`.
pub fn enc_error_type(e: &ErrorType, out: &mut Vec<u8>)
    ensures
        final(out)@ == old(out)@ + spec_enc_error_type(*e),
{
    let ghost base = out@;
    match e {
        ErrorType::SourceError(SourceError::PlaylistNotFound) => {
            out.push(0u8);
            out.push(0u8);
        },
    }
    assert(out@ =~= base + spec_enc_error_type(*e));
}

/// Reads an error kind at `pos`; mirrors `spec_dec_error_type`.
pub fn dec_error_type(buf: &Vec<u8>, pos: usize) -> (r: Option<(ErrorType, usize)>)
    requires
        pos <= buf@.len(),
    ensures
        match spec_dec_error_type(buf@.subrange(pos as int, buf@.len() as int)) {
            Some((e, rest)) => {
                &&& r matches Some((re, np))
                &&& re == e
                &&& pos <= np <= buf@.len()
                &&& buf@.subrange(np as int, buf@.len() as int) == rest
            },
            None => r is None,
        },
{
    let ghost tail = buf@.subrange(pos as int, buf@.len() as int);
    if buf.len() - pos < 2 {
        if pos < buf.len() && buf[pos] != 0 {
            assert(tail[0] == buf@[pos as int]);
            return None;
        }
        proof {
            if tail.len() >= 1 {
                assert(tail[0] == buf@[pos as int]);
                assert(tail.subrange(1, tail.len() as int).len() == 0);
            }
        }
        return None;
    }
    let t = buf[pos];
    let k = buf[pos + 1];
    assert(tail[0] == buf@[pos as int]);
    assert(tail.subrange(1, tail.len() as int)[0] == buf@[pos + 1]);
    assert(buf@.subrange(pos + 2, buf@.len() as int) =~= tail.subrange(1, tail.len() as int)
        .subrange(1, tail.len() - 1));
    if t == 0 && k == 0 {
        Some((ErrorType::SourceError(SourceError::PlaylistNotFound), pos + 2))
    } else {
        None
    }
}

pub open spec fn wf_obj(o: ObjRequestView) -> bool {
    match o {
        ObjRequestView::Playlist(id) => wf_str(id),
        ObjRequestView::Client(name) => wf_str(name),
        _ => true,
    }
}

pub open spec fn spec_enc_obj(o: ObjRequestView) -> Seq<u8> {
    match o {
        ObjRequestView::PlaylistList => seq![0u8],
        ObjRequestView::Playlist(id) => seq![1u8] + spec_enc_str(id),
        ObjRequestView::Song => seq![2u8],
        ObjRequestView::Client(name) => seq![3u8] + spec_enc_str(name),
        ObjRequestView::ClientList => seq![4u8],
    }
}

pub open spec fn spec_dec_obj(b: Seq<u8>) -> Option<(ObjRequestView, Seq<u8>)> {
    match spec_dec_tag(b) {
        Some((t, rest)) => if t == 0 {
            Some((ObjRequestView::PlaylistList, rest))
        } else if t == 1 {
            match spec_dec_str(rest) {
                Some((id, rest2)) => Some((ObjRequestView::Playlist(id), rest2)),
                None => None,
            }
        } else if t == 2 {
            Some((ObjRequestView::Song, rest))
        } else if t == 3 {
            match spec_dec_str(rest) {
                Some((name, rest2)) => Some((ObjRequestView::Client(name), rest2)),
                None => None,
            }
        } else if t == 4 {
            Some((ObjRequestView::ClientList, rest))
        } else {
            None
        },
        None => None,
    }
}

pub proof fn lemma_dec_enc_obj(o: ObjRequestView, rest: Seq<u8>)
    requires
        wf_obj(o),
    ensures
        spec_dec_obj(spec_enc_obj(o) + rest) == Some((o, rest)),
{
    let b = spec_enc_obj(o) + rest;
    match o {
        ObjRequestView::Playlist(id) => {
            assert(b.subrange(1, b.len() as int) =~= spec_enc_str(id) + rest);
            lemma_dec_enc_str(id, rest);
        },
        ObjRequestView::Client(name) => {
            assert(b.subrange(1, b.len() as int) =~= spec_enc_str(name) + rest);
            lemma_dec_enc_str(name, rest);
        },
        _ => {
            assert(b.subrange(1, b.len() as int) =~= rest);
        },
    }
}

/// Appends the encoding of `o` to `out`.
pub fn enc_obj(o: &ObjRequest, out: &mut Vec<u8>)
    ensures
        final(out)@ == old(out)@ + spec_enc_obj(o@),
{
    let ghost base = out@;
    match o {
        ObjRequest::PlaylistList => out.push(0u8),
        ObjRequest::Playlist(id) => {
            out.push(1u8);
            enc_str(id.as_str(), out);
        },
        ObjRequest::Song => out.push(2u8),
        ObjRequest::Client(name) => {
            out.push(3u8);
            enc_str(name.as_str(), out);
        },
        ObjRequest::ClientList => out.push(4u8),
    }
    assert(out@ =~= base + spec_enc_obj(o@));
}

/// Reads an object selector at `pos`; mirrors `spec_dec_obj`.
pub fn dec_obj(buf: &Vec<u8>, pos: usize) -> (r: Option<(ObjRequest, usize)>)
    requires
        pos <= buf@.len(),
    ensures
        match spec_dec_obj(buf@.subrange(pos as int, buf@.len() as int)) {
            Some((o, rest)) => {
                &&& r matches Some((ro, np))
                &&& ro@ == o
                &&& pos <= np <= buf@.len()
                &&& buf@.subrange(np as int, buf@.len() as int) == rest
            },
            None => r is None,
        },
{
    let ghost tail = buf@.subrange(pos as int, buf@.len() as int);
    if pos >= buf.len() {
        return None;
    }
    let t = buf[pos];
    assert(tail[0] == buf@[pos as int]);
    assert(buf@.subrange(pos + 1, buf@.len() as int) =~= tail.subrange(1, tail.len() as int));
    if t == 0 {
        Some((ObjRequest::PlaylistList, pos + 1))
    } else if t == 1 {
        match dec_str(buf, pos + 1) {
            None => None,
            Some((id, np)) => Some((ObjRequest::Playlist(id), np)),
        }
    } else if t == 2 {
        Some((ObjRequest::Song, pos + 1))
    } else if t == 3 {
        match dec_str(buf, pos + 1) {
            None => None,
            Some((name, np)) => Some((ObjRequest::Client(name), np)),
        }
    } else if t == 4 {
        Some((ObjRequest::ClientList, pos + 1))
    } else {
        None
    }
}

// ---------------------------------------------------------------------------
// request operations
// ---------------------------------------------------------------------------

pub open spec fn wf_request_type(t: RequestTypeView) -> bool {
    match t {
        RequestTypeView::GetAll(o) => wf_obj(o),
        RequestTypeView::Error(s) => wf_str(s),
        RequestTypeView::Download(o) => wf_obj(o),
        RequestTypeView::Message(s) => wf_str(s),
        _ => true,
    }
}

pub open spec fn spec_enc_request_type(t: RequestTypeView) -> Seq<u8> {
    match t {
        RequestTypeView::GetAll(o) => seq![0u8] + spec_enc_obj(o),
        RequestTypeView::Error(s) => seq![1u8] + spec_enc_str(s),
        RequestTypeView::SetAttr => seq![2u8],
        RequestTypeView::Add => seq![3u8],
        RequestTypeView::Remove => seq![4u8],
        RequestTypeView::Get(a) => seq![5u8] + spec_enc_attr(a),
        RequestTypeView::Download(o) => seq![6u8] + spec_enc_obj(o),
        RequestTypeView::Message(s) => seq![7u8] + spec_enc_str(s),
    }
}

pub open spec fn spec_dec_request_type(b: Seq<u8>) -> Option<(RequestTypeView, Seq<u8>)> {
    match spec_dec_tag(b) {
        Some((t, rest)) => if t == 0 {
            match spec_dec_obj(rest) {
                Some((o, rest2)) => Some((RequestTypeView::GetAll(o), rest2)),
                None => None,
            }
        } else if t == 1 {
            match spec_dec_str(rest) {
                Some((s, rest2)) => Some((RequestTypeView::Error(s), rest2)),
                None => None,
            }
        } else if t == 2 {
            Some((RequestTypeView::SetAttr, rest))
        } else if t == 3 {
            Some((RequestTypeView::Add, rest))
        } else if t == 4 {
            Some((RequestTypeView::Remove, rest))
        } else if t == 5 {
            match spec_dec_attr(rest) {
                Some((a, rest2)) => Some((RequestTypeView::Get(a), rest2)),
                None => None,
            }
        } else if t == 6 {
            match spec_dec_obj(rest) {
                Some((o, rest2)) => Some((RequestTypeView::Download(o), rest2)),
                None => None,
            }
        } else if t == 7 {
            match spec_dec_str(rest) {
                Some((s, rest2)) => Some((RequestTypeView::Message(s), rest2)),
                None => None,
            }
        } else {
            None
        },
        None => None,
    }
}

pub proof fn lemma_dec_enc_request_type(t: RequestTypeView, rest: Seq<u8>)
    requires
        wf_request_type(t),
    ensures
        spec_dec_request_type(spec_enc_request_type(t) + rest) == Some((t, rest)),
{
    let b = spec_enc_request_type(t) + rest;
    match t {
        RequestTypeView::GetAll(o) => {
            assert(b.subrange(1, b.len() as int) =~= spec_enc_obj(o) + rest);
            lemma_dec_enc_obj(o, rest);
        },
        RequestTypeView::Error(s) => {
            assert(b.subrange(1, b.len() as int) =~= spec_enc_str(s) + rest);
            lemma_dec_enc_str(s, rest);
        },
        RequestTypeView::Get(a) => {
            assert(b.subrange(1, b.len() as int) =~= spec_enc_attr(a) + rest);
            lemma_dec_enc_attr(a, rest);
        },
        RequestTypeView::Download(o) => {
            assert(b.subrange(1, b.len() as int) =~= spec_enc_obj(o) + rest);
            lemma_dec_enc_obj(o, rest);
        },
        RequestTypeView::Message(s) => {
            assert(b.subrange(1, b.len() as int) =~= spec_enc_str(s) + rest);
            lemma_dec_enc_str(s, rest);
        },
        _ => {
            assert(b.subrange(1, b.len() as int) =~= rest);
        },
    }
}

/// Appends the encoding of `t` to `out`.
pub fn enc_request_type(t: &RequestType, out: &mut Vec<u8>)
    ensures
        final(out)@ == old(out)@ + spec_enc_request_type(t@),
{
    let ghost base = out@;
    match t {
        RequestType::GetAll(o) => {
            out.push(0u8);
            enc_obj(o, out);
        },
        RequestType::Error(s) => {
            out.push(1u8);
            enc_str(s.as_str(), out);
        },
        RequestType::SetAttr => out.push(2u8),
        RequestType::Add => out.push(3u8),
        RequestType::Remove => out.push(4u8),
        RequestType::Get(a) => {
            out.push(5u8);
            enc_attr(a, out);
        },
        RequestType::Download(o) => {
            out.push(6u8);
            enc_obj(o, out);
        },
        RequestType::Message(s) => {
            out.push(7u8);
            enc_str(s.as_str(), out);
        },
    }
    assert(out@ =~= base + spec_enc_request_type(t@));
}

/// Reads a request operation at `pos`; mirrors `spec_dec_request_type`.
pub fn dec_request_type(buf: &Vec<u8>, pos: usize) -> (r: Option<(RequestType, usize)>)
    requires
        pos <= buf@.len(),
    ensures
        match spec_dec_request_type(buf@.subrange(pos as int, buf@.len() as int)) {
            Some((t, rest)) => {
                &&& r matches Some((rt, np))
                &&& rt@ == t
                &&& pos <= np <= buf@.len()
                &&& buf@.subrange(np as int, buf@.len() as int) == rest
            },
            None => r is None,
        },
{
    let ghost tail = buf@.subrange(pos as int, buf@.len() as int);
    if pos >= buf.len() {
        return None;
    }
    let t = buf[pos];
    assert(tail[0] == buf@[pos as int]);
    assert(buf@.subrange(pos + 1, buf@.len() as int) =~= tail.subrange(1, tail.len() as int));
    if t == 0 {
        match dec_obj(buf, pos + 1) {
            None => None,
            Some((o, np)) => Some((RequestType::GetAll(o), np)),
        }
    } else if t == 1 {
        match dec_str(buf, pos + 1) {
            None => None,
            Some((s, np)) => Some((RequestType::Error(s), np)),
        }
    } else if t == 2 {
        Some((RequestType::SetAttr, pos + 1))
    } else if t == 3 {
        Some((RequestType::Add, pos + 1))
    } else if t == 4 {
        Some((RequestType::Remove, pos + 1))
    } else if t == 5 {
        match dec_attr(buf, pos + 1) {
            None => None,
            Some((a, np)) => Some((RequestType::Get(a), np)),
        }
    } else if t == 6 {
        match dec_obj(buf, pos + 1) {
            None => None,
            Some((o, np)) => Some((RequestType::Download(o), np)),
        }
    } else if t == 7 {
        match dec_str(buf, pos + 1) {
            None => None,
            Some((s, np)) => Some((RequestType::Message(s), np)),
        }
    } else {
        None
    }
}

// ---------------------------------------------------------------------------
// answer payloads
// ---------------------------------------------------------------------------

pub open spec fn wf_answer_type(t: AnswerTypeView) -> bool {
    match t {
        AnswerTypeView::PlaylistList(l) => wf_playlist_list(l),
        AnswerTypeView::Playlist(p) => wf_playlist(p),
        AnswerTypeView::Songs(p, l) => wf_playlist(p) && wf_song_list(l),
        AnswerTypeView::Song(s) => wf_song(s),
        AnswerTypeView::Client(name) => wf_str(name),
        AnswerTypeView::Message(m) => wf_str(m),
        AnswerTypeView::Error(_) => true,
        AnswerTypeView::DownloadFinish(p) => wf_playlist(p),
        AnswerTypeView::DownloadProgress(p, _, _) => wf_playlist(p),
    }
}

pub open spec fn spec_enc_answer_type(t: AnswerTypeView) -> Seq<u8> {
    match t {
        AnswerTypeView::PlaylistList(l) => seq![0u8] + spec_enc_playlist_list(l),
        AnswerTypeView::Playlist(p) => seq![1u8] + spec_enc_playlist(p),
        AnswerTypeView::Songs(p, l) => seq![2u8] + spec_enc_playlist(p) + spec_enc_song_list(l),
        AnswerTypeView::Song(s) => seq![3u8] + spec_enc_song(s),
        AnswerTypeView::Client(name) => seq![4u8] + spec_enc_str(name),
        AnswerTypeView::Message(m) => seq![5u8] + spec_enc_str(m),
        AnswerTypeView::Error(e) => seq![6u8] + spec_enc_error_type(e),
        AnswerTypeView::DownloadFinish(p) => seq![7u8] + spec_enc_playlist(p),
        AnswerTypeView::DownloadProgress(p, c, tot) => seq![8u8] + spec_enc_playlist(p)
            + spec_enc_u64(c) + spec_enc_u64(tot),
    }
}

pub open spec fn spec_dec_answer_type(b: Seq<u8>) -> Option<(AnswerTypeView, Seq<u8>)> {
    match spec_dec_tag(b) {
        Some((t, rest)) => if t == 0 {
            match spec_dec_playlist_list(rest) {
                Some((l, rest2)) => Some((AnswerTypeView::PlaylistList(l), rest2)),
                None => None,
            }
        } else if t == 1 {
            match spec_dec_playlist(rest) {
                Some((p, rest2)) => Some((AnswerTypeView::Playlist(p), rest2)),
                None => None,
            }
        } else if t == 2 {
            match spec_dec_playlist(rest) {
                Some((p, rest2)) => match spec_dec_song_list(rest2) {
                    Some((l, rest3)) => Some((AnswerTypeView::Songs(p, l), rest3)),
                    None => None,
                },
                None => None,
            }
        } else if t == 3 {
            match spec_dec_song(rest) {
                Some((s, rest2)) => Some((AnswerTypeView::Song(s), rest2)),
                None => None,
            }
        } else if t == 4 {
            match spec_dec_str(rest) {
                Some((name, rest2)) => Some((AnswerTypeView::Client(name), rest2)),
                None => None,
            }
        } else if t == 5 {
            match spec_dec_str(rest) {
                Some((m, rest2)) => Some((AnswerTypeView::Message(m), rest2)),
                None => None,
            }
        } else if t == 6 {
            match spec_dec_error_type(rest) {
                Some((e, rest2)) => Some((AnswerTypeView::Error(e), rest2)),
                None => None,
            }
        } else if t == 7 {
            match spec_dec_playlist(rest) {
                Some((p, rest2)) => Some((AnswerTypeView::DownloadFinish(p), rest2)),
                None => None,
            }
        } else if t == 8 {
            match spec_dec_playlist(rest) {
                Some((p, rest2)) => match spec_dec_u64(rest2) {
                    Some((c, rest3)) => match spec_dec_u64(rest3) {
                        Some((tot, rest4)) => Some(
                            (AnswerTypeView::DownloadProgress(p, c, tot), rest4),
                        ),
                        None => None,
                    },
                    None => None,
                },
                None => None,
            }
        } else {
            None
        },
        None => None,
    }
}

#[verifier::rlimit(100)]
#[verifier::spinoff_prover]
proof fn lemma_dec_enc_at_playlist_list(l: Seq<PlaylistView>, rest: Seq<u8>)
    requires
        wf_playlist_list(l),
    ensures
        spec_dec_answer_type(spec_enc_answer_type(AnswerTypeView::PlaylistList(l)) + rest) == Some(
            (AnswerTypeView::PlaylistList(l), rest),
        ),
{
    let b = spec_enc_answer_type(AnswerTypeView::PlaylistList(l)) + rest;
    let x = spec_enc_playlist_list(l) + rest;
    assert(b.subrange(1, b.len() as int) =~= x);
    assert(spec_dec_tag(b) == Some((0u8, x)));
    lemma_dec_enc_playlist_list(l, rest);
}

#[verifier::rlimit(100)]
#[verifier::spinoff_prover]
proof fn lemma_dec_enc_at_playlist(p: PlaylistView, rest: Seq<u8>)
    requires
        wf_playlist(p),
    ensures
        spec_dec_answer_type(spec_enc_answer_type(AnswerTypeView::Playlist(p)) + rest) == Some(
            (AnswerTypeView::Playlist(p), rest),
        ),
{
    let b = spec_enc_answer_type(AnswerTypeView::Playlist(p)) + rest;
    let x = spec_enc_playlist(p) + rest;
    assert(b.subrange(1, b.len() as int) =~= x);
    assert(spec_dec_tag(b) == Some((1u8, x)));
    lemma_dec_enc_playlist(p, rest);
}

#[verifier::rlimit(100)]
#[verifier::spinoff_prover]
proof fn lemma_dec_enc_at_songs(p: PlaylistView, l: Seq<SongView>, rest: Seq<u8>)
    requires
        wf_playlist(p),
        wf_song_list(l),
    ensures
        spec_dec_answer_type(spec_enc_answer_type(AnswerTypeView::Songs(p, l)) + rest) == Some(
            (AnswerTypeView::Songs(p, l), rest),
        ),
{
    let b = spec_enc_answer_type(AnswerTypeView::Songs(p, l)) + rest;
    let y = spec_enc_song_list(l) + rest;
    let x = spec_enc_playlist(p) + y;
    assert(b.subrange(1, b.len() as int) =~= x);
    assert(spec_dec_tag(b) == Some((2u8, x)));
    lemma_dec_enc_playlist(p, y);
    assert(spec_dec_playlist(x) == Some((p, y)));
    lemma_dec_enc_song_list(l, rest);
    assert(spec_dec_song_list(y) == Some((l, rest)));
}

#[verifier::rlimit(100)]
#[verifier::spinoff_prover]
proof fn lemma_dec_enc_at_song(sv: SongView, rest: Seq<u8>)
    requires
        wf_song(sv),
    ensures
        spec_dec_answer_type(spec_enc_answer_type(AnswerTypeView::Song(sv)) + rest) == Some(
            (AnswerTypeView::Song(sv), rest),
        ),
{
    let b = spec_enc_answer_type(AnswerTypeView::Song(sv)) + rest;
    let x = spec_enc_song(sv) + rest;
    assert(b.subrange(1, b.len() as int) =~= x);
    assert(spec_dec_tag(b) == Some((3u8, x)));
    lemma_dec_enc_song(sv, rest);
}

#[verifier::rlimit(100)]
#[verifier::spinoff_prover]
proof fn lemma_dec_enc_at_client(name: Seq<char>, rest: Seq<u8>)
    requires
        wf_str(name),
    ensures
        spec_dec_answer_type(spec_enc_answer_type(AnswerTypeView::Client(name)) + rest) == Some(
            (AnswerTypeView::Client(name), rest),
        ),
{
    let b = spec_enc_answer_type(AnswerTypeView::Client(name)) + rest;
    let x = spec_enc_str(name) + rest;
    assert(b.subrange(1, b.len() as int) =~= x);
    assert(spec_dec_tag(b) == Some((4u8, x)));
    lemma_dec_enc_str(name, rest);
}

#[verifier::rlimit(100)]
#[verifier::spinoff_prover]
proof fn lemma_dec_enc_at_message(m: Seq<char>, rest: Seq<u8>)
    requires
        wf_str(m),
    ensures
        spec_dec_answer_type(spec_enc_answer_type(AnswerTypeView::Message(m)) + rest) == Some(
            (AnswerTypeView::Message(m), rest),
        ),
{
    let b = spec_enc_answer_type(AnswerTypeView::Message(m)) + rest;
    let x = spec_enc_str(m) + rest;
    assert(b.subrange(1, b.len() as int) =~= x);
    assert(spec_dec_tag(b) == Some((5u8, x)));
    lemma_dec_enc_str(m, rest);
}

#[verifier::rlimit(100)]
#[verifier::spinoff_prover]
proof fn lemma_dec_enc_at_error(e: ErrorType, rest: Seq<u8>)
    ensures
        spec_dec_answer_type(spec_enc_answer_type(AnswerTypeView::Error(e)) + rest) == Some(
            (AnswerTypeView::Error(e), rest),
        ),
{
    let b = spec_enc_answer_type(AnswerTypeView::Error(e)) + rest;
    let x = spec_enc_error_type(e) + rest;
    assert(b.subrange(1, b.len() as int) =~= x);
    assert(spec_dec_tag(b) == Some((6u8, x)));
    lemma_dec_enc_error_type(e, rest);
}

#[verifier::rlimit(100)]
#[verifier::spinoff_prover]
proof fn lemma_dec_enc_at_download_finish(p: PlaylistView, rest: Seq<u8>)
    requires
        wf_playlist(p),
    ensures
        spec_dec_answer_type(spec_enc_answer_type(AnswerTypeView::DownloadFinish(p)) + rest)
            == Some((AnswerTypeView::DownloadFinish(p), rest)),
{
    let b = spec_enc_answer_type(AnswerTypeView::DownloadFinish(p)) + rest;
    let x = spec_enc_playlist(p) + rest;
    assert(b.subrange(1, b.len() as int) =~= x);
    assert(spec_dec_tag(b) == Some((7u8, x)));
    lemma_dec_enc_playlist(p, rest);
}

#[verifier::rlimit(100)]
#[verifier::spinoff_prover]
proof fn lemma_dec_enc_at_download_progress(p: PlaylistView, c: u64, tot: u64, rest: Seq<u8>)
    requires
        wf_playlist(p),
    ensures
        spec_dec_answer_type(
            spec_enc_answer_type(AnswerTypeView::DownloadProgress(p, c, tot)) + rest,
        ) == Some((AnswerTypeView::DownloadProgress(p, c, tot), rest)),
{
    let b = spec_enc_answer_type(AnswerTypeView::DownloadProgress(p, c, tot)) + rest;
    let z = spec_enc_u64(tot) + rest;
    let y = spec_enc_u64(c) + z;
    let x = spec_enc_playlist(p) + y;
    assert(b.subrange(1, b.len() as int) =~= x);
    assert(spec_dec_tag(b) == Some((8u8, x)));
    lemma_dec_enc_playlist(p, y);
    assert(spec_dec_playlist(x) == Some((p, y)));
    lemma_dec_enc_u64(c, z);
    assert(spec_dec_u64(y) == Some((c, z)));
    lemma_dec_enc_u64(tot, rest);
    assert(spec_dec_u64(z) == Some((tot, rest)));
}

pub proof fn lemma_dec_enc_answer_type(t: AnswerTypeView, rest: Seq<u8>)
    requires
        wf_answer_type(t),
    ensures
        spec_dec_answer_type(spec_enc_answer_type(t) + rest) == Some((t, rest)),
{
    match t {
        AnswerTypeView::PlaylistList(l) => lemma_dec_enc_at_playlist_list(l, rest),
        AnswerTypeView::Playlist(p) => lemma_dec_enc_at_playlist(p, rest),
        AnswerTypeView::Songs(p, l) => lemma_dec_enc_at_songs(p, l, rest),
        AnswerTypeView::Song(sv) => lemma_dec_enc_at_song(sv, rest),
        AnswerTypeView::Client(name) => lemma_dec_enc_at_client(name, rest),
        AnswerTypeView::Message(m) => lemma_dec_enc_at_message(m, rest),
        AnswerTypeView::Error(e) => lemma_dec_enc_at_error(e, rest),
        AnswerTypeView::DownloadFinish(p) => lemma_dec_enc_at_download_finish(p, rest),
        AnswerTypeView::DownloadProgress(p, c, tot) => lemma_dec_enc_at_download_progress(
            p,
            c,
            tot,
            rest,
        ),
    }
}

/// Appends the encoding of `t` to `out`.
pub fn enc_answer_type(t: &AnswerType, out: &mut Vec<u8>)
    ensures
        final(out)@ == old(out)@ + spec_enc_answer_type(t@),
{
    let ghost base = out@;
    match t {
        AnswerType::PlaylistList(l) => {
            out.push(0u8);
            enc_playlist_vec(l, out);
        },
        AnswerType::Playlist(p) => {
            out.push(1u8);
            enc_playlist(p, out);
        },
        AnswerType::Songs(p, l) => {
            out.push(2u8);
            enc_playlist(p, out);
            enc_song_vec(l, out);
        },
        AnswerType::Song(s) => {
            out.push(3u8);
            enc_song(s, out);
        },
        AnswerType::Client(name) => {
            out.push(4u8);
            enc_str(name.as_str(), out);
        },
        AnswerType::Message(m) => {
            out.push(5u8);
            enc_str(m.as_str(), out);
        },
        AnswerType::Error(e) => {
            out.push(6u8);
            enc_error_type(e, out);
        },
        AnswerType::DownloadFinish(p) => {
            out.push(7u8);
            enc_playlist(p, out);
        },
        AnswerType::DownloadProgress(p, c, tot) => {
            out.push(8u8);
            enc_playlist(p, out);
            enc_u64(*c, out);
            enc_u64(*tot, out);
        },
    }
    assert(out@ =~= base + spec_enc_answer_type(t@));
}

/// Reads an answer payload at `pos`; mirrors `spec_dec_answer_type`.
#[verifier::rlimit(50)]
pub fn dec_answer_type(buf: &Vec<u8>, pos: usize) -> (r: Option<(AnswerType, usize)>)
    requires
        pos <= buf@.len(),
    ensures
        match spec_dec_answer_type(buf@.subrange(pos as int, buf@.len() as int)) {
            Some((t, rest)) => {
                &&& r matches Some((rt, np))
                &&& rt@ == t
                &&& pos <= np <= buf@.len()
                &&& buf@.subrange(np as int, buf@.len() as int) == rest
            },
            None => r is None,
        },
{
    let ghost tail = buf@.subrange(pos as int, buf@.len() as int);
    if pos >= buf.len() {
        return None;
    }
    let t = buf[pos];
    assert(tail[0] == buf@[pos as int]);
    assert(buf@.subrange(pos + 1, buf@.len() as int) =~= tail.subrange(1, tail.len() as int));
    if t == 0 {
        match dec_playlist_vec(buf, pos + 1) {
            None => None,
            Some((l, np)) => Some((AnswerType::PlaylistList(l), np)),
        }
    } else if t == 1 {
        match dec_playlist(buf, pos + 1) {
            None => None,
            Some((p, np)) => Some((AnswerType::Playlist(p), np)),
        }
    } else if t == 2 {
        match dec_playlist(buf, pos + 1) {
            None => None,
            Some((p, np)) => match dec_song_vec(buf, np) {
                None => None,
                Some((l, np2)) => Some((AnswerType::Songs(p, l), np2)),
            },
        }
    } else if t == 3 {
        match dec_song(buf, pos + 1) {
            None => None,
            Some((s, np)) => Some((AnswerType::Song(s), np)),
        }
    } else if t == 4 {
        match dec_str(buf, pos + 1) {
            None => None,
            Some((name, np)) => Some((AnswerType::Client(name), np)),
        }
    } else if t == 5 {
        match dec_str(buf, pos + 1) {
            None => None,
            Some((m, np)) => Some((AnswerType::Message(m), np)),
        }
    } else if t == 6 {
        match dec_error_type(buf, pos + 1) {
            None => None,
            Some((e, np)) => Some((AnswerType::Error(e), np)),
        }
    } else if t == 7 {
        match dec_playlist(buf, pos + 1) {
            None => None,
            Some((p, np)) => Some((AnswerType::DownloadFinish(p), np)),
        }
    } else if t == 8 {
        match dec_playlist(buf, pos + 1) {
            None => None,
            Some((p, np)) => match dec_u64(buf, np) {
                None => None,
                Some((c, np2)) => match dec_u64(buf, np2) {
                    None => None,
                    Some((tot, np3)) => Some((AnswerType::DownloadProgress(p, c, tot), np3)),
                },
            },
        }
    } else {
        None
    }
}

// ---------------------------------------------------------------------------
// envelopes and whole messages
// ---------------------------------------------------------------------------

pub open spec fn wf_request(m: RequestView) -> bool {
    wf_str(m.client) && wf_request_type(m.ty)
}

pub open spec fn wf_answer(m: AnswerView) -> bool {
    wf_str(m.client) && wf_answer_type(m.data)
}

/// A request is sent as its addressee, then its operation.
pub open spec fn spec_enc_request(m: RequestView) -> Seq<u8> {
    spec_enc_str(m.client) + spec_enc_request_type(m.ty)
}

/// An answer is sent as the name of the source that produced it, then its
/// payload.
pub open spec fn spec_enc_answer(m: AnswerView) -> Seq<u8> {
    spec_enc_str(m.client) + spec_enc_answer_type(m.data)
}

pub open spec fn spec_dec_request(b: Seq<u8>) -> Option<(RequestView, Seq<u8>)> {
    match spec_dec_str(b) {
        Some((client, b1)) => match spec_dec_request_type(b1) {
            Some((ty, b2)) => Some((RequestView { client, ty }, b2)),
            None => None,
        },
        None => None,
    }
}

pub open spec fn spec_dec_answer(b: Seq<u8>) -> Option<(AnswerView, Seq<u8>)> {
    match spec_dec_str(b) {
        Some((client, b1)) => match spec_dec_answer_type(b1) {
            Some((data, b2)) => Some((AnswerView { client, data }, b2)),
            None => None,
        },
        None => None,
    }
}

/// Parses one whole message payload: trailing bytes are a parse error, never
/// silently dropped.
pub open spec fn spec_parse_request(b: Seq<u8>) -> Option<RequestView> {
    match spec_dec_request(b) {
        Some((m, rest)) => if rest.len() == 0 {
            Some(m)
        } else {
            None
        },
        None => None,
    }
}

/// Parses one whole answer payload; trailing bytes are a parse error.
pub open spec fn spec_parse_answer(b: Seq<u8>) -> Option<AnswerView> {
    match spec_dec_answer(b) {
        Some((m, rest)) => if rest.len() == 0 {
            Some(m)
        } else {
            None
        },
        None => None,
    }
}

pub proof fn lemma_dec_enc_request(m: RequestView, rest: Seq<u8>)
    requires
        wf_request(m),
    ensures
        spec_dec_request(spec_enc_request(m) + rest) == Some((m, rest)),
{
    let x = spec_enc_request_type(m.ty) + rest;
    assert(spec_enc_request(m) + rest =~= spec_enc_str(m.client) + x);
    lemma_dec_enc_str(m.client, x);
    lemma_dec_enc_request_type(m.ty, rest);
}

pub proof fn lemma_dec_enc_answer(m: AnswerView, rest: Seq<u8>)
    requires
        wf_answer(m),
    ensures
        spec_dec_answer(spec_enc_answer(m) + rest) == Some((m, rest)),
{
    let x = spec_enc_answer_type(m.data) + rest;
    assert(spec_enc_answer(m) + rest =~= spec_enc_str(m.client) + x);
    lemma_dec_enc_str(m.client, x);
    lemma_dec_enc_answer_type(m.data, rest);
}

/// Round-trip law for requests: parsing an encoded request gives the request
/// back, for every well-formed request value — empty strings, empty lists and
/// every operation included.
pub proof fn lemma_request_round_trip(m: RequestView)
    requires
        wf_request(m),
    ensures
        spec_parse_request(spec_enc_request(m)) == Some(m),
{
    lemma_dec_enc_request(m, Seq::empty());
    assert(spec_enc_request(m) + Seq::<u8>::empty() =~= spec_enc_request(m));
}

/// Round-trip law for answers: parsing an encoded answer gives the answer
/// back, for every well-formed answer value — empty song lists, zero
/// durations and every payload kind included.
pub proof fn lemma_answer_round_trip(m: AnswerView)
    requires
        wf_answer(m),
    ensures
        spec_parse_answer(spec_enc_answer(m)) == Some(m),
{
    lemma_dec_enc_answer(m, Seq::empty());
    assert(spec_enc_answer(m) + Seq::<u8>::empty() =~= spec_enc_answer(m));
}

/// Encodes a request for the wire.
pub fn encode_request(r: &Request) -> (out: Vec<u8>)
    ensures
        out@ == spec_enc_request(r@),
{
    let mut out: Vec<u8> = Vec::new();
    enc_str(r.client.as_str(), &mut out);
    enc_request_type(&r.ty, &mut out);
    assert(out@ =~= spec_enc_request(r@));
    out
}

/// Encodes an answer for the wire.
pub fn encode_answer(a: &Answer) -> (out: Vec<u8>)
    ensures
        out@ == spec_enc_answer(a@),
{
    let mut out: Vec<u8> = Vec::new();
    enc_str(a.client.as_str(), &mut out);
    enc_answer_type(&a.data, &mut out);
    assert(out@ =~= spec_enc_answer(a@));
    out
}

/// Parses one inbound request payload. A malformed payload — truncated bytes,
/// an unknown tag, or trailing bytes — is a parse error: the caller logs it,
/// drops the message and keeps the connection.
pub fn handle_request(payload: &Vec<u8>) -> (r: RequestResult<Request>)
    ensures
        match spec_parse_request(payload@) {
            Some(m) => r matches Ok(req) && req@ == m,
            None => r matches Err(RequestError::ParseErr),
        },
{
    assert(payload@.subrange(0, payload@.len() as int) =~= payload@);
    match dec_request_inner(payload) {
        None => Err(RequestError::ParseErr),
        Some((req, np)) => {
            if np == payload.len() {
                Ok(req)
            } else {
                Err(RequestError::ParseErr)
            }
        },
    }
}

/// Parses one inbound answer payload, under the same rules as
/// `handle_request`.
pub fn get_answer(payload: &Vec<u8>) -> (r: RequestResult<Answer>)
    ensures
        match spec_parse_answer(payload@) {
            Some(m) => r matches Ok(ans) && ans@ == m,
            None => r matches Err(RequestError::ParseErr),
        },
{
    assert(payload@.subrange(0, payload@.len() as int) =~= payload@);
    match dec_answer_inner(payload) {
        None => Err(RequestError::ParseErr),
        Some((ans, np)) => {
            if np == payload.len() {
                Ok(ans)
            } else {
                Err(RequestError::ParseErr)
            }
        },
    }
}

/// Reads a request envelope from the start of `buf`.
fn dec_request_inner(buf: &Vec<u8>) -> (r: Option<(Request, usize)>)
    ensures
        match spec_dec_request(buf@) {
            Some((m, rest)) => {
                &&& r matches Some((rq, np))
                &&& rq@ == m
                &&& np <= buf@.len()
                &&& buf@.subrange(np as int, buf@.len() as int) == rest
            },
            None => r is None,
        },
{
    assert(buf@.subrange(0, buf@.len() as int) =~= buf@);
    let (client, p1) = match dec_str(buf, 0) {
        None => {
            return None;
        },
        Some(x) => x,
    };
    let (ty, p2) = match dec_request_type(buf, p1) {
        None => {
            return None;
        },
        Some(x) => x,
    };
    Some((Request { client, ty }, p2))
}

/// Reads an answer envelope from the start of `buf`.
fn dec_answer_inner(buf: &Vec<u8>) -> (r: Option<(Answer, usize)>)
    ensures
        match spec_dec_answer(buf@) {
            Some((m, rest)) => {
                &&& r matches Some((ra, np))
                &&& ra@ == m
                &&& np <= buf@.len()
                &&& buf@.subrange(np as int, buf@.len() as int) == rest
            },
            None => r is None,
        },
{
    assert(buf@.subrange(0, buf@.len() as int) =~= buf@);
    let (client, p1) = match dec_str(buf, 0) {
        None => {
            return None;
        },
        Some(x) => x,
    };
    let (data, p2) = match dec_answer_type(buf, p1) {
        None => {
            return None;
        },
        Some(x) => x,
    };
    Some((Answer { client, data }, p2))
}

} // verus!
