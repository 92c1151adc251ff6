//! The download orchestrator: one job per Download request, counting
//! completed units and emitting a progress answer for each, then exactly one
//! finish answer once every unit has resolved. A failed unit is excluded
//! from the persisted update and never aborts its siblings; the next
//! user-initiated download retries it, since its flag was never set.

use vstd::prelude::*;

use crate::request::{Answer, AnswerType};
use crate::source_types::{Playlist, PlaylistView, Song, SongView};

verus! {

/// What can go wrong while downloading one song.
#[derive(Clone, Copy, Debug, PartialEq, Eq, Structural)]
pub enum UtilsError {
    YtDLErr,
}

pub type UtilsResult<T> = Result<T, UtilsError>;

/// The songs of the successful outcomes, in completion order.
pub open spec fn spec_ok_songs(outs: Seq<UtilsResult<Song>>) -> Seq<SongView>
    decreases outs.len(),
{
    if outs.len() == 0 {
        Seq::empty()
    } else {
        spec_ok_songs(outs.drop_last()) + (match outs.last() {
            Ok(s) => seq![s@],
            Err(e) => Seq::empty(),
        })
    }
}

/// One in-flight download job over the songs of one playlist.
pub struct DownloadJob {
    /// The source name under which progress answers are sent.
    pub client: String,
    /// The playlist being downloaded.
    pub playlist: Playlist,
    /// How many units have resolved, successfully or not.
    pub completed: u64,
    /// How many units the job has in total.
    pub total: u64,
    /// The successfully downloaded songs, carrying their new locators.
    pub succeeded: Vec<Song>,
}

/// Mathematical image of a `DownloadJob`.
pub struct DownloadJobView {
    pub client: Seq<char>,
    pub playlist: PlaylistView,
    pub completed: u64,
    pub total: u64,
    pub succeeded: Seq<SongView>,
}

impl View for DownloadJob {
    type V = DownloadJobView;

    open spec fn view(&self) -> DownloadJobView {
        DownloadJobView {
            client: self.client@,
            playlist: self.playlist@,
            completed: self.completed,
            total: self.total,
            succeeded: self.succeeded.deep_view(),
        }
    }
}

impl DownloadJob {
    /// The counter never passes the total, and successes never outnumber
    /// completions.
    pub open spec fn wf(&self) -> bool {
        &&& self@.completed <= self@.total
        &&& self@.succeeded.len() <= self@.completed
    }

    /// A job over `pending` songs — the subset that still needs downloading,
    /// as `remove_downloaded` filtered it.
    pub fn new(client: String, playlist: Playlist, pending: &Vec<Song>) -> (job: DownloadJob)
        ensures
            job.wf(),
            job@.client == client@,
            job@.playlist == playlist@,
            job@.completed == 0,
            job@.total == pending@.len(),
            job@.succeeded == Seq::<SongView>::empty(),
    {
        let job = DownloadJob {
            client,
            playlist,
            completed: 0,
            total: pending.len() as u64,
            succeeded: Vec::new(),
        };
        assert(job@.succeeded =~= Seq::<SongView>::empty());
        job
    }

    /// True once every unit has resolved.
    pub fn is_done(&self) -> (r: bool)
        ensures
            r == (self@.completed == self@.total),
    {
        self.completed == self.total
    }

    /// Records one resolved unit and hands back the progress answer to emit
    /// at once: the counter rises by exactly one — monotonically, never past
    /// the total — and only a success joins the persisted set; a failure is
    /// only visible through the lower final success count.
    pub fn record_completion(&mut self, outcome: UtilsResult<Song>) -> (a: Answer)
        requires
            old(self).wf(),
            old(self)@.completed < old(self)@.total,
        ensures
            final(self).wf(),
            final(self)@.client == old(self)@.client,
            final(self)@.playlist == old(self)@.playlist,
            final(self)@.total == old(self)@.total,
            final(self)@.completed == old(self)@.completed + 1,
            final(self)@.succeeded == old(self)@.succeeded + (match outcome {
                Ok(s) => seq![s@],
                Err(e) => Seq::<SongView>::empty(),
            }),
            a@.client == old(self)@.client,
            a@.data == crate::request::AnswerTypeView::DownloadProgress(
                old(self)@.playlist,
                (old(self)@.completed + 1) as u64,
                old(self)@.total,
            ),
    {
        let ghost pre = self@.succeeded;
        self.completed = self.completed + 1;
        match outcome {
            Ok(s) => {
                let ghost sv = s@;
                self.succeeded.push(s);
                assert(self@.succeeded =~= pre + seq![sv]);
            },
            Err(e) => {
                assert(self@.succeeded =~= pre + Seq::<SongView>::empty());
            },
        }
        Answer::new(
            self.client.clone(),
            AnswerType::DownloadProgress(self.playlist.clone(), self.completed, self.total),
        )
    }

    /// The terminal answer, emitted exactly once after all units drained,
    /// regardless of individual failures: the job never reports overall
    /// failure.
    pub fn finish(&self) -> (a: Answer)
        requires
            self@.completed == self@.total,
        ensures
            a@.client == self@.client,
            a@.data == crate::request::AnswerTypeView::DownloadFinish(self@.playlist),
    {
        Answer::new(self.client.clone(), AnswerType::DownloadFinish(self.playlist.clone()))
    }
}

/// Drains one job against the given unit outcomes: over `N` songs it emits
/// exactly `N` progress answers whose completed counts rise strictly from 1
/// to `N`, then exactly one finish answer; the job ends holding exactly the
/// successful songs, in completion order, ready to be persisted.
pub fn drain_job(job: &mut DownloadJob, outcomes: Vec<UtilsResult<Song>>) -> (answers: Vec<Answer>)
    requires
        old(job).wf(),
        old(job)@.completed == 0,
        old(job)@.succeeded == Seq::<SongView>::empty(),
        outcomes@.len() == old(job)@.total,
    ensures
        final(job).wf(),
        final(job)@.client == old(job)@.client,
        final(job)@.playlist == old(job)@.playlist,
        final(job)@.completed == final(job)@.total == old(job)@.total,
        final(job)@.succeeded == spec_ok_songs(outcomes@),
        answers@.len() == old(job)@.total + 1,
        forall|i: int|
            0 <= i < old(job)@.total ==> (#[trigger] answers@[i])@.client == old(job)@.client
                && answers@[i]@.data == crate::request::AnswerTypeView::DownloadProgress(
                old(job)@.playlist,
                (i + 1) as u64,
                old(job)@.total,
            ),
        answers@[old(job)@.total as int]@.client == old(job)@.client,
        answers@[old(job)@.total as int]@.data == crate::request::AnswerTypeView::DownloadFinish(
            old(job)@.playlist,
        ),
{
    let mut answers: Vec<Answer> = Vec::new();
    let mut outs = outcomes;
    let total = job.total;
    let outs_len = outs.len();
    let mut i: usize = 0;
    let ghost outsv = outs@;
    assert(spec_ok_songs(outsv.take(0)) =~= Seq::<SongView>::empty());
    assert(outs@ =~= outsv.subrange(0, outsv.len() as int));
    while i < outs_len
        invariant
            job.wf(),
            i <= outsv.len(),
            outs@ == outsv.subrange(i as int, outsv.len() as int),
            outsv.len() == outs_len == total == job@.total,
            job@.client == old(job)@.client,
            job@.playlist == old(job)@.playlist,
            job@.completed == i,
            job@.succeeded == spec_ok_songs(outsv.take(i as int)),
            answers@.len() == i,
            forall|k: int|
                0 <= k < i ==> (#[trigger] answers@[k])@.client == old(job)@.client
                    && answers@[k]@.data == crate::request::AnswerTypeView::DownloadProgress(
                    old(job)@.playlist,
                    (k + 1) as u64,
                    total,
                ),
        decreases outs_len - i,
    {
        let ghost pre = outs@;
        let outcome = outs.remove(0);
        proof {
            assert(outcome == outsv[i as int]);
            assert(outs@ =~= outsv.subrange(i + 1, outsv.len() as int));
            assert(outsv.take(i + 1).drop_last() =~= outsv.take(i as int));
            assert(outsv.take(i + 1).last() == outsv[i as int]);
        }
        let a = job.record_completion(outcome);
        answers.push(a);
        i = i + 1;
    }
    assert(outsv.take(outsv.len() as int) =~= outsv);
    let fin = job.finish();
    answers.push(fin);
    answers
}

// ---------------------------------------------------------------------------
// duration parsing: the `PnYnMnDTnHnMnS` shape reported by remote catalogs
// ---------------------------------------------------------------------------

pub open spec fn spec_is_digit(c: char) -> bool {
    48 <= c as u32 && c as u32 <= 57
}

/// Length of the digit run starting at `i`.
pub open spec fn spec_run_len(s: Seq<char>, i: int) -> nat
    decreases s.len() - i,
{
    if !(0 <= i < s.len()) || !spec_is_digit(s[i]) {
        0
    } else {
        1 + spec_run_len(s, i + 1)
    }
}

/// Numeric value of the digits `s[i .. j]`.
pub open spec fn spec_digits_val(s: Seq<char>, i: int, j: int) -> nat
    decreases j - i,
{
    if j <= i {
        0
    } else {
        spec_digits_val(s, i, j - 1) * 10 + (if s[j - 1] as u32 >= 48 {
            (s[j - 1] as u32 - 48) as nat
        } else {
            0
        })
    }
}

/// One optional group `<digits><suffix>` at `i`: its value and the position
/// after it, or zero and `i` unchanged when the group is absent. A value too
/// large for its integer type parses as zero, as a failed parse falls back
/// to the default.
pub open spec fn spec_group(s: Seq<char>, i: int, suffix: char) -> (nat, int) {
    let k = spec_run_len(s, i) as int;
    if k > 0 && i + k < s.len() && s[i + k] == suffix {
        let v = spec_digits_val(s, i, i + k);
        ((if v > u64::MAX { 0 } else { v }), i + k + 1)
    } else {
        (0, i)
    }
}

/// Seconds of the date part `nY nM nD` read at `i`, counting 365 days to the
/// year and 30 to the month.
pub open spec fn spec_ymd_secs(s: Seq<char>, i: int) -> nat {
    let (y, i1) = spec_group(s, i, 'Y');
    let (mo, i2) = spec_group(s, i1, 'M');
    let (d, i3) = spec_group(s, i2, 'D');
    365 * 86400 * y + 30 * 86400 * mo + 86400 * d
}

/// Seconds of the time part `nH nM nS` read at `i`, accepted only when it
/// reaches the end of the string.
pub open spec fn spec_hms_at(s: Seq<char>, i: int) -> Option<nat> {
    let (h, i1) = spec_group(s, i, 'H');
    let (m, i2) = spec_group(s, i1, 'M');
    let (sec, i3) = spec_group(s, i2, 'S');
    if i3 == s.len() {
        Some(3600 * h + 60 * m + sec)
    } else {
        None
    }
}

/// The time part after the leftmost `T` from which it reads to the end.
pub open spec fn spec_first_t(s: Seq<char>, i: int) -> Option<nat>
    decreases s.len() - i,
{
    if !(0 <= i < s.len()) {
        None
    } else if s[i] == 'T' && spec_hms_at(s, i + 1) is Some {
        spec_hms_at(s, i + 1)
    } else {
        spec_first_t(s, i + 1)
    }
}

/// The string opens the date shape: a `P` with anything after it.
pub open spec fn spec_has_date_shape(s: Seq<char>) -> bool {
    s.len() >= 2 && s[0] == 'P'
}

/// The string opens the time shape: a `P`, then somewhere a `T` with at
/// least one character after it.
pub open spec fn spec_has_time_shape(s: Seq<char>) -> bool {
    s.len() >= 3 && s[0] == 'P' && (exists|i: int| 1 <= i && i + 1 < s.len() && s[i] == 'T')
}

/// Total seconds the duration string denotes: its date part when it has the
/// date shape, plus its time part when it has the time shape.
pub open spec fn spec_duration_secs(s: Seq<char>) -> nat {
    (if spec_has_date_shape(s) {
        spec_ymd_secs(s, 1)
    } else {
        0
    }) + (if spec_has_time_shape(s) {
        spec_first_t(s, 0)->Some_0
    } else {
        0
    })
}

/// Clamps a mathematical count of seconds into a `u64`.
pub open spec fn spec_saturate_u64(n: nat) -> u64 {
    if n > u64::MAX {
        u64::MAX
    } else {
        n as u64
    }
}

/// The characters of `s`, as a vector.
fn str_chars(s: &str) -> (r: Vec<char>)
    ensures
        r@ == s@,
{
    let len = s.unicode_len();
    let mut r: Vec<char> = Vec::new();
    let mut i: usize = 0;
    while i < len
        invariant
            len == s@.len(),
            i <= len,
            r@ == s@.take(i as int),
        decreases len - i,
    {
        r.push(s.get_char(i));
        assert(r@ =~= s@.take(i + 1));
        i = i + 1;
    }
    assert(s@.take(len as int) =~= s@);
    r
}

/// Reads one optional `<digits><suffix>` group at `i`.
fn take_group(cv: &Vec<char>, i: usize, suffix: char) -> (r: (u64, usize))
    requires
        i <= cv@.len(),
    ensures
        r.0 as nat == spec_group(cv@, i as int, suffix).0,
        r.1 as int == spec_group(cv@, i as int, suffix).1,
        i <= r.1 <= cv@.len(),
{
    let ghost s = cv@;
    let len = cv.len();
    let mut j: usize = i;
    while j < len && (cv[j] as u32) >= 48 && (cv[j] as u32) <= 57
        invariant
            i <= j <= len,
            len == s.len(),
            s == cv@,
            spec_run_len(s, i as int) == (j - i) + spec_run_len(s, j as int),
            forall|q: int| i <= q < j ==> spec_is_digit(#[trigger] s[q]),
        decreases len - j,
    {
        j = j + 1;
    }
    assert(spec_run_len(s, j as int) == 0);
    let k = j - i;
    if k > 0 && j < len && cv[j] == suffix {
        let mut acc: u64 = 0;
        let mut over: bool = false;
        let mut p: usize = i;
        while p < j
            invariant
                i <= p <= j <= len,
                len == s.len(),
                s == cv@,
                !over ==> acc as nat == spec_digits_val(s, i as int, p as int),
                over ==> spec_digits_val(s, i as int, p as int) > u64::MAX,
                spec_run_len(s, i as int) == (j - i) + spec_run_len(s, j as int),
                forall|q: int| i <= q < j ==> spec_is_digit(#[trigger] s[q]),
            decreases j - p,
        {
            let c = cv[p];
            assert(spec_is_digit(s[p as int]));
            let d: u64 = (c as u32 as u64) - 48;
            proof {
                let prev = spec_digits_val(s, i as int, p as int);
                assert(spec_digits_val(s, i as int, p + 1) == prev * 10 + d);
                if over {
                    assert(prev * 10 >= prev);
                }
            }
            if over {
            } else if acc > 1844674407370955161u64 || (acc == 1844674407370955161u64 && d > 5) {
                over = true;
            } else {
                acc = acc * 10 + d;
            }
            p = p + 1;
        }
        let g = if over {
            0
        } else {
            acc
        };
        (g, j + 1)
    } else {
        proof {
            if k == 0 {
                assert(spec_run_len(s, i as int) == 0);
            }
        }
        (0, i)
    }
}

/// Reads the time part at `i`, accepted only when it consumes the rest of
/// the string; seconds are summed exactly, in a wide intermediate.
fn try_hms(cv: &Vec<char>, i: usize) -> (r: Option<u128>)
    requires
        i <= cv@.len(),
    ensures
        match spec_hms_at(cv@, i as int) {
            Some(n) => r matches Some(v) && v as nat == n && v <= 3661u128
                * 18446744073709551615u128,
            None => r is None,
        },
{
    let (h, i1) = take_group(cv, i, 'H');
    let (m, i2) = take_group(cv, i1, 'M');
    let (sec, i3) = take_group(cv, i2, 'S');
    if i3 == cv.len() {
        let v: u128 = 3600u128 * (h as u128) + 60u128 * (m as u128) + (sec as u128);
        Some(v)
    } else {
        None
    }
}

/// Parses a catalog duration string into whole seconds, clamped to `u64`.
/// A string whose time part opens (`P...T...`) but never closes into the
/// `nH nM nS` shape is malformed and excluded here; `try_parse_duration`
/// reports it instead of assuming it away.
pub fn parse_duration(s: &str) -> (r: u64)
    requires
        spec_has_time_shape(s@) ==> spec_first_t(s@, 0) is Some,
    ensures
        r == spec_saturate_u64(spec_duration_secs(s@)),
{
    let cv = str_chars(s);
    let ghost sv = s@;
    let len = cv.len();
    let date_shape = len >= 2 && cv[0] == 'P';
    let long: u128 = if date_shape {
        let (y, i1) = take_group(&cv, 1, 'Y');
        let (mo, i2) = take_group(&cv, i1, 'M');
        let (d, i3) = take_group(&cv, i2, 'D');
        31536000u128 * (y as u128) + 2592000u128 * (mo as u128) + 86400u128 * (d as u128)
    } else {
        0
    };
    assert(long as nat == if spec_has_date_shape(sv) {
        spec_ymd_secs(sv, 1)
    } else {
        0
    });
    let mut has_t: bool = false;
    let mut i: usize = 1;
    if len >= 3 && cv[0] == 'P' {
        while i + 1 < len
            invariant
                1 <= i,
                i + 1 <= len,
                len == sv.len(),
                len >= 3,
                sv[0] == 'P',
                cv@ == sv,
                has_t == (exists|q: int| 1 <= q < i && sv[q] == 'T'),
            decreases len - i,
        {
            if cv[i] == 'T' {
                has_t = true;
            }
            i = i + 1;
        }
        assert(has_t == spec_has_time_shape(sv));
    } else {
        assert(!spec_has_time_shape(sv));
    }
    let time_shape = has_t;
    let short: u128 = if time_shape {
        let mut j: usize = 0;
        let mut found: Option<u128> = None;
        while j < len && found.is_none()
            invariant
                j <= len,
                len == sv.len(),
                cv@ == sv,
                found is None ==> spec_first_t(sv, 0) == spec_first_t(sv, j as int),
                found matches Some(v) ==> (spec_first_t(sv, 0) matches Some(n) && v as nat == n
                    && v <= 3661u128 * 18446744073709551615u128),
            decreases len - j,
        {
            if cv[j] == 'T' {
                match try_hms(&cv, j + 1) {
                    Some(v) => {
                        found = Some(v);
                    },
                    None => {},
                }
            }
            j = j + 1;
        }
        match found {
            Some(v) => v,
            None => {
                assert(spec_first_t(sv, len as int) is None);
                assert(false);
                0
            },
        }
    } else {
        0
    };
    assert(short as nat == if spec_has_time_shape(sv) {
        spec_first_t(sv, 0)->Some_0
    } else {
        0
    });
    assert(long <= 34214400u128 * 18446744073709551615u128);
    assert(short <= 3661u128 * 18446744073709551615u128);
    let total: u128 = long + short;
    assert(total as nat == spec_duration_secs(sv));
    if total > 18446744073709551615u128 {
        u64::MAX
    } else {
        total as u64
    }
}

/// Like `parse_duration`, but reports the malformed time-part shape — on
/// which the parse has no defined value — as `None` instead of excluding it.
pub fn try_parse_duration(s: &str) -> (r: Option<u64>)
    ensures
        spec_has_time_shape(s@) && spec_first_t(s@, 0) is None ==> r is None,
        !(spec_has_time_shape(s@) && spec_first_t(s@, 0) is None) ==> (r matches Some(v) && v
            == spec_saturate_u64(spec_duration_secs(s@))),
{
    let cv = str_chars(s);
    let ghost sv = s@;
    let len = cv.len();
    let mut has_t: bool = false;
    let mut i: usize = 1;
    if len >= 3 && cv[0] == 'P' {
        while i + 1 < len
            invariant
                1 <= i,
                i + 1 <= len,
                len == sv.len(),
                len >= 3,
                sv[0] == 'P',
                cv@ == sv,
                has_t == (exists|q: int| 1 <= q < i && sv[q] == 'T'),
            decreases len - i,
        {
            if cv[i] == 'T' {
                has_t = true;
            }
            i = i + 1;
        }
        assert(has_t == spec_has_time_shape(sv));
    } else {
        assert(!spec_has_time_shape(sv));
    }
    if has_t {
        let mut j: usize = 0;
        let mut found: Option<u128> = None;
        while j < len && found.is_none()
            invariant
                j <= len,
                len == sv.len(),
                cv@ == sv,
                found is None ==> spec_first_t(sv, 0) == spec_first_t(sv, j as int),
                found matches Some(v) ==> (spec_first_t(sv, 0) matches Some(n) && v as nat == n
                    && v <= 3661u128 * 18446744073709551615u128),
            decreases len - j,
        {
            if cv[j] == 'T' {
                match try_hms(&cv, j + 1) {
                    Some(v) => {
                        found = Some(v);
                    },
                    None => {},
                }
            }
            j = j + 1;
        }
        if found.is_none() {
            assert(spec_first_t(sv, len as int) is None);
            return None;
        }
    }
    Some(parse_duration(s))
}

// ---------------------------------------------------------------------------
// duration formatting
// ---------------------------------------------------------------------------

/// The decimal digit character of `d`.
pub open spec fn spec_digit_char(d: nat) -> char {
    ((48 + d) as u8) as char
}

/// Ordinary decimal writing of `n`, without leading zeroes.
pub open spec fn spec_dec_str(n: nat) -> Seq<char>
    decreases n,
{
    if n < 10 {
        seq![spec_digit_char(n)]
    } else {
        spec_dec_str(n / 10).push(spec_digit_char(n % 10))
    }
}

/// Decimal writing of `n` padded with zeroes to at least two digits.
pub open spec fn spec_two_digits(n: nat) -> Seq<char> {
    if n < 10 {
        seq!['0'].push(spec_digit_char(n))
    } else {
        spec_dec_str(n)
    }
}

/// `MM:SS`, with an `HH:` prefix only when there is a nonzero hour count.
pub open spec fn spec_duration_string(secs: u64) -> Seq<char> {
    let s = (secs as nat) % 60;
    let m = ((secs as nat) / 60) % 60;
    let h = (secs as nat) / 3600;
    if h == 0 {
        spec_two_digits(m) + seq![':'] + spec_two_digits(s)
    } else {
        spec_two_digits(h) + seq![':'] + spec_two_digits(m) + seq![':'] + spec_two_digits(s)
    }
}

/// Appends the ordinary decimal writing of `n`.
fn push_dec(n: u64, out: &mut String)
    ensures
        final(out)@ == old(out)@ + spec_dec_str(n as nat),
    decreases n,
{
    if n < 10 {
        crate::wire::push_char(out, (48 + n as u8) as char);
        assert(out@ =~= old(out)@ + spec_dec_str(n as nat));
    } else {
        push_dec(n / 10, out);
        crate::wire::push_char(out, (48 + (n % 10) as u8) as char);
        assert(out@ =~= old(out)@ + spec_dec_str(n as nat));
    }
}

/// Appends `n` padded with zeroes to at least two digits.
fn push_two_digits(n: u64, out: &mut String)
    ensures
        final(out)@ == old(out)@ + spec_two_digits(n as nat),
{
    if n < 10 {
        crate::wire::push_char(out, '0');
        crate::wire::push_char(out, (48 + n as u8) as char);
        assert(out@ =~= old(out)@ + spec_two_digits(n as nat));
    } else {
        push_dec(n, out);
    }
}

/// Renders a second count the way the interface shows positions and
/// lengths: minutes and seconds always two digits, hours only when nonzero.
pub fn duration_to_string(dur: u64) -> (r: String)
    ensures
        r@ == spec_duration_string(dur),
{
    let secs = dur % 60;
    let minutes = (dur / 60) % 60;
    let hours = dur / 3600;
    let mut out = String::new();
    if hours == 0 {
        push_two_digits(minutes, &mut out);
        crate::wire::push_char(&mut out, ':');
        push_two_digits(secs, &mut out);
        assert(out@ =~= spec_duration_string(dur));
    } else {
        push_two_digits(hours, &mut out);
        crate::wire::push_char(&mut out, ':');
        push_two_digits(minutes, &mut out);
        crate::wire::push_char(&mut out, ':');
        push_two_digits(secs, &mut out);
        assert(out@ =~= spec_duration_string(dur));
    }
    out
}

} // verus!
