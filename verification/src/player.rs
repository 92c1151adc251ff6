//! The player-facing state the client keeps beside the media engine: the
//! repeat mode cycle, the volume clamp, and the snapshot of playback state
//! the interface polls.

use vstd::prelude::*;

use vstd::string::StringExecFns;

verus! {

/// The repeat mode, cycled `Off -> Song -> Playlist -> Off`.
#[derive(Clone, Copy, Debug, PartialEq, Eq, Structural)]
pub enum Repeat {
    Off,
    Song,
    Playlist,
}

impl Repeat {
    /// The next mode in the cycle.
    pub fn cycle(self) -> (r: Repeat)
        ensures
            self is Off ==> r is Song,
            self is Song ==> r is Playlist,
            self is Playlist ==> r is Off,
    {
        match self {
            Repeat::Off => Repeat::Song,
            Repeat::Song => Repeat::Playlist,
            Repeat::Playlist => Repeat::Off,
        }
    }

    /// The word the interface shows for this mode.
    pub fn label(&self) -> (r: String)
        ensures
            self is Off ==> r@ == "no"@,
            self is Song ==> r@ == "song"@,
            self is Playlist ==> r@ == "playlist"@,
    {
        match self {
            Repeat::Off => String::from_str("no"),
            Repeat::Song => String::from_str("song"),
            Repeat::Playlist => String::from_str("playlist"),
        }
    }
}

/// A poll of the player: position and length in whole seconds, the volume,
/// what is playing and from where, and the repeat mode.
#[derive(Debug)]
pub struct State {
    pub duration: i64,
    pub time_pos: i64,
    pub volume: i64,
    pub title: String,
    pub path: String,
    pub repeat: Repeat,
}

/// A volume change, clamped into the player's 0 to 100 range.
pub fn clamp_volume(volume: i64, dv: i64) -> (r: i64)
    ensures
        volume + dv > 100 ==> r == 100,
        volume + dv < 0 ==> r == 0,
        0 <= volume + dv <= 100 ==> r == volume + dv,
{
    let sum: i128 = volume as i128 + dv as i128;
    if sum > 100 {
        100
    } else if sum < 0 {
        0
    } else {
        sum as i64
    }
}

/// The position of the playback gauge, in whole percents, clamped into
/// 0 to 100; a zero or unknown length reads as zero.
pub fn progress_percent(time_pos: i64, duration: i64) -> (r: u16)
    ensures
        duration <= 0 ==> r == 0,
        duration > 0 && time_pos <= 0 ==> r == 0,
        duration > 0 && time_pos > 0 ==> r == (if (time_pos * 100) / (duration as int) > 100 {
            100int
        } else {
            (time_pos * 100) / (duration as int)
        }),
{
    if duration <= 0 || time_pos <= 0 {
        return 0;
    }
    let scaled: i128 = (time_pos as i128) * 100;
    let pct: i128 = scaled / (duration as i128);
    proof {
        assert(scaled == time_pos * 100);
        assert(pct == (time_pos * 100) / (duration as int));
        assert(pct >= 0) by {
            vstd::arithmetic::div_mod::lemma_div_pos_is_pos(scaled as int, duration as int);
        }
    }
    if pct > 100 {
        100
    } else {
        pct as u16
    }
}

} // verus!
