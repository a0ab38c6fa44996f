//! The song's clock and how it is tied to the clock of the input.
//!
//! Input is stamped by a clock of its own. Once the first frames, whose
//! times are long and uneven, have gone by, the distance between the two
//! clocks is taken once; from then on the song's time is the input clock's
//! reading plus that distance.

use vstd::prelude::*;

verus! {

/// The frames that go by before the clocks are tied.
pub const WARM_UP_FRAMES: u64 = 2;

/// The song's time when the game starts: five seconds before the music.
pub const LEAD_IN: i64 = -5_000_000;

/// The song's clock. Times are in microseconds; the music starts at zero.
#[derive(Debug, Clone, Copy, PartialEq, Eq, Structural)]
pub struct SongClock {
    /// The song's time in the frame that is being played.
    pub time: i64,
    /// The song's time minus the input clock's, once it has been taken.
    pub time_offset: Option<i64>,
    /// The frames that have been played.
    pub frame_count: u64,
    /// Whether the music has been started.
    pub audio_playing: bool,
}

/// Whether the clocks are tied in a frame, given how many went before it.
pub open spec fn warmed_up(frame_count: u64) -> bool {
    frame_count > WARM_UP_FRAMES
}

/// `t` held to the range of the clock.
pub open spec fn clamped(t: int) -> i64 {
    if t < i64::MIN {
        i64::MIN
    } else if t > i64::MAX {
        i64::MAX
    } else {
        t as i64
    }
}

/// The clock at the end of a frame in which the input clock read
/// `input_elapsed`. Before the warm-up is over only the frames are
/// counted. After it the distance between the clocks is taken, if it has
/// not been, and the song's time follows the input clock. The music counts
/// as started once the time has reached zero.
pub open spec fn clock_after(clock: SongClock, input_elapsed: u64) -> SongClock {
    let time_offset = if warmed_up(clock.frame_count) && clock.time_offset is None {
        Some(clamped(clock.time - input_elapsed))
    } else {
        clock.time_offset
    };
    let time = if warmed_up(clock.frame_count) {
        clamped(input_elapsed + time_offset->0)
    } else {
        clock.time
    };
    SongClock {
        time,
        time_offset,
        frame_count: if clock.frame_count == u64::MAX {
            u64::MAX
        } else {
            (clock.frame_count + 1) as u64
        },
        audio_playing: clock.audio_playing || time >= 0,
    }
}

/// Whether the clocks are tied in a frame before which `frame_count`
/// frames were played.
pub fn is_warmed_up(frame_count: u64) -> (b: bool)
    ensures
        b == warmed_up(frame_count),
{
    frame_count > WARM_UP_FRAMES
}

/// Holds a time to the range of the clock.
pub fn clamp(t: i128) -> (c: i64)
    ensures
        c == clamped(t as int),
{
    if t < i64::MIN as i128 {
        i64::MIN
    } else if t > i64::MAX as i128 {
        i64::MAX
    } else {
        t as i64
    }
}

impl SongClock {
    /// The clock of a game that has not played a frame yet.
    pub fn new() -> (clock: SongClock)
        ensures
            clock == (SongClock {
                time: LEAD_IN,
                time_offset: None,
                frame_count: 0,
                audio_playing: false,
            }),
    {
        SongClock { time: LEAD_IN, time_offset: None, frame_count: 0, audio_playing: false }
    }

    /// The distance from the input clock to the song's clock in a frame in
    /// which the input clock reads `input_elapsed`: the distance that was
    /// taken, or, while none has been, the one between the two readings.
    pub fn offset_at(&self, input_elapsed: u64) -> (offset: i64)
        ensures
            offset == match self.time_offset {
                Some(taken) => taken,
                None => clamped(self.time - input_elapsed),
            },
    {
        match self.time_offset {
            Some(taken) => taken,
            None => clamp(self.time as i128 - input_elapsed as i128),
        }
    }

    /// Ends a frame in which the input clock read `input_elapsed`, and says
    /// whether the music is to be started now.
    pub fn end_frame(&mut self, input_elapsed: u64) -> (start_audio: bool)
        ensures
            *final(self) == clock_after(*old(self), input_elapsed),
            start_audio == (final(self).time >= 0 && !old(self).audio_playing),
    {
        if is_warmed_up(self.frame_count) {
            let offset = match self.time_offset {
                Some(taken) => taken,
                None => clamp(self.time as i128 - input_elapsed as i128),
            };
            self.time_offset = Some(offset);
            self.time = clamp(input_elapsed as i128 + offset as i128);
        }
        let start_audio = self.time >= 0 && !self.audio_playing;
        if start_audio {
            self.audio_playing = true;
        }
        if self.frame_count < u64::MAX {
            self.frame_count += 1;
        }
        start_audio
    }
}

} // verus!
