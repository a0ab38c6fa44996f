//! Hit detection: what a frame's input does to the strikeline and to the
//! notes that are still to be played.

use vstd::prelude::*;

use crate::controllers::{button_lane, lane_of, ControllerEvent, ControllerEventType};
use crate::song::{has_bit, Note};
use crate::timeline::{first_hit, is_first_within, time_ordered, within, Timeline};

verus! {

/// How long before its note an edge still counts, in microseconds.
pub const HIT_FRONT: i128 = 70_000;

/// How long after its note an edge still counts, in microseconds.
pub const HIT_BACK: i128 = 70_000;

/// The height of a fret that has just been hit.
pub const FULL_HEIGHT: u32 = 1_000_000;

/// How much height a fret loses in a microsecond.
pub const DECAY_PER_MICRO: u32 = 10;

/// The animation of one fret of the strikeline.
#[derive(Debug, Default, Clone, Copy, PartialEq, Eq, Structural)]
pub struct FretState {
    /// How far the fret has popped up, from zero to `FULL_HEIGHT`.
    pub height: u32,
}

/// The five frets of the strikeline and the lanes that are held down.
#[derive(Debug, Clone, Copy, PartialEq, Eq)]
pub struct Strikeline {
    pub frets: [FretState; 5],
    /// Bit `n` is set while lane `n` is held.
    pub pressed: u8,
}

/// What the edges of a frame came to.
#[derive(Debug, Clone, Copy, PartialEq, Eq, Structural)]
pub struct FrameReport {
    /// Edges that hit a note.
    pub hits: usize,
    /// Edges that hit nothing.
    pub misses: usize,
    /// Notes that went by unplayed.
    pub expired: usize,
}

/// Whether a hit on a chord lights a lane: the lane is part of the chord,
/// or the chord is an open note.
pub open spec fn lights(frets: u8, lane: u8) -> bool {
    has_bit(frets, lane) || has_bit(frets, 7)
}

/// A height after `frame_time` microseconds of decay.
pub open spec fn decayed(height: u32, frame_time: u64) -> u32 {
    if frame_time * DECAY_PER_MICRO >= height {
        0
    } else {
        (height - frame_time * DECAY_PER_MICRO) as u32
    }
}

/// The held lanes after an event: a press of a lane's button sets the
/// lane's bit, its release clears the bit, anything else changes nothing.
pub open spec fn pressed_after(pressed: u8, event: ControllerEventType) -> u8 {
    match event {
        ControllerEventType::ButtonPressed(button) => match lane_of(button) {
            Some(lane) => pressed | (1u8 << lane),
            None => pressed,
        },
        ControllerEventType::ButtonReleased(button) => match lane_of(button) {
            Some(lane) => pressed & (255u8 ^ (1u8 << lane)),
            None => pressed,
        },
        _ => pressed,
    }
}

/// The note that an edge hits: the first note within the hit window around
/// the edge, if the lanes held are exactly its chord. `moment` is the edge's
/// time on the song's clock.
pub open spec fn struck(notes: Seq<Note>, pressed: u8, moment: int) -> Option<int> {
    match first_hit(notes, moment - HIT_BACK, moment + HIT_FRONT) {
        Some(i) => if notes[i].frets == pressed {
            Some(i)
        } else {
            None
        },
        None => None,
    }
}

/// The state that a frame's edges work on.
pub struct Play {
    pub pressed: u8,
    /// The heights of the five frets.
    pub heights: Seq<u32>,
    /// The notes still to be played.
    pub notes: Seq<Note>,
    pub hits: nat,
    pub misses: nat,
}

/// The heights after a hit on a chord.
pub open spec fn lit(heights: Seq<u32>, frets: u8) -> Seq<u32> {
    Seq::new(
        heights.len(),
        |lane: int|
            if lights(frets, lane as u8) {
                FULL_HEIGHT
            } else {
                heights[lane]
            },
    )
}

/// The state after one event. The event first changes the held lanes. If
/// it then hits a note, that note leaves the timeline and its lanes light
/// up; otherwise it is a miss and nothing else changes.
pub open spec fn after_edge(play: Play, event: ControllerEvent, offset: int) -> Play {
    let pressed = pressed_after(play.pressed, event.event);
    match struck(play.notes, pressed, event.timestamp + offset) {
        Some(i) => Play {
            pressed,
            heights: lit(play.heights, play.notes[i].frets),
            notes: play.notes.remove(i),
            hits: play.hits + 1,
            misses: play.misses,
        },
        None => Play { pressed, misses: play.misses + 1, ..play },
    }
}

/// The state after a run of events, taken in their order.
pub open spec fn after_edges(play: Play, events: Seq<ControllerEvent>, offset: int) -> Play
    decreases events.len(),
{
    if events.len() == 0 {
        play
    } else {
        after_edge(after_edges(play, events.drop_last(), offset), events.last(), offset)
    }
}

/// The hit window reaches as far before a note as behind it: an edge hits
/// exactly when it lies no further than `HIT_FRONT` from the note, on either
/// side, and so an edge at the note's own time always does.
pub proof fn lemma_hit_window(note_time: u128, moment: int)
    ensures
        HIT_FRONT == HIT_BACK,
        within(note_time, moment - HIT_BACK, moment + HIT_FRONT) <==> -HIT_FRONT <= note_time
            - moment <= HIT_FRONT,
        within(note_time, note_time - HIT_BACK, note_time + HIT_FRONT),
{
}

/// Only the exact chord hits: the note that an edge hits is the first note
/// in the window and has the held lanes for its chord, no more and no
/// fewer; where the first note in the window has another chord, the edge
/// hits nothing.
pub proof fn lemma_exact_chord(notes: Seq<Note>, pressed: u8, moment: int)
    ensures
        match struck(notes, pressed, moment) {
            Some(i) => {
                &&& is_first_within(notes, moment - HIT_BACK, moment + HIT_FRONT, i)
                &&& notes[i].frets == pressed
            },
            None => forall|i: int|
                is_first_within(notes, moment - HIT_BACK, moment + HIT_FRONT, i) ==> notes[i].frets
                    != pressed,
        },
{
}

/// Notes only ever leave: after any run of events every note left was
/// there before, each hit has taken exactly one note away, and the notes
/// left are still in the order of their times.
pub proof fn lemma_notes_only_leave(play: Play, events: Seq<ControllerEvent>, offset: int)
    ensures
        after_edges(play, events, offset).notes.len() + after_edges(play, events, offset).hits
            == play.notes.len() + play.hits,
        after_edges(play, events, offset).hits + after_edges(play, events, offset).misses
            == play.hits + play.misses + events.len(),
        forall|j: int|
            0 <= j < after_edges(play, events, offset).notes.len() ==> play.notes.contains(
                #[trigger] after_edges(play, events, offset).notes[j],
            ),
        time_ordered(play.notes) ==> time_ordered(after_edges(play, events, offset).notes),
    decreases events.len(),
{
    if events.len() > 0 {
        lemma_notes_only_leave(play, events.drop_last(), offset);
    }
}

impl Strikeline {
    /// The heights of the five frets.
    pub open spec fn heights(&self) -> Seq<u32> {
        Seq::new(5, |lane: int| self.frets[lane].height)
    }

    /// A strikeline at rest: nothing held, nothing lit.
    pub fn new() -> (strikeline: Strikeline)
        ensures
            strikeline.pressed == 0,
            strikeline.heights() == Seq::new(5, |lane: int| 0u32),
    {
        let strikeline = Strikeline { frets: [FretState { height: 0 };5], pressed: 0 };
        strikeline
    }

    /// Lets every fret sink for `frame_time` microseconds.
    pub fn decay(&mut self, frame_time: u64)
        ensures
            final(self).pressed == old(self).pressed,
            final(self).heights() == Seq::new(
                5,
                |lane: int| decayed(old(self).heights()[lane], frame_time),
            ),
    {
        let mut lane: usize = 0;
        while lane < 5
            invariant
                lane <= 5,
                self.pressed == old(self).pressed,
                forall|k: int|
                    0 <= k < lane ==> self.frets[k].height == decayed(
                        old(self).frets[k].height,
                        frame_time,
                    ),
                forall|k: int| lane <= k < 5 ==> self.frets[k] == old(self).frets[k],
            decreases 5 - lane,
        {
            let height = self.frets[lane].height;
            let sunk: u32 = if frame_time > u32::MAX as u64 {
                0
            } else {
                let loss: u64 = frame_time * (DECAY_PER_MICRO as u64);
                if loss >= height as u64 {
                    0
                } else {
                    height - loss as u32
                }
            };
            self.frets[lane] = FretState { height: sunk };
            lane += 1;
        }
    }

    /// Takes an event into the held lanes.
    pub fn apply(&mut self, event: ControllerEventType)
        ensures
            final(self).pressed == pressed_after(old(self).pressed, event),
            final(self).frets == old(self).frets,
    {
        match event {
            ControllerEventType::ButtonPressed(button) => {
                if let Some(lane) = button_lane(button) {
                    self.pressed = self.pressed | (1u8 << lane);
                }
            },
            ControllerEventType::ButtonReleased(button) => {
                if let Some(lane) = button_lane(button) {
                    self.pressed = self.pressed & (255u8 ^ (1u8 << lane));
                }
            },
            _ => {},
        }
    }

    /// Lights the lanes of a chord that was hit.
    pub fn light(&mut self, frets: u8)
        ensures
            final(self).pressed == old(self).pressed,
            final(self).heights() == lit(old(self).heights(), frets),
    {
        let open = (frets >> 7u8) & 1 == 1;
        let mut lane: u8 = 0;
        while lane < 5
            invariant
                lane <= 5,
                open == has_bit(frets, 7),
                self.pressed == old(self).pressed,
                forall|k: int|
                    0 <= k < lane ==> self.frets[k].height == lit(old(self).heights(), frets)[k],
                forall|k: int| lane <= k < 5 ==> self.frets[k] == old(self).frets[k],
            decreases 5 - lane,
        {
            if (frets >> lane) & 1 == 1 || open {
                self.frets[lane as usize] = FretState { height: FULL_HEIGHT };
            }
            lane += 1;
        }
    }
}

/// Takes one event: changes the held lanes and, where the event hits a
/// note, takes the note off the timeline and lights its lanes. Hands back
/// the note that was hit.
pub fn handle_event(
    strikeline: &mut Strikeline,
    notes: &mut Timeline,
    event: &ControllerEvent,
    time_offset: i64,
) -> (hit: Option<Note>)
    ensures
        ({
            let before = Play {
                pressed: old(strikeline).pressed,
                heights: old(strikeline).heights(),
                notes: old(notes)@,
                hits: 0,
                misses: 0,
            };
            let after = after_edge(before, *event, time_offset as int);
            &&& final(strikeline).pressed == after.pressed
            &&& final(strikeline).heights() == after.heights
            &&& final(notes)@ == after.notes
            &&& hit is Some == (after.hits == 1)
            &&& hit is None == (after.misses == 1)
            &&& hit == match struck(old(notes)@, after.pressed, event.timestamp + time_offset) {
                Some(i) => Some(old(notes)@[i]),
                None => None,
            }
        }),
{
    strikeline.apply(event.event);
    let lo: i128 = time_offset as i128 - HIT_BACK;
    let hi: i128 = time_offset as i128 + HIT_FRONT;
    match notes.first_within(event.timestamp, lo, hi) {
        Some(place) => {
            let candidate = match notes.get(place) {
                Some(note) => *note,
                None => {
                    return None;
                },
            };
            if candidate.frets == strikeline.pressed {
                strikeline.light(candidate.frets);
                notes.remove(place)
            } else {
                None
            }
        },
        None => None,
    }
}

/// Plays one frame. The frets sink for `frame_time` microseconds; every
/// event is taken in turn, its stamp moved onto the song's clock by
/// `time_offset`; then the notes whose time lies before `expire_before`
/// leave the timeline unplayed.
pub fn handle_inputs(
    events: &Vec<ControllerEvent>,
    strikeline: &mut Strikeline,
    time_offset: i64,
    frame_time: u64,
    expire_before: i128,
    notes: &mut Timeline,
) -> (report: FrameReport)
    ensures
        ({
            let start = Play {
                pressed: old(strikeline).pressed,
                heights: Seq::new(5, |lane: int| decayed(old(strikeline).heights()[lane], frame_time)),
                notes: old(notes)@,
                hits: 0,
                misses: 0,
            };
            let played = after_edges(start, events@, time_offset as int);
            &&& final(strikeline).pressed == played.pressed
            &&& final(strikeline).heights() == played.heights
            &&& report.hits == played.hits
            &&& report.misses == played.misses
            &&& report.expired <= played.notes.len()
            &&& final(notes)@ == played.notes.skip(report.expired as int)
            &&& forall|j: int|
                0 <= j < report.expired ==> (#[trigger] played.notes[j]).time < expire_before
            &&& forall|j: int|
                0 <= j < final(notes)@.len() ==> (#[trigger] final(notes)@[j]).time >= expire_before
        }),
{
    strikeline.decay(frame_time);
    let ghost start = Play {
        pressed: strikeline.pressed,
        heights: strikeline.heights(),
        notes: notes@,
        hits: 0,
        misses: 0,
    };
    let mut hits: usize = 0;
    let mut misses: usize = 0;
    let mut k: usize = 0;
    while k < events.len()
        invariant
            k <= events.len(),
            hits + misses == k,
            after_edges(start, events@.take(k as int), time_offset as int) == (Play {
                pressed: strikeline.pressed,
                heights: strikeline.heights(),
                notes: notes@,
                hits: hits as nat,
                misses: misses as nat,
            }),
        decreases events.len() - k,
    {
        proof {
            assert(events@.take(k + 1).drop_last() =~= events@.take(k as int));
        }
        match handle_event(strikeline, notes, &events[k], time_offset) {
            Some(_) => {
                hits += 1;
            },
            None => {
                misses += 1;
            },
        }
        k += 1;
    }
    proof {
        assert(events@.take(k as int) =~= events@);
    }
    let expired = notes.expire(expire_before);
    FrameReport { hits, misses, expired }
}

} // verus!
