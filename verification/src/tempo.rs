//! The tempo map: from ticks to microseconds.
//!
//! A tick lasts `60 / (bpm * resolution)` seconds. With the tempo counted
//! in thousandths of a beat per minute that is `TEMPO_SCALE / (bpm *
//! resolution)` microseconds; every stretch between two tempo changes is
//! rounded down to a whole microsecond.

use vstd::arithmetic::div_mod::{
    lemma_div_is_ordered, lemma_div_multiples_vanish, lemma_div_multiples_vanish_quotient,
};
use vstd::arithmetic::mul::lemma_mul_strictly_positive;
use vstd::prelude::*;

use crate::song::{Chart, ChartView, NoteView, ParseError, SyncEvent, TempoEvent};

verus! {

/// Microseconds in a minute, times the thousand by which tempos are scaled.
pub const TEMPO_SCALE: u128 = 60_000_000_000;

/// The tempo in force before the first tempo event: 120 beats per minute.
pub const DEFAULT_BPM: usize = 120_000;

/// A point from which time runs at one tempo.
#[derive(Debug, Clone, Copy, PartialEq, Eq, Structural)]
pub struct Breakpoint {
    pub tick: usize,
    /// Microseconds from the start of the song.
    pub time: u128,
    /// Thousandths of a beat per minute.
    pub bpm: usize,
}

/// How many whole microseconds `ticks` ticks last at a tempo of `bpm`
/// thousandths of a beat per minute.
pub open spec fn micros(ticks: int, bpm: int, resolution: int) -> int {
    if bpm <= 0 || resolution <= 0 {
        0
    } else {
        ticks * TEMPO_SCALE / (resolution * bpm)
    }
}

/// Where every song starts: tick zero, time zero, the default tempo.
pub open spec fn origin() -> Breakpoint {
    Breakpoint { tick: 0, time: 0, bpm: DEFAULT_BPM }
}

/// The last breakpoint of `map`, or the origin where `map` is empty.
pub open spec fn tail(map: Seq<Breakpoint>) -> Breakpoint {
    if map.len() == 0 {
        origin()
    } else {
        map.last()
    }
}

/// The time at `tick`, counted on from the breakpoint `from`.
pub open spec fn time_from(from: Breakpoint, tick: int, resolution: int) -> int {
    from.time + micros(tick - from.tick, from.bpm as int, resolution)
}

/// The breakpoints of a sync track: one for each tempo event, in order,
/// its time counted on from the breakpoint before it. Time signatures make
/// none.
pub open spec fn breakpoints(sync: Seq<(usize, SyncEvent)>, resolution: usize) -> Seq<Breakpoint>
    decreases sync.len(),
{
    if sync.len() == 0 {
        Seq::empty()
    } else {
        let before = breakpoints(sync.drop_last(), resolution);
        match sync.last().1 {
            SyncEvent::Tempo(tempo) => before.push(
                Breakpoint {
                    tick: sync.last().0,
                    time: time_from(tail(before), sync.last().0 as int, resolution as int) as u128,
                    bpm: tempo.bpm,
                },
            ),
            SyncEvent::TimeSignature(_, _) => before,
        }
    }
}

/// The latest breakpoint at or before `tick`; the origin where there is
/// none.
pub open spec fn active(map: Seq<Breakpoint>, tick: int) -> Breakpoint
    decreases map.len(),
{
    if map.len() == 0 {
        origin()
    } else if map.last().tick <= tick {
        map.last()
    } else {
        active(map.drop_last(), tick)
    }
}

/// The time at `tick` under `map`, in microseconds.
pub open spec fn time_at(map: Seq<Breakpoint>, resolution: int, tick: int) -> int {
    time_from(active(map, tick), tick, resolution)
}

/// Whether a sync track can be timed: the resolution and every tempo are
/// positive, and no tempo event has a smaller tick than one before it.
pub open spec fn timeable(sync: Seq<(usize, SyncEvent)>, resolution: usize) -> bool {
    &&& resolution > 0
    &&& forall|k: int|
        0 <= k < sync.len() ==> (#[trigger] sync[k].1 matches SyncEvent::Tempo(t) ==> t.bpm > 0)
    &&& forall|j: int, k: int|
        0 <= j <= k < sync.len() && #[trigger] sync[j].1 is Tempo && #[trigger] sync[k].1 is Tempo
            ==> sync[j].0 <= sync[k].0
}

/// Whether `map` is a tempo map: positive tempos, ticks that never fall,
/// and every time counted on from the breakpoint before.
pub open spec fn well_timed(map: Seq<Breakpoint>, resolution: usize) -> bool {
    &&& resolution > 0
    &&& forall|k: int| 0 <= k < map.len() ==> (#[trigger] map[k]).bpm > 0
    &&& forall|j: int, k: int| 0 <= j <= k < map.len() ==> map[j].tick <= map[k].tick
    &&& forall|k: int|
        0 <= k < map.len() ==> (#[trigger] map[k]).time == time_from(
            tail(map.take(k)),
            map[k].tick as int,
            resolution as int,
        )
    &&& forall|k: int| 0 <= k < map.len() ==> (#[trigger] map[k]).time <= map[k].tick * TEMPO_SCALE
}

/// A stretch of ticks never lasts longer than at the slowest tempo, and a
/// longer stretch never lasts less.
pub proof fn lemma_micros(shorter: int, longer: int, bpm: int, resolution: int)
    requires
        0 <= shorter <= longer,
    ensures
        0 <= micros(shorter, bpm, resolution) <= micros(longer, bpm, resolution) <= longer
            * TEMPO_SCALE,
{
    if bpm > 0 && resolution > 0 {
        lemma_mul_strictly_positive(resolution, bpm);
        lemma_div_is_ordered(shorter * TEMPO_SCALE, longer * TEMPO_SCALE, resolution * bpm);
    }
}

/// Where a stretch of ticks lasts a whole number of microseconds, that
/// number is its length: nothing is lost to rounding.
pub proof fn lemma_micros_exact(ticks: int, bpm: int, resolution: int, whole: int)
    requires
        bpm > 0,
        resolution > 0,
        ticks * TEMPO_SCALE == whole * (resolution * bpm),
    ensures
        micros(ticks, bpm, resolution) == whole,
{
    lemma_mul_strictly_positive(resolution, bpm);
    lemma_div_multiples_vanish(whole, resolution * bpm);
    assert((resolution * bpm) * whole == whole * (resolution * bpm)) by (nonlinear_arith);
}

/// A quarter note lasts a minute's share of one beat, whatever the
/// resolution: at 120 beats per minute, half a second.
pub proof fn lemma_quarter_note(bpm: int, resolution: int)
    requires
        bpm > 0,
        resolution > 0,
    ensures
        micros(resolution, bpm, resolution) == (TEMPO_SCALE as int) / bpm,
        micros(resolution, 120_000, resolution) == 500_000,
{
    lemma_div_multiples_vanish_quotient(resolution, TEMPO_SCALE as int, bpm);
    lemma_div_multiples_vanish_quotient(resolution, TEMPO_SCALE as int, 120_000);
}

/// The breakpoints of a sync track that can be timed form a tempo map.
pub proof fn lemma_breakpoints_well_timed(sync: Seq<(usize, SyncEvent)>, resolution: usize)
    requires
        timeable(sync, resolution),
    ensures
        well_timed(breakpoints(sync, resolution), resolution),
        breakpoints(sync, resolution).len() <= sync.len(),
        forall|k: int|
            0 <= k < breakpoints(sync, resolution).len() ==> exists|j: int|
                0 <= j < sync.len() && sync[j].1 is Tempo && sync[j].0 == (
                #[trigger] breakpoints(sync, resolution)[k]).tick,
    decreases sync.len(),
{
    if sync.len() > 0 {
        let rest = sync.drop_last();
        lemma_breakpoints_well_timed(rest, resolution);
        if sync.last().1 is Tempo {
            let from = tail(breakpoints(rest, resolution));
            lemma_micros(0, sync.last().0 - from.tick, from.bpm as int, resolution as int);
        }
    }
}

/// Under a tempo map, the breakpoint in force at `tick` is the last of the
/// `k` breakpoints that lie at or before it.
pub proof fn lemma_active(map: Seq<Breakpoint>, resolution: usize, tick: int, k: int)
    requires
        well_timed(map, resolution),
        0 <= k <= map.len(),
        k > 0 ==> map[k - 1].tick <= tick,
        k < map.len() ==> tick < map[k].tick,
    ensures
        active(map, tick) == tail(map.take(k)),
    decreases map.len(),
{
    if map.len() > k {
        lemma_active(map.drop_last(), resolution, tick, k);
    }
}

/// Under a tempo map, time never runs backwards: a later tick never has an
/// earlier time.
pub proof fn lemma_time_monotonic(map: Seq<Breakpoint>, resolution: usize, earlier: int, later: int)
    requires
        well_timed(map, resolution),
        0 <= earlier <= later,
    ensures
        0 <= time_at(map, resolution as int, earlier) <= time_at(map, resolution as int, later)
            <= later * TEMPO_SCALE,
    decreases map.len(),
{
    let res = resolution as int;
    if map.len() == 0 {
        lemma_micros(earlier, later, DEFAULT_BPM as int, res);
    } else {
        let last = map.last();
        let rest = map.drop_last();
        if last.tick <= earlier {
            lemma_micros(earlier - last.tick, later - last.tick, last.bpm as int, res);
        } else if last.tick <= later {
            // `earlier` lies before the last breakpoint, `later` at or after it.
            lemma_time_monotonic(rest, resolution, earlier, last.tick as int);
            lemma_micros(0, later - last.tick, last.bpm as int, res);
        } else {
            lemma_time_monotonic(rest, resolution, earlier, later);
        }
    }
}

/// Under a tempo map, no breakpoint has an earlier time than one before it.
pub proof fn lemma_breakpoints_in_time_order(map: Seq<Breakpoint>, resolution: usize, j: int, k: int)
    requires
        well_timed(map, resolution),
        0 <= j <= k < map.len(),
    ensures
        map[j].time <= map[k].time,
    decreases k - j,
{
    if j < k {
        lemma_breakpoints_in_time_order(map, resolution, j, k - 1);
        lemma_micros(0, map[k].tick - map[k - 1].tick, map[k - 1].bpm as int, resolution as int);
    }
}

/// In a chart whose times were set from a tempo map, a note with a smaller
/// tick never has a later time.
pub proof fn lemma_notes_in_time_order(
    chart: ChartView,
    map: Seq<Breakpoint>,
    resolution: usize,
    a: int,
    b: int,
)
    requires
        well_timed(map, resolution),
        0 <= a < chart.notes.len(),
        0 <= b < chart.notes.len(),
        chart.notes[a].tick <= chart.notes[b].tick,
    ensures
        timed_chart(chart, map, resolution).notes[a].time <= timed_chart(
            chart,
            map,
            resolution,
        ).notes[b].time,
{
    lemma_time_monotonic(map, resolution, chart.notes[a].tick as int, chart.notes[b].tick as int);
}

/// With one tempo set at tick zero, the time at every tick is that tick's
/// distance from the start at that tempo.
pub proof fn lemma_constant_tempo(bpm: usize, resolution: usize, tick: usize)
    requires
        bpm > 0,
        resolution > 0,
    ensures
        timeable(seq![(0usize, SyncEvent::Tempo(TempoEvent { bpm, time: 0 }))], resolution),
        time_at(
            breakpoints(seq![(0usize, SyncEvent::Tempo(TempoEvent { bpm, time: 0 }))], resolution),
            resolution as int,
            tick as int,
        ) == micros(tick as int, bpm as int, resolution as int),
{
    let sync = seq![(0usize, SyncEvent::Tempo(TempoEvent { bpm, time: 0 }))];
    assert(breakpoints(sync.drop_last(), resolution) =~= Seq::empty());
}

/// How long `ticks` ticks last at `bpm` thousandths of a beat per minute,
/// in whole microseconds. At a tempo or a resolution of zero no time can be
/// told, and the answer is zero.
pub fn ticks_to_micros(ticks: usize, bpm: usize, resolution: usize) -> (t: u128)
    ensures
        t == micros(ticks as int, bpm as int, resolution as int),
{
    if bpm == 0 || resolution == 0 {
        return 0;
    }
    proof {
        lemma_mul_strictly_positive(resolution as int, bpm as int);
        assert(resolution * bpm <= 0xffff_ffff_ffff_ffff * 0xffff_ffff_ffff_ffff)
            by (nonlinear_arith)
            requires
                resolution <= 0xffff_ffff_ffff_ffff,
                bpm <= 0xffff_ffff_ffff_ffff,
        ;
    }
    (ticks as u128 * TEMPO_SCALE) / (resolution as u128 * bpm as u128)
}

/// Whether a sync track can be timed at `resolution`.
pub fn is_timeable(sync: &Vec<(usize, SyncEvent)>, resolution: usize) -> (b: bool)
    ensures
        b == timeable(sync@, resolution),
{
    if resolution == 0 {
        return false;
    }
    let mut last_tick: usize = 0;
    let ghost mut holder: int = -1;
    let mut i: usize = 0;
    while i < sync.len()
        invariant
            i <= sync.len(),
            resolution > 0,
            holder < 0 ==> last_tick == 0,
            holder >= 0 ==> holder < i && sync@[holder].1 is Tempo && sync@[holder].0 == last_tick,
            forall|k: int|
                0 <= k < i ==> (#[trigger] sync@[k].1 matches SyncEvent::Tempo(t) ==> t.bpm > 0),
            forall|j: int, k: int|
                0 <= j <= k < i && #[trigger] sync@[j].1 is Tempo && #[trigger] sync@[k].1 is Tempo
                    ==> sync@[j].0 <= sync@[k].0,
            forall|k: int| 0 <= k < i && #[trigger] sync@[k].1 is Tempo ==> sync@[k].0 <= last_tick,
        decreases sync.len() - i,
    {
        let tick = sync[i].0;
        if let SyncEvent::Tempo(tempo) = sync[i].1 {
            if tempo.bpm == 0 {
                return false;
            }
            if tick < last_tick {
                return false;
            }
            last_tick = tick;
            proof {
                holder = i as int;
            }
        }
        i += 1;
    }
    true
}

/// A sync track with the time of every tempo event filled in.
pub open spec fn timed_sync(sync: Seq<(usize, SyncEvent)>, resolution: usize) -> Seq<
    (usize, SyncEvent),
> {
    Seq::new(
        sync.len(),
        |i: int|
            match sync[i].1 {
                SyncEvent::Tempo(tempo) => (
                    sync[i].0,
                    SyncEvent::Tempo(
                        TempoEvent {
                            bpm: tempo.bpm,
                            time: tail(breakpoints(sync.take(i + 1), resolution)).time,
                        },
                    ),
                ),
                SyncEvent::TimeSignature(_, _) => sync[i],
            },
    )
}

/// A note with its time set from its tick.
pub open spec fn timed_note(note: NoteView, map: Seq<Breakpoint>, resolution: usize) -> NoteView {
    NoteView { time: time_at(map, resolution as int, note.tick as int) as u128, ..note }
}

/// A chart with the time of every note set from its tick.
pub open spec fn timed_chart(chart: ChartView, map: Seq<Breakpoint>, resolution: usize) -> ChartView {
    ChartView {
        notes: Seq::new(chart.notes.len(), |i: int| timed_note(chart.notes[i], map, resolution)),
        starpower_events: chart.starpower_events,
    }
}

/// The breakpoints of a song and its resolution.
pub struct TempoMap {
    breakpoints: Vec<Breakpoint>,
    resolution: usize,
}

/// What a tempo map holds.
pub struct TempoMapView {
    pub breakpoints: Seq<Breakpoint>,
    pub resolution: usize,
}

impl View for TempoMap {
    type V = TempoMapView;

    closed spec fn view(&self) -> TempoMapView {
        TempoMapView { breakpoints: self.breakpoints@, resolution: self.resolution }
    }
}

impl TempoMap {
    #[verifier::type_invariant]
    spec fn valid(&self) -> bool {
        well_timed(self.breakpoints@, self.resolution)
    }

    /// Ticks per quarter note.
    pub fn resolution(&self) -> (r: usize)
        ensures
            r == self@.resolution,
    {
        self.resolution
    }

    /// The breakpoints, in order. They always form a tempo map.
    pub fn breakpoints(&self) -> (points: &Vec<Breakpoint>)
        ensures
            points@ == self@.breakpoints,
            well_timed(self@.breakpoints, self@.resolution),
    {
        proof {
            use_type_invariant(self);
        }
        &self.breakpoints
    }

    /// The time at `tick`, in microseconds.
    pub fn time_at(&self, tick: usize) -> (time: u128)
        ensures
            time == time_at(self@.breakpoints, self@.resolution as int, tick as int),
    {
        let mut reached: usize = 0;
        self.time_onward(tick, &mut reached)
    }

    /// The time at `tick`. `reached` says how many breakpoints an earlier
    /// search has passed; the search goes on from there and starts over
    /// only where `tick` lies before them.
    pub fn time_onward(&self, tick: usize, reached: &mut usize) -> (time: u128)
        ensures
            time == time_at(self@.breakpoints, self@.resolution as int, tick as int),
            *final(reached) <= self@.breakpoints.len(),
            active(self@.breakpoints, tick as int) == tail(
                self@.breakpoints.take(*final(reached) as int),
            ),
    {
        proof {
            use_type_invariant(self);
        }
        let map = &self.breakpoints;
        if *reached > map.len() || (*reached > 0 && map[*reached - 1].tick > tick) {
            *reached = 0;
        }
        while *reached < map.len() && map[*reached].tick <= tick
            invariant
                *reached <= map.len(),
                *reached > 0 ==> map@[*reached - 1].tick <= tick,
            decreases map.len() - *reached,
        {
            *reached += 1;
        }
        let from = if *reached == 0 {
            Breakpoint { tick: 0, time: 0, bpm: DEFAULT_BPM }
        } else {
            map[*reached - 1]
        };
        proof {
            lemma_active(map@, self.resolution, tick as int, *reached as int);
            assert(*reached > 0 ==> map@.take(*reached as int).last() == map@[*reached - 1]);
            lemma_micros(0, tick - from.tick, from.bpm as int, self.resolution as int);
        }
        from.time + ticks_to_micros(tick - from.tick, from.bpm, self.resolution)
    }
}

/// Builds the tempo map of a sync track and writes the time of every tempo
/// event into the track. Fails, and leaves the track as it is, where the
/// track cannot be timed.
pub fn map_tempo(sync: &mut Vec<(usize, SyncEvent)>, resolution: usize) -> (out: Result<
    TempoMap,
    ParseError,
>)
    ensures
        match out {
            Ok(map) => {
                &&& timeable(old(sync)@, resolution)
                &&& final(sync)@ == timed_sync(old(sync)@, resolution)
                &&& map@.breakpoints == breakpoints(old(sync)@, resolution)
                &&& map@.resolution == resolution
            },
            Err(e) => {
                &&& e == ParseError::MalformedNumber
                &&& !timeable(old(sync)@, resolution)
                &&& final(sync)@ == old(sync)@
            },
        },
{
    if !is_timeable(sync, resolution) {
        return Err(ParseError::MalformedNumber);
    }
    let mut map: Vec<Breakpoint> = Vec::new();
    let mut from = Breakpoint { tick: 0, time: 0, bpm: DEFAULT_BPM };
    let mut i: usize = 0;
    while i < sync.len()
        invariant
            i <= sync.len(),
            sync@.len() == old(sync)@.len(),
            timeable(old(sync)@, resolution),
            map@ == breakpoints(old(sync)@.take(i as int), resolution),
            from == tail(map@),
            forall|k: int| 0 <= k < i ==> sync@[k] == timed_sync(old(sync)@, resolution)[k],
            forall|k: int| i <= k < sync@.len() ==> sync@[k] == old(sync)@[k],
        decreases sync.len() - i,
    {
        let ghost source = old(sync)@;
        let ghost upto = source.take(i + 1);
        proof {
            assert(upto.drop_last() =~= source.take(i as int));
            lemma_breakpoints_well_timed(upto, resolution);
        }
        let tick = sync[i].0;
        if let SyncEvent::Tempo(tempo) = sync[i].1 {
            proof {
                let next = breakpoints(upto, resolution);
                assert(next[next.len() - 1].time == time_from(
                    from,
                    tick as int,
                    resolution as int,
                ));
            }
            let time = from.time + ticks_to_micros(tick - from.tick, from.bpm, resolution);
            sync[i] = (tick, SyncEvent::Tempo(TempoEvent { bpm: tempo.bpm, time }));
            from = Breakpoint { tick, time, bpm: tempo.bpm };
            map.push(from);
        }
        i += 1;
    }
    proof {
        assert(old(sync)@.take(i as int) =~= old(sync)@);
        lemma_breakpoints_well_timed(old(sync)@, resolution);
    }
    Ok(TempoMap { breakpoints: map, resolution })
}

/// Sets the time of every note of `chart` from its tick.
pub fn calculate_note_times(chart: &mut Chart, map: &TempoMap)
    ensures
        final(chart).deep_view() == timed_chart(
            old(chart).deep_view(),
            map@.breakpoints,
            map@.resolution,
        ),
{
    let mut reached: usize = 0;
    let mut n: usize = 0;
    while n < chart.notes.len()
        invariant
            n <= chart.notes.len(),
            chart.notes@.len() == old(chart).notes@.len(),
            chart.starpower_events@ == old(chart).starpower_events@,
            forall|k: int|
                0 <= k < n ==> (#[trigger] chart.notes@[k]).deep_view() == timed_note(
                    old(chart).notes@[k].deep_view(),
                    map@.breakpoints,
                    map@.resolution,
                ),
            forall|k: int| n <= k < chart.notes@.len() ==> chart.notes@[k] == old(chart).notes@[k],
        decreases chart.notes.len() - n,
    {
        let tick = chart.notes[n].tick;
        let time = map.time_onward(tick, &mut reached);
        chart.notes[n].time = time;
        n += 1;
    }
    assert(chart.deep_view().notes =~= timed_chart(
        old(chart).deep_view(),
        map@.breakpoints,
        map@.resolution,
    ).notes);
}

} // verus!
