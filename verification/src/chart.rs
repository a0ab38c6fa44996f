//! Note sections: one chart per instrument and difficulty.

use vstd::prelude::*;

use crate::number::{parse_u8, parse_usize, unsigned};
use crate::section::{
    is_closing, lemma_scan_step, line_at, optional, resumed, scan, LineReader,
};
use crate::song::{
    has_bit, Chart, ChartView, Difficulty, Instrument, Note, NoteView, ParseError,
};
use crate::text::{
    assigned_key, assigned_value, chars_of, ends_with, equals, fields, has_prefix, has_suffix,
    lowercase, split, split_assignment, starts_with, texts, to_lowercase,
};

verus! {

/// One note line: a lane of a chord and its sustain.
#[derive(Debug, Clone, Copy, PartialEq, Eq, Structural)]
pub struct NoteEntry {
    pub tick: usize,
    /// The bit of the chord's flag set, 0 to 7.
    pub lane: u8,
    /// Sustain length in ticks.
    pub length: usize,
}

/// The difficulty that a lower-cased section name begins with. A name that
/// begins with none of the other three is an expert chart.
pub open spec fn difficulty_of(name: Seq<char>) -> Difficulty {
    if has_prefix(name, "easy"@) {
        Difficulty::Easy
    } else if has_prefix(name, "medium"@) {
        Difficulty::Medium
    } else if has_prefix(name, "hard"@) {
        Difficulty::Hard
    } else {
        Difficulty::Expert
    }
}

/// The instrument that a lower-cased section name ends with.
pub open spec fn instrument_of(name: Seq<char>) -> Instrument {
    if has_suffix(name, "single"@) {
        Instrument::Single
    } else if has_suffix(name, "doubleguitar"@) {
        Instrument::DoubleGuitar
    } else if has_suffix(name, "doublebass"@) {
        Instrument::DoubleBass
    } else if has_suffix(name, "doublerhythm"@) {
        Instrument::DoubleRhythm
    } else {
        Instrument::Unknown
    }
}

/// What the fields after `N` say: a lane from 0 to 7 and a sustain length.
/// A field that is absent makes the line malformed, one that is no number of
/// its range makes the number malformed; the lane is read before the length
/// and held to its range after it.
pub open spec fn note_fields(tick: usize, words: Seq<Seq<char>>) -> Result<NoteEntry, ParseError> {
    if words.len() < 2 {
        Err(ParseError::MalformedLine)
    } else {
        match unsigned(words[1], u8::MAX as nat) {
            None => Err(ParseError::MalformedNumber),
            Some(lane) => if words.len() < 3 {
                Err(ParseError::MalformedLine)
            } else {
                match unsigned(words[2], usize::MAX as nat) {
                    None => Err(ParseError::MalformedNumber),
                    Some(length) => if lane >= 8 {
                        Err(ParseError::MalformedNumber)
                    } else {
                        Ok(NoteEntry { tick, lane: lane as u8, length: length as usize })
                    },
                }
            },
        }
    }
}

/// What a lower-cased marker makes of a tick and the words of its line:
/// `n` gives a note line, any other marker nothing.
pub open spec fn marked_note(kind: Seq<char>, tick: usize, words: Seq<Seq<char>>) -> Result<
    Option<NoteEntry>,
    ParseError,
> {
    if kind == "n"@ {
        match note_fields(tick, words) {
            Ok(entry) => Ok(Some(entry)),
            Err(e) => Err(e),
        }
    } else {
        Ok(None)
    }
}

/// One line of a note section, `tick = N lane length`. The tick must be a
/// number and a value must follow it, whatever the line is; the marker is
/// read in lower case, and lines of another kind than `N` are passed over.
pub open spec fn note_line(line: Seq<char>) -> Result<Option<NoteEntry>, ParseError> {
    match unsigned(assigned_key(line), usize::MAX as nat) {
        None => Err(ParseError::MalformedNumber),
        Some(tick) => match assigned_value(line) {
            None => Err(ParseError::MalformedLine),
            Some(value) => {
                let words = fields(value, ' ');
                marked_note(lowercase(words[0]), tick as usize, words)
            },
        },
    }
}

/// What reading one body line of a note section gives.
pub open spec fn note_reader() -> LineReader<NoteEntry> {
    |line: Seq<char>| note_line(line)
}

/// A chord at `tick` that holds nothing yet.
pub open spec fn silent(tick: usize) -> NoteView {
    NoteView { tick, frets: 0, length: Seq::new(8, |k: int| 0usize), time: 0 }
}

/// `note` with the lane of `entry` added to it.
pub open spec fn joined(note: NoteView, entry: NoteEntry) -> NoteView {
    NoteView {
        tick: note.tick,
        frets: note.frets | (1u8 << entry.lane),
        length: note.length.update(entry.lane as int, entry.length),
        time: note.time,
    }
}

/// The chords read so far with one more note line: the line joins the last
/// chord where that chord has its tick, and begins a new chord otherwise.
pub open spec fn with_entry(before: Seq<NoteView>, entry: NoteEntry) -> Seq<NoteView> {
    if before.len() > 0 && before.last().tick == entry.tick {
        before.update(before.len() - 1, joined(before.last(), entry))
    } else {
        before.push(joined(silent(entry.tick), entry))
    }
}

/// The chords that a run of note lines makes: lines that follow one another
/// with the same tick join into one chord, and every change of tick begins a
/// new one. No time is set yet.
pub open spec fn chords(entries: Seq<NoteEntry>) -> Seq<NoteView>
    decreases entries.len(),
{
    if entries.len() == 0 {
        Seq::empty()
    } else {
        with_entry(chords(entries.drop_last()), entries.last())
    }
}

/// Two note lines with the same tick make one chord, which holds the lanes
/// of both.
pub proof fn lemma_same_tick_merges(first: NoteEntry, second: NoteEntry)
    requires
        first.tick == second.tick,
        first.lane < 8,
        second.lane < 8,
    ensures
        chords(seq![first, second]).len() == 1,
        chords(seq![first, second])[0].tick == first.tick,
        chords(seq![first, second])[0].frets == (1u8 << first.lane) | (1u8 << second.lane),
        chords(seq![first, second])[0].length == silent(first.tick).length.update(
            first.lane as int,
            first.length,
        ).update(second.lane as int, second.length),
{
    let both = seq![first, second];
    assert(both.drop_last() =~= seq![first]);
    assert(chords(seq![first].drop_last()).len() == 0);
    assert(chords(seq![first]) =~= seq![joined(silent(first.tick), first)]);
    let a = first.lane;
    let b = second.lane;
    assert((0u8 | (1u8 << a)) | (1u8 << b) == (1u8 << a) | (1u8 << b)) by (bit_vector);
}

/// What one more note line does to the chords: a line with the tick of the
/// last chord leaves the number of chords as it is, any other line adds a
/// chord; either way every chord before the last stays as it was, and the
/// last chord has the line's tick and holds its lane.
pub proof fn lemma_chord_boundary(entries: Seq<NoteEntry>, entry: NoteEntry)
    requires
        entry.lane < 8,
    ensures
        chords(entries.push(entry)) == with_entry(chords(entries), entry),
        chords(entries.push(entry)).len() == chords(entries).len() + if chords(entries).len() > 0
            && chords(entries).last().tick == entry.tick {
            0int
        } else {
            1int
        },
        forall|k: int|
            0 <= k < chords(entries).len() - 1 ==> chords(entries.push(entry))[k] == chords(
                entries,
            )[k],
        chords(entries.push(entry)).last().tick == entry.tick,
        has_bit(chords(entries.push(entry)).last().frets, entry.lane),
{
    assert(entries.push(entry).drop_last() =~= entries);
    let before = chords(entries);
    let lane = entry.lane;
    let held = if before.len() > 0 && before.last().tick == entry.tick {
        before.last().frets
    } else {
        0u8
    };
    assert(((held | (1u8 << lane)) >> lane) & 1 == 1) by (bit_vector)
        requires
            lane < 8,
    ;
}

/// The chords of any run of note lines: there is one as soon as there is a
/// line, the last chord has the tick of the last line, and no chord has the
/// tick of the chord before it.
pub proof fn lemma_chords(entries: Seq<NoteEntry>)
    ensures
        chords(entries).len() <= entries.len(),
        entries.len() > 0 ==> chords(entries).len() > 0 && chords(entries).last().tick
            == entries.last().tick,
        forall|k: int|
            0 <= k < chords(entries).len() - 1 ==> (#[trigger] chords(entries)[k]).tick != chords(
                entries,
            )[k + 1].tick,
    decreases entries.len(),
{
    if entries.len() > 0 {
        lemma_chords(entries.drop_last());
    }
}

/// In every chord each of the eight lanes has its sustain, and a lane
/// that the chord does not hold has a sustain of zero.
pub proof fn lemma_chord_lanes(entries: Seq<NoteEntry>, c: int, lane: u8)
    requires
        forall|k: int| 0 <= k < entries.len() ==> (#[trigger] entries[k]).lane < 8,
        0 <= c < chords(entries).len(),
        lane < 8,
    ensures
        chords(entries)[c].length.len() == 8,
        !has_bit(chords(entries)[c].frets, lane) ==> chords(entries)[c].length[lane as int] == 0,
    decreases entries.len(),
{
    let rest = entries.drop_last();
    let entry = entries.last();
    let before = chords(rest);
    let added = entry.lane;
    if before.len() > 0 && before.last().tick == entry.tick {
        lemma_chord_lanes(rest, if c < before.len() {
            c
        } else {
            0
        }, lane);
        if c == before.len() - 1 {
            let held = before.last().frets;
            assert(((held | (1u8 << added)) >> added) & 1 == 1) by (bit_vector)
                requires
                    added < 8,
            ;
            assert(added != lane ==> (((held | (1u8 << added)) >> lane) & 1 == 1) == ((held
                >> lane) & 1 == 1)) by (bit_vector)
                requires
                    added < 8,
                    lane < 8,
            ;
        }
    } else {
        if c < before.len() {
            lemma_chord_lanes(rest, c, lane);
        } else {
            assert(((0u8 | (1u8 << added)) >> added) & 1 == 1) by (bit_vector)
                requires
                    added < 8,
            ;
        }
    }
}

/// The difficulty that a lower-cased section name begins with.
pub fn parse_difficulty(name: &Vec<char>) -> (d: Difficulty)
    ensures
        d == difficulty_of(name@),
{
    if starts_with(name, "easy") {
        Difficulty::Easy
    } else if starts_with(name, "medium") {
        Difficulty::Medium
    } else if starts_with(name, "hard") {
        Difficulty::Hard
    } else {
        Difficulty::Expert
    }
}

/// The instrument that a lower-cased section name ends with.
pub fn parse_instrument(name: &Vec<char>) -> (d: Instrument)
    ensures
        d == instrument_of(name@),
{
    if ends_with(name, "single") {
        Instrument::Single
    } else if ends_with(name, "doubleguitar") {
        Instrument::DoubleGuitar
    } else if ends_with(name, "doublebass") {
        Instrument::DoubleBass
    } else if ends_with(name, "doublerhythm") {
        Instrument::DoubleRhythm
    } else {
        Instrument::Unknown
    }
}

/// Reads one trimmed body line.
pub fn parse_note_line(line: &Vec<char>) -> (out: Result<Option<NoteEntry>, ParseError>)
    ensures
        out == note_line(line@),
{
    let (key, value) = split_assignment(line);
    let tick = match parse_usize(&key) {
        Some(tick) => tick,
        None => {
            return Err(ParseError::MalformedNumber);
        },
    };
    let value = match value {
        Some(value) => value,
        None => {
            return Err(ParseError::MalformedLine);
        },
    };
    let words = split(&value, ' ');
    let kind = to_lowercase(&words[0]);
    chart_item(&kind, tick, &words)
}

/// What a lower-cased marker makes of a tick and the words of its line.
pub fn chart_item(kind: &Vec<char>, tick: usize, words: &Vec<Vec<char>>) -> (out: Result<
    Option<NoteEntry>,
    ParseError,
>)
    ensures
        out == marked_note(kind@, tick, texts(words@)),
{
    if !equals(kind, "n") {
        return Ok(None);
    }
    match note_entry(tick, words) {
        Ok(entry) => Ok(Some(entry)),
        Err(e) => Err(e),
    }
}

/// The note line that the words behind the tick make: the second word is
/// the lane, the third the sustain.
pub fn note_entry(tick: usize, words: &Vec<Vec<char>>) -> (out: Result<NoteEntry, ParseError>)
    ensures
        out == note_fields(tick, texts(words@)),
{
    if words.len() < 2 {
        return Err(ParseError::MalformedLine);
    }
    let lane = match parse_u8(&words[1]) {
        Some(lane) => lane,
        None => {
            return Err(ParseError::MalformedNumber);
        },
    };
    if words.len() < 3 {
        return Err(ParseError::MalformedLine);
    }
    let length = match parse_usize(&words[2]) {
        Some(length) => length,
        None => {
            return Err(ParseError::MalformedNumber);
        },
    };
    if lane >= 8 {
        return Err(ParseError::MalformedNumber);
    }
    Ok(NoteEntry { tick, lane, length })
}

/// Adds one note line to the chords read so far.
pub fn add_note(notes: &mut Vec<Note>, entry: NoteEntry)
    requires
        entry.lane < 8,
    ensures
        final(notes).deep_view() == with_entry(old(notes).deep_view(), entry),
{
    let n = notes.len();
    let NoteEntry { tick, lane, length } = entry;
    if n > 0 && notes[n - 1].tick == tick {
        let mut note = notes[n - 1];
        note.frets = note.frets | (1u8 << lane);
        note.length[lane as usize] = length;
        notes[n - 1] = note;
    } else {
        let mut sustain: [usize; 8] = [0; 8];
        assert(sustain@ =~= silent(tick).length);
        sustain[lane as usize] = length;
        let note = Note { tick, frets: 0u8 | (1u8 << lane), length: sustain, time: 0 };
        notes.push(note);
    }
}

/// Reads the body of a note section from line `*i` on and leaves `*i` at
/// the line that closes it. `chart_type` is the lower-cased section name,
/// which tells the instrument and the difficulty. On failure `*i` is left
/// at the line that could not be read.
pub fn parse_chart(lines: &Vec<String>, i: &mut usize, chart_type: String) -> (out: Result<
    (Instrument, Difficulty, Chart),
    ParseError,
>)
    ensures
        *final(i) == scan(lines.deep_view(), *old(i) as int, note_reader()).stop,
        match out {
            Ok(found) => {
                let s = scan(lines.deep_view(), *old(i) as int, note_reader());
                &&& s.error is None
                &&& found.0 == instrument_of(chart_type@)
                &&& found.1 == difficulty_of(chart_type@)
                &&& found.2.deep_view() == (ChartView {
                    notes: chords(s.items),
                    starpower_events: Seq::empty(),
                })
            },
            Err(e) => scan(lines.deep_view(), *old(i) as int, note_reader()).error == Some(e),
        },
{
    let name = chars_of(chart_type.as_str());
    let difficulty = parse_difficulty(&name);
    let instrument = parse_instrument(&name);
    let ghost text = lines.deep_view();
    let ghost start = *i as int;
    let ghost mut entries: Seq<NoteEntry> = Seq::empty();
    let mut notes: Vec<Note> = Vec::new();
    loop
        invariant
            text == lines.deep_view(),
            start == *old(i),
            start <= *i,
            scan(text, start, note_reader()) == resumed(
                entries,
                scan(text, *i as int, note_reader()),
            ),
            notes.deep_view() == chords(entries),
            difficulty == difficulty_of(chart_type@),
            instrument == instrument_of(chart_type@),
        decreases lines.len() - *i,
    {
        if *i >= lines.len() {
            return Err(ParseError::MalformedLine);
        }
        let line = line_at(lines, *i);
        if is_closing(&line) {
            let starpower_events = Vec::new();
            return Ok((instrument, difficulty, Chart { notes, starpower_events }));
        }
        match parse_note_line(&line) {
            Err(e) => {
                return Err(e);
            },
            Ok(item) => {
                proof {
                    lemma_scan_step(text, start, *i as int, note_reader(), entries);
                }
                if let Some(entry) = item {
                    add_note(&mut notes, entry);
                    proof {
                        assert(entries + optional(note_line(line@)->Ok_0) =~= entries.push(entry));
                        assert(entries.push(entry).drop_last() =~= entries);
                        entries = entries.push(entry);
                    }
                }
            },
        }
        *i += 1;
    }
}

} // verus!
