//! The chart document: metadata, sync track, global events and note charts.

use vstd::prelude::*;
use vstd::utf8::{decode_utf8, valid_utf8};

use crate::chart::{chords, difficulty_of, instrument_of, note_reader, parse_chart};
use crate::charts::{timed_charts, ChartKey, Charts};
use crate::events::{event_reader, parse_events};
use crate::metadata::{
    lemma_unreadable_number, parse_song, song_fields, song_line, song_reader, unknown_keys,
    unreadable_number,
};
use crate::section::{
    closes, is_opening, lemma_scan_bounds, lemma_scan_fails_at, line_at, opens, scan,
};
use crate::sync::{parse_sync, sync_reader};
use crate::tempo::{breakpoints, map_tempo, timeable, timed_sync};
use crate::text::{
    assigned_key, assigned_value, decode, equals, fields, has_prefix, lowercase, slice_chars,
    split, starts_with, string_of, strip, stripped, to_lowercase, trimmed,
};
pub use crate::text::{remove_chars, remove_quotes};

verus! {

/// Why a chart could not be loaded.
#[derive(Debug, Clone, Copy, PartialEq, Eq, Structural)]
pub enum ParseError {
    /// The bytes are not UTF-8.
    EncodingError,
    /// The `Song` or the `SyncTrack` section is absent.
    MissingSection,
    /// The metadata names no resolution.
    MissingField,
    /// A number in a recognised section cannot be read, or the sync track
    /// cannot be timed.
    MalformedNumber,
    /// A line in a recognised section lacks a field, or a section is not
    /// closed.
    MalformedLine,
}

/// Something in a chart that was passed over. None of it stops the load.
#[derive(Debug, Clone, PartialEq, Eq)]
pub enum Warning {
    /// A section of a kind that is not known, with its header as written.
    UnknownSection(String),
    /// A line of the `Song` section with a key that is not known: the key
    /// as written, and the value.
    UnknownKey(String, String),
    /// A note section for an instrument and a difficulty that had one
    /// already, with its header as written. The later section is kept.
    DuplicateChart(String),
}

/// What a warning holds.
pub enum WarningView {
    UnknownSection(Seq<char>),
    UnknownKey(Seq<char>, Seq<char>),
    DuplicateChart(Seq<char>),
}

impl DeepView for Warning {
    type V = WarningView;

    open spec fn deep_view(&self) -> WarningView {
        match self {
            Warning::UnknownSection(header) => WarningView::UnknownSection(header@),
            Warning::UnknownKey(key, value) => WarningView::UnknownKey(key@, value@),
            Warning::DuplicateChart(header) => WarningView::DuplicateChart(header@),
        }
    }
}

/// A real number kept as the literal that the chart wrote for it.
#[derive(Debug, Clone, PartialEq, Eq)]
pub struct Real {
    pub literal: String,
}

impl DeepView for Real {
    type V = Seq<char>;

    open spec fn deep_view(&self) -> Seq<char> {
        self.literal@
    }
}

/// The `Song` section. Every field is optional.
#[derive(Debug, Clone, PartialEq, Eq)]
pub struct SongSection {
    pub name: Option<String>,
    pub artist: Option<String>,
    pub album: Option<String>,
    pub genre: Option<String>,
    pub year: Option<String>,
    pub charter: Option<String>,
    /// Ticks per quarter note.
    pub resolution: Option<usize>,
    pub difficulty: Option<usize>,
    pub length: Option<Real>,
    pub offset: Option<Real>,
    pub preview_start: Option<Real>,
    pub preview_end: Option<Real>,
}

/// What a `Song` section holds.
pub struct SongSectionView {
    pub name: Option<Seq<char>>,
    pub artist: Option<Seq<char>>,
    pub album: Option<Seq<char>>,
    pub genre: Option<Seq<char>>,
    pub year: Option<Seq<char>>,
    pub charter: Option<Seq<char>>,
    pub resolution: Option<usize>,
    pub difficulty: Option<usize>,
    pub length: Option<Seq<char>>,
    pub offset: Option<Seq<char>>,
    pub preview_start: Option<Seq<char>>,
    pub preview_end: Option<Seq<char>>,
}

impl SongSectionView {
    /// The section in which nothing is set.
    pub open spec fn empty() -> SongSectionView {
        SongSectionView {
            name: None,
            artist: None,
            album: None,
            genre: None,
            year: None,
            charter: None,
            resolution: None,
            difficulty: None,
            length: None,
            offset: None,
            preview_start: None,
            preview_end: None,
        }
    }
}

impl DeepView for SongSection {
    type V = SongSectionView;

    open spec fn deep_view(&self) -> SongSectionView {
        SongSectionView {
            name: self.name.deep_view(),
            artist: self.artist.deep_view(),
            album: self.album.deep_view(),
            genre: self.genre.deep_view(),
            year: self.year.deep_view(),
            charter: self.charter.deep_view(),
            resolution: self.resolution,
            difficulty: self.difficulty,
            length: self.length.deep_view(),
            offset: self.offset.deep_view(),
            preview_start: self.preview_start.deep_view(),
            preview_end: self.preview_end.deep_view(),
        }
    }
}

impl Default for SongSection {
    fn default() -> (s: SongSection)
        ensures
            s.deep_view() == SongSectionView::empty(),
    {
        SongSection {
            name: None,
            artist: None,
            album: None,
            genre: None,
            year: None,
            charter: None,
            resolution: None,
            difficulty: None,
            length: None,
            offset: None,
            preview_start: None,
            preview_end: None,
        }
    }
}

/// A tempo change. `bpm` counts thousandths of a beat per minute, as the
/// chart writes it; `time` is the moment it takes effect, in microseconds,
/// and stays zero until the tempo map has been applied.
#[derive(Debug, Clone, Copy, PartialEq, Eq, Structural)]
pub struct TempoEvent {
    pub bpm: usize,
    pub time: u128,
}

/// An event of the sync track.
#[derive(Debug, Clone, Copy, PartialEq, Eq, Structural)]
pub enum SyncEvent {
    /// Numerator and denominator.
    TimeSignature(usize, usize),
    Tempo(TempoEvent),
}

/// An event of the song as a whole. Section markers and lyrics carry
/// their text.
#[derive(Debug, Clone, PartialEq, Eq)]
pub enum GlobalEvent {
    Section(String),
    PhraseStart,
    Lyric(String),
    PhraseEnd,
    SongEnd,
}

/// What a global event holds.
pub enum GlobalEventView {
    Section(Seq<char>),
    PhraseStart,
    Lyric(Seq<char>),
    PhraseEnd,
    SongEnd,
}

impl DeepView for GlobalEvent {
    type V = GlobalEventView;

    open spec fn deep_view(&self) -> GlobalEventView {
        match self {
            GlobalEvent::Section(name) => GlobalEventView::Section(name@),
            GlobalEvent::PhraseStart => GlobalEventView::PhraseStart,
            GlobalEvent::Lyric(text) => GlobalEventView::Lyric(text@),
            GlobalEvent::PhraseEnd => GlobalEventView::PhraseEnd,
            GlobalEvent::SongEnd => GlobalEventView::SongEnd,
        }
    }
}

/// The instrument of a chart.
#[derive(Debug, Clone, Copy, Hash, PartialEq, Eq, Structural)]
pub enum Instrument {
    Single,
    DoubleGuitar,
    DoubleBass,
    DoubleRhythm,
    Unknown,
}

/// The difficulty of a chart.
#[derive(Debug, Clone, Copy, Hash, PartialEq, Eq, Structural)]
pub enum Difficulty {
    Easy,
    Medium,
    Hard,
    Expert,
}

/// A star-power phrase: where it starts and how many ticks it lasts.
#[derive(Debug, Clone, Copy, PartialEq, Eq, Structural)]
pub struct StarpowerEvent {
    pub tick: usize,
    pub length: usize,
}

/// An event within one chart.
#[derive(Debug, Clone, Copy, PartialEq, Eq, Structural)]
pub enum LocalEvent {
    SoloStart,
    SoloEnd,
}

/// One chord. Bits 0 to 4 of `frets` are the five lanes, bit 6 marks a tap
/// note and bit 7 an open note; `length[n]` is the sustain of bit `n` in
/// ticks; `time` is the chord's moment in microseconds.
#[derive(Debug, Clone, Copy, PartialEq, Eq)]
pub struct Note {
    pub tick: usize,
    pub frets: u8,
    pub length: [usize; 8],
    pub time: u128,
}

/// What a note holds.
pub struct NoteView {
    pub tick: usize,
    pub frets: u8,
    pub length: Seq<usize>,
    pub time: u128,
}

impl DeepView for Note {
    type V = NoteView;

    open spec fn deep_view(&self) -> NoteView {
        NoteView { tick: self.tick, frets: self.frets, length: self.length@, time: self.time }
    }
}

/// Whether bit `n` of a flag set is set.
pub open spec fn has_bit(flags: u8, n: u8) -> bool {
    (flags >> n) & 1 == 1
}

impl Note {
    /// Whether lane `n` is part of the chord. There are eight lanes.
    pub fn lane(&self, n: u8) -> (b: bool)
        ensures
            b == (n < 8 && has_bit(self.frets, n)),
    {
        n < 8 && (self.frets >> n) & 1 == 1
    }

    /// Whether the chord is an open note: no lane is held for it.
    pub fn is_open(&self) -> (b: bool)
        ensures
            b == has_bit(self.frets, 7),
    {
        (self.frets >> 7u8) & 1 == 1
    }

    /// Whether the chord is a tap note.
    pub fn is_tap(&self) -> (b: bool)
        ensures
            b == has_bit(self.frets, 6),
    {
        (self.frets >> 6u8) & 1 == 1
    }
}

/// The notes of one instrument at one difficulty, in the order of the
/// file, and its star-power phrases.
#[derive(Debug, Clone, PartialEq, Eq)]
pub struct Chart {
    pub notes: Vec<Note>,
    pub starpower_events: Vec<StarpowerEvent>,
}

/// What a chart holds.
pub struct ChartView {
    pub notes: Seq<NoteView>,
    pub starpower_events: Seq<StarpowerEvent>,
}

impl DeepView for Chart {
    type V = ChartView;

    open spec fn deep_view(&self) -> ChartView {
        ChartView {
            notes: self.notes.deep_view(),
            starpower_events: self.starpower_events@,
        }
    }
}

/// A loaded chart file.
#[derive(Debug)]
pub struct Song {
    pub metadata: Option<SongSection>,
    pub sync_track: Option<Vec<(usize, SyncEvent)>>,
    pub events: Option<Vec<(usize, GlobalEvent)>>,
    pub charts: Charts,
}

/// What a song holds.
pub struct SongView {
    pub metadata: Option<SongSectionView>,
    pub sync_track: Option<Seq<(usize, SyncEvent)>>,
    pub events: Option<Seq<(usize, GlobalEventView)>>,
    pub charts: Map<ChartKey, ChartView>,
}

impl SongView {
    /// The song that holds nothing.
    pub open spec fn empty() -> SongView {
        SongView { metadata: None, sync_track: None, events: None, charts: Map::empty() }
    }
}

impl DeepView for Song {
    type V = SongView;

    open spec fn deep_view(&self) -> SongView {
        SongView {
            metadata: self.metadata.deep_view(),
            sync_track: match self.sync_track {
                Some(track) => Some(track@),
                None => None,
            },
            events: self.events.deep_view(),
            charts: self.charts@,
        }
    }
}

impl Default for Song {
    fn default() -> (song: Song)
        ensures
            song.deep_view() == SongView::empty(),
    {
        Song { metadata: None, sync_track: None, events: None, charts: Charts::new() }
    }
}

/// What a section holds, as its lower-cased name tells.
#[derive(Debug, Clone, Copy, PartialEq, Eq, Structural)]
pub enum SectionKind {
    Metadata,
    SyncTrack,
    Events,
    Notes,
    Unknown,
}

/// Whether a lower-cased section name begins with a difficulty.
pub open spec fn names_difficulty(name: Seq<char>) -> bool {
    has_prefix(name, "expert"@) || has_prefix(name, "hard"@) || has_prefix(name, "medium"@)
        || has_prefix(name, "easy"@)
}

/// The kind of the section with a lower-cased name.
pub open spec fn section_kind(name: Seq<char>) -> SectionKind {
    if name == "song"@ {
        SectionKind::Metadata
    } else if name == "synctrack"@ {
        SectionKind::SyncTrack
    } else if name == "events"@ {
        SectionKind::Events
    } else if names_difficulty(name) {
        SectionKind::Notes
    } else {
        SectionKind::Unknown
    }
}

/// Whether a trimmed line is the header of a section.
pub open spec fn is_header(line: Seq<char>) -> bool {
    line.len() > 0 && line[0] == '['
}

/// The name in a header: the line without its first and last character, in
/// lower case.
pub open spec fn header_name(line: Seq<char>) -> Seq<char> {
    lowercase(stripped(line, 1, 1))
}

/// The line at which the body of the section with its header at `i`
/// begins: behind the header and behind an opening brace that follows it.
pub open spec fn body_start(lines: Seq<Seq<char>>, i: int) -> int {
    if opens(trimmed(lines[i + 1])) {
        i + 2
    } else {
        i + 1
    }
}

/// A song as far as it has been read, and what was passed over on the way.
pub struct Reading {
    pub song: SongView,
    pub warnings: Seq<WarningView>,
}

impl Reading {
    /// Nothing read yet.
    pub open spec fn empty() -> Reading {
        Reading { song: SongView::empty(), warnings: Seq::empty() }
    }
}

/// The warnings after a note section has been read: one more where the
/// song had a chart under the section's key already.
pub open spec fn noting_chart(
    warnings: Seq<WarningView>,
    charts: Map<ChartKey, ChartView>,
    key: ChartKey,
    header: Seq<char>,
) -> Seq<WarningView> {
    if charts.contains_key(key) {
        warnings.push(WarningView::DuplicateChart(header))
    } else {
        warnings
    }
}

/// The line at which reading goes on behind a section, given the line at
/// which its body begins and its lower-cased name: the line behind the
/// closing line of a known section, and the first body line of an unknown
/// one, whose lines are read like lines outside sections.
pub open spec fn section_next(lines: Seq<Seq<char>>, body: int, name: Seq<char>) -> int {
    match section_kind(name) {
        SectionKind::Metadata => scan(lines, body, song_reader()).stop + 1,
        SectionKind::SyncTrack => scan(lines, body, sync_reader()).stop + 1,
        SectionKind::Events => scan(lines, body, event_reader()).stop + 1,
        SectionKind::Notes => scan(lines, body, note_reader()).stop + 1,
        SectionKind::Unknown => body,
    }
}

/// What one section adds to what has been read, given the line at which
/// its body begins, its lower-cased name and its header as written. A known
/// section is read up to its closing line and replaces what the song held
/// of its kind. An unknown section changes nothing and is noted. Unknown
/// keys of the `Song` section and charts that replace another are noted
/// too.
pub open spec fn section_read(
    lines: Seq<Seq<char>>,
    body: int,
    name: Seq<char>,
    header: Seq<char>,
    read: Reading,
) -> Result<Reading, ParseError> {
    let song = read.song;
    match section_kind(name) {
        SectionKind::Metadata => {
            let s = scan(lines, body, song_reader());
            match s.error {
                Some(e) => Err(e),
                None => Ok(
                    Reading {
                        song: SongView { metadata: Some(song_fields(s.items)), ..song },
                        warnings: read.warnings + unknown_keys(s.items),
                    },
                ),
            }
        },
        SectionKind::SyncTrack => {
            let s = scan(lines, body, sync_reader());
            match s.error {
                Some(e) => Err(e),
                None => Ok(Reading { song: SongView { sync_track: Some(s.items), ..song }, ..read }),
            }
        },
        SectionKind::Events => {
            let s = scan(lines, body, event_reader());
            match s.error {
                Some(e) => Err(e),
                None => Ok(Reading { song: SongView { events: Some(s.items), ..song }, ..read }),
            }
        },
        SectionKind::Notes => {
            let s = scan(lines, body, note_reader());
            let key = (instrument_of(name), difficulty_of(name));
            match s.error {
                Some(e) => Err(e),
                None => Ok(
                    Reading {
                        song: SongView {
                            charts: song.charts.insert(
                                key,
                                ChartView { notes: chords(s.items), starpower_events: Seq::empty() },
                            ),
                            ..song
                        },
                        warnings: noting_chart(read.warnings, song.charts, key, header),
                    },
                ),
            }
        },
        SectionKind::Unknown => Ok(
            Reading { warnings: read.warnings.push(WarningView::UnknownSection(header)), ..read },
        ),
    }
}

/// What the lines from `i` on add to what has been read. Lines outside
/// sections are passed over until a header is found. Each section is read
/// as `section_read` says, and reading goes on where `section_next` says:
/// behind the closing line of a known section, and behind the header of an
/// unknown one and the opening brace that may follow it. The first section
/// that fails ends the reading, as does a header on the last line.
pub open spec fn sections(lines: Seq<Seq<char>>, i: int, read: Reading) -> Result<
    Reading,
    ParseError,
>
    decreases lines.len() - i,
    via sections_decreases
{
    if i < 0 || i >= lines.len() {
        Ok(read)
    } else if !is_header(trimmed(lines[i])) {
        sections(lines, i + 1, read)
    } else if i + 1 >= lines.len() {
        Err(ParseError::MalformedLine)
    } else {
        let header = trimmed(lines[i]);
        let body = body_start(lines, i);
        let name = header_name(header);
        match section_read(lines, body, name, header, read) {
            Err(e) => Err(e),
            Ok(more) => sections(lines, section_next(lines, body, name), more),
        }
    }
}

#[via_fn]
proof fn sections_decreases(lines: Seq<Seq<char>>, i: int, read: Reading) {
    if 0 <= i && i + 1 < lines.len() {
        let body = body_start(lines, i);
        lemma_scan_bounds(lines, body, song_reader());
        lemma_scan_bounds(lines, body, sync_reader());
        lemma_scan_bounds(lines, body, event_reader());
        lemma_scan_bounds(lines, body, note_reader());
    }
}

/// Whether reading the lines from `i` on, with `read` in hand, comes to
/// line `p` between two sections, with `at` in hand.
pub open spec fn arrives(lines: Seq<Seq<char>>, i: int, read: Reading, p: int, at: Reading) -> bool
    decreases lines.len() - i,
{
    if i == p {
        read == at
    } else if i < 0 || i >= lines.len() || i > p {
        false
    } else if !is_header(trimmed(lines[i])) {
        arrives(lines, i + 1, read, p, at)
    } else if i + 1 >= lines.len() {
        false
    } else {
        let header = trimmed(lines[i]);
        let body = body_start(lines, i);
        let name = header_name(header);
        let next = section_next(lines, body, name);
        match section_read(lines, body, name, header, read) {
            Err(_) => false,
            Ok(more) => if i < next <= p && next <= lines.len() {
                arrives(lines, next, more, p, at)
            } else {
                false
            },
        }
    }
}

/// Where the reading comes to a line, it goes on from there.
pub proof fn lemma_arrives(lines: Seq<Seq<char>>, i: int, read: Reading, p: int, at: Reading)
    requires
        arrives(lines, i, read, p, at),
        p <= lines.len(),
    ensures
        sections(lines, i, read) == sections(lines, p, at),
    decreases lines.len() - i,
{
    if i != p {
        if !is_header(trimmed(lines[i])) {
            lemma_arrives(lines, i + 1, read, p, at);
        } else {
            let header = trimmed(lines[i]);
            let body = body_start(lines, i);
            let name = header_name(header);
            let next = section_next(lines, body, name);
            let more = section_read(lines, body, name, header, read)->Ok_0;
            lemma_arrives(lines, next, more, p, at);
        }
    }
}

/// Lines that are no headers add nothing: reading from the first of them
/// is reading from behind the last.
pub proof fn lemma_lines_outside_sections(lines: Seq<Seq<char>>, i: int, k: int, read: Reading)
    requires
        0 <= i <= k <= lines.len(),
        forall|j: int| i <= j < k ==> !is_header(trimmed(#[trigger] lines[j])),
    ensures
        sections(lines, i, read) == sections(lines, k, read),
    decreases k - i,
{
    if i < k {
        lemma_lines_outside_sections(lines, i + 1, k, read);
    }
}

/// Whether line `bad` is the first fault of the `Song` section whose header
/// is line `i`, and that fault a number that cannot be read: every body
/// line before it can be read and does not close the section, and line
/// `bad` gives a numeric key a value that is no number of its kind.
pub open spec fn number_fault(lines: Seq<Seq<char>>, i: int, bad: int) -> bool {
    &&& 0 <= i
    &&& i + 1 < lines.len()
    &&& is_header(trimmed(lines[i]))
    &&& section_kind(header_name(trimmed(lines[i]))) == SectionKind::Metadata
    &&& body_start(lines, i) <= bad < lines.len()
    &&& forall|j: int|
        body_start(lines, i) <= j < bad ==> !closes(trimmed(#[trigger] lines[j])) && song_line(
            trimmed(lines[j]),
        ) is Ok
    &&& !closes(trimmed(lines[bad]))
    &&& assigned_value(trimmed(lines[bad])) is Some
    &&& unreadable_number(
        lowercase(assigned_key(trimmed(lines[bad]))),
        assigned_value(trimmed(lines[bad]))->0,
    )
}

/// A number of the `Song` section that cannot be read fails the reading,
/// whatever was read before and whatever follows: nothing of the song is
/// handed on.
pub proof fn lemma_unreadable_number_fails(lines: Seq<Seq<char>>, i: int, read: Reading, bad: int)
    requires
        number_fault(lines, i, bad),
    ensures
        sections(lines, i, read) == Err::<Reading, ParseError>(ParseError::MalformedNumber),
{
    let line = trimmed(lines[bad]);
    lemma_unreadable_number(
        lowercase(assigned_key(line)),
        assigned_key(line),
        assigned_value(line)->0,
    );
    lemma_scan_fails_at(lines, body_start(lines, i), bad, song_reader());
}

/// A chart fails to load where the reading of its lines comes to a `Song`
/// section in which a number cannot be read, whatever else the chart
/// holds: the load ends in a malformed number and hands no song back.
pub proof fn lemma_malformed_metadata_fails(lines: Seq<Seq<char>>, i: int, read: Reading, bad: int)
    requires
        arrives(lines, 0, Reading::empty(), i, read),
        number_fault(lines, i, bad),
    ensures
        sections(lines, 0, Reading::empty()) == Err::<Reading, ParseError>(
            ParseError::MalformedNumber,
        ),
        loaded_lines(lines) == Err::<Reading, ParseError>(ParseError::MalformedNumber),
{
    lemma_arrives(lines, 0, Reading::empty(), i, read);
    lemma_unreadable_number_fails(lines, i, read, bad);
}

/// A chart file in which the reading comes to a number of the `Song`
/// section that cannot be read does not load.
pub proof fn lemma_file_with_unreadable_number_fails(
    bytes: Seq<u8>,
    i: int,
    read: Reading,
    bad: int,
)
    requires
        valid_utf8(bytes),
        arrives(file_lines(bytes), 0, Reading::empty(), i, read),
        number_fault(file_lines(bytes), i, bad),
    ensures
        loaded(bytes) == Err::<Reading, ParseError>(ParseError::MalformedNumber),
        document(bytes) == Err::<SongView, ParseError>(ParseError::MalformedNumber),
{
    lemma_malformed_metadata_fails(file_lines(bytes), i, read, bad);
}

/// An unknown section changes nothing but the warnings, which gain one that
/// names it. `end` is the line behind the section; no line of its body may
/// look like a header.
pub proof fn lemma_unknown_section_only_warns(
    lines: Seq<Seq<char>>,
    i: int,
    read: Reading,
    end: int,
)
    requires
        0 <= i,
        i + 1 < lines.len(),
        is_header(trimmed(lines[i])),
        section_kind(header_name(trimmed(lines[i]))) == SectionKind::Unknown,
        body_start(lines, i) <= end <= lines.len(),
        forall|j: int| body_start(lines, i) <= j < end ==> !is_header(trimmed(#[trigger] lines[j])),
    ensures
        sections(lines, i, read) == sections(
            lines,
            end,
            Reading {
                song: read.song,
                warnings: read.warnings.push(WarningView::UnknownSection(trimmed(lines[i]))),
            },
        ),
{
    let noted = Reading {
        song: read.song,
        warnings: read.warnings.push(WarningView::UnknownSection(trimmed(lines[i]))),
    };
    lemma_lines_outside_sections(lines, body_start(lines, i), end, noted);
}

/// The text without one byte-order mark at its start.
pub open spec fn without_mark(text: Seq<char>) -> Seq<char> {
    if text.len() > 0 && text[0] == '\u{feff}' {
        text.skip(1)
    } else {
        text
    }
}

/// A song with its times set: the time of every tempo event and of every
/// note, from the song's own resolution and sync track. Without metadata or
/// a sync track a section is missing, without a resolution a field; a
/// sync track that cannot be timed holds a malformed number.
pub open spec fn timed_song(song: SongView) -> Result<SongView, ParseError> {
    match song.metadata {
        None => Err(ParseError::MissingSection),
        Some(meta) => match meta.resolution {
            None => Err(ParseError::MissingField),
            Some(resolution) => match song.sync_track {
                None => Err(ParseError::MissingSection),
                Some(track) => if timeable(track, resolution) {
                    Ok(
                        SongView {
                            sync_track: Some(timed_sync(track, resolution)),
                            charts: timed_charts(
                                song.charts,
                                breakpoints(track, resolution),
                                resolution,
                            ),
                            ..song
                        },
                    )
                } else {
                    Err(ParseError::MalformedNumber)
                },
            },
        },
    }
}

/// In every chart of a song whose times have been set, a note with a
/// smaller tick never has a later time.
pub proof fn lemma_timed_song_in_time_order(song: SongView, key: ChartKey, a: int, b: int)
    requires
        timed_song(song) is Ok,
        song.charts.contains_key(key),
        0 <= a < song.charts[key].notes.len(),
        0 <= b < song.charts[key].notes.len(),
        song.charts[key].notes[a].tick <= song.charts[key].notes[b].tick,
    ensures
        timed_song(song)->Ok_0.charts.contains_key(key),
        timed_song(song)->Ok_0.charts[key].notes.len() == song.charts[key].notes.len(),
        timed_song(song)->Ok_0.charts[key].notes[a].tick == song.charts[key].notes[a].tick,
        timed_song(song)->Ok_0.charts[key].notes[b].tick == song.charts[key].notes[b].tick,
        timed_song(song)->Ok_0.charts[key].notes[a].time <= timed_song(
            song,
        )->Ok_0.charts[key].notes[b].time,
{
    let resolution = song.metadata->0.resolution->0;
    let track = song.sync_track->0;
    crate::tempo::lemma_breakpoints_well_timed(track, resolution);
    crate::tempo::lemma_notes_in_time_order(
        song.charts[key],
        breakpoints(track, resolution),
        resolution,
        a,
        b,
    );
}

/// What loading the lines of a chart file gives: the lines read section by
/// section, and the song then timed.
pub open spec fn loaded_lines(lines: Seq<Seq<char>>) -> Result<Reading, ParseError> {
    match sections(lines, 0, Reading::empty()) {
        Err(e) => Err(e),
        Ok(read) => match timed_song(read.song) {
            Err(e) => Err(e),
            Ok(song) => Ok(Reading { song, warnings: read.warnings }),
        },
    }
}

/// The lines of a chart file: its bytes decoded, without a byte-order mark
/// at their start, split at every line feed.
pub open spec fn file_lines(bytes: Seq<u8>) -> Seq<Seq<char>> {
    fields(without_mark(decode_utf8(bytes)), '\n')
}

/// What loading a chart file gives: its lines loaded, if its bytes are
/// UTF-8.
pub open spec fn loaded(bytes: Seq<u8>) -> Result<Reading, ParseError> {
    if !valid_utf8(bytes) {
        Err(ParseError::EncodingError)
    } else {
        loaded_lines(file_lines(bytes))
    }
}

/// The song that a chart file holds.
pub open spec fn document(bytes: Seq<u8>) -> Result<SongView, ParseError> {
    match loaded(bytes) {
        Ok(read) => Ok(read.song),
        Err(e) => Err(e),
    }
}

/// In every chart of a loaded song, a note with a smaller tick never has a
/// later time.
pub proof fn lemma_document_in_time_order(bytes: Seq<u8>, key: ChartKey, a: int, b: int)
    requires
        document(bytes) is Ok,
        document(bytes)->Ok_0.charts.contains_key(key),
        0 <= a < document(bytes)->Ok_0.charts[key].notes.len(),
        0 <= b < document(bytes)->Ok_0.charts[key].notes.len(),
        document(bytes)->Ok_0.charts[key].notes[a].tick <= document(
            bytes,
        )->Ok_0.charts[key].notes[b].tick,
    ensures
        document(bytes)->Ok_0.charts[key].notes[a].time <= document(
            bytes,
        )->Ok_0.charts[key].notes[b].time,
{
    let read = sections(file_lines(bytes), 0, Reading::empty())->Ok_0;
    lemma_timed_song_in_time_order(read.song, key, a, b);
}

/// Splits a text into its lines, at every line feed.
pub fn split_lines(text: &Vec<char>) -> (lines: Vec<String>)
    ensures
        lines.deep_view() == fields(text@, '\n'),
{
    let pieces = split(text, '\n');
    let mut lines: Vec<String> = Vec::new();
    let mut k: usize = 0;
    while k < pieces.len()
        invariant
            k <= pieces.len(),
            lines@.len() == k,
            forall|j: int| 0 <= j < k ==> (#[trigger] lines@[j])@ == pieces@[j]@,
        decreases pieces.len() - k,
    {
        lines.push(string_of(&pieces[k]));
        k += 1;
    }
    lines
}

/// The kind of the section with a lower-cased name.
pub fn kind_of_section(name: &Vec<char>) -> (kind: SectionKind)
    ensures
        kind == section_kind(name@),
{
    if equals(name, "song") {
        SectionKind::Metadata
    } else if equals(name, "synctrack") {
        SectionKind::SyncTrack
    } else if equals(name, "events") {
        SectionKind::Events
    } else if starts_with(name, "expert") || starts_with(name, "hard") || starts_with(
        name,
        "medium",
    ) || starts_with(name, "easy") {
        SectionKind::Notes
    } else {
        SectionKind::Unknown
    }
}

/// Reads one section into a song. `*i` is the line at which the body
/// begins, `name` the section's lower-cased name, `header` its header as
/// written. `*i` is left at the line at which reading goes on, and on
/// failure at the line that could not be read.
pub fn read_section(
    lines: &Vec<String>,
    i: &mut usize,
    name: &Vec<char>,
    header: &Vec<char>,
    song: Song,
    warnings: Vec<Warning>,
) -> (out: Result<(Song, Vec<Warning>), ParseError>)
    ensures
        *final(i) == section_next(lines.deep_view(), *old(i) as int, name@) - if out is Ok {
            0int
        } else {
            1int
        },
        match section_read(
            lines.deep_view(),
            *old(i) as int,
            name@,
            header@,
            Reading { song: song.deep_view(), warnings: warnings.deep_view() },
        ) {
            Ok(read) => out is Ok && out->Ok_0.0.deep_view() == read.song
                && out->Ok_0.1.deep_view() == read.warnings,
            Err(e) => out is Err && out->Err_0 == e,
        },
{
    let mut song = song;
    let mut warnings = warnings;
    proof {
        assert(lines.deep_view().len() == lines.len());
        lemma_scan_bounds(lines.deep_view(), *i as int, song_reader());
        lemma_scan_bounds(lines.deep_view(), *i as int, sync_reader());
        lemma_scan_bounds(lines.deep_view(), *i as int, event_reader());
        lemma_scan_bounds(lines.deep_view(), *i as int, note_reader());
    }
    match kind_of_section(name) {
        SectionKind::Metadata => match parse_song(lines, i) {
            Err(e) => {
                return Err(e);
            },
            Ok(found) => {
                let (meta, unknown) = found;
                song.metadata = Some(meta);
                append_warnings(&mut warnings, unknown);
                *i += 1;
            },
        },
        SectionKind::SyncTrack => match parse_sync(lines, i) {
            Err(e) => {
                return Err(e);
            },
            Ok(track) => {
                song.sync_track = Some(track);
                *i += 1;
            },
        },
        SectionKind::Events => match parse_events(lines, i) {
            Err(e) => {
                return Err(e);
            },
            Ok(events) => {
                song.events = Some(events);
                *i += 1;
            },
        },
        SectionKind::Notes => match parse_chart(lines, i, string_of(name)) {
            Err(e) => {
                return Err(e);
            },
            Ok(found) => {
                let replaced = song.charts.insert(found.0, found.1, found.2);
                if replaced.is_some() {
                    push_warning(&mut warnings, Warning::DuplicateChart(string_of(header)));
                }
                *i += 1;
            },
        },
        SectionKind::Unknown => {
            push_warning(&mut warnings, Warning::UnknownSection(string_of(header)));
        },
    }
    Ok((song, warnings))
}

/// Reads every section of a chart and hands back the song with what was
/// passed over. No time is set yet.
pub fn read_sections(lines: &Vec<String>) -> (out: Result<(Song, Vec<Warning>), ParseError>)
    ensures
        match sections(lines.deep_view(), 0, Reading::empty()) {
            Ok(read) => out is Ok && out->Ok_0.0.deep_view() == read.song
                && out->Ok_0.1.deep_view() == read.warnings,
            Err(e) => out is Err && out->Err_0 == e,
        },
{
    let ghost text = lines.deep_view();
    let mut song = Song::default();
    let mut warnings: Vec<Warning> = Vec::new();
    let mut i: usize = 0;
    assert(warnings.deep_view() =~= Seq::empty());
    while i < lines.len()
        invariant
            text == lines.deep_view(),
            i <= lines.len(),
            sections(text, 0, Reading::empty()) == sections(
                text,
                i as int,
                Reading { song: song.deep_view(), warnings: warnings.deep_view() },
            ),
        decreases lines.len() - i,
    {
        let line = line_at(lines, i);
        if line.len() > 0 && line[0] == '[' {
            if i + 1 >= lines.len() {
                return Err(ParseError::MalformedLine);
            }
            i += 1;
            if is_opening(&line_at(lines, i)) {
                i += 1;
            }
            let name = to_lowercase(&strip(&line, 1, 1));
            proof {
                lemma_scan_bounds(text, i as int, song_reader());
                lemma_scan_bounds(text, i as int, sync_reader());
                lemma_scan_bounds(text, i as int, event_reader());
                lemma_scan_bounds(text, i as int, note_reader());
            }
            match read_section(lines, &mut i, &name, &line, song, warnings) {
                Err(e) => {
                    return Err(e);
                },
                Ok(found) => {
                    song = found.0;
                    warnings = found.1;
                },
            }
        } else {
            i += 1;
        }
    }
    Ok((song, warnings))
}

/// Adds a warning to those noted.
fn push_warning(warnings: &mut Vec<Warning>, warning: Warning)
    ensures
        final(warnings).deep_view() == old(warnings).deep_view().push(warning.deep_view()),
{
    warnings.push(warning);
}

/// Adds a run of warnings to those noted.
fn append_warnings(warnings: &mut Vec<Warning>, more: Vec<Warning>)
    ensures
        final(warnings).deep_view() == old(warnings).deep_view() + more.deep_view(),
{
    let mut more = more;
    warnings.append(&mut more);
}

/// Sets the time of every tempo event and of every note. On failure the
/// song is left as it was.
pub fn time_song(song: &mut Song) -> (out: Result<(), ParseError>)
    ensures
        match timed_song(old(song).deep_view()) {
            Ok(view) => out is Ok && final(song).deep_view() == view,
            Err(e) => out is Err && out->Err_0 == e && final(song).deep_view() == old(
                song,
            ).deep_view(),
        },
{
    let resolution = match &song.metadata {
        None => {
            return Err(ParseError::MissingSection);
        },
        Some(meta) => match meta.resolution {
            None => {
                return Err(ParseError::MissingField);
            },
            Some(resolution) => resolution,
        },
    };
    match &mut song.sync_track {
        None => Err(ParseError::MissingSection),
        Some(track) => match map_tempo(track, resolution) {
            Err(e) => Err(e),
            Ok(map) => {
                song.charts.set_times(&map);
                Ok(())
            },
        },
    }
}

/// Loads a chart from the bytes of its file, and hands back with the song
/// what was passed over in the file.
pub fn parse_with_warnings(bytes: &[u8]) -> (out: Result<(Song, Vec<Warning>), ParseError>)
    ensures
        match loaded(bytes@) {
            Ok(read) => out is Ok && out->Ok_0.0.deep_view() == read.song
                && out->Ok_0.1.deep_view() == read.warnings,
            Err(e) => out is Err && out->Err_0 == e,
        },
{
    let text = match decode(bytes) {
        Some(text) => text,
        None => {
            return Err(ParseError::EncodingError);
        },
    };
    let start: usize = if text.len() > 0 && text[0] == '\u{feff}' {
        1
    } else {
        0
    };
    let body = slice_chars(&text, start, text.len());
    assert(body@ =~= without_mark(text@));
    let lines = split_lines(&body);
    let (mut song, warnings) = match read_sections(&lines) {
        Ok(read) => read,
        Err(e) => {
            return Err(e);
        },
    };
    match time_song(&mut song) {
        Ok(_) => Ok((song, warnings)),
        Err(e) => Err(e),
    }
}

/// Loads a chart from the bytes of its file.
pub fn parse(bytes: &[u8]) -> (out: Result<Song, ParseError>)
    ensures
        match document(bytes@) {
            Ok(view) => out is Ok && out->Ok_0.deep_view() == view,
            Err(e) => out is Err && out->Err_0 == e,
        },
{
    match parse_with_warnings(bytes) {
        Ok(read) => Ok(read.0),
        Err(e) => Err(e),
    }
}

} // verus!
