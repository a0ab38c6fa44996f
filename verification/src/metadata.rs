//! The `Song` section: what the chart says about the song.

use vstd::prelude::*;

use crate::number::{is_real, parse_usize, real_literal, unsigned};
use crate::section::{
    is_closing, lemma_scan_step, line_at, optional, resumed, scan, LineReader,
};
use crate::song::{ParseError, Real, SongSection, SongSectionView, Warning, WarningView};
use crate::text::{
    assigned_key, assigned_value, chars_of, equals, has_prefix, lowercase, matches_at,
    remove_quotes, slice_chars, split_assignment, string_of, stripped, to_lowercase,
};

verus! {

/// One setting of the section.
pub enum SongField {
    Name(Seq<char>),
    Artist(Seq<char>),
    Album(Seq<char>),
    Genre(Seq<char>),
    Year(Seq<char>),
    Charter(Seq<char>),
    Resolution(usize),
    Difficulty(usize),
    Length(Seq<char>),
    Offset(Seq<char>),
    PreviewStart(Seq<char>),
    PreviewEnd(Seq<char>),
    /// A key that is not known, as written, and its value.
    Unknown(Seq<char>, Seq<char>),
}

/// `meta` with one field set anew.
pub open spec fn with_field(meta: SongSectionView, field: SongField) -> SongSectionView {
    match field {
        SongField::Name(s) => SongSectionView { name: Some(s), ..meta },
        SongField::Artist(s) => SongSectionView { artist: Some(s), ..meta },
        SongField::Album(s) => SongSectionView { album: Some(s), ..meta },
        SongField::Genre(s) => SongSectionView { genre: Some(s), ..meta },
        SongField::Year(s) => SongSectionView { year: Some(s), ..meta },
        SongField::Charter(s) => SongSectionView { charter: Some(s), ..meta },
        SongField::Resolution(n) => SongSectionView { resolution: Some(n), ..meta },
        SongField::Difficulty(n) => SongSectionView { difficulty: Some(n), ..meta },
        SongField::Length(s) => SongSectionView { length: Some(s), ..meta },
        SongField::Offset(s) => SongSectionView { offset: Some(s), ..meta },
        SongField::PreviewStart(s) => SongSectionView { preview_start: Some(s), ..meta },
        SongField::PreviewEnd(s) => SongSectionView { preview_end: Some(s), ..meta },
        SongField::Unknown(_, _) => meta,
    }
}

/// The section that a run of settings leaves: each field holds what the
/// last line that names it gave.
pub open spec fn song_fields(fields: Seq<SongField>) -> SongSectionView
    decreases fields.len(),
{
    if fields.len() == 0 {
        SongSectionView::empty()
    } else {
        with_field(song_fields(fields.drop_last()), fields.last())
    }
}

/// What is noted of a setting: an unknown key with its value.
pub open spec fn noted(field: SongField) -> Option<WarningView> {
    match field {
        SongField::Unknown(key, value) => Some(WarningView::UnknownKey(key, value)),
        _ => None,
    }
}

/// What is noted of a run of settings: each unknown key, in order.
pub open spec fn unknown_keys(fields: Seq<SongField>) -> Seq<WarningView>
    decreases fields.len(),
{
    if fields.len() == 0 {
        Seq::empty()
    } else {
        unknown_keys(fields.drop_last()) + optional(noted(fields.last()))
    }
}

/// What the year's comma looks like where the chart writes `", 2007"`.
pub open spec fn year_lead() -> Seq<char> {
    seq![',', ' ']
}

/// `s` without any number of leading `", "`.
pub open spec fn unled(s: Seq<char>) -> Seq<char>
    decreases s.len(),
{
    if has_prefix(s, year_lead()) {
        unled(s.skip(2))
    } else {
        s
    }
}

/// A text value: the first and the last character are taken off.
pub open spec fn quoted(value: Seq<char>) -> Seq<char> {
    stripped(value, 1, 1)
}

/// A count: an unsigned number that fits a `usize`.
pub open spec fn count_field(value: Seq<char>) -> Result<usize, ParseError> {
    match unsigned(value, usize::MAX as nat) {
        Some(n) => Ok(n as usize),
        None => Err(ParseError::MalformedNumber),
    }
}

/// A real number: its literal, kept as it was written.
pub open spec fn real_field(value: Seq<char>) -> Result<Seq<char>, ParseError> {
    if real_literal(value) {
        Ok(value)
    } else {
        Err(ParseError::MalformedNumber)
    }
}

/// The setting that a key and its value make. Keys are compared in lower
/// case; a key that the format does not know is put by as it was written;
/// a number that cannot be read fails.
pub open spec fn song_field(written: Seq<char>, value: Seq<char>) -> Result<SongField, ParseError> {
    keyed_field(lowercase(written), written, value)
}

/// The setting that a lower-cased key makes of a value. `written` is the key
/// as the line has it.
pub open spec fn keyed_field(key: Seq<char>, written: Seq<char>, value: Seq<char>) -> Result<
    SongField,
    ParseError,
> {
    if key == "name"@ {
        Ok(SongField::Name(quoted(value)))
    } else if key == "artist"@ {
        Ok(SongField::Artist(quoted(value)))
    } else if key == "album"@ {
        Ok(SongField::Album(quoted(value)))
    } else if key == "genre"@ {
        Ok(SongField::Genre(quoted(value)))
    } else if key == "year"@ {
        Ok(SongField::Year(unled(quoted(value))))
    } else if key == "charter"@ {
        Ok(SongField::Charter(quoted(value)))
    } else if key == "resolution"@ {
        match count_field(value) {
            Ok(n) => Ok(SongField::Resolution(n)),
            Err(e) => Err(e),
        }
    } else if key == "difficulty"@ {
        match count_field(value) {
            Ok(n) => Ok(SongField::Difficulty(n)),
            Err(e) => Err(e),
        }
    } else if key == "length"@ {
        match real_field(value) {
            Ok(s) => Ok(SongField::Length(s)),
            Err(e) => Err(e),
        }
    } else if key == "offset"@ {
        match real_field(value) {
            Ok(s) => Ok(SongField::Offset(s)),
            Err(e) => Err(e),
        }
    } else if key == "previewstart"@ {
        match real_field(value) {
            Ok(s) => Ok(SongField::PreviewStart(s)),
            Err(e) => Err(e),
        }
    } else if key == "previewend"@ {
        match real_field(value) {
            Ok(s) => Ok(SongField::PreviewEnd(s)),
            Err(e) => Err(e),
        }
    } else {
        Ok(SongField::Unknown(written, value))
    }
}

/// Whether a lower-cased key and a value make a number that cannot be
/// read: a count that is no unsigned number, or a real number that is no
/// real literal.
pub open spec fn unreadable_number(key: Seq<char>, value: Seq<char>) -> bool {
    ||| (key == "resolution"@ || key == "difficulty"@) && unsigned(value, usize::MAX as nat) is None
    ||| (key == "length"@ || key == "offset"@ || key == "previewstart"@ || key == "previewend"@)
        && !real_literal(value)
}

/// A numeric key whose value cannot be read makes no setting: it fails
/// with a malformed number.
pub proof fn lemma_unreadable_number(key: Seq<char>, written: Seq<char>, value: Seq<char>)
    requires
        unreadable_number(key, value),
    ensures
        keyed_field(key, written, value) == Err::<SongField, ParseError>(
            ParseError::MalformedNumber,
        ),
{
    reveal_strlit("name");
    reveal_strlit("artist");
    reveal_strlit("album");
    reveal_strlit("genre");
    reveal_strlit("year");
    reveal_strlit("charter");
    reveal_strlit("resolution");
    reveal_strlit("difficulty");
    reveal_strlit("length");
    reveal_strlit("offset");
    reveal_strlit("previewstart");
    reveal_strlit("previewend");
    assert("length"@[0] == 'l' && "offset"@[0] == 'o' && "previewend"@[0] == 'p');
    assert("resolution"@.len() == 10 && "difficulty"@.len() == 10 && "length"@.len() == 6);
    assert("offset"@.len() == 6 && "previewstart"@.len() == 12 && "previewend"@.len() == 10);
}

/// One line of the section, `Key = Value`. A line without a value is
/// malformed, whatever its key.
pub open spec fn song_line(line: Seq<char>) -> Result<SongField, ParseError> {
    match assigned_value(line) {
        None => Err(ParseError::MalformedLine),
        Some(value) => song_field(assigned_key(line), value),
    }
}

/// What reading one body line of the `Song` section gives.
pub open spec fn song_reader() -> LineReader<SongField> {
    |line: Seq<char>|
        match song_line(line) {
            Ok(field) => Ok(Some(field)),
            Err(e) => Err(e),
        }
}

/// Takes every leading `", "` off `s`.
pub fn strip_year_lead(s: &Vec<char>) -> (out: Vec<char>)
    ensures
        out@ == unled(s@),
{
    let mut lead: Vec<char> = Vec::new();
    lead.push(',');
    lead.push(' ');
    let mut at: usize = 0;
    assert(s@.skip(0) =~= s@);
    while matches_at(s, at, &lead)
        invariant
            at <= s.len(),
            lead@ == year_lead(),
            unled(s@.skip(at as int)) == unled(s@),
        decreases s.len() - at,
    {
        assert(s@.skip(at as int).skip(2) =~= s@.skip(at + 2));
        at += 2;
    }
    slice_chars(s, at, s.len())
}

fn text_value(value: &Vec<char>) -> (out: String)
    ensures
        out@ == quoted(value@),
{
    remove_quotes(string_of(value))
}

fn count_value(value: &Vec<char>) -> (out: Result<usize, ParseError>)
    ensures
        out == count_field(value@),
{
    match parse_usize(value) {
        Some(n) => Ok(n),
        None => Err(ParseError::MalformedNumber),
    }
}

fn real_value(value: &Vec<char>) -> (out: Result<Real, ParseError>)
    ensures
        out is Ok == real_field(value@) is Ok,
        out is Ok ==> out->Ok_0.deep_view() == real_field(value@)->Ok_0,
        out is Err ==> out->Err_0 == real_field(value@)->Err_0,
{
    if is_real(value) {
        Ok(Real { literal: string_of(value) })
    } else {
        Err(ParseError::MalformedNumber)
    }
}

/// Reads one trimmed body line into `res`, and hands back the key and the
/// value where the key is not known.
pub fn parse_song_line(line: &Vec<char>, res: &mut SongSection) -> (out: Result<
    Option<Warning>,
    ParseError,
>)
    ensures
        match song_line(line@) {
            Err(e) => out is Err && out->Err_0 == e && final(res).deep_view() == old(
                res,
            ).deep_view(),
            Ok(field) => {
                &&& out is Ok
                &&& out->Ok_0.deep_view() == noted(field)
                &&& final(res).deep_view() == with_field(old(res).deep_view(), field)
            },
        },
{
    let (written, value) = split_assignment(line);
    let value = match value {
        Some(value) => value,
        None => {
            return Err(ParseError::MalformedLine);
        },
    };
    let key = to_lowercase(&written);
    set_field(res, &key, &written, &value)
}

/// Takes the setting of a lower-cased key into `res`. `written` is the key
/// as the line has it; it is handed back with the value where the key is
/// not known. On failure `res` is left as it was.
pub fn set_field(res: &mut SongSection, key: &Vec<char>, written: &Vec<char>, value: &Vec<char>) -> (out:
    Result<Option<Warning>, ParseError>)
    ensures
        match keyed_field(key@, written@, value@) {
            Err(e) => out is Err && out->Err_0 == e && final(res).deep_view() == old(
                res,
            ).deep_view(),
            Ok(field) => {
                &&& out is Ok
                &&& out->Ok_0.deep_view() == noted(field)
                &&& final(res).deep_view() == with_field(old(res).deep_view(), field)
            },
        },
{
    if equals(key, "name") {
        res.name = Some(text_value(value));
    } else if equals(key, "artist") {
        res.artist = Some(text_value(value));
    } else if equals(key, "album") {
        res.album = Some(text_value(value));
    } else if equals(key, "genre") {
        res.genre = Some(text_value(value));
    } else if equals(key, "year") {
        let text = text_value(value);
        res.year = Some(string_of(&strip_year_lead(&chars_of(text.as_str()))));
    } else if equals(key, "charter") {
        res.charter = Some(text_value(value));
    } else if equals(key, "resolution") {
        match count_value(value) {
            Ok(n) => {
                res.resolution = Some(n);
            },
            Err(e) => {
                return Err(e);
            },
        }
    } else if equals(key, "difficulty") {
        match count_value(value) {
            Ok(n) => {
                res.difficulty = Some(n);
            },
            Err(e) => {
                return Err(e);
            },
        }
    } else if equals(key, "length") {
        match real_value(value) {
            Ok(r) => {
                res.length = Some(r);
            },
            Err(e) => {
                return Err(e);
            },
        }
    } else if equals(key, "offset") {
        match real_value(value) {
            Ok(r) => {
                res.offset = Some(r);
            },
            Err(e) => {
                return Err(e);
            },
        }
    } else if equals(key, "previewstart") {
        match real_value(value) {
            Ok(r) => {
                res.preview_start = Some(r);
            },
            Err(e) => {
                return Err(e);
            },
        }
    } else if equals(key, "previewend") {
        match real_value(value) {
            Ok(r) => {
                res.preview_end = Some(r);
            },
            Err(e) => {
                return Err(e);
            },
        }
    } else {
        return Ok(Some(Warning::UnknownKey(string_of(written), string_of(value))));
    }
    Ok(None)
}

/// Reads the body of a `Song` section from line `*i` on and leaves `*i` at
/// the line that closes it. Lines with an unknown key change nothing; they
/// are handed back beside the section, in their order. On failure `*i` is
/// left at the line that could not be read.
pub fn parse_song(lines: &Vec<String>, i: &mut usize) -> (out: Result<
    (SongSection, Vec<Warning>),
    ParseError,
>)
    ensures
        *final(i) == scan(lines.deep_view(), *old(i) as int, song_reader()).stop,
        match out {
            Ok(found) => {
                let s = scan(lines.deep_view(), *old(i) as int, song_reader());
                &&& s.error is None
                &&& found.0.deep_view() == song_fields(s.items)
                &&& found.1.deep_view() == unknown_keys(s.items)
            },
            Err(e) => scan(lines.deep_view(), *old(i) as int, song_reader()).error == Some(e),
        },
{
    let ghost text = lines.deep_view();
    let ghost start = *i as int;
    let ghost mut done: Seq<SongField> = Seq::empty();
    let mut res = SongSection::default();
    let mut unknown: Vec<Warning> = Vec::new();
    loop
        invariant
            text == lines.deep_view(),
            start == *old(i),
            start <= *i,
            scan(text, start, song_reader()) == resumed(
                done,
                scan(text, *i as int, song_reader()),
            ),
            res.deep_view() == song_fields(done),
            unknown.deep_view() == unknown_keys(done),
        decreases lines.len() - *i,
    {
        if *i >= lines.len() {
            return Err(ParseError::MalformedLine);
        }
        let line = line_at(lines, *i);
        if is_closing(&line) {
            return Ok((res, unknown));
        }
        match parse_song_line(&line, &mut res) {
            Err(e) => {
                return Err(e);
            },
            Ok(warning) => {
                let ghost field = song_line(line@)->Ok_0;
                if let Some(warning) = warning {
                    unknown.push(warning);
                }
                proof {
                    lemma_scan_step(text, start, *i as int, song_reader(), done);
                    assert(done + optional(Some(field)) =~= done.push(field));
                    assert(done.push(field).drop_last() =~= done);
                    done = done.push(field);
                }
            },
        }
        *i += 1;
    }
}

} // verus!
