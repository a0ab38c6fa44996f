//! The `SyncTrack` section: time signatures and tempo changes.

use vstd::arithmetic::power2::pow2;
use vstd::prelude::*;

use crate::number::{parse_u32, parse_usize, power_of_two, unsigned};
use crate::section::{
    is_closing, lemma_scan_step, line_at, optional, resumed, scan, LineReader,
};
use crate::song::{ParseError, SyncEvent, TempoEvent};
use crate::text::{equals, fields, lowercase, split, texts, to_lowercase};

verus! {

/// The denominator of a time signature: four where the line gives none,
/// else two to the power that the line gives, which must fit a `usize`.
pub open spec fn denominator(words: Seq<Seq<char>>) -> Result<usize, ParseError> {
    if words.len() <= 4 {
        Ok(4)
    } else {
        match unsigned(words[4], u32::MAX as nat) {
            None => Err(ParseError::MalformedNumber),
            Some(exponent) => if pow2(exponent) <= usize::MAX {
                Ok(pow2(exponent) as usize)
            } else {
                Err(ParseError::MalformedNumber)
            },
        }
    }
}

/// The event that a lower-cased marker makes of a tick and the words of
/// its line. `ts` gives a time signature, `b` a tempo in thousandths of a
/// beat per minute; another marker gives nothing. The fourth word must be
/// there and must be a number.
pub open spec fn marked_event(marker: Seq<char>, tick: usize, words: Seq<Seq<char>>) -> Result<
    Option<(usize, SyncEvent)>,
    ParseError,
> {
    if marker == "ts"@ {
        if words.len() < 4 {
            Err(ParseError::MalformedLine)
        } else {
            match unsigned(words[3], usize::MAX as nat) {
                None => Err(ParseError::MalformedNumber),
                Some(numerator) => match denominator(words) {
                    Err(e) => Err(e),
                    Ok(d) => Ok(Some((tick, SyncEvent::TimeSignature(numerator as usize, d)))),
                },
            }
        }
    } else if marker == "b"@ {
        if words.len() < 4 {
            Err(ParseError::MalformedLine)
        } else {
            match unsigned(words[3], usize::MAX as nat) {
                None => Err(ParseError::MalformedNumber),
                Some(bpm) => Ok(
                    Some((tick, SyncEvent::Tempo(TempoEvent { bpm: bpm as usize, time: 0 }))),
                ),
            }
        }
    } else {
        Ok(None)
    }
}

/// One line of the sync track, split at single spaces: the tick, a word
/// that is not looked at, a marker and its fields. The marker is read in
/// lower case.
pub open spec fn sync_line(line: Seq<char>) -> Result<Option<(usize, SyncEvent)>, ParseError> {
    let words = fields(line, ' ');
    match unsigned(words[0], usize::MAX as nat) {
        None => Err(ParseError::MalformedNumber),
        Some(tick) => if words.len() < 3 {
            Err(ParseError::MalformedLine)
        } else {
            marked_event(lowercase(words[2]), tick as usize, words)
        },
    }
}

/// What reading one body line of the sync track gives.
pub open spec fn sync_reader() -> LineReader<(usize, SyncEvent)> {
    |line: Seq<char>| sync_line(line)
}

/// Reads one trimmed body line.
pub fn parse_sync_line(line: &Vec<char>) -> (out: Result<Option<(usize, SyncEvent)>, ParseError>)
    ensures
        out == sync_line(line@),
{
    let words = split(line, ' ');
    let tick = match parse_usize(&words[0]) {
        Some(tick) => tick,
        None => {
            return Err(ParseError::MalformedNumber);
        },
    };
    if words.len() < 3 {
        return Err(ParseError::MalformedLine);
    }
    let marker = to_lowercase(&words[2]);
    sync_event(&marker, tick, &words)
}

/// The event that a lower-cased marker makes of a tick and the words of
/// its line.
pub fn sync_event(marker: &Vec<char>, tick: usize, words: &Vec<Vec<char>>) -> (out: Result<
    Option<(usize, SyncEvent)>,
    ParseError,
>)
    ensures
        out == marked_event(marker@, tick, texts(words@)),
{
    if equals(marker, "ts") {
        if words.len() < 4 {
            return Err(ParseError::MalformedLine);
        }
        let numerator = match parse_usize(&words[3]) {
            Some(n) => n,
            None => {
                return Err(ParseError::MalformedNumber);
            },
        };
        let d: usize = if words.len() > 4 {
            let exponent = match parse_u32(&words[4]) {
                Some(e) => e,
                None => {
                    return Err(ParseError::MalformedNumber);
                },
            };
            match power_of_two(exponent) {
                Some(d) => d,
                None => {
                    return Err(ParseError::MalformedNumber);
                },
            }
        } else {
            4
        };
        Ok(Some((tick, SyncEvent::TimeSignature(numerator, d))))
    } else if equals(marker, "b") {
        if words.len() < 4 {
            return Err(ParseError::MalformedLine);
        }
        let bpm = match parse_usize(&words[3]) {
            Some(n) => n,
            None => {
                return Err(ParseError::MalformedNumber);
            },
        };
        Ok(Some((tick, SyncEvent::Tempo(TempoEvent { bpm, time: 0 }))))
    } else {
        Ok(None)
    }
}

/// Reads the body of a `SyncTrack` section from line `*i` on and leaves
/// `*i` at the line that closes it. On failure `*i` is left at the line
/// that could not be read.
pub fn parse_sync(lines: &Vec<String>, i: &mut usize) -> (out: Result<
    Vec<(usize, SyncEvent)>,
    ParseError,
>)
    ensures
        *final(i) == scan(lines.deep_view(), *old(i) as int, sync_reader()).stop,
        match out {
            Ok(events) => {
                let s = scan(lines.deep_view(), *old(i) as int, sync_reader());
                s.error is None && events@ == s.items
            },
            Err(e) => scan(lines.deep_view(), *old(i) as int, sync_reader()).error == Some(e),
        },
{
    let ghost text = lines.deep_view();
    let ghost start = *i as int;
    let mut res: Vec<(usize, SyncEvent)> = Vec::new();
    loop
        invariant
            text == lines.deep_view(),
            start == *old(i),
            start <= *i,
            scan(text, start, sync_reader()) == resumed(
                res@,
                scan(text, *i as int, sync_reader()),
            ),
        decreases lines.len() - *i,
    {
        if *i >= lines.len() {
            return Err(ParseError::MalformedLine);
        }
        let line = line_at(lines, *i);
        if is_closing(&line) {
            return Ok(res);
        }
        match parse_sync_line(&line) {
            Err(e) => {
                return Err(e);
            },
            Ok(item) => {
                proof {
                    lemma_scan_step(text, start, *i as int, sync_reader(), res@);
                }
                if let Some(event) = item {
                    assert(res@ + optional(item) =~= res@.push(event));
                    res.push(event);
                }
            },
        }
        *i += 1;
    }
}

} // verus!
