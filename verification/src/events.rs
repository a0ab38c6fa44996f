//! The `Events` section: section markers, lyrics and phrase bounds.

use vstd::prelude::*;

use crate::number::{parse_usize, unsigned};
use crate::section::{
    is_closing, lemma_scan_step, line_at, optional, resumed, scan, LineReader,
};
use crate::song::{GlobalEvent, GlobalEventView, ParseError};
use crate::text::{
    assigned_key, assigned_value, equals, lowercase, slice_chars, split_assignment, string_of,
    strip, stripped, to_lowercase,
};

verus! {

/// Whether `c` ends the keyword of an event.
pub open spec fn word_break(c: char) -> bool {
    c == ' ' || c == '_'
}

/// First index at or after `from` that holds a space or an underscore, or
/// the length.
pub open spec fn word_end(s: Seq<char>, from: int) -> int
    decreases s.len() - from,
{
    if 0 <= from < s.len() && !word_break(s[from]) {
        word_end(s, from + 1)
    } else {
        from
    }
}

/// `s` with every underscore turned into a space.
pub open spec fn spaced(s: Seq<char>) -> Seq<char> {
    Seq::new(
        s.len(),
        |i: int|
            if s[i] == '_' {
                ' '
            } else {
                s[i]
            },
    )
}

/// Whether a lower-cased keyword names the start or the end of a phrase.
/// These two keywords are written with an underscore of their own.
pub open spec fn names_phrase(keyword: Seq<char>) -> bool {
    keyword == "phrase_start"@ || keyword == "phrase_end"@
}

/// Where the first two words of an event text end, if an underscore joins
/// them; where the first word ends, if not.
pub open spec fn joined_end(text: Seq<char>) -> int {
    let first = word_end(text, 0);
    if first < text.len() && text[first] == '_' {
        word_end(text, first + 1)
    } else {
        first
    }
}

/// Where the keyword of an event text ends: behind its first two words
/// where these, joined by their underscore, name a phrase bound in lower
/// case, and behind its first word otherwise.
pub open spec fn keyword_end(text: Seq<char>) -> int {
    if names_phrase(lowercase(text.take(joined_end(text)))) {
        joined_end(text)
    } else {
        word_end(text, 0)
    }
}

/// The keyword of an event text, lower-cased.
pub open spec fn event_keyword(text: Seq<char>) -> Seq<char> {
    lowercase(text.take(keyword_end(text)))
}

/// What follows place `end` and the one character there, with spaces for
/// underscores. Empty where the text ends at `end`.
pub open spec fn payload_after(text: Seq<char>, end: int) -> Seq<char> {
    if end >= text.len() {
        Seq::empty()
    } else {
        spaced(text.skip(end + 1))
    }
}

/// What follows the keyword and the one character that ends it, with
/// spaces for underscores. Empty where nothing ends the keyword.
pub open spec fn event_payload(text: Seq<char>) -> Seq<char> {
    payload_after(text, keyword_end(text))
}

/// The event that a keyword stands for; `None` for a keyword that the format
/// does not know.
pub open spec fn event_of(keyword: Seq<char>, payload: Seq<char>) -> Option<GlobalEventView> {
    if keyword == "section"@ {
        Some(GlobalEventView::Section(payload))
    } else if keyword == "phrase_start"@ {
        Some(GlobalEventView::PhraseStart)
    } else if keyword == "lyric"@ {
        Some(GlobalEventView::Lyric(payload))
    } else if keyword == "phrase_end"@ {
        Some(GlobalEventView::PhraseEnd)
    } else if keyword == "end"@ {
        Some(GlobalEventView::SongEnd)
    } else {
        None
    }
}

/// One line of the section, `tick = "E keyword payload"`: the tick must be
/// a number and the value must be there. Three characters are taken off the
/// front of the value and one off its back before it is read.
pub open spec fn event_line(line: Seq<char>) -> Result<
    Option<(usize, GlobalEventView)>,
    ParseError,
> {
    match unsigned(assigned_key(line), usize::MAX as nat) {
        None => Err(ParseError::MalformedNumber),
        Some(tick) => match assigned_value(line) {
            None => Err(ParseError::MalformedLine),
            Some(value) => {
                let text = stripped(value, 3, 1);
                match event_of(event_keyword(text), event_payload(text)) {
                    Some(event) => Ok(Some((tick as usize, event))),
                    None => Ok(None),
                }
            },
        },
    }
}

/// What reading one body line of the `Events` section gives.
pub open spec fn event_reader() -> LineReader<(usize, GlobalEventView)> {
    |line: Seq<char>| event_line(line)
}

/// Where the word that begins at `from` ends.
pub fn find_word_end(text: &Vec<char>, from: usize) -> (end: usize)
    ensures
        end == word_end(text@, from as int),
        from <= end,
        from <= text.len() ==> end <= text.len(),
{
    let mut end: usize = from;
    while end < text.len() && text[end] != ' ' && text[end] != '_'
        invariant
            from <= end,
            from <= text.len() ==> end <= text.len(),
            word_end(text@, end as int) == word_end(text@, from as int),
        decreases text.len() - end,
    {
        end += 1;
    }
    end
}

/// Cuts an event text at place `end`: what stands before it, and the
/// payload behind it.
pub fn cut_event(text: &Vec<char>, end: usize) -> (parts: (Vec<char>, Vec<char>))
    ensures
        parts.0@ == text@.take(
            if end <= text.len() {
                end as int
            } else {
                text.len() as int
            },
        ),
        parts.1@ == payload_after(text@, end as int),
{
    if end >= text.len() {
        return (slice_chars(text, 0, text.len()), Vec::new());
    }
    let word = slice_chars(text, 0, end);
    let mut payload: Vec<char> = Vec::new();
    let mut k: usize = end + 1;
    while k < text.len()
        invariant
            end < k <= text.len(),
            payload@ == spaced(text@.subrange(end + 1, k as int)),
        decreases text.len() - k,
    {
        let c = text[k];
        payload.push(
            if c == '_' {
                ' '
            } else {
                c
            },
        );
        k += 1;
    }
    (word, payload)
}

/// Whether a lower-cased keyword names the start or the end of a phrase.
pub fn is_phrase_keyword(keyword: &Vec<char>) -> (b: bool)
    ensures
        b == names_phrase(keyword@),
{
    equals(keyword, "phrase_start") || equals(keyword, "phrase_end")
}

/// The event that a lower-cased keyword and a payload make.
pub fn global_event(keyword: &Vec<char>, payload: &Vec<char>) -> (event: Option<GlobalEvent>)
    ensures
        event.deep_view() == event_of(keyword@, payload@),
{
    if equals(keyword, "section") {
        Some(GlobalEvent::Section(string_of(payload)))
    } else if equals(keyword, "phrase_start") {
        Some(GlobalEvent::PhraseStart)
    } else if equals(keyword, "lyric") {
        Some(GlobalEvent::Lyric(string_of(payload)))
    } else if equals(keyword, "phrase_end") {
        Some(GlobalEvent::PhraseEnd)
    } else if equals(keyword, "end") {
        Some(GlobalEvent::SongEnd)
    } else {
        None
    }
}

/// Where the keyword ends, given the place where the first two words end
/// and these two words in lower case.
pub fn choose_keyword_end(text: &Vec<char>, joined: &Vec<char>) -> (end: usize)
    ensures
        end == if names_phrase(joined@) {
            joined_end(text@)
        } else {
            word_end(text@, 0)
        },
        end <= text.len(),
{
    let first = find_word_end(text, 0);
    if is_phrase_keyword(joined) && first < text.len() && text[first] == '_' {
        find_word_end(text, first + 1)
    } else {
        first
    }
}

/// The first two words of an event text, as far as an underscore joins
/// them.
pub fn joined_words(text: &Vec<char>) -> (words: Vec<char>)
    ensures
        words@ == text@.take(joined_end(text@)),
{
    let first = find_word_end(text, 0);
    let end = if first < text.len() && text[first] == '_' {
        find_word_end(text, first + 1)
    } else {
        first
    };
    slice_chars(text, 0, end)
}

/// Splits an event text into its keyword, lower-cased, and its payload.
pub fn split_event(text: &Vec<char>) -> (parts: (Vec<char>, Vec<char>))
    ensures
        parts.0@ == event_keyword(text@),
        parts.1@ == event_payload(text@),
{
    let joined = to_lowercase(&joined_words(text));
    let end = choose_keyword_end(text, &joined);
    let (word, payload) = cut_event(text, end);
    (to_lowercase(&word), payload)
}

/// Reads one trimmed body line.
pub fn parse_event_line(line: &Vec<char>) -> (out: Result<Option<(usize, GlobalEvent)>, ParseError>)
    ensures
        out is Ok == event_line(line@) is Ok,
        out is Err ==> out->Err_0 == event_line(line@)->Err_0,
        out is Ok ==> out->Ok_0.deep_view() == event_line(line@)->Ok_0,
{
    let (key, value) = split_assignment(line);
    let tick = match parse_usize(&key) {
        Some(tick) => tick,
        None => {
            return Err(ParseError::MalformedNumber);
        },
    };
    let value = match value {
        Some(value) => value,
        None => {
            return Err(ParseError::MalformedLine);
        },
    };
    let text = strip(&value, 3, 1);
    let (keyword, payload) = split_event(&text);
    match global_event(&keyword, &payload) {
        Some(event) => Ok(Some((tick, event))),
        None => Ok(None),
    }
}

/// Reads the body of an `Events` section from line `*i` on and leaves `*i`
/// at the line that closes it. Lines with an unknown keyword are passed
/// over. On failure `*i` is left at the line that could not be read.
pub fn parse_events(lines: &Vec<String>, i: &mut usize) -> (out: Result<
    Vec<(usize, GlobalEvent)>,
    ParseError,
>)
    ensures
        *final(i) == scan(lines.deep_view(), *old(i) as int, event_reader()).stop,
        match out {
            Ok(events) => {
                let s = scan(lines.deep_view(), *old(i) as int, event_reader());
                s.error is None && events.deep_view() == s.items
            },
            Err(e) => scan(lines.deep_view(), *old(i) as int, event_reader()).error == Some(e),
        },
{
    let ghost text = lines.deep_view();
    let ghost start = *i as int;
    let mut res: Vec<(usize, GlobalEvent)> = Vec::new();
    loop
        invariant
            text == lines.deep_view(),
            start == *old(i),
            start <= *i,
            scan(text, start, event_reader()) == resumed(
                res.deep_view(),
                scan(text, *i as int, event_reader()),
            ),
        decreases lines.len() - *i,
    {
        if *i >= lines.len() {
            return Err(ParseError::MalformedLine);
        }
        let line = line_at(lines, *i);
        if is_closing(&line) {
            return Ok(res);
        }
        match parse_event_line(&line) {
            Err(e) => {
                return Err(e);
            },
            Ok(item) => {
                proof {
                    lemma_scan_step(text, start, *i as int, event_reader(), res.deep_view());
                }
                if let Some(event) = item {
                    let ghost before = res.deep_view();
                    res.push(event);
                    assert(res.deep_view() =~= before + optional(event_line(line@)->Ok_0));
                }
            },
        }
        *i += 1;
    }
}

} // verus!
