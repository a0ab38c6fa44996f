//! The frame that every section of a chart shares: body lines up to a line
//! that holds only a closing brace.

use vstd::prelude::*;

use crate::song::ParseError;
use crate::text::{chars_of, equals, trim, trimmed};

verus! {

/// What reading one body line gives: an item, nothing, or a failure.
pub type LineReader<T> = spec_fn(Seq<char>) -> Result<Option<T>, ParseError>;

/// The outcome of reading a section body from some line on.
pub struct Scan<T> {
    /// The items read before the scan stopped.
    pub items: Seq<T>,
    /// The line at which the scan stopped: the closing brace, the line that
    /// could not be read, or the end of the text.
    pub stop: int,
    /// Why the scan failed, if it did.
    pub error: Option<ParseError>,
}

/// Whether a trimmed line closes a section.
pub open spec fn closes(line: Seq<char>) -> bool {
    line == "}"@
}

/// Whether a trimmed line opens a section body.
pub open spec fn opens(line: Seq<char>) -> bool {
    line == "{"@
}

/// The item that may be there, as a sequence of one item or of none.
pub open spec fn optional<T>(item: Option<T>) -> Seq<T> {
    match item {
        Some(t) => seq![t],
        None => Seq::empty(),
    }
}

/// Reads body lines from line `i` on, each trimmed and handed to `read`.
/// The scan ends well at the first closing line. It fails at the first line
/// that `read` rejects, and with `MalformedLine` where the text runs out
/// before the section is closed.
pub open spec fn scan<T>(lines: Seq<Seq<char>>, i: int, read: LineReader<T>) -> Scan<T>
    decreases lines.len() - i,
{
    if i < 0 || i >= lines.len() {
        Scan { items: Seq::empty(), stop: i, error: Some(ParseError::MalformedLine) }
    } else if closes(trimmed(lines[i])) {
        Scan { items: Seq::empty(), stop: i, error: None }
    } else {
        match read(trimmed(lines[i])) {
            Err(e) => Scan { items: Seq::empty(), stop: i, error: Some(e) },
            Ok(item) => resumed(optional(item), scan(lines, i + 1, read)),
        }
    }
}

/// A scan that had already read `done` before `rest` was read.
pub open spec fn resumed<T>(done: Seq<T>, rest: Scan<T>) -> Scan<T> {
    Scan { items: done + rest.items, stop: rest.stop, error: rest.error }
}

/// One more line read: the scan from `i` on, seen from the line after it.
pub proof fn lemma_scan_step<T>(
    lines: Seq<Seq<char>>,
    start: int,
    i: int,
    read: LineReader<T>,
    done: Seq<T>,
)
    requires
        0 <= i < lines.len(),
        !closes(trimmed(lines[i])),
        read(trimmed(lines[i])) is Ok,
        scan(lines, start, read) == resumed(done, scan(lines, i, read)),
    ensures
        scan(lines, start, read) == resumed(
            done + optional(read(trimmed(lines[i]))->Ok_0),
            scan(lines, i + 1, read),
        ),
{
    let item = optional(read(trimmed(lines[i]))->Ok_0);
    let rest = scan(lines, i + 1, read);
    assert(done + (item + rest.items) =~= (done + item) + rest.items);
}

/// A scan fails at the first line that cannot be read, with that line's
/// failure, where no closing line comes before it.
pub proof fn lemma_scan_fails_at<T>(lines: Seq<Seq<char>>, i: int, bad: int, read: LineReader<T>)
    requires
        0 <= i <= bad < lines.len(),
        forall|j: int|
            i <= j < bad ==> !closes(trimmed(#[trigger] lines[j])) && read(trimmed(lines[j])) is Ok,
        !closes(trimmed(lines[bad])),
        read(trimmed(lines[bad])) is Err,
    ensures
        scan(lines, i, read).error == Some(read(trimmed(lines[bad]))->Err_0),
        scan(lines, i, read).stop == bad,
    decreases bad - i,
{
    if i < bad {
        lemma_scan_fails_at(lines, i + 1, bad, read);
    }
}

/// Where two texts agree below line `p`, a scan that stops below `p` in
/// the one is the same scan in the other.
pub proof fn lemma_scan_agrees_below<T>(
    a: Seq<Seq<char>>,
    b: Seq<Seq<char>>,
    i: int,
    p: int,
    read: LineReader<T>,
)
    requires
        0 <= i,
        0 <= p <= a.len(),
        p <= b.len(),
        forall|j: int| 0 <= j < p ==> #[trigger] a[j] == b[j],
        scan(a, i, read).stop < p,
    ensures
        scan(b, i, read) == scan(a, i, read),
    decreases a.len() - i,
{
    lemma_scan_bounds(a, i, read);
    if !closes(trimmed(a[i])) && read(trimmed(a[i])) is Ok {
        lemma_scan_agrees_below(a, b, i + 1, p, read);
    }
}

/// Where what follows line `i` of one text is what follows line `k` of
/// another, the scans from there read the same and stop as far on.
pub proof fn lemma_scan_shift<T>(
    a: Seq<Seq<char>>,
    i: int,
    b: Seq<Seq<char>>,
    k: int,
    read: LineReader<T>,
)
    requires
        0 <= i <= a.len(),
        0 <= k <= b.len(),
        a.skip(i) == b.skip(k),
    ensures
        scan(a, i, read).items == scan(b, k, read).items,
        scan(a, i, read).error == scan(b, k, read).error,
        scan(a, i, read).stop - i == scan(b, k, read).stop - k,
    decreases a.len() - i,
{
    assert(b.skip(k).len() == b.len() - k);
    if i < a.len() {
        assert(b[k] == b.skip(k)[0]);
        if !closes(trimmed(a[i])) && read(trimmed(a[i])) is Ok {
            assert(a.skip(i + 1) =~= a.skip(i).skip(1));
            assert(b.skip(k + 1) =~= b.skip(k).skip(1));
            lemma_scan_shift(a, i + 1, b, k + 1, read);
        }
    }
}

/// A scan never stops before the line at which it began, nor beyond the end
/// of the text where it began within it.
pub proof fn lemma_scan_bounds<T>(lines: Seq<Seq<char>>, i: int, read: LineReader<T>)
    ensures
        i <= scan(lines, i, read).stop,
        0 <= i <= lines.len() ==> scan(lines, i, read).stop <= lines.len(),
        scan(lines, i, read).error is None ==> 0 <= scan(lines, i, read).stop < lines.len(),
    decreases lines.len() - i,
{
    if 0 <= i < lines.len() && !closes(trimmed(lines[i])) && read(trimmed(lines[i])) is Ok {
        lemma_scan_bounds(lines, i + 1, read);
    }
}

/// Line `i`, trimmed.
pub(crate) fn line_at(lines: &Vec<String>, i: usize) -> (line: Vec<char>)
    requires
        i < lines.len(),
    ensures
        line@ == trimmed(lines.deep_view()[i as int]),
{
    let raw = chars_of(lines[i].as_str());
    trim(&raw)
}

/// Whether a trimmed line closes a section.
pub fn is_closing(line: &Vec<char>) -> (b: bool)
    ensures
        b == closes(line@),
{
    equals(line, "}")
}

/// Whether a trimmed line opens a section body.
pub fn is_opening(line: &Vec<char>) -> (b: bool)
    ensures
        b == opens(line@),
{
    equals(line, "{")
}

} // verus!
