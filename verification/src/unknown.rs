//! What a section of unknown kind does to a load: nothing, but for one
//! warning that names it.

use vstd::prelude::*;
use vstd::utf8::valid_utf8;

use crate::chart::note_reader;
use crate::events::event_reader;
use crate::metadata::song_reader;
use crate::section::{lemma_scan_agrees_below, lemma_scan_bounds, lemma_scan_shift, opens};
use crate::song::{
    arrives, document, file_lines, loaded, body_start, header_name, is_header, lemma_arrives, lemma_unknown_section_only_warns,
    loaded_lines, section_kind, section_next, section_read, sections, ParseError, Reading,
    SectionKind, SongView, WarningView,
};
use crate::sync::sync_reader;
use crate::text::trimmed;

verus! {

/// A reading with some warnings put before its own.
pub open spec fn noted_before(before: Seq<WarningView>, out: Result<Reading, ParseError>) -> Result<
    Reading,
    ParseError,
> {
    match out {
        Ok(read) => Ok(Reading { song: read.song, warnings: before + read.warnings }),
        Err(e) => Err(e),
    }
}

/// Whether the reading comes to line `p` depends on the lines before `p`
/// alone.
pub proof fn lemma_arrives_by_prefix(
    a: Seq<Seq<char>>,
    b: Seq<Seq<char>>,
    i: int,
    read: Reading,
    p: int,
    at: Reading,
)
    requires
        arrives(a, i, read, p, at),
        0 <= i,
        p <= a.len(),
        p < b.len(),
        !opens(trimmed(b[p])),
        forall|j: int| 0 <= j < p ==> #[trigger] a[j] == b[j],
    ensures
        arrives(b, i, read, p, at),
    decreases a.len() - i,
{
    if i != p {
        if !is_header(trimmed(a[i])) {
            lemma_arrives_by_prefix(a, b, i + 1, read, p, at);
        } else {
            let header = trimmed(a[i]);
            let body = body_start(a, i);
            let name = header_name(header);
            let next = section_next(a, body, name);
            let more = section_read(a, body, name, header, read)->Ok_0;
            lemma_scan_bounds(a, body, song_reader());
            lemma_scan_bounds(a, body, sync_reader());
            lemma_scan_bounds(a, body, event_reader());
            lemma_scan_bounds(a, body, note_reader());
            lemma_section_agrees_below(a, b, body, p, name, header, read);
            lemma_arrives_by_prefix(a, b, next, more, p, at);
        }
    }
}

/// Where two texts agree below line `p`, a section that is read to its end
/// below `p` in the one is read alike in the other.
pub proof fn lemma_section_agrees_below(
    a: Seq<Seq<char>>,
    b: Seq<Seq<char>>,
    body: int,
    p: int,
    name: Seq<char>,
    header: Seq<char>,
    read: Reading,
)
    requires
        0 <= body,
        0 <= p <= a.len(),
        p <= b.len(),
        forall|j: int| 0 <= j < p ==> #[trigger] a[j] == b[j],
        section_next(a, body, name) <= p,
    ensures
        section_read(b, body, name, header, read) == section_read(a, body, name, header, read),
        section_next(b, body, name) == section_next(a, body, name),
{
    match section_kind(name) {
        SectionKind::Metadata => lemma_scan_agrees_below(a, b, body, p, song_reader()),
        SectionKind::SyncTrack => lemma_scan_agrees_below(a, b, body, p, sync_reader()),
        SectionKind::Events => lemma_scan_agrees_below(a, b, body, p, event_reader()),
        SectionKind::Notes => lemma_scan_agrees_below(a, b, body, p, note_reader()),
        SectionKind::Unknown => {},
    }
}

/// Where what follows line `i` of one text is what follows line `k` of
/// another, a section whose body begins there is read alike in both and
/// stops as far on.
pub proof fn lemma_section_shift(
    a: Seq<Seq<char>>,
    i: int,
    b: Seq<Seq<char>>,
    k: int,
    name: Seq<char>,
    header: Seq<char>,
    read: Reading,
)
    requires
        0 <= i <= a.len(),
        0 <= k <= b.len(),
        a.skip(i) == b.skip(k),
    ensures
        section_read(a, i, name, header, read) == section_read(b, k, name, header, read),
        section_next(a, i, name) - i == section_next(b, k, name) - k,
{
    lemma_scan_shift(a, i, b, k, song_reader());
    lemma_scan_shift(a, i, b, k, sync_reader());
    lemma_scan_shift(a, i, b, k, event_reader());
    lemma_scan_shift(a, i, b, k, note_reader());
}

/// Where what follows line `i` of one text is what follows line `k` of
/// another, the same holds `d` lines further on, and the lines there are
/// the same.
proof fn lemma_further_on(a: Seq<Seq<char>>, i: int, b: Seq<Seq<char>>, k: int, d: int)
    requires
        0 <= i <= a.len(),
        0 <= k <= b.len(),
        a.skip(i) == b.skip(k),
        0 <= d <= a.len() - i,
    ensures
        a.len() - i == b.len() - k,
        a.skip(i + d) == b.skip(k + d),
        d < a.len() - i ==> a[i + d] == b[k + d],
{
    assert(b.skip(k + d) =~= b.skip(k).skip(d));
    if d < a.len() - i {
        assert(b[k + d] == b.skip(k)[d]);
    }
}

/// The reading of what follows a line depends on nothing before that line.
pub proof fn lemma_sections_shift(
    a: Seq<Seq<char>>,
    i: int,
    b: Seq<Seq<char>>,
    k: int,
    read: Reading,
)
    requires
        0 <= i <= a.len(),
        0 <= k <= b.len(),
        a.skip(i) == b.skip(k),
    ensures
        sections(a, i, read) == sections(b, k, read),
    decreases a.len() - i,
{
    lemma_further_on(a, i, b, k, 0);
    if i < a.len() {
        lemma_further_on(a, i, b, k, 1);
        if !is_header(trimmed(a[i])) {
            lemma_sections_shift(a, i + 1, b, k + 1, read);
        } else if i + 1 < a.len() {
            lemma_further_on(a, i, b, k, 2);
            let header = trimmed(a[i]);
            let name = header_name(header);
            let body = body_start(a, i);
            let other = body_start(b, k);
            lemma_section_shift(a, body, b, other, name, header, read);
            lemma_scan_bounds(a, body, song_reader());
            lemma_scan_bounds(a, body, sync_reader());
            lemma_scan_bounds(a, body, event_reader());
            lemma_scan_bounds(a, body, note_reader());
            let next = section_next(a, body, name);
            let next_b = section_next(b, other, name);
            if section_read(a, body, name, header, read) is Ok {
                let more = section_read(a, body, name, header, read)->Ok_0;
                lemma_further_on(a, i, b, k, next - i);
                lemma_sections_shift(a, next, b, next_b, more);
            }
        }
    }
}

/// Warnings in hand are carried along unchanged: what follows adds its
/// own behind them and looks at none of them.
pub proof fn lemma_warnings_carry(
    lines: Seq<Seq<char>>,
    i: int,
    song: SongView,
    before: Seq<WarningView>,
)
    ensures
        sections(lines, i, Reading { song, warnings: before }) == noted_before(
            before,
            sections(lines, i, Reading { song, warnings: Seq::empty() }),
        ),
    decreases lines.len() - i,
{
    let with = Reading { song, warnings: before };
    let without = Reading { song, warnings: Seq::<WarningView>::empty() };
    if i < 0 || i >= lines.len() {
        // Nothing follows: the warnings in hand are all there is.
    } else if !is_header(trimmed(lines[i])) {
        lemma_warnings_carry(lines, i + 1, song, before);
    } else if i + 1 < lines.len() {
        let header = trimmed(lines[i]);
        let name = header_name(header);
        let body = body_start(lines, i);
        let next = section_next(lines, body, name);
        lemma_scan_bounds(lines, body, song_reader());
        lemma_scan_bounds(lines, body, sync_reader());
        lemma_scan_bounds(lines, body, event_reader());
        lemma_scan_bounds(lines, body, note_reader());
        let first = section_read(lines, body, name, header, with);
        let second = section_read(lines, body, name, header, without);
        assert(first == noted_before(before, second)) by {
            if second is Ok {
                assert(first->Ok_0.warnings =~= before + second->Ok_0.warnings);
            }
        }
        if second is Ok {
            let more = second->Ok_0;
            lemma_warnings_carry(lines, next, more.song, before + more.warnings);
            lemma_warnings_carry(lines, next, more.song, more.warnings);
            let rest = sections(lines, next, Reading { song: more.song, warnings: Seq::empty() });
            if rest is Ok {
                assert((before + more.warnings) + rest->Ok_0.warnings =~= before + (more.warnings
                    + rest->Ok_0.warnings));
            }
        }
    }
}

/// Whether `second` is `first` with one whole section of unknown kind
/// added from line `p` up to line `p + n`. No line of the added section's
/// body may look like a header, and its header may not be the last line of
/// all.
pub open spec fn section_added(first: Seq<Seq<char>>, second: Seq<Seq<char>>, p: int, n: int) -> bool {
    &&& 0 <= p <= first.len()
    &&& n >= 1
    &&& p + 1 < second.len()
    &&& second.len() == first.len() + n
    &&& second.take(p) == first.take(p)
    &&& second.skip(p + n) == first.skip(p)
    &&& is_header(trimmed(second[p]))
    &&& section_kind(header_name(trimmed(second[p]))) == SectionKind::Unknown
    &&& body_start(second, p) <= p + n
    &&& forall|j: int|
        body_start(second, p) <= j < p + n ==> !is_header(trimmed(#[trigger] second[j]))
}

/// A reading with one more warning at place `k`.
pub open spec fn with_warning(out: Result<Reading, ParseError>, k: int, warning: WarningView) -> Result<
    Reading,
    ParseError,
> {
    match out {
        Ok(read) => Ok(Reading { song: read.song, warnings: read.warnings.insert(k, warning) }),
        Err(e) => Err(e),
    }
}

/// Reading on from line `p` with one more warning in hand gives what
/// reading on without it gives, with that warning at its place.
proof fn lemma_one_more_warning(lines: Seq<Seq<char>>, p: int, at: Reading, warning: WarningView)
    ensures
        sections(
            lines,
            p,
            Reading { song: at.song, warnings: at.warnings.push(warning) },
        ) == with_warning(sections(lines, p, at), at.warnings.len() as int, warning),
{
    lemma_warnings_carry(lines, p, at.song, at.warnings);
    lemma_warnings_carry(lines, p, at.song, at.warnings.push(warning));
    let rest = sections(lines, p, Reading { song: at.song, warnings: Seq::empty() });
    if rest is Ok {
        assert(at.warnings.push(warning) + rest->Ok_0.warnings =~= (at.warnings
            + rest->Ok_0.warnings).insert(at.warnings.len() as int, warning));
    }
}

/// A text to which one whole section of unknown kind is added, between two
/// of its sections, reads as it did before: the song is the same, and the
/// warnings gain one, which names the section and stands where the section
/// stands. A text that failed fails as before. `at` is what has been read
/// when line `p` of the text is come to.
pub proof fn lemma_unknown_section_added(
    first: Seq<Seq<char>>,
    second: Seq<Seq<char>>,
    p: int,
    n: int,
    at: Reading,
)
    requires
        section_added(first, second, p, n),
        arrives(first, 0, Reading::empty(), p, at),
    ensures
        sections(second, 0, Reading::empty()) == with_warning(
            sections(first, 0, Reading::empty()),
            at.warnings.len() as int,
            WarningView::UnknownSection(trimmed(second[p])),
        ),
{
    let warning = WarningView::UnknownSection(trimmed(second[p]));
    let noted = Reading { song: at.song, warnings: at.warnings.push(warning) };
    let start = Reading::empty();
    assert forall|j: int| 0 <= j < p implies #[trigger] first[j] == second[j] by {
        assert(second[j] == second.take(p)[j]);
    }
    assert(sections(first, 0, start) == sections(first, p, at)) by {
        lemma_arrives(first, 0, start, p, at);
    }
    assert(sections(second, 0, start) == sections(second, p, at)) by {
        reveal_strlit("{");
        lemma_arrives_by_prefix(first, second, 0, start, p, at);
        lemma_arrives(second, 0, start, p, at);
    }
    assert(sections(second, p, at) == sections(second, p + n, noted)) by {
        lemma_unknown_section_only_warns(second, p, at, p + n);
    }
    assert(sections(second, p + n, noted) == sections(first, p, noted)) by {
        lemma_sections_shift(second, p + n, first, p, noted);
    }
    lemma_one_more_warning(first, p, at, warning);
}

/// A chart to which one whole section of unknown kind is added loads as it
/// did before: the same song, with the same times, and one more warning,
/// which names the section.
pub proof fn lemma_unknown_section_loads_alike(
    first: Seq<Seq<char>>,
    second: Seq<Seq<char>>,
    p: int,
    n: int,
    at: Reading,
)
    requires
        section_added(first, second, p, n),
        arrives(first, 0, Reading::empty(), p, at),
    ensures
        loaded_lines(second) == with_warning(
            loaded_lines(first),
            at.warnings.len() as int,
            WarningView::UnknownSection(trimmed(second[p])),
        ),
{
    lemma_unknown_section_added(first, second, p, n, at);
}

/// Of two chart files, the second of which is the first with one whole
/// section of unknown kind added, the second loads as the first does: the
/// same song, with the same times, or the same failure; and one more
/// warning, which names the section.
pub proof fn lemma_unknown_section_in_file(
    first: Seq<u8>,
    second: Seq<u8>,
    p: int,
    n: int,
    at: Reading,
)
    requires
        valid_utf8(first),
        valid_utf8(second),
        section_added(file_lines(first), file_lines(second), p, n),
        arrives(file_lines(first), 0, Reading::empty(), p, at),
    ensures
        loaded(second) == with_warning(
            loaded(first),
            at.warnings.len() as int,
            WarningView::UnknownSection(trimmed(file_lines(second)[p])),
        ),
        document(second) == document(first),
{
    lemma_unknown_section_loads_alike(file_lines(first), file_lines(second), p, n, at);
}

} // verus!
