//! Character-level helpers shared by the chart parsers.

use vstd::prelude::*;
use vstd::utf8::*;

verus! {

/// Characters that carry the Unicode `White_Space` property.
pub open spec fn white_space(c: char) -> bool {
    let u = c as u32;
    ||| 0x09 <= u <= 0x0d
    ||| u == 0x20
    ||| u == 0x85
    ||| u == 0xa0
    ||| u == 0x1680
    ||| 0x2000 <= u <= 0x200a
    ||| u == 0x2028
    ||| u == 0x2029
    ||| u == 0x202f
    ||| u == 0x205f
    ||| u == 0x3000
}

/// Whether `c` is whitespace.
pub fn is_whitespace(c: char) -> (b: bool)
    ensures
        b == white_space(c),
{
    let u = c as u32;
    (0x09 <= u && u <= 0x0d) || u == 0x20 || u == 0x85 || u == 0xa0 || u == 0x1680
        || (0x2000 <= u && u <= 0x200a) || u == 0x2028 || u == 0x2029 || u == 0x202f
        || u == 0x205f || u == 0x3000
}

/// First index at or after `i` that holds no whitespace, or the length.
pub open spec fn skip_space(s: Seq<char>, i: int) -> int
    decreases s.len() - i,
{
    if 0 <= i < s.len() && white_space(s[i]) {
        skip_space(s, i + 1)
    } else {
        i
    }
}

/// Smallest end `j >= lo` such that everything in `s[j..hi]` is whitespace.
pub open spec fn drop_space(s: Seq<char>, lo: int, hi: int) -> int
    decreases hi - lo,
{
    if lo < hi <= s.len() && white_space(s[hi - 1]) {
        drop_space(s, lo, hi - 1)
    } else {
        hi
    }
}

/// `s` without its leading and trailing whitespace.
pub open spec fn trimmed(s: Seq<char>) -> Seq<char> {
    let lo = skip_space(s, 0);
    s.subrange(lo, drop_space(s, lo, s.len() as int))
}

/// Trimming takes whitespace off both ends and nothing else: all that
/// stands before and behind what is kept is whitespace, and what is kept
/// neither begins nor ends with it.
pub proof fn lemma_trimmed(s: Seq<char>)
    ensures
        ({
            let lo = skip_space(s, 0);
            let hi = drop_space(s, lo, s.len() as int);
            &&& 0 <= lo <= hi <= s.len()
            &&& forall|k: int| 0 <= k < lo ==> white_space(#[trigger] s[k])
            &&& forall|k: int| hi <= k < s.len() ==> white_space(#[trigger] s[k])
            &&& lo < hi ==> !white_space(s[lo]) && !white_space(s[hi - 1])
        }),
        trimmed(s).len() > 0 ==> !white_space(trimmed(s).first()) && !white_space(
            trimmed(s).last(),
        ),
{
    lemma_skip_space(s, 0);
    let lo = skip_space(s, 0);
    lemma_drop_space(s, lo, s.len() as int);
}

/// From `i` up to where `skip_space` stops there is only whitespace, and
/// none where it stops.
proof fn lemma_skip_space(s: Seq<char>, i: int)
    requires
        0 <= i <= s.len(),
    ensures
        i <= skip_space(s, i) <= s.len(),
        forall|k: int| i <= k < skip_space(s, i) ==> white_space(#[trigger] s[k]),
        skip_space(s, i) < s.len() ==> !white_space(s[skip_space(s, i)]),
    decreases s.len() - i,
{
    if i < s.len() && white_space(s[i]) {
        lemma_skip_space(s, i + 1);
    }
}

/// From where `drop_space` stops up to `hi` there is only whitespace, and
/// none just before where it stops.
proof fn lemma_drop_space(s: Seq<char>, lo: int, hi: int)
    requires
        0 <= lo <= hi <= s.len(),
    ensures
        lo <= drop_space(s, lo, hi) <= hi,
        forall|k: int| drop_space(s, lo, hi) <= k < hi ==> white_space(#[trigger] s[k]),
        lo < drop_space(s, lo, hi) ==> !white_space(s[drop_space(s, lo, hi) - 1]),
    decreases hi - lo,
{
    if lo < hi && white_space(s[hi - 1]) {
        lemma_drop_space(s, lo, hi - 1);
    }
}

/// Copies `s[lo..hi]`.
pub(crate) fn slice_chars(s: &Vec<char>, lo: usize, hi: usize) -> (out: Vec<char>)
    requires
        lo <= hi <= s.len(),
    ensures
        out@ == s@.subrange(lo as int, hi as int),
{
    let mut out: Vec<char> = Vec::new();
    let mut k: usize = lo;
    while k < hi
        invariant
            lo <= k <= hi <= s.len(),
            out@ == s@.subrange(lo as int, k as int),
        decreases hi - k,
    {
        out.push(s[k]);
        k += 1;
    }
    out
}

/// Removes leading and trailing whitespace.
pub fn trim(s: &Vec<char>) -> (out: Vec<char>)
    ensures
        out@ == trimmed(s@),
{
    let mut lo: usize = 0;
    while lo < s.len() && is_whitespace(s[lo])
        invariant
            lo <= s.len(),
            skip_space(s@, lo as int) == skip_space(s@, 0),
        decreases s.len() - lo,
    {
        lo += 1;
    }
    let mut hi: usize = s.len();
    while lo < hi && is_whitespace(s[hi - 1])
        invariant
            lo <= hi <= s.len(),
            drop_space(s@, lo as int, hi as int) == drop_space(s@, lo as int, s@.len() as int),
        decreases hi - lo,
    {
        hi -= 1;
    }
    slice_chars(s, lo, hi)
}

/// The lower-case form of a string, as `str::to_lowercase` gives it.
pub uninterp spec fn lowercase(s: Seq<char>) -> Seq<char>;

/// Calls `str::to_lowercase`. The contract gives the result its name and
/// claims nothing else of it.
#[verifier::external_body]
fn str_to_lowercase(s: &str) -> (lower: String)
    ensures
        lower@ == lowercase(s@),
{
    s.to_lowercase()
}

/// Calls `String::push`: the string afterwards is the string before with
/// `c` at its end.
#[verifier::external_body]
fn string_push(s: &mut String, c: char)
    ensures
        final(s)@ == old(s)@.push(c),
{
    s.push(c)
}

/// Calls `core::str::from_utf8`: it accepts the byte strings that are
/// well-formed UTF-8 and no others, and the text it hands back is what those
/// bytes encode.
#[verifier::external_body]
fn str_from_utf8(bytes: &[u8]) -> (text: Option<&str>)
    ensures
        text is Some <==> valid_utf8(bytes@),
        text is Some ==> text->0@ == decode_utf8(bytes@),
{
    match core::str::from_utf8(bytes) {
        Ok(s) => Some(s),
        Err(_) => None,
    }
}

/// The characters of `s`, in order.
pub fn chars_of(s: &str) -> (v: Vec<char>)
    ensures
        v@ == s@,
{
    let mut v: Vec<char> = Vec::new();
    for c in it: s.chars()
        invariant
            v@ == it.seq().take(it.index() as int),
            it.seq() == s@,
    {
        v.push(c);
    }
    v
}

/// The string made of the characters of `v`.
pub fn string_of(v: &Vec<char>) -> (s: String)
    ensures
        s@ == v@,
{
    let mut s = String::new();
    let mut i: usize = 0;
    while i < v.len()
        invariant
            i <= v.len(),
            s@ == v@.take(i as int),
        decreases v.len() - i,
    {
        string_push(&mut s, v[i]);
        i += 1;
    }
    s
}

/// Decodes UTF-8 bytes into characters; `None` when the bytes are not UTF-8.
pub fn decode(bytes: &[u8]) -> (out: Option<Vec<char>>)
    ensures
        out is Some <==> valid_utf8(bytes@),
        out is Some ==> out->0@ == decode_utf8(bytes@),
{
    match str_from_utf8(bytes) {
        Some(s) => Some(chars_of(s)),
        None => None,
    }
}

/// Lower-cases a character string.
pub fn to_lowercase(v: &Vec<char>) -> (out: Vec<char>)
    ensures
        out@ == lowercase(v@),
{
    let s = string_of(v);
    let lower = str_to_lowercase(s.as_str());
    chars_of(lower.as_str())
}

/// `s` without its first `start` and last `end` characters; empty when `s`
/// is shorter than `start + end`.
pub open spec fn stripped(s: Seq<char>, start: nat, end: nat) -> Seq<char> {
    if start + end <= s.len() {
        s.subrange(start as int, s.len() - end)
    } else {
        Seq::empty()
    }
}

/// Takes `start` characters off the front of `s` and `end` off its back.
pub fn strip(s: &Vec<char>, start: usize, end: usize) -> (out: Vec<char>)
    ensures
        out@ == stripped(s@, start as nat, end as nat),
{
    if start <= s.len() && end <= s.len() - start {
        slice_chars(s, start, s.len() - end)
    } else {
        Vec::new()
    }
}

/// Drops `start` characters from the front of `s` and `end` from its back.
pub fn remove_chars(s: String, start: usize, end: usize) -> (out: String)
    ensures
        out@ == stripped(s@, start as nat, end as nat),
{
    let v = chars_of(s.as_str());
    string_of(&strip(&v, start, end))
}

/// Drops the first and the last character of `s`.
pub fn remove_quotes(s: String) -> (out: String)
    ensures
        out@ == stripped(s@, 1, 1),
{
    remove_chars(s, 1, 1)
}

/// Whether `s` begins with `p`.
pub open spec fn has_prefix(s: Seq<char>, p: Seq<char>) -> bool {
    p.len() <= s.len() && s.subrange(0, p.len() as int) == p
}

/// Whether `s` ends with `p`.
pub open spec fn has_suffix(s: Seq<char>, p: Seq<char>) -> bool {
    p.len() <= s.len() && s.subrange(s.len() - p.len(), s.len() as int) == p
}

/// Whether `s[at..]` begins with `p`.
pub(crate) fn matches_at(s: &Vec<char>, at: usize, p: &Vec<char>) -> (b: bool)
    requires
        at <= s.len(),
    ensures
        b == has_prefix(s@.skip(at as int), p@),
{
    if p.len() > s.len() - at {
        return false;
    }
    let mut k: usize = 0;
    while k < p.len()
        invariant
            at <= s.len(),
            p.len() <= s.len() - at,
            k <= p.len(),
            forall|j: int| 0 <= j < k ==> s@[at + j] == p@[j],
        decreases p.len() - k,
    {
        if s[at + k] != p[k] {
            return false;
        }
        k += 1;
    }
    assert(s@.skip(at as int).subrange(0, p@.len() as int) =~= p@);
    true
}

/// Whether `s` begins with `p`.
pub fn starts_with(s: &Vec<char>, p: &str) -> (b: bool)
    ensures
        b == has_prefix(s@, p@),
{
    let pv = chars_of(p);
    assert(s@.skip(0) =~= s@);
    matches_at(s, 0, &pv)
}

/// Whether `s` ends with `p`.
pub fn ends_with(s: &Vec<char>, p: &str) -> (b: bool)
    ensures
        b == has_suffix(s@, p@),
{
    let pv = chars_of(p);
    if pv.len() > s.len() {
        return false;
    }
    let at = s.len() - pv.len();
    assert(s@.skip(at as int).subrange(0, pv@.len() as int) =~= s@.subrange(
        s@.len() - pv@.len(),
        s@.len() as int,
    ));
    matches_at(s, at, &pv)
}

/// Whether `s` is `p`.
pub fn equals(s: &Vec<char>, p: &str) -> (b: bool)
    ensures
        b == (s@ == p@),
{
    let pv = chars_of(p);
    if pv.len() != s.len() {
        return false;
    }
    assert(s@.subrange(0, s@.len() as int) =~= s@);
    matches_at(s, 0, &pv)
}

/// First index at or after `from` where `p` occurs in `s`, or the length of
/// `s` when it occurs nowhere from there on.
pub open spec fn find_from(s: Seq<char>, p: Seq<char>, from: int) -> int
    decreases s.len() - from,
{
    if from < 0 || from >= s.len() || from + p.len() > s.len() {
        s.len() as int
    } else if has_prefix(s.skip(from), p) {
        from
    } else {
        find_from(s, p, from + 1)
    }
}

/// What `find_from` finds is the first place from `from` on where `p`
/// stands in `s`; where it finds nothing, `p` stands nowhere from there on.
pub proof fn lemma_find_from(s: Seq<char>, p: Seq<char>, from: int)
    ensures
        find_from(s, p, from) <= s.len(),
        0 <= from <= s.len() ==> from <= find_from(s, p, from),
        find_from(s, p, from) < s.len() ==> find_from(s, p, from) + p.len() <= s.len()
            && has_prefix(s.skip(find_from(s, p, from)), p),
        forall|i: int|
            0 <= from <= i < find_from(s, p, from) && i < s.len() ==> !has_prefix(
                #[trigger] s.skip(i),
                p,
            ),
    decreases s.len() - from,
{
    if 0 <= from < s.len() && from + p.len() <= s.len() && !has_prefix(s.skip(from), p) {
        lemma_find_from(s, p, from + 1);
    }
}

/// The first place from `from` on where `p` stands in `s`, or the length
/// of `s` where it stands nowhere.
pub fn find(s: &Vec<char>, p: &Vec<char>, from: usize) -> (at: usize)
    ensures
        at == find_from(s@, p@, from as int),
        at <= s.len(),
        from <= s.len() ==> from <= at,
        at < s.len() ==> at + p.len() <= s.len(),
{
    if p.len() > s.len() || from > s.len() - p.len() || from >= s.len() {
        return s.len();
    }
    let last = s.len() - p.len();
    let mut i: usize = from;
    loop
        invariant
            from <= i <= last,
            last == s.len() - p.len(),
            find_from(s@, p@, i as int) == find_from(s@, p@, from as int),
        decreases last - i,
    {
        if matches_at(s, i, p) {
            return i;
        }
        if i == last {
            assert(find_from(s@, p@, i + 1) == s@.len());
            return s.len();
        }
        i += 1;
    }
}

/// The part of `s` before the first ` = `; all of `s` when there is none.
pub open spec fn assigned_key(s: Seq<char>) -> Seq<char> {
    s.take(find_from(s, assignment(), 0))
}

/// The part of `s` between the first ` = ` and the next one (or the end);
/// `None` when `s` holds no ` = `.
pub open spec fn assigned_value(s: Seq<char>) -> Option<Seq<char>> {
    let i = find_from(s, assignment(), 0);
    if i >= s.len() {
        None
    } else {
        Some(s.subrange(i + 3, find_from(s, assignment(), i + 3)))
    }
}

/// The separator between a key and its value.
pub open spec fn assignment() -> Seq<char> {
    seq![' ', '=', ' ']
}

/// Splits a line at ` = ` into the first two pieces.
pub fn split_assignment(s: &Vec<char>) -> (kv: (Vec<char>, Option<Vec<char>>))
    ensures
        kv.0@ == assigned_key(s@),
        kv.1 is Some == assigned_value(s@) is Some,
        kv.1 is Some ==> kv.1->0@ == assigned_value(s@)->0,
{
    let mut sep: Vec<char> = Vec::new();
    sep.push(' ');
    sep.push('=');
    sep.push(' ');
    assert(sep@ =~= assignment());
    let i = find(s, &sep, 0);
    if i >= s.len() {
        (slice_chars(s, 0, s.len()), None)
    } else {
        let j = find(s, &sep, i + 3);
        (slice_chars(s, 0, i), Some(slice_chars(s, i + 3, j)))
    }
}

/// First index at or after `from` that holds `sep`, or the length of `s`.
pub open spec fn next_char(s: Seq<char>, sep: char, from: int) -> int
    decreases s.len() - from,
{
    if from < 0 || from >= s.len() {
        s.len() as int
    } else if s[from] == sep {
        from
    } else {
        next_char(s, sep, from + 1)
    }
}

/// The pieces of `s[from..]` between occurrences of `sep`. There is always
/// at least one piece; two adjacent separators enclose an empty piece.
pub open spec fn fields_from(s: Seq<char>, sep: char, from: int) -> Seq<Seq<char>>
    decreases s.len() - from,
{
    let j = next_char(s, sep, from);
    if from < 0 || j < from || j >= s.len() {
        seq![s.subrange(from, s.len() as int)]
    } else {
        seq![s.subrange(from, j)] + fields_from(s, sep, j + 1)
    }
}

/// The pieces of `s` between occurrences of `sep`.
pub open spec fn fields(s: Seq<char>, sep: char) -> Seq<Seq<char>> {
    fields_from(s, sep, 0)
}

/// The pieces put together again, with `sep` between each two.
pub open spec fn joined(pieces: Seq<Seq<char>>, sep: char) -> Seq<char>
    decreases pieces.len(),
{
    if pieces.len() == 0 {
        Seq::empty()
    } else if pieces.len() == 1 {
        pieces[0]
    } else {
        pieces[0] + seq![sep] + joined(pieces.skip(1), sep)
    }
}

/// Splitting loses nothing and leaves no separator behind: the pieces of
/// `s[from..]`, joined with `sep`, are `s[from..]` again, and `sep` occurs
/// in none of them.
pub proof fn lemma_fields(s: Seq<char>, sep: char, from: int)
    requires
        0 <= from <= s.len(),
    ensures
        fields_from(s, sep, from).len() >= 1,
        joined(fields_from(s, sep, from), sep) == s.skip(from),
        forall|k: int|
            0 <= k < fields_from(s, sep, from).len() ==> !(#[trigger] fields_from(
                s,
                sep,
                from,
            )[k]).contains(sep),
    decreases s.len() - from,
{
    lemma_next_char(s, sep, from);
    let j = next_char(s, sep, from);
    if j < s.len() {
        lemma_fields(s, sep, j + 1);
        assert(fields_from(s, sep, from).skip(1) =~= fields_from(s, sep, j + 1));
    }
}

/// From `from` up to where `next_char` stops there is no `sep`, and where
/// it stops within `s` there is one.
proof fn lemma_next_char(s: Seq<char>, sep: char, from: int)
    requires
        0 <= from <= s.len(),
    ensures
        from <= next_char(s, sep, from) <= s.len(),
        forall|k: int| from <= k < next_char(s, sep, from) ==> #[trigger] s[k] != sep,
        next_char(s, sep, from) < s.len() ==> s[next_char(s, sep, from)] == sep,
    decreases s.len() - from,
{
    if from < s.len() && s[from] != sep {
        lemma_next_char(s, sep, from + 1);
    }
}

/// The character strings that the elements of `v` hold.
pub open spec fn texts(v: Seq<Vec<char>>) -> Seq<Seq<char>> {
    Seq::new(v.len(), |i: int| v[i]@)
}

/// Splits `s` at every `sep`.
pub fn split(s: &Vec<char>, sep: char) -> (out: Vec<Vec<char>>)
    ensures
        texts(out@) == fields(s@, sep),
        out.len() >= 1,
{
    let mut out: Vec<Vec<char>> = Vec::new();
    let mut start: usize = 0;
    let mut i: usize = 0;
    while i < s.len()
        invariant
            start <= i <= s.len(),
            next_char(s@, sep, start as int) == next_char(s@, sep, i as int),
            fields(s@, sep) == texts(out@) + fields_from(s@, sep, start as int),
        decreases s.len() - i,
    {
        if s[i] == sep {
            let piece = slice_chars(s, start, i);
            out.push(piece);
            start = i + 1;
        }
        i += 1;
    }
    let piece = slice_chars(s, start, s.len());
    out.push(piece);
    out
}

} // verus!
