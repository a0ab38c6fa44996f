//! The notes still to be played, in the order of their times.

use vstd::prelude::*;
use vstd::seq_lib::{to_multiset_build, to_multiset_insert};

use crate::song::Note;

verus! {

/// Whether no note comes before an earlier one.
pub open spec fn time_ordered(notes: Seq<Note>) -> bool {
    forall|i: int, j: int| 0 <= i <= j < notes.len() ==> notes[i].time <= notes[j].time
}

/// `notes` from its last to its first.
pub open spec fn backwards(notes: Seq<Note>) -> Seq<Note> {
    Seq::new(notes.len(), |i: int| notes[notes.len() - 1 - i])
}

/// Whether a time lies in the closed window from `lo` to `hi`.
pub open spec fn within(time: u128, lo: int, hi: int) -> bool {
    lo <= time <= hi
}

/// Whether the note at place `i` is the first whose time lies in the window.
pub open spec fn is_first_within(notes: Seq<Note>, lo: int, hi: int, i: int) -> bool {
    &&& 0 <= i < notes.len()
    &&& within(notes[i].time, lo, hi)
    &&& forall|j: int| 0 <= j < i ==> !within(#[trigger] notes[j].time, lo, hi)
}

/// The place of the first note whose time lies in the closed window from
/// `lo` to `hi`.
pub open spec fn first_hit(notes: Seq<Note>, lo: int, hi: int) -> Option<int> {
    if exists|i: int| is_first_within(notes, lo, hi, i) {
        Some(choose|i: int| is_first_within(notes, lo, hi, i))
    } else {
        None
    }
}

/// There is one first note in a window at most.
pub proof fn lemma_first_hit(notes: Seq<Note>, lo: int, hi: int, i: int)
    requires
        is_first_within(notes, lo, hi, i),
    ensures
        first_hit(notes, lo, hi) == Some(i),
{
}

/// Whether `time` lies before `base + delta`.
pub fn is_before(time: u128, base: u128, delta: i128) -> (b: bool)
    ensures
        b == (time < base + delta),
{
    if time >= base {
        delta > 0 && time - base < delta as u128
    } else {
        delta >= 0 || base - time > (-(delta + 1)) as u128 + 1
    }
}

/// Whether `time` lies after `base + delta`.
pub fn is_after(time: u128, base: u128, delta: i128) -> (b: bool)
    ensures
        b == (time > base + delta),
{
    if time >= base {
        delta < 0 || time - base > delta as u128
    } else {
        delta < 0 && base - time < (-(delta + 1)) as u128 + 1
    }
}

/// The upcoming notes of one chart. The view lists them from the next to
/// play to the last, and is always ordered by time.
#[derive(Debug)]
pub struct Timeline {
    /// The notes from the last to the next, so that the next is cheap to
    /// take off.
    notes: Vec<Note>,
}

impl View for Timeline {
    type V = Seq<Note>;

    closed spec fn view(&self) -> Seq<Note> {
        backwards(self.notes@)
    }
}

impl Timeline {
    #[verifier::type_invariant]
    spec fn valid(&self) -> bool {
        time_ordered(backwards(self.notes@))
    }

    /// The timeline of `notes`, which must come in the order of their
    /// times; `None` where they do not.
    pub fn new(notes: &Vec<Note>) -> (timeline: Option<Timeline>)
        ensures
            timeline is Some == time_ordered(notes@),
            timeline is Some ==> timeline->0@ == notes@,
    {
        let n = notes.len();
        let mut stored: Vec<Note> = Vec::new();
        let mut k: usize = n;
        while k > 0
            invariant
                k <= n,
                n == notes.len(),
                stored@.len() == n - k,
                forall|i: int| 0 <= i < stored@.len() ==> stored@[i] == notes@[n - 1 - i],
                forall|i: int, j: int| k <= i <= j < n ==> notes@[i].time <= notes@[j].time,
            decreases k,
        {
            k -= 1;
            if k + 1 < n && notes[k].time > notes[k + 1].time {
                return None;
            }
            stored.push(notes[k]);
        }
        Some(Timeline { notes: stored })
    }

    /// The timeline of the same notes, put into the order of their times.
    /// Notes that come in that order already stay as they are.
    pub fn in_time_order(notes: &Vec<Note>) -> (timeline: Timeline)
        ensures
            time_ordered(timeline@),
            timeline@.to_multiset() == notes@.to_multiset(),
            time_ordered(notes@) ==> timeline@ == notes@,
    {
        let mut sorted: Vec<Note> = Vec::new();
        let mut k: usize = 0;
        assert(sorted@ =~= notes@.take(0));
        while k < notes.len()
            invariant
                k <= notes.len(),
                time_ordered(sorted@),
                sorted@.len() == k,
                sorted@.to_multiset() == notes@.take(k as int).to_multiset(),
                time_ordered(notes@) ==> sorted@ == notes@.take(k as int),
            decreases notes.len() - k,
        {
            let note = notes[k];
            let mut at: usize = sorted.len();
            while at > 0 && sorted[at - 1].time > note.time
                invariant
                    at <= sorted.len(),
                    sorted@.len() == k,
                    k < notes.len(),
                    note == notes@[k as int],
                    forall|j: int| at <= j < sorted@.len() ==> sorted@[j].time > note.time,
                    time_ordered(notes@) ==> at == k && sorted@ == notes@.take(k as int),
                decreases at,
            {
                at -= 1;
            }
            let ghost before = sorted@;
            sorted.insert(at, note);
            proof {
                to_multiset_insert(before, at as int, note);
                to_multiset_build(notes@.take(k as int), note);
                assert(notes@.take(k + 1) =~= notes@.take(k as int).push(note));
            }
            k += 1;
        }
        assert(notes@.take(k as int) =~= notes@);
        match Timeline::new(&sorted) {
            Some(timeline) => timeline,
            None => Timeline { notes: Vec::new() },
        }
    }

    /// How many notes are left. They are always in the order of their times.
    pub fn len(&self) -> (n: usize)
        ensures
            n == self@.len(),
            time_ordered(self@),
    {
        proof {
            use_type_invariant(self);
        }
        self.notes.len()
    }

    /// Whether no note is left.
    pub fn is_empty(&self) -> (b: bool)
        ensures
            b == (self@.len() == 0),
    {
        self.notes.len() == 0
    }

    /// The note at place `i`, counted from the next to play.
    pub fn get(&self, i: usize) -> (note: Option<&Note>)
        ensures
            note is Some == (i < self@.len()),
            note is Some ==> *note->0 == self@[i as int],
    {
        if i < self.notes.len() {
            Some(&self.notes[self.notes.len() - 1 - i])
        } else {
            None
        }
    }

    /// Takes the note at place `i` out and keeps the others in their order.
    /// Nothing happens where there is no such place.
    pub fn remove(&mut self, i: usize) -> (note: Option<Note>)
        ensures
            note is Some == (i < old(self)@.len()),
            note is Some ==> note->0 == old(self)@[i as int] && final(self)@ == old(self)@.remove(
                i as int,
            ),
            note is None ==> final(self)@ == old(self)@,
            time_ordered(final(self)@),
    {
        proof {
            use_type_invariant(&*self);
        }
        if i >= self.notes.len() {
            return None;
        }
        let ghost before = self.notes@;
        let mut notes: Vec<Note> = Vec::new();
        core::mem::swap(&mut self.notes, &mut notes);
        let at = notes.len() - 1 - i;
        let note = notes.remove(at);
        proof {
            let old_view = backwards(before);
            let new_view = backwards(notes@);
            assert forall|a: int, b: int| 0 <= a <= b < new_view.len() implies new_view[a].time
                <= new_view[b].time by {
                let a0 = if a < i {
                    a
                } else {
                    a + 1
                };
                let b0 = if b < i {
                    b
                } else {
                    b + 1
                };
                assert(new_view[a] == old_view[a0]);
                assert(new_view[b] == old_view[b0]);
            }
        }
        self.notes = notes;
        Some(note)
    }

    /// The place of the first note whose time lies in the closed window
    /// from `base + lo` to `base + hi`.
    pub fn first_within(&self, base: u128, lo: i128, hi: i128) -> (place: Option<usize>)
        ensures
            match place {
                Some(i) => first_hit(self@, base + lo, base + hi) == Some(i as int),
                None => first_hit(self@, base + lo, base + hi) is None,
            },
    {
        proof {
            use_type_invariant(self);
        }
        let n = self.notes.len();
        let ghost view = backwards(self.notes@);
        let mut i: usize = 0;
        while i < n
            invariant
                i <= n,
                n == self.notes.len(),
                view == backwards(self.notes@),
                time_ordered(view),
                forall|j: int| 0 <= j < i ==> !within(#[trigger] view[j].time, base + lo, base + hi),
            decreases n - i,
        {
            let time = self.notes[n - 1 - i].time;
            if is_after(time, base, hi) {
                // Every later note lies beyond the window too.
                assert forall|j: int| 0 <= j < n implies !within(
                    #[trigger] view[j].time,
                    base + lo,
                    base + hi,
                ) by {
                    if j >= i {
                        assert(view[i as int].time <= view[j].time);
                    }
                }
                return None;
            }
            if !is_before(time, base, lo) {
                proof {
                    lemma_first_hit(view, base + lo, base + hi, i as int);
                }
                return Some(i);
            }
            i += 1;
        }
        None
    }

    /// Drops every note whose time lies before `cutoff` and says how many
    /// there were. They are the first of the timeline.
    pub fn expire(&mut self, cutoff: i128) -> (dropped: usize)
        ensures
            dropped <= old(self)@.len(),
            final(self)@ == old(self)@.skip(dropped as int),
            forall|j: int| 0 <= j < dropped ==> (#[trigger] old(self)@[j]).time < cutoff,
            forall|j: int| 0 <= j < final(self)@.len() ==> (#[trigger] final(self)@[j]).time >= cutoff,
            time_ordered(final(self)@),
    {
        proof {
            use_type_invariant(&*self);
        }
        let ghost before = self.notes@;
        let ghost old_view = backwards(before);
        let mut notes: Vec<Note> = Vec::new();
        core::mem::swap(&mut self.notes, &mut notes);
        let mut dropped: usize = 0;
        proof {
            assert(before.len() == notes.len());
        }
        while notes.len() > 0 && is_before(notes[notes.len() - 1].time, 0, cutoff)
            invariant
                old_view == backwards(before),
                time_ordered(old_view),
                before.len() <= usize::MAX,
                dropped + notes@.len() == before.len(),
                backwards(notes@) == old_view.skip(dropped as int),
                forall|j: int| 0 <= j < dropped ==> (#[trigger] old_view[j]).time < cutoff,
            decreases notes.len(),
        {
            let ghost shown = backwards(notes@);
            assert(shown[0] == old_view[dropped as int]);
            notes.pop();
            dropped += 1;
            assert forall|j: int| 0 <= j < notes@.len() implies backwards(notes@)[j] == old_view.skip(
                dropped as int,
            )[j] by {
                assert(backwards(notes@)[j] == shown[j + 1]);
            }
        }
        proof {
            let new_view = backwards(notes@);
            assert forall|j: int| 0 <= j < new_view.len() implies (#[trigger] new_view[j]).time
                >= cutoff by {
                assert(new_view[0] == old_view[dropped as int]);
            }
        }
        self.notes = notes;
        dropped
    }

    /// The places of the notes whose times lie in the closed window from
    /// `from` to `to`: they run from the first place handed back up to, and
    /// not including, the second.
    pub fn visible(&self, from: i128, to: i128) -> (range: (usize, usize))
        ensures
            range.0 <= range.1 <= self@.len(),
            forall|j: int|
                0 <= j < self@.len() ==> (range.0 <= j < range.1) == within(
                    #[trigger] self@[j].time,
                    from as int,
                    to as int,
                ),
    {
        proof {
            use_type_invariant(self);
        }
        let n = self.notes.len();
        let ghost view = backwards(self.notes@);
        let mut start: usize = 0;
        while start < n && is_before(self.notes[n - 1 - start].time, 0, from)
            invariant
                start <= n,
                n == self.notes.len(),
                view == backwards(self.notes@),
                forall|j: int| 0 <= j < start ==> (#[trigger] view[j]).time < from,
            decreases n - start,
        {
            start += 1;
        }
        let mut end: usize = start;
        while end < n && !is_after(self.notes[n - 1 - end].time, 0, to)
            invariant
                start <= end <= n,
                n == self.notes.len(),
                view == backwards(self.notes@),
                time_ordered(view),
                forall|j: int| start <= j < end ==> (#[trigger] view[j]).time <= to,
            decreases n - end,
        {
            end += 1;
        }
        proof {
            assert forall|j: int| 0 <= j < n implies (start <= j < end) == within(
                #[trigger] view[j].time,
                from as int,
                to as int,
            ) by {
                if j >= end {
                    assert(view[end as int].time <= view[j].time);
                }
                if start <= j {
                    if start < n {
                        assert(view[start as int].time <= view[j].time);
                    }
                }
            }
        }
        (start, end)
    }
}

} // verus!
