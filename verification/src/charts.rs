//! The charts of a song, one for each instrument and difficulty.

use vstd::prelude::*;

use crate::song::{Chart, ChartView, Difficulty, Instrument};
use crate::tempo::{calculate_note_times, timed_chart, Breakpoint, TempoMap};

verus! {

/// What a chart is filed under.
pub type ChartKey = (Instrument, Difficulty);

/// A chart and what it is filed under.
#[derive(Debug, Clone, PartialEq, Eq)]
pub struct ChartEntry {
    pub instrument: Instrument,
    pub difficulty: Difficulty,
    pub chart: Chart,
}

impl ChartEntry {
    /// What the chart is filed under.
    pub open spec fn key(&self) -> ChartKey {
        (self.instrument, self.difficulty)
    }
}

/// Whether no two entries are filed under the same key.
pub open spec fn distinct_keys(entries: Seq<ChartEntry>) -> bool {
    forall|i: int, j: int|
        0 <= i < entries.len() && 0 <= j < entries.len() && (#[trigger] entries[i]).key() == (
        #[trigger] entries[j]).key() ==> i == j
}

/// Whether some entry is filed under `key`.
pub open spec fn files(entries: Seq<ChartEntry>, key: ChartKey) -> bool {
    exists|i: int| 0 <= i < entries.len() && (#[trigger] entries[i]).key() == key
}

/// The place of an entry that is filed under `key`.
pub open spec fn place(entries: Seq<ChartEntry>, key: ChartKey) -> int {
    choose|i: int| 0 <= i < entries.len() && (#[trigger] entries[i]).key() == key
}

/// The mapping that a list of entries with distinct keys stands for.
pub open spec fn filed(entries: Seq<ChartEntry>) -> Map<ChartKey, ChartView> {
    Map::new(
        |key: ChartKey| files(entries, key),
        |key: ChartKey| entries[place(entries, key)].chart.deep_view(),
    )
}

/// The place of the entry filed under an instrument and a difficulty.
fn find(entries: &Vec<ChartEntry>, instrument: Instrument, difficulty: Difficulty) -> (at: Option<
    usize,
>)
    ensures
        at is Some == files(entries@, (instrument, difficulty)),
        at is Some ==> at->0 < entries@.len() && entries@[at->0 as int].key() == (
            instrument,
            difficulty,
        ),
{
    let mut i: usize = 0;
    while i < entries.len()
        invariant
            i <= entries.len(),
            forall|k: int| 0 <= k < i ==> (#[trigger] entries@[k]).key() != (
                instrument,
                difficulty,
            ),
        decreases entries.len() - i,
    {
        if entries[i].instrument == instrument && entries[i].difficulty == difficulty {
            return Some(i);
        }
        i += 1;
    }
    None
}

/// Charts with the time of every note set from its tick.
pub open spec fn timed_charts(
    charts: Map<ChartKey, ChartView>,
    map: Seq<Breakpoint>,
    resolution: usize,
) -> Map<ChartKey, ChartView> {
    Map::new(
        |key: ChartKey| charts.contains_key(key),
        |key: ChartKey| timed_chart(charts[key], map, resolution),
    )
}

/// The charts of a song. Each pair of instrument and difficulty has at most
/// one chart.
#[derive(Debug)]
pub struct Charts {
    entries: Vec<ChartEntry>,
}

impl View for Charts {
    type V = Map<ChartKey, ChartView>;

    closed spec fn view(&self) -> Map<ChartKey, ChartView> {
        filed(self.entries@)
    }
}

impl Charts {
    #[verifier::type_invariant]
    spec fn valid(&self) -> bool {
        distinct_keys(self.entries@)
    }

    /// The number of charts.
    pub closed spec fn count(&self) -> nat {
        self.entries@.len()
    }

    /// What the chart at place `n` is filed under.
    pub closed spec fn key_at(&self, n: int) -> ChartKey {
        self.entries@[n].key()
    }

    /// Whether the places below `count()` hold the keys of the view, each
    /// key at one place and no more.
    pub open spec fn places_hold_keys(&self) -> bool {
        &&& forall|m: int, n: int|
            0 <= m < self.count() && 0 <= n < self.count() && #[trigger] self.key_at(m)
                == #[trigger] self.key_at(n) ==> m == n
        &&& forall|n: int| 0 <= n < self.count() ==> self@.contains_key(#[trigger] self.key_at(n))
        &&& forall|key: ChartKey| #[trigger]
            self@.contains_key(key) ==> exists|n: int|
                0 <= n < self.count() && self.key_at(n) == key
    }

    /// No charts.
    pub fn new() -> (charts: Charts)
        ensures
            charts@ == Map::<ChartKey, ChartView>::empty(),
            charts.count() == 0,
    {
        Charts { entries: Vec::new() }
    }

    /// How many charts there are. The places below that number hold the
    /// keys of the view, each once.
    pub fn len(&self) -> (n: usize)
        ensures
            n == self.count(),
            self.places_hold_keys(),
    {
        proof {
            use_type_invariant(self);
            assert forall|key: ChartKey| #[trigger] self@.contains_key(key) implies exists|n: int|
                0 <= n < self.count() && self.key_at(n) == key by {
                let n = place(self.entries@, key);
                assert(self.key_at(n) == key);
            }
        }
        self.entries.len()
    }

    /// The chart filed under an instrument and a difficulty.
    pub fn get(&self, instrument: Instrument, difficulty: Difficulty) -> (chart: Option<&Chart>)
        ensures
            chart is Some == self@.contains_key((instrument, difficulty)),
            chart is Some ==> chart->0.deep_view() == self@[(instrument, difficulty)],
    {
        proof {
            use_type_invariant(self);
        }
        match find(&self.entries, instrument, difficulty) {
            Some(at) => Some(&self.entries[at].chart),
            None => None,
        }
    }

    /// The chart at place `n`, with what it is filed under. The places run
    /// from zero up to the number of charts; each holds another key, and
    /// together they hold every key.
    pub fn entry(&self, n: usize) -> (found: Option<&ChartEntry>)
        ensures
            found is Some == (n < self.count()),
            found is Some ==> {
                &&& found->0.key() == self.key_at(n as int)
                &&& self@.contains_key(found->0.key())
                &&& self@[found->0.key()] == found->0.chart.deep_view()
            },
            self.places_hold_keys(),
    {
        let _ = self.len();
        proof {
            use_type_invariant(self);
        }
        if n < self.entries.len() {
            Some(&self.entries[n])
        } else {
            None
        }
    }

    /// Files `chart` under an instrument and a difficulty and hands back
    /// the chart that was filed there before, if there was one.
    pub fn insert(&mut self, instrument: Instrument, difficulty: Difficulty, chart: Chart) -> (old_chart:
        Option<Chart>)
        ensures
            final(self)@ == old(self)@.insert((instrument, difficulty), chart.deep_view()),
            old_chart is Some == old(self)@.contains_key((instrument, difficulty)),
            old_chart is Some ==> old_chart->0.deep_view() == old(self)@[(instrument, difficulty)],
            final(self).count() == old(self).count() + if old_chart is Some {
                0nat
            } else {
                1nat
            },
            forall|n: int|
                0 <= n < old(self).count() ==> #[trigger] final(self).key_at(n) == old(self).key_at(
                    n,
                ),
            old_chart is None ==> final(self).key_at(old(self).count() as int) == (
                instrument,
                difficulty,
            ),
    {
        proof {
            use_type_invariant(&*self);
        }
        let ghost before = self.entries@;
        let ghost key = (instrument, difficulty);
        let mut entries: Vec<ChartEntry> = Vec::new();
        core::mem::swap(&mut self.entries, &mut entries);
        let found = find(&entries, instrument, difficulty);
        let mut entry = ChartEntry { instrument, difficulty, chart };
        match found {
            Some(at) => {
                core::mem::swap(&mut entries[at], &mut entry);
                proof {
                    let after = entries@;
                    assert forall|k: ChartKey| #[trigger]
                        filed(after).contains_key(k) == filed(before).insert(
                            key,
                            chart.deep_view(),
                        ).contains_key(k) by {
                        if files(before, k) {
                            assert(after[place(before, k)].key() == k);
                        }
                    }
                }
                self.entries = entries;
                Some(entry.chart)
            },
            None => {
                entries.push(entry);
                proof {
                    let after = entries@;
                    assert forall|k: ChartKey| #[trigger]
                        filed(after).contains_key(k) == filed(before).insert(
                            key,
                            chart.deep_view(),
                        ).contains_key(k) by {
                        if files(before, k) {
                            assert(after[place(before, k)].key() == k);
                        }
                        if k == key {
                            assert(after[before.len() as int].key() == k);
                        }
                    }
                }
                self.entries = entries;
                None
            },
        }
    }

    /// Sets the time of every note of every chart from its tick.
    pub fn set_times(&mut self, map: &TempoMap)
        ensures
            final(self)@ == timed_charts(old(self)@, map@.breakpoints, map@.resolution),
            final(self).count() == old(self).count(),
            forall|n: int|
                0 <= n < old(self).count() ==> #[trigger] final(self).key_at(n) == old(self).key_at(
                    n,
                ),
    {
        proof {
            use_type_invariant(&*self);
        }
        let ghost before = self.entries@;
        let mut entries: Vec<ChartEntry> = Vec::new();
        core::mem::swap(&mut self.entries, &mut entries);
        let mut i: usize = 0;
        while i < entries.len()
            invariant
                i <= entries.len(),
                entries@.len() == before.len(),
                forall|k: int| 0 <= k < before.len() ==> (#[trigger] entries@[k]).key() == before[k].key(),
                forall|k: int|
                    0 <= k < i ==> (#[trigger] entries@[k]).chart.deep_view() == timed_chart(
                        before[k].chart.deep_view(),
                        map@.breakpoints,
                        map@.resolution,
                    ),
                forall|k: int| i <= k < before.len() ==> entries@[k] == before[k],
            decreases entries.len() - i,
        {
            calculate_note_times(&mut entries[i].chart, map);
            i += 1;
        }
        proof {
            let after = entries@;
            let want = timed_charts(filed(before), map@.breakpoints, map@.resolution);
            assert forall|k: ChartKey| #[trigger] filed(after).contains_key(k) == want.contains_key(
                k,
            ) by {
                if files(before, k) {
                    assert(after[place(before, k)].key() == k);
                }
            }
        }
        self.entries = entries;
    }
}

} // verus!
