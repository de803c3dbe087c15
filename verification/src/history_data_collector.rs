use vstd::prelude::*;
use vstd::std_specs::iter::IteratorSpec;
use std::collections::HashMap;
use crate::gizmos::GizmoResult;
use crate::temperature::Temp;

verus! {

broadcast use vstd::std_specs::hash::group_hash_axioms;

/// What a probe found at one time; the time is counted in microseconds from
/// a start that the owner of the history chooses.
#[derive(Clone, Copy, Debug, PartialEq, Eq, Structural)]
pub struct DataPoint {
    pub temperature: Temp,
    pub time: u64,
}

/// What each probe found, frame after frame.
pub struct HistoryDataCollector {
    /// The data points of each probe under the number of the probe, in the
    /// order in which they came in.
    pub stored_data: HashMap<u128, Vec<DataPoint>>,
}

/// The data points kept for `probe`, and none where nothing is kept for it.
pub open spec fn history_of(stored: Map<u128, Vec<DataPoint>>, probe: u128) -> Seq<DataPoint> {
    if stored.contains_key(probe) {
        stored[probe]@
    } else {
        Seq::empty()
    }
}

/// Those of `points` whose time lies from `from` to `to`, both included,
/// in their order.
pub open spec fn within(points: Seq<DataPoint>, from: u64, to: u64) -> Seq<DataPoint>
    decreases points.len(),
{
    if points.len() == 0 {
        Seq::empty()
    } else {
        let before = within(points.drop_last(), from, to);
        if from <= points.last().time <= to {
            before.push(points.last())
        } else {
            before
        }
    }
}

/// The numbers of the probes that `results` holds something for, each once.
fn probes_of(results: &HashMap<u128, GizmoResult>) -> (probes: Vec<u128>)
    ensures
        probes@.no_duplicates(),
        probes@.to_set() == results@.dom(),
{
    let iter = results.iter();
    let ghost all = iter.remaining();
    let mut probes: Vec<u128> = Vec::new();
    for pair in it: iter
        invariant
            it.seq() == all,
            probes@.len() == it.index(),
            forall|j: int| 0 <= j < it.index() ==> (#[trigger] probes@[j]) == *all[j].0,
    {
        probes.push(*pair.0);
    }
    proof {
        assert forall|j: int, l: int| 0 <= j < l < all.len() implies *all[j].0 != *all[l].0 by {
            if *all[j].0 == *all[l].0 {
                assert(results@[*all[j].0] == *all[j].1);
                assert(results@[*all[l].0] == *all[l].1);
                assert(all[j] == all[l]);
            }
        }
        assert(probes@.len() == all.len());
        assert forall|k: u128| results@.contains_key(k) implies probes@.contains(k) by {
            assert(all.contains((&k, &results@[k])));
            let j = choose|j: int| 0 <= j < all.len() && all[j] == (&k, &results@[k]);
            assert(probes@[j] == k);
        }
        assert forall|k: u128| probes@.contains(k) implies results@.contains_key(k) by {
            let j = choose|j: int| 0 <= j < probes@.len() && probes@[j] == k;
            assert(results@.contains_key(*all[j].0));
        }
        assert(probes@.to_set() =~= results@.dom());
    }
    probes
}

impl HistoryDataCollector {
    /// A history without data points.
    pub fn new() -> (h: HistoryDataCollector)
        ensures
            h.stored_data@ == Map::<u128, Vec<DataPoint>>::empty(),
    {
        Self { stored_data: HashMap::new() }
    }

    /// Adds what one probe found at the time `time` to what is kept for it.
    pub fn add(&mut self, probe: u128, time: u64, result: &GizmoResult)
        ensures
            final(self).stored_data@.dom() == old(self).stored_data@.dom().insert(probe),
            history_of(final(self).stored_data@, probe) == history_of(
                old(self).stored_data@,
                probe,
            ).push(DataPoint { temperature: result.temperature, time }),
            forall|other: u128|
                other != probe ==> history_of(final(self).stored_data@, other) == history_of(
                    old(self).stored_data@,
                    other,
                ),
    {
        let point = DataPoint { temperature: result.temperature, time };
        let mut points: Vec<DataPoint> = match self.stored_data.remove(&probe) {
            Some(points) => points,
            None => Vec::new(),
        };
        points.push(point);
        self.stored_data.insert(probe, points);
        proof {
            assert(final(self).stored_data@.dom() =~= old(self).stored_data@.dom().insert(probe));
        }
    }

    /// Adds what each probe found in a frame taken at the time `time` to
    /// what is kept for that probe.
    pub fn add_from_gizmo_results(&mut self, time: u64, gizmo_results: &HashMap<u128, GizmoResult>)
        ensures
            final(self).stored_data@.dom() == old(self).stored_data@.dom().union(
                gizmo_results@.dom(),
            ),
            forall|probe: u128|
                history_of(final(self).stored_data@, probe) == (if gizmo_results@.contains_key(
                    probe,
                ) {
                    history_of(old(self).stored_data@, probe).push(
                        DataPoint { temperature: gizmo_results@[probe].temperature, time },
                    )
                } else {
                    history_of(old(self).stored_data@, probe)
                }),
    {
        let probes: Vec<u128> = probes_of(gizmo_results);
        let ghost start = self.stored_data@;
        let mut i: usize = 0;
        while i < probes.len()
            invariant
                0 <= i <= probes@.len(),
                probes@.no_duplicates(),
                forall|j: int| 0 <= j < probes@.len() ==> gizmo_results@.contains_key(#[trigger] probes@[j]),
                self.stored_data@.dom() == start.dom().union(probes@.take(i as int).to_set()),
                forall|probe: u128|
                    history_of(self.stored_data@, probe) == (if probes@.take(i as int).contains(
                        probe,
                    ) {
                        history_of(start, probe).push(
                            DataPoint { temperature: gizmo_results@[probe].temperature, time },
                        )
                    } else {
                        history_of(start, probe)
                    }),
            decreases probes@.len() - i,
        {
            let probe: u128 = probes[i];
            let ghost head = probes@.take(i as int);
            let ghost longer = probes@.take(i + 1);
            proof {
                assert(longer =~= head.push(probe));
                assert(!head.contains(probe)) by {
                    if head.contains(probe) {
                        let j = choose|j: int| 0 <= j < head.len() && head[j] == probe;
                        assert(probes@[j] == probes@[i as int]);
                    }
                }
                assert(longer.contains(probe)) by {
                    assert(longer[i as int] == probe);
                }
                assert forall|other: u128| other != probe implies longer.contains(other)
                    == head.contains(other) by {
                    if longer.contains(other) {
                        let j = choose|j: int| 0 <= j < longer.len() && longer[j] == other;
                        assert(head[j] == other);
                    }
                    if head.contains(other) {
                        let j = choose|j: int| 0 <= j < head.len() && head[j] == other;
                        assert(longer[j] == other);
                    }
                }
                assert(longer.to_set() =~= head.to_set().insert(probe));
            }
            match gizmo_results.get(&probe) {
                Some(result) => {
                    self.add(probe, time, result);
                },
                None => {},
            }
            proof {
                assert(self.stored_data@.dom() =~= start.dom().union(longer.to_set()));
            }
            i += 1;
        }
        proof {
            assert(probes@.take(probes@.len() as int) =~= probes@);
            assert(self.stored_data@.dom() =~= start.dom().union(gizmo_results@.dom()));
        }
    }

    /// The data points kept for `probe` whose time lies from `from` to
    /// `to`, both included, in the order in which they came in.
    pub fn data_points(&self, probe: u128, from: u64, to: u64) -> (found: Vec<DataPoint>)
        ensures
            found@ == within(history_of(self.stored_data@, probe), from, to),
    {
        let mut found: Vec<DataPoint> = Vec::new();
        match self.stored_data.get(&probe) {
            Some(points) => {
                let mut i: usize = 0;
                while i < points.len()
                    invariant
                        0 <= i <= points@.len(),
                        found@ == within(points@.take(i as int), from, to),
                    decreases points@.len() - i,
                {
                    let point = points[i];
                    proof {
                        assert(points@.take(i + 1).drop_last() =~= points@.take(i as int));
                    }
                    if point.time >= from && point.time <= to {
                        found.push(point);
                    }
                    i += 1;
                }
                proof {
                    assert(points@.take(points@.len() as int) =~= points@);
                }
            },
            None => {},
        }
        found
    }
}

} // verus!
