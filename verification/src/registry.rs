//! The registry: the single serialized directory of active supervisors.
//! It maps a supervisor id to the published record the daily report reads —
//! session state, the most recent poll outcome, and the peak memory usage
//! observed.  All operations go through one owner, so no reader ever sees a
//! half-updated directory.

use vstd::prelude::*;
use crate::agent::State;
use crate::common_rpc_types::HardwareUsage;

verus! {

/// The slice of a poll outcome the daily report displays.  The multi-disk
/// breakdown is an optional extension of the snapshot schema; the polling
/// path populates only the single aggregated figure.
pub struct ReportUpdateResult {
    pub number_of_peers: usize,
    pub best_block_number: Option<u64>,
    pub disk_usage: Option<HardwareUsage>,
    pub disk_usages: Option<Vec<HardwareUsage>>,
}

/// What the registry publishes about one supervisor.
pub struct AgentRecord {
    pub state: State,
    pub recent_update_result: Option<ReportUpdateResult>,
    pub maximum_memory_usage: Option<HardwareUsage>,
}

/// Two report outcomes with the same content (their disk breakdowns may be
/// distinct vectors with equal elements).
pub open spec fn update_result_like(a: ReportUpdateResult, b: ReportUpdateResult) -> bool {
    &&& a.number_of_peers == b.number_of_peers
    &&& a.best_block_number == b.best_block_number
    &&& a.disk_usage == b.disk_usage
    &&& match (a.disk_usages, b.disk_usages) {
        (Some(u), Some(v)) => u@ == v@,
        (None, None) => true,
        _ => false,
    }
}

/// Two records with the same content.
pub open spec fn record_like(a: AgentRecord, b: AgentRecord) -> bool {
    &&& a.state == b.state
    &&& a.maximum_memory_usage == b.maximum_memory_usage
    &&& match (a.recent_update_result, b.recent_update_result) {
        (Some(x), Some(y)) => update_result_like(x, y),
        (None, None) => true,
        _ => false,
    }
}

/// The peak-memory statistic after one more reading: the reading with the
/// larger used figure wins.
pub open spec fn max_memory(older: Option<HardwareUsage>, new: HardwareUsage) -> Option<
    HardwareUsage,
> {
    match older {
        None => Some(new),
        Some(o) => if new.total - new.available > o.total - o.available {
            Some(new)
        } else {
            Some(o)
        },
    }
}

/// The directory of active supervisors, keyed by supervisor id.
pub struct Registry {
    pub entries: Vec<(i32, AgentRecord)>,
}

impl Registry {
    /// Well-formed: each id occurs at most once.
    pub open spec fn wf(self) -> bool {
        forall|i: int, j: int|
            0 <= i < j < self.entries@.len() ==> (#[trigger] self.entries@[i]).0 != (
            #[trigger] self.entries@[j]).0
    }

    /// Whether some record is held under `id`.
    pub open spec fn has_agent(self, id: i32) -> bool {
        exists|i: int| 0 <= i < self.entries@.len() && (#[trigger] self.entries@[i]).0 == id
    }

    /// The position of the record held under `id`.
    pub open spec fn index_of(self, id: i32) -> int {
        choose|i: int| 0 <= i < self.entries@.len() && (#[trigger] self.entries@[i]).0 == id
    }

    /// An empty directory.
    pub fn new() -> (r: Registry)
        ensures
            r.wf(),
            r.entries@.len() == 0,
    {
        Registry { entries: Vec::new() }
    }

    /// Finds the position of `id`, if it is held.
    fn find(&self, id: i32) -> (r: Option<usize>)
        ensures
            match r {
                Some(i) => i < self.entries@.len() && self.entries@[i as int].0 == id,
                None => !self.has_agent(id),
            },
    {
        let mut k: usize = 0;
        while k < self.entries.len()
            invariant
                k <= self.entries@.len(),
                forall|j: int| 0 <= j < k ==> (#[trigger] self.entries@[j]).0 != id,
            decreases self.entries@.len() - k,
        {
            if self.entries[k].0 == id {
                return Some(k);
            }
            k += 1;
        }
        None
    }

    /// Records a live supervisor: replaces the record held under `id`, or
    /// appends a new entry if the id is new.
    pub fn add_agent(&mut self, id: i32, record: AgentRecord)
        requires
            old(self).wf(),
        ensures
            final(self).wf(),
            old(self).has_agent(id) ==> final(self).entries@ == old(self).entries@.update(
                old(self).index_of(id),
                (id, record),
            ),
            !old(self).has_agent(id) ==> final(self).entries@ == old(self).entries@.push(
                (id, record),
            ),
    {
        let found = self.find(id);
        match found {
            Some(i) => {
                let ghost before = self.entries@;
                let _ = self.entries.remove(i);
                self.entries.insert(i, (id, record));
                proof {
                    assert(old(self).index_of(id) == i as int) by {
                        let ix = old(self).index_of(id);
                        assert(before[i as int].0 == id);
                        if ix != i as int {
                            assert(before[ix].0 == id);
                            assert(false);
                        }
                    }
                    assert(self.entries@ =~= before.update(i as int, (id, record)));
                    assert forall|a: int, b: int|
                        0 <= a < b < self.entries@.len() implies (#[trigger] self.entries@[a]).0
                        != (#[trigger] self.entries@[b]).0 by {
                        assert(self.entries@[a].0 == before[a].0);
                        assert(self.entries@[b].0 == before[b].0);
                    }
                }
            },
            None => {
                self.entries.push((id, record));
                proof {
                    assert forall|a: int, b: int|
                        0 <= a < b < self.entries@.len() implies (#[trigger] self.entries@[a]).0
                        != (#[trigger] self.entries@[b]).0 by {
                        if b < self.entries@.len() - 1 {
                            assert(old(self).entries@[a].0 != old(self).entries@[b].0);
                        } else {
                            assert(self.entries@[a] == old(self).entries@[a]);
                        }
                    }
                }
            },
        }
    }

    /// Drops the record held under `id`; a no-op when the id is not held.
    pub fn remove_agent(&mut self, id: i32)
        requires
            old(self).wf(),
        ensures
            final(self).wf(),
            old(self).has_agent(id) ==> final(self).entries@ == old(self).entries@.remove(
                old(self).index_of(id),
            ),
            !old(self).has_agent(id) ==> final(self).entries@ == old(self).entries@,
    {
        let found = self.find(id);
        match found {
            Some(i) => {
                let ghost before = self.entries@;
                let _ = self.entries.remove(i);
                proof {
                    assert(old(self).index_of(id) == i as int) by {
                        let ix = old(self).index_of(id);
                        assert(before[i as int].0 == id);
                        if ix != i as int {
                            assert(before[ix].0 == id);
                            assert(false);
                        }
                    }
                    assert forall|a: int, b: int|
                        0 <= a < b < self.entries@.len() implies (#[trigger] self.entries@[a]).0
                        != (#[trigger] self.entries@[b]).0 by {
                        let ia = if a < i as int { a } else { a + 1 };
                        let ib = if b < i as int { b } else { b + 1 };
                        assert(self.entries@[a] == before[ia]);
                        assert(self.entries@[b] == before[ib]);
                        assert(before[ia].0 != before[ib].0);
                    }
                }
            },
            None => {},
        }
    }

    /// A point-in-time copy of every tracked record, in directory order.
    pub fn get_agents_states(&self) -> (r: Vec<AgentRecord>)
        ensures
            r@.len() == self.entries@.len(),
            forall|i: int|
                0 <= i < r@.len() ==> record_like(self.entries@[i].1, #[trigger] r@[i]),
    {
        let mut r: Vec<AgentRecord> = Vec::new();
        let mut k: usize = 0;
        while k < self.entries.len()
            invariant
                k <= self.entries@.len(),
                r@.len() == k,
                forall|i: int|
                    0 <= i < k ==> record_like(self.entries@[i].1, #[trigger] r@[i]),
            decreases self.entries@.len() - k,
        {
            let c = clone_record(&self.entries[k].1);
            r.push(c);
            k += 1;
        }
        r
    }

    /// Clears the peak-memory statistic of every record, leaving everything
    /// else untouched.
    pub fn reset_maximum_memory_usages(&mut self)
        requires
            old(self).wf(),
        ensures
            final(self).wf(),
            final(self).entries@.len() == old(self).entries@.len(),
            forall|i: int| 0 <= i < old(self).entries@.len() ==> ({
                let before = old(self).entries@[i];
                let after = (#[trigger] final(self).entries@[i]);
                &&& after.0 == before.0
                &&& after.1.state == before.1.state
                &&& after.1.recent_update_result == before.1.recent_update_result
                &&& after.1.maximum_memory_usage is None
            }),
    {
        let mut k: usize = 0;
        while k < self.entries.len()
            invariant
                k <= self.entries@.len(),
                self.entries@.len() == old(self).entries@.len(),
                forall|i: int|
                    k <= i < old(self).entries@.len() ==> #[trigger] self.entries@[i]
                        == old(self).entries@[i],
                forall|i: int| 0 <= i < k ==> ({
                    let before = old(self).entries@[i];
                    let after = (#[trigger] self.entries@[i]);
                    &&& after.0 == before.0
                    &&& after.1.state == before.1.state
                    &&& after.1.recent_update_result == before.1.recent_update_result
                    &&& after.1.maximum_memory_usage is None
                }),
            decreases self.entries@.len() - k,
        {
            let ghost before = self.entries@;
            let mut pair = self.entries.remove(k);
            pair.1.maximum_memory_usage = None;
            self.entries.insert(k, pair);
            proof {
                assert(self.entries@ =~= before.update(
                    k as int,
                    (before[k as int].0, AgentRecord {
                        maximum_memory_usage: None,
                        ..before[k as int].1
                    }),
                ));
            }
            k += 1;
        }
        proof {
            assert forall|a: int, b: int|
                0 <= a < b < self.entries@.len() implies (#[trigger] self.entries@[a]).0 != (
            #[trigger] self.entries@[b]).0 by {
                assert(self.entries@[a].0 == old(self).entries@[a].0);
                assert(self.entries@[b].0 == old(self).entries@[b].0);
            }
        }
    }

    /// Publishes the outcome of one monitoring poll for `id`: the fresh
    /// session state and poll summary, and the peak-memory statistic raised
    /// if this reading used more.  A no-op when the id is not held.
    pub fn record_update(
        &mut self,
        id: i32,
        state: State,
        update_result: ReportUpdateResult,
        memory: HardwareUsage,
    )
        requires
            old(self).wf(),
        ensures
            final(self).wf(),
            old(self).has_agent(id) ==> final(self).entries@ == old(self).entries@.update(
                old(self).index_of(id),
                (
                    id,
                    (AgentRecord {
                        state: state,
                        recent_update_result: Some(update_result),
                        maximum_memory_usage: max_memory(
                            old(self).entries@[old(self).index_of(id)].1.maximum_memory_usage,
                            memory,
                        ),
                    }),
                ),
            ),
            !old(self).has_agent(id) ==> final(self).entries@ == old(self).entries@,
    {
        let found = self.find(id);
        match found {
            Some(i) => {
                let ghost before = self.entries@;
                let previous = self.entries.remove(i);
                let older = previous.1.maximum_memory_usage;
                let peak = match older {
                    None => Some(memory),
                    Some(o) => {
                        let new_used: i128 = (memory.total as i128) - (memory.available as i128);
                        let old_used: i128 = (o.total as i128) - (o.available as i128);
                        if new_used > old_used {
                            Some(memory)
                        } else {
                            Some(o)
                        }
                    },
                };
                let record = AgentRecord {
                    state,
                    recent_update_result: Some(update_result),
                    maximum_memory_usage: peak,
                };
                self.entries.insert(i, (id, record));
                proof {
                    assert(old(self).index_of(id) == i as int) by {
                        let ix = old(self).index_of(id);
                        assert(before[i as int].0 == id);
                        if ix != i as int {
                            assert(before[ix].0 == id);
                            assert(false);
                        }
                    }
                    assert(self.entries@ =~= before.update(
                        i as int,
                        (
                            id,
                            (AgentRecord {
                                state: state,
                                recent_update_result: Some(update_result),
                                maximum_memory_usage: max_memory(
                                    before[i as int].1.maximum_memory_usage,
                                    memory,
                                ),
                            }),
                        ),
                    ));
                    assert forall|a: int, b: int|
                        0 <= a < b < self.entries@.len() implies (#[trigger] self.entries@[a]).0
                        != (#[trigger] self.entries@[b]).0 by {
                        assert(self.entries@[a].0 == before[a].0);
                        assert(self.entries@[b].0 == before[b].0);
                    }
                }
            },
            None => {},
        }
    }
}

/// An equal-content copy of one record.
fn clone_record(r: &AgentRecord) -> (c: AgentRecord)
    ensures
        record_like(*r, c),
{
    let recent = match &r.recent_update_result {
        None => None,
        Some(u) => Some(
            ReportUpdateResult {
                number_of_peers: u.number_of_peers,
                best_block_number: u.best_block_number,
                disk_usage: u.disk_usage,
                disk_usages: match &u.disk_usages {
                    None => None,
                    Some(v) => Some(copy_usage_vec(v)),
                },
            },
        ),
    };
    AgentRecord {
        state: r.state.clone(),
        recent_update_result: recent,
        maximum_memory_usage: r.maximum_memory_usage,
    }
}

/// An element-wise copy of a list of hardware readings.
fn copy_usage_vec(v: &Vec<HardwareUsage>) -> (r: Vec<HardwareUsage>)
    ensures
        r@ == v@,
{
    let mut r: Vec<HardwareUsage> = Vec::new();
    let mut k: usize = 0;
    while k < v.len()
        invariant
            k <= v@.len(),
            r@ == v@.take(k as int),
        decreases v@.len() - k,
    {
        r.push(v[k]);
        proof {
            assert(v@.take(k + 1) =~= v@.take(k as int).push(v@[k as int]));
        }
        k += 1;
    }
    proof {
        assert(v@.take(v@.len() as int) =~= v@);
    }
    r
}

} // verus!
