//! Alert hysteresis: three edge-triggered detectors evaluated once per
//! successful poll — connectivity (consecutive low peer counts), chain
//! stall (no best-block progress), and disk pressure (available space below
//! a fixed threshold).  Each fires once per crossing, never repeatedly
//! while the condition persists.

use vstd::prelude::*;
use vstd::string::StringExecFns;
use crate::hardware::{mb, spec_mb};
use crate::text::{i128_to_string, spec_dec_int, views};

verus! {

/// Fewer peers than this counts as a low-connectivity poll.
pub const LOW_PEER_LIMIT: u64 = 5;

/// The connectivity warning fires when the low-connectivity counter reaches
/// this value.
pub const LOW_PEER_POLLS: u64 = 6;

/// The stall warning fires when the no-progress counter reaches this value.
pub const STALL_POLLS: u64 = 3;

/// The disk warning fires when available space drops below this many bytes.
pub const DISK_THRESHOLD: i64 = 1000000000;

/// Which warnings one poll fired.
#[derive(Debug, Copy, Clone, PartialEq, Eq, Structural)]
pub struct Alerts {
    pub connectivity: bool,
    pub chain_stall: bool,
    pub disk: bool,
}

/// The hysteresis state one supervisor carries between polls.  The
/// counters are owned by the supervisor's own loop and shared with nothing.
#[derive(Debug, Copy, Clone, PartialEq, Eq, Structural)]
pub struct AlertWatch {
    /// Consecutive polls with fewer than `LOW_PEER_LIMIT` peers.
    pub low_peer_polls: u64,
    /// The highest best-block number seen so far, once one has been.
    pub best_block_seen: Option<u64>,
    /// Consecutive polls without best-block progress.
    pub no_progress_polls: u64,
    /// Whether a disk warning has fired and not yet been re-armed.
    pub disk_alert_sent: bool,
}

/// One step of the connectivity counter: reset on enough peers, increment
/// otherwise (the counter stops at `u64::MAX` rather than wrap).
pub open spec fn conn_step(c: u64, peers: int) -> u64 {
    if peers >= LOW_PEER_LIMIT {
        0u64
    } else if c == u64::MAX {
        u64::MAX
    } else {
        (c + 1) as u64
    }
}

/// One step of the stall tracker: a best block strictly above the
/// high-water mark resets the counter and raises the mark; anything else —
/// including the very first observation, which only sets the mark —
/// increments (the counter stops at `u64::MAX` rather than wrap).
pub open spec fn stall_step(seen: Option<u64>, c: u64, best: u64) -> (Option<u64>, u64) {
    let bumped: u64 = if c == u64::MAX {
        u64::MAX
    } else {
        (c + 1) as u64
    };
    match seen {
        None => (Some(best), bumped),
        Some(p) => if best > p {
            (Some(best), 0u64)
        } else {
            (Some(p), bumped)
        },
    }
}

/// One step of the disk suppression flag: set on the first poll below the
/// threshold, cleared again once space rises back above it.
pub open spec fn disk_step(sent: bool, available: int) -> bool {
    if !sent {
        available < DISK_THRESHOLD
    } else {
        !(available > DISK_THRESHOLD)
    }
}

impl AlertWatch {
    /// A fresh watch: no low polls, no block seen, nothing suppressed.
    pub fn new() -> (w: AlertWatch)
        ensures
            w == (AlertWatch {
                low_peer_polls: 0u64,
                best_block_seen: None::<u64>,
                no_progress_polls: 0u64,
                disk_alert_sent: false,
            }),
    {
        AlertWatch {
            low_peer_polls: 0,
            best_block_seen: None,
            no_progress_polls: 0,
            disk_alert_sent: false,
        }
    }

    /// Evaluates all three detectors on one poll result.  The stall
    /// detector only runs when a best-block number is present.
    pub fn on_update(
        &mut self,
        number_of_peers: usize,
        best_block_number: Option<u64>,
        disk_available: i64,
    ) -> (fired: Alerts)
        ensures
            final(self).low_peer_polls == conn_step(
                old(self).low_peer_polls,
                number_of_peers as int,
            ),
            fired.connectivity == (final(self).low_peer_polls == LOW_PEER_POLLS),
            match best_block_number {
                Some(b) => (final(self).best_block_seen, final(self).no_progress_polls)
                    == stall_step(old(self).best_block_seen, old(self).no_progress_polls, b)
                    && fired.chain_stall == (final(self).no_progress_polls == STALL_POLLS),
                None => final(self).best_block_seen == old(self).best_block_seen
                    && final(self).no_progress_polls == old(self).no_progress_polls
                    && !fired.chain_stall,
            },
            final(self).disk_alert_sent == disk_step(
                old(self).disk_alert_sent,
                disk_available as int,
            ),
            fired.disk == (!old(self).disk_alert_sent && disk_available < DISK_THRESHOLD),
    {
        let mut fired = Alerts { connectivity: false, chain_stall: false, disk: false };

        if number_of_peers < 5 {
            if self.low_peer_polls < u64::MAX {
                self.low_peer_polls = self.low_peer_polls + 1;
            } else {
                self.low_peer_polls = u64::MAX;
            }
        } else {
            self.low_peer_polls = 0;
        }
        fired.connectivity = self.low_peer_polls == LOW_PEER_POLLS;

        if let Some(best) = best_block_number {
            match self.best_block_seen {
                None => {
                    self.best_block_seen = Some(best);
                    if self.no_progress_polls < u64::MAX {
                        self.no_progress_polls = self.no_progress_polls + 1;
                    }
                },
                Some(p) => {
                    if best > p {
                        self.best_block_seen = Some(best);
                        self.no_progress_polls = 0;
                    } else if self.no_progress_polls < u64::MAX {
                        self.no_progress_polls = self.no_progress_polls + 1;
                    }
                },
            }
            fired.chain_stall = self.no_progress_polls == STALL_POLLS;
        }

        if !self.disk_alert_sent {
            if disk_available < DISK_THRESHOLD {
                fired.disk = true;
                self.disk_alert_sent = true;
            }
        } else if DISK_THRESHOLD < disk_available {
            self.disk_alert_sent = false;
        }

        fired
    }
}

// ---------------------------------------------------------------------
// The model of a whole run: each detector's state after a sequence of
// polls, oldest first, and the laws the detectors obey.
// ---------------------------------------------------------------------

/// The connectivity counter after the peer counts in `s`: reset by a poll
/// with at least `LOW_PEER_LIMIT` peers, incremented by any other.
pub open spec fn conn_counter(s: Seq<int>) -> nat
    decreases s.len(),
{
    if s.len() == 0 {
        0
    } else if s.last() >= LOW_PEER_LIMIT {
        0
    } else {
        conn_counter(s.drop_last()) + 1
    }
}

/// Whether the connectivity warning fires on the last poll of `s`.
pub open spec fn conn_fires(s: Seq<int>) -> bool {
    s.len() > 0 && conn_counter(s) == LOW_PEER_POLLS
}

/// The connectivity counter equals the number of consecutive trailing low
/// polls: everything after the last poll with enough peers is low, and the
/// poll just before that run (if the run is not the whole history) had
/// enough peers.
pub proof fn lemma_conn_counter_counts_trailing_low(s: Seq<int>)
    ensures
        conn_counter(s) <= s.len(),
        forall|i: int| s.len() - conn_counter(s) <= i < s.len() ==> s[i] < LOW_PEER_LIMIT,
        conn_counter(s) < s.len() ==> s[s.len() - conn_counter(s) - 1] >= LOW_PEER_LIMIT,
    decreases s.len(),
{
    if s.len() == 0 {
    } else if s.last() >= LOW_PEER_LIMIT {
    } else {
        lemma_conn_counter_counts_trailing_low(s.drop_last());
        assert forall|i: int| s.len() - conn_counter(s) <= i < s.len() implies s[i]
            < LOW_PEER_LIMIT by {
            if i < s.len() - 1 {
                assert(s.drop_last()[i] == s[i]);
            }
        }
        if conn_counter(s) < s.len() {
            assert(s.drop_last()[s.len() - conn_counter(s) - 1] == s[s.len() - conn_counter(s) - 1]);
        }
    }
}

/// Only one value can describe the trailing low run, so any `k` with the
/// run shape of the previous lemma is the counter.
proof fn lemma_conn_counter_unique(s: Seq<int>, k: nat)
    requires
        k <= s.len(),
        forall|i: int| s.len() - k <= i < s.len() ==> s[i] < LOW_PEER_LIMIT,
        k < s.len() ==> s[s.len() - k - 1] >= LOW_PEER_LIMIT,
    ensures
        conn_counter(s) == k,
{
    lemma_conn_counter_counts_trailing_low(s);
    let k2 = conn_counter(s);
    if k2 < k {
        assert(s[s.len() - k2 - 1] < LOW_PEER_LIMIT);
        assert(false);
    } else if k < k2 {
        assert(s[s.len() - k - 1] < LOW_PEER_LIMIT);
        assert(false);
    }
}

/// The connectivity warning fires on poll `i` exactly when that poll is the
/// sixth of a run of consecutive low polls: polls `i - 5 ..= i` are all low
/// and the run begins at `i - 5`.
pub proof fn lemma_conn_fires_at_sixth_of_run(s: Seq<int>, i: int)
    requires
        0 <= i < s.len(),
    ensures
        conn_fires(s.take(i + 1)) <==> ((i >= 5) && (forall|j: int|
            i - 5 <= j <= i ==> s[j] < LOW_PEER_LIMIT) && (i == 5 || s[i - 6] >= LOW_PEER_LIMIT)),
{
    let p = s.take(i + 1);
    lemma_conn_counter_counts_trailing_low(p);
    if conn_fires(p) {
        assert forall|j: int| i - 5 <= j <= i implies s[j] < LOW_PEER_LIMIT by {
            assert(p[j] == s[j]);
        }
        if i > 5 {
            assert(p[i - 6] == s[i - 6]);
        }
    }
    if (i >= 5) && (forall|j: int| i - 5 <= j <= i ==> s[j] < LOW_PEER_LIMIT) && (i == 5 || s[i
        - 6] >= LOW_PEER_LIMIT) {
        assert forall|j: int| p.len() - 6 <= j < p.len() implies p[j] < LOW_PEER_LIMIT by {
            assert(p[j] == s[j]);
        }
        if 6 < p.len() {
            assert(p[p.len() - 6 - 1] == s[i - 6]);
        }
        lemma_conn_counter_unique(p, 6);
    }
}

/// Never twice within one run: two firings must have a poll with enough
/// peers strictly between them.
pub proof fn lemma_conn_no_refire_without_recovery(s: Seq<int>, i: int, j: int)
    requires
        0 <= i < j < s.len(),
        conn_fires(s.take(i + 1)),
        conn_fires(s.take(j + 1)),
    ensures
        exists|k: int| i < k < j && s[k] >= LOW_PEER_LIMIT,
{
    lemma_conn_fires_at_sixth_of_run(s, i);
    lemma_conn_fires_at_sixth_of_run(s, j);
    assert(j >= 6);
    assert(s[j - 6] >= LOW_PEER_LIMIT);
    if j - 6 <= i {
        assert(s[j - 6] < LOW_PEER_LIMIT);
        assert(false);
    }
    assert(i < j - 6 < j && s[j - 6] >= LOW_PEER_LIMIT);
}

/// The machine counter the supervisor actually carries, folded over a run.
pub open spec fn conn_fold(s: Seq<int>) -> u64
    decreases s.len(),
{
    if s.len() == 0 {
        0u64
    } else {
        conn_step(conn_fold(s.drop_last()), s.last())
    }
}

/// The machine counter agrees with the model on every run short enough to
/// happen: it can only saturate after `u64::MAX` polls.
pub proof fn lemma_conn_fold_matches_counter(s: Seq<int>)
    requires
        s.len() <= u64::MAX,
    ensures
        conn_fold(s) == conn_counter(s),
    decreases s.len(),
{
    if s.len() > 0 {
        lemma_conn_fold_matches_counter(s.drop_last());
        lemma_conn_counter_counts_trailing_low(s.drop_last());
    }
}

/// The stall tracker after the best-block numbers in `s` (polls with no
/// best block do not contribute): the high-water mark, once one exists, and
/// the counter, which a block strictly above the mark resets and any other
/// poll — the first observation included — increments.
pub open spec fn stall_model(s: Seq<int>) -> (Option<int>, nat)
    decreases s.len(),
{
    if s.len() == 0 {
        (None, 0nat)
    } else {
        let prev = stall_model(s.drop_last());
        match prev.0 {
            None => (Some(s.last()), prev.1 + 1),
            Some(p) => if s.last() > p {
                (Some(s.last()), 0nat)
            } else {
                (Some(p), prev.1 + 1)
            },
        }
    }
}

/// Whether poll `k` strictly advanced the high-water mark (a reset).
pub open spec fn stall_reset_at(s: Seq<int>, k: int) -> bool {
    match stall_model(s.take(k)).0 {
        Some(p) => s[k] > p,
        None => false,
    }
}

/// Whether the stall warning fires on the last poll of `s`.
pub open spec fn stall_fires(s: Seq<int>) -> bool {
    s.len() > 0 && stall_model(s).1 == STALL_POLLS
}

/// A single stall step, stated over push: a block strictly above the mark
/// resets the counter to 0 and raises the mark; anything else — the first
/// observation included — increments.
pub proof fn lemma_stall_step_model(s: Seq<int>, b: int)
    ensures
        stall_model(s.push(b)) == (match stall_model(s).0 {
            None => (Some(b), stall_model(s).1 + 1),
            Some(p) => if b > p {
                (Some(b), 0nat)
            } else {
                (Some(p), stall_model(s).1 + 1)
            },
        }),
{
    assert(s.push(b).drop_last() =~= s);
}

/// The high-water mark exists exactly once a block has been observed, and
/// is then the maximum block number seen.
pub proof fn lemma_stall_high_water(s: Seq<int>)
    ensures
        stall_model(s).0 is Some <==> s.len() > 0,
        forall|i: int| 0 <= i < s.len() ==> s[i] <= stall_model(s).0.unwrap(),
        s.len() > 0 ==> exists|i: int|
            0 <= i < s.len() && s[i] == stall_model(s).0.unwrap(),
    decreases s.len(),
{
    if s.len() > 0 {
        lemma_stall_high_water(s.drop_last());
        assert forall|i: int| 0 <= i < s.len() implies s[i] <= stall_model(s).0.unwrap() by {
            if i < s.len() - 1 {
                assert(s.drop_last()[i] == s[i]);
            }
        }
        if s.len() == 1 || s.last() > stall_model(s.drop_last()).0.unwrap() {
            assert(s[s.len() - 1] == stall_model(s).0.unwrap());
        } else {
            let i = choose|i: int|
                0 <= i < s.drop_last().len() && s.drop_last()[i] == stall_model(
                    s.drop_last(),
                ).0.unwrap();
            assert(s[i] == stall_model(s).0.unwrap());
        }
    }
}

/// Resets do not depend on what comes later: the event at `k` is the same
/// in any extension of the history.
proof fn lemma_stall_reset_prefix(s: Seq<int>, m: int, k: int)
    requires
        0 <= k < m <= s.len(),
    ensures
        stall_reset_at(s.take(m), k) == stall_reset_at(s, k),
{
    assert(s.take(m).take(k) =~= s.take(k));
    assert(s.take(m)[k] == s[k]);
}

/// The stall counter equals the number of polls since the last reset.
pub proof fn lemma_stall_counter_counts_since_reset(s: Seq<int>)
    ensures
        stall_model(s).1 <= s.len(),
        forall|i: int| s.len() - stall_model(s).1 <= i < s.len() ==> !stall_reset_at(s, i),
        stall_model(s).1 < s.len() ==> stall_reset_at(s, s.len() - stall_model(s).1 - 1),
    decreases s.len(),
{
    if s.len() > 0 {
        lemma_stall_counter_counts_since_reset(s.drop_last());
        assert(s.take(s.len() - 1) =~= s.drop_last());
        assert forall|i: int| 0 <= i < s.len() - 1 implies stall_reset_at(s.drop_last(), i)
            == stall_reset_at(s, i) by {
            lemma_stall_reset_prefix(s, s.len() - 1, i);
            assert(s.take(s.len() - 1) =~= s.drop_last());
        }
        if stall_model(s.drop_last()).0 is Some && s.last() > stall_model(s.drop_last()).0.unwrap() {
            // a reset: the counter is 0 and the reset is at the last index
            assert(stall_reset_at(s, s.len() - 1));
        } else {
            assert(!stall_reset_at(s, s.len() - 1));
            assert forall|i: int| s.len() - stall_model(s).1 <= i < s.len() implies
                !stall_reset_at(s, i) by {
                if i < s.len() - 1 {
                    assert(!stall_reset_at(s.drop_last(), i));
                }
            }
        }
    }
}

/// Never twice within one stall run: two firings must have a strict
/// best-block increase between them.
pub proof fn lemma_stall_no_refire_without_progress(s: Seq<int>, i: int, j: int)
    requires
        0 <= i < j < s.len(),
        stall_fires(s.take(i + 1)),
        stall_fires(s.take(j + 1)),
    ensures
        exists|k: int| i < k <= j && stall_reset_at(s, k),
{
    lemma_stall_counter_counts_since_reset(s.take(i + 1));
    lemma_stall_counter_counts_since_reset(s.take(j + 1));
    assert(i >= 2);
    assert(j >= 3);
    // the counter of 3 at j puts a reset at j - 3
    assert(stall_reset_at(s.take(j + 1), j - 3));
    lemma_stall_reset_prefix(s, j + 1, j - 3);
    if j - 3 <= i {
        // but the last three polls up to i, and i itself, saw no reset
        assert(!stall_reset_at(s.take(i + 1), j - 3));
        lemma_stall_reset_prefix(s, i + 1, j - 3);
        assert(false);
    }
    assert(i < j - 3 <= j && stall_reset_at(s, j - 3));
}

/// The machine stall tracker, folded over a run.
pub open spec fn stall_fold(s: Seq<int>) -> (Option<u64>, u64)
    decreases s.len(),
{
    if s.len() == 0 {
        (None, 0u64)
    } else {
        let prev = stall_fold(s.drop_last());
        stall_step(prev.0, prev.1, s.last() as u64)
    }
}

/// The machine stall tracker agrees with the model on every run of
/// in-range block numbers short enough to happen.
pub proof fn lemma_stall_fold_matches_model(s: Seq<int>)
    requires
        s.len() <= u64::MAX,
        forall|i: int| 0 <= i < s.len() ==> 0 <= #[trigger] s[i] <= u64::MAX,
    ensures
        stall_fold(s).0 is Some <==> stall_model(s).0 is Some,
        stall_fold(s).0 is Some ==> stall_fold(s).0.unwrap() == stall_model(s).0.unwrap(),
        stall_fold(s).1 == stall_model(s).1,
    decreases s.len(),
{
    if s.len() > 0 {
        assert forall|i: int| 0 <= i < s.drop_last().len() implies 0 <= #[trigger] s.drop_last()[i] <= u64::MAX by {
            assert(s.drop_last()[i] == s[i]);
        }
        lemma_stall_fold_matches_model(s.drop_last());
        lemma_stall_counter_counts_since_reset(s.drop_last());
        lemma_stall_high_water(s.drop_last());
        assert(s.last() == s[s.len() - 1]);
    }
}

/// The disk suppression flag after the available-space figures in `s`.
pub open spec fn disk_flag(s: Seq<int>) -> bool
    decreases s.len(),
{
    if s.len() == 0 {
        false
    } else {
        disk_step(disk_flag(s.drop_last()), s.last())
    }
}

/// Whether the disk warning fires on the last poll of `s`.
pub open spec fn disk_fires(s: Seq<int>) -> bool {
    s.len() > 0 && !disk_flag(s.drop_last()) && s.last() < DISK_THRESHOLD
}

/// A below-threshold reading at `i` that no later reading has risen
/// strictly above the threshold to clear.
pub open spec fn disk_pressure_pending(s: Seq<int>, i: int) -> bool {
    0 <= i < s.len() && s[i] < DISK_THRESHOLD && (forall|j: int|
        i < j < s.len() ==> s[j] <= DISK_THRESHOLD)
}

/// The suppression flag is set exactly while some below-threshold reading
/// has not yet been followed by a strictly-above-threshold one.
pub proof fn lemma_disk_flag_characterization(s: Seq<int>)
    ensures
        disk_flag(s) <==> exists|i: int| disk_pressure_pending(s, i),
    decreases s.len(),
{
    if s.len() > 0 {
        lemma_disk_flag_characterization(s.drop_last());
        let d = s.drop_last();
        if s.last() > DISK_THRESHOLD {
            assert(!disk_flag(s));
            assert forall|i: int| !disk_pressure_pending(s, i) by {
                // reveal the violating index
                assert(disk_pressure_pending(s, i) ==> s[s.len() - 1] <= DISK_THRESHOLD);
            }
        } else if s.last() < DISK_THRESHOLD {
            assert(disk_flag(s));
            assert(disk_pressure_pending(s, s.len() - 1));
        } else {
            // exactly at the threshold: the flag is carried over unchanged
            assert(disk_flag(s) == disk_flag(d));
            if disk_flag(d) {
                let i = choose|i: int| disk_pressure_pending(d, i);
                assert forall|j: int| i < j < s.len() implies s[j] <= DISK_THRESHOLD by {
                    if j < s.len() - 1 {
                        assert(d[j] == s[j]);
                    }
                }
                assert(d[i] == s[i]);
                assert(disk_pressure_pending(s, i));
            } else {
                assert forall|i: int| !disk_pressure_pending(s, i) by {
                    if 0 <= i < s.len() - 1 && s[i] < DISK_THRESHOLD && (forall|j: int|
                        i < j < s.len() ==> s[j] <= DISK_THRESHOLD) {
                        assert forall|j: int| i < j < d.len() implies d[j] <= DISK_THRESHOLD by {
                            assert(d[j] == s[j]);
                        }
                        assert(d[i] == s[i]);
                        assert(disk_pressure_pending(d, i));
                        assert(false);
                    }
                }
            }
        }
    }
}

/// The disk warning fires on poll `j` exactly when that reading is below
/// the threshold and every earlier below-threshold reading has since been
/// cleared by a strictly-above-threshold one: once per downward crossing.
pub proof fn lemma_disk_fires_once_per_crossing(s: Seq<int>, j: int)
    requires
        0 <= j < s.len(),
    ensures
        disk_fires(s.take(j + 1)) <==> (s[j] < DISK_THRESHOLD && (forall|i: int|
            0 <= i < j && s[i] < DISK_THRESHOLD ==> exists|k: int|
                i < k < j && s[k] > DISK_THRESHOLD)),
{
    let p = s.take(j + 1);
    assert(p.drop_last() =~= s.take(j));
    assert(p.last() == s[j]);
    lemma_disk_flag_characterization(s.take(j));
    if !disk_flag(s.take(j)) {
        assert forall|i: int| 0 <= i < j && s[i] < DISK_THRESHOLD implies exists|k: int|
            i < k < j && s[k] > DISK_THRESHOLD by {
            assert(!disk_pressure_pending(s.take(j), i));
            assert(s.take(j)[i] == s[i]);
            let k = choose|k: int| i < k < j && !(s.take(j)[k] <= DISK_THRESHOLD);
            assert(s[k] > DISK_THRESHOLD);
        }
    } else {
        let i = choose|i: int| disk_pressure_pending(s.take(j), i);
        assert(s.take(j)[i] == s[i]);
        assert forall|k: int| i < k < j implies !(s[k] > DISK_THRESHOLD) by {
            assert(s.take(j)[k] == s[k]);
        }
    }
}

/// A strictly-above-threshold reading re-arms the detector: the next
/// below-threshold reading after it fires again.
pub proof fn lemma_disk_rearms_after_recovery(s: Seq<int>, k: int, j: int)
    requires
        0 <= k < j < s.len(),
        s[k] > DISK_THRESHOLD,
        s[j] < DISK_THRESHOLD,
        forall|m: int| k < m < j ==> s[m] >= DISK_THRESHOLD,
    ensures
        disk_fires(s.take(j + 1)),
{
    lemma_disk_fires_once_per_crossing(s, j);
    assert forall|i: int| 0 <= i < j && s[i] < DISK_THRESHOLD implies exists|kk: int|
        i < kk < j && s[kk] > DISK_THRESHOLD by {
        assert(i < k);
        assert(i < k < j && s[k] > DISK_THRESHOLD);
    }
}

/// The warning text for a node that has had too few peers for too long.
pub fn low_connection_message(node_name: &str) -> (s: String)
    ensures
        s@ == node_name@ + " failed to establish enough connections in a minute."@,
{
    let mut s = String::from_str(node_name);
    s.append(" failed to establish enough connections in a minute.");
    s
}

/// The warning text for a node whose best block has not advanced.
pub fn no_block_update_message(node_name: &str) -> (s: String)
    ensures
        s@ == node_name@ + " no block update in 30 seconds."@,
{
    let mut s = String::from_str(node_name);
    s.append(" no block update in 30 seconds.");
    s
}

/// The warning text for a node low on disk space; the figure is the
/// available space in whole megabytes.
pub fn low_disk_message(node_name: &str, disk_available: i64) -> (s: String)
    ensures
        s@ == node_name@ + " has only "@ + spec_dec_int(spec_mb(disk_available as int))
            + " MB free space."@,
{
    let mut s = String::from_str(node_name);
    s.append(" has only ");
    let megabytes = mb(disk_available as i128);
    let digits = i128_to_string(megabytes as i128);
    s.append(digits.as_str());
    s.append(" MB free space.");
    s
}

/// The warning texts one poll's fired alerts produce, in the order the
/// detectors are evaluated: connectivity, chain stall, disk pressure.
pub open spec fn spec_warning_messages(
    fired: Alerts,
    node_name: Seq<char>,
    disk_available: int,
) -> Seq<Seq<char>> {
    let conn = if fired.connectivity {
        seq![node_name + " failed to establish enough connections in a minute."@]
    } else {
        Seq::<Seq<char>>::empty()
    };
    let stall = if fired.chain_stall {
        seq![node_name + " no block update in 30 seconds."@]
    } else {
        Seq::<Seq<char>>::empty()
    };
    let disk = if fired.disk {
        seq![node_name + " has only "@ + spec_dec_int(spec_mb(disk_available)) + " MB free space."@]
    } else {
        Seq::<Seq<char>>::empty()
    };
    conn + stall + disk
}

/// Builds the warnings to deliver for one poll's fired alerts.
pub fn warning_messages(fired: Alerts, node_name: &str, disk_available: i64) -> (msgs: Vec<
    String,
>)
    ensures
        views(msgs@) == spec_warning_messages(fired, node_name@, disk_available as int),
{
    let mut msgs: Vec<String> = Vec::new();
    if fired.connectivity {
        msgs.push(low_connection_message(node_name));
    }
    if fired.chain_stall {
        msgs.push(no_block_update_message(node_name));
    }
    if fired.disk {
        msgs.push(low_disk_message(node_name, disk_available));
    }
    proof {
        assert(views(msgs@) =~= spec_warning_messages(fired, node_name@, disk_available as int));
    }
    msgs
}

} // verus!
