//! The daily fleet report: once per calendar-day change the watcher builds
//! one report from the registry's records — a storage-connectivity line and,
//! per agent, its identity, status, most recent poll figures and peak memory
//! usage — and resets the peak-memory statistic for the next period.

use vstd::prelude::*;
use vstd::string::StringExecFns;
use crate::agent::{PersistedSnapshot, State, UpdateResult};
use crate::common_rpc_types::HardwareUsage;
use crate::hardware::{mb, spec_mb};
use crate::registry::{AgentRecord, Registry, ReportUpdateResult};
use crate::text::{i128_to_string, join_lines, spec_dec_int, spec_join_newline, views};

verus! {

/// A calendar day as the watcher compares it.
#[derive(Debug, Copy, Clone, PartialEq, Eq, Structural)]
pub struct CalendarDate {
    pub year: i32,
    pub month: u8,
    pub day: u8,
}

/// The watcher's decision: a report is due exactly when the day has
/// changed since it last looked.
pub fn report_due(last_seen: CalendarDate, now: CalendarDate) -> (r: bool)
    ensures
        r == (last_seen != now),
{
    !(last_seen.year == now.year && last_seen.month == now.month && last_seen.day == now.day)
}

/// The text an optional address appears as.
pub open spec fn spec_opt_address(a: Option<String>) -> Seq<char> {
    match a {
        Some(s) => s@,
        None => "None"@,
    }
}

/// The text an optional block number appears as.
pub open spec fn spec_opt_number(b: Option<u64>) -> Seq<char> {
    match b {
        Some(n) => spec_dec_int(n as int),
        None => "None"@,
    }
}

/// The storage-connectivity line.
pub open spec fn spec_db_line(db_error: Option<String>) -> Seq<char> {
    match db_error {
        None => "DB is connected"@,
        Some(e) => "DB connection has an error : "@ + e@,
    }
}

/// The sum of the whole-megabyte available figures of a disk list.
pub open spec fn spec_sum_mb(s: Seq<HardwareUsage>) -> int
    decreases s.len(),
{
    if s.len() == 0 {
        0
    } else {
        spec_sum_mb(s.drop_last()) + spec_mb(s.last().available as int)
    }
}

/// The per-disk breakdown: the raw available figures joined with " + ".
pub open spec fn spec_join_plus(s: Seq<HardwareUsage>) -> Seq<char>
    decreases s.len(),
{
    if s.len() == 0 {
        Seq::empty()
    } else if s.len() == 1 {
        spec_dec_int(s[0].available as int)
    } else {
        spec_join_plus(s.drop_last()) + " + "@ + spec_dec_int(s.last().available as int)
    }
}

/// The available-disk line of one record: a single figure when one disk is
/// known, a sum with a per-disk breakdown when several are, and "Unknown"
/// when none is.
pub open spec fn spec_disk_line(u: ReportUpdateResult) -> Seq<char> {
    match u.disk_usages {
        Some(usages) => if usages@.len() == 1 {
            "  available disk: "@ + spec_dec_int(spec_sum_mb(usages@)) + " MB"@
        } else {
            "  available disk: "@ + spec_dec_int(spec_sum_mb(usages@)) + "("@ + spec_join_plus(
                usages@,
            ) + ") MB"@
        },
        None => match u.disk_usage {
            Some(usage) => "  available disk: "@ + spec_dec_int(spec_mb(usage.available as int))
                + " MB"@,
            None => "  available disk: Unknown"@,
        },
    }
}

/// The peak-memory line: used and total, in whole megabytes.
pub open spec fn spec_memory_line(m: HardwareUsage) -> Seq<char> {
    "  memory usage: "@ + spec_dec_int(spec_mb(m.total - m.available)) + " MB / "@ + spec_dec_int(
        spec_mb(m.total as int),
    ) + " MB"@
}

/// The report lines one record contributes: nothing while initializing;
/// otherwise identity and status, the most recent poll figures while
/// monitored, and the peak memory usage if one was observed.
pub open spec fn spec_record_lines(r: AgentRecord) -> Seq<Seq<char>> {
    match r.state {
        State::Initializing => Seq::empty(),
        State::Normal { name, address, status } => {
            let head = seq![
                "Agent: "@ + name@,
                "  address: "@ + spec_opt_address(address),
                "  status: "@ + status.spec_text(),
            ];
            let mid = match r.recent_update_result {
                Some(u) => seq![
                    "  peer count: "@ + spec_dec_int(u.number_of_peers as int),
                    "  best block number: "@ + spec_opt_number(u.best_block_number),
                    spec_disk_line(u),
                ],
                None => Seq::<Seq<char>>::empty(),
            };
            let tail = match r.maximum_memory_usage {
                Some(m) => seq![spec_memory_line(m)],
                None => Seq::<Seq<char>>::empty(),
            };
            head + mid + tail
        },
        State::Stop { name, address, status, .. } => {
            let head = seq![
                "Agent: "@ + name@,
                "  address: "@ + spec_opt_address(address),
                "  status: "@ + status.spec_text(),
            ];
            let tail = match r.maximum_memory_usage {
                Some(m) => seq![spec_memory_line(m)],
                None => Seq::<Seq<char>>::empty(),
            };
            head + tail
        },
    }
}

/// The lines a list of records contributes, in order.
pub open spec fn spec_records_lines(rs: Seq<AgentRecord>) -> Seq<Seq<char>>
    decreases rs.len(),
{
    if rs.len() == 0 {
        Seq::empty()
    } else {
        spec_records_lines(rs.drop_last()) + spec_record_lines(rs.last())
    }
}

/// The records a directory holds, in order.
pub open spec fn records_of(entries: Seq<(i32, AgentRecord)>) -> Seq<AgentRecord> {
    entries.map_values(|e: (i32, AgentRecord)| e.1)
}

/// All lines of one report.
pub open spec fn spec_report_lines(
    db_error: Option<String>,
    records: Seq<AgentRecord>,
) -> Seq<Seq<char>> {
    seq!["CodeChain Server is running"@, spec_db_line(db_error)] + spec_records_lines(records)
}

/// Appends one line.
fn push_line(lines: &mut Vec<String>, line: String)
    ensures
        views(final(lines)@) == views(old(lines)@).push(line@),
{
    let ghost before = lines@;
    lines.push(line);
    proof {
        assert(views(lines@) =~= views(before).push(line@));
    }
}

/// Every whole-megabyte figure of an in-range reading is small.
proof fn lemma_mb_small(n: int)
    requires
        i64::MIN <= n <= i64::MAX,
    ensures
        -9223372036854 <= spec_mb(n) <= 9223372036854,
{
    if n >= 0 {
        vstd::arithmetic::div_mod::lemma_div_is_ordered(n, i64::MAX as int, 1000000);
        vstd::arithmetic::div_mod::lemma_div_basics_3(n);
        vstd::arithmetic::div_mod::lemma_div_nonincreasing(n, 1000000);
        assert(n / 1000000 >= 0) by {
            vstd::arithmetic::div_mod::lemma_div_pos_is_pos(n, 1000000);
        }
    } else {
        vstd::arithmetic::div_mod::lemma_div_is_ordered(-n, -(i64::MIN as int), 1000000);
        assert((-n) / 1000000 >= 0) by {
            vstd::arithmetic::div_mod::lemma_div_pos_is_pos(-n, 1000000);
        }
    }
}

/// The running megabyte sum stays within `len` small figures.
proof fn lemma_sum_mb_bound(s: Seq<HardwareUsage>)
    ensures
        -9223372036854 * s.len() <= spec_sum_mb(s) <= 9223372036854 * s.len(),
    decreases s.len(),
{
    if s.len() > 0 {
        lemma_sum_mb_bound(s.drop_last());
        lemma_mb_small(s.last().available as int);
    }
}

/// Renders the available-disk line of one poll outcome.
fn disk_line(u: &ReportUpdateResult) -> (s: String)
    ensures
        s@ == spec_disk_line(*u),
{
    match &u.disk_usages {
        Some(usages) => {
            let ghost us = usages@;
            let mut total: i128 = 0;
            let mut k: usize = 0;
            while k < usages.len()
                invariant
                    k <= us.len(),
                    us == usages@,
                    total == spec_sum_mb(us.take(k as int)),
                    -9223372036854 * (k as int) <= total <= 9223372036854 * (k as int),
                decreases us.len() - k,
            {
                proof {
                    assert(us.take(k + 1).drop_last() =~= us.take(k as int));
                    assert(us.take(k + 1).last() == us[k as int]);
                    lemma_mb_small(us[k as int].available as int);
                }
                let m = mb(usages[k].available as i128);
                total = total + (m as i128);
                k += 1;
            }
            proof {
                assert(us.take(us.len() as int) =~= us);
            }
            let mut s = String::from_str("  available disk: ");
            let digits = i128_to_string(total);
            s.append(digits.as_str());
            if usages.len() == 1 {
                s.append(" MB");
            } else {
                s.append("(");
                let mut joined = String::new();
                let mut j: usize = 0;
                while j < usages.len()
                    invariant
                        j <= us.len(),
                        us == usages@,
                        joined@ == spec_join_plus(us.take(j as int)),
                    decreases us.len() - j,
                {
                    if j > 0 {
                        joined.append(" + ");
                    }
                    let digits = i128_to_string(usages[j].available as i128);
                    joined.append(digits.as_str());
                    proof {
                        assert(us.take(j + 1).drop_last() =~= us.take(j as int));
                        assert(us.take(j + 1).last() == us[j as int]);
                        if j == 0 {
                            assert(us.take(1)[0] == us[0]);
                        }
                    }
                    j += 1;
                }
                proof {
                    assert(us.take(us.len() as int) =~= us);
                }
                s.append(joined.as_str());
                s.append(") MB");
            }
            s
        },
        None => match &u.disk_usage {
            Some(usage) => {
                let mut s = String::from_str("  available disk: ");
                let m = mb(usage.available as i128);
                let digits = i128_to_string(m as i128);
                s.append(digits.as_str());
                s.append(" MB");
                s
            },
            None => String::from_str("  available disk: Unknown"),
        },
    }
}

/// Renders the peak-memory line.
fn memory_line(m: HardwareUsage) -> (s: String)
    ensures
        s@ == spec_memory_line(m),
{
    let used: i128 = (m.total as i128) - (m.available as i128);
    let mut s = String::from_str("  memory usage: ");
    let used_mb = mb(used);
    let digits = i128_to_string(used_mb as i128);
    s.append(digits.as_str());
    s.append(" MB / ");
    let total_mb = mb(m.total as i128);
    let digits2 = i128_to_string(total_mb as i128);
    s.append(digits2.as_str());
    s.append(" MB");
    s
}

/// Renders the text an optional address appears as.
fn opt_address_text(a: &Option<String>) -> (s: String)
    ensures
        s@ == spec_opt_address(*a),
{
    match a {
        Some(x) => x.clone(),
        None => String::from_str("None"),
    }
}

/// Appends the lines one record contributes to the report.
fn append_record_lines(lines: &mut Vec<String>, r: &AgentRecord)
    ensures
        views(final(lines)@) == views(old(lines)@) + spec_record_lines(*r),
{
    match &r.state {
        State::Initializing => {
            proof {
                assert(views(lines@) =~= views(old(lines)@) + spec_record_lines(*r));
            }
        },
        State::Normal { name, address, status } => {
            let mut l = String::from_str("Agent: ");
            l.append(name.as_str());
            push_line(lines, l);
            let mut l = String::from_str("  address: ");
            let a = opt_address_text(address);
            l.append(a.as_str());
            push_line(lines, l);
            let mut l = String::from_str("  status: ");
            let t = status.text();
            l.append(t.as_str());
            push_line(lines, l);
            if let Some(u) = &r.recent_update_result {
                let mut l = String::from_str("  peer count: ");
                let digits = i128_to_string(u.number_of_peers as i128);
                l.append(digits.as_str());
                push_line(lines, l);
                let mut l = String::from_str("  best block number: ");
                let b = match u.best_block_number {
                    Some(n) => i128_to_string(n as i128),
                    None => String::from_str("None"),
                };
                l.append(b.as_str());
                push_line(lines, l);
                push_line(lines, disk_line(u));
            }
            if let Some(m) = r.maximum_memory_usage {
                push_line(lines, memory_line(m));
            }
            proof {
                assert(views(lines@) =~= views(old(lines)@) + spec_record_lines(*r));
            }
        },
        State::Stop { name, address, status, .. } => {
            let mut l = String::from_str("Agent: ");
            l.append(name.as_str());
            push_line(lines, l);
            let mut l = String::from_str("  address: ");
            let a = opt_address_text(address);
            l.append(a.as_str());
            push_line(lines, l);
            let mut l = String::from_str("  status: ");
            let t = status.text();
            l.append(t.as_str());
            push_line(lines, l);
            if let Some(m) = r.maximum_memory_usage {
                push_line(lines, memory_line(m));
            }
            proof {
                assert(views(lines@) =~= views(old(lines)@) + spec_record_lines(*r));
            }
        },
    }
}

/// Builds one daily report from the registry's records and the storage
/// health probe, then resets the peak-memory statistic for the next period.
/// Returns the report text; the surrounding program delivers it under the
/// "Daily report" title.
pub fn send_daily_report(db_error: &Option<String>, registry: &mut Registry) -> (message: String)
    requires
        old(registry).wf(),
    ensures
        message@ == spec_join_newline(
            spec_report_lines(*db_error, records_of(old(registry).entries@)),
        ),
        final(registry).wf(),
        final(registry).entries@.len() == old(registry).entries@.len(),
        forall|i: int| 0 <= i < old(registry).entries@.len() ==> ({
            let before = old(registry).entries@[i];
            let after = (#[trigger] final(registry).entries@[i]);
            &&& after.0 == before.0
            &&& after.1.state == before.1.state
            &&& after.1.recent_update_result == before.1.recent_update_result
            &&& after.1.maximum_memory_usage is None
        }),
{
    let ghost entries0 = registry.entries@;
    let mut lines: Vec<String> = Vec::new();
    push_line(&mut lines, String::from_str("CodeChain Server is running"));
    let db_line = match db_error {
        None => String::from_str("DB is connected"),
        Some(e) => {
            let mut l = String::from_str("DB connection has an error : ");
            l.append(e.as_str());
            l
        },
    };
    push_line(&mut lines, db_line);
    proof {
        assert(views(lines@) =~= seq!["CodeChain Server is running"@, spec_db_line(*db_error)]
            + spec_records_lines(records_of(entries0).take(0)));
        assert(records_of(entries0).take(0) =~= Seq::<AgentRecord>::empty());
    }
    let mut k: usize = 0;
    while k < registry.entries.len()
        invariant
            k <= entries0.len(),
            registry.entries@ == entries0,
            registry.wf(),
            views(lines@) == seq!["CodeChain Server is running"@, spec_db_line(*db_error)]
                + spec_records_lines(records_of(entries0).take(k as int)),
        decreases entries0.len() - k,
    {
        append_record_lines(&mut lines, &registry.entries[k].1);
        proof {
            let rs = records_of(entries0);
            assert(rs.take(k + 1).drop_last() =~= rs.take(k as int));
            assert(rs.take(k + 1).last() == rs[k as int]);
            assert(rs[k as int] == entries0[k as int].1);
        }
        k += 1;
    }
    proof {
        assert(records_of(entries0).take(entries0.len() as int) =~= records_of(entries0));
    }
    registry.reset_maximum_memory_usages();
    join_lines(&lines)
}

/// What the daily aggregator reads back from a persisted snapshot: the
/// figures its report displays.
pub fn report_data_of_snapshot(s: &PersistedSnapshot) -> (u: ReportUpdateResult)
    ensures
        u.number_of_peers == s.peers@.len(),
        u.best_block_number == (match s.best_block_id {
            Some(b) => Some(b.block_number),
            None => None::<u64>,
        }),
        u.disk_usage == (match s.hardware {
            Some(h) => Some(h.disk_usage),
            None => None::<HardwareUsage>,
        }),
        u.disk_usages is None,
{
    ReportUpdateResult {
        number_of_peers: s.peers.len(),
        best_block_number: match &s.best_block_id {
            Some(b) => Some(b.block_number),
            None => None,
        },
        disk_usage: match &s.hardware {
            Some(h) => Some(h.disk_usage),
            None => None,
        },
        disk_usages: None,
    }
}

/// Round trip: a snapshot written by a monitoring poll and read back by the
/// daily aggregator reproduces the poll's own figures — the peer count, the
/// best-block number and the disk availability — and those figures are
/// exactly what the report lines display.  The premises are what the poll
/// (`Agent::update_poll`) ensures of its snapshot and summary, and what the
/// read-back (`report_data_of_snapshot`) ensures of its result.
pub proof fn lemma_snapshot_round_trip(
    snap: PersistedSnapshot,
    ur: UpdateResult,
    u: ReportUpdateResult,
)
    requires
        ur.number_of_peers == snap.peers@.len(),
        ur.best_block_number == (match snap.best_block_id {
            Some(b) => Some(b.block_number),
            None => None::<u64>,
        }),
        snap.hardware is Some,
        ur.disk_usage == snap.hardware.unwrap().disk_usage,
        u.number_of_peers == snap.peers@.len(),
        u.best_block_number == (match snap.best_block_id {
            Some(b) => Some(b.block_number),
            None => None::<u64>,
        }),
        u.disk_usage == (match snap.hardware {
            Some(h) => Some(h.disk_usage),
            None => None::<HardwareUsage>,
        }),
        u.disk_usages is None,
    ensures
        u.number_of_peers == ur.number_of_peers,
        u.best_block_number == ur.best_block_number,
        u.disk_usage == Some(ur.disk_usage),
        spec_disk_line(u) == "  available disk: "@ + spec_dec_int(
            spec_mb(ur.disk_usage.available as int),
        ) + " MB"@,
{
}

} // verus!
