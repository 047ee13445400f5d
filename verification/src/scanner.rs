//! The staleness scanner: classifies repository records as alive or dead
//! by an inactivity threshold and materializes the dead ones as
//! tombstones in the registry.

use vstd::prelude::*;
use vstd::string::StringExecFns;
use crate::strutil::dec_digits;
use crate::strutil::fmt_u64;
use crate::timefmt::rfc3339_parse_of;
use crate::timefmt::parse_rfc3339;
use crate::tombstone::Tombstone;
use crate::tombstone::TombstoneView;
use crate::tombstone::TombstoneRegistry;
use crate::tombstone::upserted;

verus! {

/// The inactivity threshold of a default scan, in days.
pub const DEFAULT_THRESHOLD_DAYS: u64 = 180;

/// Seconds in a day.
pub const SECS_PER_DAY: u64 = 86400;

/// A repository record as fetched from the hosting provider, with its
/// last-updated instant as the RFC 3339 string of the wire format.
pub struct RepoRecord {
    pub id: String,
    pub full_name: String,
    pub updated_at: String,
    pub stargazers_count: u64,
    pub language: Option<String>,
    pub html_url: String,
}

/// The mathematical value of a repository record.
#[verifier::ext_equal]
pub struct RepoRecordView {
    pub id: Seq<char>,
    pub full_name: Seq<char>,
    pub updated_at: Seq<char>,
    pub stargazers_count: u64,
    pub language: Option<Seq<char>>,
    pub html_url: Seq<char>,
}

impl DeepView for RepoRecord {
    type V = RepoRecordView;

    open spec fn deep_view(&self) -> RepoRecordView {
        RepoRecordView {
            id: self.id@,
            full_name: self.full_name@,
            updated_at: self.updated_at@,
            stargazers_count: self.stargazers_count,
            language: self.language.deep_view(),
            html_url: self.html_url@,
        }
    }
}

/// The summary a scan returns.
pub struct ScanResult {
    pub success: bool,
    pub scanned: usize,
    pub zombies: usize,
    pub message: String,
}

/// The staleness rule: dead exactly when inactive beyond the threshold
/// and noticed by at least one star.
pub open spec fn is_zombie(now: int, threshold_days: u64, updated_secs: int, stars: u64) -> bool {
    &&& now - updated_secs > threshold_days * (SECS_PER_DAY as int)
    &&& stars > 0
}

/// Classifies one repository, given its parsed last-update time.
pub fn classify_zombie(now: i64, threshold_days: u64, updated_secs: i64, stargazers_count: u64) -> (r:
    bool)
    ensures
        r == is_zombie(now as int, threshold_days, updated_secs as int, stargazers_count),
{
    let diff: i128 = now as i128 - updated_secs as i128;
    let thresh: i128 = threshold_days as i128 * SECS_PER_DAY as i128;
    diff > thresh && stargazers_count > 0
}

/// The human-readable cause written on a scanner-made tombstone.
pub open spec fn zombie_cause(days: u64) -> Seq<char> {
    "Inactive for "@ + dec_digits(days as nat) + " days"@
}

/// The epitaph written on a scanner-made tombstone.
pub open spec fn zombie_epitaph() -> Seq<char> {
    "Flagged by the staleness scan"@
}

/// The tombstone materialized for a dead repository: it dies at its last
/// update, under its own id and name.
pub open spec fn tombstone_of(r: RepoRecordView, days: u64) -> TombstoneView {
    TombstoneView {
        id: r.id,
        name: r.full_name,
        cause_of_death: zombie_cause(days),
        epitaph: zombie_epitaph(),
        tags: Seq::<Seq<char>>::empty(),
        original_path: r.html_url,
        language: r.language,
        line_count: 0,
        died_at: r.updated_at,
        resurrected_at: None,
        resurrected_to: None,
    }
}

/// How many whole days lie between the update and now.
pub open spec fn days_between(now: int, updated_secs: int) -> int {
    (now - updated_secs) / (SECS_PER_DAY as int)
}

/// The registry after one record is considered: unchanged for a record
/// that does not parse or is not dead, upserted with its tombstone else.
pub open spec fn scan_step(
    reg: Seq<TombstoneView>,
    r: RepoRecordView,
    now: int,
    threshold_days: u64,
) -> Seq<TombstoneView> {
    match rfc3339_parse_of(r.updated_at) {
        Some(u) => if is_zombie(now, threshold_days, u as int, r.stargazers_count) {
            upserted(reg, tombstone_of(r, days_between(now, u as int) as u64))
        } else {
            reg
        },
        None => reg,
    }
}

/// The registry after every record of the run, in order.
pub open spec fn scanned_registry(
    reg: Seq<TombstoneView>,
    records: Seq<RepoRecordView>,
    now: int,
    threshold_days: u64,
) -> Seq<TombstoneView>
    decreases records.len(),
{
    if records.len() == 0 {
        reg
    } else {
        scan_step(
            scanned_registry(reg, records.drop_last(), now, threshold_days),
            records.last(),
            now,
            threshold_days,
        )
    }
}

/// How many records of the run are classified dead.
pub open spec fn count_zombies(records: Seq<RepoRecordView>, now: int, threshold_days: u64) -> nat
    decreases records.len(),
{
    if records.len() == 0 {
        0
    } else {
        count_zombies(records.drop_last(), now, threshold_days) + match rfc3339_parse_of(
            records.last().updated_at,
        ) {
            Some(u) => if is_zombie(now, threshold_days, u as int, records.last().stargazers_count) {
                1nat
            } else {
                0
            },
            None => 0,
        }
    }
}

/// The summary line of a finished scan.
pub open spec fn scan_message(zombies: nat) -> Seq<char> {
    "Scan complete: found "@ + dec_digits(zombies) + " zombies"@
}

/// Builds the tombstone for a repository classified dead.
pub fn make_tombstone(r: &RepoRecord, days: u64) -> (t: Tombstone)
    ensures
        t.deep_view() == tombstone_of(r.deep_view(), days),
{
    let mut cause = String::from_str("Inactive for ");
    let digits = fmt_u64(days);
    cause.append(digits.as_str());
    cause.append(" days");
    let t = Tombstone {
        id: r.id.clone(),
        name: r.full_name.clone(),
        cause_of_death: cause,
        epitaph: String::from_str("Flagged by the staleness scan"),
        tags: Vec::new(),
        original_path: r.html_url.clone(),
        language: match &r.language {
            Some(l) => Some(l.clone()),
            None => None,
        },
        line_count: 0,
        died_at: r.updated_at.clone(),
        resurrected_at: None,
        resurrected_to: None,
    };
    proof {
        assert(t.tags.deep_view() =~= Seq::<Seq<char>>::empty());
        assert(t.deep_view() =~= tombstone_of(r.deep_view(), days));
    }
    t
}

/// Runs a scan over the fetched records: every record counts as scanned,
/// each dead one is tombstoned and upserted, and the summary reports the
/// totals. A record whose update time does not parse is skipped, counted
/// as scanned but never classified.
#[verifier::loop_isolation(false)]
pub fn trigger_scan(
    registry: &mut TombstoneRegistry,
    records: &Vec<RepoRecord>,
    now: i64,
    threshold_days: u64,
) -> (r: ScanResult)
    requires
        old(registry).wf(),
    ensures
        final(registry)@ == scanned_registry(
            old(registry)@,
            records.deep_view(),
            now as int,
            threshold_days,
        ),
        final(registry).wf(),
        r.success == true,
        r.scanned == records@.len(),
        r.zombies == count_zombies(records.deep_view(), now as int, threshold_days),
        r.message@ == scan_message(count_zombies(records.deep_view(), now as int, threshold_days)),
{
    let ghost orig = registry@;
    let ghost rv = records.deep_view();
    let mut zombies: usize = 0;
    proof {
        assert(rv.take(0int) =~= Seq::<RepoRecordView>::empty());
    }
    let mut i: usize = 0;
    while i < records.len()
        invariant
            0 <= i <= rv.len(),
            rv.len() == records@.len(),
            registry@ == scanned_registry(orig, rv.take(i as int), now as int, threshold_days),
            registry.wf(),
            zombies == count_zombies(rv.take(i as int), now as int, threshold_days),
            zombies <= i,
        decreases rv.len() - i,
    {
        proof {
            assert(rv[i as int] == records@[i as int].deep_view());
            assert(rv.take(i + 1).drop_last() =~= rv.take(i as int));
            assert(rv.take(i + 1).last() == rv[i as int]);
        }
        let rec = &records[i];
        match parse_rfc3339(rec.updated_at.as_str()) {
            Some(updated_secs) => {
                if classify_zombie(now, threshold_days, updated_secs, rec.stargazers_count) {
                    let diff: i128 = now as i128 - updated_secs as i128;
                    let days128: i128 = diff / SECS_PER_DAY as i128;
                    let days: u64 = days128 as u64;
                    proof {
                        assert(diff > 0);
                        assert(days128 == days_between(now as int, updated_secs as int));
                        assert(0 <= days128 < 0x1_0000_0000_0000_0000_i128) by {
                            assert(diff <= i64::MAX as i128 - i64::MIN as i128);
                            assert(days128 <= diff / 86400);
                        }
                        assert(days == days_between(now as int, updated_secs as int));
                    }
                    let t = make_tombstone(rec, days);
                    registry.upsert(t);
                    zombies = zombies + 1;
                } else {
                }
            },
            None => {},
        }
        i = i + 1;
    }
    proof {
        assert(rv.take(rv.len() as int) =~= rv);
    }
    let mut message = String::from_str("Scan complete: found ");
    let digits = fmt_u64(zombies as u64);
    message.append(digits.as_str());
    message.append(" zombies");
    proof {
        assert(zombies as nat == count_zombies(rv, now as int, threshold_days));
    }
    ScanResult { success: true, scanned: records.len(), zombies, message }
}

} // verus!
