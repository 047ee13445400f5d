//! The stats aggregator: pure derivation over snapshots of the asset
//! registry and the tombstone registry, recomputed on every query.

use vstd::prelude::*;
use vstd::string::StringExecFns;
use crate::CemeteryError;
use crate::asset::Asset;
use crate::asset::count_alive;
use crate::asset::count_alive_assets;
use crate::asset::lemma_count_alive_le_len;
use crate::strutil::dec_digits;
use crate::strutil::fmt_u64;
use crate::tombstone::Tombstone;
use crate::tombstone::TombstoneView;
use crate::timefmt::datetime_display_of;
use crate::timefmt::format_timestamp;
use crate::timefmt::MAX_FORMAT_SECS;

verus! {

/// Derived summary counts; never persisted.
pub struct Stats {
    pub total_assets: usize,
    pub alive_assets: usize,
    pub dead_assets: usize,
    pub total_tombstones: usize,
    pub resurrected: usize,
    pub last_scan: String,
}

/// How many tombstones of `s` carry a resurrection stamp.
pub open spec fn count_resurrected(s: Seq<TombstoneView>) -> nat
    decreases s.len(),
{
    if s.len() == 0 {
        0
    } else {
        count_resurrected(s.drop_last()) + if s.last().resurrected_at is Some {
            1nat
        } else {
            0
        }
    }
}

/// The sentinel served when the asset registry has never been written.
pub open spec fn unknown_scan_stamp() -> Seq<char> {
    "unknown"@
}

/// What `last_scan` reports for a given registry modification time.
pub open spec fn last_scan_of(modified_secs: Option<i64>) -> Seq<char> {
    match modified_secs {
        Some(s) => if 0 <= s <= MAX_FORMAT_SECS {
            datetime_display_of(s as int)
        } else {
            unknown_scan_stamp()
        },
        None => unknown_scan_stamp(),
    }
}

/// Derives the dead-asset count; an alive count above the total is a
/// data-integrity fault, reported rather than wrapped around.
pub fn dead_asset_count(total: usize, alive: usize) -> (r: Result<usize, CemeteryError>)
    ensures
        alive <= total ==> r == Ok::<usize, CemeteryError>((total - alive) as usize),
        alive > total ==> r == Err::<usize, CemeteryError>(CemeteryError::DataIntegrityError),
{
    if alive <= total {
        Ok(total - alive)
    } else {
        Err(CemeteryError::DataIntegrityError)
    }
}

/// Counts the resurrected tombstones.
#[verifier::loop_isolation(false)]
pub fn count_resurrected_tombstones(tombstones: &Vec<Tombstone>) -> (n: usize)
    ensures
        n == count_resurrected(tombstones.deep_view()),
        n <= tombstones.deep_view().len(),
{
    let ghost tv = tombstones.deep_view();
    let mut n: usize = 0;
    let mut i: usize = 0;
    proof {
        assert(tv.take(0int) =~= Seq::<TombstoneView>::empty());
    }
    while i < tombstones.len()
        invariant
            0 <= i <= tv.len(),
            tv.len() == tombstones@.len(),
            n == count_resurrected(tv.take(i as int)),
            n <= i,
        decreases tv.len() - i,
    {
        proof {
            assert(tv.take(i + 1).drop_last() =~= tv.take(i as int));
            assert(tv.take(i + 1).last() == tv[i as int]);
            assert(tv[i as int] == tombstones@[i as int].deep_view());
        }
        if tombstones[i].resurrected_at.is_some() {
            n = n + 1;
        }
        i = i + 1;
    }
    proof {
        assert(tv.take(tv.len() as int) =~= tv);
    }
    n
}

/// Computes the summary over the given snapshots. `modified_secs` is the
/// asset registry's last-modified time, or nothing when it has never been
/// written; empty snapshots yield all-zero counts.
pub fn get_stats(
    assets: &Vec<Asset>,
    tombstones: &Vec<Tombstone>,
    modified_secs: Option<i64>,
) -> (r: Stats)
    ensures
        r.total_assets == assets@.len(),
        r.alive_assets == count_alive(assets@),
        r.dead_assets == assets@.len() - count_alive(assets@),
        r.total_tombstones == tombstones.deep_view().len(),
        r.resurrected == count_resurrected(tombstones.deep_view()),
        r.last_scan@ == last_scan_of(modified_secs),
{
    let total_assets = assets.len();
    let alive_assets = count_alive_assets(assets);
    proof {
        lemma_count_alive_le_len(assets@);
    }
    let dead_assets = match dead_asset_count(total_assets, alive_assets) {
        Ok(d) => d,
        Err(_) => {
            proof {
                assert(false);
            }
            0
        },
    };
    let total_tombstones = tombstones.len();
    let resurrected = count_resurrected_tombstones(tombstones);
    let last_scan = match modified_secs {
        Some(s) => {
            if 0 <= s && s <= MAX_FORMAT_SECS {
                format_timestamp(s)
            } else {
                String::from_str("unknown")
            }
        },
        None => String::from_str("unknown"),
    };
    Stats { total_assets, alive_assets, dead_assets, total_tombstones, resurrected, last_scan }
}

} // verus!

verus! {

/// The text of a cemetery report over the summary counts and the size of
/// the accompanying listing.
pub open spec fn report_message(
    total: nat,
    alive: nat,
    dead: nat,
    tombs: nat,
    res: nat,
    listed: nat,
) -> Seq<char> {
    "Cemetery report\n\nassets: "@ + dec_digits(total) + " (alive "@ + dec_digits(alive)
        + ", dead "@ + dec_digits(dead) + ")\ntombstones: "@ + dec_digits(tombs)
        + " (resurrected "@ + dec_digits(res) + ")\nlisted: "@ + dec_digits(listed)
}

/// Composes the report sent to the caller from a summary and the number
/// of records listed beside it.
pub fn compose_report(stats: &Stats, listed: usize) -> (r: String)
    ensures
        r@ == report_message(
            stats.total_assets as nat,
            stats.alive_assets as nat,
            stats.dead_assets as nat,
            stats.total_tombstones as nat,
            stats.resurrected as nat,
            listed as nat,
        ),
{
    let mut m = String::from_str("Cemetery report\n\nassets: ");
    let d0 = fmt_u64(stats.total_assets as u64);
    m.append(d0.as_str());
    m.append(" (alive ");
    let d1 = fmt_u64(stats.alive_assets as u64);
    m.append(d1.as_str());
    m.append(", dead ");
    let d2 = fmt_u64(stats.dead_assets as u64);
    m.append(d2.as_str());
    m.append(")\ntombstones: ");
    let d3 = fmt_u64(stats.total_tombstones as u64);
    m.append(d3.as_str());
    m.append(" (resurrected ");
    let d4 = fmt_u64(stats.resurrected as u64);
    m.append(d4.as_str());
    m.append(")\nlisted: ");
    let d5 = fmt_u64(listed as u64);
    m.append(d5.as_str());
    m
}

} // verus!
