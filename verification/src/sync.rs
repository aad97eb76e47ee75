//! What a sync reports.
use vstd::prelude::*;

use crate::search::Fetched;

verus! {

/// What one sync did.
#[derive(Debug, Clone, Copy, PartialEq, Eq, Structural)]
pub struct SyncStats {
    /// How many items were fetched.
    pub fetched: usize,
    /// How many items the search says involve the viewer.
    pub involved_total: u64,
    /// The API points the sync cost.
    pub cost: u64,
    /// The API points left.
    pub remaining: u64,
    /// Whether the sync was skipped because nothing changed.
    pub skipped: bool,
    /// Whether the notifications could be read, so that polls can be cheap.
    pub notif_ok: bool,
}

impl Default for SyncStats {
    fn default() -> (r: SyncStats)
        ensures
            r == (SyncStats {
                fetched: 0,
                involved_total: 0,
                cost: 0,
                remaining: 0,
                skipped: false,
                notif_ok: false,
            }),
    {
        SyncStats {
            fetched: 0,
            involved_total: 0,
            cost: 0,
            remaining: 0,
            skipped: false,
            notif_ok: false,
        }
    }
}

impl SyncStats {
    /// The report of a poll that found nothing new: skipped, with the
    /// notifications read, and nothing fetched or spent.
    pub open spec fn quiet_spec() -> SyncStats {
        SyncStats {
            fetched: 0,
            involved_total: 0,
            cost: 0,
            remaining: 0,
            skipped: true,
            notif_ok: true,
        }
    }

    /// The report of a poll that found nothing new (see `quiet_spec`).
    pub fn quiet() -> (r: SyncStats)
        ensures
            r == SyncStats::quiet_spec(),
    {
        SyncStats {
            fetched: 0,
            involved_total: 0,
            cost: 0,
            remaining: 0,
            skipped: true,
            notif_ok: true,
        }
    }

    /// The report of a full sync that fetched `got`.
    pub fn synced(got: &Fetched, notif_ok: bool) -> (r: SyncStats)
        ensures
            r == (SyncStats {
                fetched: got.items@.len() as usize,
                involved_total: got.involved_total,
                cost: got.cost,
                remaining: got.remaining,
                skipped: false,
                notif_ok: notif_ok,
            }),
    {
        SyncStats {
            fetched: got.items.len(),
            involved_total: got.involved_total,
            cost: got.cost,
            remaining: got.remaining,
            skipped: false,
            notif_ok,
        }
    }
}

/// What a notifications poll leads to: where nothing changed, the report of
/// a quiet poll (see `SyncStats::quiet`); else `None`, and a sync follows.
pub fn after_poll(changed: bool) -> (r: Option<SyncStats>)
    ensures
        !changed ==> r == Some(SyncStats::quiet_spec()),
        changed ==> r is None,
{
    if changed {
        None
    } else {
        Some(SyncStats::quiet())
    }
}

} // verus!
