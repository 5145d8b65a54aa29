//! The registry as a mathematical value, and the rules by which requests
//! change it: creation, promotion and expiry of entries.

use crate::status::{ListingStatus, MetaView};
use crate::time::{elapsed, secs_to_nanos};
use crate::triplet::{identity, triplet_valid, TripletView};
use vstd::prelude::*;

verus! {

/// An entry of the registry as plain values.
pub struct EntryView {
    pub triplet: TripletView,
    pub status: ListingStatus,
    pub meta: MetaView,
}

/// The counters of the registry as plain values. The counts are those of all
/// entries ever made grey by an update and of all promotions to white; the
/// times are nanoseconds since the epoch.
pub struct StatsView {
    pub white: nat,
    pub grey: nat,
    pub black: nat,
    pub start: nat,
    pub lastsave: nat,
}

/// The registry as a plain value: its entries by identity key, its counters,
/// and the settings that its rules depend on, the durations in seconds.
pub struct Registry {
    pub entries: Map<u64, EntryView>,
    pub stats: StatsView,
    pub retry_min: nat,
    pub retry_max: nat,
    pub expire: nat,
    pub update: nat,
    pub only_subnet: bool,
}

/// Whether `ks` names every key of `entries`, each once.
pub open spec fn enumerates(ks: Seq<u64>, entries: Map<u64, EntryView>) -> bool {
    ks.no_duplicates() && ks.to_set() == entries.dom()
}

/// One more than `count`, up to the largest count that is held.
pub open spec fn bump(count: nat) -> nat {
    if count < u32::MAX {
        count + 1
    } else {
        count
    }
}

impl Registry {
    /// Every entry stands under the identity key of its triplet, its triplet
    /// is valid, and the entries are finitely many.
    pub open spec fn wf(self) -> bool {
        &&& self.entries.dom().finite()
        &&& forall|k: u64| #[trigger]
            self.entries.contains_key(k) ==> identity(self.entries[k].triplet, self.only_subnet)
                == k && triplet_valid(self.entries[k].triplet)
    }

    /// The identity key of `t` in this registry.
    pub open spec fn key(self, t: TripletView) -> u64 {
        identity(t, self.only_subnet)
    }

    /// The registry with other entries.
    pub open spec fn with_entries(self, entries: Map<u64, EntryView>) -> Registry {
        Registry { entries, ..self }
    }

    /// The registry with other counters.
    pub open spec fn with_stats(self, stats: StatsView) -> Registry {
        Registry { stats, ..self }
    }

    /// Whether a grey entry first seen at `first_seen` has outlived its
    /// window at `now`.
    pub open spec fn stale(self, first_seen: nat, now: nat) -> bool {
        elapsed(now, first_seen) > secs_to_nanos(self.retry_max)
    }

    /// Whether a grey entry first seen at `first_seen` has waited long enough
    /// at `now`, and not too long, to count as white.
    pub open spec fn in_window(self, first_seen: nat, now: nat) -> bool {
        secs_to_nanos(self.retry_min) <= elapsed(now, first_seen) <= secs_to_nanos(
            self.retry_max,
        )
    }

    /// The entry `e` after one more deciding request at `now`: seen now and
    /// counted; if grey, its clock starts again where its window has passed,
    /// and it becomes white where it is inside its window.
    pub open spec fn observed(self, e: EntryView, now: nat) -> EntryView {
        let meta = MetaView { last_seen: now, first_seen: e.meta.first_seen, count: bump(e.meta.count) };
        if e.status == ListingStatus::Grey && self.stale(e.meta.first_seen, now) {
            EntryView { triplet: e.triplet, status: e.status, meta: MetaView { first_seen: now, ..meta } }
        } else if e.status == ListingStatus::Grey && self.in_window(e.meta.first_seen, now) {
            EntryView { triplet: e.triplet, status: ListingStatus::White, meta }
        } else {
            EntryView { triplet: e.triplet, status: e.status, meta }
        }
    }

    /// The registry after a deciding request for `t` at `now`. A triplet that
    /// is not known becomes grey with a count of one, and the count of grey
    /// entries goes up; a known one is observed, and the count of white
    /// entries goes up where that makes it white.
    pub open spec fn update(self, t: TripletView, now: nat) -> Registry {
        let k = self.key(t);
        if self.entries.contains_key(k) {
            let e = self.entries[k];
            let after = self.observed(e, now);
            let stats = if e.status == ListingStatus::Grey && after.status == ListingStatus::White {
                StatsView { white: bump(self.stats.white), ..self.stats }
            } else {
                self.stats
            };
            Registry { entries: self.entries.insert(k, after), stats, ..self }
        } else {
            let e = EntryView {
                triplet: t,
                status: ListingStatus::Grey,
                meta: MetaView { last_seen: now, first_seen: now, count: 1 },
            };
            Registry {
                entries: self.entries.insert(k, e),
                stats: StatsView { grey: bump(self.stats.grey), ..self.stats },
                ..self
            }
        }
    }

    /// The listing that a request for `t` meets: that of its entry, and none
    /// where it has no entry.
    pub open spec fn stored(self, t: TripletView) -> Option<ListingStatus> {
        let k = self.key(t);
        if self.entries.contains_key(k) {
            Some(self.entries[k].status)
        } else {
            None
        }
    }

    /// The listing that a check of `t` reports at `now`: grey where it is
    /// not known, white where it is grey and inside its window, and else the
    /// listing of its entry.
    pub open spec fn effective(self, t: TripletView, now: nat) -> ListingStatus {
        let k = self.key(t);
        if !self.entries.contains_key(k) {
            ListingStatus::Grey
        } else {
            let e = self.entries[k];
            if e.status == ListingStatus::Grey && self.in_window(e.meta.first_seen, now) {
                ListingStatus::White
            } else {
                e.status
            }
        }
    }

    /// The registry after `t` was set to `status` by hand at `now`: a new
    /// entry has a count of zero; a known one keeps its triplet, its first
    /// time and its count. No counter changes.
    pub open spec fn set(self, t: TripletView, status: ListingStatus, now: nat) -> Registry {
        let k = self.key(t);
        let e = if self.entries.contains_key(k) {
            let old = self.entries[k];
            EntryView {
                triplet: old.triplet,
                status,
                meta: MetaView { last_seen: now, ..old.meta },
            }
        } else {
            EntryView {
                triplet: t,
                status,
                meta: MetaView { last_seen: now, first_seen: now, count: 0 },
            }
        };
        self.with_entries(self.entries.insert(k, e))
    }

    /// The registry without the entry of `t`.
    pub open spec fn delete(self, t: TripletView) -> Registry {
        self.with_entries(self.entries.remove(self.key(t)))
    }

    /// Whether the entry `e` has expired at `now`: a grey one when more than
    /// `retry_max` has passed since it was first seen, a white or black one
    /// when more than `expire` has passed since it was last seen.
    pub open spec fn expired(self, e: EntryView, now: nat) -> bool {
        if e.status == ListingStatus::Grey {
            self.stale(e.meta.first_seen, now)
        } else {
            elapsed(now, e.meta.last_seen) > secs_to_nanos(self.expire)
        }
    }

    /// The registry without the entries that have expired at `now`.
    pub open spec fn prune(self, now: nat) -> Registry {
        self.without(|e: EntryView| self.expired(e, now))
    }

    /// The registry without the entries that `gone` holds of.
    pub open spec fn without(self, gone: spec_fn(EntryView) -> bool) -> Registry {
        self.with_entries(
            Map::new(
                |k: u64| self.entries.contains_key(k) && !gone(self.entries[k]),
                |k: u64| self.entries[k],
            ),
        )
    }

    /// The registry as it is after it was saved at `now`: without the
    /// entries that have expired, and last saved at `now`.
    pub open spec fn saved(self, now: nat) -> Registry {
        self.prune(now).with_stats(StatsView { lastsave: now, ..self.stats })
    }

    /// Counters of a registry that starts at `now`: nothing counted, never
    /// saved.
    pub open spec fn fresh_stats(now: nat) -> StatsView {
        StatsView { white: 0, grey: 0, black: 0, start: now, lastsave: 0 }
    }

    /// The registry without the entries listed under one of `statuses`; with
    /// no status named, without any entry and with fresh counters.
    pub open spec fn clear(self, statuses: Seq<ListingStatus>, now: nat) -> Registry {
        if statuses.len() == 0 {
            Registry { entries: Map::empty(), stats: Self::fresh_stats(now), ..self }
        } else {
            self.without(|e: EntryView| statuses.contains(e.status))
        }
    }
}

/// A triplet that has no entry is grey after its first deciding request, with
/// a count of one and both times at that request.
pub proof fn lemma_first_update_is_grey(reg: Registry, t: TripletView, now: nat)
    requires
        reg.stored(t).is_none(),
    ensures
        reg.update(t, now).stored(t) == Some(ListingStatus::Grey),
        reg.update(t, now).entries[reg.key(t)].meta == (MetaView {
            last_seen: now,
            first_seen: now,
            count: 1,
        }),
        reg.update(t, now).stats.grey == bump(reg.stats.grey),
{
}

/// A grey triplet that is observed again when at least `retry_min` and at
/// most `retry_max` have passed since it was first seen becomes white.
pub proof fn lemma_retry_in_window_promotes(reg: Registry, t: TripletView, now: nat)
    requires
        reg.stored(t) == Some(ListingStatus::Grey),
        reg.in_window(reg.entries[reg.key(t)].meta.first_seen, now),
    ensures
        reg.update(t, now).stored(t) == Some(ListingStatus::White),
        reg.update(t, now).stats.white == bump(reg.stats.white),
        reg.update(t, now).entries[reg.key(t)].meta.first_seen
            == reg.entries[reg.key(t)].meta.first_seen,
{
}

/// A grey triplet that is observed again before `retry_min` has passed stays
/// grey, and its clock runs on.
pub proof fn lemma_early_retry_stays_grey(reg: Registry, t: TripletView, now: nat)
    requires
        reg.stored(t) == Some(ListingStatus::Grey),
        elapsed(now, reg.entries[reg.key(t)].meta.first_seen) < secs_to_nanos(reg.retry_min),
        !reg.stale(reg.entries[reg.key(t)].meta.first_seen, now),
    ensures
        reg.update(t, now).stored(t) == Some(ListingStatus::Grey),
        reg.update(t, now).entries[reg.key(t)].meta.first_seen
            == reg.entries[reg.key(t)].meta.first_seen,
        reg.update(t, now).stats == reg.stats,
{
}

/// A grey triplet that is observed again when more than `retry_max` has
/// passed since it was first seen stays grey, and its clock starts again.
pub proof fn lemma_late_retry_restarts(reg: Registry, t: TripletView, now: nat)
    requires
        reg.stored(t) == Some(ListingStatus::Grey),
        reg.stale(reg.entries[reg.key(t)].meta.first_seen, now),
    ensures
        reg.update(t, now).stored(t) == Some(ListingStatus::Grey),
        reg.update(t, now).entries[reg.key(t)].meta.first_seen == now,
        reg.update(t, now).stats == reg.stats,
{
}

/// A white or black triplet keeps its listing whenever it is observed.
pub proof fn lemma_listed_stays(reg: Registry, t: TripletView, now: nat)
    requires
        reg.stored(t).is_some(),
        reg.stored(t) != Some(ListingStatus::Grey),
    ensures
        reg.update(t, now).stored(t) == reg.stored(t),
        reg.update(t, now).stats == reg.stats,
{
}

/// Every deciding request counts: the entry is seen at that request, and its
/// count goes up by one. No other entry changes.
pub proof fn lemma_update_counts(reg: Registry, t: TripletView, now: nat)
    requires
        reg.stored(t).is_some(),
    ensures
        reg.update(t, now).entries[reg.key(t)].meta.last_seen == now,
        reg.update(t, now).entries[reg.key(t)].meta.count == bump(
            reg.entries[reg.key(t)].meta.count,
        ),
        reg.update(t, now).entries.remove(reg.key(t)) == reg.entries.remove(reg.key(t)),
{
    assert(reg.update(t, now).entries.remove(reg.key(t)) =~= reg.entries.remove(reg.key(t)));
}

/// To set a triplet by hand lists it as asked and sees it at that time; a
/// new entry starts with a count of zero, a known one keeps its triplet, its
/// first time and its count. No other entry and no counter changes.
pub proof fn lemma_set(reg: Registry, t: TripletView, status: ListingStatus, now: nat)
    ensures
        reg.set(t, status, now).stored(t) == Some(status),
        reg.set(t, status, now).entries[reg.key(t)].meta.last_seen == now,
        reg.stored(t).is_none() ==> reg.set(t, status, now).entries[reg.key(t)] == (EntryView {
            triplet: t,
            status,
            meta: MetaView { last_seen: now, first_seen: now, count: 0 },
        }),
        reg.stored(t).is_some() ==> reg.set(t, status, now).entries[reg.key(t)] == (EntryView {
            status,
            meta: MetaView { last_seen: now, ..reg.entries[reg.key(t)].meta },
            ..reg.entries[reg.key(t)]
        }),
        reg.set(t, status, now).entries.remove(reg.key(t)) == reg.entries.remove(reg.key(t)),
        reg.set(t, status, now).stats == reg.stats,
{
    assert(reg.set(t, status, now).entries.remove(reg.key(t)) =~= reg.entries.remove(reg.key(t)));
}

/// To delete a triplet removes its entry and nothing else.
pub proof fn lemma_delete(reg: Registry, t: TripletView)
    ensures
        reg.delete(t).stored(t).is_none(),
        reg.delete(t).entries == reg.entries.remove(reg.key(t)),
        reg.delete(t).stats == reg.stats,
{
}

/// Pruning removes the entries that have expired and no others, and leaves
/// the entries that stay as they are.
pub proof fn lemma_prune(reg: Registry, now: nat, k: u64)
    requires
        reg.entries.contains_key(k),
    ensures
        reg.prune(now).entries.contains_key(k) <==> !reg.expired(reg.entries[k], now),
        reg.prune(now).entries.contains_key(k) ==> reg.prune(now).entries[k] == reg.entries[k],
        reg.prune(now).entries.dom().subset_of(reg.entries.dom()),
        reg.prune(now).stats == reg.stats,
{
}

/// A grey entry is pruned when more than `retry_max` has passed since it was
/// first seen; a white or black one when more than `expire` has passed since
/// it was last seen.
pub proof fn lemma_prune_removes_expired(reg: Registry, now: nat, k: u64)
    requires
        reg.entries.contains_key(k),
        if reg.entries[k].status == ListingStatus::Grey {
            elapsed(now, reg.entries[k].meta.first_seen) > secs_to_nanos(reg.retry_max)
        } else {
            elapsed(now, reg.entries[k].meta.last_seen) > secs_to_nanos(reg.expire)
        },
    ensures
        !reg.prune(now).entries.contains_key(k),
{
}

/// An entry that has not expired at either of two times is there after the
/// registry was pruned at the one time and then at the other.
pub proof fn lemma_prune_keeps_unexpired(reg: Registry, first: nat, second: nat, k: u64)
    requires
        reg.entries.contains_key(k),
        !reg.expired(reg.entries[k], first),
        !reg.expired(reg.entries[k], second),
    ensures
        reg.prune(first).prune(second).entries.contains_key(k),
        reg.prune(first).prune(second).entries[k] == reg.entries[k],
{
    let once = reg.prune(first);
    assert(once.entries.contains_key(k));
    assert(once.entries[k] == reg.entries[k]);
    assert(once.expired(once.entries[k], second) == reg.expired(reg.entries[k], second));
}

/// To prune twice at one time is to prune once.
pub proof fn lemma_prune_idempotent(reg: Registry, now: nat)
    ensures
        reg.prune(now).prune(now) == reg.prune(now),
{
    let once = reg.prune(now);
    assert forall|k: u64| once.entries.contains_key(k) implies !once.expired(
        once.entries[k],
        now,
    ) by {
        assert(once.expired(once.entries[k], now) == reg.expired(reg.entries[k], now));
    }
    assert(once.prune(now).entries =~= once.entries);
}

/// The rules keep a registry well formed.
pub proof fn lemma_rules_keep_wf(
    reg: Registry,
    t: TripletView,
    status: ListingStatus,
    statuses: Seq<ListingStatus>,
    now: nat,
)
    requires
        reg.wf(),
        triplet_valid(t),
    ensures
        reg.update(t, now).wf(),
        reg.set(t, status, now).wf(),
        reg.delete(t).wf(),
        reg.prune(now).wf(),
        reg.clear(statuses, now).wf(),
        reg.saved(now).wf(),
{
    assert(reg.prune(now).entries.dom().subset_of(reg.entries.dom()));
    vstd::set_lib::lemma_len_subset(reg.prune(now).entries.dom(), reg.entries.dom());
    assert(reg.clear(statuses, now).entries.dom().subset_of(reg.entries.dom()));
    vstd::set_lib::lemma_len_subset(reg.clear(statuses, now).entries.dom(), reg.entries.dom());
    assert(reg.saved(now).entries == reg.prune(now).entries);
}

} // verus!
