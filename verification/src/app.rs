//! The registry of the daemon: the entries by identity key, the counters and
//! the configuration, with the operations that requests are made of.

use crate::config::Config;
use crate::decimal::{push_decimal, render_decimal};
use crate::entry::{GreylistEntry, StoredStatistics};
use crate::persist::{
    bucket, entry_seq, index_entries, lines, triplet_lines, Snapshot, StoredStates,
};
use crate::registry::{bump, enumerates, EntryView, Registry};
use crate::report::{
    add_requests, is_enumeration, is_listing, listed_rows, mrtg_text, push_padded, reports,
    row_of, row_text, row_views, rows_of, rows_text, shown, table_text, tables_text, tallies,
    Row, RowView, StatsReport, Tally,
};
use crate::status::{ListingStatus, TripletStatus};
use crate::text::{append_str, string_of};
use crate::time::{at_least, clock, longer_than, Timestamp};
use crate::triplet::{identity, triplet_valid, Triplet};
use std::collections::HashMap;
use vstd::prelude::*;
use vstd::set::fold::is_fun_commutative;

verus! {

broadcast use vstd::std_specs::hash::group_hash_axioms;

/// The registry of the daemon.
pub struct App {
    config: Config,
    triplets: HashMap<u64, GreylistEntry>,
    statistics: StoredStatistics,
}

/// The entries of a table as plain values.
pub open spec fn entry_views(m: Map<u64, GreylistEntry>) -> Map<u64, EntryView> {
    m.map_values(|e: GreylistEntry| e@)
}

/// One more than `n`, up to the largest value.
fn bumped(n: u32) -> (r: u32)
    ensures
        r == bump(n as nat),
{
    if n < u32::MAX {
        n + 1
    } else {
        n
    }
}

/// Whether `status` is one of `statuses`.
pub fn is_listed(statuses: &Vec<ListingStatus>, status: ListingStatus) -> (b: bool)
    ensures
        b == statuses@.contains(status),
{
    let mut i: usize = 0;
    while i < statuses.len()
        invariant
            i <= statuses.len(),
            forall|j: int| 0 <= j < i ==> statuses@[j] != status,
        decreases statuses.len() - i,
    {
        if statuses[i] == status {
            return true;
        }
        i += 1;
    }
    false
}

/// Which entries a pass over the registry takes away.
enum Sweep<'a> {
    /// Those that have expired at the given time.
    Expired(Timestamp),
    /// Those listed under one of the given statuses.
    Listed(&'a Vec<ListingStatus>),
}

impl<'a> Sweep<'a> {
    /// The entries of `reg` that the sweep takes away.
    spec fn takes(self, reg: Registry) -> spec_fn(EntryView) -> bool {
        match self {
            Sweep::Expired(now) => |e: EntryView| reg.expired(e, now@),
            Sweep::Listed(statuses) => |e: EntryView| statuses@.contains(e.status),
        }
    }
}

impl View for App {
    type V = Registry;

    closed spec fn view(&self) -> Registry {
        Registry {
            entries: entry_views(self.triplets@),
            stats: self.statistics@,
            retry_min: self.config.timeouts.retry_min as nat,
            retry_max: self.config.timeouts.retry_max as nat,
            expire: self.config.timeouts.expire as nat,
            update: self.config.data.update as nat,
            only_subnet: self.config.data.onlysubnet,
        }
    }
}

/// Why a configuration cannot be served.
#[derive(Clone, Copy, Debug, PartialEq, Eq, Structural)]
pub enum ConfigError {
    /// The text of the triplets is not kept.
    TripletsNotSaved,
    /// Entries of the address alone are asked for.
    SingleModes,
}

/// What stands against serving with these three switches, if anything: the
/// text of the triplets must be kept, and entries of the address alone are
/// not on offer.
pub open spec fn config_error(savetriplets: bool, singleupdate: bool, singlecheck: bool) -> Option<
    ConfigError,
> {
    if !savetriplets {
        Some(ConfigError::TripletsNotSaved)
    } else if singleupdate || singlecheck {
        Some(ConfigError::SingleModes)
    } else {
        None
    }
}

impl App {
    /// What holds of every registry that this library hands out: see
    /// `Registry::wf`.
    pub open spec fn wf(&self) -> bool {
        self@.wf()
    }

    /// The registry of the entries `entries` with the counters `statistics`,
    /// under the configuration `config`; the error where the configuration
    /// cannot be served.
    pub fn new(config: Config, entries: Vec<GreylistEntry>, statistics: StoredStatistics) -> (r:
        Result<App, ConfigError>)
        ensures
            match r {
                Ok(app) => {
                    &&& config_error(
                        config.data.savetriplets,
                        config.data.singleupdate,
                        config.data.singlecheck,
                    ).is_none()
                    &&& app.wf()
                    &&& app@ == (Registry {
                        entries: index_entries(entry_seq(entries@), config.data.onlysubnet),
                        stats: statistics@,
                        retry_min: config.timeouts.retry_min as nat,
                        retry_max: config.timeouts.retry_max as nat,
                        expire: config.timeouts.expire as nat,
                        update: config.data.update as nat,
                        only_subnet: config.data.onlysubnet,
                    })
                },
                Err(e) => config_error(
                    config.data.savetriplets,
                    config.data.singleupdate,
                    config.data.singlecheck,
                ) == Some(e),
            },
    {
        if !config.data.savetriplets {
            return Err(ConfigError::TripletsNotSaved);
        }
        if config.data.singleupdate || config.data.singlecheck {
            return Err(ConfigError::SingleModes);
        }
        let only_subnet = config.data.onlysubnet;
        let mut triplets: HashMap<u64, GreylistEntry> = HashMap::new();
        let ghost all = entry_seq(entries@);
        let mut i: usize = 0;
        assert(all.take(0) =~= Seq::<EntryView>::empty());
        assert(entry_views(triplets@) =~= Map::<u64, EntryView>::empty());
        while i < entries.len()
            invariant
                i <= entries.len(),
                all == entry_seq(entries@),
                entry_views(triplets@) == index_entries(all.take(i as int), only_subnet),
                forall|k: u64| #[trigger]
                    triplets@.contains_key(k) ==> identity(triplets@[k]@.triplet, only_subnet) == k
                        && triplet_valid(triplets@[k]@.triplet),
            decreases entries.len() - i,
        {
            let triplet = entries[i].triplet.clone();
            let key = triplet.hash(only_subnet);
            let entry = GreylistEntry {
                triplet,
                triplet_status: entries[i].triplet_status,
                listing_status: entries[i].listing_status,
            };
            proof {
                use_type_invariant(&entry.triplet);
                let t = all.take(i + 1);
                assert(t.drop_last() =~= all.take(i as int));
                assert(t.last() == entries@[i as int]@);
                assert(entry@ == entries@[i as int]@);
                assert(entry_views(triplets@.insert(key, entry)) =~= entry_views(triplets@).insert(
                    key,
                    entry@,
                ));
            }
            triplets.insert(key, entry);
            i += 1;
        }
        assert(all.take(entries.len() as int) =~= all);
        assert(entry_views(triplets@).dom() =~= triplets@.dom());
        Ok(App { config, triplets, statistics })
    }

    /// Makes the registry ready to be written at `now` and returns what is
    /// to be written: removes the entries that have expired, notes `now` as
    /// the time of the last save, and lists what is left.
    pub fn save_at(&mut self, now: Timestamp) -> (snapshot: Snapshot)
        requires
            old(self).wf(),
        ensures
            final(self).wf(),
            final(self)@ == old(self)@.saved(now@),
            snapshot@.of(final(self)@),
    {
        self.prune_expired_entries_at(now);
        self.statistics.lastsave = now;
        let ks = self.keys();
        let ghost entries = self@.entries;
        let mut triplets: Vec<(String, String)> = Vec::new();
        let mut white: Vec<(String, String)> = Vec::new();
        let mut grey: Vec<(String, String)> = Vec::new();
        let mut black: Vec<(String, String)> = Vec::new();
        let mut i: usize = 0;
        proof {
            assert(ks@.take(0) =~= Seq::<u64>::empty());
            assert(lines(triplets@) =~= triplet_lines(entries, ks@.take(0)));
            assert(lines(white@) =~= bucket(entries, ks@.take(0), ListingStatus::White));
            assert(lines(grey@) =~= bucket(entries, ks@.take(0), ListingStatus::Grey));
            assert(lines(black@) =~= bucket(entries, ks@.take(0), ListingStatus::Black));
        }
        while i < ks.len()
            invariant
                i <= ks.len(),
                entries == self@.entries,
                ks@.to_set() == entries.dom(),
                lines(triplets@) == triplet_lines(entries, ks@.take(i as int)),
                lines(white@) == bucket(entries, ks@.take(i as int), ListingStatus::White),
                lines(grey@) == bucket(entries, ks@.take(i as int), ListingStatus::Grey),
                lines(black@) == bucket(entries, ks@.take(i as int), ListingStatus::Black),
            decreases ks.len() - i,
        {
            let k = ks[i];
            proof {
                assert(ks@.take(i + 1).drop_last() =~= ks@.take(i as int));
                assert(ks@.take(i + 1).last() == k);
                assert(ks@.to_set().contains(k));
                assert(self.triplets@.contains_key(k));
            }
            match self.triplets.get(&k) {
                Some(entry) => {
                    let key = string_of(&render_decimal(k as u128));
                    let text = entry.triplet.to_string();
                    let record = (key.clone(), entry.triplet_status.to_string());
                    proof {
                        assert(lines(triplets@.push((key, text))) =~= lines(triplets@).push(
                            (key@, text@),
                        ));
                        assert(triplet_lines(entries, ks@.take(i + 1)) =~= triplet_lines(
                            entries,
                            ks@.take(i as int),
                        ).push((key@, text@)));
                        assert(lines(white@.push(record)) =~= lines(white@).push((record.0@, record.1@)));
                        assert(lines(grey@.push(record)) =~= lines(grey@).push((record.0@, record.1@)));
                        assert(lines(black@.push(record)) =~= lines(black@).push((record.0@, record.1@)));
                    }
                    triplets.push((key, text));
                    match entry.listing_status {
                        ListingStatus::White => {
                            white.push(record);
                        },
                        ListingStatus::Grey => {
                            grey.push(record);
                        },
                        ListingStatus::Black => {
                            black.push(record);
                        },
                    }
                },
                None => {},
            }
            i += 1;
        }
        assert(ks@.take(ks.len() as int) =~= ks@);
        let statistics = StoredStatistics {
            white: self.statistics.white,
            grey: self.statistics.grey,
            black: self.statistics.black,
            start: self.statistics.start.truncated(),
            lastsave: self.statistics.lastsave.truncated(),
        };
        let snapshot = Snapshot { triplets, states: StoredStates { white, grey, black, statistics } };
        assert(snapshot@.holds(self@, ks@));
        snapshot
    }

    /// Makes the registry ready to be written at the time of the call and
    /// returns what is to be written.
    pub fn save(&mut self) -> (snapshot: Snapshot)
        requires
            old(self).wf(),
        ensures
            final(self).wf(),
            exists|now: nat| final(self)@ == old(self)@.saved(now),
            snapshot@.of(final(self)@),
    {
        let now = clock();
        let snapshot = self.save_at(now);
        assert(self@ == old(self)@.saved(now@));
        snapshot
    }

    /// The configuration of the registry.
    pub fn config(&self) -> (c: &Config)
        ensures
            c.timeouts.retry_min == self@.retry_min,
            c.timeouts.retry_max == self@.retry_max,
            c.timeouts.expire == self@.expire,
            c.data.update == self@.update,
            c.data.onlysubnet == self@.only_subnet,
    {
        &self.config
    }

    /// The counters of the registry.
    pub fn statistics(&self) -> (s: StoredStatistics)
        ensures
            s@ == self@.stats,
    {
        self.statistics
    }

    /// The number of entries.
    pub fn len(&self) -> (n: usize)
        ensures
            n == self@.entries.dom().len(),
    {
        assert(entry_views(self.triplets@).dom() =~= self.triplets@.dom());
        self.triplets.len()
    }

    /// The identity keys of all entries, each once, in the order in which
    /// the table hands them out.
    pub fn keys(&self) -> (ks: Vec<u64>)
        ensures
            ks@.no_duplicates(),
            ks@.to_set() == self@.entries.dom(),
    {
        let mut ks: Vec<u64> = Vec::new();
        for k in it: self.triplets.keys()
            invariant
                ks@ == it.seq().take(it.index() as int).unref(),
                it.seq().unref().to_set() == self.triplets@.dom(),
                it.seq().no_duplicates(),
                it.index() == it.seq().len() ==> ks@ =~= it.seq().unref(),
        {
            ks.push(*k);
        }
        assert(entry_views(self.triplets@).dom() =~= self.triplets@.dom());
        ks
    }

    /// Whether `entry` has expired at `now`.
    fn is_expired(&self, entry: &GreylistEntry, now: &Timestamp) -> (b: bool)
        ensures
            b == self@.expired(entry@, now@),
    {
        if entry.listing_status == ListingStatus::Grey {
            longer_than(now, &entry.triplet_status.first_seen, self.config.timeouts.retry_max)
        } else {
            longer_than(now, &entry.triplet_status.last_seen, self.config.timeouts.expire)
        }
    }

    /// Whether the sweep `sweep` takes `entry` away.
    fn is_swept(&self, sweep: &Sweep, entry: &GreylistEntry) -> (b: bool)
        ensures
            b == sweep.takes(self@)(entry@),
    {
        match sweep {
            Sweep::Expired(now) => self.is_expired(entry, now),
            Sweep::Listed(statuses) => is_listed(statuses, entry.listing_status),
        }
    }

    /// Removes the entries that `sweep` takes away.
    fn sweep(&mut self, sweep: &Sweep)
        requires
            old(self).wf(),
        ensures
            final(self).wf(),
            final(self)@ == old(self)@.without(sweep.takes(old(self)@)),
    {
        let ks = self.keys();
        let ghost before = self.triplets@;
        let ghost reg = self@;
        let ghost gone = sweep.takes(reg);
        let mut i: usize = 0;
        while i < ks.len()
            invariant
                i <= ks.len(),
                ks@.to_set() == before.dom(),
                gone == sweep.takes(reg),
                reg.wf(),
                reg == (Registry { entries: entry_views(before), ..self@ }),
                self@.stats == reg.stats,
                forall|k: u64| #[trigger]
                    self.triplets@.contains_key(k) ==> before.contains_key(k) && self.triplets@[k]
                        == before[k],
                forall|k: u64|
                    before.contains_key(k) && !(#[trigger] self.triplets@.contains_key(k)) ==> gone(
                        before[k]@,
                    ),
                forall|j: int|
                    0 <= j < i && gone(before[#[trigger] ks@[j]]@) ==> !self.triplets@.contains_key(
                        ks@[j],
                    ),
            decreases ks.len() - i,
        {
            let k = ks[i];
            let ghost current = self.triplets@;
            let take = match self.triplets.get(&k) {
                Some(entry) => self.is_swept(sweep, entry),
                None => false,
            };
            if take {
                self.triplets.remove(&k);
                assert(self.triplets@ == current.remove(k));
            }
            i += 1;
        }
        proof {
            let after = reg.without(gone).entries;
            assert forall|k: u64| after.contains_key(k) implies entry_views(
                self.triplets@,
            ).contains_key(k) by {
                assert(before.contains_key(k));
                assert(ks@.to_set().contains(k));
                let j = choose|j: int| 0 <= j < ks@.len() && ks@[j] == k;
                assert(ks@[j] == k);
            }
            assert(entry_views(self.triplets@) =~= after);
            assert(entry_views(self.triplets@).dom() =~= self.triplets@.dom());
        }
    }

    /// Removes the entries that have expired at `now`.
    pub fn prune_expired_entries_at(&mut self, now: Timestamp)
        requires
            old(self).wf(),
        ensures
            final(self).wf(),
            final(self)@ == old(self)@.prune(now@),
    {
        let ghost reg = self@;
        self.sweep(&Sweep::Expired(now));
        assert(self@.entries =~= reg.prune(now@).entries);
    }

    /// Removes the entries that have expired at the time of the call.
    pub fn prune_expired_entries(&mut self)
        requires
            old(self).wf(),
        ensures
            final(self).wf(),
            exists|now: nat| final(self)@ == old(self)@.prune(now),
    {
        let now = clock();
        self.prune_expired_entries_at(now);
        assert(self@ == old(self)@.prune(now@));
    }

    /// Removes the entries listed under one of `statuses`. With no status
    /// named, removes every entry and starts the counters again at `now`.
    pub fn clear_at(&mut self, statuses: &Vec<ListingStatus>, now: Timestamp)
        requires
            old(self).wf(),
        ensures
            final(self).wf(),
            final(self)@ == old(self)@.clear(statuses@, now@),
    {
        let ghost reg = self@;
        if statuses.len() == 0 {
            self.triplets.clear();
            self.statistics = StoredStatistics::starting_at(now);
            assert(entry_views(self.triplets@) =~= Map::<u64, EntryView>::empty());
        } else {
            self.sweep(&Sweep::Listed(statuses));
            assert(self@.entries =~= reg.clear(statuses@, now@).entries);
        }
    }

    /// Appends the rows of the entries listed under `status` to `v`, in the
    /// order of `ks`.
    fn push_rows(&self, v: &mut Vec<char>, ks: &Vec<u64>, status: ListingStatus)
        ensures
            final(v)@ == old(v)@ + rows_text(self@.entries, ks@, status),
    {
        let mut i: usize = 0;
        assert(ks@.take(0) =~= Seq::<u64>::empty());
        assert(v@ =~= old(v)@ + rows_text(self@.entries, ks@.take(0), status));
        while i < ks.len()
            invariant
                i <= ks.len(),
                v@ == old(v)@ + rows_text(self@.entries, ks@.take(i as int), status),
            decreases ks.len() - i,
        {
            let ghost before = v@;
            proof {
                assert(ks@.take(i + 1).drop_last() =~= ks@.take(i as int));
                assert(ks@.take(i + 1).last() == ks@[i as int]);
            }
            match self.triplets.get(&ks[i]) {
                Some(entry) => {
                    if entry.listing_status == status {
                        let last = render_decimal(entry.triplet_status.last_seen.as_secs() as u128);
                        push_padded(v, &last, 20);
                        v.push(' ');
                        let count = render_decimal(entry.triplet_status.count as u128);
                        push_padded(v, &count, 10);
                        v.push(' ');
                        append_str(v, entry.triplet.to_string().as_str());
                        v.push('\n');
                        assert(v@ =~= before + row_text(entry@));
                    }
                },
                None => {},
            }
            assert(v@ =~= old(v)@ + rows_text(self@.entries, ks@.take(i + 1), status));
            i += 1;
        }
        assert(ks@.take(ks.len() as int) =~= ks@);
    }

    /// Appends the rows of the entries listed under `status` to `rows`, in
    /// the order of `ks`.
    fn push_entries(&self, rows: &mut Vec<Row>, ks: &Vec<u64>, status: ListingStatus)
        ensures
            row_views(final(rows)@) == row_views(old(rows)@) + rows_of(self@.entries, ks@, status),
    {
        let mut i: usize = 0;
        assert(ks@.take(0) =~= Seq::<u64>::empty());
        assert(row_views(rows@) =~= row_views(old(rows)@) + rows_of(
            self@.entries,
            ks@.take(0),
            status,
        ));
        while i < ks.len()
            invariant
                i <= ks.len(),
                row_views(rows@) == row_views(old(rows)@) + rows_of(
                    self@.entries,
                    ks@.take(i as int),
                    status,
                ),
            decreases ks.len() - i,
        {
            let ghost before = rows@;
            proof {
                assert(ks@.take(i + 1).drop_last() =~= ks@.take(i as int));
                assert(ks@.take(i + 1).last() == ks@[i as int]);
            }
            match self.triplets.get(&ks[i]) {
                Some(entry) => {
                    if entry.listing_status == status {
                        let row = Row {
                            status,
                            last_seen: entry.triplet_status.last_seen.as_secs(),
                            count: entry.triplet_status.count,
                            triplet: entry.triplet.to_string(),
                        };
                        rows.push(row);
                        assert(row_views(rows@) =~= row_views(before).push(row_of(entry@)));
                    }
                },
                None => {},
            }
            assert(row_views(rows@) =~= row_views(old(rows)@) + rows_of(
                self@.entries,
                ks@.take(i + 1),
                status,
            ));
            i += 1;
        }
        assert(ks@.take(ks.len() as int) =~= ks@);
    }

    /// The entries listed under `statuses`, and all entries where
    /// `statuses` is empty: one status after the other, white, grey and
    /// black where none is named.
    pub fn enumerate(&self, statuses: &Vec<ListingStatus>) -> (rows: Vec<Row>)
        ensures
            is_enumeration(self@.entries, statuses@, row_views(rows@)),
    {
        let ks = self.keys();
        let mut all: Vec<ListingStatus> = Vec::new();
        all.push(ListingStatus::White);
        all.push(ListingStatus::Grey);
        all.push(ListingStatus::Black);
        let wanted: &Vec<ListingStatus> = if statuses.len() == 0 {
            &all
        } else {
            statuses
        };
        assert(wanted@ =~= shown(statuses@));
        let mut rows: Vec<Row> = Vec::new();
        let mut i: usize = 0;
        assert(wanted@.take(0) =~= Seq::<ListingStatus>::empty());
        assert(row_views(rows@) =~= Seq::<RowView>::empty());
        while i < wanted.len()
            invariant
                i <= wanted.len(),
                row_views(rows@) == listed_rows(self@.entries, ks@, wanted@.take(i as int)),
            decreases wanted.len() - i,
        {
            proof {
                assert(wanted@.take(i + 1).drop_last() =~= wanted@.take(i as int));
                assert(wanted@.take(i + 1).last() == wanted@[i as int]);
            }
            self.push_entries(&mut rows, &ks, wanted[i]);
            i += 1;
        }
        assert(wanted@.take(wanted.len() as int) =~= wanted@);
        assert(enumerates(ks@, self@.entries) && row_views(rows@) == listed_rows(
            self@.entries,
            ks@,
            shown(statuses@),
        ));
        rows
    }

    /// The tables of the entries listed under `statuses`, and of all entries
    /// where `statuses` is empty.
    pub fn list(&self, statuses: &Vec<ListingStatus>) -> (text: String)
        ensures
            is_listing(self@.entries, statuses@, text@),
    {
        let ks = self.keys();
        let mut all: Vec<ListingStatus> = Vec::new();
        all.push(ListingStatus::White);
        all.push(ListingStatus::Grey);
        all.push(ListingStatus::Black);
        let wanted: &Vec<ListingStatus> = if statuses.len() == 0 {
            &all
        } else {
            statuses
        };
        assert(wanted@ =~= shown(statuses@));
        let mut v: Vec<char> = Vec::new();
        let mut i: usize = 0;
        assert(wanted@.take(0) =~= Seq::<ListingStatus>::empty());
        while i < wanted.len()
            invariant
                i <= wanted.len(),
                v@ == tables_text(self@.entries, ks@, wanted@.take(i as int)),
            decreases wanted.len() - i,
        {
            let ghost before = v@;
            let status = wanted[i];
            proof {
                assert(wanted@.take(i + 1).drop_last() =~= wanted@.take(i as int));
                assert(wanted@.take(i + 1).last() == status);
            }
            append_str(&mut v, status.to_string().as_str());
            append_str(&mut v, "list data:\n");
            append_str(&mut v, "=============\n");
            append_str(&mut v, "Last Seen            Count      Data\n");
            self.push_rows(&mut v, &ks, status);
            v.push('\n');
            assert(v@ =~= before + table_text(self@.entries, ks@, status));
            i += 1;
        }
        assert(wanted@.take(wanted.len() as int) =~= wanted@);
        let text = string_of(&v);
        assert(enumerates(ks@, self@.entries) && text@ == tables_text(
            self@.entries,
            ks@,
            shown(statuses@),
        ));
        text
    }

    /// How many entries are listed under `status`, and the sum of their
    /// counts.
    pub fn tally(&self, status: ListingStatus) -> (t: Tally)
        ensures
            tallies(t, self@.entries, status),
    {
        let ks = self.keys();
        let ghost entries = self@.entries;
        let ghost listed = |k: u64| entries[k].status == status;
        let ghost f = add_requests(entries, status);
        let mut items: usize = 0;
        let mut sum: u128 = 0;
        let mut i: usize = 0;
        proof {
            assert(ks@.take(0).to_set() =~= Set::<u64>::empty());
            assert(Set::<u64>::empty().filter(listed) =~= Set::<u64>::empty());
            vstd::set::fold::lemma_fold_empty(0nat, f);
        }
        while i < ks.len()
            invariant
                i <= ks.len(),
                ks@.no_duplicates(),
                ks@.to_set() == entries.dom(),
                entries == self@.entries,
                listed == (|k: u64| entries[k].status == status),
                f == add_requests(entries, status),
                items == ks@.take(i as int).to_set().filter(listed).len(),
                items <= i,
                sum == ks@.take(i as int).to_set().fold(0nat, f),
                sum <= i * 0xffff_ffff,
            decreases ks.len() - i,
        {
            let k = ks[i];
            proof {
                let seen = ks@.take(i as int).to_set();
                assert(ks@.take(i + 1) =~= ks@.take(i as int).push(k));
                ks@.take(i as int).lemma_push_to_set_commute(k);
                assert(ks@.take(i + 1).to_set() =~= seen.insert(k));
                assert(!seen.contains(k)) by {
                    if seen.contains(k) {
                        let j = choose|j: int| 0 <= j < i && ks@.take(i as int)[j] == k;
                        assert(ks@[j] == ks@[i as int]);
                    }
                }
                vstd::seq_lib::seq_to_set_is_finite(ks@.take(i as int));
                assert(is_fun_commutative(f)) by {
                    assert forall|a1: u64, a2: u64, b: nat| #[trigger] f(f(b, a2), a1) == f(f(b, a1), a2) by {}
                }
                vstd::set::fold::lemma_fold_insert(seen, 0nat, f, k);
                seen.lemma_len_filter(listed);
                if listed(k) {
                    assert(seen.insert(k).filter(listed) =~= seen.filter(listed).insert(k));
                } else {
                    assert(seen.insert(k).filter(listed) =~= seen.filter(listed));
                }
                assert(ks@.to_set().contains(k));
                assert(self.triplets@.contains_key(k));
            }
            match self.triplets.get(&k) {
                Some(entry) => {
                    if entry.listing_status == status {
                        items += 1;
                        sum += entry.triplet_status.count as u128;
                    }
                },
                None => {},
            }
            i += 1;
        }
        assert(ks@.take(ks.len() as int) =~= ks@);
        Tally { items, requests: sum }
    }

    /// The figures of the statistics at `now`.
    pub fn stats_at(&self, now: Timestamp) -> (report: StatsReport)
        ensures
            reports(report, self@, now@),
    {
        let white = self.tally(ListingStatus::White);
        let grey = self.tally(ListingStatus::Grey);
        let black = self.tally(ListingStatus::Black);
        let previous_grey: i128 = self.statistics.grey as i128 - grey.items as i128;
        StatsReport {
            start: self.statistics.start.as_secs(),
            uptime: now.secs_since(&self.statistics.start),
            white,
            grey,
            black,
            previous_grey,
            whitelisted: self.statistics.white,
            expired_grey: previous_grey - self.statistics.white as i128,
        }
    }

    /// Removes the entries that have expired at `now` and returns the four
    /// lines that a monitor reads.
    pub fn mrtg_at(&mut self, now: Timestamp) -> (text: String)
        requires
            old(self).wf(),
        ensures
            final(self).wf(),
            final(self)@ == old(self)@.prune(now@),
            text@ == mrtg_text(final(self)@, now@),
    {
        self.prune_expired_entries_at(now);
        let grey = self.tally(ListingStatus::Grey);
        let white = self.tally(ListingStatus::White);
        let uptime = now.secs_since(&self.statistics.start);
        let mut v: Vec<char> = Vec::new();
        push_decimal(&mut v, grey.items as u128);
        v.push('\n');
        push_decimal(&mut v, white.items as u128);
        v.push('\n');
        push_decimal(&mut v, uptime as u128);
        v.push('\n');
        append_str(&mut v, "hostname\n");
        assert(v@ =~= mrtg_text(self@, now@));
        string_of(&v)
    }

    /// The identity key of `triplet` in this registry.
    pub fn hash_triplet(&self, triplet: &Triplet) -> (key: u64)
        ensures
            key == self@.key(triplet@),
    {
        triplet.hash(self.config.data.onlysubnet)
    }

    /// The entry that stands under the identity key of `triplet`.
    pub fn get_entry(&self, triplet: &Triplet) -> (r: Option<&GreylistEntry>)
        ensures
            match r {
                Some(e) => self@.entries.contains_key(self@.key(triplet@)) && e@
                    == self@.entries[self@.key(triplet@)],
                None => !self@.entries.contains_key(self@.key(triplet@)),
            },
    {
        let key = self.hash_triplet(triplet);
        self.triplets.get(&key)
    }

    /// The listing under which `triplet` is stored, if it is known. Nothing
    /// changes and no time counts.
    pub fn status(&self, triplet: &Triplet) -> (r: Option<ListingStatus>)
        ensures
            r == self@.stored(triplet@),
    {
        match self.get_entry(triplet) {
            Some(e) => Some(e.listing_status),
            None => None,
        }
    }

    /// The listing that a check of `triplet` reports at `now`. Nothing
    /// changes.
    pub fn check_triplet_at(&self, triplet: &Triplet, now: Timestamp) -> (status: ListingStatus)
        ensures
            status == self@.effective(triplet@, now@),
    {
        match self.get_entry(triplet) {
            None => ListingStatus::Grey,
            Some(entry) => {
                let first = entry.triplet_status.first_seen;
                if entry.listing_status == ListingStatus::Grey && !longer_than(
                    &now,
                    &first,
                    self.config.timeouts.retry_max,
                ) && at_least(&now, &first, self.config.timeouts.retry_min) {
                    ListingStatus::White
                } else {
                    entry.listing_status
                }
            },
        }
    }

    /// The listing that a check of `triplet` reports at the time of the
    /// call.
    pub fn check_triplet(&self, triplet: &Triplet) -> (status: ListingStatus)
        ensures
            exists|now: nat| status == self@.effective(triplet@, now),
    {
        let now = clock();
        let status = self.check_triplet_at(triplet, now);
        assert(status == self@.effective(triplet@, now@));
        status
    }

    /// Sets `triplet` to `listing_status` by hand, at `now`, and returns its
    /// entry.
    pub fn add_triplet_at(&mut self, triplet: Triplet, listing_status: ListingStatus, now: Timestamp) -> (entry: &GreylistEntry)
        requires
            old(self).wf(),
        ensures
            final(self).wf(),
            final(self)@ == old(self)@.set(triplet@, listing_status, now@),
            entry@ == final(self)@.entries[final(self)@.key(triplet@)],
    {
        let key = self.hash_triplet(&triplet);
        let ghost before = self.triplets@;
        let entry = match self.triplets.remove(&key) {
            Some(mut entry) => {
                entry.triplet_status.last_seen = now;
                entry.listing_status = listing_status;
                entry
            },
            None => {
                proof {
                    use_type_invariant(&triplet);
                }
                GreylistEntry {
                    triplet,
                    listing_status,
                    triplet_status: TripletStatus { first_seen: now, last_seen: now, count: 0 },
                }
            },
        };
        self.triplets.insert(key, entry);
        proof {
            assert(self.triplets@ =~= before.insert(key, entry));
            assert(entry_views(self.triplets@) =~= entry_views(before).insert(key, entry@));
        }
        match self.triplets.get(&key) {
            Some(entry) => entry,
            None => vstd::pervasive::unreached(),
        }
    }

    /// Sets `triplet` to `listing_status` by hand, at the time of the call,
    /// and returns its entry.
    pub fn add_triplet(&mut self, triplet: Triplet, listing_status: ListingStatus) -> (entry:
        &GreylistEntry)
        requires
            old(self).wf(),
        ensures
            final(self).wf(),
            exists|now: nat| final(self)@ == old(self)@.set(triplet@, listing_status, now),
            entry@ == final(self)@.entries[final(self)@.key(triplet@)],
    {
        let now = clock();
        self.add_triplet_at(triplet, listing_status, now)
    }

    /// Takes a deciding request for `triplet` at `now` and returns its
    /// entry, which holds the listing that the request meets.
    pub fn add_or_update_triplet_at(&mut self, triplet: Triplet, now: Timestamp) -> (entry:
        &GreylistEntry)
        requires
            old(self).wf(),
        ensures
            final(self).wf(),
            final(self)@ == old(self)@.update(triplet@, now@),
            entry@ == final(self)@.entries[final(self)@.key(triplet@)],
            final(self)@.stored(triplet@) == Some(entry@.status),
    {
        let key = self.hash_triplet(&triplet);
        let ghost before = self.triplets@;
        let entry = match self.triplets.remove(&key) {
            Some(mut entry) => {
                let first = entry.triplet_status.first_seen;
                entry.triplet_status.last_seen = now;
                entry.triplet_status.count = bumped(entry.triplet_status.count);
                if entry.listing_status == ListingStatus::Grey {
                    if longer_than(&now, &first, self.config.timeouts.retry_max) {
                        entry.triplet_status.first_seen = now;
                    } else if at_least(&now, &first, self.config.timeouts.retry_min) {
                        self.statistics.white = bumped(self.statistics.white);
                        entry.listing_status = ListingStatus::White;
                    }
                }
                entry
            },
            None => {
                proof {
                    use_type_invariant(&triplet);
                }
                self.statistics.grey = bumped(self.statistics.grey);
                GreylistEntry {
                    triplet,
                    listing_status: ListingStatus::Grey,
                    triplet_status: TripletStatus { first_seen: now, last_seen: now, count: 1 },
                }
            },
        };
        self.triplets.insert(key, entry);
        proof {
            assert(self.triplets@ =~= before.insert(key, entry));
            assert(entry_views(self.triplets@) =~= entry_views(before).insert(key, entry@));
        }
        match self.triplets.get(&key) {
            Some(entry) => entry,
            None => vstd::pervasive::unreached(),
        }
    }

    /// Takes a deciding request for `triplet` at the time of the call and
    /// returns its entry, which holds the listing that the request meets.
    pub fn add_or_update_triplet(&mut self, triplet: Triplet) -> (entry: &GreylistEntry)
        requires
            old(self).wf(),
        ensures
            final(self).wf(),
            exists|now: nat| final(self)@ == old(self)@.update(triplet@, now),
            entry@ == final(self)@.entries[final(self)@.key(triplet@)],
            final(self)@.stored(triplet@) == Some(entry@.status),
    {
        let now = clock();
        self.add_or_update_triplet_at(triplet, now)
    }

    /// Removes the entry of `triplet` and returns the listing that it had.
    pub fn delete(&mut self, triplet: &Triplet) -> (r: Option<ListingStatus>)
        requires
            old(self).wf(),
        ensures
            final(self).wf(),
            final(self)@ == old(self)@.delete(triplet@),
            r == old(self)@.stored(triplet@),
    {
        let key = self.hash_triplet(triplet);
        let ghost before = self.triplets@;
        let removed = self.triplets.remove(&key);
        proof {
            assert(entry_views(self.triplets@) =~= entry_views(before).remove(key));
        }
        match removed {
            Some(entry) => Some(entry.listing_status),
            None => None,
        }
    }
}

} // verus!
