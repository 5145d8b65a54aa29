//! What the registry keeps between two runs: the text of each triplet and,
//! apart from it, the record of each triplet under its listing, both under
//! the identity key in decimal, and the counters in whole seconds.

use crate::decimal::{decimal, lemma_decimal};
use crate::entry::{GreylistEntry, StoredStatistics};
use crate::registry::{enumerates, EntryView, Registry, StatsView};
use crate::status::{
    lemma_status_round_trip, meta_fits, parse_status, status_text, truncate_meta, ListingStatus,
    MetaView, StatusError, TripletStatus,
};
use crate::time::whole_seconds;
use crate::triplet::{
    identity, lemma_triplet_reads_back, resolve_tokens, triplet_text, triplet_tokens, Triplet,
    TripletError, TripletView,
};
use vstd::prelude::*;

verus! {

/// A key beside a text.
pub type Line = (Seq<char>, Seq<char>);

/// The records of the triplets, one list for each listing, and the counters.
#[derive(Debug)]
pub struct StoredStates {
    pub white: Vec<(String, String)>,
    pub grey: Vec<(String, String)>,
    pub black: Vec<(String, String)>,
    pub statistics: StoredStatistics,
}

/// The stored records as plain values.
pub struct StatesView {
    pub white: Seq<Line>,
    pub grey: Seq<Line>,
    pub black: Seq<Line>,
    pub stats: StatsView,
}

/// The lines of a list as plain values.
pub open spec fn lines(v: Seq<(String, String)>) -> Seq<Line> {
    v.map_values(|l: (String, String)| (l.0@, l.1@))
}

impl View for StoredStates {
    type V = StatesView;

    open spec fn view(&self) -> StatesView {
        StatesView {
            white: lines(self.white@),
            grey: lines(self.grey@),
            black: lines(self.black@),
            stats: self.statistics@,
        }
    }
}

/// All that is written when the registry is saved: the text of each triplet
/// under its key, and the stored records.
#[derive(Debug)]
pub struct Snapshot {
    pub triplets: Vec<(String, String)>,
    pub states: StoredStates,
}

/// The record of each entry of `ks` that is listed under `status`: its key in
/// decimal and the stored form of its status, in the order of `ks`.
pub open spec fn bucket(entries: Map<u64, EntryView>, ks: Seq<u64>, status: ListingStatus) -> Seq<
    Line,
>
    decreases ks.len(),
{
    if ks.len() == 0 {
        Seq::empty()
    } else {
        let k = ks.last();
        let init = bucket(entries, ks.drop_last(), status);
        if entries.contains_key(k) && entries[k].status == status {
            init.push((decimal(k as nat), status_text(entries[k].meta)))
        } else {
            init
        }
    }
}

/// The text of the triplet of each entry of `ks` under its key in decimal.
pub open spec fn triplet_lines(entries: Map<u64, EntryView>, ks: Seq<u64>) -> Seq<Line> {
    Seq::new(ks.len(), |i: int| (decimal(ks[i] as nat), triplet_text(entries[ks[i]].triplet)))
}

/// The counters as they are stored: both times cut down to whole seconds.
pub open spec fn stored_stats(s: StatsView) -> StatsView {
    StatsView { start: whole_seconds(s.start), lastsave: whole_seconds(s.lastsave), ..s }
}

/// The stored records of `reg`, with the entries in the order of `ks`.
pub open spec fn states_of(reg: Registry, ks: Seq<u64>) -> StatesView {
    StatesView {
        white: bucket(reg.entries, ks, ListingStatus::White),
        grey: bucket(reg.entries, ks, ListingStatus::Grey),
        black: bucket(reg.entries, ks, ListingStatus::Black),
        stats: stored_stats(reg.stats),
    }
}

/// What is written as plain values.
pub struct SnapshotView {
    pub triplets: Seq<Line>,
    pub states: StatesView,
}

impl View for Snapshot {
    type V = SnapshotView;

    open spec fn view(&self) -> SnapshotView {
        SnapshotView { triplets: lines(self.triplets@), states: self.states@ }
    }
}

impl SnapshotView {
    /// Whether the keys `ks` name the entries of `reg` and this is what is
    /// written of `reg` with its entries in that order.
    pub open spec fn holds(self, reg: Registry, ks: Seq<u64>) -> bool {
        &&& enumerates(ks, reg.entries)
        &&& self.triplets == triplet_lines(reg.entries, ks)
        &&& self.states == states_of(reg, ks)
    }

    /// Whether this is what is written of `reg`, with its entries in one
    /// order.
    pub open spec fn of(self, reg: Registry) -> bool {
        exists|ks: Seq<u64>| self.holds(reg, ks)
    }
}

/// Why stored records do not make a registry.
#[derive(Clone, Copy, Debug, PartialEq, Eq, Structural)]
pub enum LoadError {
    /// A record is no status.
    Status(StatusError),
    /// The triplet at this place of the list has no record under any
    /// listing.
    Orphan(usize),
    /// The triplet at this place of the list has records under more than one
    /// listing.
    Conflict(usize),
}

/// What the three lists hold for one key.
pub enum Found {
    /// No list has a record.
    Nothing,
    /// One list has a record: the listing of that list, and the status.
    One(ListingStatus, MetaView),
    /// More than one list has a record.
    Several,
}

/// A key beside a status.
pub type Record = (Seq<char>, MetaView);

/// The records that the lines of a list denote; the error of the first line
/// that denotes none.
pub open spec fn parse_bucket(b: Seq<Line>) -> Result<Seq<Record>, StatusError>
    decreases b.len(),
{
    if b.len() == 0 {
        Ok(Seq::empty())
    } else {
        match parse_bucket(b.drop_last()) {
            Err(e) => Err(e),
            Ok(init) => match parse_status(b.last().1) {
                Err(e) => Err(e),
                Ok(m) => Ok(init.push((b.last().0, m))),
            },
        }
    }
}

/// The status that stands under `key` in a list; of several, the last.
pub open spec fn lookup(b: Seq<Record>, key: Seq<char>) -> Option<MetaView>
    decreases b.len(),
{
    if b.len() == 0 {
        None
    } else if b.last().0 == key {
        Some(b.last().1)
    } else {
        lookup(b.drop_last(), key)
    }
}

/// What the three lists hold for `key`.
pub open spec fn classify(white: Seq<Record>, grey: Seq<Record>, black: Seq<Record>, key: Seq<char>) -> Found {
    match (lookup(white, key), lookup(grey, key), lookup(black, key)) {
        (None, None, None) => Found::Nothing,
        (Some(m), None, None) => Found::One(ListingStatus::White, m),
        (None, Some(m), None) => Found::One(ListingStatus::Grey, m),
        (None, None, Some(m)) => Found::One(ListingStatus::Black, m),
        _ => Found::Several,
    }
}

/// The entries of the triplets, each with the listing and the status found
/// under its key; the error of the first triplet whose key has no record, or
/// has records under more than one listing.
pub open spec fn joined(
    triplets: Seq<(Seq<char>, TripletView)>,
    white: Seq<Record>,
    grey: Seq<Record>,
    black: Seq<Record>,
) -> Result<Seq<EntryView>, LoadError>
    decreases triplets.len(),
{
    if triplets.len() == 0 {
        Ok(Seq::empty())
    } else {
        match joined(triplets.drop_last(), white, grey, black) {
            Err(e) => Err(e),
            Ok(init) => match classify(white, grey, black, triplets.last().0) {
                Found::Nothing => Err(LoadError::Orphan((triplets.len() - 1) as usize)),
                Found::Several => Err(LoadError::Conflict((triplets.len() - 1) as usize)),
                Found::One(status, meta) => Ok(
                    init.push(EntryView { triplet: triplets.last().1, status, meta }),
                ),
            },
        }
    }
}

/// The entries and the counters that stored triplets and records make.
/// Every record must be a status, the white ones first, then the grey, then
/// the black; and every triplet must have a record under one listing and no
/// other.
pub open spec fn loaded(triplets: Seq<(Seq<char>, TripletView)>, states: StatesView) -> Result<
    (Seq<EntryView>, StatsView),
    LoadError,
> {
    match parse_bucket(states.white) {
        Err(e) => Err(LoadError::Status(e)),
        Ok(white) => match parse_bucket(states.grey) {
            Err(e) => Err(LoadError::Status(e)),
            Ok(grey) => match parse_bucket(states.black) {
                Err(e) => Err(LoadError::Status(e)),
                Ok(black) => match joined(triplets, white, grey, black) {
                    Err(e) => Err(e),
                    Ok(entries) => Ok((entries, states.stats)),
                },
            },
        },
    }
}

/// The table of `entries`, each under the identity key of its triplet; of
/// two entries with one key the later one stays.
pub open spec fn index_entries(entries: Seq<EntryView>, only_subnet: bool) -> Map<u64, EntryView>
    decreases entries.len(),
{
    if entries.len() == 0 {
        Map::empty()
    } else {
        index_entries(entries.drop_last(), only_subnet).insert(
            identity(entries.last().triplet, only_subnet),
            entries.last(),
        )
    }
}

/// The keys and triplets of a list as plain values.
pub open spec fn keyed_triplets(v: Seq<(String, Triplet)>) -> Seq<(Seq<char>, TripletView)> {
    v.map_values(|p: (String, Triplet)| (p.0@, p.1@))
}

/// The entries of a list as plain values.
pub open spec fn entry_seq(v: Seq<GreylistEntry>) -> Seq<EntryView> {
    v.map_values(|e: GreylistEntry| e@)
}

/// The statuses of a list as plain values.
pub open spec fn records(v: Seq<(String, TripletStatus)>) -> Seq<Record> {
    v.map_values(|p: (String, TripletStatus)| (p.0@, p.1@))
}

/// Reads every line of a list as a status.
fn read_bucket(b: &Vec<(String, String)>) -> (r: Result<Vec<(String, TripletStatus)>, StatusError>)
    ensures
        match r {
            Ok(v) => parse_bucket(lines(b@)) == Ok::<Seq<Record>, StatusError>(records(v@)),
            Err(e) => parse_bucket(lines(b@)) == Err::<Seq<Record>, StatusError>(e),
        },
{
    let mut out: Vec<(String, TripletStatus)> = Vec::new();
    let mut i: usize = 0;
    assert(lines(b@).take(0) =~= Seq::<Line>::empty());
    assert(records(out@) =~= Seq::<Record>::empty());
    while i < b.len()
        invariant
            i <= b.len(),
            parse_bucket(lines(b@).take(i as int)) == Ok::<Seq<Record>, StatusError>(records(out@)),
        decreases b.len() - i,
    {
        let ghost t = lines(b@).take(i + 1);
        proof {
            assert(t.drop_last() =~= lines(b@).take(i as int));
            assert(t.last() == (b@[i as int].0@, b@[i as int].1@));
        }
        match TripletStatus::parse(b[i].1.as_str()) {
            Err(e) => {
                proof {
                    lemma_parse_bucket_prefix(lines(b@), i + 1);
                }
                return Err(e);
            },
            Ok(status) => {
                let key = b[i].0.clone();
                proof {
                    assert(records(out@.push((key, status))) =~= records(out@).push((key@, status@)));
                }
                out.push((key, status));
            },
        }
        i += 1;
    }
    assert(lines(b@).take(b.len() as int) =~= lines(b@));
    Ok(out)
}

/// Where a part of a list holds a line that is no status, the first error of
/// the whole list is the first error of that part.
proof fn lemma_parse_bucket_prefix(b: Seq<Line>, n: int)
    requires
        0 <= n <= b.len(),
        parse_bucket(b.take(n)).is_err(),
    ensures
        parse_bucket(b) == parse_bucket(b.take(n)),
    decreases b.len() - n,
{
    if n == b.len() {
        assert(b.take(n) =~= b);
    } else {
        assert(b.take(n + 1).drop_last() =~= b.take(n));
        lemma_parse_bucket_prefix(b, n + 1);
    }
}

/// The status that stands under `key` in `b`.
fn find_record(b: &Vec<(String, TripletStatus)>, key: &String) -> (r: Option<TripletStatus>)
    ensures
        match r {
            Some(s) => lookup(records(b@), key@) == Some(s@),
            None => lookup(records(b@), key@).is_none(),
        },
{
    let mut found: Option<TripletStatus> = None;
    let mut i: usize = 0;
    assert(records(b@).take(0) =~= Seq::<Record>::empty());
    while i < b.len()
        invariant
            i <= b.len(),
            match found {
                Some(s) => lookup(records(b@).take(i as int), key@) == Some(s@),
                None => lookup(records(b@).take(i as int), key@).is_none(),
            },
        decreases b.len() - i,
    {
        proof {
            let t = records(b@).take(i + 1);
            assert(t.drop_last() =~= records(b@).take(i as int));
            assert(t.last() == (b@[i as int].0@, b@[i as int].1@));
        }
        if b[i].0 == *key {
            found = Some(b[i].1);
        }
        i += 1;
    }
    assert(records(b@).take(b.len() as int) =~= records(b@));
    found
}

/// Makes the entries of a registry from what was stored: gives each triplet
/// the listing and the status that stand under its key. Fails where a record
/// is no status, and where a triplet has no record or has records under more
/// than one listing.
pub fn load_triplet_states(triplets: Vec<(String, Triplet)>, states: StoredStates) -> (r: Result<
    (Vec<GreylistEntry>, StoredStatistics),
    LoadError,
>)
    ensures
        match r {
            Ok((entries, statistics)) => loaded(keyed_triplets(triplets@), states@) == Ok::<
                (Seq<EntryView>, StatsView),
                LoadError,
            >((entry_seq(entries@), statistics@)),
            Err(e) => loaded(keyed_triplets(triplets@), states@) == Err::<
                (Seq<EntryView>, StatsView),
                LoadError,
            >(e),
        },
{
    let white = match read_bucket(&states.white) {
        Ok(v) => v,
        Err(e) => {
            return Err(LoadError::Status(e));
        },
    };
    let grey = match read_bucket(&states.grey) {
        Ok(v) => v,
        Err(e) => {
            return Err(LoadError::Status(e));
        },
    };
    let black = match read_bucket(&states.black) {
        Ok(v) => v,
        Err(e) => {
            return Err(LoadError::Status(e));
        },
    };
    let ghost all = keyed_triplets(triplets@);
    let ghost w = records(white@);
    let ghost g = records(grey@);
    let ghost b = records(black@);
    let mut entries: Vec<GreylistEntry> = Vec::new();
    let mut i: usize = 0;
    assert(all.take(0) =~= Seq::<(Seq<char>, TripletView)>::empty());
    assert(entry_seq(entries@) =~= Seq::<EntryView>::empty());
    while i < triplets.len()
        invariant
            i <= triplets.len(),
            all == keyed_triplets(triplets@),
            w == records(white@),
            g == records(grey@),
            b == records(black@),
            parse_bucket(states@.white) == Ok::<Seq<Record>, StatusError>(w),
            parse_bucket(states@.grey) == Ok::<Seq<Record>, StatusError>(g),
            parse_bucket(states@.black) == Ok::<Seq<Record>, StatusError>(b),
            joined(all.take(i as int), w, g, b) == Ok::<Seq<EntryView>, LoadError>(
                entry_seq(entries@),
            ),
        decreases triplets.len() - i,
    {
        let key = &triplets[i].0;
        proof {
            let t = all.take(i + 1);
            assert(t.drop_last() =~= all.take(i as int));
            assert(t.last() == (triplets@[i as int].0@, triplets@[i as int].1@));
        }
        let found = match (
            find_record(&white, key),
            find_record(&grey, key),
            find_record(&black, key),
        ) {
            (None, None, None) => {
                proof {
                    lemma_joined_prefix(all, w, g, b, i + 1);
                }
                return Err(LoadError::Orphan(i));
            },
            (Some(s), None, None) => (ListingStatus::White, s),
            (None, Some(s), None) => (ListingStatus::Grey, s),
            (None, None, Some(s)) => (ListingStatus::Black, s),
            _ => {
                proof {
                    lemma_joined_prefix(all, w, g, b, i + 1);
                }
                return Err(LoadError::Conflict(i));
            },
        };
        match found {
            (listing_status, triplet_status) => {
                let entry = GreylistEntry {
                    triplet: triplets[i].1.clone(),
                    triplet_status,
                    listing_status,
                };
                proof {
                    assert(entry_seq(entries@.push(entry)) =~= entry_seq(entries@).push(entry@));
                }
                entries.push(entry);
            },
        }
        i += 1;
    }
    assert(all.take(triplets.len() as int) =~= all);
    Ok((entries, states.statistics))
}

/// Where a part of the triplets holds one without a record, the first such
/// triplet of the whole list is the first of that part.
proof fn lemma_joined_prefix(
    triplets: Seq<(Seq<char>, TripletView)>,
    white: Seq<Record>,
    grey: Seq<Record>,
    black: Seq<Record>,
    n: int,
)
    requires
        0 <= n <= triplets.len(),
        joined(triplets.take(n), white, grey, black).is_err(),
    ensures
        joined(triplets, white, grey, black) == joined(triplets.take(n), white, grey, black),
    decreases triplets.len() - n,
{
    if n == triplets.len() {
        assert(triplets.take(n) =~= triplets);
    } else {
        assert(triplets.take(n + 1).drop_last() =~= triplets.take(n));
        lemma_joined_prefix(triplets, white, grey, black, n + 1);
    }
}

/// The triplet of each entry of `ks` under its key in decimal: what the
/// stored text of the triplets denotes.
pub open spec fn stored_triplets(entries: Map<u64, EntryView>, ks: Seq<u64>) -> Seq<
    (Seq<char>, TripletView),
> {
    Seq::new(ks.len(), |i: int| (decimal(ks[i] as nat), entries[ks[i]].triplet))
}

/// The entry `e` with its times cut down to whole seconds.
pub open spec fn stored_entry(e: EntryView) -> EntryView {
    EntryView { triplet: e.triplet, status: e.status, meta: truncate_meta(e.meta) }
}

/// The entries of `ks`, in that order, as they are after they were stored.
pub open spec fn stored_entries(entries: Map<u64, EntryView>, ks: Seq<u64>) -> Seq<EntryView> {
    Seq::new(ks.len(), |i: int| stored_entry(entries[ks[i]]))
}

/// The registry `reg` as it is after it was stored: every time cut down to
/// a whole second.
pub open spec fn stored_registry(reg: Registry) -> Registry {
    Registry {
        entries: reg.entries.map_values(|e: EntryView| stored_entry(e)),
        stats: stored_stats(reg.stats),
        ..reg
    }
}

/// The status of each entry of `ks` that is listed under `status`, as it is
/// after it was stored, under its key in decimal.
pub open spec fn stored_records(
    entries: Map<u64, EntryView>,
    ks: Seq<u64>,
    status: ListingStatus,
) -> Seq<Record>
    decreases ks.len(),
{
    if ks.len() == 0 {
        Seq::empty()
    } else {
        let k = ks.last();
        let init = stored_records(entries, ks.drop_last(), status);
        if entries.contains_key(k) && entries[k].status == status {
            init.push((decimal(k as nat), truncate_meta(entries[k].meta)))
        } else {
            init
        }
    }
}

/// Two numbers with one decimal text are one number.
pub proof fn lemma_decimal_injective(a: nat, b: nat)
    requires
        decimal(a) == decimal(b),
    ensures
        a == b,
{
    lemma_decimal(a);
    lemma_decimal(b);
}

/// The lines of a bucket are read as the records that were stored.
proof fn lemma_bucket_reads_back(entries: Map<u64, EntryView>, ks: Seq<u64>, status: ListingStatus)
    requires
        forall|k: u64| #[trigger] entries.contains_key(k) ==> meta_fits(entries[k].meta),
    ensures
        parse_bucket(bucket(entries, ks, status)) == Ok::<Seq<Record>, StatusError>(
            stored_records(entries, ks, status),
        ),
    decreases ks.len(),
{
    if ks.len() > 0 {
        let k = ks.last();
        lemma_bucket_reads_back(entries, ks.drop_last(), status);
        let init = bucket(entries, ks.drop_last(), status);
        if entries.contains_key(k) && entries[k].status == status {
            let line = (decimal(k as nat), status_text(entries[k].meta));
            assert(init.push(line).drop_last() =~= init);
            lemma_status_round_trip(entries[k].meta);
        }
    }
}

/// Under the key of an entry the stored records of a listing hold its
/// status if it is listed so, and nothing if it is not or is none of `ks`.
proof fn lemma_lookup_stored(
    entries: Map<u64, EntryView>,
    ks: Seq<u64>,
    status: ListingStatus,
    k: u64,
)
    requires
        ks.no_duplicates(),
    ensures
        lookup(stored_records(entries, ks, status), decimal(k as nat)) == (if ks.contains(k)
            && entries.contains_key(k) && entries[k].status == status {
            Some(truncate_meta(entries[k].meta))
        } else {
            None
        }),
    decreases ks.len(),
{
    if ks.len() > 0 {
        let last = ks.last();
        let init_keys = ks.drop_last();
        lemma_lookup_stored(entries, init_keys, status, k);
        let init = stored_records(entries, init_keys, status);
        assert(ks.contains(k) <==> (init_keys.contains(k) || last == k)) by {
            if ks.contains(k) {
                let i = choose|i: int| 0 <= i < ks.len() && ks[i] == k;
                if i < ks.len() - 1 {
                    assert(init_keys[i] == k);
                }
            }
            if init_keys.contains(k) {
                let i = choose|i: int| 0 <= i < init_keys.len() && init_keys[i] == k;
                assert(ks[i] == k);
            }
            if last == k {
                assert(ks[ks.len() - 1] == k);
            }
        }
        assert(last == k ==> !init_keys.contains(k)) by {
            if last == k && init_keys.contains(k) {
                let i = choose|i: int| 0 <= i < init_keys.len() && init_keys[i] == k;
                assert(ks[i] == ks[ks.len() - 1]);
            }
        }
        if entries.contains_key(last) && entries[last].status == status {
            let rec = (decimal(last as nat), truncate_meta(entries[last].meta));
            assert(init.push(rec).drop_last() =~= init);
            assert(init.push(rec).last() == rec);
            if decimal(last as nat) == decimal(k as nat) {
                lemma_decimal_injective(last as nat, k as nat);
            }
        }
    } else {
        assert(!ks.contains(k));
    }
}

/// The triplets that were stored are joined with the statuses that were
/// stored to the entries that were stored.
proof fn lemma_joined_stored(reg: Registry, ks: Seq<u64>, n: int)
    requires
        enumerates(ks, reg.entries),
        0 <= n <= ks.len(),
    ensures
        joined(
            stored_triplets(reg.entries, ks).take(n),
            stored_records(reg.entries, ks, ListingStatus::White),
            stored_records(reg.entries, ks, ListingStatus::Grey),
            stored_records(reg.entries, ks, ListingStatus::Black),
        ) == Ok::<Seq<EntryView>, LoadError>(stored_entries(reg.entries, ks).take(n)),
    decreases n,
{
    let entries = reg.entries;
    let triplets = stored_triplets(entries, ks).take(n);
    if n == 0 {
        assert(triplets =~= Seq::<(Seq<char>, TripletView)>::empty());
        assert(stored_entries(entries, ks).take(n) =~= Seq::<EntryView>::empty());
    } else {
        lemma_joined_stored(reg, ks, n - 1);
        let k = ks[n - 1];
        assert(triplets.drop_last() =~= stored_triplets(entries, ks).take(n - 1));
        assert(triplets.last() == (decimal(k as nat), entries[k].triplet));
        assert(ks.contains(k));
        assert(ks.to_set().contains(k));
        assert(entries.contains_key(k));
        lemma_lookup_stored(entries, ks, ListingStatus::White, k);
        lemma_lookup_stored(entries, ks, ListingStatus::Grey, k);
        lemma_lookup_stored(entries, ks, ListingStatus::Black, k);
        assert(stored_entries(entries, ks).take(n) =~= stored_entries(entries, ks).take(n - 1).push(
            stored_entry(entries[k]),
        ));
    }
}

/// The table of the first `n` stored entries holds them under their keys.
proof fn lemma_index_stored(reg: Registry, ks: Seq<u64>, n: int)
    requires
        reg.wf(),
        enumerates(ks, reg.entries),
        0 <= n <= ks.len(),
    ensures
        index_entries(stored_entries(reg.entries, ks).take(n), reg.only_subnet) == Map::new(
            |k: u64| ks.take(n).contains(k),
            |k: u64| stored_entry(reg.entries[k]),
        ),
    decreases n,
{
    let entries = reg.entries;
    let all = stored_entries(entries, ks).take(n);
    let target = Map::new(|k: u64| ks.take(n).contains(k), |k: u64| stored_entry(entries[k]));
    if n == 0 {
        assert(all =~= Seq::<EntryView>::empty());
        assert(index_entries(all, reg.only_subnet) =~= target);
    } else {
        lemma_index_stored(reg, ks, n - 1);
        let k = ks[n - 1];
        assert(all.drop_last() =~= stored_entries(entries, ks).take(n - 1));
        assert(all.last() == stored_entry(entries[k]));
        assert(ks.contains(k));
        assert(ks.to_set().contains(k));
        assert(entries.contains_key(k));
        assert(identity(entries[k].triplet, reg.only_subnet) == k);
        let cur = ks.take(n);
        let prev = ks.take(n - 1);
        assert(cur =~= prev.push(k));
        assert forall|j: u64| cur.contains(j) <==> (prev.contains(j) || j == k) by {
            if cur.contains(j) {
                let i = choose|i: int| 0 <= i < cur.len() && cur[i] == j;
                if i < n - 1 {
                    assert(prev[i] == j);
                }
            }
            if prev.contains(j) {
                let i = choose|i: int| 0 <= i < prev.len() && prev[i] == j;
                assert(cur[i] == j);
            }
            if j == k {
                assert(cur[n - 1] == j);
            }
        }
        assert(index_entries(all, reg.only_subnet) =~= target);
    }
}

/// What is saved of a registry and then loaded makes the registry again:
/// the same triplets under the same keys, with the same listings, counts and
/// counters, and with every time cut down to a whole second. The text stored
/// for each triplet is read as that triplet again, an IPv6 address being
/// read elsewhere as what it is.
pub proof fn lemma_save_load_round_trip(reg: Registry, ks: Seq<u64>)
    requires
        reg.wf(),
        enumerates(ks, reg.entries),
        forall|k: u64| #[trigger] reg.entries.contains_key(k) ==> meta_fits(reg.entries[k].meta),
    ensures
        loaded(stored_triplets(reg.entries, ks), states_of(reg, ks)) == Ok::<
            (Seq<EntryView>, StatsView),
            LoadError,
        >((stored_entries(reg.entries, ks), stored_stats(reg.stats))),
        index_entries(stored_entries(reg.entries, ks), reg.only_subnet) == stored_registry(
            reg,
        ).entries,
        forall|i: int|
            0 <= i < ks.len() ==> {
                let line = #[trigger] triplet_lines(reg.entries, ks)[i];
                let stored = stored_triplets(reg.entries, ks)[i];
                &&& line.0 == stored.0
                &&& triplet_tokens(line.1).is_some()
                &&& resolve_tokens(triplet_tokens(line.1).unwrap(), Some(stored.1.ip)) == Ok::<
                    TripletView,
                    TripletError,
                >(stored.1)
            },
{
    let entries = reg.entries;
    lemma_bucket_reads_back(entries, ks, ListingStatus::White);
    lemma_bucket_reads_back(entries, ks, ListingStatus::Grey);
    lemma_bucket_reads_back(entries, ks, ListingStatus::Black);
    lemma_joined_stored(reg, ks, ks.len() as int);
    assert(stored_triplets(entries, ks).take(ks.len() as int) =~= stored_triplets(entries, ks));
    assert(stored_entries(entries, ks).take(ks.len() as int) =~= stored_entries(entries, ks));
    lemma_index_stored(reg, ks, ks.len() as int);
    assert(ks.take(ks.len() as int) =~= ks);
    assert(index_entries(stored_entries(entries, ks), reg.only_subnet) =~= stored_registry(
        reg,
    ).entries) by {
        assert forall|k: u64| ks.contains(k) <==> entries.contains_key(k) by {
            if ks.contains(k) {
                assert(ks.to_set().contains(k));
            }
            if entries.contains_key(k) {
                assert(ks.to_set().contains(k));
            }
        }
    }
    assert forall|i: int| 0 <= i < ks.len() implies {
        let line = #[trigger] triplet_lines(entries, ks)[i];
        let stored = stored_triplets(entries, ks)[i];
        &&& line.0 == stored.0
        &&& triplet_tokens(line.1).is_some()
        &&& resolve_tokens(triplet_tokens(line.1).unwrap(), Some(stored.1.ip)) == Ok::<
            TripletView,
            TripletError,
        >(stored.1)
    } by {
        assert(ks.contains(ks[i]));
        assert(ks.to_set().contains(ks[i]));
        assert(entries.contains_key(ks[i]));
        lemma_triplet_reads_back(entries[ks[i]].triplet, Some(entries[ks[i]].triplet.ip));
    }
}

/// Whether every time that `reg` holds is a whole second.
pub open spec fn in_whole_seconds(reg: Registry) -> bool {
    &&& whole_seconds(reg.stats.start) == reg.stats.start
    &&& whole_seconds(reg.stats.lastsave) == reg.stats.lastsave
    &&& forall|k: u64| #[trigger]
        reg.entries.contains_key(k) ==> truncate_meta(reg.entries[k].meta) == reg.entries[k].meta
}

/// What is saved of a registry whose times are whole seconds, and then
/// loaded, makes that registry: the same entries under the same keys and the
/// same counters.
pub proof fn lemma_save_load_identity(reg: Registry, ks: Seq<u64>)
    requires
        reg.wf(),
        enumerates(ks, reg.entries),
        forall|k: u64| #[trigger] reg.entries.contains_key(k) ==> meta_fits(reg.entries[k].meta),
        in_whole_seconds(reg),
    ensures
        loaded(stored_triplets(reg.entries, ks), states_of(reg, ks)) == Ok::<
            (Seq<EntryView>, StatsView),
            LoadError,
        >((Seq::new(ks.len(), |i: int| reg.entries[ks[i]]), reg.stats)),
        index_entries(Seq::new(ks.len(), |i: int| reg.entries[ks[i]]), reg.only_subnet)
            == reg.entries,
{
    lemma_save_load_round_trip(reg, ks);
    assert(stored_entries(reg.entries, ks) =~= Seq::new(ks.len(), |i: int| reg.entries[ks[i]])) by {
        assert forall|i: int| 0 <= i < ks.len() implies stored_entry(reg.entries[ks[i]])
            == reg.entries[ks[i]] by {
            assert(ks.contains(ks[i]));
            assert(ks.to_set().contains(ks[i]));
            assert(reg.entries.contains_key(ks[i]));
        }
    }
    assert(stored_registry(reg).entries =~= reg.entries);
}

} // verus!
