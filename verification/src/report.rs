//! What the registry reports of itself: the table of its entries and the
//! figures of its statistics, as values and as text.

use crate::decimal::{decimal, push_decimal};
use crate::registry::{enumerates, EntryView, Registry};
use crate::status::{status_name, ListingStatus};
use crate::text::{append, append_str, string_of};
use crate::time::elapsed;
use crate::triplet::triplet_text;
use vstd::prelude::*;

verus! {

/// `s` followed by as many spaces as it lacks to `width` characters.
pub open spec fn padded(s: Seq<char>, width: nat) -> Seq<char> {
    if s.len() >= width {
        s
    } else {
        s + Seq::new((width - s.len()) as nat, |i: int| ' ')
    }
}

/// The line of an entry in a table: the second in which it was last seen in
/// a column of twenty characters, its count in a column of ten, and the text
/// of its triplet.
pub open spec fn row_text(e: EntryView) -> Seq<char> {
    padded(decimal(e.meta.last_seen / 1_000_000_000), 20) + seq![' '] + padded(
        decimal(e.meta.count),
        10,
    ) + seq![' '] + triplet_text(e.triplet) + seq!['\n']
}

/// The lines of the entries listed under `status`, in the order of `ks`.
pub open spec fn rows_text(entries: Map<u64, EntryView>, ks: Seq<u64>, status: ListingStatus) -> Seq<
    char,
>
    decreases ks.len(),
{
    if ks.len() == 0 {
        Seq::empty()
    } else {
        let k = ks.last();
        rows_text(entries, ks.drop_last(), status) + (if entries.contains_key(k)
            && entries[k].status == status {
            row_text(entries[k])
        } else {
            Seq::empty()
        })
    }
}

/// The three lines that stand above the rows of the table of `status`.
pub open spec fn table_head(status: ListingStatus) -> Seq<char> {
    status_name(status) + "list data:\n"@ + "=============\n"@
        + "Last Seen            Count      Data\n"@
}

/// The table of the entries listed under `status`: its head, its rows in
/// the order of `ks`, and an empty line.
pub open spec fn table_text(entries: Map<u64, EntryView>, ks: Seq<u64>, status: ListingStatus) -> Seq<
    char,
> {
    table_head(status) + rows_text(entries, ks, status) + seq!['\n']
}

/// The statuses whose tables a listing shows: those asked for, and all three
/// where none was asked for.
pub open spec fn shown(statuses: Seq<ListingStatus>) -> Seq<ListingStatus> {
    if statuses.len() == 0 {
        seq![ListingStatus::White, ListingStatus::Grey, ListingStatus::Black]
    } else {
        statuses
    }
}

/// The tables of `statuses`, one after the other.
pub open spec fn tables_text(
    entries: Map<u64, EntryView>,
    ks: Seq<u64>,
    statuses: Seq<ListingStatus>,
) -> Seq<char>
    decreases statuses.len(),
{
    if statuses.len() == 0 {
        Seq::empty()
    } else {
        tables_text(entries, ks, statuses.drop_last()) + table_text(entries, ks, statuses.last())
    }
}

/// Whether `text` is a listing of `entries` for `statuses`: the tables of
/// the statuses shown, with the rows in one order of the keys.
pub open spec fn is_listing(
    entries: Map<u64, EntryView>,
    statuses: Seq<ListingStatus>,
    text: Seq<char>,
) -> bool {
    exists|ks: Seq<u64>| enumerates(ks, entries) && text == tables_text(entries, ks, shown(statuses))
}

/// One entry as a listing shows it.
#[derive(Debug, PartialEq, Eq)]
pub struct Row {
    /// How the entry is listed.
    pub status: ListingStatus,
    /// The second in which it was last seen.
    pub last_seen: u64,
    /// How many deciding requests it has had.
    pub count: u32,
    /// The text of its triplet.
    pub triplet: String,
}

/// A row as plain values.
pub struct RowView {
    pub status: ListingStatus,
    pub last_seen: nat,
    pub count: nat,
    pub triplet: Seq<char>,
}

impl View for Row {
    type V = RowView;

    open spec fn view(&self) -> RowView {
        RowView {
            status: self.status,
            last_seen: self.last_seen as nat,
            count: self.count as nat,
            triplet: self.triplet@,
        }
    }
}

/// The row of the entry `e`.
pub open spec fn row_of(e: EntryView) -> RowView {
    RowView {
        status: e.status,
        last_seen: e.meta.last_seen / 1_000_000_000,
        count: e.meta.count,
        triplet: triplet_text(e.triplet),
    }
}

/// The rows of the entries listed under `status`, in the order of `ks`.
pub open spec fn rows_of(entries: Map<u64, EntryView>, ks: Seq<u64>, status: ListingStatus) -> Seq<
    RowView,
>
    decreases ks.len(),
{
    if ks.len() == 0 {
        Seq::empty()
    } else {
        let k = ks.last();
        let init = rows_of(entries, ks.drop_last(), status);
        if entries.contains_key(k) && entries[k].status == status {
            init.push(row_of(entries[k]))
        } else {
            init
        }
    }
}

/// The rows of the entries listed under `statuses`, one status after the
/// other, each in the order of `ks`.
pub open spec fn listed_rows(
    entries: Map<u64, EntryView>,
    ks: Seq<u64>,
    statuses: Seq<ListingStatus>,
) -> Seq<RowView>
    decreases statuses.len(),
{
    if statuses.len() == 0 {
        Seq::empty()
    } else {
        listed_rows(entries, ks, statuses.drop_last()) + rows_of(entries, ks, statuses.last())
    }
}

/// Whether `rows` are the entries of `entries` listed under the statuses
/// shown for `statuses`, in one order of the keys.
pub open spec fn is_enumeration(
    entries: Map<u64, EntryView>,
    statuses: Seq<ListingStatus>,
    rows: Seq<RowView>,
) -> bool {
    exists|ks: Seq<u64>| enumerates(ks, entries) && rows == listed_rows(entries, ks, shown(statuses))
}

/// The views of rows.
pub open spec fn row_views(rows: Seq<Row>) -> Seq<RowView> {
    rows.map_values(|r: Row| r@)
}

/// How many entries are listed under `status`.
pub open spec fn population(entries: Map<u64, EntryView>, status: ListingStatus) -> nat {
    entries.dom().filter(|k: u64| entries[k].status == status).len()
}

/// The count of `k` where it is listed under `status`, added to `sum`.
pub open spec fn add_requests(entries: Map<u64, EntryView>, status: ListingStatus) -> spec_fn(
    nat,
    u64,
) -> nat {
    |sum: nat, k: u64|
        if entries[k].status == status {
            sum + entries[k].meta.count
        } else {
            sum
        }
}

/// The sum of the counts of the entries listed under `status`.
pub open spec fn requests(entries: Map<u64, EntryView>, status: ListingStatus) -> nat {
    entries.dom().fold(0nat, add_requests(entries, status))
}

/// The entries under one listing: how many they are, and the sum of their
/// counts.
#[derive(Clone, Copy, Debug, PartialEq, Eq, Structural)]
pub struct Tally {
    pub items: usize,
    pub requests: u128,
}

/// The figures of the statistics. Times are whole seconds.
#[derive(Clone, Copy, Debug, PartialEq, Eq, Structural)]
pub struct StatsReport {
    /// When counting began, in seconds since the epoch.
    pub start: u64,
    /// The seconds since then.
    pub uptime: u64,
    pub white: Tally,
    pub grey: Tally,
    pub black: Tally,
    /// Entries once made grey by an update that are grey no more.
    pub previous_grey: i128,
    /// Promotions to white.
    pub whitelisted: u32,
    /// Entries once grey that left without becoming white.
    pub expired_grey: i128,
}

/// Whether `t` tallies the entries of `entries` listed under `status`.
pub open spec fn tallies(t: Tally, entries: Map<u64, EntryView>, status: ListingStatus) -> bool {
    t.items == population(entries, status) && t.requests == requests(entries, status)
}

/// Whether `report` holds the figures of `reg` at `now`. The entries that
/// were grey before are the grey ones ever counted less those grey now;
/// those that expired are these less the promotions to white.
pub open spec fn reports(report: StatsReport, reg: Registry, now: nat) -> bool {
    &&& report.start == reg.stats.start / 1_000_000_000
    &&& report.uptime == elapsed(now, reg.stats.start) / 1_000_000_000
    &&& tallies(report.white, reg.entries, ListingStatus::White)
    &&& tallies(report.grey, reg.entries, ListingStatus::Grey)
    &&& tallies(report.black, reg.entries, ListingStatus::Black)
    &&& report.previous_grey == reg.stats.grey - population(reg.entries, ListingStatus::Grey)
    &&& report.whitelisted == reg.stats.white
    &&& report.expired_grey == report.previous_grey - reg.stats.white
}

/// The decimal text of an integer, with a minus sign where it is negative.
pub open spec fn signed_decimal(n: int) -> Seq<char> {
    if n < 0 {
        seq!['-'] + decimal((-n) as nat)
    } else {
        decimal(n as nat)
    }
}

/// The line of the report on the entries under `status`.
pub open spec fn tally_text(t: Tally, status: ListingStatus) -> Seq<char> {
    decimal(t.items as nat) + " items, matching "@ + decimal(t.requests as nat)
        + " requests, are currently "@ + status_name(status) + "listed\n"@
}

/// How a share of the entries that were grey before is shown: as `share`
/// says, and as no number where no entry was grey before.
pub open spec fn shown_share(r: StatsReport, share: Seq<char>) -> Seq<char> {
    if r.previous_grey == 0 {
        "NaN"@
    } else {
        share
    }
}

/// The report as text. `white_share` and `expired_share` are the two shares
/// of the entries that were grey before, in percent, as they are to be
/// shown where there were such entries.
pub open spec fn report_text(
    r: StatsReport,
    white_share: Seq<char>,
    expired_share: Seq<char>,
) -> Seq<char> {
    "Statistics since "@ + decimal(r.start as nat) + " ("@ + decimal(r.uptime as nat) + "s ago)\n"@
        + seq!['\n'] + tally_text(r.white, ListingStatus::White) + tally_text(
        r.grey,
        ListingStatus::Grey,
    ) + tally_text(r.black, ListingStatus::Black) + seq!['\n'] + "Of "@ + signed_decimal(
        r.previous_grey as int,
    ) + " items that were initially greylisted:\n"@ + " - "@ + decimal(r.whitelisted as nat) + " ("@
        + shown_share(r, white_share) + "%) became whitelisted\n"@ + " - "@ + signed_decimal(
        r.expired_grey as int,
    ) + " ("@ + shown_share(r, expired_share) + "%) expired from the greylist\n"@
}

/// The four lines that a monitor reads: the entries that are grey, those
/// that are white, the seconds since counting began, and a host name.
pub open spec fn mrtg_text(reg: Registry, now: nat) -> Seq<char> {
    decimal(population(reg.entries, ListingStatus::Grey)) + seq!['\n'] + decimal(
        population(reg.entries, ListingStatus::White),
    ) + seq!['\n'] + decimal(elapsed(now, reg.stats.start) / 1_000_000_000) + seq!['\n']
        + "hostname\n"@
}

/// Appends `s`, padded to `width` characters, to `v`.
pub fn push_padded(v: &mut Vec<char>, s: &Vec<char>, width: usize)
    ensures
        final(v)@ == old(v)@ + padded(s@, width as nat),
{
    append(v, s);
    let mut n: usize = s.len();
    while n < width
        invariant
            s.len() <= n,
            n <= width || n == s.len(),
            v@ == old(v)@ + s@ + Seq::new((n - s.len()) as nat, |i: int| ' '),
        decreases width - n,
    {
        v.push(' ');
        n += 1;
        assert(v@ =~= old(v)@ + s@ + Seq::new((n - s.len()) as nat, |i: int| ' '));
    }
    assert(v@ =~= old(v)@ + padded(s@, width as nat));
}

/// Appends the decimal text of `n`, with its sign, to `v`.
pub fn push_signed(v: &mut Vec<char>, n: i128)
    ensures
        final(v)@ == old(v)@ + signed_decimal(n as int),
{
    if n < 0 {
        v.push('-');
        let m: u128 = if n == i128::MIN {
            170141183460469231731687303715884105728u128
        } else {
            (-n) as u128
        };
        push_decimal(v, m);
        assert(v@ =~= old(v)@ + signed_decimal(n as int));
    } else {
        push_decimal(v, n as u128);
    }
}

/// Appends the line of the report on the entries under `status` to `v`.
fn push_tally(v: &mut Vec<char>, t: &Tally, status: ListingStatus)
    ensures
        final(v)@ == old(v)@ + tally_text(*t, status),
{
    push_decimal(v, t.items as u128);
    append_str(v, " items, matching ");
    push_decimal(v, t.requests);
    append_str(v, " requests, are currently ");
    append_str(v, status.to_string().as_str());
    append_str(v, "listed\n");
    assert(v@ =~= old(v)@ + tally_text(*t, status));
}

impl StatsReport {
    /// The report as text, with the two shares as they are to be shown
    /// where entries were grey before; where none was, both are shown as no
    /// number.
    pub fn render(&self, white_share: &str, expired_share: &str) -> (s: String)
        ensures
            s@ == report_text(*self, white_share@, expired_share@),
    {
        let mut v: Vec<char> = Vec::new();
        append_str(&mut v, "Statistics since ");
        push_decimal(&mut v, self.start as u128);
        append_str(&mut v, " (");
        push_decimal(&mut v, self.uptime as u128);
        append_str(&mut v, "s ago)\n");
        v.push('\n');
        push_tally(&mut v, &self.white, ListingStatus::White);
        push_tally(&mut v, &self.grey, ListingStatus::Grey);
        push_tally(&mut v, &self.black, ListingStatus::Black);
        v.push('\n');
        append_str(&mut v, "Of ");
        push_signed(&mut v, self.previous_grey);
        append_str(&mut v, " items that were initially greylisted:\n");
        append_str(&mut v, " - ");
        push_decimal(&mut v, self.whitelisted as u128);
        append_str(&mut v, " (");
        append_str(&mut v, if self.previous_grey == 0 { "NaN" } else { white_share });
        append_str(&mut v, "%) became whitelisted\n");
        append_str(&mut v, " - ");
        push_signed(&mut v, self.expired_grey);
        append_str(&mut v, " (");
        append_str(&mut v, if self.previous_grey == 0 { "NaN" } else { expired_share });
        append_str(&mut v, "%) expired from the greylist\n");
        assert(v@ =~= report_text(*self, white_share@, expired_share@));
        string_of(&v)
    }
}

} // verus!
