//! What the registry holds: its entries and its counters.

use crate::registry::{EntryView, Registry, StatsView};
use crate::status::{ListingStatus, TripletStatus};
use crate::time::{clock, Timestamp};
use crate::triplet::Triplet;
use vstd::prelude::*;

verus! {

/// One entry of the registry: a triplet, how it is listed, and when and how
/// often it was seen.
#[derive(Debug)]
pub struct GreylistEntry {
    pub triplet: Triplet,
    pub triplet_status: TripletStatus,
    pub listing_status: ListingStatus,
}

impl View for GreylistEntry {
    type V = EntryView;

    open spec fn view(&self) -> EntryView {
        EntryView {
            triplet: self.triplet@,
            status: self.listing_status,
            meta: self.triplet_status@,
        }
    }
}

/// The counters of the registry: how many entries were ever made grey by an
/// update, how many were promoted to white, when counting began and when the
/// registry was last saved.
#[derive(Clone, Copy, Debug)]
pub struct StoredStatistics {
    pub white: u32,
    pub grey: u32,
    pub black: u32,
    pub start: Timestamp,
    pub lastsave: Timestamp,
}

impl View for StoredStatistics {
    type V = StatsView;

    open spec fn view(&self) -> StatsView {
        StatsView {
            white: self.white as nat,
            grey: self.grey as nat,
            black: self.black as nat,
            start: self.start@,
            lastsave: self.lastsave@,
        }
    }
}

impl StoredStatistics {
    /// Counters of a registry that starts at `now`: nothing counted, never
    /// saved.
    pub fn starting_at(now: Timestamp) -> (s: StoredStatistics)
        ensures
            s@ == Registry::fresh_stats(now@),
    {
        StoredStatistics { white: 0, grey: 0, black: 0, start: now, lastsave: Timestamp::from_secs(0) }
    }
}

impl Default for StoredStatistics {
    /// Counters that start at the time of the call.
    fn default() -> (s: Self)
        ensures
            s@ == Registry::fresh_stats(s@.start),
    {
        StoredStatistics::starting_at(clock())
    }
}

} // verus!
