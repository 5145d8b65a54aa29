use greylistd::app::{App, ConfigError};
use greylistd::config::{Config, Data, Socket, Timeouts};
use greylistd::entry::{GreylistEntry, StoredStatistics};
use greylistd::status::{ListingStatus, TripletStatus};
use greylistd::time::Timestamp;
use greylistd::triplet::{SenderIp, Triplet};
use std::hash::Hasher;

fn config(retry_min: u64, retry_max: u64, expire: u64, onlysubnet: bool) -> Config {
    let mut data = Data::defaults();
    data.onlysubnet = onlysubnet;
    Config {
        timeouts: Timeouts { retry_min, retry_max, expire },
        socket: Socket { path: "/tmp/greylistd.sock".to_string(), mode: "0660".to_string() },
        data,
    }
}

fn registry(retry_min: u64, retry_max: u64, expire: u64) -> App {
    App::new(
        config(retry_min, retry_max, expire, true),
        Vec::new(),
        StoredStatistics::starting_at(Timestamp::from_secs(1000)),
    )
    .unwrap()
}

fn v4(a: u8, b: u8, c: u8, d: u8) -> SenderIp {
    SenderIp::new(vec![a, b, c, d], format!("{}.{}.{}.{}", a, b, c, d)).unwrap()
}

fn triplet(ip: SenderIp, sender: Option<&str>, recipient: &str) -> Triplet {
    Triplet::new(ip, sender.map(|s| s.to_string()), recipient.to_string()).unwrap()
}

fn bob() -> Triplet {
    triplet(v4(1, 2, 3, 4), None, "bob@x")
}

fn at(secs: u64) -> Timestamp {
    Timestamp::from_secs(secs)
}

#[test]
fn first_update_makes_a_grey_entry() {
    let mut app = registry(600, 28800, 5184000);
    assert_eq!(app.status(&bob()), None);
    assert_eq!(app.add_or_update_triplet_at(bob(), at(2000)).listing_status, ListingStatus::Grey);
    let entry = app.get_entry(&bob()).unwrap();
    assert_eq!(entry.listing_status, ListingStatus::Grey);
    assert_eq!(entry.triplet_status.count, 1);
    assert_eq!(entry.triplet_status.first_seen, at(2000));
    assert_eq!(entry.triplet_status.last_seen, at(2000));
    assert_eq!(app.statistics().grey, 1);
    assert_eq!(app.statistics().white, 0);
    assert_eq!(app.len(), 1);
}

#[test]
fn early_retry_stays_grey() {
    let mut app = registry(600, 28800, 5184000);
    app.add_or_update_triplet_at(bob(), at(2000));
    assert_eq!(app.add_or_update_triplet_at(bob(), at(2599)).listing_status, ListingStatus::Grey);
    let entry = app.get_entry(&bob()).unwrap();
    assert_eq!(entry.triplet_status.count, 2);
    assert_eq!(entry.triplet_status.first_seen, at(2000));
    assert_eq!(entry.triplet_status.last_seen, at(2599));
    assert_eq!(app.statistics().white, 0);
}

#[test]
fn retry_at_retry_min_promotes() {
    let mut app = registry(600, 28800, 5184000);
    app.add_or_update_triplet_at(bob(), at(2000));
    assert_eq!(app.add_or_update_triplet_at(bob(), at(2600)).listing_status, ListingStatus::White);
    assert_eq!(app.status(&bob()), Some(ListingStatus::White));
    assert_eq!(app.statistics().white, 1);
    assert_eq!(app.statistics().grey, 1);
}

#[test]
fn retry_one_nanosecond_before_retry_min_stays_grey() {
    let mut app = registry(600, 28800, 5184000);
    app.add_or_update_triplet_at(bob(), Timestamp::new(2000, 1).unwrap());
    assert_eq!(app.add_or_update_triplet_at(bob(), at(2600)).listing_status, ListingStatus::Grey);
}

#[test]
fn retry_at_retry_max_promotes() {
    let mut app = registry(600, 28800, 5184000);
    app.add_or_update_triplet_at(bob(), at(2000));
    assert_eq!(app.add_or_update_triplet_at(bob(), at(2000 + 28800)).listing_status, ListingStatus::White);
}

#[test]
fn retry_after_retry_max_restarts_the_clock() {
    let mut app = registry(600, 28800, 5184000);
    app.add_or_update_triplet_at(bob(), at(2000));
    assert_eq!(app.add_or_update_triplet_at(bob(), at(2000 + 28801)).listing_status, ListingStatus::Grey);
    let entry = app.get_entry(&bob()).unwrap();
    assert_eq!(entry.triplet_status.first_seen, at(2000 + 28801));
    assert_eq!(entry.triplet_status.count, 2);
    assert_eq!(app.statistics().white, 0);
    assert_eq!(app.add_or_update_triplet_at(bob(), at(2000 + 28801 + 600)).listing_status, ListingStatus::White);
}

#[test]
fn earlier_clock_counts_as_no_time_passed() {
    let mut app = registry(600, 28800, 5184000);
    app.add_or_update_triplet_at(bob(), at(2000));
    assert_eq!(app.add_or_update_triplet_at(bob(), at(1000)).listing_status, ListingStatus::Grey);
    assert_eq!(app.check_triplet_at(&bob(), at(500)), ListingStatus::Grey);
    let mut zero = registry(0, 3600, 5184000);
    zero.add_or_update_triplet_at(bob(), at(2000));
    assert_eq!(zero.check_triplet_at(&bob(), at(1000)), ListingStatus::White);
}

#[test]
fn white_and_black_keep_their_listing() {
    let mut app = registry(600, 28800, 5184000);
    app.add_triplet_at(bob(), ListingStatus::Black, at(2000));
    assert_eq!(app.add_or_update_triplet_at(bob(), at(5000)).listing_status, ListingStatus::Black);
    let entry = app.get_entry(&bob()).unwrap();
    assert_eq!(entry.triplet_status.count, 1);
    assert_eq!(entry.triplet_status.last_seen, at(5000));
    assert_eq!(entry.triplet_status.first_seen, at(2000));
    assert_eq!(app.statistics().grey, 0);
    assert_eq!(app.statistics().white, 0);
}

#[test]
fn count_stops_at_its_largest_value() {
    let entry = GreylistEntry {
        triplet: bob(),
        triplet_status: TripletStatus { last_seen: at(1), first_seen: at(1), count: u32::MAX },
        listing_status: ListingStatus::White,
    };
    let mut app = App::new(
        config(600, 28800, 5184000, true),
        vec![entry],
        StoredStatistics::starting_at(at(0)),
    )
    .unwrap();
    app.add_or_update_triplet_at(bob(), at(2));
    assert_eq!(app.get_entry(&bob()).unwrap().triplet_status.count, u32::MAX);
}

#[test]
fn check_reports_white_without_promoting() {
    let mut app = registry(600, 28800, 5184000);
    app.add_or_update_triplet_at(bob(), at(2000));
    assert_eq!(app.check_triplet_at(&bob(), at(2599)), ListingStatus::Grey);
    assert_eq!(app.check_triplet_at(&bob(), at(2600)), ListingStatus::White);
    assert_eq!(app.check_triplet_at(&bob(), at(2000 + 28800)), ListingStatus::White);
    assert_eq!(app.check_triplet_at(&bob(), at(2000 + 28801)), ListingStatus::Grey);
    let entry = app.get_entry(&bob()).unwrap();
    assert_eq!(entry.listing_status, ListingStatus::Grey);
    assert_eq!(entry.triplet_status.count, 1);
    assert_eq!(entry.triplet_status.last_seen, at(2000));
    assert_eq!(app.statistics().white, 0);
}

#[test]
fn check_of_an_unknown_triplet_is_grey() {
    let app = registry(600, 28800, 5184000);
    assert_eq!(app.check_triplet_at(&bob(), at(2000)), ListingStatus::Grey);
    assert_eq!(app.len(), 0);
}

#[test]
fn add_sets_a_new_entry_with_count_zero() {
    let mut app = registry(600, 28800, 5184000);
    let added = app.add_triplet_at(bob(), ListingStatus::White, at(2000));
    assert_eq!(added.listing_status, ListingStatus::White);
    assert_eq!(added.triplet_status.last_seen, at(2000));
    assert_eq!(added.triplet.to_string(), "1.2.3.4 bob@x");
    let entry = app.get_entry(&bob()).unwrap();
    assert_eq!(entry.listing_status, ListingStatus::White);
    assert_eq!(entry.triplet_status.count, 0);
    assert_eq!(entry.triplet_status.first_seen, at(2000));
    assert_eq!(app.statistics().white, 0);
    assert_eq!(app.statistics().grey, 0);
}

#[test]
fn add_overwrites_the_listing_and_bumps_last_seen() {
    let mut app = registry(600, 28800, 5184000);
    app.add_or_update_triplet_at(bob(), at(2000));
    app.add_triplet_at(bob(), ListingStatus::Black, at(3000));
    let entry = app.get_entry(&bob()).unwrap();
    assert_eq!(entry.listing_status, ListingStatus::Black);
    assert_eq!(entry.triplet_status.count, 1);
    assert_eq!(entry.triplet_status.first_seen, at(2000));
    assert_eq!(entry.triplet_status.last_seen, at(3000));
}

#[test]
fn delete_returns_the_listing_removed() {
    let mut app = registry(600, 28800, 5184000);
    assert_eq!(app.delete(&bob()), None);
    app.add_triplet_at(bob(), ListingStatus::Black, at(2000));
    assert_eq!(app.delete(&bob()), Some(ListingStatus::Black));
    assert_eq!(app.status(&bob()), None);
    assert_eq!(app.len(), 0);
}

#[test]
fn prune_removes_grey_entries_past_retry_max() {
    let mut app = registry(600, 28800, 5184000);
    app.add_or_update_triplet_at(bob(), at(2000));
    app.prune_expired_entries_at(at(2000 + 28800));
    assert_eq!(app.status(&bob()), Some(ListingStatus::Grey));
    app.prune_expired_entries_at(at(2000 + 28800));
    assert_eq!(app.len(), 1);
    app.prune_expired_entries_at(at(2000 + 28801));
    assert_eq!(app.status(&bob()), None);
}

#[test]
fn prune_goes_by_first_seen_for_grey_entries() {
    let mut app = registry(600, 28800, 5184000);
    app.add_or_update_triplet_at(bob(), at(2000));
    app.add_or_update_triplet_at(bob(), at(2100));
    app.prune_expired_entries_at(at(2001 + 28800));
    assert_eq!(app.len(), 0);
}

#[test]
fn prune_removes_listed_entries_past_expire() {
    let mut app = registry(600, 28800, 5184000);
    let eve = triplet(v4(5, 6, 7, 8), Some("eve@y"), "root@z");
    app.add_triplet_at(bob(), ListingStatus::White, at(2000));
    app.add_triplet_at(eve.clone(), ListingStatus::Black, at(3000));
    app.prune_expired_entries_at(at(2000 + 5184000));
    assert_eq!(app.len(), 2);
    app.prune_expired_entries_at(at(2001 + 5184000));
    assert_eq!(app.status(&bob()), None);
    assert_eq!(app.status(&eve), Some(ListingStatus::Black));
    app.prune_expired_entries_at(at(3001 + 5184000));
    assert_eq!(app.len(), 0);
}

#[test]
fn prune_goes_by_last_seen_for_listed_entries() {
    let mut app = registry(600, 28800, 100);
    app.add_triplet_at(bob(), ListingStatus::White, at(2000));
    app.add_or_update_triplet_at(bob(), at(2090));
    app.prune_expired_entries_at(at(2150));
    assert_eq!(app.status(&bob()), Some(ListingStatus::White));
    app.prune_expired_entries_at(at(2191));
    assert_eq!(app.status(&bob()), None);
}

#[test]
fn clear_with_statuses_keeps_the_rest_and_the_counters() {
    let mut app = registry(0, 3600, 5184000);
    let eve = triplet(v4(5, 6, 7, 8), None, "eve@y");
    let ann = triplet(v4(9, 9, 9, 9), None, "ann@z");
    let tom = triplet(v4(7, 7, 7, 7), None, "tom@z");
    app.add_or_update_triplet_at(bob(), at(2000));
    app.add_or_update_triplet_at(tom.clone(), at(2000));
    app.add_or_update_triplet_at(tom.clone(), at(2001));
    app.add_triplet_at(eve.clone(), ListingStatus::Black, at(2000));
    app.add_triplet_at(ann.clone(), ListingStatus::White, at(2000));
    let before = app.statistics();
    app.clear_at(&vec![ListingStatus::Grey], at(9000));
    assert_eq!(app.status(&bob()), None);
    assert_eq!(app.status(&tom), Some(ListingStatus::White));
    assert_eq!(app.status(&eve), Some(ListingStatus::Black));
    assert_eq!(app.status(&ann), Some(ListingStatus::White));
    assert_eq!(app.statistics().grey, before.grey);
    assert_eq!(app.statistics().white, before.white);
    assert_eq!(app.statistics().start, before.start);
    app.clear_at(&vec![ListingStatus::White, ListingStatus::Black], at(9000));
    assert_eq!(app.len(), 0);
    assert_eq!(app.statistics().grey, 2);
}

#[test]
fn clear_without_statuses_resets_everything() {
    let mut app = registry(0, 3600, 5184000);
    app.add_or_update_triplet_at(bob(), at(2000));
    app.add_or_update_triplet_at(bob(), at(2001));
    app.save_at(at(2002));
    app.clear_at(&Vec::new(), at(9000));
    assert_eq!(app.len(), 0);
    let stats = app.statistics();
    assert_eq!((stats.white, stats.grey, stats.black), (0, 0, 0));
    assert_eq!(stats.start, at(9000));
    assert_eq!(stats.lastsave, at(0));
}

#[test]
fn identity_ignores_the_host_part_in_subnet_mode() {
    let a = triplet(v4(1, 2, 3, 4), Some("a@b"), "c@d");
    let b = triplet(v4(1, 2, 3, 200), Some("a@b"), "c@d");
    assert_eq!(a.hash(true), b.hash(true));
    assert_ne!(a.hash(false), b.hash(false));
    let other_net = triplet(v4(1, 2, 4, 4), Some("a@b"), "c@d");
    assert_ne!(a.hash(true), other_net.hash(true));
}

#[test]
fn identity_of_ipv6_ignores_the_last_nine_octets_in_subnet_mode() {
    let mut x = vec![0x20, 0x01, 0x0d, 0xb8, 0, 0, 0, 1, 0, 0, 0, 0, 0, 0, 0, 1];
    let a = triplet(SenderIp::new(x.clone(), "2001:db8:0:1::1".to_string()).unwrap(), None, "c@d");
    x[7] = 2;
    x[15] = 9;
    let b = triplet(SenderIp::new(x.clone(), "2001:db8:0:2::9".to_string()).unwrap(), None, "c@d");
    assert_eq!(a.hash(true), b.hash(true));
    assert_ne!(a.hash(false), b.hash(false));
    x[6] = 1;
    let c = triplet(SenderIp::new(x, "2001:db8:0:102::9".to_string()).unwrap(), None, "c@d");
    assert_ne!(a.hash(true), c.hash(true));
}

#[test]
fn identity_is_the_same_on_every_call_and_tells_the_fields_apart() {
    let a = triplet(v4(1, 2, 3, 4), Some("a@b"), "c@d");
    assert_eq!(a.hash(false), a.clone().hash(false));
    assert_eq!(a.hash(true), triplet(v4(1, 2, 3, 4), Some("a@b"), "c@d").hash(true));
    assert_ne!(a.hash(false), triplet(v4(1, 2, 3, 4), None, "c@d").hash(false));
    assert_ne!(a.hash(false), triplet(v4(1, 2, 3, 4), Some("a@b"), "c@e").hash(false));
    assert_ne!(a.hash(false), triplet(v4(1, 2, 3, 4), Some("a@bc"), "@d").hash(false));
}

#[test]
fn identity_is_the_default_hash_of_the_key_bytes() {
    let a = triplet(v4(1, 2, 3, 4), Some("a@b"), "c@d");
    let mut bytes: Vec<u8> = vec![0, 0, 0, 0, 0, 0, 0, 0, 1, 2, 3, 0];
    bytes.extend_from_slice(&[1, 0, 0, 0, 0, 0, 0, 0]);
    bytes.extend_from_slice(b"a@b");
    bytes.push(0xff);
    bytes.extend_from_slice(b"c@d");
    bytes.push(0xff);
    let mut hasher = std::collections::hash_map::DefaultHasher::new();
    hasher.write(&bytes);
    assert_eq!(a.hash(true), hasher.finish());
}

#[test]
fn subnet_mode_folds_two_hosts_into_one_entry() {
    let mut app = registry(0, 3600, 5184000);
    app.add_or_update_triplet_at(triplet(v4(1, 2, 3, 4), None, "bob@x"), at(2000));
    let entry = app.add_or_update_triplet_at(triplet(v4(1, 2, 3, 77), None, "bob@x"), at(2001));
    assert_eq!(entry.listing_status, ListingStatus::White);
    assert_eq!(entry.triplet.to_string(), "1.2.3.4 bob@x");
    assert_eq!(app.len(), 1);
    assert_eq!(app.get_entry(&bob()).unwrap().triplet.to_string(), "1.2.3.4 bob@x");
    let mut exact = App::new(
        config(0, 3600, 5184000, false),
        Vec::new(),
        StoredStatistics::starting_at(at(0)),
    )
    .unwrap();
    exact.add_or_update_triplet_at(triplet(v4(1, 2, 3, 4), None, "bob@x"), at(2000));
    exact.add_or_update_triplet_at(triplet(v4(1, 2, 3, 77), None, "bob@x"), at(2001));
    assert_eq!(exact.len(), 2);
}

#[test]
fn new_refuses_a_configuration_that_cannot_be_served() {
    let mut c = config(600, 28800, 5184000, true);
    c.data.savetriplets = false;
    c.data.singlecheck = true;
    let r = App::new(c, Vec::new(), StoredStatistics::starting_at(at(0)));
    assert_eq!(r.err(), Some(ConfigError::TripletsNotSaved));
    let mut c = config(600, 28800, 5184000, true);
    c.data.singlecheck = true;
    let r = App::new(c, Vec::new(), StoredStatistics::starting_at(at(0)));
    assert_eq!(r.err(), Some(ConfigError::SingleModes));
    let mut c = config(600, 28800, 5184000, true);
    c.data.singleupdate = true;
    let r = App::new(c, Vec::new(), StoredStatistics::starting_at(at(0)));
    assert_eq!(r.err(), Some(ConfigError::SingleModes));
}

#[test]
fn new_keeps_the_later_of_two_entries_with_one_key() {
    let first = GreylistEntry {
        triplet: triplet(v4(1, 2, 3, 4), None, "bob@x"),
        triplet_status: TripletStatus { last_seen: at(1), first_seen: at(1), count: 1 },
        listing_status: ListingStatus::Grey,
    };
    let second = GreylistEntry {
        triplet: triplet(v4(1, 2, 3, 9), None, "bob@x"),
        triplet_status: TripletStatus { last_seen: at(2), first_seen: at(2), count: 7 },
        listing_status: ListingStatus::Black,
    };
    let app = App::new(
        config(600, 28800, 5184000, true),
        vec![first, second],
        StoredStatistics::starting_at(at(0)),
    )
    .unwrap();
    assert_eq!(app.len(), 1);
    let entry = app.get_entry(&bob()).unwrap();
    assert_eq!(entry.listing_status, ListingStatus::Black);
    assert_eq!(entry.triplet_status.count, 7);
    assert_eq!(entry.triplet.to_string(), "1.2.3.9 bob@x");
}

#[test]
fn operations_at_the_time_of_the_call_use_the_clock() {
    let mut app = registry(600, 28800, 5184000);
    assert_eq!(app.add_or_update_triplet(bob()).listing_status, ListingStatus::Grey);
    let seen = app.get_entry(&bob()).unwrap().triplet_status.first_seen;
    assert!(seen.as_secs() > 1_600_000_000);
    assert_eq!(app.check_triplet(&bob()), ListingStatus::Grey);
    app.prune_expired_entries();
    assert_eq!(app.len(), 1);
    app.add_triplet(bob(), ListingStatus::White);
    assert_eq!(app.status(&bob()), Some(ListingStatus::White));
    assert!(StoredStatistics::default().start.as_secs() > 1_600_000_000);
    assert_eq!(StoredStatistics::default().lastsave, at(0));
}
