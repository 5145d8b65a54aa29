use greylistd::app::App;
use greylistd::command::{parse_cmd_input, Command, Request, Verb};
use greylistd::config::{
    Config, Data, Socket, Timeouts, _default_expire, _default_retry_max, _default_retry_min,
    _default_statefile, _default_tripletfile, _default_true, _default_update,
};
use greylistd::dispatch::{Event, Step};
use greylistd::entry::StoredStatistics;
use greylistd::protocol::Reply;
use greylistd::report::{Row, StatsReport, Tally};
use greylistd::status::{status_from_arg, ListingStatus};
use greylistd::time::Timestamp;
use greylistd::triplet::{SenderIp, TripletError};

fn daemon(retry_min: u64, retry_max: u64) -> App {
    let config = Config {
        timeouts: Timeouts { retry_min, retry_max, expire: 5184000 },
        socket: Socket { path: "/tmp/greylistd.sock".to_string(), mode: "0660".to_string() },
        data: Data::defaults(),
    };
    App::new(config, Vec::new(), StoredStatistics::starting_at(Timestamp::from_secs(1000))).unwrap()
}

fn send(app: &mut App, line: &str, secs: u64) -> Reply {
    app.handle_client_at(line, None, Timestamp::from_secs(secs))
}

fn loopback() -> Option<SenderIp> {
    let mut octets = vec![0; 16];
    octets[15] = 1;
    SenderIp::new(octets, "::1".to_string())
}

fn text(reply: Reply) -> String {
    match reply {
        Reply::Text(t) => t,
        other => panic!("no plain text: {:?}", other),
    }
}

#[test]
fn scenario_update_twice_then_check() {
    let mut app = daemon(0, 3600);
    assert_eq!(text(send(&mut app, "update 1.2.3.4 bob@x", 5000)), "grey");
    assert_eq!(text(send(&mut app, "update 1.2.3.4 bob@x", 5000)), "white");
    assert_eq!(text(send(&mut app, "check 1.2.3.4 bob@x", 5000)), "white");
    let probe = Request::parse("status 1.2.3.4 bob@x").unwrap().resolve(None).unwrap();
    match probe {
        Command::Status { triplet } => {
            assert_eq!(app.get_entry(&triplet).unwrap().triplet_status.count, 2);
        }
        other => panic!("no status command: {:?}", other),
    }
}

#[test]
fn scenario_add_black_status_delete() {
    let mut app = daemon(600, 28800);
    assert_eq!(text(send(&mut app, "add --black 5.6.7.8 eve@y", 5000)), "Added to blacklist");
    assert_eq!(text(send(&mut app, "status 5.6.7.8 eve@y", 5001)), "black");
    assert_eq!(text(send(&mut app, "delete 5.6.7.8 eve@y", 5002)), "Removed from blacklist");
    assert_eq!(text(send(&mut app, "status 5.6.7.8 eve@y", 5003)), "unseen");
    assert_eq!(text(send(&mut app, "delete 5.6.7.8 eve@y", 5004)), "Not found");
}

#[test]
fn scenario_clear_grey_then_clear_all() {
    let mut app = daemon(600, 28800);
    send(&mut app, "update 1.2.3.4 bob@x", 5000);
    send(&mut app, "add --white 9.9.9.9 ann@z", 5000);
    send(&mut app, "add --black 5.6.7.8 eve@y", 5000);
    let before = app.statistics();
    assert_eq!(text(send(&mut app, "clear --grey", 6000)), "data and statistics cleared");
    assert_eq!(text(send(&mut app, "status 1.2.3.4 bob@x", 6000)), "unseen");
    assert_eq!(text(send(&mut app, "status 9.9.9.9 ann@z", 6000)), "white");
    assert_eq!(text(send(&mut app, "status 5.6.7.8 eve@y", 6000)), "black");
    assert_eq!(app.tally(ListingStatus::White).items, 1);
    assert_eq!(app.tally(ListingStatus::Black).items, 1);
    assert_eq!(app.statistics().grey, before.grey);
    assert_eq!(app.statistics().grey, 1);
    assert_eq!(app.statistics().start, before.start);
    assert_eq!(text(send(&mut app, "clear", 7000)), "data and statistics cleared");
    assert_eq!(app.len(), 0);
    assert_eq!(app.statistics().grey, 0);
    assert_eq!(app.statistics().start, Timestamp::from_secs(7000));
}

#[test]
fn update_is_the_default_command() {
    let mut app = daemon(600, 28800);
    assert_eq!(text(send(&mut app, "1.2.3.4 bob@x", 5000)), "grey");
    assert_eq!(text(send(&mut app, "1.2.3.4 ann@y bob@x", 5000)), "grey");
    assert_eq!(app.len(), 2);
    assert_eq!(text(send(&mut app, "--grey 1.2.3.4 bob@x", 5001)), "true");
    assert_eq!(text(send(&mut app, "update --white 1.2.3.4 bob@x", 5002)), "false");
    assert_eq!(text(send(&mut app, "update --white 1.2.3.4 bob@x", 5600)), "true");
    assert_eq!(app.statistics().white, 1);
}

#[test]
fn check_with_a_flag_answers_true_or_false() {
    let mut app = daemon(600, 28800);
    send(&mut app, "update 1.2.3.4 bob@x", 5000);
    assert_eq!(text(send(&mut app, "check --white 1.2.3.4 bob@x", 5001)), "false");
    assert_eq!(text(send(&mut app, "check --grey 1.2.3.4 bob@x", 5001)), "true");
    assert_eq!(text(send(&mut app, "check --white 1.2.3.4 bob@x", 5600)), "true");
    assert_eq!(text(send(&mut app, "check --black --white 1.2.3.4 bob@x", 5600)), "true");
    assert_eq!(text(send(&mut app, "check 1.2.3.4 bob@x", 5600)), "white");
    assert_eq!(text(send(&mut app, "status 1.2.3.4 bob@x", 5600)), "grey");
    assert_eq!(text(send(&mut app, "check 7.7.7.7 new@x", 5600)), "grey");
    assert_eq!(app.len(), 1);
}

#[test]
fn add_defaults_to_white_and_the_last_flag_counts() {
    let mut app = daemon(600, 28800);
    assert_eq!(text(send(&mut app, "add 1.2.3.4 bob@x", 5000)), "Added to whitelist");
    assert_eq!(text(send(&mut app, "add --white --grey 1.2.3.4 bob@x", 5000)), "Added to greylist");
    assert_eq!(text(send(&mut app, "add --bogus 1.2.3.4 bob@x", 5000)), "Added to whitelist");
    assert_eq!(text(send(&mut app, "status 1.2.3.4 bob@x", 5000)), "white");
}

#[test]
fn malformed_lines_are_invalid_and_change_nothing() {
    let mut app = daemon(600, 28800);
    for line in [
        "",
        "update",
        "update 1.2.3.4",
        "update 1.2.3.4 a b c",
        "update --white",
        "add --black",
        "check not-an-ip bob@x",
        "delete 1.2.3 bob@x",
        "status 1.2.3.4  a b",
        "bogus",
        "Stats",
        "1.2.3.4",
    ] {
        assert_eq!(text(send(&mut app, line, 5000)), "Invalid command", "{:?}", line);
    }
    assert_eq!(app.len(), 0);
    assert_eq!(app.statistics().grey, 0);
}

#[test]
fn an_ipv6_address_is_taken_as_it_was_read_elsewhere() {
    let mut app = daemon(600, 28800);
    let now = Timestamp::from_secs(5000);
    assert_eq!(text(app.handle_client_at("update ::0001 bob@x", None, now)), "Invalid command");
    let v4 = SenderIp::new(vec![1, 2, 3, 4], "1.2.3.4".to_string());
    assert_eq!(text(app.handle_client_at("update ::0001 bob@x", v4, now)), "Invalid command");
    assert_eq!(app.len(), 0);
    assert_eq!(text(app.handle_client_at("update ::0001 bob@x", loopback(), now)), "grey");
    assert_eq!(text(app.handle_client_at("status ::1 bob@x", loopback(), now)), "grey");
    assert_eq!(
        text(app.handle_client_at("list --grey", None, now)),
        "greylist data:\n=============\nLast Seen            Count      Data\n\
         5000                 1          ::1 bob@x\n\n"
    );
}

#[test]
fn an_ipv4_address_is_read_from_the_line() {
    let mut app = daemon(600, 28800);
    let now = Timestamp::from_secs(5000);
    assert_eq!(text(app.handle_client_at("update 1.2.3.4 bob@x", loopback(), now)), "grey");
    assert_eq!(text(app.handle_client_at("status 1.2.3.4 bob@x", None, now)), "grey");
    assert_eq!(text(app.handle_client_at("status ::1 bob@x", loopback(), now)), "unseen");
    for line in ["update 01.2.3.4 x", "update 1.2.3.256 x", "update 1.2.3 x", "update 1.2.3.4.5 x"] {
        assert_eq!(text(app.handle_client_at(line, None, now)), "Invalid command", "{}", line);
    }
}

#[test]
fn save_and_reload_are_handed_to_the_caller() {
    let mut app = daemon(600, 28800);
    send(&mut app, "update 1.2.3.4 bob@x", 30000);
    send(&mut app, "update 1.2.3.5 bob@y", 40);
    match send(&mut app, "save", 35000) {
        Reply::Save { snapshot, text } => {
            assert_eq!(text, "greylistd data has been saved");
            assert_eq!(snapshot.triplets.len(), 1);
            assert_eq!(snapshot.triplets[0].1, "1.2.3.4 bob@x");
            assert_eq!(snapshot.states.grey[0].1, "30000 30000 1");
            assert_eq!(snapshot.states.statistics.lastsave, Timestamp::from_secs(35000));
        }
        other => panic!("{:?}", other),
    }
    assert_eq!(app.len(), 1);
    assert_eq!(app.statistics().lastsave, Timestamp::from_secs(35000));
    let reply = send(&mut app, "reload", 36000);
    assert!(reply.reloads());
    match reply {
        Reply::Reload(t) => assert_eq!(t, "reloading configuration and data"),
        other => panic!("{:?}", other),
    }
    assert!(!send(&mut app, "save now", 37000).reloads());
    assert_eq!(app.statistics().lastsave, Timestamp::from_secs(37000));
}

#[test]
fn list_shows_one_table_for_each_status() {
    let mut app = daemon(600, 28800);
    send(&mut app, "update 1.2.3.4 ann@y bob@x", 5000);
    send(&mut app, "update 1.2.3.4 ann@y bob@x", 5001);
    send(&mut app, "add --black 5.6.7.8 eve@y", 1234567890);
    let head = "=============\nLast Seen            Count      Data\n";
    let grey = format!("greylist data:\n{}5001                 2          1.2.3.4 ann@y bob@x\n\n", head);
    let black = format!("blacklist data:\n{}1234567890           0          5.6.7.8 eve@y\n\n", head);
    let white = format!("whitelist data:\n{}\n", head);
    assert_eq!(text(send(&mut app, "list", 6000)), format!("{}{}{}", white, grey, black));
    assert_eq!(text(send(&mut app, "list --grey", 6000)), grey);
    assert_eq!(text(send(&mut app, "list --black --white", 6000)), format!("{}{}", black, white));
    assert_eq!(text(send(&mut app, "list --bogus", 6000)), format!("{}{}{}", white, grey, black));
    assert_eq!(text(send(&mut app, "list --grey --grey ", 6000)), format!("{}{}", grey, grey));
}

#[test]
fn enumerate_gives_the_rows_of_a_listing() {
    let mut app = daemon(600, 28800);
    send(&mut app, "update 1.2.3.4 ann@y bob@x", 5000);
    send(&mut app, "update 1.2.3.4 ann@y bob@x", 5001);
    send(&mut app, "add --black 5.6.7.8 eve@y", 77);
    let grey = || Row {
        status: ListingStatus::Grey,
        last_seen: 5001,
        count: 2,
        triplet: "1.2.3.4 ann@y bob@x".to_string(),
    };
    let black = || Row {
        status: ListingStatus::Black,
        last_seen: 77,
        count: 0,
        triplet: "5.6.7.8 eve@y".to_string(),
    };
    assert_eq!(app.enumerate(&Vec::new()), vec![grey(), black()]);
    assert_eq!(app.enumerate(&vec![ListingStatus::Black, ListingStatus::Grey]), vec![black(), grey()]);
    assert_eq!(app.enumerate(&vec![ListingStatus::White]), Vec::new());
    let mut keys = app.keys();
    keys.sort();
    keys.dedup();
    assert_eq!(keys.len(), 2);
}

#[test]
fn list_rows_hold_every_entry_once() {
    let mut app = daemon(600, 28800);
    for i in 0..20u8 {
        send(&mut app, &format!("update 10.0.{}.1 bob@x", i), 5000 + i as u64);
    }
    let listing = text(send(&mut app, "list --grey", 6000));
    let rows: Vec<&str> = listing.lines().skip(3).filter(|l| !l.is_empty()).collect();
    assert_eq!(rows.len(), 20);
    for i in 0..20u8 {
        let row = format!("{:<20} {:<10} 10.0.{}.1 bob@x", 5000 + i as u64, 1, i);
        assert_eq!(rows.iter().filter(|r| **r == row).count(), 1, "{}", row);
    }
}

#[test]
fn a_number_that_fills_its_column_is_shown_whole() {
    let mut app = daemon(600, 28800);
    send(&mut app, "add 1.2.3.4 bob@x", 12345678901234567890);
    let listing = text(send(&mut app, "list --white", 6000));
    assert_eq!(listing.lines().nth(3), Some("12345678901234567890 0          1.2.3.4 bob@x"));
}

#[test]
fn stats_reports_populations_and_counters() {
    let mut app = daemon(600, 28800);
    send(&mut app, "update 1.2.3.4 bob@x", 5000);
    send(&mut app, "update 1.2.3.4 bob@x", 5700);
    send(&mut app, "update 2.2.3.4 bob@x", 5000);
    send(&mut app, "update 3.2.3.4 bob@x", 5000);
    send(&mut app, "update 3.2.3.4 bob@x", 5001);
    send(&mut app, "update 3.2.3.4 bob@x", 5002);
    send(&mut app, "add --black 5.6.7.8 eve@y", 5000);
    send(&mut app, "delete 2.2.3.4 bob@x", 5000);
    let report = match send(&mut app, "stats", 1000 + 86400) {
        Reply::Stats(r) => r,
        other => panic!("{:?}", other),
    };
    assert_eq!(
        report,
        StatsReport {
            start: 1000,
            uptime: 86400,
            white: Tally { items: 1, requests: 2 },
            grey: Tally { items: 1, requests: 3 },
            black: Tally { items: 1, requests: 0 },
            previous_grey: 2,
            whitelisted: 1,
            expired_grey: 1,
        }
    );
    assert_eq!(report, app.stats_at(Timestamp::from_secs(1000 + 86400)));
    assert_eq!(
        report.render("50.0", "50.0"),
        "Statistics since 1000 (86400s ago)\n\n\
         1 items, matching 2 requests, are currently whitelisted\n\
         1 items, matching 3 requests, are currently greylisted\n\
         1 items, matching 0 requests, are currently blacklisted\n\n\
         Of 2 items that were initially greylisted:\n \
         - 1 (50.0%) became whitelisted\n \
         - 1 (50.0%) expired from the greylist\n"
    );
}

#[test]
fn stats_of_entries_added_by_hand_can_be_negative() {
    let mut app = daemon(600, 28800);
    send(&mut app, "add --grey 1.2.3.4 bob@x", 5000);
    send(&mut app, "add --grey 2.2.3.4 bob@x", 5000);
    send(&mut app, "update 2.2.3.4 bob@x", 5600);
    send(&mut app, "update 3.2.3.4 bob@x", 5600);
    let report = app.stats_at(Timestamp::from_secs(500));
    assert_eq!(report.uptime, 0);
    assert_eq!(report.grey, Tally { items: 2, requests: 1 });
    assert_eq!(report.white, Tally { items: 1, requests: 1 });
    assert_eq!(report.previous_grey, -1);
    assert_eq!(report.whitelisted, 1);
    assert_eq!(report.expired_grey, -2);
    let shown = report.render("NaN", "n/a");
    assert!(shown.contains("Of -1 items that were initially greylisted:\n"));
    assert!(shown.contains(" - 1 (NaN%) became whitelisted\n"));
    assert!(shown.ends_with(" - -2 (n/a%) expired from the greylist\n"));
}

#[test]
fn stats_without_former_grey_entries_show_no_number() {
    let mut app = daemon(600, 28800);
    send(&mut app, "update 1.2.3.4 bob@x", 5000);
    let report = app.stats_at(Timestamp::from_secs(5000));
    assert_eq!(report.previous_grey, 0);
    assert_eq!(report.expired_grey, 0);
    let shown = report.render("12.5", "87.5");
    assert!(shown.contains("Of 0 items that were initially greylisted:\n"));
    assert!(shown.contains(" - 0 (NaN%) became whitelisted\n"));
    assert!(shown.ends_with(" - 0 (NaN%) expired from the greylist\n"));
}

#[test]
fn mrtg_prunes_and_reports_populations() {
    let mut app = daemon(600, 28800);
    send(&mut app, "update 1.2.3.4 bob@x", 5000);
    send(&mut app, "update 2.2.3.4 bob@x", 40000);
    send(&mut app, "update 3.2.3.4 bob@x", 40000);
    send(&mut app, "add 4.2.3.4 bob@x", 40000);
    assert_eq!(text(send(&mut app, "mrtg", 41000)), "2\n1\n40000\nhostname\n");
    assert_eq!(app.len(), 3);
    assert_eq!(text(send(&mut app, "mrtg ignored", 900)), "2\n1\n0\nhostname\n");
}

#[test]
fn requests_are_read_token_by_token() {
    let r = Request::parse("add --black --bogus --grey 1.2.3.4 a@b c@d").unwrap();
    assert_eq!(r.verb, Verb::Add);
    assert_eq!(r.flags, vec![ListingStatus::Black, ListingStatus::Grey]);
    assert_eq!(r.ip_token(), Some("1.2.3.4".to_string()));
    let operand = r.operand.unwrap();
    assert_eq!(operand.sender, Some("a@b".to_string()));
    assert_eq!(operand.recipient, "c@d");
    let r = Request::parse("1.2.3.4  c@d").unwrap();
    assert_eq!(r.verb, Verb::Update);
    assert_eq!(r.operand.unwrap().sender, Some(String::new()));
    let r = Request::parse("list --white --black").unwrap();
    assert_eq!((r.verb, r.flags.clone()), (Verb::List, vec![ListingStatus::White, ListingStatus::Black]));
    assert_eq!(r.ip_token(), None);
    let r = Request::parse("clear").unwrap();
    assert_eq!((r.verb, r.flags.len()), (Verb::Clear, 0));
    assert_eq!(Request::parse("stats whatever").unwrap().verb, Verb::Stats);
    assert_eq!(Request::parse("save").unwrap().verb, Verb::Save);
    assert_eq!(Request::parse("mrtg").unwrap().verb, Verb::Mrtg);
    assert_eq!(Request::parse("reload").unwrap().verb, Verb::Reload);
    assert_eq!(Request::parse("status 1.2.3.4 x").unwrap().verb, Verb::Status);
    assert_eq!(Request::parse("delete 1.2.3.4 x").unwrap().verb, Verb::Delete);
    assert_eq!(Request::parse("check 1.2.3.4 x").unwrap().verb, Verb::Check);
    assert_eq!(Request::parse("update 1.2.3.4 x").unwrap().verb, Verb::Update);
    assert_eq!(Request::parse("updates 1.2.3.4 x").unwrap().operand.unwrap().ip, "updates");
    assert_eq!(Request::parse("delete x").err(), Some(TripletError::Tokens));
    assert_eq!(Request::parse("a b c d").err(), Some(TripletError::Tokens));
}

#[test]
fn resolve_tells_a_missing_address_from_a_bad_token() {
    let r = Request::parse("add ::1 x").unwrap();
    assert_eq!(r.resolve(None).err(), Some(TripletError::Address));
    let r = Request::parse("add 1.2.3.04 x").unwrap();
    assert_eq!(r.resolve(None).err(), Some(TripletError::Address));
    assert!(matches!(
        Request::parse("add ::1 x").unwrap().resolve(loopback()),
        Ok(Command::Add { add_status: ListingStatus::White, .. })
    ));
    let mut r = Request::parse("add 1.2.3.4 x").unwrap();
    r.operand.as_mut().unwrap().recipient = "two words".to_string();
    assert_eq!(r.resolve(None).err(), Some(TripletError::Tokens));
    let mut r = Request::parse("add 1.2.3.4 x").unwrap();
    r.operand = None;
    assert_eq!(r.resolve(None).err(), Some(TripletError::Tokens));
    assert!(matches!(Request::parse("list").unwrap().resolve(None), Ok(Command::List { .. })));
}

#[test]
fn leading_flags_end_at_the_first_other_token() {
    assert_eq!(
        parse_cmd_input("--white --foo 1.2.3.4 x"),
        (vec!["--white".to_string(), "--foo".to_string()], "1.2.3.4 x".to_string())
    );
    assert_eq!(parse_cmd_input("--grey"), (vec!["--grey".to_string()], String::new()));
    assert_eq!(parse_cmd_input("--grey "), (vec!["--grey".to_string()], String::new()));
    assert_eq!(parse_cmd_input(""), (Vec::new(), String::new()));
    assert_eq!(parse_cmd_input("-x --white"), (Vec::new(), "-x --white".to_string()));
    assert_eq!(parse_cmd_input("a --white"), (Vec::new(), "a --white".to_string()));
    assert_eq!(parse_cmd_input("--  x"), (vec!["--".to_string()], " x".to_string()));
}

#[test]
fn flags_name_statuses() {
    assert_eq!(status_from_arg("--white"), Some(ListingStatus::White));
    assert_eq!(status_from_arg("--grey"), Some(ListingStatus::Grey));
    assert_eq!(status_from_arg("--black"), Some(ListingStatus::Black));
    assert_eq!(status_from_arg("--White"), None);
    assert_eq!(status_from_arg("white"), None);
    assert_eq!(status_from_arg("--white "), None);
    assert_eq!(status_from_arg(""), None);
    assert_eq!(ListingStatus::White.to_string(), "white");
    assert_eq!(ListingStatus::Grey.to_string(), "grey");
    assert_eq!(ListingStatus::Black.to_string(), "black");
}

#[test]
fn the_daemon_saves_when_the_interval_has_passed() {
    let mut app = daemon(600, 28800);
    app.save_at(Timestamp::from_secs(5000));
    let go = |save| Step::GoOn { save };
    assert_eq!(app.next_step_at(Event::Served { reload: false }, Timestamp::from_secs(5600)), go(false));
    assert_eq!(
        app.next_step_at(Event::Served { reload: false }, Timestamp::new(5600, 1).unwrap()),
        go(true)
    );
    assert_eq!(app.next_step_at(Event::Failed, Timestamp::from_secs(5601)), go(true));
    assert_eq!(app.next_step_at(Event::Failed, Timestamp::from_secs(100)), go(false));
    assert_eq!(
        app.next_step_at(Event::Served { reload: true }, Timestamp::from_secs(9999)),
        Step::Leave { reload: true }
    );
    assert_eq!(
        app.next_step_at(Event::Stopped, Timestamp::from_secs(9999)),
        Step::Leave { reload: false }
    );
    assert_eq!(app.next_step(Event::Stopped), Step::Leave { reload: false });
    assert_eq!(app.next_step(Event::Failed), go(true));
}

#[test]
fn requests_at_the_time_of_the_call_use_the_clock() {
    let mut app = daemon(0, 3600);
    assert_eq!(text(app.handle_client("update 1.2.3.4 bob@x", None)), "grey");
    assert_eq!(text(app.handle_client("update 1.2.3.4 bob@x", None)), "white");
    let snapshot = app.save();
    assert_eq!(snapshot.triplets.len(), 1);
    assert!(app.statistics().lastsave.as_secs() > 1_600_000_000);
}

#[test]
fn defaults_are_those_of_the_manual() {
    assert!(_default_true());
    assert_eq!(_default_retry_min(), 600);
    assert_eq!(_default_retry_max(), 28800);
    assert_eq!(_default_expire(), 5184000);
    assert_eq!(_default_update(), 600);
    assert_eq!(_default_statefile(), "/var/lib/greylistd/states");
    assert_eq!(_default_tripletfile(), "/var/lib/greylistd/triplets");
    let t = Timeouts::defaults();
    assert_eq!((t.retry_min, t.retry_max, t.expire), (600, 28800, 5184000));
    let d = Data::defaults();
    assert!(d.savetriplets && d.onlysubnet && !d.singlecheck && !d.singleupdate);
    assert_eq!(d.update, 600);
}
