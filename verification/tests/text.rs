use greylistd::decimal::{parse_number, render_decimal};
use greylistd::report::{push_padded, push_signed};
use greylistd::status::{StatusError, TripletStatus};
use greylistd::text::{
    append, append_str, chars_of, has_char, is_text, split_chars, split_once_chars, string_of,
};
use greylistd::time::{at_least, longer_than, Timestamp};
use greylistd::triplet::{SenderIp, Triplet, TripletError, TripletText};

fn chars(s: &str) -> Vec<char> {
    s.chars().collect()
}

fn number(s: &str, max: u64) -> Option<u64> {
    parse_number(&chars(s), max)
}

#[test]
fn strings_and_characters_convert_both_ways() {
    assert_eq!(chars_of("a b\u{e9}"), vec!['a', ' ', 'b', '\u{e9}']);
    assert_eq!(chars_of(""), Vec::<char>::new());
    assert_eq!(string_of(&vec!['x', '\u{1F600}', 'y']), "x\u{1F600}y");
    let mut v = chars("ab");
    append(&mut v, &chars("cd"));
    append_str(&mut v, "ef");
    assert_eq!(string_of(&v), "abcdef");
    assert!(is_text(&chars("add"), "add"));
    assert!(!is_text(&chars("add"), "ad"));
    assert!(!is_text(&chars("add"), "adx"));
    assert!(is_text(&chars(""), ""));
    assert!(has_char(&chars("a b"), ' '));
    assert!(!has_char(&chars("ab"), ' '));
}

#[test]
fn split_keeps_empty_pieces() {
    let pieces = |s: &str| -> Vec<String> {
        split_chars(&chars(s), ' ').iter().map(|p| p.iter().collect()).collect()
    };
    assert_eq!(pieces("a b c"), vec!["a", "b", "c"]);
    assert_eq!(pieces(""), vec![""]);
    assert_eq!(pieces(" "), vec!["", ""]);
    assert_eq!(pieces("a  b "), vec!["a", "", "b", ""]);
    assert_eq!(pieces("abc"), vec!["abc"]);
}

#[test]
fn split_once_cuts_at_the_first_separator() {
    let cut = |s: &str| -> Option<(String, String)> {
        split_once_chars(&chars(s), ' ').map(|(a, b)| (a.iter().collect(), b.iter().collect()))
    };
    assert_eq!(cut("a b c"), Some(("a".to_string(), "b c".to_string())));
    assert_eq!(cut(" x"), Some((String::new(), "x".to_string())));
    assert_eq!(cut("x "), Some(("x".to_string(), String::new())));
    assert_eq!(cut("abc"), None);
    assert_eq!(cut(""), None);
}

#[test]
fn decimal_text_of_numbers() {
    let shown = |n: u128| -> String { render_decimal(n).iter().collect() };
    assert_eq!(shown(0), "0");
    assert_eq!(shown(7), "7");
    assert_eq!(shown(10), "10");
    assert_eq!(shown(1234567890), "1234567890");
    assert_eq!(shown(u64::MAX as u128), "18446744073709551615");
    assert_eq!(shown(u128::MAX), "340282366920938463463374607431768211455");
}

#[test]
fn decimal_numbers_are_read_as_the_standard_parser_reads_them() {
    assert_eq!(number("0", u64::MAX), Some(0));
    assert_eq!(number("42", u64::MAX), Some(42));
    assert_eq!(number("+42", u64::MAX), Some(42));
    assert_eq!(number("007", u64::MAX), Some(7));
    assert_eq!(number("18446744073709551615", u64::MAX), Some(u64::MAX));
    assert_eq!(number("18446744073709551616", u64::MAX), None);
    assert_eq!(number("99999999999999999999999", u64::MAX), None);
    assert_eq!(number("4294967295", u32::MAX as u64), Some(4294967295));
    assert_eq!(number("4294967296", u32::MAX as u64), None);
    assert_eq!(number("", u64::MAX), None);
    assert_eq!(number("+", u64::MAX), None);
    assert_eq!(number("-1", u64::MAX), None);
    assert_eq!(number("++1", u64::MAX), None);
    assert_eq!(number("1+", u64::MAX), None);
    assert_eq!(number("12a", u64::MAX), None);
    assert_eq!(number(" 1", u64::MAX), None);
    assert_eq!(number("1 ", u64::MAX), None);
    assert_eq!(number("\u{661}", u64::MAX), None);
    assert_eq!(number("5", 4), None);
    assert_eq!(number("0", 0), Some(0));
    for s in ["0", "+9", "010", "18446744073709551615", "18446744073709551616", "", "x", "-0"] {
        assert_eq!(number(s, u64::MAX), s.parse::<u64>().ok(), "{:?}", s);
    }
}

#[test]
fn padding_fills_up_to_the_width() {
    let mut v = chars(">");
    push_padded(&mut v, &chars("ab"), 5);
    push_padded(&mut v, &chars("abcdef"), 5);
    push_padded(&mut v, &chars(""), 2);
    push_padded(&mut v, &chars("x"), 0);
    assert_eq!(string_of(&v), ">ab   abcdef  x");
    let mut v = Vec::new();
    push_signed(&mut v, -15);
    push_signed(&mut v, 0);
    push_signed(&mut v, 27);
    push_signed(&mut v, i128::MIN);
    assert_eq!(string_of(&v), format!("-15027{}", i128::MIN));
}

#[test]
fn status_text_holds_seconds_and_count() {
    let status = TripletStatus {
        last_seen: Timestamp::new(1700000000, 999_999_999).unwrap(),
        first_seen: Timestamp::new(1600000000, 5).unwrap(),
        count: 12,
    };
    assert_eq!(status.to_string(), "1700000000 1600000000 12");
    let read = TripletStatus::parse("1700000000 1600000000 12").unwrap();
    assert_eq!(read.last_seen, Timestamp::from_secs(1700000000));
    assert_eq!(read.first_seen, Timestamp::from_secs(1600000000));
    assert_eq!(read.count, 12);
    assert_eq!(TripletStatus::parse(&read.to_string()), Ok(read));
    let zero = TripletStatus::parse("0 0 0").unwrap();
    assert_eq!(zero.to_string(), "0 0 0");
    let big = TripletStatus::parse("18446744073709551615 +1 4294967295").unwrap();
    assert_eq!(big.last_seen.as_secs(), u64::MAX);
    assert_eq!(big.first_seen.as_secs(), 1);
    assert_eq!(big.count, u32::MAX);
}

#[test]
fn status_text_errors() {
    assert_eq!(TripletStatus::parse(""), Err(StatusError::Fields));
    assert_eq!(TripletStatus::parse("1 2"), Err(StatusError::Fields));
    assert_eq!(TripletStatus::parse("1 2 3 4"), Err(StatusError::Fields));
    assert_eq!(TripletStatus::parse("1  2 3"), Err(StatusError::Fields));
    assert_eq!(TripletStatus::parse("1 2 3 "), Err(StatusError::Fields));
    assert_eq!(TripletStatus::parse("1 2 x"), Err(StatusError::Number));
    assert_eq!(TripletStatus::parse("1 -2 3"), Err(StatusError::Number));
    assert_eq!(TripletStatus::parse("1 2 4294967296"), Err(StatusError::Number));
    assert_eq!(TripletStatus::parse("18446744073709551616 2 3"), Err(StatusError::Number));
    assert_eq!(TripletStatus::parse("1 2 "), Err(StatusError::Number));
    assert_eq!(TripletStatus::parse("1 2 3\n"), Err(StatusError::Number));
}

#[test]
fn timestamps_count_nanoseconds() {
    assert_eq!(Timestamp::new(1, 1_000_000_000), None);
    assert_eq!(Timestamp::new(1, u32::MAX), None);
    let t = Timestamp::new(3, 999_999_999).unwrap();
    assert_eq!((t.as_secs(), t.subsec_nanos()), (3, 999_999_999));
    assert_eq!(t.as_nanos(), 3_999_999_999);
    assert_eq!(t.truncated(), Timestamp::from_secs(3));
    let early = Timestamp::new(1, 500_000_000).unwrap();
    assert_eq!(t.since(&early), 2_499_999_999);
    assert_eq!(early.since(&t), 0);
    assert_eq!(t.secs_since(&early), 2);
    assert_eq!(early.secs_since(&t), 0);
    let far = Timestamp::new(u64::MAX, 999_999_999).unwrap();
    assert_eq!(far.since(&Timestamp::from_secs(0)), u64::MAX as u128 * 1_000_000_000 + 999_999_999);
    assert_eq!(far.secs_since(&Timestamp::from_secs(0)), u64::MAX);
    assert!(longer_than(&t, &early, 2));
    assert!(!longer_than(&t, &early, 3));
    assert!(!longer_than(&Timestamp::from_secs(5), &Timestamp::from_secs(3), 2));
    assert!(at_least(&Timestamp::from_secs(5), &Timestamp::from_secs(3), 2));
    assert!(!at_least(&t, &early, 3));
    assert!(at_least(&early, &t, 0));
    assert!(longer_than(&far, &Timestamp::from_secs(0), u64::MAX));
    assert!(!longer_than(&Timestamp::from_secs(u64::MAX), &Timestamp::from_secs(0), u64::MAX));
}

#[test]
fn triplet_text_has_two_or_three_tokens() {
    let t = TripletText::parse("1.2.3.4 bob@x").unwrap();
    assert_eq!((t.ip.as_str(), t.sender.clone(), t.recipient.as_str()), ("1.2.3.4", None, "bob@x"));
    let t = TripletText::parse("::1 ann@y bob@x").unwrap();
    assert_eq!(t.ip, "::1");
    assert_eq!(t.sender, Some("ann@y".to_string()));
    assert_eq!(t.recipient, "bob@x");
    let t = TripletText::parse(" ").unwrap();
    assert_eq!((t.ip.as_str(), t.sender.clone(), t.recipient.as_str()), ("", None, ""));
    assert!(TripletText::parse("").is_none());
    assert!(TripletText::parse("onlyone").is_none());
    assert!(TripletText::parse("a b c d").is_none());
    assert!(TripletText::parse("a b c ").is_none());
}

#[test]
fn triplets_are_shown_as_they_are_read() {
    let ip = SenderIp::new(vec![10, 0, 0, 1], "10.0.0.1".to_string()).unwrap();
    assert!(ip.is_ipv4());
    assert_eq!(ip.octets(), &vec![10, 0, 0, 1]);
    assert_eq!(ip.text(), "10.0.0.1");
    let with = Triplet::new(ip.clone(), Some("ann@y".to_string()), "bob@x".to_string()).unwrap();
    assert_eq!(with.to_string(), "10.0.0.1 ann@y bob@x");
    assert_eq!(with.sender_email(), &Some("ann@y".to_string()));
    assert_eq!(with.recipient_email(), "bob@x");
    assert_eq!(with.sender_ip().text(), "10.0.0.1");
    let without = Triplet::new(ip.clone(), None, "bob@x".to_string()).unwrap();
    assert_eq!(without.to_string(), "10.0.0.1 bob@x");
    for t in [&with, &without] {
        let read = TripletText::parse(&t.to_string()).unwrap();
        assert_eq!(read.ip, "10.0.0.1");
        let again = read.resolve(Some(ip.clone())).unwrap();
        assert_eq!(again.to_string(), t.to_string());
        assert_eq!(again.hash(false), t.hash(false));
    }
    let empty = Triplet::new(ip.clone(), Some(String::new()), String::new()).unwrap();
    assert_eq!(empty.to_string(), "10.0.0.1  ");
    assert_eq!(TripletText::parse("10.0.0.1  ").unwrap().sender, Some(String::new()));
}

#[test]
fn ipv4_addresses_are_read_from_dotted_decimal() {
    let ip = SenderIp::parse_ipv4("192.168.0.255").unwrap();
    assert_eq!(ip.octets(), &vec![192, 168, 0, 255]);
    assert_eq!(ip.text(), "192.168.0.255");
    assert!(ip.is_ipv4());
    assert_eq!(SenderIp::parse_ipv4("0.0.0.0").unwrap().octets(), &vec![0, 0, 0, 0]);
    for text in [
        "", "1", "1.2.3", "1.2.3.4.5", "1.2.3.", ".1.2.3", "1..2.3", "1.2.3.256", "1.2.3.999",
        "01.2.3.4", "1.2.3.00", "+1.2.3.4", "1.2.3.-4", "1.2.3.4 ", " 1.2.3.4", "1.2.3.a", "::1",
        "1.2.3.4\n", "0x1.2.3.4", "1,2,3,4", "\u{661}.2.3.4",
    ] {
        assert!(SenderIp::parse_ipv4(text).is_none(), "{:?}", text);
    }
}

#[test]
fn invalid_addresses_and_triplets_are_refused() {
    assert!(SenderIp::new(vec![1, 2, 3], "1.2.3".to_string()).is_none());
    assert!(SenderIp::new(vec![], String::new()).is_none());
    assert!(SenderIp::new(vec![0; 5], "x".to_string()).is_none());
    assert!(SenderIp::new(vec![0; 16], "::".to_string()).is_some());
    assert!(!SenderIp::new(vec![0; 16], "::".to_string()).unwrap().is_ipv4());
    assert!(SenderIp::new(vec![1, 2, 3, 4], "1.2.3.4 ".to_string()).is_none());
    assert!(SenderIp::new(vec![1, 2, 3, 4], "1.2.3.5".to_string()).is_none());
    assert!(SenderIp::new(vec![1, 2, 3, 4], "01.2.3.4".to_string()).is_none());
    assert!(SenderIp::new(vec![1, 2, 3, 4], "1.2.3".to_string()).is_none());
    assert!(SenderIp::new(vec![0, 10, 200, 255], "0.10.200.255".to_string()).is_some());
    assert!(SenderIp::new(vec![0; 16], "0.0.0.0".to_string()).is_none());
    assert!(SenderIp::new(vec![0; 16], "0.0.0.00".to_string()).is_some());
    let ip = SenderIp::new(vec![1, 2, 3, 4], "1.2.3.4".to_string()).unwrap();
    assert!(Triplet::new(ip.clone(), None, "a b".to_string()).is_none());
    assert!(Triplet::new(ip.clone(), Some(" ".to_string()), "ab".to_string()).is_none());
    assert!(Triplet::new(ip.clone(), Some("a".to_string()), "b".to_string()).is_some());
    let tokens = TripletText::parse("::1 bob@x").unwrap();
    assert_eq!(tokens.resolve(None).err(), Some(TripletError::Address));
    let tokens = TripletText::parse("1.2.3.4 bob@x").unwrap();
    assert_eq!(tokens.resolve(None).unwrap().to_string(), "1.2.3.4 bob@x");
    let spaced =
        TripletText { ip: "1.2.3.4".to_string(), sender: None, recipient: "a b".to_string() };
    assert_eq!(spaced.resolve(None).err(), Some(TripletError::Tokens));
    let other = TripletText { ip: "x".to_string(), sender: None, recipient: "ab".to_string() };
    let v4 = SenderIp::new(vec![1, 2, 3, 4], "1.2.3.4".to_string());
    assert_eq!(other.resolve(v4).err(), Some(TripletError::Address));
}
