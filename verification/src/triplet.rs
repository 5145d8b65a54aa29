//! The triplet of a mail transaction (sender address, optional sender mail
//! address, recipient mail address), its text and its identity key.

use crate::decimal::{
    decimal, lemma_decimal_lacks, lemma_parse_decimal, parse_decimal, parse_number,
    render_decimal,
};
use crate::text::{
    append_str, chars_of, has_char, join, lemma_join_split, lemma_split_join, same_chars, split,
    split_chars, string_of, views,
};
use std::collections::hash_map::DefaultHasher;
use std::hash::Hasher;
use vstd::prelude::*;
use vstd::std_specs::hash::DefaultHasherAdditionalSpecFns;
use vstd::utf8::encode_utf8;

verus! {

/// An IP address as its octets in network order, four or sixteen of them,
/// beside the text under which it is shown.
pub struct IpView {
    pub octets: Seq<u8>,
    pub text: Seq<char>,
}

/// A triplet as plain values.
pub struct TripletView {
    pub ip: IpView,
    pub sender: Option<Seq<char>>,
    pub recipient: Seq<char>,
}

/// The text of an IPv4 address: its four octets in decimal, with a dot
/// between them.
pub open spec fn dotted(octets: Seq<u8>) -> Seq<char> {
    decimal(octets[0] as nat) + seq!['.'] + decimal(octets[1] as nat) + seq!['.'] + decimal(
        octets[2] as nat,
    ) + seq!['.'] + decimal(octets[3] as nat)
}

/// The octet that `s` is the decimal text of, if it is that of one.
pub open spec fn octet_of(s: Seq<char>) -> Option<u8> {
    match parse_decimal(s, 255) {
        Some(n) => if decimal(n) == s {
            Some(n as u8)
        } else {
            None
        },
        None => None,
    }
}

/// The four octets that `s` is the dotted decimal text of, if it is that of
/// four octets.
pub open spec fn ipv4_octets(s: Seq<char>) -> Option<Seq<u8>> {
    let parts = split(s, '.');
    if parts.len() == 4 && octet_of(parts[0]).is_some() && octet_of(parts[1]).is_some()
        && octet_of(parts[2]).is_some() && octet_of(parts[3]).is_some() {
        Some(
            seq![
                octet_of(parts[0]).unwrap(),
                octet_of(parts[1]).unwrap(),
                octet_of(parts[2]).unwrap(),
                octet_of(parts[3]).unwrap(),
            ],
        )
    } else {
        None
    }
}

/// The four pieces of a dotted text, joined by dots.
proof fn lemma_join_four(a: Seq<char>, b: Seq<char>, c: Seq<char>, d: Seq<char>)
    ensures
        join(seq![a, b, c, d], '.') == a + seq!['.'] + b + seq!['.'] + c + seq!['.'] + d,
{
    let parts = seq![a, b, c, d];
    let r1 = parts.drop_first();
    let r2 = r1.drop_first();
    let r3 = r2.drop_first();
    assert(r3.len() == 1 && r3[0] == d);
    assert(join(r3, '.') == d);
    assert(r2.len() == 2 && r2[0] == c);
    assert(join(r2, '.') == c + seq!['.'] + join(r3, '.'));
    assert(r1.len() == 3 && r1[0] == b);
    assert(join(r1, '.') == b + seq!['.'] + join(r2, '.'));
    assert(join(parts, '.') == a + seq!['.'] + join(r1, '.'));
    assert(join(parts, '.') =~= a + seq!['.'] + b + seq!['.'] + c + seq!['.'] + d);
}

/// A text is the dotted decimal text of four octets exactly when these are
/// its octets. It then holds no space.
pub proof fn lemma_ipv4_octets(s: Seq<char>, octets: Seq<u8>)
    ensures
        ipv4_octets(s) == Some(octets) <==> octets.len() == 4 && s == dotted(octets),
        ipv4_octets(s).is_some() ==> !s.contains(' '),
{
    let parts = split(s, '.');
    if ipv4_octets(s).is_some() {
        let o = ipv4_octets(s).unwrap();
        lemma_join_split(s, '.');
        assert(parts =~= seq![parts[0], parts[1], parts[2], parts[3]]);
        lemma_join_four(parts[0], parts[1], parts[2], parts[3]);
        assert(s == dotted(o));
        if octets.len() == 4 && s == dotted(octets) {
            lemma_dotted(octets);
            assert(o =~= octets);
        }
        lemma_dotted(o);
    } else if octets.len() == 4 && s == dotted(octets) {
        lemma_dotted(octets);
    }
}

/// The dotted decimal text of four octets is read as these octets, and holds
/// no space.
pub proof fn lemma_dotted(octets: Seq<u8>)
    requires
        octets.len() == 4,
    ensures
        ipv4_octets(dotted(octets)) == Some(octets),
        !dotted(octets).contains(' '),
{
    let a = decimal(octets[0] as nat);
    let b = decimal(octets[1] as nat);
    let c = decimal(octets[2] as nat);
    let d = decimal(octets[3] as nat);
    let parts = seq![a, b, c, d];
    lemma_join_four(a, b, c, d);
    lemma_decimal_lacks(octets[0] as nat, '.');
    lemma_decimal_lacks(octets[1] as nat, '.');
    lemma_decimal_lacks(octets[2] as nat, '.');
    lemma_decimal_lacks(octets[3] as nat, '.');
    lemma_split_join(parts, '.');
    lemma_parse_decimal(octets[0] as nat, 255);
    lemma_parse_decimal(octets[1] as nat, 255);
    lemma_parse_decimal(octets[2] as nat, 255);
    lemma_parse_decimal(octets[3] as nat, 255);
    assert(ipv4_octets(dotted(octets)).unwrap() =~= octets);
    let s = dotted(octets);
    lemma_decimal_lacks(octets[0] as nat, ' ');
    lemma_decimal_lacks(octets[1] as nat, ' ');
    lemma_decimal_lacks(octets[2] as nat, ' ');
    lemma_decimal_lacks(octets[3] as nat, ' ');
    if s.contains(' ') {
        let i = choose|i: int| 0 <= i < s.len() && s[i] == ' ';
        if i < a.len() {
            assert(a[i] == ' ');
            assert(a.contains(' '));
        } else if i == a.len() {
        } else if i < a.len() + 1 + b.len() {
            assert(b[i - a.len() - 1] == ' ');
            assert(b.contains(' '));
        } else if i == a.len() + 1 + b.len() {
        } else if i < a.len() + 1 + b.len() + 1 + c.len() {
            assert(c[i - a.len() - 1 - b.len() - 1] == ' ');
            assert(c.contains(' '));
        } else if i == a.len() + 1 + b.len() + 1 + c.len() {
        } else {
            assert(d[i - a.len() - 1 - b.len() - 1 - c.len() - 1] == ' ');
            assert(d.contains(' '));
        }
    }
}

/// The address that the token `token` denotes: the IPv4 address whose dotted
/// decimal text it is, and else `ipv6`, the IPv6 address that it was read as
/// elsewhere, if it was.
pub open spec fn address(token: Seq<char>, ipv6: Option<IpView>) -> Option<IpView> {
    match ipv4_octets(token) {
        Some(octets) => Some(IpView { octets, text: token }),
        None => match ipv6 {
            Some(ip) => if ip.octets.len() == 16 {
                Some(ip)
            } else {
                None
            },
            None => None,
        },
    }
}

/// Four octets make an IPv4 address, sixteen an IPv6 address. The text of an
/// address holds no space; that of an IPv4 address is its octets in dotted
/// decimal, and that of an IPv6 address is the dotted decimal text of no
/// octets.
pub open spec fn ip_valid(ip: IpView) -> bool {
    &&& ip.octets.len() == 4 || ip.octets.len() == 16
    &&& !ip.text.contains(' ')
    &&& ip.octets.len() == 4 ==> ip.text == dotted(ip.octets)
    &&& ip.octets.len() == 16 ==> ipv4_octets(ip.text).is_none()
}

/// A valid address, and mail addresses without a space.
pub open spec fn triplet_valid(t: TripletView) -> bool {
    &&& ip_valid(t.ip)
    &&& match t.sender {
        Some(s) => !s.contains(' '),
        None => true,
    }
    &&& !t.recipient.contains(' ')
}

/// The address of a sender: its octets for the identity key, and the text
/// under which it is shown and stored.
#[derive(Debug)]
pub struct SenderIp {
    octets: Vec<u8>,
    text: String,
}

impl View for SenderIp {
    type V = IpView;

    closed spec fn view(&self) -> IpView {
        IpView { octets: self.octets@, text: self.text@ }
    }
}

/// The octet that `part` is the decimal text of.
fn read_octet(part: &Vec<char>) -> (r: Option<u8>)
    ensures
        r == octet_of(part@),
{
    match parse_number(part, 255) {
        Some(n) => {
            let shortest = render_decimal(n as u128);
            if same_chars(&shortest, part) {
                Some(n as u8)
            } else {
                None
            }
        },
        None => None,
    }
}

/// Whether `v` and `w` hold the same bytes.
fn same_bytes(v: &Vec<u8>, w: &Vec<u8>) -> (b: bool)
    ensures
        b == (v@ == w@),
{
    if v.len() != w.len() {
        return false;
    }
    let mut i: usize = 0;
    while i < v.len()
        invariant
            i <= v.len(),
            v.len() == w.len(),
            v@.take(i as int) == w@.take(i as int),
        decreases v.len() - i,
    {
        if v[i] != w[i] {
            assert(v@[i as int] != w@[i as int]);
            return false;
        }
        assert(v@.take(i + 1) == v@.take(i as int).push(v@[i as int]));
        assert(w@.take(i + 1) == w@.take(i as int).push(w@[i as int]));
        i += 1;
    }
    assert(v@ == v@.take(v.len() as int));
    assert(w@ == w@.take(w.len() as int));
    true
}

/// A copy of the bytes of `v`.
fn copy_bytes(v: &Vec<u8>) -> (r: Vec<u8>)
    ensures
        r@ == v@,
{
    let mut r: Vec<u8> = Vec::new();
    let mut i: usize = 0;
    while i < v.len()
        invariant
            i <= v.len(),
            r@ == v@.take(i as int),
        decreases v.len() - i,
    {
        r.push(v[i]);
        i += 1;
    }
    assert(v@.take(v.len() as int) =~= v@);
    r
}

impl SenderIp {
    /// Every address is valid.
    #[verifier::type_invariant]
    pub open spec fn valid(self) -> bool {
        ip_valid(self@)
    }

    /// The address with the octets `octets` and the text `text`; `None`
    /// unless the two make a valid address.
    pub fn new(octets: Vec<u8>, text: String) -> (r: Option<SenderIp>)
        ensures
            match r {
                Some(ip) => ip@ == (IpView { octets: octets@, text: text@ }) && ip_valid(ip@),
                None => !ip_valid(IpView { octets: octets@, text: text@ }),
            },
    {
        if octets.len() != 4 && octets.len() != 16 {
            return None;
        }
        let t = chars_of(text.as_str());
        if has_char(&t, ' ') {
            return None;
        }
        match SenderIp::parse_ipv4(text.as_str()) {
            Some(ip) => {
                proof {
                    lemma_ipv4_octets(text@, ip@.octets);
                    lemma_ipv4_octets(text@, octets@);
                }
                if octets.len() == 4 && same_bytes(&octets, &ip.octets) {
                    Some(ip)
                } else {
                    None
                }
            },
            None => {
                proof {
                    lemma_ipv4_octets(text@, octets@);
                }
                if octets.len() == 16 {
                    Some(SenderIp { octets, text })
                } else {
                    None
                }
            },
        }
    }

    /// The IPv4 address that `text` is the dotted decimal text of; `None`
    /// where it is that of none.
    pub fn parse_ipv4(text: &str) -> (r: Option<SenderIp>)
        ensures
            match r {
                Some(ip) => ipv4_octets(text@) == Some(ip@.octets) && ip@.text == text@,
                None => ipv4_octets(text@).is_none(),
            },
    {
        let v = chars_of(text);
        let parts = split_chars(&v, '.');
        assert(views(parts@).len() == parts@.len());
        if parts.len() != 4 {
            return None;
        }
        assert(views(parts@)[0] == parts@[0]@);
        assert(views(parts@)[1] == parts@[1]@);
        assert(views(parts@)[2] == parts@[2]@);
        assert(views(parts@)[3] == parts@[3]@);
        match (
            read_octet(&parts[0]),
            read_octet(&parts[1]),
            read_octet(&parts[2]),
            read_octet(&parts[3]),
        ) {
            (Some(a), Some(b), Some(c), Some(d)) => {
                let mut octets: Vec<u8> = Vec::new();
                octets.push(a);
                octets.push(b);
                octets.push(c);
                octets.push(d);
                proof {
                    assert(octets@ =~= ipv4_octets(text@).unwrap());
                    lemma_ipv4_octets(text@, octets@);
                }
                Some(SenderIp { octets, text: text.to_owned() })
            },
            _ => None,
        }
    }

    /// The octets of the address, in network order.
    pub fn octets(&self) -> (r: &Vec<u8>)
        ensures
            r@ == self@.octets,
            ip_valid(self@),
    {
        proof {
            use_type_invariant(self);
        }
        &self.octets
    }

    /// The text of the address.
    pub fn text(&self) -> (r: &String)
        ensures
            r@ == self@.text,
            ip_valid(self@),
    {
        proof {
            use_type_invariant(self);
        }
        &self.text
    }

    /// Whether the address has four octets.
    pub fn is_ipv4(&self) -> (b: bool)
        ensures
            b == (self@.octets.len() == 4),
    {
        self.octets.len() == 4
    }
}

impl Clone for SenderIp {
    fn clone(&self) -> (r: Self)
        ensures
            r@ == self@,
    {
        proof {
            use_type_invariant(self);
        }
        SenderIp { octets: copy_bytes(&self.octets), text: self.text.clone() }
    }
}

/// The sender address, the sender's mail address where one was given, and the
/// recipient's mail address of one mail transaction.
#[derive(Debug)]
pub struct Triplet {
    sender_ip: SenderIp,
    sender_email: Option<String>,
    recipient_email: String,
}

impl View for Triplet {
    type V = TripletView;

    closed spec fn view(&self) -> TripletView {
        TripletView {
            ip: self.sender_ip@,
            sender: match self.sender_email {
                Some(s) => Some(s@),
                None => None,
            },
            recipient: self.recipient_email@,
        }
    }
}

/// Why a text is not a triplet.
#[derive(Clone, Copy, Debug, PartialEq, Eq, Structural)]
pub enum TripletError {
    /// It does not have two or three tokens.
    Tokens,
    /// Its first token denotes no IP address.
    Address,
}

/// The tokens of a triplet, its address still as text.
pub struct TripletTokens {
    pub ip: Seq<char>,
    pub sender: Option<Seq<char>>,
    pub recipient: Seq<char>,
}

/// The tokens of the text of a triplet: two tokens are address and
/// recipient, three are address, sender and recipient, and any other number
/// is no triplet.
pub open spec fn triplet_tokens(s: Seq<char>) -> Option<TripletTokens> {
    let parts = split(s, ' ');
    if parts.len() == 2 {
        Some(TripletTokens { ip: parts[0], sender: None, recipient: parts[1] })
    } else if parts.len() == 3 {
        Some(TripletTokens { ip: parts[0], sender: Some(parts[1]), recipient: parts[2] })
    } else {
        None
    }
}

/// The text of a triplet: address, sender if there is one, and recipient,
/// with one space between them.
pub open spec fn triplet_text(t: TripletView) -> Seq<char> {
    match t.sender {
        Some(s) => t.ip.text + seq![' '] + s + seq![' '] + t.recipient,
        None => t.ip.text + seq![' '] + t.recipient,
    }
}

/// The tokens of the text of a valid triplet are its address text, its sender
/// and its recipient.
pub proof fn lemma_triplet_text_tokens(t: TripletView)
    requires
        triplet_valid(t),
    ensures
        triplet_tokens(triplet_text(t)) == Some(
            TripletTokens { ip: t.ip.text, sender: t.sender, recipient: t.recipient },
        ),
{
    match t.sender {
        Some(s) => {
            let parts = seq![t.ip.text, s, t.recipient];
            let r1 = parts.drop_first();
            let r2 = r1.drop_first();
            assert(r2.len() == 1 && r2[0] == t.recipient);
            assert(join(r2, ' ') == t.recipient);
            assert(r1.len() == 2 && r1[0] == s);
            assert(join(r1, ' ') == s + seq![' '] + join(r2, ' '));
            assert(join(parts, ' ') == t.ip.text + seq![' '] + join(r1, ' '));
            assert(join(parts, ' ') =~= triplet_text(t));
            lemma_split_join(parts, ' ');
        },
        None => {
            let parts = seq![t.ip.text, t.recipient];
            let r1 = parts.drop_first();
            assert(r1.len() == 1 && r1[0] == t.recipient);
            assert(join(r1, ' ') == t.recipient);
            assert(join(parts, ' ') == t.ip.text + seq![' '] + join(r1, ' '));
            assert(join(parts, ' ') =~= triplet_text(t));
            lemma_split_join(parts, ' ');
        },
    }
}

/// The triplet of the tokens `t` with the address `ip`.
pub open spec fn resolved(t: TripletTokens, ip: IpView) -> TripletView {
    TripletView { ip, sender: t.sender, recipient: t.recipient }
}

/// The view of an address that may be missing.
pub open spec fn option_ip(ip: Option<SenderIp>) -> Option<IpView> {
    match ip {
        Some(ip) => Some(ip@),
        None => None,
    }
}

/// The triplet that the tokens `t` denote, where `ipv6` is what their first
/// token was read as elsewhere: `Address` where the token denotes no address,
/// `Tokens` where a mail address holds a space.
pub open spec fn resolve_tokens(t: TripletTokens, ipv6: Option<IpView>) -> Result<
    TripletView,
    TripletError,
> {
    match address(t.ip, ipv6) {
        None => Err(TripletError::Address),
        Some(ip) => if triplet_valid(resolved(t, ip)) {
            Ok(resolved(t, ip))
        } else {
            Err(TripletError::Tokens)
        },
    }
}

/// The text of a valid triplet is read as that triplet again, where its
/// address is handed in as what its first token denotes: an IPv4 address is
/// read from the text, and an IPv6 address is the one handed in.
pub proof fn lemma_triplet_reads_back(t: TripletView, ipv6: Option<IpView>)
    requires
        triplet_valid(t),
        t.ip.octets.len() == 16 ==> ipv6 == Some(t.ip),
    ensures
        triplet_tokens(triplet_text(t)).is_some(),
        resolve_tokens(triplet_tokens(triplet_text(t)).unwrap(), ipv6) == Ok::<
            TripletView,
            TripletError,
        >(t),
{
    lemma_triplet_text_tokens(t);
    if t.ip.octets.len() == 4 {
        lemma_dotted(t.ip.octets);
    }
}

/// A triplet whose address has not been read yet: the tokens of its text.
#[derive(Debug)]
pub struct TripletText {
    pub ip: String,
    pub sender: Option<String>,
    pub recipient: String,
}

impl View for TripletText {
    type V = TripletTokens;

    open spec fn view(&self) -> TripletTokens {
        TripletTokens {
            ip: self.ip@,
            sender: match self.sender {
                Some(s) => Some(s@),
                None => None,
            },
            recipient: self.recipient@,
        }
    }
}

impl TripletText {
    /// `TripletText::parse` on characters.
    pub fn from_chars(v: &Vec<char>) -> (r: Option<TripletText>)
        ensures
            match r {
                Some(t) => triplet_tokens(v@) == Some(t@),
                None => triplet_tokens(v@).is_none(),
            },
    {
        let parts = split_chars(v, ' ');
        assert(views(parts@).len() == parts@.len());
        if parts.len() == 2 {
            assert(views(parts@)[0] == parts@[0]@);
            assert(views(parts@)[1] == parts@[1]@);
            Some(
                TripletText {
                    ip: string_of(&parts[0]),
                    sender: None,
                    recipient: string_of(&parts[1]),
                },
            )
        } else if parts.len() == 3 {
            assert(views(parts@)[0] == parts@[0]@);
            assert(views(parts@)[1] == parts@[1]@);
            assert(views(parts@)[2] == parts@[2]@);
            Some(
                TripletText {
                    ip: string_of(&parts[0]),
                    sender: Some(string_of(&parts[1])),
                    recipient: string_of(&parts[2]),
                },
            )
        } else {
            None
        }
    }

    /// The tokens of the text `s` of a triplet; `None` unless `s` has two or
    /// three tokens.
    pub fn parse(s: &str) -> (r: Option<TripletText>)
        ensures
            match r {
                Some(t) => triplet_tokens(s@) == Some(t@),
                None => triplet_tokens(s@).is_none(),
            },
    {
        let v = chars_of(s);
        TripletText::from_chars(&v)
    }

    /// The triplet of these tokens. Its address is read from the first
    /// token where that is an IPv4 address in dotted decimal; else it is
    /// `ipv6`, the IPv6 address that the token was read as elsewhere.
    /// `Address` where there is no address, `Tokens` where a mail address
    /// holds a space.
    pub fn resolve(self, ipv6: Option<SenderIp>) -> (r: Result<Triplet, TripletError>)
        ensures
            match r {
                Ok(t) => resolve_tokens(self@, option_ip(ipv6)) == Ok::<TripletView, TripletError>(
                    t@,
                ),
                Err(e) => resolve_tokens(self@, option_ip(ipv6)) == Err::<
                    TripletView,
                    TripletError,
                >(e),
            },
    {
        let ip = match SenderIp::parse_ipv4(self.ip.as_str()) {
            Some(ip) => Some(ip),
            None => match ipv6 {
                Some(ip) => if ip.is_ipv4() {
                    None
                } else {
                    proof {
                        use_type_invariant(&ip);
                    }
                    Some(ip)
                },
                None => None,
            },
        };
        match ip {
            Some(ip) => match Triplet::new(ip, self.sender, self.recipient) {
                Some(t) => Ok(t),
                None => Err(TripletError::Tokens),
            },
            None => Err(TripletError::Address),
        }
    }
}

/// The octets that enter the identity key: all of them, or those of the
/// subnet, with the host part zero: the last octet of an IPv4 address, the
/// last nine octets of an IPv6 address.
pub open spec fn key_octets(octets: Seq<u8>, only_subnet: bool) -> Seq<u8> {
    if !only_subnet {
        octets
    } else if octets.len() == 4 {
        octets.take(3) + seq![0u8]
    } else {
        octets.take(7) + Seq::new((octets.len() - 7) as nat, |i: int| 0u8)
    }
}

/// A tag of eight bytes that holds `n`, low byte first.
pub open spec fn tag(n: u8) -> Seq<u8> {
    seq![n, 0u8, 0u8, 0u8, 0u8, 0u8, 0u8, 0u8]
}

/// The bytes of a text that enter the identity key: its UTF-8 form, closed
/// by a byte that no text holds.
pub open spec fn text_bytes(s: Seq<char>) -> Seq<u8> {
    encode_utf8(s).push(0xffu8)
}

/// The bytes that the identity key of a triplet is the hash of: a tag for
/// the kind of address, the octets that count, a tag for the presence of a
/// sender with its text, and the text of the recipient.
pub open spec fn key_bytes(t: TripletView, only_subnet: bool) -> Seq<u8> {
    tag(if t.ip.octets.len() == 4 { 0u8 } else { 1u8 }) + key_octets(t.ip.octets, only_subnet)
        + (match t.sender {
        Some(s) => tag(1u8) + text_bytes(s),
        None => tag(0u8),
    }) + text_bytes(t.recipient)
}

/// The identity key of a triplet: what a fresh `DefaultHasher` makes of its
/// key bytes, written at once.
pub open spec fn identity(t: TripletView, only_subnet: bool) -> u64 {
    DefaultHasher::spec_finish(seq![key_bytes(t, only_subnet)])
}

/// In subnet mode the identity key does not tell apart two triplets with the
/// same sender and recipient whose addresses are of one kind and differ in
/// the host part only: the last octet of an IPv4 address, the last nine
/// octets of an IPv6 address.
pub proof fn lemma_subnet_identity(a: TripletView, b: TripletView)
    requires
        a.ip.octets.len() == b.ip.octets.len(),
        a.ip.octets.len() == 4 || a.ip.octets.len() == 16,
        a.ip.octets.len() == 4 ==> a.ip.octets.take(3) == b.ip.octets.take(3),
        a.ip.octets.len() == 16 ==> a.ip.octets.take(7) == b.ip.octets.take(7),
        a.sender == b.sender,
        a.recipient == b.recipient,
    ensures
        identity(a, true) == identity(b, true),
{
    assert(key_octets(a.ip.octets, true) =~= key_octets(b.ip.octets, true));
}

/// Appends the bytes of `tail` to `v`.
fn push_bytes(v: &mut Vec<u8>, tail: &[u8])
    ensures
        final(v)@ == old(v)@ + tail@,
{
    let mut i: usize = 0;
    while i < tail.len()
        invariant
            i <= tail.len(),
            v@ == old(v)@ + tail@.take(i as int),
        decreases tail.len() - i,
    {
        v.push(tail[i]);
        i += 1;
    }
    assert(tail@.take(tail.len() as int) =~= tail@);
}

/// Appends a tag that holds `n` to `v`.
fn push_tag(v: &mut Vec<u8>, n: u8)
    ensures
        final(v)@ == old(v)@ + tag(n),
{
    v.push(n);
    let mut i: usize = 0;
    while i < 7
        invariant
            i <= 7,
            v@.len() == old(v)@.len() + 1 + i,
            v@.take(old(v)@.len() as int) == old(v)@,
            v@[old(v)@.len() as int] == n,
            forall|j: int| old(v)@.len() < j < v@.len() ==> v@[j] == 0u8,
        decreases 7 - i,
    {
        v.push(0);
        i += 1;
    }
    assert(v@ =~= old(v)@ + tag(n));
}

/// Appends the UTF-8 form of `s` and the closing byte to `v`.
fn push_text(v: &mut Vec<u8>, s: &String)
    ensures
        final(v)@ == old(v)@ + text_bytes(s@),
{
    push_bytes(v, s.as_str().as_bytes());
    v.push(0xff);
    assert(v@ =~= old(v)@ + text_bytes(s@));
}

impl Triplet {
    /// Every triplet is valid.
    #[verifier::type_invariant]
    pub open spec fn valid(self) -> bool {
        triplet_valid(self@)
    }

    /// The triplet of the address `ip`, the sender `sender` and the recipient
    /// `recipient`; `None` where a mail address holds a space.
    pub fn new(ip: SenderIp, sender: Option<String>, recipient: String) -> (r: Option<Triplet>)
        ensures
            match r {
                Some(t) => t@ == (TripletView {
                    ip: ip@,
                    sender: match sender {
                        Some(s) => Some(s@),
                        None => None,
                    },
                    recipient: recipient@,
                }) && triplet_valid(t@),
                None => !triplet_valid(
                    TripletView {
                        ip: ip@,
                        sender: match sender {
                            Some(s) => Some(s@),
                            None => None,
                        },
                        recipient: recipient@,
                    },
                ),
            },
    {
        proof {
            use_type_invariant(&ip);
        }
        if let Some(s) = &sender {
            let sv = chars_of(s.as_str());
            if has_char(&sv, ' ') {
                return None;
            }
        }
        let rv = chars_of(recipient.as_str());
        if has_char(&rv, ' ') {
            return None;
        }
        Some(Triplet { sender_ip: ip, sender_email: sender, recipient_email: recipient })
    }

    /// The address of the sender.
    pub fn sender_ip(&self) -> (r: &SenderIp)
        ensures
            r@ == self@.ip,
            triplet_valid(self@),
    {
        proof {
            use_type_invariant(self);
        }
        &self.sender_ip
    }

    /// The mail address of the sender, where one was given.
    pub fn sender_email(&self) -> (r: &Option<String>)
        ensures
            match *r {
                Some(s) => self@.sender == Some(s@),
                None => self@.sender.is_none(),
            },
    {
        &self.sender_email
    }

    /// The mail address of the recipient.
    pub fn recipient_email(&self) -> (r: &String)
        ensures
            r@ == self@.recipient,
    {
        &self.recipient_email
    }

    /// The text of the triplet.
    pub fn to_string(&self) -> (s: String)
        ensures
            s@ == triplet_text(self@),
    {
        let mut v: Vec<char> = chars_of(self.sender_ip.text.as_str());
        v.push(' ');
        if let Some(sender) = &self.sender_email {
            append_str(&mut v, sender.as_str());
            v.push(' ');
        }
        append_str(&mut v, self.recipient_email.as_str());
        assert(v@ =~= triplet_text(self@));
        string_of(&v)
    }

    /// The identity key of the triplet. With `only_subnet` the host part of
    /// the address does not count.
    pub fn hash(&self, only_subnet: bool) -> (key: u64)
        ensures
            key == identity(self@, only_subnet),
    {
        proof {
            use_type_invariant(self);
            use_type_invariant(&self.sender_ip);
        }
        let octets = &self.sender_ip.octets;
        let n = octets.len();
        let mut buf: Vec<u8> = Vec::new();
        push_tag(&mut buf, if n == 4 { 0 } else { 1 });
        let keep: usize = if !only_subnet { n } else if n == 4 { 3 } else { 7 };
        let ghost head = buf@;
        let mut i: usize = 0;
        while i < n
            invariant
                i <= n,
                n == octets@.len(),
                keep <= n,
                buf@ =~= head + Seq::new(
                    i as nat,
                    |j: int|
                        if j < keep {
                            octets@[j]
                        } else {
                            0u8
                        },
                ),
            decreases n - i,
        {
            buf.push(if i < keep { octets[i] } else { 0 });
            i += 1;
        }
        assert(buf@ =~= head + key_octets(octets@, only_subnet));
        match &self.sender_email {
            Some(sender) => {
                push_tag(&mut buf, 1);
                push_text(&mut buf, sender);
            },
            None => {
                push_tag(&mut buf, 0);
            },
        }
        push_text(&mut buf, &self.recipient_email);
        assert(buf@ =~= key_bytes(self@, only_subnet));
        let mut hasher = DefaultHasher::new();
        hasher.write(buf.as_slice());
        assert(hasher@ =~= seq![key_bytes(self@, only_subnet)]);
        hasher.finish()
    }
}

impl Clone for Triplet {
    fn clone(&self) -> (r: Self)
        ensures
            r@ == self@,
    {
        proof {
            use_type_invariant(self);
        }
        Triplet {
            sender_ip: self.sender_ip.clone(),
            sender_email: match &self.sender_email {
                Some(s) => Some(s.clone()),
                None => None,
            },
            recipient_email: self.recipient_email.clone(),
        }
    }
}

} // verus!
