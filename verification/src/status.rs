//! The listing of a triplet and the record of when and how often it was seen.

use crate::decimal::{
    decimal, lemma_decimal, lemma_parse_decimal, parse_decimal, parse_number, push_decimal,
};
use crate::text::{
    chars_of, join, lemma_split_join, split, split_chars, string_of, views,
};
use crate::time::{secs_to_nanos, whole_seconds, Timestamp};
use vstd::prelude::*;

verus! {

/// How the registry currently lists a triplet.
#[derive(Clone, Copy, Debug, PartialEq, Eq, Structural)]
pub enum ListingStatus {
    White,
    Black,
    Grey,
}

/// The lower-case name of a listing: `white`, `grey` or `black`.
pub open spec fn status_name(status: ListingStatus) -> Seq<char> {
    match status {
        ListingStatus::White => "white"@,
        ListingStatus::Grey => "grey"@,
        ListingStatus::Black => "black"@,
    }
}

impl ListingStatus {
    /// The lower-case name of the listing.
    pub fn to_string(&self) -> (s: String)
        ensures
            s@ == status_name(*self),
    {
        match self {
            ListingStatus::White => "white".to_owned(),
            ListingStatus::Grey => "grey".to_owned(),
            ListingStatus::Black => "black".to_owned(),
        }
    }
}

/// The option flag that names a listing.
pub open spec fn flag_status(arg: Seq<char>) -> Option<ListingStatus> {
    if arg == "--white"@ {
        Some(ListingStatus::White)
    } else if arg == "--grey"@ {
        Some(ListingStatus::Grey)
    } else if arg == "--black"@ {
        Some(ListingStatus::Black)
    } else {
        None
    }
}

/// The listing that the flag `arg` names: `--white`, `--grey` or `--black`;
/// `None` for any other text.
pub fn status_from_arg(arg: &str) -> (r: Option<ListingStatus>)
    ensures
        r == flag_status(arg@),
{
    let a = chars_of(arg);
    status_from_flag(&a)
}

/// `status_from_arg` on characters.
pub fn status_from_flag(arg: &Vec<char>) -> (r: Option<ListingStatus>)
    ensures
        r == flag_status(arg@),
{
    if crate::text::is_text(arg, "--white") {
        Some(ListingStatus::White)
    } else if crate::text::is_text(arg, "--grey") {
        Some(ListingStatus::Grey)
    } else if crate::text::is_text(arg, "--black") {
        Some(ListingStatus::Black)
    } else {
        None
    }
}

/// When a triplet was seen last and first, and how many deciding requests
/// it has had. The times are nanoseconds since the epoch.
pub struct MetaView {
    pub last_seen: nat,
    pub first_seen: nat,
    pub count: nat,
}

/// When a triplet was seen last and first, and how many deciding requests it
/// has had.
#[derive(Clone, Copy, Debug, PartialEq, Eq, Structural)]
pub struct TripletStatus {
    pub last_seen: Timestamp,
    pub first_seen: Timestamp,
    pub count: u32,
}

impl View for TripletStatus {
    type V = MetaView;

    open spec fn view(&self) -> MetaView {
        MetaView {
            last_seen: self.last_seen@,
            first_seen: self.first_seen@,
            count: self.count as nat,
        }
    }
}

/// Why a text is not a triplet status.
#[derive(Clone, Copy, Debug, PartialEq, Eq, Structural)]
pub enum StatusError {
    /// It does not have exactly three fields.
    Fields,
    /// One of its three fields is not a number of the size asked for.
    Number,
}

/// The stored form of a status: last seen and first seen in whole seconds
/// since the epoch, then the count, with one space between them.
pub open spec fn status_text(m: MetaView) -> Seq<char> {
    decimal(m.last_seen / 1_000_000_000) + seq![' '] + decimal(m.first_seen / 1_000_000_000)
        + seq![' '] + decimal(m.count)
}

/// What a stored status denotes: three fields, two times in seconds that fit
/// 64 bits and a count that fits 32 bits.
pub open spec fn parse_status(s: Seq<char>) -> Result<MetaView, StatusError> {
    let parts = split(s, ' ');
    if parts.len() != 3 {
        Err(StatusError::Fields)
    } else {
        match (
            parse_decimal(parts[0], u64::MAX as nat),
            parse_decimal(parts[1], u64::MAX as nat),
            parse_decimal(parts[2], u32::MAX as nat),
        ) {
            (Some(last), Some(first), Some(count)) => Ok(
                MetaView {
                    last_seen: secs_to_nanos(last),
                    first_seen: secs_to_nanos(first),
                    count,
                },
            ),
            _ => Err(StatusError::Number),
        }
    }
}

/// A status with both times cut down to whole seconds.
pub open spec fn truncate_meta(m: MetaView) -> MetaView {
    MetaView {
        last_seen: whole_seconds(m.last_seen),
        first_seen: whole_seconds(m.first_seen),
        count: m.count,
    }
}

/// Whether the times and the count of `m` fit the machine types that hold them.
pub open spec fn meta_fits(m: MetaView) -> bool {
    &&& m.last_seen / 1_000_000_000 <= u64::MAX
    &&& m.first_seen / 1_000_000_000 <= u64::MAX
    &&& m.count <= u32::MAX
}

/// Reading the stored form of a status gives the status back, with its times
/// cut down to whole seconds.
pub proof fn lemma_status_round_trip(m: MetaView)
    requires
        meta_fits(m),
    ensures
        parse_status(status_text(m)) == Ok::<MetaView, StatusError>(truncate_meta(m)),
{
    let a = decimal(m.last_seen / 1_000_000_000);
    let b = decimal(m.first_seen / 1_000_000_000);
    let c = decimal(m.count);
    let parts = seq![a, b, c];
    lemma_decimal(m.last_seen / 1_000_000_000);
    lemma_decimal(m.first_seen / 1_000_000_000);
    lemma_decimal(m.count);
    lemma_parse_decimal(m.last_seen / 1_000_000_000, u64::MAX as nat);
    lemma_parse_decimal(m.first_seen / 1_000_000_000, u64::MAX as nat);
    lemma_parse_decimal(m.count, u32::MAX as nat);
    assert(join(parts, ' ') =~= status_text(m)) by {
        let r1 = parts.drop_first();
        let r2 = r1.drop_first();
        assert(r2.len() == 1 && r2[0] == c);
        assert(join(r2, ' ') == c);
        assert(r1.len() == 2 && r1[0] == b);
        assert(join(r1, ' ') == b + seq![' '] + join(r2, ' '));
        assert(join(parts, ' ') == a + seq![' '] + join(r1, ' '));
    }
    lemma_split_join(parts, ' ');
}

impl TripletStatus {
    /// The stored form of the status.
    pub fn to_string(&self) -> (s: String)
        ensures
            s@ == status_text(self@),
    {
        let mut v: Vec<char> = Vec::new();
        push_decimal(&mut v, self.last_seen.as_secs() as u128);
        v.push(' ');
        push_decimal(&mut v, self.first_seen.as_secs() as u128);
        v.push(' ');
        push_decimal(&mut v, self.count as u128);
        assert(v@ =~= status_text(self@));
        string_of(&v)
    }

    /// Reads a stored status.
    pub fn parse(s: &str) -> (r: Result<TripletStatus, StatusError>)
        ensures
            match r {
                Ok(status) => parse_status(s@) == Ok::<MetaView, StatusError>(status@),
                Err(e) => parse_status(s@) == Err::<MetaView, StatusError>(e),
            },
    {
        let v = chars_of(s);
        let parts = split_chars(&v, ' ');
        assert(views(parts@).len() == parts@.len());
        if parts.len() != 3 {
            return Err(StatusError::Fields);
        }
        assert(views(parts@)[0] == parts@[0]@);
        assert(views(parts@)[1] == parts@[1]@);
        assert(views(parts@)[2] == parts@[2]@);
        let last = parse_number(&parts[0], u64::MAX);
        let first = parse_number(&parts[1], u64::MAX);
        let count = parse_number(&parts[2], 0xffff_ffff);
        match (last, first, count) {
            (Some(last), Some(first), Some(count)) => Ok(
                TripletStatus {
                    last_seen: Timestamp::from_secs(last),
                    first_seen: Timestamp::from_secs(first),
                    count: count as u32,
                },
            ),
            _ => Err(StatusError::Number),
        }
    }
}

} // verus!
