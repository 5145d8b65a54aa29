//! The configuration of the daemon, with the values that hold where the
//! configuration file names none. Durations are whole seconds.

use vstd::prelude::*;

verus! {

/// The three durations that drive the listing of a triplet.
#[derive(Clone, Copy, Debug)]
pub struct Timeouts {
    /// Delay before a triplet that was not known is allowed to pass.
    pub retry_min: u64,
    /// Lifetime of a triplet that has not been retried after that delay.
    pub retry_max: u64,
    /// Lifetime of a triplet that has allowed mail to pass.
    pub expire: u64,
}

/// Where the daemon listens.
#[derive(Debug)]
pub struct Socket {
    /// Path of the Unix domain socket.
    pub path: String,
    /// File mode of that socket, in octal digits.
    pub mode: String,
}

/// Where and how the daemon keeps its data.
#[derive(Debug)]
pub struct Data {
    /// The data is saved once more than this many seconds have passed since
    /// it was last saved.
    pub update: u64,
    /// Path of the file that holds the state of each triplet and the
    /// statistics.
    pub statefile: String,
    /// Path of the file that holds the text of each triplet.
    pub tripletfile: String,
    /// Whether the text of the triplets is kept.
    pub savetriplets: bool,
    /// Whether a check also looks for an entry of the address alone.
    pub singlecheck: bool,
    /// Whether an update lists the address alone.
    pub singleupdate: bool,
    /// Whether only the subnet of an address counts: /24 of an IPv4 address,
    /// /64 of an IPv6 address.
    pub onlysubnet: bool,
}

/// The configuration of the daemon.
#[derive(Debug)]
pub struct Config {
    pub timeouts: Timeouts,
    pub socket: Socket,
    pub data: Data,
}

/// The value of a switch that is on unless the configuration turns it off.
pub fn _default_true() -> (b: bool)
    ensures
        b,
{
    true
}

/// Ten minutes, in seconds.
pub fn _default_retry_min() -> (secs: u64)
    ensures
        secs == 600,
{
    600
}

/// Eight hours, in seconds.
pub fn _default_retry_max() -> (secs: u64)
    ensures
        secs == 28800,
{
    28800
}

/// Sixty days, in seconds.
pub fn _default_expire() -> (secs: u64)
    ensures
        secs == 5184000,
{
    5184000
}

/// Ten minutes, in seconds.
pub fn _default_update() -> (secs: u64)
    ensures
        secs == 600,
{
    600
}

/// The path of the state file.
pub fn _default_statefile() -> (path: String)
    ensures
        path@ == "/var/lib/greylistd/states"@,
{
    "/var/lib/greylistd/states".to_owned()
}

/// The path of the triplet file.
pub fn _default_tripletfile() -> (path: String)
    ensures
        path@ == "/var/lib/greylistd/triplets"@,
{
    "/var/lib/greylistd/triplets".to_owned()
}

impl Timeouts {
    /// The durations that hold where the configuration names none.
    pub fn defaults() -> (t: Timeouts)
        ensures
            t.retry_min == 600,
            t.retry_max == 28800,
            t.expire == 5184000,
    {
        Timeouts {
            retry_min: _default_retry_min(),
            retry_max: _default_retry_max(),
            expire: _default_expire(),
        }
    }
}

impl Data {
    /// The settings that hold where the configuration names none.
    pub fn defaults() -> (d: Data)
        ensures
            d.update == 600,
            d.statefile@ == "/var/lib/greylistd/states"@,
            d.tripletfile@ == "/var/lib/greylistd/triplets"@,
            d.savetriplets,
            !d.singlecheck,
            !d.singleupdate,
            d.onlysubnet,
    {
        Data {
            update: _default_update(),
            statefile: _default_statefile(),
            tripletfile: _default_tripletfile(),
            savetriplets: _default_true(),
            singlecheck: false,
            singleupdate: false,
            onlysubnet: _default_true(),
        }
    }
}

} // verus!
